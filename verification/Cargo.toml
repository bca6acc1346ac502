[package]
name = "github_sync"
version = "0.1.0"
edition = "2021"
publish = false

[dependencies]
chrono = "*"
clap = { version = "*", features = ["derive"] }
colored = "*"
dirs = "*"
git2 = { version = "*", default-features = false }
nix = { version = "*", features = ["signal", "process"] }
notify = "*"
serde = { version = "*", features = ["derive"] }
serde_json = "*"
thiserror = "*"
