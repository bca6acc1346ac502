//! Verified text helpers: trimming, splitting on a separator, matching path
//! components, and extracting the final component of a path.

use vstd::prelude::*;

verus! {

// ---------------------------------------------------------------------------
// Equality of string slices
// ---------------------------------------------------------------------------

/// Whether two string slices hold the same characters.
pub fn str_eq(a: &str, b: &str) -> (r: bool)
    ensures
        r == (a@ == b@),
{
    let oa = a.to_owned();
    let ob = b.to_owned();
    oa.eq(&ob)
}

/// Whether some string in `s` holds the characters `p`.
pub open spec fn seq_has_str(s: Seq<String>, p: Seq<char>) -> bool {
    exists|i: int| 0 <= i < s.len() && s[i]@ == p
}

/// Whether some string in `v` holds the same characters as `p`.
pub fn vec_contains_str(v: &Vec<String>, p: &String) -> (r: bool)
    ensures
        r == seq_has_str(v@, p@),
{
    let mut i: usize = 0;
    while i < v.len()
        invariant
            i <= v@.len(),
            forall|j: int| 0 <= j < i ==> v@[j]@ != p@,
        decreases v@.len() - i,
    {
        if v[i].eq(p) {
            return true;
        }
        i = i + 1;
    }
    false
}

// ---------------------------------------------------------------------------
// Trimming surrounding whitespace
// ---------------------------------------------------------------------------

/// The whitespace characters recognized when trimming.
pub open spec fn is_space(c: char) -> bool {
    c == ' ' || c == '\t' || c == '\n' || c == '\r'
}

/// `s` with its leading whitespace removed.
pub open spec fn trim_front(s: Seq<char>) -> Seq<char>
    decreases s.len(),
{
    if s.len() > 0 && is_space(s[0]) {
        trim_front(s.subrange(1, s.len() as int))
    } else {
        s
    }
}

/// `s` with its trailing whitespace removed.
pub open spec fn trim_back(s: Seq<char>) -> Seq<char>
    decreases s.len(),
{
    if s.len() > 0 && is_space(s.last()) {
        trim_back(s.drop_last())
    } else {
        s
    }
}

/// `s` with leading and trailing whitespace removed.
pub open spec fn spec_trim(s: Seq<char>) -> Seq<char> {
    trim_back(trim_front(s))
}

/// Whether `c` is one of the whitespace characters recognized when trimming.
pub fn is_space_char(c: char) -> (r: bool)
    ensures
        r == is_space(c),
{
    c == ' ' || c == '\t' || c == '\n' || c == '\r'
}

proof fn lemma_trim_front_at(s: Seq<char>, a: int)
    requires
        0 <= a <= s.len(),
        forall|j: int| 0 <= j < a ==> is_space(s[j]),
        a < s.len() ==> !is_space(s[a]),
    ensures
        trim_front(s) == s.subrange(a, s.len() as int),
    decreases a,
{
    if a == 0 {
        if s.len() > 0 && is_space(s[0]) {
            assert(false);
        }
        assert(s.subrange(0, s.len() as int) =~= s);
    } else {
        let t = s.subrange(1, s.len() as int);
        assert(forall|j: int| 0 <= j < a - 1 ==> is_space(#[trigger] t[j]));
        lemma_trim_front_at(t, a - 1);
        assert(t.subrange(a - 1, t.len() as int) =~= s.subrange(a, s.len() as int));
    }
}

proof fn lemma_trim_back_at(s: Seq<char>, b: int)
    requires
        0 <= b <= s.len(),
        forall|j: int| b <= j < s.len() ==> is_space(s[j]),
        b > 0 ==> !is_space(s[b - 1]),
    ensures
        trim_back(s) == s.subrange(0, b),
    decreases s.len() - b,
{
    if b == s.len() {
        if s.len() > 0 && is_space(s.last()) {
            assert(false);
        }
        assert(s.subrange(0, s.len() as int) =~= s);
    } else {
        let t = s.drop_last();
        assert(t =~= s.subrange(0, s.len() - 1));
        lemma_trim_back_at(t, b);
        assert(t.subrange(0, b) =~= s.subrange(0, b));
    }
}

/// A copy of `s` with surrounding whitespace removed.
pub fn trim_str(s: &str) -> (r: String)
    ensures
        r@ == spec_trim(s@),
{
    let len = s.unicode_len();

    // The count of leading whitespace characters.
    let mut a: usize = 0;
    let mut seen_mark: bool = false;
    let mut i: usize = 0;
    while i < len
        invariant
            i <= len,
            len == s@.len(),
            a <= i,
            forall|j: int| 0 <= j < a ==> is_space(s@[j]),
            !seen_mark ==> a == i,
            seen_mark ==> a < len && !is_space(s@[a as int]),
        decreases len - i,
    {
        if !seen_mark {
            let c = s.get_char(i);
            if is_space_char(c) {
                a = i + 1;
            } else {
                seen_mark = true;
            }
        }
        i = i + 1;
    }

    // One past the last non-whitespace character.
    let mut b: usize = 0;
    let mut k: usize = 0;
    while k < len
        invariant
            k <= len,
            len == s@.len(),
            b <= k,
            forall|j: int| b <= j < k ==> is_space(s@[j]),
            b > 0 ==> !is_space(s@[b - 1]),
        decreases len - k,
    {
        let c = s.get_char(k);
        if !is_space_char(c) {
            b = k + 1;
        }
        k = k + 1;
    }

    proof {
        lemma_trim_front_at(s@, a as int);
    }
    if a >= b {
        proof {
            // Everything from `a` on is whitespace, so the trimmed text is empty.
            assert(forall|j: int| a <= j < len ==> is_space(s@[j]));
            let t = s@.subrange(a as int, len as int);
            lemma_trim_back_at(t, 0);
            assert(t.subrange(0, 0) =~= Seq::<char>::empty());
        }
        String::new()
    } else {
        let piece = s.substring_char(a, b);
        proof {
            let t = s@.subrange(a as int, len as int);
            assert(forall|j: int| b - a <= j < t.len() ==> is_space(#[trigger] t[j]));
            lemma_trim_back_at(t, b - a);
            assert(t.subrange(0, b - a) =~= s@.subrange(a as int, b as int));
        }
        piece.to_owned()
    }
}

// ---------------------------------------------------------------------------
// Path components
// ---------------------------------------------------------------------------

/// Whether `t` occurs in `s` starting at position `i`.
pub open spec fn match_at(s: Seq<char>, t: Seq<char>, i: int) -> bool {
    0 <= i && i + t.len() <= s.len() && s.subrange(i, i + t.len() as int) == t
}

/// Whether some `/`-delimited component of `s` equals `t`.
pub open spec fn has_component(s: Seq<char>, t: Seq<char>) -> bool {
    exists|i: int|
        match_at(s, t, i) && (i == 0 || s[i - 1] == '/') && (i + t.len() == s.len() || s[i
            + t.len() as int] == '/')
}

/// Whether the final `/`-delimited component of `s` equals `t`.
pub open spec fn last_component_is(s: Seq<char>, t: Seq<char>) -> bool {
    t.len() <= s.len() && s.subrange(s.len() - t.len(), s.len() as int) == t && (t.len() == s.len()
        || s[s.len() - t.len() - 1] == '/')
}

/// Whether some `/`-delimited component of `s` equals `t`.
pub fn contains_component(s: &str, t: &str) -> (r: bool)
    requires
        t@.len() >= 1,
    ensures
        r == has_component(s@, t@),
{
    let ls = s.unicode_len();
    let lt = t.unicode_len();
    if lt > ls {
        proof {
            assert(forall|i: int| !match_at(s@, t@, i));
        }
        return false;
    }
    let mut i: usize = 0;
    while i <= ls - lt
        invariant
            1 <= lt <= ls,
            ls == s@.len(),
            lt == t@.len(),
            i <= ls - lt + 1,
            forall|i2: int|
                0 <= i2 < i ==> !(match_at(s@, t@, i2) && (i2 == 0 || s@[i2 - 1] == '/') && (i2
                    + t@.len() == s@.len() || s@[i2 + t@.len() as int] == '/')),
        decreases ls - lt + 1 - i,
    {
        let left_ok = i == 0 || s.get_char(i - 1) == '/';
        let right_ok = i + lt == ls || s.get_char(i + lt) == '/';
        if left_ok && right_ok {
            let piece = s.substring_char(i, i + lt);
            if str_eq(piece, t) {
                proof {
                    assert(match_at(s@, t@, i as int) && (i == 0 || s@[i as int - 1] == '/') && (i
                        + t@.len() == s@.len() || s@[i as int + t@.len() as int] == '/'));
                }
                return true;
            }
        }
        i = i + 1;
    }
    proof {
        assert(forall|i2: int| i2 > ls - lt ==> !match_at(s@, t@, i2));
    }
    false
}

/// Whether the final `/`-delimited component of `s` equals `t`.
pub fn ends_with_component(s: &str, t: &str) -> (r: bool)
    ensures
        r == last_component_is(s@, t@),
{
    let ls = s.unicode_len();
    let lt = t.unicode_len();
    if lt > ls {
        return false;
    }
    if !(lt == ls || s.get_char(ls - lt - 1) == '/') {
        return false;
    }
    let piece = s.substring_char(ls - lt, ls);
    str_eq(piece, t)
}

// ---------------------------------------------------------------------------
// Splitting on a separator
// ---------------------------------------------------------------------------

/// The position of the first occurrence of `sep` in `s`, or `-1` if absent.
pub open spec fn find_sep(s: Seq<char>, sep: char) -> int
    decreases s.len(),
{
    if s.len() == 0 {
        -1
    } else if s[0] == sep {
        0
    } else {
        let r = find_sep(s.subrange(1, s.len() as int), sep);
        if r < 0 {
            -1
        } else {
            r + 1
        }
    }
}

/// The pieces of `s` between occurrences of `sep`, in order.
pub open spec fn spec_split(s: Seq<char>, sep: char) -> Seq<Seq<char>>
    decreases s.len(),
{
    let k = find_sep(s, sep);
    if 0 <= k < s.len() {
        seq![s.subrange(0, k)] + spec_split(s.subrange(k + 1, s.len() as int), sep)
    } else {
        seq![s]
    }
}

proof fn lemma_find_sep_at(s: Seq<char>, sep: char, k: int)
    requires
        0 <= k <= s.len(),
        forall|j: int| 0 <= j < k ==> s[j] != sep,
        k < s.len() ==> s[k] == sep,
    ensures
        find_sep(s, sep) == if k == s.len() {
            -1int
        } else {
            k
        },
    decreases k,
{
    if s.len() == 0 {
    } else if k == 0 {
    } else {
        let t = s.subrange(1, s.len() as int);
        assert(forall|j: int| 0 <= j < k - 1 ==> #[trigger] t[j] == s[j + 1]);
        lemma_find_sep_at(t, sep, k - 1);
    }
}

/// Finds the first occurrence of `sep` in `s`.
fn find_first_sep(s: &str, sep: char) -> (r: Option<usize>)
    ensures
        match r {
            Some(k) => k < s@.len() && s@[k as int] == sep && find_sep(s@, sep) == k,
            None => find_sep(s@, sep) == -1,
        },
{
    let len = s.unicode_len();
    let mut i: usize = 0;
    while i < len
        invariant
            i <= len,
            len == s@.len(),
            forall|j: int| 0 <= j < i ==> s@[j] != sep,
        decreases len - i,
    {
        if s.get_char(i) == sep {
            proof {
                lemma_find_sep_at(s@, sep, i as int);
            }
            return Some(i);
        }
        i = i + 1;
    }
    proof {
        lemma_find_sep_at(s@, sep, len as int);
    }
    None
}

/// Splits `s` on `sep`. The result always holds at least one piece; adjacent
/// separators yield empty pieces, as `str::split` does.
pub fn split_str(s: &str, sep: char) -> (r: Vec<String>)
    ensures
        r.deep_view() == spec_split(s@, sep),
        r@.len() >= 1,
    decreases s@.len(),
{
    let len = s.unicode_len();
    match find_first_sep(s, sep) {
        None => {
            let mut r: Vec<String> = Vec::new();
            r.push(s.to_owned());
            proof {
                assert(r.deep_view() =~= spec_split(s@, sep));
            }
            r
        },
        Some(k) => {
            let first = s.substring_char(0, k);
            let rest = s.substring_char(k + 1, len);
            let mut r = split_str(rest, sep);
            r.insert(0, first.to_owned());
            proof {
                assert(r.deep_view() =~= spec_split(s@, sep));
            }
            r
        },
    }
}

// ---------------------------------------------------------------------------
// Folder names
// ---------------------------------------------------------------------------

/// The run of non-`/` characters at the end of `s`.
pub open spec fn tail_run(s: Seq<char>) -> Seq<char>
    decreases s.len(),
{
    if s.len() == 0 || s.last() == '/' {
        Seq::empty()
    } else {
        tail_run(s.drop_last()).push(s.last())
    }
}

/// The last path component of `s`, ignoring trailing separators; absent when
/// `s` holds nothing but separators.
pub open spec fn folder_name_of(s: Seq<char>) -> Option<Seq<char>>
    decreases s.len(),
{
    if s.len() == 0 {
        None
    } else if s.last() == '/' {
        folder_name_of(s.drop_last())
    } else {
        Some(tail_run(s))
    }
}

proof fn lemma_tail_run_at(s: Seq<char>, b: int)
    requires
        0 <= b <= s.len(),
        forall|j: int| b <= j < s.len() ==> s[j] != '/',
        b > 0 ==> s[b - 1] == '/',
    ensures
        tail_run(s) == s.subrange(b, s.len() as int),
    decreases s.len() - b,
{
    if b == s.len() {
        if s.len() == 0 || s.last() == '/' {
            assert(s.subrange(b, s.len() as int) =~= Seq::<char>::empty());
        } else {
            assert(false);
        }
    } else {
        let t = s.drop_last();
        assert(t =~= s.subrange(0, s.len() - 1));
        lemma_tail_run_at(t, b);
        assert(tail_run(s) =~= s.subrange(b, s.len() as int));
    }
}

/// The last path component of `path`, ignoring trailing separators.
pub fn get_folder_name(path: &str) -> (r: Option<String>)
    ensures
        match r {
            Some(n) => folder_name_of(path@) == Some(n@),
            None => folder_name_of(path@) is None,
        },
    decreases path@.len(),
{
    let len = path.unicode_len();
    if len == 0 {
        return None;
    }
    if path.get_char(len - 1) == '/' {
        let rest = path.substring_char(0, len - 1);
        proof {
            assert(rest@ =~= path@.drop_last());
        }
        return get_folder_name(rest);
    }
    // Find the position just after the last separator.
    let mut b: usize = 0;
    let mut i: usize = 0;
    while i < len
        invariant
            i <= len,
            len == path@.len(),
            b <= i,
            forall|j: int| b <= j < i ==> path@[j] != '/',
            b > 0 ==> path@[b - 1] == '/',
        decreases len - i,
    {
        if path.get_char(i) == '/' {
            b = i + 1;
        }
        i = i + 1;
    }
    let name = path.substring_char(b, len);
    proof {
        lemma_tail_run_at(path@, b as int);
    }
    Some(name.to_owned())
}

} // verus!
