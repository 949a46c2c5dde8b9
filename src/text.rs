use vstd::prelude::*;

verus! {

/// `w` occurs in `s` starting at position `i`.
pub open spec fn matches_at(s: Seq<char>, w: Seq<char>, i: int) -> bool {
    0 <= i && i + w.len() <= s.len() && s.subrange(i, i + w.len()) == w
}

/// `w` occurs somewhere in `s`.
pub open spec fn occurs(s: Seq<char>, w: Seq<char>) -> bool {
    exists|i: int| #[trigger] matches_at(s, w, i)
}

pub open spec fn is_digit(c: char) -> bool {
    '0' <= c && c <= '9'
}

pub open spec fn all_digits(s: Seq<char>) -> bool {
    forall|k: int| 0 <= k < s.len() ==> is_digit(#[trigger] s[k])
}

pub open spec fn digit_free(s: Seq<char>) -> bool {
    forall|k: int| 0 <= k < s.len() ==> !is_digit(#[trigger] s[k])
}

/// Whether `w` occurs in `s` at position `i`.
pub fn matches_at_exec(s: &str, w: &str, i: usize) -> (r: bool)
    ensures
        r == matches_at(s@, w@, i as int),
{
    let n = s.unicode_len();
    let m = w.unicode_len();
    if i > n || m > n - i {
        return false;
    }
    let mut k: usize = 0;
    while k < m
        invariant
            n == s@.len(),
            m == w@.len(),
            i + m <= n,
            k <= m,
            forall|j: int| 0 <= j < k ==> s@[i + j] == w@[j],
        decreases m - k,
    {
        if s.get_char(i + k) != w.get_char(k) {
            assert(s@.subrange(i as int, i + m)[k as int] != w@[k as int]);
            return false;
        }
        k = k + 1;
    }
    assert(s@.subrange(i as int, i + m) =~= w@);
    true
}

/// Whether `w` occurs anywhere in `s`.
pub fn occurs_exec(s: &str, w: &str) -> (r: bool)
    ensures
        r == occurs(s@, w@),
{
    let n = s.unicode_len();
    let m = w.unicode_len();
    if m > n {
        assert forall|i: int| !matches_at(s@, w@, i) by {}
        return false;
    }
    if m == 0 {
        assert(s@.subrange(0, 0) =~= w@);
        assert(matches_at(s@, w@, 0));
        return true;
    }
    let mut i: usize = 0;
    while i <= n - m
        invariant
            n == s@.len(),
            m == w@.len(),
            1 <= m <= n,
            i <= n - m + 1,
            forall|j: int| 0 <= j < i ==> !#[trigger] matches_at(s@, w@, j),
        decreases n - m + 1 - i,
    {
        if matches_at_exec(s, w, i) {
            return true;
        }
        i = i + 1;
    }
    assert forall|j: int| !#[trigger] matches_at(s@, w@, j) by {
        if 0 <= j && j < i {
        }
    }
    false
}

/// Whether the two strings hold the same characters.
pub fn same_text(a: &str, b: &str) -> (r: bool)
    ensures
        r == (a@ == b@),
{
    let n = a.unicode_len();
    if n != b.unicode_len() {
        return false;
    }
    let mut k: usize = 0;
    while k < n
        invariant
            n == a@.len(),
            n == b@.len(),
            k <= n,
            forall|j: int| 0 <= j < k ==> a@[j] == b@[j],
        decreases n - k,
    {
        if a.get_char(k) != b.get_char(k) {
            return false;
        }
        k = k + 1;
    }
    assert(a@ =~= b@);
    true
}

/// Whether no character of `s` is an ASCII digit.
pub fn digit_free_exec(s: &str) -> (r: bool)
    ensures
        r == digit_free(s@),
{
    let n = s.unicode_len();
    let mut k: usize = 0;
    while k < n
        invariant
            n == s@.len(),
            k <= n,
            forall|j: int| 0 <= j < k ==> !is_digit(#[trigger] s@[j]),
        decreases n - k,
    {
        let c = s.get_char(k);
        if '0' <= c && c <= '9' {
            return false;
        }
        k = k + 1;
    }
    true
}

} // verus!
