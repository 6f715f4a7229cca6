//! Character-level helpers on strings.

use vstd::prelude::*;

verus! {

/// Compares two strings character by character.
pub fn str_eq(a: &str, b: &str) -> (r: bool)
    ensures
        r == (a@ == b@),
{
    let n = a.unicode_len();
    let m = b.unicode_len();
    if n != m {
        return false;
    }
    let mut i: usize = 0;
    while i < n
        invariant
            n == a@.len(),
            m == b@.len(),
            n == m,
            i <= n,
            forall|j: int| 0 <= j < i ==> a@[j] == b@[j],
        decreases n - i,
    {
        if a.get_char(i) != b.get_char(i) {
            return false;
        }
        i = i + 1;
    }
    assert(a@ =~= b@);
    true
}

/// The position of the last `.` in `s`, if it has one.
pub open spec fn is_last_dot(s: Seq<char>, i: int) -> bool {
    &&& 0 <= i < s.len()
    &&& s[i] == '.'
    &&& forall|j: int| i < j < s.len() ==> s[j] != '.'
}

/// Splits `s` around its last `.`: the part before it and the part after it.
pub open spec fn rsplit_dot(s: Seq<char>) -> Option<(Seq<char>, Seq<char>)> {
    if exists|i: int| is_last_dot(s, i) {
        let i = choose|i: int| is_last_dot(s, i);
        Some((s.subrange(0, i), s.subrange(i + 1, s.len() as int)))
    } else {
        None
    }
}

proof fn lemma_last_dot_unique(s: Seq<char>, i: int, k: int)
    requires
        is_last_dot(s, i),
        is_last_dot(s, k),
    ensures
        i == k,
{
}

/// Splits `s` around its last `.`.
pub fn rsplit_once_dot(s: &str) -> (r: Option<(String, String)>)
    ensures
        match (r, rsplit_dot(s@)) {
            (None, None) => true,
            (Some((a, b)), Some((x, y))) => a@ == x && b@ == y,
            _ => false,
        },
{
    let n = s.unicode_len();
    let mut i: usize = n;
    while i > 0
        invariant
            n == s@.len(),
            i <= n,
            forall|j: int| i <= j < n ==> s@[j] != '.',
        decreases i,
    {
        if s.get_char(i - 1) == '.' {
            let k = i - 1;
            assert(is_last_dot(s@, k as int));
            proof {
                let c = choose|c: int| is_last_dot(s@, c);
                lemma_last_dot_unique(s@, c, k as int);
            }
            let before = String::from_str(s.substring_char(0, k));
            let after = String::from_str(s.substring_char(k + 1, n));
            return Some((before, after));
        }
        i = i - 1;
    }
    assert(!exists|c: int| is_last_dot(s@, c));
    None
}

} // verus!

verus! {

/// The texts of a sequence of strings.
pub open spec fn texts(v: Seq<String>) -> Seq<Seq<char>> {
    v.map_values(|s: String| s@)
}

/// A copy of a string.
pub fn copy_string(s: &String) -> (r: String)
    ensures
        r@ == s@,
{
    s.clone()
}

} // verus!
