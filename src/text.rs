use vstd::prelude::*;

verus! {

/// Whether `pat` occurs in `s` as a run of consecutive characters.
pub open spec fn occurs_in(pat: Seq<char>, s: Seq<char>) -> bool {
    exists|i: int| 0 <= i && i + pat.len() <= s.len() && #[trigger] s.subrange(i, i + pat.len()) == pat
}

/// Relies on str::contains: true exactly when `pat` is a substring of `s`.
#[verifier::external_body]
pub(crate) fn contains_text(s: &str, pat: &str) -> (r: bool)
    ensures
        r == occurs_in(pat@, s@),
{
    s.contains(pat)
}

/// Whether `a` and `b` hold the same characters.
pub fn same_text(a: &str, b: &str) -> (r: bool)
    ensures
        r == (a@ == b@),
{
    let n = a.unicode_len();
    if n != b.unicode_len() {
        return false;
    }
    let mut i: usize = 0;
    while i < n
        invariant
            n == a@.len(),
            n == b@.len(),
            i <= n,
            forall|j: int| 0 <= j < i ==> a@[j] == b@[j],
        decreases n - i,
    {
        if a.get_char(i) != b.get_char(i) {
            return false;
        }
        i = i + 1;
    }
    assert(a@ =~= b@);
    true
}

} // verus!
