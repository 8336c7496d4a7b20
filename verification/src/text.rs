//! Verified comparisons on strings: equality, prefix and suffix tests,
//! stated over the strings' character sequences.

use vstd::prelude::*;

verus! {

/// True when the two strings hold the same characters.
pub fn str_eq(a: &str, b: &str) -> (r: bool)
    ensures
        r == (a@ == b@),
{
    let an: usize = a.unicode_len();
    let bn: usize = b.unicode_len();
    if an != bn {
        return false;
    }
    let mut i: usize = 0;
    while i < an
        invariant
            i <= an,
            an == a@.len(),
            bn == b@.len(),
            an == bn,
            forall|j: int| 0 <= j < i ==> a@[j] == b@[j],
        decreases an - i,
    {
        if a.get_char(i) != b.get_char(i) {
            return false;
        }
        i = i + 1;
    }
    proof {
        assert(a@ =~= b@);
    }
    true
}

/// True when `prefix`'s characters open `s`.
pub fn str_starts_with(s: &str, prefix: &str) -> (r: bool)
    ensures
        r == prefix@.is_prefix_of(s@),
{
    let pn: usize = prefix.unicode_len();
    let sn: usize = s.unicode_len();
    if pn > sn {
        return false;
    }
    let mut i: usize = 0;
    while i < pn
        invariant
            i <= pn,
            pn == prefix@.len(),
            sn == s@.len(),
            pn <= sn,
            forall|j: int| 0 <= j < i ==> s@[j] == prefix@[j],
        decreases pn - i,
    {
        if s.get_char(i) != prefix.get_char(i) {
            proof {
                assert(!prefix@.is_prefix_of(s@)) by {
                    if prefix@.is_prefix_of(s@) {
                        assert(prefix@[i as int] == s@.subrange(0, pn as int)[i as int]);
                    }
                }
            }
            return false;
        }
        i = i + 1;
    }
    proof {
        assert(prefix@ =~= s@.subrange(0, pn as int));
    }
    true
}

/// True when `suffix`'s characters close `s`.
pub fn str_ends_with(s: &str, suffix: &str) -> (r: bool)
    ensures
        r == suffix@.is_suffix_of(s@),
{
    let xn: usize = suffix.unicode_len();
    let sn: usize = s.unicode_len();
    if xn > sn {
        return false;
    }
    let off: usize = sn - xn;
    let mut i: usize = 0;
    while i < xn
        invariant
            i <= xn,
            xn == suffix@.len(),
            sn == s@.len(),
            xn <= sn,
            off == sn - xn,
            forall|j: int| 0 <= j < i ==> s@[off + j] == suffix@[j],
        decreases xn - i,
    {
        if s.get_char(off + i) != suffix.get_char(i) {
            proof {
                assert(!suffix@.is_suffix_of(s@)) by {
                    if suffix@.is_suffix_of(s@) {
                        assert(suffix@[i as int] == s@.subrange(
                            off as int,
                            sn as int,
                        )[i as int]);
                    }
                }
            }
            return false;
        }
        i = i + 1;
    }
    proof {
        assert(suffix@ =~= s@.subrange(off as int, sn as int));
    }
    true
}

} // verus!
