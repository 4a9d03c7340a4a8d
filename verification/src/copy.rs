//! Bounds-checked copies into fixed-length destinations.

use vstd::prelude::*;

verus! {

/// `dst` with its head overwritten by `src`; what of `src` does not fit is
/// left out.
pub open spec fn overlaid(dst: Seq<u8>, src: Seq<u8>) -> Seq<u8> {
    Seq::new(
        dst.len(),
        |i: int|
            if i < src.len() {
                src[i]
            } else {
                dst[i]
            },
    )
}

/// Copies `src` over the head of `dst`. The length of `dst` stays: a longer
/// `src` is cut off at the end of `dst`, a shorter one leaves the tail of
/// `dst` as it was.
pub fn copy_truncated(dst: &mut [u8], src: &[u8])
    ensures
        final(dst)@ == overlaid(old(dst)@, src@),
{
    let n: usize = if src.len() < dst.len() {
        src.len()
    } else {
        dst.len()
    };
    let mut i: usize = 0;
    while i < n
        invariant
            i <= n,
            n <= src@.len(),
            n <= dst@.len(),
            dst@.len() == old(dst)@.len(),
            forall|k: int| 0 <= k < i ==> dst@[k] == src@[k],
            forall|k: int| i <= k < dst@.len() ==> dst@[k] == old(dst)@[k],
        decreases n - i,
    {
        dst[i] = src[i];
        i = i + 1;
    }
    assert(dst@ =~= overlaid(old(dst)@, src@));
}

} // verus!
