//! In-place byte-order normalization over 32-bit words.

use vstd::prelude::*;

verus! {

/// The sequence `s` with every complete group of four bytes reversed.
pub open spec fn swapped(s: Seq<u8>) -> Seq<u8> {
    Seq::new(s.len(), |i: int| s[i - i % 4 + (3 - i % 4)])
}

/// Reverses the bytes of every consecutive 4-byte word of `buf` in place.
pub fn word_swap(buf: &mut [u8])
    requires
        old(buf)@.len() % 4 == 0,
    ensures
        final(buf)@ == swapped(old(buf)@),
{
    let n: usize = buf.len();
    let mut i: usize = 0;
    while i < n
        invariant
            n == old(buf)@.len(),
            n % 4 == 0,
            i % 4 == 0,
            i <= n,
            buf@.len() == n,
            forall|k: int| 0 <= k < i ==> buf@[k] == #[trigger] swapped(old(buf)@)[k],
            forall|k: int| i <= k < n ==> buf@[k] == #[trigger] old(buf)@[k],
        decreases n - i,
    {
        let a: u8 = buf[i];
        let b: u8 = buf[i + 1];
        let c: u8 = buf[i + 2];
        let d: u8 = buf[i + 3];
        buf[i] = d;
        buf[i + 1] = c;
        buf[i + 2] = b;
        buf[i + 3] = a;
        i = i + 4;
    }
    assert(buf@ =~= swapped(old(buf)@));
}

/// Swapping twice gives the buffer back.
pub proof fn swap_is_involution(s: Seq<u8>)
    requires
        s.len() % 4 == 0,
    ensures
        swapped(s).len() == s.len(),
        swapped(swapped(s)) == s,
{
    assert forall|i: int| 0 <= i < s.len() implies swapped(swapped(s))[i] == s[i] by {
        let j = i - i % 4 + (3 - i % 4);
        assert(0 <= j < s.len());
        assert(j % 4 == 3 - i % 4);
        assert(swapped(swapped(s))[i] == swapped(s)[j]);
        assert(swapped(s)[j] == s[j - j % 4 + (3 - j % 4)]);
    }
    assert(swapped(swapped(s)) =~= s);
}

/// A swap moves bytes inside their word only: whatever holds of every byte
/// before it holds of every byte after it. So a buffer is erased after the
/// swap iff it was erased before.
pub proof fn swap_keeps_every_byte(s: Seq<u8>, b: u8)
    requires
        s.len() % 4 == 0,
    ensures
        (forall|i: int| 0 <= i < s.len() ==> s[i] == b) <==> (forall|i: int|
            0 <= i < s.len() ==> swapped(s)[i] == b),
{
    if forall|i: int| 0 <= i < s.len() ==> s[i] == b {
        assert forall|i: int| 0 <= i < s.len() implies swapped(s)[i] == b by {
            let j = i - i % 4 + (3 - i % 4);
            assert(0 <= j < s.len());
        }
    }
    if forall|i: int| 0 <= i < s.len() ==> swapped(s)[i] == b {
        assert forall|i: int| 0 <= i < s.len() implies s[i] == b by {
            let j = i - i % 4 + (3 - i % 4);
            assert(0 <= j < s.len());
            assert(j % 4 == 3 - i % 4);
            assert(swapped(s)[j] == s[j - j % 4 + (3 - j % 4)]);
        }
    }
}

} // verus!
