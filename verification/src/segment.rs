//! Read-only views of the segments of a container, each with the rule by
//! which it counts as empty.

use crate::controller_pack;
use crate::controller_pack::note_table_free;
use crate::layout::EEPROM_4K_SIZE;
use vstd::prelude::*;

verus! {

/// Every byte of `s` is `0xFF`, the value of erased storage.
pub open spec fn all_blank(s: Seq<u8>) -> bool {
    forall|i: int| 0 <= i < s.len() ==> s[i] == 0xff
}

/// Tells whether every byte of `bytes` is `0xFF`.
pub fn is_blank(bytes: &[u8]) -> (r: bool)
    ensures
        r == all_blank(bytes@),
{
    let n: usize = bytes.len();
    let mut i: usize = 0;
    while i < n
        invariant
            i <= n,
            n == bytes@.len(),
            forall|k: int| 0 <= k < i ==> bytes@[k] == 0xff,
        decreases n - i,
    {
        if bytes[i] != 0xff {
            return false;
        }
        i = i + 1;
    }
    true
}

/// The EEPROM of a container, or the logical image of a 4K EEPROM.
pub struct Eeprom<'srm>(&'srm [u8]);

/// The SRAM of a container.
pub struct Sram<'srm>(&'srm [u8]);

/// The FlashRAM of a container.
pub struct FlashRam<'srm>(&'srm [u8]);

/// One controller-pack slot of a container, or its four slots as one region.
pub struct ControllerPack<'srm>(&'srm [u8]);

impl<'srm> View for Eeprom<'srm> {
    type V = Seq<u8>;

    closed spec fn view(&self) -> Seq<u8> {
        self.0@
    }
}

impl<'srm> Eeprom<'srm> {
    #[verifier::type_invariant]
    spec fn long_enough(self) -> bool {
        self.0@.len() >= EEPROM_4K_SIZE
    }

    pub(crate) fn over(bytes: &'srm [u8]) -> (r: Self)
        requires
            bytes@.len() >= EEPROM_4K_SIZE,
        ensures
            r@ == bytes@,
    {
        Eeprom(bytes)
    }

    /// True iff no byte of the segment differs from `0xFF`.
    pub fn is_empty(&self) -> (r: bool)
        ensures
            r == all_blank(self@),
    {
        is_blank(self.0)
    }

    /// True iff everything behind the first 512 bytes is `0xFF`.
    pub fn is_4k(&self) -> (r: bool)
        ensures
            r == all_blank(self@.subrange(EEPROM_4K_SIZE as int, self@.len() as int)),
    {
        proof {
            use_type_invariant(self);
        }
        is_blank(vstd::slice::slice_subrange(self.0, EEPROM_4K_SIZE, self.0.len()))
    }

    /// The first 512 bytes: the logical image of a 4K EEPROM.
    pub fn as_4k(&self) -> (r: Self)
        ensures
            r@ == self@.subrange(0, EEPROM_4K_SIZE as int),
    {
        proof {
            use_type_invariant(self);
        }
        Eeprom(vstd::slice::slice_subrange(self.0, 0, EEPROM_4K_SIZE))
    }
}

impl<'srm> AsRef<[u8]> for Eeprom<'srm> {
    fn as_ref(&self) -> (r: &[u8])
        ensures
            r@ == self@,
    {
        self.0
    }
}

impl<'srm> View for Sram<'srm> {
    type V = Seq<u8>;

    closed spec fn view(&self) -> Seq<u8> {
        self.0@
    }
}

impl<'srm> Sram<'srm> {
    pub(crate) fn over(bytes: &'srm [u8]) -> (r: Self)
        ensures
            r@ == bytes@,
    {
        Sram(bytes)
    }

    /// True iff no byte of the segment differs from `0xFF`.
    pub fn is_empty(&self) -> (r: bool)
        ensures
            r == all_blank(self@),
    {
        is_blank(self.0)
    }
}

impl<'srm> AsRef<[u8]> for Sram<'srm> {
    fn as_ref(&self) -> (r: &[u8])
        ensures
            r@ == self@,
    {
        self.0
    }
}

impl<'srm> View for FlashRam<'srm> {
    type V = Seq<u8>;

    closed spec fn view(&self) -> Seq<u8> {
        self.0@
    }
}

impl<'srm> FlashRam<'srm> {
    pub(crate) fn over(bytes: &'srm [u8]) -> (r: Self)
        ensures
            r@ == bytes@,
    {
        FlashRam(bytes)
    }

    /// True iff no byte of the segment differs from `0xFF`.
    pub fn is_empty(&self) -> (r: bool)
        ensures
            r == all_blank(self@),
    {
        is_blank(self.0)
    }
}

impl<'srm> AsRef<[u8]> for FlashRam<'srm> {
    fn as_ref(&self) -> (r: &[u8])
        ensures
            r@ == self@,
    {
        self.0
    }
}

impl<'srm> View for ControllerPack<'srm> {
    type V = Seq<u8>;

    closed spec fn view(&self) -> Seq<u8> {
        self.0@
    }
}

impl<'srm> ControllerPack<'srm> {
    #[verifier::type_invariant]
    spec fn holds_note_table(self) -> bool {
        self.0@.len() >= 512
    }

    pub(crate) fn over(bytes: &'srm [u8]) -> (r: Self)
        requires
            bytes@.len() >= 512,
        ensures
            r@ == bytes@,
    {
        ControllerPack(bytes)
    }

    /// True iff the note table at the head of the view marks every page
    /// free. Nothing behind that table is read.
    pub fn is_empty(&self) -> (r: bool)
        ensures
            r == note_table_free(self@),
    {
        proof {
            use_type_invariant(self);
        }
        controller_pack::is_empty(self.0)
    }
}

impl<'srm> AsRef<[u8]> for ControllerPack<'srm> {
    fn as_ref(&self) -> (r: &[u8])
        ensures
            r@ == self@,
    {
        self.0
    }
}

} // verus!
