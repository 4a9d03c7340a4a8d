//! The save container: one buffer of fixed size and the views of its
//! segments.

use crate::controller_pack;
use crate::controller_pack::{blank_byte, blank_image, note_table_free, PACK_SIZE};
use crate::copy::copy_truncated;
use crate::layout::{
    container_is_its_segments, eeprom_of, flashram_of, pack_of, packs_of, sram_of, EEPROM_SIZE, FLASHRAM_SIZE,
    FLASHRAM_START, PACKS_SIZE, PACKS_START, PACK_COUNT, SRAM_SIZE, SRAM_START, SRM_SIZE,
};
use crate::segment::{all_blank, ControllerPack, Eeprom, FlashRam, Sram};
use vstd::prelude::*;

verus! {

/// The container in which nothing was saved: erased storage around four
/// blank controller packs.
pub open spec fn blank_container() -> Seq<u8> {
    Seq::new(
        SRM_SIZE as nat,
        |i: int|
            if PACKS_START <= i < SRAM_START {
                blank_byte((i - PACKS_START) % PACK_SIZE as int)
            } else {
                0xff
            },
    )
}

/// Every segment of the container `srm` counts as empty by its own rule.
pub open spec fn container_is_empty(srm: Seq<u8>) -> bool {
    &&& all_blank(eeprom_of(srm))
    &&& all_blank(sram_of(srm))
    &&& all_blank(flashram_of(srm))
    &&& forall|slot: int| 0 <= slot < PACK_COUNT ==> note_table_free(#[trigger] pack_of(srm, slot))
}

/// Erased storage of `n` bytes.
pub open spec fn erased(n: nat) -> Seq<u8> {
    Seq::new(n, |i: int| 0xffu8)
}

/// The segments of the blank container: the EEPROM, the SRAM and the
/// FlashRAM are erased, and each of the four controller-pack slots holds
/// the blank image, so that the container counts as empty.
pub proof fn blank_container_segments()
    ensures
        blank_container().len() == SRM_SIZE,
        eeprom_of(blank_container()) == erased(EEPROM_SIZE as nat),
        forall|slot: int|
            0 <= slot < PACK_COUNT ==> #[trigger] pack_of(blank_container(), slot) == blank_image(),
        packs_of(blank_container()) == blank_image() + blank_image() + blank_image()
            + blank_image(),
        sram_of(blank_container()) == erased(SRAM_SIZE as nat),
        flashram_of(blank_container()) == erased(FLASHRAM_SIZE as nat),
        container_is_empty(blank_container()),
{
    assert(eeprom_of(blank_container()) =~= erased(EEPROM_SIZE as nat));
    assert(sram_of(blank_container()) =~= erased(SRAM_SIZE as nat));
    assert(flashram_of(blank_container()) =~= erased(FLASHRAM_SIZE as nat));
    assert forall|slot: int| 0 <= slot < PACK_COUNT implies #[trigger] pack_of(
        blank_container(),
        slot,
    ) == blank_image() by {
        assert forall|i: int| 0 <= i < PACK_SIZE implies pack_of(blank_container(), slot)[i]
            == blank_image()[i] by {
            assert((slot * PACK_SIZE + i) % PACK_SIZE as int == i) by (nonlinear_arith)
                requires
                    0 <= i < PACK_SIZE,
                    0 <= slot < 4,
            ;
        }
        assert(pack_of(blank_container(), slot) =~= blank_image());
    }
    container_is_its_segments(blank_container());
    assert(pack_of(blank_container(), 0) == blank_image());
    assert(pack_of(blank_container(), 3) == blank_image());
    controller_pack::blank_image_is_empty();
}

/// A save container. Its view is its bytes, always `SRM_SIZE` of them.
pub struct SrmBuf {
    data: Box<[u8; SRM_SIZE]>,
}

impl View for SrmBuf {
    type V = Seq<u8>;

    closed spec fn view(&self) -> Seq<u8> {
        self.data@
    }
}

impl SrmBuf {
    /// A container has the same size all its life.
    pub proof fn size_is_fixed(&self)
        ensures
            self@.len() == SRM_SIZE,
    {
    }

    /// The container in which nothing was saved.
    pub fn new() -> (r: Self)
        ensures
            r@ == blank_container(),
            forall|slot: int| 0 <= slot < PACK_COUNT ==> #[trigger] pack_of(r@, slot) == blank_image(),
            container_is_empty(r@),
    {
        proof {
            blank_container_segments();
        }
        let mut data: Box<[u8; SRM_SIZE]> = Box::new([0xffu8; SRM_SIZE]);
        let ghost fresh = data@;
        let bytes: &mut [u8; SRM_SIZE] = &mut *data;
        let whole: &mut [u8] = bytes;
        let (_eeprom, rest) = whole.split_at_mut(PACKS_START);
        let (pack0, rest) = rest.split_at_mut(PACK_SIZE);
        let (pack1, rest) = rest.split_at_mut(PACK_SIZE);
        let (pack2, rest) = rest.split_at_mut(PACK_SIZE);
        let (pack3, _tail) = rest.split_at_mut(PACK_SIZE);
        controller_pack::init(pack0);
        copy_truncated(pack1, pack0);
        copy_truncated(pack2, pack0);
        copy_truncated(pack3, pack0);
        proof {
            assert(pack1@ =~= blank_image());
            assert(pack2@ =~= blank_image());
            assert(pack3@ =~= blank_image());
            assert(data@ =~= blank_container()) by {
                assert forall|i: int| 0 <= i < SRM_SIZE implies data@[i] == blank_container()[i] by {
                    if PACKS_START <= i < SRAM_START {
                        let k = (i - PACKS_START) / PACK_SIZE as int;
                        assert(0 <= k < 4);
                        assert((i - PACKS_START) % PACK_SIZE as int == i - PACKS_START - k * PACK_SIZE);
                    } else {
                        assert(data@[i] == fresh[i]);
                    }
                }
            }
        }
        SrmBuf { data }
    }

    /// True iff every segment is empty by its own rule: the EEPROM, the SRAM
    /// and the FlashRAM erased, and each controller pack without a note.
    pub fn is_empty(&self) -> (r: bool)
        ensures
            r == container_is_empty(self@),
    {
        if !self.eeprom().is_empty() || !self.sram().is_empty() || !self.flashram().is_empty() {
            return false;
        }
        let packs = self.controller_pack_iter();
        let mut slot: usize = 0;
        while slot < PACK_COUNT
            invariant
                slot <= PACK_COUNT,
                packs@.len() == PACK_COUNT,
                forall|k: int| 0 <= k < PACK_COUNT ==> (#[trigger] packs@[k])@ == pack_of(self@, k),
                forall|k: int| 0 <= k < slot ==> note_table_free(#[trigger] pack_of(self@, k)),
            decreases PACK_COUNT - slot,
        {
            if !packs[slot].is_empty() {
                assert(!note_table_free(pack_of(self@, slot as int)));
                return false;
            }
            slot = slot + 1;
        }
        true
    }

    /// The EEPROM segment.
    pub fn eeprom(&self) -> (r: Eeprom<'_>)
        ensures
            r@ == eeprom_of(self@),
    {
        let whole: &[u8] = self.data.as_slice();
        Eeprom::over(vstd::slice::slice_subrange(whole, 0, EEPROM_SIZE))
    }

    /// The EEPROM segment, to write to. Nothing outside it can change.
    pub fn eeprom_mut(&mut self) -> (r: &mut [u8])
        ensures
            r@ == eeprom_of(old(self)@),
            final(self)@ == final(r)@ + old(self)@.subrange(EEPROM_SIZE as int, SRM_SIZE as int),
    {
        let bytes: &mut [u8; SRM_SIZE] = &mut *self.data;
        let whole: &mut [u8] = bytes;
        let (eeprom, _rest) = whole.split_at_mut(EEPROM_SIZE);
        eeprom
    }

    /// The four controller-pack slots, in the order of their offsets.
    pub fn controller_pack_iter(&self) -> (r: Vec<ControllerPack<'_>>)
        ensures
            r@.len() == PACK_COUNT,
            forall|slot: int| 0 <= slot < PACK_COUNT ==> (#[trigger] r@[slot])@ == pack_of(self@, slot),
    {
        let whole: &[u8] = self.data.as_slice();
        let mut packs: Vec<ControllerPack<'_>> = Vec::new();
        let mut slot: usize = 0;
        while slot < PACK_COUNT
            invariant
                slot <= PACK_COUNT,
                whole@ == self@,
                self@.len() == SRM_SIZE,
                packs@.len() == slot,
                forall|k: int| 0 <= k < slot ==> (#[trigger] packs@[k])@ == pack_of(self@, k),
            decreases PACK_COUNT - slot,
        {
            let start: usize = PACKS_START + slot * PACK_SIZE;
            packs.push(ControllerPack::over(vstd::slice::slice_subrange(whole, start, start + PACK_SIZE)));
            slot = slot + 1;
        }
        packs
    }

    /// The four controller-pack slots, in the order of their offsets, to
    /// write to. Nothing outside them can change.
    pub fn controller_pack_iter_mut(&mut self) -> (r: (&mut [u8], &mut [u8], &mut [u8], &mut [u8]))
        ensures
            r.0@ == pack_of(old(self)@, 0),
            r.1@ == pack_of(old(self)@, 1),
            r.2@ == pack_of(old(self)@, 2),
            r.3@ == pack_of(old(self)@, 3),
            final(self)@ == eeprom_of(old(self)@) + final(r.0)@ + final(r.1)@ + final(r.2)@
                + final(r.3)@ + old(self)@.subrange(SRAM_START as int, SRM_SIZE as int),
    {
        let bytes: &mut [u8; SRM_SIZE] = &mut *self.data;
        let whole: &mut [u8] = bytes;
        let ghost before = whole@;
        let (_eeprom, rest) = whole.split_at_mut(PACKS_START);
        let (pack0, rest) = rest.split_at_mut(PACK_SIZE);
        let (pack1, rest) = rest.split_at_mut(PACK_SIZE);
        let (pack2, rest) = rest.split_at_mut(PACK_SIZE);
        let (pack3, _tail) = rest.split_at_mut(PACK_SIZE);
        proof {
            assert(pack0@ =~= pack_of(before, 0));
            assert(pack1@ =~= pack_of(before, 1));
            assert(pack2@ =~= pack_of(before, 2));
            assert(pack3@ =~= pack_of(before, 3));
            assert(_eeprom@ =~= eeprom_of(before));
            assert(_tail@ =~= before.subrange(SRAM_START as int, SRM_SIZE as int));
        }
        (pack0, pack1, pack2, pack3)
    }

    /// The four controller-pack slots as one region.
    pub fn full_controller_pack(&self) -> (r: ControllerPack<'_>)
        ensures
            r@ == packs_of(self@),
    {
        let whole: &[u8] = self.data.as_slice();
        ControllerPack::over(vstd::slice::slice_subrange(whole, PACKS_START, SRAM_START))
    }

    /// The four controller-pack slots as one region, to write to. Nothing
    /// outside it can change.
    pub fn full_controller_pack_mut(&mut self) -> (r: &mut [u8])
        ensures
            r@ == packs_of(old(self)@),
            final(self)@ == eeprom_of(old(self)@) + final(r)@ + old(self)@.subrange(
                SRAM_START as int,
                SRM_SIZE as int,
            ),
    {
        let bytes: &mut [u8; SRM_SIZE] = &mut *self.data;
        let whole: &mut [u8] = bytes;
        let ghost before = whole@;
        let (_eeprom, rest) = whole.split_at_mut(PACKS_START);
        let (packs, _tail) = rest.split_at_mut(PACKS_SIZE);
        proof {
            assert(packs@ =~= packs_of(before));
            assert(_eeprom@ =~= eeprom_of(before));
            assert(_tail@ =~= before.subrange(SRAM_START as int, SRM_SIZE as int));
        }
        packs
    }

    /// The SRAM segment.
    pub fn sram(&self) -> (r: Sram<'_>)
        ensures
            r@ == sram_of(self@),
    {
        let whole: &[u8] = self.data.as_slice();
        Sram::over(vstd::slice::slice_subrange(whole, SRAM_START, FLASHRAM_START))
    }

    /// The SRAM segment, to write to. Nothing outside it can change.
    pub fn sram_mut(&mut self) -> (r: &mut [u8])
        ensures
            r@ == sram_of(old(self)@),
            final(self)@ == old(self)@.subrange(0, SRAM_START as int) + final(r)@ + flashram_of(
                old(self)@,
            ),
    {
        let bytes: &mut [u8; SRM_SIZE] = &mut *self.data;
        let whole: &mut [u8] = bytes;
        let ghost before = whole@;
        let (_head, rest) = whole.split_at_mut(SRAM_START);
        let (sram, _tail) = rest.split_at_mut(SRAM_SIZE);
        proof {
            assert(sram@ =~= sram_of(before));
            assert(_tail@ =~= flashram_of(before));
        }
        sram
    }

    /// The FlashRAM segment.
    pub fn flashram(&self) -> (r: FlashRam<'_>)
        ensures
            r@ == flashram_of(self@),
    {
        let whole: &[u8] = self.data.as_slice();
        FlashRam::over(vstd::slice::slice_subrange(whole, FLASHRAM_START, SRM_SIZE))
    }

    /// The FlashRAM segment, to write to. Nothing outside it can change.
    pub fn flashram_mut(&mut self) -> (r: &mut [u8])
        ensures
            r@ == flashram_of(old(self)@),
            final(self)@ == old(self)@.subrange(0, FLASHRAM_START as int) + final(r)@,
    {
        let bytes: &mut [u8; SRM_SIZE] = &mut *self.data;
        let whole: &mut [u8] = bytes;
        let (_head, flashram) = whole.split_at_mut(FLASHRAM_START);
        flashram
    }
}

impl AsRef<[u8]> for SrmBuf {
    /// The bytes of the whole container.
    fn as_ref(&self) -> (r: &[u8])
        ensures
            r@ == self@,
    {
        self.data.as_slice()
    }
}

impl AsMut<[u8]> for SrmBuf {
    /// The bytes of the whole container, to write to.
    fn as_mut(&mut self) -> (r: &mut [u8])
        ensures
            r@ == old(self)@,
            final(self)@ == final(r)@,
    {
        let bytes: &mut [u8; SRM_SIZE] = &mut *self.data;
        bytes
    }
}

} // verus!
