//! The fixed memory map of the save container.

use crate::controller_pack::PACK_SIZE;
use vstd::prelude::*;

verus! {

/// Size in bytes of the whole container.
pub const SRM_SIZE: usize = 0x48800;

/// Size of the EEPROM segment, which starts the container.
pub const EEPROM_SIZE: usize = 0x800;

/// Size of the logical image of a 4K EEPROM.
pub const EEPROM_4K_SIZE: usize = 0x200;

/// Offset of the first controller-pack slot.
pub const PACKS_START: usize = 0x800;

/// Number of controller-pack slots.
pub const PACK_COUNT: usize = 4;

/// Size of the four controller-pack slots together.
pub const PACKS_SIZE: usize = 0x20000;

/// Offset of the SRAM segment.
pub const SRAM_START: usize = 0x20800;

/// Size of the SRAM segment.
pub const SRAM_SIZE: usize = 0x8000;

/// Offset of the FlashRAM segment.
pub const FLASHRAM_START: usize = 0x28800;

/// Size of the FlashRAM segment.
pub const FLASHRAM_SIZE: usize = 0x20000;

/// One of the seven segments of the container.
#[derive(Clone, Copy, Debug, PartialEq, Eq)]
pub enum Segment {
    Eeprom,
    /// The controller-pack slot of the given index, below `PACK_COUNT`.
    ControllerPack(usize),
    Sram,
    FlashRam,
}

impl Segment {
    /// Whether this names a segment of the container.
    pub open spec fn valid(self) -> bool {
        match self {
            Segment::ControllerPack(slot) => slot < PACK_COUNT,
            _ => true,
        }
    }

    /// Offset of the segment's first byte.
    pub open spec fn start(self) -> int {
        match self {
            Segment::Eeprom => 0,
            Segment::ControllerPack(slot) => PACKS_START + slot * PACK_SIZE,
            Segment::Sram => SRAM_START as int,
            Segment::FlashRam => FLASHRAM_START as int,
        }
    }

    /// Number of bytes in the segment.
    pub open spec fn size(self) -> int {
        match self {
            Segment::Eeprom => EEPROM_SIZE as int,
            Segment::ControllerPack(_) => PACK_SIZE as int,
            Segment::Sram => SRAM_SIZE as int,
            Segment::FlashRam => FLASHRAM_SIZE as int,
        }
    }

    /// Offset just behind the segment's last byte.
    pub open spec fn end(self) -> int {
        self.start() + self.size()
    }

    /// Whether the segment holds the byte at `offset`.
    pub open spec fn holds(self, offset: int) -> bool {
        self.start() <= offset < self.end()
    }

    /// The segment that holds the byte at `offset` of the container.
    pub open spec fn at(offset: int) -> Segment {
        if offset < PACKS_START {
            Segment::Eeprom
        } else if offset < SRAM_START {
            Segment::ControllerPack(((offset - PACKS_START) / PACK_SIZE as int) as usize)
        } else if offset < FLASHRAM_START {
            Segment::Sram
        } else {
            Segment::FlashRam
        }
    }

    /// The bytes of this segment in the container `srm`.
    pub open spec fn of(self, srm: Seq<u8>) -> Seq<u8> {
        srm.subrange(self.start(), self.end())
    }
}

/// The EEPROM segment of the container `srm`.
pub open spec fn eeprom_of(srm: Seq<u8>) -> Seq<u8> {
    srm.subrange(0, EEPROM_SIZE as int)
}

/// The controller-pack slot `slot` of the container `srm`.
pub open spec fn pack_of(srm: Seq<u8>, slot: int) -> Seq<u8> {
    srm.subrange(PACKS_START + slot * PACK_SIZE, PACKS_START + (slot + 1) * PACK_SIZE)
}

/// The four controller-pack slots of the container `srm`, as one region.
pub open spec fn packs_of(srm: Seq<u8>) -> Seq<u8> {
    srm.subrange(PACKS_START as int, SRAM_START as int)
}

/// The SRAM segment of the container `srm`.
pub open spec fn sram_of(srm: Seq<u8>) -> Seq<u8> {
    srm.subrange(SRAM_START as int, FLASHRAM_START as int)
}

/// The FlashRAM segment of the container `srm`.
pub open spec fn flashram_of(srm: Seq<u8>) -> Seq<u8> {
    srm.subrange(FLASHRAM_START as int, SRM_SIZE as int)
}

/// Every byte of the container lies in exactly one segment.
pub proof fn segments_partition(offset: int)
    requires
        0 <= offset < SRM_SIZE,
    ensures
        Segment::at(offset).valid(),
        Segment::at(offset).holds(offset),
        forall|s: Segment| s.valid() && s.holds(offset) ==> s == Segment::at(offset),
{
    assert forall|s: Segment| s.valid() && s.holds(offset) implies s == Segment::at(offset) by {
        match s {
            Segment::ControllerPack(slot) => {
                assert(slot == (offset - PACKS_START) / PACK_SIZE as int);
            },
            _ => {},
        }
    }
}

/// The segments lie end to end from the first byte of the container to its
/// last, and a segment holds no byte outside the container.
pub proof fn segments_are_contiguous()
    ensures
        Segment::Eeprom.start() == 0,
        Segment::ControllerPack(0).start() == Segment::Eeprom.end(),
        forall|slot: usize|
            0 < slot < PACK_COUNT ==> #[trigger] Segment::ControllerPack(slot).start()
                == Segment::ControllerPack((slot - 1) as usize).end(),
        Segment::Sram.start() == Segment::ControllerPack(3).end(),
        Segment::FlashRam.start() == Segment::Sram.end(),
        Segment::FlashRam.end() == SRM_SIZE,
        Segment::Eeprom.size() + PACK_COUNT * Segment::ControllerPack(0).size()
            + Segment::Sram.size() + Segment::FlashRam.size() == SRM_SIZE,
        forall|s: Segment| s.valid() ==> 0 <= #[trigger] s.start() < s.end() <= SRM_SIZE,
{
}

/// A container is its segments, one after the other.
pub proof fn container_is_its_segments(srm: Seq<u8>)
    requires
        srm.len() == SRM_SIZE,
    ensures
        srm == eeprom_of(srm) + pack_of(srm, 0) + pack_of(srm, 1) + pack_of(srm, 2) + pack_of(
            srm,
            3,
        ) + sram_of(srm) + flashram_of(srm),
        packs_of(srm) == pack_of(srm, 0) + pack_of(srm, 1) + pack_of(srm, 2) + pack_of(srm, 3),
        eeprom_of(srm) == Segment::Eeprom.of(srm),
        sram_of(srm) == Segment::Sram.of(srm),
        flashram_of(srm) == Segment::FlashRam.of(srm),
        forall|slot: usize|
            slot < PACK_COUNT ==> pack_of(srm, slot as int) == #[trigger] Segment::ControllerPack(
                slot,
            ).of(srm),
{
    assert(srm =~= eeprom_of(srm) + pack_of(srm, 0) + pack_of(srm, 1) + pack_of(srm, 2) + pack_of(
        srm,
        3,
    ) + sram_of(srm) + flashram_of(srm));
    assert(packs_of(srm) =~= pack_of(srm, 0) + pack_of(srm, 1) + pack_of(srm, 2) + pack_of(
        srm,
        3,
    ));
}

/// The container made of the four given regions, in the order of the
/// memory map.
pub open spec fn assembled(
    eeprom: Seq<u8>,
    packs: Seq<u8>,
    sram: Seq<u8>,
    flashram: Seq<u8>,
) -> Seq<u8> {
    eeprom + packs + sram + flashram
}

/// A container is assembled from its own regions.
pub proof fn container_is_assembled(srm: Seq<u8>)
    requires
        srm.len() == SRM_SIZE,
    ensures
        srm == assembled(eeprom_of(srm), packs_of(srm), sram_of(srm), flashram_of(srm)),
{
    assert(srm =~= assembled(eeprom_of(srm), packs_of(srm), sram_of(srm), flashram_of(srm)));
}

/// The regions of an assembled container are those it was made of.
pub proof fn regions_of_assembled(
    eeprom: Seq<u8>,
    packs: Seq<u8>,
    sram: Seq<u8>,
    flashram: Seq<u8>,
)
    requires
        eeprom.len() == EEPROM_SIZE,
        packs.len() == PACKS_SIZE,
        sram.len() == SRAM_SIZE,
        flashram.len() == FLASHRAM_SIZE,
    ensures
        assembled(eeprom, packs, sram, flashram).len() == SRM_SIZE,
        eeprom_of(assembled(eeprom, packs, sram, flashram)) == eeprom,
        packs_of(assembled(eeprom, packs, sram, flashram)) == packs,
        sram_of(assembled(eeprom, packs, sram, flashram)) == sram,
        flashram_of(assembled(eeprom, packs, sram, flashram)) == flashram,
{
    let srm = assembled(eeprom, packs, sram, flashram);
    assert(eeprom_of(srm) =~= eeprom);
    assert(packs_of(srm) =~= packs);
    assert(sram_of(srm) =~= sram);
    assert(flashram_of(srm) =~= flashram);
}

} // verus!
