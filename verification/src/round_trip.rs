//! What comes back when a merged container is split again.

use crate::byte_swap::{swap_is_involution, swap_keeps_every_byte, swapped};
use crate::controller_pack::{blank_image, note_table_free, PACK_SIZE};
use crate::convert::{with_extension_spec, DownloadView};
use crate::create::{battery_segment, battery_target, maybe_swapped, merged, packs_region, slot_image};
use crate::layout::{
    eeprom_of, flashram_of, pack_of, packs_of, regions_of_assembled, sram_of, Segment,
    EEPROM_4K_SIZE, EEPROM_SIZE, FLASHRAM_SIZE, PACKS_SIZE, PACK_COUNT, SRAM_SIZE, SRM_SIZE,
};
use crate::segment::all_blank;
use crate::split::{
    battery_download, eeprom_image, loaded, pack_downloads, pack_extension, slot_downloads,
    split_downloads,
};
use crate::srm_buf::erased;
use vstd::prelude::*;

verus! {

/// The extension of the battery file that comes from the segment `seg`.
pub open spec fn battery_extension(seg: Segment) -> Seq<char> {
    match seg {
        Segment::Eeprom => ".eep"@,
        Segment::Sram => ".sra"@,
        _ => ".fla"@,
    }
}

/// A merged container has the size of a container, so that it is read back
/// as it is, and each of its regions is what the merge made of it.
pub proof fn merged_regions(
    battery: Option<Seq<u8>>,
    packs: Seq<Option<Seq<u8>>>,
    combined: Option<Seq<u8>>,
    swap: bool,
)
    ensures
        merged(battery, packs, combined, swap).len() == SRM_SIZE,
        loaded(merged(battery, packs, combined, swap)) == merged(battery, packs, combined, swap),
        eeprom_of(merged(battery, packs, combined, swap)) == maybe_swapped(
            battery_segment(battery, Segment::Eeprom),
            swap,
        ),
        packs_of(merged(battery, packs, combined, swap)) == packs_region(packs, combined),
        sram_of(merged(battery, packs, combined, swap)) == battery_segment(battery, Segment::Sram),
        flashram_of(merged(battery, packs, combined, swap)) == maybe_swapped(
            battery_segment(battery, Segment::FlashRam),
            swap,
        ),
{
    let c = merged(battery, packs, combined, swap);
    regions_of_assembled(
        maybe_swapped(battery_segment(battery, Segment::Eeprom), swap),
        packs_region(packs, combined),
        battery_segment(battery, Segment::Sram),
        maybe_swapped(battery_segment(battery, Segment::FlashRam), swap),
    );
    assert(loaded(c) =~= c);
}

/// A battery file lies at the head of the segment that its length selects,
/// with erased storage behind it; the other two segments are erased.
pub proof fn battery_segment_is_padded_file(data: Seq<u8>, seg: Segment)
    requires
        battery_target(data.len()) is Some,
    ensures
        battery_target(data.len()) == Some(seg) ==> battery_segment(Some(data), seg) == data
            + erased((seg.size() - data.len()) as nat),
        battery_target(data.len()) == Some(seg) ==> (all_blank(battery_segment(Some(data), seg))
            <==> all_blank(data)),
        battery_target(data.len()) != Some(seg) ==> battery_segment(Some(data), seg) == erased(
            seg.size() as nat,
        ),
        all_blank(erased(seg.size() as nat)),
{
    if battery_target(data.len()) == Some(seg) {
        let image = battery_segment(Some(data), seg);
        assert(image =~= data + erased((seg.size() - data.len()) as nat));
        if all_blank(image) {
            assert forall|i: int| 0 <= i < data.len() implies data[i] == 0xff by {
                assert(image[i] == data[i]);
            }
        }
    }
}

/// Merging a battery file that is not erased, then splitting the container,
/// gives one battery file back, with the extension of the segment that the
/// file's length selects. Its content is the file padded with erased
/// storage to the segment's size; word-swapped if just one of merge and
/// split swapped, unless the segment is the SRAM, which is never swapped;
/// and cut to the 4K image if it is an EEPROM whose tail is erased.
pub proof fn battery_round_trip(
    name: Seq<char>,
    data: Seq<u8>,
    packs: Seq<Option<Seq<u8>>>,
    combined: Option<Seq<u8>>,
    swap_in: bool,
    swap_out: bool,
)
    requires
        battery_target(data.len()) is Some,
        !all_blank(data),
    ensures
        ({
            let seg = battery_target(data.len())->0;
            let image = data + erased((seg.size() - data.len()) as nat);
            let back = if swap_in == swap_out || seg == Segment::Sram {
                image
            } else {
                swapped(image)
            };
            battery_download(name, loaded(merged(Some(data), packs, combined, swap_in)), swap_out)
                == Some(
                DownloadView {
                    file_name: with_extension_spec(name, battery_extension(seg)),
                    data: if seg == Segment::Eeprom {
                        eeprom_image(back)
                    } else {
                        back
                    },
                },
            )
        }),
{
    let seg = battery_target(data.len())->0;
    let c = merged(Some(data), packs, combined, swap_in);
    merged_regions(Some(data), packs, combined, swap_in);
    battery_segment_is_padded_file(data, Segment::Eeprom);
    battery_segment_is_padded_file(data, Segment::Sram);
    battery_segment_is_padded_file(data, Segment::FlashRam);
    let e = battery_segment(Some(data), Segment::Eeprom);
    let f = battery_segment(Some(data), Segment::FlashRam);
    swap_is_involution(e);
    swap_is_involution(f);
    swap_keeps_every_byte(e, 0xff);
    swap_keeps_every_byte(f, 0xff);
}

/// With the same swap setting on both sides, an EEPROM file of the full
/// 2048 bytes comes back as it was, unless everything behind its first 512
/// bytes is erased: then those 512 bytes come back. A file of 512 bytes
/// comes back as it was.
pub proof fn eeprom_round_trip(
    name: Seq<char>,
    data: Seq<u8>,
    packs: Seq<Option<Seq<u8>>>,
    combined: Option<Seq<u8>>,
    swap: bool,
)
    requires
        data.len() == EEPROM_SIZE || data.len() == EEPROM_4K_SIZE,
        !all_blank(data),
    ensures
        battery_download(name, loaded(merged(Some(data), packs, combined, swap)), swap) == Some(
            DownloadView {
                file_name: with_extension_spec(name, ".eep"@),
                data: if data.len() == EEPROM_SIZE && !all_blank(
                    data.subrange(EEPROM_4K_SIZE as int, EEPROM_SIZE as int),
                ) {
                    data
                } else {
                    data.subrange(0, EEPROM_4K_SIZE as int)
                },
            },
        ),
{
    battery_round_trip(name, data, packs, combined, swap, swap);
    let image = data + erased((EEPROM_SIZE - data.len()) as nat);
    let tail = image.subrange(EEPROM_4K_SIZE as int, EEPROM_SIZE as int);
    if data.len() == EEPROM_SIZE {
        assert(image =~= data);
    } else {
        assert(all_blank(tail));
        assert(image.subrange(0, EEPROM_4K_SIZE as int) =~= data);
        assert(data.subrange(0, EEPROM_4K_SIZE as int) =~= data);
    }
}

/// An SRAM file of the full size comes back as it was, whatever the swap
/// settings. A FlashRAM file of the full size comes back as it was with the
/// same swap setting on both sides, and word-swapped with different ones.
pub proof fn full_battery_round_trip(
    name: Seq<char>,
    data: Seq<u8>,
    packs: Seq<Option<Seq<u8>>>,
    combined: Option<Seq<u8>>,
    swap_in: bool,
    swap_out: bool,
)
    requires
        data.len() == SRAM_SIZE || data.len() == FLASHRAM_SIZE,
        !all_blank(data),
    ensures
        battery_download(name, loaded(merged(Some(data), packs, combined, swap_in)), swap_out)
            == Some(
            if data.len() == SRAM_SIZE {
                DownloadView { file_name: with_extension_spec(name, ".sra"@), data: data }
            } else {
                DownloadView {
                    file_name: with_extension_spec(name, ".fla"@),
                    data: if swap_in == swap_out {
                        data
                    } else {
                        swapped(data)
                    },
                }
            },
        ),
{
    battery_round_trip(name, data, packs, combined, swap_in, swap_out);
    let seg = battery_target(data.len())->0;
    assert(data + erased((seg.size() - data.len()) as nat) =~= data);
}

/// Without a combined file, each controller-pack slot of a merged
/// container holds the slot's file over the blank image, and so the file
/// itself where it has the size of a slot.
pub proof fn merged_slots(
    battery: Option<Seq<u8>>,
    packs: Seq<Option<Seq<u8>>>,
    swap: bool,
    slot: int,
)
    requires
        0 <= slot < PACK_COUNT,
    ensures
        pack_of(merged(battery, packs, None, swap), slot) == slot_image(packs[slot]),
        slot_image(packs[slot]).len() == PACK_SIZE,
        match packs[slot] {
            Some(data) => data.len() == PACK_SIZE ==> slot_image(packs[slot]) == data,
            None => slot_image(packs[slot]) == blank_image(),
        },
{
    let c = merged(battery, packs, None, swap);
    merged_regions(battery, packs, None, swap);
    assert(pack_of(c, slot) =~= packs_of(c).subrange(slot * PACK_SIZE, (slot + 1) * PACK_SIZE));
    assert(pack_of(c, slot) =~= slot_image(packs[slot]));
    if let Some(data) = packs[slot] {
        if data.len() == PACK_SIZE {
            assert(slot_image(packs[slot]) =~= data);
        }
    }
}

/// The file of a slot that holds a note is among the files of the slots.
pub proof fn noted_slot_is_offered(name: Seq<char>, srm: Seq<u8>, slot: int, n: nat)
    requires
        0 <= slot < n,
        !note_table_free(pack_of(srm, slot)),
    ensures
        slot_downloads(name, srm, n).contains(
            DownloadView {
                file_name: with_extension_spec(name, pack_extension(slot)),
                data: pack_of(srm, slot),
            },
        ),
    decreases n,
{
    let file = DownloadView {
        file_name: with_extension_spec(name, pack_extension(slot)),
        data: pack_of(srm, slot),
    };
    let below = slot_downloads(name, srm, (n - 1) as nat);
    if slot == n - 1 {
        assert(below.push(file)[below.len() as int] == file);
    } else {
        noted_slot_is_offered(name, srm, slot, (n - 1) as nat);
        let i = choose|i: int| 0 <= i < below.len() && below[i] == file;
        if !note_table_free(pack_of(srm, n - 1)) {
            assert(slot_downloads(name, srm, n)[i] == file);
        }
    }
}

/// Merging a controller-pack file of a slot's size that holds a note, and
/// no combined file, then splitting the container slot by slot, gives the
/// file back as it was, with the extension of its slot.
pub proof fn slot_round_trip(
    name: Seq<char>,
    battery: Option<Seq<u8>>,
    packs: Seq<Option<Seq<u8>>>,
    swap_in: bool,
    swap_out: bool,
    slot: int,
)
    requires
        0 <= slot < PACK_COUNT,
        packs[slot] is Some,
        packs[slot]->0.len() == PACK_SIZE,
        !note_table_free(packs[slot]->0),
    ensures
        split_downloads(name, loaded(merged(battery, packs, None, swap_in)), swap_out, false).contains(
            DownloadView {
                file_name: with_extension_spec(name, pack_extension(slot)),
                data: packs[slot]->0,
            },
        ),
{
    let c = merged(battery, packs, None, swap_in);
    merged_regions(battery, packs, None, swap_in);
    merged_slots(battery, packs, swap_in, slot);
    noted_slot_is_offered(name, c, slot, PACK_COUNT as nat);
    let file = DownloadView {
        file_name: with_extension_spec(name, pack_extension(slot)),
        data: packs[slot]->0,
    };
    let slots = slot_downloads(name, c, PACK_COUNT as nat);
    let i = choose|i: int| 0 <= i < slots.len() && slots[i] == file;
    match battery_download(name, c, swap_out) {
        Some(b) => {
            assert((seq![b] + slots)[i + 1] == file);
        },
        None => {},
    }
}

/// Merging a combined controller-pack file of the size of the four slots,
/// whose first note table holds a note, then splitting the container with
/// the combined output, gives the file back as it was, whatever the files
/// of the single slots were.
pub proof fn combined_round_trip(
    name: Seq<char>,
    battery: Option<Seq<u8>>,
    packs: Seq<Option<Seq<u8>>>,
    data: Seq<u8>,
    swap_in: bool,
)
    requires
        data.len() == PACKS_SIZE,
        !note_table_free(data),
    ensures
        pack_downloads(name, loaded(merged(battery, packs, Some(data), swap_in)), true) == seq![
            (DownloadView { file_name: with_extension_spec(name, ".mpk"@), data: data }),
        ],
{
    merged_regions(battery, packs, Some(data), swap_in);
    assert(packs_region(packs, Some(data)) =~= data);
}

} // verus!
