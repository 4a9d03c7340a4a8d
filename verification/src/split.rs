//! Splitting one container into per-device save files.

use crate::byte_swap::word_swap;
use crate::controller_pack::{note_table_free, PACK_SIZE};
use crate::convert::{
    download_file, download_views, with_extension, with_extension_spec, Conversion,
    ConversionResult, Download, DownloadView, InputFile,
};
use crate::copy::{copy_truncated, overlaid};
use crate::create::maybe_swapped;
use crate::layout::{
    eeprom_of, flashram_of, pack_of, packs_of, sram_of, EEPROM_4K_SIZE, PACK_COUNT,
};
use crate::segment::all_blank;
use crate::srm_buf::{blank_container, container_is_empty, SrmBuf};
use vstd::prelude::*;

verus! {

/// The container read from the bytes of a file: the bytes over the blank
/// container, so that a short file leaves the rest blank and what a long
/// file holds behind the container's size is left out.
pub open spec fn loaded(bytes: Seq<u8>) -> Seq<u8> {
    overlaid(blank_container(), bytes)
}

/// The image under which an EEPROM is offered: its first 512 bytes where
/// everything behind them is erased, else the whole segment.
pub open spec fn eeprom_image(eeprom: Seq<u8>) -> Seq<u8> {
    if all_blank(eeprom.subrange(EEPROM_4K_SIZE as int, eeprom.len() as int)) {
        eeprom.subrange(0, EEPROM_4K_SIZE as int)
    } else {
        eeprom
    }
}

/// The battery file of the container `srm`: the first of EEPROM, SRAM and
/// FlashRAM that is not erased, and none where all three are. The EEPROM and
/// the FlashRAM are word-swapped where `swap` is set, the SRAM never.
pub open spec fn battery_download(name: Seq<char>, srm: Seq<u8>, swap: bool) -> Option<
    DownloadView,
> {
    if !all_blank(eeprom_of(srm)) {
        Some(
            DownloadView {
                file_name: with_extension_spec(name, ".eep"@),
                data: eeprom_image(maybe_swapped(eeprom_of(srm), swap)),
            },
        )
    } else if !all_blank(sram_of(srm)) {
        Some(DownloadView { file_name: with_extension_spec(name, ".sra"@), data: sram_of(srm) })
    } else if !all_blank(flashram_of(srm)) {
        Some(
            DownloadView {
                file_name: with_extension_spec(name, ".fla"@),
                data: maybe_swapped(flashram_of(srm), swap),
            },
        )
    } else {
        None
    }
}

/// The extension of the file of the controller-pack slot `slot`.
pub open spec fn pack_extension(slot: int) -> Seq<char> {
    if slot == 1 {
        ".mpk2"@
    } else if slot == 2 {
        ".mpk3"@
    } else if slot == 3 {
        ".mpk4"@
    } else {
        ".mpk"@
    }
}

/// The files of those among the first `n` controller-pack slots of `srm`
/// that hold a note, in the order of the slots.
pub open spec fn slot_downloads(name: Seq<char>, srm: Seq<u8>, n: nat) -> Seq<DownloadView>
    decreases n,
{
    if n == 0 {
        Seq::empty()
    } else {
        let below = slot_downloads(name, srm, (n - 1) as nat);
        if note_table_free(pack_of(srm, n - 1)) {
            below
        } else {
            below.push(
                DownloadView {
                    file_name: with_extension_spec(name, pack_extension(n - 1)),
                    data: pack_of(srm, n - 1),
                },
            )
        }
    }
}

/// The controller-pack files of the container `srm`. With `combined` set,
/// the four slots as one file, unless the note table at their head marks
/// every page free; else one file for each slot that holds a note.
pub open spec fn pack_downloads(name: Seq<char>, srm: Seq<u8>, combined: bool) -> Seq<
    DownloadView,
> {
    if combined {
        if note_table_free(packs_of(srm)) {
            Seq::empty()
        } else {
            seq![
                (DownloadView {
                    file_name: with_extension_spec(name, ".mpk"@),
                    data: packs_of(srm),
                }),
            ]
        }
    } else {
        slot_downloads(name, srm, PACK_COUNT as nat)
    }
}

/// The files that the container `srm` splits into: the battery file, if
/// there is one, then the controller-pack files.
pub open spec fn split_downloads(name: Seq<char>, srm: Seq<u8>, swap: bool, combined: bool) -> Seq<
    DownloadView,
> {
    let packs = pack_downloads(name, srm, combined);
    match battery_download(name, srm, swap) {
        Some(battery) => seq![battery] + packs,
        None => packs,
    }
}

/// Reads a container from the bytes of a file.
pub fn load(bytes: &[u8]) -> (r: SrmBuf)
    ensures
        r@ == loaded(bytes@),
{
    let mut srm_buf = SrmBuf::new();
    let whole = srm_buf.as_mut();
    copy_truncated(whole, bytes);
    srm_buf
}

/// Makes the battery file of `srm_buf`, if it has one. Where a segment is
/// offered word-swapped, it is left so in the container; the controller
/// packs stay as they are.
fn battery_file(srm_buf: &mut SrmBuf, name: &str, swap_bytes: bool) -> (r: Option<Download>)
    ensures
        match r {
            Some(d) => battery_download(name@, old(srm_buf)@, swap_bytes) == Some(d@),
            None => battery_download(name@, old(srm_buf)@, swap_bytes) == None::<DownloadView>,
        },
        final(srm_buf)@.len() == old(srm_buf)@.len(),
        packs_of(final(srm_buf)@) == packs_of(old(srm_buf)@),
{
    proof {
        srm_buf.size_is_fixed();
    }
    if !srm_buf.eeprom().is_empty() {
        if swap_bytes {
            let eeprom = srm_buf.eeprom_mut();
            word_swap(eeprom);
        }
        proof {
            srm_buf.size_is_fixed();
            assert(eeprom_of(srm_buf@) =~= maybe_swapped(eeprom_of(old(srm_buf)@), swap_bytes));
            assert(packs_of(srm_buf@) =~= packs_of(old(srm_buf)@));
        }
        let whole = srm_buf.eeprom();
        let eep = if whole.is_4k() {
            whole.as_4k()
        } else {
            whole
        };
        Some(download_file(eep.as_ref(), with_extension(name, ".eep")))
    } else if !srm_buf.sram().is_empty() {
        Some(download_file(srm_buf.sram().as_ref(), with_extension(name, ".sra")))
    } else if !srm_buf.flashram().is_empty() {
        if swap_bytes {
            let flashram = srm_buf.flashram_mut();
            word_swap(flashram);
        }
        proof {
            srm_buf.size_is_fixed();
            assert(flashram_of(srm_buf@) =~= maybe_swapped(flashram_of(old(srm_buf)@), swap_bytes));
            assert(packs_of(srm_buf@) =~= packs_of(old(srm_buf)@));
        }
        Some(download_file(srm_buf.flashram().as_ref(), with_extension(name, ".fla")))
    } else {
        None
    }
}

/// The extension of the file of the controller-pack slot `slot`.
fn slot_extension(slot: usize) -> (r: &'static str)
    ensures
        r@ == pack_extension(slot as int),
{
    if slot == 1 {
        ".mpk2"
    } else if slot == 2 {
        ".mpk3"
    } else if slot == 3 {
        ".mpk4"
    } else {
        ".mpk"
    }
}

/// Makes the controller-pack files of `srm_buf` and adds them to
/// `downloads`.
fn controller_pack_files(
    downloads: &mut Vec<Download>,
    srm_buf: &SrmBuf,
    name: &str,
    mupen_out: bool,
)
    ensures
        download_views(final(downloads)@) == download_views(old(downloads)@) + pack_downloads(
            name@,
            srm_buf@,
            mupen_out,
        ),
{
    if mupen_out {
        let packs = srm_buf.full_controller_pack();
        if !packs.is_empty() {
            downloads.push(download_file(packs.as_ref(), with_extension(name, ".mpk")));
        }
        assert(download_views(downloads@) =~= download_views(old(downloads)@) + pack_downloads(
            name@,
            srm_buf@,
            mupen_out,
        ));
    } else {
        let packs = srm_buf.controller_pack_iter();
        let mut slot: usize = 0;
        assert(download_views(downloads@) =~= download_views(old(downloads)@) + slot_downloads(
            name@,
            srm_buf@,
            0,
        ));
        while slot < PACK_COUNT
            invariant
                slot <= PACK_COUNT,
                packs@.len() == PACK_COUNT,
                forall|k: int|
                    0 <= k < PACK_COUNT ==> (#[trigger] packs@[k])@ == pack_of(srm_buf@, k),
                download_views(downloads@) == download_views(old(downloads)@) + slot_downloads(
                    name@,
                    srm_buf@,
                    slot as nat,
                ),
            decreases PACK_COUNT - slot,
        {
            let ghost so_far = downloads@;
            if !packs[slot].is_empty() {
                downloads.push(
                    download_file(packs[slot].as_ref(), with_extension(name, slot_extension(slot))),
                );
                assert(download_views(downloads@) =~= download_views(so_far).push(
                    downloads@[so_far.len() as int]@,
                ));
            }
            assert(download_views(downloads@) =~= download_views(old(downloads)@) + slot_downloads(
                name@,
                srm_buf@,
                (slot + 1) as nat,
            ));
            slot = slot + 1;
        }
    }
}

/// Splits the container in `srm_file` into per-device files, named after
/// it. Where `swap_bytes` is set, an EEPROM or a FlashRAM is offered
/// word-swapped; where `mupen_out` is set, the controller packs are offered
/// as one file.
///
/// Without a file, and with a container of which every segment is empty,
/// nothing is produced, and the result says so.
pub fn do_split(srm_file: &Option<InputFile>, swap_bytes: bool, mupen_out: bool) -> (r: Conversion)
    ensures
        match *srm_file {
            Some(file) => if container_is_empty(loaded(file.data@)) {
                &&& r.result@ == Some("Empty SRM"@)
                &&& r.downloads@.len() == 0
            } else {
                &&& r.result@ == None::<Seq<char>>
                &&& download_views(r.downloads@) == split_downloads(
                    file.name@,
                    loaded(file.data@),
                    swap_bytes,
                    mupen_out,
                )
            },
            None => {
                &&& r.result@ == Some("No input file"@)
                &&& r.downloads@.len() == 0
            },
        },
{
    match srm_file {
        Some(file) => {
            let mut srm_buf = load(file.data.as_slice());
            if srm_buf.is_empty() {
                return Conversion {
                    result: ConversionResult::failure("Empty SRM"),
                    downloads: Vec::new(),
                };
            }
            let ghost srm = srm_buf@;
            let mut downloads: Vec<Download> = Vec::new();
            if let Some(battery) = battery_file(&mut srm_buf, file.name.as_str(), swap_bytes) {
                downloads.push(battery);
            }
            assert(download_views(downloads@) =~= match battery_download(
                file.name@,
                srm,
                swap_bytes,
            ) {
                Some(battery) => seq![battery],
                None => Seq::empty(),
            });
            proof {
                assert forall|slot: int| 0 <= slot < PACK_COUNT implies pack_of(srm_buf@, slot)
                    == pack_of(srm, slot) by {
                    assert(pack_of(srm_buf@, slot) =~= packs_of(srm_buf@).subrange(
                        slot * PACK_SIZE,
                        (slot + 1) * PACK_SIZE,
                    ));
                    assert(pack_of(srm, slot) =~= packs_of(srm).subrange(
                        slot * PACK_SIZE,
                        (slot + 1) * PACK_SIZE,
                    ));
                }
                same_slot_downloads(file.name@, srm_buf@, srm, PACK_COUNT as nat);
            }
            controller_pack_files(&mut downloads, &srm_buf, file.name.as_str(), mupen_out);
            assert(download_views(downloads@) =~= split_downloads(
                file.name@,
                srm,
                swap_bytes,
                mupen_out,
            ));
            Conversion { result: ConversionResult::success(), downloads }
        },
        None => Conversion {
            result: ConversionResult::failure("No input file"),
            downloads: Vec::new(),
        },
    }
}

/// Containers with the same controller-pack slots give the same files for
/// them.
proof fn same_slot_downloads(name: Seq<char>, a: Seq<u8>, b: Seq<u8>, n: nat)
    requires
        n <= PACK_COUNT,
        forall|slot: int| 0 <= slot < PACK_COUNT ==> pack_of(a, slot) == pack_of(b, slot),
    ensures
        slot_downloads(name, a, n) == slot_downloads(name, b, n),
    decreases n,
{
    if n > 0 {
        same_slot_downloads(name, a, b, (n - 1) as nat);
    }
}

} // verus!
