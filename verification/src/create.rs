//! Merging per-device save files into one container.

use crate::byte_swap::{swapped, word_swap};
use crate::controller_pack::{blank_image, PACK_SIZE};
use crate::convert::{
    download_file, download_views, with_extension, with_extension_spec, Conversion,
    ConversionResult, Download, DownloadView, InputFile,
};
use crate::copy::{copy_truncated, overlaid};
use crate::layout::{
    assembled, container_is_assembled, eeprom_of, flashram_of, pack_of, packs_of,
    regions_of_assembled, sram_of, Segment, EEPROM_SIZE, FLASHRAM_SIZE, SRAM_SIZE, SRM_SIZE,
};
use crate::srm_buf::{blank_container, blank_container_segments, erased, SrmBuf};
use vstd::prelude::*;

verus! {

/// The files that a merge may take.
#[derive(Clone, Debug, PartialEq, Eq)]
pub struct CreateParams {
    /// The battery-backed save: an EEPROM, an SRAM or a FlashRAM image.
    pub battery_file: Option<InputFile>,
    /// One file for each controller-pack slot.
    pub controller_packs: [Option<InputFile>; 4],
    /// One file for the four controller-pack slots together.
    pub mupen_pack: Option<InputFile>,
}

/// The content of `file`, if there is one.
pub open spec fn data_of(file: Option<InputFile>) -> Option<Seq<u8>> {
    match file {
        Some(f) => Some(f.data@),
        None => None,
    }
}

/// The segment that takes a battery file of `len` bytes: the smallest that
/// holds it. An empty file, and one larger than the FlashRAM, go nowhere.
pub open spec fn battery_target(len: nat) -> Option<Segment> {
    if 1 <= len <= EEPROM_SIZE {
        Some(Segment::Eeprom)
    } else if EEPROM_SIZE < len <= SRAM_SIZE {
        Some(Segment::Sram)
    } else if SRAM_SIZE < len <= FLASHRAM_SIZE {
        Some(Segment::FlashRam)
    } else {
        None
    }
}

/// A battery file goes to a segment exactly where its length lies between 1
/// and the size of the FlashRAM. The segment then is one of the three
/// battery segments, lies inside the container and holds the whole file,
/// and no smaller battery segment would hold it.
pub proof fn battery_target_holds_the_file(len: nat)
    ensures
        battery_target(len) is Some <==> 1 <= len <= FLASHRAM_SIZE,
        match battery_target(len) {
            Some(seg) => {
                &&& seg == Segment::Eeprom || seg == Segment::Sram || seg == Segment::FlashRam
                &&& len <= seg.size()
                &&& 0 <= seg.start() < seg.end() <= SRM_SIZE
                &&& seg == Segment::Sram ==> len > Segment::Eeprom.size()
                &&& seg == Segment::FlashRam ==> len > Segment::Sram.size()
            },
            None => true,
        },
{
}

/// The battery segment `seg` of a merged container, before any swap: the
/// battery file over erased storage where the file goes to `seg`, erased
/// storage where it does not.
pub open spec fn battery_segment(battery: Option<Seq<u8>>, seg: Segment) -> Seq<u8> {
    match battery {
        Some(data) => if battery_target(data.len()) == Some(seg) {
            overlaid(erased(seg.size() as nat), data)
        } else {
            erased(seg.size() as nat)
        },
        None => erased(seg.size() as nat),
    }
}

/// One controller-pack slot of a merged container, before the combined
/// file is written: the slot's file over the blank image.
pub open spec fn slot_image(file: Option<Seq<u8>>) -> Seq<u8> {
    match file {
        Some(data) => overlaid(blank_image(), data),
        None => blank_image(),
    }
}

/// The four controller-pack slots of a merged container. The combined file
/// is written last, over what the files of the single slots left.
pub open spec fn packs_region(packs: Seq<Option<Seq<u8>>>, combined: Option<Seq<u8>>) -> Seq<u8> {
    let slots = slot_image(packs[0]) + slot_image(packs[1]) + slot_image(packs[2]) + slot_image(
        packs[3],
    );
    match combined {
        Some(data) => overlaid(slots, data),
        None => slots,
    }
}

/// `s`, word-swapped where `swap` is set.
pub open spec fn maybe_swapped(s: Seq<u8>, swap: bool) -> Seq<u8> {
    if swap {
        swapped(s)
    } else {
        s
    }
}

/// The merged container. Only the EEPROM and the FlashRAM are ever swapped.
pub open spec fn merged(
    battery: Option<Seq<u8>>,
    packs: Seq<Option<Seq<u8>>>,
    combined: Option<Seq<u8>>,
    swap: bool,
) -> Seq<u8> {
    maybe_swapped(battery_segment(battery, Segment::Eeprom), swap) + packs_region(packs, combined)
        + battery_segment(battery, Segment::Sram) + maybe_swapped(
        battery_segment(battery, Segment::FlashRam),
        swap,
    )
}

impl Default for CreateParams {
    /// No file at all.
    fn default() -> (r: Self)
        ensures
            r.battery_file is None,
            forall|slot: int| 0 <= slot < 4 ==> r.controller_packs@[slot] is None,
            r.mupen_pack is None,
    {
        CreateParams {
            battery_file: None,
            controller_packs: [None, None, None, None],
            mupen_pack: None,
        }
    }
}

impl CreateParams {
    /// The content of the battery file.
    pub open spec fn battery_data(&self) -> Option<Seq<u8>> {
        data_of(self.battery_file)
    }

    /// The content of the file of each controller-pack slot.
    pub open spec fn pack_data(&self) -> Seq<Option<Seq<u8>>> {
        Seq::new(4, |slot: int| data_of(self.controller_packs@[slot]))
    }

    /// The content of the combined controller-pack file, which counts only
    /// where the combined mode is asked for.
    pub open spec fn combined_data(&self, is_mupen: bool) -> Option<Seq<u8>> {
        if is_mupen {
            data_of(self.mupen_pack)
        } else {
            None
        }
    }

    /// The name of the first file that is there, in the order: battery file,
    /// controller-pack slots, combined controller-pack file.
    pub open spec fn first_name(&self, is_mupen: bool) -> Option<Seq<char>> {
        if let Some(f) = self.battery_file {
            Some(f.name@)
        } else if let Some(f) = self.controller_packs@[0] {
            Some(f.name@)
        } else if let Some(f) = self.controller_packs@[1] {
            Some(f.name@)
        } else if let Some(f) = self.controller_packs@[2] {
            Some(f.name@)
        } else if let Some(f) = self.controller_packs@[3] {
            Some(f.name@)
        } else if let Some(f) = self.mupen_pack {
            if is_mupen {
                Some(f.name@)
            } else {
                None
            }
        } else {
            None
        }
    }

    /// The container that a merge of these files gives.
    pub open spec fn container(&self, is_mupen: bool, swap_bytes: bool) -> Seq<u8> {
        merged(self.battery_data(), self.pack_data(), self.combined_data(is_mupen), swap_bytes)
    }

    /// Finds the name under which the container is offered.
    pub fn first_file_name(&self, is_mupen: bool) -> (r: Option<&String>)
        ensures
            match r {
                Some(name) => self.first_name(is_mupen) == Some(name@),
                None => self.first_name(is_mupen) == None::<Seq<char>>,
            },
    {
        if let Some(f) = &self.battery_file {
            return Some(&f.name);
        }
        let mut slot: usize = 0;
        while slot < 4
            invariant
                slot <= 4,
                self.battery_file is None,
                forall|k: int| 0 <= k < slot ==> self.controller_packs@[k] is None,
            decreases 4 - slot,
        {
            if let Some(f) = &self.controller_packs[slot] {
                return Some(&f.name);
            }
            slot = slot + 1;
        }
        if is_mupen {
            if let Some(f) = &self.mupen_pack {
                return Some(&f.name);
            }
        }
        None
    }
}

/// Writes `file`, where there is one, over the head of `dst`.
fn place(dst: &mut [u8], file: &Option<InputFile>)
    ensures
        final(dst)@ == match data_of(*file) {
            Some(data) => overlaid(old(dst)@, data),
            None => old(dst)@,
        },
{
    if let Some(f) = file {
        copy_truncated(dst, f.data.as_slice());
    }
}

/// Writes the battery file into the segment that its length selects.
fn write_battery(buf: &mut SrmBuf, file: &Option<InputFile>)
    requires
        old(buf)@ == blank_container(),
    ensures
        final(buf)@ == assembled(
            battery_segment(data_of(*file), Segment::Eeprom),
            packs_of(blank_container()),
            battery_segment(data_of(*file), Segment::Sram),
            battery_segment(data_of(*file), Segment::FlashRam),
        ),
{
    proof {
        blank_container_segments();
        container_is_assembled(blank_container());
    }
    if let Some(battery) = file {
        let len: usize = battery.data.len();
        if 1 <= len && len <= EEPROM_SIZE {
            let eeprom = buf.eeprom_mut();
            copy_truncated(eeprom, battery.data.as_slice());
            assert(buf@ =~= assembled(
                battery_segment(data_of(*file), Segment::Eeprom),
                packs_of(blank_container()),
                battery_segment(data_of(*file), Segment::Sram),
                battery_segment(data_of(*file), Segment::FlashRam),
            ));
        } else if EEPROM_SIZE < len && len <= SRAM_SIZE {
            let sram = buf.sram_mut();
            copy_truncated(sram, battery.data.as_slice());
            assert(buf@ =~= assembled(
                battery_segment(data_of(*file), Segment::Eeprom),
                packs_of(blank_container()),
                battery_segment(data_of(*file), Segment::Sram),
                battery_segment(data_of(*file), Segment::FlashRam),
            ));
        } else if SRAM_SIZE < len && len <= FLASHRAM_SIZE {
            let flashram = buf.flashram_mut();
            copy_truncated(flashram, battery.data.as_slice());
            assert(buf@ =~= assembled(
                battery_segment(data_of(*file), Segment::Eeprom),
                packs_of(blank_container()),
                battery_segment(data_of(*file), Segment::Sram),
                battery_segment(data_of(*file), Segment::FlashRam),
            ));
        }
    }
}

/// Writes the file of each controller-pack slot into its slot, then the
/// combined file over the four slots.
fn write_packs(buf: &mut SrmBuf, params: &CreateParams, is_mupen: bool)
    requires
        old(buf)@.len() == SRM_SIZE,
        packs_of(old(buf)@) == packs_of(blank_container()),
    ensures
        final(buf)@ == assembled(
            eeprom_of(old(buf)@),
            packs_region(params.pack_data(), params.combined_data(is_mupen)),
            sram_of(old(buf)@),
            flashram_of(old(buf)@),
        ),
{
    proof {
        blank_container_segments();
    }
    let ghost before = buf@;
    let ghost files = params.pack_data();
    proof {
        assert forall|slot: int| 0 <= slot < 4 implies #[trigger] pack_of(before, slot)
            == blank_image() by {
            assert(pack_of(before, slot) =~= packs_of(before).subrange(
                slot * PACK_SIZE,
                (slot + 1) * PACK_SIZE,
            ));
            assert(pack_of(blank_container(), slot) =~= packs_of(blank_container()).subrange(
                slot * PACK_SIZE,
                (slot + 1) * PACK_SIZE,
            ));
        }
    }
    let (pack0, pack1, pack2, pack3) = buf.controller_pack_iter_mut();
    place(pack0, &params.controller_packs[0]);
    place(pack1, &params.controller_packs[1]);
    place(pack2, &params.controller_packs[2]);
    place(pack3, &params.controller_packs[3]);
    assert(pack0@ == slot_image(files[0]));
    assert(pack1@ == slot_image(files[1]));
    assert(pack2@ == slot_image(files[2]));
    assert(pack3@ == slot_image(files[3]));
    assert(buf@ =~= assembled(
        eeprom_of(old(buf)@),
        packs_region(params.pack_data(), None),
        sram_of(old(buf)@),
        flashram_of(old(buf)@),
    ));
    if is_mupen {
        proof {
            regions_of_assembled(
                eeprom_of(old(buf)@),
                packs_region(params.pack_data(), None),
                sram_of(old(buf)@),
                flashram_of(old(buf)@),
            );
        }
        let packs = buf.full_controller_pack_mut();
        place(packs, &params.mupen_pack);
        assert(buf@ =~= assembled(
            eeprom_of(old(buf)@),
            packs_region(params.pack_data(), params.combined_data(is_mupen)),
            sram_of(old(buf)@),
            flashram_of(old(buf)@),
        ));
    }
}

/// Word-swaps the EEPROM and the FlashRAM, and nothing else.
fn swap_battery_words(buf: &mut SrmBuf)
    ensures
        final(buf)@ == assembled(
            swapped(eeprom_of(old(buf)@)),
            packs_of(old(buf)@),
            sram_of(old(buf)@),
            swapped(flashram_of(old(buf)@)),
        ),
{
    proof {
        buf.size_is_fixed();
    }
    let eeprom = buf.eeprom_mut();
    word_swap(eeprom);
    let flashram = buf.flashram_mut();
    word_swap(flashram);
    assert(buf@ =~= assembled(
        swapped(eeprom_of(old(buf)@)),
        packs_of(old(buf)@),
        sram_of(old(buf)@),
        swapped(flashram_of(old(buf)@)),
    ));
}

/// Merges the files of `params` into one container. The combined
/// controller-pack file counts only where `is_mupen` is set; where
/// `swap_bytes` is set, the EEPROM and the FlashRAM are word-swapped.
///
/// With no file at all nothing is produced, and the result says so. Else
/// the container is offered under the name of the first file, with the
/// extension `.srm`.
pub fn do_create(params: &CreateParams, is_mupen: bool, swap_bytes: bool) -> (r: Conversion)
    ensures
        match params.first_name(is_mupen) {
            Some(name) => {
                &&& r.result@ == None::<Seq<char>>
                &&& download_views(r.downloads@) == seq![
                    (DownloadView {
                        file_name: with_extension_spec(name, ".srm"@),
                        data: params.container(is_mupen, swap_bytes),
                    }),
                ]
            },
            None => {
                &&& r.result@ == Some("No input file(s)"@)
                &&& r.downloads@.len() == 0
            },
        },
{
    let mut buf = SrmBuf::new();
    let ghost battery = params.battery_data();
    let ghost packs = params.pack_data();
    let ghost combined = params.combined_data(is_mupen);
    write_battery(&mut buf, &params.battery_file);
    proof {
        blank_container_segments();
        regions_of_assembled(
            battery_segment(battery, Segment::Eeprom),
            packs_of(blank_container()),
            battery_segment(battery, Segment::Sram),
            battery_segment(battery, Segment::FlashRam),
        );
    }
    write_packs(&mut buf, params, is_mupen);
    if swap_bytes {
        proof {
            regions_of_assembled(
                battery_segment(battery, Segment::Eeprom),
                packs_region(packs, combined),
                battery_segment(battery, Segment::Sram),
                battery_segment(battery, Segment::FlashRam),
            );
        }
        swap_battery_words(&mut buf);
    }
    match params.first_file_name(is_mupen) {
        Some(file_name) => {
            let mut downloads: Vec<Download> = Vec::new();
            downloads.push(download_file(buf.as_ref(), with_extension(file_name.as_str(), ".srm")));
            assert(download_views(downloads@) =~= seq![
                (DownloadView {
                    file_name: with_extension_spec(file_name@, ".srm"@),
                    data: params.container(is_mupen, swap_bytes),
                }),
            ]);
            Conversion { result: ConversionResult::success(), downloads }
        },
        None => Conversion {
            result: ConversionResult::failure("No input file(s)"),
            downloads: Vec::new(),
        },
    }
}

} // verus!
