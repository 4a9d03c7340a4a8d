use srm_convert::convert::InputFile;
use srm_convert::create::{do_create, CreateParams};
use srm_convert::srm_buf::SrmBuf;

fn file(name: &str, data: Vec<u8>) -> Option<InputFile> {
    Some(InputFile { name: String::from(name), data })
}

fn no_files() -> CreateParams {
    CreateParams { battery_file: None, controller_packs: [None, None, None, None], mupen_pack: None }
}

fn pattern(len: usize, seed: usize) -> Vec<u8> {
    (0..len).map(|i| ((i * 31 + seed * 17 + i / 256) % 255) as u8).collect()
}

fn blank() -> Vec<u8> {
    let buf = SrmBuf::new();
    let whole: &[u8] = buf.as_ref();
    whole.to_vec()
}

fn swapped(bytes: &[u8]) -> Vec<u8> {
    let mut out = bytes.to_vec();
    for word in out.chunks_mut(4) {
        word.reverse();
    }
    out
}

#[test]
fn merge_without_inputs_reports_it_and_emits_nothing() {
    for is_mupen in [false, true] {
        for swap in [false, true] {
            let r = do_create(&no_files(), is_mupen, swap);
            assert_eq!(r.result.error(), Some(String::from("No input file(s)")));
            assert!(r.downloads.is_empty());
        }
    }
}

#[test]
fn merge_of_a_512_byte_battery_file_fills_the_head_of_the_eeprom() {
    let data = pattern(512, 1);
    let mut params = no_files();
    params.battery_file = file("game.eep", data.clone());
    let r = do_create(&params, false, false);
    assert_eq!(r.result.error(), None);
    assert_eq!(r.downloads.len(), 1);
    assert_eq!(r.downloads[0].file_name, "game.srm");
    let out = &r.downloads[0].data;
    let blank = blank();
    assert_eq!(out.len(), 0x48800);
    assert_eq!(&out[..512], &data[..]);
    assert!(out[512..2048].iter().all(|b| *b == 0xff));
    assert_eq!(&out[2048..], &blank[2048..]);
}

#[test]
fn battery_file_goes_to_the_smallest_segment_that_holds_it() {
    let blank = blank();
    for (len, start, size) in [
        (1usize, 0usize, 0x800usize),
        (0x800, 0, 0x800),
        (0x801, 0x20800, 0x8000),
        (0x8000, 0x20800, 0x8000),
        (0x8001, 0x28800, 0x20000),
        (0x20000, 0x28800, 0x20000),
    ] {
        let data = pattern(len, len);
        let mut params = no_files();
        params.battery_file = file("b", data.clone());
        let r = do_create(&params, false, false);
        assert_eq!(r.result.error(), None);
        let out = &r.downloads[0].data;
        assert_eq!(&out[..start], &blank[..start]);
        assert_eq!(&out[start..start + len], &data[..]);
        assert!(out[start + len..start + size].iter().all(|b| *b == 0xff));
        assert_eq!(&out[start + size..], &blank[start + size..]);
    }
}

#[test]
fn battery_file_of_no_recognized_length_is_dropped() {
    let blank = blank();
    for len in [0usize, 0x20001, 0x48800] {
        let mut params = no_files();
        params.battery_file = file("odd.bin", vec![0x42; len]);
        let r = do_create(&params, false, true);
        assert_eq!(r.result.error(), None);
        assert_eq!(r.downloads.len(), 1);
        assert_eq!(r.downloads[0].file_name, "odd.srm");
        assert_eq!(r.downloads[0].data, blank);
    }
}

#[test]
fn each_controller_pack_file_goes_to_its_slot() {
    let blank = blank();
    for slot in 0..4usize {
        let data = pattern(0x8000, slot + 3);
        let mut params = no_files();
        params.controller_packs[slot] = file("pak.mpk", data.clone());
        let r = do_create(&params, false, true);
        assert_eq!(r.result.error(), None);
        assert_eq!(r.downloads[0].file_name, "pak.srm");
        let out = &r.downloads[0].data;
        let start = 0x800 + slot * 0x8000;
        assert_eq!(&out[..start], &blank[..start]);
        assert_eq!(&out[start..start + 0x8000], &data[..]);
        assert_eq!(&out[start + 0x8000..], &blank[start + 0x8000..]);
    }
}

#[test]
fn all_inputs_land_side_by_side() {
    let battery = pattern(0x8000, 9);
    let packs: Vec<Vec<u8>> = (0..4).map(|k| pattern(0x8000, 20 + k)).collect();
    let params = CreateParams {
        battery_file: file("s.sra", battery.clone()),
        controller_packs: [
            file("1.mpk", packs[0].clone()),
            file("2.mpk", packs[1].clone()),
            file("3.mpk", packs[2].clone()),
            file("4.mpk", packs[3].clone()),
        ],
        mupen_pack: None,
    };
    let r = do_create(&params, false, false);
    let out = &r.downloads[0].data;
    assert_eq!(r.downloads[0].file_name, "s.srm");
    assert!(out[..0x800].iter().all(|b| *b == 0xff));
    for k in 0..4 {
        assert_eq!(&out[0x800 + k * 0x8000..0x800 + (k + 1) * 0x8000], &packs[k][..]);
    }
    assert_eq!(&out[0x20800..0x28800], &battery[..]);
    assert!(out[0x28800..].iter().all(|b| *b == 0xff));
}

#[test]
fn combined_file_overrides_the_slot_files() {
    let combined = pattern(0x20000, 77);
    let params = CreateParams {
        battery_file: None,
        controller_packs: [
            file("1.mpk", vec![1; 0x8000]),
            None,
            file("3.mpk", vec![3; 0x8000]),
            None,
        ],
        mupen_pack: file("all.mpk", combined.clone()),
    };
    let r = do_create(&params, true, false);
    assert_eq!(r.downloads[0].file_name, "1.srm");
    assert_eq!(&r.downloads[0].data[0x800..0x20800], &combined[..]);
}

#[test]
fn combined_file_counts_only_in_combined_mode() {
    let blank = blank();
    let mut params = no_files();
    params.mupen_pack = file("all.mpk", vec![7; 0x20000]);
    let r = do_create(&params, false, false);
    assert_eq!(r.result.error(), Some(String::from("No input file(s)")));
    assert!(r.downloads.is_empty());

    params.controller_packs[1] = file("two.mpk", vec![2; 0x8000]);
    let r = do_create(&params, false, false);
    assert_eq!(r.downloads[0].file_name, "two.srm");
    let out = &r.downloads[0].data;
    assert_eq!(&out[0x800..0x8800], &blank[0x800..0x8800]);
    assert!(out[0x8800..0x10800].iter().all(|b| *b == 2));
    assert_eq!(&out[0x10800..], &blank[0x10800..]);

    let r = do_create(&params, true, false);
    assert!(r.downloads[0].data[0x800..0x20800].iter().all(|b| *b == 7));
}

#[test]
fn short_and_long_pack_files_are_cut_to_the_slot() {
    let blank = blank();
    let mut params = no_files();
    params.controller_packs[0] = file("short.mpk", vec![0xab; 100]);
    params.controller_packs[1] = file("long.mpk", vec![0xcd; 0x8000 + 50]);
    let r = do_create(&params, false, false);
    let out = &r.downloads[0].data;
    assert_eq!(out.len(), 0x48800);
    assert!(out[0x800..0x800 + 100].iter().all(|b| *b == 0xab));
    assert_eq!(&out[0x800 + 100..0x8800], &blank[0x800 + 100..0x8800]);
    assert!(out[0x8800..0x10800].iter().all(|b| *b == 0xcd));
    assert_eq!(&out[0x10800..], &blank[0x10800..]);

    let mut params = no_files();
    params.mupen_pack = file("huge.mpk", vec![0xee; 0x20000 + 9]);
    let r = do_create(&params, true, false);
    let out = &r.downloads[0].data;
    assert!(out[..0x800].iter().all(|b| *b == 0xff));
    assert!(out[0x800..0x20800].iter().all(|b| *b == 0xee));
    assert!(out[0x20800..].iter().all(|b| *b == 0xff));
}

#[test]
fn container_is_named_after_the_first_file() {
    let mut params = CreateParams {
        battery_file: file("battery.eep", vec![1; 512]),
        controller_packs: [
            file("one.mpk", vec![1; 0x8000]),
            file("two.mpk", vec![1; 0x8000]),
            file("three.mpk", vec![1; 0x8000]),
            file("four.mpk", vec![1; 0x8000]),
        ],
        mupen_pack: file("combined.mpk", vec![1; 0x20000]),
    };
    assert_eq!(do_create(&params, true, false).downloads[0].file_name, "battery.srm");
    assert_eq!(params.first_file_name(true), Some(&String::from("battery.eep")));
    params.battery_file = None;
    assert_eq!(do_create(&params, true, false).downloads[0].file_name, "one.srm");
    params.controller_packs[0] = None;
    assert_eq!(do_create(&params, true, false).downloads[0].file_name, "two.srm");
    params.controller_packs[1] = None;
    assert_eq!(do_create(&params, true, false).downloads[0].file_name, "three.srm");
    params.controller_packs[2] = None;
    assert_eq!(do_create(&params, true, false).downloads[0].file_name, "four.srm");
    params.controller_packs[3] = None;
    assert_eq!(do_create(&params, true, false).downloads[0].file_name, "combined.srm");
    assert_eq!(params.first_file_name(true), Some(&String::from("combined.mpk")));
    assert_eq!(params.first_file_name(false), None);
    params.mupen_pack = None;
    assert_eq!(params.first_file_name(true), None);
}

#[test]
fn name_without_extension_gets_one() {
    let mut params = no_files();
    params.battery_file = file("save", vec![0; 4]);
    assert_eq!(do_create(&params, false, false).downloads[0].file_name, "save.srm");
}

#[test]
fn swap_turns_eeprom_and_flashram_only() {
    let eeprom = pattern(0x800, 5);
    let packs = pattern(0x20000, 6);
    let mut params = no_files();
    params.battery_file = file("e.eep", eeprom.clone());
    params.mupen_pack = file("p.mpk", packs.clone());
    let r = do_create(&params, true, true);
    let out = &r.downloads[0].data;
    assert_eq!(&out[..0x800], &swapped(&eeprom)[..]);
    assert_ne!(&out[..0x800], &eeprom[..]);
    assert_eq!(&out[0x800..0x20800], &packs[..]);
    assert!(out[0x20800..].iter().all(|b| *b == 0xff));

    let flashram = pattern(0x20000, 8);
    let mut params = no_files();
    params.battery_file = file("f.fla", flashram.clone());
    let r = do_create(&params, false, true);
    let out = &r.downloads[0].data;
    assert_eq!(&out[0x28800..], &swapped(&flashram)[..]);
    assert!(out[..0x800].iter().all(|b| *b == 0xff));

    let sram = pattern(0x8000, 4);
    let mut params = no_files();
    params.battery_file = file("s.sra", sram.clone());
    let r = do_create(&params, false, true);
    let out = &r.downloads[0].data;
    assert_eq!(&out[0x20800..0x28800], &sram[..]);
}

#[test]
fn swap_of_a_short_eeprom_file_moves_bytes_inside_words() {
    let mut params = no_files();
    params.battery_file = file("e.eep", vec![1, 2, 3, 4, 5]);
    let r = do_create(&params, false, true);
    let out = &r.downloads[0].data;
    assert_eq!(&out[..8], &[4, 3, 2, 1, 0xff, 0xff, 0xff, 5]);
    assert!(out[8..0x800].iter().all(|b| *b == 0xff));
}

#[test]
fn default_parameters_hold_no_file() {
    let params = CreateParams::default();
    assert_eq!(params, no_files());
    assert_eq!(params.first_file_name(true), None);
    let r = do_create(&params, true, true);
    assert_eq!(r.result.error(), Some(String::from("No input file(s)")));
    assert!(r.downloads.is_empty());
}
