use srm_convert::controller_pack;
use srm_convert::layout::{
    EEPROM_SIZE, FLASHRAM_SIZE, FLASHRAM_START, PACKS_SIZE, PACKS_START, PACK_COUNT, SRAM_SIZE,
    SRAM_START, SRM_SIZE,
};
use srm_convert::srm_buf::SrmBuf;

fn bytes_of(buf: &SrmBuf) -> Vec<u8> {
    let whole: &[u8] = buf.as_ref();
    whole.to_vec()
}

#[test]
fn segment_sizes_add_up_to_the_container() {
    assert_eq!(SRM_SIZE, 296960);
    assert_eq!(EEPROM_SIZE, 2048);
    assert_eq!(PACKS_START, EEPROM_SIZE);
    assert_eq!(PACKS_SIZE, PACK_COUNT * controller_pack::PACK_SIZE);
    assert_eq!(SRAM_START, PACKS_START + PACKS_SIZE);
    assert_eq!(FLASHRAM_START, SRAM_START + SRAM_SIZE);
    assert_eq!(FLASHRAM_START + FLASHRAM_SIZE, SRM_SIZE);
    assert_eq!(EEPROM_SIZE + PACKS_SIZE + SRAM_SIZE + FLASHRAM_SIZE, SRM_SIZE);
}

#[test]
fn views_cover_the_container_end_to_end() {
    let mut buf = SrmBuf::new();
    {
        let whole: &mut [u8] = buf.as_mut();
        for (i, b) in whole.iter_mut().enumerate() {
            *b = (i % 251) as u8;
        }
    }
    let whole = bytes_of(&buf);
    assert_eq!(whole.len(), 296960);
    assert_eq!(buf.eeprom().as_ref(), &whole[..0x800]);
    assert_eq!(buf.full_controller_pack().as_ref(), &whole[0x800..0x20800]);
    assert_eq!(buf.sram().as_ref(), &whole[0x20800..0x28800]);
    assert_eq!(buf.flashram().as_ref(), &whole[0x28800..0x48800]);
    let packs = buf.controller_pack_iter();
    assert_eq!(packs.len(), 4);
    for (slot, pack) in packs.iter().enumerate() {
        let start = 0x800 + slot * 0x8000;
        assert_eq!(pack.as_ref(), &whole[start..start + 0x8000]);
    }
}

#[test]
fn new_container_is_empty() {
    assert!(SrmBuf::new().is_empty());
}

#[test]
fn new_container_is_erased_around_the_packs() {
    let buf = SrmBuf::new();
    let whole = bytes_of(&buf);
    assert_eq!(whole.len(), 0x48800);
    assert!(whole[..0x800].iter().all(|b| *b == 0xff));
    assert!(whole[0x20800..].iter().all(|b| *b == 0xff));
    assert_eq!(whole[0x800], 0x81);
    assert_eq!(whole[0x8800], 0x81);
    assert_eq!(whole[0x10800], 0x81);
    assert_eq!(whole[0x18800], 0x81);
}

#[test]
fn fresh_slots_hold_the_blank_image() {
    let buf = SrmBuf::new();
    let mut blank = vec![0xaau8; 0x8000];
    controller_pack::init(&mut blank);
    let packs = buf.controller_pack_iter();
    assert_eq!(packs.len(), 4);
    for pack in packs.iter() {
        assert_eq!(pack.as_ref(), &blank[..]);
        assert!(pack.is_empty());
    }
    assert_eq!(packs[0].as_ref(), packs[1].as_ref());
    assert_eq!(packs[1].as_ref(), packs[2].as_ref());
    assert_eq!(packs[2].as_ref(), packs[3].as_ref());
}

#[test]
fn mutable_views_have_the_size_of_their_segment() {
    let mut buf = SrmBuf::new();
    assert_eq!(buf.eeprom_mut().len(), 0x800);
    assert_eq!(buf.sram_mut().len(), 0x8000);
    assert_eq!(buf.flashram_mut().len(), 0x20000);
    assert_eq!(buf.full_controller_pack_mut().len(), 0x20000);
    let (a, b, c, d) = buf.controller_pack_iter_mut();
    assert_eq!(a.len(), 0x8000);
    assert_eq!(b.len(), 0x8000);
    assert_eq!(c.len(), 0x8000);
    assert_eq!(d.len(), 0x8000);
}

#[test]
fn writing_a_segment_leaves_the_others() {
    let blank = bytes_of(&SrmBuf::new());

    let mut buf = SrmBuf::new();
    buf.eeprom_mut().fill(0x11);
    let whole = bytes_of(&buf);
    assert!(whole[..0x800].iter().all(|b| *b == 0x11));
    assert_eq!(&whole[0x800..], &blank[0x800..]);

    let mut buf = SrmBuf::new();
    buf.sram_mut().fill(0x22);
    let whole = bytes_of(&buf);
    assert_eq!(&whole[..0x20800], &blank[..0x20800]);
    assert!(whole[0x20800..0x28800].iter().all(|b| *b == 0x22));
    assert_eq!(&whole[0x28800..], &blank[0x28800..]);

    let mut buf = SrmBuf::new();
    buf.flashram_mut().fill(0x33);
    let whole = bytes_of(&buf);
    assert_eq!(&whole[..0x28800], &blank[..0x28800]);
    assert!(whole[0x28800..].iter().all(|b| *b == 0x33));

    let mut buf = SrmBuf::new();
    buf.full_controller_pack_mut().fill(0x44);
    let whole = bytes_of(&buf);
    assert_eq!(&whole[..0x800], &blank[..0x800]);
    assert!(whole[0x800..0x20800].iter().all(|b| *b == 0x44));
    assert_eq!(&whole[0x20800..], &blank[0x20800..]);
}

#[test]
fn each_slot_is_written_on_its_own() {
    let blank = bytes_of(&SrmBuf::new());
    let mut buf = SrmBuf::new();
    {
        let (a, b, c, d) = buf.controller_pack_iter_mut();
        a.fill(1);
        b.fill(2);
        c.fill(3);
        d.fill(4);
    }
    let whole = bytes_of(&buf);
    assert_eq!(&whole[..0x800], &blank[..0x800]);
    assert!(whole[0x800..0x8800].iter().all(|b| *b == 1));
    assert!(whole[0x8800..0x10800].iter().all(|b| *b == 2));
    assert!(whole[0x10800..0x18800].iter().all(|b| *b == 3));
    assert!(whole[0x18800..0x20800].iter().all(|b| *b == 4));
    assert_eq!(&whole[0x20800..], &blank[0x20800..]);
}

#[test]
fn one_byte_in_any_battery_segment_ends_emptiness() {
    let mut buf = SrmBuf::new();
    buf.eeprom_mut()[0x7ff] = 0;
    assert!(!buf.is_empty());
    assert!(!buf.eeprom().is_empty());
    assert!(buf.sram().is_empty());
    assert!(buf.flashram().is_empty());

    let mut buf = SrmBuf::new();
    buf.sram_mut()[0] = 0xfe;
    assert!(!buf.is_empty());
    assert!(buf.eeprom().is_empty());
    assert!(!buf.sram().is_empty());

    let mut buf = SrmBuf::new();
    buf.flashram_mut()[0x1ffff] = 0x7f;
    assert!(!buf.is_empty());
    assert!(!buf.flashram().is_empty());
}

#[test]
fn a_note_in_any_slot_ends_emptiness() {
    for slot in 0..4usize {
        let mut buf = SrmBuf::new();
        buf.full_controller_pack_mut()[slot * 0x8000 + 256 + 11] = 5;
        assert!(!buf.is_empty());
        let packs = buf.controller_pack_iter();
        for (k, pack) in packs.iter().enumerate() {
            assert_eq!(pack.is_empty(), k != slot);
        }
        assert_eq!(buf.full_controller_pack().is_empty(), slot != 0);
    }
}

#[test]
fn file_data_of_a_pack_does_not_count() {
    let mut buf = SrmBuf::new();
    {
        let packs = buf.full_controller_pack_mut();
        packs[0] = 0;
        packs[255] = 9;
        packs[256] = 9;
        packs[265] = 9;
        packs[512] = 9;
        packs[0x7fff] = 9;
    }
    assert!(buf.is_empty());
}

#[test]
fn eeprom_is_4k_iff_its_tail_is_erased() {
    let mut buf = SrmBuf::new();
    assert!(buf.eeprom().is_4k());
    buf.eeprom_mut()[0x1ff] = 0;
    assert!(buf.eeprom().is_4k());
    assert_eq!(buf.eeprom().as_4k().as_ref().len(), 512);
    buf.eeprom_mut()[0x200] = 0;
    assert!(!buf.eeprom().is_4k());
    buf.eeprom_mut()[0x200] = 0xff;
    buf.eeprom_mut()[0x7ff] = 1;
    assert!(!buf.eeprom().is_4k());
}

#[test]
fn as_4k_is_the_first_512_bytes() {
    let mut buf = SrmBuf::new();
    for (i, b) in buf.eeprom_mut().iter_mut().enumerate() {
        *b = (i % 200) as u8;
    }
    let whole = bytes_of(&buf);
    let eeprom = buf.eeprom();
    let short = eeprom.as_4k();
    assert_eq!(short.as_ref(), &whole[..0x200]);
    assert!(short.is_4k());
    assert_eq!(short.as_4k().as_ref(), &whole[..0x200]);
    assert!(!short.is_empty());
}
