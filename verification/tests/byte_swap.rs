use srm_convert::byte_swap::word_swap;
use srm_convert::copy::copy_truncated;

#[test]
fn word_swap_reverses_each_word() {
    let mut buf = [1u8, 2, 3, 4, 5, 6, 7, 8];
    word_swap(&mut buf);
    assert_eq!(buf, [4, 3, 2, 1, 8, 7, 6, 5]);
}

#[test]
fn word_swap_of_nothing_is_nothing() {
    let mut buf: [u8; 0] = [];
    word_swap(&mut buf);
    assert_eq!(buf.len(), 0);
}

#[test]
fn word_swap_twice_is_identity() {
    for len in [0usize, 4, 8, 12, 512, 2048] {
        let before: Vec<u8> = (0..len).map(|i| (i * 7 % 256) as u8).collect();
        let mut buf = before.clone();
        word_swap(&mut buf);
        if len > 0 {
            assert_ne!(buf, before);
        }
        word_swap(&mut buf);
        assert_eq!(buf, before);
    }
}

#[test]
fn word_swap_keeps_an_erased_buffer_erased() {
    let mut buf = vec![0xffu8; 64];
    word_swap(&mut buf);
    assert!(buf.iter().all(|b| *b == 0xff));
}

#[test]
fn copy_of_a_shorter_source_leaves_the_tail() {
    let mut dst = [9u8; 6];
    copy_truncated(&mut dst, &[1, 2, 3]);
    assert_eq!(dst, [1, 2, 3, 9, 9, 9]);
}

#[test]
fn copy_of_a_source_of_the_same_length_replaces_all() {
    let mut dst = [9u8; 4];
    copy_truncated(&mut dst, &[1, 2, 3, 4]);
    assert_eq!(dst, [1, 2, 3, 4]);
}

#[test]
fn copy_of_a_longer_source_is_cut_off() {
    let mut dst = [9u8; 3];
    copy_truncated(&mut dst, &[1, 2, 3, 4, 5]);
    assert_eq!(dst, [1, 2, 3]);
}

#[test]
fn copy_of_an_empty_source_changes_nothing() {
    let mut dst = [9u8; 3];
    copy_truncated(&mut dst, &[]);
    assert_eq!(dst, [9, 9, 9]);
    let mut none: [u8; 0] = [];
    copy_truncated(&mut none, &[1, 2]);
    assert_eq!(none.len(), 0);
}
