//! Controller-pack images: the blank filesystem, its checksums and the
//! emptiness rule of the note table.

use vstd::prelude::*;

verus! {

/// Size in bytes of one controller-pack image.
pub const PACK_SIZE: usize = 0x8000;

/// Note-table value of a page that belongs to no note.
pub const FREE_SPACE: u16 = 0x0003;

/// Offset of the note table inside an image.
pub const NOTE_TABLE_START: usize = 256;

/// Length in bytes of the note table.
pub const NOTE_TABLE_LEN: usize = 256;

/// Offset, inside the note table, of its first page entry.
pub const FIRST_ENTRY: usize = 10;

/// Number of page entries in the note table.
pub const ENTRY_COUNT: usize = 123;

/// The value of the big-endian 16-bit word made of `hi` and `lo`.
pub open spec fn be16(hi: u8, lo: u8) -> int {
    hi as int * 256 + lo as int
}

/// The two big-endian bytes of `v`, for `0 <= v < 0x10000`.
pub open spec fn be_bytes(v: int) -> Seq<u8> {
    seq![(v / 256) as u8, (v % 256) as u8]
}

/// The `k`-th big-endian 16-bit word of `s`.
pub open spec fn word_at(s: Seq<u8>, k: int) -> int {
    be16(s[2 * k], s[2 * k + 1])
}

/// The sum of the first `n` big-endian 16-bit words of `s`.
pub open spec fn word_sum(s: Seq<u8>, n: nat) -> int
    decreases n,
{
    if n == 0 {
        0
    } else {
        word_sum(s, (n - 1) as nat) + word_at(s, n - 1)
    }
}

/// First checksum of a serial block: the sum of its first fourteen words,
/// reduced to 16 bits.
pub open spec fn checksum1_value(block: Seq<u8>) -> int {
    word_sum(block, 14) % 0x10000
}

/// Second checksum of a serial block, derived from the first one alone.
pub open spec fn checksum2_value(c1: int) -> int {
    (0xFFF2 - c1) % 0x10000
}

/// The `k`-th page entry of the note table of `image`.
pub open spec fn page_entry(image: Seq<u8>, k: int) -> int {
    be16(image[266 + 2 * k], image[267 + 2 * k])
}

/// Every page entry of the note table of `image` is marked free.
pub open spec fn note_table_free(image: Seq<u8>) -> bool {
    forall|k: int| 0 <= k < 123 ==> #[trigger] page_entry(image, k) == 3
}

/// Two sequences that agree on their first `2 * n` bytes have the same sum
/// over their first `n` words.
pub proof fn word_sum_of_equal_prefix(a: Seq<u8>, b: Seq<u8>, n: nat)
    requires
        forall|i: int| 0 <= i < 2 * n ==> a[i] == b[i],
    ensures
        word_sum(a, n) == word_sum(b, n),
    decreases n,
{
    if n > 0 {
        word_sum_of_equal_prefix(a, b, (n - 1) as nat);
    }
}

/// Computes the first checksum of the serial block `buf`.
pub fn checksum1(buf: &[u8]) -> (r: [u8; 2])
    requires
        buf@.len() >= 28,
    ensures
        r@ == be_bytes(checksum1_value(buf@)),
{
    let mut sum: u16 = 0;
    let mut k: usize = 0;
    while k < 14
        invariant
            k <= 14,
            buf@.len() >= 28,
            sum as int == word_sum(buf@, k as nat) % 0x10000,
        decreases 14 - k,
    {
        let word: u16 = (buf[2 * k] as u16) * 256 + (buf[2 * k + 1] as u16);
        assert(word as int == word_at(buf@, k as int));
        assert(word_sum(buf@, (k + 1) as nat) == word_sum(buf@, k as nat) + word_at(buf@, k as int));
        sum = sum.wrapping_add(word);
        k = k + 1;
    }
    let r: [u8; 2] = [(sum / 256) as u8, (sum % 256) as u8];
    assert(r@ =~= be_bytes(checksum1_value(buf@)));
    r
}

/// Computes the second checksum from the two bytes of the first.
pub fn checksum2(buf: &[u8]) -> (r: [u8; 2])
    requires
        buf@.len() == 2,
    ensures
        r@ == be_bytes(checksum2_value(be16(buf@[0], buf@[1]))),
{
    let c1: u16 = (buf[0] as u16) * 256 + (buf[1] as u16);
    let c2: u16 = 0xFFF2u16.wrapping_sub(c1);
    let r: [u8; 2] = [(c2 / 256) as u8, (c2 % 256) as u8];
    assert(r@ =~= be_bytes(checksum2_value(be16(buf@[0], buf@[1]))));
    r
}

/// Tells whether the note table of the image `buf` marks every page free.
/// Only the table at bytes 256 to 512 is read.
pub fn is_empty(buf: &[u8]) -> (r: bool)
    requires
        buf@.len() >= 512,
    ensures
        r == note_table_free(buf@),
{
    let mut k: usize = 0;
    while k < ENTRY_COUNT
        invariant
            k <= 123,
            buf@.len() >= 512,
            forall|j: int| 0 <= j < k ==> #[trigger] page_entry(buf@, j) == 3,
        decreases 123 - k,
    {
        let at: usize = NOTE_TABLE_START + FIRST_ENTRY + 2 * k;
        let val: u16 = (buf[at] as u16) * 256 + (buf[at + 1] as u16);
        if val != FREE_SPACE {
            assert(page_entry(buf@, k as int) != 3);
            return false;
        }
        k = k + 1;
    }
    true
}

/// The fixed 24-byte signature at the head of the serial block.
pub open spec fn serial_signature() -> Seq<u8> {
    seq![
        0xff, 0xff, 0xff, 0xff, 0x05, 0x1a, 0x5f, 0x13,
        0x00, 0x00, 0x00, 0x00, 0x00, 0x00, 0x00, 0x00,
        0xff, 0xff, 0xff, 0xff, 0xff, 0xff, 0xff, 0xff,
    ]
}

/// The checksummed part of the serial block: the signature and the four
/// status bytes that follow it.
pub open spec fn serial_stem() -> Seq<u8> {
    serial_signature() + seq![0xffu8, 0xff, 0x01, 0xff]
}

/// The canonical 32-byte serial block: the stem and its two checksums.
pub open spec fn serial_block() -> Seq<u8> {
    serial_stem() + be_bytes(checksum1_value(serial_stem())) + be_bytes(
        checksum2_value(checksum1_value(serial_stem())),
    )
}

/// Whether offset `i` of an image lies in one of the four copies of the
/// serial block.
pub open spec fn in_serial_copy(i: int) -> bool {
    32 <= i < 64 || 96 <= i < 160 || 192 <= i < 224
}

/// Byte `j` of the blank note table: two fixed markers, then page entries
/// whose bytes alternate between 0 and 3, so that each entry is free.
pub open spec fn blank_table_byte(j: int) -> u8 {
    if j == 1 {
        113
    } else if j >= 10 && j % 2 == 1 {
        3
    } else {
        0
    }
}

/// Byte `i` of the blank controller-pack image.
pub open spec fn blank_byte(i: int) -> u8 {
    if i == 0 {
        0x81
    } else if i < 32 {
        i as u8
    } else if in_serial_copy(i) {
        serial_block()[i % 32]
    } else if 256 <= i < 768 {
        blank_table_byte(i % 256)
    } else {
        0
    }
}

/// The blank controller-pack image.
pub open spec fn blank_image() -> Seq<u8> {
    Seq::new(PACK_SIZE as nat, |i: int| blank_byte(i))
}

/// `s` holds the blank image below offset `n` and zeros from there on.
pub open spec fn blank_up_to(s: Seq<u8>, n: int) -> bool {
    &&& s.len() == PACK_SIZE
    &&& forall|i: int| 0 <= i < n && i < s.len() ==> s[i] == blank_byte(i)
    &&& forall|i: int| n <= i < s.len() ==> s[i] == 0
}

/// Copies the `len` bytes at `src` over those at `dst`, which lie behind them.
fn replicate(buf: &mut [u8], src: usize, len: usize, dst: usize)
    requires
        src + len <= dst,
        dst + len <= old(buf)@.len(),
    ensures
        final(buf)@.len() == old(buf)@.len(),
        forall|i: int|
            0 <= i < old(buf)@.len() ==> final(buf)@[i] == if dst <= i < dst + len {
                old(buf)@[i - dst + src]
            } else {
                old(buf)@[i]
            },
{
    let mut j: usize = 0;
    while j < len
        invariant
            j <= len,
            src + len <= dst,
            dst + len <= buf@.len(),
            buf@.len() == old(buf)@.len(),
            forall|i: int|
                0 <= i < buf@.len() ==> buf@[i] == if dst <= i < dst + j {
                    old(buf)@[i - dst + src]
                } else {
                    old(buf)@[i]
                },
        decreases len - j,
    {
        let b: u8 = buf[src + j];
        buf[dst + j] = b;
        j = j + 1;
    }
}

/// Formats `buf` as a blank controller-pack image.
pub fn init(buf: &mut [u8])
    requires
        old(buf)@.len() == PACK_SIZE,
    ensures
        final(buf)@ == blank_image(),
{
    let signature: [u8; 24] = [
        0xff, 0xff, 0xff, 0xff, 0x05, 0x1a, 0x5f, 0x13,
        0x00, 0x00, 0x00, 0x00, 0x00, 0x00, 0x00, 0x00,
        0xff, 0xff, 0xff, 0xff, 0xff, 0xff, 0xff, 0xff,
    ];
    assert(signature@ =~= serial_signature());
    let mut i: usize = 0;
    while i < PACK_SIZE
        invariant
            i <= PACK_SIZE,
            buf@.len() == PACK_SIZE,
            forall|k: int| 0 <= k < i ==> buf@[k] == 0,
        decreases PACK_SIZE - i,
    {
        buf[i] = 0;
        i = i + 1;
    }
    assert(blank_up_to(buf@, 0));
    buf[0] = 0x81;
    i = 1;
    while i < 32
        invariant
            1 <= i <= 32,
            blank_up_to(buf@, i as int),
        decreases 32 - i,
    {
        buf[i] = i as u8;
        i = i + 1;
    }
    i = 0;
    while i < 24
        invariant
            i <= 24,
            signature@ == serial_signature(),
            blank_up_to(buf@, 32 + i),
        decreases 24 - i,
    {
        buf[32 + i] = signature[i];
        i = i + 1;
    }
    buf[56] = 0xff;
    buf[57] = 0xff;
    buf[58] = 0x01;
    buf[59] = 0xff;
    assert(blank_up_to(buf@, 60));
    let s1: [u8; 2] = checksum1(vstd::slice::slice_subrange(buf, 32, 64));
    proof {
        assert forall|k: int| 0 <= k < 28 implies buf@.subrange(32, 64)[k] == serial_stem()[k] by {
            assert(buf@[32 + k] == blank_byte(32 + k));
            assert((32 + k) % 32 == k);
        }
        word_sum_of_equal_prefix(buf@.subrange(32, 64), serial_stem(), 14);
    }
    buf[60] = s1[0];
    buf[61] = s1[1];
    let s2: [u8; 2] = checksum2(vstd::slice::slice_subrange(buf, 60, 62));
    buf[62] = s2[0];
    buf[63] = s2[1];
    assert(blank_up_to(buf@, 96));
    replicate(buf, 32, 32, 96);
    assert forall|k: int| 96 <= k < 128 implies buf@[k] == blank_byte(k) by {
        assert(k % 32 == (k - 96 + 32) % 32);
    }
    assert(blank_up_to(buf@, 128));
    replicate(buf, 32, 32, 128);
    assert forall|k: int| 128 <= k < 160 implies buf@[k] == blank_byte(k) by {
        assert(k % 32 == (k - 128 + 32) % 32);
    }
    assert(blank_up_to(buf@, 192));
    replicate(buf, 32, 32, 192);
    assert forall|k: int| 192 <= k < 224 implies buf@[k] == blank_byte(k) by {
        assert(k % 32 == (k - 192 + 32) % 32);
    }
    assert(blank_up_to(buf@, 256));
    buf[256] = 0;
    buf[257] = 113;
    assert(blank_up_to(buf@, 266));
    i = 0;
    while i < 246
        invariant
            i <= 246,
            blank_up_to(buf@, 266 + i),
        decreases 246 - i,
    {
        buf[266 + i] = ((i % 2) * 3) as u8;
        i = i + 1;
    }
    let ghost table = buf@;
    assert(blank_up_to(table, 512));
    replicate(buf, 256, 256, 512);
    assert forall|k: int| 512 <= k < 768 implies buf@[k] == blank_byte(k) by {
        assert(buf@[k] == table[k - 256]);
        assert(table[k - 256] == blank_byte(k - 256));
        assert(k % 256 == (k - 256) % 256);
    }
    assert(blank_up_to(buf@, PACK_SIZE as int));
    assert(buf@ =~= blank_image());
}

/// Decoding the big-endian bytes of a 16-bit value gives the value back.
pub proof fn be16_of_be_bytes(v: int)
    requires
        0 <= v < 0x10000,
    ensures
        be_bytes(v).len() == 2,
        be16(be_bytes(v)[0], be_bytes(v)[1]) == v,
{
}

/// The second checksum of a block is determined by its first: feeding the
/// bytes of the first checksum of any 32-byte block `x` to the second gives
/// `0xFFF2` minus the first checksum, wrapped to 16 bits.
pub proof fn checksum2_of_checksum1(x: Seq<u8>)
    requires
        x.len() == 32,
    ensures
        ({
            let c1 = be_bytes(checksum1_value(x));
            let c2 = checksum2_value(be16(c1[0], c1[1]));
            &&& 0 <= checksum1_value(x) < 0x10000
            &&& c2 == (0xFFF2 - checksum1_value(x)) % 0x10000
            &&& c2 == if checksum1_value(x) <= 0xFFF2 {
                0xFFF2 - checksum1_value(x)
            } else {
                0x1FFF2 - checksum1_value(x)
            }
        }),
{
    be16_of_be_bytes(checksum1_value(x));
}

/// The blank image counts as empty: its note table marks every page free.
pub proof fn blank_image_is_empty()
    ensures
        blank_image().len() == PACK_SIZE,
        note_table_free(blank_image()),
{
    assert forall|k: int| 0 <= k < 123 implies #[trigger] page_entry(blank_image(), k) == 3 by {
        assert(blank_image()[266 + 2 * k] == blank_byte(266 + 2 * k));
        assert(blank_image()[267 + 2 * k] == blank_byte(267 + 2 * k));
        assert((266 + 2 * k) % 256 == 10 + 2 * k);
        assert((267 + 2 * k) % 256 == 11 + 2 * k);
        assert((10 + 2 * k) % 2 == 0);
        assert((11 + 2 * k) % 2 == 1);
    }
}

/// The checksum bytes of the canonical serial block.
pub proof fn serial_block_checksums()
    ensures
        serial_block().len() == 32,
        checksum1_value(serial_stem()) == 0x6625,
        serial_block().subrange(28, 32) == seq![0x66u8, 0x25, 0x99, 0xcd],
{
    reveal_with_fuel(word_sum, 15);
    assert(word_sum(serial_stem(), 14) == 7 * 0xffff + 0x051a + 0x5f13 + 0x01ff);
    assert(serial_block().subrange(28, 32) =~= seq![0x66u8, 0x25, 0x99, 0xcd]);
}

} // verus!
