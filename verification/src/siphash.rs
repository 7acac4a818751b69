//! SipHash-2-4 (Aumasson & Bernstein) over bytes, and the decimal and
//! hexadecimal spellings that the scoreboard's tags are built from.

use vstd::prelude::*;

verus! {

/// The four words of SipHash state.
pub struct Sip {
    pub v0: u64,
    pub v1: u64,
    pub v2: u64,
    pub v3: u64,
}

/// Rotates left by `n` (0 < n < 64).
pub open spec fn rotl(x: u64, n: u64) -> u64
    recommends
        0 < n < 64,
{
    (x << n) | (x >> (64 - n) as u64)
}

/// One SipRound.
pub open spec fn sip_round(s: Sip) -> Sip {
    let v0 = s.v0.wrapping_add(s.v1);
    let v1 = rotl(s.v1, 13) ^ v0;
    let v0 = rotl(v0, 32);
    let v2 = s.v2.wrapping_add(s.v3);
    let v3 = rotl(s.v3, 16) ^ v2;
    let v0 = v0.wrapping_add(v3);
    let v3 = rotl(v3, 21) ^ v0;
    let v2 = v2.wrapping_add(v1);
    let v1 = rotl(v1, 17) ^ v2;
    let v2 = rotl(v2, 32);
    Sip { v0, v1, v2, v3 }
}

/// Absorbs one message word with two SipRounds.
pub open spec fn sip_compress(s: Sip, m: u64) -> Sip {
    let t = sip_round(sip_round(Sip { v3: s.v3 ^ m, ..s }));
    Sip { v0: t.v0 ^ m, ..t }
}

/// The little-endian word made of the bytes `msg[off..off + n]` (n <= 8).
pub open spec fn le_word(msg: Seq<u8>, off: int, n: nat) -> u64
    decreases n,
{
    if n == 0 {
        0
    } else {
        le_word(msg, off, (n - 1) as nat) | ((msg[off + n - 1] as u64) << (8 * (n - 1)) as u64)
    }
}

/// The key halves.
pub open spec fn key_word(key: Seq<u8>, half: int) -> u64 {
    le_word(key, 8 * half, 8)
}

/// The state after the key setup and the first `k` full blocks.
pub open spec fn sip_blocks(key: Seq<u8>, msg: Seq<u8>, k: nat) -> Sip
    decreases k,
{
    if k == 0 {
        let k0 = key_word(key, 0);
        let k1 = key_word(key, 1);
        Sip {
            v0: k0 ^ 0x736f_6d65_7073_6575u64,
            v1: k1 ^ 0x646f_7261_6e64_6f6du64,
            v2: k0 ^ 0x6c79_6765_6e65_7261u64,
            v3: k1 ^ 0x7465_6462_7974_6573u64,
        }
    } else {
        sip_compress(sip_blocks(key, msg, (k - 1) as nat), le_word(msg, 8 * (k - 1), 8))
    }
}

/// The final word: the message length's low byte on top, the tail bytes below.
pub open spec fn sip_last(msg: Seq<u8>) -> u64 {
    let full = msg.len() / 8;
    (((msg.len() as u64) & 0xff) << 56u64) | le_word(msg, (8 * full) as int, (msg.len() - 8 * full) as nat)
}

/// SipHash-2-4 of `msg` under the 16-byte `key`.
pub open spec fn spec_siphash24(key: Seq<u8>, msg: Seq<u8>) -> u64 {
    let s = sip_blocks(key, msg, msg.len() / 8);
    let b = sip_last(msg);
    let s = sip_compress(s, b);
    let s = Sip { v2: s.v2 ^ 0xff, ..s };
    let s = sip_round(sip_round(sip_round(sip_round(s))));
    s.v0 ^ s.v1 ^ s.v2 ^ s.v3
}

/// The reference key of SipHash's published test vectors: bytes 0..15.
pub open spec fn reference_key() -> Seq<u8> {
    Seq::new(16, |i: int| i as u8)
}

/// The reference messages: bytes 0, 1, .., n - 1.
pub open spec fn reference_message(n: nat) -> Seq<u8> {
    Seq::new(n, |i: int| i as u8)
}

pub open spec fn le0() -> u64 {
    0u64
}

pub open spec fn le1(b0: u64) -> u64 {
    (0u64 | (b0 << 0u64))
}

pub open spec fn le2(b0: u64, b1: u64) -> u64 {
    ((0u64 | (b0 << 0u64)) | (b1 << 8u64))
}

pub open spec fn le3(b0: u64, b1: u64, b2: u64) -> u64 {
    (((0u64 | (b0 << 0u64)) | (b1 << 8u64)) | (b2 << 16u64))
}

pub open spec fn le4(b0: u64, b1: u64, b2: u64, b3: u64) -> u64 {
    ((((0u64 | (b0 << 0u64)) | (b1 << 8u64)) | (b2 << 16u64)) | (b3 << 24u64))
}

pub open spec fn le5(b0: u64, b1: u64, b2: u64, b3: u64, b4: u64) -> u64 {
    (((((0u64 | (b0 << 0u64)) | (b1 << 8u64)) | (b2 << 16u64)) | (b3 << 24u64)) | (b4 << 32u64))
}

pub open spec fn le6(b0: u64, b1: u64, b2: u64, b3: u64, b4: u64, b5: u64) -> u64 {
    ((((((0u64 | (b0 << 0u64)) | (b1 << 8u64)) | (b2 << 16u64)) | (b3 << 24u64)) | (b4 << 32u64)) | (b5 << 40u64))
}

pub open spec fn le7(b0: u64, b1: u64, b2: u64, b3: u64, b4: u64, b5: u64, b6: u64) -> u64 {
    (((((((0u64 | (b0 << 0u64)) | (b1 << 8u64)) | (b2 << 16u64)) | (b3 << 24u64)) | (b4 << 32u64)) | (b5 << 40u64)) | (b6 << 48u64))
}

pub open spec fn le8(b0: u64, b1: u64, b2: u64, b3: u64, b4: u64, b5: u64, b6: u64, b7: u64) -> u64 {
    ((((((((0u64 | (b0 << 0u64)) | (b1 << 8u64)) | (b2 << 16u64)) | (b3 << 24u64)) | (b4 << 32u64)) | (b5 << 40u64)) | (b6 << 48u64)) | (b7 << 56u64))
}

/// The key setup.
pub open spec fn sip_init(k0: u64, k1: u64) -> Sip {
    Sip {
        v0: k0 ^ 0x736f_6d65_7073_6575u64,
        v1: k1 ^ 0x646f_7261_6e64_6f6du64,
        v2: k0 ^ 0x6c79_6765_6e65_7261u64,
        v3: k1 ^ 0x7465_6462_7974_6573u64,
    }
}

/// The last word absorbed, then the finalisation.
pub open spec fn sip_finish(s: Sip, b: u64) -> u64 {
    let s = sip_compress(s, b);
    let s = Sip { v2: s.v2 ^ 0xff, ..s };
    let s = sip_round(sip_round(sip_round(sip_round(s))));
    s.v0 ^ s.v1 ^ s.v2 ^ s.v3
}

proof fn lemma_le0(msg: Seq<u8>, off: int)
    ensures
        le_word(msg, off, 0) == le0(),
{
    reveal_with_fuel(le_word, 1);
}

proof fn lemma_le1(msg: Seq<u8>, off: int)
    ensures
        le_word(msg, off, 1) == le1(msg[off + 0] as u64),
{
    reveal_with_fuel(le_word, 2);
}

proof fn lemma_le2(msg: Seq<u8>, off: int)
    ensures
        le_word(msg, off, 2) == le2(msg[off + 0] as u64, msg[off + 1] as u64),
{
    reveal_with_fuel(le_word, 3);
}

proof fn lemma_le3(msg: Seq<u8>, off: int)
    ensures
        le_word(msg, off, 3) == le3(msg[off + 0] as u64, msg[off + 1] as u64, msg[off + 2] as u64),
{
    reveal_with_fuel(le_word, 4);
}

proof fn lemma_le4(msg: Seq<u8>, off: int)
    ensures
        le_word(msg, off, 4) == le4(msg[off + 0] as u64, msg[off + 1] as u64, msg[off + 2] as u64, msg[off + 3] as u64),
{
    reveal_with_fuel(le_word, 5);
}

proof fn lemma_le5(msg: Seq<u8>, off: int)
    ensures
        le_word(msg, off, 5) == le5(msg[off + 0] as u64, msg[off + 1] as u64, msg[off + 2] as u64, msg[off + 3] as u64, msg[off + 4] as u64),
{
    reveal_with_fuel(le_word, 6);
}

proof fn lemma_le6(msg: Seq<u8>, off: int)
    ensures
        le_word(msg, off, 6) == le6(msg[off + 0] as u64, msg[off + 1] as u64, msg[off + 2] as u64, msg[off + 3] as u64, msg[off + 4] as u64, msg[off + 5] as u64),
{
    reveal_with_fuel(le_word, 7);
}

proof fn lemma_le7(msg: Seq<u8>, off: int)
    ensures
        le_word(msg, off, 7) == le7(msg[off + 0] as u64, msg[off + 1] as u64, msg[off + 2] as u64, msg[off + 3] as u64, msg[off + 4] as u64, msg[off + 5] as u64, msg[off + 6] as u64),
{
    reveal_with_fuel(le_word, 8);
}

proof fn lemma_le8(msg: Seq<u8>, off: int)
    ensures
        le_word(msg, off, 8) == le8(msg[off + 0] as u64, msg[off + 1] as u64, msg[off + 2] as u64, msg[off + 3] as u64, msg[off + 4] as u64, msg[off + 5] as u64, msg[off + 6] as u64, msg[off + 7] as u64),
{
    reveal_with_fuel(le_word, 9);
}

/// SipHash-2-4's published test vectors: the hash under the reference key
/// of the reference message of each length from 0 to 63.
pub const SIPHASH_VECTORS: [u64; 64] = [
    0x726fdb47dd0e0e31, 0x74f839c593dc67fd, 0x0d6c8009d9a94f5a, 0x85676696d7fb7e2d,
    0xcf2794e0277187b7, 0x18765564cd99a68d, 0xcbc9466e58fee3ce, 0xab0200f58b01d137,
    0x93f5f5799a932462, 0x9e0082df0ba9e4b0, 0x7a5dbbc594ddb9f3, 0xf4b32f46226bada7,
    0x751e8fbc860ee5fb, 0x14ea5627c0843d90, 0xf723ca908e7af2ee, 0xa129ca6149be45e5,
    0x3f2acc7f57c29bdb, 0x699ae9f52cbe4794, 0x4bc1b3f0968dd39c, 0xbb6dc91da77961bd,
    0xbed65cf21aa2ee98, 0xd0f2cbb02e3b67c7, 0x93536795e3a33e88, 0xa80c038ccd5ccec8,
    0xb8ad50c6f649af94, 0xbce192de8a85b8ea, 0x17d835b85bbb15f3, 0x2f2e6163076bcfad,
    0xde4daaaca71dc9a5, 0xa6a2506687956571, 0xad87a3535c49ef28, 0x32d892fad841c342,
    0x7127512f72f27cce, 0xa7f32346f95978e3, 0x12e0b01abb051238, 0x15e034d40fa197ae,
    0x314dffbe0815a3b4, 0x027990f029623981, 0xcadcd4e59ef40c4d, 0x9abfd8766a33735c,
    0x0e3ea96b5304a7d0, 0xad0c42d6fc585992, 0x187306c89bc215a9, 0xd4a60abcf3792b95,
    0xf935451de4f21df2, 0xa9538f0419755787, 0xdb9acddff56ca510, 0xd06c98cd5c0975eb,
    0xe612a3cb9ecba951, 0xc766e62cfcadaf96, 0xee64435a9752fe72, 0xa192d576b245165a,
    0x0a8787bf8ecb74b2, 0x81b3e73d20b49b6f, 0x7fa8220ba3b2ecea, 0x245731c13ca42499,
    0xb78dbfaf3a8d83bd, 0xea1ad565322a1a0b, 0x60e61c23a3795013, 0x6606d7e446282b93,
    0x6ca4ecb15c5f91e1, 0x9f626da15c9625f3, 0xe51b38608ef25f57, 0x958a324ceb064572,
];

proof fn lemma_vector_words_0() by (bit_vector)
    ensures
        sip_finish(sip_init(le8(0u64, 1u64, 2u64, 3u64, 4u64, 5u64, 6u64, 7u64), le8(8u64, 9u64, 10u64, 11u64, 12u64, 13u64, 14u64, 15u64)), (((0u64 & 0xff) << 56u64) | le0())) == 0x726fdb47dd0e0e31u64,
        sip_finish(sip_init(le8(0u64, 1u64, 2u64, 3u64, 4u64, 5u64, 6u64, 7u64), le8(8u64, 9u64, 10u64, 11u64, 12u64, 13u64, 14u64, 15u64)), (((1u64 & 0xff) << 56u64) | le1(0u64))) == 0x74f839c593dc67fdu64,
        sip_finish(sip_init(le8(0u64, 1u64, 2u64, 3u64, 4u64, 5u64, 6u64, 7u64), le8(8u64, 9u64, 10u64, 11u64, 12u64, 13u64, 14u64, 15u64)), (((2u64 & 0xff) << 56u64) | le2(0u64, 1u64))) == 0x0d6c8009d9a94f5au64,
        sip_finish(sip_init(le8(0u64, 1u64, 2u64, 3u64, 4u64, 5u64, 6u64, 7u64), le8(8u64, 9u64, 10u64, 11u64, 12u64, 13u64, 14u64, 15u64)), (((3u64 & 0xff) << 56u64) | le3(0u64, 1u64, 2u64))) == 0x85676696d7fb7e2du64,
        sip_finish(sip_init(le8(0u64, 1u64, 2u64, 3u64, 4u64, 5u64, 6u64, 7u64), le8(8u64, 9u64, 10u64, 11u64, 12u64, 13u64, 14u64, 15u64)), (((4u64 & 0xff) << 56u64) | le4(0u64, 1u64, 2u64, 3u64))) == 0xcf2794e0277187b7u64,
        sip_finish(sip_init(le8(0u64, 1u64, 2u64, 3u64, 4u64, 5u64, 6u64, 7u64), le8(8u64, 9u64, 10u64, 11u64, 12u64, 13u64, 14u64, 15u64)), (((5u64 & 0xff) << 56u64) | le5(0u64, 1u64, 2u64, 3u64, 4u64))) == 0x18765564cd99a68du64,
        sip_finish(sip_init(le8(0u64, 1u64, 2u64, 3u64, 4u64, 5u64, 6u64, 7u64), le8(8u64, 9u64, 10u64, 11u64, 12u64, 13u64, 14u64, 15u64)), (((6u64 & 0xff) << 56u64) | le6(0u64, 1u64, 2u64, 3u64, 4u64, 5u64))) == 0xcbc9466e58fee3ceu64,
        sip_finish(sip_init(le8(0u64, 1u64, 2u64, 3u64, 4u64, 5u64, 6u64, 7u64), le8(8u64, 9u64, 10u64, 11u64, 12u64, 13u64, 14u64, 15u64)), (((7u64 & 0xff) << 56u64) | le7(0u64, 1u64, 2u64, 3u64, 4u64, 5u64, 6u64))) == 0xab0200f58b01d137u64,
{
}

proof fn lemma_vector_words_1() by (bit_vector)
    ensures
        sip_finish(sip_compress(sip_init(le8(0u64, 1u64, 2u64, 3u64, 4u64, 5u64, 6u64, 7u64), le8(8u64, 9u64, 10u64, 11u64, 12u64, 13u64, 14u64, 15u64)), le8(0u64, 1u64, 2u64, 3u64, 4u64, 5u64, 6u64, 7u64)), (((8u64 & 0xff) << 56u64) | le0())) == 0x93f5f5799a932462u64,
        sip_finish(sip_compress(sip_init(le8(0u64, 1u64, 2u64, 3u64, 4u64, 5u64, 6u64, 7u64), le8(8u64, 9u64, 10u64, 11u64, 12u64, 13u64, 14u64, 15u64)), le8(0u64, 1u64, 2u64, 3u64, 4u64, 5u64, 6u64, 7u64)), (((9u64 & 0xff) << 56u64) | le1(8u64))) == 0x9e0082df0ba9e4b0u64,
        sip_finish(sip_compress(sip_init(le8(0u64, 1u64, 2u64, 3u64, 4u64, 5u64, 6u64, 7u64), le8(8u64, 9u64, 10u64, 11u64, 12u64, 13u64, 14u64, 15u64)), le8(0u64, 1u64, 2u64, 3u64, 4u64, 5u64, 6u64, 7u64)), (((10u64 & 0xff) << 56u64) | le2(8u64, 9u64))) == 0x7a5dbbc594ddb9f3u64,
        sip_finish(sip_compress(sip_init(le8(0u64, 1u64, 2u64, 3u64, 4u64, 5u64, 6u64, 7u64), le8(8u64, 9u64, 10u64, 11u64, 12u64, 13u64, 14u64, 15u64)), le8(0u64, 1u64, 2u64, 3u64, 4u64, 5u64, 6u64, 7u64)), (((11u64 & 0xff) << 56u64) | le3(8u64, 9u64, 10u64))) == 0xf4b32f46226bada7u64,
        sip_finish(sip_compress(sip_init(le8(0u64, 1u64, 2u64, 3u64, 4u64, 5u64, 6u64, 7u64), le8(8u64, 9u64, 10u64, 11u64, 12u64, 13u64, 14u64, 15u64)), le8(0u64, 1u64, 2u64, 3u64, 4u64, 5u64, 6u64, 7u64)), (((12u64 & 0xff) << 56u64) | le4(8u64, 9u64, 10u64, 11u64))) == 0x751e8fbc860ee5fbu64,
        sip_finish(sip_compress(sip_init(le8(0u64, 1u64, 2u64, 3u64, 4u64, 5u64, 6u64, 7u64), le8(8u64, 9u64, 10u64, 11u64, 12u64, 13u64, 14u64, 15u64)), le8(0u64, 1u64, 2u64, 3u64, 4u64, 5u64, 6u64, 7u64)), (((13u64 & 0xff) << 56u64) | le5(8u64, 9u64, 10u64, 11u64, 12u64))) == 0x14ea5627c0843d90u64,
        sip_finish(sip_compress(sip_init(le8(0u64, 1u64, 2u64, 3u64, 4u64, 5u64, 6u64, 7u64), le8(8u64, 9u64, 10u64, 11u64, 12u64, 13u64, 14u64, 15u64)), le8(0u64, 1u64, 2u64, 3u64, 4u64, 5u64, 6u64, 7u64)), (((14u64 & 0xff) << 56u64) | le6(8u64, 9u64, 10u64, 11u64, 12u64, 13u64))) == 0xf723ca908e7af2eeu64,
        sip_finish(sip_compress(sip_init(le8(0u64, 1u64, 2u64, 3u64, 4u64, 5u64, 6u64, 7u64), le8(8u64, 9u64, 10u64, 11u64, 12u64, 13u64, 14u64, 15u64)), le8(0u64, 1u64, 2u64, 3u64, 4u64, 5u64, 6u64, 7u64)), (((15u64 & 0xff) << 56u64) | le7(8u64, 9u64, 10u64, 11u64, 12u64, 13u64, 14u64))) == 0xa129ca6149be45e5u64,
{
}

proof fn lemma_vector_words_2() by (bit_vector)
    ensures
        sip_finish(sip_compress(sip_compress(sip_init(le8(0u64, 1u64, 2u64, 3u64, 4u64, 5u64, 6u64, 7u64), le8(8u64, 9u64, 10u64, 11u64, 12u64, 13u64, 14u64, 15u64)), le8(0u64, 1u64, 2u64, 3u64, 4u64, 5u64, 6u64, 7u64)), le8(8u64, 9u64, 10u64, 11u64, 12u64, 13u64, 14u64, 15u64)), (((16u64 & 0xff) << 56u64) | le0())) == 0x3f2acc7f57c29bdbu64,
        sip_finish(sip_compress(sip_compress(sip_init(le8(0u64, 1u64, 2u64, 3u64, 4u64, 5u64, 6u64, 7u64), le8(8u64, 9u64, 10u64, 11u64, 12u64, 13u64, 14u64, 15u64)), le8(0u64, 1u64, 2u64, 3u64, 4u64, 5u64, 6u64, 7u64)), le8(8u64, 9u64, 10u64, 11u64, 12u64, 13u64, 14u64, 15u64)), (((17u64 & 0xff) << 56u64) | le1(16u64))) == 0x699ae9f52cbe4794u64,
        sip_finish(sip_compress(sip_compress(sip_init(le8(0u64, 1u64, 2u64, 3u64, 4u64, 5u64, 6u64, 7u64), le8(8u64, 9u64, 10u64, 11u64, 12u64, 13u64, 14u64, 15u64)), le8(0u64, 1u64, 2u64, 3u64, 4u64, 5u64, 6u64, 7u64)), le8(8u64, 9u64, 10u64, 11u64, 12u64, 13u64, 14u64, 15u64)), (((18u64 & 0xff) << 56u64) | le2(16u64, 17u64))) == 0x4bc1b3f0968dd39cu64,
        sip_finish(sip_compress(sip_compress(sip_init(le8(0u64, 1u64, 2u64, 3u64, 4u64, 5u64, 6u64, 7u64), le8(8u64, 9u64, 10u64, 11u64, 12u64, 13u64, 14u64, 15u64)), le8(0u64, 1u64, 2u64, 3u64, 4u64, 5u64, 6u64, 7u64)), le8(8u64, 9u64, 10u64, 11u64, 12u64, 13u64, 14u64, 15u64)), (((19u64 & 0xff) << 56u64) | le3(16u64, 17u64, 18u64))) == 0xbb6dc91da77961bdu64,
        sip_finish(sip_compress(sip_compress(sip_init(le8(0u64, 1u64, 2u64, 3u64, 4u64, 5u64, 6u64, 7u64), le8(8u64, 9u64, 10u64, 11u64, 12u64, 13u64, 14u64, 15u64)), le8(0u64, 1u64, 2u64, 3u64, 4u64, 5u64, 6u64, 7u64)), le8(8u64, 9u64, 10u64, 11u64, 12u64, 13u64, 14u64, 15u64)), (((20u64 & 0xff) << 56u64) | le4(16u64, 17u64, 18u64, 19u64))) == 0xbed65cf21aa2ee98u64,
        sip_finish(sip_compress(sip_compress(sip_init(le8(0u64, 1u64, 2u64, 3u64, 4u64, 5u64, 6u64, 7u64), le8(8u64, 9u64, 10u64, 11u64, 12u64, 13u64, 14u64, 15u64)), le8(0u64, 1u64, 2u64, 3u64, 4u64, 5u64, 6u64, 7u64)), le8(8u64, 9u64, 10u64, 11u64, 12u64, 13u64, 14u64, 15u64)), (((21u64 & 0xff) << 56u64) | le5(16u64, 17u64, 18u64, 19u64, 20u64))) == 0xd0f2cbb02e3b67c7u64,
        sip_finish(sip_compress(sip_compress(sip_init(le8(0u64, 1u64, 2u64, 3u64, 4u64, 5u64, 6u64, 7u64), le8(8u64, 9u64, 10u64, 11u64, 12u64, 13u64, 14u64, 15u64)), le8(0u64, 1u64, 2u64, 3u64, 4u64, 5u64, 6u64, 7u64)), le8(8u64, 9u64, 10u64, 11u64, 12u64, 13u64, 14u64, 15u64)), (((22u64 & 0xff) << 56u64) | le6(16u64, 17u64, 18u64, 19u64, 20u64, 21u64))) == 0x93536795e3a33e88u64,
        sip_finish(sip_compress(sip_compress(sip_init(le8(0u64, 1u64, 2u64, 3u64, 4u64, 5u64, 6u64, 7u64), le8(8u64, 9u64, 10u64, 11u64, 12u64, 13u64, 14u64, 15u64)), le8(0u64, 1u64, 2u64, 3u64, 4u64, 5u64, 6u64, 7u64)), le8(8u64, 9u64, 10u64, 11u64, 12u64, 13u64, 14u64, 15u64)), (((23u64 & 0xff) << 56u64) | le7(16u64, 17u64, 18u64, 19u64, 20u64, 21u64, 22u64))) == 0xa80c038ccd5ccec8u64,
{
}

proof fn lemma_vector_words_3() by (bit_vector)
    ensures
        sip_finish(sip_compress(sip_compress(sip_compress(sip_init(le8(0u64, 1u64, 2u64, 3u64, 4u64, 5u64, 6u64, 7u64), le8(8u64, 9u64, 10u64, 11u64, 12u64, 13u64, 14u64, 15u64)), le8(0u64, 1u64, 2u64, 3u64, 4u64, 5u64, 6u64, 7u64)), le8(8u64, 9u64, 10u64, 11u64, 12u64, 13u64, 14u64, 15u64)), le8(16u64, 17u64, 18u64, 19u64, 20u64, 21u64, 22u64, 23u64)), (((24u64 & 0xff) << 56u64) | le0())) == 0xb8ad50c6f649af94u64,
        sip_finish(sip_compress(sip_compress(sip_compress(sip_init(le8(0u64, 1u64, 2u64, 3u64, 4u64, 5u64, 6u64, 7u64), le8(8u64, 9u64, 10u64, 11u64, 12u64, 13u64, 14u64, 15u64)), le8(0u64, 1u64, 2u64, 3u64, 4u64, 5u64, 6u64, 7u64)), le8(8u64, 9u64, 10u64, 11u64, 12u64, 13u64, 14u64, 15u64)), le8(16u64, 17u64, 18u64, 19u64, 20u64, 21u64, 22u64, 23u64)), (((25u64 & 0xff) << 56u64) | le1(24u64))) == 0xbce192de8a85b8eau64,
        sip_finish(sip_compress(sip_compress(sip_compress(sip_init(le8(0u64, 1u64, 2u64, 3u64, 4u64, 5u64, 6u64, 7u64), le8(8u64, 9u64, 10u64, 11u64, 12u64, 13u64, 14u64, 15u64)), le8(0u64, 1u64, 2u64, 3u64, 4u64, 5u64, 6u64, 7u64)), le8(8u64, 9u64, 10u64, 11u64, 12u64, 13u64, 14u64, 15u64)), le8(16u64, 17u64, 18u64, 19u64, 20u64, 21u64, 22u64, 23u64)), (((26u64 & 0xff) << 56u64) | le2(24u64, 25u64))) == 0x17d835b85bbb15f3u64,
        sip_finish(sip_compress(sip_compress(sip_compress(sip_init(le8(0u64, 1u64, 2u64, 3u64, 4u64, 5u64, 6u64, 7u64), le8(8u64, 9u64, 10u64, 11u64, 12u64, 13u64, 14u64, 15u64)), le8(0u64, 1u64, 2u64, 3u64, 4u64, 5u64, 6u64, 7u64)), le8(8u64, 9u64, 10u64, 11u64, 12u64, 13u64, 14u64, 15u64)), le8(16u64, 17u64, 18u64, 19u64, 20u64, 21u64, 22u64, 23u64)), (((27u64 & 0xff) << 56u64) | le3(24u64, 25u64, 26u64))) == 0x2f2e6163076bcfadu64,
        sip_finish(sip_compress(sip_compress(sip_compress(sip_init(le8(0u64, 1u64, 2u64, 3u64, 4u64, 5u64, 6u64, 7u64), le8(8u64, 9u64, 10u64, 11u64, 12u64, 13u64, 14u64, 15u64)), le8(0u64, 1u64, 2u64, 3u64, 4u64, 5u64, 6u64, 7u64)), le8(8u64, 9u64, 10u64, 11u64, 12u64, 13u64, 14u64, 15u64)), le8(16u64, 17u64, 18u64, 19u64, 20u64, 21u64, 22u64, 23u64)), (((28u64 & 0xff) << 56u64) | le4(24u64, 25u64, 26u64, 27u64))) == 0xde4daaaca71dc9a5u64,
        sip_finish(sip_compress(sip_compress(sip_compress(sip_init(le8(0u64, 1u64, 2u64, 3u64, 4u64, 5u64, 6u64, 7u64), le8(8u64, 9u64, 10u64, 11u64, 12u64, 13u64, 14u64, 15u64)), le8(0u64, 1u64, 2u64, 3u64, 4u64, 5u64, 6u64, 7u64)), le8(8u64, 9u64, 10u64, 11u64, 12u64, 13u64, 14u64, 15u64)), le8(16u64, 17u64, 18u64, 19u64, 20u64, 21u64, 22u64, 23u64)), (((29u64 & 0xff) << 56u64) | le5(24u64, 25u64, 26u64, 27u64, 28u64))) == 0xa6a2506687956571u64,
        sip_finish(sip_compress(sip_compress(sip_compress(sip_init(le8(0u64, 1u64, 2u64, 3u64, 4u64, 5u64, 6u64, 7u64), le8(8u64, 9u64, 10u64, 11u64, 12u64, 13u64, 14u64, 15u64)), le8(0u64, 1u64, 2u64, 3u64, 4u64, 5u64, 6u64, 7u64)), le8(8u64, 9u64, 10u64, 11u64, 12u64, 13u64, 14u64, 15u64)), le8(16u64, 17u64, 18u64, 19u64, 20u64, 21u64, 22u64, 23u64)), (((30u64 & 0xff) << 56u64) | le6(24u64, 25u64, 26u64, 27u64, 28u64, 29u64))) == 0xad87a3535c49ef28u64,
        sip_finish(sip_compress(sip_compress(sip_compress(sip_init(le8(0u64, 1u64, 2u64, 3u64, 4u64, 5u64, 6u64, 7u64), le8(8u64, 9u64, 10u64, 11u64, 12u64, 13u64, 14u64, 15u64)), le8(0u64, 1u64, 2u64, 3u64, 4u64, 5u64, 6u64, 7u64)), le8(8u64, 9u64, 10u64, 11u64, 12u64, 13u64, 14u64, 15u64)), le8(16u64, 17u64, 18u64, 19u64, 20u64, 21u64, 22u64, 23u64)), (((31u64 & 0xff) << 56u64) | le7(24u64, 25u64, 26u64, 27u64, 28u64, 29u64, 30u64))) == 0x32d892fad841c342u64,
{
}

proof fn lemma_vector_words_4() by (bit_vector)
    ensures
        sip_finish(sip_compress(sip_compress(sip_compress(sip_compress(sip_init(le8(0u64, 1u64, 2u64, 3u64, 4u64, 5u64, 6u64, 7u64), le8(8u64, 9u64, 10u64, 11u64, 12u64, 13u64, 14u64, 15u64)), le8(0u64, 1u64, 2u64, 3u64, 4u64, 5u64, 6u64, 7u64)), le8(8u64, 9u64, 10u64, 11u64, 12u64, 13u64, 14u64, 15u64)), le8(16u64, 17u64, 18u64, 19u64, 20u64, 21u64, 22u64, 23u64)), le8(24u64, 25u64, 26u64, 27u64, 28u64, 29u64, 30u64, 31u64)), (((32u64 & 0xff) << 56u64) | le0())) == 0x7127512f72f27cceu64,
        sip_finish(sip_compress(sip_compress(sip_compress(sip_compress(sip_init(le8(0u64, 1u64, 2u64, 3u64, 4u64, 5u64, 6u64, 7u64), le8(8u64, 9u64, 10u64, 11u64, 12u64, 13u64, 14u64, 15u64)), le8(0u64, 1u64, 2u64, 3u64, 4u64, 5u64, 6u64, 7u64)), le8(8u64, 9u64, 10u64, 11u64, 12u64, 13u64, 14u64, 15u64)), le8(16u64, 17u64, 18u64, 19u64, 20u64, 21u64, 22u64, 23u64)), le8(24u64, 25u64, 26u64, 27u64, 28u64, 29u64, 30u64, 31u64)), (((33u64 & 0xff) << 56u64) | le1(32u64))) == 0xa7f32346f95978e3u64,
        sip_finish(sip_compress(sip_compress(sip_compress(sip_compress(sip_init(le8(0u64, 1u64, 2u64, 3u64, 4u64, 5u64, 6u64, 7u64), le8(8u64, 9u64, 10u64, 11u64, 12u64, 13u64, 14u64, 15u64)), le8(0u64, 1u64, 2u64, 3u64, 4u64, 5u64, 6u64, 7u64)), le8(8u64, 9u64, 10u64, 11u64, 12u64, 13u64, 14u64, 15u64)), le8(16u64, 17u64, 18u64, 19u64, 20u64, 21u64, 22u64, 23u64)), le8(24u64, 25u64, 26u64, 27u64, 28u64, 29u64, 30u64, 31u64)), (((34u64 & 0xff) << 56u64) | le2(32u64, 33u64))) == 0x12e0b01abb051238u64,
        sip_finish(sip_compress(sip_compress(sip_compress(sip_compress(sip_init(le8(0u64, 1u64, 2u64, 3u64, 4u64, 5u64, 6u64, 7u64), le8(8u64, 9u64, 10u64, 11u64, 12u64, 13u64, 14u64, 15u64)), le8(0u64, 1u64, 2u64, 3u64, 4u64, 5u64, 6u64, 7u64)), le8(8u64, 9u64, 10u64, 11u64, 12u64, 13u64, 14u64, 15u64)), le8(16u64, 17u64, 18u64, 19u64, 20u64, 21u64, 22u64, 23u64)), le8(24u64, 25u64, 26u64, 27u64, 28u64, 29u64, 30u64, 31u64)), (((35u64 & 0xff) << 56u64) | le3(32u64, 33u64, 34u64))) == 0x15e034d40fa197aeu64,
        sip_finish(sip_compress(sip_compress(sip_compress(sip_compress(sip_init(le8(0u64, 1u64, 2u64, 3u64, 4u64, 5u64, 6u64, 7u64), le8(8u64, 9u64, 10u64, 11u64, 12u64, 13u64, 14u64, 15u64)), le8(0u64, 1u64, 2u64, 3u64, 4u64, 5u64, 6u64, 7u64)), le8(8u64, 9u64, 10u64, 11u64, 12u64, 13u64, 14u64, 15u64)), le8(16u64, 17u64, 18u64, 19u64, 20u64, 21u64, 22u64, 23u64)), le8(24u64, 25u64, 26u64, 27u64, 28u64, 29u64, 30u64, 31u64)), (((36u64 & 0xff) << 56u64) | le4(32u64, 33u64, 34u64, 35u64))) == 0x314dffbe0815a3b4u64,
        sip_finish(sip_compress(sip_compress(sip_compress(sip_compress(sip_init(le8(0u64, 1u64, 2u64, 3u64, 4u64, 5u64, 6u64, 7u64), le8(8u64, 9u64, 10u64, 11u64, 12u64, 13u64, 14u64, 15u64)), le8(0u64, 1u64, 2u64, 3u64, 4u64, 5u64, 6u64, 7u64)), le8(8u64, 9u64, 10u64, 11u64, 12u64, 13u64, 14u64, 15u64)), le8(16u64, 17u64, 18u64, 19u64, 20u64, 21u64, 22u64, 23u64)), le8(24u64, 25u64, 26u64, 27u64, 28u64, 29u64, 30u64, 31u64)), (((37u64 & 0xff) << 56u64) | le5(32u64, 33u64, 34u64, 35u64, 36u64))) == 0x027990f029623981u64,
        sip_finish(sip_compress(sip_compress(sip_compress(sip_compress(sip_init(le8(0u64, 1u64, 2u64, 3u64, 4u64, 5u64, 6u64, 7u64), le8(8u64, 9u64, 10u64, 11u64, 12u64, 13u64, 14u64, 15u64)), le8(0u64, 1u64, 2u64, 3u64, 4u64, 5u64, 6u64, 7u64)), le8(8u64, 9u64, 10u64, 11u64, 12u64, 13u64, 14u64, 15u64)), le8(16u64, 17u64, 18u64, 19u64, 20u64, 21u64, 22u64, 23u64)), le8(24u64, 25u64, 26u64, 27u64, 28u64, 29u64, 30u64, 31u64)), (((38u64 & 0xff) << 56u64) | le6(32u64, 33u64, 34u64, 35u64, 36u64, 37u64))) == 0xcadcd4e59ef40c4du64,
        sip_finish(sip_compress(sip_compress(sip_compress(sip_compress(sip_init(le8(0u64, 1u64, 2u64, 3u64, 4u64, 5u64, 6u64, 7u64), le8(8u64, 9u64, 10u64, 11u64, 12u64, 13u64, 14u64, 15u64)), le8(0u64, 1u64, 2u64, 3u64, 4u64, 5u64, 6u64, 7u64)), le8(8u64, 9u64, 10u64, 11u64, 12u64, 13u64, 14u64, 15u64)), le8(16u64, 17u64, 18u64, 19u64, 20u64, 21u64, 22u64, 23u64)), le8(24u64, 25u64, 26u64, 27u64, 28u64, 29u64, 30u64, 31u64)), (((39u64 & 0xff) << 56u64) | le7(32u64, 33u64, 34u64, 35u64, 36u64, 37u64, 38u64))) == 0x9abfd8766a33735cu64,
{
}

proof fn lemma_vector_words_5() by (bit_vector)
    ensures
        sip_finish(sip_compress(sip_compress(sip_compress(sip_compress(sip_compress(sip_init(le8(0u64, 1u64, 2u64, 3u64, 4u64, 5u64, 6u64, 7u64), le8(8u64, 9u64, 10u64, 11u64, 12u64, 13u64, 14u64, 15u64)), le8(0u64, 1u64, 2u64, 3u64, 4u64, 5u64, 6u64, 7u64)), le8(8u64, 9u64, 10u64, 11u64, 12u64, 13u64, 14u64, 15u64)), le8(16u64, 17u64, 18u64, 19u64, 20u64, 21u64, 22u64, 23u64)), le8(24u64, 25u64, 26u64, 27u64, 28u64, 29u64, 30u64, 31u64)), le8(32u64, 33u64, 34u64, 35u64, 36u64, 37u64, 38u64, 39u64)), (((40u64 & 0xff) << 56u64) | le0())) == 0x0e3ea96b5304a7d0u64,
        sip_finish(sip_compress(sip_compress(sip_compress(sip_compress(sip_compress(sip_init(le8(0u64, 1u64, 2u64, 3u64, 4u64, 5u64, 6u64, 7u64), le8(8u64, 9u64, 10u64, 11u64, 12u64, 13u64, 14u64, 15u64)), le8(0u64, 1u64, 2u64, 3u64, 4u64, 5u64, 6u64, 7u64)), le8(8u64, 9u64, 10u64, 11u64, 12u64, 13u64, 14u64, 15u64)), le8(16u64, 17u64, 18u64, 19u64, 20u64, 21u64, 22u64, 23u64)), le8(24u64, 25u64, 26u64, 27u64, 28u64, 29u64, 30u64, 31u64)), le8(32u64, 33u64, 34u64, 35u64, 36u64, 37u64, 38u64, 39u64)), (((41u64 & 0xff) << 56u64) | le1(40u64))) == 0xad0c42d6fc585992u64,
        sip_finish(sip_compress(sip_compress(sip_compress(sip_compress(sip_compress(sip_init(le8(0u64, 1u64, 2u64, 3u64, 4u64, 5u64, 6u64, 7u64), le8(8u64, 9u64, 10u64, 11u64, 12u64, 13u64, 14u64, 15u64)), le8(0u64, 1u64, 2u64, 3u64, 4u64, 5u64, 6u64, 7u64)), le8(8u64, 9u64, 10u64, 11u64, 12u64, 13u64, 14u64, 15u64)), le8(16u64, 17u64, 18u64, 19u64, 20u64, 21u64, 22u64, 23u64)), le8(24u64, 25u64, 26u64, 27u64, 28u64, 29u64, 30u64, 31u64)), le8(32u64, 33u64, 34u64, 35u64, 36u64, 37u64, 38u64, 39u64)), (((42u64 & 0xff) << 56u64) | le2(40u64, 41u64))) == 0x187306c89bc215a9u64,
        sip_finish(sip_compress(sip_compress(sip_compress(sip_compress(sip_compress(sip_init(le8(0u64, 1u64, 2u64, 3u64, 4u64, 5u64, 6u64, 7u64), le8(8u64, 9u64, 10u64, 11u64, 12u64, 13u64, 14u64, 15u64)), le8(0u64, 1u64, 2u64, 3u64, 4u64, 5u64, 6u64, 7u64)), le8(8u64, 9u64, 10u64, 11u64, 12u64, 13u64, 14u64, 15u64)), le8(16u64, 17u64, 18u64, 19u64, 20u64, 21u64, 22u64, 23u64)), le8(24u64, 25u64, 26u64, 27u64, 28u64, 29u64, 30u64, 31u64)), le8(32u64, 33u64, 34u64, 35u64, 36u64, 37u64, 38u64, 39u64)), (((43u64 & 0xff) << 56u64) | le3(40u64, 41u64, 42u64))) == 0xd4a60abcf3792b95u64,
        sip_finish(sip_compress(sip_compress(sip_compress(sip_compress(sip_compress(sip_init(le8(0u64, 1u64, 2u64, 3u64, 4u64, 5u64, 6u64, 7u64), le8(8u64, 9u64, 10u64, 11u64, 12u64, 13u64, 14u64, 15u64)), le8(0u64, 1u64, 2u64, 3u64, 4u64, 5u64, 6u64, 7u64)), le8(8u64, 9u64, 10u64, 11u64, 12u64, 13u64, 14u64, 15u64)), le8(16u64, 17u64, 18u64, 19u64, 20u64, 21u64, 22u64, 23u64)), le8(24u64, 25u64, 26u64, 27u64, 28u64, 29u64, 30u64, 31u64)), le8(32u64, 33u64, 34u64, 35u64, 36u64, 37u64, 38u64, 39u64)), (((44u64 & 0xff) << 56u64) | le4(40u64, 41u64, 42u64, 43u64))) == 0xf935451de4f21df2u64,
        sip_finish(sip_compress(sip_compress(sip_compress(sip_compress(sip_compress(sip_init(le8(0u64, 1u64, 2u64, 3u64, 4u64, 5u64, 6u64, 7u64), le8(8u64, 9u64, 10u64, 11u64, 12u64, 13u64, 14u64, 15u64)), le8(0u64, 1u64, 2u64, 3u64, 4u64, 5u64, 6u64, 7u64)), le8(8u64, 9u64, 10u64, 11u64, 12u64, 13u64, 14u64, 15u64)), le8(16u64, 17u64, 18u64, 19u64, 20u64, 21u64, 22u64, 23u64)), le8(24u64, 25u64, 26u64, 27u64, 28u64, 29u64, 30u64, 31u64)), le8(32u64, 33u64, 34u64, 35u64, 36u64, 37u64, 38u64, 39u64)), (((45u64 & 0xff) << 56u64) | le5(40u64, 41u64, 42u64, 43u64, 44u64))) == 0xa9538f0419755787u64,
        sip_finish(sip_compress(sip_compress(sip_compress(sip_compress(sip_compress(sip_init(le8(0u64, 1u64, 2u64, 3u64, 4u64, 5u64, 6u64, 7u64), le8(8u64, 9u64, 10u64, 11u64, 12u64, 13u64, 14u64, 15u64)), le8(0u64, 1u64, 2u64, 3u64, 4u64, 5u64, 6u64, 7u64)), le8(8u64, 9u64, 10u64, 11u64, 12u64, 13u64, 14u64, 15u64)), le8(16u64, 17u64, 18u64, 19u64, 20u64, 21u64, 22u64, 23u64)), le8(24u64, 25u64, 26u64, 27u64, 28u64, 29u64, 30u64, 31u64)), le8(32u64, 33u64, 34u64, 35u64, 36u64, 37u64, 38u64, 39u64)), (((46u64 & 0xff) << 56u64) | le6(40u64, 41u64, 42u64, 43u64, 44u64, 45u64))) == 0xdb9acddff56ca510u64,
        sip_finish(sip_compress(sip_compress(sip_compress(sip_compress(sip_compress(sip_init(le8(0u64, 1u64, 2u64, 3u64, 4u64, 5u64, 6u64, 7u64), le8(8u64, 9u64, 10u64, 11u64, 12u64, 13u64, 14u64, 15u64)), le8(0u64, 1u64, 2u64, 3u64, 4u64, 5u64, 6u64, 7u64)), le8(8u64, 9u64, 10u64, 11u64, 12u64, 13u64, 14u64, 15u64)), le8(16u64, 17u64, 18u64, 19u64, 20u64, 21u64, 22u64, 23u64)), le8(24u64, 25u64, 26u64, 27u64, 28u64, 29u64, 30u64, 31u64)), le8(32u64, 33u64, 34u64, 35u64, 36u64, 37u64, 38u64, 39u64)), (((47u64 & 0xff) << 56u64) | le7(40u64, 41u64, 42u64, 43u64, 44u64, 45u64, 46u64))) == 0xd06c98cd5c0975ebu64,
{
}

proof fn lemma_vector_words_6() by (bit_vector)
    ensures
        sip_finish(sip_compress(sip_compress(sip_compress(sip_compress(sip_compress(sip_compress(sip_init(le8(0u64, 1u64, 2u64, 3u64, 4u64, 5u64, 6u64, 7u64), le8(8u64, 9u64, 10u64, 11u64, 12u64, 13u64, 14u64, 15u64)), le8(0u64, 1u64, 2u64, 3u64, 4u64, 5u64, 6u64, 7u64)), le8(8u64, 9u64, 10u64, 11u64, 12u64, 13u64, 14u64, 15u64)), le8(16u64, 17u64, 18u64, 19u64, 20u64, 21u64, 22u64, 23u64)), le8(24u64, 25u64, 26u64, 27u64, 28u64, 29u64, 30u64, 31u64)), le8(32u64, 33u64, 34u64, 35u64, 36u64, 37u64, 38u64, 39u64)), le8(40u64, 41u64, 42u64, 43u64, 44u64, 45u64, 46u64, 47u64)), (((48u64 & 0xff) << 56u64) | le0())) == 0xe612a3cb9ecba951u64,
        sip_finish(sip_compress(sip_compress(sip_compress(sip_compress(sip_compress(sip_compress(sip_init(le8(0u64, 1u64, 2u64, 3u64, 4u64, 5u64, 6u64, 7u64), le8(8u64, 9u64, 10u64, 11u64, 12u64, 13u64, 14u64, 15u64)), le8(0u64, 1u64, 2u64, 3u64, 4u64, 5u64, 6u64, 7u64)), le8(8u64, 9u64, 10u64, 11u64, 12u64, 13u64, 14u64, 15u64)), le8(16u64, 17u64, 18u64, 19u64, 20u64, 21u64, 22u64, 23u64)), le8(24u64, 25u64, 26u64, 27u64, 28u64, 29u64, 30u64, 31u64)), le8(32u64, 33u64, 34u64, 35u64, 36u64, 37u64, 38u64, 39u64)), le8(40u64, 41u64, 42u64, 43u64, 44u64, 45u64, 46u64, 47u64)), (((49u64 & 0xff) << 56u64) | le1(48u64))) == 0xc766e62cfcadaf96u64,
        sip_finish(sip_compress(sip_compress(sip_compress(sip_compress(sip_compress(sip_compress(sip_init(le8(0u64, 1u64, 2u64, 3u64, 4u64, 5u64, 6u64, 7u64), le8(8u64, 9u64, 10u64, 11u64, 12u64, 13u64, 14u64, 15u64)), le8(0u64, 1u64, 2u64, 3u64, 4u64, 5u64, 6u64, 7u64)), le8(8u64, 9u64, 10u64, 11u64, 12u64, 13u64, 14u64, 15u64)), le8(16u64, 17u64, 18u64, 19u64, 20u64, 21u64, 22u64, 23u64)), le8(24u64, 25u64, 26u64, 27u64, 28u64, 29u64, 30u64, 31u64)), le8(32u64, 33u64, 34u64, 35u64, 36u64, 37u64, 38u64, 39u64)), le8(40u64, 41u64, 42u64, 43u64, 44u64, 45u64, 46u64, 47u64)), (((50u64 & 0xff) << 56u64) | le2(48u64, 49u64))) == 0xee64435a9752fe72u64,
        sip_finish(sip_compress(sip_compress(sip_compress(sip_compress(sip_compress(sip_compress(sip_init(le8(0u64, 1u64, 2u64, 3u64, 4u64, 5u64, 6u64, 7u64), le8(8u64, 9u64, 10u64, 11u64, 12u64, 13u64, 14u64, 15u64)), le8(0u64, 1u64, 2u64, 3u64, 4u64, 5u64, 6u64, 7u64)), le8(8u64, 9u64, 10u64, 11u64, 12u64, 13u64, 14u64, 15u64)), le8(16u64, 17u64, 18u64, 19u64, 20u64, 21u64, 22u64, 23u64)), le8(24u64, 25u64, 26u64, 27u64, 28u64, 29u64, 30u64, 31u64)), le8(32u64, 33u64, 34u64, 35u64, 36u64, 37u64, 38u64, 39u64)), le8(40u64, 41u64, 42u64, 43u64, 44u64, 45u64, 46u64, 47u64)), (((51u64 & 0xff) << 56u64) | le3(48u64, 49u64, 50u64))) == 0xa192d576b245165au64,
        sip_finish(sip_compress(sip_compress(sip_compress(sip_compress(sip_compress(sip_compress(sip_init(le8(0u64, 1u64, 2u64, 3u64, 4u64, 5u64, 6u64, 7u64), le8(8u64, 9u64, 10u64, 11u64, 12u64, 13u64, 14u64, 15u64)), le8(0u64, 1u64, 2u64, 3u64, 4u64, 5u64, 6u64, 7u64)), le8(8u64, 9u64, 10u64, 11u64, 12u64, 13u64, 14u64, 15u64)), le8(16u64, 17u64, 18u64, 19u64, 20u64, 21u64, 22u64, 23u64)), le8(24u64, 25u64, 26u64, 27u64, 28u64, 29u64, 30u64, 31u64)), le8(32u64, 33u64, 34u64, 35u64, 36u64, 37u64, 38u64, 39u64)), le8(40u64, 41u64, 42u64, 43u64, 44u64, 45u64, 46u64, 47u64)), (((52u64 & 0xff) << 56u64) | le4(48u64, 49u64, 50u64, 51u64))) == 0x0a8787bf8ecb74b2u64,
        sip_finish(sip_compress(sip_compress(sip_compress(sip_compress(sip_compress(sip_compress(sip_init(le8(0u64, 1u64, 2u64, 3u64, 4u64, 5u64, 6u64, 7u64), le8(8u64, 9u64, 10u64, 11u64, 12u64, 13u64, 14u64, 15u64)), le8(0u64, 1u64, 2u64, 3u64, 4u64, 5u64, 6u64, 7u64)), le8(8u64, 9u64, 10u64, 11u64, 12u64, 13u64, 14u64, 15u64)), le8(16u64, 17u64, 18u64, 19u64, 20u64, 21u64, 22u64, 23u64)), le8(24u64, 25u64, 26u64, 27u64, 28u64, 29u64, 30u64, 31u64)), le8(32u64, 33u64, 34u64, 35u64, 36u64, 37u64, 38u64, 39u64)), le8(40u64, 41u64, 42u64, 43u64, 44u64, 45u64, 46u64, 47u64)), (((53u64 & 0xff) << 56u64) | le5(48u64, 49u64, 50u64, 51u64, 52u64))) == 0x81b3e73d20b49b6fu64,
        sip_finish(sip_compress(sip_compress(sip_compress(sip_compress(sip_compress(sip_compress(sip_init(le8(0u64, 1u64, 2u64, 3u64, 4u64, 5u64, 6u64, 7u64), le8(8u64, 9u64, 10u64, 11u64, 12u64, 13u64, 14u64, 15u64)), le8(0u64, 1u64, 2u64, 3u64, 4u64, 5u64, 6u64, 7u64)), le8(8u64, 9u64, 10u64, 11u64, 12u64, 13u64, 14u64, 15u64)), le8(16u64, 17u64, 18u64, 19u64, 20u64, 21u64, 22u64, 23u64)), le8(24u64, 25u64, 26u64, 27u64, 28u64, 29u64, 30u64, 31u64)), le8(32u64, 33u64, 34u64, 35u64, 36u64, 37u64, 38u64, 39u64)), le8(40u64, 41u64, 42u64, 43u64, 44u64, 45u64, 46u64, 47u64)), (((54u64 & 0xff) << 56u64) | le6(48u64, 49u64, 50u64, 51u64, 52u64, 53u64))) == 0x7fa8220ba3b2eceau64,
        sip_finish(sip_compress(sip_compress(sip_compress(sip_compress(sip_compress(sip_compress(sip_init(le8(0u64, 1u64, 2u64, 3u64, 4u64, 5u64, 6u64, 7u64), le8(8u64, 9u64, 10u64, 11u64, 12u64, 13u64, 14u64, 15u64)), le8(0u64, 1u64, 2u64, 3u64, 4u64, 5u64, 6u64, 7u64)), le8(8u64, 9u64, 10u64, 11u64, 12u64, 13u64, 14u64, 15u64)), le8(16u64, 17u64, 18u64, 19u64, 20u64, 21u64, 22u64, 23u64)), le8(24u64, 25u64, 26u64, 27u64, 28u64, 29u64, 30u64, 31u64)), le8(32u64, 33u64, 34u64, 35u64, 36u64, 37u64, 38u64, 39u64)), le8(40u64, 41u64, 42u64, 43u64, 44u64, 45u64, 46u64, 47u64)), (((55u64 & 0xff) << 56u64) | le7(48u64, 49u64, 50u64, 51u64, 52u64, 53u64, 54u64))) == 0x245731c13ca42499u64,
{
}

proof fn lemma_vector_words_7() by (bit_vector)
    ensures
        sip_finish(sip_compress(sip_compress(sip_compress(sip_compress(sip_compress(sip_compress(sip_compress(sip_init(le8(0u64, 1u64, 2u64, 3u64, 4u64, 5u64, 6u64, 7u64), le8(8u64, 9u64, 10u64, 11u64, 12u64, 13u64, 14u64, 15u64)), le8(0u64, 1u64, 2u64, 3u64, 4u64, 5u64, 6u64, 7u64)), le8(8u64, 9u64, 10u64, 11u64, 12u64, 13u64, 14u64, 15u64)), le8(16u64, 17u64, 18u64, 19u64, 20u64, 21u64, 22u64, 23u64)), le8(24u64, 25u64, 26u64, 27u64, 28u64, 29u64, 30u64, 31u64)), le8(32u64, 33u64, 34u64, 35u64, 36u64, 37u64, 38u64, 39u64)), le8(40u64, 41u64, 42u64, 43u64, 44u64, 45u64, 46u64, 47u64)), le8(48u64, 49u64, 50u64, 51u64, 52u64, 53u64, 54u64, 55u64)), (((56u64 & 0xff) << 56u64) | le0())) == 0xb78dbfaf3a8d83bdu64,
        sip_finish(sip_compress(sip_compress(sip_compress(sip_compress(sip_compress(sip_compress(sip_compress(sip_init(le8(0u64, 1u64, 2u64, 3u64, 4u64, 5u64, 6u64, 7u64), le8(8u64, 9u64, 10u64, 11u64, 12u64, 13u64, 14u64, 15u64)), le8(0u64, 1u64, 2u64, 3u64, 4u64, 5u64, 6u64, 7u64)), le8(8u64, 9u64, 10u64, 11u64, 12u64, 13u64, 14u64, 15u64)), le8(16u64, 17u64, 18u64, 19u64, 20u64, 21u64, 22u64, 23u64)), le8(24u64, 25u64, 26u64, 27u64, 28u64, 29u64, 30u64, 31u64)), le8(32u64, 33u64, 34u64, 35u64, 36u64, 37u64, 38u64, 39u64)), le8(40u64, 41u64, 42u64, 43u64, 44u64, 45u64, 46u64, 47u64)), le8(48u64, 49u64, 50u64, 51u64, 52u64, 53u64, 54u64, 55u64)), (((57u64 & 0xff) << 56u64) | le1(56u64))) == 0xea1ad565322a1a0bu64,
        sip_finish(sip_compress(sip_compress(sip_compress(sip_compress(sip_compress(sip_compress(sip_compress(sip_init(le8(0u64, 1u64, 2u64, 3u64, 4u64, 5u64, 6u64, 7u64), le8(8u64, 9u64, 10u64, 11u64, 12u64, 13u64, 14u64, 15u64)), le8(0u64, 1u64, 2u64, 3u64, 4u64, 5u64, 6u64, 7u64)), le8(8u64, 9u64, 10u64, 11u64, 12u64, 13u64, 14u64, 15u64)), le8(16u64, 17u64, 18u64, 19u64, 20u64, 21u64, 22u64, 23u64)), le8(24u64, 25u64, 26u64, 27u64, 28u64, 29u64, 30u64, 31u64)), le8(32u64, 33u64, 34u64, 35u64, 36u64, 37u64, 38u64, 39u64)), le8(40u64, 41u64, 42u64, 43u64, 44u64, 45u64, 46u64, 47u64)), le8(48u64, 49u64, 50u64, 51u64, 52u64, 53u64, 54u64, 55u64)), (((58u64 & 0xff) << 56u64) | le2(56u64, 57u64))) == 0x60e61c23a3795013u64,
        sip_finish(sip_compress(sip_compress(sip_compress(sip_compress(sip_compress(sip_compress(sip_compress(sip_init(le8(0u64, 1u64, 2u64, 3u64, 4u64, 5u64, 6u64, 7u64), le8(8u64, 9u64, 10u64, 11u64, 12u64, 13u64, 14u64, 15u64)), le8(0u64, 1u64, 2u64, 3u64, 4u64, 5u64, 6u64, 7u64)), le8(8u64, 9u64, 10u64, 11u64, 12u64, 13u64, 14u64, 15u64)), le8(16u64, 17u64, 18u64, 19u64, 20u64, 21u64, 22u64, 23u64)), le8(24u64, 25u64, 26u64, 27u64, 28u64, 29u64, 30u64, 31u64)), le8(32u64, 33u64, 34u64, 35u64, 36u64, 37u64, 38u64, 39u64)), le8(40u64, 41u64, 42u64, 43u64, 44u64, 45u64, 46u64, 47u64)), le8(48u64, 49u64, 50u64, 51u64, 52u64, 53u64, 54u64, 55u64)), (((59u64 & 0xff) << 56u64) | le3(56u64, 57u64, 58u64))) == 0x6606d7e446282b93u64,
        sip_finish(sip_compress(sip_compress(sip_compress(sip_compress(sip_compress(sip_compress(sip_compress(sip_init(le8(0u64, 1u64, 2u64, 3u64, 4u64, 5u64, 6u64, 7u64), le8(8u64, 9u64, 10u64, 11u64, 12u64, 13u64, 14u64, 15u64)), le8(0u64, 1u64, 2u64, 3u64, 4u64, 5u64, 6u64, 7u64)), le8(8u64, 9u64, 10u64, 11u64, 12u64, 13u64, 14u64, 15u64)), le8(16u64, 17u64, 18u64, 19u64, 20u64, 21u64, 22u64, 23u64)), le8(24u64, 25u64, 26u64, 27u64, 28u64, 29u64, 30u64, 31u64)), le8(32u64, 33u64, 34u64, 35u64, 36u64, 37u64, 38u64, 39u64)), le8(40u64, 41u64, 42u64, 43u64, 44u64, 45u64, 46u64, 47u64)), le8(48u64, 49u64, 50u64, 51u64, 52u64, 53u64, 54u64, 55u64)), (((60u64 & 0xff) << 56u64) | le4(56u64, 57u64, 58u64, 59u64))) == 0x6ca4ecb15c5f91e1u64,
        sip_finish(sip_compress(sip_compress(sip_compress(sip_compress(sip_compress(sip_compress(sip_compress(sip_init(le8(0u64, 1u64, 2u64, 3u64, 4u64, 5u64, 6u64, 7u64), le8(8u64, 9u64, 10u64, 11u64, 12u64, 13u64, 14u64, 15u64)), le8(0u64, 1u64, 2u64, 3u64, 4u64, 5u64, 6u64, 7u64)), le8(8u64, 9u64, 10u64, 11u64, 12u64, 13u64, 14u64, 15u64)), le8(16u64, 17u64, 18u64, 19u64, 20u64, 21u64, 22u64, 23u64)), le8(24u64, 25u64, 26u64, 27u64, 28u64, 29u64, 30u64, 31u64)), le8(32u64, 33u64, 34u64, 35u64, 36u64, 37u64, 38u64, 39u64)), le8(40u64, 41u64, 42u64, 43u64, 44u64, 45u64, 46u64, 47u64)), le8(48u64, 49u64, 50u64, 51u64, 52u64, 53u64, 54u64, 55u64)), (((61u64 & 0xff) << 56u64) | le5(56u64, 57u64, 58u64, 59u64, 60u64))) == 0x9f626da15c9625f3u64,
        sip_finish(sip_compress(sip_compress(sip_compress(sip_compress(sip_compress(sip_compress(sip_compress(sip_init(le8(0u64, 1u64, 2u64, 3u64, 4u64, 5u64, 6u64, 7u64), le8(8u64, 9u64, 10u64, 11u64, 12u64, 13u64, 14u64, 15u64)), le8(0u64, 1u64, 2u64, 3u64, 4u64, 5u64, 6u64, 7u64)), le8(8u64, 9u64, 10u64, 11u64, 12u64, 13u64, 14u64, 15u64)), le8(16u64, 17u64, 18u64, 19u64, 20u64, 21u64, 22u64, 23u64)), le8(24u64, 25u64, 26u64, 27u64, 28u64, 29u64, 30u64, 31u64)), le8(32u64, 33u64, 34u64, 35u64, 36u64, 37u64, 38u64, 39u64)), le8(40u64, 41u64, 42u64, 43u64, 44u64, 45u64, 46u64, 47u64)), le8(48u64, 49u64, 50u64, 51u64, 52u64, 53u64, 54u64, 55u64)), (((62u64 & 0xff) << 56u64) | le6(56u64, 57u64, 58u64, 59u64, 60u64, 61u64))) == 0xe51b38608ef25f57u64,
        sip_finish(sip_compress(sip_compress(sip_compress(sip_compress(sip_compress(sip_compress(sip_compress(sip_init(le8(0u64, 1u64, 2u64, 3u64, 4u64, 5u64, 6u64, 7u64), le8(8u64, 9u64, 10u64, 11u64, 12u64, 13u64, 14u64, 15u64)), le8(0u64, 1u64, 2u64, 3u64, 4u64, 5u64, 6u64, 7u64)), le8(8u64, 9u64, 10u64, 11u64, 12u64, 13u64, 14u64, 15u64)), le8(16u64, 17u64, 18u64, 19u64, 20u64, 21u64, 22u64, 23u64)), le8(24u64, 25u64, 26u64, 27u64, 28u64, 29u64, 30u64, 31u64)), le8(32u64, 33u64, 34u64, 35u64, 36u64, 37u64, 38u64, 39u64)), le8(40u64, 41u64, 42u64, 43u64, 44u64, 45u64, 46u64, 47u64)), le8(48u64, 49u64, 50u64, 51u64, 52u64, 53u64, 54u64, 55u64)), (((63u64 & 0xff) << 56u64) | le7(56u64, 57u64, 58u64, 59u64, 60u64, 61u64, 62u64))) == 0x958a324ceb064572u64,
{
}

proof fn lemma_vector_0()
    ensures
        spec_siphash24(reference_key(), reference_message(0)) == 0x726fdb47dd0e0e31u64,
{
    let key = reference_key();
    let msg = reference_message(0);
    reveal_with_fuel(sip_blocks, 1);
    lemma_le8(key, 0);
    lemma_le8(key, 8);
    lemma_le0(msg, 0);
    lemma_vector_words_0();
}

proof fn lemma_vector_1()
    ensures
        spec_siphash24(reference_key(), reference_message(1)) == 0x74f839c593dc67fdu64,
{
    let key = reference_key();
    let msg = reference_message(1);
    reveal_with_fuel(sip_blocks, 1);
    lemma_le8(key, 0);
    lemma_le8(key, 8);
    lemma_le1(msg, 0);
    lemma_vector_words_0();
}

proof fn lemma_vector_2()
    ensures
        spec_siphash24(reference_key(), reference_message(2)) == 0x0d6c8009d9a94f5au64,
{
    let key = reference_key();
    let msg = reference_message(2);
    reveal_with_fuel(sip_blocks, 1);
    lemma_le8(key, 0);
    lemma_le8(key, 8);
    lemma_le2(msg, 0);
    lemma_vector_words_0();
}

proof fn lemma_vector_3()
    ensures
        spec_siphash24(reference_key(), reference_message(3)) == 0x85676696d7fb7e2du64,
{
    let key = reference_key();
    let msg = reference_message(3);
    reveal_with_fuel(sip_blocks, 1);
    lemma_le8(key, 0);
    lemma_le8(key, 8);
    lemma_le3(msg, 0);
    lemma_vector_words_0();
}

proof fn lemma_vector_4()
    ensures
        spec_siphash24(reference_key(), reference_message(4)) == 0xcf2794e0277187b7u64,
{
    let key = reference_key();
    let msg = reference_message(4);
    reveal_with_fuel(sip_blocks, 1);
    lemma_le8(key, 0);
    lemma_le8(key, 8);
    lemma_le4(msg, 0);
    lemma_vector_words_0();
}

proof fn lemma_vector_5()
    ensures
        spec_siphash24(reference_key(), reference_message(5)) == 0x18765564cd99a68du64,
{
    let key = reference_key();
    let msg = reference_message(5);
    reveal_with_fuel(sip_blocks, 1);
    lemma_le8(key, 0);
    lemma_le8(key, 8);
    lemma_le5(msg, 0);
    lemma_vector_words_0();
}

proof fn lemma_vector_6()
    ensures
        spec_siphash24(reference_key(), reference_message(6)) == 0xcbc9466e58fee3ceu64,
{
    let key = reference_key();
    let msg = reference_message(6);
    reveal_with_fuel(sip_blocks, 1);
    lemma_le8(key, 0);
    lemma_le8(key, 8);
    lemma_le6(msg, 0);
    lemma_vector_words_0();
}

proof fn lemma_vector_7()
    ensures
        spec_siphash24(reference_key(), reference_message(7)) == 0xab0200f58b01d137u64,
{
    let key = reference_key();
    let msg = reference_message(7);
    reveal_with_fuel(sip_blocks, 1);
    lemma_le8(key, 0);
    lemma_le8(key, 8);
    lemma_le7(msg, 0);
    lemma_vector_words_0();
}

proof fn lemma_vector_8()
    ensures
        spec_siphash24(reference_key(), reference_message(8)) == 0x93f5f5799a932462u64,
{
    let key = reference_key();
    let msg = reference_message(8);
    reveal_with_fuel(sip_blocks, 2);
    lemma_le8(key, 0);
    lemma_le8(key, 8);
    lemma_le8(msg, 0);
    lemma_le0(msg, 8);
    lemma_vector_words_1();
}

proof fn lemma_vector_9()
    ensures
        spec_siphash24(reference_key(), reference_message(9)) == 0x9e0082df0ba9e4b0u64,
{
    let key = reference_key();
    let msg = reference_message(9);
    reveal_with_fuel(sip_blocks, 2);
    lemma_le8(key, 0);
    lemma_le8(key, 8);
    lemma_le8(msg, 0);
    lemma_le1(msg, 8);
    lemma_vector_words_1();
}

proof fn lemma_vector_10()
    ensures
        spec_siphash24(reference_key(), reference_message(10)) == 0x7a5dbbc594ddb9f3u64,
{
    let key = reference_key();
    let msg = reference_message(10);
    reveal_with_fuel(sip_blocks, 2);
    lemma_le8(key, 0);
    lemma_le8(key, 8);
    lemma_le8(msg, 0);
    lemma_le2(msg, 8);
    lemma_vector_words_1();
}

proof fn lemma_vector_11()
    ensures
        spec_siphash24(reference_key(), reference_message(11)) == 0xf4b32f46226bada7u64,
{
    let key = reference_key();
    let msg = reference_message(11);
    reveal_with_fuel(sip_blocks, 2);
    lemma_le8(key, 0);
    lemma_le8(key, 8);
    lemma_le8(msg, 0);
    lemma_le3(msg, 8);
    lemma_vector_words_1();
}

proof fn lemma_vector_12()
    ensures
        spec_siphash24(reference_key(), reference_message(12)) == 0x751e8fbc860ee5fbu64,
{
    let key = reference_key();
    let msg = reference_message(12);
    reveal_with_fuel(sip_blocks, 2);
    lemma_le8(key, 0);
    lemma_le8(key, 8);
    lemma_le8(msg, 0);
    lemma_le4(msg, 8);
    lemma_vector_words_1();
}

proof fn lemma_vector_13()
    ensures
        spec_siphash24(reference_key(), reference_message(13)) == 0x14ea5627c0843d90u64,
{
    let key = reference_key();
    let msg = reference_message(13);
    reveal_with_fuel(sip_blocks, 2);
    lemma_le8(key, 0);
    lemma_le8(key, 8);
    lemma_le8(msg, 0);
    lemma_le5(msg, 8);
    lemma_vector_words_1();
}

proof fn lemma_vector_14()
    ensures
        spec_siphash24(reference_key(), reference_message(14)) == 0xf723ca908e7af2eeu64,
{
    let key = reference_key();
    let msg = reference_message(14);
    reveal_with_fuel(sip_blocks, 2);
    lemma_le8(key, 0);
    lemma_le8(key, 8);
    lemma_le8(msg, 0);
    lemma_le6(msg, 8);
    lemma_vector_words_1();
}

proof fn lemma_vector_15()
    ensures
        spec_siphash24(reference_key(), reference_message(15)) == 0xa129ca6149be45e5u64,
{
    let key = reference_key();
    let msg = reference_message(15);
    reveal_with_fuel(sip_blocks, 2);
    lemma_le8(key, 0);
    lemma_le8(key, 8);
    lemma_le8(msg, 0);
    lemma_le7(msg, 8);
    lemma_vector_words_1();
}

proof fn lemma_vector_16()
    ensures
        spec_siphash24(reference_key(), reference_message(16)) == 0x3f2acc7f57c29bdbu64,
{
    let key = reference_key();
    let msg = reference_message(16);
    reveal_with_fuel(sip_blocks, 3);
    lemma_le8(key, 0);
    lemma_le8(key, 8);
    lemma_le8(msg, 0);
    lemma_le8(msg, 8);
    lemma_le0(msg, 16);
    lemma_vector_words_2();
}

proof fn lemma_vector_17()
    ensures
        spec_siphash24(reference_key(), reference_message(17)) == 0x699ae9f52cbe4794u64,
{
    let key = reference_key();
    let msg = reference_message(17);
    reveal_with_fuel(sip_blocks, 3);
    lemma_le8(key, 0);
    lemma_le8(key, 8);
    lemma_le8(msg, 0);
    lemma_le8(msg, 8);
    lemma_le1(msg, 16);
    lemma_vector_words_2();
}

proof fn lemma_vector_18()
    ensures
        spec_siphash24(reference_key(), reference_message(18)) == 0x4bc1b3f0968dd39cu64,
{
    let key = reference_key();
    let msg = reference_message(18);
    reveal_with_fuel(sip_blocks, 3);
    lemma_le8(key, 0);
    lemma_le8(key, 8);
    lemma_le8(msg, 0);
    lemma_le8(msg, 8);
    lemma_le2(msg, 16);
    lemma_vector_words_2();
}

proof fn lemma_vector_19()
    ensures
        spec_siphash24(reference_key(), reference_message(19)) == 0xbb6dc91da77961bdu64,
{
    let key = reference_key();
    let msg = reference_message(19);
    reveal_with_fuel(sip_blocks, 3);
    lemma_le8(key, 0);
    lemma_le8(key, 8);
    lemma_le8(msg, 0);
    lemma_le8(msg, 8);
    lemma_le3(msg, 16);
    lemma_vector_words_2();
}

proof fn lemma_vector_20()
    ensures
        spec_siphash24(reference_key(), reference_message(20)) == 0xbed65cf21aa2ee98u64,
{
    let key = reference_key();
    let msg = reference_message(20);
    reveal_with_fuel(sip_blocks, 3);
    lemma_le8(key, 0);
    lemma_le8(key, 8);
    lemma_le8(msg, 0);
    lemma_le8(msg, 8);
    lemma_le4(msg, 16);
    lemma_vector_words_2();
}

proof fn lemma_vector_21()
    ensures
        spec_siphash24(reference_key(), reference_message(21)) == 0xd0f2cbb02e3b67c7u64,
{
    let key = reference_key();
    let msg = reference_message(21);
    reveal_with_fuel(sip_blocks, 3);
    lemma_le8(key, 0);
    lemma_le8(key, 8);
    lemma_le8(msg, 0);
    lemma_le8(msg, 8);
    lemma_le5(msg, 16);
    lemma_vector_words_2();
}

proof fn lemma_vector_22()
    ensures
        spec_siphash24(reference_key(), reference_message(22)) == 0x93536795e3a33e88u64,
{
    let key = reference_key();
    let msg = reference_message(22);
    reveal_with_fuel(sip_blocks, 3);
    lemma_le8(key, 0);
    lemma_le8(key, 8);
    lemma_le8(msg, 0);
    lemma_le8(msg, 8);
    lemma_le6(msg, 16);
    lemma_vector_words_2();
}

proof fn lemma_vector_23()
    ensures
        spec_siphash24(reference_key(), reference_message(23)) == 0xa80c038ccd5ccec8u64,
{
    let key = reference_key();
    let msg = reference_message(23);
    reveal_with_fuel(sip_blocks, 3);
    lemma_le8(key, 0);
    lemma_le8(key, 8);
    lemma_le8(msg, 0);
    lemma_le8(msg, 8);
    lemma_le7(msg, 16);
    lemma_vector_words_2();
}

proof fn lemma_vector_24()
    ensures
        spec_siphash24(reference_key(), reference_message(24)) == 0xb8ad50c6f649af94u64,
{
    let key = reference_key();
    let msg = reference_message(24);
    reveal_with_fuel(sip_blocks, 4);
    lemma_le8(key, 0);
    lemma_le8(key, 8);
    lemma_le8(msg, 0);
    lemma_le8(msg, 8);
    lemma_le8(msg, 16);
    lemma_le0(msg, 24);
    lemma_vector_words_3();
}

proof fn lemma_vector_25()
    ensures
        spec_siphash24(reference_key(), reference_message(25)) == 0xbce192de8a85b8eau64,
{
    let key = reference_key();
    let msg = reference_message(25);
    reveal_with_fuel(sip_blocks, 4);
    lemma_le8(key, 0);
    lemma_le8(key, 8);
    lemma_le8(msg, 0);
    lemma_le8(msg, 8);
    lemma_le8(msg, 16);
    lemma_le1(msg, 24);
    lemma_vector_words_3();
}

proof fn lemma_vector_26()
    ensures
        spec_siphash24(reference_key(), reference_message(26)) == 0x17d835b85bbb15f3u64,
{
    let key = reference_key();
    let msg = reference_message(26);
    reveal_with_fuel(sip_blocks, 4);
    lemma_le8(key, 0);
    lemma_le8(key, 8);
    lemma_le8(msg, 0);
    lemma_le8(msg, 8);
    lemma_le8(msg, 16);
    lemma_le2(msg, 24);
    lemma_vector_words_3();
}

proof fn lemma_vector_27()
    ensures
        spec_siphash24(reference_key(), reference_message(27)) == 0x2f2e6163076bcfadu64,
{
    let key = reference_key();
    let msg = reference_message(27);
    reveal_with_fuel(sip_blocks, 4);
    lemma_le8(key, 0);
    lemma_le8(key, 8);
    lemma_le8(msg, 0);
    lemma_le8(msg, 8);
    lemma_le8(msg, 16);
    lemma_le3(msg, 24);
    lemma_vector_words_3();
}

proof fn lemma_vector_28()
    ensures
        spec_siphash24(reference_key(), reference_message(28)) == 0xde4daaaca71dc9a5u64,
{
    let key = reference_key();
    let msg = reference_message(28);
    reveal_with_fuel(sip_blocks, 4);
    lemma_le8(key, 0);
    lemma_le8(key, 8);
    lemma_le8(msg, 0);
    lemma_le8(msg, 8);
    lemma_le8(msg, 16);
    lemma_le4(msg, 24);
    lemma_vector_words_3();
}

proof fn lemma_vector_29()
    ensures
        spec_siphash24(reference_key(), reference_message(29)) == 0xa6a2506687956571u64,
{
    let key = reference_key();
    let msg = reference_message(29);
    reveal_with_fuel(sip_blocks, 4);
    lemma_le8(key, 0);
    lemma_le8(key, 8);
    lemma_le8(msg, 0);
    lemma_le8(msg, 8);
    lemma_le8(msg, 16);
    lemma_le5(msg, 24);
    lemma_vector_words_3();
}

proof fn lemma_vector_30()
    ensures
        spec_siphash24(reference_key(), reference_message(30)) == 0xad87a3535c49ef28u64,
{
    let key = reference_key();
    let msg = reference_message(30);
    reveal_with_fuel(sip_blocks, 4);
    lemma_le8(key, 0);
    lemma_le8(key, 8);
    lemma_le8(msg, 0);
    lemma_le8(msg, 8);
    lemma_le8(msg, 16);
    lemma_le6(msg, 24);
    lemma_vector_words_3();
}

proof fn lemma_vector_31()
    ensures
        spec_siphash24(reference_key(), reference_message(31)) == 0x32d892fad841c342u64,
{
    let key = reference_key();
    let msg = reference_message(31);
    reveal_with_fuel(sip_blocks, 4);
    lemma_le8(key, 0);
    lemma_le8(key, 8);
    lemma_le8(msg, 0);
    lemma_le8(msg, 8);
    lemma_le8(msg, 16);
    lemma_le7(msg, 24);
    lemma_vector_words_3();
}

proof fn lemma_vector_32()
    ensures
        spec_siphash24(reference_key(), reference_message(32)) == 0x7127512f72f27cceu64,
{
    let key = reference_key();
    let msg = reference_message(32);
    reveal_with_fuel(sip_blocks, 5);
    lemma_le8(key, 0);
    lemma_le8(key, 8);
    lemma_le8(msg, 0);
    lemma_le8(msg, 8);
    lemma_le8(msg, 16);
    lemma_le8(msg, 24);
    lemma_le0(msg, 32);
    lemma_vector_words_4();
}

proof fn lemma_vector_33()
    ensures
        spec_siphash24(reference_key(), reference_message(33)) == 0xa7f32346f95978e3u64,
{
    let key = reference_key();
    let msg = reference_message(33);
    reveal_with_fuel(sip_blocks, 5);
    lemma_le8(key, 0);
    lemma_le8(key, 8);
    lemma_le8(msg, 0);
    lemma_le8(msg, 8);
    lemma_le8(msg, 16);
    lemma_le8(msg, 24);
    lemma_le1(msg, 32);
    lemma_vector_words_4();
}

proof fn lemma_vector_34()
    ensures
        spec_siphash24(reference_key(), reference_message(34)) == 0x12e0b01abb051238u64,
{
    let key = reference_key();
    let msg = reference_message(34);
    reveal_with_fuel(sip_blocks, 5);
    lemma_le8(key, 0);
    lemma_le8(key, 8);
    lemma_le8(msg, 0);
    lemma_le8(msg, 8);
    lemma_le8(msg, 16);
    lemma_le8(msg, 24);
    lemma_le2(msg, 32);
    lemma_vector_words_4();
}

proof fn lemma_vector_35()
    ensures
        spec_siphash24(reference_key(), reference_message(35)) == 0x15e034d40fa197aeu64,
{
    let key = reference_key();
    let msg = reference_message(35);
    reveal_with_fuel(sip_blocks, 5);
    lemma_le8(key, 0);
    lemma_le8(key, 8);
    lemma_le8(msg, 0);
    lemma_le8(msg, 8);
    lemma_le8(msg, 16);
    lemma_le8(msg, 24);
    lemma_le3(msg, 32);
    lemma_vector_words_4();
}

proof fn lemma_vector_36()
    ensures
        spec_siphash24(reference_key(), reference_message(36)) == 0x314dffbe0815a3b4u64,
{
    let key = reference_key();
    let msg = reference_message(36);
    reveal_with_fuel(sip_blocks, 5);
    lemma_le8(key, 0);
    lemma_le8(key, 8);
    lemma_le8(msg, 0);
    lemma_le8(msg, 8);
    lemma_le8(msg, 16);
    lemma_le8(msg, 24);
    lemma_le4(msg, 32);
    lemma_vector_words_4();
}

proof fn lemma_vector_37()
    ensures
        spec_siphash24(reference_key(), reference_message(37)) == 0x027990f029623981u64,
{
    let key = reference_key();
    let msg = reference_message(37);
    reveal_with_fuel(sip_blocks, 5);
    lemma_le8(key, 0);
    lemma_le8(key, 8);
    lemma_le8(msg, 0);
    lemma_le8(msg, 8);
    lemma_le8(msg, 16);
    lemma_le8(msg, 24);
    lemma_le5(msg, 32);
    lemma_vector_words_4();
}

proof fn lemma_vector_38()
    ensures
        spec_siphash24(reference_key(), reference_message(38)) == 0xcadcd4e59ef40c4du64,
{
    let key = reference_key();
    let msg = reference_message(38);
    reveal_with_fuel(sip_blocks, 5);
    lemma_le8(key, 0);
    lemma_le8(key, 8);
    lemma_le8(msg, 0);
    lemma_le8(msg, 8);
    lemma_le8(msg, 16);
    lemma_le8(msg, 24);
    lemma_le6(msg, 32);
    lemma_vector_words_4();
}

proof fn lemma_vector_39()
    ensures
        spec_siphash24(reference_key(), reference_message(39)) == 0x9abfd8766a33735cu64,
{
    let key = reference_key();
    let msg = reference_message(39);
    reveal_with_fuel(sip_blocks, 5);
    lemma_le8(key, 0);
    lemma_le8(key, 8);
    lemma_le8(msg, 0);
    lemma_le8(msg, 8);
    lemma_le8(msg, 16);
    lemma_le8(msg, 24);
    lemma_le7(msg, 32);
    lemma_vector_words_4();
}

proof fn lemma_vector_40()
    ensures
        spec_siphash24(reference_key(), reference_message(40)) == 0x0e3ea96b5304a7d0u64,
{
    let key = reference_key();
    let msg = reference_message(40);
    reveal_with_fuel(sip_blocks, 6);
    lemma_le8(key, 0);
    lemma_le8(key, 8);
    lemma_le8(msg, 0);
    lemma_le8(msg, 8);
    lemma_le8(msg, 16);
    lemma_le8(msg, 24);
    lemma_le8(msg, 32);
    lemma_le0(msg, 40);
    lemma_vector_words_5();
}

proof fn lemma_vector_41()
    ensures
        spec_siphash24(reference_key(), reference_message(41)) == 0xad0c42d6fc585992u64,
{
    let key = reference_key();
    let msg = reference_message(41);
    reveal_with_fuel(sip_blocks, 6);
    lemma_le8(key, 0);
    lemma_le8(key, 8);
    lemma_le8(msg, 0);
    lemma_le8(msg, 8);
    lemma_le8(msg, 16);
    lemma_le8(msg, 24);
    lemma_le8(msg, 32);
    lemma_le1(msg, 40);
    lemma_vector_words_5();
}

proof fn lemma_vector_42()
    ensures
        spec_siphash24(reference_key(), reference_message(42)) == 0x187306c89bc215a9u64,
{
    let key = reference_key();
    let msg = reference_message(42);
    reveal_with_fuel(sip_blocks, 6);
    lemma_le8(key, 0);
    lemma_le8(key, 8);
    lemma_le8(msg, 0);
    lemma_le8(msg, 8);
    lemma_le8(msg, 16);
    lemma_le8(msg, 24);
    lemma_le8(msg, 32);
    lemma_le2(msg, 40);
    lemma_vector_words_5();
}

proof fn lemma_vector_43()
    ensures
        spec_siphash24(reference_key(), reference_message(43)) == 0xd4a60abcf3792b95u64,
{
    let key = reference_key();
    let msg = reference_message(43);
    reveal_with_fuel(sip_blocks, 6);
    lemma_le8(key, 0);
    lemma_le8(key, 8);
    lemma_le8(msg, 0);
    lemma_le8(msg, 8);
    lemma_le8(msg, 16);
    lemma_le8(msg, 24);
    lemma_le8(msg, 32);
    lemma_le3(msg, 40);
    lemma_vector_words_5();
}

proof fn lemma_vector_44()
    ensures
        spec_siphash24(reference_key(), reference_message(44)) == 0xf935451de4f21df2u64,
{
    let key = reference_key();
    let msg = reference_message(44);
    reveal_with_fuel(sip_blocks, 6);
    lemma_le8(key, 0);
    lemma_le8(key, 8);
    lemma_le8(msg, 0);
    lemma_le8(msg, 8);
    lemma_le8(msg, 16);
    lemma_le8(msg, 24);
    lemma_le8(msg, 32);
    lemma_le4(msg, 40);
    lemma_vector_words_5();
}

proof fn lemma_vector_45()
    ensures
        spec_siphash24(reference_key(), reference_message(45)) == 0xa9538f0419755787u64,
{
    let key = reference_key();
    let msg = reference_message(45);
    reveal_with_fuel(sip_blocks, 6);
    lemma_le8(key, 0);
    lemma_le8(key, 8);
    lemma_le8(msg, 0);
    lemma_le8(msg, 8);
    lemma_le8(msg, 16);
    lemma_le8(msg, 24);
    lemma_le8(msg, 32);
    lemma_le5(msg, 40);
    lemma_vector_words_5();
}

proof fn lemma_vector_46()
    ensures
        spec_siphash24(reference_key(), reference_message(46)) == 0xdb9acddff56ca510u64,
{
    let key = reference_key();
    let msg = reference_message(46);
    reveal_with_fuel(sip_blocks, 6);
    lemma_le8(key, 0);
    lemma_le8(key, 8);
    lemma_le8(msg, 0);
    lemma_le8(msg, 8);
    lemma_le8(msg, 16);
    lemma_le8(msg, 24);
    lemma_le8(msg, 32);
    lemma_le6(msg, 40);
    lemma_vector_words_5();
}

proof fn lemma_vector_47()
    ensures
        spec_siphash24(reference_key(), reference_message(47)) == 0xd06c98cd5c0975ebu64,
{
    let key = reference_key();
    let msg = reference_message(47);
    reveal_with_fuel(sip_blocks, 6);
    lemma_le8(key, 0);
    lemma_le8(key, 8);
    lemma_le8(msg, 0);
    lemma_le8(msg, 8);
    lemma_le8(msg, 16);
    lemma_le8(msg, 24);
    lemma_le8(msg, 32);
    lemma_le7(msg, 40);
    lemma_vector_words_5();
}

proof fn lemma_vector_48()
    ensures
        spec_siphash24(reference_key(), reference_message(48)) == 0xe612a3cb9ecba951u64,
{
    let key = reference_key();
    let msg = reference_message(48);
    reveal_with_fuel(sip_blocks, 7);
    lemma_le8(key, 0);
    lemma_le8(key, 8);
    lemma_le8(msg, 0);
    lemma_le8(msg, 8);
    lemma_le8(msg, 16);
    lemma_le8(msg, 24);
    lemma_le8(msg, 32);
    lemma_le8(msg, 40);
    lemma_le0(msg, 48);
    lemma_vector_words_6();
}

proof fn lemma_vector_49()
    ensures
        spec_siphash24(reference_key(), reference_message(49)) == 0xc766e62cfcadaf96u64,
{
    let key = reference_key();
    let msg = reference_message(49);
    reveal_with_fuel(sip_blocks, 7);
    lemma_le8(key, 0);
    lemma_le8(key, 8);
    lemma_le8(msg, 0);
    lemma_le8(msg, 8);
    lemma_le8(msg, 16);
    lemma_le8(msg, 24);
    lemma_le8(msg, 32);
    lemma_le8(msg, 40);
    lemma_le1(msg, 48);
    lemma_vector_words_6();
}

proof fn lemma_vector_50()
    ensures
        spec_siphash24(reference_key(), reference_message(50)) == 0xee64435a9752fe72u64,
{
    let key = reference_key();
    let msg = reference_message(50);
    reveal_with_fuel(sip_blocks, 7);
    lemma_le8(key, 0);
    lemma_le8(key, 8);
    lemma_le8(msg, 0);
    lemma_le8(msg, 8);
    lemma_le8(msg, 16);
    lemma_le8(msg, 24);
    lemma_le8(msg, 32);
    lemma_le8(msg, 40);
    lemma_le2(msg, 48);
    lemma_vector_words_6();
}

proof fn lemma_vector_51()
    ensures
        spec_siphash24(reference_key(), reference_message(51)) == 0xa192d576b245165au64,
{
    let key = reference_key();
    let msg = reference_message(51);
    reveal_with_fuel(sip_blocks, 7);
    lemma_le8(key, 0);
    lemma_le8(key, 8);
    lemma_le8(msg, 0);
    lemma_le8(msg, 8);
    lemma_le8(msg, 16);
    lemma_le8(msg, 24);
    lemma_le8(msg, 32);
    lemma_le8(msg, 40);
    lemma_le3(msg, 48);
    lemma_vector_words_6();
}

proof fn lemma_vector_52()
    ensures
        spec_siphash24(reference_key(), reference_message(52)) == 0x0a8787bf8ecb74b2u64,
{
    let key = reference_key();
    let msg = reference_message(52);
    reveal_with_fuel(sip_blocks, 7);
    lemma_le8(key, 0);
    lemma_le8(key, 8);
    lemma_le8(msg, 0);
    lemma_le8(msg, 8);
    lemma_le8(msg, 16);
    lemma_le8(msg, 24);
    lemma_le8(msg, 32);
    lemma_le8(msg, 40);
    lemma_le4(msg, 48);
    lemma_vector_words_6();
}

proof fn lemma_vector_53()
    ensures
        spec_siphash24(reference_key(), reference_message(53)) == 0x81b3e73d20b49b6fu64,
{
    let key = reference_key();
    let msg = reference_message(53);
    reveal_with_fuel(sip_blocks, 7);
    lemma_le8(key, 0);
    lemma_le8(key, 8);
    lemma_le8(msg, 0);
    lemma_le8(msg, 8);
    lemma_le8(msg, 16);
    lemma_le8(msg, 24);
    lemma_le8(msg, 32);
    lemma_le8(msg, 40);
    lemma_le5(msg, 48);
    lemma_vector_words_6();
}

proof fn lemma_vector_54()
    ensures
        spec_siphash24(reference_key(), reference_message(54)) == 0x7fa8220ba3b2eceau64,
{
    let key = reference_key();
    let msg = reference_message(54);
    reveal_with_fuel(sip_blocks, 7);
    lemma_le8(key, 0);
    lemma_le8(key, 8);
    lemma_le8(msg, 0);
    lemma_le8(msg, 8);
    lemma_le8(msg, 16);
    lemma_le8(msg, 24);
    lemma_le8(msg, 32);
    lemma_le8(msg, 40);
    lemma_le6(msg, 48);
    lemma_vector_words_6();
}

proof fn lemma_vector_55()
    ensures
        spec_siphash24(reference_key(), reference_message(55)) == 0x245731c13ca42499u64,
{
    let key = reference_key();
    let msg = reference_message(55);
    reveal_with_fuel(sip_blocks, 7);
    lemma_le8(key, 0);
    lemma_le8(key, 8);
    lemma_le8(msg, 0);
    lemma_le8(msg, 8);
    lemma_le8(msg, 16);
    lemma_le8(msg, 24);
    lemma_le8(msg, 32);
    lemma_le8(msg, 40);
    lemma_le7(msg, 48);
    lemma_vector_words_6();
}

proof fn lemma_vector_56()
    ensures
        spec_siphash24(reference_key(), reference_message(56)) == 0xb78dbfaf3a8d83bdu64,
{
    let key = reference_key();
    let msg = reference_message(56);
    reveal_with_fuel(sip_blocks, 8);
    lemma_le8(key, 0);
    lemma_le8(key, 8);
    lemma_le8(msg, 0);
    lemma_le8(msg, 8);
    lemma_le8(msg, 16);
    lemma_le8(msg, 24);
    lemma_le8(msg, 32);
    lemma_le8(msg, 40);
    lemma_le8(msg, 48);
    lemma_le0(msg, 56);
    lemma_vector_words_7();
}

proof fn lemma_vector_57()
    ensures
        spec_siphash24(reference_key(), reference_message(57)) == 0xea1ad565322a1a0bu64,
{
    let key = reference_key();
    let msg = reference_message(57);
    reveal_with_fuel(sip_blocks, 8);
    lemma_le8(key, 0);
    lemma_le8(key, 8);
    lemma_le8(msg, 0);
    lemma_le8(msg, 8);
    lemma_le8(msg, 16);
    lemma_le8(msg, 24);
    lemma_le8(msg, 32);
    lemma_le8(msg, 40);
    lemma_le8(msg, 48);
    lemma_le1(msg, 56);
    lemma_vector_words_7();
}

proof fn lemma_vector_58()
    ensures
        spec_siphash24(reference_key(), reference_message(58)) == 0x60e61c23a3795013u64,
{
    let key = reference_key();
    let msg = reference_message(58);
    reveal_with_fuel(sip_blocks, 8);
    lemma_le8(key, 0);
    lemma_le8(key, 8);
    lemma_le8(msg, 0);
    lemma_le8(msg, 8);
    lemma_le8(msg, 16);
    lemma_le8(msg, 24);
    lemma_le8(msg, 32);
    lemma_le8(msg, 40);
    lemma_le8(msg, 48);
    lemma_le2(msg, 56);
    lemma_vector_words_7();
}

proof fn lemma_vector_59()
    ensures
        spec_siphash24(reference_key(), reference_message(59)) == 0x6606d7e446282b93u64,
{
    let key = reference_key();
    let msg = reference_message(59);
    reveal_with_fuel(sip_blocks, 8);
    lemma_le8(key, 0);
    lemma_le8(key, 8);
    lemma_le8(msg, 0);
    lemma_le8(msg, 8);
    lemma_le8(msg, 16);
    lemma_le8(msg, 24);
    lemma_le8(msg, 32);
    lemma_le8(msg, 40);
    lemma_le8(msg, 48);
    lemma_le3(msg, 56);
    lemma_vector_words_7();
}

proof fn lemma_vector_60()
    ensures
        spec_siphash24(reference_key(), reference_message(60)) == 0x6ca4ecb15c5f91e1u64,
{
    let key = reference_key();
    let msg = reference_message(60);
    reveal_with_fuel(sip_blocks, 8);
    lemma_le8(key, 0);
    lemma_le8(key, 8);
    lemma_le8(msg, 0);
    lemma_le8(msg, 8);
    lemma_le8(msg, 16);
    lemma_le8(msg, 24);
    lemma_le8(msg, 32);
    lemma_le8(msg, 40);
    lemma_le8(msg, 48);
    lemma_le4(msg, 56);
    lemma_vector_words_7();
}

proof fn lemma_vector_61()
    ensures
        spec_siphash24(reference_key(), reference_message(61)) == 0x9f626da15c9625f3u64,
{
    let key = reference_key();
    let msg = reference_message(61);
    reveal_with_fuel(sip_blocks, 8);
    lemma_le8(key, 0);
    lemma_le8(key, 8);
    lemma_le8(msg, 0);
    lemma_le8(msg, 8);
    lemma_le8(msg, 16);
    lemma_le8(msg, 24);
    lemma_le8(msg, 32);
    lemma_le8(msg, 40);
    lemma_le8(msg, 48);
    lemma_le5(msg, 56);
    lemma_vector_words_7();
}

proof fn lemma_vector_62()
    ensures
        spec_siphash24(reference_key(), reference_message(62)) == 0xe51b38608ef25f57u64,
{
    let key = reference_key();
    let msg = reference_message(62);
    reveal_with_fuel(sip_blocks, 8);
    lemma_le8(key, 0);
    lemma_le8(key, 8);
    lemma_le8(msg, 0);
    lemma_le8(msg, 8);
    lemma_le8(msg, 16);
    lemma_le8(msg, 24);
    lemma_le8(msg, 32);
    lemma_le8(msg, 40);
    lemma_le8(msg, 48);
    lemma_le6(msg, 56);
    lemma_vector_words_7();
}

proof fn lemma_vector_63()
    ensures
        spec_siphash24(reference_key(), reference_message(63)) == 0x958a324ceb064572u64,
{
    let key = reference_key();
    let msg = reference_message(63);
    reveal_with_fuel(sip_blocks, 8);
    lemma_le8(key, 0);
    lemma_le8(key, 8);
    lemma_le8(msg, 0);
    lemma_le8(msg, 8);
    lemma_le8(msg, 16);
    lemma_le8(msg, 24);
    lemma_le8(msg, 32);
    lemma_le8(msg, 40);
    lemma_le8(msg, 48);
    lemma_le7(msg, 56);
    lemma_vector_words_7();
}

/// SipHash-2-4 as specified here is SipHash-2-4: under the reference key
/// (bytes 0..15), the hash of the message of bytes 0, 1, .., n - 1 is the
/// published test vector, for every length from 0 to 63 (messages with no
/// full block, with one to seven full blocks, and tails of every length).
pub proof fn lemma_siphash_reference_vectors(n: nat)
    requires
        n < 64,
    ensures
        spec_siphash24(reference_key(), reference_message(n)) == SIPHASH_VECTORS[n as int],
{
    if n == 0 {
        lemma_vector_0();
    } else if n == 1 {
        lemma_vector_1();
    } else if n == 2 {
        lemma_vector_2();
    } else if n == 3 {
        lemma_vector_3();
    } else if n == 4 {
        lemma_vector_4();
    } else if n == 5 {
        lemma_vector_5();
    } else if n == 6 {
        lemma_vector_6();
    } else if n == 7 {
        lemma_vector_7();
    } else if n == 8 {
        lemma_vector_8();
    } else if n == 9 {
        lemma_vector_9();
    } else if n == 10 {
        lemma_vector_10();
    } else if n == 11 {
        lemma_vector_11();
    } else if n == 12 {
        lemma_vector_12();
    } else if n == 13 {
        lemma_vector_13();
    } else if n == 14 {
        lemma_vector_14();
    } else if n == 15 {
        lemma_vector_15();
    } else if n == 16 {
        lemma_vector_16();
    } else if n == 17 {
        lemma_vector_17();
    } else if n == 18 {
        lemma_vector_18();
    } else if n == 19 {
        lemma_vector_19();
    } else if n == 20 {
        lemma_vector_20();
    } else if n == 21 {
        lemma_vector_21();
    } else if n == 22 {
        lemma_vector_22();
    } else if n == 23 {
        lemma_vector_23();
    } else if n == 24 {
        lemma_vector_24();
    } else if n == 25 {
        lemma_vector_25();
    } else if n == 26 {
        lemma_vector_26();
    } else if n == 27 {
        lemma_vector_27();
    } else if n == 28 {
        lemma_vector_28();
    } else if n == 29 {
        lemma_vector_29();
    } else if n == 30 {
        lemma_vector_30();
    } else if n == 31 {
        lemma_vector_31();
    } else if n == 32 {
        lemma_vector_32();
    } else if n == 33 {
        lemma_vector_33();
    } else if n == 34 {
        lemma_vector_34();
    } else if n == 35 {
        lemma_vector_35();
    } else if n == 36 {
        lemma_vector_36();
    } else if n == 37 {
        lemma_vector_37();
    } else if n == 38 {
        lemma_vector_38();
    } else if n == 39 {
        lemma_vector_39();
    } else if n == 40 {
        lemma_vector_40();
    } else if n == 41 {
        lemma_vector_41();
    } else if n == 42 {
        lemma_vector_42();
    } else if n == 43 {
        lemma_vector_43();
    } else if n == 44 {
        lemma_vector_44();
    } else if n == 45 {
        lemma_vector_45();
    } else if n == 46 {
        lemma_vector_46();
    } else if n == 47 {
        lemma_vector_47();
    } else if n == 48 {
        lemma_vector_48();
    } else if n == 49 {
        lemma_vector_49();
    } else if n == 50 {
        lemma_vector_50();
    } else if n == 51 {
        lemma_vector_51();
    } else if n == 52 {
        lemma_vector_52();
    } else if n == 53 {
        lemma_vector_53();
    } else if n == 54 {
        lemma_vector_54();
    } else if n == 55 {
        lemma_vector_55();
    } else if n == 56 {
        lemma_vector_56();
    } else if n == 57 {
        lemma_vector_57();
    } else if n == 58 {
        lemma_vector_58();
    } else if n == 59 {
        lemma_vector_59();
    } else if n == 60 {
        lemma_vector_60();
    } else if n == 61 {
        lemma_vector_61();
    } else if n == 62 {
        lemma_vector_62();
    } else if n == 63 {
        lemma_vector_63();
    }
}

fn rotl_exec(x: u64, n: u64) -> (r: u64)
    requires
        0 < n < 64,
    ensures
        r == rotl(x, n),
{
    (x << n) | (x >> (64 - n))
}

fn round_exec(s: Sip) -> (r: Sip)
    ensures
        r == sip_round(s),
{
    let v0 = s.v0.wrapping_add(s.v1);
    let v1 = rotl_exec(s.v1, 13) ^ v0;
    let v0 = rotl_exec(v0, 32);
    let v2 = s.v2.wrapping_add(s.v3);
    let v3 = rotl_exec(s.v3, 16) ^ v2;
    let v0 = v0.wrapping_add(v3);
    let v3 = rotl_exec(v3, 21) ^ v0;
    let v2 = v2.wrapping_add(v1);
    let v1 = rotl_exec(v1, 17) ^ v2;
    let v2 = rotl_exec(v2, 32);
    Sip { v0, v1, v2, v3 }
}

fn compress_exec(s: Sip, m: u64) -> (r: Sip)
    ensures
        r == sip_compress(s, m),
{
    let t = round_exec(round_exec(Sip { v0: s.v0, v1: s.v1, v2: s.v2, v3: s.v3 ^ m }));
    Sip { v0: t.v0 ^ m, v1: t.v1, v2: t.v2, v3: t.v3 }
}

fn word_exec(msg: &[u8], off: usize, n: usize) -> (r: u64)
    requires
        n <= 8,
        off + n <= msg@.len(),
    ensures
        r == le_word(msg@, off as int, n as nat),
{
    let len = msg.len();
    let mut w: u64 = 0;
    let mut j: usize = 0;
    while j < n
        invariant
            len == msg@.len(),
            j <= n <= 8,
            off + n <= msg@.len(),
            w == le_word(msg@, off as int, j as nat),
        decreases n - j,
    {
        w = w | ((msg[off + j] as u64) << (8 * j as u64));
        j = j + 1;
    }
    w
}

/// SipHash-2-4 of `msg` under `key`.
pub fn siphash24(key: &[u8; 16], msg: &[u8]) -> (r: u64)
    ensures
        r == spec_siphash24(key@, msg@),
{
    let k0 = word_exec(key.as_slice(), 0, 8);
    let k1 = word_exec(key.as_slice(), 8, 8);
    let mut s = Sip {
        v0: k0 ^ 0x736f_6d65_7073_6575u64,
        v1: k1 ^ 0x646f_7261_6e64_6f6du64,
        v2: k0 ^ 0x6c79_6765_6e65_7261u64,
        v3: k1 ^ 0x7465_6462_7974_6573u64,
    };
    let full = msg.len() / 8;
    assert(8 * full <= msg@.len()) by (nonlinear_arith)
        requires
            full == msg@.len() / 8,
    ;
    let len = msg.len();
    let mut k: usize = 0;
    while k < full
        invariant
            len == msg@.len(),
            full == msg@.len() / 8,
            k <= full,
            s == sip_blocks(key@, msg@, k as nat),
        decreases full - k,
    {
        assert(8 * k + 8 <= msg@.len()) by (nonlinear_arith)
            requires
                k < full,
                full == msg@.len() / 8,
        ;
        let m = word_exec(msg, 8 * k, 8);
        s = compress_exec(s, m);
        k = k + 1;
    }
    let tail = word_exec(msg, 8 * full, msg.len() - 8 * full);
    let b = (((msg.len() as u64) & 0xff) << 56u64) | tail;
    s = compress_exec(s, b);
    s = Sip { v0: s.v0, v1: s.v1, v2: s.v2 ^ 0xff, v3: s.v3 };
    s = round_exec(round_exec(round_exec(round_exec(s))));
    s.v0 ^ s.v1 ^ s.v2 ^ s.v3
}

} // verus!

verus! {

/// The ASCII decimal spelling of `n`, as bytes.
pub open spec fn dec_digits(n: nat) -> Seq<u8>
    decreases n,
{
    if n < 10 {
        seq![(48 + n) as u8]
    } else {
        dec_digits(n / 10).push((48 + n % 10) as u8)
    }
}

/// Appends the decimal spelling of `n`.
pub fn push_decimal(out: &mut Vec<u8>, n: u64)
    ensures
        final(out)@ == old(out)@ + dec_digits(n as nat),
    decreases n,
{
    if n >= 10 {
        push_decimal(out, n / 10);
    }
    out.push(48 + (n % 10) as u8);
    proof {
        if n >= 10 {
            assert(dec_digits(n as nat) == dec_digits((n / 10) as nat).push((48 + n % 10) as u8));
        }
    }
    assert(final(out)@ =~= old(out)@ + dec_digits(n as nat)) by {
        if n >= 10 {
            assert(dec_digits(n as nat) == dec_digits((n / 10) as nat).push((48 + n % 10) as u8));
        }
    }
}

/// Lower-case hexadecimal digits.
pub const HEX_LOWER: [char; 16] = ['0', '1', '2', '3', '4', '5', '6', '7', '8', '9', 'a', 'b', 'c', 'd', 'e', 'f'];

/// The 16-digit, zero-padded, lower-case hexadecimal spelling of `x`.
pub open spec fn hex16(x: u64) -> Seq<char> {
    Seq::new(16, |i: int| HEX_LOWER@[((x >> (4 * (15 - i)) as u64) & 0xf) as int])
}

/// Spells `x` as 16 lower-case hexadecimal digits.
pub fn hex16_exec(x: u64) -> (r: Vec<char>)
    ensures
        r@ == hex16(x),
{
    let mut r: Vec<char> = Vec::new();
    let mut i: u64 = 0;
    while i < 16
        invariant
            i <= 16,
            r@.len() == i,
            forall|k: int| 0 <= k < i ==> r@[k] == #[trigger] hex16(x)[k],
        decreases 16 - i,
    {
        let sh: u64 = 4 * (15 - i);
        let d = (x >> sh) & 0xf;
        assert(d < 16) by (bit_vector)
            requires
                d == (x >> sh) & 0xf,
        ;
        r.push(HEX_LOWER[d as usize]);
        i = i + 1;
    }
    assert(r@ =~= hex16(x));
    r
}

} // verus!
