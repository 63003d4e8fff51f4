//! The frame encoder: an 8-bit code becomes an 11-bit word with a start bit,
//! the code least significant bit first, an odd parity bit and a stop bit.

use vstd::prelude::*;

verus! {

/// An 8-bit scancode or protocol byte.
pub type RawCode = u8;

/// An 11-bit framed word; bit 0 is the first bit on the wire.
pub type FramedWord = u32;

/// Number of bits of a framed word.
pub const FRAME_BITS: u8 = 11;

/// Value of the parity bit within a framed word (bit 9).
pub const PARITY_BIT: u32 = 0x200;

/// Value of the stop bit within a framed word (bit 10).
pub const STOP_BIT: u32 = 0x400;

/// Whether bit `i` of `w` is set. Positions outside `0..32` hold no bit.
pub open spec fn bit_at(w: u32, i: int) -> bool {
    0 <= i < 32 && (w >> (i as u32)) & 1 == 1
}

/// Number of set bits of `w` at the positions `lo..hi`.
pub open spec fn count_ones(w: u32, lo: int, hi: int) -> nat
    decreases hi - lo,
{
    if lo >= hi {
        0
    } else {
        count_ones(w, lo, hi - 1) + if bit_at(w, hi - 1) { 1nat } else { 0nat }
    }
}

/// The parity bit that goes with `code`: set exactly when `code` has an even
/// number of set bits, so that code and parity together hold an odd number.
pub open spec fn parity_of(code: RawCode) -> bool {
    count_ones(code as u32, 0, 8) % 2 == 0
}

/// The framed word for `code`: stop bit, parity bit, and the code moved up by
/// one position so that bit 0, the start bit, is clear.
pub open spec fn framed(code: RawCode) -> FramedWord {
    (STOP_BIT + (if parity_of(code) { PARITY_BIT } else { 0 }) + 2 * code) as u32
}

/// The code carried by a word: its bits 1 to 8.
pub open spec fn payload(word: FramedWord) -> RawCode {
    ((word >> 1) & 0xff) as u8
}

/// The layout that every framed word obeys: nothing above bit 10, start bit
/// clear, stop bit set, and an odd number of set bits among bits 1 to 9.
pub open spec fn is_framed_word(word: FramedWord) -> bool {
    &&& word < 0x800
    &&& !bit_at(word, 0)
    &&& bit_at(word, 10)
    &&& count_ones(word, 1, 10) % 2 == 1
}

/// The low `FRAME_BITS` bits of `word`, lowest first: the order in which
/// they go onto the wire.
pub open spec fn word_bits(word: FramedWord) -> Seq<bool> {
    Seq::new(FRAME_BITS as nat, |i: int| bit_at(word, i))
}

/// The eight bits of `code`, lowest first.
pub open spec fn code_bits(code: RawCode) -> Seq<bool> {
    Seq::new(8, |i: int| bit_at(code as u32, i))
}

/// The exclusive-or of the low eight bits of `x` is 1 exactly when their sum
/// is odd.
proof fn lemma_xor_fold(x: u32)
    by (bit_vector)
    ensures
        (((x >> 7) ^ (x >> 6) ^ (x >> 5) ^ (x >> 4) ^ (x >> 3) ^ (x >> 2) ^ (x >> 1) ^ x) & 1) == (
        ((x >> 7) & 1) + ((x >> 6) & 1) + ((x >> 5) & 1) + ((x >> 4) & 1) + ((x >> 3) & 1) + ((x
            >> 2) & 1) + ((x >> 1) & 1) + (x & 1)) % 2,
{
}

/// Each of the low eight bits of `x`, taken as a number, is 0 or 1.
proof fn lemma_low_bits(x: u32)
    by (bit_vector)
    ensures
        (x >> 7) & 1 <= 1,
        (x >> 6) & 1 <= 1,
        (x >> 5) & 1 <= 1,
        (x >> 4) & 1 <= 1,
        (x >> 3) & 1 <= 1,
        (x >> 2) & 1 <= 1,
        (x >> 1) & 1 <= 1,
        (x >> 0) & 1 <= 1,
        (x >> 0) & 1 == x & 1,
{
}

/// The number of set bits among the low eight of `x` is the sum of those
/// bits.
proof fn lemma_count_low_bits(x: u32)
    ensures
        count_ones(x, 0, 8) == ((x >> 7) & 1) + ((x >> 6) & 1) + ((x >> 5) & 1) + ((x >> 4) & 1) + (
        (x >> 3) & 1) + ((x >> 2) & 1) + ((x >> 1) & 1) + (x & 1),
{
    lemma_low_bits(x);
    reveal_with_fuel(count_ones, 9);
}

/// Bit by bit, a word made of stop bit, parity `p` and twice the code `x`
/// holds the start bit, the code, the parity and the stop bit in that order.
proof fn lemma_word_bits(x: u32, p: u32, w: u32)
    by (bit_vector)
    requires
        x <= 0xff,
        p <= 1,
        w == 0x400 + p * 0x200 + 2 * x,
    ensures
        w < 0x800,
        (w >> 0) & 1 == 0,
        (w >> 1) & 1 == (x >> 0) & 1,
        (w >> 2) & 1 == (x >> 1) & 1,
        (w >> 3) & 1 == (x >> 2) & 1,
        (w >> 4) & 1 == (x >> 3) & 1,
        (w >> 5) & 1 == (x >> 4) & 1,
        (w >> 6) & 1 == (x >> 5) & 1,
        (w >> 7) & 1 == (x >> 6) & 1,
        (w >> 8) & 1 == (x >> 7) & 1,
        (w >> 9) & 1 == p,
        (w >> 10) & 1 == 1,
        (w >> 1) & 0xff == x,
{
}

/// Where each bit of `framed(code)` comes from: bit 0 is clear, bits 1 to 8
/// are bits 0 to 7 of the code, bit 9 is the parity bit, bit 10 is set, and
/// nothing lies above.
pub proof fn lemma_framed_bits(code: RawCode)
    ensures
        framed(code) < 0x800,
        !bit_at(framed(code), 0),
        forall|i: int|
            1 <= i <= 8 ==> #[trigger] bit_at(framed(code), i) == bit_at(code as u32, i - 1),
        bit_at(framed(code), 9) == parity_of(code),
        bit_at(framed(code), 10),
        payload(framed(code)) == code,
{
    let x: u32 = code as u32;
    let p: u32 = if parity_of(code) { 1 } else { 0 };
    let w: u32 = framed(code);
    lemma_word_bits(x, p, w);
}

/// Start/stop law: in every framed word bit 0 is clear and bit 10 is set.
pub proof fn lemma_frame_start_stop(code: RawCode)
    ensures
        !bit_at(framed(code), 0),
        bit_at(framed(code), 10),
{
    lemma_framed_bits(code);
}

/// Parity law: in every framed word the number of set bits among bits 1 to 9
/// is odd.
pub proof fn lemma_frame_parity_odd(code: RawCode)
    ensures
        count_ones(framed(code), 1, 10) % 2 == 1,
{
    lemma_framed_bits(code);
    reveal_with_fuel(count_ones, 10);
}

/// Payload law: bits 1 to 8 of a framed word, read from the low end, are the
/// code it was made from.
pub proof fn lemma_frame_payload(code: RawCode)
    ensures
        payload(framed(code)) == code,
        forall|i: int|
            1 <= i <= 8 ==> #[trigger] bit_at(framed(code), i) == bit_at(code as u32, i - 1),
{
    lemma_framed_bits(code);
}

/// A framed word on the wire: first the start bit 0, then the eight bits of
/// the code from the lowest up, then the parity bit, then the stop bit 1.
pub proof fn lemma_frame_on_wire(code: RawCode)
    ensures
        word_bits(framed(code)) == seq![false] + code_bits(code) + seq![parity_of(code), true],
{
    lemma_framed_bits(code);
}

/// Every framed word obeys the layout of `is_framed_word`.
pub proof fn lemma_framed_is_framed_word(code: RawCode)
    ensures
        is_framed_word(framed(code)),
{
    lemma_framed_bits(code);
    lemma_frame_parity_odd(code);
}

/// Frames `code` for the wire: start bit 0, the eight code bits from the low
/// end, the odd parity bit, stop bit 1, with the start bit at bit 0 of the
/// result.
pub fn frame(code: RawCode) -> (word: FramedWord)
    ensures
        word == framed(code),
        is_framed_word(word),
        payload(word) == code,
{
    let x: u32 = code as u32;
    let fold: u32 = (x >> 7) ^ (x >> 6) ^ (x >> 5) ^ (x >> 4) ^ (x >> 3) ^ (x >> 2) ^ (x >> 1) ^ x;
    let parity: u32 = (fold & 1) ^ 1;
    proof {
        lemma_xor_fold(x);
        lemma_count_low_bits(x);
        assert(parity == (if (fold & 1) == 1 { 0u32 } else { 1u32 })) by (bit_vector)
            requires
                parity == (fold & 1) ^ 1,
        ;
        assert(1u32 << 10 == 0x400) by (bit_vector);
        assert(parity << 9 == parity * 0x200 && x << 1 == 2 * x) by (bit_vector)
            requires
                parity <= 1,
                x <= 0xff,
        ;
        lemma_framed_is_framed_word(code);
        lemma_frame_payload(code);
    }
    (1 << 10) + (parity << 9) + (x << 1)
}

} // verus!
