use vstd::prelude::*;

verus! {

/// Least significant byte of a packet-memory word: the byte that travels first.
pub open spec fn low_byte(w: u16) -> u8 {
    (w % 256) as u8
}

/// Most significant byte of a packet-memory word: the byte that travels second.
pub open spec fn high_byte(w: u16) -> u8 {
    (w / 256) as u8
}

/// The word with its two bytes exchanged.
pub open spec fn swapped(w: u16) -> u16 {
    ((w % 256) * 256 + w / 256) as u16
}

/// Exchanges the two bytes of a 16-bit word.
pub fn swap_bytes(w: u16) -> (r: u16)
    ensures
        r == swapped(w),
        low_byte(r) == high_byte(w),
        high_byte(r) == low_byte(w),
{
    let r: u16 = (w << 8u16) | (w >> 8u16);
    assert(r == ((w % 256) * 256 + w / 256) as u16) by (bit_vector)
        requires
            r == (w << 8u16) | (w >> 8u16),
    ;
    r
}

/// Splits a packet-memory word into its bytes in transmission order
/// (little endian: least significant byte first).
pub fn split_sram_word(word: u16) -> (r: (u8, u8))
    ensures
        r == (low_byte(word), high_byte(word)),
{
    let lo: u8 = (word & 0xff) as u8;
    let hi: u8 = (word >> 8u16) as u8;
    assert(word & 0xff == word % 256) by (bit_vector);
    assert(word >> 8u16 == word / 256) by (bit_vector);
    (lo, hi)
}

/// Swapping twice gives the word back.
pub proof fn lemma_swap_involution(w: u16)
    ensures
        swapped(swapped(w)) == w,
{
}

/// A word written in the "first byte, second byte" notation `0xAABB` and stored
/// swapped is split into `0xAA` then `0xBB`: the bytes leave in the order they
/// were written.
pub proof fn lemma_swapped_word_byte_order(w: u16)
    ensures
        low_byte(swapped(w)) == high_byte(w),
        high_byte(swapped(w)) == low_byte(w),
        high_byte(w) as int * 256 + low_byte(w) as int == w as int,
{
}

} // verus!
