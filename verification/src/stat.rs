use vstd::prelude::*;

verus! {

/// STAT field value: the endpoint ignores all requests.
pub const STAT_DISABLED: u8 = 0b00;

/// STAT field value: the endpoint answers with STALL.
pub const STAT_STALL: u8 = 0b01;

/// STAT field value: the endpoint answers with NAK.
pub const STAT_NAK: u8 = 0b10;

/// STAT field value: the endpoint is ready to transfer.
pub const STAT_VALID: u8 = 0b11;

/// The STAT bits of an endpoint register are toggle-on-write: writing `written`
/// over `current` leaves `current ^ written` in the register.
pub open spec fn stat_after_write(current: u8, written: u8) -> u8 {
    current ^ written
}

/// What `to_valid` writes over a two-bit STAT field holding `s`.
pub open spec fn valid_toggle(s: u8) -> u8 {
    (3 - s) as u8
}

/// What `to_nak` writes over a two-bit STAT field holding `s`.
pub open spec fn nak_toggle(s: u8) -> u8 {
    ((s + 2) % 4) as u8
}

/// The value to write into a STAT field that holds `stat_bits` so that it becomes VALID.
pub fn to_valid(stat_bits: u8) -> (r: u8)
    requires
        stat_bits < 4,
    ensures
        r < 4,
        r == valid_toggle(stat_bits),
        stat_after_write(stat_bits, r) == STAT_VALID,
{
    let r: u8 = match stat_bits {
        0b00 => 0b11,
        0b01 => 0b10,
        0b10 => 0b01,
        _ => 0b00,
    };
    assert(stat_bits ^ r == 3u8) by (bit_vector)
        requires
            stat_bits < 4,
            stat_bits == 0 ==> r == 3,
            stat_bits == 1 ==> r == 2,
            stat_bits == 2 ==> r == 1,
            stat_bits == 3 ==> r == 0,
    ;
    r
}

/// The value to write into a STAT field that holds `stat_bits` so that it becomes NAK.
pub fn to_nak(stat_bits: u8) -> (r: u8)
    requires
        stat_bits < 4,
    ensures
        r < 4,
        r == nak_toggle(stat_bits),
        stat_after_write(stat_bits, r) == STAT_NAK,
{
    let r: u8 = match stat_bits {
        0b00 => 0b10,
        0b01 => 0b11,
        0b10 => 0b00,
        _ => 0b01,
    };
    assert(stat_bits ^ r == 2u8) by (bit_vector)
        requires
            stat_bits < 4,
            stat_bits == 0 ==> r == 2,
            stat_bits == 1 ==> r == 3,
            stat_bits == 2 ==> r == 0,
            stat_bits == 3 ==> r == 1,
    ;
    r
}

/// The value to write into a STAT field that holds `stat_bits` so that it becomes
/// DISABLED: the field itself, since `x ^ x == 0`.
pub fn to_disabled(stat_bits: u8) -> (r: u8)
    ensures
        r == stat_bits,
        stat_after_write(stat_bits, r) == STAT_DISABLED,
{
    assert(stat_bits ^ stat_bits == 0u8) by (bit_vector);
    stat_bits
}

/// Whatever a two-bit STAT field holds, the value computed for a target state
/// and written back leaves exactly that target state in the field, and the value
/// is the only two-bit value that does so.
pub proof fn lemma_stat_targets_unique(current: u8, w: u8)
    requires
        current < 4,
        w < 4,
    ensures
        stat_after_write(current, w) == STAT_VALID <==> w == (current ^ 3u8),
        stat_after_write(current, w) == STAT_NAK <==> w == (current ^ 2u8),
        stat_after_write(current, w) == STAT_DISABLED <==> w == current,
        stat_after_write(current, w) < 4,
{
    assert((current ^ w == 3u8) <==> w == (current ^ 3u8)) by (bit_vector);
    assert((current ^ w == 2u8) <==> w == (current ^ 2u8)) by (bit_vector);
    assert((current ^ w == 0u8) <==> w == current) by (bit_vector);
    assert(current ^ w < 4u8) by (bit_vector)
        requires
            current < 4u8,
            w < 4u8,
    ;
}

} // verus!
