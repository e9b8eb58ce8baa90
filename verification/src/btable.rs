use vstd::prelude::*;

verus! {

/// Number of 16-bit words of USB packet memory.
pub const PMA_WORDS: usize = 256;

/// Words occupied by one endpoint's buffer descriptor.
pub const BTABLE_ENTRY_WORDS: usize = 4;

/// Highest endpoint number that has a buffer descriptor.
pub const MAX_ENDPOINT: usize = 7;

/// The BL_SIZE bit of a COUNTn_RX field.
pub open spec fn rx_bl_size(bf: u16) -> int {
    bf as int / 32768
}

/// The NUM_BLOCK field (bits 14:10) of a COUNTn_RX field.
pub open spec fn rx_num_block(bf: u16) -> int {
    (bf as int / 1024) % 32
}

/// Size in bytes of the receive buffer that a COUNTn_RX field allocates:
/// blocks of 2 bytes when BL_SIZE is 0, blocks of 32 bytes (counted from one)
/// when it is 1.
pub open spec fn rx_buffer_bytes(bf: u16) -> int {
    if rx_bl_size(bf) == 0 {
        rx_num_block(bf) * 2
    } else {
        (rx_num_block(bf) + 1) * 32
    }
}

/// The allocation fields describe a buffer the datasheet allows: not the empty
/// encoding (BL_SIZE 0, NUM_BLOCK 0), and below 512 bytes.
pub open spec fn rx_buffer_field_supported(bf: u16) -> bool {
    &&& !(rx_bl_size(bf) == 0 && rx_num_block(bf) == 0)
    &&& rx_buffer_bytes(bf) < 512
}

/// Decodes the buffer size in bytes that a COUNTn_RX allocation field describes.
pub fn rx_buffer_size_bytes(bf: u16) -> (r: usize)
    requires
        rx_buffer_field_supported(bf),
    ensures
        r == rx_buffer_bytes(bf),
{
    let bl_size: u16 = 0b1 & (bf >> 15u16);
    let num_block: u16 = 0x1f & (bf >> 10u16);
    assert(0b1 & (bf >> 15u16) == bf / 32768) by (bit_vector);
    assert(0x1f & (bf >> 10u16) == (bf / 1024) % 32) by (bit_vector);
    let bytes: u16 = if bl_size == 0 {
        num_block * 2
    } else {
        (num_block + 1) * 32
    };
    bytes as usize
}

/// ADDRn_TX / ADDRn_RX: a buffer address in the packet memory, held in bytes.
#[allow(non_camel_case_types)]
#[derive(Clone, Copy, Debug, PartialEq, Eq, Structural)]
pub struct Endpoint_BTABLE_Addr_Register {
    pub v: u16,
}

/// COUNTn_TX / COUNTn_RX: a byte count (and, for reception, the allocation fields).
#[allow(non_camel_case_types)]
#[derive(Clone, Copy, Debug, PartialEq, Eq, Structural)]
pub struct Endpoint_BTABLE_Count_Register {
    pub v: u16,
}

/// One endpoint's buffer descriptor, four consecutive packet-memory words.
#[allow(non_camel_case_types)]
#[derive(Clone, Copy, Debug, PartialEq, Eq, Structural)]
pub struct Endpoint_BTABLE_Entry {
    pub addr_tx: Endpoint_BTABLE_Addr_Register,
    pub count_tx: Endpoint_BTABLE_Count_Register,
    pub addr_rx: Endpoint_BTABLE_Addr_Register,
    pub count_rx: Endpoint_BTABLE_Count_Register,
}

impl Endpoint_BTABLE_Addr_Register {
    /// The word offset that the register designates.
    pub open spec fn word_offset(self) -> int {
        self.v as int / 2
    }

    /// Points the register at word offset `v` (stored as the byte address `2 * v`).
    pub fn set(&mut self, v: u16)
        requires
            v <= 0x7fff,
        ensures
            final(self).v == 2 * v,
            final(self).word_offset() == v,
    {
        self.v = v * 2;
    }

    /// The word offset that the register designates.
    pub fn get(&self) -> (r: u16)
        ensures
            r == self.word_offset(),
    {
        self.v / 2
    }
}

impl Endpoint_BTABLE_Count_Register {
    /// Stores `v` unchanged.
    pub fn set(&mut self, v: u16)
        ensures
            final(self).v == v,
    {
        self.v = v;
    }

    /// The stored value.
    pub fn get(&self) -> (r: u16)
        ensures
            r == self.v,
    {
        self.v
    }
}

impl Endpoint_BTABLE_Entry {
    /// Word offset, in the packet memory, of the buffer descriptor of endpoint `ep`.
    pub fn at(ep: usize) -> (r: usize)
        requires
            ep <= MAX_ENDPOINT,
        ensures
            r == BTABLE_ENTRY_WORDS * ep,
            r + BTABLE_ENTRY_WORDS <= PMA_WORDS,
    {
        ep * BTABLE_ENTRY_WORDS
    }
}

/// What `set` stores, `get` reads back: the address register keeps any word
/// offset that fits in it.
pub proof fn lemma_addr_register_round_trip(v: u16)
    requires
        v <= 0x7fff,
    ensures
        (Endpoint_BTABLE_Addr_Register { v: (2 * v) as u16 }).word_offset() == v,
{
}

} // verus!
