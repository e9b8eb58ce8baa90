use vstd::prelude::*;
use crate::btable::{rx_buffer_bytes, rx_buffer_field_supported, PMA_WORDS, BTABLE_ENTRY_WORDS};

verus! {

/// Endpoints in use: EP0 (control), EP1 (bulk IN, transmit only) and EP2
/// (bulk OUT, receive only).
pub const USB_NUM_ACTIVE_ENDPOINTS: usize = 3;

/// EP0 receive allocation: BL_SIZE 0, NUM_BLOCK 4.
pub const USB_EP0_RX_BUFFER_SIZE_BITFIELD: u16 = 0b0_00100_0000000000;

/// EP0 receive buffer size in bytes, as `USB_EP0_RX_BUFFER_SIZE_BITFIELD` allocates it.
pub const USB_EP0_RX_BUFFER_SIZE_BYTES: usize = 8;

/// EP0 transmits from the same buffer it receives into.
pub const USB_EP0_TX_BUFFER_SIZE_BYTES: usize = USB_EP0_RX_BUFFER_SIZE_BYTES;

pub const USB_EP0_RX_BUFFER_SIZE_WORDS: usize = USB_EP0_RX_BUFFER_SIZE_BYTES / 2;

pub const USB_EP0_TX_BUFFER_SIZE_WORDS: usize = USB_EP0_RX_BUFFER_SIZE_WORDS;

/// Each descriptor takes four words; the buffers follow the descriptors of the
/// active endpoints.
pub const USB_EP0_TX_BUFFER_BEGIN: usize = 4 * USB_NUM_ACTIVE_ENDPOINTS;

/// The EP0 buffer serves both directions: enumeration is synchronous.
pub const USB_EP0_RX_BUFFER_BEGIN: usize = USB_EP0_TX_BUFFER_BEGIN;

/// EP2 receive allocation: BL_SIZE 1, NUM_BLOCK 0.
pub const USB_EP2_RX_BUFFER_SIZE_BYTES_BITFIELD: u16 = 0b1_00000_0000000000;

/// EP2 receive buffer size in bytes, as `USB_EP2_RX_BUFFER_SIZE_BYTES_BITFIELD` allocates it.
pub const USB_EP2_RX_BUFFER_SIZE_BYTES: usize = 32;

pub const USB_EP1_TX_BUFFER_SIZE_BYTES: usize = USB_EP2_RX_BUFFER_SIZE_BYTES;

pub const USB_EP1_TX_BUFFER_BEGIN: usize = USB_EP0_RX_BUFFER_BEGIN + USB_EP0_TX_BUFFER_SIZE_WORDS;

pub const USB_EP2_RX_BUFFER_BEGIN: usize = USB_EP1_TX_BUFFER_BEGIN + (
USB_EP1_TX_BUFFER_SIZE_BYTES / 2);

/// Two word ranges `[b1, b1 + l1)` and `[b2, b2 + l2)` share no word.
pub open spec fn disjoint(b1: int, l1: int, b2: int, l2: int) -> bool {
    b1 + l1 <= b2 || b2 + l2 <= b1
}

/// The packet-memory layout is sound: the byte sizes are those that the
/// allocation fields written to the hardware describe, the descriptor table of
/// the active endpoints and the three buffers lie inside the packet memory, and
/// no two of them share a word.
pub proof fn lemma_layout_sound()
    ensures
        rx_buffer_field_supported(USB_EP0_RX_BUFFER_SIZE_BITFIELD),
        rx_buffer_bytes(USB_EP0_RX_BUFFER_SIZE_BITFIELD) == USB_EP0_RX_BUFFER_SIZE_BYTES,
        rx_buffer_field_supported(USB_EP2_RX_BUFFER_SIZE_BYTES_BITFIELD),
        rx_buffer_bytes(USB_EP2_RX_BUFFER_SIZE_BYTES_BITFIELD) == USB_EP2_RX_BUFFER_SIZE_BYTES,
        BTABLE_ENTRY_WORDS * USB_NUM_ACTIVE_ENDPOINTS <= USB_EP0_TX_BUFFER_BEGIN,
        USB_EP2_RX_BUFFER_BEGIN + USB_EP2_RX_BUFFER_SIZE_BYTES / 2 <= PMA_WORDS,
        disjoint(
            USB_EP0_TX_BUFFER_BEGIN as int,
            USB_EP0_TX_BUFFER_SIZE_WORDS as int,
            USB_EP1_TX_BUFFER_BEGIN as int,
            USB_EP1_TX_BUFFER_SIZE_BYTES as int / 2,
        ),
        disjoint(
            USB_EP0_RX_BUFFER_BEGIN as int,
            USB_EP0_RX_BUFFER_SIZE_WORDS as int,
            USB_EP2_RX_BUFFER_BEGIN as int,
            USB_EP2_RX_BUFFER_SIZE_BYTES as int / 2,
        ),
        disjoint(
            USB_EP1_TX_BUFFER_BEGIN as int,
            USB_EP1_TX_BUFFER_SIZE_BYTES as int / 2,
            USB_EP2_RX_BUFFER_BEGIN as int,
            USB_EP2_RX_BUFFER_SIZE_BYTES as int / 2,
        ),
{
}

} // verus!
