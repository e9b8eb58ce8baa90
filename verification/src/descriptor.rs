use vstd::prelude::*;
use crate::btable::PMA_WORDS;
use crate::layout::{USB_EP0_RX_BUFFER_SIZE_BYTES, USB_EP0_TX_BUFFER_SIZE_BYTES};
use crate::pma::{
    PacketMemory, ep_tx_rx_buffers, is_entry_offset, tx_buffer_begin, rx_buffer_begin,
};
use crate::word::{swap_bytes, swapped};

verus! {

/// Descriptor type of the device descriptor.
pub const DESCRIPTOR_TYPE_DEVICE: u8 = 1;

/// Descriptor type of the configuration descriptor.
pub const DESCRIPTOR_TYPE_CONFIGURATION: u8 = 2;

/// The device descriptor, one word per pair of fields, each word written as
/// "first byte, second byte".
pub open spec fn device_descriptor_words() -> Seq<u16> {
    seq![
        0x1201u16,  // bLength, bDescriptorType
        0x0200u16,  // bcdUSB
        0x0200u16,  // bDeviceClass, bDeviceSubClass
        USB_EP0_RX_BUFFER_SIZE_BYTES as u16,  // bDeviceProtocol, bMaxPacketSize0
        swapped(0xDEADu16),  // idVendor
        swapped(0xBEEFu16),  // idProduct
        swapped(0xCAFEu16),  // bcdDevice
        0x0000u16,  // iManufacturer, iProduct
        0x0001u16,  // iSerialNumber, bNumConfigurations
    ]
}

/// The configuration descriptor with its interface and two endpoint descriptors,
/// in the same notation.
pub open spec fn config_descriptor_words() -> Seq<u16> {
    seq![
        0x0902u16,  // bLength, bDescriptorType
        swapped(0x0020u16),  // wTotalLength
        0x0101u16,  // bNumInterfaces, bConfigurationValue
        0x0080u16,  // iConfiguration, bmAttributes
        0x6409u16,  // bMaxPower, interface bLength
        0x0400u16,  // bDescriptorType, bInterfaceNumber
        0x0002u16,  // bAlternateSetting, bNumEndpoints
        0x0A00u16,  // bInterfaceClass, bInterfaceSubClass
        0x0000u16,  // bInterfaceProtocol, iInterface
        0x0705u16,  // EP1 bLength, bDescriptorType
        0x8102u16,  // bEndpointAddress, bmAttributes
        swapped(0x0020u16),  // wMaxPacketSize
        0x0407u16,  // bInterval, EP2 bLength
        0x0502u16,  // bDescriptorType, bEndpointAddress
        0x0220u16,  // bmAttributes, wMaxPacketSize low byte
        0x0004u16,  // wMaxPacketSize high byte, bInterval
    ]
}

/// The device descriptor.
pub fn device_descriptor() -> (r: [u16; 9])
    ensures
        r@ == device_descriptor_words(),
{
    let r: [u16; 9] = [
        0x1201,
        0x0200,
        0x0200,
        USB_EP0_RX_BUFFER_SIZE_BYTES as u16,
        swap_bytes(0xDEAD),
        swap_bytes(0xBEEF),
        swap_bytes(0xCAFE),
        0x0000,
        0x0001,
    ];
    assert(r@ =~= device_descriptor_words());
    r
}

/// The configuration descriptor.
pub fn config_descriptor() -> (r: [u16; 16])
    ensures
        r@ == config_descriptor_words(),
{
    let r: [u16; 16] = [
        0x0902,
        swap_bytes(0x0020),
        0x0101,
        0x0080,
        0x6409,
        0x0400,
        0x0002,
        0x0A00,
        0x0000,
        0x0705,
        0x8102,
        swap_bytes(0x0020),
        0x0407,
        0x0502,
        0x0220,
        0x0004,
    ];
    assert(r@ =~= config_descriptor_words());
    r
}

/// The descriptor types that can be sent: device and configuration.
pub open spec fn descriptor_supported(descriptor_type: u8) -> bool {
    descriptor_type == DESCRIPTOR_TYPE_DEVICE || descriptor_type == DESCRIPTOR_TYPE_CONFIGURATION
}

/// The words of the descriptor of type `descriptor_type`.
pub open spec fn descriptor_words(descriptor_type: u8) -> Seq<u16> {
    if descriptor_type == DESCRIPTOR_TYPE_DEVICE {
        device_descriptor_words()
    } else {
        config_descriptor_words()
    }
}

pub open spec fn min(a: int, b: int) -> int {
    if a <= b {
        a
    } else {
        b
    }
}

/// Bytes to send for a request of `w_length` bytes: the request's length,
/// cut to the descriptor's size.
pub open spec fn descriptor_need(descriptor_type: u8, w_length: u16) -> int {
    min(w_length as int, 2 * descriptor_words(descriptor_type).len() as int)
}

/// Bytes of the next packet once `accumulated` of `need` bytes have been sent:
/// the rest, at most one EP0 buffer.
pub open spec fn chunk_bytes(need: int, accumulated: int) -> int {
    min(need - accumulated, USB_EP0_TX_BUFFER_SIZE_BYTES as int)
}

/// Descriptor words copied into the EP0 transmit buffer from word `accumulated / 2`
/// on: as many as are left of the descriptor, at most a buffer's worth.
pub open spec fn chunk_words(descriptor_type: u8, accumulated: u16) -> int {
    min(
        USB_EP0_TX_BUFFER_SIZE_BYTES as int / 2,
        descriptor_words(descriptor_type).len() - accumulated as int / 2,
    )
}

/// `mem` with the transmit buffer at word `at` filled from the descriptor,
/// starting at its word `accumulated / 2`, each word stored byte-swapped so that
/// it leaves in the order it is written.
pub open spec fn with_descriptor_chunk(
    mem: Seq<u16>,
    at: int,
    descriptor_type: u8,
    accumulated: u16,
) -> Seq<u16> {
    Seq::new(
        mem.len(),
        |j: int|
            if at <= j < at + chunk_words(descriptor_type, accumulated) {
                swapped(descriptor_words(descriptor_type)[accumulated as int / 2 + (j - at)])
            } else {
                mem[j]
            },
    )
}

/// `write_descriptor` can run: a descriptor that can be sent, no more already
/// sent than is needed, and both EP0 buffer windows inside the packet memory.
pub open spec fn write_descriptor_ok(
    mem: Seq<u16>,
    ep0_bd: int,
    descriptor_type: u8,
    w_length: u16,
    accumulated: u16,
) -> bool {
    &&& is_entry_offset(ep0_bd)
    &&& descriptor_supported(descriptor_type)
    &&& accumulated as int <= descriptor_need(descriptor_type, w_length)
    &&& tx_buffer_begin(mem, ep0_bd) + USB_EP0_TX_BUFFER_SIZE_BYTES / 2 <= PMA_WORDS
    &&& rx_buffer_begin(mem, ep0_bd) + USB_EP0_RX_BUFFER_SIZE_BYTES / 2 <= PMA_WORDS
}

/// Fills the transmit buffer of the descriptor at `ep0_bd` with the next packet
/// of the descriptor of type `descriptor_type`, of which `accumulated` bytes have
/// been sent for a request of `w_length` bytes. Returns the bytes the whole
/// transfer needs and the bytes of this packet.
pub fn write_descriptor(
    pma: &mut PacketMemory,
    descriptor_type: u8,
    descriptor_index: u8,
    ep0_bd: usize,
    w_length: u16,
    accumulated: u16,
) -> (r: (u16, u16))
    requires
        write_descriptor_ok(old(pma)@, ep0_bd as int, descriptor_type, w_length, accumulated),
    ensures
        r.0 == descriptor_need(descriptor_type, w_length),
        r.1 == chunk_bytes(r.0 as int, accumulated as int),
        final(pma)@ == with_descriptor_chunk(
            old(pma)@,
            tx_buffer_begin(old(pma)@, ep0_bd as int),
            descriptor_type,
            accumulated,
        ),
{
    let (buf, _) = ep_tx_rx_buffers(
        pma,
        ep0_bd,
        USB_EP0_TX_BUFFER_SIZE_BYTES,
        USB_EP0_RX_BUFFER_SIZE_BYTES,
    );
    let device = device_descriptor();
    let config = config_descriptor();
    let desc_ref: &[u16] = if descriptor_type == DESCRIPTOR_TYPE_DEVICE {
        device.as_slice()
    } else {
        config.as_slice()
    };
    assert(desc_ref@ == descriptor_words(descriptor_type));
    let desc_size: u16 = (desc_ref.len() * 2) as u16;
    let tx_need: u16 = if w_length < desc_size {
        w_length
    } else {
        desc_size
    };
    let remaining: u16 = tx_need - accumulated;
    let word_offset: usize = (accumulated as usize) / 2;
    let tx_size: u16 = if remaining < USB_EP0_TX_BUFFER_SIZE_BYTES as u16 {
        remaining
    } else {
        USB_EP0_TX_BUFFER_SIZE_BYTES as u16
    };
    let n: usize = if buf.len < desc_ref.len() - word_offset {
        buf.len
    } else {
        desc_ref.len() - word_offset
    };
    let ghost old_mem = pma@;
    let mut i: usize = 0;
    while i < n
        invariant
            n == chunk_words(descriptor_type, accumulated),
            n <= buf.len,
            buf.in_memory(),
            buf.begin == tx_buffer_begin(old_mem, ep0_bd as int),
            word_offset == accumulated as int / 2,
            word_offset + n <= desc_ref@.len(),
            desc_ref@ == descriptor_words(descriptor_type),
            i <= n,
            pma@.len() == old_mem.len(),
            forall|j: int|
                0 <= j < pma@.len() ==> #[trigger] pma@[j] == (if buf.begin <= j < buf.begin + i {
                    swapped(desc_ref@[word_offset + (j - buf.begin)])
                } else {
                    old_mem[j]
                }),
        decreases n - i,
    {
        let u = swap_bytes(desc_ref[word_offset + i]);
        pma.write_buffer(buf, i, u);
        i = i + 1;
    }
    assert(pma@ =~= with_descriptor_chunk(
        old_mem,
        tx_buffer_begin(old_mem, ep0_bd as int),
        descriptor_type,
        accumulated,
    ));
    (tx_need, tx_size)
}

/// Whether `write_descriptor` can run on these arguments.
pub fn write_descriptor_can_run(
    pma: &PacketMemory,
    descriptor_type: u8,
    ep0_bd: usize,
    w_length: u16,
    accumulated: u16,
) -> (r: bool)
    ensures
        r == write_descriptor_ok(pma@, ep0_bd as int, descriptor_type, w_length, accumulated),
{
    if ep0_bd > PMA_WORDS - 4 {
        return false;
    }
    if !(descriptor_type == DESCRIPTOR_TYPE_DEVICE || descriptor_type == DESCRIPTOR_TYPE_CONFIGURATION) {
        return false;
    }
    let desc_size: u16 = if descriptor_type == DESCRIPTOR_TYPE_DEVICE {
        18
    } else {
        32
    };
    assert(desc_size == 2 * descriptor_words(descriptor_type).len());
    let need: u16 = if w_length < desc_size {
        w_length
    } else {
        desc_size
    };
    let at = pma.read(ep0_bd) as usize / 2;
    let ar = pma.read(ep0_bd + 2) as usize / 2;
    accumulated <= need && at + USB_EP0_TX_BUFFER_SIZE_BYTES / 2 <= PMA_WORDS && ar
        + USB_EP0_RX_BUFFER_SIZE_BYTES / 2 <= PMA_WORDS
}

} // verus!
