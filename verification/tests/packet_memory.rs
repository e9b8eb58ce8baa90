use f3usb::btable::{
    rx_buffer_size_bytes, Endpoint_BTABLE_Addr_Register, Endpoint_BTABLE_Count_Register,
    Endpoint_BTABLE_Entry,
};
use f3usb::descriptor::{config_descriptor, device_descriptor, write_descriptor, write_descriptor_can_run};
use f3usb::layout::{
    USB_EP0_RX_BUFFER_SIZE_BITFIELD, USB_EP0_RX_BUFFER_SIZE_BYTES, USB_EP0_TX_BUFFER_BEGIN,
    USB_EP1_TX_BUFFER_BEGIN, USB_EP2_RX_BUFFER_BEGIN, USB_EP2_RX_BUFFER_SIZE_BYTES,
    USB_EP2_RX_BUFFER_SIZE_BYTES_BITFIELD,
};
use f3usb::pma::{dump_sram, ep_tx_rx_buffers, set_addr_rx, set_addr_tx, sram_buffer, PacketMemory, SramBuffer};

#[test]
fn rx_buffer_size_decoding() {
    assert_eq!(rx_buffer_size_bytes(USB_EP0_RX_BUFFER_SIZE_BITFIELD), 8);
    assert_eq!(rx_buffer_size_bytes(USB_EP2_RX_BUFFER_SIZE_BYTES_BITFIELD), 32);
    assert_eq!(rx_buffer_size_bytes(0b0_00001_0000000000), 2);
    assert_eq!(rx_buffer_size_bytes(0b0_11111_0000000000), 62);
    assert_eq!(rx_buffer_size_bytes(0b1_01110_0000000000), 480);
    // the count bits do not matter
    assert_eq!(rx_buffer_size_bytes(0b1_00000_0000011111), 32);
}

#[test]
fn layout_constants() {
    assert_eq!(USB_EP0_RX_BUFFER_SIZE_BYTES, rx_buffer_size_bytes(USB_EP0_RX_BUFFER_SIZE_BITFIELD));
    assert_eq!(USB_EP2_RX_BUFFER_SIZE_BYTES, rx_buffer_size_bytes(USB_EP2_RX_BUFFER_SIZE_BYTES_BITFIELD));
    assert_eq!(USB_EP0_TX_BUFFER_BEGIN, 12);
    assert_eq!(USB_EP1_TX_BUFFER_BEGIN, 16);
    assert_eq!(USB_EP2_RX_BUFFER_BEGIN, 32);
}

#[test]
fn address_register_round_trip() {
    let mut r = Endpoint_BTABLE_Addr_Register { v: 0 };
    r.set(12);
    assert_eq!(r.v, 24);
    assert_eq!(r.get(), 12);
    r.set(0x7fff);
    assert_eq!(r.get(), 0x7fff);
    let mut c = Endpoint_BTABLE_Count_Register { v: 0 };
    c.set(0x8000);
    assert_eq!(c.get(), 0x8000);
}

#[test]
fn entry_offsets() {
    assert_eq!(Endpoint_BTABLE_Entry::at(0), 0);
    assert_eq!(Endpoint_BTABLE_Entry::at(1), 4);
    assert_eq!(Endpoint_BTABLE_Entry::at(7), 28);
}

#[test]
fn entry_round_trip() {
    let mut pma = PacketMemory::new();
    let e = Endpoint_BTABLE_Entry {
        addr_tx: Endpoint_BTABLE_Addr_Register { v: 24 },
        count_tx: Endpoint_BTABLE_Count_Register { v: 3 },
        addr_rx: Endpoint_BTABLE_Addr_Register { v: 64 },
        count_rx: Endpoint_BTABLE_Count_Register { v: 0x8000 },
    };
    pma.set_entry(8, e);
    assert_eq!(pma.entry(8), e);
    assert_eq!(pma.read(7), 0);
    assert_eq!(pma.read(12), 0);
    assert_eq!(pma.read(9), 3);
}

#[test]
fn buffers_follow_the_descriptor() {
    let mut pma = PacketMemory::new();
    set_addr_tx(&mut pma, 4, 16);
    set_addr_rx(&mut pma, 4, 40);
    let (tx, rx) = ep_tx_rx_buffers(&pma, 4, 32, 6);
    assert_eq!(tx, SramBuffer { begin: 16, len: 16 });
    assert_eq!(rx, SramBuffer { begin: 40, len: 3 });
    assert_eq!(sram_buffer(250, 6), SramBuffer { begin: 250, len: 6 });
}

#[test]
fn dump_sram_copies_the_window() {
    let mut pma = PacketMemory::new();
    for i in 0..16 {
        pma.write(32 + i, (100 + i) as u16);
    }
    let mut out = [0u16; 5];
    dump_sram(&pma, SramBuffer { begin: 32, len: 16 }, &mut out);
    assert_eq!(out, [100, 101, 102, 103, 104]);
}

#[test]
fn descriptors_as_sent() {
    let d = device_descriptor();
    assert_eq!(d, [0x1201, 0x0200, 0x0200, 0x0008, 0xADDE, 0xEFBE, 0xFECA, 0x0000, 0x0001]);
    let c = config_descriptor();
    assert_eq!(c.len(), 16);
    assert_eq!(c[1], 0x2000);
    assert_eq!(c[11], 0x2000);
}

fn ep0_memory() -> PacketMemory {
    let mut pma = PacketMemory::new();
    set_addr_tx(&mut pma, 0, 12);
    set_addr_rx(&mut pma, 0, 12);
    pma
}

#[test]
fn write_descriptor_first_packet() {
    let mut pma = ep0_memory();
    assert!(write_descriptor_can_run(&pma, 1, 0, 64, 0));
    let (need, size) = write_descriptor(&mut pma, 1, 0, 0, 64, 0);
    assert_eq!((need, size), (18, 8));
    assert_eq!([pma.read(12), pma.read(13), pma.read(14), pma.read(15)], [0x0112, 0x0002, 0x0002, 0x0800]);
    assert_eq!(pma.read(16), 0);
}

#[test]
fn write_descriptor_short_request() {
    let mut pma = ep0_memory();
    let (need, size) = write_descriptor(&mut pma, 2, 0, 0, 9, 8);
    assert_eq!((need, size), (9, 1));
    // words 4..8 of the configuration descriptor
    assert_eq!([pma.read(12), pma.read(13), pma.read(14), pma.read(15)], [0x0964, 0x0004, 0x0200, 0x000A]);
}

#[test]
fn write_descriptor_tail() {
    let mut pma = ep0_memory();
    for i in 12..16 {
        pma.write(i, 0xAAAA);
    }
    let (need, size) = write_descriptor(&mut pma, 1, 0, 0, 255, 16);
    assert_eq!((need, size), (18, 2));
    // one descriptor word is left; the rest of the buffer is untouched
    assert_eq!([pma.read(12), pma.read(13)], [0x0100, 0xAAAA]);
}

#[test]
fn write_descriptor_refusals() {
    let pma = ep0_memory();
    assert!(!write_descriptor_can_run(&pma, 3, 0, 64, 0));
    assert!(!write_descriptor_can_run(&pma, 1, 0, 64, 20));
    assert!(!write_descriptor_can_run(&pma, 1, 0, 4, 6));
    assert!(write_descriptor_can_run(&pma, 2, 0, 4, 4));
    let mut far = PacketMemory::new();
    set_addr_tx(&mut far, 0, 253);
    assert!(!write_descriptor_can_run(&far, 1, 0, 64, 0));
}
