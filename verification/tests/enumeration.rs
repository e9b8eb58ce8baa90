use f3usb::enumeration::{
    fill_ep1_can_run, fill_ep1_tx_buffer, handle_ep0, handle_ep1, handle_ep2, usb_handler,
    usb_handler_can_run, EndpointEffects, EndpointReport, UsbInterrupt, UsbResponse, EP0_Tx,
    USB_Setup,
};
use f3usb::pma::PacketMemory;

fn irq(endpoint: usize) -> UsbInterrupt {
    UsbInterrupt {
        endpoint,
        reset: false,
        ctr: true,
        setup: false,
        ctr_tx: false,
        ctr_rx: false,
        stat_tx: 0b10,
        stat_rx: 0b10,
    }
}

fn reset_irq() -> UsbInterrupt {
    UsbInterrupt { reset: true, ctr: false, stat_tx: 0b01, stat_rx: 0b00, ..irq(0) }
}

fn setup_irq() -> UsbInterrupt {
    UsbInterrupt { setup: true, ctr_rx: true, ..irq(0) }
}

fn tx_irq() -> UsbInterrupt {
    UsbInterrupt { ctr_tx: true, ..irq(0) }
}

/// Puts a setup packet into the EP0 receive buffer (word 12) and its count into COUNT0_RX.
fn put_setup(pma: &mut PacketMemory, words: [u16; 4]) {
    for (i, w) in words.iter().enumerate() {
        pma.write(12 + i, *w);
    }
    pma.write(3, 0x1000 | 8);
}

fn run(state: &mut USB_Setup, pma: &mut PacketMemory, i: UsbInterrupt, daddr: u8) -> UsbResponse {
    assert!(usb_handler_can_run(state, pma, &i, daddr));
    usb_handler(state, pma, i, daddr)
}

fn effects(r: UsbResponse) -> EndpointEffects {
    match r {
        UsbResponse::Handled { effects, .. } => effects,
        other => panic!("unexpected {:?}", other),
    }
}

#[test]
fn ignored_interrupt_changes_nothing() {
    let mut state = USB_Setup::U_Await_Reset;
    let mut pma = PacketMemory::new();
    let i = UsbInterrupt { ctr: false, ..irq(0) };
    assert!(matches!(run(&mut state, &mut pma, i, 0), UsbResponse::Ignored));
    assert_eq!(state, USB_Setup::U_Await_Reset);
    assert_eq!(pma.words, [0u16; 256]);
}

#[test]
fn reset_sets_up_ep0() {
    let mut state = USB_Setup::A_Await_Control;
    let mut pma = PacketMemory::new();
    let r = run(&mut state, &mut pma, reset_irq(), 5);
    match r {
        UsbResponse::Reset { stat_rx, stat_tx } => {
            assert_eq!(stat_rx, 0b11);
            assert_eq!(stat_tx, 0b01);
        }
        other => panic!("unexpected {:?}", other),
    }
    assert_eq!(state, USB_Setup::U_Await_Control);
    assert_eq!([pma.read(0), pma.read(1), pma.read(2), pma.read(3)], [24, 0, 24, 0x1000]);
}

#[test]
fn full_enumeration() {
    let mut state = USB_Setup::U_Await_Reset;
    let mut pma = PacketMemory::new();
    run(&mut state, &mut pma, reset_irq(), 0);

    // GET_DESCRIPTOR(device), wLength 64
    put_setup(&mut pma, [0x0680, 0x0100, 0x0000, 0x0040]);
    let e = effects(run(&mut state, &mut pma, setup_irq(), 0));
    assert_eq!(e.toggle_tx, 0b01); // NAK -> VALID
    assert_eq!(e.toggle_rx, 0b01);
    assert_eq!(e.new_address, None);
    assert_eq!(
        state,
        USB_Setup::U_Send { bm_desc_type: 1, bm_desc_idx: 0, state: EP0_Tx { w_length: 64, tx_need: 18, tx_acc: 8 } }
    );
    assert_eq!(pma.read(1), 8);
    let mut sent: Vec<u8> = Vec::new();
    for k in 0..4 {
        sent.extend_from_slice(&pma.read(12 + k).to_le_bytes());
    }

    // second and third packets
    effects(run(&mut state, &mut pma, tx_irq(), 0));
    assert_eq!(pma.read(1), 8);
    for k in 0..4 {
        sent.extend_from_slice(&pma.read(12 + k).to_le_bytes());
    }
    let e = effects(run(&mut state, &mut pma, tx_irq(), 0));
    assert_eq!(e.toggle_tx, 0b01);
    assert_eq!(pma.read(1), 2);
    sent.extend_from_slice(&pma.read(12).to_le_bytes());
    assert_eq!(
        sent,
        vec![0x12, 0x01, 0x02, 0x00, 0x02, 0x00, 0x00, 0x08, 0xAD, 0xDE, 0xEF, 0xBE, 0xFE, 0xCA, 0x00, 0x00, 0x00, 0x01]
    );

    // all sent: status stage, then back to awaiting control
    let e = effects(run(&mut state, &mut pma, tx_irq(), 0));
    assert_eq!(e.toggle_tx, 0b00); // NAK stays NAK
    assert_eq!(state, USB_Setup::U_Status);
    assert_eq!(pma.read(1), 0);
    effects(run(&mut state, &mut pma, tx_irq(), 0));
    assert_eq!(state, USB_Setup::U_Await_Control);

    // SET_ADDRESS 7: the address is stored once the status packet went out
    put_setup(&mut pma, [0x0500, 0x0007, 0x0000, 0x0000]);
    let e = effects(run(&mut state, &mut pma, setup_irq(), 0));
    assert_eq!(e.new_address, None);
    assert_eq!(state, USB_Setup::Addressing { new_addr: 7 });
    let e = effects(run(&mut state, &mut pma, tx_irq(), 0));
    assert_eq!(e.new_address, Some(7));
    assert_eq!(state, USB_Setup::A_Await_Control);

    // GET_DESCRIPTOR(configuration), wLength 9, with an address
    put_setup(&mut pma, [0x0680, 0x0200, 0x0000, 0x0009]);
    effects(run(&mut state, &mut pma, setup_irq(), 7));
    assert_eq!(
        state,
        USB_Setup::A_Send { bm_desc_type: 2, bm_desc_idx: 0, state: EP0_Tx { w_length: 9, tx_need: 9, tx_acc: 8 } }
    );
    effects(run(&mut state, &mut pma, tx_irq(), 7));
    assert_eq!(pma.read(1), 1);
    assert_eq!(pma.read(12).to_le_bytes()[0], 0x64);
    effects(run(&mut state, &mut pma, tx_irq(), 7));
    assert_eq!(state, USB_Setup::A_Status);
    effects(run(&mut state, &mut pma, tx_irq(), 7));
    assert_eq!(state, USB_Setup::A_Await_Control);

    // SET_CONFIGURATION 1: the bulk endpoints get their buffers
    put_setup(&mut pma, [0x0900, 0x0001, 0x0000, 0x0000]);
    let e = effects(run(&mut state, &mut pma, setup_irq(), 7));
    assert!(e.configure_endpoints);
    assert!(e.tx_ready);
    assert_eq!(state, USB_Setup::A_Await_Control);
    assert_eq!([pma.read(4), pma.read(5), pma.read(10), pma.read(11)], [32, 0, 64, 0x8000]);

    // the main loop queues its test data on EP1
    assert!(fill_ep1_can_run(&pma));
    fill_ep1_tx_buffer(&mut pma);
    assert_eq!(pma.read(5), 10);
    assert_eq!(pma.read(16), 0x30);
    assert_eq!(pma.read(25), 0x39);
    assert_eq!(pma.read(26), 0);

    // EP1 sent it
    let r = run(&mut state, &mut pma, UsbInterrupt { ctr_tx: true, ..irq(1) }, 7);
    match r {
        UsbResponse::Handled { effects, report: EndpointReport::Transmitted { count } } => {
            assert_eq!(count, 10);
            assert!(effects.tx_ready);
            assert_eq!(effects.toggle_tx, 0b00);
        }
        other => panic!("unexpected {:?}", other),
    }
    assert_eq!(pma.read(5), 0);

    // EP2 received three bytes
    pma.write(32, 0x6261);
    pma.write(33, 0x0063);
    pma.write(11, 0x8000 | 3);
    let r = run(&mut state, &mut pma, UsbInterrupt { ctr_rx: true, stat_rx: 0b10, ..irq(2) }, 7);
    match r {
        UsbResponse::Handled { effects, report: EndpointReport::Received { count, data } } => {
            assert_eq!(count, 3);
            assert_eq!(data[0], 0x6261);
            assert_eq!(data[1], 0x0063);
            assert_eq!(effects.toggle_rx, 0b01);
        }
        other => panic!("unexpected {:?}", other),
    }
    assert_eq!(pma.read(11), 0x8000);
}

#[test]
fn unsupported_requests_are_refused() {
    let mut state = USB_Setup::U_Await_Control;
    let mut pma = PacketMemory::new();
    run(&mut state, &mut pma, reset_irq(), 0);
    // GET_STATUS
    put_setup(&mut pma, [0x0080, 0x0000, 0x0000, 0x0002]);
    assert!(!usb_handler_can_run(&state, &pma, &setup_irq(), 0));
    // GET_DESCRIPTOR(string)
    put_setup(&mut pma, [0x0680, 0x0300, 0x0000, 0x00FF]);
    assert!(!usb_handler_can_run(&state, &pma, &setup_irq(), 0));
    // a short packet
    put_setup(&mut pma, [0x0500, 0x0007, 0x0000, 0x0000]);
    pma.write(3, 0x1000 | 4);
    assert!(!usb_handler_can_run(&state, &pma, &setup_irq(), 0));
    // both directions at once
    pma.write(3, 0x1000 | 8);
    let both = UsbInterrupt { ctr_tx: true, ..setup_irq() };
    assert!(!usb_handler_can_run(&state, &pma, &both, 0));
    // a transmission while awaiting a setup packet
    assert!(!usb_handler_can_run(&state, &pma, &tx_irq(), 0));
    // endpoint 3
    assert!(!usb_handler_can_run(&state, &pma, &UsbInterrupt { ctr_tx: true, ..irq(3) }, 0));
    // an address where none is expected
    let sending = USB_Setup::U_Send { bm_desc_type: 1, bm_desc_idx: 0, state: EP0_Tx { w_length: 64, tx_need: 18, tx_acc: 8 } };
    assert!(!usb_handler_can_run(&sending, &pma, &tx_irq(), 3));
    assert!(usb_handler_can_run(&sending, &pma, &tx_irq(), 0));
}

#[test]
fn empty_reception_changes_nothing() {
    let mut state = USB_Setup::U_Await_Control;
    let mut pma = PacketMemory::new();
    run(&mut state, &mut pma, reset_irq(), 0);
    let before = pma.words;
    let e = handle_ep0(&mut state, &mut pma, 0, false, true, 0b10, 0b10);
    assert_eq!(e.toggle_tx, 0b00);
    assert_eq!(e.toggle_rx, 0b01);
    assert_eq!(state, USB_Setup::U_Await_Control);
    assert_eq!(pma.words, before);
}

#[test]
fn ep1_and_ep2_handlers() {
    let mut pma = PacketMemory::new();
    pma.write(5, 0x00FF);
    let (e, sent) = handle_ep1(&mut pma, true, false, 0b11, 0);
    assert_eq!(sent, 0x7F);
    assert_eq!(e.toggle_tx, 0b01);
    assert_eq!(pma.read(5), 0);
    pma.write(10, 64);
    pma.write(47, 9);
    let (e, count, data) = handle_ep2(&mut pma, false, true, 0, 0b11);
    assert_eq!(count, 0);
    assert_eq!(data[15], 9);
    assert_eq!(e.toggle_rx, 0b00);
    assert_eq!(pma.read(11), 0x8000);
}
