use vstd::prelude::*;
use crate::btable::{Endpoint_BTABLE_Entry, BTABLE_ENTRY_WORDS, PMA_WORDS};
use crate::descriptor::{
    chunk_bytes, descriptor_need, descriptor_supported, descriptor_words, min, with_descriptor_chunk,
    write_descriptor, write_descriptor_can_run, write_descriptor_ok,
};
use crate::layout::{
    USB_EP0_RX_BUFFER_SIZE_BYTES, USB_EP0_TX_BUFFER_SIZE_BYTES, USB_EP0_RX_BUFFER_SIZE_BITFIELD, USB_EP0_TX_BUFFER_BEGIN,
    USB_EP0_RX_BUFFER_BEGIN, USB_EP1_TX_BUFFER_BEGIN, USB_EP1_TX_BUFFER_SIZE_BYTES,
    USB_EP2_RX_BUFFER_BEGIN, USB_EP2_RX_BUFFER_SIZE_BYTES, USB_EP2_RX_BUFFER_SIZE_BYTES_BITFIELD,
};
use crate::pma::{
    PacketMemory, dump_sram, ep_tx_rx_buffers, rx_buffer_begin, set_addr_rx, set_addr_tx,
    set_count_rx, set_count_tx, tx_buffer_begin,
};
use crate::stat::{
    nak_toggle, stat_after_write, to_disabled, to_nak, to_valid, valid_toggle, STAT_NAK, STAT_VALID,
};
use crate::word::{split_sram_word, low_byte, high_byte, swapped};

verus! {

/// Progress of a descriptor transfer on EP0: the request's length, the bytes the
/// transfer needs, and the bytes sent so far.
#[allow(non_camel_case_types)]
#[derive(Clone, Copy, Debug, PartialEq, Eq, Structural)]
pub struct EP0_Tx {
    pub w_length: u16,
    pub tx_need: u16,
    pub tx_acc: u16,
}

/// Enumeration stage of the device. `U_` stages run before the host assigned an
/// address, `A_` stages after.
#[allow(non_camel_case_types)]
#[derive(Clone, Copy, Debug, PartialEq, Eq, Structural)]
pub enum USB_Setup {
    U_Await_Reset,
    U_Await_Control,
    U_Send { bm_desc_type: u8, bm_desc_idx: u8, state: EP0_Tx },
    U_Status,
    Addressing { new_addr: u8 },
    A_Await_Control,
    A_Send { bm_desc_type: u8, bm_desc_idx: u8, state: EP0_Tx },
    A_Status,
}

/// What an endpoint handler asks of the hardware once it returns: the values to
/// write over the STAT_TX and STAT_RX fields of its endpoint register, a device
/// address to store, whether EP1 and EP2 are to be set up as bulk endpoints, and
/// whether EP1 may be given new data to send.
#[derive(Clone, Copy, Debug, PartialEq, Eq, Structural)]
pub struct EndpointEffects {
    pub toggle_tx: u8,
    pub toggle_rx: u8,
    pub new_address: Option<u8>,
    pub configure_endpoints: bool,
    pub tx_ready: bool,
}

/// First word of the buffer descriptor of EP0.
pub open spec fn ep0_bd() -> int {
    0
}

/// The next state of a descriptor transfer once a packet of `count` bytes has
/// been queued.
pub open spec fn advanced(s: EP0_Tx, count: int) -> EP0_Tx {
    EP0_Tx { w_length: s.w_length, tx_need: s.tx_need, tx_acc: (s.tx_acc + count) as u16 }
}

/// A transfer state that a descriptor transfer can be in: a descriptor that can be
/// sent, the bytes needed as the request asks, no more sent than needed.
pub open spec fn send_state_inv(descriptor_type: u8, s: EP0_Tx) -> bool {
    &&& descriptor_supported(descriptor_type)
    &&& s.tx_need as int == descriptor_need(descriptor_type, s.w_length)
    &&& s.tx_acc <= s.tx_need
    &&& s.tx_acc < s.tx_need ==> s.tx_acc % 2 == 0
}

/// Every state that the enumeration can be in.
pub open spec fn setup_inv(state: USB_Setup) -> bool {
    match state {
        USB_Setup::U_Send { bm_desc_type, state: s, .. } => send_state_inv(bm_desc_type, s),
        USB_Setup::A_Send { bm_desc_type, state: s, .. } => send_state_inv(bm_desc_type, s),
        _ => true,
    }
}

/// A completed transmission on EP0 can be handled in `state`, with device
/// address `daddr`: a stage that expects one, the address the stage implies, and
/// a packet that can be written when one is still due.
pub open spec fn ep0_tx_ok(state: USB_Setup, mem: Seq<u16>, daddr: u8) -> bool {
    match state {
        USB_Setup::U_Send { bm_desc_type, state: s, .. } => {
            &&& daddr == 0
            &&& (s.tx_acc >= s.tx_need || write_descriptor_ok(
                mem,
                ep0_bd(),
                bm_desc_type,
                s.w_length,
                s.tx_acc,
            ))
        },
        USB_Setup::A_Send { bm_desc_type, state: s, .. } => {
            &&& daddr != 0
            &&& (s.tx_acc >= s.tx_need || write_descriptor_ok(
                mem,
                ep0_bd(),
                bm_desc_type,
                s.w_length,
                s.tx_acc,
            ))
        },
        USB_Setup::U_Status => true,
        USB_Setup::Addressing { .. } => true,
        USB_Setup::A_Status => true,
        USB_Setup::A_Await_Control => true,
        _ => false,
    }
}

/// A completed transmission on EP0: the next stage, the packet memory, the value
/// for STAT_TX and the device address to store. A descriptor transfer queues its
/// next packet until all needed bytes are sent, then awaits the status stage; a
/// pending address is stored once the status stage of SET_ADDRESS is sent.
pub open spec fn ep0_tx_next(state: USB_Setup, mem: Seq<u16>, stat_tx: u8) -> (
    USB_Setup,
    Seq<u16>,
    u8,
    Option<u8>,
) {
    match state {
        USB_Setup::U_Send { bm_desc_type: t, bm_desc_idx: i, state: s } => {
            if s.tx_acc >= s.tx_need {
                (USB_Setup::U_Status, mem.update(1, 0), nak_toggle(stat_tx), None)
            } else {
                let c = chunk_bytes(descriptor_need(t, s.w_length), s.tx_acc as int);
                (
                    USB_Setup::U_Send { bm_desc_type: t, bm_desc_idx: i, state: advanced(s, c) },
                    with_descriptor_chunk(mem, tx_buffer_begin(mem, 0), t, s.tx_acc).update(
                        1,
                        c as u16,
                    ),
                    valid_toggle(stat_tx),
                    None,
                )
            }
        },
        USB_Setup::A_Send { bm_desc_type: t, bm_desc_idx: i, state: s } => {
            if s.tx_acc >= s.tx_need {
                (USB_Setup::A_Status, mem.update(1, 0), nak_toggle(stat_tx), None)
            } else {
                let c = chunk_bytes(descriptor_need(t, s.w_length), s.tx_acc as int);
                (
                    USB_Setup::A_Send { bm_desc_type: t, bm_desc_idx: i, state: advanced(s, c) },
                    with_descriptor_chunk(mem, tx_buffer_begin(mem, 0), t, s.tx_acc).update(
                        1,
                        c as u16,
                    ),
                    valid_toggle(stat_tx),
                    None,
                )
            }
        },
        USB_Setup::U_Status => (
            USB_Setup::U_Await_Control,
            mem.update(1, 0),
            nak_toggle(stat_tx),
            None,
        ),
        USB_Setup::Addressing { new_addr } => (
            USB_Setup::A_Await_Control,
            mem.update(1, 0),
            nak_toggle(stat_tx),
            Some(new_addr),
        ),
        USB_Setup::A_Status => (
            USB_Setup::A_Await_Control,
            mem.update(1, 0),
            nak_toggle(stat_tx),
            None,
        ),
        _ => (state, mem.update(1, 0), nak_toggle(stat_tx), None),
    }
}

fn handle_ep0_tx(state: &mut USB_Setup, pma: &mut PacketMemory, daddr: u8, stat_tx: u8) -> (r: (
    u8,
    Option<u8>,
))
    requires
        ep0_tx_ok(*old(state), old(pma)@, daddr),
        stat_tx < 4,
    ensures
        *final(state) == ep0_tx_next(*old(state), old(pma)@, stat_tx).0,
        final(pma)@ == ep0_tx_next(*old(state), old(pma)@, stat_tx).1,
        r.0 == ep0_tx_next(*old(state), old(pma)@, stat_tx).2,
        r.1 == ep0_tx_next(*old(state), old(pma)@, stat_tx).3,
{
    let ep_bd = Endpoint_BTABLE_Entry::at(0);
    let mut toggle_tx = to_nak(stat_tx);
    let mut count_tx: u16 = 0;
    let mut new_address: Option<u8> = None;
    let next = match *state {
        USB_Setup::U_Send { bm_desc_type: t, bm_desc_idx: i, state: s } => {
            if s.tx_acc >= s.tx_need {
                USB_Setup::U_Status
            } else {
                toggle_tx = to_valid(stat_tx);
                let (_, c) = write_descriptor(pma, t, i, ep_bd, s.w_length, s.tx_acc);
                count_tx = c;
                USB_Setup::U_Send {
                    bm_desc_type: t,
                    bm_desc_idx: i,
                    state: EP0_Tx { w_length: s.w_length, tx_need: s.tx_need, tx_acc: s.tx_acc + c },
                }
            }
        },
        USB_Setup::A_Send { bm_desc_type: t, bm_desc_idx: i, state: s } => {
            if s.tx_acc >= s.tx_need {
                USB_Setup::A_Status
            } else {
                toggle_tx = to_valid(stat_tx);
                let (_, c) = write_descriptor(pma, t, i, ep_bd, s.w_length, s.tx_acc);
                count_tx = c;
                USB_Setup::A_Send {
                    bm_desc_type: t,
                    bm_desc_idx: i,
                    state: EP0_Tx { w_length: s.w_length, tx_need: s.tx_need, tx_acc: s.tx_acc + c },
                }
            }
        },
        USB_Setup::U_Status => USB_Setup::U_Await_Control,
        USB_Setup::Addressing { new_addr } => {
            new_address = Some(new_addr);
            USB_Setup::A_Await_Control
        },
        USB_Setup::A_Status => USB_Setup::A_Await_Control,
        other => other,
    };
    *state = next;
    set_count_tx(pma, ep_bd, count_tx);
    (toggle_tx, new_address)
}

/// Bytes received on EP0: the low nine bits of COUNT0_RX.
pub open spec fn ep0_rx_count(mem: Seq<u16>) -> int {
    mem[ep0_bd() + 3] as int % 512
}

/// Word `k` of the setup packet in the EP0 receive buffer.
pub open spec fn setup_word(mem: Seq<u16>, k: int) -> u16 {
    mem[rx_buffer_begin(mem, ep0_bd()) + k]
}

/// bmRequestType of the setup packet.
pub open spec fn request_type(mem: Seq<u16>) -> u8 {
    low_byte(setup_word(mem, 0))
}

/// bRequest of the setup packet.
pub open spec fn request(mem: Seq<u16>) -> u8 {
    high_byte(setup_word(mem, 0))
}

/// wValue of the setup packet.
pub open spec fn w_value(mem: Seq<u16>) -> u16 {
    setup_word(mem, 1)
}

/// wLength of the setup packet.
pub open spec fn w_length(mem: Seq<u16>) -> u16 {
    setup_word(mem, 3)
}

/// The setup packet is SET_ADDRESS.
pub open spec fn is_set_address(mem: Seq<u16>) -> bool {
    request_type(mem) == 0x00 && request(mem) == 0x05
}

/// The setup packet is GET_DESCRIPTOR (to the device).
pub open spec fn is_get_descriptor(mem: Seq<u16>) -> bool {
    request_type(mem) == 0x80 && request(mem) == 0x06
}

/// The setup packet is SET_CONFIGURATION.
pub open spec fn is_set_configuration(mem: Seq<u16>) -> bool {
    request_type(mem) == 0x00 && request(mem) == 0x09
}

/// A reception on EP0 can be handled: either nothing was received, or a whole
/// setup packet lies in buffers inside the packet memory and asks for one of the
/// requests the device answers (SET_ADDRESS, SET_CONFIGURATION, or
/// GET_DESCRIPTOR of a descriptor it has).
pub open spec fn ep0_rx_ok(mem: Seq<u16>) -> bool {
    ep0_rx_count(mem) > 0 ==> {
        &&& tx_buffer_begin(mem, ep0_bd()) + USB_EP0_RX_BUFFER_SIZE_BYTES / 2 <= PMA_WORDS
        &&& rx_buffer_begin(mem, ep0_bd()) + ep0_rx_count(mem) / 2 <= PMA_WORDS
        &&& ep0_rx_count(mem) / 2 >= 4
        &&& {
            ||| is_set_address(mem)
            ||| is_set_configuration(mem)
            ||| is_get_descriptor(mem) && write_descriptor_ok(
                mem,
                ep0_bd(),
                high_byte(w_value(mem)),
                w_length(mem),
                0,
            )
        }
    }
}

/// The packet memory once EP1 transmits from its buffer with nothing queued and
/// EP2 receives into its buffer with the allocation written.
pub open spec fn with_bulk_endpoints(mem: Seq<u16>) -> Seq<u16> {
    mem.update(4, (2 * USB_EP1_TX_BUFFER_BEGIN) as u16).update(5, 0).update(
        10,
        (2 * USB_EP2_RX_BUFFER_BEGIN) as u16,
    ).update(11, USB_EP2_RX_BUFFER_SIZE_BYTES_BITFIELD)
}

/// A reception on EP0: the next stage, the packet memory, the value for STAT_TX
/// and whether the bulk endpoints are to be set up. SET_ADDRESS queues an empty
/// status packet and keeps the address until that packet is sent;
/// GET_DESCRIPTOR queues the first packet of the descriptor; SET_CONFIGURATION
/// sets up EP1 and EP2. An empty reception changes nothing.
pub open spec fn ep0_rx_next(state: USB_Setup, mem: Seq<u16>, daddr: u8, stat_tx: u8) -> (
    USB_Setup,
    Seq<u16>,
    u8,
    bool,
) {
    if ep0_rx_count(mem) == 0 {
        (state, mem, nak_toggle(stat_tx), false)
    } else if is_set_address(mem) {
        (
            USB_Setup::Addressing { new_addr: w_value(mem) as u8 },
            mem.update(1, 0),
            valid_toggle(stat_tx),
            false,
        )
    } else if is_get_descriptor(mem) {
        let t = high_byte(w_value(mem));
        let i = low_byte(w_value(mem));
        let need = descriptor_need(t, w_length(mem));
        let acc = chunk_bytes(need, 0);
        let s = EP0_Tx { w_length: w_length(mem), tx_need: need as u16, tx_acc: acc as u16 };
        (
            if daddr == 0 {
                USB_Setup::U_Send { bm_desc_type: t, bm_desc_idx: i, state: s }
            } else {
                USB_Setup::A_Send { bm_desc_type: t, bm_desc_idx: i, state: s }
            },
            with_descriptor_chunk(mem, tx_buffer_begin(mem, ep0_bd()), t, 0).update(1, acc as u16),
            valid_toggle(stat_tx),
            false,
        )
    } else {
        (USB_Setup::A_Await_Control, with_bulk_endpoints(mem), valid_toggle(stat_tx), true)
    }
}

fn handle_ep0_rx(state: &mut USB_Setup, pma: &mut PacketMemory, daddr: u8, stat_tx: u8) -> (r: (
    u8,
    bool,
))
    requires
        ep0_rx_ok(old(pma)@),
        stat_tx < 4,
    ensures
        *final(state) == ep0_rx_next(*old(state), old(pma)@, daddr, stat_tx).0,
        final(pma)@ == ep0_rx_next(*old(state), old(pma)@, daddr, stat_tx).1,
        r.0 == ep0_rx_next(*old(state), old(pma)@, daddr, stat_tx).2,
        r.1 == ep0_rx_next(*old(state), old(pma)@, daddr, stat_tx).3,
{
    let ep_bd = Endpoint_BTABLE_Entry::at(0);
    let toggle_nak = to_nak(stat_tx);
    let e = pma.entry(ep_bd);
    let count_field = e.count_rx.get();
    let rx_count: u16 = count_field & 0x01ff;
    assert(count_field & 0x01ff == count_field % 512) by (bit_vector);
    if 0 < rx_count {
        let (_, rx_content) = ep_tx_rx_buffers(
            pma,
            ep_bd,
            USB_EP0_RX_BUFFER_SIZE_BYTES,
            rx_count as usize,
        );
        let word = pma.read_buffer(rx_content, 0);
        let (bm_request_type, bm_request) = split_sram_word(word);
        let w_value = pma.read_buffer(rx_content, 1);
        let w_length = pma.read_buffer(rx_content, 3);
        let toggle_tx = to_valid(stat_tx);
        if bm_request_type == 0x00 && bm_request == 0x05 {
            set_count_tx(pma, ep_bd, 0);
            *state = USB_Setup::Addressing { new_addr: w_value as u8 };
            (toggle_tx, false)
        } else if bm_request_type == 0x80 && bm_request == 0x06 {
            let (bm_desc_idx, bm_desc_type) = split_sram_word(w_value);
            let (tx_need, tx_acc) = write_descriptor(
                pma,
                bm_desc_type,
                bm_desc_idx,
                ep_bd,
                w_length,
                0,
            );
            set_count_tx(pma, ep_bd, tx_acc);
            let s = EP0_Tx { w_length, tx_need, tx_acc };
            *state = if daddr == 0 {
                USB_Setup::U_Send { bm_desc_type, bm_desc_idx, state: s }
            } else {
                USB_Setup::A_Send { bm_desc_type, bm_desc_idx, state: s }
            };
            (toggle_tx, false)
        } else {
            // SET_CONFIGURATION, the one request left that the device answers
            let ep1_bd = Endpoint_BTABLE_Entry::at(1);
            set_addr_tx(pma, ep1_bd, USB_EP1_TX_BUFFER_BEGIN as u16);
            set_count_tx(pma, ep1_bd, 0);
            let ep2_bd = Endpoint_BTABLE_Entry::at(2);
            set_addr_rx(pma, ep2_bd, USB_EP2_RX_BUFFER_BEGIN as u16);
            set_count_rx(pma, ep2_bd, USB_EP2_RX_BUFFER_SIZE_BYTES_BITFIELD);
            *state = USB_Setup::A_Await_Control;
            (toggle_tx, true)
        }
    } else {
        (toggle_nak, false)
    }
}

/// EP0 can be serviced: two-bit STAT fields, not both directions at once (EP0
/// shares one buffer between them), and whichever direction completed can be
/// handled.
pub open spec fn handle_ep0_ok(
    state: USB_Setup,
    mem: Seq<u16>,
    daddr: u8,
    handle_tx: bool,
    handle_rx: bool,
    stat_tx: u8,
    stat_rx: u8,
) -> bool {
    &&& stat_tx < 4
    &&& stat_rx < 4
    &&& !(handle_tx && handle_rx)
    &&& handle_tx ==> ep0_tx_ok(state, mem, daddr)
    &&& handle_rx ==> ep0_rx_ok(mem)
}

/// Servicing EP0: the next stage, the packet memory and what the hardware is
/// asked to do. Reception is always re-armed (STAT_RX to VALID); transmission is
/// armed when a packet was queued and set to NAK otherwise.
pub open spec fn handle_ep0_next(
    state: USB_Setup,
    mem: Seq<u16>,
    daddr: u8,
    handle_tx: bool,
    handle_rx: bool,
    stat_tx: u8,
    stat_rx: u8,
) -> (USB_Setup, Seq<u16>, EndpointEffects) {
    if handle_tx {
        let n = ep0_tx_next(state, mem, stat_tx);
        (
            n.0,
            n.1,
            EndpointEffects {
                toggle_tx: n.2,
                toggle_rx: valid_toggle(stat_rx),
                new_address: n.3,
                configure_endpoints: false,
                tx_ready: false,
            },
        )
    } else if handle_rx {
        let n = ep0_rx_next(state, mem, daddr, stat_tx);
        (
            n.0,
            n.1,
            EndpointEffects {
                toggle_tx: n.2,
                toggle_rx: valid_toggle(stat_rx),
                new_address: None,
                configure_endpoints: n.3,
                tx_ready: n.3,
            },
        )
    } else {
        (
            state,
            mem,
            EndpointEffects {
                toggle_tx: nak_toggle(stat_tx),
                toggle_rx: valid_toggle(stat_rx),
                new_address: None,
                configure_endpoints: false,
                tx_ready: false,
            },
        )
    }
}

/// Services a completed transfer on EP0 (the control endpoint) during enumeration,
/// with `daddr` the device address the hardware holds.
pub fn handle_ep0(
    state: &mut USB_Setup,
    pma: &mut PacketMemory,
    daddr: u8,
    handle_tx: bool,
    handle_rx: bool,
    stat_tx: u8,
    stat_rx: u8,
) -> (r: EndpointEffects)
    requires
        handle_ep0_ok(*old(state), old(pma)@, daddr, handle_tx, handle_rx, stat_tx, stat_rx),
    ensures
        *final(state) == handle_ep0_next(
            *old(state),
            old(pma)@,
            daddr,
            handle_tx,
            handle_rx,
            stat_tx,
            stat_rx,
        ).0,
        final(pma)@ == handle_ep0_next(
            *old(state),
            old(pma)@,
            daddr,
            handle_tx,
            handle_rx,
            stat_tx,
            stat_rx,
        ).1,
        r == handle_ep0_next(*old(state), old(pma)@, daddr, handle_tx, handle_rx, stat_tx, stat_rx).2,
        setup_inv(*old(state)) ==> setup_inv(*final(state)),
        r.new_address is Some ==> handle_tx && *old(state) == (USB_Setup::Addressing {
            new_addr: r.new_address->Some_0,
        }),
        stat_after_write(stat_rx, r.toggle_rx) == STAT_VALID,
        r.tx_ready == r.configure_endpoints,
        r.tx_ready ==> handle_rx && !handle_tx && ep1_configured(final(pma)@),
        handle_rx && ep0_rx_count(old(pma)@) > 0 ==> stat_after_write(stat_tx, r.toggle_tx)
            == STAT_VALID,
        handle_rx && ep0_rx_count(old(pma)@) > 0 && is_set_address(old(pma)@) ==> final(pma)@[ep0_bd()
            + 1] == 0,
{
    let ghost old_state = *state;
    let ghost old_mem = pma@;
    proof {
        lemma_toggle_targets(stat_tx);
        lemma_toggle_targets(stat_rx);
        if handle_rx {
            lemma_ep0_reception(old_state, old_mem, daddr, stat_tx, stat_rx);
        }
    }
    let mut toggle_tx = to_nak(stat_tx);
    let mut new_address: Option<u8> = None;
    let mut configure = false;
    if handle_tx {
        let (t, a) = handle_ep0_tx(state, pma, daddr, stat_tx);
        toggle_tx = t;
        new_address = a;
    }
    if handle_rx {
        let (t, c) = handle_ep0_rx(state, pma, daddr, stat_tx);
        toggle_tx = t;
        configure = c;
    }
    EndpointEffects {
        toggle_tx,
        toggle_rx: to_valid(stat_rx),
        new_address,
        configure_endpoints: configure,
        tx_ready: configure,
    }
}

/// First word of the buffer descriptor of EP1.
pub open spec fn ep1_bd() -> int {
    4
}

/// First word of the buffer descriptor of EP2.
pub open spec fn ep2_bd() -> int {
    8
}

/// What EP1 (bulk IN) asks once a transmission completed: STAT_TX to NAK,
/// STAT_RX untouched, and new data may be queued.
pub open spec fn ep1_effects(stat_tx: u8) -> EndpointEffects {
    EndpointEffects {
        toggle_tx: nak_toggle(stat_tx),
        toggle_rx: 0,
        new_address: None,
        configure_endpoints: false,
        tx_ready: true,
    }
}

/// What EP2 (bulk OUT) asks once a reception completed: STAT_TX untouched and
/// reception re-armed.
pub open spec fn ep2_effects(stat_rx: u8) -> EndpointEffects {
    EndpointEffects {
        toggle_tx: 0,
        toggle_rx: valid_toggle(stat_rx),
        new_address: None,
        configure_endpoints: false,
        tx_ready: false,
    }
}

/// Services a completed transmission on EP1: clears the transmit count and
/// returns the effects and the low seven bits of the count that was sent.
pub fn handle_ep1(
    pma: &mut PacketMemory,
    handle_tx: bool,
    _handle_rx: bool,
    stat_tx: u8,
    _stat_rx: u8,
) -> (r: (EndpointEffects, u16))
    requires
        handle_tx,
        stat_tx < 4,
    ensures
        final(pma)@ == old(pma)@.update(ep1_bd() + 1, 0),
        r.0 == ep1_effects(stat_tx),
        r.1 == old(pma)@[ep1_bd() + 1] % 128,
        stat_after_write(stat_tx, r.0.toggle_tx) == STAT_NAK,
        stat_after_write(_stat_rx, r.0.toggle_rx) == _stat_rx,
{
    proof {
        lemma_toggle_targets(stat_tx);
        assert(_stat_rx ^ 0u8 == _stat_rx) by (bit_vector);
    }
    let ep_bd = Endpoint_BTABLE_Entry::at(1);
    let sent_field = pma.entry(ep_bd).count_tx.get();
    let sent: u16 = sent_field & 0x007F;
    assert(sent_field & 0x007F == sent_field % 128) by (bit_vector);
    set_count_tx(pma, ep_bd, 0);
    (
        EndpointEffects {
            toggle_tx: to_nak(stat_tx),
            toggle_rx: 0,
            new_address: None,
            configure_endpoints: false,
            tx_ready: true,
        },
        sent,
    )
}

/// EP2 can be serviced: a reception completed, a two-bit STAT_RX field, and its
/// buffer windows inside the packet memory.
pub open spec fn handle_ep2_ok(mem: Seq<u16>, handle_rx: bool, stat_rx: u8) -> bool {
    &&& handle_rx
    &&& stat_rx < 4
    &&& tx_buffer_begin(mem, ep2_bd()) <= PMA_WORDS
    &&& rx_buffer_begin(mem, ep2_bd()) + USB_EP2_RX_BUFFER_SIZE_BYTES / 2 <= PMA_WORDS
}

/// Services a completed reception on EP2: copies out its buffer, re-arms the
/// receive count, and returns the effects, the low seven bits of the received
/// byte count and the buffer's words.
pub fn handle_ep2(
    pma: &mut PacketMemory,
    _handle_tx: bool,
    handle_rx: bool,
    _stat_tx: u8,
    stat_rx: u8,
) -> (r: (EndpointEffects, u16, [u16; 16]))
    requires
        handle_ep2_ok(old(pma)@, handle_rx, stat_rx),
    ensures
        final(pma)@ == old(pma)@.update(ep2_bd() + 3, USB_EP2_RX_BUFFER_SIZE_BYTES_BITFIELD),
        r.0 == ep2_effects(stat_rx),
        r.1 == old(pma)@[ep2_bd() + 3] % 128,
        stat_after_write(stat_rx, r.0.toggle_rx) == STAT_VALID,
        stat_after_write(_stat_tx, r.0.toggle_tx) == _stat_tx,
        !r.0.tx_ready,
        r.2@ == old(pma)@.subrange(
            rx_buffer_begin(old(pma)@, ep2_bd()),
            rx_buffer_begin(old(pma)@, ep2_bd()) + 16,
        ),
{
    proof {
        lemma_toggle_targets(stat_rx);
        assert(_stat_tx ^ 0u8 == _stat_tx) by (bit_vector);
    }
    let ep_bd = Endpoint_BTABLE_Entry::at(2);
    let (_, rx_buf) = ep_tx_rx_buffers(pma, ep_bd, 0, USB_EP2_RX_BUFFER_SIZE_BYTES);
    let mut out_buf = [0u16; 16];
    dump_sram(pma, rx_buf, &mut out_buf);
    let count_field = pma.entry(ep_bd).count_rx.get();
    let received: u16 = count_field & 0x007F;
    assert(count_field & 0x007F == count_field % 128) by (bit_vector);
    assert(out_buf@ =~= old(pma)@.subrange(
        rx_buffer_begin(old(pma)@, ep2_bd()),
        rx_buffer_begin(old(pma)@, ep2_bd()) + 16,
    ));
    set_count_rx(pma, ep_bd, USB_EP2_RX_BUFFER_SIZE_BYTES_BITFIELD);
    (
        EndpointEffects {
            toggle_tx: 0,
            toggle_rx: to_valid(stat_rx),
            new_address: None,
            configure_endpoints: false,
            tx_ready: false,
        },
        received,
        out_buf,
    )
}

/// What the USB interrupt handler reads from the hardware: from ISTR the
/// endpoint and the RESET and CTR flags, from that endpoint's register the SETUP,
/// CTR_TX and CTR_RX flags and the STAT_TX and STAT_RX fields.
#[derive(Clone, Copy, Debug, PartialEq, Eq, Structural)]
pub struct UsbInterrupt {
    pub endpoint: usize,
    pub reset: bool,
    pub ctr: bool,
    pub setup: bool,
    pub ctr_tx: bool,
    pub ctr_rx: bool,
    pub stat_tx: u8,
    pub stat_rx: u8,
}

/// What an endpoint handler hands out for the log: nothing, the count EP1 sent,
/// or the count and words EP2 received.
#[derive(Clone, Copy, Debug)]
pub enum EndpointReport {
    Nothing,
    Transmitted { count: u16 },
    Received { count: u16, data: [u16; 16] },
}

/// How the USB interrupt handler answered: the interrupt carried no event; a bus
/// reset (with the values for STAT_RX and STAT_TX of EP0); or an endpoint was
/// serviced.
#[derive(Clone, Copy, Debug)]
pub enum UsbResponse {
    Ignored,
    Reset { stat_rx: u8, stat_tx: u8 },
    Handled { effects: EndpointEffects, report: EndpointReport },
}

/// The interrupt reports an event: a bus reset, a completed transfer, or a setup packet.
pub open spec fn is_event(irq: UsbInterrupt) -> bool {
    irq.reset || irq.ctr || irq.setup
}

/// The packet memory after a bus reset: EP0 transmits and receives in its buffer,
/// nothing queued, the receive allocation written.
pub open spec fn with_ep0_reset(mem: Seq<u16>) -> Seq<u16> {
    mem.update(0, (2 * USB_EP0_TX_BUFFER_BEGIN) as u16).update(
        2,
        (2 * USB_EP0_RX_BUFFER_BEGIN) as u16,
    ).update(1, 0).update(3, USB_EP0_RX_BUFFER_SIZE_BITFIELD)
}

/// The interrupt can be handled: nothing to do when it carries no event; a reset
/// needs a two-bit STAT_RX; otherwise the endpoint is one of the three in use and
/// its handler can run.
pub open spec fn usb_handler_ok(state: USB_Setup, mem: Seq<u16>, irq: UsbInterrupt, daddr: u8) -> bool {
    is_event(irq) ==> if irq.reset {
        irq.stat_rx < 4
    } else if irq.endpoint == 0 {
        handle_ep0_ok(
            state,
            mem,
            daddr,
            irq.ctr_tx,
            irq.ctr_rx || irq.setup,
            irq.stat_tx,
            irq.stat_rx,
        )
    } else if irq.endpoint == 1 {
        irq.ctr_tx && irq.stat_tx < 4
    } else if irq.endpoint == 2 {
        handle_ep2_ok(mem, irq.ctr_rx || irq.setup, irq.stat_rx)
    } else {
        false
    }
}

/// Handles a USB interrupt: a bus reset sets up EP0 and restarts enumeration; a
/// completed transfer or setup packet goes to its endpoint's handler, with the
/// transmit direction handled when CTR_TX is set and the receive direction when
/// CTR_RX or SETUP is.
pub fn usb_handler(state: &mut USB_Setup, pma: &mut PacketMemory, irq: UsbInterrupt, daddr: u8) -> (r:
    UsbResponse)
    requires
        usb_handler_ok(*old(state), old(pma)@, irq, daddr),
    ensures
        !is_event(irq) ==> r == UsbResponse::Ignored && *final(state) == *old(state) && final(pma)@
            == old(pma)@,
        is_event(irq) && irq.reset ==> {
            &&& r == UsbResponse::Reset { stat_rx: valid_toggle(irq.stat_rx), stat_tx: irq.stat_tx }
            &&& stat_after_write(irq.stat_rx, valid_toggle(irq.stat_rx)) == STAT_VALID
            &&& stat_after_write(irq.stat_tx, irq.stat_tx) == crate::stat::STAT_DISABLED
            &&& *final(state) == USB_Setup::U_Await_Control
            &&& final(pma)@ == with_ep0_reset(old(pma)@)
        },
        is_event(irq) && !irq.reset && irq.endpoint == 0 ==> {
            let n = handle_ep0_next(
                *old(state),
                old(pma)@,
                daddr,
                irq.ctr_tx,
                irq.ctr_rx || irq.setup,
                irq.stat_tx,
                irq.stat_rx,
            );
            &&& r == UsbResponse::Handled { effects: n.2, report: EndpointReport::Nothing }
            &&& *final(state) == n.0
            &&& final(pma)@ == n.1
        },
        is_event(irq) && !irq.reset && irq.endpoint == 1 ==> {
            &&& r == UsbResponse::Handled {
                effects: ep1_effects(irq.stat_tx),
                report: EndpointReport::Transmitted { count: (old(pma)@[ep1_bd() + 1] % 128) as u16 },
            }
            &&& *final(state) == *old(state)
            &&& final(pma)@ == old(pma)@.update(ep1_bd() + 1, 0)
        },
        is_event(irq) && !irq.reset && irq.endpoint == 2 ==> {
            &&& r matches UsbResponse::Handled {
                effects,
                report: EndpointReport::Received { count, data },
            } && effects == ep2_effects(irq.stat_rx) && count == old(pma)@[ep2_bd() + 3] % 128
                && data@ == old(pma)@.subrange(
                rx_buffer_begin(old(pma)@, ep2_bd()),
                rx_buffer_begin(old(pma)@, ep2_bd()) + 16,
            )
            &&& *final(state) == *old(state)
            &&& final(pma)@ == old(pma)@.update(
                ep2_bd() + 3,
                USB_EP2_RX_BUFFER_SIZE_BYTES_BITFIELD,
            )
        },
        setup_inv(*old(state)) ==> setup_inv(*final(state)),
        layout_inv(old(pma)@) ==> layout_inv(final(pma)@),
        is_event(irq) && irq.reset && bulk_descriptors_inv(old(pma)@) ==> layout_inv(final(pma)@),
        addr_consistent(*old(state), daddr) ==> addr_consistent(
            *final(state),
            address_after(r, daddr),
        ),
{
    if !(irq.reset || irq.ctr || irq.setup) {
        return UsbResponse::Ignored;
    }
    if irq.reset {
        let ep0_btable = Endpoint_BTABLE_Entry::at(0);
        set_addr_tx(pma, ep0_btable, USB_EP0_TX_BUFFER_BEGIN as u16);
        set_addr_rx(pma, ep0_btable, USB_EP0_RX_BUFFER_BEGIN as u16);
        set_count_tx(pma, ep0_btable, 0);
        set_count_rx(pma, ep0_btable, USB_EP0_RX_BUFFER_SIZE_BITFIELD);
        *state = USB_Setup::U_Await_Control;
        proof {
            lemma_toggle_targets(irq.stat_rx);
        }
        return UsbResponse::Reset { stat_rx: to_valid(irq.stat_rx), stat_tx: to_disabled(irq.stat_tx) };
    }
    let handle_tx = irq.ctr_tx;
    let handle_rx = irq.ctr_rx || irq.setup;
    if irq.endpoint == 0 {
        let effects = handle_ep0(state, pma, daddr, handle_tx, handle_rx, irq.stat_tx, irq.stat_rx);
        UsbResponse::Handled { effects, report: EndpointReport::Nothing }
    } else if irq.endpoint == 1 {
        let (effects, count) = handle_ep1(pma, handle_tx, handle_rx, irq.stat_tx, irq.stat_rx);
        UsbResponse::Handled { effects, report: EndpointReport::Transmitted { count } }
    } else {
        let (effects, count, data) = handle_ep2(pma, handle_tx, handle_rx, irq.stat_tx, irq.stat_rx);
        UsbResponse::Handled { effects, report: EndpointReport::Received { count, data } }
    }
}

/// The descriptors of EP1 and EP2 hold what the firmware writes into them: either
/// nothing yet or the buffers of the layout; their unused addresses stay zero.
pub open spec fn bulk_descriptors_inv(mem: Seq<u16>) -> bool {
    &&& mem.len() == PMA_WORDS
    &&& (mem[ep1_bd()] == 0 || mem[ep1_bd()] == 2 * USB_EP1_TX_BUFFER_BEGIN)
    &&& mem[ep1_bd() + 2] == 0
    &&& mem[ep2_bd()] == 0
    &&& (mem[ep2_bd() + 2] == 0 || mem[ep2_bd() + 2] == 2 * USB_EP2_RX_BUFFER_BEGIN)
}

/// The descriptor table describes the buffer layout: EP0 transmits and receives
/// in its buffer, and EP1 and EP2 are unset or set to theirs.
pub open spec fn layout_inv(mem: Seq<u16>) -> bool {
    &&& bulk_descriptors_inv(mem)
    &&& mem[ep0_bd()] == 2 * USB_EP0_TX_BUFFER_BEGIN
    &&& mem[ep0_bd() + 2] == 2 * USB_EP0_RX_BUFFER_BEGIN
}

/// EP1's transmit buffer is set (SET_CONFIGURATION was handled).
pub open spec fn ep1_configured(mem: Seq<u16>) -> bool {
    mem[ep1_bd()] == 2 * USB_EP1_TX_BUFFER_BEGIN
}

/// The main loop's test data on EP1: ten words counting up from 0x30 in the
/// transmit buffer, and a transmit count of ten bytes.
pub open spec fn with_ep1_pattern(mem: Seq<u16>) -> Seq<u16> {
    Seq::new(
        mem.len(),
        |j: int|
            if tx_buffer_begin(mem, ep1_bd()) <= j < tx_buffer_begin(mem, ep1_bd()) + 10 {
                (0x30 + (j - tx_buffer_begin(mem, ep1_bd()))) as u16
            } else {
                mem[j]
            },
    ).update(ep1_bd() + 1, 10)
}

/// Both EP1 buffer windows lie inside the packet memory.
pub open spec fn fill_ep1_ok(mem: Seq<u16>) -> bool {
    &&& tx_buffer_begin(mem, ep1_bd()) + USB_EP1_TX_BUFFER_SIZE_BYTES / 2 <= PMA_WORDS
    &&& rx_buffer_begin(mem, ep1_bd()) <= PMA_WORDS
}

/// Queues the test data on EP1 once it is ready to transmit.
pub fn fill_ep1_tx_buffer(pma: &mut PacketMemory)
    requires
        fill_ep1_ok(old(pma)@),
    ensures
        final(pma)@ == with_ep1_pattern(old(pma)@),
        layout_inv(old(pma)@) && ep1_configured(old(pma)@) ==> layout_inv(final(pma)@),
{
    let ep_bd = Endpoint_BTABLE_Entry::at(1);
    let (tx_buf, _) = ep_tx_rx_buffers(pma, ep_bd, USB_EP1_TX_BUFFER_SIZE_BYTES, 0);
    let n: usize = if tx_buf.len < 10 {
        tx_buf.len
    } else {
        10
    };
    let ghost old_mem = pma@;
    let mut i: usize = 0;
    while i < n
        invariant
            n == 10,
            n <= tx_buf.len,
            tx_buf.in_memory(),
            tx_buf.begin == tx_buffer_begin(old_mem, ep1_bd()),
            i <= n,
            pma@.len() == old_mem.len(),
            forall|j: int|
                0 <= j < pma@.len() ==> #[trigger] pma@[j] == (if tx_buf.begin <= j < tx_buf.begin
                    + i {
                    (0x30 + (j - tx_buf.begin)) as u16
                } else {
                    old_mem[j]
                }),
        decreases n - i,
    {
        pma.write_buffer(tx_buf, i, (0x30 + i) as u16);
        i = i + 1;
    }
    set_count_tx(pma, ep_bd, 10);
    assert(pma@ =~= with_ep1_pattern(old_mem));
}

fn ep0_tx_can_run(state: &USB_Setup, pma: &PacketMemory, daddr: u8) -> (r: bool)
    ensures
        r == ep0_tx_ok(*state, pma@, daddr),
{
    match *state {
        USB_Setup::U_Send { bm_desc_type, state: s, .. } => daddr == 0 && (s.tx_acc >= s.tx_need
            || write_descriptor_can_run(pma, bm_desc_type, 0, s.w_length, s.tx_acc)),
        USB_Setup::A_Send { bm_desc_type, state: s, .. } => daddr != 0 && (s.tx_acc >= s.tx_need
            || write_descriptor_can_run(pma, bm_desc_type, 0, s.w_length, s.tx_acc)),
        USB_Setup::U_Status => true,
        USB_Setup::Addressing { .. } => true,
        USB_Setup::A_Status => true,
        USB_Setup::A_Await_Control => true,
        _ => false,
    }
}

fn ep0_rx_can_run(pma: &PacketMemory) -> (r: bool)
    ensures
        r == ep0_rx_ok(pma@),
{
    let count_field = pma.read(1 + 2);
    let rx_count: u16 = count_field & 0x01ff;
    assert(count_field & 0x01ff == count_field % 512) by (bit_vector);
    if rx_count == 0 {
        return true;
    }
    let at = pma.read(0) as usize / 2;
    let ar = pma.read(2) as usize / 2;
    if at + USB_EP0_RX_BUFFER_SIZE_BYTES / 2 > PMA_WORDS || ar + (rx_count as usize) / 2 > PMA_WORDS
        || (rx_count as usize) / 2 < 4 {
        return false;
    }
    let (bm_request_type, bm_request) = split_sram_word(pma.read(ar));
    let w_value = pma.read(ar + 1);
    let w_length = pma.read(ar + 3);
    let (_, bm_desc_type) = split_sram_word(w_value);
    (bm_request_type == 0x00 && bm_request == 0x05) || (bm_request_type == 0x00 && bm_request
        == 0x09) || (bm_request_type == 0x80 && bm_request == 0x06 && write_descriptor_can_run(
        pma,
        bm_desc_type,
        0,
        w_length,
        0,
    ))
}

/// Whether `usb_handler` can handle this interrupt; where it cannot, the
/// firmware stops.
pub fn usb_handler_can_run(state: &USB_Setup, pma: &PacketMemory, irq: &UsbInterrupt, daddr: u8) -> (r:
    bool)
    ensures
        r == usb_handler_ok(*state, pma@, *irq, daddr),
{
    if !(irq.reset || irq.ctr || irq.setup) {
        true
    } else if irq.reset {
        irq.stat_rx < 4
    } else if irq.endpoint == 0 {
        let handle_tx = irq.ctr_tx;
        let handle_rx = irq.ctr_rx || irq.setup;
        irq.stat_tx < 4 && irq.stat_rx < 4 && !(handle_tx && handle_rx) && (!handle_tx
            || ep0_tx_can_run(state, pma, daddr)) && (!handle_rx || ep0_rx_can_run(pma))
    } else if irq.endpoint == 1 {
        irq.ctr_tx && irq.stat_tx < 4
    } else if irq.endpoint == 2 {
        let at = pma.read(8) as usize / 2;
        let ar = pma.read(8 + 2) as usize / 2;
        (irq.ctr_rx || irq.setup) && irq.stat_rx < 4 && at <= PMA_WORDS && ar
            + USB_EP2_RX_BUFFER_SIZE_BYTES / 2 <= PMA_WORDS
    } else {
        false
    }
}

/// Whether `fill_ep1_tx_buffer` can run.
pub fn fill_ep1_can_run(pma: &PacketMemory) -> (r: bool)
    ensures
        r == fill_ep1_ok(pma@),
{
    let at = pma.read(4) as usize / 2;
    let ar = pma.read(4 + 2) as usize / 2;
    at + USB_EP1_TX_BUFFER_SIZE_BYTES / 2 <= PMA_WORDS && ar <= PMA_WORDS
}

/// Byte `k` of the descriptor of type `descriptor_type`, in the order it is sent.
pub open spec fn descriptor_byte(descriptor_type: u8, k: int) -> u8 {
    if k % 2 == 0 {
        high_byte(descriptor_words(descriptor_type)[k / 2])
    } else {
        low_byte(descriptor_words(descriptor_type)[k / 2])
    }
}

/// Byte `k` of the packet in the buffer at word `at`, in the order the hardware
/// sends it (least significant byte of each word first).
pub open spec fn buffer_byte(mem: Seq<u16>, at: int, k: int) -> u8 {
    if k % 2 == 0 {
        low_byte(mem[at + k / 2])
    } else {
        high_byte(mem[at + k / 2])
    }
}

/// Every packet of a descriptor transfer carries, in order, the descriptor's
/// bytes from the count already sent on: byte `k` of the packet queued once
/// `s.tx_acc` bytes went out is byte `s.tx_acc + k` of the descriptor.
pub proof fn lemma_packet_carries_descriptor(
    mem: Seq<u16>,
    at: int,
    descriptor_type: u8,
    s: EP0_Tx,
    k: int,
)
    requires
        send_state_inv(descriptor_type, s),
        s.tx_acc < s.tx_need,
        0 <= at,
        at + 4 <= mem.len(),
        0 <= k < chunk_bytes(s.tx_need as int, s.tx_acc as int),
    ensures
        buffer_byte(with_descriptor_chunk(mem, at, descriptor_type, s.tx_acc), at, k)
            == descriptor_byte(descriptor_type, s.tx_acc + k),
{
    let acc = s.tx_acc as int;
    let len = descriptor_words(descriptor_type).len() as int;
    assert(acc % 2 == 0);
    assert((acc + k) / 2 == acc / 2 + k / 2);
    assert((acc + k) % 2 == k % 2);
    assert(k / 2 < 4);
    assert(acc / 2 + k / 2 < len);
    let m = with_descriptor_chunk(mem, at, descriptor_type, s.tx_acc);
    assert(m[at + k / 2] == swapped(descriptor_words(descriptor_type)[acc / 2 + k / 2]));
}

/// One completed transmission of a descriptor transfer that still owes bytes
/// queues between one and eight more, never more than are owed, and the
/// transfer state stays one the enumeration can be in.
pub proof fn lemma_send_progress(descriptor_type: u8, s: EP0_Tx)
    requires
        send_state_inv(descriptor_type, s),
        s.tx_acc < s.tx_need,
    ensures
        ({
            let c = chunk_bytes(descriptor_need(descriptor_type, s.w_length), s.tx_acc as int);
            &&& 0 < c <= USB_EP0_RX_BUFFER_SIZE_BYTES
            &&& advanced(s, c).tx_acc == min(s.tx_need as int, s.tx_acc + 8)
            &&& send_state_inv(descriptor_type, advanced(s, c))
        }),
{
}

/// The first packet of a GET_DESCRIPTOR answer starts at the descriptor's first
/// byte, and its transfer state is one the enumeration can be in.
pub proof fn lemma_first_packet(descriptor_type: u8, w_length: u16)
    requires
        descriptor_supported(descriptor_type),
    ensures
        ({
            let need = descriptor_need(descriptor_type, w_length);
            let s = EP0_Tx {
                w_length,
                tx_need: need as u16,
                tx_acc: chunk_bytes(need, 0) as u16,
            };
            &&& send_state_inv(descriptor_type, s)
            &&& s.tx_acc == min(need, 8)
        }),
{
}

/// The device address matches the stage: a transfer of the unaddressed stages
/// runs at address zero, one of the addressed stages at a non-zero address.
pub open spec fn addr_consistent(state: USB_Setup, daddr: u8) -> bool {
    match state {
        USB_Setup::U_Send { .. } => daddr == 0,
        USB_Setup::A_Send { .. } => daddr != 0,
        _ => true,
    }
}

/// The device address once the firmware has applied `r`: zero after a bus reset,
/// the new address where the handler asks for one, unchanged otherwise.
pub open spec fn address_after(r: UsbResponse, daddr: u8) -> u8 {
    match r {
        UsbResponse::Reset { .. } => 0,
        UsbResponse::Handled { effects, .. } => match effects.new_address {
            Some(a) => a,
            None => daddr,
        },
        UsbResponse::Ignored => daddr,
    }
}

/// A cleared packet memory is ready for the first bus reset: the bulk endpoints'
/// descriptors are as the invariant expects, so the reset establishes the layout.
pub proof fn lemma_cleared_memory_awaits_reset()
    ensures
        bulk_descriptors_inv(Seq::new(PMA_WORDS as nat, |i: int| 0u16)),
{
}

/// With the layout in place, every buffer window the handlers and the main loop
/// use lies inside the packet memory: EP0's in both directions for packets up to
/// its buffer size, EP2's receive window, and EP1's transmit window once it is set.
pub proof fn lemma_layout_buffers(mem: Seq<u16>)
    requires
        layout_inv(mem),
    ensures
        tx_buffer_begin(mem, ep0_bd()) + USB_EP0_RX_BUFFER_SIZE_BYTES / 2 <= PMA_WORDS,
        rx_buffer_begin(mem, ep0_bd()) + USB_EP0_RX_BUFFER_SIZE_BYTES / 2 <= PMA_WORDS,
        tx_buffer_begin(mem, ep2_bd()) <= PMA_WORDS,
        rx_buffer_begin(mem, ep2_bd()) + USB_EP2_RX_BUFFER_SIZE_BYTES / 2 <= PMA_WORDS,
        ep1_configured(mem) ==> fill_ep1_ok(mem),
{
}

/// With the enumeration, layout and address invariants, a completed transmission
/// on EP0 is refused only in the stages that expect none (awaiting reset or a
/// setup packet): a descriptor transfer never owes more than it can send.
pub proof fn lemma_transmit_never_refused(state: USB_Setup, mem: Seq<u16>, daddr: u8)
    requires
        setup_inv(state),
        layout_inv(mem),
        addr_consistent(state, daddr),
        state != USB_Setup::U_Await_Reset,
        state != USB_Setup::U_Await_Control,
    ensures
        ep0_tx_ok(state, mem, daddr),
{
}

/// The state is a descriptor transfer (unaddressed or addressed).
pub open spec fn is_send(state: USB_Setup) -> bool {
    state is U_Send || state is A_Send
}

/// The transfer progress of a descriptor-transfer state.
pub open spec fn send_progress(state: USB_Setup) -> EP0_Tx {
    match state {
        USB_Setup::U_Send { state: s, .. } => s,
        USB_Setup::A_Send { state: s, .. } => s,
        _ => EP0_Tx { w_length: 0, tx_need: 0, tx_acc: 0 },
    }
}

/// The same transfer as `state` (same stage, descriptor type and index) at progress `s`.
pub open spec fn send_with(state: USB_Setup, s: EP0_Tx) -> USB_Setup {
    match state {
        USB_Setup::U_Send { bm_desc_type, bm_desc_idx, .. } => USB_Setup::U_Send {
            bm_desc_type,
            bm_desc_idx,
            state: s,
        },
        USB_Setup::A_Send { bm_desc_type, bm_desc_idx, .. } => USB_Setup::A_Send {
            bm_desc_type,
            bm_desc_idx,
            state: s,
        },
        _ => state,
    }
}

/// The status stage that follows the transfer `state`.
pub open spec fn status_after(state: USB_Setup) -> USB_Setup {
    match state {
        USB_Setup::U_Send { .. } => USB_Setup::U_Status,
        USB_Setup::A_Send { .. } => USB_Setup::A_Status,
        _ => state,
    }
}

/// One completed transmission on EP0 (and nothing received), as `handle_ep0`
/// handles it: the next stage and packet memory.
pub open spec fn transmit_step(
    state: USB_Setup,
    mem: Seq<u16>,
    daddr: u8,
    stat_tx: u8,
    stat_rx: u8,
) -> (USB_Setup, Seq<u16>) {
    let n = handle_ep0_next(state, mem, daddr, true, false, stat_tx, stat_rx);
    (n.0, n.1)
}

/// Stage and packet memory after `k` completed transmissions on EP0 from
/// `state` and `mem`, the device address unchanged in between.
pub open spec fn transmit_run(
    state: USB_Setup,
    mem: Seq<u16>,
    daddr: u8,
    stat_tx: u8,
    stat_rx: u8,
    k: nat,
) -> (USB_Setup, Seq<u16>)
    decreases k,
{
    if k == 0 {
        (state, mem)
    } else {
        let p = transmit_run(state, mem, daddr, stat_tx, stat_rx, (k - 1) as nat);
        transmit_step(p.0, p.1, daddr, stat_tx, stat_rx)
    }
}

/// The transmit count of EP0 (COUNT0_TX) after the `j`th of those transmissions:
/// the bytes of the packet it queued.
pub open spec fn queued_count(
    state: USB_Setup,
    mem: Seq<u16>,
    daddr: u8,
    stat_tx: u8,
    stat_rx: u8,
    j: nat,
) -> int {
    transmit_run(state, mem, daddr, stat_tx, stat_rx, j).1[ep0_bd() + 1] as int
}

/// Bytes queued by the first `k` of those transmissions.
pub open spec fn queued_total(
    state: USB_Setup,
    mem: Seq<u16>,
    daddr: u8,
    stat_tx: u8,
    stat_rx: u8,
    k: nat,
) -> int
    decreases k,
{
    if k == 0 {
        0
    } else {
        queued_total(state, mem, daddr, stat_tx, stat_rx, (k - 1) as nat) + queued_count(
            state,
            mem,
            daddr,
            stat_tx,
            stat_rx,
            k,
        )
    }
}

/// Packets of at most eight bytes that `need` bytes take.
pub open spec fn packets_for(need: int) -> int {
    (need + 7) / 8
}

/// A descriptor transfer as GET_DESCRIPTOR leaves it: the first packet queued,
/// in a packet memory with the layout, at an address that matches the stage.
pub open spec fn fresh_transfer(state: USB_Setup, mem: Seq<u16>, daddr: u8) -> bool {
    &&& is_send(state)
    &&& setup_inv(state)
    &&& send_progress(state).tx_need > 0
    &&& send_progress(state).tx_acc as int == min(send_progress(state).tx_need as int, 8)
    &&& layout_inv(mem)
    &&& addr_consistent(state, daddr)
}

/// A completed transmission on EP0 keeps the packet-memory layout.
pub proof fn lemma_transmit_keeps_layout(state: USB_Setup, mem: Seq<u16>, daddr: u8, stat_tx: u8)
    requires
        layout_inv(mem),
        ep0_tx_ok(state, mem, daddr),
    ensures
        layout_inv(ep0_tx_next(state, mem, stat_tx).1),
{
    let m = ep0_tx_next(state, mem, stat_tx).1;
    assert(m.len() == mem.len());
    assert(m[0] == mem[0] && m[2] == mem[2] && m[4] == mem[4] && m[6] == mem[6] && m[8] == mem[8]
        && m[10] == mem[10]);
}

proof fn lemma_transfer_prefix(
    state: USB_Setup,
    mem: Seq<u16>,
    daddr: u8,
    stat_tx: u8,
    stat_rx: u8,
    k: nat,
)
    requires
        fresh_transfer(state, mem, daddr),
        stat_tx < 4,
        stat_rx < 4,
        k < packets_for(send_progress(state).tx_need as int),
    ensures
        ({
            let s0 = send_progress(state);
            let p = transmit_run(state, mem, daddr, stat_tx, stat_rx, k);
            &&& p.0 == send_with(
                state,
                EP0_Tx {
                    w_length: s0.w_length,
                    tx_need: s0.tx_need,
                    tx_acc: min(s0.tx_need as int, 8 * (k as int + 1)) as u16,
                },
            )
            &&& setup_inv(p.0)
            &&& addr_consistent(p.0, daddr)
            &&& layout_inv(p.1)
            &&& handle_ep0_ok(p.0, p.1, daddr, true, false, stat_tx, stat_rx)
            &&& queued_total(state, mem, daddr, stat_tx, stat_rx, k) == min(
                s0.tx_need as int,
                8 * (k as int + 1),
            ) - s0.tx_acc
            &&& k > 0 ==> 0 < queued_count(state, mem, daddr, stat_tx, stat_rx, k) <= 8
        }),
    decreases k,
{
    let s0 = send_progress(state);
    if k == 0 {
        assert(send_with(state, s0) == state);
    } else {
        let km1 = (k - 1) as nat;
        lemma_transfer_prefix(state, mem, daddr, stat_tx, stat_rx, km1);
        let p = transmit_run(state, mem, daddr, stat_tx, stat_rx, km1);
        lemma_transmit_keeps_layout(p.0, p.1, daddr, stat_tx);
    }
    let p = transmit_run(state, mem, daddr, stat_tx, stat_rx, k);
    lemma_transmit_never_refused(p.0, p.1, daddr);
}

/// A descriptor transfer ends as the request asks: once GET_DESCRIPTOR queued
/// the first packet of a transfer of `tx_need > 0` bytes, every completed
/// transmission on EP0 (device address unchanged) can be handled; after the
/// `k`th of the first `ceil(tx_need / 8) - 1` of them the transfer has queued
/// `min(tx_need, 8 * (k + 1))` bytes, with its request length, byte count,
/// descriptor type and index unchanged; the `ceil(tx_need / 8)`th reaches the
/// status stage and queues nothing. The packets queued, the first included,
/// hold between one and eight bytes each and add up to `tx_need`.
pub proof fn lemma_descriptor_transfer(
    state: USB_Setup,
    mem: Seq<u16>,
    daddr: u8,
    stat_tx: u8,
    stat_rx: u8,
)
    requires
        fresh_transfer(state, mem, daddr),
        stat_tx < 4,
        stat_rx < 4,
    ensures
        ({
            let s0 = send_progress(state);
            let n = packets_for(s0.tx_need as int);
            &&& 0 < s0.tx_acc <= 8
            &&& forall|k: nat|
                k < n ==> {
                    &&& (#[trigger] transmit_run(state, mem, daddr, stat_tx, stat_rx, k)).0
                        == send_with(
                        state,
                        EP0_Tx {
                            w_length: s0.w_length,
                            tx_need: s0.tx_need,
                            tx_acc: min(s0.tx_need as int, 8 * (k as int + 1)) as u16,
                        },
                    )
                    &&& handle_ep0_ok(
                        transmit_run(state, mem, daddr, stat_tx, stat_rx, k).0,
                        transmit_run(state, mem, daddr, stat_tx, stat_rx, k).1,
                        daddr,
                        true,
                        false,
                        stat_tx,
                        stat_rx,
                    )
                }
            &&& transmit_run(state, mem, daddr, stat_tx, stat_rx, n as nat).0 == status_after(state)
            &&& queued_count(state, mem, daddr, stat_tx, stat_rx, n as nat) == 0
            &&& forall|j: nat|
                0 < j < n ==> 0 < #[trigger] queued_count(state, mem, daddr, stat_tx, stat_rx, j)
                    <= 8
            &&& s0.tx_acc + queued_total(state, mem, daddr, stat_tx, stat_rx, (n - 1) as nat)
                == s0.tx_need
        }),
{
    let s0 = send_progress(state);
    let n = packets_for(s0.tx_need as int);
    assert forall|k: nat| k < n implies {
        &&& (#[trigger] transmit_run(state, mem, daddr, stat_tx, stat_rx, k)).0 == send_with(
            state,
            EP0_Tx {
                w_length: s0.w_length,
                tx_need: s0.tx_need,
                tx_acc: min(s0.tx_need as int, 8 * (k as int + 1)) as u16,
            },
        )
        &&& handle_ep0_ok(
            transmit_run(state, mem, daddr, stat_tx, stat_rx, k).0,
            transmit_run(state, mem, daddr, stat_tx, stat_rx, k).1,
            daddr,
            true,
            false,
            stat_tx,
            stat_rx,
        )
    } by {
        lemma_transfer_prefix(state, mem, daddr, stat_tx, stat_rx, k);
    }
    assert forall|j: nat| 0 < j < n implies 0 < #[trigger] queued_count(
        state,
        mem,
        daddr,
        stat_tx,
        stat_rx,
        j,
    ) <= 8 by {
        lemma_transfer_prefix(state, mem, daddr, stat_tx, stat_rx, j);
    }
    let last = (n - 1) as nat;
    lemma_transfer_prefix(state, mem, daddr, stat_tx, stat_rx, last);
    assert(transmit_run(state, mem, daddr, stat_tx, stat_rx, n as nat) == transmit_step(
        transmit_run(state, mem, daddr, stat_tx, stat_rx, last).0,
        transmit_run(state, mem, daddr, stat_tx, stat_rx, last).1,
        daddr,
        stat_tx,
        stat_rx,
    ));
}

/// GET_DESCRIPTOR with a non-zero wLength, received into a packet memory with the
/// layout, starts a transfer that `lemma_descriptor_transfer` covers.
pub proof fn lemma_get_descriptor_starts_transfer(
    state: USB_Setup,
    mem: Seq<u16>,
    daddr: u8,
    stat_tx: u8,
)
    requires
        layout_inv(mem),
        ep0_rx_ok(mem),
        ep0_rx_count(mem) > 0,
        is_get_descriptor(mem),
        w_length(mem) > 0,
    ensures
        fresh_transfer(
            ep0_rx_next(state, mem, daddr, stat_tx).0,
            ep0_rx_next(state, mem, daddr, stat_tx).1,
            daddr,
        ),
{
    let m = ep0_rx_next(state, mem, daddr, stat_tx).1;
    assert(m[0] == mem[0] && m[2] == mem[2] && m[4] == mem[4] && m[6] == mem[6] && m[8] == mem[8]
        && m[10] == mem[10]);
}

/// The values the STAT computations produce reach their targets, and writing
/// zero leaves a field as it is.
proof fn lemma_toggle_targets(s: u8)
    requires
        s < 4,
    ensures
        stat_after_write(s, valid_toggle(s)) == STAT_VALID,
        stat_after_write(s, nak_toggle(s)) == STAT_NAK,
        stat_after_write(s, 0) == s,
{
    let v = valid_toggle(s);
    let n = nak_toggle(s);
    assert(s ^ v == 3u8) by (bit_vector)
        requires
            s < 4,
            v == 3 - s,
    ;
    assert(s ^ n == 2u8) by (bit_vector)
        requires
            s < 4,
            s < 2 ==> n == s + 2,
            s >= 2 ==> n == s - 2,
    ;
    assert(s ^ 0u8 == s) by (bit_vector);
}

/// How EP0 answers a reception (a setup packet). Reception is re-armed; nothing
/// received leaves stage and memory as they are and transmission at NAK. An
/// answered request arms transmission (STAT_TX to VALID) for its data or status
/// stage: SET_ADDRESS with an empty status packet (COUNT0_TX zero), keeping the
/// low byte of wValue as the address to apply once that packet is sent;
/// GET_DESCRIPTOR with the descriptor's first bytes, as many as the request, the
/// descriptor and the buffer allow; SET_CONFIGURATION with an empty status packet
/// and EP1 and EP2 pointed at their buffers. Only SET_CONFIGURATION makes EP1 ready
/// to send, and no reception applies an address.
pub proof fn lemma_ep0_reception(
    state: USB_Setup,
    mem: Seq<u16>,
    daddr: u8,
    stat_tx: u8,
    stat_rx: u8,
)
    requires
        handle_ep0_ok(state, mem, daddr, false, true, stat_tx, stat_rx),
        mem.len() == PMA_WORDS,
    ensures
        ({
            let n = handle_ep0_next(state, mem, daddr, false, true, stat_tx, stat_rx);
            &&& stat_after_write(stat_rx, n.2.toggle_rx) == STAT_VALID
            &&& n.2.new_address is None
            &&& n.2.tx_ready == (ep0_rx_count(mem) > 0 && is_set_configuration(mem))
            &&& n.2.configure_endpoints == (ep0_rx_count(mem) > 0 && is_set_configuration(mem))
            &&& ep0_rx_count(mem) == 0 ==> {
                &&& stat_after_write(stat_tx, n.2.toggle_tx) == STAT_NAK
                &&& n.0 == state
                &&& n.1 == mem
            }
            &&& ep0_rx_count(mem) > 0 ==> stat_after_write(stat_tx, n.2.toggle_tx) == STAT_VALID
            &&& ep0_rx_count(mem) > 0 && is_set_address(mem) ==> {
                &&& n.0 is Addressing
                &&& n.0->new_addr as int == w_value(mem) as int % 256
                &&& n.1[ep0_bd() + 1] == 0
            }
            &&& ep0_rx_count(mem) > 0 && is_get_descriptor(mem) ==> {
                let t = high_byte(w_value(mem));
                let sent = n.1[ep0_bd() + 1] as int;
                &&& sent == min(
                    min(w_length(mem) as int, 2 * descriptor_words(t).len() as int),
                    USB_EP0_TX_BUFFER_SIZE_BYTES as int,
                )
                &&& is_send(n.0)
                &&& (n.0 is U_Send <==> daddr == 0)
                &&& send_progress(n.0).w_length == w_length(mem)
                &&& send_progress(n.0).tx_need as int == min(
                    w_length(mem) as int,
                    2 * descriptor_words(t).len() as int,
                )
                &&& send_progress(n.0).tx_acc as int == sent
                &&& (if n.0 is U_Send {
                    n.0->U_Send_bm_desc_type == t && n.0->U_Send_bm_desc_idx == low_byte(
                        w_value(mem),
                    )
                } else {
                    n.0->A_Send_bm_desc_type == t && n.0->A_Send_bm_desc_idx == low_byte(
                        w_value(mem),
                    )
                })
                &&& ep0_bd() + BTABLE_ENTRY_WORDS <= tx_buffer_begin(mem, ep0_bd()) ==> forall|k: int|
                    0 <= k < sent ==> #[trigger] buffer_byte(
                        n.1,
                        tx_buffer_begin(mem, ep0_bd()),
                        k,
                    ) == descriptor_byte(t, k)
            }
            &&& ep0_rx_count(mem) > 0 && is_set_configuration(mem) ==> {
                &&& n.1[ep1_bd() + 1] == 0
                &&& ep1_configured(n.1)
                &&& n.1[ep2_bd() + 2] == 2 * USB_EP2_RX_BUFFER_BEGIN
                &&& n.1[ep2_bd() + 3] == USB_EP2_RX_BUFFER_SIZE_BYTES_BITFIELD
                &&& n.0 == USB_Setup::A_Await_Control
            }
        }),
{
    lemma_toggle_targets(stat_tx);
    lemma_toggle_targets(stat_rx);
    let n = handle_ep0_next(state, mem, daddr, false, true, stat_tx, stat_rx);
    if ep0_rx_count(mem) > 0 && is_set_address(mem) {
        let w = w_value(mem);
        assert(w as u8 as int == w as int % 256) by (bit_vector);
    }
    if ep0_rx_count(mem) > 0 && is_get_descriptor(mem) {
        let t = high_byte(w_value(mem));
        let need = descriptor_need(t, w_length(mem));
        let s = EP0_Tx { w_length: w_length(mem), tx_need: need as u16, tx_acc: 0 };
        assert(send_state_inv(t, s));
        if ep0_bd() + BTABLE_ENTRY_WORDS <= tx_buffer_begin(mem, ep0_bd()) {
            assert forall|k: int| 0 <= k < n.1[ep0_bd() + 1] as int implies #[trigger] buffer_byte(
                n.1,
                tx_buffer_begin(mem, ep0_bd()),
                k,
            ) == descriptor_byte(t, k) by {
                lemma_packet_carries_descriptor(mem, tx_buffer_begin(mem, ep0_bd()), t, s, k);
                let m = with_descriptor_chunk(mem, tx_buffer_begin(mem, ep0_bd()), t, 0);
                assert(n.1 == m.update(1, chunk_bytes(need, 0) as u16));
            }
        }
    }
}

/// How EP0 answers a completed transmission. Reception is re-armed; a descriptor
/// transfer that still owes bytes arms transmission (STAT_TX to VALID) with its
/// next packet of one to eight bytes; in every other stage transmission goes to
/// NAK with an empty count. The device address changes exactly when the status
/// packet of SET_ADDRESS went out, to the address it asked for, and a
/// transmission never makes EP1 ready nor sets up the bulk endpoints.
pub proof fn lemma_ep0_transmission(
    state: USB_Setup,
    mem: Seq<u16>,
    daddr: u8,
    stat_tx: u8,
    stat_rx: u8,
)
    requires
        handle_ep0_ok(state, mem, daddr, true, false, stat_tx, stat_rx),
        setup_inv(state),
        mem.len() == PMA_WORDS,
    ensures
        ({
            let n = handle_ep0_next(state, mem, daddr, true, false, stat_tx, stat_rx);
            let owes = is_send(state) && send_progress(state).tx_acc < send_progress(state).tx_need;
            &&& stat_after_write(stat_rx, n.2.toggle_rx) == STAT_VALID
            &&& !n.2.tx_ready
            &&& !n.2.configure_endpoints
            &&& owes ==> {
                &&& stat_after_write(stat_tx, n.2.toggle_tx) == STAT_VALID
                &&& 0 < n.1[ep0_bd() + 1] <= USB_EP0_TX_BUFFER_SIZE_BYTES
                &&& n.1[ep0_bd() + 1] as int == min(
                    descriptor_need(
                        if state is U_Send { state->U_Send_bm_desc_type } else { state->A_Send_bm_desc_type },
                        send_progress(state).w_length,
                    ) - send_progress(state).tx_acc,
                    8,
                )
            }
            &&& owes ==> n.0 == send_with(
                state,
                EP0_Tx {
                    w_length: send_progress(state).w_length,
                    tx_need: send_progress(state).tx_need,
                    tx_acc: (send_progress(state).tx_acc + n.1[ep0_bd() + 1]) as u16,
                },
            )
            &&& !owes ==> {
                &&& stat_after_write(stat_tx, n.2.toggle_tx) == STAT_NAK
                &&& n.1[ep0_bd() + 1] == 0
            }
            &&& is_send(state) && !owes ==> n.0 == status_after(state)
            &&& state == USB_Setup::U_Status ==> n.0 == USB_Setup::U_Await_Control
            &&& state == USB_Setup::A_Status ==> n.0 == USB_Setup::A_Await_Control
            &&& state is Addressing ==> n.0 == USB_Setup::A_Await_Control
            &&& state == USB_Setup::A_Await_Control ==> n.0 == USB_Setup::A_Await_Control
            &&& (n.2.new_address is Some <==> state is Addressing)
            &&& state is Addressing ==> n.2.new_address == Some(state->new_addr)
        }),
{
    lemma_toggle_targets(stat_tx);
    lemma_toggle_targets(stat_rx);
}

/// How EP1 (bulk IN) answers a completed transmission: STAT_TX to NAK until new
/// data is queued, STAT_RX untouched, EP1 ready for new data, no address, no
/// endpoint set-up.
pub proof fn lemma_ep1_transmission(stat_tx: u8, stat_rx: u8)
    requires
        stat_tx < 4,
        stat_rx < 4,
    ensures
        stat_after_write(stat_tx, ep1_effects(stat_tx).toggle_tx) == STAT_NAK,
        stat_after_write(stat_rx, ep1_effects(stat_tx).toggle_rx) == stat_rx,
        ep1_effects(stat_tx).tx_ready,
        ep1_effects(stat_tx).new_address is None,
        !ep1_effects(stat_tx).configure_endpoints,
{
    lemma_toggle_targets(stat_tx);
    lemma_toggle_targets(stat_rx);
}

/// How EP2 (bulk OUT) answers a reception: STAT_RX to VALID for the next packet,
/// STAT_TX untouched, EP1 not made ready, no address, no endpoint set-up.
pub proof fn lemma_ep2_reception(stat_tx: u8, stat_rx: u8)
    requires
        stat_tx < 4,
        stat_rx < 4,
    ensures
        stat_after_write(stat_rx, ep2_effects(stat_rx).toggle_rx) == STAT_VALID,
        stat_after_write(stat_tx, ep2_effects(stat_rx).toggle_tx) == stat_tx,
        !ep2_effects(stat_rx).tx_ready,
        ep2_effects(stat_rx).new_address is None,
        !ep2_effects(stat_rx).configure_endpoints,
{
    lemma_toggle_targets(stat_tx);
    lemma_toggle_targets(stat_rx);
}

/// The descriptors agree with the endpoints the firmware sets up: the device
/// descriptor is 18 bytes of type 1 with EP0's buffer size as bMaxPacketSize0 and
/// one configuration; the configuration descriptor is 9 bytes of type 2 with a
/// wTotalLength of all 32 bytes, one interface with two endpoints, EP1 as bulk IN
/// (address 0x81) and EP2 as bulk OUT (address 0x02), each with its buffer size as
/// wMaxPacketSize.
pub proof fn lemma_descriptors_match_endpoints()
    ensures
        descriptor_words(1).len() * 2 == 18,
        descriptor_byte(1, 0) == 18,
        descriptor_byte(1, 1) == 1,
        descriptor_byte(1, 7) == USB_EP0_TX_BUFFER_SIZE_BYTES,
        descriptor_byte(1, 17) == 1,
        descriptor_words(2).len() * 2 == 32,
        descriptor_byte(2, 0) == 9,
        descriptor_byte(2, 1) == 2,
        descriptor_byte(2, 2) as int + 256 * descriptor_byte(2, 3) as int == 32,
        descriptor_byte(2, 4) == 1,
        descriptor_byte(2, 9) == 9,
        descriptor_byte(2, 10) == 4,
        descriptor_byte(2, 13) == 2,
        descriptor_byte(2, 18) == 7,
        descriptor_byte(2, 19) == 5,
        descriptor_byte(2, 20) == 0x81,
        descriptor_byte(2, 21) == 0x02,
        descriptor_byte(2, 22) as int + 256 * descriptor_byte(2, 23) as int
            == USB_EP1_TX_BUFFER_SIZE_BYTES,
        descriptor_byte(2, 25) == 7,
        descriptor_byte(2, 26) == 5,
        descriptor_byte(2, 27) == 0x02,
        descriptor_byte(2, 28) == 0x02,
        descriptor_byte(2, 29) as int + 256 * descriptor_byte(2, 30) as int
            == USB_EP2_RX_BUFFER_SIZE_BYTES,
{
}

/// A bus reset points both EP0 buffers at the EP0 buffer of the layout, queues
/// nothing, and allocates the EP0 buffer size for reception; the STAT values it
/// answers with make EP0's reception VALID and its transmission DISABLED.
pub proof fn lemma_reset_sets_up_ep0(mem: Seq<u16>, stat_tx: u8, stat_rx: u8)
    requires
        mem.len() == PMA_WORDS,
        stat_tx < 4,
        stat_rx < 4,
    ensures
        tx_buffer_begin(with_ep0_reset(mem), ep0_bd()) == USB_EP0_TX_BUFFER_BEGIN,
        rx_buffer_begin(with_ep0_reset(mem), ep0_bd()) == USB_EP0_RX_BUFFER_BEGIN,
        with_ep0_reset(mem)[ep0_bd() + 1] == 0,
        crate::btable::rx_buffer_bytes(with_ep0_reset(mem)[ep0_bd() + 3])
            == USB_EP0_RX_BUFFER_SIZE_BYTES,
        stat_after_write(stat_rx, valid_toggle(stat_rx)) == STAT_VALID,
        stat_after_write(stat_tx, stat_tx) == crate::stat::STAT_DISABLED,
        forall|j: int|
            0 <= j < mem.len() && !(0 <= j < BTABLE_ENTRY_WORDS) ==> #[trigger] with_ep0_reset(
                mem,
            )[j] == mem[j],
{
    lemma_toggle_targets(stat_rx);
    assert(stat_tx ^ stat_tx == 0u8) by (bit_vector);
}

/// SET_CONFIGURATION and the EP2 handler leave EP2's receive allocation at the
/// EP2 buffer size, and SET_CONFIGURATION points EP1 and EP2 at their buffers.
pub proof fn lemma_bulk_endpoints_set_up(mem: Seq<u16>)
    requires
        mem.len() == PMA_WORDS,
    ensures
        tx_buffer_begin(with_bulk_endpoints(mem), ep1_bd()) == USB_EP1_TX_BUFFER_BEGIN,
        rx_buffer_begin(with_bulk_endpoints(mem), ep2_bd()) == USB_EP2_RX_BUFFER_BEGIN,
        crate::btable::rx_buffer_bytes(with_bulk_endpoints(mem)[ep2_bd() + 3])
            == USB_EP2_RX_BUFFER_SIZE_BYTES,
        crate::btable::rx_buffer_bytes(mem.update(ep2_bd() + 3, USB_EP2_RX_BUFFER_SIZE_BYTES_BITFIELD)[ep2_bd() + 3])
            == USB_EP2_RX_BUFFER_SIZE_BYTES,
{
}

} // verus!
