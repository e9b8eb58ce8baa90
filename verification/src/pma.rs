use vstd::prelude::*;
use crate::btable::{
    Endpoint_BTABLE_Addr_Register, Endpoint_BTABLE_Count_Register, Endpoint_BTABLE_Entry,
    PMA_WORDS, BTABLE_ENTRY_WORDS,
};

verus! {

/// The USB packet memory: the buffer descriptor table followed by the endpoint
/// buffers, as 16-bit words.
pub struct PacketMemory {
    pub words: [u16; 256],
}

impl View for PacketMemory {
    type V = Seq<u16>;

    open spec fn view(&self) -> Seq<u16> {
        self.words@
    }
}

/// A window of the packet memory: `len` words starting at word `begin`.
#[derive(Clone, Copy, Debug, PartialEq, Eq, Structural)]
pub struct SramBuffer {
    pub begin: usize,
    pub len: usize,
}

impl SramBuffer {
    /// The window lies inside the packet memory.
    pub open spec fn in_memory(self) -> bool {
        self.begin + self.len <= PMA_WORDS
    }
}

/// The buffer descriptor whose first word is `bd`, read out of `mem`.
pub open spec fn entry_in(mem: Seq<u16>, bd: int) -> Endpoint_BTABLE_Entry {
    Endpoint_BTABLE_Entry {
        addr_tx: Endpoint_BTABLE_Addr_Register { v: mem[bd] },
        count_tx: Endpoint_BTABLE_Count_Register { v: mem[bd + 1] },
        addr_rx: Endpoint_BTABLE_Addr_Register { v: mem[bd + 2] },
        count_rx: Endpoint_BTABLE_Count_Register { v: mem[bd + 3] },
    }
}

/// `mem` with the buffer descriptor `e` stored at word `bd`.
pub open spec fn with_entry(mem: Seq<u16>, bd: int, e: Endpoint_BTABLE_Entry) -> Seq<u16> {
    mem.update(bd, e.addr_tx.v).update(bd + 1, e.count_tx.v).update(bd + 2, e.addr_rx.v).update(
        bd + 3,
        e.count_rx.v,
    )
}

/// Word offset of the transmit buffer that the descriptor at `bd` designates.
pub open spec fn tx_buffer_begin(mem: Seq<u16>, bd: int) -> int {
    mem[bd] as int / 2
}

/// Word offset of the receive buffer that the descriptor at `bd` designates.
pub open spec fn rx_buffer_begin(mem: Seq<u16>, bd: int) -> int {
    mem[bd + 2] as int / 2
}

/// `bd` is the first word of a buffer descriptor.
pub open spec fn is_entry_offset(bd: int) -> bool {
    0 <= bd && bd + BTABLE_ENTRY_WORDS <= PMA_WORDS
}

impl PacketMemory {
    /// A cleared packet memory: every word zero.
    pub fn new() -> (r: Self)
        ensures
            r@ == Seq::new(PMA_WORDS as nat, |i: int| 0u16),
    {
        let r = PacketMemory { words: [0u16; 256] };
        assert(r@ =~= Seq::new(PMA_WORDS as nat, |i: int| 0u16));
        r
    }

    /// The word at offset `i`.
    pub fn read(&self, i: usize) -> (r: u16)
        requires
            i < PMA_WORDS,
        ensures
            r == self@[i as int],
    {
        self.words[i]
    }

    /// Stores `v` at offset `i`.
    pub fn write(&mut self, i: usize, v: u16)
        requires
            i < PMA_WORDS,
        ensures
            final(self)@ == old(self)@.update(i as int, v),
    {
        self.words[i] = v;
    }

    /// The buffer descriptor whose first word is `bd`.
    pub fn entry(&self, bd: usize) -> (r: Endpoint_BTABLE_Entry)
        requires
            is_entry_offset(bd as int),
        ensures
            r == entry_in(self@, bd as int),
    {
        Endpoint_BTABLE_Entry {
            addr_tx: Endpoint_BTABLE_Addr_Register { v: self.words[bd] },
            count_tx: Endpoint_BTABLE_Count_Register { v: self.words[bd + 1] },
            addr_rx: Endpoint_BTABLE_Addr_Register { v: self.words[bd + 2] },
            count_rx: Endpoint_BTABLE_Count_Register { v: self.words[bd + 3] },
        }
    }

    /// Stores the buffer descriptor `e` at word `bd`.
    pub fn set_entry(&mut self, bd: usize, e: Endpoint_BTABLE_Entry)
        requires
            is_entry_offset(bd as int),
        ensures
            final(self)@ == with_entry(old(self)@, bd as int, e),
    {
        self.words[bd] = e.addr_tx.v;
        self.words[bd + 1] = e.count_tx.v;
        self.words[bd + 2] = e.addr_rx.v;
        self.words[bd + 3] = e.count_rx.v;
    }

    /// Word `i` of the window `buf`.
    pub fn read_buffer(&self, buf: SramBuffer, i: usize) -> (r: u16)
        requires
            buf.in_memory(),
            i < buf.len,
        ensures
            r == self@[buf.begin + i],
    {
        self.words[buf.begin + i]
    }

    /// Stores `v` as word `i` of the window `buf`.
    pub fn write_buffer(&mut self, buf: SramBuffer, i: usize, v: u16)
        requires
            buf.in_memory(),
            i < buf.len,
        ensures
            final(self)@ == old(self)@.update(buf.begin + i, v),
    {
        self.words[buf.begin + i] = v;
    }
}

/// The window of `num_words` words that starts at word `word_offset`.
pub fn sram_buffer(word_offset: usize, num_words: usize) -> (r: SramBuffer)
    requires
        word_offset + num_words <= PMA_WORDS,
    ensures
        r == (SramBuffer { begin: word_offset, len: num_words }),
        r.in_memory(),
{
    SramBuffer { begin: word_offset, len: num_words }
}

/// The transmit and receive windows that the descriptor at `ep_bd` designates,
/// of `tx_byte_size` and `rx_byte_size` bytes (rounded down to whole words).
pub fn ep_tx_rx_buffers(
    mem: &PacketMemory,
    ep_bd: usize,
    tx_byte_size: usize,
    rx_byte_size: usize,
) -> (r: (SramBuffer, SramBuffer))
    requires
        is_entry_offset(ep_bd as int),
        tx_buffer_begin(mem@, ep_bd as int) + tx_byte_size / 2 <= PMA_WORDS,
        rx_buffer_begin(mem@, ep_bd as int) + rx_byte_size / 2 <= PMA_WORDS,
    ensures
        r.0 == (SramBuffer {
            begin: tx_buffer_begin(mem@, ep_bd as int) as usize,
            len: tx_byte_size / 2,
        }),
        r.1 == (SramBuffer {
            begin: rx_buffer_begin(mem@, ep_bd as int) as usize,
            len: rx_byte_size / 2,
        }),
        r.0.in_memory(),
        r.1.in_memory(),
{
    let e = mem.entry(ep_bd);
    let at = e.addr_tx.get();
    let ar = e.addr_rx.get();
    (sram_buffer(at as usize, tx_byte_size / 2), sram_buffer(ar as usize, rx_byte_size / 2))
}

/// Copies the first `out_buf.len()` words of the window `in_buf` into `out_buf`.
pub fn dump_sram(mem: &PacketMemory, in_buf: SramBuffer, out_buf: &mut [u16])
    requires
        in_buf.in_memory(),
        old(out_buf)@.len() <= in_buf.len,
    ensures
        final(out_buf)@.len() == old(out_buf)@.len(),
        forall|i: int|
            0 <= i < final(out_buf)@.len() ==> #[trigger] final(out_buf)@[i] == mem@[in_buf.begin
                + i],
{
    let n = out_buf.len();
    let mut i: usize = 0;
    while i < n
        invariant
            n == out_buf@.len(),
            n == old(out_buf)@.len(),
            n <= in_buf.len,
            in_buf.in_memory(),
            i <= n,
            forall|k: int| 0 <= k < i ==> #[trigger] out_buf@[k] == mem@[in_buf.begin + k],
        decreases n - i,
    {
        out_buf[i] = mem.read_buffer(in_buf, i);
        i = i + 1;
    }
}

/// Points the transmit address of the descriptor at `bd` at word offset `v`.
pub fn set_addr_tx(pma: &mut PacketMemory, bd: usize, v: u16)
    requires
        is_entry_offset(bd as int),
        v <= 0x7fff,
    ensures
        final(pma)@ == old(pma)@.update(bd as int, (2 * v) as u16),
{
    let mut e = pma.entry(bd);
    e.addr_tx.set(v);
    pma.set_entry(bd, e);
    assert(final(pma)@ =~= old(pma)@.update(bd as int, (2 * v) as u16));
}

/// Points the receive address of the descriptor at `bd` at word offset `v`.
pub fn set_addr_rx(pma: &mut PacketMemory, bd: usize, v: u16)
    requires
        is_entry_offset(bd as int),
        v <= 0x7fff,
    ensures
        final(pma)@ == old(pma)@.update(bd + 2, (2 * v) as u16),
{
    let mut e = pma.entry(bd);
    e.addr_rx.set(v);
    pma.set_entry(bd, e);
    assert(final(pma)@ =~= old(pma)@.update(bd + 2, (2 * v) as u16));
}

/// Stores `v` as the transmit count of the descriptor at `bd`.
pub fn set_count_tx(pma: &mut PacketMemory, bd: usize, v: u16)
    requires
        is_entry_offset(bd as int),
    ensures
        final(pma)@ == old(pma)@.update(bd + 1, v),
{
    let mut e = pma.entry(bd);
    e.count_tx.set(v);
    pma.set_entry(bd, e);
    assert(final(pma)@ =~= old(pma)@.update(bd + 1, v));
}

/// Stores `v` as the receive count field of the descriptor at `bd`.
pub fn set_count_rx(pma: &mut PacketMemory, bd: usize, v: u16)
    requires
        is_entry_offset(bd as int),
    ensures
        final(pma)@ == old(pma)@.update(bd + 3, v),
{
    let mut e = pma.entry(bd);
    e.count_rx.set(v);
    pma.set_entry(bd, e);
    assert(final(pma)@ =~= old(pma)@.update(bd + 3, v));
}

/// What `set_entry` stores, `entry` reads back, and no other word changes.
pub proof fn lemma_entry_round_trip(mem: Seq<u16>, bd: int, e: Endpoint_BTABLE_Entry)
    requires
        mem.len() == PMA_WORDS,
        is_entry_offset(bd),
    ensures
        entry_in(with_entry(mem, bd, e), bd) == e,
        forall|j: int|
            0 <= j < mem.len() && !(bd <= j < bd + BTABLE_ENTRY_WORDS) ==> #[trigger] with_entry(
                mem,
                bd,
                e,
            )[j] == mem[j],
{
}

} // verus!
