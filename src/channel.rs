use vstd::prelude::*;
use std::collections::VecDeque;

verus! {

/// Most bytes the receive queue holds; later deliveries are dropped.
pub const MAX_BYTES: usize = 16384;

/// Abstract state of a channel: bytes received from the engine and not read
/// yet, bytes waiting to be handed to the engine, and the flow-control flag.
pub ghost struct ChannelState {
    pub rx: Seq<u8>,
    pub tx: Seq<u8>,
    pub xon: bool,
}

/// `rx` after the engine delivers `b`: appended unless the queue is full.
pub open spec fn rx_after_delivery(rx: Seq<u8>, b: u8) -> Seq<u8> {
    if rx.len() < MAX_BYTES {
        rx.push(b)
    } else {
        rx
    }
}

/// Buffers of one serial channel, shared by the engine's notifications and
/// the test code.
pub struct UartT {
    rx: VecDeque<u8>,
    tx: VecDeque<u8>,
    xon: bool,
}

impl View for UartT {
    type V = ChannelState;

    closed spec fn view(&self) -> ChannelState {
        ChannelState { rx: self.rx@, tx: self.tx@, xon: self.xon }
    }
}

impl Default for UartT {
    /// Empty queues, transmission enabled.
    fn default() -> (r: UartT)
        ensures
            r.wf(),
            r@.rx == Seq::<u8>::empty(),
            r@.tx == Seq::<u8>::empty(),
            r@.xon,
    {
        UartT::new()
    }
}

impl UartT {
    /// The receive queue never holds more than `MAX_BYTES` bytes.
    pub closed spec fn wf(&self) -> bool {
        self.rx@.len() <= MAX_BYTES
    }

    /// Empty queues, transmission enabled.
    pub fn new() -> (r: UartT)
        ensures
            r.wf(),
            r@.rx == Seq::<u8>::empty(),
            r@.tx == Seq::<u8>::empty(),
            r@.xon,
    {
        UartT { rx: VecDeque::new(), tx: VecDeque::new(), xon: true }
    }

    /// A byte delivered by the engine; dropped when the queue is full.
    pub fn rx_push(&mut self, value: u8)
        requires
            old(self).wf(),
        ensures
            final(self).wf(),
            final(self)@.rx == rx_after_delivery(old(self)@.rx, value),
            final(self)@.rx.len() <= MAX_BYTES,
            final(self)@.tx == old(self)@.tx,
            final(self)@.xon == old(self)@.xon,
    {
        if self.rx.len() < MAX_BYTES {
            self.rx.push_back(value);
        }
    }

    /// Oldest received byte, if any.
    pub fn rx_pop(&mut self) -> (r: Option<u8>)
        requires
            old(self).wf(),
        ensures
            final(self).wf(),
            old(self)@.rx.len() == 0 ==> r.is_none() && final(self)@.rx == old(self)@.rx,
            old(self)@.rx.len() > 0 ==> r == Some(old(self)@.rx[0]) && final(self)@.rx
                == old(self)@.rx.drop_first(),
            final(self)@.tx == old(self)@.tx,
            final(self)@.xon == old(self)@.xon,
    {
        self.rx.pop_front()
    }

    /// Queues a byte for the engine.
    pub fn tx_push(&mut self, value: u8)
        requires
            old(self).wf(),
        ensures
            final(self).wf(),
            final(self)@.tx == old(self)@.tx.push(value),
            final(self)@.rx == old(self)@.rx,
            final(self)@.xon == old(self)@.xon,
    {
        self.tx.push_back(value);
    }

    /// Oldest byte queued for the engine, if any.
    pub fn tx_pop(&mut self) -> (r: Option<u8>)
        requires
            old(self).wf(),
        ensures
            final(self).wf(),
            old(self)@.tx.len() == 0 ==> r.is_none() && final(self)@.tx == old(self)@.tx,
            old(self)@.tx.len() > 0 ==> r == Some(old(self)@.tx[0]) && final(self)@.tx
                == old(self)@.tx.drop_first(),
            final(self)@.rx == old(self)@.rx,
            final(self)@.xon == old(self)@.xon,
    {
        self.tx.pop_front()
    }

    /// Number of received bytes not read yet.
    pub fn rx_len(&self) -> (r: usize)
        ensures
            r == self@.rx.len(),
    {
        self.rx.len()
    }

    /// Number of bytes waiting for the engine.
    pub fn tx_len(&self) -> (r: usize)
        ensures
            r == self@.tx.len(),
    {
        self.tx.len()
    }

    pub fn is_xon(&self) -> (r: bool)
        ensures
            r == self@.xon,
    {
        self.xon
    }

    /// The engine's XON notification: transmission may go on.
    pub fn set_xon(&mut self)
        requires
            old(self).wf(),
        ensures
            final(self).wf(),
            final(self)@ == (ChannelState { xon: true, ..old(self)@ }),
    {
        self.xon = true;
    }

    /// The engine's XOFF notification: transmission halts.
    pub fn set_xoff(&mut self)
        requires
            old(self).wf(),
        ensures
            final(self).wf(),
            final(self)@ == (ChannelState { xon: false, ..old(self)@ }),
    {
        self.xon = false;
    }
}

/// One round of the transmit flush: the state after it and the byte handed
/// to the engine, if any.
pub open spec fn flush_spec(c: ChannelState) -> (ChannelState, Option<u8>) {
    if c.xon && c.tx.len() > 0 {
        (ChannelState { tx: c.tx.drop_first(), ..c }, Some(c.tx[0]))
    } else {
        (c, None)
    }
}

/// The channel after the engine delivers `b`.
pub open spec fn deliver(c: ChannelState, b: u8) -> ChannelState {
    ChannelState { rx: rx_after_delivery(c.rx, b), ..c }
}

/// What can happen to a channel.
pub ghost enum ChannelEvent {
    /// The engine delivers a byte.
    Output(u8),
    /// The engine's XON notification.
    Xon,
    /// The engine's XOFF notification.
    Xoff,
    /// The test code queues a byte.
    Send(u8),
    /// The test code takes the oldest received byte.
    Recv,
    /// One round of the transmit flush.
    Flush,
}

pub open spec fn apply_event(c: ChannelState, e: ChannelEvent) -> ChannelState {
    match e {
        ChannelEvent::Output(b) => deliver(c, b),
        ChannelEvent::Xon => ChannelState { xon: true, ..c },
        ChannelEvent::Xoff => ChannelState { xon: false, ..c },
        ChannelEvent::Send(b) => ChannelState { tx: c.tx.push(b), ..c },
        ChannelEvent::Recv => if c.rx.len() > 0 {
            ChannelState { rx: c.rx.drop_first(), ..c }
        } else {
            c
        },
        ChannelEvent::Flush => flush_spec(c).0,
    }
}

/// State after the events `es`, in order.
pub open spec fn run_events(c: ChannelState, es: Seq<ChannelEvent>) -> ChannelState
    decreases es.len(),
{
    if es.len() == 0 {
        c
    } else {
        apply_event(run_events(c, es.drop_last()), es.last())
    }
}

/// Bytes handed to the engine during the events `es`, in order.
pub open spec fn injections(c: ChannelState, es: Seq<ChannelEvent>) -> Seq<u8>
    decreases es.len(),
{
    if es.len() == 0 {
        Seq::empty()
    } else {
        let before = run_events(c, es.drop_last());
        let rest = injections(c, es.drop_last());
        match es.last() {
            ChannelEvent::Flush => match flush_spec(before).1 {
                Some(b) => rest.push(b),
                None => rest,
            },
            _ => rest,
        }
    }
}

/// Whatever the engine delivers, the receive queue stays within
/// `MAX_BYTES`; once it is full, further deliveries change nothing.
pub proof fn lemma_rx_bounded(c: ChannelState, bytes: Seq<u8>)
    requires
        c.rx.len() <= MAX_BYTES,
    ensures
        run_events(c, bytes.map_values(|b: u8| ChannelEvent::Output(b))).rx.len() <= MAX_BYTES,
        c.rx.len() == MAX_BYTES ==> run_events(c, bytes.map_values(|b: u8| ChannelEvent::Output(b)))
            == c,
    decreases bytes.len(),
{
    let es = bytes.map_values(|b: u8| ChannelEvent::Output(b));
    if bytes.len() > 0 {
        lemma_rx_bounded(c, bytes.drop_last());
        assert(es.drop_last() =~= bytes.drop_last().map_values(|b: u8| ChannelEvent::Output(b)));
    }
}

/// After an XOFF, no byte reaches the engine until an XON: from a halted
/// channel, events without XON inject nothing and leave it halted.
pub proof fn lemma_no_injection_while_halted(c: ChannelState, es: Seq<ChannelEvent>)
    requires
        !c.xon,
        forall|i: int| 0 <= i < es.len() ==> es[i] != ChannelEvent::Xon,
    ensures
        injections(c, es) == Seq::<u8>::empty(),
        !run_events(c, es).xon,
    decreases es.len(),
{
    if es.len() > 0 {
        lemma_no_injection_while_halted(c, es.drop_last());
        assert(es.last() == es[es.len() - 1]);
    }
}

/// `n` rounds of: flush once, and the engine echoes the byte it got.
pub open spec fn echo_rounds(c: ChannelState, n: nat) -> ChannelState
    decreases n,
{
    if n == 0 {
        c
    } else {
        let before = echo_rounds(c, (n - 1) as nat);
        match flush_spec(before) {
            (after, Some(b)) => deliver(after, b),
            (after, None) => after,
        }
    }
}

/// Bytes sent and echoed back by the engine are received in the order
/// they were sent, after what was received before.
pub proof fn lemma_echo_round_trip(c: ChannelState, bytes: Seq<u8>)
    requires
        c.xon,
        c.tx.len() == 0,
        c.rx.len() + bytes.len() <= MAX_BYTES,
    ensures
        echo_rounds(ChannelState { tx: bytes, ..c }, bytes.len()) == (ChannelState {
            rx: c.rx + bytes,
            tx: Seq::<u8>::empty(),
            xon: true,
        }),
{
    lemma_echo_prefix(c, bytes, bytes.len());
    assert(bytes.subrange(0, bytes.len() as int) =~= bytes);
    assert(bytes.subrange(bytes.len() as int, bytes.len() as int) =~= Seq::<u8>::empty());
}

proof fn lemma_echo_prefix(c: ChannelState, bytes: Seq<u8>, k: nat)
    requires
        c.xon,
        c.tx.len() == 0,
        c.rx.len() + bytes.len() <= MAX_BYTES,
        k <= bytes.len(),
    ensures
        echo_rounds(ChannelState { tx: bytes, ..c }, k) == (ChannelState {
            rx: c.rx + bytes.subrange(0, k as int),
            tx: bytes.subrange(k as int, bytes.len() as int),
            xon: true,
        }),
    decreases k,
{
    if k == 0 {
        assert(c.rx + bytes.subrange(0, 0) =~= c.rx);
        assert(bytes.subrange(0, bytes.len() as int) =~= bytes);
    } else {
        lemma_echo_prefix(c, bytes, (k - 1) as nat);
        let before = echo_rounds(ChannelState { tx: bytes, ..c }, (k - 1) as nat);
        assert(before.tx[0] == bytes[k - 1]);
        assert(before.tx.drop_first() =~= bytes.subrange(k as int, bytes.len() as int));
        assert((c.rx + bytes.subrange(0, k - 1)).push(bytes[k - 1]) =~= c.rx + bytes.subrange(0, k as int));
    }
}

} // verus!
