use vstd::prelude::*;
use crate::channel::{ChannelEvent, ChannelState, UartT, apply_event, flush_spec, rx_after_delivery};
use crate::duration::{CpuDuration, sum_cycles};
use std::collections::HashMap;

verus! {

/// One serial channel of the simulated processor, bound to its buffers.
pub struct Uart {
    id: u8,
    buf: UartT,
}

impl View for Uart {
    type V = ChannelState;

    closed spec fn view(&self) -> ChannelState {
        self.buf@
    }
}

impl Uart {
    pub closed spec fn wf(&self) -> bool {
        self.buf.wf()
    }

    pub closed spec fn spec_id(&self) -> u8 {
        self.id
    }

    /// Channel `id` with empty queues and transmission enabled.
    pub fn new(id: u8) -> (r: Uart)
        ensures
            r.wf(),
            r.spec_id() == id,
            r@.rx == Seq::<u8>::empty(),
            r@.tx == Seq::<u8>::empty(),
            r@.xon,
    {
        Uart { id, buf: UartT::new() }
    }

    pub fn id(&self) -> (r: u8)
        ensures
            r == self.spec_id(),
    {
        self.id
    }

    /// Oldest byte received from the engine, if any.
    pub fn recv(&mut self) -> (r: Option<u8>)
        requires
            old(self).wf(),
        ensures
            final(self).wf(),
            final(self).spec_id() == old(self).spec_id(),
            final(self)@ == apply_event(old(self)@, ChannelEvent::Recv),
            old(self)@.rx.len() == 0 ==> r.is_none() && final(self)@ == old(self)@,
            old(self)@.rx.len() > 0 ==> r == Some(old(self)@.rx[0]) && final(self)@ == (
            ChannelState { rx: old(self)@.rx.drop_first(), ..old(self)@ }),
    {
        self.buf.rx_pop()
    }

    /// Queues `byte` for the engine.
    pub fn send(&mut self, byte: u8)
        requires
            old(self).wf(),
        ensures
            final(self).wf(),
            final(self).spec_id() == old(self).spec_id(),
            final(self)@ == (ChannelState { tx: old(self)@.tx.push(byte), ..old(self)@ }),
            final(self)@ == apply_event(old(self)@, ChannelEvent::Send(byte)),
    {
        self.buf.tx_push(byte);
    }

    /// One round of the transmit flush: while transmission is enabled, takes
    /// the oldest queued byte, which the caller hands to the engine's input.
    /// Returns `None`, taking nothing, when transmission is halted or nothing
    /// is queued.
    pub fn flush(&mut self) -> (r: Option<u8>)
        requires
            old(self).wf(),
        ensures
            final(self).wf(),
            final(self).spec_id() == old(self).spec_id(),
            (final(self)@, r) == flush_spec(old(self)@),
            final(self)@ == apply_event(old(self)@, ChannelEvent::Flush),
            r.is_some() <==> old(self)@.xon && old(self)@.tx.len() > 0,
            r.is_none() ==> final(self)@ == old(self)@,
            r.is_some() ==> r == Some(old(self)@.tx[0]) && final(self)@ == (ChannelState {
                tx: old(self)@.tx.drop_first(),
                ..old(self)@
            }),
    {
        if !self.buf.is_xon() {
            return None;
        }
        self.buf.tx_pop()
    }

    /// The engine's data-output notification: the low byte of `value` was
    /// sent by the processor.
    pub fn on_output(&mut self, value: u32)
        requires
            old(self).wf(),
        ensures
            final(self).wf(),
            final(self).spec_id() == old(self).spec_id(),
            final(self)@ == (ChannelState {
                rx: rx_after_delivery(old(self)@.rx, (value % 256) as u8),
                ..old(self)@
            }),
            final(self)@ == apply_event(old(self)@, ChannelEvent::Output((value % 256) as u8)),
    {
        let b: u8 = (value % 256) as u8;
        self.buf.rx_push(b);
    }

    /// The engine's XON notification.
    pub fn on_xon(&mut self)
        requires
            old(self).wf(),
        ensures
            final(self).wf(),
            final(self).spec_id() == old(self).spec_id(),
            final(self)@ == (ChannelState { xon: true, ..old(self)@ }),
            final(self)@ == apply_event(old(self)@, ChannelEvent::Xon),
    {
        self.buf.set_xon();
    }

    /// The engine's XOFF notification.
    pub fn on_xoff(&mut self)
        requires
            old(self).wf(),
        ensures
            final(self).wf(),
            final(self).spec_id() == old(self).spec_id(),
            final(self)@ == (ChannelState { xon: false, ..old(self)@ }),
            final(self)@ == apply_event(old(self)@, ChannelEvent::Xoff),
    {
        self.buf.set_xoff();
    }
}


/// Channel setup, given the engine's answer to the flag query: `status` is
/// the query's result code and `flags` the channel's flags. A nonzero status
/// means the processor has no such channel (`None`); otherwise the flags to
/// write back are `flags` with the console pass-through bit `stdio` cleared.
pub fn uart_init_flags(status: i32, flags: u32, stdio: u32) -> (r: Option<u32>)
    ensures
        status != 0 ==> r.is_none(),
        status == 0 ==> r == Some(flags & !stdio),
{
    if status != 0 {
        None
    } else {
        Some(flags & !stdio)
    }
}

/// Key of a pin in the level table.
pub open spec fn pin_key(port: char, pin: u8) -> u64 {
    ((port as u64) * 256 + (pin as u64)) as u64
}

/// A pin level, written by the test code or reported by the engine.
#[derive(Clone, Copy, Debug, PartialEq, Eq, Structural)]
pub struct PinLevel {
    pub port: char,
    pub pin: u8,
    pub high: bool,
}

/// The session's view of the simulated processor: pin levels as of the last
/// engine step, pin writes not yet applied to the engine, the serial
/// channels, and the simulated time elapsed so far.
///
/// Only `step` advances simulated time; it is called once per engine step
/// with the cycles that step consumed.
pub struct AvrSimulator {
    clock_frequency: u32,
    levels: HashMap<u64, bool>,
    writes: Vec<PinLevel>,
    uarts: Vec<Option<Uart>>,
    elapsed: CpuDuration,
    steps: Ghost<Seq<u64>>,
}

impl AvrSimulator {
    pub closed spec fn wf(&self) -> bool {
        &&& self.clock_frequency > 0
        &&& self.elapsed.clock_frequency == self.clock_frequency
        &&& self.elapsed.cycles == sum_cycles(self.steps@)
        &&& forall|i: int|
            0 <= i < self.uarts@.len() && (#[trigger] self.uarts@[i]).is_some() ==> {
                &&& self.uarts@[i].unwrap().wf()
                &&& self.uarts@[i].unwrap().spec_id() == i
            }
    }

    pub closed spec fn spec_clock_frequency(&self) -> u32 {
        self.clock_frequency
    }

    /// Levels by `pin_key`; a pin missing here reads low.
    pub closed spec fn pin_levels(&self) -> Map<u64, bool> {
        self.levels@
    }

    pub open spec fn level(&self, port: char, pin: u8) -> bool {
        self.pin_levels().contains_key(pin_key(port, pin)) && self.pin_levels()[pin_key(port, pin)]
    }

    /// Pin writes not yet applied to the engine, oldest first.
    pub closed spec fn pending_writes(&self) -> Seq<PinLevel> {
        self.writes@
    }

    /// Cycles reported by each engine step so far, in order.
    pub closed spec fn steps(&self) -> Seq<u64> {
        self.steps@
    }

    pub closed spec fn spec_elapsed(&self) -> CpuDuration {
        self.elapsed
    }

    /// State of the channel with index `id`, where one is attached.
    pub closed spec fn channel(&self, id: int) -> Option<ChannelState> {
        if 0 <= id < self.uarts@.len() && self.uarts@[id].is_some() {
            Some(self.uarts@[id].unwrap()@)
        } else {
            None
        }
    }

    /// The session's elapsed time is the sum of the durations that its steps
    /// reported, whatever the sequence of steps.
    pub proof fn lemma_elapsed_is_sum_of_steps(&self)
        requires
            self.wf(),
        ensures
            self.spec_elapsed().cycles == sum_cycles(self.steps()),
            self.spec_elapsed().clock_frequency == self.spec_clock_frequency(),
    {
    }

    /// Channel indices are never negative.
    pub proof fn lemma_no_negative_channel(&self, id: int)
        requires
            id < 0,
        ensures
            self.channel(id).is_none(),
    {
    }

    /// A session clocked at `clock_frequency` Hz: all pins low, no channel,
    /// no time elapsed.
    pub fn new(clock_frequency: u32) -> (r: AvrSimulator)
        requires
            clock_frequency > 0,
        ensures
            r.wf(),
            r.spec_clock_frequency() == clock_frequency,
            r.pin_levels() == Map::<u64, bool>::empty(),
            r.pending_writes() == Seq::<PinLevel>::empty(),
            r.steps() == Seq::<u64>::empty(),
            r.spec_elapsed() == (CpuDuration { clock_frequency, cycles: 0 }),
            forall|id: int| r.channel(id).is_none(),
    {
        AvrSimulator {
            clock_frequency,
            levels: HashMap::new(),
            writes: Vec::new(),
            uarts: Vec::new(),
            elapsed: CpuDuration::zero(clock_frequency),
            steps: Ghost(Seq::empty()),
        }
    }

    pub fn clock_frequency(&self) -> (r: u32)
        ensures
            r == self.spec_clock_frequency(),
            self.wf() ==> r > 0,
    {
        self.clock_frequency
    }

    /// Simulated time elapsed since the session began.
    pub fn elapsed(&self) -> (r: CpuDuration)
        ensures
            r == self.spec_elapsed(),
    {
        self.elapsed
    }

    fn key(port: char, pin: u8) -> (r: u64)
        ensures
            r == pin_key(port, pin),
    {
        (port as u64) * 256 + (pin as u64)
    }

    pub fn is_pin_high(&self, port: char, pin: u8) -> (r: bool)
        ensures
            r == self.level(port, pin),
    {
        broadcast use vstd::std_specs::hash::group_hash_axioms;

        match self.levels.get(&Self::key(port, pin)) {
            Some(h) => *h,
            None => false,
        }
    }

    /// Drives a pin: its level reads `high` from now on, and the write waits
    /// to be applied to the engine before the next step.
    pub fn set_pin_high(&mut self, port: char, pin: u8, high: bool)
        requires
            old(self).wf(),
        ensures
            final(self).wf(),
            final(self).pin_levels() == old(self).pin_levels().insert(pin_key(port, pin), high),
            final(self).pending_writes() == old(self).pending_writes().push(
                PinLevel { port, pin, high },
            ),
            final(self).spec_clock_frequency() == old(self).spec_clock_frequency(),
            final(self).steps() == old(self).steps(),
            final(self).spec_elapsed() == old(self).spec_elapsed(),
            forall|id: int| final(self).channel(id) == old(self).channel(id),
    {
        broadcast use vstd::std_specs::hash::group_hash_axioms;

        self.levels.insert(Self::key(port, pin), high);
        self.writes.push(PinLevel { port, pin, high });
    }

    /// Records a pin level reported by the engine after a step.
    pub fn observe_pin(&mut self, port: char, pin: u8, high: bool)
        requires
            old(self).wf(),
        ensures
            final(self).wf(),
            final(self).pin_levels() == old(self).pin_levels().insert(pin_key(port, pin), high),
            final(self).pending_writes() == old(self).pending_writes(),
            final(self).spec_clock_frequency() == old(self).spec_clock_frequency(),
            final(self).steps() == old(self).steps(),
            final(self).spec_elapsed() == old(self).spec_elapsed(),
            forall|id: int| final(self).channel(id) == old(self).channel(id),
    {
        broadcast use vstd::std_specs::hash::group_hash_axioms;

        self.levels.insert(Self::key(port, pin), high);
    }

    /// Hands out the pending pin writes, oldest first, and forgets them.
    pub fn take_pin_writes(&mut self) -> (r: Vec<PinLevel>)
        requires
            old(self).wf(),
        ensures
            final(self).wf(),
            r@ == old(self).pending_writes(),
            final(self).pending_writes() == Seq::<PinLevel>::empty(),
            final(self).pin_levels() == old(self).pin_levels(),
            final(self).spec_clock_frequency() == old(self).spec_clock_frequency(),
            final(self).steps() == old(self).steps(),
            final(self).spec_elapsed() == old(self).spec_elapsed(),
            forall|id: int| final(self).channel(id) == old(self).channel(id),
    {
        let mut out: Vec<PinLevel> = Vec::new();
        std::mem::swap(&mut out, &mut self.writes);
        out
    }

    /// The stepping driver: records one engine step that consumed `cycles`
    /// cycles and returns its duration.
    pub fn step(&mut self, cycles: u64) -> (r: CpuDuration)
        requires
            old(self).wf(),
            old(self).spec_elapsed().cycles + cycles <= u64::MAX,
        ensures
            final(self).wf(),
            r == (CpuDuration { clock_frequency: old(self).spec_clock_frequency(), cycles }),
            final(self).steps() == old(self).steps().push(cycles),
            final(self).spec_elapsed().cycles == old(self).spec_elapsed().cycles + cycles,
            final(self).spec_elapsed().clock_frequency == old(self).spec_clock_frequency(),
            final(self).pin_levels() == old(self).pin_levels(),
            final(self).pending_writes() == old(self).pending_writes(),
            final(self).spec_clock_frequency() == old(self).spec_clock_frequency(),
            forall|id: int| final(self).channel(id) == old(self).channel(id),
    {
        let d = CpuDuration::new(self.clock_frequency, cycles);
        self.elapsed = self.elapsed.add(d);
        proof {
            let s = self.steps@;
            assert(s.push(cycles).drop_last() =~= s);
            self.steps = Ghost(s.push(cycles));
        }
        d
    }

    /// Attaches a channel whose support the engine confirmed. Returns
    /// `false`, changing nothing, when a channel with that id is attached
    /// already.
    pub fn attach_uart(&mut self, uart: Uart) -> (r: bool)
        requires
            old(self).wf(),
            uart.wf(),
        ensures
            final(self).wf(),
            r == old(self).channel(uart.spec_id() as int).is_none(),
            r ==> final(self).channel(uart.spec_id() as int) == Some(uart@),
            forall|id: int|
                id != uart.spec_id() ==> final(self).channel(id) == old(self).channel(id),
            !r ==> final(self).channel(uart.spec_id() as int) == old(self).channel(
                uart.spec_id() as int,
            ),
            final(self).pin_levels() == old(self).pin_levels(),
            final(self).pending_writes() == old(self).pending_writes(),
            final(self).spec_clock_frequency() == old(self).spec_clock_frequency(),
            final(self).steps() == old(self).steps(),
            final(self).spec_elapsed() == old(self).spec_elapsed(),
    {
        let id: usize = uart.id() as usize;
        if id < self.uarts.len() && self.uarts[id].is_some() {
            return false;
        }
        while self.uarts.len() <= id
            invariant
                self.wf(),
                self.clock_frequency == old(self).clock_frequency,
                self.levels@ == old(self).levels@,
                self.writes@ == old(self).writes@,
                self.elapsed == old(self).elapsed,
                self.steps@ == old(self).steps@,
                forall|j: int| #[trigger] self.channel(j) == old(self).channel(j),
            decreases id + 1 - self.uarts.len(),
        {
            let ghost before = *self;
            self.uarts.push(None);
            assert forall|j: int| #[trigger] self.channel(j) == old(self).channel(j) by {
                assert(self.channel(j) == before.channel(j));
            }
        }
        let ghost before = *self;
        self.uarts.set(id, Some(uart));
        assert forall|j: int| j != id implies #[trigger] self.channel(j) == old(self).channel(j) by {
            assert(self.channel(j) == before.channel(j));
        }
        true
    }

    /// Oldest byte received on channel `id`; `None` when nothing is queued
    /// or no such channel is attached.
    pub fn read_uart(&mut self, id: u8) -> (r: Option<u8>)
        requires
            old(self).wf(),
        ensures
            final(self).wf(),
            match old(self).channel(id as int) {
                None => r.is_none() && final(self).channel(id as int) == old(self).channel(
                    id as int,
                ),
                Some(c) => if c.rx.len() == 0 {
                    r.is_none() && final(self).channel(id as int) == Some(c)
                } else {
                    r == Some(c.rx[0]) && final(self).channel(id as int) == Some(
                        ChannelState { rx: c.rx.drop_first(), ..c },
                    )
                },
            },
            forall|j: int| j != id ==> final(self).channel(j) == old(self).channel(j),
            final(self).pin_levels() == old(self).pin_levels(),
            final(self).pending_writes() == old(self).pending_writes(),
            final(self).spec_clock_frequency() == old(self).spec_clock_frequency(),
            final(self).steps() == old(self).steps(),
            final(self).spec_elapsed() == old(self).spec_elapsed(),
    {
        let i: usize = id as usize;
        if i >= self.uarts.len() {
            return None;
        }
        match &mut self.uarts[i] {
            Some(u) => u.recv(),
            None => None,
        }
    }

    /// Everything but the channels is the same in `self` and `other`.
    pub open spec fn same_but_channels(&self, other: &AvrSimulator) -> bool {
        &&& self.pin_levels() == other.pin_levels()
        &&& self.pending_writes() == other.pending_writes()
        &&& self.spec_clock_frequency() == other.spec_clock_frequency()
        &&& self.steps() == other.steps()
        &&& self.spec_elapsed() == other.spec_elapsed()
    }

    /// Queues `byte` for the engine on channel `id`; nothing happens when no
    /// such channel is attached.
    pub fn write_uart(&mut self, id: u8, byte: u8)
        requires
            old(self).wf(),
        ensures
            final(self).wf(),
            final(self).same_but_channels(old(self)),
            match old(self).channel(id as int) {
                None => final(self).channel(id as int).is_none(),
                Some(c) => final(self).channel(id as int) == Some(
                    ChannelState { tx: c.tx.push(byte), ..c },
                ),
            },
            forall|j: int| j != id ==> final(self).channel(j) == old(self).channel(j),
    {
        let i: usize = id as usize;
        if i < self.uarts.len() {
            match &mut self.uarts[i] {
                Some(u) => u.send(byte),
                None => {},
            }
        }
    }

    /// One round of the transmit flush of channel `id` (see `Uart::flush`).
    pub fn flush_uart(&mut self, id: u8) -> (r: Option<u8>)
        requires
            old(self).wf(),
        ensures
            final(self).wf(),
            final(self).same_but_channels(old(self)),
            match old(self).channel(id as int) {
                None => r.is_none() && final(self).channel(id as int).is_none(),
                Some(c) => if c.xon && c.tx.len() > 0 {
                    r == Some(c.tx[0]) && final(self).channel(id as int) == Some(
                        ChannelState { tx: c.tx.drop_first(), ..c },
                    )
                } else {
                    r.is_none() && final(self).channel(id as int) == Some(c)
                },
            },
            forall|j: int| j != id ==> final(self).channel(j) == old(self).channel(j),
    {
        let i: usize = id as usize;
        if i >= self.uarts.len() {
            return None;
        }
        match &mut self.uarts[i] {
            Some(u) => u.flush(),
            None => None,
        }
    }

    /// The engine's data-output notification for channel `id`.
    pub fn on_uart_output(&mut self, id: u8, value: u32)
        requires
            old(self).wf(),
        ensures
            final(self).wf(),
            final(self).same_but_channels(old(self)),
            match old(self).channel(id as int) {
                None => final(self).channel(id as int).is_none(),
                Some(c) => final(self).channel(id as int) == Some(
                    ChannelState { rx: rx_after_delivery(c.rx, (value % 256) as u8), ..c },
                ),
            },
            forall|j: int| j != id ==> final(self).channel(j) == old(self).channel(j),
    {
        let i: usize = id as usize;
        if i < self.uarts.len() {
            match &mut self.uarts[i] {
                Some(u) => u.on_output(value),
                None => {},
            }
        }
    }

    /// The engine's XON (`xon == true`) or XOFF (`xon == false`)
    /// notification for channel `id`.
    pub fn on_uart_flow(&mut self, id: u8, xon: bool)
        requires
            old(self).wf(),
        ensures
            final(self).wf(),
            final(self).same_but_channels(old(self)),
            match old(self).channel(id as int) {
                None => final(self).channel(id as int).is_none(),
                Some(c) => final(self).channel(id as int) == Some(ChannelState { xon, ..c }),
            },
            forall|j: int| j != id ==> final(self).channel(j) == old(self).channel(j),
    {
        let i: usize = id as usize;
        if i < self.uarts.len() {
            match &mut self.uarts[i] {
                Some(u) => if xon {
                    u.on_xon()
                } else {
                    u.on_xoff()
                },
                None => {},
            }
        }
    }
}

} // verus!
