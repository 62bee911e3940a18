use vstd::prelude::*;
use crate::duration::{CpuDuration, sum_cycles, lemma_sum_cycles_append, lemma_sum_cycles_ge_each};
use crate::simulator::{AvrSimulator, PinLevel, pin_key};
use vstd::string::StringExecFns;

verus! {

/// Relies on `String::push`: appends one character.
#[verifier::external_body]
fn push_char(s: &mut String, c: char)
    ensures
        final(s)@ == old(s)@.push(c),
{
    s.push(c);
}

/// Decimal digits of `n`, most significant first.
pub open spec fn decimal(n: nat) -> Seq<char>
    decreases n,
{
    if n < 10 {
        seq![(('0' as nat) + n) as char]
    } else {
        decimal(n / 10).push((('0' as nat) + n % 10) as char)
    }
}

/// Name of a pin, e.g. `PD4`.
pub open spec fn pin_name(port: char, pin: u8) -> Seq<char> {
    seq!['P', port] + decimal(pin as nat)
}

fn digit(d: u8) -> (r: char)
    requires
        d < 10,
    ensures
        r == (('0' as nat) + d) as char,
{
    (d + 48) as char
}

/// Appends the decimal digits of `n`.
fn push_decimal(s: &mut String, n: u8)
    ensures
        final(s)@ == old(s)@ + decimal(n as nat),
{
    if n >= 100 {
        push_char(s, digit(n / 100));
        push_char(s, digit((n / 10) % 10));
        push_char(s, digit(n % 10));
        let ghost m: nat = n as nat;
        assert(m / 10 / 10 == m / 100 && m / 100 < 10 && m / 10 >= 10);
        assert(decimal(m / 10 / 10) == seq![digit_spec(n / 100)]);
        assert(decimal(m / 10) == decimal(m / 10 / 10).push(digit_spec((n / 10) % 10)));
        assert(decimal(m) == decimal(m / 10).push(digit_spec(n % 10)));
        assert(decimal(m) =~= seq![digit_spec(n / 100), digit_spec((n / 10) % 10), digit_spec(n % 10)]);
    } else if n >= 10 {
        push_char(s, digit(n / 10));
        push_char(s, digit(n % 10));
        let ghost m: nat = n as nat;
        assert(decimal(m / 10) == seq![digit_spec(n / 10)]);
        assert(decimal(m) == decimal(m / 10).push(digit_spec(n % 10)));
        assert(decimal(m) =~= seq![digit_spec(n / 10), digit_spec(n % 10)]);
    } else {
        push_char(s, digit(n));
    }
    assert(final(s)@ =~= old(s)@ + decimal(n as nat));
}

pub open spec fn digit_spec(d: u8) -> char {
    (('0' as nat) + d) as char
}

fn build_name(port: char, pin: u8) -> (r: String)
    ensures
        r@ == pin_name(port, pin),
{
    let mut s = String::new();
    push_char(&mut s, 'P');
    push_char(&mut s, port);
    push_decimal(&mut s, pin);
    assert(s@ =~= pin_name(port, pin));
    s
}


/// What a pin wait waits for.
#[derive(Clone, Copy, Debug, PartialEq, Eq, Structural)]
pub enum WaitKind {
    /// Until the level differs from `initial`, the level when the wait began.
    Change { initial: bool },
    /// While the pin is low, i.e. until it is high.
    WhileLow,
    /// While the pin is high, i.e. until it is low.
    WhileHigh,
}

/// Whether a wait of `kind` goes on while the pin reads `high`.
pub open spec fn keeps_waiting(kind: WaitKind, high: bool) -> bool {
    match kind {
        WaitKind::Change { initial } => high == initial,
        WaitKind::WhileLow => !high,
        WaitKind::WhileHigh => high,
    }
}

/// A wait on one pin, advanced one engine step at a time: after each step,
/// `on_step` adds its duration and `poll` tells whether the wait is over and
/// how long it took.
#[derive(Clone, Copy)]
pub struct PinWait {
    port: char,
    pin: u8,
    kind: WaitKind,
    elapsed: CpuDuration,
    steps: Ghost<Seq<u64>>,
}

impl PinWait {
    /// The duration accumulated is the sum of the steps taken.
    pub closed spec fn wf(&self) -> bool {
        &&& self.elapsed.wf()
        &&& self.elapsed.cycles == sum_cycles(self.steps@)
    }

    pub closed spec fn spec_port(&self) -> char {
        self.port
    }

    pub closed spec fn spec_pin(&self) -> u8 {
        self.pin
    }

    pub closed spec fn spec_kind(&self) -> WaitKind {
        self.kind
    }

    pub closed spec fn spec_elapsed(&self) -> CpuDuration {
        self.elapsed
    }

    /// Cycles of each step taken since the wait began, in order.
    pub closed spec fn steps(&self) -> Seq<u64> {
        self.steps@
    }

    /// This wait after a step of duration `d`.
    pub closed spec fn stepped(&self, d: CpuDuration) -> PinWait {
        PinWait {
            elapsed: self.elapsed.add_spec(d),
            steps: Ghost(self.steps@.push(d.cycles)),
            ..*self
        }
    }

    /// A step keeps the wait on the same pin, with the same kind, and adds
    /// the step's duration.
    pub proof fn lemma_stepped(&self, d: CpuDuration)
        requires
            self.wf(),
            d.clock_frequency == self.spec_elapsed().clock_frequency,
            self.spec_elapsed().cycles + d.cycles <= u64::MAX,
        ensures
            self.stepped(d).wf(),
            self.stepped(d).spec_port() == self.spec_port(),
            self.stepped(d).spec_pin() == self.spec_pin(),
            self.stepped(d).spec_kind() == self.spec_kind(),
            self.stepped(d).spec_elapsed() == self.spec_elapsed().add_spec(d),
            self.stepped(d).steps() == self.steps().push(d.cycles),
    {
        let s = self.steps@;
        assert(s.push(d.cycles).drop_last() =~= s);
    }

    /// What `poll` returns when the pin reads `high`.
    pub open spec fn outcome(&self, high: bool) -> Option<CpuDuration> {
        if keeps_waiting(self.spec_kind(), high) {
            None
        } else {
            Some(self.spec_elapsed())
        }
    }

    /// A wait of `kind` on `port`/`pin` with no step taken.
    pub fn new(port: char, pin: u8, kind: WaitKind, clock_frequency: u32) -> (r: PinWait)
        requires
            clock_frequency > 0,
        ensures
            r.wf(),
            r.spec_port() == port,
            r.spec_pin() == pin,
            r.spec_kind() == kind,
            r.spec_elapsed() == (CpuDuration { clock_frequency, cycles: 0 }),
            r.steps() == Seq::<u64>::empty(),
    {
        PinWait {
            port,
            pin,
            kind,
            elapsed: CpuDuration::zero(clock_frequency),
            steps: Ghost(Seq::empty()),
        }
    }

    pub fn kind(&self) -> (r: WaitKind)
        ensures
            r == self.spec_kind(),
    {
        self.kind
    }

    /// Duration accumulated so far.
    pub fn elapsed(&self) -> (r: CpuDuration)
        ensures
            r == self.spec_elapsed(),
    {
        self.elapsed
    }

    /// Adds one engine step's duration.
    pub fn on_step(&mut self, d: CpuDuration)
        requires
            old(self).wf(),
            d.clock_frequency == old(self).spec_elapsed().clock_frequency,
            old(self).spec_elapsed().cycles + d.cycles <= u64::MAX,
        ensures
            final(self).wf(),
            final(self).spec_port() == old(self).spec_port(),
            final(self).spec_pin() == old(self).spec_pin(),
            final(self).spec_kind() == old(self).spec_kind(),
            final(self).steps() == old(self).steps().push(d.cycles),
            final(self).spec_elapsed() == old(self).spec_elapsed().add_spec(d),
            *final(self) == old(self).stepped(d),
    {
        self.elapsed = self.elapsed.add(d);
        proof {
            let s = self.steps@;
            assert(s.push(d.cycles).drop_last() =~= s);
            self.steps = Ghost(s.push(d.cycles));
        }
    }

    /// `None` while the wait goes on at the pin's current level in `sim`;
    /// once it is over, the duration accumulated.
    pub fn poll(&self, sim: &AvrSimulator) -> (r: Option<CpuDuration>)
        ensures
            r == self.outcome(sim.level(self.spec_port(), self.spec_pin())),
    {
        let high = sim.is_pin_high(self.port, self.pin);
        let waiting = match self.kind {
            WaitKind::Change { initial } => high == initial,
            WaitKind::WhileLow => !high,
            WaitKind::WhileHigh => high,
        };
        if waiting {
            None
        } else {
            Some(self.elapsed)
        }
    }
}


/// Manages a single digital pin (e.g. `PD4`) of a session.
pub struct DigitalPin<'a> {
    pub avr: &'a mut AvrSimulator,
    pub port: char,
    pub pin: u8,
}

impl<'a> DigitalPin<'a> {
    pub open spec fn sim(&self) -> AvrSimulator {
        *self.avr
    }

    pub open spec fn spec_port(&self) -> char {
        self.port
    }

    pub open spec fn spec_pin(&self) -> u8 {
        self.pin
    }

    /// Level of the pin in the session.
    pub open spec fn level(&self) -> bool {
        self.sim().level(self.spec_port(), self.spec_pin())
    }

    pub fn new(avr: &'a mut AvrSimulator, port: char, pin: u8) -> (r: DigitalPin<'a>)
        ensures
            r.sim() == *old(avr),
            *final(r.avr) == *final(avr),
            r.spec_port() == port,
            r.spec_pin() == pin,
    {
        DigitalPin { avr, port, pin }
    }

    /// Changes pin's state to low or high.
    pub fn set(&mut self, high: bool)
        requires
            old(self).sim().wf(),
        ensures
            final(self).sim().wf(),
            pin_written(old(self).sim(), final(self).sim(), old(self).spec_port(), old(self).spec_pin(), high),
            final(self).level() == high,
            final(self).spec_port() == old(self).spec_port(),
            final(self).spec_pin() == old(self).spec_pin(),
            *final(final(self).avr) == *final(old(self).avr),
    {
        self.avr.set_pin_high(self.port, self.pin, high);
    }

    /// Changes pin's state to low.
    pub fn set_low(&mut self)
        requires
            old(self).sim().wf(),
        ensures
            final(self).sim().wf(),
            pin_written(old(self).sim(), final(self).sim(), old(self).spec_port(), old(self).spec_pin(), false),
            final(self).spec_port() == old(self).spec_port(),
            final(self).spec_pin() == old(self).spec_pin(),
            *final(final(self).avr) == *final(old(self).avr),
    {
        self.set(false);
    }

    /// Changes pin's state to high.
    pub fn set_high(&mut self)
        requires
            old(self).sim().wf(),
        ensures
            final(self).sim().wf(),
            pin_written(old(self).sim(), final(self).sim(), old(self).spec_port(), old(self).spec_pin(), true),
            final(self).spec_port() == old(self).spec_port(),
            final(self).spec_pin() == old(self).spec_pin(),
            *final(final(self).avr) == *final(old(self).avr),
    {
        self.set(true);
    }

    /// Changes pin's state from low to high or from high to low.
    pub fn toggle(&mut self)
        requires
            old(self).sim().wf(),
        ensures
            final(self).sim().wf(),
            pin_written(old(self).sim(), final(self).sim(), old(self).spec_port(), old(self).spec_pin(), !old(self).level()),
            final(self).spec_port() == old(self).spec_port(),
            final(self).spec_pin() == old(self).spec_pin(),
            *final(final(self).avr) == *final(old(self).avr),
    {
        if self.is_low() {
            self.set_high();
        } else {
            self.set_low();
        }
    }

    /// Returns whether pin's state is low.
    pub fn is_low(&mut self) -> (r: bool)
        ensures
            r == !old(self).level(),
            final(self).sim() == old(self).sim(),
            final(self).spec_port() == old(self).spec_port(),
            final(self).spec_pin() == old(self).spec_pin(),
            *final(final(self).avr) == *final(old(self).avr),
    {
        !self.is_high()
    }

    /// Returns whether pin's state is high.
    pub fn is_high(&mut self) -> (r: bool)
        ensures
            r == old(self).level(),
            final(self).sim() == old(self).sim(),
            final(self).spec_port() == old(self).spec_port(),
            final(self).spec_pin() == old(self).spec_pin(),
            *final(final(self).avr) == *final(old(self).avr),
    {
        self.avr.is_pin_high(self.port, self.pin)
    }

    /// Checks that pin's state is `high`; otherwise the error names the pin
    /// and the expected state, e.g. `PD4 is not high`.
    pub fn check_state(&mut self, high: bool) -> (r: Result<(), String>)
        ensures
            r.is_ok() <==> old(self).level() == high,
            r matches Err(e) ==> e@ == failure_message(old(self).spec_port(), old(self).spec_pin(), high),
            final(self).sim() == old(self).sim(),
            final(self).spec_port() == old(self).spec_port(),
            final(self).spec_pin() == old(self).spec_pin(),
            *final(final(self).avr) == *final(old(self).avr),
    {
        if high {
            self.check_high()
        } else {
            self.check_low()
        }
    }

    /// Checks that pin's state is low (see `check_state`).
    pub fn check_low(&mut self) -> (r: Result<(), String>)
        ensures
            r.is_ok() <==> !old(self).level(),
            r matches Err(e) ==> e@ == failure_message(old(self).spec_port(), old(self).spec_pin(), false),
            final(self).sim() == old(self).sim(),
            final(self).spec_port() == old(self).spec_port(),
            final(self).spec_pin() == old(self).spec_pin(),
            *final(final(self).avr) == *final(old(self).avr),
    {
        if self.is_low() {
            Ok(())
        } else {
            Err(build_failure(self.port, self.pin, false))
        }
    }

    /// Checks that pin's state is high (see `check_state`).
    pub fn check_high(&mut self) -> (r: Result<(), String>)
        ensures
            r.is_ok() <==> old(self).level(),
            r matches Err(e) ==> e@ == failure_message(old(self).spec_port(), old(self).spec_pin(), true),
            final(self).sim() == old(self).sim(),
            final(self).spec_port() == old(self).spec_port(),
            final(self).spec_pin() == old(self).spec_pin(),
            *final(final(self).avr) == *final(old(self).avr),
    {
        if self.is_high() {
            Ok(())
        } else {
            Err(build_failure(self.port, self.pin, true))
        }
    }

    /// Asserts that pin's state is `high`: a caller must show that it is.
    /// `check_state` is the run-time form, which reports a wrong state.
    pub fn assert_state(&mut self, high: bool)
        requires
            old(self).level() == high,
        ensures
            final(self).sim() == old(self).sim(),
            final(self).spec_port() == old(self).spec_port(),
            final(self).spec_pin() == old(self).spec_pin(),
            *final(final(self).avr) == *final(old(self).avr),
    {
        if high {
            self.assert_high();
        } else {
            self.assert_low();
        }
    }

    /// Asserts that pin's state is low (see `assert_state`).
    pub fn assert_low(&mut self)
        requires
            !old(self).level(),
        ensures
            final(self).sim() == old(self).sim(),
            final(self).spec_port() == old(self).spec_port(),
            final(self).spec_pin() == old(self).spec_pin(),
            *final(final(self).avr) == *final(old(self).avr),
    {
        let low = self.is_low();
        assert(low);
    }

    /// Asserts that pin's state is high (see `assert_state`).
    pub fn assert_high(&mut self)
        requires
            old(self).level(),
        ensures
            final(self).sim() == old(self).sim(),
            final(self).spec_port() == old(self).spec_port(),
            final(self).spec_pin() == old(self).spec_pin(),
            *final(final(self).avr) == *final(old(self).avr),
    {
        let high = self.is_high();
        assert(high);
    }

    /// Starts waiting until pin switches state (e.g. from low to high or from
    /// high to low); the wait reports how long that took.
    pub fn pulse_in(&mut self) -> (r: PinWait)
        requires
            old(self).sim().wf(),
        ensures
            r.wf(),
            fresh_wait(r, old(self).sim(), old(self).spec_port(), old(self).spec_pin()),
            r.spec_kind() == (WaitKind::Change { initial: old(self).level() }),
            final(self).sim() == old(self).sim(),
            final(self).spec_port() == old(self).spec_port(),
            final(self).spec_pin() == old(self).spec_pin(),
            *final(final(self).avr) == *final(old(self).avr),
    {
        let initial = self.is_high();
        PinWait::new(self.port, self.pin, WaitKind::Change { initial }, self.avr.clock_frequency())
    }

    /// Starts waiting until pin becomes high; if it is high already, the
    /// wait is over at once with a zero duration.
    pub fn wait_while_low(&mut self) -> (r: PinWait)
        requires
            old(self).sim().wf(),
        ensures
            r.wf(),
            fresh_wait(r, old(self).sim(), old(self).spec_port(), old(self).spec_pin()),
            r.spec_kind() == WaitKind::WhileLow,
            final(self).sim() == old(self).sim(),
            final(self).spec_port() == old(self).spec_port(),
            final(self).spec_pin() == old(self).spec_pin(),
            *final(final(self).avr) == *final(old(self).avr),
    {
        PinWait::new(self.port, self.pin, WaitKind::WhileLow, self.avr.clock_frequency())
    }

    /// Starts waiting until pin becomes low; if it is low already, the wait
    /// is over at once with a zero duration.
    pub fn wait_while_high(&mut self) -> (r: PinWait)
        requires
            old(self).sim().wf(),
        ensures
            r.wf(),
            fresh_wait(r, old(self).sim(), old(self).spec_port(), old(self).spec_pin()),
            r.spec_kind() == WaitKind::WhileHigh,
            final(self).sim() == old(self).sim(),
            final(self).spec_port() == old(self).spec_port(),
            final(self).spec_pin() == old(self).spec_pin(),
            *final(final(self).avr) == *final(old(self).avr),
    {
        PinWait::new(self.port, self.pin, WaitKind::WhileHigh, self.avr.clock_frequency())
    }

    /// Returns pin's name, e.g. `PC6`.
    pub fn name(&self) -> (r: String)
        ensures
            r@ == pin_name(self.spec_port(), self.spec_pin()),
    {
        build_name(self.port, self.pin)
    }
}

/// `after` is `before` with `port`/`pin` driven to `high`.
pub open spec fn pin_written(before: AvrSimulator, after: AvrSimulator, port: char, pin: u8, high: bool) -> bool {
    &&& after.pin_levels() == before.pin_levels().insert(pin_key(port, pin), high)
    &&& after.pending_writes() == before.pending_writes().push(PinLevel { port, pin, high })
    &&& after.spec_clock_frequency() == before.spec_clock_frequency()
    &&& after.steps() == before.steps()
    &&& after.spec_elapsed() == before.spec_elapsed()
    &&& forall|id: int| after.channel(id) == before.channel(id)
}

/// `w` is a wait on `port`/`pin` of `sim` that has taken no step.
pub open spec fn fresh_wait(w: PinWait, sim: AvrSimulator, port: char, pin: u8) -> bool {
    &&& w.spec_port() == port
    &&& w.spec_pin() == pin
    &&& w.spec_elapsed() == (CpuDuration { clock_frequency: sim.spec_clock_frequency(), cycles: 0 })
    &&& w.steps() == Seq::<u64>::empty()
}

/// Message of a failed check that a pin is `high` (or low).
pub open spec fn failure_message(port: char, pin: u8, high: bool) -> Seq<char> {
    pin_name(port, pin) + if high { " is not high"@ } else { " is not low"@ }
}

fn build_failure(port: char, pin: u8, high: bool) -> (r: String)
    ensures
        r@ == failure_message(port, pin, high),
{
    let mut s = build_name(port, pin);
    if high {
        s.append(" is not high");
    } else {
        s.append(" is not low");
    }
    s
}

/// A digital pin for components run by a `ComponentRuntime`; each operation
/// takes the session it acts on.
pub struct DigitalPinAsync {
    port: char,
    pin: u8,
}

impl DigitalPinAsync {
    pub closed spec fn spec_port(&self) -> char {
        self.port
    }

    pub closed spec fn spec_pin(&self) -> u8 {
        self.pin
    }

    pub open spec fn level(&self, sim: AvrSimulator) -> bool {
        sim.level(self.spec_port(), self.spec_pin())
    }

    pub fn new(port: char, pin: u8) -> (r: DigitalPinAsync)
        ensures
            r.spec_port() == port,
            r.spec_pin() == pin,
    {
        DigitalPinAsync { port, pin }
    }

    /// Changes pin's state to low or high.
    pub fn set(&self, sim: &mut AvrSimulator, high: bool)
        requires
            old(sim).wf(),
        ensures
            final(sim).wf(),
            pin_written(*old(sim), *final(sim), self.spec_port(), self.spec_pin(), high),
    {
        sim.set_pin_high(self.port, self.pin, high);
    }

    /// Changes pin's state to low.
    pub fn set_low(&self, sim: &mut AvrSimulator)
        requires
            old(sim).wf(),
        ensures
            final(sim).wf(),
            pin_written(*old(sim), *final(sim), self.spec_port(), self.spec_pin(), false),
    {
        self.set(sim, false);
    }

    /// Changes pin's state to high.
    pub fn set_high(&self, sim: &mut AvrSimulator)
        requires
            old(sim).wf(),
        ensures
            final(sim).wf(),
            pin_written(*old(sim), *final(sim), self.spec_port(), self.spec_pin(), true),
    {
        self.set(sim, true);
    }

    /// Changes pin's state from low to high or from high to low.
    pub fn toggle(&mut self, sim: &mut AvrSimulator)
        requires
            old(sim).wf(),
        ensures
            final(sim).wf(),
            *final(self) == *old(self),
            pin_written(*old(sim), *final(sim), old(self).spec_port(), old(self).spec_pin(), !old(self).level(*old(sim))),
    {
        if self.is_low(sim) {
            self.set_high(sim);
        } else {
            self.set_low(sim);
        }
    }

    /// Returns whether pin's state is low.
    pub fn is_low(&mut self, sim: &AvrSimulator) -> (r: bool)
        ensures
            *final(self) == *old(self),
            r == !old(self).level(*sim),
    {
        !self.is_high(sim)
    }

    /// Returns whether pin's state is high.
    pub fn is_high(&mut self, sim: &AvrSimulator) -> (r: bool)
        ensures
            *final(self) == *old(self),
            r == old(self).level(*sim),
    {
        sim.is_pin_high(self.port, self.pin)
    }

    /// Checks that pin's state is low; otherwise the error names the pin,
    /// e.g. `PD4 is not low`.
    pub fn check_low(&mut self, sim: &AvrSimulator) -> (r: Result<(), String>)
        ensures
            *final(self) == *old(self),
            r.is_ok() <==> !old(self).level(*sim),
            r matches Err(e) ==> e@ == failure_message(old(self).spec_port(), old(self).spec_pin(), false),
    {
        if self.is_low(sim) {
            Ok(())
        } else {
            Err(build_failure(self.port, self.pin, false))
        }
    }

    /// Checks that pin's state is high; otherwise the error names the pin,
    /// e.g. `PD4 is not high`.
    pub fn check_high(&mut self, sim: &AvrSimulator) -> (r: Result<(), String>)
        ensures
            *final(self) == *old(self),
            r.is_ok() <==> old(self).level(*sim),
            r matches Err(e) ==> e@ == failure_message(old(self).spec_port(), old(self).spec_pin(), true),
    {
        if self.is_high(sim) {
            Ok(())
        } else {
            Err(build_failure(self.port, self.pin, true))
        }
    }

    /// Asserts that pin's state is low in `sim`: a caller must show that it
    /// is. `check_low` is the run-time form, which reports a wrong state.
    pub fn assert_low(&mut self, sim: &AvrSimulator)
        requires
            !old(self).level(*sim),
        ensures
            *final(self) == *old(self),
    {
        let low = self.is_low(sim);
        assert(low);
    }

    /// Asserts that pin's state is high in `sim` (see `assert_low`).
    pub fn assert_high(&mut self, sim: &AvrSimulator)
        requires
            old(self).level(*sim),
        ensures
            *final(self) == *old(self),
    {
        let high = self.is_high(sim);
        assert(high);
    }

    /// Starts waiting until pin switches state; see `DigitalPin::pulse_in`.
    pub fn pulse_in(&mut self, sim: &AvrSimulator) -> (r: PinWait)
        requires
            sim.wf(),
        ensures
            *final(self) == *old(self),
            r.wf(),
            fresh_wait(r, *sim, old(self).spec_port(), old(self).spec_pin()),
            r.spec_kind() == (WaitKind::Change { initial: old(self).level(*sim) }),
    {
        let initial = self.is_high(sim);
        PinWait::new(self.port, self.pin, WaitKind::Change { initial }, sim.clock_frequency())
    }

    /// Starts waiting until pin becomes high; see `DigitalPin::wait_while_low`.
    pub fn wait_while_low(&mut self, sim: &AvrSimulator) -> (r: PinWait)
        requires
            sim.wf(),
        ensures
            *final(self) == *old(self),
            r.wf(),
            fresh_wait(r, *sim, old(self).spec_port(), old(self).spec_pin()),
            r.spec_kind() == WaitKind::WhileLow,
    {
        PinWait::new(self.port, self.pin, WaitKind::WhileLow, sim.clock_frequency())
    }

    /// Starts waiting until pin becomes low; see `DigitalPin::wait_while_high`.
    pub fn wait_while_high(&mut self, sim: &AvrSimulator) -> (r: PinWait)
        requires
            sim.wf(),
        ensures
            *final(self) == *old(self),
            r.wf(),
            fresh_wait(r, *sim, old(self).spec_port(), old(self).spec_pin()),
            r.spec_kind() == WaitKind::WhileHigh,
    {
        PinWait::new(self.port, self.pin, WaitKind::WhileHigh, sim.clock_frequency())
    }

    /// Returns pin's name, e.g. `PC6`.
    pub fn name(&self) -> (r: String)
        ensures
            r@ == pin_name(self.spec_port(), self.spec_pin()),
    {
        build_name(self.port, self.pin)
    }
}

/// A wait's accumulated duration is the sum of the durations of the steps it
/// took; steps taken in two runs add up.
pub proof fn lemma_wait_elapsed_is_sum(w: PinWait, more: Seq<CpuDuration>)
    requires
        w.wf(),
    ensures
        w.spec_elapsed().cycles == sum_cycles(w.steps()),
        sum_cycles(w.steps() + more.map_values(|d: CpuDuration| d.cycles)) == w.spec_elapsed().cycles
            + sum_cycles(more.map_values(|d: CpuDuration| d.cycles)),
{
    lemma_sum_cycles_append(w.steps(), more.map_values(|d: CpuDuration| d.cycles));
}

/// `wait_while_low` ends with a zero duration exactly when the pin is high
/// when it is called, and `wait_while_high` exactly when the pin is low:
/// a fresh wait is over at once iff the pin is ready, with duration zero,
/// and a wait that took steps of at least one cycle each has a nonzero one.
pub proof fn lemma_wait_zero_iff_ready(w: PinWait, high: bool)
    requires
        w.wf(),
        w.spec_kind() == WaitKind::WhileLow || w.spec_kind() == WaitKind::WhileHigh,
        forall|i: int| 0 <= i < w.steps().len() ==> w.steps()[i] > 0,
    ensures
        w.steps().len() == 0 ==> (w.outcome(high) == Some(
            CpuDuration { clock_frequency: w.spec_elapsed().clock_frequency, cycles: 0 },
        ) <==> (w.spec_kind() == WaitKind::WhileLow) == high),
        w.steps().len() > 0 ==> w.spec_elapsed().cycles > 0,
{
    if w.steps().len() > 0 {
        lemma_sum_cycles_ge_each(w.steps(), 0);
    }
}

/// `pulse_in` does not end while the pin keeps the level it had when the
/// wait began; once the level differs it ends, with a duration of at least
/// each step it took.
pub proof fn lemma_pulse_in_outcome(w: PinWait, high: bool, initial: bool)
    requires
        w.wf(),
        w.spec_kind() == (WaitKind::Change { initial }),
    ensures
        high == initial ==> w.outcome(high).is_none(),
        high != initial ==> w.outcome(high) == Some(w.spec_elapsed()),
        forall|i: int| 0 <= i < w.steps().len() ==> w.steps()[i] <= w.spec_elapsed().cycles,
{
    assert forall|i: int| 0 <= i < w.steps().len() implies w.steps()[i] <= w.spec_elapsed().cycles by {
        lemma_sum_cycles_ge_each(w.steps(), i);
    }
}

/// Cycle counts of the durations `ds`.
pub open spec fn cycles_of(ds: Seq<CpuDuration>) -> Seq<u64> {
    ds.map_values(|d: CpuDuration| d.cycles)
}

/// `w` after the steps of durations `ds`, in order, each added by `on_step`.
pub open spec fn stepped_all(w: PinWait, ds: Seq<CpuDuration>) -> PinWait
    decreases ds.len(),
{
    if ds.len() == 0 {
        w
    } else {
        stepped_all(w, ds.drop_last()).stepped(ds.last())
    }
}

/// Over any sequence of steps, a wait's duration grows by the sum of the
/// steps' own durations, each counted once, and its step record is extended
/// by exactly those steps.
pub proof fn lemma_wait_run(w: PinWait, ds: Seq<CpuDuration>)
    requires
        w.wf(),
        forall|i: int| 0 <= i < ds.len() ==> (#[trigger] ds[i]).clock_frequency == w.spec_elapsed().clock_frequency,
        w.spec_elapsed().cycles + sum_cycles(cycles_of(ds)) <= u64::MAX,
    ensures
        stepped_all(w, ds).wf(),
        stepped_all(w, ds).spec_elapsed() == (CpuDuration {
            clock_frequency: w.spec_elapsed().clock_frequency,
            cycles: (w.spec_elapsed().cycles + sum_cycles(cycles_of(ds))) as u64,
        }),
        stepped_all(w, ds).steps() == w.steps() + cycles_of(ds),
        stepped_all(w, ds).spec_port() == w.spec_port(),
        stepped_all(w, ds).spec_pin() == w.spec_pin(),
        stepped_all(w, ds).spec_kind() == w.spec_kind(),
    decreases ds.len(),
{
    if ds.len() == 0 {
        assert(w.steps() + cycles_of(ds) =~= w.steps());
    } else {
        let init = ds.drop_last();
        assert(cycles_of(ds).drop_last() =~= cycles_of(init));
        assert(cycles_of(ds).last() == ds.last().cycles);
        lemma_wait_run(w, init);
        let v = stepped_all(w, init);
        assert(ds.last() == ds[ds.len() - 1]);
        v.lemma_stepped(ds.last());
        assert(w.steps() + cycles_of(ds) =~= (w.steps() + cycles_of(init)).push(ds.last().cycles));
    }
}

/// A wait started with no step taken and then advanced by the steps `ds`
/// has exactly their summed duration.
pub proof fn lemma_fresh_wait_sums_steps(w: PinWait, ds: Seq<CpuDuration>)
    requires
        w.wf(),
        w.steps() == Seq::<u64>::empty(),
        w.spec_elapsed().cycles == 0,
        forall|i: int| 0 <= i < ds.len() ==> (#[trigger] ds[i]).clock_frequency == w.spec_elapsed().clock_frequency,
        sum_cycles(cycles_of(ds)) <= u64::MAX,
    ensures
        stepped_all(w, ds).spec_elapsed().cycles == sum_cycles(cycles_of(ds)),
        stepped_all(w, ds).spec_elapsed().clock_frequency == w.spec_elapsed().clock_frequency,
        stepped_all(w, ds).steps() == cycles_of(ds),
{
    lemma_wait_run(w, ds);
    assert(w.steps() + cycles_of(ds) =~= cycles_of(ds));
}

/// For `wait_while_low` / `wait_while_high` started with no step taken: with
/// no step, the wait is over (with a zero duration) exactly when the pin is
/// ready; after one or more steps of at least one cycle each, its duration
/// is not zero. So its result is zero iff the pin was ready at the start.
pub proof fn lemma_wait_run_zero_iff_ready(w: PinWait, ds: Seq<CpuDuration>, high: bool)
    requires
        w.wf(),
        w.spec_kind() == WaitKind::WhileLow || w.spec_kind() == WaitKind::WhileHigh,
        w.steps() == Seq::<u64>::empty(),
        w.spec_elapsed().cycles == 0,
        forall|i: int| 0 <= i < ds.len() ==> (#[trigger] ds[i]).clock_frequency == w.spec_elapsed().clock_frequency,
        forall|i: int| 0 <= i < ds.len() ==> (#[trigger] ds[i]).cycles > 0,
        sum_cycles(cycles_of(ds)) <= u64::MAX,
    ensures
        ds.len() == 0 ==> (stepped_all(w, ds).outcome(high) == Some(w.spec_elapsed())
            <==> (w.spec_kind() == WaitKind::WhileLow) == high),
        ds.len() > 0 ==> stepped_all(w, ds).spec_elapsed().cycles > 0,
{
    lemma_fresh_wait_sums_steps(w, ds);
    if ds.len() > 0 {
        assert(cycles_of(ds)[0] == ds[0].cycles);
        lemma_sum_cycles_ge_each(cycles_of(ds), 0);
    }
}

/// For `pulse_in`: while the pin keeps its initial level the wait is not
/// over, and once steps were taken its duration is at least the first
/// step's (indeed each step's) duration.
pub proof fn lemma_pulse_in_run(w: PinWait, ds: Seq<CpuDuration>, initial: bool, high: bool)
    requires
        w.wf(),
        w.spec_kind() == (WaitKind::Change { initial }),
        w.steps() == Seq::<u64>::empty(),
        w.spec_elapsed().cycles == 0,
        forall|i: int| 0 <= i < ds.len() ==> (#[trigger] ds[i]).clock_frequency == w.spec_elapsed().clock_frequency,
        sum_cycles(cycles_of(ds)) <= u64::MAX,
    ensures
        high == initial ==> stepped_all(w, ds).outcome(high).is_none(),
        high != initial ==> stepped_all(w, ds).outcome(high) == Some(stepped_all(w, ds).spec_elapsed()),
        forall|i: int| 0 <= i < ds.len() ==> (#[trigger] ds[i]).cycles <= stepped_all(w, ds).spec_elapsed().cycles,
{
    lemma_fresh_wait_sums_steps(w, ds);
    lemma_wait_run(w, ds);
    assert forall|i: int| 0 <= i < ds.len() implies (#[trigger] ds[i]).cycles <= stepped_all(w, ds).spec_elapsed().cycles by {
        assert(cycles_of(ds)[i] == ds[i].cycles);
        lemma_sum_cycles_ge_each(cycles_of(ds), i);
    }
}

} // verus!
