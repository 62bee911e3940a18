use vstd::prelude::*;
use crate::duration::CpuDuration;
use crate::pins::PinWait;
use crate::simulator::AvrSimulator;

verus! {

/// A wait finished after a step: the component's slot and its duration.
#[derive(Clone, Copy, Debug, PartialEq, Eq, Structural)]
pub struct Completion {
    pub slot: usize,
    pub elapsed: CpuDuration,
}

/// Slot `s` after a step of duration `d`, with `sim` as it stands after the
/// step: a wait that is over leaves its slot.
pub open spec fn slot_after(s: Option<PinWait>, sim: AvrSimulator, d: CpuDuration) -> Option<PinWait> {
    match s {
        None => None,
        Some(w) => if w.stepped(d).outcome(sim.level(w.spec_port(), w.spec_pin())).is_some() {
            None
        } else {
            Some(w.stepped(d))
        },
    }
}

/// Waits among `slots` that a step of duration `d` ends, in slot order.
pub open spec fn completions(slots: Seq<Option<PinWait>>, sim: AvrSimulator, d: CpuDuration) -> Seq<Completion>
    decreases slots.len(),
{
    if slots.len() == 0 {
        Seq::empty()
    } else {
        let i = slots.len() - 1;
        let rest = completions(slots.drop_last(), sim, d);
        match slots[i] {
            Some(w) => match w.stepped(d).outcome(sim.level(w.spec_port(), w.spec_pin())) {
                Some(e) => rest.push(Completion { slot: i as usize, elapsed: e }),
                None => rest,
            },
            None => rest,
        }
    }
}

/// The cooperative scheduler: components wait on pins, and after each engine
/// step every pending wait is resumed once, in slot order, against the same
/// session state, so simulated time is the same for all of them.
pub struct ComponentRuntime {
    slots: Vec<Option<PinWait>>,
}

impl ComponentRuntime {
    pub closed spec fn slots(&self) -> Seq<Option<PinWait>> {
        self.slots@
    }

    /// Every pending wait is well formed, measured at the frequency of `sim`
    /// and no longer than the session's elapsed time.
    pub open spec fn wf_with(&self, sim: AvrSimulator) -> bool {
        forall|i: int|
            0 <= i < self.slots().len() && (#[trigger] self.slots()[i]).is_some() ==> {
                let w = self.slots()[i].unwrap();
                &&& w.wf()
                &&& w.spec_elapsed().clock_frequency == sim.spec_clock_frequency()
                &&& w.spec_elapsed().cycles <= sim.spec_elapsed().cycles
            }
    }

    pub fn new() -> (r: ComponentRuntime)
        ensures
            r.slots() == Seq::<Option<PinWait>>::empty(),
    {
        ComponentRuntime { slots: Vec::new() }
    }

    /// Adds a component waiting on `w`. A wait that is over already is not
    /// queued: its duration comes back at once as `Err`. Otherwise it gets a
    /// new slot, whose number comes back as `Ok`.
    pub fn spawn(&mut self, sim: &AvrSimulator, w: PinWait) -> (r: Result<usize, CpuDuration>)
        requires
            old(self).wf_with(*sim),
            w.wf(),
            w.spec_elapsed().clock_frequency == sim.spec_clock_frequency(),
            w.spec_elapsed().cycles <= sim.spec_elapsed().cycles,
        ensures
            final(self).wf_with(*sim),
            match w.outcome(sim.level(w.spec_port(), w.spec_pin())) {
                Some(e) => r == Err::<usize, CpuDuration>(e) && final(self).slots() == old(self).slots(),
                None => r == Ok::<usize, CpuDuration>(old(self).slots().len() as usize) && final(self).slots()
                    == old(self).slots().push(Some(w)),
            },
    {
        match w.poll(sim) {
            Some(e) => Err(e),
            None => {
                let n = self.slots.len();
                self.slots.push(Some(w));
                assert(self.wf_with(*sim)) by {
                    assert forall|i: int|
                        0 <= i < self.slots().len() && (#[trigger] self.slots()[i]).is_some() implies {
                        let v = self.slots()[i].unwrap();
                        &&& v.wf()
                        &&& v.spec_elapsed().clock_frequency == sim.spec_clock_frequency()
                        &&& v.spec_elapsed().cycles <= sim.spec_elapsed().cycles
                    } by {
                        if i < n {
                            assert(self.slots()[i] == old(self).slots()[i]);
                        }
                    }
                }
                Ok(n)
            },
        }
    }

    /// The step boundary: `sim` has just recorded a step of duration `d`.
    /// Each pending wait adds `d` and checks its pin; the waits that are over
    /// leave their slots and come back in slot order.
    pub fn after_step(&mut self, sim: &AvrSimulator, d: CpuDuration) -> (r: Vec<Completion>)
        requires
            old(self).wf_with(*sim),
            sim.spec_elapsed().cycles >= d.cycles,
            d.clock_frequency == sim.spec_clock_frequency(),
            forall|i: int|
                0 <= i < old(self).slots().len() && (#[trigger] old(self).slots()[i]).is_some()
                    ==> old(self).slots()[i].unwrap().spec_elapsed().cycles + d.cycles
                    <= sim.spec_elapsed().cycles,
        ensures
            final(self).wf_with(*sim),
            final(self).slots().len() == old(self).slots().len(),
            forall|i: int|
                0 <= i < old(self).slots().len() ==> #[trigger] final(self).slots()[i] == slot_after(
                    old(self).slots()[i],
                    *sim,
                    d,
                ),
            r@ == completions(old(self).slots(), *sim, d),
    {
        let mut out: Vec<Completion> = Vec::new();
        let n = self.slots.len();
        let mut i: usize = 0;
        while i < n
            invariant
                n == self.slots@.len(),
                n == old(self).slots@.len(),
                i <= n,
                old(self).wf_with(*sim),
                d.clock_frequency == sim.spec_clock_frequency(),
                forall|k: int|
                    0 <= k < n && (#[trigger] old(self).slots()[k]).is_some()
                        ==> old(self).slots()[k].unwrap().spec_elapsed().cycles + d.cycles
                        <= sim.spec_elapsed().cycles,
                forall|k: int| i <= k < n ==> #[trigger] self.slots@[k] == old(self).slots@[k],
                forall|k: int|
                    0 <= k < i ==> #[trigger] self.slots@[k] == slot_after(old(self).slots@[k], *sim, d),
                out@ == completions(old(self).slots@.subrange(0, i as int), *sim, d),
            decreases n - i,
        {
            let ghost prefix = old(self).slots@.subrange(0, i as int);
            assert(old(self).slots@.subrange(0, i + 1).drop_last() =~= prefix);
            match self.slots[i] {
                Some(w) => {
                    assert(old(self).slots()[i as int].is_some());
                    let mut w2 = w;
                    w2.on_step(d);
                    match w2.poll(sim) {
                        Some(e) => {
                            out.push(Completion { slot: i, elapsed: e });
                            self.slots.set(i, None);
                        },
                        None => {
                            self.slots.set(i, Some(w2));
                        },
                    }
                },
                None => {},
            }
            i = i + 1;
        }
        assert(old(self).slots@.subrange(0, n as int) =~= old(self).slots@);
        assert(self.wf_with(*sim)) by {
            assert forall|k: int|
                0 <= k < self.slots().len() && (#[trigger] self.slots()[k]).is_some() implies {
                let v = self.slots()[k].unwrap();
                &&& v.wf()
                &&& v.spec_elapsed().clock_frequency == sim.spec_clock_frequency()
                &&& v.spec_elapsed().cycles <= sim.spec_elapsed().cycles
            } by {
                assert(old(self).slots()[k].is_some());
                let w = old(self).slots()[k].unwrap();
                w.lemma_stepped(d);
            }
        }
        out
    }
}

/// All components see the same step: every pending wait that a step ends is
/// reported for that step, with its slot and duration, and nothing else is.
pub proof fn lemma_completions_exact(slots: Seq<Option<PinWait>>, sim: AvrSimulator, d: CpuDuration, i: int)
    requires
        0 <= i < slots.len(),
        slots.len() <= usize::MAX,
    ensures
        (exists|k: int| 0 <= k < completions(slots, sim, d).len() && (#[trigger] completions(slots, sim, d)[k]).slot == i)
            <==> (slots[i] matches Some(w) && w.stepped(d).outcome(sim.level(w.spec_port(), w.spec_pin())).is_some()),
        forall|k: int| 0 <= k < completions(slots, sim, d).len() && (#[trigger] completions(slots, sim, d)[k]).slot == i
            ==> (slots[i] matches Some(w) && w.stepped(d).outcome(sim.level(w.spec_port(), w.spec_pin()))
                == Some(completions(slots, sim, d)[k].elapsed)),
    decreases slots.len(),
{
    let n = slots.len() - 1;
    let c = completions(slots, sim, d);
    let rest = completions(slots.drop_last(), sim, d);
    lemma_completions_slots_below(slots.drop_last(), sim, d);
    let pushed = slots[n] matches Some(w) && w.stepped(d).outcome(sim.level(w.spec_port(), w.spec_pin())).is_some();
    if pushed {
        let w = slots[n].unwrap();
        let e = w.stepped(d).outcome(sim.level(w.spec_port(), w.spec_pin())).unwrap();
        assert(c == rest.push(Completion { slot: n as usize, elapsed: e }));
    } else {
        assert(c == rest);
    }
    if i < n {
        lemma_completions_exact(slots.drop_last(), sim, d, i);
        assert(slots.drop_last()[i] == slots[i]);
        if exists|k: int| 0 <= k < c.len() && (#[trigger] c[k]).slot == i {
            let k = choose|k: int| 0 <= k < c.len() && (#[trigger] c[k]).slot == i;
            assert(k < rest.len());
            assert(c[k] == rest[k]);
        }
        if exists|k: int| 0 <= k < rest.len() && (#[trigger] rest[k]).slot == i {
            let k = choose|k: int| 0 <= k < rest.len() && (#[trigger] rest[k]).slot == i;
            assert(c[k] == rest[k]);
        }
        assert forall|k: int| 0 <= k < c.len() && (#[trigger] c[k]).slot == i implies (slots[i] matches Some(w)
            && w.stepped(d).outcome(sim.level(w.spec_port(), w.spec_pin())) == Some(c[k].elapsed)) by {
            assert(k < rest.len());
            assert(c[k] == rest[k]);
        }
    } else {
        assert forall|k: int| 0 <= k < c.len() && (#[trigger] c[k]).slot == i implies (slots[i] matches Some(w)
            && w.stepped(d).outcome(sim.level(w.spec_port(), w.spec_pin())) == Some(c[k].elapsed)) by {
            if k < rest.len() {
                assert(c[k] == rest[k]);
            }
        }
        if pushed {
            assert(c[rest.len() as int].slot == i);
        }
    }
}

/// Slots in `completions` are below the number of slots.
proof fn lemma_completions_slots_below(slots: Seq<Option<PinWait>>, sim: AvrSimulator, d: CpuDuration)
    requires
        slots.len() <= usize::MAX,
    ensures
        forall|k: int| 0 <= k < completions(slots, sim, d).len() ==> (#[trigger] completions(slots, sim, d)[k]).slot < slots.len(),
    decreases slots.len(),
{
    if slots.len() > 0 {
        let n = slots.len() - 1;
        let c = completions(slots, sim, d);
        let rest = completions(slots.drop_last(), sim, d);
        lemma_completions_slots_below(slots.drop_last(), sim, d);
        assert forall|k: int| 0 <= k < c.len() implies (#[trigger] c[k]).slot < slots.len() by {
            if slots[n] matches Some(w) && w.stepped(d).outcome(sim.level(w.spec_port(), w.spec_pin())).is_some() {
                let v = slots[n].unwrap();
                let e = v.stepped(d).outcome(sim.level(v.spec_port(), v.spec_pin())).unwrap();
                assert(c == rest.push(Completion { slot: n as usize, elapsed: e }));
                if k < rest.len() {
                    assert(c[k] == rest[k]);
                }
            } else {
                assert(c == rest);
            }
        }
    }
}

} // verus!
