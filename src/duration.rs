use vstd::prelude::*;

verus! {

/// Sum of a sequence of cycle counts.
pub open spec fn sum_cycles(s: Seq<u64>) -> nat
    decreases s.len(),
{
    if s.len() == 0 {
        0
    } else {
        sum_cycles(s.drop_last()) + (s.last() as nat)
    }
}

/// Summing a concatenation sums each part.
pub proof fn lemma_sum_cycles_append(a: Seq<u64>, b: Seq<u64>)
    ensures
        sum_cycles(a + b) == sum_cycles(a) + sum_cycles(b),
    decreases b.len(),
{
    if b.len() == 0 {
        assert(a + b =~= a);
    } else {
        lemma_sum_cycles_append(a, b.drop_last());
        assert((a + b).drop_last() =~= a + b.drop_last());
    }
}

/// Every element of a sequence is at most its sum.
pub proof fn lemma_sum_cycles_ge_each(s: Seq<u64>, i: int)
    requires
        0 <= i < s.len(),
    ensures
        s[i] <= sum_cycles(s),
    decreases s.len(),
{
    if i < s.len() - 1 {
        lemma_sum_cycles_ge_each(s.drop_last(), i);
    }
}

/// Simulated time: a number of processor cycles at a fixed clock frequency.
#[derive(Clone, Copy, Debug, PartialEq, Eq, Structural)]
pub struct CpuDuration {
    pub clock_frequency: u32,
    pub cycles: u64,
}

impl CpuDuration {
    pub open spec fn wf(&self) -> bool {
        self.clock_frequency > 0
    }

    /// Elapsed time in microseconds, rounded down.
    pub open spec fn micros(&self) -> nat {
        ((self.cycles as nat) * 1_000_000nat / (self.clock_frequency as nat)) as nat
    }

    /// Sum of two durations measured at the same frequency.
    pub open spec fn add_spec(self, other: CpuDuration) -> CpuDuration {
        CpuDuration {
            clock_frequency: self.clock_frequency,
            cycles: (self.cycles + other.cycles) as u64,
        }
    }

    /// Duration of `cycles` cycles at `clock_frequency` Hz.
    pub fn new(clock_frequency: u32, cycles: u64) -> (r: CpuDuration)
        requires
            clock_frequency > 0,
        ensures
            r.wf(),
            r.clock_frequency == clock_frequency,
            r.cycles == cycles,
    {
        CpuDuration { clock_frequency, cycles }
    }

    /// The empty duration at `clock_frequency` Hz.
    pub fn zero(clock_frequency: u32) -> (r: CpuDuration)
        requires
            clock_frequency > 0,
        ensures
            r.wf(),
            r.clock_frequency == clock_frequency,
            r.cycles == 0,
    {
        CpuDuration { clock_frequency, cycles: 0 }
    }

    /// Sum of two durations measured at the same frequency.
    pub fn add(self, other: CpuDuration) -> (r: CpuDuration)
        requires
            self.clock_frequency == other.clock_frequency,
            self.cycles + other.cycles <= u64::MAX,
        ensures
            r == self.add_spec(other),
            r.cycles == self.cycles + other.cycles,
    {
        CpuDuration { clock_frequency: self.clock_frequency, cycles: self.cycles + other.cycles }
    }

    pub fn as_cycles(&self) -> (r: u64)
        ensures
            r == self.cycles,
    {
        self.cycles
    }

    pub fn clock_frequency(&self) -> (r: u32)
        ensures
            r == self.clock_frequency,
    {
        self.clock_frequency
    }

    /// Wall-clock equivalent in microseconds: cycles divided by the frequency,
    /// rounded down.
    pub fn as_micros(&self) -> (r: u128)
        requires
            self.wf(),
        ensures
            r == self.micros(),
    {
        let c: u128 = self.cycles as u128;
        assert(c * 1_000_000 <= u64::MAX as u128 * 1_000_000) by (nonlinear_arith)
            requires c <= u64::MAX;
        (c * 1_000_000) / (self.clock_frequency as u128)
    }
}

} // verus!
