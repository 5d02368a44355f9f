//! The sampling schedule of a run: how many steps are taken, how often the
//! state is recorded, and which buffer slot each recording goes to.
//!
//! Steps are numbered `0, 1, .., total_steps - 1`.  A step is *sampled* when
//! its number is a multiple of the sampling interval; the sample of step
//! `k * interval` goes to slot `k` of every output buffer.  The buffers are
//! sized up front to `total_steps / interval + 1` slots, so that nothing has
//! to grow while the run is under way.

use vstd::arithmetic::div_mod::{
    lemma_div_is_ordered, lemma_fundamental_div_mod, lemma_fundamental_div_mod_converse,
    lemma_mod_pos_bound,
};
use vstd::arithmetic::mul::{lemma_mul_inequality, lemma_mul_strict_inequality};
use vstd::prelude::*;

verus! {

/// Largest number of slots that a schedule may ask for.  A buffer may take
/// up at most `isize::MAX` bytes and a machine word has at most eight, so a
/// buffer with one word per slot can always be asked for.
pub const MAX_SAMPLES: usize = usize::MAX / 16;

/// Why a schedule could not be built.
#[derive(Clone, Copy, Debug, PartialEq, Eq)]
pub enum ScheduleError {
    /// The sampling interval was zero steps.
    ZeroInterval,
    /// The run needs more than `MAX_SAMPLES` buffer slots.
    TooManySamples,
}

/// A fixed number of integration steps together with a sampling interval,
/// both counted in steps.
#[derive(Clone, Copy, Debug, PartialEq, Eq)]
pub struct Schedule {
    total_steps: usize,
    interval: usize,
}

impl Schedule {
    /// Number of integration steps of the run.
    pub closed spec fn spec_total_steps(&self) -> usize {
        self.total_steps
    }

    /// Number of steps from one sample to the next.
    pub closed spec fn spec_interval(&self) -> usize {
        self.interval
    }

    /// A schedule is well formed when its interval is positive and it asks
    /// for no more than `MAX_SAMPLES` slots.
    pub open spec fn wf(&self) -> bool {
        &&& self.spec_interval() > 0
        &&& self.spec_total_steps() / self.spec_interval() < MAX_SAMPLES
    }

    /// Number of slots in every output buffer.
    pub open spec fn spec_sample_count(&self) -> nat {
        (self.spec_total_steps() / self.spec_interval() + 1) as nat
    }

    /// Number of sampled steps strictly below `step`, that is the number of
    /// multiples of the interval in `0 .. step`: `step / interval`, rounded
    /// up.
    pub open spec fn samples_before(&self, step: nat) -> nat {
        let interval: int = self.spec_interval() as int;
        ((step + interval - 1) / interval) as nat
    }

    /// Number of slots that a complete run writes.
    pub open spec fn spec_written_count(&self) -> nat {
        self.samples_before(self.spec_total_steps() as nat)
    }

    /// Whether the state is recorded at the start of step `step`.
    pub open spec fn is_sample_step(&self, step: nat) -> bool {
        step < self.spec_total_steps() && step % (self.spec_interval() as nat) == 0
    }

    /// The slot that the sample of step `step` goes to, if it is sampled.
    pub open spec fn spec_slot_at(&self, step: nat) -> Option<nat> {
        if self.is_sample_step(step) {
            Some(step / (self.spec_interval() as nat))
        } else {
            None
        }
    }

    /// Number of actions that a driver hands out for a complete run: one to
    /// centre the system, three for each step, one for each sample, and one
    /// to persist the output.
    pub open spec fn run_length(&self) -> nat {
        3 * (self.spec_total_steps() as nat) + self.spec_written_count() + 2
    }

    /// Builds a schedule of `total_steps` steps that samples every
    /// `interval` steps.
    pub fn new(total_steps: usize, interval: usize) -> (r: Result<Schedule, ScheduleError>)
        ensures
            interval == 0 <==> r == Err::<Schedule, ScheduleError>(ScheduleError::ZeroInterval),
            interval != 0 && total_steps / interval >= MAX_SAMPLES
                <==> r == Err::<Schedule, ScheduleError>(ScheduleError::TooManySamples),
            r matches Ok(s) ==> {
                &&& s.wf()
                &&& s.spec_total_steps() == total_steps
                &&& s.spec_interval() == interval
            },
    {
        if interval == 0 {
            return Err(ScheduleError::ZeroInterval);
        }
        if total_steps / interval >= MAX_SAMPLES {
            return Err(ScheduleError::TooManySamples);
        }
        Ok(Schedule { total_steps, interval })
    }

    /// Number of slots to allocate in every output buffer.
    pub fn sample_count(&self) -> (r: usize)
        requires
            self.wf(),
        ensures
            r == self.spec_sample_count(),
    {
        self.total_steps / self.interval + 1
    }

    /// Number of slots that a complete run writes.  The slots beyond it keep
    /// the value they were allocated with.
    pub fn written_count(&self) -> (r: usize)
        requires
            self.wf(),
        ensures
            r == self.spec_written_count(),
    {
        proof {
            lemma_round_up(self.total_steps as int, self.interval as int);
        }
        let whole: usize = self.total_steps / self.interval;
        if self.total_steps % self.interval == 0 {
            whole
        } else {
            whole + 1
        }
    }

    /// The slot that the sample of step `step` goes to, or `None` when the
    /// step is not sampled or lies outside the run.
    pub fn slot_at(&self, step: usize) -> (r: Option<usize>)
        requires
            self.wf(),
        ensures
            match self.spec_slot_at(step as nat) {
                Some(slot) => r == Some(slot as usize) && slot < self.spec_written_count(),
                None => r is None,
            },
    {
        if step < self.total_steps && step % self.interval == 0 {
            proof {
                self.lemma_sample_slot(step as nat);
            }
            Some(step / self.interval)
        } else {
            None
        }
    }

    /// Number of integration steps of the run.
    #[verifier::when_used_as_spec(spec_total_steps)]
    pub fn total_steps(&self) -> (r: usize)
        ensures
            r == self.spec_total_steps(),
    {
        self.total_steps
    }

    /// Number of steps from one sample to the next.
    #[verifier::when_used_as_spec(spec_interval)]
    pub fn interval(&self) -> (r: usize)
        ensures
            r == self.spec_interval(),
    {
        self.interval
    }

    /// Counting upwards from none, the number of earlier samples grows by
    /// one exactly after each multiple of the interval.
    pub proof fn lemma_samples_before_succ(&self, step: nat)
        requires
            self.wf(),
        ensures
            self.samples_before(0) == 0,
            step % (self.spec_interval() as nat) == 0
                ==> self.samples_before(step + 1) == self.samples_before(step) + 1,
            step % (self.spec_interval() as nat) != 0
                ==> self.samples_before(step + 1) == self.samples_before(step),
    {
        let d: int = self.spec_interval() as int;
        let s: int = step as int;
        lemma_round_up(0, d);
        lemma_round_up(s, d);
        lemma_round_up(s + 1, d);
        let q: int = s / d;
        let r: int = s % d;
        if r + 1 < d {
            lemma_fundamental_div_mod_converse(s + 1, d, q, r + 1);
        } else {
            assert((q + 1) * d == q * d + d) by (nonlinear_arith);
            lemma_fundamental_div_mod_converse(s + 1, d, q + 1, 0);
        }
    }

    /// The number of earlier samples never shrinks as the step grows.
    pub proof fn lemma_samples_before_monotonic(&self, earlier: nat, later: nat)
        requires
            self.wf(),
            earlier <= later,
        ensures
            self.samples_before(earlier) <= self.samples_before(later),
    {
        let d: int = self.spec_interval() as int;
        lemma_div_is_ordered(earlier + d - 1, later + d - 1, d);
    }

    /// Samples fill the slots in order, without gaps or repeats: the slot of
    /// a sampled step is the number of samples taken before it, the step is
    /// the slot times the interval, and the slot is one that a run writes.
    pub proof fn lemma_sample_slot(&self, step: nat)
        requires
            self.wf(),
            self.is_sample_step(step),
        ensures
            self.spec_slot_at(step) == Some(self.samples_before(step)),
            step == self.samples_before(step) * self.spec_interval(),
            self.samples_before(step) < self.spec_written_count(),
            self.spec_written_count() <= self.spec_sample_count(),
    {
        let d: int = self.spec_interval() as int;
        let total: int = self.spec_total_steps() as int;
        lemma_round_up(step as int, d);
        lemma_round_up(total, d);
        self.lemma_samples_before_succ(step);
        self.lemma_samples_before_monotonic((step + 1) as nat, total as nat);
    }

    /// Slot `slot` is written by a complete run exactly when step
    /// `slot * interval` lies inside the run; that step is then the only one
    /// whose sample goes to the slot.
    pub proof fn lemma_slot_written_iff(&self, slot: nat)
        requires
            self.wf(),
        ensures
            slot < self.spec_written_count()
                <==> slot * self.spec_interval() < self.spec_total_steps(),
            slot < self.spec_written_count()
                ==> self.spec_slot_at(slot * (self.spec_interval() as nat)) == Some(slot),
            forall|step: nat|
                #[trigger] self.spec_slot_at(step) == Some(slot)
                    ==> step == slot * (self.spec_interval() as nat),
    {
        let d: int = self.spec_interval() as int;
        let total: int = self.spec_total_steps() as int;
        let k: int = slot as int;
        lemma_round_up(total, d);
        let q: int = total / d;
        if total % d == 0 {
            if k < q {
                lemma_mul_strict_inequality(k, q, d);
            } else {
                lemma_mul_inequality(q, k, d);
            }
        } else {
            if k <= q {
                lemma_mul_inequality(k, q, d);
            } else {
                lemma_mul_inequality(q + 1, k, d);
                assert((q + 1) * d == q * d + d) by (nonlinear_arith);
            }
        }
        lemma_fundamental_div_mod_converse(k * d, d, k, 0);
        assert forall|step: nat| #[trigger] self.spec_slot_at(step) == Some(slot) implies step
            == slot * (self.spec_interval() as nat) by {
            lemma_round_up(step as int, d);
        }
    }

    /// A complete run writes every slot but possibly the last one: the last
    /// slot stays unwritten exactly when the interval divides the number of
    /// steps, because the run ends before a sample would be taken there.
    pub proof fn lemma_last_slot(&self)
        requires
            self.wf(),
        ensures
            self.spec_total_steps() % self.spec_interval() == 0
                ==> self.spec_written_count() + 1 == self.spec_sample_count(),
            self.spec_total_steps() % self.spec_interval() != 0
                ==> self.spec_written_count() == self.spec_sample_count(),
    {
        lemma_round_up(self.spec_total_steps() as int, self.spec_interval() as int);
    }
}

/// Division that rounds up, expressed through the division that rounds down.
pub(crate) proof fn lemma_round_up(x: int, d: int)
    requires
        0 <= x,
        0 < d,
    ensures
        x == (x / d) * d + x % d,
        0 <= x % d < d,
        x % d == 0 ==> (x + d - 1) / d == x / d,
        x % d != 0 ==> (x + d - 1) / d == x / d + 1,
{
    lemma_fundamental_div_mod(x, d);
    lemma_mod_pos_bound(x, d);
    let q: int = x / d;
    let r: int = x % d;
    assert(d * q == q * d) by (nonlinear_arith);
    if r == 0 {
        lemma_fundamental_div_mod_converse(x + d - 1, d, q, d - 1);
    } else {
        assert((q + 1) * d == q * d + d) by (nonlinear_arith);
        lemma_fundamental_div_mod_converse(x + d - 1, d, q + 1, r - 1);
    }
}

} // verus!
