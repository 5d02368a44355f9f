//! The driver of a run, as a state machine.
//!
//! The driver does no numerical work.  Each call of [`Driver::next`] hands
//! out the one action that is due; the caller carries it out and asks again.
//! A run is the sequence
//!
//! ```text
//! Center,
//! Record(0), Accelerate(0), Kick(0), Drift(0),
//!            Accelerate(1), Kick(1), Drift(1),
//! ..
//! Persist, Halt, Halt, ..
//! ```
//!
//! in which the state is recorded before every step whose number is a
//! multiple of the sampling interval, and every step updates the velocities
//! before the positions.  The driver also keeps the time axis of the output:
//! for every slot, the step at which it was written.

use crate::schedule::{lemma_round_up, Schedule};
use vstd::arithmetic::div_mod::{lemma_div_is_ordered, lemma_fundamental_div_mod_converse};
use vstd::prelude::*;

verus! {

/// Where a run stands.
#[derive(Clone, Copy, Debug, PartialEq, Eq)]
pub enum Phase {
    /// The system has been constructed; what remains of its set-up is to
    /// move it into the barycentric frame.
    Initialized,
    /// The system is being stepped and sampled.
    Running,
    /// All steps are taken and the output has been handed over.
    Completed,
}

/// Where the current step stands: the part of it that is due next.
#[derive(Clone, Copy, Debug, PartialEq, Eq)]
pub enum Stage {
    /// Nothing of the step has been done; a sample is taken first if the
    /// step is a sampled one.
    Sample,
    /// The accelerations are to be computed.
    Accelerate,
    /// The velocities are to be updated from the accelerations.
    Kick,
    /// The positions are to be updated from the new velocities.
    Drift,
}

/// What the caller has to do next.
#[derive(Clone, Copy, Debug, PartialEq, Eq)]
pub enum Action {
    /// Move the system into its barycentric frame.
    Center,
    /// Write the current state to slot `slot` of the output buffers; the
    /// state is that at the start of step `step`.
    Record { slot: usize, step: usize },
    /// Overwrite the acceleration buffer with the accelerations of the
    /// current positions.
    Accelerate { step: usize },
    /// Add the accelerations, times the step size, to the velocities.
    Kick { step: usize },
    /// Add the updated velocities, times the step size, to the positions.
    Drift { step: usize },
    /// Write the output buffers to storage.
    Persist,
    /// Nothing is left to do.
    Halt,
}

/// The state of a driver as the contracts see it.
#[verifier::ext_equal]
pub struct DriverState {
    /// The schedule that the run follows.
    pub schedule: Schedule,
    /// Where the run stands.
    pub phase: Phase,
    /// Number of integration steps completed so far, which is also the
    /// number of the current step.
    pub step: nat,
    /// Where the current step stands.
    pub stage: Stage,
    /// The time axis: for each slot the step at which it was written, and
    /// zero while it is unwritten.
    pub sample_steps: Seq<usize>,
}

impl DriverState {
    /// The state of a driver that has handed out nothing yet.
    pub open spec fn initial(schedule: Schedule) -> DriverState {
        DriverState {
            schedule,
            phase: Phase::Initialized,
            step: 0,
            stage: Stage::Sample,
            sample_steps: Seq::new(schedule.spec_sample_count(), |slot: int| 0usize),
        }
    }

    /// The action that is due in this state.
    pub open spec fn action(self) -> Action {
        let step: usize = self.step as usize;
        match self.phase {
            Phase::Initialized => Action::Center,
            Phase::Running => match self.stage {
                Stage::Sample => {
                    if self.step >= self.schedule.spec_total_steps() {
                        Action::Persist
                    } else {
                        match self.schedule.spec_slot_at(self.step) {
                            Some(slot) => Action::Record { slot: slot as usize, step },
                            None => Action::Accelerate { step },
                        }
                    }
                },
                Stage::Accelerate => Action::Accelerate { step },
                Stage::Kick => Action::Kick { step },
                Stage::Drift => Action::Drift { step },
            },
            Phase::Completed => Action::Halt,
        }
    }

    /// The state after the due action has been handed out.
    pub open spec fn next(self) -> DriverState {
        match self.action() {
            Action::Center => DriverState { phase: Phase::Running, ..self },
            Action::Record { slot, step } => DriverState {
                stage: Stage::Accelerate,
                sample_steps: self.sample_steps.update(slot as int, step),
                ..self
            },
            Action::Accelerate { step } => DriverState { stage: Stage::Kick, ..self },
            Action::Kick { step } => DriverState { stage: Stage::Drift, ..self },
            Action::Drift { step } => DriverState {
                step: self.step + 1,
                stage: Stage::Sample,
                ..self
            },
            Action::Persist => DriverState { phase: Phase::Completed, ..self },
            Action::Halt => self,
        }
    }

    /// Whether slot `slot` has been written: its step lies behind the
    /// current one, or is the current one and is past its sampling stage.
    pub open spec fn slot_written(self, slot: int) -> bool {
        let at: int = slot * self.schedule.spec_interval();
        at < self.step || (at == self.step && !(self.stage is Sample))
    }

    /// What slot `slot` of the time axis holds: the step of its sample once
    /// it has been written, and zero before.
    pub open spec fn sample_step_at(self, slot: int) -> int {
        if self.slot_written(slot) {
            slot * self.schedule.spec_interval()
        } else {
            0
        }
    }

    /// Number of samples recorded so far.
    pub open spec fn samples_taken(self) -> nat {
        let current: nat = if self.schedule.is_sample_step(self.step) && !(self.stage is Sample) {
            1
        } else {
            0
        };
        self.schedule.samples_before(self.step) + current
    }

    /// Number of actions of the current step that have been handed out,
    /// its sample not counted.
    pub open spec fn stage_actions(self) -> nat {
        match self.stage {
            Stage::Sample => 0,
            Stage::Accelerate => 0,
            Stage::Kick => 1,
            Stage::Drift => 2,
        }
    }

    /// What holds of every state that a run passes through.
    pub open spec fn inv(self) -> bool {
        &&& self.schedule.wf()
        &&& self.step <= self.schedule.spec_total_steps()
        &&& self.phase is Initialized ==> self.step == 0
        &&& self.phase is Completed ==> self.step == self.schedule.spec_total_steps()
        &&& !(self.stage is Sample) ==> self.phase is Running && self.step
            < self.schedule.spec_total_steps()
        &&& self.stage is Accelerate ==> self.schedule.is_sample_step(self.step)
        &&& self.sample_steps.len() == self.schedule.spec_sample_count()
        &&& forall|slot: int|
            0 <= slot < self.sample_steps.len()
                ==> #[trigger] self.sample_steps[slot] == self.sample_step_at(slot)
    }

    /// Number of actions still to hand out before the run is completed.
    pub open spec fn actions_left(self) -> nat {
        let steps: int = 3 * (self.schedule.spec_total_steps() - self.step) - self.stage_actions();
        let samples: int = self.schedule.spec_written_count() - self.samples_taken();
        match self.phase {
            Phase::Initialized => (steps + samples + 2) as nat,
            Phase::Running => (steps + samples + 1) as nat,
            Phase::Completed => 0,
        }
    }

    /// The state after `count` actions of a run of `schedule`.
    pub open spec fn after(schedule: Schedule, count: nat) -> DriverState
        decreases count,
    {
        if count == 0 {
            DriverState::initial(schedule)
        } else {
            DriverState::after(schedule, (count - 1) as nat).next()
        }
    }

    /// The time axis of a completed run of `schedule`: slot `k` holds step
    /// `k * interval` if a run gets that far, and zero otherwise.
    pub open spec fn completed_sample_steps(schedule: Schedule) -> Seq<usize> {
        Seq::new(
            schedule.spec_sample_count(),
            |slot: int|
                if slot < schedule.spec_written_count() {
                    (slot * schedule.spec_interval()) as usize
                } else {
                    0usize
                },
        )
    }

    /// A fresh driver is in a valid state.
    pub proof fn lemma_initial_inv(schedule: Schedule)
        requires
            schedule.wf(),
        ensures
            DriverState::initial(schedule).inv(),
    {
        let s = DriverState::initial(schedule);
        assert forall|slot: int| 0 <= slot < s.sample_steps.len() implies !s.slot_written(slot) by {
            assert(0 <= slot * schedule.spec_interval()) by (nonlinear_arith)
                requires
                    0 <= slot,
                    0 <= schedule.spec_interval(),
            ;
        }
    }

    /// Handing out an action keeps the state valid.
    pub proof fn lemma_next_inv(self)
        requires
            self.inv(),
        ensures
            self.next().inv(),
    {
        let d: int = self.schedule.spec_interval() as int;
        let total: int = self.schedule.spec_total_steps() as int;
        let step: int = self.step as int;
        let n = self.next();
        lemma_round_up(step, d);
        lemma_div_is_ordered(step, total, d);
        assert forall|k: int| 0 <= k < n.sample_steps.len() implies
            #[trigger] n.sample_steps[k] == n.sample_step_at(k) by {
            if k * d == step {
                lemma_fundamental_div_mod_converse(step, d, k, 0);
            }
        }
    }

    /// Every slot is written once, in increasing order and without gaps: a
    /// sample goes to the slot whose number is the count of samples taken
    /// before it, that slot lies inside the buffers and is still unwritten,
    /// and the step recorded there is the slot times the interval.  No other
    /// action takes a sample or touches the time axis, and a completed run
    /// has written every slot that the schedule says it writes.
    pub proof fn lemma_record(self)
        requires
            self.inv(),
        ensures
            self.action() matches Action::Record { slot, step } ==> {
                &&& slot == self.samples_taken()
                &&& slot < self.schedule.spec_written_count()
                &&& slot < self.sample_steps.len()
                &&& !self.slot_written(slot as int)
                &&& step == self.step == slot * self.schedule.spec_interval()
                &&& self.next().samples_taken() == self.samples_taken() + 1
            },
            !(self.action() is Record) ==> {
                &&& self.next().samples_taken() == self.samples_taken()
                &&& self.next().sample_steps == self.sample_steps
            },
            self.phase is Initialized ==> self.samples_taken() == 0,
            self.phase is Completed ==> self.samples_taken()
                == self.schedule.spec_written_count(),
            self.samples_taken() <= self.schedule.spec_written_count(),
    {
        let total: nat = self.schedule.spec_total_steps() as nat;
        self.schedule.lemma_samples_before_succ(self.step);
        if self.step < total {
            self.schedule.lemma_samples_before_monotonic(self.step + 1, total);
        }
        if self.action() is Record {
            self.schedule.lemma_sample_slot(self.step);
        }
    }

    /// A slot that has been written is never written again.
    pub proof fn lemma_written_stays(self, slot: int)
        requires
            self.inv(),
            0 <= slot < self.sample_steps.len(),
            self.slot_written(slot),
        ensures
            self.next().slot_written(slot),
            self.next().sample_steps[slot] == self.sample_steps[slot],
    {
        self.lemma_next_inv();
    }

    /// The parts of a step come in a fixed order: the accelerations, then
    /// the velocities, then the positions, all of the same step, and only
    /// then does the run move on to the next step.  A sample, where one is
    /// due, comes before all three.
    pub proof fn lemma_step_order(self)
        requires
            self.inv(),
        ensures
            self.action() matches Action::Record { slot, step }
                ==> self.next().action() == (Action::Accelerate { step }),
            self.action() matches Action::Accelerate { step } ==> {
                &&& self.next().action() == (Action::Kick { step })
                &&& self.next().next().action() == (Action::Drift { step })
                &&& self.next().next().next().step == step + 1
                &&& self.next().next().next().stage is Sample
            },
            self.action() matches Action::Kick { step }
                ==> self.next().action() == (Action::Drift { step }),
            self.action() matches Action::Drift { step } ==> {
                &&& self.next().step == step + 1
                &&& self.next().stage is Sample
            },
            !(self.action() is Drift) ==> self.next().step == self.step,
    {
    }

    /// Every action before completion brings the run one action closer to
    /// it, only a completed run has no action left, and a completed run
    /// stays as it is.
    pub proof fn lemma_next_progress(self)
        requires
            self.inv(),
        ensures
            self.phase is Completed <==> self.actions_left() == 0,
            !(self.phase is Completed) ==> self.next().actions_left() + 1 == self.actions_left(),
            self.phase is Completed ==> self.next() == self,
    {
        self.lemma_record();
    }

    /// In a completed run the time axis is that of the schedule.
    pub proof fn lemma_completed_sample_steps(self)
        requires
            self.inv(),
            self.phase is Completed,
        ensures
            self.sample_steps == DriverState::completed_sample_steps(self.schedule),
    {
        let expected = DriverState::completed_sample_steps(self.schedule);
        assert forall|slot: int| 0 <= slot < self.sample_steps.len() implies
            self.sample_steps[slot] == expected[slot] by {
            self.schedule.lemma_slot_written_iff(slot as nat);
        }
        assert(self.sample_steps =~= expected);
    }

    /// A run of `schedule` is completed after exactly `run_length` actions
    /// and not before, every state on the way is valid, and the time axis it
    /// ends with names step `k * interval` in every written slot `k` and
    /// zero in the others.
    pub proof fn lemma_run(schedule: Schedule, count: nat)
        requires
            schedule.wf(),
        ensures
            DriverState::after(schedule, count).inv(),
            DriverState::after(schedule, count).schedule == schedule,
            count <= schedule.run_length()
                ==> DriverState::after(schedule, count).actions_left() + count
                == schedule.run_length(),
            DriverState::after(schedule, count).phase is Completed
                <==> count >= schedule.run_length(),
            count >= schedule.run_length()
                ==> DriverState::after(schedule, count).sample_steps
                == DriverState::completed_sample_steps(schedule),
        decreases count,
    {
        let s = DriverState::after(schedule, count);
        if count == 0 {
            DriverState::lemma_initial_inv(schedule);
            schedule.lemma_samples_before_succ(0);
        } else {
            let p = DriverState::after(schedule, (count - 1) as nat);
            DriverState::lemma_run(schedule, (count - 1) as nat);
            p.lemma_next_inv();
            p.lemma_next_progress();
        }
        s.lemma_next_progress();
        if s.phase is Completed {
            s.lemma_completed_sample_steps();
        }
    }
}

/// Hands out the actions of one run, one at a time.
pub struct Driver {
    schedule: Schedule,
    phase: Phase,
    step: usize,
    stage: Stage,
    sample_steps: Vec<usize>,
}

impl View for Driver {
    type V = DriverState;

    closed spec fn view(&self) -> DriverState {
        DriverState {
            schedule: self.schedule,
            phase: self.phase,
            step: self.step as nat,
            stage: self.stage,
            sample_steps: self.sample_steps@,
        }
    }
}

impl Driver {
    /// A driver is well formed when its state is one that a run can be in.
    pub open spec fn wf(&self) -> bool {
        self@.inv()
    }

    /// Sets up a run of `schedule`, with the time axis allocated and zeroed.
    pub fn new(schedule: Schedule) -> (driver: Driver)
        requires
            schedule.wf(),
        ensures
            driver.wf(),
            driver@ == DriverState::initial(schedule),
    {
        let slots: usize = schedule.sample_count();
        let sample_steps: Vec<usize> = vec![0usize; slots];
        let driver = Driver {
            schedule,
            phase: Phase::Initialized,
            step: 0,
            stage: Stage::Sample,
            sample_steps,
        };
        proof {
            assert(driver@.sample_steps =~= DriverState::initial(schedule).sample_steps);
            DriverState::lemma_initial_inv(schedule);
        }
        driver
    }

    /// Hands out the action that is due and moves on to the next state.
    /// Unless the run is completed already, this brings it one action closer
    /// to completion.
    pub fn next(&mut self) -> (action: Action)
        requires
            old(self).wf(),
        ensures
            final(self).wf(),
            action == old(self)@.action(),
            final(self)@ == old(self)@.next(),
            !(old(self)@.phase is Completed)
                ==> final(self)@.actions_left() + 1 == old(self)@.actions_left(),
    {
        proof {
            self@.lemma_next_inv();
            self@.lemma_next_progress();
        }
        let step: usize = self.step;
        match self.phase {
            Phase::Initialized => {
                self.phase = Phase::Running;
                Action::Center
            },
            Phase::Running => match self.stage {
                Stage::Sample => {
                    if step >= self.schedule.total_steps() {
                        self.phase = Phase::Completed;
                        Action::Persist
                    } else {
                        match self.schedule.slot_at(step) {
                            Some(slot) => {
                                proof {
                                    self.schedule.lemma_last_slot();
                                }
                                self.sample_steps.set(slot, step);
                                self.stage = Stage::Accelerate;
                                Action::Record { slot, step }
                            },
                            None => {
                                self.stage = Stage::Kick;
                                Action::Accelerate { step }
                            },
                        }
                    }
                },
                Stage::Accelerate => {
                    self.stage = Stage::Kick;
                    Action::Accelerate { step }
                },
                Stage::Kick => {
                    self.stage = Stage::Drift;
                    Action::Kick { step }
                },
                Stage::Drift => {
                    self.step = step + 1;
                    self.stage = Stage::Sample;
                    Action::Drift { step }
                },
            },
            Phase::Completed => Action::Halt,
        }
    }

    /// The schedule that the run follows.
    pub fn schedule(&self) -> (schedule: Schedule)
        ensures
            schedule == self@.schedule,
    {
        self.schedule
    }

    /// Where the run stands.
    pub fn phase(&self) -> (phase: Phase)
        ensures
            phase == self@.phase,
    {
        self.phase
    }

    /// Number of integration steps completed so far.
    pub fn step(&self) -> (step: usize)
        ensures
            step == self@.step,
    {
        self.step
    }

    /// The time axis: for each slot the step at which it was written, and
    /// zero while it is unwritten.
    pub fn sample_steps(&self) -> (steps: &Vec<usize>)
        ensures
            steps@ == self@.sample_steps,
    {
        &self.sample_steps
    }
}

} // verus!
