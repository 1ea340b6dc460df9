//! The simulation driver as a state machine. The caller performs each action
//! that the driver asks for (take a snapshot, integrate one step) and reports
//! back, so that the step count, the recording boundaries and the halt on the
//! first failed snapshot are decided here.
use vstd::prelude::*;
use crate::schedule::{is_boundary, is_recording_step, recorded_steps_spec, snapshot_count_spec};

verus! {

/// What the caller must do next.
#[derive(PartialEq, Eq, Structural, Clone, Copy, Debug)]
pub enum Action {
    /// Hand the current bodies to the recorder with this step index as timestamp.
    Record(u64),
    /// Advance every body by one integration step.
    Integrate,
    /// All steps are done: the run completed.
    Finish,
    /// A snapshot failed: the run stops here.
    Abort,
}

/// A configuration that the driver cannot run.
#[derive(PartialEq, Eq, Structural, Clone, Copy, Debug)]
pub enum ConfigError {
    /// A recording interval shorter than one step gives no recording boundaries.
    ZeroRecordSteps,
}

/// The abstract state of a run.
pub struct DriverState {
    pub steps: nat,
    pub record_steps: nat,
    /// Index of the step that is about to be integrated.
    pub step: nat,
    /// Whether the snapshot for `step` has been taken.
    pub recorded: bool,
    /// Whether a snapshot has failed.
    pub failed: bool,
}

impl DriverState {
    pub open spec fn wf(self) -> bool {
        &&& self.record_steps > 0
        &&& self.steps <= u64::MAX
        &&& self.record_steps <= u64::MAX
        &&& self.step <= self.steps
        &&& self.recorded ==> self.step < self.steps && is_boundary(
            self.step as int,
            self.record_steps as int,
        )
    }

    /// The state in which a run of `steps` steps starts.
    pub open spec fn initial(steps: nat, record_steps: nat) -> DriverState {
        DriverState { steps, record_steps, step: 0, recorded: false, failed: false }
    }

    /// The action that the driver asks for in this state.
    pub open spec fn action(self) -> Action {
        if self.failed {
            Action::Abort
        } else if self.step >= self.steps {
            Action::Finish
        } else if is_boundary(self.step as int, self.record_steps as int) && !self.recorded {
            Action::Record(self.step as u64)
        } else {
            Action::Integrate
        }
    }
}

pub struct Driver {
    steps: u64,
    record_steps: u64,
    step: u64,
    recorded: bool,
    failed: bool,
}

impl View for Driver {
    type V = DriverState;

    closed spec fn view(&self) -> DriverState {
        DriverState {
            steps: self.steps as nat,
            record_steps: self.record_steps as nat,
            step: self.step as nat,
            recorded: self.recorded,
            failed: self.failed,
        }
    }
}

impl Driver {
    pub open spec fn wf(&self) -> bool {
        self@.wf()
    }

    /// A driver for a run of `steps` integration steps with a snapshot every
    /// `record_steps` steps. Fails when `record_steps` is zero.
    pub fn new(steps: u64, record_steps: u64) -> (r: Result<Driver, ConfigError>)
        ensures
            r is Err <==> record_steps == 0,
            r matches Err(e) ==> e == ConfigError::ZeroRecordSteps,
            r matches Ok(d) ==> d.wf() && d@ == DriverState::initial(
                steps as nat,
                record_steps as nat,
            ),
    {
        if record_steps == 0 {
            Err(ConfigError::ZeroRecordSteps)
        } else {
            Ok(Driver { steps, record_steps, step: 0, recorded: false, failed: false })
        }
    }

    /// The action that the caller must perform next.
    pub fn next_action(&self) -> (a: Action)
        requires
            self.wf(),
        ensures
            a == self@.action(),
    {
        if self.failed {
            Action::Abort
        } else if self.step >= self.steps {
            Action::Finish
        } else if is_recording_step(self.step, self.record_steps) && !self.recorded {
            Action::Record(self.step)
        } else {
            Action::Integrate
        }
    }

    /// Reports the outcome of a snapshot that `next_action` asked for. A
    /// failure ends the run.
    pub fn record_done(&mut self, ok: bool)
        requires
            old(self).wf(),
            old(self)@.action() is Record,
        ensures
            final(self).wf(),
            final(self)@ == (if ok {
                DriverState { recorded: true, ..old(self)@ }
            } else {
                DriverState { failed: true, ..old(self)@ }
            }),
    {
        if ok {
            self.recorded = true;
        } else {
            self.failed = true;
        }
    }

    /// Reports that the integration step that `next_action` asked for is done.
    pub fn step_done(&mut self)
        requires
            old(self).wf(),
            old(self)@.action() is Integrate,
        ensures
            final(self).wf(),
            final(self)@ == (DriverState { step: old(self)@.step + 1, recorded: false, ..old(self)@ }),
    {
        self.step = self.step + 1;
        self.recorded = false;
    }

    /// Index of the step that is about to be integrated.
    pub fn current_step(&self) -> (r: u64)
        ensures
            r == self@.step,
    {
        self.step
    }

    /// Number of integration steps of the whole run.
    pub fn total_steps(&self) -> (r: u64)
        ensures
            r == self@.steps,
    {
        self.steps
    }

    /// Number of integration steps per recording interval.
    pub fn record_steps(&self) -> (r: u64)
        ensures
            r == self@.record_steps,
    {
        self.record_steps
    }
}

/// A run of no steps (a duration that is zero or negative) asks for no
/// snapshot and no integration: its first action is `Finish`.
pub proof fn lemma_zero_duration_no_op(record_steps: nat)
    requires
        record_steps > 0,
        record_steps <= u64::MAX,
    ensures
        DriverState::initial(0, record_steps).action() == Action::Finish,
{
}

/// The first action of every run of at least one step is the snapshot of step 0.
pub proof fn lemma_first_snapshot_at_step_zero(steps: nat, record_steps: nat)
    requires
        steps > 0,
        record_steps > 0,
    ensures
        DriverState::initial(steps, record_steps).action() == Action::Record(0),
{
    assert(0int % (record_steps as int) == 0);
}

/// The step indices at which a run in state `s` takes snapshots, when every
/// snapshot succeeds: the driver's own transitions (`record_done(true)`,
/// `step_done`) followed to the end.
pub open spec fn records_from(s: DriverState) -> Seq<int>
    decreases s.steps - s.step, (if s.recorded { 0int } else { 1int }),
{
    if !s.wf() || s.failed || s.step >= s.steps {
        Seq::empty()
    } else if is_boundary(s.step as int, s.record_steps as int) && !s.recorded {
        seq![s.step as int] + records_from(DriverState { recorded: true, ..s })
    } else {
        records_from(DriverState { step: s.step + 1, recorded: false, ..s })
    }
}

/// The number of integration steps that a run in state `s` performs, when
/// every snapshot succeeds.
pub open spec fn integrations_from(s: DriverState) -> int
    decreases s.steps - s.step, (if s.recorded { 0int } else { 1int }),
{
    if !s.wf() || s.failed || s.step >= s.steps {
        0
    } else if is_boundary(s.step as int, s.record_steps as int) && !s.recorded {
        integrations_from(DriverState { recorded: true, ..s })
    } else {
        1 + integrations_from(DriverState { step: s.step + 1, recorded: false, ..s })
    }
}

/// How the snapshot count moves from step `x` to step `x + 1`: it grows by one
/// exactly past a boundary.
proof fn lemma_count_next(x: int, rs: int)
    requires
        x >= 0,
        rs > 0,
    ensures
        is_boundary(x, rs) ==> x == snapshot_count_spec(x, rs) * rs,
        is_boundary(x, rs) ==> snapshot_count_spec(x + 1, rs) == snapshot_count_spec(x, rs) + 1,
        !is_boundary(x, rs) ==> snapshot_count_spec(x + 1, rs) == snapshot_count_spec(x, rs),
{
    let q = x / rs;
    let m = x % rs;
    vstd::arithmetic::div_mod::lemma_fundamental_div_mod(x, rs);
    vstd::arithmetic::div_mod::lemma_mod_bound(x, rs);
    if m == 0 {
        assert(x + rs - 1 == q * rs + (rs - 1)) by (nonlinear_arith)
            requires
                x == rs * q + m,
                m == 0,
        ;
        vstd::arithmetic::div_mod::lemma_fundamental_div_mod_converse(x + rs - 1, rs, q, rs - 1);
        assert(x + 1 + rs - 1 == (q + 1) * rs + 0) by (nonlinear_arith)
            requires
                x == rs * q + m,
                m == 0,
        ;
        vstd::arithmetic::div_mod::lemma_fundamental_div_mod_converse(x + 1 + rs - 1, rs, q + 1, 0);
        assert(x == q * rs) by (nonlinear_arith)
            requires
                x == rs * q + m,
                m == 0,
        ;
    } else {
        assert(x + rs - 1 == (q + 1) * rs + (m - 1)) by (nonlinear_arith)
            requires
                x == rs * q + m,
        ;
        vstd::arithmetic::div_mod::lemma_fundamental_div_mod_converse(x + rs - 1, rs, q + 1, m - 1);
        assert(x + 1 + rs - 1 == (q + 1) * rs + m) by (nonlinear_arith)
            requires
                x == rs * q + m,
        ;
        vstd::arithmetic::div_mod::lemma_fundamental_div_mod_converse(x + 1 + rs - 1, rs, q + 1, m);
    }
}

/// From state `s`, a successful run records the boundaries from the first one
/// not yet recorded up to the end of the run, and integrates every step left.
proof fn lemma_records_from(s: DriverState)
    requires
        s.wf(),
        !s.failed,
    ensures
        ({
            let rs = s.record_steps as int;
            let lo = if s.recorded { s.step as int + 1 } else { s.step as int };
            let first = snapshot_count_spec(lo, rs);
            &&& first <= snapshot_count_spec(s.steps as int, rs)
            &&& records_from(s) == Seq::new(
                (snapshot_count_spec(s.steps as int, rs) - first) as nat,
                |k: int| (first + k) * rs,
            )
        }),
        integrations_from(s) == s.steps - s.step,
    decreases s.steps - s.step, (if s.recorded { 0int } else { 1int }),
{
    let rs = s.record_steps as int;
    let steps = s.steps as int;
    let x = s.step as int;
    lemma_count_next(x, rs);
    let lo = if s.recorded { x + 1 } else { x };
    if lo <= steps {
        vstd::arithmetic::div_mod::lemma_div_is_ordered(lo + rs - 1, steps + rs - 1, rs);
    }
    if s.step >= s.steps {
        assert(records_from(s) =~= Seq::new(
            (snapshot_count_spec(steps, rs) - snapshot_count_spec(lo, rs)) as nat,
            |k: int| (snapshot_count_spec(lo, rs) + k) * rs,
        ));
    } else if is_boundary(x, rs) && !s.recorded {
        let next = DriverState { recorded: true, ..s };
        lemma_records_from(next);
        let first = snapshot_count_spec(x, rs);
        assert(records_from(s) =~= Seq::new(
            (snapshot_count_spec(steps, rs) - first) as nat,
            |k: int| (first + k) * rs,
        ));
    } else {
        let next = DriverState { step: s.step + 1, recorded: false, ..s };
        lemma_records_from(next);
    }
}

/// A run of `steps` steps whose snapshots all succeed takes its snapshots at
/// exactly the recording boundaries below `steps`, in increasing order, and
/// integrates `steps` times.
pub proof fn lemma_successful_run(steps: nat, record_steps: nat)
    requires
        record_steps > 0,
        steps <= u64::MAX,
        record_steps <= u64::MAX,
    ensures
        records_from(DriverState::initial(steps, record_steps)) == recorded_steps_spec(
            steps as int,
            record_steps as int,
        ),
        integrations_from(DriverState::initial(steps, record_steps)) == steps,
{
    let s = DriverState::initial(steps, record_steps);
    lemma_records_from(s);
    assert(snapshot_count_spec(0, record_steps as int) == 0) by {
        vstd::arithmetic::div_mod::lemma_fundamental_div_mod_converse(
            record_steps - 1,
            record_steps as int,
            0,
            record_steps - 1,
        );
    }
    assert(records_from(s) =~= recorded_steps_spec(steps as int, record_steps as int));
}

} // verus!
