//! Saga orchestration: the decision core of the saga coordinator.
//!
//! A saga runs its steps in order. Each step is attempted up to
//! `max_retries + 1` times (a timeout ends the attempts at once); when a
//! step finally fails, every step that completed before it is compensated,
//! last completed first. Every transition is announced on the topic
//! `saga.{saga_id}.{step}.{status}`.
//!
//! `SagaRun` is a state machine: the caller performs the command it hands
//! out (run a step, wait, run a compensation, publish notices) and feeds the
//! outcome back with `advance`.

use vstd::prelude::*;
use vstd::string::*;

verus! {

/// Errors used by the saga orchestration helpers.
#[derive(Debug, Clone)]
pub enum SagaError {
    /// A saga step failed with a specific reason.
    StepFailed { step: String, reason: String },
    /// Compensation for a step failed.
    CompensationFailed { step: String, reason: String },
    /// Step timed out.
    Timeout { step: String },
    /// Generic abort with message.
    Aborted(String),
}

/// Rendered text of a saga error.
pub open spec fn saga_error_text(e: SagaError) -> Seq<char> {
    match e {
        SagaError::StepFailed { step, reason } => "saga step '"@ + step@ + "' failed: "@ + reason@,
        SagaError::CompensationFailed { step, reason } =>
            "saga compensation for step '"@ + step@ + "' failed: "@ + reason@,
        SagaError::Timeout { step } => "saga step '"@ + step@ + "' timed out"@,
        SagaError::Aborted(msg) => "saga aborted: "@ + msg@,
    }
}

/// Abstract content of a saga error.
pub enum SagaErrorView {
    StepFailed { step: Seq<char>, reason: Seq<char> },
    CompensationFailed { step: Seq<char>, reason: Seq<char> },
    Timeout { step: Seq<char> },
    Aborted(Seq<char>),
}

impl SagaError {
    /// The abstract value.
    pub open spec fn view(&self) -> SagaErrorView {
        match *self {
            SagaError::StepFailed { step, reason } => SagaErrorView::StepFailed { step: step@, reason: reason@ },
            SagaError::CompensationFailed { step, reason } => SagaErrorView::CompensationFailed {
                step: step@,
                reason: reason@,
            },
            SagaError::Timeout { step } => SagaErrorView::Timeout { step: step@ },
            SagaError::Aborted(m) => SagaErrorView::Aborted(m@),
        }
    }

    /// Rendered text of the error, as its `Display` form prints it.
    pub fn to_display_string(&self) -> (r: String)
        ensures
            r@ == saga_error_text(*self),
    {
        match self {
            SagaError::StepFailed { step, reason } => String::from_str("saga step '")
                .concat(step.as_str()).concat("' failed: ").concat(reason.as_str()),
            SagaError::CompensationFailed { step, reason } => String::from_str(
                "saga compensation for step '",
            ).concat(step.as_str()).concat("' failed: ").concat(reason.as_str()),
            SagaError::Timeout { step } => String::from_str("saga step '").concat(step.as_str())
                .concat("' timed out"),
            SagaError::Aborted(msg) => String::from_str("saga aborted: ").concat(msg.as_str()),
        }
    }
}

/// Status of a saga execution.
#[derive(Debug, Clone)]
pub enum SagaExecutionStatus {
    Running,
    Completed,
    Failed(String),
    Compensating,
    Compensated,
}

/// Tracking record of one saga execution.
#[derive(Debug, Clone)]
pub struct SagaExecution {
    pub saga_id: String,
    pub status: SagaExecutionStatus,
    pub completed_steps: Vec<String>,
    pub started_at: u64,
    pub updated_at: u64,
}

/// Topic on which a saga lifecycle notice is published.
pub open spec fn saga_topic(saga_id: Seq<char>, step: Seq<char>, status: Seq<char>) -> Seq<char> {
    "saga."@ + saga_id + "."@ + step + "."@ + status
}

/// Identifier of the envelope that carries a saga lifecycle notice.
pub open spec fn saga_event_id(saga_id: Seq<char>, step: Seq<char>, status: Seq<char>) -> Seq<char> {
    saga_id + "-"@ + step + "-"@ + status
}

/// A lifecycle notice to publish: `step` went into `status` in saga `saga_id`.
#[derive(Debug)]
pub struct SagaNotice {
    pub saga_id: String,
    pub step: String,
    pub status: String,
}

impl SagaNotice {
    /// The topic `saga.{saga_id}.{step}.{status}`.
    pub fn topic(&self) -> (r: String)
        ensures
            r@ == saga_topic(self.saga_id@, self.step@, self.status@),
    {
        String::from_str("saga.").concat(self.saga_id.as_str()).concat(".").concat(
            self.step.as_str(),
        ).concat(".").concat(self.status.as_str())
    }

    /// The envelope id `{saga_id}-{step}-{status}`.
    pub fn event_id(&self) -> (r: String)
        ensures
            r@ == saga_event_id(self.saga_id@, self.step@, self.status@),
    {
        self.saga_id.clone().concat("-").concat(self.step.as_str()).concat("-").concat(
            self.status.as_str(),
        )
    }
}

/// Where a saga run stands.
#[derive(Debug, Clone, Copy)]
pub enum SagaPhase {
    /// Step `index` is being attempted; `attempt` earlier attempts failed.
    Executing { index: usize, attempt: u32 },
    /// Waiting before attempt number `attempt` of step `index`.
    Sleeping { index: usize, attempt: u32 },
    /// Step `index` is being compensated.
    Compensating { index: usize },
    /// The run has finished.
    Done,
}

/// What the driver of a saga run does next.
pub enum SagaCommand {
    /// Run step `index` (bounded by the coordinator's timeout).
    Execute { index: usize },
    /// Wait `millis` milliseconds, then report `SagaOutcome::Slept`.
    Sleep { millis: u64 },
    /// Run the compensation of step `index`.
    Compensate { index: usize },
    /// The run is over with this result.
    Finish { result: Result<(), SagaError> },
}

/// What happened to the last command.
pub enum SagaOutcome {
    StepSucceeded,
    StepFailed(SagaError),
    StepTimedOut,
    Slept,
    Compensated,
    CompensationFailed(SagaError),
}

/// Abstract form of a command.
pub enum SagaCommandView {
    Execute { index: usize },
    Sleep { millis: u64 },
    Compensate { index: usize },
    Finish { result: Result<(), SagaErrorView> },
}

impl SagaCommand {
    /// The abstract value.
    pub open spec fn view(&self) -> SagaCommandView {
        match *self {
            SagaCommand::Execute { index } => SagaCommandView::Execute { index },
            SagaCommand::Sleep { millis } => SagaCommandView::Sleep { millis },
            SagaCommand::Compensate { index } => SagaCommandView::Compensate { index },
            SagaCommand::Finish { result } => SagaCommandView::Finish {
                result: match result {
                    Ok(()) => Ok(()),
                    Err(e) => Err(SagaError::view(&e)),
                },
            },
        }
    }
}

/// Notices to publish, in order, and the command to carry out after them.
pub struct SagaProgress {
    pub notices: Vec<SagaNotice>,
    pub command: SagaCommand,
}

/// The concrete state of one saga run, whatever its consistency.
struct RunState {
    saga_id: String,
    step_names: Vec<String>,
    max_retries: u32,
    phase: SagaPhase,
    failure: Option<SagaError>,
    execution: SagaExecution,
}

/// Abstract state of a saga run.
pub struct SagaRunView {
    pub saga_id: Seq<char>,
    pub steps: Seq<Seq<char>>,
    pub max_retries: nat,
    pub phase: SagaPhase,
    pub failure: Option<SagaErrorView>,
    pub status: SagaExecutionStatus,
    pub completed: Seq<Seq<char>>,
    pub started_at: u64,
    pub updated_at: u64,
}

/// The characters of each string.
pub open spec fn string_views(v: Seq<String>) -> Seq<Seq<char>> {
    v.map_values(|s: String| s@)
}

/// A notice as (step, status).
pub open spec fn notice_view(n: SagaNotice) -> (Seq<char>, Seq<char>) {
    (n.step@, n.status@)
}

/// Pause before retry number `attempt` of a step, in milliseconds.
pub open spec fn retry_backoff_ms(attempt: nat) -> nat {
    100 * attempt
}

impl RunState {
    /// The abstract value.
    spec fn view(&self) -> SagaRunView {
        SagaRunView {
            saga_id: self.saga_id@,
            steps: string_views(self.step_names@),
            max_retries: self.max_retries as nat,
            phase: self.phase,
            failure: match self.failure {
                Some(e) => Some(e@),
                None => None,
            },
            status: self.execution.status,
            completed: string_views(self.execution.completed_steps@),
            started_at: self.execution.started_at,
            updated_at: self.execution.updated_at,
        }
    }

    /// Consistency of a run: the execution record belongs to this saga and
    /// the phase agrees with the steps completed so far.
    spec fn wf(&self) -> bool {
        &&& self.execution.saga_id@ == self.saga_id@
        &&& run_view_wf(self.view())
    }
}

/// Consistency of an abstract run.
pub open spec fn run_view_wf(v: SagaRunView) -> bool {
    match v.phase {
        SagaPhase::Executing { index, attempt } => {
            &&& index < v.steps.len()
            &&& attempt <= v.max_retries
            &&& v.completed == v.steps.take(index as int)
            &&& v.status == SagaExecutionStatus::Running
            &&& v.failure is None
        },
        SagaPhase::Sleeping { index, attempt } => {
            &&& index < v.steps.len()
            &&& 1 <= attempt <= v.max_retries
            &&& v.completed == v.steps.take(index as int)
            &&& v.status == SagaExecutionStatus::Running
            &&& v.failure is None
        },
        SagaPhase::Compensating { index } => {
            &&& index < v.completed.len() < v.steps.len()
            &&& v.completed == v.steps.take(v.completed.len() as int)
            &&& v.status == SagaExecutionStatus::Compensating
            &&& v.failure is Some
        },
        SagaPhase::Done => {
            ||| (v.status == SagaExecutionStatus::Completed && v.completed == v.steps)
            ||| v.status == SagaExecutionStatus::Compensated
        },
    }
}

/// The outcomes that make sense in a phase.
pub open spec fn accepts(phase: SagaPhase, outcome: SagaOutcome) -> bool {
    match phase {
        SagaPhase::Executing { .. } => outcome is StepSucceeded || outcome is StepFailed
            || outcome is StepTimedOut,
        SagaPhase::Sleeping { .. } => outcome is Slept,
        SagaPhase::Compensating { .. } => outcome is Compensated || outcome is CompensationFailed,
        SagaPhase::Done => false,
    }
}

/// The state, notices and command that follow a step failing for good with
/// `error` at step `index`: the failure is announced, then the most recently
/// completed step is compensated, or the saga ends when none completed.
pub open spec fn spec_fail(v: SagaRunView, index: int, error: SagaErrorView, now: u64) -> (
    SagaRunView,
    Seq<(Seq<char>, Seq<char>)>,
    SagaCommandView,
) {
    let failed = seq![(v.steps[index], "failed"@)];
    if index > 0 {
        (
            SagaRunView {
                phase: SagaPhase::Compensating { index: (index - 1) as usize },
                failure: Some(error),
                status: SagaExecutionStatus::Compensating,
                updated_at: now,
                ..v
            },
            failed.push((v.steps[index - 1], "compensating"@)),
            SagaCommandView::Compensate { index: (index - 1) as usize },
        )
    } else {
        (
            SagaRunView {
                phase: SagaPhase::Done,
                failure: None,
                status: SagaExecutionStatus::Compensated,
                updated_at: now,
                ..v
            },
            failed.push(("saga"@, "compensated"@)),
            SagaCommandView::Finish { result: Err(error) },
        )
    }
}

/// One transition of a saga run.
pub open spec fn spec_advance(v: SagaRunView, outcome: SagaOutcome, now: u64) -> (
    SagaRunView,
    Seq<(Seq<char>, Seq<char>)>,
    SagaCommandView,
) {
    match v.phase {
        SagaPhase::Executing { index, attempt } => match outcome {
            SagaOutcome::StepSucceeded => {
                let completed = v.completed.push(v.steps[index as int]);
                let succeeded = seq![(v.steps[index as int], "succeeded"@)];
                if index + 1 < v.steps.len() {
                    (
                        SagaRunView {
                            phase: SagaPhase::Executing { index: (index + 1) as usize, attempt: 0 },
                            completed,
                            updated_at: now,
                            ..v
                        },
                        succeeded.push((v.steps[index + 1], "started"@)),
                        SagaCommandView::Execute { index: (index + 1) as usize },
                    )
                } else {
                    (
                        SagaRunView {
                            phase: SagaPhase::Done,
                            completed,
                            status: SagaExecutionStatus::Completed,
                            updated_at: now,
                            ..v
                        },
                        succeeded.push(("saga"@, "completed"@)),
                        SagaCommandView::Finish { result: Ok(()) },
                    )
                }
            },
            SagaOutcome::StepFailed(e) => {
                if attempt + 1 > v.max_retries {
                    spec_fail(v, index as int, e@, now)
                } else {
                    (
                        SagaRunView {
                            phase: SagaPhase::Sleeping { index, attempt: (attempt + 1) as u32 },
                            ..v
                        },
                        Seq::empty(),
                        SagaCommandView::Sleep { millis: retry_backoff_ms((attempt + 1) as nat) as u64 },
                    )
                }
            },
            _ => spec_fail(
                v,
                index as int,
                SagaErrorView::Timeout { step: v.steps[index as int] },
                now,
            ),
        },
        SagaPhase::Sleeping { index, attempt } => (
            SagaRunView { phase: SagaPhase::Executing { index, attempt }, ..v },
            Seq::empty(),
            SagaCommandView::Execute { index },
        ),
        SagaPhase::Compensating { index } => {
            let status = if outcome is Compensated {
                "compensated"@
            } else {
                "compensation_failed"@
            };
            let done = seq![(v.steps[index as int], status)];
            if index > 0 {
                (
                    SagaRunView {
                        phase: SagaPhase::Compensating { index: (index - 1) as usize },
                        ..v
                    },
                    done.push((v.steps[index - 1], "compensating"@)),
                    SagaCommandView::Compensate { index: (index - 1) as usize },
                )
            } else {
                (
                    SagaRunView {
                        phase: SagaPhase::Done,
                        failure: None,
                        status: SagaExecutionStatus::Compensated,
                        updated_at: now,
                        ..v
                    },
                    done.push(("saga"@, "compensated"@)),
                    SagaCommandView::Finish { result: Err(v.failure->0) },
                )
            }
        },
        SagaPhase::Done => (v, Seq::empty(), SagaCommandView::Finish { result: Ok(()) }),
    }
}

/// The notices of a progress report as (step, status) pairs.
pub open spec fn progress_notices(p: SagaProgress) -> Seq<(Seq<char>, Seq<char>)> {
    p.notices@.map_values(|n: SagaNotice| notice_view(n))
}

/// Every notice of a progress report belongs to saga `saga_id`.
pub open spec fn notices_of(p: SagaProgress, saga_id: Seq<char>) -> bool {
    forall|i: int| 0 <= i < p.notices@.len() ==> (#[trigger] p.notices@[i]).saga_id@ == saga_id
}

proof fn lemma_string_views_push(v: Seq<String>, s: String)
    ensures
        string_views(v.push(s)) == string_views(v).push(s@),
{
    assert(string_views(v.push(s)) =~= string_views(v).push(s@));
}

proof fn lemma_take_push(s: Seq<Seq<char>>, i: int)
    requires
        0 <= i < s.len(),
    ensures
        s.take(i).push(s[i]) == s.take(i + 1),
        i + 1 == s.len() ==> s.take(i + 1) == s,
{
    assert(s.take(i).push(s[i]) =~= s.take(i + 1));
    if i + 1 == s.len() {
        assert(s.take(i + 1) =~= s);
    }
}

impl RunState {
    fn notice(&self, step: String, status: &str) -> (n: SagaNotice)
        ensures
            n.saga_id@ == self.saga_id@,
            n.step@ == step@,
            n.status@ == status@,
    {
        SagaNotice { saga_id: self.saga_id.clone(), step, status: String::from_str(status) }
    }

    fn step_name(&self, index: usize) -> (r: String)
        requires
            index < self.step_names@.len(),
        ensures
            r@ == string_views(self.step_names@)[index as int],
    {
        self.step_names[index].clone()
    }

    /// Begin a run of saga `saga_id` over steps named `step_names`: the
    /// execution is recorded as running, the first step is announced as
    /// started and executed; a saga without steps completes at once.
    fn start(saga_id: String, step_names: Vec<String>, max_retries: u32, now: u64) -> (r: (
        RunState,
        SagaProgress,
    ))
        ensures
            r.0.wf(),
            r.0.saga_id == saga_id,
            r.0.step_names@ == step_names@,
            r.0.max_retries == max_retries,
            r.0@.failure is None,
            r.0@.completed == Seq::<Seq<char>>::empty(),
            r.0@.started_at == now,
            r.0@.updated_at == now,
            notices_of(r.1, saga_id@),
            step_names@.len() == 0 ==> {
                &&& r.0@.phase == SagaPhase::Done
                &&& r.0@.status == SagaExecutionStatus::Completed
                &&& progress_notices(r.1) == seq![("saga"@, "completed"@)]
                &&& r.1.command@ == SagaCommandView::Finish { result: Ok(()) }
            },
            step_names@.len() > 0 ==> {
                &&& r.0@.phase == SagaPhase::Executing { index: 0, attempt: 0 }
                &&& r.0@.status == SagaExecutionStatus::Running
                &&& progress_notices(r.1) == seq![(step_names@[0]@, "started"@)]
                &&& r.1.command@ == SagaCommandView::Execute { index: 0 }
            },
    {
        let n = step_names.len();
        let execution = SagaExecution {
            saga_id: saga_id.clone(),
            status: if n == 0 { SagaExecutionStatus::Completed } else { SagaExecutionStatus::Running },
            completed_steps: Vec::new(),
            started_at: now,
            updated_at: now,
        };
        let run = RunState {
            saga_id,
            step_names,
            max_retries,
            phase: if n == 0 { SagaPhase::Done } else { SagaPhase::Executing { index: 0, attempt: 0 } },
            failure: None,
            execution,
        };
        let mut notices: Vec<SagaNotice> = Vec::new();
        let command;
        if n == 0 {
            notices.push(run.notice(String::from_str("saga"), "completed"));
            command = SagaCommand::Finish { result: Ok(()) };
            assert(string_views(run.step_names@) =~= Seq::<Seq<char>>::empty());
        } else {
            let first = run.step_name(0);
            notices.push(run.notice(first, "started"));
            command = SagaCommand::Execute { index: 0 };
            assert(string_views(run.step_names@).take(0) =~= Seq::<Seq<char>>::empty());
        }
        assert(string_views(run.execution.completed_steps@) =~= Seq::<Seq<char>>::empty());
        let p = SagaProgress { notices, command };
        assert(progress_notices(p) =~= seq![progress_notices(p)[0]]);
        (run, p)
    }
}

impl RunState {
    fn fail(&mut self, index: usize, error: SagaError, now: u64) -> (p: SagaProgress)
        requires
            old(self).wf(),
            old(self).phase matches SagaPhase::Executing { index: i, .. } && i == index,
        ensures
            final(self).wf(),
            final(self).saga_id == old(self).saga_id,
            final(self).step_names@ == old(self).step_names@,
            final(self).max_retries == old(self).max_retries,
            notices_of(p, old(self).saga_id@),
            (final(self)@, progress_notices(p), p.command@) == spec_fail(
                old(self)@,
                index as int,
                error@,
                now,
            ),
    {
        let ghost v = self@;
        let name = self.step_name(index);
        let mut notices: Vec<SagaNotice> = Vec::new();
        notices.push(self.notice(name, "failed"));
        self.execution.status = SagaExecutionStatus::Compensating;
        self.execution.updated_at = now;
        let command;
        if index > 0 {
            let prev = self.step_name(index - 1);
            notices.push(self.notice(prev, "compensating"));
            self.phase = SagaPhase::Compensating { index: index - 1 };
            self.failure = Some(error);
            command = SagaCommand::Compensate { index: index - 1 };
        } else {
            notices.push(self.notice(String::from_str("saga"), "compensated"));
            self.execution.status = SagaExecutionStatus::Compensated;
            self.phase = SagaPhase::Done;
            command = SagaCommand::Finish { result: Err(error) };
        }
        let p = SagaProgress { notices, command };
        assert(progress_notices(p) =~= spec_fail(v, index as int, error@, now).1);
        p
    }

    /// Feed the outcome of the last command into the run and get the next
    /// notices and command.
    ///
    /// A succeeded step is recorded and announced, then the next step is
    /// started or the saga completes. A failed attempt is retried after
    /// `100 * attempt` milliseconds while fewer than `max_retries` retries
    /// were made; a timeout, or a failure past the retries, is announced and
    /// starts compensation of the completed steps, most recent first. Each
    /// compensation is announced as compensated or compensation_failed; a
    /// failing compensation does not stop the others. After the last
    /// compensation the saga ends with the step's error.
    fn advance(&mut self, outcome: SagaOutcome, now: u64) -> (p: SagaProgress)
        requires
            old(self).wf(),
            accepts(old(self).phase, outcome),
        ensures
            final(self).wf(),
            final(self).saga_id == old(self).saga_id,
            final(self).step_names@ == old(self).step_names@,
            final(self).max_retries == old(self).max_retries,
            notices_of(p, old(self).saga_id@),
            (final(self)@, progress_notices(p), p.command@) == spec_advance(old(self)@, outcome, now),
    {
        let ghost v = self@;
        let ghost out = outcome;
        assert(v.steps.len() == self.step_names@.len());
        match self.phase {
            SagaPhase::Executing { index, attempt } => {
                match outcome {
                    SagaOutcome::StepSucceeded => {
                        let name = self.step_name(index);
                        proof {
                            lemma_string_views_push(self.execution.completed_steps@, name);
                            lemma_take_push(v.steps, index as int);
                        }
                        self.execution.completed_steps.push(name.clone());
                        self.execution.updated_at = now;
                        let mut notices: Vec<SagaNotice> = Vec::new();
                        notices.push(self.notice(name, "succeeded"));
                        let command;
                        let n = self.step_names.len();
                        if index + 1 < n {
                            let next = self.step_name(index + 1);
                            notices.push(self.notice(next, "started"));
                            self.phase = SagaPhase::Executing { index: index + 1, attempt: 0 };
                            command = SagaCommand::Execute { index: index + 1 };
                        } else {
                            notices.push(self.notice(String::from_str("saga"), "completed"));
                            self.phase = SagaPhase::Done;
                            self.execution.status = SagaExecutionStatus::Completed;
                            command = SagaCommand::Finish { result: Ok(()) };
                        }
                        let p = SagaProgress { notices, command };
                        assert(progress_notices(p) =~= spec_advance(v, out, now).1);
                        p
                    },
                    SagaOutcome::StepFailed(e) => {
                        if (attempt as u64) + 1 > self.max_retries as u64 {
                            self.fail(index, e, now)
                        } else {
                            self.phase = SagaPhase::Sleeping { index, attempt: attempt + 1 };
                            let p = SagaProgress {
                                notices: Vec::new(),
                                command: SagaCommand::Sleep { millis: 100 * (attempt as u64 + 1) },
                            };
                            assert(progress_notices(p) =~= Seq::<(Seq<char>, Seq<char>)>::empty());
                            p
                        }
                    },
                    _ => {
                        let name = self.step_name(index);
                        self.fail(index, SagaError::Timeout { step: name }, now)
                    },
                }
            },
            SagaPhase::Sleeping { index, attempt } => {
                self.phase = SagaPhase::Executing { index, attempt };
                let p = SagaProgress { notices: Vec::new(), command: SagaCommand::Execute { index } };
                assert(progress_notices(p) =~= Seq::<(Seq<char>, Seq<char>)>::empty());
                p
            },
            SagaPhase::Compensating { index } => {
                let name = self.step_name(index);
                let compensated = match outcome {
                    SagaOutcome::Compensated => true,
                    _ => false,
                };
                let mut notices: Vec<SagaNotice> = Vec::new();
                if compensated {
                    notices.push(self.notice(name, "compensated"));
                } else {
                    notices.push(self.notice(name, "compensation_failed"));
                }
                let command;
                if index > 0 {
                    let prev = self.step_name(index - 1);
                    notices.push(self.notice(prev, "compensating"));
                    self.phase = SagaPhase::Compensating { index: index - 1 };
                    command = SagaCommand::Compensate { index: index - 1 };
                } else {
                    notices.push(self.notice(String::from_str("saga"), "compensated"));
                    self.phase = SagaPhase::Done;
                    self.execution.status = SagaExecutionStatus::Compensated;
                    self.execution.updated_at = now;
                    let failure = self.failure.take();
                    command = SagaCommand::Finish { result: Err(failure.unwrap()) };
                }
                let p = SagaProgress { notices, command };
                assert(progress_notices(p) =~= spec_advance(v, out, now).1);
                p
            },
            SagaPhase::Done => {
                proof {
                    assert(false);
                }
                SagaProgress { notices: Vec::new(), command: SagaCommand::Finish { result: Ok(()) } }
            },
        }
    }
}

impl RunState {
    /// A consistent state that stands in while a run is being advanced.
    fn placeholder() -> (r: RunState)
        ensures
            r.wf(),
    {
        let r = RunState {
            saga_id: String::new(),
            step_names: Vec::new(),
            max_retries: 0,
            phase: SagaPhase::Done,
            failure: None,
            execution: SagaExecution {
                saga_id: String::new(),
                status: SagaExecutionStatus::Compensated,
                completed_steps: Vec::new(),
                started_at: 0,
                updated_at: 0,
            },
        };
        r
    }
}

/// The state of one saga run. It is consistent at all times: the execution
/// record belongs to this saga and the phase agrees with the steps
/// completed so far (`run_view_wf`).
pub struct SagaRun {
    state: RunState,
}

impl SagaRun {
    #[verifier::type_invariant]
    spec fn inv(&self) -> bool {
        self.state.wf()
    }

    /// The abstract value.
    pub closed spec fn view(&self) -> SagaRunView {
        self.state.view()
    }

    /// Begin a run of saga `saga_id` over steps named `step_names`: the
    /// execution is recorded as running, the first step is announced as
    /// started and executed; a saga without steps completes at once.
    pub fn start(saga_id: String, step_names: Vec<String>, max_retries: u32, now: u64) -> (r: (
        SagaRun,
        SagaProgress,
    ))
        ensures
            run_view_wf(r.0@),
            r.0@.saga_id == saga_id@,
            r.0@.steps == string_views(step_names@),
            r.0@.max_retries == max_retries as nat,
            r.0@.failure is None,
            r.0@.completed == Seq::<Seq<char>>::empty(),
            r.0@.started_at == now,
            r.0@.updated_at == now,
            notices_of(r.1, saga_id@),
            step_names@.len() == 0 ==> {
                &&& r.0@.phase == SagaPhase::Done
                &&& r.0@.status == SagaExecutionStatus::Completed
                &&& progress_notices(r.1) == seq![("saga"@, "completed"@)]
                &&& r.1.command@ == SagaCommandView::Finish { result: Ok(()) }
            },
            step_names@.len() > 0 ==> {
                &&& r.0@.phase == SagaPhase::Executing { index: 0, attempt: 0 }
                &&& r.0@.status == SagaExecutionStatus::Running
                &&& progress_notices(r.1) == seq![(step_names@[0]@, "started"@)]
                &&& r.1.command@ == SagaCommandView::Execute { index: 0 }
            },
    {
        let (state, p) = RunState::start(saga_id, step_names, max_retries, now);
        (SagaRun { state }, p)
    }

    /// Feed the outcome of the last command into the run and get the next
    /// notices and command; the outcome must be one that the current phase
    /// awaits (`accepts`).
    ///
    /// A succeeded step is recorded and announced, then the next step is
    /// started or the saga completes. A failed attempt is retried after
    /// `100 * attempt` milliseconds while fewer than `max_retries` retries
    /// were made; a timeout, or a failure past the retries, is announced and
    /// starts compensation of the completed steps, most recent first. Each
    /// compensation is announced as compensated or compensation_failed; a
    /// failing compensation does not stop the others. After the last
    /// compensation the saga ends with the step's error.
    pub fn advance(&mut self, outcome: SagaOutcome, now: u64) -> (p: SagaProgress)
        requires
            accepts(old(self)@.phase, outcome),
        ensures
            run_view_wf(final(self)@),
            final(self)@.saga_id == old(self)@.saga_id,
            final(self)@.steps == old(self)@.steps,
            final(self)@.max_retries == old(self)@.max_retries,
            notices_of(p, old(self)@.saga_id),
            (final(self)@, progress_notices(p), p.command@) == spec_advance(old(self)@, outcome, now),
    {
        proof {
            use_type_invariant(&*self);
        }
        let mut state = RunState::placeholder();
        std::mem::swap(&mut state, &mut self.state);
        let p = state.advance(outcome, now);
        self.state = state;
        p
    }

    /// The saga this run belongs to.
    pub fn saga_id(&self) -> (r: &String)
        ensures
            r@ == self@.saga_id,
    {
        &self.state.saga_id
    }

    /// The execution record of the run: its saga, status, completed steps
    /// and times.
    pub fn execution(&self) -> (r: &SagaExecution)
        ensures
            r.saga_id@ == self@.saga_id,
            r.status == self@.status,
            string_views(r.completed_steps@) == self@.completed,
            r.started_at == self@.started_at,
            r.updated_at == self@.updated_at,
    {
        proof {
            use_type_invariant(self);
        }
        &self.state.execution
    }
}

/// A step is attempted at most `max_retries + 1` times: while a step runs or
/// waits for its next attempt, the attempts already failed never exceed
/// `max_retries`.
pub proof fn law_attempts_bounded_by_retries(v: SagaRunView)
    requires
        run_view_wf(v),
    ensures
        v.phase matches SagaPhase::Executing { attempt, .. } ==> attempt <= v.max_retries,
        v.phase matches SagaPhase::Sleeping { attempt, .. } ==> attempt <= v.max_retries,
{
}

/// Compensation only touches steps that completed, and goes backwards: the
/// step being compensated is a completed one, and the next command after its
/// compensation is the compensation of the step completed just before it,
/// or, after the first step, the end of the saga with the step's error.
pub proof fn law_compensation_runs_backwards(v: SagaRunView, outcome: SagaOutcome, now: u64)
    requires
        run_view_wf(v),
        v.phase is Compensating,
        accepts(v.phase, outcome),
    ensures
        ({
            let index = v.phase->Compensating_index;
            let (w, notices, command) = spec_advance(v, outcome, now);
            &&& index < v.completed.len()
            &&& v.completed[index as int] == v.steps[index as int]
            &&& index > 0 ==> command == SagaCommandView::Compensate { index: (index - 1) as usize }
            &&& index == 0 ==> command == SagaCommandView::Finish { result: Err(v.failure->0) }
            &&& w.completed == v.completed
        }),
{
}

/// A saga that ends after compensating reports the error of the step that
/// failed, not the outcome of the compensations.
pub proof fn law_compensation_keeps_step_error(v: SagaRunView, outcome: SagaOutcome, now: u64)
    requires
        run_view_wf(v),
        v.phase is Compensating,
        accepts(v.phase, outcome),
    ensures
        ({
            let (w, notices, command) = spec_advance(v, outcome, now);
            ||| w.failure == v.failure
            ||| command == SagaCommandView::Finish { result: Err(v.failure->0) }
        }),
{
}

/// A step that succeeds is announced as succeeded, and the step after it is
/// announced as started before it is executed: after the success of step
/// `i` the notices are exactly `(steps[i], succeeded)` and
/// `(steps[i + 1], started)`, the step is recorded as completed and step
/// `i + 1` runs from its first attempt; after the last step they are
/// `(steps[i], succeeded)` and `(saga, completed)`, and the saga ends with
/// every step completed.
pub proof fn law_success_announces_next_step(v: SagaRunView, now: u64)
    requires
        run_view_wf(v),
        v.phase is Executing,
    ensures
        ({
            let i = v.phase->Executing_index as int;
            let (w, notices, command) = spec_advance(v, SagaOutcome::StepSucceeded, now);
            &&& w.completed == v.completed.push(v.steps[i])
            &&& i + 1 < v.steps.len() ==> {
                &&& notices == seq![(v.steps[i], "succeeded"@), (v.steps[i + 1], "started"@)]
                &&& command == SagaCommandView::Execute { index: (i + 1) as usize }
                &&& w.phase == SagaPhase::Executing { index: (i + 1) as usize, attempt: 0 }
            }
            &&& i + 1 == v.steps.len() ==> {
                &&& notices == seq![(v.steps[i], "succeeded"@), ("saga"@, "completed"@)]
                &&& command == SagaCommandView::Finish { result: Ok(()) }
                &&& w.status == SagaExecutionStatus::Completed
                &&& w.completed == v.steps
            }
        }),
{
    let i = v.phase->Executing_index as int;
    let (w, notices, command) = spec_advance(v, SagaOutcome::StepSucceeded, now);
    let succeeded = seq![(v.steps[i], "succeeded"@)];
    if i + 1 < v.steps.len() {
        assert(notices =~= seq![(v.steps[i], "succeeded"@), (v.steps[i + 1], "started"@)]);
    } else {
        assert(notices =~= seq![(v.steps[i], "succeeded"@), ("saga"@, "completed"@)]);
        assert(v.steps.take(i).push(v.steps[i]) =~= v.steps);
    }
}

/// A step is never executed for the first time unannounced: whenever a
/// transition hands out the command to execute a step other than a retry
/// of the step that was waiting, its last notice announces that step as
/// started; a retry after waiting announces nothing. (The steps of a run
/// come from a vector, so their number fits in `usize`.)
pub proof fn law_executed_steps_are_announced(v: SagaRunView, outcome: SagaOutcome, now: u64)
    requires
        run_view_wf(v),
        v.steps.len() <= usize::MAX,
        accepts(v.phase, outcome),
    ensures
        ({
            let (w, notices, command) = spec_advance(v, outcome, now);
            &&& (command is Execute && !(v.phase is Sleeping)) ==> {
                &&& notices.len() > 0
                &&& notices.last() == (v.steps[command->Execute_index as int], "started"@)
            }
            &&& (v.phase is Sleeping) ==> notices.len() == 0 && command == SagaCommandView::Execute {
                index: v.phase->Sleeping_index,
            }
        }),
{
    let (w, notices, command) = spec_advance(v, outcome, now);
    if v.phase is Executing && outcome is StepSucceeded {
        law_success_announces_next_step(v, now);
        let i = v.phase->Executing_index as int;
        if i + 1 < v.steps.len() {
            assert(notices.last() == (v.steps[i + 1], "started"@));
        }
    } else if v.phase is Executing {
        if outcome is StepFailed {
            let attempt = v.phase->Executing_attempt;
            if attempt + 1 <= v.max_retries {
                assert(command is Sleep);
            }
        }
        assert(!(command is Execute));
    } else if v.phase is Compensating {
        let index = v.phase->Compensating_index;
        if index > 0 {
            assert(command is Compensate);
        } else {
            assert(command is Finish);
        }
    } else {
        assert(v.phase is Sleeping);
        assert(notices.len() == 0);
    }
}

/// A saga that completes has recorded every step, in order, as completed.
pub proof fn law_completed_saga_records_all_steps(v: SagaRunView)
    requires
        run_view_wf(v),
        v.phase is Done,
        v.status == SagaExecutionStatus::Completed,
    ensures
        v.completed == v.steps,
{
}

/// A timeout is never retried: it ends the attempts of the step at once and
/// is reported as `Timeout` for that step.
pub proof fn law_timeout_is_not_retried(v: SagaRunView, now: u64)
    requires
        run_view_wf(v),
        v.phase is Executing,
    ensures
        ({
            let index = v.phase->Executing_index;
            let (w, notices, command) = spec_advance(v, SagaOutcome::StepTimedOut, now);
            &&& notices[0] == (v.steps[index as int], "failed"@)
            &&& !(w.phase is Executing) && !(w.phase is Sleeping)
            &&& (w.failure == Some(SagaErrorView::Timeout { step: v.steps[index as int] })
                || command == SagaCommandView::Finish {
                result: Err(SagaErrorView::Timeout { step: v.steps[index as int] }),
            })
        }),
{
}

} // verus!
