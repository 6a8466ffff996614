//! Checkpointed jobs: a queue of steps that is worked off one step at a
//! time, can stop between any two steps, and goes on from where it stopped.

use crate::error::{code_of, message_of, ErrorCode, IndexerError, RpcError};
use crate::progress::{delivered, lemma_gathered_shows_updates, no_event, ProgressDebouncer};
use crate::report::{lemma_updated_all_concat, updated_all, JobReport, JobReportUpdate, UpdateView};
use std::collections::VecDeque;
use vstd::prelude::*;
use vstd::string::*;

verus! {

/// Where a job stands.
#[derive(Debug, Clone, Copy, PartialEq, Eq, Structural)]
pub enum JobStatus {
    Queued,
    Running,
    Completed,
    Failed,
    Paused,
}

/// Why a job could not go on.
#[derive(Debug)]
pub enum JobError {
    /// The job was asked to work before its data was set up.
    MissingData,
    /// A count of the job no longer fits its field.
    CounterOverflow,
    /// The state of the job could not be encoded or decoded.
    StateSerialization(String),
    /// Indexing failed.
    Indexer(IndexerError),
    /// The directory at which a scan of part of a location starts has no
    /// row.
    DirectoryNotFound,
    /// The job is not one that may start now.
    NotRunnable,
}

/// Text of a job error.
pub open spec fn job_message(err: JobError) -> Seq<char> {
    match err {
        JobError::MissingData => "The job has no data"@,
        JobError::CounterOverflow => "A count of the job no longer fits its field"@,
        JobError::StateSerialization(m) => "Job state could not be encoded or decoded: "@ + m@,
        JobError::Indexer(e) => message_of(e),
        JobError::DirectoryNotFound => "Directory not found"@,
        JobError::NotRunnable => "The job may not start now"@,
    }
}

/// Code under which a job error is reported: an indexer error under its
/// own code, a missing directory as `NotFound`, everything else as
/// internal.
pub open spec fn job_code(err: JobError) -> ErrorCode {
    match err {
        JobError::Indexer(e) => code_of(e),
        JobError::DirectoryNotFound => ErrorCode::NotFound,
        _ => ErrorCode::InternalServerError,
    }
}

impl JobError {
    /// Classifies this error for a synchronous caller and keeps its message.
    pub fn into_error(self) -> (r: RpcError)
        ensures
            r.code == job_code(self),
            r.message@ == job_message(self),
    {
        match self {
            JobError::MissingData => RpcError {
                code: ErrorCode::InternalServerError,
                message: String::from_str("The job has no data"),
            },
            JobError::CounterOverflow => RpcError {
                code: ErrorCode::InternalServerError,
                message: String::from_str("A count of the job no longer fits its field"),
            },
            JobError::StateSerialization(m) => {
                let mut message = String::from_str("Job state could not be encoded or decoded: ");
                message.append(m.as_str());
                RpcError { code: ErrorCode::InternalServerError, message }
            },
            JobError::Indexer(e) => RpcError::from(e),
            JobError::DirectoryNotFound => RpcError {
                code: ErrorCode::NotFound,
                message: String::from_str("Directory not found"),
            },
            JobError::NotRunnable => RpcError {
                code: ErrorCode::InternalServerError,
                message: String::from_str("The job may not start now"),
            },
        }
    }
}

/// Everything that is needed to go on with a job: what it was asked to do,
/// what it has gathered so far, and the steps still to be run, next one
/// first.
#[derive(Debug)]
pub struct JobState<Init, Data, Step> {
    pub init: Init,
    pub data: Option<Data>,
    pub steps: VecDeque<Step>,
    /// Number of steps run so far.
    pub step_number: usize,
}

impl<Init, Data, Step> JobState<Init, Data, Step> {
    /// The state of a job that was submitted and has not begun.
    pub fn new(init: Init) -> (r: Self)
        ensures
            r.init == init,
            r.data is None,
            r.steps@ == Seq::<Step>::empty(),
            r.step_number == 0,
    {
        JobState { init, data: None, steps: VecDeque::new(), step_number: 0 }
    }

    /// Number of steps still to be run.
    pub fn remaining(&self) -> (r: usize)
        ensures
            r == self.steps@.len(),
    {
        self.steps.len()
    }

    /// Whether every step has been run.
    pub fn is_done(&self) -> (r: bool)
        ensures
            r == (self.steps@.len() == 0),
    {
        self.steps.len() == 0
    }

    /// The step that is run next, if one is left.
    pub fn next_step(&self) -> (r: Option<&Step>)
        ensures
            match r {
                Some(step) => self.steps@.len() > 0 && *step == self.steps@[0],
                None => self.steps@.len() == 0,
            },
    {
        if self.steps.len() == 0 {
            None
        } else {
            Some(&self.steps[0])
        }
    }

    /// Records that the next step was run and left `data` behind: the step
    /// leaves the queue and the checkpoint moves on by one. Where no step
    /// is left, or the steps can no longer be counted, nothing changes and
    /// the result is `false`.
    pub fn complete_step(&mut self, data: Data) -> (r: bool)
        ensures
            r == (old(self).steps@.len() > 0 && old(self).step_number < usize::MAX),
            r ==> final(self).init == old(self).init && final(self).data == Some(data),
            r ==> final(self).steps@ == old(self).steps@.skip(1),
            r ==> final(self).step_number == old(self).step_number + 1,
            !r ==> *final(self) == *old(self),
    {
        if self.steps.len() == 0 || self.step_number == usize::MAX {
            return false;
        }
        let _ = self.steps.pop_front();
        self.data = Some(data);
        self.step_number = self.step_number + 1;
        true
    }
}

/// A kind of job: what one step does to the job's data and to the
/// surroundings it works on, and what the job tells after a step.
pub trait StatefulJob {
    /// What the job is asked to do.
    type Init;

    /// What the job gathers while it runs.
    type Data;

    /// One unit of work.
    type Step;

    /// The surroundings that steps change.
    type Env: View;

    /// What is told of a job that has completed.
    type Summary;

    /// What holds of the surroundings between steps.
    spec fn env_ok(env: &Self::Env) -> bool;

    /// The surroundings after a step was run.
    spec fn env_after(
        init: &Self::Init,
        env: <Self::Env as View>::V,
        data: &Self::Data,
        step: &Self::Step,
    ) -> <Self::Env as View>::V;

    /// The data after a step was run; `None` where the step fails for good.
    spec fn data_after(
        init: &Self::Init,
        env: <Self::Env as View>::V,
        data: &Self::Data,
        step: &Self::Step,
    ) -> Option<Self::Data>;

    /// Whether `error` is the error with which a step that fails for good
    /// fails.
    spec fn step_error(
        init: &Self::Init,
        env: <Self::Env as View>::V,
        data: &Self::Data,
        step: &Self::Step,
        error: JobError,
    ) -> bool;

    /// What the job tells once its step number `number` has left `data`
    /// behind.
    spec fn step_updates(init: &Self::Init, data: &Self::Data, number: nat) -> Seq<UpdateView>;

    /// Runs one step. A failure that the job can live with is recorded in
    /// the data that comes back; an error ends the job.
    fn execute_step(
        &self,
        init: &Self::Init,
        env: &mut Self::Env,
        data: &Self::Data,
        step: &Self::Step,
    ) -> (r: Result<Self::Data, JobError>)
        requires
            Self::env_ok(old(env)),
        ensures
            Self::env_ok(final(env)),
            final(env)@ == Self::env_after(init, old(env)@, data, step),
            match Self::data_after(init, old(env)@, data, step) {
                Some(d) => r == Ok::<Self::Data, JobError>(d),
                None => r matches Err(e) && Self::step_error(init, old(env)@, data, step, e),
            },
    ;

    /// Whether `summary` sums up a job that completed with `data` at the
    /// time `now`.
    spec fn summarized(
        init: &Self::Init,
        data: &Self::Data,
        now: int,
        summary: Self::Summary,
    ) -> bool;

    /// Sums up a job that has completed.
    fn finalize(&self, init: &Self::Init, data: &Self::Data, now: i64) -> (r: Self::Summary)
        ensures
            Self::summarized(init, data, now as int, r),
    ;

    /// Says what to report after a step.
    fn report_step(&self, init: &Self::Init, data: &Self::Data, number: usize) -> (r: Vec<
        JobReportUpdate,
    >)
        ensures
            r.deep_view() == Self::step_updates(init, data, number as nat),
    ;
}

/// What a run leaves behind.
pub struct RunState<J: StatefulJob> {
    pub env: <J::Env as View>::V,
    pub data: J::Data,
    /// The steps that were not run, next one first.
    pub steps: Seq<J::Step>,
    /// What the steps that were run told, in order.
    pub updates: Seq<UpdateView>,
    /// Where the run ended because a step failed: the surroundings on
    /// which that step was begun.
    pub failure: Option<<J::Env as View>::V>,
}

/// A run of at most `budget` steps of a job that has run `number` steps
/// before: steps are run in order, each on what the one before left behind,
/// until none is left, the budget is spent or one fails. A failed step
/// stays in the queue, and the data is as it was before that step.
pub open spec fn run_spec<J: StatefulJob>(
    init: J::Init,
    env: <J::Env as View>::V,
    data: J::Data,
    steps: Seq<J::Step>,
    number: nat,
    budget: nat,
) -> RunState<J>
    decreases budget,
{
    if steps.len() == 0 || budget == 0 {
        RunState { env, data, steps, updates: Seq::empty(), failure: None }
    } else {
        let env_next = J::env_after(&init, env, &data, &steps[0]);
        match J::data_after(&init, env, &data, &steps[0]) {
            None => RunState {
                env: env_next,
                data,
                steps,
                updates: Seq::empty(),
                failure: Some(env),
            },
            Some(d) => {
                let rest = run_spec::<J>(
                    init,
                    env_next,
                    d,
                    steps.skip(1),
                    number + 1,
                    (budget - 1) as nat,
                );
                RunState { updates: J::step_updates(&init, &d, number + 1) + rest.updates, ..rest }
            },
        }
    }
}

/// Stopping after `first` steps and going on later for `second` more, with
/// nothing changed in between, leaves exactly what one run of
/// `first + second` steps leaves, and tells the same.
pub proof fn lemma_resume<J: StatefulJob>(
    init: J::Init,
    env: <J::Env as View>::V,
    data: J::Data,
    steps: Seq<J::Step>,
    number: nat,
    first: nat,
    second: nat,
)
    ensures
        ({
            let stopped = run_spec::<J>(init, env, data, steps, number, first);
            let whole = run_spec::<J>(init, env, data, steps, number, first + second);
            let ran = (steps.len() - stopped.steps.len()) as nat;
            let resumed = run_spec::<J>(
                init,
                stopped.env,
                stopped.data,
                stopped.steps,
                number + ran,
                second,
            );
            &&& stopped.steps.len() <= steps.len()
            &&& stopped.failure is Some ==> whole == stopped
            &&& stopped.failure is None ==> {
                &&& whole.env == resumed.env
                &&& whole.data == resumed.data
                &&& whole.steps == resumed.steps
                &&& whole.failure == resumed.failure
                &&& whole.updates == stopped.updates + resumed.updates
            }
        }),
    decreases first,
{
    let stopped = run_spec::<J>(init, env, data, steps, number, first);
    if steps.len() == 0 || first == 0 {
        let resumed = run_spec::<J>(init, env, data, steps, number, second);
        assert(stopped.updates + resumed.updates =~= resumed.updates);
    } else {
        let env_next = J::env_after(&init, env, &data, &steps[0]);
        match J::data_after(&init, env, &data, &steps[0]) {
            None => {},
            Some(d) => {
                lemma_resume::<J>(
                    init,
                    env_next,
                    d,
                    steps.skip(1),
                    number + 1,
                    (first - 1) as nat,
                    second,
                );
                assert((first + second - 1) as nat == (first - 1) as nat + second);
                let inner = run_spec::<J>(
                    init,
                    env_next,
                    d,
                    steps.skip(1),
                    number + 1,
                    (first - 1) as nat,
                );
                let ran_inner = (steps.skip(1).len() - inner.steps.len()) as nat;
                assert(number + 1 + ran_inner == number + (steps.len() - stopped.steps.len()));
                if stopped.failure is None {
                    let resumed = run_spec::<J>(
                        init,
                        stopped.env,
                        stopped.data,
                        stopped.steps,
                        number + 1 + ran_inner,
                        second,
                    );
                    let head = J::step_updates(&init, &d, number + 1);
                    assert(head + (inner.updates + resumed.updates) =~= (head + inner.updates)
                        + resumed.updates);
                }
            },
        }
    }
}

/// A run never makes the queue longer, runs at most `budget` steps, and
/// runs all steps if none fails and the budget allows.
pub proof fn lemma_run_progress<J: StatefulJob>(
    init: J::Init,
    env: <J::Env as View>::V,
    data: J::Data,
    steps: Seq<J::Step>,
    number: nat,
    budget: nat,
)
    ensures
        ({
            let out = run_spec::<J>(init, env, data, steps, number, budget);
            &&& out.steps.len() <= steps.len()
            &&& steps.len() - out.steps.len() <= budget
            &&& out.steps == steps.skip(steps.len() - out.steps.len())
            &&& out.failure is None && budget >= steps.len() ==> out.steps.len() == 0
            &&& out.failure is None && budget < steps.len() ==> steps.len() - out.steps.len()
                == budget
            &&& out.failure is Some ==> out.steps.len() > 0
        }),
    decreases budget,
{
    if steps.len() == 0 || budget == 0 {
        assert(steps.skip(0) =~= steps);
    } else {
        let env_next = J::env_after(&init, env, &data, &steps[0]);
        match J::data_after(&init, env, &data, &steps[0]) {
            None => {
                assert(steps.skip(0) =~= steps);
            },
            Some(d) => {
                lemma_run_progress::<J>(
                    init,
                    env_next,
                    d,
                    steps.skip(1),
                    number + 1,
                    (budget - 1) as nat,
                );
                let out = run_spec::<J>(init, env, data, steps, number, budget);
                assert(steps.skip(1).skip(steps.skip(1).len() - out.steps.len()) =~= steps.skip(
                    steps.len() - out.steps.len(),
                ));
            },
        }
    }
}

/// The status with which a run ends: `Failed` where a step failed,
/// `Completed` where no step is left, else `Paused`.
pub open spec fn status_after<J: StatefulJob>(out: RunState<J>) -> JobStatus {
    if out.failure is Some {
        JobStatus::Failed
    } else if out.steps.len() == 0 {
        JobStatus::Completed
    } else {
        JobStatus::Paused
    }
}

/// Whether a job can be run from this state: its data is set up, and its
/// steps can be counted.
pub open spec fn can_run<Init, Data, Step>(state: JobState<Init, Data, Step>) -> bool {
    state.data is Some && state.step_number + state.steps@.len() <= usize::MAX
}

/// Whether `e` is the error of a job that cannot be run from this state.
pub open spec fn cannot_run_error<Init, Data, Step>(
    state: JobState<Init, Data, Step>,
    e: JobError,
) -> bool {
    if state.data is None {
        e is MissingData
    } else {
        e is CounterOverflow
    }
}

/// Runs at most `budget` steps of a job, strictly one after the other. The
/// run stops between steps only: when it returns, every step it began has
/// been run to its end or has failed. The state that is left is the
/// checkpoint from which the job goes on.
///
/// After every step the job's progress is offered to `progress`, with the
/// number of steps run so far as the time, so that of steps which follow
/// each other closely only some are delivered to `report`. When the run
/// ends, what is still held back is delivered: `report` then shows what it
/// would show had every update been delivered on its own.
pub fn run_steps<J: StatefulJob>(
    job: &J,
    state: &mut JobState<J::Init, J::Data, J::Step>,
    env: &mut J::Env,
    budget: usize,
    progress: &mut ProgressDebouncer,
    report: &mut JobReport,
) -> (r: Result<JobStatus, JobError>)
    requires
        J::env_ok(old(env)),
    ensures
        J::env_ok(final(env)),
        final(state).init == old(state).init,
        final(report).id == old(report).id,
        final(report).name == old(report).name,
        final(report).status == old(report).status,
        final(report).data == old(report).data,
        !can_run(*old(state)) ==> (r matches Err(e) && cannot_run_error(*old(state), e))
            && *final(state) == *old(state) && final(env)@ == old(env)@,
        !can_run(*old(state)) ==> *final(report) == *old(report) && *final(progress) == *old(progress),
        can_run(*old(state)) ==> ({
            let out = run_spec::<J>(
                old(state).init,
                old(env)@,
                old(state).data->0,
                old(state).steps@,
                old(state).step_number as nat,
                budget as nat,
            );
            &&& final(env)@ == out.env
            &&& final(state).data == Some(out.data)
            &&& final(state).steps@ == out.steps
            &&& final(state).step_number == old(state).step_number + (old(state).steps@.len()
                - out.steps.len())
            &&& match out.failure {
                Some(before) => r matches Err(e) && J::step_error(
                    &old(state).init,
                    before,
                    &out.data,
                    &out.steps[0],
                    e,
                ),
                None => r == Ok::<JobStatus, JobError>(status_after::<J>(out)),
            }
            &&& final(report).shown() == updated_all(
                delivered(old(report).shown(), old(progress)@.pending),
                out.updates,
            )
            &&& final(progress)@.pending == no_event()
        }),
{
    if state.data.is_none() {
        return Err(JobError::MissingData);
    }
    if state.steps.len() > usize::MAX - state.step_number {
        return Err(JobError::CounterOverflow);
    }
    let ghost init0 = state.init;
    let ghost env0 = env@;
    let ghost data0 = state.data->0;
    let ghost steps0 = state.steps@;
    let ghost number0 = state.step_number as nat;
    let ghost shown0 = delivered(report.shown(), progress@.pending);
    let mut left: usize = budget;
    proof {
        lemma_resume::<J>(init0, env0, data0, steps0, number0, 0, budget as nat);
    }
    while left > 0 && state.steps.len() > 0
        invariant
            init0 == old(state).init,
            env0 == old(env)@,
            old(state).data == Some(data0),
            steps0 == old(state).steps@,
            number0 == old(state).step_number,
            number0 + steps0.len() <= usize::MAX,
            shown0 == delivered(old(report).shown(), old(progress)@.pending),
            report.id == old(report).id,
            report.name == old(report).name,
            report.status == old(report).status,
            report.data == old(report).data,
            J::env_ok(env),
            state.init == init0,
            state.data is Some,
            left <= budget,
            ({
                let done = run_spec::<J>(init0, env0, data0, steps0, number0, (budget - left) as nat);
                &&& done.failure is None
                &&& done.env == env@
                &&& Some(done.data) == state.data
                &&& done.steps == state.steps@
                &&& delivered(report.shown(), progress@.pending) == updated_all(
                    shown0,
                    done.updates,
                )
            }),
            state.step_number == number0 + (steps0.len() - state.steps@.len()),
            state.steps@.len() <= steps0.len(),
        decreases left,
    {
        let ghost done = run_spec::<J>(init0, env0, data0, steps0, number0, (budget - left) as nat);
        let ghost seen = report.shown();
        let ghost held = progress@;
        proof {
            lemma_resume::<J>(init0, env0, data0, steps0, number0, (budget - left) as nat, 1);
            reveal_with_fuel(run_spec, 2);
        }
        let data = state.data.take().unwrap();
        let result = job.execute_step(&state.init, env, &data, &state.steps[0]);
        match result {
            Ok(next) => {
                let _ = state.steps.pop_front();
                state.step_number = state.step_number + 1;
                let updates = job.report_step(&state.init, &next, state.step_number);
                let ghost told = updates.deep_view();
                state.data = Some(next);
                match progress.offer(state.step_number as u64, updates) {
                    Some(event) => {
                        report.deliver(event);
                    },
                    None => {},
                }
                left = left - 1;
                proof {
                    lemma_gathered_shows_updates(seen, held.pending, told);
                    lemma_updated_all_concat(shown0, done.updates, told);
                    let after = run_spec::<J>(
                        init0,
                        env0,
                        data0,
                        steps0,
                        number0,
                        (budget - left) as nat,
                    );
                    assert(after.updates =~= done.updates + told);
                }
            },
            Err(e) => {
                state.data = Some(data);
                report.deliver(progress.flush());
                proof {
                    lemma_resume::<J>(
                        init0,
                        env0,
                        data0,
                        steps0,
                        number0,
                        (budget - left) as nat,
                        left as nat,
                    );
                    lemma_resume::<J>(
                        init0,
                        env0,
                        data0,
                        steps0,
                        number0,
                        (budget - left + 1) as nat,
                        (left - 1) as nat,
                    );
                    let failed = run_spec::<J>(
                        init0,
                        env0,
                        data0,
                        steps0,
                        number0,
                        (budget - left + 1) as nat,
                    );
                    assert(failed.updates =~= done.updates);
                }
                return Err(e);
            },
        }
    }
    report.deliver(progress.flush());
    proof {
        lemma_resume::<J>(
            init0,
            env0,
            data0,
            steps0,
            number0,
            (budget - left) as nat,
            left as nat,
        );
        let done = run_spec::<J>(init0, env0, data0, steps0, number0, (budget - left) as nat);
        let rest = run_spec::<J>(
            init0,
            done.env,
            done.data,
            done.steps,
            (number0 + (steps0.len() - done.steps.len())) as nat,
            left as nat,
        );
        assert(done.updates + rest.updates =~= done.updates);
    }
    if state.steps.len() == 0 {
        Ok(JobStatus::Completed)
    } else {
        Ok(JobStatus::Paused)
    }
}

} // verus!
