//! Running a job of the index: only a job that the index lets start is
//! run, and the index and the report learn how the run ended.

use crate::job::{
    can_run, cannot_run_error, run_spec, run_steps, status_after, JobError, JobState, JobStatus,
    StatefulJob,
};
use crate::manager::{can_pass, lemma_place_of, place_of, JobEntryView, JobManager};
use crate::progress::{delivered, no_event, ProgressDebouncer};
use crate::report::{updated_all, JobReport};
use vstd::prelude::*;

verus! {

/// The status in which a run leaves a job: as the run says, or `Failed`
/// where it ended in an error.
pub open spec fn status_of_run(result: Result<JobStatus, JobError>) -> JobStatus {
    match result {
        Ok(status) => status,
        Err(_) => JobStatus::Failed,
    }
}

/// Runs the job `id` of the index for at most `budget` steps. The job must
/// be one that may start: queued, or paused or failed with no job of its
/// fingerprint at work; else nothing is run and nothing changes. A
/// submission that was coalesced has no job of its own and so is never run.
/// After the run the index and the report hold the status in which the job
/// was left, and a job that completed is summed up at the time `now`.
pub fn run_job<J: StatefulJob>(
    manager: &mut JobManager,
    id: u64,
    job: &J,
    state: &mut JobState<J::Init, J::Data, J::Step>,
    env: &mut J::Env,
    budget: usize,
    now: i64,
    progress: &mut ProgressDebouncer,
    report: &mut JobReport,
) -> (ran: (Result<JobStatus, JobError>, Option<J::Summary>))
    requires
        old(manager).wf(),
        J::env_ok(old(env)),
    ensures
        final(manager).wf(),
        J::env_ok(final(env)),
        final(state).init == old(state).init,
        final(report).id == old(report).id,
        final(report).name == old(report).name,
        !can_pass(old(manager)@, id as int, JobStatus::Running) ==> (ran.0 matches Err(e) && e
            is NotRunnable) && final(manager)@ == old(manager)@ && *final(state) == *old(state)
            && final(env)@ == old(env)@ && *final(report) == *old(report) && *final(progress)
            == *old(progress),
        can_pass(old(manager)@, id as int, JobStatus::Running) ==> ({
            let at = place_of(old(manager)@, id as int);
            &&& final(manager)@ == old(manager)@.update(
                at,
                JobEntryView { status: status_of_run(ran.0), ..old(manager)@[at] },
            )
            &&& final(report).status == status_of_run(ran.0)
            &&& !can_run(*old(state)) ==> (ran.0 matches Err(e) && cannot_run_error(*old(state), e))
                && *final(state) == *old(state) && final(env)@ == old(env)@
            &&& can_run(*old(state)) ==> ({
                let out = run_spec::<J>(
                    old(state).init,
                    old(env)@,
                    old(state).data->0,
                    old(state).steps@,
                    old(state).step_number as nat,
                    budget as nat,
                );
                &&& final(env)@ == out.env
                &&& final(state).data == Some(out.data)
                &&& final(state).steps@ == out.steps
                &&& final(state).step_number == old(state).step_number + (old(state).steps@.len()
                    - out.steps.len())
                &&& match out.failure {
                    Some(before) => ran.0 matches Err(e) && J::step_error(
                        &old(state).init,
                        before,
                        &out.data,
                        &out.steps[0],
                        e,
                    ),
                    None => ran.0 == Ok::<JobStatus, JobError>(status_after::<J>(out)),
                }
                &&& final(report).shown() == updated_all(
                    delivered(old(report).shown(), old(progress)@.pending),
                    out.updates,
                )
                &&& final(progress)@.pending == no_event()
            })
        }),
        ran.1 is Some <==> can_pass(old(manager)@, id as int, JobStatus::Running) && ran.0
            == Ok::<JobStatus, JobError>(JobStatus::Completed),
        ran.1 matches Some(summary) ==> final(state).data is Some && J::summarized(
            &final(state).init,
            &final(state).data->0,
            now as int,
            summary,
        ),
{
    let ghost before = manager@;
    proof {
        lemma_place_of(before, id as int);
    }
    if !manager.pass(id, JobStatus::Running) {
        return (Err(JobError::NotRunnable), None);
    }
    let ghost running = manager@;
    let ghost at = place_of(before, id as int);
    proof {
        lemma_same_place(before, at, JobStatus::Running, id as int);
    }
    report.status = JobStatus::Running;
    let result = run_steps(job, state, env, budget, progress, report);
    let status = match &result {
        Ok(status) => *status,
        Err(_) => JobStatus::Failed,
    };
    proof {
        crate::job::lemma_run_progress::<J>(
            old(state).init,
            old(env)@,
            old(state).data->0,
            old(state).steps@,
            old(state).step_number as nat,
            budget as nat,
        );
    }
    let passed = manager.pass(id, status);
    assert(passed);
    report.status = status;
    assert(manager@ =~= before.update(at, JobEntryView { status, ..before[at] }));
    let summary = match (&result, &state.data) {
        (Ok(JobStatus::Completed), Some(data)) => Some(job.finalize(&state.init, data, now)),
        _ => None,
    };
    (result, summary)
}

/// Changing the status of a job changes the place of no job.
proof fn lemma_same_place(jobs: Seq<JobEntryView>, at: int, status: JobStatus, id: int)
    requires
        0 <= at < jobs.len(),
    ensures
        place_of(jobs.update(at, JobEntryView { status, ..jobs[at] }), id) == place_of(jobs, id),
    decreases jobs.len(),
{
    let changed = jobs.update(at, JobEntryView { status, ..jobs[at] });
    if jobs[0].id == id {
    } else if at == 0 {
        assert(changed.skip(1) =~= jobs.skip(1));
    } else {
        lemma_same_place(jobs.skip(1), at - 1, status, id);
        assert(changed.skip(1) =~= jobs.skip(1).update(
            at - 1,
            JobEntryView { status, ..jobs.skip(1)[at - 1] },
        ));
    }
}

} // verus!
