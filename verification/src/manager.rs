//! The index of jobs: which jobs exist, where each stands, and the rule that
//! of two submissions with the same fingerprint only one is ever at work.

use crate::job::JobStatus;
use vstd::prelude::*;
use vstd::string::*;

verus! {

/// The kinds of job.
#[derive(Debug, Clone, Copy, PartialEq, Eq, Structural)]
pub enum JobKind {
    /// Indexes a location, or a subtree of it, with everything below.
    Indexer,
    /// Indexes one directory of a location without going below it.
    ShallowIndexer,
}

/// What tells two submissions apart: the kind of job and the arguments that
/// identify its work. It is the key for holding back a second submission of
/// the same work, and nothing else.
#[derive(Debug)]
pub struct JobFingerprint {
    pub kind: JobKind,
    pub location_id: i32,
    pub sub_path: Option<String>,
}

/// A fingerprint as plain values.
pub struct FingerprintView {
    pub kind: JobKind,
    pub location_id: int,
    pub sub_path: Option<Seq<char>>,
}

impl View for JobFingerprint {
    type V = FingerprintView;

    open spec fn view(&self) -> FingerprintView {
        FingerprintView {
            kind: self.kind,
            location_id: self.location_id as int,
            sub_path: match self.sub_path {
                Some(p) => Some(p@),
                None => None,
            },
        }
    }
}

impl JobFingerprint {
    /// Whether two fingerprints name the same work.
    pub fn same(&self, other: &JobFingerprint) -> (r: bool)
        ensures
            r == (self@ == other@),
    {
        let same_kind = match (self.kind, other.kind) {
            (JobKind::Indexer, JobKind::Indexer) => true,
            (JobKind::ShallowIndexer, JobKind::ShallowIndexer) => true,
            _ => false,
        };
        let same_path = match (&self.sub_path, &other.sub_path) {
            (None, None) => true,
            (Some(a), Some(b)) => *a == *b,
            _ => false,
        };
        same_kind && self.location_id == other.location_id && same_path
    }
}

/// One job of the index.
#[derive(Debug)]
pub struct JobEntry {
    pub id: u64,
    pub fingerprint: JobFingerprint,
    pub status: JobStatus,
}

/// An entry as plain values.
pub struct JobEntryView {
    pub id: int,
    pub fingerprint: FingerprintView,
    pub status: JobStatus,
}

impl View for JobEntry {
    type V = JobEntryView;

    open spec fn view(&self) -> JobEntryView {
        JobEntryView { id: self.id as int, fingerprint: self.fingerprint@, status: self.status }
    }
}

impl DeepView for JobEntry {
    type V = JobEntryView;

    open spec fn deep_view(&self) -> JobEntryView {
        self@
    }
}

/// Whether a job with this status is waiting or at work.
pub open spec fn is_active(status: JobStatus) -> bool {
    status == JobStatus::Queued || status == JobStatus::Running
}

/// The place of the first waiting or working job with this fingerprint, or
/// the length of `jobs` where there is none.
pub open spec fn first_active(jobs: Seq<JobEntryView>, fingerprint: FingerprintView) -> int
    decreases jobs.len(),
{
    if jobs.len() == 0 {
        0
    } else if is_active(jobs[0].status) && jobs[0].fingerprint == fingerprint {
        0
    } else {
        1 + first_active(jobs.skip(1), fingerprint)
    }
}

/// The place of the job with this id, or the length of `jobs` where there
/// is none.
pub open spec fn place_of(jobs: Seq<JobEntryView>, id: int) -> int
    decreases jobs.len(),
{
    if jobs.len() == 0 {
        0
    } else if jobs[0].id == id {
        0
    } else {
        1 + place_of(jobs.skip(1), id)
    }
}

/// What `first_active` finds.
pub proof fn lemma_first_active(jobs: Seq<JobEntryView>, fingerprint: FingerprintView)
    ensures
        0 <= first_active(jobs, fingerprint) <= jobs.len(),
        first_active(jobs, fingerprint) < jobs.len() ==> is_active(
            jobs[first_active(jobs, fingerprint)].status,
        ) && jobs[first_active(jobs, fingerprint)].fingerprint == fingerprint,
        forall|i: int|
            0 <= i < first_active(jobs, fingerprint) ==> !(is_active((#[trigger] jobs[i]).status)
                && jobs[i].fingerprint == fingerprint),
    decreases jobs.len(),
{
    if jobs.len() == 0 {
    } else if is_active(jobs[0].status) && jobs[0].fingerprint == fingerprint {
    } else {
        let rest = jobs.skip(1);
        lemma_first_active(rest, fingerprint);
        let k = first_active(rest, fingerprint);
        if k < rest.len() {
            assert(rest[k] == jobs[k + 1]);
        }
        assert forall|i: int| 0 <= i < first_active(jobs, fingerprint) implies !(is_active(
            (#[trigger] jobs[i]).status,
        ) && jobs[i].fingerprint == fingerprint) by {
            if i > 0 {
                assert(rest[i - 1] == jobs[i]);
            }
        }
    }
}

/// What `place_of` finds.
pub proof fn lemma_place_of(jobs: Seq<JobEntryView>, id: int)
    ensures
        0 <= place_of(jobs, id) <= jobs.len(),
        place_of(jobs, id) < jobs.len() ==> jobs[place_of(jobs, id)].id == id,
        forall|i: int| 0 <= i < place_of(jobs, id) ==> (#[trigger] jobs[i]).id != id,
    decreases jobs.len(),
{
    if jobs.len() == 0 {
    } else if jobs[0].id == id {
    } else {
        let rest = jobs.skip(1);
        lemma_place_of(rest, id);
        let k = place_of(rest, id);
        if k < rest.len() {
            assert(rest[k] == jobs[k + 1]);
        }
        assert forall|i: int| 0 <= i < place_of(jobs, id) implies (#[trigger] jobs[i]).id
            != id by {
            if i > 0 {
                assert(rest[i - 1] == jobs[i]);
            }
        }
    }
}

/// Whether of every fingerprint at most one job is waiting or at work.
pub open spec fn one_active_per_fingerprint(jobs: Seq<JobEntryView>) -> bool {
    forall|i: int, j: int|
        0 <= i < j < jobs.len() && is_active((#[trigger] jobs[i]).status) && is_active(
            (#[trigger] jobs[j]).status,
        ) ==> jobs[i].fingerprint != jobs[j].fingerprint
}

/// Whether a job may pass from one status to another: a queued job starts,
/// a running one completes, fails or pauses, and a paused or failed one is
/// taken up again.
pub open spec fn may_pass(from: JobStatus, to: JobStatus) -> bool {
    match (from, to) {
        (JobStatus::Queued, JobStatus::Running) => true,
        (JobStatus::Running, JobStatus::Completed) => true,
        (JobStatus::Running, JobStatus::Failed) => true,
        (JobStatus::Running, JobStatus::Paused) => true,
        (JobStatus::Paused, JobStatus::Running) => true,
        (JobStatus::Failed, JobStatus::Running) => true,
        _ => false,
    }
}

/// Whether the job with the id `id` may pass to the status `to`: the job
/// exists, the passage is allowed, and taking the job up again does not put
/// a second job with its fingerprint to work.
pub open spec fn can_pass(jobs: Seq<JobEntryView>, id: int, to: JobStatus) -> bool {
    let at = place_of(jobs, id);
    &&& at < jobs.len()
    &&& may_pass(jobs[at].status, to)
    &&& (is_active(jobs[at].status) || first_active(jobs, jobs[at].fingerprint) == jobs.len())
}

/// What a submission came to.
#[derive(Debug, Clone, Copy, PartialEq, Eq, Structural)]
pub enum Submission {
    /// A new job with this id waits to be run.
    Accepted(u64),
    /// The job with this id is already waiting or at work on the same
    /// fingerprint; nothing new will run.
    Coalesced(u64),
    /// No id is left for a new job.
    Refused,
}

/// The index of jobs.
#[derive(Debug)]
pub struct JobManager {
    jobs: Vec<JobEntry>,
    next_id: u64,
}

impl View for JobManager {
    type V = Seq<JobEntryView>;

    closed spec fn view(&self) -> Seq<JobEntryView> {
        self.jobs.deep_view()
    }
}

impl JobManager {
    /// The id that the next accepted job gets.
    pub closed spec fn next_id(&self) -> int {
        self.next_id as int
    }

    /// The invariant of the index: ids are machine numbers given out in
    /// rising order, and of every fingerprint at most one job is waiting or
    /// at work.
    pub open spec fn wf(&self) -> bool {
        &&& 0 <= self.next_id() <= u64::MAX
        &&& forall|i: int| 0 <= i < self@.len() ==> 0 <= (#[trigger] self@[i]).id < self.next_id()
        &&& forall|i: int, j: int| 0 <= i < j < self@.len() ==> (#[trigger] self@[i]).id < (
        #[trigger] self@[j]).id
        &&& one_active_per_fingerprint(self@)
    }

    /// An index without jobs.
    pub fn new() -> (r: JobManager)
        ensures
            r.wf(),
            r@ == Seq::<JobEntryView>::empty(),
            r.next_id() == 0,
    {
        let r = JobManager { jobs: Vec::new(), next_id: 0 };
        assert(r@ =~= Seq::<JobEntryView>::empty());
        r
    }

    /// The jobs, oldest first.
    pub fn jobs(&self) -> (r: &Vec<JobEntry>)
        ensures
            r.deep_view() == self@,
    {
        &self.jobs
    }

    fn find_active(&self, fingerprint: &JobFingerprint) -> (r: usize)
        ensures
            r == first_active(self@, fingerprint@),
            r <= self.jobs@.len(),
    {
        let ghost all = self@;
        let mut i: usize = 0;
        assert(all.skip(0) =~= all);
        while i < self.jobs.len()
            invariant
                i <= self.jobs.len(),
                all == self@,
                first_active(all, fingerprint@) == i + first_active(
                    all.skip(i as int),
                    fingerprint@,
                ),
            decreases self.jobs.len() - i,
        {
            assert(all.skip(i as int)[0] == self.jobs@[i as int]@);
            let active = match self.jobs[i].status {
                JobStatus::Queued => true,
                JobStatus::Running => true,
                _ => false,
            };
            if active && self.jobs[i].fingerprint.same(fingerprint) {
                return i;
            }
            assert(all.skip(i as int).skip(1) =~= all.skip(i + 1));
            i = i + 1;
        }
        i
    }

    fn find(&self, id: u64) -> (r: usize)
        ensures
            r == place_of(self@, id as int),
            r <= self.jobs@.len(),
    {
        let ghost all = self@;
        let mut i: usize = 0;
        assert(all.skip(0) =~= all);
        while i < self.jobs.len()
            invariant
                i <= self.jobs.len(),
                all == self@,
                place_of(all, id as int) == i + place_of(all.skip(i as int), id as int),
            decreases self.jobs.len() - i,
        {
            assert(all.skip(i as int)[0] == self.jobs@[i as int]@);
            if self.jobs[i].id == id {
                return i;
            }
            assert(all.skip(i as int).skip(1) =~= all.skip(i + 1));
            i = i + 1;
        }
        i
    }

    /// Submits work. Where a job with the same fingerprint is waiting or at
    /// work the submission is coalesced into it and the index stays as it
    /// is; else a new job is queued.
    pub fn submit(&mut self, fingerprint: JobFingerprint) -> (r: Submission)
        requires
            old(self).wf(),
        ensures
            final(self).wf(),
            ({
                let at = first_active(old(self)@, fingerprint@);
                if at < old(self)@.len() {
                    &&& r == Submission::Coalesced(old(self)@[at].id as u64)
                    &&& final(self)@ == old(self)@
                    &&& final(self).next_id() == old(self).next_id()
                } else if old(self).next_id() == u64::MAX {
                    &&& r == Submission::Refused
                    &&& final(self)@ == old(self)@
                    &&& final(self).next_id() == old(self).next_id()
                } else {
                    &&& r == Submission::Accepted(old(self).next_id() as u64)
                    &&& final(self)@ == old(self)@.push(
                        JobEntryView {
                            id: old(self).next_id(),
                            fingerprint: fingerprint@,
                            status: JobStatus::Queued,
                        },
                    )
                    &&& final(self).next_id() == old(self).next_id() + 1
                }
            }),
    {
        let ghost before = self@;
        proof {
            lemma_first_active(before, fingerprint@);
        }
        let at = self.find_active(&fingerprint);
        if at < self.jobs.len() {
            assert(before[at as int] == self.jobs@[at as int]@);
            return Submission::Coalesced(self.jobs[at].id);
        }
        if self.next_id == u64::MAX {
            return Submission::Refused;
        }
        let id = self.next_id;
        self.jobs.push(JobEntry { id, fingerprint, status: JobStatus::Queued });
        self.next_id = id + 1;
        proof {
            let entry = JobEntryView {
                id: id as int,
                fingerprint: fingerprint@,
                status: JobStatus::Queued,
            };
            assert(self@ =~= before.push(entry));
            assert forall|i: int, j: int|
                0 <= i < j < self@.len() && is_active((#[trigger] self@[i]).status) && is_active(
                    (#[trigger] self@[j]).status,
                ) implies self@[i].fingerprint != self@[j].fingerprint by {
                assert(self@[i] == before[i]);
                if j < before.len() {
                    assert(self@[j] == before[j]);
                }
            }
            assert forall|i: int, j: int| 0 <= i < j < self@.len() implies (#[trigger] self@[i]).id
                < (#[trigger] self@[j]).id by {
                assert(self@[i] == before[i]);
                if j < before.len() {
                    assert(self@[j] == before[j]);
                }
            }
        }
        Submission::Accepted(id)
    }

    /// The status of the job with this id.
    pub fn status(&self, id: u64) -> (r: Option<JobStatus>)
        ensures
            match r {
                Some(s) => place_of(self@, id as int) < self@.len() && s == self@[place_of(
                    self@,
                    id as int,
                )].status,
                None => place_of(self@, id as int) == self@.len(),
            },
    {
        let at = self.find(id);
        if at < self.jobs.len() {
            assert(self@[at as int] == self.jobs@[at as int]@);
            Some(self.jobs[at].status)
        } else {
            None
        }
    }

    /// Moves the job with this id to the status `to`, if it may pass there;
    /// else nothing changes. The result says whether the job passed.
    pub fn pass(&mut self, id: u64, to: JobStatus) -> (r: bool)
        requires
            old(self).wf(),
        ensures
            final(self).wf(),
            final(self).next_id() == old(self).next_id(),
            r == can_pass(old(self)@, id as int, to),
            r ==> final(self)@ == old(self)@.update(
                place_of(old(self)@, id as int),
                JobEntryView { status: to, ..old(self)@[place_of(old(self)@, id as int)] },
            ),
            !r ==> final(self)@ == old(self)@,
    {
        let ghost before = self@;
        proof {
            lemma_place_of(before, id as int);
        }
        let at = self.find(id);
        if at >= self.jobs.len() {
            return false;
        }
        assert(before[at as int] == self.jobs@[at as int]@);
        let from = self.jobs[at].status;
        let allowed = match (from, to) {
            (JobStatus::Queued, JobStatus::Running) => true,
            (JobStatus::Running, JobStatus::Completed) => true,
            (JobStatus::Running, JobStatus::Failed) => true,
            (JobStatus::Running, JobStatus::Paused) => true,
            (JobStatus::Paused, JobStatus::Running) => true,
            (JobStatus::Failed, JobStatus::Running) => true,
            _ => false,
        };
        if !allowed {
            return false;
        }
        let was_active = match from {
            JobStatus::Queued => true,
            JobStatus::Running => true,
            _ => false,
        };
        if !was_active {
            proof {
                lemma_first_active(before, before[at as int].fingerprint);
            }
            let other = self.find_active(&self.jobs[at].fingerprint);
            if other < self.jobs.len() {
                return false;
            }
        }
        let mut entry = self.jobs.remove(at);
        entry.status = to;
        self.jobs.insert(at, entry);
        proof {
            let changed = JobEntryView { status: to, ..before[at as int] };
            assert(self@ =~= before.update(at as int, changed));
            assert forall|i: int, j: int|
                0 <= i < j < self@.len() && is_active((#[trigger] self@[i]).status) && is_active(
                    (#[trigger] self@[j]).status,
                ) implies self@[i].fingerprint != self@[j].fingerprint by {
                if i != at as int {
                    assert(self@[i] == before[i]);
                }
                if j != at as int {
                    assert(self@[j] == before[j]);
                }
            }
            assert forall|i: int, j: int| 0 <= i < j < self@.len() implies (#[trigger] self@[i]).id
                < (#[trigger] self@[j]).id by {
                assert(self@[i].id == before[i].id);
                assert(self@[j].id == before[j].id);
            }
            assert forall|i: int| 0 <= i < self@.len() implies (#[trigger] self@[i]).id
                < self.next_id() by {
                assert(self@[i].id == before[i].id);
            }
        }
        true
    }
}

} // verus!
