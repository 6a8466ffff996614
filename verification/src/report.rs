//! What a job tells about itself while it runs.

use crate::job::JobStatus;
use vstd::prelude::*;
use vstd::string::*;

verus! {

/// One change to what a job shows of its progress.
#[derive(Debug)]
pub enum JobReportUpdate {
    /// The number of tasks the job expects to run.
    TaskCount(usize),
    /// The number of tasks run so far.
    CompletedTaskCount(usize),
    /// What the job is doing, for people to read.
    Message(String),
}

/// An update as plain values.
pub enum UpdateView {
    TaskCount(int),
    CompletedTaskCount(int),
    Message(Seq<char>),
}

impl View for JobReportUpdate {
    type V = UpdateView;

    open spec fn view(&self) -> UpdateView {
        match self {
            JobReportUpdate::TaskCount(n) => UpdateView::TaskCount(*n as int),
            JobReportUpdate::CompletedTaskCount(n) => UpdateView::CompletedTaskCount(*n as int),
            JobReportUpdate::Message(m) => UpdateView::Message(m@),
        }
    }
}

impl DeepView for JobReportUpdate {
    type V = UpdateView;

    open spec fn deep_view(&self) -> UpdateView {
        self@
    }
}

/// What a job shows of its progress: two counters and a message.
pub struct Shown {
    pub task_count: int,
    pub completed_task_count: int,
    pub message: Seq<char>,
}

/// What is shown after one update.
pub open spec fn updated(shown: Shown, update: UpdateView) -> Shown {
    match update {
        UpdateView::TaskCount(n) => Shown { task_count: n, ..shown },
        UpdateView::CompletedTaskCount(n) => Shown { completed_task_count: n, ..shown },
        UpdateView::Message(m) => Shown { message: m, ..shown },
    }
}

/// What is shown after a run of updates, applied in order.
pub open spec fn updated_all(shown: Shown, updates: Seq<UpdateView>) -> Shown
    decreases updates.len(),
{
    if updates.len() == 0 {
        shown
    } else {
        updated(updated_all(shown, updates.drop_last()), updates.last())
    }
}

/// Applying two runs of updates one after the other is applying their
/// concatenation.
pub proof fn lemma_updated_all_concat(shown: Shown, first: Seq<UpdateView>, second: Seq<UpdateView>)
    ensures
        updated_all(updated_all(shown, first), second) == updated_all(shown, first + second),
    decreases second.len(),
{
    if second.len() == 0 {
        assert(first + second =~= first);
    } else {
        lemma_updated_all_concat(shown, first, second.drop_last());
        assert((first + second).drop_last() =~= first + second.drop_last());
        assert((first + second).last() == second.last());
    }
}

/// The record of one job.
#[derive(Debug)]
pub struct JobReport {
    pub id: u64,
    pub name: String,
    pub status: JobStatus,
    pub task_count: usize,
    pub completed_task_count: usize,
    pub message: String,
    /// The encoded state from which the job can go on, kept while the job is
    /// paused or has failed.
    pub data: Option<Vec<u8>>,
}

impl JobReport {
    /// The progress this report shows.
    pub open spec fn shown(&self) -> Shown {
        Shown {
            task_count: self.task_count as int,
            completed_task_count: self.completed_task_count as int,
            message: self.message@,
        }
    }

    /// The report of a job that was just submitted.
    pub fn new(id: u64, name: String) -> (r: JobReport)
        ensures
            r.id == id,
            r.name == name,
            r.status == JobStatus::Queued,
            r.shown() == (Shown { task_count: 0, completed_task_count: 0, message: Seq::empty() }),
            r.data is None,
    {
        JobReport {
            id,
            name,
            status: JobStatus::Queued,
            task_count: 0,
            completed_task_count: 0,
            message: String::new(),
            data: None,
        }
    }

    /// Records where the job stands now. A job that is paused or has failed
    /// keeps the encoded state from which it goes on; in every other status
    /// no state is kept.
    pub fn checkpoint(&mut self, status: JobStatus, snapshot: Option<Vec<u8>>)
        ensures
            final(self).status == status,
            final(self).data == if status == JobStatus::Paused || status == JobStatus::Failed {
                snapshot
            } else {
                None
            },
            final(self).shown() == old(self).shown(),
            final(self).id == old(self).id,
            final(self).name == old(self).name,
    {
        self.status = status;
        self.data = match status {
            JobStatus::Paused => snapshot,
            JobStatus::Failed => snapshot,
            _ => None,
        };
    }

    /// Takes one update into the report.
    pub fn update(&mut self, update: JobReportUpdate)
        ensures
            final(self).shown() == updated(old(self).shown(), update@),
            final(self).id == old(self).id,
            final(self).name == old(self).name,
            final(self).status == old(self).status,
            final(self).data == old(self).data,
    {
        match update {
            JobReportUpdate::TaskCount(n) => {
                self.task_count = n;
            },
            JobReportUpdate::CompletedTaskCount(n) => {
                self.completed_task_count = n;
            },
            JobReportUpdate::Message(m) => {
                self.message = m;
            },
        }
    }

    /// Takes a run of updates into the report, in order.
    pub fn update_all(&mut self, updates: Vec<JobReportUpdate>)
        ensures
            final(self).shown() == updated_all(old(self).shown(), updates.deep_view()),
            final(self).id == old(self).id,
            final(self).name == old(self).name,
            final(self).status == old(self).status,
            final(self).data == old(self).data,
    {
        let ghost given = updates@;
        let ghost views = updates.deep_view();
        let ghost start = self.shown();
        assert(views.take(0) =~= Seq::<UpdateView>::empty());
        for update in it: updates
            invariant
                it.seq() == given,
                views == given.map_values(|u: JobReportUpdate| u@),
                self.shown() == updated_all(start, views.take(it.index() as int)),
                self.id == old(self).id,
                self.name == old(self).name,
                self.status == old(self).status,
                self.data == old(self).data,
        {
            let ghost idx = it.index() as int;
            assert(update == given[idx]);
            assert(views.take(idx + 1).drop_last() =~= views.take(idx));
            assert(views.take(idx + 1).last() == update@);
            self.update(update);
        }
        assert(views.take(views.len() as int) =~= views);
    }
}

} // verus!
