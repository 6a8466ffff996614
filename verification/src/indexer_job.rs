//! How an indexer job begins: the rules are loaded, the tree is walked
//! once, and what was found is cut into the batches that the steps write.

use crate::file_path::{child_path, join_path};
use crate::error::IndexerError;
use crate::indexer::{
    after_write, prepare_indexer_step, records_of, summarize, sums_up, EntryView, IndexerJob,
    IndexerJobData, IndexerJobInit, IndexerJobStep, IndexerJobStepEntry, IndexerSummary,
    ScanProgress,
};
use crate::job::{run_spec, JobError, JobState, JobStatus, StatefulJob};
use crate::progress::{
    delivered, no_event, offer_event, offered, DebouncerView, ProgressDebouncer, ProgressEvent,
};
use crate::report::JobReport;
use crate::rules::{
    all_readable, all_stored, load_error, load_rules, rule_set_of, rules_compile, RuleSet,
    RuleSetView,
};
use crate::store::{
    holds, identity, lemma_written_all_holds, lemma_written_extends, lemma_written_nothing_new,
    written, written_all,
};
use crate::sync::{WriteRecord, WriteRecordView};
use crate::text::{nat_decimal, push_decimal};
use crate::walk::{is_ids_exhausted, walk, walk_from, walk_location, walk_sub_path, FsNode};
use std::collections::VecDeque;
use vstd::prelude::*;
use vstd::string::*;

verus! {

/// The number of entries that one step writes.
pub const BATCH_SIZE: usize = 1000;

/// The row of the directory that a scan of part of a location starts from.
#[derive(Debug)]
pub struct SubPathParent {
    pub id: i32,
    pub materialized_path: String,
}

/// What was read from disk for a scan.
#[derive(Debug)]
pub struct Scan {
    /// The directory that is scanned, with everything below it.
    pub root: FsNode,
    /// The id for the first entry.
    pub first_id: i32,
    /// For a scan of part of a location, the row of the directory it starts
    /// from, if that row was found.
    pub parent: Option<SubPathParent>,
    /// How long reading took, in milliseconds.
    pub scan_read_time: u64,
    /// The time at which writing begins, in milliseconds since the epoch.
    pub db_write_start: i64,
}

/// `entries` cut into batches of `size`, in order; the last one may be
/// shorter.
pub open spec fn chunks<T>(entries: Seq<T>, size: int) -> Seq<Seq<T>>
    decreases entries.len(),
{
    if entries.len() == 0 || size <= 0 {
        Seq::empty()
    } else if entries.len() <= size {
        seq![entries]
    } else {
        seq![entries.take(size)] + chunks(entries.skip(size), size)
    }
}

/// The entries of every step, step by step.
pub open spec fn steps_view(steps: Seq<IndexerJobStep>) -> Seq<Seq<EntryView>> {
    Seq::new(steps.len(), |i: int| steps[i].deep_view())
}

/// Cuts the entries of a walk into steps of `size` entries.
pub fn partition(entries: Vec<IndexerJobStepEntry>, size: usize) -> (r: VecDeque<IndexerJobStep>)
    requires
        size > 0,
    ensures
        steps_view(r@) == chunks(entries.deep_view(), size as int),
{
    let ghost given = entries@;
    let ghost all = entries.deep_view();
    let mut steps: VecDeque<IndexerJobStep> = VecDeque::new();
    let mut current: Vec<IndexerJobStepEntry> = Vec::new();
    assert(all.skip(0) =~= all);
    assert(steps_view(steps@) =~= Seq::<Seq<EntryView>>::empty());
    assert(current.deep_view() + all =~= all);
    for entry in it: entries
        invariant
            it.seq() == given,
            all == given.map_values(|e: IndexerJobStepEntry| e@),
            size > 0,
            current@.len() < size,
            chunks(all, size as int) == steps_view(steps@) + chunks(
                current.deep_view() + all.skip(it.index() as int),
                size as int,
            ),
    {
        let ghost idx = it.index() as int;
        let ghost before = current.deep_view();
        let ghost made = steps_view(steps@);
        assert(entry == given[idx]);
        assert(all[idx] == entry@);
        current.push(entry);
        assert(current.deep_view() =~= before.push(all[idx]));
        assert(before + all.skip(idx) =~= current.deep_view() + all.skip(idx + 1));
        if current.len() == size {
            let ghost full = current.deep_view();
            let ghost rest = all.skip(idx + 1);
            proof {
                let joined = full + rest;
                if rest.len() == 0 {
                    assert(joined =~= full);
                    assert(chunks(joined, size as int) =~= seq![full] + chunks(rest, size as int));
                } else {
                    assert(joined.take(size as int) =~= full);
                    assert(joined.skip(size as int) =~= rest);
                }
            }
            let mut done: Vec<IndexerJobStepEntry> = Vec::new();
            std::mem::swap(&mut done, &mut current);
            steps.push_back(done);
            assert(steps_view(steps@) =~= made.push(full));
            assert(current.deep_view() + rest =~= rest);
            assert(chunks(all, size as int) =~= steps_view(steps@) + chunks(
                current.deep_view() + rest,
                size as int,
            ));
        }
    }
    let ghost made = steps_view(steps@);
    let ghost last = current.deep_view();
    assert(all.skip(all.len() as int) =~= Seq::<EntryView>::empty());
    assert(last + all.skip(all.len() as int) =~= last);
    if current.len() > 0 {
        steps.push_back(current);
        assert(steps_view(steps@) =~= made.push(last));
    }
    steps
}

/// The entries that a scan finds, or none where a scan of part of a
/// location has no directory row to start from.
pub open spec fn scan_entries(init: IndexerJobInit, rules: RuleSetView, scan: Scan) -> Option<
    Seq<EntryView>,
> {
    match init.sub_path {
        None => Some(
            walk_location(
                rules,
                init.location.id as int,
                init.location.local_path@,
                scan.root,
                scan.first_id as int,
            ),
        ),
        Some(sub_path) => match scan.parent {
            Some(parent) => Some(
                walk_sub_path(
                    rules,
                    init.location.id as int,
                    child_path(init.location.local_path@, sub_path@),
                    parent.materialized_path@,
                    parent.id as int,
                    scan.root,
                    scan.first_id as int,
                ),
            ),
            None => None,
        },
    }
}

/// Whether a job can begin on this scan under these rules: a scan of part
/// of a location has a directory row to start from, and there are ids for
/// all entries.
pub open spec fn can_begin_with(init: IndexerJobInit, rules: RuleSetView, scan: Scan) -> bool {
    scan_entries(init, rules, scan) matches Some(entries) && scan.first_id + entries.len()
        <= i32::MAX + 1
}

/// Whether a job can begin on this scan: its rules load, and it can begin
/// under them.
pub open spec fn can_begin(init: IndexerJobInit, scan: Scan) -> bool {
    let datas = init.location.indexer_rules@;
    &&& all_readable(datas)
    &&& rules_compile(all_stored(datas))
    &&& can_begin_with(init, rule_set_of(all_stored(datas)), scan)
}

/// Whether `state` is that of a job that has just begun on `scan` under
/// `rules`: the data tells how many entries were found and how long the
/// scan took, no row is counted yet, and the steps are the entries of the
/// walk, cut into batches.
pub open spec fn begun(
    state: JobState<IndexerJobInit, IndexerJobData, IndexerJobStep>,
    init: IndexerJobInit,
    rules: RuleSetView,
    scan: Scan,
) -> bool {
    let entries = scan_entries(init, rules, scan)->0;
    &&& state.data == Some(
        IndexerJobData {
            db_write_start: scan.db_write_start,
            scan_read_time: scan.scan_read_time,
            total_paths: entries.len() as usize,
            indexed_paths: 0,
        },
    )
    &&& steps_view(state.steps@) == chunks(entries, BATCH_SIZE as int)
    &&& state.step_number == 0
}

/// Whether `e` is the error of a job that cannot begin on `scan` under
/// `rules`: the directory row is missing, or the ids do not suffice.
pub open spec fn begin_error(init: IndexerJobInit, rules: RuleSetView, scan: Scan, e: JobError) -> bool {
    if scan_entries(init, rules, scan) is None {
        e is DirectoryNotFound
    } else {
        e matches JobError::Indexer(cause) && is_ids_exhausted(cause)
    }
}

impl IndexerJob {
    /// Begins a job: loads the rules of the location, walks the scan once
    /// and cuts what was found into steps. The number of entries and the
    /// time the scan took are in the data before any step has run. A job
    /// that cannot begin is left as it was.
    pub fn init(
        state: &mut JobState<IndexerJobInit, IndexerJobData, IndexerJobStep>,
        scan: &Scan,
    ) -> (r: Result<(), JobError>)
        ensures
            final(state).init == old(state).init,
            r is Ok <==> can_begin(old(state).init, *scan),
            r is Ok ==> begun(
                *final(state),
                old(state).init,
                rule_set_of(all_stored(old(state).init.location.indexer_rules@)),
                *scan,
            ),
            r matches Err(e) ==> *final(state) == *old(state) && ({
                let datas = old(state).init.location.indexer_rules@;
                if !(all_readable(datas) && rules_compile(all_stored(datas))) {
                    e matches JobError::Indexer(cause) && load_error(datas, cause)
                } else {
                    begin_error(old(state).init, rule_set_of(all_stored(datas)), *scan, e)
                }
            }),
    {
        let rules = match load_rules(&state.init.location.indexer_rules) {
            Ok(rules) => rules,
            Err(e) => {
                return Err(JobError::Indexer(e));
            },
        };
        IndexerJob::init_with(state, &rules, scan)
    }

    /// Begins a job under rules that were compiled before, so that the one
    /// rule set that told what to read also tells what to index.
    pub fn init_with(
        state: &mut JobState<IndexerJobInit, IndexerJobData, IndexerJobStep>,
        rules: &RuleSet,
        scan: &Scan,
    ) -> (r: Result<(), JobError>)
        ensures
            final(state).init == old(state).init,
            r is Ok <==> can_begin_with(old(state).init, rules@, *scan),
            r is Ok ==> begun(*final(state), old(state).init, rules@, *scan),
            r matches Err(e) ==> *final(state) == *old(state) && begin_error(
                old(state).init,
                rules@,
                *scan,
                e,
            ),
    {
        let location_id = state.init.location.id;
        let walked = match &state.init.sub_path {
            None => walk(
                rules,
                location_id,
                state.init.location.local_path.as_str(),
                &scan.root,
                scan.first_id,
            ),
            Some(sub_path) => match &scan.parent {
                None => {
                    return Err(JobError::DirectoryNotFound);
                },
                Some(parent) => {
                    let dir_path = join_path(
                        state.init.location.local_path.as_str(),
                        sub_path.as_str(),
                    );
                    walk_from(
                        rules,
                        location_id,
                        dir_path.as_str(),
                        parent.materialized_path.as_str(),
                        parent.id,
                        &scan.root,
                        scan.first_id,
                    )
                },
            },
        };
        let entries = match walked {
            Ok(entries) => entries,
            Err(e) => {
                return Err(JobError::Indexer(e));
            },
        };
        let total_paths = entries.len();
        state.data = Some(
            IndexerJobData {
                db_write_start: scan.db_write_start,
                scan_read_time: scan.scan_read_time,
                total_paths,
                indexed_paths: 0,
            },
        );
        state.steps = partition(entries, BATCH_SIZE);
        state.step_number = 0;
        Ok(())
    }

    /// What a job that has begun tells first: how many chunks it will
    /// write, and how many paths it found.
    pub fn scan_progress(data: &IndexerJobData, chunk_count: usize) -> (r: Vec<ScanProgress>)
        ensures
            r@.len() == 2,
            r@[0] == ScanProgress::ChunkCount(chunk_count),
            r@[1] matches ScanProgress::Message(m) && m@ == "Found "@ + nat_decimal(
                data.total_paths as nat,
            ) + " paths"@,
    {
        let mut message = String::from_str("Found ");
        push_decimal(&mut message, data.total_paths as u64);
        message.append(" paths");
        let mut progress: Vec<ScanProgress> = Vec::new();
        progress.push(ScanProgress::ChunkCount(chunk_count));
        progress.push(ScanProgress::Message(message));
        progress
    }
}

/// The id for the first entry of a scan. A full scan counts the entries of
/// a location from 1, so an entry keeps its id for as long as the tree
/// before it stays as it is, and scanning again adds no row for it. A scan
/// of a part takes the id after the largest one in use.
pub fn first_entry_id(sub_path: &Option<String>, last_id: i32) -> (r: Result<i32, JobError>)
    ensures
        match sub_path {
            None => r == Ok::<i32, JobError>(1),
            Some(_) => if last_id < i32::MAX {
                r == Ok::<i32, JobError>((last_id + 1) as i32)
            } else {
                r matches Err(e) && e is CounterOverflow
            },
        },
{
    match sub_path {
        None => Ok(1),
        Some(_) => if last_id < i32::MAX {
            Ok(last_id + 1)
        } else {
            Err(JobError::CounterOverflow)
        },
    }
}

/// What comes next in a job whose steps are written to a store.
#[derive(Debug)]
pub enum Work {
    /// Write these records in one go, skipping rows that exist, and come
    /// back with the number of rows that were added.
    Write(Vec<WriteRecord>),
    /// Steps are left, and a pause was asked for: stop here.
    Pause,
    /// No step is left: the job is complete.
    Finalize,
    /// The job cannot go on.
    Fail(JobError),
}

/// The data after a write was taken into the state, if it can be taken: the
/// job has data and a step to complete, the write went well, and the counts
/// still fit.
pub open spec fn write_taken(
    state: JobState<IndexerJobInit, IndexerJobData, IndexerJobStep>,
    written: Result<i64, IndexerError>,
) -> Option<IndexerJobData> {
    if state.data is None || state.steps@.len() == 0 || state.step_number == usize::MAX {
        None
    } else {
        match written {
            Ok(count) => state.data->0.after_step(count as int),
            Err(_) => None,
        }
    }
}

/// Whether `e` is the error with which a write is refused: the job has no
/// data, or no step to complete; else the error of the write itself; else
/// a count that no longer fits.
pub open spec fn write_refused(
    state: JobState<IndexerJobInit, IndexerJobData, IndexerJobStep>,
    written: Result<i64, IndexerError>,
    e: JobError,
) -> bool {
    if state.data is None {
        e is MissingData
    } else if state.steps@.len() == 0 {
        e is NotRunnable
    } else {
        match written {
            Err(cause) => e == JobError::Indexer(cause),
            Ok(_) => e is CounterOverflow,
        }
    }
}

impl IndexerJob {
    /// Says what comes next, between two steps: nothing is ever decided
    /// inside a step. A pause is taken only while steps are left.
    pub fn next_work(
        state: &JobState<IndexerJobInit, IndexerJobData, IndexerJobStep>,
        pause: bool,
    ) -> (r: Work)
        ensures
            match r {
                Work::Fail(e) => state.data is None && e is MissingData,
                Work::Finalize => state.data is Some && state.steps@.len() == 0,
                Work::Pause => state.data is Some && state.steps@.len() > 0 && pause,
                Work::Write(records) => state.data is Some && state.steps@.len() > 0 && !pause
                    && records.deep_view() == records_of(
                    state.init.location.id as int,
                    state.init.location.pub_id@,
                    state.steps@[0].deep_view(),
                ),
            },
    {
        if state.data.is_none() {
            Work::Fail(JobError::MissingData)
        } else if state.steps.len() == 0 {
            Work::Finalize
        } else if pause {
            Work::Pause
        } else {
            let step = state.steps[0].as_slice();
            assert(step.deep_view() =~= state.steps@[0].deep_view());
            Work::Write(prepare_indexer_step(&state.init.location, step))
        }
    }

    /// Takes what came of writing the next step. Where the write went well
    /// the rows it added are counted, the step leaves the queue, and the
    /// progress is offered at the time `now`; an event that is let through
    /// is taken into the report and handed back for other receivers. Where
    /// the write failed, or cannot be taken, the job is left exactly as it
    /// was: the step is not tried again and nothing of it is counted.
    pub fn record_write(
        state: &mut JobState<IndexerJobInit, IndexerJobData, IndexerJobStep>,
        written: Result<i64, IndexerError>,
        now: u64,
        progress: &mut ProgressDebouncer,
        report: &mut JobReport,
    ) -> (r: Result<Option<ProgressEvent>, JobError>)
        ensures
            final(state).init == old(state).init,
            final(report).id == old(report).id,
            final(report).name == old(report).name,
            final(report).status == old(report).status,
            final(report).data == old(report).data,
            match write_taken(*old(state), written) {
                None => (r matches Err(e) && write_refused(*old(state), written, e))
                    && *final(state) == *old(state) && *final(progress) == *old(progress)
                    && *final(report) == *old(report),
                Some(data) => {
                    let updates = IndexerJob::step_updates(
                        &old(state).init,
                        &data,
                        (old(state).step_number + 1) as nat,
                    );
                    &&& final(state).data == Some(data)
                    &&& final(state).steps@ == old(state).steps@.skip(1)
                    &&& final(state).step_number == old(state).step_number + 1
                    &&& final(progress)@ == offered(old(progress)@, now as int, updates)
                    &&& match offer_event(old(progress)@, now as int, updates) {
                        Some(event) => (r matches Ok(Some(e)) && e@ == event)
                            && final(report).shown() == delivered(old(report).shown(), event),
                        None => r matches Ok(None) && final(report).shown() == old(report).shown(),
                    }
                },
            },
    {
        if state.data.is_none() {
            return Err(JobError::MissingData);
        }
        if state.steps.len() == 0 {
            return Err(JobError::NotRunnable);
        }
        let data = state.data.unwrap();
        let next = match after_write(&data, written) {
            Ok(next) => next,
            Err(e) => {
                return Err(e);
            },
        };
        if state.step_number == usize::MAX {
            return Err(JobError::CounterOverflow);
        }
        let _ = state.complete_step(next);
        let job = IndexerJob {  };
        let updates = job.report_step(&state.init, &next, state.step_number);
        match progress.offer(now, updates) {
            Some(event) => {
                let copy = event.copy();
                report.deliver(event);
                Ok(Some(copy))
            },
            None => Ok(None),
        }
    }

    /// Ends a run with the status `status`: what progress was held back is
    /// delivered to the report and handed back, the report takes the
    /// status, and a job that completed is summed up at the time `now`.
    pub fn close(
        state: &JobState<IndexerJobInit, IndexerJobData, IndexerJobStep>,
        status: JobStatus,
        now: i64,
        progress: &mut ProgressDebouncer,
        report: &mut JobReport,
    ) -> (r: (ProgressEvent, Option<IndexerSummary>))
        ensures
            r.0@ == old(progress)@.pending,
            final(progress)@ == (DebouncerView { pending: no_event(), ..old(progress)@ }),
            final(report).shown() == delivered(old(report).shown(), old(progress)@.pending),
            final(report).status == status,
            final(report).id == old(report).id,
            final(report).name == old(report).name,
            final(report).data == old(report).data,
            r.1 is Some <==> status == JobStatus::Completed && state.data is Some,
            r.1 matches Some(summary) ==> sums_up(state.data->0, now as int, summary),
    {
        let event = progress.flush();
        let copy = event.copy();
        report.deliver(event);
        report.status = status;
        let summary = match (status, &state.data) {
            (JobStatus::Completed, Some(data)) => Some(summarize(data, now)),
            _ => None,
        };
        (copy, summary)
    }

    /// What a scan tells while it reads: the path it is at, and how many
    /// whole chunks the paths found so far fill.
    pub fn scanning_progress(path: &str, found: usize) -> (r: Vec<ScanProgress>)
        ensures
            r@.len() == 2,
            r@[0] matches ScanProgress::Message(m) && m@ == "Scanning "@ + path@,
            r@[1] == ScanProgress::ChunkCount((found / BATCH_SIZE) as usize),
    {
        let mut message = String::from_str("Scanning ");
        message.append(path);
        let mut progress: Vec<ScanProgress> = Vec::new();
        progress.push(ScanProgress::Message(message));
        progress.push(ScanProgress::ChunkCount(found / BATCH_SIZE));
        progress
    }
}

/// The records of every step, step by step.
pub open spec fn step_records(init: IndexerJobInit, steps: Seq<IndexerJobStep>) -> Seq<
    Seq<WriteRecordView>,
> {
    Seq::new(
        steps.len(),
        |i: int| records_of(init.location.id as int, init.location.pub_id@, steps[i].deep_view()),
    )
}

/// Writing a first batch and then a run of batches is writing the run with
/// the first batch put before it.
proof fn lemma_written_all_front(
    records: Seq<WriteRecordView>,
    first: Seq<WriteRecordView>,
    rest: Seq<Seq<WriteRecordView>>,
)
    ensures
        written_all(written(records, first), rest) == written_all(records, seq![first] + rest),
    decreases rest.len(),
{
    let joined = seq![first] + rest;
    if rest.len() == 0 {
        assert(joined.drop_last() =~= Seq::<Seq<WriteRecordView>>::empty());
        assert(joined.last() == first);
        assert(written_all(records, joined.drop_last()) == records);
    } else {
        lemma_written_all_front(records, first, rest.drop_last());
        assert(joined.drop_last() =~= seq![first] + rest.drop_last());
        assert(joined.last() == rest.last());
    }
}

/// What a run of an indexer job leaves, where no count overflows: the table
/// holds what the steps it ran wrote, and the running count has grown by
/// the number of rows that were added; nothing else of the data changes.
pub proof fn lemma_indexer_run(
    init: IndexerJobInit,
    env: Seq<WriteRecordView>,
    data: IndexerJobData,
    steps: Seq<IndexerJobStep>,
    number: nat,
    budget: nat,
)
    ensures
        ({
            let out = run_spec::<IndexerJob>(init, env, data, steps, number, budget);
            let ran = steps.len() - out.steps.len();
            &&& 0 <= ran <= steps.len()
            &&& ran <= budget
            &&& out.steps == steps.skip(ran)
            &&& out.failure is None ==> {
                &&& ran == if budget < steps.len() {
                    budget as int
                } else {
                    steps.len() as int
                }
                &&& out.env == written_all(env, step_records(init, steps.take(ran)))
                &&& out.data == (IndexerJobData {
                    indexed_paths: (data.indexed_paths + (out.env.len() - env.len())) as i64,
                    ..data
                })
                &&& data.indexed_paths + (out.env.len() - env.len()) <= i64::MAX
                &&& out.env.len() >= env.len()
            }
        }),
    decreases budget,
{
    let out = run_spec::<IndexerJob>(init, env, data, steps, number, budget);
    if steps.len() == 0 || budget == 0 {
        assert(steps.skip(0) =~= steps);
        assert(step_records(init, steps.take(0)) =~= Seq::<Seq<WriteRecordView>>::empty());
    } else {
        let first = records_of(init.location.id as int, init.location.pub_id@, steps[0].deep_view());
        let env_next = written(env, first);
        lemma_written_extends(env, first);
        assert(IndexerJob::env_after(&init, env, &data, &steps[0]) == env_next);
        match IndexerJob::data_after(&init, env, &data, &steps[0]) {
            None => {
                assert(steps.skip(0) =~= steps);
            },
            Some(d) => {
                let rest = steps.skip(1);
                lemma_indexer_run(init, env_next, d, rest, number + 1, (budget - 1) as nat);
                let ran_rest = rest.len() - out.steps.len();
                assert(rest.skip(ran_rest) =~= steps.skip(ran_rest + 1));
                if out.failure is None {
                    lemma_written_all_front(env, first, step_records(init, rest.take(ran_rest)));
                    assert(seq![first] + step_records(init, rest.take(ran_rest)) =~= step_records(
                        init,
                        steps.take(ran_rest + 1),
                    ));
                }
            },
        }
    }
}

/// Scanning again, with nothing changed in between, adds no row. A second
/// job for the same location, whose steps hold the same entries as those
/// of the first, never fails on the table that the first run left, leaves
/// the table as it is, and leaves its own count where it began.
pub proof fn lemma_second_scan_adds_nothing(
    init: IndexerJobInit,
    env: Seq<WriteRecordView>,
    data: IndexerJobData,
    steps: Seq<IndexerJobStep>,
    init_again: IndexerJobInit,
    data_again: IndexerJobData,
    steps_again: Seq<IndexerJobStep>,
)
    requires
        run_spec::<IndexerJob>(init, env, data, steps, 0, steps.len()).failure is None,
        init_again.location.id == init.location.id,
        init_again.location.pub_id@ == init.location.pub_id@,
        steps_view(steps_again) == steps_view(steps),
    ensures
        ({
            let once = run_spec::<IndexerJob>(init, env, data, steps, 0, steps.len());
            let twice = run_spec::<IndexerJob>(
                init_again,
                once.env,
                data_again,
                steps_again,
                0,
                steps_again.len(),
            );
            &&& twice.failure is None
            &&& twice.steps.len() == 0
            &&& twice.env == once.env
            &&& twice.data == data_again
        }),
{
    let once = run_spec::<IndexerJob>(init, env, data, steps, 0, steps.len());
    lemma_indexer_run(init, env, data, steps, 0, steps.len());
    assert(steps.take(steps.len() as int) =~= steps);
    let all = step_records(init, steps);
    assert(once.env == written_all(env, all));
    assert(steps_view(steps_again).len() == steps_again.len());
    assert(steps_view(steps).len() == steps.len());
    assert(steps_again.len() == steps.len());
    assert(step_records(init_again, steps_again) =~= all) by {
        assert forall|i: int| 0 <= i < steps.len() implies step_records(init_again, steps_again)[i]
            == all[i] by {
            assert(steps_view(steps_again)[i] == steps_view(steps)[i]);
        }
    }
    assert forall|s: int, j: int| 0 <= s < all.len() && 0 <= j < all[s].len() implies holds(
        once.env,
        identity(#[trigger] all[s][j]),
    ) by {
        lemma_written_all_holds(env, all, identity(all[s][j]));
    }
    lemma_rerun_changes_nothing(init_again, once.env, data_again, steps_again, 0, 0);
    assert(steps_again.skip(0) =~= steps_again);
}

/// On a table that holds every identity of the steps from `from` on, a run
/// of those steps changes nothing.
proof fn lemma_rerun_changes_nothing(
    init: IndexerJobInit,
    env: Seq<WriteRecordView>,
    data: IndexerJobData,
    steps: Seq<IndexerJobStep>,
    from: int,
    number: nat,
)
    requires
        0 <= from <= steps.len(),
        forall|s: int, j: int|
            0 <= s < steps.len() && 0 <= j < step_records(init, steps)[s].len() ==> holds(
                env,
                identity(#[trigger] step_records(init, steps)[s][j]),
            ),
    ensures
        ({
            let out = run_spec::<IndexerJob>(
                init,
                env,
                data,
                steps.skip(from),
                number,
                (steps.len() - from) as nat,
            );
            &&& out.failure is None
            &&& out.steps.len() == 0
            &&& out.env == env
            &&& out.data == data
        }),
    decreases steps.len() - from,
{
    let tail = steps.skip(from);
    if from < steps.len() {
        let first = records_of(init.location.id as int, init.location.pub_id@, tail[0].deep_view());
        assert(tail[0] == steps[from]);
        assert(first == step_records(init, steps)[from]);
        lemma_written_nothing_new(env, first);
        assert(IndexerJob::env_after(&init, env, &data, &tail[0]) == env);
        assert(IndexerJob::data_after(&init, env, &data, &tail[0]) == Some(data));
        lemma_rerun_changes_nothing(init, env, data, steps, from + 1, number + 1);
        assert(tail.skip(1) =~= steps.skip(from + 1));
    }
}

} // verus!
