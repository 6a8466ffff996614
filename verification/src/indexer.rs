//! The indexer job: what it is given, what it keeps, and what one step does.

use crate::file_path::{MaterializedPath, MaterializedPathView};
use crate::job::{JobError, JobState, StatefulJob};
use crate::error::IndexerError;
use crate::location::{require_location, LocationError, LocationWithIndexerRules};
use crate::manager::{FingerprintView, JobFingerprint, JobKind};
use crate::progress::{offer_event, offered, ProgressDebouncer, ProgressEvent};
use crate::report::{JobReportUpdate, UpdateView};
use crate::store::{written, FilePathTable};
use crate::sync::{make_record, opt_int, record_of, WriteRecord, WriteRecordView};
use crate::text::{int_decimal, nat_decimal, push_decimal, push_int_decimal};
use vstd::prelude::*;
use vstd::string::*;

verus! {

/// One entry that a walk found and that is still to be written: where it
/// lies, when it was made, the id the walk gave it and the id of the
/// directory that holds it.
#[derive(Debug)]
pub struct IndexerJobStepEntry {
    pub full_path: String,
    pub materialized_path: MaterializedPath,
    /// Milliseconds since the epoch.
    pub created_at: i64,
    pub file_id: i32,
    pub parent_id: Option<i32>,
}

/// An entry as plain values.
pub struct EntryView {
    pub full_path: Seq<char>,
    pub materialized_path: MaterializedPathView,
    pub created_at: int,
    pub file_id: int,
    pub parent_id: Option<int>,
}

impl View for IndexerJobStepEntry {
    type V = EntryView;

    open spec fn view(&self) -> EntryView {
        EntryView {
            full_path: self.full_path@,
            materialized_path: self.materialized_path@,
            created_at: self.created_at as int,
            file_id: self.file_id as int,
            parent_id: opt_int(self.parent_id),
        }
    }
}

impl DeepView for IndexerJobStepEntry {
    type V = EntryView;

    open spec fn deep_view(&self) -> EntryView {
        self@
    }
}

/// One step of the indexer job: the entries that are written together.
pub type IndexerJobStep = Vec<IndexerJobStepEntry>;

/// The records of a batch of entries, one for each entry and in the same
/// order.
pub open spec fn records_of(location_id: int, pub_id: Seq<u8>, step: Seq<EntryView>) -> Seq<
    WriteRecordView,
> {
    Seq::new(step.len(), |i: int| record_of(location_id, pub_id, step[i]))
}

/// Makes, for every entry of a step, the row and the replication operation
/// that are to be written together.
pub fn prepare_indexer_step(location: &LocationWithIndexerRules, step: &[IndexerJobStepEntry]) -> (r:
    Vec<WriteRecord>)
    ensures
        r.deep_view() == records_of(location.id as int, location.pub_id@, step.deep_view()),
{
    let mut records: Vec<WriteRecord> = Vec::new();
    let mut i: usize = 0;
    while i < step.len()
        invariant
            i <= step.len(),
            records.deep_view() =~= records_of(
                location.id as int,
                location.pub_id@,
                step.deep_view().take(i as int),
            ),
        decreases step.len() - i,
    {
        let ghost before = records.deep_view();
        let record = make_record(location.id, &location.pub_id, &step[i]);
        assert(step.deep_view()[i as int] == step@[i as int]@);
        records.push(record);
        assert(records.deep_view() =~= before.push(record@));
        i = i + 1;
    }
    assert(step.deep_view().take(step.len() as int) =~= step.deep_view());
    records
}

/// What an indexer job is asked to do: index this location, or only what
/// lies below `sub_path` in it.
#[derive(Debug)]
pub struct IndexerJobInit {
    pub location: LocationWithIndexerRules,
    pub sub_path: Option<String>,
}

impl IndexerJobInit {
    /// The fingerprint of the job: the location's id and the sub-path.
    /// Nothing else of the location goes into it, so two submissions for the
    /// same place have the same fingerprint whatever else they carry.
    pub fn hash(&self) -> (r: JobFingerprint)
        ensures
            r@ == (FingerprintView {
                kind: JobKind::Indexer,
                location_id: self.location.id as int,
                sub_path: match self.sub_path {
                    Some(p) => Some(p@),
                    None => None,
                },
            }),
    {
        JobFingerprint {
            kind: JobKind::Indexer,
            location_id: self.location.id,
            sub_path: match &self.sub_path {
                Some(p) => Some(p.clone()),
                None => None,
            },
        }
    }

    /// The job that scans a whole location again. `found` is what the store
    /// answered when asked for the location with the id `location_id`.
    pub fn full_rescan(found: Option<LocationWithIndexerRules>, location_id: i32) -> (r: Result<
        IndexerJobInit,
        LocationError,
    >)
        ensures
            match found {
                Some(location) => r == Ok::<IndexerJobInit, LocationError>(
                    IndexerJobInit { location, sub_path: None },
                ),
                None => r == Err::<IndexerJobInit, LocationError>(
                    LocationError::IdNotFound(location_id),
                ),
            },
    {
        match require_location(found, location_id) {
            Ok(location) => Ok(IndexerJobInit { location, sub_path: None }),
            Err(e) => Err(e),
        }
    }

    /// The job that scans what lies below `sub_path` again.
    pub fn rescan_from(
        found: Option<LocationWithIndexerRules>,
        location_id: i32,
        sub_path: String,
    ) -> (r: Result<IndexerJobInit, LocationError>)
        ensures
            match found {
                Some(location) => r == Ok::<IndexerJobInit, LocationError>(
                    IndexerJobInit { location, sub_path: Some(sub_path) },
                ),
                None => r == Err::<IndexerJobInit, LocationError>(
                    LocationError::IdNotFound(location_id),
                ),
            },
    {
        match require_location(found, location_id) {
            Ok(location) => Ok(IndexerJobInit { location, sub_path: Some(sub_path) }),
            Err(e) => Err(e),
        }
    }
}

/// What an indexer job gathers while it runs.
#[derive(Debug, Clone, Copy, PartialEq, Eq, Structural)]
pub struct IndexerJobData {
    /// When writing began, in milliseconds since the epoch.
    pub db_write_start: i64,
    /// How long the walk took, in milliseconds.
    pub scan_read_time: u64,
    /// Number of entries the walk found.
    pub total_paths: usize,
    /// Number of rows written so far.
    pub indexed_paths: i64,
}

/// What a scan tells of its progress.
#[derive(Debug)]
pub enum ScanProgress {
    /// Number of chunks that will be written.
    ChunkCount(usize),
    /// Number of chunks written so far.
    SavedChunks(usize),
    Message(String),
}

/// The report update that stands for a piece of scan progress.
pub open spec fn report_update_of(progress: ScanProgress) -> UpdateView {
    match progress {
        ScanProgress::ChunkCount(c) => UpdateView::TaskCount(c as int),
        ScanProgress::SavedChunks(p) => UpdateView::CompletedTaskCount(p as int),
        ScanProgress::Message(m) => UpdateView::Message(m@),
    }
}

/// The report updates that stand for a run of scan progress.
pub open spec fn report_updates_of(progress: Seq<ScanProgress>) -> Seq<UpdateView> {
    Seq::new(progress.len(), |i: int| report_update_of(progress[i]))
}

impl ScanProgress {
    /// Turns scan progress into the update of the job's report: the chunk
    /// count is the task count, saved chunks are completed tasks.
    pub fn into_update(self) -> (r: JobReportUpdate)
        ensures
            r@ == report_update_of(self),
    {
        match self {
            ScanProgress::ChunkCount(c) => JobReportUpdate::TaskCount(c),
            ScanProgress::SavedChunks(p) => JobReportUpdate::CompletedTaskCount(p),
            ScanProgress::Message(m) => JobReportUpdate::Message(m),
        }
    }
}

impl IndexerJobData {
    /// Hands scan progress to the debouncer as report updates. The result
    /// is the event to deliver now, if the debouncer lets one through.
    pub fn on_scan_progress(
        debouncer: &mut ProgressDebouncer,
        now: u64,
        progress: Vec<ScanProgress>,
    ) -> (r: Option<ProgressEvent>)
        ensures
            final(debouncer)@ == offered(old(debouncer)@, now as int, report_updates_of(progress@)),
            match offer_event(old(debouncer)@, now as int, report_updates_of(progress@)) {
                Some(event) => r matches Some(e) && e@ == event,
                None => r is None,
            },
    {
        let ghost given = progress@;
        let mut updates: Vec<JobReportUpdate> = Vec::new();
        for p in it: progress
            invariant
                it.seq() == given,
                updates.deep_view() =~= report_updates_of(given.take(it.index() as int)),
        {
            let ghost before = updates.deep_view();
            let ghost idx = it.index() as int;
            assert(p == given[idx]);
            let update = p.into_update();
            updates.push(update);
            assert(updates.deep_view() =~= before.push(update@));
        }
        assert(given.take(given.len() as int) =~= given);
        debouncer.offer(now, updates)
    }

    /// The data after a step wrote `count` rows: the count is added to the
    /// rows written so far. There is no such data where the count is not
    /// one, or where the sum no longer fits its field.
    pub open spec fn after_step(self, count: int) -> Option<IndexerJobData> {
        if count < 0 || count > i64::MAX || self.indexed_paths + count > i64::MAX {
            None
        } else {
            Some(IndexerJobData { indexed_paths: (self.indexed_paths + count) as i64, ..self })
        }
    }

    /// Adds the rows that a step wrote to the running count.
    pub fn with_written(&self, count: i64) -> (r: Result<IndexerJobData, JobError>)
        ensures
            match self.after_step(count as int) {
                Some(data) => r == Ok::<IndexerJobData, JobError>(data),
                None => r matches Err(e) && e is CounterOverflow,
            },
    {
        if count < 0 {
            return Err(JobError::CounterOverflow);
        }
        match self.indexed_paths.checked_add(count) {
            Some(total) => Ok(
                IndexerJobData {
                    db_write_start: self.db_write_start,
                    scan_read_time: self.scan_read_time,
                    total_paths: self.total_paths,
                    indexed_paths: total,
                },
            ),
            None => Err(JobError::CounterOverflow),
        }
    }
}

/// What a write led to, for the count of the job: the rows that were added
/// go into the count; a write that failed ends in its error, with nothing
/// counted.
pub open spec fn write_outcome(data: IndexerJobData, written: Result<i64, IndexerError>, r: Result<
    IndexerJobData,
    JobError,
>) -> bool {
    match written {
        Ok(count) => match data.after_step(count as int) {
            Some(d) => r == Ok::<IndexerJobData, JobError>(d),
            None => r matches Err(e) && e is CounterOverflow,
        },
        Err(cause) => r == Err::<IndexerJobData, JobError>(JobError::Indexer(cause)),
    }
}

/// Takes what came of writing a step. A write that failed fails the step:
/// it is not tried again, and nothing of it is counted.
pub fn after_write(data: &IndexerJobData, written: Result<i64, IndexerError>) -> (r: Result<
    IndexerJobData,
    JobError,
>)
    ensures
        write_outcome(*data, written, r),
{
    match written {
        Ok(count) => data.with_written(count),
        Err(cause) => Err(JobError::Indexer(cause)),
    }
}

/// What a write to the table led to, as the count of a step: the rows that
/// were added, or the error of a write that failed. A failed write is not
/// tried again and counts nothing.
pub fn written_count(written: Result<usize, IndexerError>) -> (r: Result<i64, JobError>)
    ensures
        match written {
            Ok(count) => if count <= i64::MAX {
                r == Ok::<i64, JobError>(count as i64)
            } else {
                r matches Err(e) && e is CounterOverflow
            },
            Err(cause) => r == Err::<i64, JobError>(JobError::Indexer(cause)),
        },
{
    match written {
        Ok(count) => if count as u128 > i64::MAX as u128 {
            Err(JobError::CounterOverflow)
        } else {
            Ok(count as i64)
        },
        Err(cause) => Err(JobError::Indexer(cause)),
    }
}

/// Writes one step: every entry becomes a row and a replication operation,
/// and the batch is written in one go, skipping what is already in the
/// table. The result is the number of rows that were added.
pub fn execute_indexer_step(
    location: &LocationWithIndexerRules,
    step: &[IndexerJobStepEntry],
    table: &mut FilePathTable,
) -> (r: Result<i64, JobError>)
    requires
        old(table).wf(),
    ensures
        final(table).wf(),
        final(table)@ == written(
            old(table)@,
            records_of(location.id as int, location.pub_id@, step.deep_view()),
        ),
        0 <= final(table)@.len() - old(table)@.len() <= step@.len(),
        match r {
            Ok(count) => count == final(table)@.len() - old(table)@.len(),
            Err(e) => e is CounterOverflow && final(table)@.len() - old(table)@.len() > i64::MAX,
        },
{
    let records = prepare_indexer_step(location, step);
    let count = table.write_ops(records);
    written_count(Ok(count))
}

/// The summary of a finished indexer job.
#[derive(Debug)]
pub struct IndexerSummary {
    /// How long the walk took, in milliseconds.
    pub scan_read_time: u64,
    /// Number of entries the walk found.
    pub total_paths: usize,
    /// Number of rows that were written.
    pub indexed_paths: i64,
    /// How long writing took, in milliseconds.
    pub db_write_time: u64,
    /// The cached query whose answers are stale now, if any row was written.
    pub invalidate_query: Option<String>,
}

/// Whether `summary` sums up the data `data` at the time `now`: the
/// counts and the scan time are those of the data, writing took from its
/// start until `now` (no time at all where `now` lies before the start),
/// and listings are marked stale only if at least one row was written.
pub open spec fn sums_up(data: IndexerJobData, now: int, summary: IndexerSummary) -> bool {
    &&& summary.scan_read_time == data.scan_read_time
    &&& summary.total_paths == data.total_paths
    &&& summary.indexed_paths == data.indexed_paths
    &&& summary.db_write_time == if now >= data.db_write_start {
        now - data.db_write_start
    } else {
        0
    }
    &&& match summary.invalidate_query {
        Some(q) => data.indexed_paths > 0 && q@ == "locations.getExplorerData"@,
        None => data.indexed_paths <= 0,
    }
}

/// Sums up the data of an indexer job at the time `now`.
pub fn summarize(data: &IndexerJobData, now: i64) -> (r: IndexerSummary)
    ensures
        sums_up(*data, now as int, r),
{
    let db_write_time: u64 = if now >= data.db_write_start {
        (now as i128 - data.db_write_start as i128) as u64
    } else {
        0
    };
    let invalidate_query = if data.indexed_paths > 0 {
        Some(String::from_str("locations.getExplorerData"))
    } else {
        None
    };
    IndexerSummary {
        scan_read_time: data.scan_read_time,
        total_paths: data.total_paths,
        indexed_paths: data.indexed_paths,
        db_write_time,
        invalidate_query,
    }
}

/// Sums up a finished indexer job at the time `now`. Listings are marked
/// stale only if the job wrote at least one row.
pub fn finalize_indexer(
    state: &JobState<IndexerJobInit, IndexerJobData, IndexerJobStep>,
    now: i64,
) -> (r: IndexerSummary)
    requires
        state.data is Some,
        now >= state.data->0.db_write_start,
    ensures
        sums_up(state.data->0, now as int, r),
        r.scan_read_time == state.data->0.scan_read_time,
        r.total_paths == state.data->0.total_paths,
        r.indexed_paths == state.data->0.indexed_paths,
        r.db_write_time == now - state.data->0.db_write_start,
        match r.invalidate_query {
            Some(q) => state.data->0.indexed_paths > 0 && q@ == "locations.getExplorerData"@,
            None => state.data->0.indexed_paths <= 0,
        },
{
    let data = state.data.unwrap();
    summarize(&data, now)
}

/// The indexer as a kind of job. Its steps write to the path table.
#[derive(Debug)]
pub struct IndexerJob {}

impl StatefulJob for IndexerJob {
    type Init = IndexerJobInit;

    type Data = IndexerJobData;

    type Step = IndexerJobStep;

    type Env = FilePathTable;

    type Summary = IndexerSummary;

    open spec fn env_ok(env: &FilePathTable) -> bool {
        env.wf()
    }

    open spec fn env_after(
        init: &IndexerJobInit,
        env: Seq<WriteRecordView>,
        data: &IndexerJobData,
        step: &IndexerJobStep,
    ) -> Seq<WriteRecordView> {
        written(env, records_of(init.location.id as int, init.location.pub_id@, step.deep_view()))
    }

    open spec fn data_after(
        init: &IndexerJobInit,
        env: Seq<WriteRecordView>,
        data: &IndexerJobData,
        step: &IndexerJobStep,
    ) -> Option<IndexerJobData> {
        data.after_step(Self::env_after(init, env, data, step).len() - env.len())
    }

    open spec fn step_error(
        init: &IndexerJobInit,
        env: Seq<WriteRecordView>,
        data: &IndexerJobData,
        step: &IndexerJobStep,
        error: JobError,
    ) -> bool {
        error is CounterOverflow
    }

    open spec fn step_updates(init: &IndexerJobInit, data: &IndexerJobData, number: nat) -> Seq<
        UpdateView,
    > {
        seq![
            UpdateView::CompletedTaskCount(number as int),
            UpdateView::Message(step_message(*data)),
        ]
    }

    /// Writes the entries of one step and adds the number of rows that were
    /// written to the running count.
    fn execute_step(
        &self,
        init: &IndexerJobInit,
        env: &mut FilePathTable,
        data: &IndexerJobData,
        step: &IndexerJobStep,
    ) -> (r: Result<IndexerJobData, JobError>) {
        let entries = step.as_slice();
        assert(entries.deep_view() =~= step.deep_view());
        let ghost before = env@;
        let written = execute_indexer_step(&init.location, entries, env);
        assert(env@ == Self::env_after(init, before, data, step));
        match written {
            Err(e) => Err(e),
            Ok(count) => data.with_written(count),
        }
    }

    open spec fn summarized(
        init: &IndexerJobInit,
        data: &IndexerJobData,
        now: int,
        summary: IndexerSummary,
    ) -> bool {
        sums_up(*data, now, summary)
    }

    /// Sums up the job: how long scanning and writing took, how many paths
    /// were found and written, and whether listings are stale now.
    fn finalize(&self, init: &IndexerJobInit, data: &IndexerJobData, now: i64) -> (r:
        IndexerSummary) {
        summarize(data, now)
    }

    /// After a step: the number of chunks that are saved, and how many of
    /// the paths that were found are indexed.
    fn report_step(&self, init: &IndexerJobInit, data: &IndexerJobData, number: usize) -> (r: Vec<
        JobReportUpdate,
    >) {
        let mut message = String::from_str("Indexed ");
        push_int_decimal(&mut message, data.indexed_paths);
        message.append(" of ");
        push_decimal(&mut message, data.total_paths as u64);
        message.append(" paths");
        let mut updates: Vec<JobReportUpdate> = Vec::new();
        updates.push(JobReportUpdate::CompletedTaskCount(number));
        updates.push(JobReportUpdate::Message(message));
        assert(updates.deep_view() =~= Self::step_updates(init, data, number as nat));
        updates
    }
}

/// What an indexer job says after a step.
pub open spec fn step_message(data: IndexerJobData) -> Seq<char> {
    "Indexed "@ + int_decimal(data.indexed_paths as int) + " of "@ + nat_decimal(
        data.total_paths as nat,
    ) + " paths"@
}

} // verus!
