//! The path table: rows with their replication operations, written in
//! batches that skip what is already there.

use crate::sync::{WriteRecord, WriteRecordView};
use std::collections::HashSet;
use vstd::prelude::*;

verus! {

/// The identity of a record: the location it belongs to and the id the walk
/// gave its entry.
pub open spec fn identity(record: WriteRecordView) -> (int, int) {
    (record.row.location_id, record.row.id)
}

/// Whether some record of `records` has the identity `id`.
pub open spec fn holds(records: Seq<WriteRecordView>, id: (int, int)) -> bool {
    exists|i: int| 0 <= i < records.len() && identity(#[trigger] records[i]) == id
}

/// Whether no two records share an identity.
pub open spec fn distinct(records: Seq<WriteRecordView>) -> bool {
    forall|i: int, j: int|
        0 <= i < j < records.len() ==> identity(#[trigger] records[i]) != identity(
            #[trigger] records[j],
        )
}

/// The table after `batch` was written to `records`: the records of the
/// batch are taken in order, and one whose identity is already there is
/// left out.
pub open spec fn written(records: Seq<WriteRecordView>, batch: Seq<WriteRecordView>) -> Seq<
    WriteRecordView,
>
    decreases batch.len(),
{
    if batch.len() == 0 {
        records
    } else {
        let before = written(records, batch.drop_last());
        if holds(before, identity(batch.last())) {
            before
        } else {
            before.push(batch.last())
        }
    }
}

/// The table after every batch of `steps` was written to `records`, one
/// after the other.
pub open spec fn written_all(records: Seq<WriteRecordView>, steps: Seq<Seq<WriteRecordView>>) -> Seq<
    WriteRecordView,
>
    decreases steps.len(),
{
    if steps.len() == 0 {
        records
    } else {
        written(written_all(records, steps.drop_last()), steps.last())
    }
}

/// Whether the identity of the record at `i` in `batch` existed before that
/// record was reached: in the table, or at an earlier place of the batch.
pub open spec fn seen_before(
    records: Seq<WriteRecordView>,
    batch: Seq<WriteRecordView>,
    i: int,
) -> bool {
    holds(records, identity(batch[i])) || exists|j: int|
        0 <= j < i && identity(#[trigger] batch[j]) == identity(batch[i])
}

/// Number of records of `batch` whose identity existed before they were
/// reached.
pub open spec fn duplicate_count(records: Seq<WriteRecordView>, batch: Seq<WriteRecordView>) -> nat
    decreases batch.len(),
{
    if batch.len() == 0 {
        0
    } else {
        duplicate_count(records, batch.drop_last()) + if seen_before(
            records,
            batch,
            batch.len() - 1,
        ) {
            1nat
        } else {
            0nat
        }
    }
}

/// Writing keeps what was there, in place.
pub proof fn lemma_written_extends(records: Seq<WriteRecordView>, batch: Seq<WriteRecordView>)
    ensures
        records.len() <= written(records, batch).len() <= records.len() + batch.len(),
        written(records, batch).take(records.len() as int) == records,
    decreases batch.len(),
{
    if batch.len() == 0 {
        assert(records.take(records.len() as int) =~= records);
    } else {
        lemma_written_extends(records, batch.drop_last());
        let before = written(records, batch.drop_last());
        assert(written(records, batch).take(records.len() as int) =~= before.take(
            records.len() as int,
        ));
    }
}

/// After a batch was written the table holds an identity exactly if it held
/// it before or the batch has a record of it.
pub proof fn lemma_written_holds(
    records: Seq<WriteRecordView>,
    batch: Seq<WriteRecordView>,
    id: (int, int),
)
    ensures
        holds(written(records, batch), id) <==> (holds(records, id) || exists|j: int|
            0 <= j < batch.len() && identity(#[trigger] batch[j]) == id),
    decreases batch.len(),
{
    if batch.len() == 0 {
    } else {
        let front = batch.drop_last();
        let before = written(records, front);
        let after = written(records, batch);
        let last = batch.last();
        lemma_written_holds(records, front, id);
        if holds(after, id) {
            let i = choose|i: int| 0 <= i < after.len() && identity(#[trigger] after[i]) == id;
            if i < before.len() {
                assert(after[i] == before[i]);
                assert(holds(before, id));
                if !holds(records, id) {
                    let j = choose|j: int|
                        0 <= j < front.len() && identity(#[trigger] front[j]) == id;
                    assert(batch[j] == front[j]);
                }
            } else {
                assert(identity(batch[batch.len() - 1]) == id);
            }
        }
        if holds(records, id) || exists|j: int|
            0 <= j < batch.len() && identity(#[trigger] batch[j]) == id {
            if holds(before, id) {
                let i = choose|i: int| 0 <= i < before.len() && identity(#[trigger] before[i]) == id;
                assert(after[i] == before[i]);
            } else {
                let j = choose|j: int| 0 <= j < batch.len() && identity(#[trigger] batch[j]) == id;
                if j < front.len() {
                    assert(front[j] == batch[j]);
                    assert(false);
                }
                assert(identity(last) == id);
                assert(after == before.push(last));
                assert(after[before.len() as int] == last);
            }
        }
    }
}

/// Writing to a table without repeated identities leaves none repeated.
pub proof fn lemma_written_distinct(records: Seq<WriteRecordView>, batch: Seq<WriteRecordView>)
    requires
        distinct(records),
    ensures
        distinct(written(records, batch)),
    decreases batch.len(),
{
    if batch.len() > 0 {
        lemma_written_distinct(records, batch.drop_last());
    }
}

/// A batch of which the table holds every identity changes nothing.
pub proof fn lemma_written_nothing_new(records: Seq<WriteRecordView>, batch: Seq<WriteRecordView>)
    requires
        forall|j: int| 0 <= j < batch.len() ==> holds(records, identity(#[trigger] batch[j])),
    ensures
        written(records, batch) == records,
    decreases batch.len(),
{
    if batch.len() > 0 {
        let front = batch.drop_last();
        assert forall|j: int| 0 <= j < front.len() implies holds(
            records,
            identity(#[trigger] front[j]),
        ) by {
            assert(front[j] == batch[j]);
        }
        lemma_written_nothing_new(records, front);
        assert(holds(records, identity(batch[batch.len() - 1])));
    }
}

/// The number of rows that a batch adds is the size of the batch less the
/// records whose identity existed before they were reached; so it is never
/// more than the size of the batch.
pub proof fn lemma_inserted_count(records: Seq<WriteRecordView>, batch: Seq<WriteRecordView>)
    ensures
        duplicate_count(records, batch) <= batch.len(),
        written(records, batch).len() - records.len() == batch.len() - duplicate_count(
            records,
            batch,
        ),
        written(records, batch).len() - records.len() <= batch.len(),
    decreases batch.len(),
{
    if batch.len() > 0 {
        let front = batch.drop_last();
        let last = batch.last();
        lemma_inserted_count(records, front);
        lemma_written_holds(records, front, identity(last));
        if seen_before(records, batch, batch.len() - 1) {
            if !holds(records, identity(last)) {
                let j = choose|j: int|
                    0 <= j < batch.len() - 1 && identity(#[trigger] batch[j]) == identity(last);
                assert(front[j] == batch[j]);
            }
        } else {
            if holds(written(records, front), identity(last)) {
                let j = choose|j: int|
                    0 <= j < front.len() && identity(#[trigger] front[j]) == identity(last);
                assert(front[j] == batch[j]);
            }
        }
    }
}

/// Writing the same batch a second time adds no row.
pub proof fn lemma_rewrite_inserts_nothing(
    records: Seq<WriteRecordView>,
    batch: Seq<WriteRecordView>,
)
    ensures
        written(written(records, batch), batch) == written(records, batch),
        duplicate_count(written(records, batch), batch) == batch.len(),
{
    let once = written(records, batch);
    assert forall|j: int| 0 <= j < batch.len() implies holds(once, identity(#[trigger] batch[j])) by {
        lemma_written_holds(records, batch, identity(batch[j]));
    }
    lemma_written_nothing_new(once, batch);
    lemma_inserted_count(once, batch);
}

/// Writing a run of batches keeps every identity the table held.
pub proof fn lemma_written_all_holds(
    records: Seq<WriteRecordView>,
    steps: Seq<Seq<WriteRecordView>>,
    id: (int, int),
)
    ensures
        holds(written_all(records, steps), id) <==> (holds(records, id) || exists|s: int, j: int|
            0 <= s < steps.len() && 0 <= j < steps[s].len() && identity(#[trigger] steps[s][j])
                == id),
    decreases steps.len(),
{
    if steps.len() > 0 {
        let front = steps.drop_last();
        let last = steps.last();
        lemma_written_all_holds(records, front, id);
        lemma_written_holds(written_all(records, front), last, id);
        if holds(written_all(records, steps), id) && !holds(records, id) {
            if holds(written_all(records, front), id) {
                let (s, j) = choose|s: int, j: int|
                    0 <= s < front.len() && 0 <= j < front[s].len() && identity(
                        #[trigger] front[s][j],
                    ) == id;
                assert(steps[s][j] == front[s][j]);
            } else {
                let j = choose|j: int| 0 <= j < last.len() && identity(#[trigger] last[j]) == id;
                assert(steps[steps.len() - 1][j] == last[j]);
            }
        }
        if exists|s: int, j: int|
            0 <= s < steps.len() && 0 <= j < steps[s].len() && identity(#[trigger] steps[s][j])
                == id {
            let (s, j) = choose|s: int, j: int|
                0 <= s < steps.len() && 0 <= j < steps[s].len() && identity(
                    #[trigger] steps[s][j],
                ) == id;
            if s < front.len() {
                assert(front[s][j] == steps[s][j]);
            } else {
                assert(last[j] == steps[s][j]);
            }
        }
    }
}

/// A run of batches of which the table holds every identity changes nothing.
pub proof fn lemma_written_all_nothing_new(
    records: Seq<WriteRecordView>,
    steps: Seq<Seq<WriteRecordView>>,
)
    requires
        forall|s: int, j: int|
            0 <= s < steps.len() && 0 <= j < steps[s].len() ==> holds(
                records,
                identity(#[trigger] steps[s][j]),
            ),
    ensures
        written_all(records, steps) == records,
    decreases steps.len(),
{
    if steps.len() > 0 {
        let front = steps.drop_last();
        assert forall|s: int, j: int| 0 <= s < front.len() && 0 <= j < front[s].len() implies holds(
            records,
            identity(#[trigger] front[s][j]),
        ) by {
            assert(front[s][j] == steps[s][j]);
        }
        lemma_written_all_nothing_new(records, front);
        let last = steps.last();
        assert forall|j: int| 0 <= j < last.len() implies holds(
            records,
            identity(#[trigger] last[j]),
        ) by {
            assert(last[j] == steps[steps.len() - 1][j]);
        }
        lemma_written_nothing_new(records, last);
    }
}

/// Writing the steps of a scan a second time, with nothing changed in
/// between, adds no row.
pub proof fn lemma_rescan_inserts_nothing(
    records: Seq<WriteRecordView>,
    steps: Seq<Seq<WriteRecordView>>,
)
    ensures
        written_all(written_all(records, steps), steps) == written_all(records, steps),
{
    let once = written_all(records, steps);
    assert forall|s: int, j: int| 0 <= s < steps.len() && 0 <= j < steps[s].len() implies holds(
        once,
        identity(#[trigger] steps[s][j]),
    ) by {
        lemma_written_all_holds(records, steps, identity(steps[s][j]));
    }
    lemma_written_all_nothing_new(once, steps);
}

/// The key under which the index keeps an identity.
pub open spec fn index_key(id: (int, int)) -> int {
    (id.0 + 0x8000_0000) * 0x1_0000_0000 + (id.1 + 0x8000_0000)
}

fn key_of(location_id: i32, id: i32) -> (r: u64)
    ensures
        r == index_key((location_id as int, id as int)),
{
    let high: u64 = (location_id as i64 + 0x8000_0000) as u64;
    let low: u64 = (id as i64 + 0x8000_0000) as u64;
    high * 0x1_0000_0000 + low
}

/// The path table of a library, in memory: every row with the operation
/// that replicates it.
pub struct FilePathTable {
    records: Vec<WriteRecord>,
    index: HashSet<u64>,
}

impl View for FilePathTable {
    type V = Seq<WriteRecordView>;

    closed spec fn view(&self) -> Seq<WriteRecordView> {
        self.records.deep_view()
    }
}

impl FilePathTable {
    /// The invariant of the table: no identity occurs twice, and the index
    /// knows exactly the identities of the rows.
    pub closed spec fn wf(&self) -> bool {
        &&& distinct(self@)
        &&& forall|k: u64|
            self.index@.contains(k) <==> exists|i: int|
                0 <= i < self@.len() && index_key(identity(#[trigger] self@[i])) == k
    }

    /// In a table that keeps its invariant no identity occurs twice.
    pub proof fn lemma_no_identity_twice(&self)
        requires
            self.wf(),
        ensures
            distinct(self@),
    {
    }

    /// A table without rows.
    pub fn new() -> (r: FilePathTable)
        ensures
            r.wf(),
            r@ == Seq::<WriteRecordView>::empty(),
    {
        let r = FilePathTable { records: Vec::new(), index: HashSet::new() };
        assert(r@ =~= Seq::<WriteRecordView>::empty());
        r
    }

    /// Number of rows.
    pub fn len(&self) -> (r: usize)
        ensures
            r == self@.len(),
    {
        self.records.len()
    }

    /// Whether a row with this identity is in the table.
    pub fn contains(&self, location_id: i32, id: i32) -> (r: bool)
        requires
            self.wf(),
        ensures
            r == holds(self@, (location_id as int, id as int)),
    {
        broadcast use vstd::std_specs::hash::group_hash_axioms;

        let key = key_of(location_id, id);
        let r = self.index.contains(&key);
        proof {
            if r {
                let i = choose|i: int|
                    0 <= i < self@.len() && index_key(identity(#[trigger] self@[i])) == key;
                assert(self@[i] == self.records@[i]@);
                assert(identity(self@[i]) == (location_id as int, id as int));
            }
            if holds(self@, (location_id as int, id as int)) {
                let i = choose|i: int|
                    0 <= i < self@.len() && identity(#[trigger] self@[i]) == (
                        location_id as int,
                        id as int,
                    );
                assert(index_key(identity(self@[i])) == key);
            }
        }
        r
    }

    /// The rows, oldest first, each with its operation.
    pub fn records(&self) -> (r: &Vec<WriteRecord>)
        ensures
            r.deep_view() == self@,
    {
        &self.records
    }

    /// Writes a batch in one go. A record whose identity is already in the
    /// table is skipped, row and operation alike; the others are added in
    /// order. The result is the number of rows added.
    pub fn write_ops(&mut self, batch: Vec<WriteRecord>) -> (count: usize)
        requires
            old(self).wf(),
        ensures
            final(self).wf(),
            final(self)@ == written(old(self)@, batch.deep_view()),
            count == final(self)@.len() - old(self)@.len(),
            count == batch.len() - duplicate_count(old(self)@, batch.deep_view()),
            count <= batch.len(),
    {
        broadcast use vstd::std_specs::hash::group_hash_axioms;

        let ghost start = self@;
        let ghost given = batch@;
        let ghost views = batch.deep_view();
        let mut count: usize = 0;
        assert(given.len() == batch.len());
        assert(views.take(0) =~= Seq::<WriteRecordView>::empty());
        for record in it: batch
            invariant
                it.seq() == given,
                given.len() <= usize::MAX,
                views == given.map_values(|r: WriteRecord| r@),
                self.wf(),
                self@ == written(start, views.take(it.index() as int)),
                count == self@.len() - start.len(),
                count <= it.index(),
        {
            let ghost idx = it.index() as int;
            let ghost before = self@;
            assert(idx < given.len());
            assert(record == given[idx]);
            assert(views[idx] == record@);
            assert(views.take(idx + 1).drop_last() =~= views.take(idx));
            assert(views.take(idx + 1).last() == record@);
            let present = self.contains(record.row.location_id, record.row.id);
            if !present {
                let key = key_of(record.row.location_id, record.row.id);
                self.index.insert(key);
                self.records.push(record);
                count = count + 1;
                proof {
                    assert(self@ =~= before.push(record@));
                    assert forall|k: u64|
                        self.index@.contains(k) <==> exists|i: int|
                            0 <= i < self@.len() && index_key(identity(#[trigger] self@[i]))
                                == k by {
                        if self.index@.contains(k) {
                            if k == key {
                                assert(index_key(identity(self@[before.len() as int])) == k);
                            } else {
                                let i = choose|i: int|
                                    0 <= i < before.len() && index_key(
                                        identity(#[trigger] before[i]),
                                    ) == k;
                                assert(self@[i] == before[i]);
                            }
                        }
                        if exists|i: int|
                            0 <= i < self@.len() && index_key(identity(#[trigger] self@[i]))
                                == k {
                            let i = choose|i: int|
                                0 <= i < self@.len() && index_key(identity(#[trigger] self@[i]))
                                    == k;
                            if i < before.len() {
                                assert(self@[i] == before[i]);
                            }
                        }
                    }
                    assert(distinct(self@)) by {
                        assert forall|i: int, j: int| 0 <= i < j < self@.len() implies identity(
                            #[trigger] self@[i],
                        ) != identity(#[trigger] self@[j]) by {
                            assert(self@[i] == before[i]);
                            if j < before.len() {
                                assert(self@[j] == before[j]);
                            }
                        }
                    }
                }
            }
        }
        proof {
            assert(views.take(views.len() as int) =~= views);
            lemma_inserted_count(start, views);
        }
        count
    }
}

} // verus!
