//! Storing parsed records in batches, one transaction for each batch.
//!
//! The store itself is not here. An [`Ingestion`] says which batch to store
//! next; its caller stores the batch in one transaction and reports how that
//! went. A batch that the store refused ends the run with the earlier batches
//! kept.

use vstd::prelude::*;
use crate::errors::PersistenceError;
use crate::models::{texts_of, TagNew};
use crate::structs::{records_of, ParsedBookmarkWithTags, ParsedRecord};

verus! {

/// The batch size that imports use unless told otherwise.
pub const DEFAULT_BATCH_SIZE: usize = 50;

/// How far an ingestion has come, as a mathematical value.
pub ghost struct IngestionState {
    /// All records of the run, in the order in which the parser made them.
    pub records: Seq<ParsedRecord>,
    /// The most records that one transaction may hold.
    pub batch_size: nat,
    /// How many records, counted from the first, are in committed batches.
    pub committed: nat,
}

impl IngestionState {
    /// A run as it starts: nothing committed yet.
    pub open spec fn start(records: Seq<ParsedRecord>, batch_size: nat) -> IngestionState {
        IngestionState { records, batch_size, committed: 0 }
    }

    /// A batch holds at least one record, and no more is committed than there is.
    pub open spec fn wf(self) -> bool {
        self.batch_size >= 1 && self.committed <= self.records.len()
    }

    /// Whether every record is committed.
    pub open spec fn finished(self) -> bool {
        self.committed >= self.records.len()
    }

    /// Where the next batch ends: a full batch further, or at the last record.
    pub open spec fn batch_end(self) -> nat {
        if self.committed + self.batch_size <= self.records.len() {
            self.committed + self.batch_size
        } else {
            self.records.len()
        }
    }

    /// The records of the next batch.
    pub open spec fn next_batch(self) -> Seq<ParsedRecord> {
        self.records.subrange(self.committed as int, self.batch_end() as int)
    }

    /// The state once the next batch is committed.
    pub open spec fn after_commit(self) -> IngestionState {
        IngestionState { committed: self.batch_end(), ..self }
    }

    /// The state once the next `count` batches are committed.
    pub open spec fn after_commits(self, count: nat) -> IngestionState
        decreases count,
    {
        if count == 0 {
            self
        } else {
            self.after_commit().after_commits((count - 1) as nat)
        }
    }

    /// The batches that a run without failures still stores, in order.
    pub open spec fn batches_left(self) -> Seq<Seq<ParsedRecord>>
        decreases self.records.len() - self.committed,
    {
        if !self.wf() || self.finished() {
            Seq::empty()
        } else {
            seq![self.next_batch()] + self.after_commit().batches_left()
        }
    }
}

/// The number of batches of `batch_size` that hold `count` records: the
/// quotient, rounded up.
pub open spec fn batch_count(count: nat, batch_size: nat) -> nat {
    ((count + batch_size - 1) / (batch_size as int)) as nat
}

/// The number of transactions of a run without failures is the number of
/// records not yet committed divided by the batch size, rounded up.
pub proof fn lemma_batch_count(state: IngestionState)
    requires
        state.wf(),
    ensures
        state.batches_left().len() == batch_count(
            (state.records.len() - state.committed) as nat,
            state.batch_size,
        ),
    decreases state.records.len() - state.committed,
{
    let size = state.batch_size as int;
    let left = state.records.len() - state.committed;
    if state.finished() {
        assert((left + size - 1) / size == 0) by (nonlinear_arith)
            requires
                left == 0,
                size >= 1,
        ;
    } else {
        let next = state.after_commit();
        lemma_batch_count(next);
        let after = next.records.len() - next.committed;
        if left >= size {
            assert(after == left - size);
            assert((left + size - 1) / size == (after + size - 1) / size + 1) by (nonlinear_arith)
                requires
                    after == left - size,
                    after >= 0,
                    size >= 1,
            ;
        } else {
            assert(after == 0);
            assert((left + size - 1) / size == 1) by (nonlinear_arith)
                requires
                    0 < left < size,
            ;
            assert((after + size - 1) / size == 0) by (nonlinear_arith)
                requires
                    after == 0,
                    size >= 1,
            ;
        }
    }
}

/// Committing `count` batches from the start commits `count` full batches of
/// records, or all records if there are fewer.
pub proof fn lemma_committed_after(state: IngestionState, count: nat)
    requires
        state.wf(),
    ensures
        state.after_commits(count).wf(),
        state.after_commits(count).records == state.records,
        state.after_commits(count).batch_size == state.batch_size,
        state.after_commits(count).committed == if state.committed + count * state.batch_size
            <= state.records.len() {
            state.committed + count * state.batch_size
        } else {
            state.records.len()
        },
    decreases count,
{
    let size = state.batch_size as int;
    if count > 0 {
        let before = (count - 1) as nat;
        lemma_committed_after(state.after_commit(), before);
        assert(count * size == before * size + size) by (nonlinear_arith)
            requires
                before == count - 1,
        ;
        assert(before * size >= 0) by (nonlinear_arith)
            requires
                before >= 0,
                size >= 1,
        ;
    } else {
        assert(count * size == 0) by (nonlinear_arith)
            requires
                count == 0,
        ;
    }
}

/// The batches of a run come in the order of the records and hold each record
/// once: the `index`-th batch is the next one after `index` commits.
pub proof fn lemma_batch_at(state: IngestionState, index: nat)
    requires
        state.wf(),
        index < state.batches_left().len(),
    ensures
        state.batches_left()[index as int] == state.after_commits(index).next_batch(),
        !state.after_commits(index).finished(),
    decreases index,
{
    if index > 0 {
        let next = state.after_commit();
        assert(state.batches_left()[index as int] == next.batches_left()[index - 1]);
        lemma_batch_at(next, (index - 1) as nat);
    }
}

/// Every batch holds at least one record and at most `batch_size`, and every
/// batch but the last is full.
pub proof fn lemma_batch_sizes(state: IngestionState, index: nat)
    requires
        state.wf(),
        index < state.batches_left().len(),
    ensures
        1 <= state.batches_left()[index as int].len() <= state.batch_size,
        index + 1 < state.batches_left().len() ==> state.batches_left()[index as int].len()
            == state.batch_size,
    decreases index,
{
    if index > 0 {
        let next = state.after_commit();
        assert(state.batches_left()[index as int] == next.batches_left()[index - 1]);
        lemma_batch_sizes(next, (index - 1) as nat);
    } else {
        let next = state.after_commit();
        if 1 < state.batches_left().len() {
            assert(next.batches_left().len() > 0);
            assert(!next.finished());
        }
    }
}

/// Nothing is lost, doubled or reordered: the batches of a run, one after the
/// other, are the records that were not committed yet.
pub proof fn lemma_batches_cover(state: IngestionState)
    requires
        state.wf(),
    ensures
        state.batches_left().flatten() == state.records.subrange(
            state.committed as int,
            state.records.len() as int,
        ),
    decreases state.records.len() - state.committed,
{
    let left = state.records.subrange(state.committed as int, state.records.len() as int);
    if state.finished() {
        assert(left =~= Seq::<ParsedRecord>::empty());
        assert(state.batches_left().flatten() =~= Seq::<ParsedRecord>::empty());
    } else {
        let next = state.after_commit();
        lemma_batches_cover(next);
        let all = state.batches_left();
        assert(all.first() == state.next_batch());
        assert(all.drop_first() =~= next.batches_left());
        assert(all.flatten() == state.next_batch() + next.batches_left().flatten());
        assert(state.next_batch() + state.records.subrange(
            next.committed as int,
            state.records.len() as int,
        ) =~= left);
    }
}

/// A run of parsed records on its way into the store.
#[derive(Debug)]
pub struct Ingestion {
    records: Vec<ParsedBookmarkWithTags>,
    batch_size: usize,
    committed: usize,
}

/// A batch that has been handed out and whose transaction has not been reported yet.
#[derive(Debug)]
pub struct PendingBatch {
    ingestion: Ingestion,
}

/// What the caller of an ingestion does next.
#[derive(Debug)]
pub enum IngestStep {
    /// Store this batch in one transaction, then report how it went.
    Flush(PendingBatch),
    /// Every record is stored: tell the observers, once, that records changed.
    Finished { count: usize },
}

/// How a run ended that the store cut short.
#[derive(Debug)]
pub struct IngestFailure {
    /// What the store said of the batch it refused.
    pub error: PersistenceError,
    /// How many records, in earlier batches, stay stored.
    pub committed: usize,
}

impl View for Ingestion {
    type V = IngestionState;

    closed spec fn view(&self) -> IngestionState {
        IngestionState {
            records: records_of(self.records@),
            batch_size: self.batch_size as nat,
            committed: self.committed as nat,
        }
    }
}

impl View for PendingBatch {
    type V = IngestionState;

    closed spec fn view(&self) -> IngestionState {
        self.ingestion@
    }
}

impl IngestStep {
    /// Whether this is the step to take in `state`: the next batch while
    /// records are left, the end with the number of records once none is.
    pub open spec fn is_step_of(self, state: IngestionState) -> bool {
        match self {
            IngestStep::Flush(pending) => !state.finished() && pending@ == state,
            IngestStep::Finished { count } => state.finished() && count == state.records.len(),
        }
    }
}

impl Ingestion {
    #[verifier::type_invariant]
    spec fn well_formed(self) -> bool {
        self@.wf()
    }

    /// Starts a run over `records` with batches of at most `batch_size`
    /// records. A batch size of zero is refused.
    pub fn new(records: Vec<ParsedBookmarkWithTags>, batch_size: usize) -> (r: Option<Ingestion>)
        ensures
            r is None <==> batch_size == 0,
            r matches Some(run) ==> run@ == IngestionState::start(
                records_of(records@),
                batch_size as nat,
            ) && run@.wf(),
    {
        if batch_size == 0 {
            None
        } else {
            Some(Ingestion { records, batch_size, committed: 0 })
        }
    }

    /// Starts a run over `records` with batches of the default size.
    pub fn with_default_batches(records: Vec<ParsedBookmarkWithTags>) -> (r: Ingestion)
        ensures
            r@ == IngestionState::start(records_of(records@), DEFAULT_BATCH_SIZE as nat),
            r@.wf(),
    {
        Ingestion { records, batch_size: DEFAULT_BATCH_SIZE, committed: 0 }
    }

    /// The next step of the run.
    pub fn step(self) -> (r: IngestStep)
        ensures
            r.is_step_of(self@),
            self@.wf(),
    {
        proof {
            use_type_invariant(&self);
        }
        if self.committed < self.records.len() {
            IngestStep::Flush(PendingBatch { ingestion: self })
        } else {
            IngestStep::Finished { count: self.records.len() }
        }
    }
}

impl PendingBatch {
    #[verifier::type_invariant]
    spec fn well_formed(self) -> bool {
        self@.wf() && !self@.finished()
    }

    /// Where the batch ends among the records.
    fn end(&self) -> (r: usize)
        ensures
            r == self@.batch_end(),
            self@.wf(),
            !self@.finished(),
    {
        proof {
            use_type_invariant(self);
        }
        let left = self.ingestion.records.len() - self.ingestion.committed;
        if self.ingestion.batch_size <= left {
            self.ingestion.committed + self.ingestion.batch_size
        } else {
            self.ingestion.records.len()
        }
    }

    /// The records to store in this transaction, in order.
    pub fn batch(&self) -> (r: Vec<ParsedBookmarkWithTags>)
        ensures
            records_of(r@) == self@.next_batch(),
            self@.wf(),
            !self@.finished(),
    {
        let end = self.end();
        let start = self.ingestion.committed;
        let mut batch: Vec<ParsedBookmarkWithTags> = Vec::new();
        let mut i: usize = start;
        while i < end
            invariant
                start <= i <= end,
                end <= self.ingestion.records@.len(),
                records_of(batch@) == records_of(self.ingestion.records@).subrange(
                    start as int,
                    i as int,
                ),
            decreases end - i,
        {
            let ghost copied = records_of(batch@);
            let record = self.ingestion.records[i].clone();
            batch.push(record);
            assert(records_of(batch@) =~= copied.push(self.ingestion.records@[i as int]@));
            assert(copied.push(self.ingestion.records@[i as int]@) =~= records_of(
                self.ingestion.records@,
            ).subrange(start as int, i + 1));
            i = i + 1;
        }
        batch
    }

    /// Reports that the batch is stored, and gives the next step.
    pub fn committed(self) -> (r: IngestStep)
        ensures
            r.is_step_of(self@.after_commit()),
    {
        let end = self.end();
        let next = Ingestion {
            records: self.ingestion.records,
            batch_size: self.ingestion.batch_size,
            committed: end,
        };
        next.step()
    }

    /// Reports that the store refused the batch and kept nothing of it. The
    /// run ends here: later batches are not stored, earlier ones stay.
    pub fn rolled_back(self, reason: String) -> (r: IngestFailure)
        ensures
            r.error.message == reason,
            r.committed == self@.committed,
    {
        IngestFailure {
            error: PersistenceError { message: reason },
            committed: self.ingestion.committed,
        }
    }
}

/// The tag rows for a list of tags and the identifier of a stored bookmark:
/// one row for each tag, in order, each linked to that identifier.
pub open spec fn rows_of(tags: Seq<Seq<char>>, bookmark_id: int) -> Seq<(int, Seq<char>)> {
    Seq::new(tags.len(), |i: int| (bookmark_id, tags[i]))
}

/// The tag rows of a list, as pairs of identifier and name.
pub open spec fn rows_view(rows: Seq<TagNew>) -> Seq<(int, Seq<char>)> {
    Seq::new(rows.len(), |i: int| (rows[i].bookmark_id as int, rows[i].tag_name@))
}

/// Builds the tag rows that link each of `tags` to a stored bookmark. The
/// store is to pass over a row that it already holds.
pub fn rows_for_tags(tags: &Vec<String>, bookmark_id: i32) -> (rows: Vec<TagNew>)
    ensures
        rows_view(rows@) == rows_of(texts_of(tags@), bookmark_id as int),
{
    let mut rows: Vec<TagNew> = Vec::new();
    let mut i: usize = 0;
    while i < tags.len()
        invariant
            i <= tags@.len(),
            rows@.len() == i,
            forall|k: int|
                0 <= k < i ==> (#[trigger] rows@[k]).bookmark_id == bookmark_id
                    && rows@[k].tag_name@ == tags@[k]@,
        decreases tags.len() - i,
    {
        rows.push(TagNew { bookmark_id, tag_name: tags[i].clone() });
        i = i + 1;
    }
    assert(rows_view(rows@) =~= rows_of(texts_of(tags@), bookmark_id as int));
    rows
}

/// Builds the tag rows for the tags that the user typed: as `rows_for_tags`,
/// with the empty tags left out.
pub fn rows_for_named_tags(tags: &Vec<String>, bookmark_id: i32) -> (rows: Vec<TagNew>)
    ensures
        rows_view(rows@) == rows_of(
            texts_of(tags@).filter(|tag: Seq<char>| tag.len() > 0),
            bookmark_id as int,
        ),
{
    let ghost named = |tag: Seq<char>| tag.len() > 0;
    let ghost all = texts_of(tags@);
    let mut rows: Vec<TagNew> = Vec::new();
    let mut i: usize = 0;
    proof {
        assert(all.subrange(0, 0) =~= Seq::empty());
        reveal_with_fuel(Seq::filter, 1);
        assert(rows_view(rows@) =~= rows_of(all.subrange(0, 0).filter(named), bookmark_id as int));
    }
    while i < tags.len()
        invariant
            i <= tags@.len(),
            all == texts_of(tags@),
            named == |tag: Seq<char>| tag.len() > 0,
            rows_view(rows@) == rows_of(
                all.subrange(0, i as int).filter(named),
                bookmark_id as int,
            ),
        decreases tags.len() - i,
    {
        let ghost seen = all.subrange(0, i as int);
        let ghost before = rows_view(rows@);
        proof {
            assert(all.subrange(0, i + 1) =~= seen.push(tags@[i as int]@));
            seen.lemma_filter_push(tags@[i as int]@, named);
        }
        if !tags[i].as_str().is_empty() {
            rows.push(TagNew { bookmark_id, tag_name: tags[i].clone() });
            proof {
                assert(rows_view(rows@) =~= before.push((bookmark_id as int, tags@[i as int]@)));
                assert(before.push((bookmark_id as int, tags@[i as int]@)) =~= rows_of(
                    seen.filter(named).push(tags@[i as int]@),
                    bookmark_id as int,
                ));
            }
        }
        i = i + 1;
    }
    proof {
        assert(all.subrange(0, i as int) =~= all);
    }
    rows
}

/// The tag rows to store for a record once the store has given the record's
/// identifier: one row for each of the record's tags.
pub fn tag_rows(record: &ParsedBookmarkWithTags, bookmark_id: i32) -> (rows: Vec<TagNew>)
    ensures
        rows_view(rows@) == rows_of(record@.tags, bookmark_id as int),
{
    rows_for_tags(&record.tags, bookmark_id)
}

} // verus!
