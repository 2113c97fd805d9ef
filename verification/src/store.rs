//! The stored data: a schema and the record batches read so far, and what
//! each seeding step does to them.

use vstd::prelude::*;
use crate::window::total_rows;

verus! {

/// A record batch together with its number of rows.
pub struct StoredBatch<B> {
    pub batch: B,
    pub rows: usize,
}

impl<B> StoredBatch<B> {
    /// A batch with its row count.
    pub fn new(batch: B, rows: usize) -> (s: Self)
        ensures
            s.batch == batch,
            s.rows == rows,
    {
        StoredBatch { batch, rows }
    }
}

/// The stored schema and batches; each is absent until seeding sets it.
pub struct DataStore<S, B> {
    pub schema: Option<S>,
    pub batches: Option<Vec<StoredBatch<B>>>,
}

/// Why a request on the store fails.
#[derive(Clone, Copy, Debug, PartialEq, Eq, Structural)]
pub enum StoreError {
    /// A chunk came before the streaming seed was started.
    SchemaNotInitialized,
    /// Nothing has been seeded yet.
    NoSchema,
    /// No batches are stored.
    NoBatches,
}

/// The message that each store error is reported with.
pub open spec fn store_error_message(e: StoreError) -> Seq<char> {
    match e {
        StoreError::SchemaNotInitialized => "Schema not initialized. Call seed_start first."@,
        StoreError::NoSchema => "No schema stored. Call seed() first."@,
        StoreError::NoBatches => "No batches stored."@,
    }
}

impl StoreError {
    /// The message that this error is reported with.
    pub fn message(&self) -> (m: &'static str)
        ensures
            m@ == store_error_message(*self),
    {
        match self {
            StoreError::SchemaNotInitialized => "Schema not initialized. Call seed_start first.",
            StoreError::NoSchema => "No schema stored. Call seed() first.",
            StoreError::NoBatches => "No batches stored.",
        }
    }
}

/// The row counts of a list of stored batches.
pub open spec fn rows_of<B>(batches: Seq<StoredBatch<B>>) -> Seq<usize> {
    batches.map_values(|b: StoredBatch<B>| b.rows)
}

/// The stored batches, as a sequence, where there are any.
pub open spec fn stored<B>(batches: Option<Vec<StoredBatch<B>>>) -> Option<Seq<StoredBatch<B>>> {
    match batches {
        Some(v) => Some(v@),
        None => None,
    }
}

impl<S, B> DataStore<S, B> {
    /// Every state that the seeding steps reach holds a schema exactly when
    /// it holds batches.
    pub open spec fn wf(&self) -> bool {
        self.schema is Some <==> self.batches is Some
    }

    /// A store with nothing in it.
    pub fn new() -> (store: Self)
        ensures
            store.schema is None,
            store.batches is None,
            store.wf(),
    {
        DataStore { schema: None, batches: None }
    }

    /// Store a schema and no batches.
    pub fn start(&mut self, schema: S)
        ensures
            final(self).schema == Some(schema),
            stored(final(self).batches) == Some(Seq::<StoredBatch<B>>::empty()),
            final(self).wf(),
    {
        self.schema = Some(schema);
        self.batches = Some(Vec::new());
    }

    /// Append batches to the stored ones; without a schema, fail and change nothing.
    pub fn append(&mut self, new_batches: Vec<StoredBatch<B>>) -> (res: Result<(), StoreError>)
        ensures
            old(self).schema is None ==> res == Err::<(), StoreError>(
                StoreError::SchemaNotInitialized,
            ) && *final(self) == *old(self),
            old(self).schema is Some ==> res is Ok && match stored(old(self).batches) {
                Some(v) => stored(final(self).batches) == Some(v + new_batches@),
                None => final(self).batches is None,
            },
            final(self).schema == old(self).schema,
            old(self).wf() ==> final(self).wf(),
    {
        if self.schema.is_none() {
            return Err(StoreError::SchemaNotInitialized);
        }
        match &mut self.batches {
            Some(batches) => {
                let mut new_batches = new_batches;
                batches.append(&mut new_batches);
            },
            None => {},
        }
        Ok(())
    }

    /// Replace the stored schema and batches.
    pub fn replace(&mut self, schema: S, batches: Vec<StoredBatch<B>>)
        ensures
            final(self).schema == Some(schema),
            stored(final(self).batches) == Some(batches@),
            final(self).wf(),
    {
        self.schema = Some(schema);
        self.batches = Some(batches);
    }

    /// The schema that a chunk of the streaming seed is read with.
    pub fn chunk_schema(&self) -> (res: Result<&S, StoreError>)
        ensures
            match res {
                Ok(s) => self.schema == Some(*s),
                Err(e) => self.schema is None && e == StoreError::SchemaNotInitialized,
            },
    {
        match &self.schema {
            Some(s) => Ok(s),
            None => Err(StoreError::SchemaNotInitialized),
        }
    }

    /// The stored schema, for metadata and queries.
    pub fn stored_schema(&self) -> (res: Result<&S, StoreError>)
        ensures
            match res {
                Ok(s) => self.schema == Some(*s),
                Err(e) => self.schema is None && e == StoreError::NoSchema,
            },
    {
        match &self.schema {
            Some(s) => Ok(s),
            None => Err(StoreError::NoSchema),
        }
    }

    /// The stored batches, for queries.
    pub fn stored_batches(&self) -> (res: Result<&Vec<StoredBatch<B>>, StoreError>)
        ensures
            match res {
                Ok(v) => self.batches == Some(*v),
                Err(e) => self.batches is None && e == StoreError::NoBatches,
            },
    {
        match &self.batches {
            Some(v) => Ok(v),
            None => Err(StoreError::NoBatches),
        }
    }
}

/// The number of rows stored, 0 when nothing is.
pub open spec fn finalized_rows<S, B>(store: DataStore<S, B>) -> int {
    match stored(store.batches) {
        Some(v) => total_rows(rows_of(v)),
        None => 0,
    }
}

/// Finalize the streaming seed: the number of rows stored (0 when nothing is).
pub fn seed_finalize<S, B>(store: &DataStore<S, B>) -> (total: usize)
    requires
        store.batches matches Some(v) ==> total_rows(rows_of(v@)) <= usize::MAX,
    ensures
        total == finalized_rows(*store),
{
    match &store.batches {
        Some(batches) => {
            let mut sum: usize = 0;
            let mut i: usize = 0;
            while i < batches.len()
                invariant
                    i <= batches.len(),
                    total_rows(rows_of(batches@)) <= usize::MAX,
                    sum == total_rows(rows_of(batches@.take(i as int))),
                decreases batches.len() - i,
            {
                proof {
                    lemma_rows_of_take_succ(batches@, i as int);
                    lemma_total_rows_of_take_le(batches@, i + 1);
                }
                sum = sum + batches[i].rows;
                i = i + 1;
            }
            proof {
                assert(batches@.take(batches.len() as int) =~= batches@);
            }
            sum
        },
        None => 0,
    }
}

/// The row count of each stored batch, in order.
pub fn batch_row_counts<B>(batches: &Vec<StoredBatch<B>>) -> (rows: Vec<usize>)
    ensures
        rows@ == rows_of(batches@),
{
    let mut rows: Vec<usize> = Vec::new();
    let mut i: usize = 0;
    while i < batches.len()
        invariant
            i <= batches.len(),
            rows@ == rows_of(batches@.take(i as int)),
        decreases batches.len() - i,
    {
        rows.push(batches[i].rows);
        i = i + 1;
        assert(rows@ =~= rows_of(batches@.take(i as int)));
    }
    assert(batches@.take(batches.len() as int) =~= batches@);
    rows
}

proof fn lemma_rows_of_take_succ<B>(batches: Seq<StoredBatch<B>>, i: int)
    requires
        0 <= i < batches.len(),
    ensures
        total_rows(rows_of(batches.take(i + 1))) == total_rows(rows_of(batches.take(i)))
            + batches[i].rows,
{
    assert(rows_of(batches.take(i + 1)).drop_last() =~= rows_of(batches.take(i)));
}

proof fn lemma_total_rows_of_take_le<B>(batches: Seq<StoredBatch<B>>, i: int)
    requires
        0 <= i <= batches.len(),
    ensures
        total_rows(rows_of(batches.take(i))) <= total_rows(rows_of(batches)),
    decreases batches.len() - i,
{
    if i < batches.len() {
        lemma_total_rows_of_take_le(batches, i + 1);
        lemma_rows_of_take_succ(batches, i);
    } else {
        assert(batches.take(i) =~= batches);
    }
}

/// Law: the rows counted after a chunk is appended are the rows counted
/// before and the rows of the chunk.
pub proof fn lemma_chunk_rows_add<B>(stored: Seq<StoredBatch<B>>, chunk: Seq<StoredBatch<B>>)
    ensures
        total_rows(rows_of(stored + chunk)) == total_rows(rows_of(stored)) + total_rows(
            rows_of(chunk),
        ),
    decreases chunk.len(),
{
    if chunk.len() > 0 {
        lemma_chunk_rows_add(stored, chunk.drop_last());
        assert((stored + chunk).drop_last() =~= stored + chunk.drop_last());
        assert(rows_of(stored + chunk).drop_last() =~= rows_of((stored + chunk).drop_last()));
        assert(rows_of(chunk).drop_last() =~= rows_of(chunk.drop_last()));
    } else {
        assert(stored + chunk =~= stored);
        assert(rows_of(chunk) =~= Seq::<usize>::empty());
    }
}


/// Law: when batches with these row counts are appended after the stored
/// ones, finalizing counts the rows it counted before and the appended rows.
pub proof fn lemma_finalize_after_append<S, B>(
    before: DataStore<S, B>,
    after: DataStore<S, B>,
    appended: Seq<usize>,
)
    requires
        stored(before.batches) matches Some(v) && stored(after.batches) matches Some(w) && w.len()
            == v.len() + appended.len() && w.take(v.len() as int) == v && rows_of(
            w.skip(v.len() as int),
        ) == appended,
    ensures
        finalized_rows(after) == finalized_rows(before) + total_rows(appended),
{
    let v = stored(before.batches).unwrap();
    let w = stored(after.batches).unwrap();
    lemma_chunk_rows_add(v, w.skip(v.len() as int));
    assert(v + w.skip(v.len() as int) =~= w);
}

} // verus!
