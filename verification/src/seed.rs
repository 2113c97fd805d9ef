//! Seeding the store from CSV data: at once, or as a header followed by
//! chunks.

use vstd::prelude::*;
use arrow_schema::ArrowError;
use crate::csv::{CsvBatch, CsvSchema, csv_batch_rows, csv_inferred_fields, infer_csv_schema, read_csv, read_origin};
use crate::store::{DataStore, StoreError, StoredBatch, rows_of, stored};

verus! {

/// Why a seeding step fails.
#[derive(Debug)]
pub enum SeedError {
    /// The store refuses the step.
    Store(StoreError),
    /// Arrow could not read the CSV data.
    Csv(ArrowError),
}

/// Every stored batch was read with the stored schema.
pub open spec fn batches_read_with_schema(store: DataStore<CsvSchema, CsvBatch>) -> bool {
    match (store.schema, store.batches) {
        (Some(s), Some(v)) => forall|i: int|
            0 <= i < v.len() ==> (#[trigger] v@[i]).batch.origin().0 == s.views(),
        _ => true,
    }
}

/// Initialize the streaming seed: store the schema inferred from the CSV
/// header and no batches; when the schema cannot be inferred, fail and
/// change nothing.
pub fn seed_start(store: &mut DataStore<CsvSchema, CsvBatch>, header_bytes: &[u8]) -> (res:
    Result<(), ArrowError>)
    ensures
        match res {
            Ok(()) => {
                &&& final(store).schema is Some
                &&& csv_inferred_fields(header_bytes@) == Some(final(store).schema.unwrap().views())
                &&& stored(final(store).batches) == Some(Seq::<StoredBatch<CsvBatch>>::empty())
            },
            Err(_) => csv_inferred_fields(header_bytes@) is None && *final(store) == *old(store),
        },
        final(store).wf() || *final(store) == *old(store),
        batches_read_with_schema(*old(store)) ==> batches_read_with_schema(*final(store)),
{
    let schema = infer_csv_schema(header_bytes)?;
    store.start(schema);
    Ok(())
}

/// Process and append a chunk of CSV data, read with the stored schema:
/// without a schema, or when the chunk cannot be read, fail and change
/// nothing.
pub fn seed_chunk(store: &mut DataStore<CsvSchema, CsvBatch>, chunk_bytes: &[u8], has_header: bool) -> (res:
    Result<(), SeedError>)
    ensures
        old(store).schema is None ==> *final(store) == *old(store) && res matches Err(
            SeedError::Store(StoreError::SchemaNotInitialized),
        ),
        old(store).schema is Some ==> match csv_batch_rows(
            old(store).schema.unwrap().views(),
            chunk_bytes@,
            has_header,
        ) {
            None => *final(store) == *old(store) && res matches Err(SeedError::Csv(_)),
            Some(rows) => {
                &&& res is Ok
                &&& final(store).schema == old(store).schema
                &&& match stored(old(store).batches) {
                    Some(v) => stored(final(store).batches) matches Some(w) && w.len() == v.len()
                        + rows.len() && w.take(v.len() as int) == v && rows_of(w.skip(v.len() as int))
                        == rows && forall|i: int|
                        v.len() <= i < w.len() ==> (#[trigger] w[i]).batch.origin() == read_origin(
                            old(store).schema.unwrap().views(),
                            chunk_bytes@,
                            has_header,
                            i - v.len(),
                        ),
                    None => final(store).batches is None,
                }
            },
        },
        old(store).wf() ==> final(store).wf(),
        batches_read_with_schema(*old(store)) ==> batches_read_with_schema(*final(store)),
{
    let read = match store.chunk_schema() {
        Ok(schema) => match read_csv(chunk_bytes, schema, has_header) {
            Ok(read) => read,
            Err(e) => {
                return Err(SeedError::Csv(e));
            },
        },
        Err(e) => {
            return Err(SeedError::Store(e));
        },
    };
    let ghost before = stored(store.batches);
    let ghost new_batches = read@;
    let appended = store.append(read);
    proof {
        if let Some(v) = before {
            let w = v + new_batches;
            assert(w.take(v.len() as int) =~= v);
            assert(w.skip(v.len() as int) =~= new_batches);
        }
    }
    match appended {
        Ok(()) => Ok(()),
        Err(e) => Err(SeedError::Store(e)),
    }
}

/// Store the schema inferred from CSV data with a header and the batches
/// read from it; when either step fails, fail and change nothing.
pub fn seed(store: &mut DataStore<CsvSchema, CsvBatch>, bytes: &[u8]) -> (res: Result<(), ArrowError>)
    ensures
        match res {
            Ok(()) => {
                &&& csv_inferred_fields(bytes@) is Some
                &&& final(store).schema is Some
                &&& csv_inferred_fields(bytes@) == Some(final(store).schema.unwrap().views())
                &&& stored(final(store).batches) is Some
                &&& csv_batch_rows(csv_inferred_fields(bytes@).unwrap(), bytes@, true) == Some(
                    rows_of(final(store).batches.unwrap()@),
                )
                &&& forall|i: int|
                    0 <= i < final(store).batches.unwrap().len() ==> (#[trigger] final(store).batches.unwrap()@[i]).batch.origin() == read_origin(
                        csv_inferred_fields(bytes@).unwrap(),
                        bytes@,
                        true,
                        i,
                    )
            },
            Err(_) => {
                &&& *final(store) == *old(store)
                &&& (csv_inferred_fields(bytes@) is None || csv_batch_rows(
                    csv_inferred_fields(bytes@).unwrap(),
                    bytes@,
                    true,
                ) is None)
            },
        },
        res is Ok ==> final(store).wf() && batches_read_with_schema(*final(store)),
        batches_read_with_schema(*old(store)) ==> batches_read_with_schema(*final(store)),
{
    let schema = infer_csv_schema(bytes)?;
    let batches = read_csv(bytes, &schema, true)?;
    store.replace(schema, batches);
    Ok(())
}

} // verus!
