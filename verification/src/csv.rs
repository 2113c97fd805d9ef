//! Reading CSV data with Arrow: the schema inferred from CSV text with a
//! header, and the record batches read from CSV text with such a schema,
//! each tagged with where it was read from.

use vstd::prelude::*;
use std::sync::Arc;
use arrow_schema::{ArrowError, Schema};
use crate::store::{StoredBatch, rows_of};

verus! {

#[verifier::external_type_specification]
#[verifier::external_body]
pub struct ExSchema(Schema);

#[verifier::external_type_specification]
#[verifier::external_body]
pub struct ExArrowError(ArrowError);

/// An Arrow record batch, carried as it is.
#[verifier::external_body]
pub struct ArrowBatch {
    pub inner: arrow_array::RecordBatch,
}

/// A record batch read from CSV text, with where it was read from: the
/// fields of the schema it was read with, the bytes, whether those had a
/// header row, and its position among the batches read from them. Only
/// `read_csv` makes one, so the origin always names the read that gave the
/// batch.
pub struct CsvBatch {
    arrow: ArrowBatch,
    origin: Ghost<(Seq<(Seq<char>, Seq<char>, bool)>, Seq<u8>, bool, int)>,
}

impl CsvBatch {
    /// Where the batch was read from.
    pub closed spec fn origin(&self) -> (Seq<(Seq<char>, Seq<char>, bool)>, Seq<u8>, bool, int) {
        self.origin@
    }

    /// The Arrow record batch.
    pub fn arrow(&self) -> &ArrowBatch {
        &self.arrow
    }
}

/// A field of a schema read from CSV: its name, the debug text of its Arrow
/// data type (such as `Int64` or `Timestamp(Second, None)`) and whether it
/// is nullable.
pub struct CsvField {
    pub name: String,
    pub type_text: String,
    pub nullable: bool,
}

/// A field as plain values.
pub open spec fn field_view(f: CsvField) -> (Seq<char>, Seq<char>, bool) {
    (f.name@, f.type_text@, f.nullable)
}

/// Fields as plain values.
pub open spec fn field_views(fs: Seq<CsvField>) -> Seq<(Seq<char>, Seq<char>, bool)> {
    fs.map_values(|f: CsvField| field_view(f))
}

/// A schema inferred from CSV data: the Arrow schema and its fields. Only
/// `infer_csv_schema` makes one, so the fields always describe the Arrow
/// schema beside them (which carries no metadata).
pub struct CsvSchema {
    schema: Arc<Schema>,
    fields: Vec<CsvField>,
}

impl CsvSchema {
    /// The fields, as plain values.
    pub closed spec fn views(&self) -> Seq<(Seq<char>, Seq<char>, bool)> {
        field_views(self.fields@)
    }

    /// The fields, in order.
    pub fn fields(&self) -> (f: &Vec<CsvField>)
        ensures
            field_views(f@) == self.views(),
    {
        &self.fields
    }

    /// The Arrow schema.
    pub fn arrow_schema(&self) -> &Arc<Schema> {
        &self.schema
    }
}

/// The fields of the schema that Arrow infers from CSV text with a header
/// row (`Format::default().with_header(true).infer_schema`), or `None` where
/// inference fails.
pub uninterp spec fn csv_inferred_fields(bytes: Seq<u8>) -> Option<Seq<(Seq<char>, Seq<char>, bool)>>;

/// The row counts of the batches, in order, that Arrow's CSV reader gives
/// for `bytes` read with the schema of these fields, with or without a
/// header row, or `None` where reading fails.
pub uninterp spec fn csv_batch_rows(
    fields: Seq<(Seq<char>, Seq<char>, bool)>,
    bytes: Seq<u8>,
    has_header: bool,
) -> Option<Seq<usize>>;

/// Calls `arrow_csv::reader::Format::infer_schema` on the bytes, with a
/// header row and no record limit; the result is a function of the bytes,
/// named `csv_inferred_fields`. Each field's data type is kept as its debug
/// text.
#[verifier::external_body]
pub(crate) fn infer_csv_schema(bytes: &[u8]) -> (res: Result<CsvSchema, ArrowError>)
    ensures
        match res {
            Ok(s) => csv_inferred_fields(bytes@) == Some(s.views()),
            Err(_) => csv_inferred_fields(bytes@) is None,
        },
{
    let format = arrow_csv::reader::Format::default().with_header(true);
    let (schema, _) = format.infer_schema(&mut std::io::Cursor::new(bytes), None)?;
    let fields = schema.fields().iter().map(|f| CsvField {
        name: f.name().clone(),
        type_text: format!("{:?}", f.data_type()),
        nullable: f.is_nullable(),
    }).collect();
    Ok(CsvSchema { schema: Arc::new(schema), fields })
}

/// Calls `arrow_csv::ReaderBuilder::build` with the schema and the header
/// flag and collects the batches in the order the reader yields them, each
/// with its `num_rows()` and, as its origin, the schema's fields, the bytes,
/// the flag and its position in that order; the row counts are a function
/// of the schema's fields, the bytes and the flag, named `csv_batch_rows`.
#[verifier::external_body]
pub(crate) fn read_csv(bytes: &[u8], schema: &CsvSchema, has_header: bool) -> (res: Result<
    Vec<StoredBatch<CsvBatch>>,
    ArrowError,
>)
    ensures
        match res {
            Ok(v) => {
                &&& csv_batch_rows(schema.views(), bytes@, has_header) == Some(rows_of(v@))
                &&& forall|i: int|
                    0 <= i < v.len() ==> (#[trigger] v@[i]).batch.origin() == read_origin(
                        schema.views(),
                        bytes@,
                        has_header,
                        i,
                    )
            },
            Err(_) => csv_batch_rows(schema.views(), bytes@, has_header) is None,
        },
{
    let reader = arrow_csv::ReaderBuilder::new(Arc::clone(&schema.schema))
        .with_header(has_header)
        .build(std::io::Cursor::new(bytes))?;
    let batches = reader.collect::<Result<Vec<_>, ArrowError>>()?;
    Ok(batches.into_iter().enumerate().map(|(i, b)| StoredBatch {
        rows: b.num_rows(),
        batch: CsvBatch {
            arrow: ArrowBatch { inner: b },
            origin: Ghost(read_origin(schema.views(), bytes@, has_header, i as int)),
        },
    }).collect())
}

/// The origin of the batch at position `i` among those read from `bytes`
/// with the schema of `fields`.
pub open spec fn read_origin(
    fields: Seq<(Seq<char>, Seq<char>, bool)>,
    bytes: Seq<u8>,
    has_header: bool,
    i: int,
) -> (Seq<(Seq<char>, Seq<char>, bool)>, Seq<u8>, bool, int) {
    (fields, bytes, has_header, i)
}

} // verus!
