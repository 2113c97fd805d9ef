//! Which raw buffers of a column are handed out, and under which label.

use vstd::prelude::*;
use crate::column_type::ColumnType;

verus! {

/// What the extraction reads of an Arrow array: its type, length, null
/// count, the bytes of its validity bitmap (if it has one) and the bytes of
/// each of its data buffers, in Arrow's order.
pub struct ColumnData {
    pub data_type: ColumnType,
    pub len: usize,
    pub null_count: usize,
    pub null_bitmap: Option<Vec<u8>>,
    pub buffers: Vec<Vec<u8>>,
}

/// A column of a batch together with the name of its field.
pub struct NamedColumn {
    pub name: String,
    pub column: ColumnData,
}

/// The buffers of one column as they are handed out: name, data type
/// label, length, null count, validity bitmap, value bytes and, for string
/// columns, offset bytes.
pub struct ColumnBuffers {
    pub name: String,
    pub data_type: &'static str,
    pub length: usize,
    pub null_count: usize,
    pub null_bitmap: Option<Vec<u8>>,
    pub values: Vec<u8>,
    pub offsets: Option<Vec<u8>>,
}

/// Why a column's buffers cannot be handed out.
#[derive(Clone, Copy, Debug, PartialEq, Eq, Structural)]
pub enum ExtractError {
    /// The column's data type has no buffer layout here.
    UnsupportedType(ColumnType),
}

/// The label under which a column type's buffers are handed out, or `None`
/// where the type is not supported.
pub open spec fn buffer_label(t: ColumnType) -> Option<Seq<char>> {
    match t {
        ColumnType::Int8 | ColumnType::UInt8 => Some("Int8"@),
        ColumnType::Int16 | ColumnType::UInt16 => Some("Int16"@),
        ColumnType::Int32 | ColumnType::UInt32 => Some("Int32"@),
        ColumnType::Int64 | ColumnType::UInt64 => Some("Int64"@),
        ColumnType::Float32 => Some("Float32"@),
        ColumnType::Float64 => Some("Float64"@),
        ColumnType::Boolean => Some("Boolean"@),
        ColumnType::Utf8 => Some("Utf8"@),
        ColumnType::LargeUtf8 => Some("LargeUtf8"@),
        ColumnType::Date32 | ColumnType::Date64 => Some("Date"@),
        ColumnType::Timestamp => Some("Timestamp"@),
        _ => None,
    }
}

/// String columns hand out an offsets buffer (their first buffer) and a
/// values buffer (their second); the others hand out their first buffer as
/// values.
pub open spec fn has_offsets(t: ColumnType) -> bool {
    t == ColumnType::Utf8 || t == ColumnType::LargeUtf8
}

/// The column has the data buffers that its type's layout reads.
pub open spec fn has_layout_buffers(col: ColumnData) -> bool {
    buffer_label(col.data_type) is Some ==> col.buffers.len() >= (if has_offsets(col.data_type) {
        2int
    } else {
        1int
    })
}

/// The bytes of an optional buffer.
pub open spec fn opt_bytes(b: Option<Vec<u8>>) -> Option<Seq<u8>> {
    match b {
        Some(v) => Some(v@),
        None => None,
    }
}

/// `out` is what a supported column `col` named `name` is handed out as.
pub open spec fn extracted(out: ColumnBuffers, name: Seq<char>, col: ColumnData) -> bool {
    &&& buffer_label(col.data_type) == Some(out.data_type@)
    &&& out.name@ == name
    &&& out.length == col.len
    &&& out.null_count == col.null_count
    &&& opt_bytes(out.null_bitmap) == opt_bytes(col.null_bitmap)
    &&& if has_offsets(col.data_type) {
        &&& out.offsets is Some
        &&& out.offsets.unwrap()@ == col.buffers@[0]@
        &&& out.values@ == col.buffers@[1]@
    } else {
        &&& out.offsets is None
        &&& out.values@ == col.buffers@[0]@
    }
}

fn copy_bytes(bytes: &Vec<u8>) -> (out: Vec<u8>)
    ensures
        out@ == bytes@,
{
    let mut out: Vec<u8> = Vec::new();
    let mut i: usize = 0;
    while i < bytes.len()
        invariant
            i <= bytes.len(),
            out@ == bytes@.take(i as int),
        decreases bytes.len() - i,
    {
        out.push(bytes[i]);
        i = i + 1;
        assert(out@ =~= bytes@.take(i as int));
    }
    assert(bytes@.take(bytes.len() as int) =~= bytes@);
    out
}

fn copy_opt_bytes(bytes: &Option<Vec<u8>>) -> (out: Option<Vec<u8>>)
    ensures
        opt_bytes(out) == opt_bytes(*bytes),
{
    match bytes {
        Some(b) => Some(copy_bytes(b)),
        None => None,
    }
}

/// The label of a supported column type, `None` for the others.
fn label_of(t: ColumnType) -> (label: Option<&'static str>)
    ensures
        match label {
            Some(l) => buffer_label(t) == Some(l@),
            None => buffer_label(t) is None,
        },
{
    match t {
        ColumnType::Int8 | ColumnType::UInt8 => Some("Int8"),
        ColumnType::Int16 | ColumnType::UInt16 => Some("Int16"),
        ColumnType::Int32 | ColumnType::UInt32 => Some("Int32"),
        ColumnType::Int64 | ColumnType::UInt64 => Some("Int64"),
        ColumnType::Float32 => Some("Float32"),
        ColumnType::Float64 => Some("Float64"),
        ColumnType::Boolean => Some("Boolean"),
        ColumnType::Utf8 => Some("Utf8"),
        ColumnType::LargeUtf8 => Some("LargeUtf8"),
        ColumnType::Date32 | ColumnType::Date64 => Some("Date"),
        ColumnType::Timestamp => Some("Timestamp"),
        _ => None,
    }
}

/// Whether the column has the data buffers that its type's layout reads.
pub fn column_has_layout_buffers(column: &ColumnData) -> (b: bool)
    ensures
        b == has_layout_buffers(*column),
{
    match label_of(column.data_type) {
        Some(_) => {
            let needed: usize = match column.data_type {
                ColumnType::Utf8 | ColumnType::LargeUtf8 => 2,
                _ => 1,
            };
            column.buffers.len() >= needed
        },
        None => true,
    }
}

/// Extract buffers from a single column
pub fn extract_single_column(name: &str, column: &ColumnData) -> (res: Result<
    ColumnBuffers,
    ExtractError,
>)
    requires
        has_layout_buffers(*column),
    ensures
        match res {
            Ok(out) => extracted(out, name@, *column),
            Err(e) => buffer_label(column.data_type) is None && e == ExtractError::UnsupportedType(
                column.data_type,
            ),
        },
{
    let label = match label_of(column.data_type) {
        Some(l) => l,
        None => {
            return Err(ExtractError::UnsupportedType(column.data_type));
        },
    };
    let null_bitmap = copy_opt_bytes(&column.null_bitmap);
    let is_string = match column.data_type {
        ColumnType::Utf8 | ColumnType::LargeUtf8 => true,
        _ => false,
    };
    let (values, offsets) = if is_string {
        (copy_bytes(&column.buffers[1]), Some(copy_bytes(&column.buffers[0])))
    } else {
        (copy_bytes(&column.buffers[0]), None)
    };
    Ok(
        ColumnBuffers {
            name: String::from_str(name),
            data_type: label,
            length: column.len,
            null_count: column.null_count,
            null_bitmap,
            values,
            offsets,
        },
    )
}

/// Extract the buffers of every column of a batch, in column order
pub fn extract_column_buffers(columns: &Vec<NamedColumn>) -> (res: Result<
    Vec<ColumnBuffers>,
    ExtractError,
>)
    requires
        forall|i: int| 0 <= i < columns.len() ==> has_layout_buffers(#[trigger] columns@[i].column),
    ensures
        match res {
            Ok(out) => {
                &&& out.len() == columns.len()
                &&& forall|i: int|
                    0 <= i < columns.len() ==> extracted(
                        #[trigger] out@[i],
                        columns@[i].name@,
                        columns@[i].column,
                    )
            },
            Err(e) => exists|k: int|
                0 <= k < columns.len() && buffer_label(#[trigger] columns@[k].column.data_type) is None
                    && e == ExtractError::UnsupportedType(columns@[k].column.data_type) && forall|
                    j: int,
                |
                    0 <= j < k ==> buffer_label(#[trigger] columns@[j].column.data_type) is Some,
        },
{
    let mut out: Vec<ColumnBuffers> = Vec::new();
    let mut i: usize = 0;
    while i < columns.len()
        invariant
            i <= columns.len(),
            forall|j: int| 0 <= j < columns.len() ==> has_layout_buffers(#[trigger] columns@[j].column),
            out.len() == i,
            forall|j: int|
                0 <= j < i ==> extracted(#[trigger] out@[j], columns@[j].name@, columns@[j].column),
        decreases columns.len() - i,
    {
        let entry = &columns[i];
        let buffers = extract_single_column(entry.name.as_str(), &entry.column);
        match buffers {
            Ok(b) => {
                out.push(b);
            },
            Err(e) => {
                assert forall|j: int| 0 <= j < i implies buffer_label(
                    #[trigger] columns@[j].column.data_type,
                ) is Some by {
                    assert(extracted(out@[j], columns@[j].name@, columns@[j].column));
                }
                return Err(e);
            },
        }
        i = i + 1;
    }
    Ok(out)
}

} // verus!
