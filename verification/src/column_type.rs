//! Column data types and their simple names.

use vstd::prelude::*;
use vstd::string::*;

verus! {

/// The logical type of a column: one variant for each Arrow `DataType`
/// variant, without the variant's parameters.
#[derive(Clone, Copy, Debug, PartialEq, Eq, Structural)]
pub enum ColumnType {
    Null,
    Boolean,
    Int8,
    Int16,
    Int32,
    Int64,
    UInt8,
    UInt16,
    UInt32,
    UInt64,
    Float16,
    Float32,
    Float64,
    Timestamp,
    Date32,
    Date64,
    Time32,
    Time64,
    Duration,
    Interval,
    Binary,
    FixedSizeBinary,
    LargeBinary,
    BinaryView,
    Utf8,
    LargeUtf8,
    Utf8View,
    List,
    ListView,
    FixedSizeList,
    LargeList,
    LargeListView,
    Struct,
    Union,
    Dictionary,
    Decimal32,
    Decimal64,
    Decimal128,
    Decimal256,
    MapType,
    RunEndEncoded,
    /// A data type that none of the other variants names.
    Other,
}

/// The simple type name that the metadata reports for a column type.
pub open spec fn simple_type_name(t: ColumnType) -> Seq<char> {
    match t {
        ColumnType::Int8 | ColumnType::Int16 | ColumnType::Int32 | ColumnType::Int64
        | ColumnType::UInt8 | ColumnType::UInt16 | ColumnType::UInt32 | ColumnType::UInt64
        | ColumnType::Float16 | ColumnType::Float32 | ColumnType::Float64
        | ColumnType::Decimal128 | ColumnType::Decimal256 => "number"@,
        ColumnType::Utf8 | ColumnType::LargeUtf8 => "text"@,
        ColumnType::Boolean => "boolean"@,
        ColumnType::Date32 | ColumnType::Date64 => "date"@,
        ColumnType::Timestamp => "datetime"@,
        ColumnType::List | ColumnType::LargeList | ColumnType::FixedSizeList => "list"@,
        _ => "unknown"@,
    }
}

/// Convert a column's data type to its simple type string
pub fn to_simple_type(dt: &ColumnType) -> (name: &'static str)
    ensures
        name@ == simple_type_name(*dt),
{
    match dt {
        ColumnType::Int8 | ColumnType::Int16 | ColumnType::Int32 | ColumnType::Int64
        | ColumnType::UInt8 | ColumnType::UInt16 | ColumnType::UInt32 | ColumnType::UInt64
        | ColumnType::Float16 | ColumnType::Float32 | ColumnType::Float64
        | ColumnType::Decimal128 | ColumnType::Decimal256 => "number",
        ColumnType::Utf8 | ColumnType::LargeUtf8 => "text",
        ColumnType::Boolean => "boolean",
        ColumnType::Date32 | ColumnType::Date64 => "date",
        ColumnType::Timestamp => "datetime",
        ColumnType::List | ColumnType::LargeList | ColumnType::FixedSizeList => "list",
        _ => "unknown",
    }
}

/// The column type whose variant name is `n`; `Other` for any other name.
pub open spec fn column_type_named(n: Seq<char>) -> ColumnType {
    if n == "Null"@ {
        ColumnType::Null
    } else if n == "Boolean"@ {
        ColumnType::Boolean
    } else if n == "Int8"@ {
        ColumnType::Int8
    } else if n == "Int16"@ {
        ColumnType::Int16
    } else if n == "Int32"@ {
        ColumnType::Int32
    } else if n == "Int64"@ {
        ColumnType::Int64
    } else if n == "UInt8"@ {
        ColumnType::UInt8
    } else if n == "UInt16"@ {
        ColumnType::UInt16
    } else if n == "UInt32"@ {
        ColumnType::UInt32
    } else if n == "UInt64"@ {
        ColumnType::UInt64
    } else if n == "Float16"@ {
        ColumnType::Float16
    } else if n == "Float32"@ {
        ColumnType::Float32
    } else if n == "Float64"@ {
        ColumnType::Float64
    } else if n == "Timestamp"@ {
        ColumnType::Timestamp
    } else if n == "Date32"@ {
        ColumnType::Date32
    } else if n == "Date64"@ {
        ColumnType::Date64
    } else if n == "Time32"@ {
        ColumnType::Time32
    } else if n == "Time64"@ {
        ColumnType::Time64
    } else if n == "Duration"@ {
        ColumnType::Duration
    } else if n == "Interval"@ {
        ColumnType::Interval
    } else if n == "Binary"@ {
        ColumnType::Binary
    } else if n == "FixedSizeBinary"@ {
        ColumnType::FixedSizeBinary
    } else if n == "LargeBinary"@ {
        ColumnType::LargeBinary
    } else if n == "BinaryView"@ {
        ColumnType::BinaryView
    } else if n == "Utf8"@ {
        ColumnType::Utf8
    } else if n == "LargeUtf8"@ {
        ColumnType::LargeUtf8
    } else if n == "Utf8View"@ {
        ColumnType::Utf8View
    } else if n == "List"@ {
        ColumnType::List
    } else if n == "ListView"@ {
        ColumnType::ListView
    } else if n == "FixedSizeList"@ {
        ColumnType::FixedSizeList
    } else if n == "LargeList"@ {
        ColumnType::LargeList
    } else if n == "LargeListView"@ {
        ColumnType::LargeListView
    } else if n == "Struct"@ {
        ColumnType::Struct
    } else if n == "Union"@ {
        ColumnType::Union
    } else if n == "Dictionary"@ {
        ColumnType::Dictionary
    } else if n == "Decimal32"@ {
        ColumnType::Decimal32
    } else if n == "Decimal64"@ {
        ColumnType::Decimal64
    } else if n == "Decimal128"@ {
        ColumnType::Decimal128
    } else if n == "Decimal256"@ {
        ColumnType::Decimal256
    } else if n == "Map"@ {
        ColumnType::MapType
    } else if n == "RunEndEncoded"@ {
        ColumnType::RunEndEncoded
    } else {
        ColumnType::Other
    }
}

/// The head of a data type's debug text: the text before the first `(`
/// (all of it when there is none), which is the variant's name.
pub open spec fn type_text_head(t: Seq<char>) -> Seq<char>
    decreases t.len(),
{
    if t.len() == 0 {
        t
    } else if t[0] == '(' {
        Seq::empty()
    } else {
        seq![t[0]] + type_text_head(t.drop_first())
    }
}

/// The column type of a data type given by its debug text.
pub open spec fn column_type_of_text(t: Seq<char>) -> ColumnType {
    column_type_named(type_text_head(t))
}

proof fn lemma_type_text_head(t: Seq<char>, k: int)
    requires
        0 <= k <= t.len(),
        forall|j: int| 0 <= j < k ==> #[trigger] t[j] != '(',
        k == t.len() || t[k] == '(',
    ensures
        type_text_head(t) == t.take(k),
    decreases k,
{
    if k == 0 {
        assert(t.take(0) =~= Seq::<char>::empty());
        if t.len() == 0 {
            assert(t =~= Seq::<char>::empty());
        }
    } else {
        let u = t.drop_first();
        assert forall|j: int| 0 <= j < k - 1 implies #[trigger] u[j] != '(' by {
            assert(u[j] == t[j + 1]);
        }
        lemma_type_text_head(u, k - 1);
        assert(seq![t[0]] + u.take(k - 1) =~= t.take(k));
    }
}

fn is_named(s: &String, name: &str) -> (b: bool)
    ensures
        b == (s@ == name@),
{
    *s == String::from_str(name)
}

/// The column type of a data type given by its debug text (such as
/// `Timestamp(Nanosecond, None)`).
pub fn column_type_from_text(text: &String) -> (t: ColumnType)
    ensures
        t == column_type_of_text(text@),
{
    let s = text.as_str();
    let n = s.unicode_len();
    let mut k: usize = 0;
    while k < n && s.get_char(k) != '('
        invariant
            k <= n,
            n == s@.len(),
            s@ == text@,
            forall|j: int| 0 <= j < k ==> #[trigger] s@[j] != '(',
        decreases n - k,
    {
        k = k + 1;
    }
    proof {
        lemma_type_text_head(text@, k as int);
    }
    let head = String::from_str(s.substring_char(0, k));
    assert(head@ == type_text_head(text@)) by {
        assert(text@.subrange(0, k as int) =~= text@.take(k as int));
    }
    if is_named(&head, "Null") {
        ColumnType::Null
    } else if is_named(&head, "Boolean") {
        ColumnType::Boolean
    } else if is_named(&head, "Int8") {
        ColumnType::Int8
    } else if is_named(&head, "Int16") {
        ColumnType::Int16
    } else if is_named(&head, "Int32") {
        ColumnType::Int32
    } else if is_named(&head, "Int64") {
        ColumnType::Int64
    } else if is_named(&head, "UInt8") {
        ColumnType::UInt8
    } else if is_named(&head, "UInt16") {
        ColumnType::UInt16
    } else if is_named(&head, "UInt32") {
        ColumnType::UInt32
    } else if is_named(&head, "UInt64") {
        ColumnType::UInt64
    } else if is_named(&head, "Float16") {
        ColumnType::Float16
    } else if is_named(&head, "Float32") {
        ColumnType::Float32
    } else if is_named(&head, "Float64") {
        ColumnType::Float64
    } else if is_named(&head, "Timestamp") {
        ColumnType::Timestamp
    } else if is_named(&head, "Date32") {
        ColumnType::Date32
    } else if is_named(&head, "Date64") {
        ColumnType::Date64
    } else if is_named(&head, "Time32") {
        ColumnType::Time32
    } else if is_named(&head, "Time64") {
        ColumnType::Time64
    } else if is_named(&head, "Duration") {
        ColumnType::Duration
    } else if is_named(&head, "Interval") {
        ColumnType::Interval
    } else if is_named(&head, "Binary") {
        ColumnType::Binary
    } else if is_named(&head, "FixedSizeBinary") {
        ColumnType::FixedSizeBinary
    } else if is_named(&head, "LargeBinary") {
        ColumnType::LargeBinary
    } else if is_named(&head, "BinaryView") {
        ColumnType::BinaryView
    } else if is_named(&head, "Utf8") {
        ColumnType::Utf8
    } else if is_named(&head, "LargeUtf8") {
        ColumnType::LargeUtf8
    } else if is_named(&head, "Utf8View") {
        ColumnType::Utf8View
    } else if is_named(&head, "List") {
        ColumnType::List
    } else if is_named(&head, "ListView") {
        ColumnType::ListView
    } else if is_named(&head, "FixedSizeList") {
        ColumnType::FixedSizeList
    } else if is_named(&head, "LargeList") {
        ColumnType::LargeList
    } else if is_named(&head, "LargeListView") {
        ColumnType::LargeListView
    } else if is_named(&head, "Struct") {
        ColumnType::Struct
    } else if is_named(&head, "Union") {
        ColumnType::Union
    } else if is_named(&head, "Dictionary") {
        ColumnType::Dictionary
    } else if is_named(&head, "Decimal32") {
        ColumnType::Decimal32
    } else if is_named(&head, "Decimal64") {
        ColumnType::Decimal64
    } else if is_named(&head, "Decimal128") {
        ColumnType::Decimal128
    } else if is_named(&head, "Decimal256") {
        ColumnType::Decimal256
    } else if is_named(&head, "Map") {
        ColumnType::MapType
    } else if is_named(&head, "RunEndEncoded") {
        ColumnType::RunEndEncoded
    } else {
        ColumnType::Other
    }
}


/// The name that Arrow's debug text gives the data type variant of a
/// column type (`Other` stands for no variant and has no name).
pub open spec fn arrow_variant_name(t: ColumnType) -> Seq<char> {
    match t {
        ColumnType::Null => "Null"@,
        ColumnType::Boolean => "Boolean"@,
        ColumnType::Int8 => "Int8"@,
        ColumnType::Int16 => "Int16"@,
        ColumnType::Int32 => "Int32"@,
        ColumnType::Int64 => "Int64"@,
        ColumnType::UInt8 => "UInt8"@,
        ColumnType::UInt16 => "UInt16"@,
        ColumnType::UInt32 => "UInt32"@,
        ColumnType::UInt64 => "UInt64"@,
        ColumnType::Float16 => "Float16"@,
        ColumnType::Float32 => "Float32"@,
        ColumnType::Float64 => "Float64"@,
        ColumnType::Timestamp => "Timestamp"@,
        ColumnType::Date32 => "Date32"@,
        ColumnType::Date64 => "Date64"@,
        ColumnType::Time32 => "Time32"@,
        ColumnType::Time64 => "Time64"@,
        ColumnType::Duration => "Duration"@,
        ColumnType::Interval => "Interval"@,
        ColumnType::Binary => "Binary"@,
        ColumnType::FixedSizeBinary => "FixedSizeBinary"@,
        ColumnType::LargeBinary => "LargeBinary"@,
        ColumnType::BinaryView => "BinaryView"@,
        ColumnType::Utf8 => "Utf8"@,
        ColumnType::LargeUtf8 => "LargeUtf8"@,
        ColumnType::Utf8View => "Utf8View"@,
        ColumnType::List => "List"@,
        ColumnType::ListView => "ListView"@,
        ColumnType::FixedSizeList => "FixedSizeList"@,
        ColumnType::LargeList => "LargeList"@,
        ColumnType::LargeListView => "LargeListView"@,
        ColumnType::Struct => "Struct"@,
        ColumnType::Union => "Union"@,
        ColumnType::Dictionary => "Dictionary"@,
        ColumnType::Decimal32 => "Decimal32"@,
        ColumnType::Decimal64 => "Decimal64"@,
        ColumnType::Decimal128 => "Decimal128"@,
        ColumnType::Decimal256 => "Decimal256"@,
        ColumnType::MapType => "Map"@,
        ColumnType::RunEndEncoded => "RunEndEncoded"@,
        ColumnType::Other => Seq::empty(),
    }
}

/// Law: the debug text of an Arrow data type, its variant's name followed
/// by nothing or by its parameters in brackets (such as `Date32`, `Utf8` or
/// `Timestamp(Second, None)`), gives that variant.
pub proof fn lemma_debug_text_gives_its_variant(t: ColumnType, params: Seq<char>)
    requires
        t != ColumnType::Other,
        params.len() == 0 || params[0] == '(',
    ensures
        column_type_of_text(arrow_variant_name(t) + params) == t,
{
    reveal_strlit("Null");
    reveal_strlit("Boolean");
    reveal_strlit("Int8");
    reveal_strlit("Int16");
    reveal_strlit("Int32");
    reveal_strlit("Int64");
    reveal_strlit("UInt8");
    reveal_strlit("UInt16");
    reveal_strlit("UInt32");
    reveal_strlit("UInt64");
    reveal_strlit("Float16");
    reveal_strlit("Float32");
    reveal_strlit("Float64");
    reveal_strlit("Timestamp");
    reveal_strlit("Date32");
    reveal_strlit("Date64");
    reveal_strlit("Time32");
    reveal_strlit("Time64");
    reveal_strlit("Duration");
    reveal_strlit("Interval");
    reveal_strlit("Binary");
    reveal_strlit("FixedSizeBinary");
    reveal_strlit("LargeBinary");
    reveal_strlit("BinaryView");
    reveal_strlit("Utf8");
    reveal_strlit("LargeUtf8");
    reveal_strlit("Utf8View");
    reveal_strlit("List");
    reveal_strlit("ListView");
    reveal_strlit("FixedSizeList");
    reveal_strlit("LargeList");
    reveal_strlit("LargeListView");
    reveal_strlit("Struct");
    reveal_strlit("Union");
    reveal_strlit("Dictionary");
    reveal_strlit("Decimal32");
    reveal_strlit("Decimal64");
    reveal_strlit("Decimal128");
    reveal_strlit("Decimal256");
    reveal_strlit("Map");
    reveal_strlit("RunEndEncoded");
    assert("Null"@.len() == 4);
    assert("Boolean"@.len() == 7);
    assert("Int8"@.len() == 4);
    assert("Int16"@.len() == 5);
    assert("Int32"@.len() == 5);
    assert("Int64"@.len() == 5);
    assert("UInt8"@.len() == 5);
    assert("UInt16"@.len() == 6);
    assert("UInt32"@.len() == 6);
    assert("UInt64"@.len() == 6);
    assert("Float16"@.len() == 7);
    assert("Float32"@.len() == 7);
    assert("Float64"@.len() == 7);
    assert("Timestamp"@.len() == 9);
    assert("Date32"@.len() == 6);
    assert("Date64"@.len() == 6);
    assert("Time32"@.len() == 6);
    assert("Time64"@.len() == 6);
    assert("Duration"@.len() == 8);
    assert("Interval"@.len() == 8);
    assert("Binary"@.len() == 6);
    assert("FixedSizeBinary"@.len() == 15);
    assert("LargeBinary"@.len() == 11);
    assert("BinaryView"@.len() == 10);
    assert("Utf8"@.len() == 4);
    assert("LargeUtf8"@.len() == 9);
    assert("Utf8View"@.len() == 8);
    assert("List"@.len() == 4);
    assert("ListView"@.len() == 8);
    assert("FixedSizeList"@.len() == 13);
    assert("LargeList"@.len() == 9);
    assert("LargeListView"@.len() == 13);
    assert("Struct"@.len() == 6);
    assert("Union"@.len() == 5);
    assert("Dictionary"@.len() == 10);
    assert("Decimal32"@.len() == 9);
    assert("Decimal64"@.len() == 9);
    assert("Decimal128"@.len() == 10);
    assert("Decimal256"@.len() == 10);
    assert("Map"@.len() == 3);
    assert("RunEndEncoded"@.len() == 13);
    assert("Binary"@[0] == 'B');
    assert("BinaryView"@[0] == 'B');
    assert("Boolean"@[0] == 'B');
    assert("Date32"@[0] == 'D');
    assert("Date32"@[4] == '3');
    assert("Date64"@[0] == 'D');
    assert("Date64"@[4] == '6');
    assert("Decimal128"@[0] == 'D');
    assert("Decimal128"@[1] == 'e');
    assert("Decimal128"@[7] == '1');
    assert("Decimal256"@[0] == 'D');
    assert("Decimal256"@[1] == 'e');
    assert("Decimal256"@[7] == '2');
    assert("Decimal32"@[0] == 'D');
    assert("Decimal32"@[7] == '3');
    assert("Decimal64"@[0] == 'D');
    assert("Decimal64"@[7] == '6');
    assert("Dictionary"@[0] == 'D');
    assert("Dictionary"@[1] == 'i');
    assert("Duration"@[0] == 'D');
    assert("FixedSizeList"@[0] == 'F');
    assert("Float16"@[0] == 'F');
    assert("Float16"@[5] == '1');
    assert("Float32"@[0] == 'F');
    assert("Float32"@[5] == '3');
    assert("Float64"@[0] == 'F');
    assert("Float64"@[5] == '6');
    assert("Int16"@[0] == 'I');
    assert("Int16"@[3] == '1');
    assert("Int32"@[0] == 'I');
    assert("Int32"@[3] == '3');
    assert("Int64"@[0] == 'I');
    assert("Int64"@[3] == '6');
    assert("Int8"@[0] == 'I');
    assert("Interval"@[0] == 'I');
    assert("LargeList"@[0] == 'L');
    assert("LargeList"@[5] == 'L');
    assert("LargeListView"@[0] == 'L');
    assert("LargeUtf8"@[0] == 'L');
    assert("LargeUtf8"@[5] == 'U');
    assert("List"@[0] == 'L');
    assert("ListView"@[0] == 'L');
    assert("Null"@[0] == 'N');
    assert("RunEndEncoded"@[0] == 'R');
    assert("Struct"@[0] == 'S');
    assert("Time32"@[0] == 'T');
    assert("Time32"@[4] == '3');
    assert("Time64"@[0] == 'T');
    assert("Time64"@[4] == '6');
    assert("Timestamp"@[0] == 'T');
    assert("UInt16"@[0] == 'U');
    assert("UInt16"@[4] == '1');
    assert("UInt32"@[0] == 'U');
    assert("UInt32"@[4] == '3');
    assert("UInt64"@[0] == 'U');
    assert("UInt64"@[4] == '6');
    assert("UInt8"@[0] == 'U');
    assert("UInt8"@[1] == 'I');
    assert("Union"@[0] == 'U');
    assert("Union"@[1] == 'n');
    assert("Utf8"@[0] == 'U');
    assert("Utf8View"@[0] == 'U');
    let n = arrow_variant_name(t);
    assert forall|j: int| 0 <= j < n.len() implies #[trigger] (n + params)[j] != '(' by {
        assert((n + params)[j] == n[j]);
    }
    lemma_type_text_head(n + params, n.len() as int);
    assert((n + params).take(n.len() as int) =~= n);
}

/// Law: a debug text gives a variant other than `Other` only when the text
/// before its first bracket is that variant's name.
pub proof fn lemma_variant_only_from_its_name(text: Seq<char>)
    ensures
        column_type_of_text(text) != ColumnType::Other ==> type_text_head(text) == arrow_variant_name(
            column_type_of_text(text),
        ),
{
}

/// Law: the simple type names, by column type: every integer and
/// floating-point type and the two widest decimals are numbers, the two
/// string types are text, the two date types are dates, timestamps are
/// date-times, the three list types are lists, booleans are booleans, and
/// every other type is unknown.
pub proof fn lemma_simple_type_names(t: ColumnType)
    ensures
        simple_type_name(t) == "number"@ <==> (t == ColumnType::Int8 || t == ColumnType::Int16
            || t == ColumnType::Int32 || t == ColumnType::Int64 || t == ColumnType::UInt8
            || t == ColumnType::UInt16 || t == ColumnType::UInt32 || t == ColumnType::UInt64
            || t == ColumnType::Float16 || t == ColumnType::Float32 || t == ColumnType::Float64
            || t == ColumnType::Decimal128 || t == ColumnType::Decimal256),
        simple_type_name(t) == "text"@ <==> (t == ColumnType::Utf8 || t == ColumnType::LargeUtf8),
        simple_type_name(t) == "boolean"@ <==> t == ColumnType::Boolean,
        simple_type_name(t) == "date"@ <==> (t == ColumnType::Date32 || t == ColumnType::Date64),
        simple_type_name(t) == "datetime"@ <==> t == ColumnType::Timestamp,
        simple_type_name(t) == "list"@ <==> (t == ColumnType::List || t == ColumnType::LargeList
            || t == ColumnType::FixedSizeList),
        simple_type_name(t) == "number"@ || simple_type_name(t) == "text"@ || simple_type_name(t)
            == "boolean"@ || simple_type_name(t) == "date"@ || simple_type_name(t) == "datetime"@
            || simple_type_name(t) == "list"@ || simple_type_name(t) == "unknown"@,
{
    reveal_strlit("number");
    reveal_strlit("text");
    reveal_strlit("boolean");
    reveal_strlit("date");
    reveal_strlit("datetime");
    reveal_strlit("list");
    reveal_strlit("unknown");
    assert("number"@.len() == 6 && "boolean"@.len() == 7 && "unknown"@.len() == 7);
    assert("text"@.len() == 4 && "date"@.len() == 4 && "list"@.len() == 4);
    assert("datetime"@.len() == 8);
    assert("text"@[0] == 't' && "date"@[0] == 'd' && "list"@[0] == 'l');
    assert("boolean"@[0] == 'b' && "unknown"@[0] == 'u');
}

} // verus!
