use arrow_array::{Array, Int64Array};
use rust_core::buffers::{extract_column_buffers, extract_single_column, ColumnData, ExtractError, NamedColumn};
use rust_core::column_type::{to_simple_type, ColumnType};
use rust_core::column_type::column_type_from_text;
use rust_core::csv::{CsvBatch, CsvSchema};
use rust_core::seed::{seed, seed_chunk, seed_start, SeedError};
use rust_core::query::{
    borrowed_window_fits_check, build_meta_data, get_meta_data, plan_data_query, plan_pipeline,
    resolve_projection, DataQuery, DataRoute, FieldInfo, QueryError,
};
use rust_core::store::{batch_row_counts, seed_finalize, DataStore, StoreError, StoredBatch};
use rust_core::text::parse_cols;
use rust_core::window::{apply_limit_offset, apply_limit_offset_borrow, BatchSlice, LimitOffsetPlan};

fn sl(batch: usize, start: usize, len: usize) -> BatchSlice {
    BatchSlice { batch, start, len }
}

fn stored(rows: &[usize]) -> Vec<StoredBatch<u32>> {
    rows.iter()
        .enumerate()
        .map(|(i, r)| StoredBatch::new(i as u32, *r))
        .collect()
}

type Query = DataQuery<u8, u8, u8>;

fn query(limit: Option<usize>, offset: Option<usize>) -> Query {
    DataQuery { filters: None, sort: None, pivot: None, columns: None, limit, offset }
}

#[test]
fn parse_cols_trims_and_drops_empty_names() {
    assert_eq!(parse_cols(" a, b ,,c "), vec!["a", "b", "c"]);
}

#[test]
fn parse_cols_of_empty_input_is_empty() {
    assert_eq!(parse_cols(""), Vec::<String>::new());
    assert_eq!(parse_cols(",,,"), Vec::<String>::new());
    assert_eq!(parse_cols("   "), Vec::<String>::new());
}

#[test]
fn parse_cols_trims_unicode_white_space() {
    assert_eq!(parse_cols("\u{3000}x\u{a0},\ty\n,\u{2003}z w\u{85}"), vec!["x", "y", "z w"]);
}

#[test]
fn parse_cols_gives_back_joined_clean_names() {
    let names = vec!["id", "customer name", "price_usd"];
    assert_eq!(parse_cols(&names.join(",")), names);
}

#[test]
fn parse_cols_keeps_inner_characters() {
    assert_eq!(parse_cols("a;b , c\u{2028}d"), vec!["a;b", "c\u{2028}d"]);
}

#[test]
fn simple_type_names() {
    assert_eq!(to_simple_type(&ColumnType::Int32), "number");
    assert_eq!(to_simple_type(&ColumnType::UInt64), "number");
    assert_eq!(to_simple_type(&ColumnType::Float16), "number");
    assert_eq!(to_simple_type(&ColumnType::Decimal128), "number");
    assert_eq!(to_simple_type(&ColumnType::Decimal32), "unknown");
    assert_eq!(to_simple_type(&ColumnType::LargeUtf8), "text");
    assert_eq!(to_simple_type(&ColumnType::Utf8View), "unknown");
    assert_eq!(to_simple_type(&ColumnType::Boolean), "boolean");
    assert_eq!(to_simple_type(&ColumnType::Date64), "date");
    assert_eq!(to_simple_type(&ColumnType::Timestamp), "datetime");
    assert_eq!(to_simple_type(&ColumnType::FixedSizeList), "list");
    assert_eq!(to_simple_type(&ColumnType::ListView), "unknown");
    assert_eq!(to_simple_type(&ColumnType::Null), "unknown");
}

fn column(t: ColumnType, buffers: Vec<Vec<u8>>, nulls: Option<Vec<u8>>) -> ColumnData {
    ColumnData { data_type: t, len: 3, null_count: 1, null_bitmap: nulls, buffers }
}

#[test]
fn extract_fixed_width_column() {
    let c = column(ColumnType::UInt16, vec![vec![1, 0, 2, 0, 3, 0]], Some(vec![0b101]));
    let out = extract_single_column("qty", &c).ok().unwrap();
    assert_eq!(out.name, "qty");
    assert_eq!(out.data_type, "Int16");
    assert_eq!(out.length, 3);
    assert_eq!(out.null_count, 1);
    assert_eq!(out.null_bitmap, Some(vec![0b101]));
    assert_eq!(out.values, vec![1, 0, 2, 0, 3, 0]);
    assert_eq!(out.offsets, None);
}

#[test]
fn extract_string_column_hands_out_offsets() {
    let c = column(ColumnType::Utf8, vec![vec![0, 1, 3], vec![b'a', b'b', b'c']], None);
    let out = extract_single_column("s", &c).ok().unwrap();
    assert_eq!(out.data_type, "Utf8");
    assert_eq!(out.offsets, Some(vec![0, 1, 3]));
    assert_eq!(out.values, vec![b'a', b'b', b'c']);
    assert_eq!(out.null_bitmap, None);
}

#[test]
fn extract_labels() {
    let cases = [
        (ColumnType::Int8, "Int8"),
        (ColumnType::UInt32, "Int32"),
        (ColumnType::Int64, "Int64"),
        (ColumnType::Float32, "Float32"),
        (ColumnType::Float64, "Float64"),
        (ColumnType::Boolean, "Boolean"),
        (ColumnType::Date32, "Date"),
        (ColumnType::Timestamp, "Timestamp"),
    ];
    for (t, label) in cases {
        let out = extract_single_column("c", &column(t, vec![vec![7]], None)).ok().unwrap();
        assert_eq!(out.data_type, label);
        assert_eq!(out.values, vec![7]);
    }
    let out = extract_single_column("c", &column(ColumnType::LargeUtf8, vec![vec![1], vec![2]], None))
        .ok()
        .unwrap();
    assert_eq!(out.data_type, "LargeUtf8");
    assert_eq!(out.offsets, Some(vec![1]));
    assert_eq!(out.values, vec![2]);
}

#[test]
fn extract_unsupported_type_fails() {
    let c = column(ColumnType::Float16, vec![vec![0, 0]], None);
    assert_eq!(
        extract_single_column("h", &c).err(),
        Some(ExtractError::UnsupportedType(ColumnType::Float16))
    );
    let c = column(ColumnType::Null, vec![], None);
    assert_eq!(extract_single_column("n", &c).err(), Some(ExtractError::UnsupportedType(ColumnType::Null)));
}

#[test]
fn extract_batch_stops_at_first_unsupported_column() {
    let cols = vec![
        NamedColumn { name: "a".to_string(), column: column(ColumnType::Int32, vec![vec![1]], None) },
        NamedColumn { name: "b".to_string(), column: column(ColumnType::Binary, vec![], None) },
        NamedColumn { name: "c".to_string(), column: column(ColumnType::Struct, vec![], None) },
    ];
    assert_eq!(
        extract_column_buffers(&cols).err(),
        Some(ExtractError::UnsupportedType(ColumnType::Binary))
    );
    let ok = extract_column_buffers(&cols[..1].iter().map(|c| NamedColumn {
        name: c.name.clone(),
        column: column(ColumnType::Int32, vec![vec![1]], None),
    }).collect()).ok().unwrap();
    assert_eq!(ok.len(), 1);
    assert_eq!(ok[0].name, "a");
}

#[test]
fn borrow_window_spans_batches() {
    assert_eq!(apply_limit_offset_borrow(&[3, 4, 5], 2, Some(4)), vec![sl(0, 2, 1), sl(1, 0, 3)]);
    assert_eq!(apply_limit_offset_borrow(&[3, 4, 5], 2, None), vec![sl(0, 2, 1), sl(1, 0, 4), sl(2, 0, 5)]);
    assert_eq!(apply_limit_offset_borrow(&[3, 4, 5], 7, Some(100)), vec![sl(2, 0, 5)]);
}

#[test]
fn borrow_window_edges() {
    assert_eq!(apply_limit_offset_borrow(&[], 0, Some(3)), vec![]);
    assert_eq!(apply_limit_offset_borrow(&[3, 4], 7, Some(3)), vec![]);
    assert_eq!(apply_limit_offset_borrow(&[3, 4], 9, None), vec![]);
    assert_eq!(apply_limit_offset_borrow(&[3, 4], 1, Some(0)), vec![]);
    assert_eq!(apply_limit_offset_borrow(&[0, 2, 0, 2], 0, Some(3)), vec![sl(1, 0, 2), sl(3, 0, 1)]);
    assert_eq!(apply_limit_offset_borrow(&[5], 4, Some(usize::MAX - 4)), vec![sl(0, 4, 1)]);
}

#[test]
fn owned_window_plans() {
    assert!(matches!(apply_limit_offset(&[], Some(1), Some(1)), LimitOffsetPlan::Unchanged));
    assert!(matches!(apply_limit_offset(&[3, 4], None, None), LimitOffsetPlan::Unchanged));
    assert!(matches!(apply_limit_offset(&[3, 4], Some(usize::MAX), Some(0)), LimitOffsetPlan::Unchanged));
    assert!(matches!(apply_limit_offset(&[3, 4], None, Some(7)), LimitOffsetPlan::EmptyBatch));
    assert!(matches!(apply_limit_offset(&[3, 4], Some(0), None), LimitOffsetPlan::EmptyBatch));
    match apply_limit_offset(&[3, 4, 5], Some(4), Some(2)) {
        LimitOffsetPlan::Slices(v) => assert_eq!(v, vec![sl(0, 2, 1), sl(1, 0, 3)]),
        other => panic!("unexpected plan {:?}", other),
    }
    match apply_limit_offset(&[3, 0, 4], None, Some(3)) {
        LimitOffsetPlan::Slices(v) => assert_eq!(v, vec![sl(2, 0, 4)]),
        other => panic!("unexpected plan {:?}", other),
    }
}

#[test]
fn both_limit_offset_paths_take_the_same_rows() {
    let rows = [2usize, 0, 5, 1, 3];
    for offset in 0..12usize {
        for limit in [None, Some(0), Some(1), Some(4), Some(20)] {
            let borrowed = apply_limit_offset_borrow(&rows, offset, limit);
            match apply_limit_offset(&rows, limit, Some(offset)) {
                LimitOffsetPlan::Slices(v) => assert_eq!(v, borrowed),
                LimitOffsetPlan::EmptyBatch => assert!(borrowed.is_empty()),
                LimitOffsetPlan::Unchanged => assert!(offset == 0 && limit.is_none()),
            }
            let taken: usize = borrowed.iter().map(|s| s.len).sum();
            let expected = 11usize.saturating_sub(offset).min(limit.unwrap_or(usize::MAX));
            assert_eq!(taken, expected);
        }
    }
}

#[test]
fn window_fit_check() {
    assert!(borrowed_window_fits_check(&[10], 5, Some(usize::MAX - 5)));
    assert!(!borrowed_window_fits_check(&[10], 5, Some(usize::MAX)));
    assert!(borrowed_window_fits_check(&[10], 0, Some(usize::MAX)));
    assert!(borrowed_window_fits_check(&[10], 5, Some(0)));
    assert!(borrowed_window_fits_check(&[10], 10, Some(usize::MAX)));
    assert!(!borrowed_window_fits_check(&[usize::MAX, 1], 0, None));
}

#[test]
fn store_steps_keep_chunks_in_order() {
    let mut store: DataStore<&str, u32> = DataStore::new();
    assert_eq!(seed_finalize(&store), 0);
    assert_eq!(store.append(stored(&[4])), Err(StoreError::SchemaNotInitialized));
    assert_eq!(seed_finalize(&store), 0);
    store.start("schema");
    assert_eq!(seed_finalize(&store), 0);
    assert_eq!(store.append(stored(&[4, 6])), Ok(()));
    assert_eq!(store.append(stored(&[5])), Ok(()));
    assert_eq!(seed_finalize(&store), 15);
    assert_eq!(batch_row_counts(store.stored_batches().ok().unwrap()), vec![4, 6, 5]);
    store.replace("again", stored(&[7]));
    assert_eq!(store.stored_schema().ok(), Some(&"again"));
    assert_eq!(seed_finalize(&store), 7);
    store.start("fresh");
    assert_eq!(seed_finalize(&store), 0);
}

#[test]
fn store_error_messages() {
    let store: DataStore<&str, u32> = DataStore::new();
    assert_eq!(store.stored_schema().err().unwrap().message(), "No schema stored. Call seed() first.");
    assert_eq!(store.stored_batches().err().unwrap().message(), "No batches stored.");
    assert_eq!(
        store.chunk_schema().err().unwrap().message(),
        "Schema not initialized. Call seed_start first."
    );
}

type CsvStore = DataStore<CsvSchema, CsvBatch>;

const SALES: &[u8] = b"id,city,price,open\n1,Oslo,2.5,true\n2,Rome,3,false\n3,Lima,,true\n";

#[test]
fn seed_stores_inferred_schema_and_rows() {
    let mut store: CsvStore = DataStore::new();
    seed(&mut store, SALES).unwrap();
    assert_eq!(seed_finalize(&store), 3);
    let meta = get_meta_data(&store).ok().unwrap();
    assert_eq!(meta.column_count, 4);
    let got: Vec<(String, &str, bool)> =
        meta.columns.iter().map(|c| (c.name.clone(), c.simple_type, c.nullable)).collect();
    assert_eq!(
        got,
        vec![
            ("id".to_string(), "number", true),
            ("city".to_string(), "text", true),
            ("price".to_string(), "number", true),
            ("open".to_string(), "boolean", true),
        ]
    );
    let schema = store.stored_schema().ok().unwrap();
    let texts: Vec<&str> = schema.fields().iter().map(|f| f.type_text.as_str()).collect();
    assert_eq!(texts, vec!["Int64", "Utf8", "Float64", "Boolean"]);
}

#[test]
fn streaming_seed_reads_chunks_with_stored_schema() {
    let mut store: CsvStore = DataStore::new();
    assert!(matches!(
        seed_chunk(&mut store, b"1,2\n", false),
        Err(SeedError::Store(StoreError::SchemaNotInitialized))
    ));
    seed_start(&mut store, b"a,b\n1,x\n").unwrap();
    assert_eq!(seed_finalize(&store), 0);
    seed_chunk(&mut store, b"a,b\n1,x\n2,y\n", true).unwrap();
    seed_chunk(&mut store, b"3,z\n4,w\n5,v\n", false).unwrap();
    assert_eq!(seed_finalize(&store), 5);
    // A chunk that Arrow cannot read with the stored schema changes nothing.
    assert!(matches!(seed_chunk(&mut store, b"x,y\n", false), Err(SeedError::Csv(_))));
    assert_eq!(seed_finalize(&store), 5);
    let batches = store.stored_batches().ok().unwrap();
    let rows: usize = batches.iter().map(|b| b.batch.arrow().inner.num_rows()).sum();
    assert_eq!(rows, 5);
    assert!(batches.iter().all(|b| b.batch.arrow().inner.schema() == *store.stored_schema().ok().unwrap().arrow_schema()));
}

#[test]
fn seed_start_fails_on_unreadable_header() {
    let mut store: CsvStore = DataStore::new();
    seed(&mut store, b"a\n1\n").unwrap();
    assert!(seed_start(&mut store, b"a,b\n1\n1,2,3\n").is_err());
    assert_eq!(seed_finalize(&store), 1);
    assert_eq!(get_meta_data(&store).ok().unwrap().column_count, 1);
}

#[test]
fn meta_data_needs_a_schema() {
    let store: CsvStore = DataStore::new();
    assert_eq!(get_meta_data(&store).err(), Some(StoreError::NoSchema));
}

#[test]
fn column_types_from_debug_text() {
    assert_eq!(column_type_from_text(&"Int64".to_string()), ColumnType::Int64);
    assert_eq!(column_type_from_text(&"Timestamp(Nanosecond, None)".to_string()), ColumnType::Timestamp);
    assert_eq!(column_type_from_text(&"Map(Field { name: \"e\" }, false)".to_string()), ColumnType::MapType);
    assert_eq!(column_type_from_text(&"Utf8View".to_string()), ColumnType::Utf8View);
    assert_eq!(column_type_from_text(&"Int".to_string()), ColumnType::Other);
    assert_eq!(column_type_from_text(&"".to_string()), ColumnType::Other);
}

#[test]
fn projection_resolves_names() {
    let fields: Vec<String> = vec!["a".into(), "b".into(), "a".into(), "c".into()];
    let cols: Vec<String> = vec!["c".into(), "a".into()];
    assert_eq!(resolve_projection(&fields, &cols).ok().unwrap(), Some(vec![3, 0]));
    assert_eq!(resolve_projection(&fields, &vec![]).ok().unwrap(), None);
    let missing = resolve_projection(&fields, &vec!["b".into(), "x".into(), "y".into()]).err().unwrap();
    assert_eq!(missing.missing, "x");
    assert_eq!(missing.message(), "Column not found: x");
}

#[test]
fn meta_data_describes_fields() {
    let fields = vec![
        FieldInfo { name: "id".into(), data_type: ColumnType::Int64, nullable: false },
        FieldInfo { name: "when".into(), data_type: ColumnType::Timestamp, nullable: true },
    ];
    let meta = build_meta_data(&fields);
    assert_eq!(meta.column_count, 2);
    assert_eq!(meta.columns[0].name, "id");
    assert_eq!(meta.columns[0].simple_type, "number");
    assert!(!meta.columns[0].nullable);
    assert_eq!(meta.columns[1].simple_type, "datetime");
    assert!(meta.columns[1].nullable);
}

#[test]
fn query_routes() {
    let empty: CsvStore = DataStore::new();
    assert!(matches!(
        plan_data_query(&empty, &query(Some(1), None)),
        Err(QueryError::Store(StoreError::NoSchema))
    ));
    let mut store: CsvStore = DataStore::new();
    seed(&mut store, SALES).unwrap();
    match plan_data_query(&store, &query(Some(2), Some(1))) {
        Ok(DataRoute::FastPath(v)) => assert_eq!(v, vec![sl(0, 1, 2)]),
        _ => panic!("expected the fast path"),
    }
    match plan_data_query(&store, &query(None, None)) {
        Ok(DataRoute::Pipeline(p)) => {
            assert_eq!(p.projection, None);
            assert!(p.limit_offset.is_none());
        }
        _ => panic!("expected the pipeline"),
    }
    let mut q = query(Some(2), None);
    q.columns = Some(vec!["price".into(), "id".into()]);
    assert!(!q.only_limit_offset());
    match plan_data_query(&store, &q) {
        Ok(DataRoute::Pipeline(p)) => {
            assert_eq!(p.projection, Some(vec![2, 0]));
            match p.limit_offset {
                Some(LimitOffsetPlan::Slices(v)) => assert_eq!(v, vec![sl(0, 0, 2)]),
                other => panic!("unexpected plan {:?}", other),
            }
        }
        _ => panic!("expected the pipeline"),
    }
    q.columns = Some(vec!["nope".into()]);
    match plan_data_query(&store, &q) {
        Err(QueryError::Projection(e)) => assert_eq!(e.message(), "Column not found: nope"),
        _ => panic!("expected a projection error"),
    }
    let mut q = query(None, Some(1));
    q.sort = Some(1);
    assert!(matches!(plan_data_query(&store, &q), Ok(DataRoute::Transform)));
}

#[test]
fn empty_column_list_plans_like_none() {
    let names: Vec<String> = vec!["a".into(), "b".into()];
    let a = plan_pipeline(&names, &[3, 4], &Some(vec![]), Some(5), Some(1)).ok().unwrap();
    let b = plan_pipeline(&names, &[3, 4], &None, Some(5), Some(1)).ok().unwrap();
    assert_eq!(a.projection, None);
    assert_eq!(b.projection, None);
    match (a.limit_offset, b.limit_offset) {
        (Some(LimitOffsetPlan::Slices(x)), Some(LimitOffsetPlan::Slices(y))) => {
            assert_eq!(x, y);
            assert_eq!(x, vec![sl(0, 1, 2), sl(1, 0, 3)]);
        }
        _ => panic!("expected slices"),
    }
    let c = plan_pipeline(&names, &[3, 4], &Some(vec![]), None, None).ok().unwrap();
    assert!(c.projection.is_none() && c.limit_offset.is_none());
}

#[test]
fn seeded_batches_keep_file_order() {
    let mut text = String::from("n\n");
    for i in 0..2500 {
        text.push_str(&format!("{}\n", i));
    }
    let mut store: CsvStore = DataStore::new();
    seed(&mut store, text.as_bytes()).unwrap();
    let batches = store.stored_batches().ok().unwrap();
    assert_eq!(batch_row_counts(batches), vec![1024, 1024, 452]);
    let firsts: Vec<i64> = batches
        .iter()
        .map(|b| {
            let col = b.batch.arrow().inner.column(0);
            assert_eq!(col.len(), b.rows);
            col.as_any().downcast_ref::<Int64Array>().unwrap().value(0)
        })
        .collect();
    assert_eq!(firsts, vec![0, 1024, 2048]);
    seed_start(&mut store, b"n\n1\n").unwrap();
    seed_chunk(&mut store, b"7\n8\n", false).unwrap();
    seed_chunk(&mut store, b"9\n", false).unwrap();
    let batches = store.stored_batches().ok().unwrap();
    let firsts: Vec<i64> = batches
        .iter()
        .map(|b| b.batch.arrow().inner.column(0).as_any().downcast_ref::<Int64Array>().unwrap().value(0))
        .collect();
    assert_eq!(firsts, vec![7, 9]);
}

#[test]
fn empty_column_list_answers_like_the_fast_path() {
    let mut store: CsvStore = DataStore::new();
    seed(&mut store, SALES).unwrap();
    let fast = match plan_data_query(&store, &query(Some(2), Some(1))) {
        Ok(DataRoute::FastPath(v)) => v,
        _ => panic!("expected the fast path"),
    };
    let mut q = query(Some(2), Some(1));
    q.columns = Some(vec![]);
    match plan_data_query(&store, &q) {
        Ok(DataRoute::Pipeline(p)) => {
            assert_eq!(p.projection, None);
            match p.limit_offset {
                Some(LimitOffsetPlan::Slices(v)) => assert_eq!(v, fast),
                other => panic!("unexpected plan {:?}", other),
            }
        }
        _ => panic!("expected the pipeline"),
    }
}

#[test]
fn finalize_adds_the_rows_of_each_chunk() {
    let mut store: CsvStore = DataStore::new();
    seed_start(&mut store, b"a,b\n1,x\n").unwrap();
    seed_chunk(&mut store, b"a,b\n1,x\n2,y\n", true).unwrap();
    let before = seed_finalize(&store);
    assert_eq!(before, 2);
    seed_chunk(&mut store, b"3,z\n4,w\n5,v\n", false).unwrap();
    assert_eq!(seed_finalize(&store), before + 3);
    assert_eq!(seed_finalize(&store), before + 3);
}
