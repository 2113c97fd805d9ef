//! Planning a data query and the metadata of the stored schema.

use vstd::prelude::*;
use vstd::string::*;
use crate::column_type::{ColumnType, simple_type_name, to_simple_type, column_type_of_text, column_type_from_text};
use crate::csv::CsvSchema;
use crate::store::{DataStore, StoreError, rows_of, batch_row_counts};
use crate::window::{
    BatchSlice,
    borrowed_window,
    borrowed_window_fits,
    rows_before,
    row_in_batch,
    total_rows,
    apply_limit_offset_borrow,
    apply_limit_offset,
    is_limit_offset_plan,
    LimitOffsetPlan,
    slice_rows,
    plan_rows,
    lemma_plan_rows_match_fast_path,
};

verus! {

/// A data query: optional filters, sorting and pivot (of the types `F`, `O`
/// and `P`), an optional column projection, limit and offset.
pub struct DataQuery<F, O, P> {
    pub filters: Option<F>,
    pub sort: Option<O>,
    pub pivot: Option<P>,
    pub columns: Option<Vec<String>>,
    pub limit: Option<usize>,
    pub offset: Option<usize>,
}

impl<F, O, P> DataQuery<F, O, P> {
    /// The query asks for nothing but a limit and/or an offset.
    pub open spec fn spec_only_limit_offset(&self) -> bool {
        &&& self.filters is None
        &&& self.sort is None
        &&& self.pivot is None
        &&& self.columns is None
        &&& (self.limit is Some || self.offset is Some)
    }

    /// Whether the query takes the fast path that only applies a limit and
    /// an offset.
    pub fn only_limit_offset(&self) -> (b: bool)
        ensures
            b == self.spec_only_limit_offset(),
    {
        self.filters.is_none() && self.sort.is_none() && self.pivot.is_none()
            && self.columns.is_none() && (self.limit.is_some() || self.offset.is_some())
    }
}

/// How a query is answered.
#[derive(Debug)]
pub enum DataRoute {
    /// Answer with these slices of the stored batches.
    FastPath(Vec<BatchSlice>),
    /// Answer with the stored batches after this projection and limit/offset.
    Pipeline(PipelinePlan),
    /// The query filters, sorts or pivots first; the projection and
    /// limit/offset are planned over the batches those steps give.
    Transform,
}

/// The projection and limit/offset steps of a query: the positions of the
/// projected columns (none: keep all columns), and what to do with the
/// batches' rows (none: keep them all).
#[derive(Debug)]
pub struct PipelinePlan {
    pub projection: Option<Vec<usize>>,
    pub limit_offset: Option<LimitOffsetPlan>,
}

/// Why a query fails.
pub enum QueryError {
    Store(StoreError),
    Projection(ProjectionError),
}

/// The position of the first of `names` that equals `name` (what
/// `Schema::index_of` finds).
pub open spec fn spec_index_of(names: Seq<Seq<char>>, name: Seq<char>) -> Option<int>
    decreases names.len(),
{
    if names.len() == 0 {
        None
    } else {
        match spec_index_of(names.drop_last(), name) {
            Some(i) => Some(i),
            None => if names.last() == name {
                Some(names.len() - 1)
            } else {
                None
            },
        }
    }
}

/// The text of each string.
pub open spec fn texts(v: Seq<String>) -> Seq<Seq<char>> {
    v.map_values(|s: String| s@)
}

/// A projected column that the schema does not have.
pub struct ProjectionError {
    pub missing: String,
}

impl ProjectionError {
    /// The message that the error is reported with.
    pub fn message(&self) -> (m: String)
        ensures
            m@ == "Column not found: "@ + self.missing@,
    {
        String::from_str("Column not found: ").concat(self.missing.as_str())
    }
}

/// The position of `name` among the field names, as `Schema::index_of` finds it.
fn index_of(field_names: &Vec<String>, name: &String) -> (res: Option<usize>)
    ensures
        match res {
            Some(i) => spec_index_of(texts(field_names@), name@) == Some(i as int),
            None => spec_index_of(texts(field_names@), name@) is None,
        },
{
    let ghost names = texts(field_names@);
    let mut i: usize = 0;
    while i < field_names.len()
        invariant
            i <= field_names.len(),
            names == texts(field_names@),
            spec_index_of(names.take(i as int), name@) is None,
        decreases field_names.len() - i,
    {
        proof {
            assert(names.take(i + 1).drop_last() =~= names.take(i as int));
        }
        if field_names[i] == *name {
            proof {
                assert(names.take(i + 1).last() == names[i as int]);
                assert(names[i as int] == field_names@[i as int]@);
                assert(spec_index_of(names.take(i + 1), name@) == Some(i as int));
                lemma_index_of_prefix(names, i + 1);
            }
            return Some(i);
        }
        i = i + 1;
    }
    proof {
        assert(names.take(field_names.len() as int) =~= names);
    }
    None
}

/// A name found among the first `n` names is found at the same place among all.
proof fn lemma_index_of_prefix(names: Seq<Seq<char>>, n: int)
    requires
        0 <= n <= names.len(),
    ensures
        forall|name: Seq<char>|
            #[trigger] spec_index_of(names.take(n), name) is Some ==> spec_index_of(names, name)
                == spec_index_of(names.take(n), name),
    decreases names.len() - n,
{
    if n < names.len() {
        lemma_index_of_prefix(names, n + 1);
        assert(names.take(n + 1).drop_last() =~= names.take(n));
        assert forall|name: Seq<char>| #[trigger]
            spec_index_of(names.take(n), name) is Some implies spec_index_of(names, name)
            == spec_index_of(names.take(n), name) by {
            assert(spec_index_of(names.take(n + 1), name) == spec_index_of(names.take(n), name));
        }
    } else {
        assert(names.take(n) =~= names);
    }
}

/// The text of an optional list of strings.
pub open spec fn opt_texts(c: Option<Vec<String>>) -> Option<Seq<Seq<char>>> {
    match c {
        Some(v) => Some(texts(v@)),
        None => None,
    }
}

/// `p` is the projection that the column list `cols` asks of a schema with
/// these field names: none when no column is asked for (no list, or an
/// empty one); otherwise the position of each asked column, in order.
pub open spec fn projection_ok(
    p: Option<Vec<usize>>,
    names: Seq<Seq<char>>,
    cols: Option<Seq<Seq<char>>>,
) -> bool {
    match p {
        None => cols is None || cols.unwrap().len() == 0,
        Some(ix) => {
            &&& cols is Some
            &&& cols.unwrap().len() > 0
            &&& ix.len() == cols.unwrap().len()
            &&& forall|k: int|
                0 <= k < ix.len() ==> spec_index_of(names, #[trigger] cols.unwrap()[k]) == Some(
                    ix@[k] as int,
                )
        },
    }
}

/// `e` names the first column of `cols` that the field names lack.
pub open spec fn projection_fails(
    e: ProjectionError,
    names: Seq<Seq<char>>,
    cols: Option<Seq<Seq<char>>>,
) -> bool {
    &&& cols is Some
    &&& exists|k: int|
        0 <= k < cols.unwrap().len() && spec_index_of(names, #[trigger] cols.unwrap()[k]) is None
            && e.missing@ == cols.unwrap()[k] && forall|j: int|
            0 <= j < k ==> spec_index_of(names, #[trigger] cols.unwrap()[j]) is Some
}

/// The column positions of a projection: `None` when no column is asked for,
/// the position of each asked column in order, or the first asked column
/// that the schema lacks.
pub fn resolve_projection(field_names: &Vec<String>, cols: &Vec<String>) -> (res: Result<
    Option<Vec<usize>>,
    ProjectionError,
>)
    ensures
        match res {
            Ok(p) => projection_ok(p, texts(field_names@), Some(texts(cols@))),
            Err(e) => projection_fails(e, texts(field_names@), Some(texts(cols@))),
        },
{
    if cols.len() == 0 {
        return Ok(None);
    }
    let mut indices: Vec<usize> = Vec::new();
    let mut k: usize = 0;
    while k < cols.len()
        invariant
            k <= cols.len(),
            indices.len() == k,
            forall|j: int|
                0 <= j < k ==> spec_index_of(texts(field_names@), #[trigger] cols@[j]@) == Some(
                    indices@[j] as int,
                ),
        decreases cols.len() - k,
    {
        match index_of(field_names, &cols[k]) {
            Some(i) => {
                indices.push(i);
            },
            None => {
                proof {
                    let c = texts(cols@);
                    assert(c[k as int] == cols@[k as int]@);
                    assert forall|j: int| 0 <= j < k implies spec_index_of(
                        texts(field_names@),
                        #[trigger] c[j],
                    ) is Some by {
                        assert(c[j] == cols@[j]@);
                    }
                }
                return Err(ProjectionError { missing: cols[k].clone() });
            },
        }
        k = k + 1;
    }
    proof {
        let c = texts(cols@);
        assert forall|j: int| 0 <= j < indices.len() implies spec_index_of(
            texts(field_names@),
            #[trigger] c[j],
        ) == Some(indices@[j] as int) by {
            assert(c[j] == cols@[j]@);
        }
    }
    Ok(Some(indices))
}

/// A field of the stored schema as the metadata reads it.
pub struct FieldInfo {
    pub name: String,
    pub data_type: ColumnType,
    pub nullable: bool,
}

/// The metadata of one column: its name, simple type name and nullability.
pub struct ColumnMeta {
    pub name: String,
    pub simple_type: &'static str,
    pub nullable: bool,
}

/// The metadata of the stored schema.
pub struct MetaData {
    pub columns: Vec<ColumnMeta>,
    pub column_count: usize,
}

/// `m` is the metadata of field `f`.
pub open spec fn describes(m: ColumnMeta, f: FieldInfo) -> bool {
    &&& m.name@ == f.name@
    &&& m.simple_type@ == simple_type_name(f.data_type)
    &&& m.nullable == f.nullable
}

/// The metadata of a schema with these fields: one entry per field, in order.
pub fn build_meta_data(fields: &Vec<FieldInfo>) -> (meta: MetaData)
    ensures
        meta.column_count == fields.len(),
        meta.columns.len() == fields.len(),
        forall|i: int| 0 <= i < fields.len() ==> describes(#[trigger] meta.columns@[i], fields@[i]),
{
    let mut columns: Vec<ColumnMeta> = Vec::new();
    let mut i: usize = 0;
    while i < fields.len()
        invariant
            i <= fields.len(),
            columns.len() == i,
            forall|j: int| 0 <= j < i ==> describes(#[trigger] columns@[j], fields@[j]),
        decreases fields.len() - i,
    {
        let f = &fields[i];
        columns.push(
            ColumnMeta {
                name: f.name.clone(),
                simple_type: to_simple_type(&f.data_type),
                nullable: f.nullable,
            },
        );
        i = i + 1;
    }
    MetaData { columns, column_count: fields.len() }
}

/// Whether the fast path's arithmetic stays within `usize` on these batches:
/// the rows add up within `usize` and `borrowed_window_fits` holds.
pub fn borrowed_window_fits_check(batch_rows: &[usize], offset: usize, limit: Option<usize>) -> (ok:
    bool)
    ensures
        ok == (total_rows(batch_rows@) <= usize::MAX && borrowed_window_fits(
            batch_rows@,
            offset as int,
            limit,
        )),
{
    let ghost rows = batch_rows@;
    let n = batch_rows.len();
    let mut before: usize = 0;
    let mut i: usize = 0;
    proof {
        assert(rows.take(0) =~= Seq::<usize>::empty());
    }
    while i < n
        invariant
            n == rows.len(),
            rows == batch_rows@,
            i <= n,
            before == rows_before(rows, i as int),
            forall|j: int|
                0 <= j < i && #[trigger] row_in_batch(rows, j, offset as int) ==> match limit {
                    Some(l) => l == 0 || offset - rows_before(rows, j) + l <= usize::MAX,
                    None => true,
                },
        decreases n - i,
    {
        proof {
            assert(rows.take(i + 1).drop_last() =~= rows.take(i as int));
        }
        let r = batch_rows[i];
        if r > usize::MAX - before {
            proof {
                lemma_total_ge_prefix(rows, i + 1);
            }
            return false;
        }
        let next = before + r;
        if before <= offset && offset < next {
            match limit {
                Some(l) => {
                    if l != 0 && l > usize::MAX - (offset - before) {
                        assert(row_in_batch(rows, i as int, offset as int));
                        return false;
                    }
                },
                None => {},
            }
        }
        before = next;
        i = i + 1;
    }
    proof {
        assert(rows.take(n as int) =~= rows);
    }
    true
}

proof fn lemma_total_ge_prefix(rows: Seq<usize>, i: int)
    requires
        0 <= i <= rows.len(),
    ensures
        rows_before(rows, i) <= total_rows(rows),
    decreases rows.len() - i,
{
    if i < rows.len() {
        lemma_total_ge_prefix(rows, i + 1);
        assert(rows.take(i + 1).drop_last() =~= rows.take(i));
    } else {
        assert(rows.take(i) =~= rows);
    }
}

/// `p` is the limit/offset step for batches of these row counts: none when
/// the query has neither a limit nor an offset, otherwise the owning
/// limit/offset plan.
pub open spec fn limit_offset_ok(
    p: Option<LimitOffsetPlan>,
    rows: Seq<usize>,
    limit: Option<usize>,
    offset: Option<usize>,
) -> bool {
    match p {
        None => limit is None && offset is None,
        Some(plan) => (limit is Some || offset is Some) && is_limit_offset_plan(
            plan,
            rows,
            limit,
            offset,
        ),
    }
}

/// `res` is the outcome of planning the projection and limit/offset steps
/// over batches with these field names and row counts.
pub open spec fn pipeline_ok(
    res: Result<PipelinePlan, ProjectionError>,
    names: Seq<Seq<char>>,
    rows: Seq<usize>,
    cols: Option<Seq<Seq<char>>>,
    limit: Option<usize>,
    offset: Option<usize>,
) -> bool {
    match res {
        Ok(p) => projection_ok(p.projection, names, cols) && limit_offset_ok(
            p.limit_offset,
            rows,
            limit,
            offset,
        ),
        Err(e) => projection_fails(e, names, cols),
    }
}

/// Plan the projection and limit/offset steps over batches with these field
/// names and row counts (a projection keeps the row counts).
pub fn plan_pipeline(
    field_names: &Vec<String>,
    batch_rows: &[usize],
    columns: &Option<Vec<String>>,
    limit: Option<usize>,
    offset: Option<usize>,
) -> (res: Result<PipelinePlan, ProjectionError>)
    ensures
        pipeline_ok(res, texts(field_names@), batch_rows@, opt_texts(*columns), limit, offset),
{
    let projection = match columns {
        Some(c) => match resolve_projection(field_names, c) {
            Ok(p) => p,
            Err(e) => {
                return Err(e);
            },
        },
        None => None,
    };
    let limit_offset = if limit.is_some() || offset.is_some() {
        Some(apply_limit_offset(batch_rows, limit, offset))
    } else {
        None
    };
    Ok(PipelinePlan { projection, limit_offset })
}

/// Law: an empty column list plans like no column list.
pub proof fn lemma_empty_projection_like_none(
    res: Result<PipelinePlan, ProjectionError>,
    names: Seq<Seq<char>>,
    rows: Seq<usize>,
    limit: Option<usize>,
    offset: Option<usize>,
)
    ensures
        pipeline_ok(res, names, rows, Some(Seq::<Seq<char>>::empty()), limit, offset) <==> pipeline_ok(
            res,
            names,
            rows,
            None,
            limit,
            offset,
        ),
{
}

/// The names of a schema's fields.
pub open spec fn schema_names(schema: CsvSchema) -> Seq<Seq<char>> {
    schema.views().map_values(|v: (Seq<char>, Seq<char>, bool)| v.0)
}

/// The names of a schema's fields, in order.
pub fn field_names(schema: &CsvSchema) -> (names: Vec<String>)
    ensures
        texts(names@) == schema_names(*schema),
{
    let fields = schema.fields();
    let mut names: Vec<String> = Vec::new();
    let mut i: usize = 0;
    while i < fields.len()
        invariant
            i <= fields.len(),
            crate::csv::field_views(fields@) == schema.views(),
            texts(names@) == schema_names(*schema).take(i as int),
        decreases fields.len() - i,
    {
        proof {
            assert(crate::csv::field_views(fields@)[i as int] == crate::csv::field_view(
                fields@[i as int],
            ));
            assert(schema_names(*schema)[i as int] == fields@[i as int].name@);
        }
        let ghost before = names@;
        let name = fields[i].name.clone();
        names.push(name);
        proof {
            assert(names@ == before.push(name));
            assert(texts(names@) =~= texts(before).push(name@));
            assert(schema_names(*schema).take(i + 1) =~= schema_names(*schema).take(i as int).push(
                schema_names(*schema)[i as int],
            ));
        }
        i = i + 1;
    }
    assert(schema_names(*schema).take(fields.len() as int) =~= schema_names(*schema));
    names
}

/// The fields of a schema as the metadata reads them.
pub fn field_infos(schema: &CsvSchema) -> (infos: Vec<FieldInfo>)
    ensures
        infos.len() == schema.views().len(),
        forall|i: int|
            0 <= i < infos.len() ==> {
                &&& (#[trigger] infos@[i]).name@ == schema.views()[i].0
                &&& infos@[i].data_type == column_type_of_text(schema.views()[i].1)
                &&& infos@[i].nullable == schema.views()[i].2
            },
{
    let fields = schema.fields();
    let mut infos: Vec<FieldInfo> = Vec::new();
    let mut i: usize = 0;
    while i < fields.len()
        invariant
            i <= fields.len(),
            crate::csv::field_views(fields@) == schema.views(),
            infos.len() == i,
            forall|j: int|
                0 <= j < i ==> {
                    &&& (#[trigger] infos@[j]).name@ == schema.views()[j].0
                    &&& infos@[j].data_type == column_type_of_text(schema.views()[j].1)
                    &&& infos@[j].nullable == schema.views()[j].2
                },
        decreases fields.len() - i,
    {
        let f = &fields[i];
        proof {
            assert(crate::csv::field_views(fields@)[i as int] == crate::csv::field_view(
                fields@[i as int],
            ));
        }
        infos.push(
            FieldInfo {
                name: f.name.clone(),
                data_type: column_type_from_text(&f.type_text),
                nullable: f.nullable,
            },
        );
        i = i + 1;
    }
    infos
}

/// `m` is the metadata of a field given as plain values.
pub open spec fn describes_field(m: ColumnMeta, v: (Seq<char>, Seq<char>, bool)) -> bool {
    &&& m.name@ == v.0
    &&& m.simple_type@ == simple_type_name(column_type_of_text(v.1))
    &&& m.nullable == v.2
}

/// The metadata of the stored schema, or `NoSchema` when nothing is stored.
pub fn get_meta_data<B>(store: &DataStore<CsvSchema, B>) -> (res: Result<MetaData, StoreError>)
    ensures
        store.schema is None ==> res == Err::<MetaData, StoreError>(StoreError::NoSchema),
        store.schema matches Some(s) ==> (res matches Ok(m) && m.column_count == s.views().len()
            && m.columns.len() == s.views().len() && forall|i: int|
            0 <= i < m.columns.len() ==> describes_field(#[trigger] m.columns@[i], s.views()[i])),
{
    let schema = match store.stored_schema() {
        Ok(s) => s,
        Err(e) => {
            return Err(e);
        },
    };
    let infos = field_infos(schema);
    let meta = build_meta_data(&infos);
    assert forall|i: int| 0 <= i < meta.columns.len() implies describes_field(
        #[trigger] meta.columns@[i],
        schema.views()[i],
    ) by {
        assert(describes(meta.columns@[i], infos@[i]));
    }
    Ok(meta)
}

/// The query filters, sorts or pivots.
pub open spec fn transforms<F, O, P>(query: DataQuery<F, O, P>) -> bool {
    query.filters is Some || query.sort is Some || query.pivot is Some
}

/// `res` is how the stored data answers the query: no schema or no batches
/// is an error; a query that only limits and offsets takes the fast path
/// with the slices of the stored batches it selects; a query that filters,
/// sorts or pivots needs those steps first; any other is answered by the
/// projection and limit/offset steps planned over the stored batches, or
/// fails on the first projected column that the schema lacks.
pub open spec fn route_ok<B, F, O, P>(
    res: Result<DataRoute, QueryError>,
    store: DataStore<CsvSchema, B>,
    query: DataQuery<F, O, P>,
) -> bool {
    &&& (store.schema is None ==> res matches Err(QueryError::Store(StoreError::NoSchema)))
    &&& (store.schema is Some && store.batches is None ==> res matches Err(
        QueryError::Store(StoreError::NoBatches),
    ))
    &&& (store.schema is Some && store.batches is Some ==> match res {
        Ok(DataRoute::FastPath(slices)) => query.spec_only_limit_offset() && slices@
            == borrowed_window(
            rows_of(store.batches.unwrap()@),
            match query.offset {
                Some(o) => o as int,
                None => 0,
            },
            query.limit,
        ),
        Ok(DataRoute::Transform) => !query.spec_only_limit_offset() && transforms(query),
        Ok(DataRoute::Pipeline(p)) => !query.spec_only_limit_offset() && !transforms(query)
            && pipeline_ok(
            Ok(p),
            schema_names(store.schema.unwrap()),
            rows_of(store.batches.unwrap()@),
            opt_texts(query.columns),
            query.limit,
            query.offset,
        ),
        Err(QueryError::Projection(e)) => !query.spec_only_limit_offset() && !transforms(query)
            && pipeline_ok(
            Err(e),
            schema_names(store.schema.unwrap()),
            rows_of(store.batches.unwrap()@),
            opt_texts(query.columns),
            query.limit,
            query.offset,
        ),
        Err(QueryError::Store(_)) => false,
    })
}

/// How the stored data answers a query, as `route_ok` states it.
pub fn plan_data_query<B, F, O, P>(store: &DataStore<CsvSchema, B>, query: &DataQuery<F, O, P>) -> (res:
    Result<DataRoute, QueryError>)
    requires
        query.spec_only_limit_offset() ==> (store.batches matches Some(v) ==> {
            &&& total_rows(rows_of(v@)) <= usize::MAX
            &&& borrowed_window_fits(
                rows_of(v@),
                match query.offset {
                    Some(o) => o as int,
                    None => 0,
                },
                query.limit,
            )
        }),
    ensures
        route_ok(res, *store, *query),
{
    let schema = match store.stored_schema() {
        Ok(s) => s,
        Err(e) => {
            return Err(QueryError::Store(e));
        },
    };
    let batches = match store.stored_batches() {
        Ok(b) => b,
        Err(e) => {
            return Err(QueryError::Store(e));
        },
    };
    let rows = batch_row_counts(batches);
    if query.only_limit_offset() {
        let offset = match query.offset {
            Some(o) => o,
            None => 0,
        };
        let slices = apply_limit_offset_borrow(rows.as_slice(), offset, query.limit);
        Ok(DataRoute::FastPath(slices))
    } else if query.filters.is_some() || query.sort.is_some() || query.pivot.is_some() {
        Ok(DataRoute::Transform)
    } else {
        let names = field_names(schema);
        match plan_pipeline(&names, rows.as_slice(), &query.columns, query.limit, query.offset) {
            Ok(p) => Ok(DataRoute::Pipeline(p)),
            Err(e) => Err(QueryError::Projection(e)),
        }
    }
}


/// What a route gives of batches with these row counts: the positions of
/// the columns it keeps (none: all of them) and the row numbers, in order,
/// of the rows it keeps; none for a route that transforms the data first.
pub open spec fn route_answer(rows: Seq<usize>, route: DataRoute) -> Option<
    (Option<Seq<usize>>, Seq<int>),
> {
    match route {
        DataRoute::FastPath(slices) => Some((None, slice_rows(rows, slices@))),
        DataRoute::Pipeline(p) => Some(
            (
                match p.projection {
                    Some(ix) => Some(ix@),
                    None => None,
                },
                match p.limit_offset {
                    Some(plan) => plan_rows(rows, plan),
                    None => plan_rows(rows, LimitOffsetPlan::Unchanged),
                },
            ),
        ),
        DataRoute::Transform => None,
    }
}

/// Law: a query with an empty column list is answered like the same query
/// with no column list: both fail alike, or both keep all columns and the
/// same rows in the same order, though only the second may take the fast
/// path.
pub proof fn lemma_empty_columns_answer_like_none<B, F, O, P>(
    store: DataStore<CsvSchema, B>,
    with_empty: DataQuery<F, O, P>,
    without: DataQuery<F, O, P>,
    r1: Result<DataRoute, QueryError>,
    r2: Result<DataRoute, QueryError>,
)
    requires
        with_empty.columns matches Some(c) && c.len() == 0,
        without.columns is None,
        with_empty.filters == without.filters,
        with_empty.sort == without.sort,
        with_empty.pivot == without.pivot,
        with_empty.limit == without.limit,
        with_empty.offset == without.offset,
        store.batches matches Some(v) ==> total_rows(rows_of(v@)) <= usize::MAX,
        route_ok(r1, store, with_empty),
        route_ok(r2, store, without),
    ensures
        r1 is Ok <==> r2 is Ok,
        r1 is Err ==> r1 == r2,
        r1 is Ok ==> route_answer(rows_of(store.batches.unwrap()@), r1->Ok_0) == route_answer(
            rows_of(store.batches.unwrap()@),
            r2->Ok_0,
        ),
        r1 is Ok && !transforms(without) ==> (route_answer(
            rows_of(store.batches.unwrap()@),
            r1->Ok_0,
        ) matches Some(a) && a.0 is None),
{
    assert(opt_texts(with_empty.columns) =~= Some(Seq::<Seq<char>>::empty()));
    if store.schema is Some && store.batches is Some {
        let v = store.batches.unwrap();
        let rows = rows_of(v@);
        assert(v@.len() == v.len());
        if let Ok(DataRoute::Pipeline(p)) = r1 {
            if let Some(plan) = p.limit_offset {
                lemma_plan_rows_match_fast_path(rows, with_empty.limit, with_empty.offset, plan);
            }
        }
    }
}


/// Law: a query that carries filters, a sort or a pivot is never answered
/// from the stored batches as they are: where data is stored, it is routed
/// to the transform steps, which run before any projection or paging.
pub proof fn lemma_transforming_query_is_routed_to_transform<B, F, O, P>(
    store: DataStore<CsvSchema, B>,
    query: DataQuery<F, O, P>,
    res: Result<DataRoute, QueryError>,
)
    requires
        route_ok(res, store, query),
        store.schema is Some,
        store.batches is Some,
        query.filters is Some || query.sort is Some || query.pivot is Some,
    ensures
        res matches Ok(DataRoute::Transform),
{
}

/// Law: the pipeline keeps exactly the rows of the window
/// `offset .. offset + limit` of the stored rows (a missing offset being 0
/// and a missing limit keeping the rest), in order, whatever columns it
/// projects.
pub proof fn lemma_pipeline_rows_follow_limit_offset(
    p: PipelinePlan,
    names: Seq<Seq<char>>,
    rows: Seq<usize>,
    cols: Option<Seq<Seq<char>>>,
    limit: Option<usize>,
    offset: Option<usize>,
)
    requires
        pipeline_ok(Ok(p), names, rows, cols, limit, offset),
        rows.len() <= usize::MAX,
        total_rows(rows) <= usize::MAX,
    ensures
        route_answer(rows, DataRoute::Pipeline(p)) matches Some(a) && a.1 == slice_rows(
            rows,
            borrowed_window(
                rows,
                match offset {
                    Some(o) => o as int,
                    None => 0,
                },
                limit,
            ),
        ),
{
    match p.limit_offset {
        Some(plan) => {
            lemma_plan_rows_match_fast_path(rows, limit, offset, plan);
        },
        None => {
            lemma_plan_rows_match_fast_path(rows, None, None, LimitOffsetPlan::Unchanged);
        },
    }
}

} // verus!
