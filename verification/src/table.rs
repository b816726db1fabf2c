//! Tables and the three conversion entry points: one row, an empty table,
//! and the columnar batch conversion of many instances in one pass.
//!
//! All three derive their columns from the one schema compiler, so their
//! column names, order and storage types can never diverge.

use vstd::prelude::*;

use crate::error::Error;
use crate::row::{convert_instance, dup_leaf};
use crate::schema::{
    compile_schema, dup_dtype, lemma_schema_len_is_leaf_count, spec_record_columns,
    views_of_columns, ColumnSpec, ColumnSpecV, RecordSchema,
};
use crate::type_registry::StorageType;
use crate::value::{
    leaf_view, leafs_view, lemma_leafs_view, lemma_leafs_view_push, spec_record_values,
    spec_wf_record, LeafV, LeafValue, Value,
};

verus! {

/// One finished column: its dotted name, its storage type, and one cell
/// per row.
#[derive(PartialEq, Eq, Debug)]
pub struct Column {
    pub name: String,
    pub dtype: StorageType,
    pub values: Vec<LeafValue>,
}

/// A columnar table: a row count and a list of equally long columns. The
/// row count stands on its own, so a table of zero columns still reports
/// how many rows it has.
#[derive(PartialEq, Eq, Debug)]
pub struct Table {
    pub height: usize,
    pub columns: Vec<Column>,
}

/// Every column holds exactly one cell per row.
pub open spec fn table_wf(t: Table) -> bool {
    forall|j: int| 0 <= j < t.columns@.len() ==> (#[trigger] t.columns@[j]).values@.len()
        == t.height
}

/// The column names and storage types of a table, in order.
pub open spec fn table_header(t: Table) -> Seq<ColumnSpecV> {
    t.columns@.map_values(|c: Column| ColumnSpecV { name: c.name@, dtype: c.dtype })
}

/// The cell contents of a table, per column.
pub open spec fn table_cells(t: Table) -> Seq<Seq<LeafV>> {
    t.columns@.map_values(|c: Column| leafs_view(c.values@))
}

/// Builds one column per spec, each holding row `i`'s leaf for that
/// column, for every row in order.
fn build_columns(specs: &Vec<ColumnSpec>, rows: &Vec<Vec<LeafValue>>) -> (cols: Vec<Column>)
    requires
        forall|i: int| 0 <= i < rows@.len() ==> (#[trigger] rows@[i])@.len() == specs@.len(),
    ensures
        cols@.len() == specs@.len(),
        forall|j: int|
            0 <= j < specs@.len() ==> (#[trigger] cols@[j]).name@ == specs@[j].name@
                && cols@[j].dtype == specs@[j].dtype,
        forall|j: int|
            0 <= j < specs@.len() ==> (#[trigger] cols@[j]).values@.len() == rows@.len(),
        forall|j: int|
            0 <= j < specs@.len() ==> leafs_view((#[trigger] cols@[j]).values@) == Seq::new(
                rows@.len(),
                |i: int| leaf_view(rows@[i]@[j]),
            ),
{
    let mut cols: Vec<Column> = Vec::new();
    let mut j: usize = 0;
    while j < specs.len()
        invariant
            0 <= j <= specs@.len(),
            cols@.len() == j,
            forall|i: int| 0 <= i < rows@.len() ==> (#[trigger] rows@[i])@.len() == specs@.len(),
            forall|q: int|
                0 <= q < j ==> (#[trigger] cols@[q]).name@ == specs@[q].name@ && cols@[q].dtype
                    == specs@[q].dtype,
            forall|q: int| 0 <= q < j ==> (#[trigger] cols@[q]).values@.len() == rows@.len(),
            forall|q: int|
                0 <= q < j ==> leafs_view((#[trigger] cols@[q]).values@) == Seq::new(
                    rows@.len(),
                    |i: int| leaf_view(rows@[i]@[q]),
                ),
        decreases specs@.len() - j,
    {
        let mut cells: Vec<LeafValue> = Vec::new();
        let mut i: usize = 0;
        while i < rows.len()
            invariant
                0 <= i <= rows@.len(),
                0 <= j < specs@.len(),
                cells@.len() == i,
                forall|ii: int|
                    0 <= ii < rows@.len() ==> (#[trigger] rows@[ii])@.len() == specs@.len(),
                leafs_view(cells@) == Seq::new(i as nat, |q: int| leaf_view(rows@[q]@[j as int])),
            decreases rows@.len() - i,
        {
            let leaf = dup_leaf(&rows[i][j]);
            proof {
                lemma_leafs_view_push(cells@, leaf);
                assert(Seq::new(i as nat, |q: int| leaf_view(rows@[q]@[j as int])).push(
                    leaf_view(rows@[i as int]@[j as int]),
                ) =~= Seq::new((i + 1) as nat, |q: int| leaf_view(rows@[q]@[j as int])));
            }
            cells.push(leaf);
            i = i + 1;
        }
        let spec_ref = &specs[j];
        let built = Column {
            name: spec_ref.name.clone(),
            dtype: dup_dtype(&spec_ref.dtype),
            values: cells,
        };
        proof {
            lemma_leafs_view(built.values@);
        }
        cols.push(built);
        j = j + 1;
    }
    cols
}

/// A table with the record type's columns and no rows.
pub fn empty_table(rs: &RecordSchema) -> (t: Table)
    ensures
        t.height == 0,
        table_wf(t),
        table_header(t) == spec_record_columns(*rs),
        table_cells(t) == Seq::new(
            spec_record_columns(*rs).len(),
            |j: int| Seq::<LeafV>::empty(),
        ),
{
    let specs = compile_schema(rs);
    let rows: Vec<Vec<LeafValue>> = Vec::new();
    let cols = build_columns(&specs, &rows);
    let t = Table { height: 0, columns: cols };
    proof {
        assert(table_header(t) =~= views_of_columns(specs@));
        assert forall|j: int| 0 <= j < t.columns@.len() implies leafs_view(
            (#[trigger] t.columns@[j]).values@,
        ) =~= Seq::<LeafV>::empty() by {}
        assert(table_cells(t) =~= Seq::new(
            spec_record_columns(*rs).len(),
            |j: int| Seq::<LeafV>::empty(),
        ));
    }
    t
}

/// Converts one instance into a table of exactly one row; a record type
/// without columns gives a one-row, zero-column table. Succeeds exactly on
/// well-formed instances; no partial table is ever returned.
pub fn to_row(values: &Vec<Value>, rs: &RecordSchema) -> (r: Result<Table, Error>)
    ensures
        r is Ok <==> spec_wf_record(values@, *rs),
        r matches Ok(t) ==> t.height == 1 && table_wf(t) && table_header(t) == spec_record_columns(
            *rs,
        ) && table_cells(t) == Seq::new(
            spec_record_columns(*rs).len(),
            |j: int| seq![spec_record_values(values@, *rs)[j]],
        ),
        r matches Err(e) ==> e is Conversion,
{
    let row = match convert_instance(values, rs) {
        Ok(row) => row,
        Err(e) => {
            return Err(e);
        },
    };
    let specs = compile_schema(rs);
    proof {
        lemma_schema_len_is_leaf_count(*rs);
        lemma_leafs_view(row@);
    }
    let mut rows: Vec<Vec<LeafValue>> = Vec::new();
    rows.push(row);
    let cols = build_columns(&specs, &rows);
    let t = Table { height: 1, columns: cols };
    proof {
        assert(table_header(t) =~= views_of_columns(specs@));
        assert forall|j: int| 0 <= j < spec_record_columns(*rs).len() implies leafs_view(
            (#[trigger] t.columns@[j]).values@,
        ) =~= seq![spec_record_values(values@, *rs)[j]] by {
            lemma_leafs_view(rows@[0]@);
        }
        assert(table_cells(t) =~= Seq::new(
            spec_record_columns(*rs).len(),
            |j: int| seq![spec_record_values(values@, *rs)[j]],
        ));
    }
    Ok(t)
}

/// Converts a batch of instances into one table with one row per
/// instance, iterating the batch once and filling every column's buffer
/// as it goes. An empty batch gives the record type's columns and zero
/// rows; a record type without columns still reports the batch's length
/// as its row count. Fails atomically on the first ill-formed instance.
pub fn to_table(instances: &Vec<Vec<Value>>, rs: &RecordSchema) -> (r: Result<Table, Error>)
    ensures
        r is Ok <==> (forall|i: int|
            0 <= i < instances@.len() ==> spec_wf_record((#[trigger] instances@[i])@, *rs)),
        r matches Ok(t) ==> t.height == instances@.len() && table_wf(t) && table_header(t)
            == spec_record_columns(*rs) && table_cells(t) == Seq::new(
            spec_record_columns(*rs).len(),
            |j: int| Seq::new(instances@.len(), |i: int| spec_record_values(instances@[i]@, *rs)[j]),
        ),
        r matches Err(e) ==> e is Conversion,
{
    let specs = compile_schema(rs);
    proof {
        lemma_schema_len_is_leaf_count(*rs);
    }
    let mut rows: Vec<Vec<LeafValue>> = Vec::new();
    let mut i: usize = 0;
    while i < instances.len()
        invariant
            0 <= i <= instances@.len(),
            rows@.len() == i,
            views_of_columns(specs@) == spec_record_columns(*rs),
            specs@.len() == crate::schema::spec_record_leaf_count(*rs),
            forall|k: int|
                0 <= k < i ==> spec_wf_record((#[trigger] instances@[k])@, *rs),
            forall|k: int|
                0 <= k < i ==> leafs_view((#[trigger] rows@[k])@) == spec_record_values(
                    instances@[k]@,
                    *rs,
                ),
            forall|k: int| 0 <= k < i ==> (#[trigger] rows@[k])@.len() == specs@.len(),
        decreases instances@.len() - i,
    {
        let row = match convert_instance(&instances[i], rs) {
            Ok(row) => row,
            Err(e) => {
                return Err(e);
            },
        };
        proof {
            lemma_leafs_view(row@);
        }
        rows.push(row);
        i = i + 1;
    }
    let cols = build_columns(&specs, &rows);
    let t = Table { height: instances.len(), columns: cols };
    proof {
        assert(table_header(t) =~= views_of_columns(specs@));
        assert forall|j: int| 0 <= j < spec_record_columns(*rs).len() implies leafs_view(
            (#[trigger] t.columns@[j]).values@,
        ) =~= Seq::new(
            instances@.len(),
            |q: int| spec_record_values(instances@[q]@, *rs)[j],
        ) by {
            assert forall|q: int| 0 <= q < instances@.len() implies leaf_view(rows@[q]@[j])
                == spec_record_values(instances@[q]@, *rs)[j] by {
                lemma_leafs_view(rows@[q]@);
            }
            assert(Seq::new(rows@.len(), |q: int| leaf_view(rows@[q]@[j])) =~= Seq::new(
                instances@.len(),
                |q: int| spec_record_values(instances@[q]@, *rs)[j],
            ));
        }
        assert(table_cells(t) =~= Seq::new(
            spec_record_columns(*rs).len(),
            |j: int| Seq::new(instances@.len(), |q: int| spec_record_values(instances@[q]@, *rs)[j]),
        ));
    }
    Ok(t)
}

/// The three entry points share one schema: any two tables whose headers
/// both match a record type's compiled columns — as every table the
/// engine returns does — have identical column names, order and storage
/// types, whatever their row counts.
pub proof fn lemma_shared_schema(rs: RecordSchema, t1: Table, t2: Table)
    requires
        table_header(t1) == spec_record_columns(rs),
        table_header(t2) == spec_record_columns(rs),
    ensures
        table_header(t1) == table_header(t2),
{
}

/// Conversion is deterministic: two tables that both satisfy the one-row
/// conversion's contract for the same instance and record type are equal
/// in height, header and every cell. Converting twice changes nothing.
pub proof fn lemma_row_conversion_deterministic(
    values: Seq<Value>,
    rs: RecordSchema,
    t1: Table,
    t2: Table,
)
    requires
        t1.height == 1,
        table_header(t1) == spec_record_columns(rs),
        table_cells(t1) == Seq::new(
            spec_record_columns(rs).len(),
            |j: int| seq![spec_record_values(values, rs)[j]],
        ),
        t2.height == 1,
        table_header(t2) == spec_record_columns(rs),
        table_cells(t2) == Seq::new(
            spec_record_columns(rs).len(),
            |j: int| seq![spec_record_values(values, rs)[j]],
        ),
    ensures
        t1.height == t2.height,
        table_header(t1) == table_header(t2),
        table_cells(t1) == table_cells(t2),
{
}

/// Batch conversion is deterministic too: two tables that both satisfy
/// the batch conversion's contract for the same instances and record type
/// are equal in height, header and every cell.
pub proof fn lemma_batch_conversion_deterministic(
    instances: Seq<Seq<Value>>,
    rs: RecordSchema,
    t1: Table,
    t2: Table,
)
    requires
        t1.height == instances.len(),
        table_header(t1) == spec_record_columns(rs),
        table_cells(t1) == Seq::new(
            spec_record_columns(rs).len(),
            |j: int| Seq::new(instances.len(), |i: int| spec_record_values(instances[i], rs)[j]),
        ),
        t2.height == instances.len(),
        table_header(t2) == spec_record_columns(rs),
        table_cells(t2) == Seq::new(
            spec_record_columns(rs).len(),
            |j: int| Seq::new(instances.len(), |i: int| spec_record_values(instances[i], rs)[j]),
        ),
    ensures
        t1.height == t2.height,
        table_header(t1) == table_header(t2),
        table_cells(t1) == table_cells(t2),
{
}

/// A batch of zero instances equals the empty table: same height, same
/// header, same (absent) cells.
pub proof fn lemma_empty_batch_is_empty_table(rs: RecordSchema, batch: Table, empty: Table)
    requires
        batch.height == 0,
        table_header(batch) == spec_record_columns(rs),
        table_cells(batch).len() == spec_record_columns(rs).len(),
        forall|j: int|
            0 <= j < table_cells(batch).len() ==> (#[trigger] table_cells(batch)[j]).len() == 0,
        empty.height == 0,
        table_header(empty) == spec_record_columns(rs),
        table_cells(empty).len() == spec_record_columns(rs).len(),
        forall|j: int|
            0 <= j < table_cells(empty).len() ==> (#[trigger] table_cells(empty)[j]).len() == 0,
    ensures
        batch.height == empty.height,
        table_header(batch) == table_header(empty),
        table_cells(batch) == table_cells(empty),
{
    assert forall|j: int| 0 <= j < table_cells(batch).len() implies table_cells(batch)[j]
        =~= table_cells(empty)[j] by {}
    assert(table_cells(batch) =~= table_cells(empty));
}

} // verus!
