//! Schema validation of Arrow record batches for scatter layers.
//!
//! A scatter batch holds seven Float32 columns `x`, `y`, `r`, `g`, `b`, `a`
//! and `size`, each with one value per row. The validation reads, for each
//! column of the batch, its name, its data type and its length; a column is
//! looked up by name as Arrow does (the first column of that name).

use vstd::prelude::*;
use arrow::datatypes::DataType;

verus! {

#[verifier::external_type_specification]
#[verifier::external_body]
pub struct ExDataType(DataType);

/// Schema and layout errors of a scatter record batch.
#[derive(Debug)]
pub enum ArrowSchemaError {
    /// A required column is absent.
    MissingColumn(String),
    /// A required column is not Float32.
    WrongType { name: String, dt: DataType },
    /// A required column does not have one value per row.
    WrongLen { name: String, expected: usize, actual: usize },
}

/// What the validation reads of one column of a record batch.
pub struct ColumnMeta {
    /// Field name.
    pub name: String,
    /// Arrow data type.
    pub data_type: DataType,
    /// Whether `data_type` is `DataType::Float32`.
    pub is_float32: bool,
    /// Number of values.
    pub len: usize,
}

/// What the validation reads of a record batch: its row count and its
/// columns in schema order.
pub struct BatchMeta {
    /// Number of rows.
    pub num_rows: usize,
    /// Columns in schema order.
    pub columns: Vec<ColumnMeta>,
}

/// Name of the `k`-th required scatter column.
pub open spec fn scatter_column(k: int) -> Seq<char> {
    if k == 0 {
        "x"@
    } else if k == 1 {
        "y"@
    } else if k == 2 {
        "r"@
    } else if k == 3 {
        "g"@
    } else if k == 4 {
        "b"@
    } else if k == 5 {
        "a"@
    } else {
        "size"@
    }
}

/// Number of required scatter columns.
pub const SCATTER_COLUMNS: usize = 7;

/// The `k`-th required scatter column name (`x`, `y`, `r`, `g`, `b`, `a`, `size`).
pub fn scatter_column_name(k: usize) -> (s: String)
    requires
        k < SCATTER_COLUMNS,
    ensures
        s@ == scatter_column(k as int),
{
    if k == 0 {
        "x".to_owned()
    } else if k == 1 {
        "y".to_owned()
    } else if k == 2 {
        "r".to_owned()
    } else if k == 3 {
        "g".to_owned()
    } else if k == 4 {
        "b".to_owned()
    } else if k == 5 {
        "a".to_owned()
    } else {
        "size".to_owned()
    }
}

/// Column `i` is the first column named `name`.
pub open spec fn is_first_named(cols: Seq<ColumnMeta>, name: Seq<char>, i: int) -> bool {
    &&& 0 <= i < cols.len()
    &&& cols[i].name@ == name
    &&& forall|j: int| 0 <= j < i ==> (#[trigger] cols[j]).name@ != name
}

/// Some column is named `name`.
pub open spec fn has_column(cols: Seq<ColumnMeta>, name: Seq<char>) -> bool {
    exists|i: int| 0 <= i < cols.len() && (#[trigger] cols[i]).name@ == name
}

/// The column named `name` exists, is Float32 and has one value per row.
pub open spec fn column_ok(cols: Seq<ColumnMeta>, rows: usize, name: Seq<char>) -> bool {
    exists|i: int| #[trigger] is_first_named(cols, name, i) && cols[i].is_float32 && cols[i].len == rows
}

/// `e` is the error that the check of column `name` reports.
pub open spec fn reports(e: ArrowSchemaError, cols: Seq<ColumnMeta>, rows: usize, name: Seq<char>) -> bool {
    match e {
        ArrowSchemaError::MissingColumn(n) => n@ == name && !has_column(cols, name),
        ArrowSchemaError::WrongType { name: n, dt } => n@ == name && exists|i: int|
            #[trigger] is_first_named(cols, name, i) && !cols[i].is_float32 && dt == cols[i].data_type,
        ArrowSchemaError::WrongLen { name: n, expected, actual } => n@ == name && exists|i: int|
            #[trigger] is_first_named(cols, name, i) && cols[i].is_float32 && cols[i].len != rows
                && expected == rows && actual == cols[i].len,
    }
}

/// Index of the first column named `name`.
pub fn find_column(cols: &Vec<ColumnMeta>, name: &String) -> (r: Option<usize>)
    ensures
        r matches Some(i) ==> is_first_named(cols@, name@, i as int),
        r is None ==> !has_column(cols@, name@),
{
    let mut i: usize = 0;
    while i < cols.len()
        invariant
            i <= cols@.len(),
            forall|j: int| 0 <= j < i ==> (#[trigger] cols@[j]).name@ != name@,
        decreases cols@.len() - i,
    {
        if cols[i].name == *name {
            return Some(i);
        }
        i = i + 1;
    }
    None
}

/// Checks that a batch holds the seven scatter columns as Float32 columns
/// with one value per row; the columns are checked in the order `x`, `y`,
/// `r`, `g`, `b`, `a`, `size` and the first failing check is reported.
pub fn validate_scatter_batch(batch: BatchMeta) -> (r: Result<(), ArrowSchemaError>)
    ensures
        r is Ok <==> forall|k: int| 0 <= k < SCATTER_COLUMNS ==> column_ok(batch.columns@, batch.num_rows, #[trigger] scatter_column(k)),
        r matches Err(e) ==> exists|k: int| 0 <= k < SCATTER_COLUMNS && {
            &&& forall|j: int| 0 <= j < k ==> column_ok(batch.columns@, batch.num_rows, #[trigger] scatter_column(j))
            &&& reports(e, batch.columns@, batch.num_rows, #[trigger] scatter_column(k))
        },
{
    let ghost cols0 = batch.columns@;
    let rows = batch.num_rows;
    let mut columns = batch.columns;
    let mut k: usize = 0;
    while k < SCATTER_COLUMNS
        invariant
            columns@ == cols0,
            rows == batch.num_rows,
            cols0 == batch.columns@,
            k <= SCATTER_COLUMNS,
            forall|j: int| 0 <= j < k ==> column_ok(cols0, rows, #[trigger] scatter_column(j)),
        decreases SCATTER_COLUMNS - k,
    {
        let name = scatter_column_name(k);
        match find_column(&columns, &name) {
            None => {
                let e = ArrowSchemaError::MissingColumn(name);
                assert(reports(e, cols0, rows, scatter_column(k as int)));
                assert(!column_ok(cols0, rows, scatter_column(k as int)));
                return Err(e);
            }
            Some(i) => {
                if !columns[i].is_float32 {
                    let col = columns.remove(i);
                    let e = ArrowSchemaError::WrongType { name, dt: col.data_type };
                    assert(reports(e, cols0, rows, scatter_column(k as int)));
                    assert(!column_ok(cols0, rows, scatter_column(k as int))) by {
                        if column_ok(cols0, rows, scatter_column(k as int)) {
                            let w = choose|w: int| #[trigger] is_first_named(cols0, scatter_column(k as int), w)
                                && cols0[w].is_float32 && cols0[w].len == rows;
                            assert(w == i as int);
                        }
                    }
                    return Err(e);
                }
                if columns[i].len != rows {
                    let actual = columns[i].len;
                    let e = ArrowSchemaError::WrongLen { name, expected: rows, actual };
                    assert(reports(e, cols0, rows, scatter_column(k as int)));
                    assert(!column_ok(cols0, rows, scatter_column(k as int))) by {
                        if column_ok(cols0, rows, scatter_column(k as int)) {
                            let w = choose|w: int| #[trigger] is_first_named(cols0, scatter_column(k as int), w)
                                && cols0[w].is_float32 && cols0[w].len == rows;
                            assert(w == i as int);
                        }
                    }
                    return Err(e);
                }
                assert(column_ok(cols0, rows, scatter_column(k as int)));
            }
        }
        k = k + 1;
    }
    Ok(())
}

} // verus!
