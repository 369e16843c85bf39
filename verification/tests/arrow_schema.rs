use arrow::datatypes::DataType;
use phantomat::arrow_schema::{scatter_column_name, validate_scatter_batch, ArrowSchemaError, BatchMeta, ColumnMeta};

fn col(name: &str, dt: DataType, len: usize) -> ColumnMeta {
    let is_float32 = dt == DataType::Float32;
    ColumnMeta { name: name.to_string(), data_type: dt, is_float32, len }
}

fn full(rows: usize) -> Vec<ColumnMeta> {
    ["x", "y", "r", "g", "b", "a", "size"].iter().map(|n| col(n, DataType::Float32, rows)).collect()
}

#[test]
fn column_names_in_order() {
    let names: Vec<String> = (0..7).map(scatter_column_name).collect();
    assert_eq!(names, vec!["x", "y", "r", "g", "b", "a", "size"]);
}

#[test]
fn complete_batch_is_valid() {
    assert!(validate_scatter_batch(BatchMeta { num_rows: 4, columns: full(4) }).is_ok());
    let mut cols = full(4);
    cols.reverse();
    cols.push(col("extra", DataType::Int64, 1));
    assert!(validate_scatter_batch(BatchMeta { num_rows: 4, columns: cols }).is_ok());
}

#[test]
fn missing_column_is_reported_first() {
    let mut cols = full(2);
    cols.remove(2); // r
    cols[0] = col("x", DataType::Int32, 2);
    match validate_scatter_batch(BatchMeta { num_rows: 2, columns: cols }) {
        Err(ArrowSchemaError::WrongType { name, dt }) => {
            assert_eq!(name, "x");
            assert_eq!(dt, DataType::Int32);
        }
        other => panic!("unexpected {other:?}"),
    }
    let mut cols = full(2);
    cols.remove(6); // size
    match validate_scatter_batch(BatchMeta { num_rows: 2, columns: cols }) {
        Err(ArrowSchemaError::MissingColumn(name)) => assert_eq!(name, "size"),
        other => panic!("unexpected {other:?}"),
    }
}

#[test]
fn wrong_length_is_reported() {
    let mut cols = full(3);
    cols[3] = col("g", DataType::Float32, 2);
    match validate_scatter_batch(BatchMeta { num_rows: 3, columns: cols }) {
        Err(ArrowSchemaError::WrongLen { name, expected, actual }) => {
            assert_eq!(name, "g");
            assert_eq!(expected, 3);
            assert_eq!(actual, 2);
        }
        other => panic!("unexpected {other:?}"),
    }
}

#[test]
fn first_column_of_a_name_is_checked() {
    let mut cols = vec![col("y", DataType::Utf8, 1)];
    cols.extend(full(1));
    match validate_scatter_batch(BatchMeta { num_rows: 1, columns: cols }) {
        Err(ArrowSchemaError::WrongType { name, dt }) => {
            assert_eq!(name, "y");
            assert_eq!(dt, DataType::Utf8);
        }
        other => panic!("unexpected {other:?}"),
    }
}
