use parquet_ruby_adapter::columns::{BatchArg, ColumnAssembler, ColumnsError};
use parquet_ruby_adapter::conversion::{
    classify_conversion_error, ArrayArg, ConvertedValues, ErrorClass,
};
use parquet_ruby_adapter::rows::{row_values, RowBatcher, RowError};
use parquet_ruby_adapter::value::ParquetValue;

fn ints(v: &[i32]) -> Vec<ParquetValue> {
    v.iter().map(|x| ParquetValue::Int32(*x)).collect()
}

fn as_ints(v: &[ParquetValue]) -> Vec<i32> {
    v.iter()
        .map(|x| match x {
            ParquetValue::Int32(i) => *i,
            _ => panic!("not an Int32"),
        })
        .collect()
}

fn items(v: &[i32]) -> ArrayArg {
    ArrayArg::Items(ConvertedValues { values: ints(v), failure: None })
}

fn failed(v: &[i32], msg: &str) -> ArrayArg {
    ArrayArg::Items(ConvertedValues { values: ints(v), failure: Some(msg.to_string()) })
}

#[test]
fn encoding_error_reports_text_after_marker() {
    let e = classify_conversion_error("Conversion failed: EncodingError: bad byte \\xFF");
    assert_eq!(e.class, ErrorClass::Encoding);
    assert_eq!(e.message, "bad byte \\xFF");
}

#[test]
fn encoding_error_without_marker_reports_whole_message() {
    let e = classify_conversion_error("string has invalid utf-8 sequence");
    assert_eq!(e.class, ErrorClass::Encoding);
    assert_eq!(e.message, "string has invalid utf-8 sequence");
    let e = classify_conversion_error("EncodingError happened");
    assert_eq!(e.class, ErrorClass::Encoding);
    assert_eq!(e.message, "EncodingError happened");
}

#[test]
fn other_failures_are_runtime_errors() {
    let e = classify_conversion_error("cannot convert Hash into Int32");
    assert_eq!(e.class, ErrorClass::Runtime);
    assert_eq!(e.message, "cannot convert Hash into Int32");
    let e = classify_conversion_error("");
    assert_eq!(e.class, ErrorClass::Runtime);
    assert_eq!(e.message, "");
}

#[test]
fn marker_is_found_after_non_ascii_text() {
    let e = classify_conversion_error("é: EncodingError: ü");
    assert_eq!(e.class, ErrorClass::Encoding);
    assert_eq!(e.message, "ü");
    let e = classify_conversion_error("EncodingError: a EncodingError: b");
    assert_eq!(e.message, "a EncodingError: b");
}

#[test]
fn row_must_be_an_array_of_converted_values() {
    assert!(matches!(row_values(ArrayArg::NotArray), Err(RowError::NotArray)));
    match row_values(failed(&[1], "EncodingError: bad")) {
        Err(RowError::Conversion(e)) => {
            assert_eq!(e.class, ErrorClass::Encoding);
            assert_eq!(e.message, "bad");
        }
        _ => panic!("expected a conversion error"),
    }
    match row_values(items(&[1, 2, 3])) {
        Ok(v) => assert_eq!(as_ints(&v), vec![1, 2, 3]),
        Err(_) => panic!("expected values"),
    }
}

#[test]
fn batcher_hands_out_every_row_once_in_order() {
    let mut b = RowBatcher::new();
    let mut written: Vec<Vec<i32>> = Vec::new();
    assert_eq!(b.push_row(ints(&[1])), 4);
    assert_eq!(b.push_row(ints(&[2, 3])), 8);
    assert_eq!(b.batch_len(), 2);
    assert_eq!(b.batch_memory_size(), 12);
    for r in b.take_batch() {
        written.push(as_ints(&r));
    }
    assert_eq!(b.batch_len(), 0);
    assert_eq!(b.batch_memory_size(), 0);
    assert_eq!(b.push_row(ints(&[4])), 4);
    assert_eq!(b.push_row(vec![ParquetValue::String("ab".to_string())]), 26);
    assert_eq!(b.total_rows(), 4);
    assert_eq!(b.batch_memory_size(), 30);
    for r in b.into_remaining().expect("rows pending") {
        written.push(r.iter().map(|v| match v {
            ParquetValue::Int32(i) => *i,
            ParquetValue::String(_) => -1,
            _ => panic!(),
        }).collect());
    }
    assert_eq!(written, vec![vec![1], vec![2, 3], vec![4], vec![-1]]);
}

#[test]
fn batcher_without_pending_rows_has_no_remainder() {
    let mut b = RowBatcher::new();
    assert!(b.take_batch().is_empty());
    b.push_row(ints(&[1]));
    assert_eq!(b.take_batch().len(), 1);
    assert!(b.into_remaining().is_none());
}

fn names() -> Vec<String> {
    vec!["a".to_string(), "b".to_string()]
}

fn columns_of(a: ColumnAssembler) -> Vec<(String, Vec<i32>)> {
    a.into_columns().into_iter().map(|(n, v)| (n, as_ints(&v))).collect()
}

#[test]
fn columns_concatenate_over_batches() {
    let mut a = ColumnAssembler::new(names());
    assert!(a.add_batch(BatchArg::Columns(vec![items(&[1, 2]), items(&[10])])).is_ok());
    assert!(a.add_batch(BatchArg::Columns(vec![items(&[3]), items(&[11, 12])])).is_ok());
    assert_eq!(
        columns_of(a),
        vec![("a".to_string(), vec![1, 2, 3]), ("b".to_string(), vec![10, 11, 12])]
    );
}

#[test]
fn no_batch_gives_no_column() {
    let a = ColumnAssembler::new(names());
    assert!(columns_of(a).is_empty());
}

#[test]
fn refused_batches_change_nothing() {
    let mut a = ColumnAssembler::new(names());
    assert!(a.add_batch(BatchArg::Columns(vec![items(&[1]), items(&[2])])).is_ok());
    assert!(matches!(a.add_batch(BatchArg::NotArray), Err(ColumnsError::BatchNotArray)));
    assert!(matches!(
        a.add_batch(BatchArg::Columns(vec![items(&[5])])),
        Err(ColumnsError::ColumnCountMismatch { found: 1, expected: 2 })
    ));
    assert!(matches!(
        a.add_batch(BatchArg::Columns(vec![items(&[5]), ArrayArg::NotArray])),
        Err(ColumnsError::ColumnNotArray { column: 1 })
    ));
    match a.add_batch(BatchArg::Columns(vec![failed(&[], "boom"), ArrayArg::NotArray])) {
        Err(ColumnsError::Conversion(e)) => {
            assert_eq!(e.class, ErrorClass::Runtime);
            assert_eq!(e.message, "boom");
        }
        _ => panic!("expected a conversion error"),
    }
    assert_eq!(
        columns_of(a),
        vec![("a".to_string(), vec![1]), ("b".to_string(), vec![2])]
    );
}

fn run_with_flushes(rows: &[i32], flush_after: &[usize]) -> (Vec<Vec<i32>>, Vec<i32>) {
    let mut b = RowBatcher::new();
    let mut batches = Vec::new();
    for (i, r) in rows.iter().enumerate() {
        b.push_row(ints(&[*r]));
        if flush_after.contains(&i) {
            batches.push(b.take_batch().iter().map(|row| as_ints(row)[0]).collect::<Vec<_>>());
        }
    }
    if let Some(rest) = b.into_remaining() {
        batches.push(rest.iter().map(|row| as_ints(row)[0]).collect());
    }
    let all = batches.iter().flatten().copied().collect();
    (batches, all)
}

#[test]
fn flush_points_change_only_the_split() {
    let rows = [5, 6, 7, 8, 9];
    let (b1, all1) = run_with_flushes(&rows, &[]);
    let (b2, all2) = run_with_flushes(&rows, &[0, 2]);
    let (b3, all3) = run_with_flushes(&rows, &[0, 1, 2, 3, 4]);
    assert_eq!(b1.len(), 1);
    assert_eq!(b2, vec![vec![5], vec![6, 7], vec![8, 9]]);
    assert_eq!(b3.len(), 5);
    assert_eq!(all1, rows.to_vec());
    assert_eq!(all1, all2);
    assert_eq!(all2, all3);
}
