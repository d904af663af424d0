use parquet_ruby_adapter::args::NotStringOrSymbol;
use parquet_ruby_adapter::bloom::BloomFilterArgError;
use parquet_ruby_adapter::columns::ColumnsError;
use parquet_ruby_adapter::compression::parse_compression;
use parquet_ruby_adapter::conversion::{classify_conversion_error, ExceptionKind};
use parquet_ruby_adapter::rows::RowError;
use parquet_ruby_adapter::text::decimal;

#[test]
fn decimal_notation() {
    assert_eq!(decimal(0), "0");
    assert_eq!(decimal(7), "7");
    assert_eq!(decimal(10), "10");
    assert_eq!(decimal(1048576), "1048576");
    assert_eq!(decimal(usize::MAX), usize::MAX.to_string());
}

#[test]
fn column_error_texts() {
    let e = ColumnsError::ColumnCountMismatch { found: 3, expected: 12 };
    assert_eq!(e.message(), "Batch has 3 columns but schema has 12");
    assert_eq!(e.exception(), ExceptionKind::RuntimeError);
    let e = ColumnsError::ColumnNotArray { column: 0 };
    assert_eq!(e.message(), "Column 0 values must be an array");
    assert_eq!(e.exception(), ExceptionKind::TypeError);
    let e = ColumnsError::BatchNotArray;
    assert_eq!(e.message(), "each batch must be an array of column values");
    assert_eq!(e.exception(), ExceptionKind::TypeError);
    let e = ColumnsError::Conversion(classify_conversion_error("x EncodingError: y"));
    assert_eq!(e.message(), "y");
    assert_eq!(e.exception(), ExceptionKind::EncodingError);
}

#[test]
fn row_error_texts() {
    assert_eq!(RowError::NotArray.message(), "each row must be an array");
    assert_eq!(RowError::NotArray.exception(), ExceptionKind::TypeError);
    let e = RowError::Conversion(classify_conversion_error("bad value"));
    assert_eq!(e.message(), "bad value");
    assert_eq!(e.exception(), ExceptionKind::RuntimeError);
}

#[test]
fn bloom_error_texts() {
    assert_eq!(
        BloomFilterArgError::NotArray.message("").as_deref(),
        Some("bloom_filters must be an Array of Hashes")
    );
    assert_eq!(
        BloomFilterArgError::MissingPath { entry: 0 }.message("key not found: :path").as_deref(),
        Some("bloom_filters entry missing 'path' key: key not found: :path")
    );
    assert_eq!(
        BloomFilterArgError::PathNotArray { entry: 2 }.message("").as_deref(),
        Some("bloom_filters 'path' must be an Array of column name parts (e.g., ['column_name'] or ['parent', 'child'])")
    );
    assert_eq!(BloomFilterArgError::EntryNotHash { entry: 0 }.message("x"), None);
    assert_eq!(BloomFilterArgError::PathPartNotString { entry: 0, part: 1 }.message("x"), None);
    assert_eq!(BloomFilterArgError::NotArray.exception(), ExceptionKind::ArgumentError);
    assert_eq!(
        BloomFilterArgError::MissingPath { entry: 0 }.exception(),
        ExceptionKind::ArgumentError
    );
    assert_eq!(
        BloomFilterArgError::PathNotArray { entry: 0 }.exception(),
        ExceptionKind::ArgumentError
    );
    assert_eq!(BloomFilterArgError::EntryNotHash { entry: 1 }.exception(), ExceptionKind::TypeError);
    assert_eq!(
        BloomFilterArgError::PathPartNotString { entry: 0, part: 2 }.exception(),
        ExceptionKind::TypeError
    );
}

#[test]
fn other_error_texts() {
    assert_eq!(NotStringOrSymbol.message(), "Value must be a String or Symbol");
    assert_eq!(NotStringOrSymbol.exception(), ExceptionKind::TypeError);
    let e = parse_compression(Some("x".to_string())).err().expect("refused");
    assert_eq!(e.exception(), ExceptionKind::ArgumentError);
}
