use parquet_ruby_adapter::value::{
    checked_row_size, checked_value_size, estimate_parquet_value_size, estimate_row_size,
    ParquetValue,
};

fn size(v: &ParquetValue) -> usize {
    estimate_parquet_value_size(v)
}

#[test]
fn fixed_width_values_count_their_width() {
    assert_eq!(size(&ParquetValue::Null), 1);
    assert_eq!(size(&ParquetValue::Boolean(true)), 1);
    assert_eq!(size(&ParquetValue::Int8(-3)), 1);
    assert_eq!(size(&ParquetValue::Int16(7)), 2);
    assert_eq!(size(&ParquetValue::Int32(7)), 4);
    assert_eq!(size(&ParquetValue::Int64(7)), 8);
    assert_eq!(size(&ParquetValue::UInt8(7)), 1);
    assert_eq!(size(&ParquetValue::UInt16(7)), 2);
    assert_eq!(size(&ParquetValue::UInt32(7)), 4);
    assert_eq!(size(&ParquetValue::UInt64(7)), 8);
    assert_eq!(size(&ParquetValue::Float16(1.5f32.to_bits())), 4);
    assert_eq!(size(&ParquetValue::Float32(1.5f32.to_bits())), 4);
    assert_eq!(size(&ParquetValue::Float64(2.5f64.to_bits())), 8);
    assert_eq!(size(&ParquetValue::Uuid(0x1234)), 16);
    assert_eq!(size(&ParquetValue::Date32(19000)), 4);
    assert_eq!(size(&ParquetValue::Date64(19000)), 8);
    assert_eq!(size(&ParquetValue::Decimal128(12345, 2)), 17);
    assert_eq!(size(&ParquetValue::Decimal256(vec![1, 2, 3], 4)), 33);
    assert_eq!(size(&ParquetValue::TimeMillis(5)), 4);
    assert_eq!(size(&ParquetValue::TimeMicros(5)), 8);
    assert_eq!(size(&ParquetValue::TimeNanos(5)), 8);
}

#[test]
fn texts_count_utf8_bytes_plus_overhead() {
    assert_eq!(size(&ParquetValue::String("abc".to_string())), 27);
    assert_eq!(size(&ParquetValue::String(String::new())), 24);
    // "é" takes two bytes, "日" three.
    assert_eq!(size(&ParquetValue::String("é日".to_string())), 29);
    assert_eq!(size(&ParquetValue::Bytes(vec![0u8; 10])), 34);
}

#[test]
fn timestamps_count_their_time_zone() {
    assert_eq!(size(&ParquetValue::TimestampSecond(1, None)), 8);
    assert_eq!(size(&ParquetValue::TimestampMillis(1, Some("UTC".to_string()))), 35);
    assert_eq!(size(&ParquetValue::TimestampMicros(1, Some("Europe/Paris".to_string()))), 44);
    assert_eq!(size(&ParquetValue::TimestampNanos(1, Some(String::new()))), 32);
}

#[test]
fn nested_values_add_their_contents() {
    let list = ParquetValue::List(vec![ParquetValue::Int32(1), ParquetValue::Int64(2)]);
    assert_eq!(size(&list), 24 + 4 + 8);
    assert_eq!(size(&ParquetValue::List(vec![])), 24);

    let map = ParquetValue::MapEntries(vec![
        (ParquetValue::String("k".to_string()), ParquetValue::Int16(3)),
        (ParquetValue::Int8(1), ParquetValue::Null),
    ]);
    assert_eq!(size(&map), 48 + (25 + 2) + (1 + 1));

    let record = ParquetValue::Record(vec![
        ("id".to_string(), ParquetValue::Int64(9)),
        ("tags".to_string(), ParquetValue::List(vec![ParquetValue::Int32(1), ParquetValue::Int64(2)])),
    ]);
    assert_eq!(size(&record), 48 + (2 + 24 + 8) + (4 + 24 + 36));
}

#[test]
fn list_estimate_is_overhead_plus_row_estimate() {
    let items = vec![ParquetValue::Int32(1), ParquetValue::String("xy".to_string())];
    let row_estimate = estimate_row_size(&items);
    assert_eq!(size(&ParquetValue::List(items)), 24 + row_estimate);
}

#[test]
fn row_estimate_is_sum_of_value_estimates() {
    let row = vec![
        ParquetValue::Int32(1),
        ParquetValue::String("hello".to_string()),
        ParquetValue::Null,
    ];
    assert_eq!(estimate_row_size(&row), 4 + 29 + 1);
    assert_eq!(estimate_row_size(&[]), 0);
}

#[test]
fn row_estimate_of_concatenation_is_sum() {
    let a = vec![ParquetValue::Int64(1), ParquetValue::Bytes(vec![1, 2])];
    let b = vec![ParquetValue::Boolean(false), ParquetValue::Date32(3)];
    let mut ab = Vec::new();
    ab.push(ParquetValue::Int64(1));
    ab.push(ParquetValue::Bytes(vec![1, 2]));
    ab.push(ParquetValue::Boolean(false));
    ab.push(ParquetValue::Date32(3));
    assert_eq!(estimate_row_size(&ab), estimate_row_size(&a) + estimate_row_size(&b));
}

#[test]
fn every_value_is_at_least_one_byte() {
    for v in [ParquetValue::Null, ParquetValue::Int8(0), ParquetValue::Boolean(false)] {
        assert!(size(&v) >= 1);
    }
}

#[test]
fn values_compare_by_contents() {
    let v = ParquetValue::Record(vec![("a".to_string(), ParquetValue::Int8(1))]);
    let w = ParquetValue::Record(vec![("a".to_string(), ParquetValue::Int8(1))]);
    assert_eq!(v, w);
    assert_ne!(v, ParquetValue::Null);
}

#[test]
fn checked_estimates_agree_when_they_fit() {
    let v = ParquetValue::List(vec![ParquetValue::String("ab".to_string())]);
    assert_eq!(checked_value_size(&v), Some(50));
    let row = vec![ParquetValue::Int16(1), ParquetValue::Int16(2)];
    assert_eq!(checked_row_size(&row), Some(4));
}
