use parquet::file::properties::BloomFilterProperties;
use parquet::schema::types::ColumnPath;
use parquet::basic::{Compression, GzipLevel};
use parquet_ruby_adapter::bloom::{
    parse_bloom_filters, BloomEntryArg, BloomFilterArgError, BloomFilterConfig, BloomFiltersArg,
    PathArg,
};
use parquet_ruby_adapter::props::{cap_ndv, writer_properties_builder};

fn parts(names: &[&str]) -> PathArg {
    PathArg::Parts(names.iter().map(|s| Some(s.to_string())).collect())
}

fn entry(path: PathArg, fpp: Option<f64>, ndv: Option<u64>) -> BloomEntryArg {
    BloomEntryArg::Hash {
        path,
        false_positive_probability_bits: fpp.map(f64::to_bits),
        n_distinct_values: ndv,
    }
}

fn err(arg: BloomFiltersArg) -> BloomFilterArgError {
    match parse_bloom_filters(Some(arg)) {
        Err(e) => e,
        Ok(_) => panic!("expected a refusal"),
    }
}

#[test]
fn absent_argument_yields_nothing() {
    assert!(matches!(parse_bloom_filters(None), Ok(None)));
}

#[test]
fn array_of_hashes_yields_one_config_per_element() {
    let arg = BloomFiltersArg::Entries(vec![
        entry(parts(&["id"]), Some(0.01), Some(5000)),
        entry(parts(&["parent", "child"]), None, None),
    ]);
    let configs = parse_bloom_filters(Some(arg)).ok().flatten().expect("accepted");
    assert_eq!(configs.len(), 2);
    assert_eq!(configs[0].path, vec!["id".to_string()]);
    assert_eq!(configs[0].false_positive_probability_bits.map(f64::from_bits), Some(0.01));
    assert_eq!(configs[0].n_distinct_values, Some(5000));
    assert_eq!(configs[1].path, vec!["parent".to_string(), "child".to_string()]);
    assert_eq!(configs[1].false_positive_probability_bits, None);
    assert_eq!(configs[1].n_distinct_values, None);
}

#[test]
fn empty_array_yields_no_configs() {
    let configs = parse_bloom_filters(Some(BloomFiltersArg::Entries(vec![])))
        .ok()
        .flatten()
        .expect("accepted");
    assert!(configs.is_empty());
}

#[test]
fn each_refusal_names_its_cause() {
    assert_eq!(err(BloomFiltersArg::NotArray), BloomFilterArgError::NotArray);
    assert_eq!(
        err(BloomFiltersArg::Entries(vec![entry(parts(&["a"]), None, None), BloomEntryArg::NotHash])),
        BloomFilterArgError::EntryNotHash { entry: 1 }
    );
    assert_eq!(
        err(BloomFiltersArg::Entries(vec![entry(PathArg::Missing, None, None)])),
        BloomFilterArgError::MissingPath { entry: 0 }
    );
    assert_eq!(
        err(BloomFiltersArg::Entries(vec![entry(PathArg::NotArray, None, None)])),
        BloomFilterArgError::PathNotArray { entry: 0 }
    );
    assert_eq!(
        err(BloomFiltersArg::Entries(vec![entry(
            PathArg::Parts(vec![Some("a".to_string()), None, None]),
            None,
            None
        )])),
        BloomFilterArgError::PathPartNotString { entry: 0, part: 1 }
    );
}

#[test]
fn first_refused_element_decides() {
    let arg = BloomFiltersArg::Entries(vec![
        entry(parts(&["ok"]), None, None),
        entry(PathArg::NotArray, None, None),
        BloomEntryArg::NotHash,
    ]);
    assert_eq!(err(arg), BloomFilterArgError::PathNotArray { entry: 1 });
}

#[test]
fn distinct_values_are_capped_at_row_group_size() {
    assert_eq!(cap_ndv(0), 0);
    assert_eq!(cap_ndv(1000), 1000);
    assert_eq!(cap_ndv(1048575), 1048575);
    assert_eq!(cap_ndv(1048576), 1048576);
    assert_eq!(cap_ndv(1048577), 1048576);
    assert_eq!(cap_ndv(u64::MAX), 1048576);
}

fn config(path: &[&str], ndv: Option<u64>) -> BloomFilterConfig {
    BloomFilterConfig {
        path: path.iter().map(|s| s.to_string()).collect(),
        false_positive_probability_bits: None,
        n_distinct_values: ndv,
    }
}

fn col(path: &[&str]) -> ColumnPath {
    ColumnPath::new(path.iter().map(|s| s.to_string()).collect())
}

#[test]
fn builder_gets_compression_and_bloom_filters() {
    let builder = writer_properties_builder(
        Some("gzip".to_string()),
        Some(vec![
            config(&["a"], Some(10)),
            config(&["b", "c"], None),
            config(&["d"], Some(5_000_000)),
        ]),
    )
    .ok()
    .expect("valid options");
    let props = builder.build();
    assert_eq!(props.compression(&col(&["a"])), Compression::GZIP(GzipLevel::default()));
    assert_eq!(props.bloom_filter_properties(&col(&["a"])).map(|p| p.ndv), Some(10));
    assert_eq!(props.bloom_filter_properties(&col(&["b", "c"])).map(|p| p.ndv), Some(1_000_000));
    assert_eq!(props.bloom_filter_properties(&col(&["d"])).map(|p| p.ndv), Some(1048576));
    assert_eq!(
        props.bloom_filter_properties(&col(&["a"])).map(|p| p.fpp),
        Some(BloomFilterProperties::default().fpp)
    );
    assert!(props.bloom_filter_properties(&col(&["e"])).is_none());
}

#[test]
fn later_config_for_same_column_keeps_earlier_ndv_unless_given() {
    let props = writer_properties_builder(
        None,
        Some(vec![config(&["x"], Some(42)), config(&["x"], None)]),
    )
    .ok()
    .expect("valid options")
    .build();
    assert_eq!(props.compression(&col(&["x"])), Compression::SNAPPY);
    assert_eq!(props.bloom_filter_properties(&col(&["x"])).map(|p| p.ndv), Some(42));
    let props = writer_properties_builder(
        None,
        Some(vec![config(&["x"], Some(42)), config(&["x"], Some(7))]),
    )
    .ok()
    .expect("valid options")
    .build();
    assert_eq!(props.bloom_filter_properties(&col(&["x"])).map(|p| p.ndv), Some(7));
}

#[test]
fn builder_refuses_unknown_compression() {
    let r = writer_properties_builder(Some("Zip".to_string()), None);
    match r {
        Err(e) => assert_eq!(e.option, "zip"),
        Ok(_) => panic!("expected a refusal"),
    }
}

#[test]
fn builder_without_bloom_filters_has_none() {
    let props = writer_properties_builder(Some("none".to_string()), None)
        .ok()
        .expect("valid")
        .build();
    assert_eq!(props.compression(&col(&["any"])), Compression::UNCOMPRESSED);
    assert!(props.bloom_filter_properties(&col(&["any"])).is_none());
}
