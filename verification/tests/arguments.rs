use parquet_ruby_adapter::args::{
    column_enumerator_kwargs, handle_block_or_enum, parse_string_or_symbol, row_enumerator_kwargs,
    EnumeratorKwarg, NotStringOrSymbol, ScalarArg,
};
use parquet_ruby_adapter::text::{find_text, text_chars, text_equals};

#[test]
fn string_or_symbol_names() {
    assert_eq!(parse_string_or_symbol(ScalarArg::Nil), Ok(None));
    assert_eq!(
        parse_string_or_symbol(ScalarArg::Text("name".to_string())),
        Ok(Some("name".to_string()))
    );
    assert_eq!(parse_string_or_symbol(ScalarArg::Other), Err(NotStringOrSymbol));
}

#[test]
fn block_given_creates_nothing() {
    let mut called = false;
    let r: Result<Option<u32>, String> = handle_block_or_enum(true, || {
        called = true;
        Ok(1)
    });
    assert_eq!(r, Ok(None));
    assert!(!called);
}

#[test]
fn missing_block_creates_enumerator_or_passes_error() {
    let r: Result<Option<u32>, String> = handle_block_or_enum(false, || Ok(7));
    assert_eq!(r, Ok(Some(7)));
    let r: Result<Option<u32>, String> = handle_block_or_enum(false, || Err("no".to_string()));
    assert_eq!(r, Err("no".to_string()));
}

fn describe(k: &[EnumeratorKwarg]) -> Vec<String> {
    k.iter()
        .map(|k| match k {
            EnumeratorKwarg::ResultType(s) => format!("result_type={s}"),
            EnumeratorKwarg::Columns(c) => format!("columns={}", c.join(",")),
            EnumeratorKwarg::BatchSize(n) => format!("batch_size={n}"),
            EnumeratorKwarg::Strict => "strict=true".to_string(),
            EnumeratorKwarg::Logger => "logger".to_string(),
        })
        .collect()
}

#[test]
fn row_enumerator_kwargs_in_order() {
    let k = row_enumerator_kwargs("hash".to_string(), None, false, false);
    assert_eq!(describe(&k), vec!["result_type=hash"]);
    let k = row_enumerator_kwargs(
        "array".to_string(),
        Some(vec!["a".to_string(), "b".to_string()]),
        true,
        true,
    );
    assert_eq!(describe(&k), vec!["result_type=array", "columns=a,b", "strict=true", "logger"]);
}

#[test]
fn column_enumerator_kwargs_in_order() {
    let k = column_enumerator_kwargs("hash".to_string(), None, Some(100), false, true);
    assert_eq!(describe(&k), vec!["result_type=hash", "batch_size=100", "logger"]);
    let k = column_enumerator_kwargs(
        "array".to_string(),
        Some(vec!["x".to_string()]),
        Some(5),
        true,
        false,
    );
    assert_eq!(
        describe(&k),
        vec!["result_type=array", "columns=x", "batch_size=5", "strict=true"]
    );
}

#[test]
fn text_helpers() {
    assert!(text_equals("abc", "abc"));
    assert!(!text_equals("abc", "abd"));
    assert!(!text_equals("abc", "ab"));
    assert!(text_equals("", ""));
    assert_eq!(text_chars("aé日"), vec!['a', 'é', '日']);
    let s = text_chars("xxabcabc");
    assert_eq!(find_text(&s, &text_chars("abc")), Some(2));
    assert_eq!(find_text(&s, &text_chars("abd")), None);
    assert_eq!(find_text(&s, &text_chars("")), Some(0));
    assert_eq!(find_text(&text_chars("ab"), &text_chars("abc")), None);
}
