use mq_lang::{Ident, RuntimeValue};
use mq_ruby::error::MqError;
use std::collections::BTreeMap;
use mq_ruby::value::{EngineValue, InputFormat};
use mq_ruby::{conversion_options, conversion_result, html_to_markdown, parse_input, run, HtmlOptions};

#[test]
fn run_identity_over_markdown() {
    let rs = run(".", "# Hello", Some(0)).unwrap();
    assert_eq!(rs.len(), 1);
    assert_eq!(rs.text(), "# Hello");
}

#[test]
fn run_invalid_query_is_eval_error() {
    let e = run("invalid(", "hello", None).unwrap_err();
    assert!(matches!(e, MqError::Eval(_)));
    assert!(e.message().starts_with("Error evaluating query: "));
}

#[test]
fn run_raw_input_is_the_content() {
    let rs = run(".", "hello", Some(4)).unwrap();
    assert_eq!(rs.len(), 1);
    assert_eq!(rs.text(), "hello");
}

#[test]
fn run_empty_query_yields_nothing() {
    let rs = run("", "hello", Some(4)).unwrap();
    assert_eq!(rs.len(), 0);
    assert_eq!(rs.text(), "");
}

#[test]
fn run_text_input_is_one_value_per_line() {
    let rs = run(".", "a\nb", Some(2)).unwrap();
    assert_eq!(rs.len(), 2);
    assert_eq!(rs.values_as_strings(), vec!["a".to_string(), "b".to_string()]);
}

#[test]
fn run_builds_arrays_and_numbers() {
    let rs = run("[1, 2]", "", Some(5)).unwrap();
    assert_eq!(rs.len(), 1);
    assert_eq!(rs.text(), "1\n2");
}

#[test]
fn parse_input_raw_and_null_give_one_value() {
    assert_eq!(parse_input(InputFormat::Raw, "x").unwrap().values.len(), 1);
    assert_eq!(parse_input(InputFormat::Null, "x").unwrap().values.len(), 1);
    assert_eq!(parse_input(InputFormat::Text, "a\nb\nc").unwrap().values.len(), 3);
}

#[test]
fn html_to_markdown_title_as_heading() {
    let opts = HtmlOptions {
        extract_scripts_as_code_blocks: None,
        generate_front_matter: None,
        use_title_as_h1: Some(true),
    };
    let md = html_to_markdown("<h1>Title</h1><p>Body</p>", Some(opts)).unwrap();
    assert!(md.contains("# Title"));
    assert!(md.contains("Body"));
    assert!(!md.contains("<h1>"));
}

#[test]
fn html_to_markdown_absent_options_are_false() {
    let html = "<html><head><title>T</title></head><body><h1>Title</h1><p>Body</p><script>x()</script></body></html>";
    let all_false = HtmlOptions {
        extract_scripts_as_code_blocks: Some(false),
        generate_front_matter: Some(false),
        use_title_as_h1: Some(false),
    };
    let none_given = HtmlOptions {
        extract_scripts_as_code_blocks: None,
        generate_front_matter: None,
        use_title_as_h1: None,
    };
    let a = html_to_markdown(html, None).unwrap();
    assert_eq!(a, html_to_markdown(html, Some(all_false)).unwrap());
    assert_eq!(a, html_to_markdown(html, Some(none_given)).unwrap());
}

#[test]
fn html_to_markdown_empty_input() {
    assert_eq!(html_to_markdown("", None).unwrap(), "");
}

#[test]
fn conversion_options_default_to_false() {
    let o = conversion_options(None);
    assert!(!o.extract_scripts_as_code_blocks && !o.generate_front_matter && !o.use_title_as_h1);
    let o = conversion_options(Some(HtmlOptions {
        extract_scripts_as_code_blocks: Some(true),
        generate_front_matter: None,
        use_title_as_h1: Some(false),
    }));
    assert!(o.extract_scripts_as_code_blocks && !o.generate_front_matter && !o.use_title_as_h1);
}

#[test]
fn conversion_result_maps_failure() {
    assert_eq!(conversion_result(Ok("md".to_string())).unwrap(), "md");
    let e = conversion_result(Err("boom".to_string())).unwrap_err();
    assert_eq!(e.message(), "Error converting HTML to Markdown: boom");
}

#[test]
fn evaluation_result_recovers_engine_values() {
    let mut dict = BTreeMap::new();
    dict.insert(Ident::new("b"), RuntimeValue::Boolean(false));
    let values = vec![
        RuntimeValue::Array(vec![RuntimeValue::String("p".to_string()), RuntimeValue::Symbol(Ident::new("q"))]),
        RuntimeValue::Dict(dict),
        RuntimeValue::Boolean(true),
        RuntimeValue::None,
    ];
    let rs = mq_ruby::evaluation_result(Ok(values)).unwrap();
    assert_eq!(rs.len(), 4);
    assert_eq!(
        rs.each(),
        vec!["p\nq".to_string(), "b: false".to_string(), "true".to_string(), "".to_string()]
    );
    assert_eq!(rs.text(), "p\nq\nb: false\ntrue");
}

#[test]
fn evaluation_result_maps_failure() {
    let e = mq_ruby::evaluation_result(Err("boom".to_string())).unwrap_err();
    assert!(matches!(&e, MqError::Eval(m) if m == "boom"));
    assert_eq!(e.message(), "Error evaluating query: boom");
}

#[test]
fn run_parse_error_or_success_over_mdx() {
    match run(".", "<Foo", Some(1)) {
        Ok(rs) => assert!(rs.len() <= 1),
        Err(e) => assert!(e.message().starts_with("Error parsing input: ")),
    }
}

#[test]
fn run_out_of_range_codes_select_markdown() {
    for code in [None, Some(0), Some(6), Some(-1), Some(i64::MAX)] {
        let rs = run(".", "# Hello", code).unwrap();
        assert_eq!(rs.text(), "# Hello");
    }
}

#[test]
fn run_null_input_ignores_content() {
    let a = run(".", "one", Some(5)).unwrap();
    let b = run(".", "two", Some(5)).unwrap();
    assert_eq!(a.each(), b.each());
    assert_eq!(a.len(), 1);
}

#[test]
fn recover_all_recovers_each_value_in_order() {
    let rs = mq_ruby::recover_all(vec![
        EngineValue::Boolean(true),
        EngineValue::Nothing,
        EngineValue::Array(vec![EngineValue::Number("2".to_string())]),
    ]);
    assert_eq!(rs.each(), vec!["true".to_string(), "".to_string(), "2".to_string()]);
}
