use mq_ruby::error::{decimal, MqError};
use mq_ruby::result::MQResult;
use mq_ruby::value::{EngineValue, InputFormat, MQValue};

fn text(s: &str) -> MQValue {
    MQValue::Markdown { value: s.to_string() }
}

#[test]
fn input_format_codes_select_their_modes() {
    assert_eq!(InputFormat::from_i32(0), InputFormat::Markdown);
    assert_eq!(InputFormat::from_i32(1), InputFormat::Mdx);
    assert_eq!(InputFormat::from_i32(2), InputFormat::Text);
    assert_eq!(InputFormat::from_i32(3), InputFormat::Html);
    assert_eq!(InputFormat::from_i32(4), InputFormat::Raw);
    assert_eq!(InputFormat::from_i32(5), InputFormat::Null);
}

#[test]
fn input_format_falls_back_to_markdown() {
    assert_eq!(InputFormat::from_i32(6), InputFormat::Markdown);
    assert_eq!(InputFormat::from_i32(-1), InputFormat::Markdown);
    assert_eq!(InputFormat::from_i32(i32::MAX), InputFormat::Markdown);
    assert_eq!(InputFormat::from_option(None), InputFormat::Markdown);
    assert_eq!(InputFormat::from_option(Some(0)), InputFormat::Markdown);
    assert_eq!(InputFormat::from_option(Some(3)), InputFormat::Html);
    assert_eq!(InputFormat::from_option(Some(42)), InputFormat::Markdown);
}

#[test]
fn input_format_code_round_trips() {
    for c in 0..6 {
        assert_eq!(InputFormat::from_i32(c).code(), c);
    }
}

#[test]
fn array_text_joins_elements_by_newline() {
    let v = MQValue::Array { value: vec![text("a"), text("b"), text("c")] };
    assert_eq!(v.text(), "a\nb\nc");
    let nested = MQValue::Array {
        value: vec![text("x"), MQValue::Array { value: vec![text("y"), text("z")] }],
    };
    assert_eq!(nested.text(), "x\ny\nz");
}

#[test]
fn dict_text_is_key_value_lines() {
    let v = MQValue::Dict {
        value: vec![("a".to_string(), text("1")), ("b".to_string(), text("2"))],
    };
    assert_eq!(v.text(), "a: 1\nb: 2");
}

#[test]
fn empty_values() {
    assert!(MQValue::Array { value: vec![] }.is_empty());
    assert!(MQValue::Dict { value: vec![] }.is_empty());
    assert!(text("").is_empty());
    assert!(!text("x").is_empty());
    assert!(!MQValue::Array { value: vec![text("")] }.is_empty());
    assert_eq!(MQValue::Array { value: vec![] }.text(), "");
}

#[test]
fn recovery_of_scalars() {
    assert_eq!(MQValue::from_engine(&EngineValue::Boolean(true)).text(), "true");
    assert_eq!(MQValue::from_engine(&EngineValue::Boolean(false)).text(), "false");
    assert_eq!(MQValue::from_engine(&EngineValue::Number("42".to_string())).text(), "42");
    assert_eq!(MQValue::from_engine(&EngineValue::Symbol("sym".to_string())).text(), "sym");
    assert_eq!(MQValue::from_engine(&EngineValue::String("s".to_string())).text(), "s");
    assert_eq!(MQValue::from_engine(&EngineValue::Markdown("# H".to_string())).text(), "# H");
}

#[test]
fn recovery_of_unrepresentable_values_is_empty_text() {
    for e in [
        EngineValue::Function,
        EngineValue::NativeFunction,
        EngineValue::Module,
        EngineValue::Ast,
        EngineValue::Bytes,
        EngineValue::Nothing,
    ] {
        let v = MQValue::from_engine(&e);
        assert!(matches!(&v, MQValue::Markdown { value } if value.is_empty()));
    }
}

#[test]
fn recovery_keeps_structure() {
    let e = EngineValue::Array(vec![
        EngineValue::Number("1".to_string()),
        EngineValue::Dict(vec![("k".to_string(), EngineValue::Boolean(true))]),
    ]);
    let v = MQValue::from_engine(&e);
    match &v {
        MQValue::Array { value } => {
            assert_eq!(value.len(), 2);
            assert!(matches!(&value[1], MQValue::Dict { value } if value.len() == 1));
        }
        _ => panic!("expected an array"),
    }
    assert_eq!(v.text(), "1\nk: true");
}

#[test]
fn recovery_is_deterministic() {
    let e = EngineValue::Dict(vec![
        ("a".to_string(), EngineValue::Array(vec![EngineValue::String("x".to_string())])),
        ("b".to_string(), EngineValue::Nothing),
    ]);
    assert_eq!(MQValue::from_engine(&e).text(), MQValue::from_engine(&e).text());
    assert_eq!(MQValue::from_engine(&e).text(), "a: x\nb: ");
}

#[test]
fn result_length_counts_empty_values() {
    let rs = MQResult::from(vec![text("a"), text(""), MQValue::Array { value: vec![] }, text("b")]);
    assert_eq!(rs.len(), 4);
    assert!(!rs.is_empty());
    assert_eq!(rs.values_as_strings(), vec!["a".to_string(), "b".to_string()]);
    assert_eq!(rs.len(), 4);
    assert!(MQResult::from(vec![]).is_empty());
}

#[test]
fn result_text_is_values_joined() {
    let rs = MQResult::from(vec![text(""), text("a"), text(""), text("b"), text("")]);
    assert_eq!(rs.text(), "a\nb");
    assert_eq!(rs.text(), rs.values_as_strings().join("\n"));
    assert_eq!(MQResult::from(vec![text("")]).text(), "");
}

#[test]
fn result_get_at_in_and_out_of_range() {
    let rs = MQResult::from(vec![text("a"), text("")]);
    assert_eq!(rs.get_at(0).unwrap(), "a");
    assert_eq!(rs.get_at(1).unwrap(), "");
    match rs.get_at(2) {
        Err(MqError::OutOfRange { index, length }) => {
            assert_eq!((index, length), (2, 2));
        }
        other => panic!("unexpected {:?}", other),
    }
    let e = rs.get_at(5).unwrap_err();
    assert_eq!(e.message(), "Index 5 out of range for MQResult with length 2");
}

#[test]
fn result_each_visits_every_value() {
    let rs = MQResult::from(vec![text("a"), text(""), text("b")]);
    assert_eq!(rs.each(), vec!["a".to_string(), "".to_string(), "b".to_string()]);
}

#[test]
fn error_messages_carry_their_prefix() {
    assert_eq!(MqError::Parse("bad".to_string()).message(), "Error parsing input: bad");
    assert_eq!(MqError::Eval("bad".to_string()).message(), "Error evaluating query: bad");
    assert_eq!(
        MqError::Conversion("bad".to_string()).message(),
        "Error converting HTML to Markdown: bad"
    );
}

#[test]
fn decimal_rendering() {
    assert_eq!(decimal(0), "0");
    assert_eq!(decimal(7), "7");
    assert_eq!(decimal(10), "10");
    assert_eq!(decimal(1234), "1234");
    assert_eq!(decimal(usize::MAX), usize::MAX.to_string());
}
