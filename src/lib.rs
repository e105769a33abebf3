//! Marshalling between the mq query engine and a dynamically typed host:
//! input-format selection, recovery of engine values into display shapes,
//! a read-only result container, and HTML-to-Markdown conversion options.
use vstd::prelude::*;

pub mod engine;
pub mod error;
pub mod result;
pub mod value;

use crate::engine::{
    convert_html_to_markdown, converted_html, engine_value_of, eval_on_fresh_engine,
    html_parse_error, markdown_parse_error, mdx_parse_error, null_input, parse_html_input,
    parse_markdown_input, parse_mdx_input, parse_text_input, raw_input, ParsedInput,
};
use crate::error::MqError;
use crate::result::MQResult;
use crate::value::{format_of_option, recovered, EngineValue, InputFormat, MQValue};
use mq_lang::RuntimeValue;
use mq_markdown::ConversionOptions;

verus! {

/// The message with which parsing `content` in `format` fails, if it does:
/// the Markdown, MDX and HTML parsers can fail, the text, raw and null
/// inputs cannot.
pub open spec fn parse_error_of(format: InputFormat, content: Seq<char>) -> Option<Seq<char>> {
    match format {
        InputFormat::Markdown => markdown_parse_error(content),
        InputFormat::Mdx => mdx_parse_error(content),
        InputFormat::Html => html_parse_error(content),
        _ => None,
    }
}

/// What the engine's input is read from: the content, except in the null
/// format, which ignores it.
pub open spec fn input_source(format: InputFormat, content: Seq<char>) -> Seq<char> {
    if format == InputFormat::Null {
        Seq::empty()
    } else {
        content
    }
}

/// Parses `content` as the engine's input with the parser of `format`.
pub fn parse_input(format: InputFormat, content: &str) -> (r: Result<ParsedInput, MqError>)
    ensures
        match r {
            Ok(p) => parse_error_of(format, content@) is None && p.format@ == format && p.source@
                == input_source(format, content@),
            Err(e) => e is Parse && parse_error_of(format, content@) == Some(e->Parse_0@),
        },
        (format == InputFormat::Raw || format == InputFormat::Null) ==> r is Ok
            && r->Ok_0.values@.len() == 1,
{
    let parsed = match format {
        InputFormat::Markdown => parse_markdown_input(content),
        InputFormat::Mdx => parse_mdx_input(content),
        InputFormat::Text => parse_text_input(content),
        InputFormat::Html => parse_html_input(content),
        InputFormat::Raw => Ok(raw_input(content)),
        InputFormat::Null => Ok(null_input()),
    };
    match parsed {
        Ok(p) => Ok(p),
        Err(m) => Err(MqError::Parse(m)),
    }
}

/// Recovers every value in order: the value at each index is the recovery
/// of the engine value at that index.
pub fn recover_all(values: Vec<EngineValue>) -> (r: MQResult)
    requires
        forall|i: int| 0 <= i < values@.len() ==> (#[trigger] values@[i]).wf(),
    ensures
        r@.len() == values@.len(),
        forall|i: int|
            0 <= i < r@.len() ==> (#[trigger] r@[i]).model() == recovered(values@[i])
                && r@[i].wf(),
{
    let mut out: Vec<MQValue> = Vec::new();
    let mut i: usize = 0;
    while i < values.len()
        invariant
            i <= values@.len(),
            out@.len() == i,
            forall|j: int| 0 <= j < values@.len() ==> (#[trigger] values@[j]).wf(),
            forall|j: int|
                0 <= j < i ==> (#[trigger] out@[j]).model() == recovered(values@[j])
                    && out@[j].wf(),
        decreases values.len() - i,
    {
        assert(values@[i as int].wf());
        out.push(MQValue::from_engine(&values[i]));
        i = i + 1;
    }
    MQResult::from(out)
}

/// Recovers every value a query run produced, in order: each is read into
/// its plain form, then recovered. The depth bound handed to the reader is
/// the largest there is, so no value that fits in memory is cut off.
pub fn recover_values(values: Vec<RuntimeValue>) -> (r: MQResult)
    ensures
        r@.len() == values@.len(),
        forall|i: int| 0 <= i < r@.len() ==> (#[trigger] r@[i]).wf(),
{
    let mut values = values;
    let ghost n = values@.len();
    let mut plain: Vec<EngineValue> = Vec::new();
    while values.len() > 0
        invariant
            plain@.len() + values@.len() == n,
            forall|i: int| 0 <= i < plain@.len() ==> (#[trigger] plain@[i]).wf(),
        decreases values.len(),
    {
        let v = values.remove(0);
        plain.push(engine_value_of(v, usize::MAX));
    }
    recover_all(plain)
}

/// What the host is handed for an evaluator outcome: every produced value
/// recovered, in order, or an evaluation error carrying the evaluator's
/// message.
pub fn evaluation_result(outcome: Result<Vec<RuntimeValue>, String>) -> (r: Result<MQResult, MqError>)
    ensures
        outcome is Ok ==> r is Ok && r->Ok_0@.len() == outcome->Ok_0@.len(),
        outcome is Err ==> r is Err && r->Err_0 is Eval && r->Err_0->Eval_0@ == outcome->Err_0@,
{
    match outcome {
        Ok(values) => Ok(recover_values(values)),
        Err(m) => Err(MqError::Eval(m)),
    }
}

/// Runs the query `code` over `content`, parsed with the parser of the
/// format that the `input_format` option selects, on an engine of its own.
/// A parse failure stops the run with the parser's message; otherwise the
/// outcome is the evaluator's.
pub fn run(code: &str, content: &str, input_format: Option<i64>) -> (r: Result<MQResult, MqError>)
    ensures
        parse_error_of(format_of_option(input_format), content@) matches Some(m) ==> r is Err
            && r->Err_0 is Parse && r->Err_0->Parse_0@ == m,
        r is Err && r->Err_0 is Parse ==> parse_error_of(format_of_option(input_format), content@)
            == Some(r->Err_0->Parse_0@),
        r is Err ==> r->Err_0 is Parse || r->Err_0 is Eval,
        code@.len() == 0 && parse_error_of(format_of_option(input_format), content@) is None
            ==> r is Ok && r->Ok_0@.len() == 0,
{
    let format = InputFormat::from_option(input_format);
    let input = match parse_input(format, content) {
        Ok(p) => p,
        Err(e) => return Err(e),
    };
    evaluation_result(eval_on_fresh_engine(code, input.values))
}

/// The options of an HTML-to-Markdown conversion, as the host passed them:
/// `None` for a key that was not given.
#[derive(Clone, Copy, Debug)]
pub struct HtmlOptions {
    pub extract_scripts_as_code_blocks: Option<bool>,
    pub generate_front_matter: Option<bool>,
    pub use_title_as_h1: Option<bool>,
}

/// A flag that was not given counts as false.
pub open spec fn flag(o: Option<bool>) -> bool {
    o == Some(true)
}

/// What converting `content` under the given options (all false when none
/// are given) comes to.
pub open spec fn conversion_outcome(content: Seq<char>, options: Option<HtmlOptions>) -> Result<
    Seq<char>,
    Seq<char>,
> {
    match options {
        Some(o) => converted_html(
            content,
            flag(o.extract_scripts_as_code_blocks),
            flag(o.generate_front_matter),
            flag(o.use_title_as_h1),
        ),
        None => converted_html(content, false, false, false),
    }
}

fn flag_value(o: Option<bool>) -> (r: bool)
    ensures
        r == flag(o),
{
    match o {
        Some(b) => b,
        None => false,
    }
}

/// The converter's options for the host's options.
pub fn conversion_options(options: Option<HtmlOptions>) -> (r: ConversionOptions)
    ensures
        options is None ==> !r.extract_scripts_as_code_blocks && !r.generate_front_matter
            && !r.use_title_as_h1,
        options matches Some(o) ==> r.extract_scripts_as_code_blocks == flag(
            o.extract_scripts_as_code_blocks,
        ) && r.generate_front_matter == flag(o.generate_front_matter) && r.use_title_as_h1
            == flag(o.use_title_as_h1),
{
    match options {
        Some(o) => ConversionOptions {
            extract_scripts_as_code_blocks: flag_value(o.extract_scripts_as_code_blocks),
            generate_front_matter: flag_value(o.generate_front_matter),
            use_title_as_h1: flag_value(o.use_title_as_h1),
        },
        None => ConversionOptions {
            extract_scripts_as_code_blocks: false,
            generate_front_matter: false,
            use_title_as_h1: false,
        },
    }
}

/// What the host is handed for a converter outcome: the Markdown text as it
/// came, or a conversion error carrying the converter's message.
pub fn conversion_result(outcome: Result<String, String>) -> (r: Result<String, MqError>)
    ensures
        outcome is Ok ==> r is Ok && r->Ok_0@ == outcome->Ok_0@,
        outcome is Err ==> r is Err && r->Err_0 is Conversion && r->Err_0->Conversion_0@
            == outcome->Err_0@,
{
    match outcome {
        Ok(s) => Ok(s),
        Err(m) => Err(MqError::Conversion(m)),
    }
}

/// Converts HTML to Markdown; each option that is not given counts as false.
pub fn html_to_markdown(content: &str, options: Option<HtmlOptions>) -> (r: Result<
    String,
    MqError,
>)
    ensures
        conversion_outcome(content@, options) is Ok ==> r is Ok && r->Ok_0@ == conversion_outcome(
            content@,
            options,
        )->Ok_0,
        conversion_outcome(content@, options) is Err ==> r is Err && r->Err_0 is Conversion
            && r->Err_0->Conversion_0@ == conversion_outcome(content@, options)->Err_0,
        content@.len() == 0 ==> r is Ok && r->Ok_0@.len() == 0,
{
    let opts = conversion_options(options);
    conversion_result(convert_html_to_markdown(content, opts))
}

/// Passing no options converts as passing all three flags as false.
pub proof fn lemma_absent_options_are_false(content: Seq<char>)
    ensures
        conversion_outcome(content, None) == conversion_outcome(
            content,
            Some(
                HtmlOptions {
                    extract_scripts_as_code_blocks: Some(false),
                    generate_front_matter: Some(false),
                    use_title_as_h1: Some(false),
                },
            ),
        ),
        conversion_outcome(content, None) == conversion_outcome(
            content,
            Some(
                HtmlOptions {
                    extract_scripts_as_code_blocks: None,
                    generate_front_matter: None,
                    use_title_as_h1: None,
                },
            ),
        ),
{
}

} // verus!
