//! The calls into the mq engine and the HTML converter, each behind a small
//! trusted item, and the verified code that turns what they return into
//! plain data.
use vstd::prelude::*;

use crate::value::{keys_distinct, EngineValue, InputFormat};
use mq_lang::{Ident, RuntimeValue};
use mq_markdown::{ConversionOptions, Node};
use std::collections::BTreeMap;

verus! {

#[verifier::external_type_specification]
#[verifier::external_body]
pub struct ExRuntimeValue(RuntimeValue);

#[verifier::external_type_specification]
#[verifier::external_body]
pub struct ExIdent(Ident);

#[verifier::external_type_specification]
#[verifier::external_body]
pub struct ExNode(Node);

#[verifier::external_type_specification]
pub struct ExConversionOptions(ConversionOptions);

/// One level of an engine value: the variant, with the parts inside it
/// still as engine values.
pub enum RuntimeShape {
    Array(Vec<RuntimeValue>),
    Dict(BTreeMap<Ident, RuntimeValue>),
    Markdown(Box<Node>),
    String(String),
    Symbol(Ident),
    Number(String),
    Boolean(bool),
    Function,
    NativeFunction,
    Module,
    Ast,
    Bytes,
    Nothing,
}

/// Relies on the variants of mq_lang::RuntimeValue, and on the `Display` of
/// its number type for the text of a number.
#[verifier::external_body]
fn unpack(v: RuntimeValue) -> (r: RuntimeShape) {
    match v {
        RuntimeValue::Array(a) => RuntimeShape::Array(a),
        RuntimeValue::Dict(m) => RuntimeShape::Dict(m),
        RuntimeValue::Markdown(n, _) => RuntimeShape::Markdown(n),
        RuntimeValue::String(s) => RuntimeShape::String(s),
        RuntimeValue::Symbol(i) => RuntimeShape::Symbol(i),
        RuntimeValue::Number(n) => RuntimeShape::Number(n.to_string()),
        RuntimeValue::Boolean(b) => RuntimeShape::Boolean(b),
        RuntimeValue::Function(..) => RuntimeShape::Function,
        RuntimeValue::NativeFunction(_) => RuntimeShape::NativeFunction,
        RuntimeValue::Module(_) => RuntimeShape::Module,
        RuntimeValue::Ast(_) => RuntimeShape::Ast,
        RuntimeValue::Bytes(_) => RuntimeShape::Bytes,
        RuntimeValue::None => RuntimeShape::Nothing,
    }
}

/// Relies on mq_lang::Ident::as_str: the name of an interned identifier.
#[verifier::external_body]
fn ident_name(i: &Ident) -> (r: String) {
    i.as_str()
}

/// Relies on the `Display` of mq_markdown::Node: a node rendered as Markdown.
#[verifier::external_body]
fn node_text(n: &Node) -> (r: String) {
    n.to_string()
}

/// Relies on std's BTreeMap, whose keys are distinct, and on
/// mq_lang::Ident::as_str, which resolves interned identifiers: distinct
/// identifiers have distinct names.
#[verifier::external_body]
fn dict_entries(m: BTreeMap<Ident, RuntimeValue>) -> (r: Vec<(String, RuntimeValue)>)
    ensures
        keys_distinct(r@),
{
    let mut out = Vec::new();
    for (k, v) in m {
        out.push((k.as_str(), v));
    }
    out
}

/// Content parsed into the engine's input, with the format it was parsed
/// in and the content it was parsed from.
pub struct ParsedInput {
    pub values: Vec<RuntimeValue>,
    pub format: Ghost<InputFormat>,
    pub source: Ghost<Seq<char>>,
}

/// The message with which mq_lang::parse_markdown_input rejects `content`,
/// if it does.
pub uninterp spec fn markdown_parse_error(content: Seq<char>) -> Option<Seq<char>>;

/// The message with which mq_lang::parse_mdx_input rejects `content`, if it
/// does.
pub uninterp spec fn mdx_parse_error(content: Seq<char>) -> Option<Seq<char>>;

/// The message with which mq_lang::parse_html_input rejects `content`, if it
/// does.
pub uninterp spec fn html_parse_error(content: Seq<char>) -> Option<Seq<char>>;

/// Relies on mq_lang::parse_markdown_input: whether it fails, and with what message,
/// depends on the content alone.
#[verifier::external_body]
pub(crate) fn parse_markdown_input(content: &str) -> (r: Result<ParsedInput, String>)
    ensures
        match r {
            Ok(p) => markdown_parse_error(content@) is None && p.format@ == InputFormat::Markdown && p.source@
                == content@,
            Err(m) => markdown_parse_error(content@) == Some(m@),
        },
{
    match mq_lang::parse_markdown_input(content) {
        Ok(values) => Ok(ParsedInput { values, format: Ghost(InputFormat::Markdown), source: Ghost(content@) }),
        Err(e) => Err(e.to_string()),
    }
}

/// Relies on mq_lang::parse_mdx_input: whether it fails, and with what message,
/// depends on the content alone.
#[verifier::external_body]
pub(crate) fn parse_mdx_input(content: &str) -> (r: Result<ParsedInput, String>)
    ensures
        match r {
            Ok(p) => mdx_parse_error(content@) is None && p.format@ == InputFormat::Mdx && p.source@
                == content@,
            Err(m) => mdx_parse_error(content@) == Some(m@),
        },
{
    match mq_lang::parse_mdx_input(content) {
        Ok(values) => Ok(ParsedInput { values, format: Ghost(InputFormat::Mdx), source: Ghost(content@) }),
        Err(e) => Err(e.to_string()),
    }
}

/// Relies on mq_lang::parse_html_input: whether it fails, and with what message,
/// depends on the content alone.
#[verifier::external_body]
pub(crate) fn parse_html_input(content: &str) -> (r: Result<ParsedInput, String>)
    ensures
        match r {
            Ok(p) => html_parse_error(content@) is None && p.format@ == InputFormat::Html && p.source@
                == content@,
            Err(m) => html_parse_error(content@) == Some(m@),
        },
{
    match mq_lang::parse_html_input(content) {
        Ok(values) => Ok(ParsedInput { values, format: Ghost(InputFormat::Html), source: Ghost(content@) }),
        Err(e) => Err(e.to_string()),
    }
}

/// Relies on mq_lang::parse_text_input, which splits the content into lines
/// and never fails.
#[verifier::external_body]
pub(crate) fn parse_text_input(content: &str) -> (r: Result<ParsedInput, String>)
    ensures
        r is Ok && r->Ok_0.format@ == InputFormat::Text && r->Ok_0.source@ == content@,
{
    match mq_lang::parse_text_input(content) {
        Ok(values) => Ok(ParsedInput { values, format: Ghost(InputFormat::Text), source: Ghost(content@) }),
        Err(e) => Err(e.to_string()),
    }
}

/// Relies on mq_lang::raw_input: the content as a single string value.
#[verifier::external_body]
pub(crate) fn raw_input(content: &str) -> (r: ParsedInput)
    ensures
        r.values@.len() == 1,
        r.format@ == InputFormat::Raw,
        r.source@ == content@,
{
    ParsedInput { values: mq_lang::raw_input(content), format: Ghost(InputFormat::Raw), source: Ghost(content@) }
}

/// Relies on mq_lang::null_input: a single empty string value, whatever the
/// content.
#[verifier::external_body]
pub(crate) fn null_input() -> (r: ParsedInput)
    ensures
        r.values@.len() == 1,
        r.format@ == InputFormat::Null,
        r.source@ == Seq::<char>::empty(),
{
    ParsedInput { values: mq_lang::null_input(), format: Ghost(InputFormat::Null), source: Ghost(Seq::empty()) }
}

/// Relies on mq_lang::DefaultEngine: a fresh engine with its builtin module
/// loaded evaluates `query` over `input`; an empty query yields no values.
#[verifier::external_body]
pub(crate) fn eval_on_fresh_engine(query: &str, input: Vec<RuntimeValue>) -> (r: Result<Vec<RuntimeValue>, String>)
    ensures
        query@.len() == 0 ==> r is Ok && r->Ok_0@.len() == 0,
{
    let mut engine = mq_lang::DefaultEngine::default();
    engine.load_builtin_module();
    match engine.eval(query, input.into_iter()) {
        Ok(vs) => Ok(vs.into_iter().collect()),
        Err(e) => Err(e.to_string()),
    }
}

/// What converting `html` to Markdown under the three flags gives: the
/// Markdown text, or the converter's message.
pub uninterp spec fn converted_html(
    html: Seq<char>,
    extract_scripts_as_code_blocks: bool,
    generate_front_matter: bool,
    use_title_as_h1: bool,
) -> Result<Seq<char>, Seq<char>>;

/// Relies on mq_markdown::convert_html_to_markdown: its outcome depends on
/// the HTML and the options alone, and blank HTML converts to empty text.
#[verifier::external_body]
pub(crate) fn convert_html_to_markdown(html: &str, options: ConversionOptions) -> (r: Result<String, String>)
    ensures
        match r {
            Ok(s) => converted_html(
                html@,
                options.extract_scripts_as_code_blocks,
                options.generate_front_matter,
                options.use_title_as_h1,
            ) == Ok::<Seq<char>, Seq<char>>(s@),
            Err(m) => converted_html(
                html@,
                options.extract_scripts_as_code_blocks,
                options.generate_front_matter,
                options.use_title_as_h1,
            ) == Err::<Seq<char>, Seq<char>>(m@),
        },
        html@.len() == 0 ==> r is Ok && r->Ok_0@.len() == 0,
{
    match mq_markdown::convert_html_to_markdown(html, options) {
        Ok(s) => Ok(s),
        Err(e) => Err(e.to_string()),
    }
}

/// The plain form of an engine value, read level by level. Parts nested more
/// than `depth` levels down are cut off and read as nothing.
pub(crate) fn engine_value_of(v: RuntimeValue, depth: usize) -> (r: EngineValue)
    ensures
        r.wf(),
    decreases depth,
{
    if depth == 0 {
        return EngineValue::Nothing;
    }
    match unpack(v) {
        RuntimeShape::Array(items) => {
            let mut items = items;
            let mut out: Vec<EngineValue> = Vec::new();
            while items.len() > 0
                invariant
                    depth > 0,
                    forall|j: int| 0 <= j < out@.len() ==> (#[trigger] out@[j]).wf(),
                decreases items.len(),
            {
                let x = items.remove(0);
                out.push(engine_value_of(x, depth - 1));
            }
            EngineValue::Array(out)
        },
        RuntimeShape::Dict(m) => {
            let mut entries = dict_entries(m);
            let ghost keys = entries@.map_values(|p: (String, RuntimeValue)| p.0@);
            let mut out: Vec<(String, EngineValue)> = Vec::new();
            while entries.len() > 0
                invariant
                    depth > 0,
                    out@.len() + entries@.len() == keys.len(),
                    forall|i: int, j: int| 0 <= i < j < keys.len() ==> keys[i] != keys[j],
                    forall|j: int| 0 <= j < out@.len() ==> (#[trigger] out@[j]).0@ == keys[j],
                    forall|j: int|
                        0 <= j < entries@.len() ==> (#[trigger] entries@[j]).0@ == keys[out@.len()
                            + j],
                    forall|j: int| 0 <= j < out@.len() ==> (#[trigger] out@[j]).1.wf(),
                decreases entries.len(),
            {
                let ghost n = out@.len();
                let ghost before = entries@;
                assert(entries@[0].0@ == keys[n as int]);
                let (k, x) = entries.remove(0);
                let ev = engine_value_of(x, depth - 1);
                out.push((k, ev));
                assert forall|j: int| 0 <= j < entries@.len() implies (#[trigger] entries@[j]).0@
                    == keys[out@.len() + j] by {
                    assert(entries@[j] == before[j + 1]);
                }
            }
            assert forall|i: int, j: int| 0 <= i < j < out@.len() implies out@[i].0@
                != out@[j].0@ by {
                assert(out@[i].0@ == keys[i] && out@[j].0@ == keys[j]);
            }
            EngineValue::Dict(out)
        },
        RuntimeShape::Markdown(n) => EngineValue::Markdown(node_text(&n)),
        RuntimeShape::String(s) => EngineValue::String(s),
        RuntimeShape::Symbol(i) => EngineValue::Symbol(ident_name(&i)),
        RuntimeShape::Number(s) => EngineValue::Number(s),
        RuntimeShape::Boolean(b) => EngineValue::Boolean(b),
        RuntimeShape::Function => EngineValue::Function,
        RuntimeShape::NativeFunction => EngineValue::NativeFunction,
        RuntimeShape::Module => EngineValue::Module,
        RuntimeShape::Ast => EngineValue::Ast,
        RuntimeShape::Bytes => EngineValue::Bytes,
        RuntimeShape::Nothing => EngineValue::Nothing,
    }
}

} // verus!
