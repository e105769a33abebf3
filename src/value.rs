use vstd::prelude::*;

verus! {

broadcast use vstd::std_specs::vec::axiom_vec_index_decreases;

/// How the content handed to a query run is parsed before evaluation.
#[derive(Clone, Copy, Debug, PartialEq, Eq, Structural)]
pub enum InputFormat {
    Markdown,
    Mdx,
    Text,
    Html,
    Raw,
    Null,
}

/// The format that an integer code selects: 0 to 5 in declaration order,
/// anything else falls back to Markdown.
pub open spec fn format_of_code(code: int) -> InputFormat {
    if code == 1 {
        InputFormat::Mdx
    } else if code == 2 {
        InputFormat::Text
    } else if code == 3 {
        InputFormat::Html
    } else if code == 4 {
        InputFormat::Raw
    } else if code == 5 {
        InputFormat::Null
    } else {
        InputFormat::Markdown
    }
}

/// The format that an optional `input_format` option selects.
pub open spec fn format_of_option(code: Option<i64>) -> InputFormat {
    match code {
        Some(c) => format_of_code(c as int),
        None => InputFormat::Markdown,
    }
}

impl InputFormat {
    pub fn from_i32(val: i32) -> (r: InputFormat)
        ensures
            r == format_of_code(val as int),
    {
        match val {
            0 => InputFormat::Markdown,
            1 => InputFormat::Mdx,
            2 => InputFormat::Text,
            3 => InputFormat::Html,
            4 => InputFormat::Raw,
            5 => InputFormat::Null,
            _ => InputFormat::Markdown,
        }
    }

    /// The format selected by an options map whose `input_format` entry is
    /// `code` (`None` when the map or the entry is absent).
    pub fn from_option(code: Option<i64>) -> (r: InputFormat)
        ensures
            r == format_of_option(code),
            code.is_none() ==> r == InputFormat::Markdown,
            code == Some(0i64) ==> r == InputFormat::Markdown,
            forall|c: i64| code == Some(c) && !(0 <= c <= 5) ==> r == InputFormat::Markdown,
    {
        match code {
            Some(c) => {
                if 0 <= c && c <= 5 {
                    InputFormat::from_i32(c as i32)
                } else {
                    InputFormat::Markdown
                }
            },
            None => InputFormat::Markdown,
        }
    }

    /// The integer code under which the host sees this format.
    pub fn code(&self) -> (r: i32)
        ensures
            0 <= r <= 5,
            format_of_code(r as int) == *self,
    {
        match self {
            InputFormat::Markdown => 0,
            InputFormat::Mdx => 1,
            InputFormat::Text => 2,
            InputFormat::Html => 3,
            InputFormat::Raw => 4,
            InputFormat::Null => 5,
        }
    }
}

/// A value recovered from the engine, in the shape the host displays.
#[derive(Debug)]
pub enum MQValue {
    Array { value: Vec<MQValue> },
    /// Entries in the order the engine's dictionary yields them.
    Dict { value: Vec<(String, MQValue)> },
    Markdown { value: String },
}

/// Lines joined by a newline: nothing for no lines, no trailing newline.
pub open spec fn join_lines(parts: Seq<Seq<char>>) -> Seq<char>
    decreases parts.len(),
{
    if parts.len() == 0 {
        Seq::empty()
    } else if parts.len() == 1 {
        parts[0]
    } else {
        join_lines(parts.drop_last()) + seq!['\n'] + parts.last()
    }
}

/// The line `key: text` that a dictionary entry renders as.
pub open spec fn entry_line(key: Seq<char>, text: Seq<char>) -> Seq<char> {
    key + seq![':', ' '] + text
}

/// The text a recovered value renders as.
pub open spec fn text_of(v: MQValue) -> Seq<char>
    decreases v, 1nat,
{
    match v {
        MQValue::Array { value } => join_lines(element_texts(value@)),
        MQValue::Dict { value } => join_lines(entry_lines(value@)),
        MQValue::Markdown { value } => value@,
    }
}

/// The renderings of a list of values, one per value.
pub open spec fn element_texts(vs: Seq<MQValue>) -> Seq<Seq<char>>
    decreases vs, 0nat,
{
    Seq::new(
        vs.len(),
        |j: int|
            if 0 <= j < vs.len() {
                text_of(vs[j])
            } else {
                Seq::empty()
            },
    )
}

/// The `key: value` lines of a list of dictionary entries.
pub open spec fn entry_lines(es: Seq<(String, MQValue)>) -> Seq<Seq<char>>
    decreases es, 0nat,
{
    Seq::new(
        es.len(),
        |j: int|
            if 0 <= j < es.len() {
                entry_line(es[j].0@, text_of(es[j].1))
            } else {
                Seq::empty()
            },
    )
}

/// Whether a recovered value has no entries (or, for text, no characters).
pub open spec fn is_empty_value(v: MQValue) -> bool {
    match v {
        MQValue::Array { value } => value.len() == 0,
        MQValue::Dict { value } => value.len() == 0,
        MQValue::Markdown { value } => value@.len() == 0,
    }
}

/// Joining one more line onto a joined list.
pub proof fn lemma_join_push(parts: Seq<Seq<char>>, p: Seq<char>)
    ensures
        join_lines(parts.push(p)) == if parts.len() == 0 {
            p
        } else {
            join_lines(parts) + seq!['\n'] + p
        },
{
    assert(parts.push(p).drop_last() =~= parts);
}

impl MQValue {
    /// The rendering of this value: array elements one per line, dictionary
    /// entries as `key: value` lines, text as itself.
    pub fn text(&self) -> (r: String)
        ensures
            r@ == text_of(*self),
        decreases self,
    {
        match self {
            MQValue::Array { value } => {
                let mut out = String::new();
                let mut i: usize = 0;
                while i < value.len()
                    invariant
                        i <= value.len(),
                        out@ == join_lines(element_texts(value@.take(i as int))),
                        *self == (MQValue::Array { value: *value }),
                    decreases value.len() - i,
                {
                    proof {
                        reveal_strlit("\n");
                        assert(decreases_to!(*self => self->Array_value));
                        assert(decreases_to!(value => value[i as int]));
                    }
                    let t = value[i].text();
                    proof {
                        assert(element_texts(value@.take(i + 1)) =~= element_texts(
                            value@.take(i as int),
                        ).push(t@));
                        lemma_join_push(element_texts(value@.take(i as int)), t@);
                    }
                    if i > 0 {
                        out.append("\n");
                    }
                    out.append(t.as_str());
                    assert(out@ =~= join_lines(element_texts(value@.take(i + 1))));
                    i = i + 1;
                }
                assert(value@.take(value@.len() as int) =~= value@);
                out
            },
            MQValue::Dict { value } => {
                let mut out = String::new();
                let mut i: usize = 0;
                while i < value.len()
                    invariant
                        i <= value.len(),
                        out@ == join_lines(entry_lines(value@.take(i as int))),
                        *self == (MQValue::Dict { value: *value }),
                    decreases value.len() - i,
                {
                    proof {
                        reveal_strlit("\n");
                        reveal_strlit(": ");
                        assert(decreases_to!(*self => self->Dict_value));
                        assert(decreases_to!(value => value[i as int]));
                    }
                    let t = value[i].1.text();
                    let ghost line = entry_line(value@[i as int].0@, t@);
                    proof {
                        assert(entry_lines(value@.take(i + 1)) =~= entry_lines(
                            value@.take(i as int),
                        ).push(line));
                        lemma_join_push(entry_lines(value@.take(i as int)), line);
                    }
                    if i > 0 {
                        out.append("\n");
                    }
                    out.append(value[i].0.as_str());
                    out.append(": ");
                    out.append(t.as_str());
                    assert(out@ =~= join_lines(entry_lines(value@.take(i + 1))));
                    i = i + 1;
                }
                assert(value@.take(value@.len() as int) =~= value@);
                out
            },
            MQValue::Markdown { value } => value.clone(),
        }
    }

    pub fn is_empty(&self) -> (r: bool)
        ensures
            r == is_empty_value(*self),
    {
        match self {
            MQValue::Array { value } => value.len() == 0,
            MQValue::Dict { value } => value.len() == 0,
            MQValue::Markdown { value } => value.as_str().is_empty(),
        }
    }
}

/// One value as the engine produced it, with every part the host can see
/// held as plain data: a markdown node and a number by their rendered text,
/// a symbol by its name, a dictionary by its entries in the engine's order.
#[derive(Debug)]
pub enum EngineValue {
    Array(Vec<EngineValue>),
    Dict(Vec<(String, EngineValue)>),
    Markdown(String),
    String(String),
    Symbol(String),
    Number(String),
    Boolean(bool),
    Function,
    NativeFunction,
    Module,
    Ast,
    Bytes,
    Nothing,
}

/// The keys of a list of dictionary entries are pairwise distinct.
pub open spec fn keys_distinct<V>(es: Seq<(String, V)>) -> bool {
    forall|i: int, j: int| 0 <= i < j < es.len() ==> es[i].0@ != es[j].0@
}

impl EngineValue {
    /// Every dictionary inside this value has distinct keys.
    pub open spec fn wf(self) -> bool
        decreases self,
    {
        match self {
            EngineValue::Array(es) => forall|i: int| 0 <= i < es.len() ==> (#[trigger] es[i]).wf(),
            EngineValue::Dict(ps) => keys_distinct(ps@) && forall|i: int|
                0 <= i < ps.len() ==> (#[trigger] ps[i]).1.wf(),
            _ => true,
        }
    }
}

impl MQValue {
    /// Every dictionary inside this value has distinct keys.
    pub open spec fn wf(self) -> bool
        decreases self,
    {
        match self {
            MQValue::Array { value } => forall|i: int|
                0 <= i < value.len() ==> (#[trigger] value[i]).wf(),
            MQValue::Dict { value } => keys_distinct(value@) && forall|i: int|
                0 <= i < value.len() ==> (#[trigger] value[i]).1.wf(),
            MQValue::Markdown { .. } => true,
        }
    }
}

/// The mathematical shape of a recovered value.
pub enum ValueModel {
    Sequence(Seq<ValueModel>),
    Mapping(Seq<(Seq<char>, ValueModel)>),
    Text(Seq<char>),
}

impl MQValue {
    /// The shape this value stands for.
    pub open spec fn model(self) -> ValueModel
        decreases self, 1nat,
    {
        match self {
            MQValue::Array { value } => ValueModel::Sequence(models_of(value@)),
            MQValue::Dict { value } => ValueModel::Mapping(entry_models_of(value@)),
            MQValue::Markdown { value } => ValueModel::Text(value@),
        }
    }
}

pub open spec fn models_of(vs: Seq<MQValue>) -> Seq<ValueModel>
    decreases vs, 0nat,
{
    Seq::new(
        vs.len(),
        |j: int|
            if 0 <= j < vs.len() {
                vs[j].model()
            } else {
                ValueModel::Text(Seq::empty())
            },
    )
}

pub open spec fn entry_models_of(es: Seq<(String, MQValue)>) -> Seq<(Seq<char>, ValueModel)>
    decreases es, 0nat,
{
    Seq::new(
        es.len(),
        |j: int|
            if 0 <= j < es.len() {
                (es[j].0@, es[j].1.model())
            } else {
                (Seq::empty(), ValueModel::Text(Seq::empty()))
            },
    )
}

/// The text a boolean is shown as.
pub open spec fn bool_text(b: bool) -> Seq<char> {
    if b {
        seq!['t', 'r', 'u', 'e']
    } else {
        seq!['f', 'a', 'l', 's', 'e']
    }
}

/// What an engine value recovers to: arrays and dictionaries keep their
/// structure, scalars become their text, and values with no textual form
/// (functions, native functions, modules, syntax trees, bytes, nothing) become
/// empty text.
pub open spec fn recovered(e: EngineValue) -> ValueModel
    decreases e, 1nat,
{
    match e {
        EngineValue::Array(es) => ValueModel::Sequence(recovered_all(es@)),
        EngineValue::Dict(ps) => ValueModel::Mapping(recovered_entries(ps@)),
        EngineValue::Markdown(s) => ValueModel::Text(s@),
        EngineValue::String(s) => ValueModel::Text(s@),
        EngineValue::Symbol(s) => ValueModel::Text(s@),
        EngineValue::Number(s) => ValueModel::Text(s@),
        EngineValue::Boolean(b) => ValueModel::Text(bool_text(b)),
        _ => ValueModel::Text(Seq::empty()),
    }
}

pub open spec fn recovered_all(es: Seq<EngineValue>) -> Seq<ValueModel>
    decreases es, 0nat,
{
    Seq::new(
        es.len(),
        |j: int|
            if 0 <= j < es.len() {
                recovered(es[j])
            } else {
                ValueModel::Text(Seq::empty())
            },
    )
}

pub open spec fn recovered_entries(ps: Seq<(String, EngineValue)>) -> Seq<(Seq<char>, ValueModel)>
    decreases ps, 0nat,
{
    Seq::new(
        ps.len(),
        |j: int|
            if 0 <= j < ps.len() {
                (ps[j].0@, recovered(ps[j].1))
            } else {
                (Seq::empty(), ValueModel::Text(Seq::empty()))
            },
    )
}

/// Two values of the same shape render as the same text.
pub proof fn lemma_text_follows_model(a: MQValue, b: MQValue)
    requires
        a.model() == b.model(),
    ensures
        text_of(a) == text_of(b),
    decreases a,
{
    match (a, b) {
        (MQValue::Array { value: x }, MQValue::Array { value: y }) => {
            assert(models_of(x@).len() == models_of(y@).len());
            assert forall|i: int| 0 <= i < x@.len() implies text_of(x@[i]) == text_of(y@[i]) by {
                assert(models_of(x@)[i] == models_of(y@)[i]);
                assert(decreases_to!(a => x[i]));
                lemma_text_follows_model(x@[i], y@[i]);
            }
            assert(element_texts(x@) =~= element_texts(y@));
        },
        (MQValue::Dict { value: x }, MQValue::Dict { value: y }) => {
            assert(entry_models_of(x@).len() == entry_models_of(y@).len());
            assert forall|i: int| 0 <= i < x@.len() implies entry_line(x@[i].0@, text_of(x@[i].1))
                == entry_line(y@[i].0@, text_of(y@[i].1)) by {
                assert(entry_models_of(x@)[i] == entry_models_of(y@)[i]);
                assert(decreases_to!(a => x[i]));
                lemma_text_follows_model(x@[i].1, y@[i].1);
            }
            assert(entry_lines(x@) =~= entry_lines(y@));
        },
        _ => {},
    }
}

/// Recovery is total and depends on the engine value alone: recovering
/// equal engine values gives the same shape, the same content and the same
/// text.
pub proof fn lemma_recovery_deterministic(e1: EngineValue, e2: EngineValue, a: MQValue, b: MQValue)
    requires
        e1 == e2,
        a.model() == recovered(e1),
        b.model() == recovered(e2),
    ensures
        a.model() == b.model(),
        text_of(a) == text_of(b),
        is_empty_value(a) == is_empty_value(b),
{
    lemma_text_follows_model(a, b);
    match (a, b) {
        (MQValue::Array { value: x }, MQValue::Array { value: y }) => {
            assert(models_of(x@).len() == models_of(y@).len());
        },
        (MQValue::Dict { value: x }, MQValue::Dict { value: y }) => {
            assert(entry_models_of(x@).len() == entry_models_of(y@).len());
        },
        _ => {},
    }
}

impl MQValue {
    /// Recovers an engine value into the shape the host displays.
    pub fn from_engine(e: &EngineValue) -> (r: MQValue)
        requires
            e.wf(),
        ensures
            r.model() == recovered(*e),
            r.wf(),
        decreases e,
    {
        match e {
            EngineValue::Array(es) => {
                let mut out: Vec<MQValue> = Vec::new();
                let mut i: usize = 0;
                while i < es.len()
                    invariant
                        i <= es.len(),
                        *e == (EngineValue::Array(*es)),
                        e.wf(),
                        models_of(out@) =~= recovered_all(es@.take(i as int)),
                        forall|j: int| 0 <= j < out@.len() ==> (#[trigger] out@[j]).wf(),
                    decreases es.len() - i,
                {
                    proof {
                        assert(decreases_to!(*e => e->Array_0));
                        assert(decreases_to!(es => es[i as int]));
                    }
                    assert(es@[i as int].wf());
                    let m = MQValue::from_engine(&es[i]);
                    let ghost before = out@;
                    out.push(m);
                    proof {
                        assert(models_of(out@) =~= models_of(before).push(m.model()));
                        assert(recovered_all(es@.take(i + 1)) =~= recovered_all(
                            es@.take(i as int),
                        ).push(recovered(es@[i as int])));
                    }
                    i = i + 1;
                }
                assert(es@.take(es@.len() as int) =~= es@);
                assert(models_of(out@) == recovered_all(es@));
                MQValue::Array { value: out }
            },
            EngineValue::Dict(ps) => {
                let mut out: Vec<(String, MQValue)> = Vec::new();
                let mut i: usize = 0;
                while i < ps.len()
                    invariant
                        i <= ps.len(),
                        *e == (EngineValue::Dict(*ps)),
                        e.wf(),
                        entry_models_of(out@) =~= recovered_entries(ps@.take(i as int)),
                        out@.len() == i,
                        forall|j: int| 0 <= j < i ==> (#[trigger] out@[j]).0@ == ps@[j].0@,
                        forall|j: int| 0 <= j < out@.len() ==> (#[trigger] out@[j]).1.wf(),
                    decreases ps.len() - i,
                {
                    proof {
                        assert(decreases_to!(*e => e->Dict_0));
                        assert(decreases_to!(ps => ps[i as int]));
                    }
                    assert(ps@[i as int].1.wf());
                    let m = MQValue::from_engine(&ps[i].1);
                    let k = ps[i].0.clone();
                    let ghost before = out@;
                    let ghost entry = (k@, m.model());
                    out.push((k, m));
                    proof {
                        assert(entry_models_of(out@) =~= entry_models_of(before).push(entry));
                        assert(recovered_entries(ps@.take(i + 1)) =~= recovered_entries(
                            ps@.take(i as int),
                        ).push(entry));
                    }
                    i = i + 1;
                }
                assert(ps@.take(ps@.len() as int) =~= ps@);
                assert(entry_models_of(out@) == recovered_entries(ps@));
                MQValue::Dict { value: out }
            },
            EngineValue::Markdown(s) => MQValue::Markdown { value: s.clone() },
            EngineValue::String(s) => MQValue::Markdown { value: s.clone() },
            EngineValue::Symbol(s) => MQValue::Markdown { value: s.clone() },
            EngineValue::Number(s) => MQValue::Markdown { value: s.clone() },
            EngineValue::Boolean(b) => {
                proof {
                    reveal_strlit("true");
                    reveal_strlit("false");
                    assert("true"@ =~= bool_text(true));
                    assert("false"@ =~= bool_text(false));
                }
                if *b {
                    MQValue::Markdown { value: String::from_str("true") }
                } else {
                    MQValue::Markdown { value: String::from_str("false") }
                }
            },
            _ => MQValue::Markdown { value: String::new() },
        }
    }
}

} // verus!
