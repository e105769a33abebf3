use vstd::prelude::*;

use crate::error::MqError;
use crate::value::{is_empty_value, join_lines, lemma_join_push, text_of, MQValue};

verus! {

/// The values one query run produced, in order; read-only once built.
#[derive(Debug)]
pub struct MQResult {
    pub values: Vec<MQValue>,
}

impl View for MQResult {
    type V = Seq<MQValue>;

    open spec fn view(&self) -> Seq<MQValue> {
        self.values@
    }
}

/// The renderings of the values that are not empty, in order.
pub open spec fn shown_texts(vs: Seq<MQValue>) -> Seq<Seq<char>>
    decreases vs.len(),
{
    if vs.len() == 0 {
        Seq::empty()
    } else if is_empty_value(vs.last()) {
        shown_texts(vs.drop_last())
    } else {
        shown_texts(vs.drop_last()).push(text_of(vs.last()))
    }
}

/// How many of the values are empty.
pub open spec fn empty_count(vs: Seq<MQValue>) -> nat
    decreases vs.len(),
{
    if vs.len() == 0 {
        0
    } else if is_empty_value(vs.last()) {
        empty_count(vs.drop_last()) + 1
    } else {
        empty_count(vs.drop_last())
    }
}

/// The text of a whole result: each value that is not empty, rendered, with
/// a newline between two of them.
pub open spec fn result_text(vs: Seq<MQValue>) -> Seq<char>
    decreases vs.len(),
{
    if vs.len() == 0 {
        Seq::empty()
    } else if is_empty_value(vs.last()) {
        result_text(vs.drop_last())
    } else if shown_texts(vs.drop_last()).len() == 0 {
        text_of(vs.last())
    } else {
        result_text(vs.drop_last()) + seq!['\n'] + text_of(vs.last())
    }
}

/// The length of a result counts every value, the empty ones too: the
/// shown values and the filtered-out ones add up to it.
pub proof fn lemma_length_counts_every_value(rs: Seq<MQValue>)
    ensures
        rs.len() == shown_texts(rs).len() + empty_count(rs),
    decreases rs.len(),
{
    if rs.len() > 0 {
        lemma_length_counts_every_value(rs.drop_last());
    }
}

/// The text of a result is its shown values joined by newlines.
pub proof fn lemma_text_joins_values(rs: Seq<MQValue>)
    ensures
        result_text(rs) == join_lines(shown_texts(rs)),
    decreases rs.len(),
{
    if rs.len() > 0 {
        lemma_text_joins_values(rs.drop_last());
        if !is_empty_value(rs.last()) {
            lemma_join_push(shown_texts(rs.drop_last()), text_of(rs.last()));
        }
    }
}

impl MQResult {
    pub fn from(values: Vec<MQValue>) -> (r: MQResult)
        ensures
            r@ == values@,
    {
        MQResult { values }
    }

    /// The rendered text of every value that is not empty, in order.
    pub fn values_as_strings(&self) -> (r: Vec<String>)
        ensures
            r@.len() == shown_texts(self@).len(),
            forall|i: int| 0 <= i < r@.len() ==> #[trigger] r@[i]@ == shown_texts(self@)[i],
    {
        let mut out: Vec<String> = Vec::new();
        let mut i: usize = 0;
        while i < self.values.len()
            invariant
                i <= self.values.len(),
                out@.len() == shown_texts(self@.take(i as int)).len(),
                forall|j: int|
                    0 <= j < out@.len() ==> #[trigger] out@[j]@ == shown_texts(
                        self@.take(i as int),
                    )[j],
            decreases self.values.len() - i,
        {
            assert(self@.take(i + 1).drop_last() =~= self@.take(i as int));
            if !self.values[i].is_empty() {
                out.push(self.values[i].text());
            }
            i = i + 1;
        }
        assert(self@.take(self@.len() as int) =~= self@);
        out
    }

    /// The rendered text of every value that is not empty, one per line.
    pub fn text(&self) -> (r: String)
        ensures
            r@ == result_text(self@),
            r@ == join_lines(shown_texts(self@)),
    {
        proof {
            lemma_text_joins_values(self@);
        }
        let parts = self.values_as_strings();
        let ghost texts = shown_texts(self@);
        let mut out = String::new();
        let mut i: usize = 0;
        while i < parts.len()
            invariant
                i <= parts.len(),
                parts@.len() == texts.len(),
                forall|j: int| 0 <= j < parts@.len() ==> #[trigger] parts@[j]@ == texts[j],
                out@ == join_lines(texts.take(i as int)),
            decreases parts.len() - i,
        {
            proof {
                reveal_strlit("\n");
                assert(texts.take(i + 1) =~= texts.take(i as int).push(parts@[i as int]@));
                lemma_join_push(texts.take(i as int), parts@[i as int]@);
            }
            if i > 0 {
                out.append("\n");
            }
            out.append(parts[i].as_str());
            assert(out@ =~= join_lines(texts.take(i + 1)));
            i = i + 1;
        }
        assert(texts.take(texts.len() as int) =~= texts);
        out
    }

    /// The number of values, empty ones included.
    pub fn len(&self) -> (r: usize)
        ensures
            r == self@.len(),
    {
        self.values.len()
    }

    pub fn is_empty(&self) -> (r: bool)
        ensures
            r == (self@.len() == 0),
    {
        self.values.len() == 0
    }

    /// The rendered text of the value at `idx`.
    pub fn get_at(&self, idx: usize) -> (r: Result<String, MqError>)
        ensures
            idx < self@.len() ==> (r matches Ok(s) && s@ == text_of(self@[idx as int])),
            idx >= self@.len() ==> r == Err::<String, MqError>(
                MqError::OutOfRange { index: idx, length: self@.len() as usize },
            ),
    {
        if idx < self.values.len() {
            Ok(self.values[idx].text())
        } else {
            Err(MqError::OutOfRange { index: idx, length: self.values.len() })
        }
    }

    /// The rendered text of every value in order, empty ones included: what
    /// a visitor is handed, one call per value.
    pub fn each(&self) -> (r: Vec<String>)
        ensures
            r@.len() == self@.len(),
            forall|i: int| 0 <= i < r@.len() ==> #[trigger] r@[i]@ == text_of(self@[i]),
    {
        let mut out: Vec<String> = Vec::new();
        let mut i: usize = 0;
        while i < self.values.len()
            invariant
                i <= self.values.len(),
                out@.len() == i,
                forall|j: int| 0 <= j < i ==> #[trigger] out@[j]@ == text_of(self@[j]),
            decreases self.values.len() - i,
        {
            out.push(self.values[i].text());
            i = i + 1;
        }
        out
    }
}

} // verus!
