//! What a regenerated recap writes for its lists (decisions, open
//! questions, action items): every list is replaced whole, entries whose
//! text is blank once trimmed are skipped, and each stored entry keeps the
//! position it had in the generated list as its order index.
use vstd::prelude::*;

use crate::text::{chars_to_string, clone_opt_string, trim, trim_str};

verus! {

/// An open question as the recap generator returns it.
#[derive(Debug, Clone, Default)]
pub struct OpenQuestionInput {
    pub text: String,
    pub raised_by: Option<String>,
    pub evidence_quote: Option<String>,
    pub evidence_speaker: Option<String>,
    pub evidence_start_ms: Option<i64>,
}

/// A stored open question.
#[derive(Debug, Clone)]
pub struct OpenQuestionRow {
    pub id: String,
    pub call_id: String,
    pub text: String,
    pub raised_by: Option<String>,
    pub evidence_quote: Option<String>,
    pub evidence_speaker: Option<String>,
    pub evidence_start_ms: Option<i64>,
    pub order_idx: i64,
}

/// The entries of a generated list that are stored: for each text that is
/// not blank once trimmed, its position in the list and the trimmed text,
/// in list order.
pub open spec fn kept_texts(texts: Seq<Seq<char>>) -> Seq<(int, Seq<char>)>
    decreases texts.len(),
{
    if texts.len() == 0 {
        Seq::empty()
    } else {
        let prev = kept_texts(texts.drop_last());
        if trim(texts.last()).len() > 0 {
            prev.push(((texts.len() - 1) as int, trim(texts.last())))
        } else {
            prev
        }
    }
}

proof fn lemma_kept_texts_bounds(texts: Seq<Seq<char>>)
    ensures
        kept_texts(texts).len() <= texts.len(),
        forall|k: int|
            0 <= k < kept_texts(texts).len() ==> 0 <= (#[trigger] kept_texts(texts)[k]).0 < texts.len()
                && kept_texts(texts)[k].1 == trim(texts[kept_texts(texts)[k].0]),
        forall|k: int, l: int|
            0 <= k < l < kept_texts(texts).len() ==> (#[trigger] kept_texts(texts)[k]).0 < (
            #[trigger] kept_texts(texts)[l]).0,
    decreases texts.len(),
{
    if texts.len() > 0 {
        lemma_kept_texts_bounds(texts.drop_last());
        let prev = kept_texts(texts.drop_last());
        assert forall|k: int| 0 <= k < prev.len() implies texts[prev[k].0] == texts.drop_last()[prev[k].0] by {}
    }
}

/// The stored entries of a generated list (see [`kept_texts`]).
pub fn kept_entries(texts: &[&str]) -> (out: Vec<(usize, String)>)
    ensures
        out@.map_values(|e: (usize, String)| (e.0 as int, e.1@)) == kept_texts(
            texts@.map_values(|t: &str| t@),
        ),
{
    let ghost tv = texts@.map_values(|t: &str| t@);
    let mut out: Vec<(usize, String)> = Vec::new();
    let mut k: usize = 0;
    while k < texts.len()
        invariant
            k <= texts.len(),
            tv == texts@.map_values(|t: &str| t@),
            out@.map_values(|e: (usize, String)| (e.0 as int, e.1@)) == kept_texts(tv.take(k as int)),
        decreases texts.len() - k,
    {
        let ghost prev = out@.map_values(|e: (usize, String)| (e.0 as int, e.1@));
        assert(tv.take(k + 1).drop_last() =~= tv.take(k as int));
        assert(tv.take(k + 1).last() == texts@[k as int]@);
        let t = trim_str(texts[k]);
        if t.len() > 0 {
            out.push((k, chars_to_string(&t)));
            assert(out@.map_values(|e: (usize, String)| (e.0 as int, e.1@)) =~= prev.push(
                (k as int, t@),
            ));
        }
        k = k + 1;
    }
    assert(tv.take(texts.len() as int) =~= tv);
    out
}

/// The open questions to store, each with its order index: the entries of
/// [`kept_texts`] over the questions' texts, with the text trimmed and the
/// other fields as generated.
pub fn open_questions_to_store(items: &[OpenQuestionInput]) -> (out: Vec<(i64, OpenQuestionInput)>)
    requires
        items.len() <= i64::MAX,
    ensures
        out.len() == kept_texts(items@.map_values(|q: OpenQuestionInput| q.text@)).len(),
        forall|k: int|
            0 <= k < out.len() ==> {
                let e = kept_texts(items@.map_values(|q: OpenQuestionInput| q.text@))[k];
                let src = items@[e.0];
                &&& (#[trigger] out@[k]).0 == e.0
                &&& out@[k].1.text@ == e.1
                &&& out@[k].1.raised_by == src.raised_by
                &&& out@[k].1.evidence_quote == src.evidence_quote
                &&& out@[k].1.evidence_speaker == src.evidence_speaker
                &&& out@[k].1.evidence_start_ms == src.evidence_start_ms
            },
{
    let ghost tv = items@.map_values(|q: OpenQuestionInput| q.text@);
    let mut out: Vec<(i64, OpenQuestionInput)> = Vec::new();
    let mut k: usize = 0;
    while k < items.len()
        invariant
            k <= items.len() <= i64::MAX,
            tv == items@.map_values(|q: OpenQuestionInput| q.text@),
            out.len() == kept_texts(tv.take(k as int)).len(),
            forall|j: int|
                0 <= j < out.len() ==> {
                    let e = kept_texts(tv.take(k as int))[j];
                    let src = items@[e.0];
                    &&& (#[trigger] out@[j]).0 == e.0
                    &&& out@[j].1.text@ == e.1
                    &&& out@[j].1.raised_by == src.raised_by
                    &&& out@[j].1.evidence_quote == src.evidence_quote
                    &&& out@[j].1.evidence_speaker == src.evidence_speaker
                    &&& out@[j].1.evidence_start_ms == src.evidence_start_ms
                },
        decreases items.len() - k,
    {
        proof {
            lemma_kept_texts_bounds(tv.take(k as int));
        }
        assert(tv.take(k + 1).drop_last() =~= tv.take(k as int));
        assert(tv.take(k + 1).last() == items@[k as int].text@);
        let item = &items[k];
        let t = trim_str(item.text.as_str());
        if t.len() > 0 {
            let q = OpenQuestionInput {
                text: chars_to_string(&t),
                raised_by: clone_opt_string(&item.raised_by),
                evidence_quote: clone_opt_string(&item.evidence_quote),
                evidence_speaker: clone_opt_string(&item.evidence_speaker),
                evidence_start_ms: item.evidence_start_ms,
            };
            out.push((k as i64, q));
        }
        k = k + 1;
    }
    assert(tv.take(items.len() as int) =~= tv);
    out
}

} // verus!
