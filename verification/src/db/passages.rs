//! The assistant's search index: which passages of a call are stored when
//! the call is indexed, with the count and token total recorded for it, and
//! the rows of the vector cache.
use vstd::prelude::*;

use crate::text::{chars_to_string, clone_opt_string, trim, trim_str};

verus! {

/// A passage handed to the indexer. `kind` is the stored code of its kind
/// (transcript, decision, recap, …).
#[derive(Debug, Clone)]
pub struct PassageInput {
    pub kind: String,
    pub speaker: Option<String>,
    pub start_ms: Option<i64>,
    pub end_ms: Option<i64>,
    pub text: String,
    pub token_est: i64,
}

/// A row of the vector cache: the raw little-endian `f32` blob of one
/// passage's embedding.
#[derive(Debug, Clone)]
pub struct EmbeddingRow {
    pub passage_id: i64,
    pub call_id: String,
    pub dim: i64,
    pub vec: Vec<u8>,
}

/// Stamp that invalidates the in-memory vector cache: it changes with any
/// (re)indexing of a call and with the number of stored vectors.
#[derive(Debug, Clone, PartialEq, Eq)]
pub struct EmbeddingStamp {
    pub indexed_calls: i64,
    pub last_indexed_at: String,
    pub embedding_count: i64,
}

/// Whether a passage is stored: its text is not blank once trimmed.
pub open spec fn passage_kept(p: PassageInput) -> bool {
    trim(p.text@).len() > 0
}

/// The passages stored, in order.
pub open spec fn kept_passages(ps: Seq<PassageInput>) -> Seq<PassageInput>
    decreases ps.len(),
{
    if ps.len() == 0 {
        Seq::empty()
    } else if passage_kept(ps.last()) {
        kept_passages(ps.drop_last()).push(ps.last())
    } else {
        kept_passages(ps.drop_last())
    }
}

/// Sum of the token estimates of the stored passages.
pub open spec fn kept_token_sum(ps: Seq<PassageInput>) -> int
    decreases ps.len(),
{
    if ps.len() == 0 {
        0
    } else if passage_kept(ps.last()) {
        kept_token_sum(ps.drop_last()) + ps.last().token_est
    } else {
        kept_token_sum(ps.drop_last())
    }
}

/// What indexing a call stores: the passages with a non-blank text, that
/// text trimmed and the rest as given, in order; their number; and the sum of
/// their token estimates. Running sums that leave `i64` are left out (the
/// sum would overflow).
pub fn passages_to_store(passages: &[PassageInput]) -> (r: (Vec<PassageInput>, i64, i64))
    requires
        passages.len() <= i64::MAX,
        forall|n: int|
            0 <= n <= passages.len() ==> i64::MIN <= #[trigger] kept_token_sum(passages@.take(n))
                <= i64::MAX,
    ensures
        r.0.len() == kept_passages(passages@).len(),
        r.1 == kept_passages(passages@).len(),
        r.2 == kept_token_sum(passages@),
        forall|k: int|
            0 <= k < r.0.len() ==> {
                let src = #[trigger] kept_passages(passages@)[k];
                &&& r.0@[k].text@ == trim(src.text@)
                &&& r.0@[k].kind@ == src.kind@
                &&& r.0@[k].speaker == src.speaker
                &&& r.0@[k].start_ms == src.start_ms
                &&& r.0@[k].end_ms == src.end_ms
                &&& r.0@[k].token_est == src.token_est
            },
{
    let ghost pv = passages@;
    let mut out: Vec<PassageInput> = Vec::new();
    let mut count: i64 = 0;
    let mut tokens: i64 = 0;
    let mut k: usize = 0;
    while k < passages.len()
        invariant
            k <= passages.len() <= i64::MAX,
            pv == passages@,
            forall|n: int|
                0 <= n <= passages.len() ==> i64::MIN <= #[trigger] kept_token_sum(pv.take(n))
                    <= i64::MAX,
            out.len() == kept_passages(pv.take(k as int)).len(),
            count == out.len(),
            out.len() <= k,
            tokens == kept_token_sum(pv.take(k as int)),
            forall|j: int|
                0 <= j < out.len() ==> {
                    let src = #[trigger] kept_passages(pv.take(k as int))[j];
                    &&& out@[j].text@ == trim(src.text@)
                    &&& out@[j].kind@ == src.kind@
                    &&& out@[j].speaker == src.speaker
                    &&& out@[j].start_ms == src.start_ms
                    &&& out@[j].end_ms == src.end_ms
                    &&& out@[j].token_est == src.token_est
                },
        decreases passages.len() - k,
    {
        assert(pv.take(k + 1).drop_last() =~= pv.take(k as int));
        assert(pv.take(k + 1).last() == passages@[k as int]);
        let p = &passages[k];
        let t = trim_str(p.text.as_str());
        if t.len() > 0 {
            assert(kept_token_sum(pv.take(k + 1)) == tokens + p.token_est);
            let q = PassageInput {
                kind: p.kind.clone(),
                speaker: clone_opt_string(&p.speaker),
                start_ms: p.start_ms,
                end_ms: p.end_ms,
                text: chars_to_string(&t),
                token_est: p.token_est,
            };
            out.push(q);
            count = count + 1;
            tokens = tokens + p.token_est;
        }
        k = k + 1;
    }
    assert(pv.take(passages.len() as int) =~= pv);
    (out, count, tokens)
}

} // verus!
