//! Confirming a call's speaker: the consent that lets a confirmation keep a
//! voice sample, which sample is kept, and the error of a missing speaker.
use vstd::prelude::*;

use crate::error::AppError;
use crate::json::{decode_object_string_field, json_object_string_field};
use crate::silence::opt_view;
use crate::text::{push_str, str_is, to_owned_string};

verus! {

/// Attribute key of a contact's consent to keep samples of their voice.
pub const CONSENT_VOICE_KEY: &'static str = "consent_voice";

/// Whether a contact's attributes (a JSON object) give voice consent: the
/// string under `consent_voice` is `"true"`. Attributes that are not a JSON
/// object, or lack that string, give none.
pub open spec fn gives_voice_consent(attributes_json: Seq<char>) -> bool {
    json_object_string_field(attributes_json, CONSENT_VOICE_KEY@) == Some("true"@)
}

/// The consent that the decoded `consent_voice` attribute gives: only the
/// string `"true"` does.
pub fn consent_from_field(field: Option<&str>) -> (b: bool)
    ensures
        b == (opt_view(field) == Some("true"@)),
{
    match field {
        Some(v) => str_is(v, "true"),
        None => false,
    }
}

/// Reads the voice consent from a contact's attributes
/// (see [`gives_voice_consent`]).
pub fn consent_voice(attributes_json: &str) -> (b: bool)
    ensures
        b == gives_voice_consent(attributes_json@),
{
    let field = decode_object_string_field(attributes_json, CONSENT_VOICE_KEY);
    match field {
        Some(v) => consent_from_field(Some(v.as_str())),
        None => consent_from_field(None),
    }
}

/// What is known of the speaker row being confirmed: its call and the
/// embedding of its voice cluster, if one was stored.
#[derive(Debug, Clone)]
pub struct SpeakerMeta {
    pub call_id: String,
    pub cluster_embedding: Option<Vec<u8>>,
}

/// The voice sample a confirmation keeps: with consent, for a speaker row
/// that has a non-empty cluster embedding, that embedding from that call;
/// otherwise none.
pub fn voice_sample_to_keep(consent: bool, meta: Option<SpeakerMeta>) -> (r: Option<(String, Vec<u8>)>)
    ensures
        match r {
            Some((call_id, emb)) => consent && (meta matches Some(m) && (m.cluster_embedding
                matches Some(e) && e@.len() > 0 && emb@ == e@ && call_id@ == m.call_id@)),
            None => !consent || meta is None || (meta matches Some(m) && (m.cluster_embedding is None
                || (m.cluster_embedding matches Some(e) && e@.len() == 0))),
        },
{
    if !consent {
        return None;
    }
    match meta {
        Some(m) => match m.cluster_embedding {
            Some(e) => if e.len() > 0 {
                Some((m.call_id, e))
            } else {
                None
            },
            None => None,
        },
        None => None,
    }
}

/// The error of a speaker row that an update did not find:
/// `call_speaker <id> not found`.
pub fn speaker_not_found(call_speaker_id: &str) -> (e: AppError)
    ensures
        e matches AppError::Other(m) && m@ == "call_speaker "@ + call_speaker_id@ + " not found"@,
{
    let mut m = to_owned_string("call_speaker ");
    push_str(&mut m, call_speaker_id);
    push_str(&mut m, " not found");
    AppError::Other(m)
}

/// An update of a speaker row succeeds when it touched a row; none touched
/// is [`speaker_not_found`].
pub fn check_speaker_updated(call_speaker_id: &str, rows_affected: u64) -> (r: Result<(), AppError>)
    ensures
        rows_affected > 0 ==> r is Ok,
        rows_affected == 0 ==> (r matches Err(e) && e matches AppError::Other(m) && m@ == "call_speaker "@
            + call_speaker_id@ + " not found"@),
{
    if rows_affected == 0 {
        Err(speaker_not_found(call_speaker_id))
    } else {
        Ok(())
    }
}

/// The speaker rows a transcript adds to a call: each tag heard that the
/// call has no row for yet, once, in the order first heard.
pub open spec fn tags_to_add(existing: Seq<Seq<char>>, heard: Seq<Seq<char>>) -> Seq<Seq<char>>
    decreases heard.len(),
{
    if heard.len() == 0 {
        Seq::empty()
    } else {
        let prev = tags_to_add(existing, heard.drop_last());
        let t = heard.last();
        if existing.contains(t) || prev.contains(t) {
            prev
        } else {
            prev.push(t)
        }
    }
}

fn contains_tag(v: &Vec<String>, t: &String) -> (b: bool)
    ensures
        b == v@.map_values(|x: String| x@).contains(t@),
{
    let ghost vv = v@.map_values(|x: String| x@);
    let mut k: usize = 0;
    while k < v.len()
        invariant
            k <= v.len(),
            vv == v@.map_values(|x: String| x@),
            forall|j: int| 0 <= j < k ==> vv[j] != t@,
        decreases v.len() - k,
    {
        assert(vv[k as int] == v@[k as int]@);
        if v[k] == *t {
            assert(vv[k as int] == t@);
            return true;
        }
        k = k + 1;
    }
    false
}

/// The placeholder rows to insert so that every heard speaker has one (see
/// [`tags_to_add`]); `existing` are the call's current tags.
pub fn speaker_tags_to_add(existing: &Vec<String>, heard: &Vec<String>) -> (out: Vec<String>)
    ensures
        out@.map_values(|x: String| x@) == tags_to_add(
            existing@.map_values(|x: String| x@),
            heard@.map_values(|x: String| x@),
        ),
{
    let ghost ev = existing@.map_values(|x: String| x@);
    let ghost hv = heard@.map_values(|x: String| x@);
    let mut out: Vec<String> = Vec::new();
    let mut k: usize = 0;
    while k < heard.len()
        invariant
            k <= heard.len(),
            ev == existing@.map_values(|x: String| x@),
            hv == heard@.map_values(|x: String| x@),
            out@.map_values(|x: String| x@) == tags_to_add(ev, hv.take(k as int)),
        decreases heard.len() - k,
    {
        let ghost prev = out@.map_values(|x: String| x@);
        assert(hv.take(k + 1).drop_last() =~= hv.take(k as int));
        assert(hv.take(k + 1).last() == heard@[k as int]@);
        let t = &heard[k];
        if !contains_tag(existing, t) && !contains_tag(&out, t) {
            out.push(t.clone());
            assert(out@.map_values(|x: String| x@) =~= prev.push(t@));
        }
        k = k + 1;
    }
    assert(hv.take(heard.len() as int) =~= hv);
    out
}

proof fn lemma_heard_covered(existing: Seq<Seq<char>>, heard: Seq<Seq<char>>, i: int)
    requires
        0 <= i < heard.len(),
    ensures
        existing.contains(heard[i]) || tags_to_add(existing, heard).contains(heard[i]),
    decreases heard.len(),
{
    broadcast use vstd::seq_lib::lemma_seq_contains_after_push;

    let prev = tags_to_add(existing, heard.drop_last());
    if i < heard.len() - 1 {
        lemma_heard_covered(existing, heard.drop_last(), i);
        assert(heard.drop_last()[i] == heard[i]);
    }
}

proof fn lemma_nothing_left(existing: Seq<Seq<char>>, heard: Seq<Seq<char>>)
    requires
        forall|i: int| 0 <= i < heard.len() ==> existing.contains(#[trigger] heard[i]),
    ensures
        tags_to_add(existing, heard) == Seq::<Seq<char>>::empty(),
    decreases heard.len(),
{
    if heard.len() > 0 {
        assert forall|i: int| 0 <= i < heard.drop_last().len() implies existing.contains(
            #[trigger] heard.drop_last()[i],
        ) by {
            assert(heard.drop_last()[i] == heard[i]);
        }
        lemma_nothing_left(existing, heard.drop_last());
        assert(existing.contains(heard[heard.len() - 1]));
    }
}

/// Law: adding the missing speaker rows is idempotent. Once the rows it asks
/// for are in, the same transcript asks for nothing more.
pub proof fn law_speaker_rows_idempotent(existing: Seq<Seq<char>>, heard: Seq<Seq<char>>)
    ensures
        tags_to_add(existing + tags_to_add(existing, heard), heard) == Seq::<Seq<char>>::empty(),
{
    broadcast use vstd::seq_lib::lemma_seq_concat_contains_all_elements;

    let added = tags_to_add(existing, heard);
    assert forall|i: int| 0 <= i < heard.len() implies (existing + added).contains(
        #[trigger] heard[i],
    ) by {
        lemma_heard_covered(existing, heard, i);
    }
    lemma_nothing_left(existing + added, heard);
}

} // verus!
