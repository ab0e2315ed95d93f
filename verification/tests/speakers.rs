use wotold_core::db::speakers::{check_speaker_updated, consent_from_field, consent_voice, speaker_tags_to_add, voice_sample_to_keep, SpeakerMeta};
use wotold_core::error::AppError;

#[test]
fn consent_is_the_string_true_only() {
    assert!(consent_voice(r#"{"consent_voice":"true"}"#));
    assert!(!consent_voice(r#"{"consent_voice":true}"#));
    assert!(!consent_voice(r#"{"consent_voice":"false"}"#));
    assert!(!consent_voice("{}"));
    assert!(!consent_voice("не json"));
    assert!(!consent_voice(r#"["consent_voice"]"#));
}

#[test]
fn voice_sample_needs_consent_and_embedding() {
    let meta = SpeakerMeta { call_id: "c1".into(), cluster_embedding: Some(vec![1, 2, 3]) };
    let kept = voice_sample_to_keep(true, Some(meta.clone())).unwrap();
    assert_eq!(kept, ("c1".to_string(), vec![1, 2, 3]));
    assert!(voice_sample_to_keep(false, Some(meta)).is_none());
    let empty = SpeakerMeta { call_id: "c1".into(), cluster_embedding: Some(vec![]) };
    assert!(voice_sample_to_keep(true, Some(empty)).is_none());
    assert!(voice_sample_to_keep(true, None).is_none());
}

#[test]
fn untouched_speaker_row_is_an_error() {
    assert!(check_speaker_updated("s1", 1).is_ok());
    match check_speaker_updated("s1", 0) {
        Err(AppError::Other(m)) => assert_eq!(m, "call_speaker s1 not found"),
        _ => panic!(),
    }
}

#[test]
fn consent_field_must_read_true() {
    assert!(consent_from_field(Some("true")));
    assert!(!consent_from_field(Some("TRUE")));
    assert!(!consent_from_field(None));
}

#[test]
fn missing_speakers_are_added_once() {
    let existing = vec!["owner".to_string(), "speaker:0".to_string()];
    let heard = vec!["speaker:0".to_string(), "speaker:1".to_string(), "speaker:1".to_string(), "speaker:2".to_string()];
    let add = speaker_tags_to_add(&existing, &heard);
    assert_eq!(add, vec!["speaker:1", "speaker:2"]);
    let mut after = existing.clone();
    after.extend(add);
    assert!(speaker_tags_to_add(&after, &heard).is_empty());
}
