use wotold_core::db::degraded::{add_flag_update, encode_flags, flags_from_decoded, parse_flags, with_flag, DegradedFlag};

#[test]
fn broken_column_degrades_to_empty_instead_of_failing() {
    assert!(parse_flags(Some("не json")).is_empty());
    assert!(parse_flags(Some("{}")).is_empty());
    assert!(parse_flags(None).is_empty());
    assert_eq!(
        parse_flags(Some(r#"["partial_transcript"]"#)),
        vec!["partial_transcript"]
    );
}

#[test]
fn flag_codes_are_stable() {
    assert_eq!(DegradedFlag::PartialTranscript.as_str(), "partial_transcript");
    assert_eq!(DegradedFlag::SystemTrackNotDiarized.as_str(), "system_track_not_diarized");
    assert_eq!(DegradedFlag::MicTrackNotDiarized.as_str(), "mic_track_not_diarized");
    assert_eq!(DegradedFlag::SpeakerClusteringFailed.as_str(), "speaker_clustering_failed");
    assert_eq!(DegradedFlag::LanguageRepinFailed.as_str(), "language_repin_failed");
    assert_eq!(DegradedFlag::MicTrackGapPadded.as_str(), "mic_track_gap_padded");
    assert_eq!(DegradedFlag::SystemTrackGapPadded.as_str(), "system_track_gap_padded");
    assert_eq!(DegradedFlag::AutoStoppedOnSilence.as_str(), "auto_stopped_on_silence");
}

#[test]
fn flags_accumulate_in_order_without_repeats() {
    let first = add_flag_update(None, DegradedFlag::PartialTranscript).unwrap().unwrap();
    assert_eq!(first, r#"["partial_transcript"]"#);
    let second = add_flag_update(Some(&first), DegradedFlag::SystemTrackNotDiarized)
        .unwrap()
        .unwrap();
    assert_eq!(
        parse_flags(Some(&second)),
        vec!["partial_transcript", "system_track_not_diarized"]
    );
    assert_eq!(add_flag_update(Some(&second), DegradedFlag::PartialTranscript).unwrap(), None);
}

#[test]
fn with_flag_is_idempotent_on_values() {
    let once = with_flag(Vec::new(), DegradedFlag::AutoStoppedOnSilence).unwrap();
    assert_eq!(once, vec!["auto_stopped_on_silence"]);
    assert!(with_flag(once, DegradedFlag::AutoStoppedOnSilence).is_none());
}

#[test]
fn encode_flags_writes_a_json_array() {
    let v = vec!["a".to_string(), "b".to_string()];
    assert_eq!(encode_flags(&v).unwrap(), r#"["a","b"]"#);
}

#[test]
fn undecodable_column_gives_no_flags() {
    assert!(flags_from_decoded(None).is_empty());
    assert_eq!(flags_from_decoded(Some(vec!["x".to_string()])), vec!["x"]);
}

#[test]
fn added_flag_reads_back_with_the_old_ones() {
    let first = add_flag_update(Some(r#"["partial_transcript"]"#), DegradedFlag::MicTrackGapPadded)
        .unwrap()
        .unwrap();
    assert_eq!(parse_flags(Some(&first)), vec!["partial_transcript".to_string(), "mic_track_gap_padded".to_string()]);
    assert_eq!(add_flag_update(Some(&first), DegradedFlag::MicTrackGapPadded).unwrap(), None);
}

#[test]
fn encoded_flags_read_back() {
    let v = vec!["a \"quoted\" code".to_string(), "b".to_string()];
    let s = encode_flags(&v).unwrap();
    assert_eq!(parse_flags(Some(&s)), v);
}
