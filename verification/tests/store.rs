use wotold_core::db::passages::{passages_to_store, PassageInput};
use wotold_core::db::recap_items::{kept_entries, open_questions_to_store, OpenQuestionInput};
use wotold_core::db::sql::{call_filter_clause, placeholders, present_tags_clause};
use wotold_core::db::telemetry::{failure_preset, failure_reason, flag_state_column, window_modifier};
use wotold_core::secrets::{secret_write, SecretWrite};

fn passage(text: &str, tokens: i64) -> PassageInput {
    PassageInput {
        kind: "transcript".into(),
        speaker: None,
        start_ms: Some(0),
        end_ms: None,
        text: text.into(),
        token_est: tokens,
    }
}

#[test]
fn replace_skips_blank_text_and_counts_tokens() {
    let (kept, count, tokens) = passages_to_store(&[passage("непустой текст", 7), passage("   ", 3)]);
    assert_eq!(count, 1);
    assert_eq!(tokens, 7);
    assert_eq!(kept[0].text, "непустой текст");
}

#[test]
fn passages_are_trimmed() {
    let (kept, count, tokens) = passages_to_store(&[passage("  a  ", 1), passage("b", 2)]);
    assert_eq!((count, tokens), (2, 3));
    assert_eq!(kept[0].text, "a");
}

#[test]
fn list_entries_keep_their_position() {
    let out = kept_entries(&[" first ", "  ", "third"]);
    assert_eq!(out, vec![(0, "first".to_string()), (2, "third".to_string())]);
}

#[test]
fn open_questions_keep_fields_and_order_index() {
    let items = vec![
        OpenQuestionInput { text: "  ".into(), ..Default::default() },
        OpenQuestionInput {
            text: " Кто платит? ".into(),
            raised_by: Some("Анна".into()),
            evidence_start_ms: Some(42),
            ..Default::default()
        },
    ];
    let out = open_questions_to_store(&items);
    assert_eq!(out.len(), 1);
    assert_eq!(out[0].0, 1);
    assert_eq!(out[0].1.text, "Кто платит?");
    assert_eq!(out[0].1.raised_by.as_deref(), Some("Анна"));
    assert_eq!(out[0].1.evidence_start_ms, Some(42));
}

#[test]
fn placeholders_match_value_count() {
    assert_eq!(placeholders(0), "");
    assert_eq!(placeholders(1), "?");
    assert_eq!(placeholders(3), "?,?,?");
    assert_eq!(call_filter_clause(None).as_deref(), Some(""));
    assert_eq!(call_filter_clause(Some(0)), None);
    assert_eq!(call_filter_clause(Some(2)).as_deref(), Some(" AND p.call_id IN (?,?)"));
    assert_eq!(present_tags_clause(0), "");
    assert_eq!(present_tags_clause(1), " AND speaker_tag NOT IN (?)");
}

#[test]
fn failure_log_values() {
    assert_eq!(failure_reason(&"я".repeat(500)).chars().count(), 300);
    assert_eq!(failure_reason("short"), "short");
    assert_eq!(failure_preset(None), "unknown");
    assert_eq!(failure_preset(Some("balanced".into())), "balanced");
    assert_eq!(window_modifier(7), "-7 days");
    assert_eq!(window_modifier(-2), "--2 days");
    assert_eq!(flag_state_column(true), 1);
    assert_eq!(flag_state_column(false), 0);
}

#[test]
fn blank_secret_clears_the_entry() {
    assert!(matches!(secret_write("   "), SecretWrite::Delete));
    match secret_write("  sk-123 ") {
        SecretWrite::Store(v) => assert_eq!(v, "sk-123"),
        _ => panic!(),
    }
}
