use wotold_core::error::AppError;
use wotold_core::assistant::{
    chat_title_from_question, new_chat_meta, next_order_idx, settle_call_chat, AssistantChatMeta, truncate_answer_for_wire, truncate_fragment_text, validate_question,
    AnswerFragment, CHAT_TITLE_MAX_CHARS, FRAGMENT_PREVIEW_CHARS, FRAGMENT_PREVIEW_HYSTERESIS,
    QUESTION_MAX_CHARS,
};

#[test]
fn validate_question_boundaries() {
    assert!(validate_question("нормальный вопрос").is_ok());
    assert!(validate_question("  \n\t ").is_err());
    assert!(validate_question("").is_err());
    let exact = "д".repeat(QUESTION_MAX_CHARS);
    assert!(validate_question(&exact).is_ok());
    let over = "д".repeat(QUESTION_MAX_CHARS + 1);
    assert!(validate_question(&over).is_err());
    let ascii_wall = "a".repeat(QUESTION_MAX_CHARS * 4 + 1);
    assert!(validate_question(&ascii_wall).is_err());
}

#[test]
fn truncate_fragment_boundaries() {
    assert!(truncate_fragment_text("короткий текст").is_none());
    let borderline = "д".repeat(FRAGMENT_PREVIEW_CHARS + FRAGMENT_PREVIEW_HYSTERESIS);
    assert!(truncate_fragment_text(&borderline).is_none());

    let long = "слово ".repeat(100);
    let cut = truncate_fragment_text(&long).unwrap();
    assert!(cut.ends_with('…'));
    assert!(cut.chars().count() <= FRAGMENT_PREVIEW_CHARS + 1);
    assert!(
        cut.trim_end_matches('…').ends_with("слово"),
        "режем по пробелу: {cut}"
    );

    let wall = "ы".repeat(500);
    let cut = truncate_fragment_text(&wall).unwrap();
    assert_eq!(cut.chars().count(), FRAGMENT_PREVIEW_CHARS + 1);
}

#[test]
fn title_short_question_untouched() {
    assert_eq!(
        chat_title_from_question("  Задачи Дмитрия  "),
        "Задачи Дмитрия"
    );
}

#[test]
fn title_truncates_cyrillic_on_char_boundary() {
    let q = "Какие задачи взял на себя Дмитрий на этой неделе по проекту?";
    let t = chat_title_from_question(q);
    assert!(t.ends_with('…'), "got: {t}");
    assert!(t.chars().count() <= 42, "len: {}", t.chars().count());
}

#[test]
fn chat_title_exact_cut_value() {
    let q = "Какие задачи взял на себя Дмитрий на этой неделе по проекту?";
    let t = chat_title_from_question(q);
    let expected: String = q.chars().take(CHAT_TITLE_MAX_CHARS - 1).collect::<String>().trim_end().to_string() + "…";
    assert_eq!(t, expected);
}

#[test]
fn question_of_only_whitespace_is_empty_error_message() {
    let e = validate_question("   ").unwrap_err();
    assert!(!e.message().is_empty());
}

#[test]
fn answer_fragments_are_shortened_for_the_wire() {
    let mut frags = vec![
        AnswerFragment { text: "коротко".to_string(), text_truncated: false },
        AnswerFragment { text: "ы".repeat(500), text_truncated: false },
    ];
    truncate_answer_for_wire(&mut frags);
    assert_eq!(frags[0].text, "коротко");
    assert!(!frags[0].text_truncated);
    assert_eq!(frags[1].text.chars().count(), FRAGMENT_PREVIEW_CHARS + 1);
    assert!(frags[1].text_truncated);
}

#[test]
fn chat_title_of_a_title_is_the_same_title() {
    for q in [
        "  короткий вопрос  ",
        "Что обсуждали на встрече с командой разработки про сроки релиза в марте?",
        "                                          x                                  y",
        "",
    ] {
        let t = chat_title_from_question(q);
        assert_eq!(chat_title_from_question(&t), t);
        assert!(t.chars().count() <= CHAT_TITLE_MAX_CHARS);
    }
}

fn meta(id: &str, title: &str) -> AssistantChatMeta {
    AssistantChatMeta {
        id: id.into(),
        call_id: Some("c1".into()),
        title: title.into(),
        created_at: "t".into(),
        updated_at: "t".into(),
    }
}

#[test]
fn call_thread_is_unique_and_idempotent() {
    let fresh = new_chat_meta("new".into(), Some("c1".into()), "  второй вопрос  ", "t2");
    assert_eq!(fresh.title, "второй вопрос");
    assert_eq!(fresh.created_at, "t2");
    assert_eq!(fresh.updated_at, "t2");
    let kept = settle_call_chat("c1", Some(meta("old", "первый")), fresh.clone(), false, None).unwrap();
    assert_eq!(kept.id, "old");
    assert_eq!(kept.title, "первый");
    assert_eq!(settle_call_chat("c1", None, fresh.clone(), true, None).unwrap().id, "new");
    assert_eq!(settle_call_chat("c1", None, fresh.clone(), false, Some(meta("won", "x"))).unwrap().id, "won");
    match settle_call_chat("c1", None, fresh, false, None) {
        Err(AppError::Other(m)) => assert_eq!(m, "assistant chat for call c1 vanished during creation"),
        other => panic!("unexpected {other:?}"),
    }
}

#[test]
fn messages_take_the_next_position() {
    assert_eq!(next_order_idx(None), 0);
    assert_eq!(next_order_idx(Some(0)), 1);
    assert_eq!(next_order_idx(Some(41)), 42);
}
