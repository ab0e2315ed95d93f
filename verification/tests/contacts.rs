use wotold_core::db::contacts::{
    attributes_column, attributes_or_empty, check_contact_delete, contact_display_name, contact_from_row,
    contacts_from_rows, default_source, group_identifiers, normalize_identifiers, plan_identifier_sync,
    prepare_contact_write, serialize_attributes, ContactIdentifier, ContactIdentifierInput, ContactInput,
    ContactRow, IdentifierOp, NormalizedIdentifier, OwnerContact, DISPLAY_NAME_REQUIRED, OWNER_DEFAULT_NAME,
    OWNER_DELETE_REFUSED,
};
use wotold_core::error::AppError;

fn ident(kind: &str, value: &str, label: Option<&str>) -> ContactIdentifierInput {
    ContactIdentifierInput {
        kind: kind.into(),
        value: value.into(),
        label: label.map(|s| s.to_string()),
    }
}

fn stored_row(id: &str, kind: &str, value: &str, label: Option<&str>) -> ContactIdentifier {
    ContactIdentifier {
        id: id.into(),
        kind: kind.into(),
        value: value.into(),
        label: label.map(|s| s.to_string()),
    }
}

fn norm(kind: &str, value: &str, label: Option<&str>) -> NormalizedIdentifier {
    NormalizedIdentifier {
        kind: kind.into(),
        value: value.into(),
        label: label.map(|s| s.to_string()),
    }
}

#[test]
fn create_contact_defaults_source_local() {
    assert_eq!(default_source(), "local");
}

#[test]
fn owner_record_defaults() {
    let o = OwnerContact { id: "1".into(), display_name: OWNER_DEFAULT_NAME.into() };
    assert_eq!(o.display_name, "Me");
}

#[test]
fn display_name_is_trimmed_and_required() {
    assert_eq!(contact_display_name("  Damir ").unwrap(), "Damir");
    match contact_display_name("   ") {
        Err(AppError::Other(m)) => assert_eq!(m, DISPLAY_NAME_REQUIRED),
        _ => panic!("blank name must be refused"),
    }
}

#[test]
fn owner_cannot_be_deleted() {
    match check_contact_delete("x", None) {
        Err(AppError::NotFound(m)) => assert_eq!(m, "contact x"),
        _ => panic!("missing contact is NotFound"),
    }
    match check_contact_delete("x", Some(1)) {
        Err(AppError::Other(m)) => assert_eq!(m, OWNER_DELETE_REFUSED),
        _ => panic!("owner delete must be refused"),
    }
    assert!(check_contact_delete("x", Some(0)).is_ok());
}

#[test]
fn normalize_trims_drops_blank_and_dedups_first_wins() {
    let out = normalize_identifiers(&[
        ident(" email ", " a@b.c ", Some(" work ")),
        ident("email", "a@b.c", Some("home")),
        ident("", "x", None),
        ident("phone", "   ", None),
        ident("phone", "+7", Some("  ")),
    ]);
    assert_eq!(out.len(), 2);
    assert_eq!(out[0].kind, "email");
    assert_eq!(out[0].value, "a@b.c");
    assert_eq!(out[0].label.as_deref(), Some("work"));
    assert_eq!(out[1].kind, "phone");
    assert_eq!(out[1].value, "+7");
    assert_eq!(out[1].label, None);
}

#[test]
fn normalize_is_idempotent_on_values() {
    let once = normalize_identifiers(&[
        ident(" a ", " 1 ", Some(" l ")),
        ident("a", "1", None),
        ident("b", "2", None),
    ]);
    let again_in: Vec<ContactIdentifierInput> = once
        .iter()
        .map(|n| ContactIdentifierInput { kind: n.kind.clone(), value: n.value.clone(), label: n.label.clone() })
        .collect();
    let twice = normalize_identifiers(&again_in);
    assert_eq!(once.len(), twice.len());
    for (x, y) in once.iter().zip(twice.iter()) {
        assert_eq!((&x.kind, &x.value, &x.label), (&y.kind, &y.value, &y.label));
    }
}

#[test]
fn update_contact_preserves_unchanged_identifier_ids() {
    let existing = vec![stored_row("id-1", "email", "a@b.c", None), stored_row("id-2", "phone", "+7", None)];
    let incoming = vec![norm("email", "a@b.c", None), norm("phone", "+7", None)];
    let ops = plan_identifier_sync(&existing, &incoming);
    assert!(ops.is_empty(), "unchanged identifiers need no write");
}

#[test]
fn update_contact_deletes_removed_identifiers() {
    let existing = vec![stored_row("id-1", "email", "a@b.c", None), stored_row("id-2", "phone", "+7", None)];
    let incoming = vec![norm("email", "a@b.c", None), norm("tg", "@x", None)];
    let ops = plan_identifier_sync(&existing, &incoming);
    assert_eq!(ops.len(), 2);
    match &ops[0] {
        IdentifierOp::Insert(n) => assert_eq!((n.kind.as_str(), n.value.as_str()), ("tg", "@x")),
        _ => panic!("new key is inserted"),
    }
    match &ops[1] {
        IdentifierOp::Delete { id } => assert_eq!(id, "id-2"),
        _ => panic!("gone key is deleted"),
    }
}

#[test]
fn update_contact_updates_label_in_place() {
    let existing = vec![stored_row("id-1", "email", "a@b.c", Some("home"))];
    let incoming = vec![norm("email", "a@b.c", Some("work"))];
    let ops = plan_identifier_sync(&existing, &incoming);
    assert_eq!(ops.len(), 1);
    match &ops[0] {
        IdentifierOp::SetLabel { id, label } => {
            assert_eq!(id, "id-1");
            assert_eq!(label.as_deref(), Some("work"));
        }
        _ => panic!("label changes in place"),
    }
}

#[test]
fn list_contacts_groups_identifiers_in_row_order() {
    let rows = vec![
        ("b".to_string(), stored_row("i1", "email", "b@x", None)),
        ("a".to_string(), stored_row("i2", "phone", "+1", None)),
        ("b".to_string(), stored_row("i3", "phone", "+2", None)),
    ];
    let ids = vec!["a".to_string(), "b".to_string(), "c".to_string()];
    let g = group_identifiers(&ids, &rows);
    assert_eq!(g.len(), 3);
    assert_eq!(g[0].iter().map(|i| i.id.as_str()).collect::<Vec<_>>(), vec!["i2"]);
    assert_eq!(g[1].iter().map(|i| i.id.as_str()).collect::<Vec<_>>(), vec!["i1", "i3"]);
    assert!(g[2].is_empty());
}

#[test]
fn parse_attributes_handles_null_and_invalid() {
    let v: serde_json::Value = serde_json::from_str(&attributes_or_empty(None)).unwrap();
    assert!(v.is_object());
    let v: serde_json::Value = serde_json::from_str(&attributes_or_empty(Some("not json"))).unwrap();
    assert!(v.is_object());
    let v: serde_json::Value = serde_json::from_str(&attributes_or_empty(Some("{\"k\":\"v\"}"))).unwrap();
    assert_eq!(v["k"], "v");
}

#[test]
fn serialize_attributes_handles_null() {
    let s = serialize_attributes(&serde_json::Value::Null).unwrap();
    assert_eq!(s, "{}");
}

#[test]
fn attributes_round_trip_through_the_column() {
    let mut m = serde_json::Map::new();
    m.insert("tz".into(), serde_json::Value::String("Europe/Moscow".into()));
    let s = serialize_attributes(&serde_json::Value::Object(m)).unwrap();
    assert_eq!(s, r#"{"tz":"Europe/Moscow"}"#);
    assert_eq!(attributes_or_empty(Some(&s)), s);
    assert_eq!(attributes_column("null"), "{}");
    assert_eq!(attributes_column("[1]"), "[1]");
    assert_eq!(attributes_or_empty(Some("")), "{}");
}

fn input(name: &str) -> ContactInput {
    ContactInput {
        display_name: name.into(),
        org: Some("  Acme ".into()),
        role: Some("   ".into()),
        notes: None,
        identifiers: vec![ident(" email ", " a@b.c ", Some(" work ")), ident("email", "a@b.c", None), ident("", "x", None)],
        attributes: serde_json::Value::Null,
    }
}

#[test]
fn contact_write_trims_and_normalises() {
    let w = prepare_contact_write(&input("  Bob  ")).unwrap();
    assert_eq!(w.display_name, "Bob");
    assert_eq!(w.org.as_deref(), Some("Acme"));
    assert_eq!(w.role, None);
    assert_eq!(w.notes, None);
    assert_eq!(w.attributes, "{}");
    assert_eq!(w.identifiers.len(), 1);
    assert_eq!(w.identifiers[0].kind, "email");
    assert_eq!(w.identifiers[0].value, "a@b.c");
    assert_eq!(w.identifiers[0].label.as_deref(), Some("work"));
}

#[test]
fn contact_write_refuses_a_blank_name() {
    match prepare_contact_write(&input("   ")) {
        Err(AppError::Other(m)) => assert_eq!(m, DISPLAY_NAME_REQUIRED),
        Err(e) => panic!("unexpected {e:?}"),
        Ok(_) => panic!("a blank name was accepted"),
    }
}

fn contact_row(id: &str, name: &str, is_owner: i64, attributes: Option<&str>) -> ContactRow {
    ContactRow {
        id: id.into(),
        display_name: name.into(),
        is_owner,
        org: None,
        role: None,
        attributes: attributes.map(|s| s.to_string()),
        notes: None,
        created_at: "t0".into(),
        updated_at: "t1".into(),
        source: default_source(),
        external_id: None,
        external_etag: None,
    }
}

#[test]
fn list_contacts_includes_owner_first() {
    let rows = vec![contact_row("o", "Me", 1, Some("{}")), contact_row("b", "Bob", 0, Some("broken"))];
    let ids = vec![
        ("b".to_string(), stored_row("i1", "email", "b@x", None)),
        ("o".to_string(), stored_row("i2", "phone", "1", None)),
        ("b".to_string(), stored_row("i3", "phone", "2", None)),
    ];
    let cs = contacts_from_rows(rows, &ids);
    assert_eq!(cs.len(), 2);
    assert!(cs[0].is_owner);
    assert_eq!(cs[0].display_name, "Me");
    assert_eq!(cs[0].identifiers.len(), 1);
    assert!(!cs[1].is_owner);
    assert_eq!(cs[1].attributes, "{}");
    assert_eq!(cs[1].identifiers.iter().map(|i| i.id.as_str()).collect::<Vec<_>>(), vec!["i1", "i3"]);
    let one = contact_from_row(contact_row("x", "X", 2, None), vec![]);
    assert!(!one.is_owner);
    assert_eq!(one.attributes, "{}");
    assert_eq!(one.source, "local");
}
