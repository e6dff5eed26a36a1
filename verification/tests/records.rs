use image_signature_settings::annotations::Annotations;
use image_signature_settings::fields::{
    field, read_optional_text, read_text, read_texts, read_texts_in, texts_value,
};
use image_signature_settings::identity::{read_identities, KeylessInfo};
use image_signature_settings::record::{find_field, Field, Found, Value};
use image_signature_settings::text::same_text;

fn text(s: &str) -> Value {
    Value::Text(s.to_string())
}

fn record(fields: Vec<(&str, Value)>) -> Value {
    Value::Record(
        fields
            .into_iter()
            .map(|(name, value)| Field {
                name: name.to_string(),
                value,
            })
            .collect(),
    )
}

fn fields_of(value: Value) -> Vec<Field> {
    match value {
        Value::Record(fields) => fields,
        _ => panic!("not a record"),
    }
}

#[test]
fn same_text_compares_what_is_spelled() {
    assert!(same_text("", ""));
    assert!(same_text("image", "image"));
    assert!(!same_text("image", "images"));
    assert!(!same_text("image", "owner"));
    assert!(!same_text("pubKeys", "pubkeys"));
    assert!(same_text("cl\u{e9}", "cl\u{e9}"));
    assert!(!same_text("cl\u{e9}", "cle"));
    assert!(!same_text("cl\u{e9}", "cl\u{e8}"));
}

#[test]
fn accessors_tell_the_kinds_apart() {
    assert!(Value::Null.is_null());
    assert!(!Value::Number.is_null());
    assert_eq!(Value::Bool(false).as_bool(), Some(false));
    assert_eq!(Value::Null.as_bool(), None);
    assert_eq!(text("a").as_text(), Some(&"a".to_string()));
    assert_eq!(Value::Bool(true).as_text(), None);
    assert_eq!(
        Value::List(vec![Value::Null]).as_list(),
        Some(&vec![Value::Null])
    );
    assert_eq!(record(vec![]).as_list(), None);
    assert_eq!(record(vec![]).as_record(), Some(&vec![]));
    assert_eq!(Value::List(vec![]).as_record(), None);
}

#[test]
fn find_field_tells_missing_once_and_repeated() {
    let fields = fields_of(record(vec![
        ("a", text("1")),
        ("b", text("2")),
        ("a", text("3")),
    ]));
    assert!(matches!(find_field(&fields, "c"), Found::Missing));
    assert!(matches!(find_field(&fields, "a"), Found::Repeated));
    match find_field(&fields, "b") {
        Found::Once(value) => assert_eq!(value, &text("2")),
        _ => panic!("b occurs once"),
    }
    assert!(matches!(find_field(&Vec::new(), "a"), Found::Missing));
}

#[test]
fn a_required_text_must_be_there_once_and_be_a_text() {
    let fields = fields_of(record(vec![
        ("image", text("reg/img:1.0")),
        ("owner", Value::Null),
        ("repo", Value::Number),
        ("twice", text("x")),
        ("twice", text("x")),
    ]));
    assert_eq!(read_text(&fields, "image"), Some("reg/img:1.0".to_string()));
    assert_eq!(read_text(&fields, "owner"), None);
    assert_eq!(read_text(&fields, "repo"), None);
    assert_eq!(read_text(&fields, "twice"), None);
    assert_eq!(read_text(&fields, "absent"), None);
}

#[test]
fn an_optional_text_may_be_absent_or_null() {
    let fields = fields_of(record(vec![
        ("repo", text("example-repo")),
        ("nothing", Value::Null),
        ("number", Value::Number),
        ("twice", Value::Null),
        ("twice", Value::Null),
    ]));
    assert_eq!(
        read_optional_text(&fields, "repo"),
        Some(Some("example-repo".to_string()))
    );
    assert_eq!(read_optional_text(&fields, "nothing"), Some(None));
    assert_eq!(read_optional_text(&fields, "absent"), Some(None));
    assert_eq!(read_optional_text(&fields, "number"), None);
    assert_eq!(read_optional_text(&fields, "twice"), None);
}

#[test]
fn a_list_of_texts_holds_only_texts() {
    assert_eq!(read_texts(&Value::List(vec![])), Some(vec![]));
    assert_eq!(
        read_texts(&Value::List(vec![text("k1"), text("k2")])),
        Some(vec!["k1".to_string(), "k2".to_string()])
    );
    assert_eq!(read_texts(&Value::List(vec![text("k1"), Value::Null])), None);
    assert_eq!(read_texts(&text("k1")), None);
    assert_eq!(read_texts(&Value::Null), None);
    let fields = fields_of(record(vec![("pubKeys", Value::List(vec![text("k")]))]));
    assert_eq!(read_texts_in(&fields, "pubKeys"), Some(vec!["k".to_string()]));
    assert_eq!(read_texts_in(&fields, "keyless"), None);
}

#[test]
fn texts_are_written_in_order() {
    assert_eq!(
        texts_value(&vec!["b".to_string(), "a".to_string()]),
        Value::List(vec![text("b"), text("a")])
    );
    assert_eq!(
        field("image", text("i")),
        Field {
            name: "image".to_string(),
            value: text("i")
        }
    );
}

#[test]
fn annotations_keep_first_place_and_last_value() {
    let mut annotations = Annotations::new();
    assert_eq!(annotations.len(), 0);
    assert_eq!(annotations.get("env"), None);
    annotations.insert("env".to_string(), "prod".to_string());
    annotations.insert("team".to_string(), "a".to_string());
    annotations.insert("env".to_string(), "test".to_string());
    assert_eq!(annotations.len(), 2);
    assert_eq!(annotations.get("env"), Some(&"test".to_string()));
    assert_eq!(annotations.get("team"), Some(&"a".to_string()));
    assert_eq!(annotations.get("Env"), None);
    assert_eq!(
        annotations.entries(),
        &vec![
            ("env".to_string(), "test".to_string()),
            ("team".to_string(), "a".to_string())
        ]
    );
}

#[test]
fn annotations_are_read_from_a_record_of_texts() {
    let read = Annotations::from_record(&record(vec![
        ("env", text("prod")),
        ("team", text("a")),
        ("env", text("test")),
    ]))
    .expect("a record of texts");
    assert_eq!(
        read.entries(),
        &vec![
            ("env".to_string(), "test".to_string()),
            ("team".to_string(), "a".to_string())
        ]
    );
    assert_eq!(
        Annotations::from_record(&record(vec![])).map(|a| a.len()),
        Some(0)
    );
    assert_eq!(
        Annotations::from_record(&record(vec![("env", Value::Bool(true))])),
        None
    );
    assert_eq!(Annotations::from_record(&Value::List(vec![])), None);
    assert_eq!(Annotations::from_record(&Value::Null), None);
}

#[test]
fn annotations_are_written_one_entry_each() {
    let mut annotations = Annotations::new();
    annotations.insert("b".to_string(), "2".to_string());
    annotations.insert("a".to_string(), "1".to_string());
    let written = annotations.to_record();
    assert_eq!(written, record(vec![("b", text("2")), ("a", text("1"))]));
    assert_eq!(Annotations::from_record(&written), Some(annotations));
}

#[test]
fn an_identity_needs_issuer_and_subject() {
    let whole = record(vec![
        ("issuer", text("https://issuer")),
        ("subject", text("subj")),
        ("extra", Value::Number),
    ]);
    assert_eq!(
        KeylessInfo::from_record(&whole),
        Some(KeylessInfo {
            issuer: "https://issuer".to_string(),
            subject: "subj".to_string()
        })
    );
    assert_eq!(
        KeylessInfo::from_record(&record(vec![("issuer", text("i"))])),
        None
    );
    assert_eq!(
        KeylessInfo::from_record(&record(vec![
            ("issuer", text("i")),
            ("subject", Value::Null)
        ])),
        None
    );
    assert_eq!(
        KeylessInfo::from_record(&record(vec![
            ("issuer", text("i")),
            ("subject", text("s")),
            ("issuer", text("i"))
        ])),
        None
    );
    assert_eq!(
        KeylessInfo::from_record(&Value::List(vec![text("i"), text("s")])),
        None
    );
    assert_eq!(read_identities(&Value::List(vec![whole, Value::Null])), None);
}

#[test]
fn an_identity_is_written_issuer_first() {
    let identity = KeylessInfo {
        issuer: "i".to_string(),
        subject: "s".to_string(),
    };
    let written = identity.to_record();
    assert_eq!(
        written,
        record(vec![("issuer", text("i")), ("subject", text("s"))])
    );
    assert_eq!(KeylessInfo::from_record(&written), Some(identity));
}
