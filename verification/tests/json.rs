use image_signature_settings::identity::KeylessInfo;
use image_signature_settings::record::{Field, Value};
use image_signature_settings::settings::{DecodeError, Settings};
use image_signature_settings::signature::{Keyless, Signature};

fn from_json(parsed: &serde_json::Value) -> Value {
    match parsed {
        serde_json::Value::Null => Value::Null,
        serde_json::Value::Bool(flag) => Value::Bool(*flag),
        serde_json::Value::Number(_) => Value::Number,
        serde_json::Value::String(text) => Value::Text(text.clone()),
        serde_json::Value::Array(items) => Value::List(items.iter().map(from_json).collect()),
        serde_json::Value::Object(entries) => Value::Record(
            entries
                .iter()
                .map(|(name, value)| Field {
                    name: name.clone(),
                    value: from_json(value),
                })
                .collect(),
        ),
    }
}

fn to_json(value: &Value) -> serde_json::Value {
    match value {
        Value::Null => serde_json::Value::Null,
        Value::Bool(flag) => serde_json::Value::Bool(*flag),
        Value::Number => serde_json::Value::from(0),
        Value::Text(text) => serde_json::Value::String(text.clone()),
        Value::List(items) => serde_json::Value::Array(items.iter().map(to_json).collect()),
        Value::Record(fields) => serde_json::Value::Object(
            fields
                .iter()
                .map(|field| (field.name.clone(), to_json(&field.value)))
                .collect(),
        ),
    }
}

fn read(text: &str) -> Result<Settings, DecodeError> {
    let parsed: serde_json::Value = serde_json::from_str(text).expect("well-formed JSON");
    Settings::from_record(&from_json(&parsed))
}

#[test]
fn a_keyless_entry_is_read_from_json_and_is_valid() {
    let settings = read(
        r#"{"signatures":[{"image":"reg/img:1.0","keyless":[{"issuer":"https://issuer","subject":"subj"}]}]}"#,
    )
    .expect("settings");
    assert_eq!(
        settings,
        Settings {
            signatures: vec![Signature::Keyless(Keyless {
                image: "reg/img:1.0".to_string(),
                keyless: vec![KeylessInfo {
                    issuer: "https://issuer".to_string(),
                    subject: "subj".to_string(),
                }],
                annotations: None,
            })],
            modify_images_with_digest: true,
        }
    );
    assert_eq!(settings.validate(), Ok(()));
}

#[test]
fn an_empty_list_is_read_from_json_and_is_rejected() {
    let settings = read(r#"{"signatures":[]}"#).expect("settings");
    assert!(settings.signatures.is_empty());
    assert!(settings.modify_images_with_digest);
    assert_eq!(
        settings.validate(),
        Err("Signatures must not be empty".to_string())
    );
}

#[test]
fn an_empty_object_is_read_from_json_as_the_defaults() {
    assert_eq!(read("{}"), Ok(Settings::default()));
    assert_eq!(
        read(r#"{"modifyImagesWithDigest":false}"#),
        Ok(Settings {
            signatures: vec![],
            modify_images_with_digest: false
        })
    );
}

#[test]
fn all_four_kinds_are_read_from_json() {
    let settings = read(
        r#"{
            "modifyImagesWithDigest": false,
            "signatures": [
                {"image": "a", "pubKeys": ["k1", "k2"], "annotations": {"env": "prod"}},
                {"image": "b", "keyless": [{"issuer": "i", "subject": "s"}]},
                {"image": "c", "owner": "octocat", "repo": "example-repo"},
                {"image": "d", "keylessPrefix": [{"issuer": "i", "subject": "https://github.com/"}]}
            ]
        }"#,
    )
    .expect("settings");
    assert!(!settings.modify_images_with_digest);
    assert_eq!(settings.signatures.len(), 4);
    assert!(matches!(settings.signatures[0], Signature::PubKeys(_)));
    assert!(matches!(settings.signatures[1], Signature::Keyless(_)));
    assert!(matches!(settings.signatures[2], Signature::GithubActions(_)));
    assert!(matches!(settings.signatures[3], Signature::KeylessPrefix(_)));
    assert_eq!(settings.signatures[0].image(), "a");
    assert_eq!(settings.signatures[3].image(), "d");
}

#[test]
fn malformed_payloads_are_refused_from_json() {
    assert_eq!(read("null"), Err(DecodeError::NotARecord));
    assert_eq!(read("[]"), Err(DecodeError::NotARecord));
    assert_eq!(
        read(r#"{"signatures":{}}"#),
        Err(DecodeError::SignaturesNotAList)
    );
    assert_eq!(
        read(r#"{"signatures":[{"image":"a","owner":"o"},{"image":"a","owner":1}]}"#),
        Err(DecodeError::UnknownShape(1))
    );
    assert_eq!(
        read(r#"{"signatures":[],"modifyImagesWithDigest":1}"#),
        Err(DecodeError::FlagNotABool)
    );
}

#[test]
fn settings_survive_a_trip_through_json_text() {
    let settings = read(
        r#"{"signatures":[
            {"image":"a","pubKeys":["k"],"annotations":{"b":"2","a":"1"}},
            {"image":"c","owner":"o","repo":null}
        ],"modifyImagesWithDigest":false}"#,
    )
    .expect("settings");
    let text = serde_json::to_string(&to_json(&settings.to_record())).expect("JSON text");
    assert_eq!(read(&text), Ok(settings));
}
