use image_signature_settings::settings::{
    default_as_true, GithubActions, Keyless, KeylessInfo, PubKeys, Settings, Signature,
};

fn one_requirement() -> Vec<Signature> {
    vec![Signature::PubKeys(PubKeys {
        image: "registry.testing.lan/busybox:1.0.0".to_string(),
        pub_keys: vec!["-----BEGIN PUBLIC KEY-----".to_string()],
        annotations: None,
    })]
}

#[test]
fn validate_settings_valid() -> Result<(), ()> {
    let settings = Settings {
        signatures: vec![Signature::Keyless(Keyless {
            image: "image".to_string(),
            keyless: vec![KeylessInfo {
                issuer: "issuer".to_string(),
                subject: "subject".to_string(),
            }],
            annotations: None,
        })],
        modify_images_with_digest: true,
    };

    assert!(settings.validate().is_ok());
    Ok(())
}

#[test]
fn validate_settings_empty_signatures() -> Result<(), ()> {
    let settings = Settings {
        signatures: vec![],
        modify_images_with_digest: true,
    };

    assert!(settings.validate().is_err());
    Ok(())
}

#[test]
fn empty_signatures_are_rejected_with_the_exact_message() {
    for flag in [true, false] {
        let settings = Settings {
            signatures: vec![],
            modify_images_with_digest: flag,
        };
        assert_eq!(
            settings.validate(),
            Err("Signatures must not be empty".to_string())
        );
    }
}

#[test]
fn one_requirement_is_enough_whatever_the_flag() {
    for flag in [true, false] {
        let settings = Settings {
            signatures: one_requirement(),
            modify_images_with_digest: flag,
        };
        assert_eq!(settings.validate(), Ok(()));
    }
}

#[test]
fn validation_does_not_look_into_the_requirements() {
    let settings = Settings {
        signatures: vec![
            Signature::GithubActions(GithubActions {
                image: String::new(),
                owner: String::new(),
                repo: None,
                annotations: None,
            }),
            Signature::PubKeys(PubKeys {
                image: String::new(),
                pub_keys: vec![],
                annotations: None,
            }),
        ],
        modify_images_with_digest: false,
    };
    assert_eq!(settings.validate(), Ok(()));
}

#[test]
fn validation_can_be_asked_again() {
    let settings = Settings {
        signatures: one_requirement(),
        modify_images_with_digest: true,
    };
    assert_eq!(settings.validate(), Ok(()));
    assert_eq!(settings.validate(), Ok(()));
}

#[test]
fn the_flag_defaults_to_true() {
    assert!(default_as_true());
    let settings = Settings::default();
    assert!(settings.modify_images_with_digest);
    assert!(settings.signatures.is_empty());
    assert_eq!(
        settings.validate(),
        Err("Signatures must not be empty".to_string())
    );
}
