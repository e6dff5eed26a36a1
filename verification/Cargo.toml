[package]
name = "image_signature_settings"
version = "0.1.0"
edition = "2021"
publish = false

[dependencies]
kubewarden-policy-sdk = { version = "*", default-features = false }
serde = "1"
slog = "2"

[dev-dependencies]
serde_json = "1"
