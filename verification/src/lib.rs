//! Settings of an admission policy that checks container image signatures:
//! the trust requirements an operator declares, how they are read from a
//! structured record and written back to one, and the rule they must meet
//! before the policy runs.
//!
//! [`settings::Settings`] holds the requirements, each a
//! [`signature::Signature`] of one of four kinds. A payload reaches the
//! settings as a [`record::Value`]; which kind a record is read as depends
//! on its fields alone. Every function states what it returns over the
//! mathematical content of its arguments, their views.

pub mod annotations;
pub mod fields;
pub mod identity;
pub mod names;
pub mod record;
pub mod settings;
pub mod signature;
pub mod text;
