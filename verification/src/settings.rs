//! The settings of the policy: an ordered list of signature requirements
//! and one flag, the rule they must meet, and the record they are read from
//! and written to.

pub use crate::annotations::Annotations;
pub use crate::identity::KeylessInfo;
pub use crate::signature::{GithubActions, Keyless, KeylessPrefix, PubKeys, Signature};

use crate::fields::field;
use crate::names::{lemma_names_differ, modify_images_key, signatures_key};
use crate::record::{
    find_field, has_field, lemma_list_view, lemma_record_view, lemma_slot_once,
    lemma_slot_skips_other_names, slot, views, Doc, Entry, Field, Found, Slot, Value,
};
use crate::signature::{
    lemma_read_signature_is_well_formed, lemma_signature_round_trip, signature_doc, signature_of,
    SignatureModel,
};
use vstd::prelude::*;

verus! {

/// The value `modifyImagesWithDigest` takes when a payload leaves it out.
pub fn default_as_true() -> (flag: bool)
    ensures
        flag,
{
    true
}

/// What the policy is configured with.
#[derive(Debug, PartialEq, Eq)]
pub struct Settings {
    /// The requirements, in the order in which they were declared.
    pub signatures: Vec<Signature>,
    /// Whether image references are rewritten to carry their digest.
    pub modify_images_with_digest: bool,
}

/// The mathematical content of [`Settings`].
pub struct SettingsModel {
    pub signatures: Seq<SignatureModel>,
    pub modify_images_with_digest: bool,
}

impl View for Settings {
    type V = SettingsModel;

    open spec fn view(&self) -> SettingsModel {
        SettingsModel {
            signatures: views(self.signatures@),
            modify_images_with_digest: self.modify_images_with_digest,
        }
    }
}

impl SettingsModel {
    /// Every requirement is well formed.
    pub open spec fn well_formed(self) -> bool {
        forall|i: int| 0 <= i < self.signatures.len() ==> (#[trigger] self.signatures[i]).well_formed()
    }

    /// The rule of validation: settings with no requirement would accept
    /// every image, so there must be one at least.
    pub open spec fn is_valid(self) -> bool {
        self.signatures.len() > 0
    }

    /// What a payload that says nothing amounts to: no requirement, and
    /// images rewritten with their digest.
    pub open spec fn unspecified() -> SettingsModel {
        SettingsModel { signatures: Seq::empty(), modify_images_with_digest: true }
    }
}

/// The message with which settings that hold no requirement are rejected.
pub open spec fn empty_signatures_message() -> Seq<char> {
    "Signatures must not be empty"@
}

/// Why a payload could not be read as settings.
#[derive(Clone, Copy, Debug, PartialEq, Eq)]
pub enum DecodeError {
    /// The payload is not a record.
    NotARecord,
    /// `signatures` occurs more than once.
    SignaturesRepeated,
    /// `signatures` is not a list.
    SignaturesNotAList,
    /// The entry at this position of `signatures`, counted from zero, has
    /// none of the four shapes of a requirement.
    UnknownShape(usize),
    /// `modifyImagesWithDigest` occurs more than once.
    FlagRepeated,
    /// `modifyImagesWithDigest` is not a truth value.
    FlagNotABool,
}

/// Whether `at` is the first position of `items` whose entry holds no
/// requirement.
pub open spec fn first_unread_at(items: Seq<Doc>, at: int) -> bool {
    &&& 0 <= at < items.len()
    &&& signature_of(items[at]) is None
    &&& forall|j: int| 0 <= j < at ==> signature_of(#[trigger] items[j]) is Some
}

/// The first position of `items` whose entry holds no requirement.
pub open spec fn first_unread(items: Seq<Doc>) -> int {
    choose|at: int| first_unread_at(items, at)
}

/// The requirements that a list holds, in its order; or, where an entry
/// holds none, the position of the first such entry.
pub open spec fn signatures_of(doc: Doc) -> Result<Seq<SignatureModel>, DecodeError> {
    match doc {
        Doc::List(items) => if forall|i: int|
            0 <= i < items.len() ==> signature_of(#[trigger] items[i]) is Some {
            Ok(Seq::new(items.len(), |i: int| signature_of(items[i])->Some_0))
        } else {
            Err(DecodeError::UnknownShape(first_unread(items) as usize))
        },
        _ => Err(DecodeError::SignaturesNotAList),
    }
}

/// The requirements that `entries` holds under `signatures`: none where
/// the name is left out.
pub open spec fn signatures_in(entries: Seq<Entry>) -> Result<Seq<SignatureModel>, DecodeError> {
    match slot(entries, signatures_key()) {
        Slot::Missing => Ok(Seq::empty()),
        Slot::Once(doc) => signatures_of(doc),
        Slot::Repeated => Err(DecodeError::SignaturesRepeated),
    }
}

/// The flag that `entries` holds under `modifyImagesWithDigest`: true where
/// the name is left out.
pub open spec fn flag_in(entries: Seq<Entry>) -> Result<bool, DecodeError> {
    match slot(entries, modify_images_key()) {
        Slot::Missing => Ok(true),
        Slot::Once(Doc::Bool(flag)) => Ok(flag),
        Slot::Once(_) => Err(DecodeError::FlagNotABool),
        Slot::Repeated => Err(DecodeError::FlagRepeated),
    }
}

/// The settings that a payload holds. The payload must be a record; what
/// it says of the requirements is judged before what it says of the flag,
/// and names other than the two are passed over.
pub open spec fn settings_of(doc: Doc) -> Result<SettingsModel, DecodeError> {
    match doc {
        Doc::Record(entries) => match signatures_in(entries) {
            Ok(signatures) => match flag_in(entries) {
                Ok(flag) => Ok(SettingsModel { signatures, modify_images_with_digest: flag }),
                Err(error) => Err(error),
            },
            Err(error) => Err(error),
        },
        _ => Err(DecodeError::NotARecord),
    }
}

/// The list that holds `signatures`.
pub open spec fn signatures_doc(signatures: Seq<SignatureModel>) -> Doc {
    Doc::List(Seq::new(signatures.len(), |i: int| signature_doc(signatures[i])))
}

/// The record that settings are written as.
pub open spec fn settings_doc(settings: SettingsModel) -> Doc {
    Doc::Record(
        seq![
            Entry { name: signatures_key(), value: signatures_doc(settings.signatures) },
            Entry {
                name: modify_images_key(),
                value: Doc::Bool(settings.modify_images_with_digest),
            },
        ],
    )
}

/// Writing settings and reading the record gives the same requirements in
/// the same order, each in its own variant, and the same flag.
pub proof fn lemma_settings_round_trip(settings: SettingsModel)
    requires
        settings.well_formed(),
    ensures
        settings_of(settings_doc(settings)) == Ok::<SettingsModel, DecodeError>(settings),
{
    let entries = settings_doc(settings)->Record_0;
    let items = signatures_doc(settings.signatures)->List_0;
    lemma_names_differ();
    lemma_slot_once(entries, signatures_key(), 0);
    lemma_slot_once(entries, modify_images_key(), 1);
    assert forall|i: int| 0 <= i < items.len() implies signature_of(#[trigger] items[i]) == Some(
        settings.signatures[i],
    ) by {
        lemma_signature_round_trip(settings.signatures[i]);
    }
    assert(signatures_of(signatures_doc(settings.signatures))->Ok_0 =~= settings.signatures);
}

/// A payload that leaves `modifyImagesWithDigest` out is read with the
/// flag true. One that leaves `signatures` out is read with no requirement,
/// and such settings are not valid. Both hold of every payload that can be
/// read at all.
pub proof fn lemma_omitted_fields_take_defaults(entries: Seq<Entry>)
    ensures
        !has_field(entries, modify_images_key()) ==> match settings_of(Doc::Record(entries)) {
            Ok(settings) => settings.modify_images_with_digest,
            Err(_) => true,
        },
        !has_field(entries, signatures_key()) ==> match settings_of(Doc::Record(entries)) {
            Ok(settings) => settings.signatures.len() == 0 && !settings.is_valid(),
            Err(_) => true,
        },
        !has_field(entries, modify_images_key()) && !has_field(entries, signatures_key())
            ==> settings_of(Doc::Record(entries)) == Ok::<SettingsModel, DecodeError>(
            SettingsModel::unspecified(),
        ),
{
}

/// A payload says the same with or without an entry whose name is neither
/// `signatures` nor `modifyImagesWithDigest`.
pub proof fn lemma_unknown_names_are_passed_over(entries: Seq<Entry>, extra: Entry)
    requires
        extra.name != signatures_key(),
        extra.name != modify_images_key(),
    ensures
        settings_of(Doc::Record(entries.push(extra))) == settings_of(Doc::Record(entries)),
{
    lemma_slot_skips_other_names(entries, extra, signatures_key());
    lemma_slot_skips_other_names(entries, extra, modify_images_key());
}

/// Settings that are read from a payload are well formed.
pub proof fn lemma_read_settings_are_well_formed(doc: Doc)
    ensures
        match settings_of(doc) {
            Ok(settings) => settings.well_formed(),
            Err(_) => true,
        },
{
    match settings_of(doc) {
        Ok(settings) => {
            let items = slot(doc->Record_0, signatures_key())->Once_0->List_0;
            assert forall|i: int| 0 <= i < settings.signatures.len() implies
                (#[trigger] settings.signatures[i]).well_formed()
            by {
                if has_field(doc->Record_0, signatures_key()) {
                    lemma_read_signature_is_well_formed(items[i]);
                }
            }
        },
        Err(_) => {},
    }
}

impl Default for Settings {
    /// The settings of a payload that says nothing.
    fn default() -> (settings: Settings)
        ensures
            settings@ == SettingsModel::unspecified(),
    {
        let settings = Settings {
            signatures: Vec::new(),
            modify_images_with_digest: default_as_true(),
        };
        assert(settings@.signatures =~= Seq::empty());
        settings
    }
}

/// Reads the requirements of a list.
pub fn read_signatures(value: &Value) -> (read: Result<Vec<Signature>, DecodeError>)
    ensures
        match read {
            Ok(list) => signatures_of(value@) == Ok::<Seq<SignatureModel>, DecodeError>(
                views(list@),
            ),
            Err(error) => signatures_of(value@) == Err::<Seq<SignatureModel>, DecodeError>(error),
        },
{
    let items = match value.as_list() {
        Some(items) => items,
        None => {
            return Err(DecodeError::SignaturesNotAList);
        },
    };
    let ghost docs = views(items@);
    let mut list: Vec<Signature> = Vec::new();
    let mut i: usize = 0;
    while i < items.len()
        invariant
            i <= items@.len(),
            docs == views(items@),
            value@ == Doc::List(docs),
            list@.len() == i,
            forall|j: int| 0 <= j < i ==> signature_of(#[trigger] docs[j]) == Some(list@[j]@),
        decreases items@.len() - i,
    {
        match Signature::from_record(&items[i]) {
            Some(signature) => {
                list.push(signature);
            },
            None => {
                proof {
                    // No entry before this one went unread, so this is
                    // the first.
                    assert(first_unread_at(docs, i as int));
                    assert(first_unread_at(docs, first_unread(docs)));
                }
                return Err(DecodeError::UnknownShape(i));
            },
        }
        i += 1;
    }
    assert(signatures_of(value@)->Ok_0 =~= views(list@));
    Ok(list)
}

impl Settings {
    /// Checks the one rule that settings must meet before the policy runs:
    /// they hold a requirement.
    pub fn validate(&self) -> (outcome: Result<(), String>)
        ensures
            self@.is_valid() ==> outcome is Ok,
            !self@.is_valid() ==> outcome is Err && outcome->Err_0@ == empty_signatures_message(),
    {
        if self.signatures.is_empty() {
            return Err("Signatures must not be empty".to_owned());
        }
        Ok(())
    }

    /// Reads settings from a payload.
    pub fn from_record(payload: &Value) -> (read: Result<Settings, DecodeError>)
        ensures
            match read {
                Ok(settings) => settings_of(payload@) == Ok::<SettingsModel, DecodeError>(
                    settings@,
                ) && settings@.well_formed(),
                Err(error) => settings_of(payload@) == Err::<SettingsModel, DecodeError>(error),
            },
    {
        proof {
            lemma_read_settings_are_well_formed(payload@);
        }
        let fields = match payload.as_record() {
            Some(fields) => fields,
            None => {
                return Err(DecodeError::NotARecord);
            },
        };
        let signatures = match find_field(fields, "signatures") {
            Found::Missing => Vec::new(),
            Found::Once(value) => match read_signatures(value) {
                Ok(list) => list,
                Err(error) => {
                    return Err(error);
                },
            },
            Found::Repeated => {
                return Err(DecodeError::SignaturesRepeated);
            },
        };
        let modify_images_with_digest = match find_field(fields, "modifyImagesWithDigest") {
            Found::Missing => default_as_true(),
            Found::Once(value) => match value.as_bool() {
                Some(flag) => flag,
                None => {
                    return Err(DecodeError::FlagNotABool);
                },
            },
            Found::Repeated => {
                return Err(DecodeError::FlagRepeated);
            },
        };
        let settings = Settings { signatures, modify_images_with_digest };
        assert(settings@.signatures =~= signatures_in(views(fields@))->Ok_0);
        Ok(settings)
    }

    /// Writes the settings as a record, from which [`Settings::from_record`]
    /// reads them back.
    pub fn to_record(&self) -> (value: Value)
        ensures
            value@ == settings_doc(self@),
            settings_of(value@) == Ok::<SettingsModel, DecodeError>(self@),
    {
        let mut items: Vec<Value> = Vec::new();
        let mut i: usize = 0;
        while i < self.signatures.len()
            invariant
                i <= self.signatures@.len(),
                items@.len() == i,
                forall|j: int|
                    0 <= j < i ==> (#[trigger] items@[j])@ == signature_doc(self.signatures@[j]@),
                forall|j: int| 0 <= j < i ==> (#[trigger] self.signatures@[j])@.well_formed(),
            decreases self.signatures@.len() - i,
        {
            let item = self.signatures[i].to_record();
            proof {
                lemma_read_signature_is_well_formed(item@);
            }
            items.push(item);
            i += 1;
        }
        let mut fields: Vec<Field> = Vec::new();
        proof {
            lemma_list_view(items);
            assert(views(items@) =~= signatures_doc(self@.signatures)->List_0);
        }
        fields.push(field("signatures", Value::List(items)));
        fields.push(field("modifyImagesWithDigest", Value::Bool(self.modify_images_with_digest)));
        proof {
            lemma_record_view(fields);
            assert(views(fields@) =~= settings_doc(self@)->Record_0);
            lemma_settings_round_trip(self@);
        }
        Value::Record(fields)
    }
}

} // verus!
