//! Keyless identities: who issued a signing certificate, and for whom.

use crate::fields::{field, read_text, text_in, text_value};
use crate::names::{issuer_key, lemma_names_differ, subject_key};
use crate::record::{
    find_field, lemma_list_view, lemma_record_view, lemma_slot_once, slot, views, Doc, Entry, Field,
    Found, Slot, Value,
};
use vstd::prelude::*;

verus! {

/// The identity a keyless signature is bound to.
#[derive(Debug, PartialEq, Eq)]
pub struct KeylessInfo {
    /// The issuer identifier.
    pub issuer: String,
    /// The subject the issuer vouches for; a prefix of it where the
    /// requirement matches by prefix.
    pub subject: String,
}

/// The mathematical content of a [`KeylessInfo`].
pub struct KeylessInfoModel {
    pub issuer: Seq<char>,
    pub subject: Seq<char>,
}

impl View for KeylessInfo {
    type V = KeylessInfoModel;

    open spec fn view(&self) -> KeylessInfoModel {
        KeylessInfoModel { issuer: self.issuer@, subject: self.subject@ }
    }
}

/// The identity that a record holds: its issuer and its subject, each a
/// text that occurs once.
pub open spec fn identity_of(doc: Doc) -> Option<KeylessInfoModel> {
    match doc {
        Doc::Record(entries) => match (
            text_in(entries, issuer_key()),
            text_in(entries, subject_key()),
        ) {
            (Some(issuer), Some(subject)) => Some(KeylessInfoModel { issuer, subject }),
            _ => None,
        },
        _ => None,
    }
}

/// The identities of a list that holds nothing but identities.
pub open spec fn identities_of(doc: Doc) -> Option<Seq<KeylessInfoModel>> {
    match doc {
        Doc::List(items) => if forall|i: int|
            0 <= i < items.len() ==> identity_of(#[trigger] items[i]) is Some {
            Some(Seq::new(items.len(), |i: int| identity_of(items[i])->Some_0))
        } else {
            None
        },
        _ => None,
    }
}

/// The list of identities that `entries` must hold under `name`.
pub open spec fn identities_in(entries: Seq<Entry>, name: Seq<char>) -> Option<
    Seq<KeylessInfoModel>,
> {
    match slot(entries, name) {
        Slot::Once(doc) => identities_of(doc),
        _ => None,
    }
}

/// The record an identity is written as.
pub open spec fn identity_doc(identity: KeylessInfoModel) -> Doc {
    Doc::Record(
        seq![
            Entry { name: issuer_key(), value: Doc::Text(identity.issuer) },
            Entry { name: subject_key(), value: Doc::Text(identity.subject) },
        ],
    )
}

/// The list that holds `identities`.
pub open spec fn identities_doc(identities: Seq<KeylessInfoModel>) -> Doc {
    Doc::List(Seq::new(identities.len(), |i: int| identity_doc(identities[i])))
}

/// An identity is read back as it was written.
pub proof fn lemma_identity_round_trip(identity: KeylessInfoModel)
    ensures
        identity_of(identity_doc(identity)) == Some(identity),
{
    let entries = identity_doc(identity)->Record_0;
    lemma_names_differ();
    lemma_slot_once(entries, issuer_key(), 0);
    lemma_slot_once(entries, subject_key(), 1);
}

/// A list of identities is read back as it was written.
pub proof fn lemma_identities_round_trip(identities: Seq<KeylessInfoModel>)
    ensures
        identities_of(identities_doc(identities)) == Some(identities),
{
    let items = identities_doc(identities)->List_0;
    assert forall|i: int| 0 <= i < items.len() implies identity_of(#[trigger] items[i]) == Some(
        identities[i],
    ) by {
        lemma_identity_round_trip(identities[i]);
    }
}

impl KeylessInfo {
    /// Reads an identity from a record.
    pub fn from_record(value: &Value) -> (read: Option<KeylessInfo>)
        ensures
            match read {
                Some(identity) => identity_of(value@) == Some(identity@),
                None => identity_of(value@) is None,
            },
    {
        let fields = match value.as_record() {
            Some(fields) => fields,
            None => {
                return None;
            },
        };
        let issuer = match read_text(fields, "issuer") {
            Some(text) => text,
            None => {
                return None;
            },
        };
        let subject = match read_text(fields, "subject") {
            Some(text) => text,
            None => {
                return None;
            },
        };
        Some(KeylessInfo { issuer, subject })
    }

    /// Writes the identity as a record.
    pub fn to_record(&self) -> (value: Value)
        ensures
            value@ == identity_doc(self@),
    {
        let mut fields: Vec<Field> = Vec::new();
        fields.push(field("issuer", text_value(&self.issuer)));
        fields.push(field("subject", text_value(&self.subject)));
        proof {
            lemma_record_view(fields);
            assert(views(fields@) =~= identity_doc(self@)->Record_0);
        }
        Value::Record(fields)
    }
}

/// Reads a list of identities.
pub fn read_identities(value: &Value) -> (read: Option<Vec<KeylessInfo>>)
    ensures
        match read {
            Some(list) => identities_of(value@) == Some(views(list@)),
            None => identities_of(value@) is None,
        },
{
    let items = match value.as_list() {
        Some(items) => items,
        None => {
            return None;
        },
    };
    let ghost docs = views(items@);
    let mut list: Vec<KeylessInfo> = Vec::new();
    let mut i: usize = 0;
    while i < items.len()
        invariant
            i <= items@.len(),
            docs == views(items@),
            value@ == Doc::List(docs),
            list@.len() == i,
            forall|j: int| 0 <= j < i ==> identity_of(#[trigger] docs[j]) == Some(list@[j]@),
        decreases items@.len() - i,
    {
        match KeylessInfo::from_record(&items[i]) {
            Some(identity) => {
                list.push(identity);
            },
            None => {
                assert(identity_of(docs[i as int]) is None);
                return None;
            },
        }
        i += 1;
    }
    Some(list)
}

/// Reads the list of identities under `name`.
pub fn read_identities_in(fields: &Vec<Field>, name: &str) -> (read: Option<Vec<KeylessInfo>>)
    ensures
        match read {
            Some(list) => identities_in(views(fields@), name@) == Some(views(list@)),
            None => identities_in(views(fields@), name@) is None,
        },
{
    match find_field(fields, name) {
        Found::Once(value) => read_identities(value),
        _ => None,
    }
}

/// Writes a list of identities.
pub fn identities_value(identities: &Vec<KeylessInfo>) -> (value: Value)
    ensures
        value@ == identities_doc(views(identities@)),
{
    let mut items: Vec<Value> = Vec::new();
    let mut i: usize = 0;
    while i < identities.len()
        invariant
            i <= identities@.len(),
            items@.len() == i,
            forall|j: int| 0 <= j < i ==> (#[trigger] items@[j])@ == identity_doc(identities@[j]@),
        decreases identities@.len() - i,
    {
        items.push(identities[i].to_record());
        i += 1;
    }
    proof {
        lemma_list_view(items);
        assert(views(items@) =~= identities_doc(views(identities@))->List_0);
    }
    Value::List(items)
}

} // verus!
