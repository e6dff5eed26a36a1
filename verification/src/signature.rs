//! Signature requirements: the four ways in which an image can be asked to
//! prove that it is trusted.

use crate::annotations::{
    distinct_or_none, lemma_optional_annotations_round_trip,
    lemma_read_annotations_have_distinct_keys, optional_annotations_doc, optional_annotations_in,
    optional_annotations_value, optional_pairs, read_optional_annotations, Annotations,
};
use crate::fields::{
    field, lemma_texts_round_trip, optional_text_doc, optional_text_in, optional_text_value,
    read_optional_text, read_text, read_texts_in, text_in, text_value, texts_doc, texts_in,
    texts_value,
};
use crate::identity::{
    identities_doc, identities_in, identities_value, lemma_identities_round_trip,
    read_identities_in, KeylessInfo, KeylessInfoModel,
};
use crate::names::{
    annotations_key, image_key, keyless_key, keyless_prefix_key, lemma_names_differ, owner_key,
    pub_keys_key, repo_key,
};
use crate::record::{
    has_field, lemma_record_view, lemma_slot_missing, lemma_slot_once, views, Doc, Entry, Field,
    Value,
};
use vstd::prelude::*;

verus! {

/// Trust by pinned keys: the image must carry a signature that one of
/// `pub_keys` verifies.
#[derive(Debug, PartialEq, Eq)]
pub struct PubKeys {
    /// The image the requirement is about.
    pub image: String,
    /// Public key material, one key each.
    pub pub_keys: Vec<String>,
    /// Annotations every accepted signature must carry.
    pub annotations: Option<Annotations>,
}

/// Trust by identity: the image must carry a keyless signature whose
/// certificate names one of `keyless` exactly.
#[derive(Debug, PartialEq, Eq)]
pub struct Keyless {
    /// The image the requirement is about.
    pub image: String,
    /// The identities that may have signed.
    pub keyless: Vec<KeylessInfo>,
    /// Annotations every accepted signature must carry.
    pub annotations: Option<Annotations>,
}

/// Trust by provenance: the image must carry a keyless signature made by a
/// GitHub Actions workflow of `owner`, and of `repo` where one is given.
#[derive(Debug, PartialEq, Eq)]
pub struct GithubActions {
    /// The image the requirement is about.
    pub image: String,
    /// The owner of the repository.
    pub owner: String,
    /// The repository of the workflow that signed.
    pub repo: Option<String>,
    /// Annotations every accepted signature must carry.
    pub annotations: Option<Annotations>,
}

/// Trust by identity prefix: as [`Keyless`], with the subject matched by
/// prefix.
#[derive(Debug, PartialEq, Eq)]
pub struct KeylessPrefix {
    /// The image the requirement is about.
    pub image: String,
    /// The identities that may have signed, each subject a prefix.
    pub keyless_prefix: Vec<KeylessInfo>,
    /// Annotations every accepted signature must carry.
    pub annotations: Option<Annotations>,
}

/// One signature requirement.
#[derive(Debug, PartialEq, Eq)]
pub enum Signature {
    PubKeys(PubKeys),
    Keyless(Keyless),
    GithubActions(GithubActions),
    KeylessPrefix(KeylessPrefix),
}

/// The mathematical content of a [`PubKeys`].
pub struct PubKeysModel {
    pub image: Seq<char>,
    pub pub_keys: Seq<Seq<char>>,
    pub annotations: Option<Seq<(Seq<char>, Seq<char>)>>,
}

/// The mathematical content of a [`Keyless`].
pub struct KeylessModel {
    pub image: Seq<char>,
    pub keyless: Seq<KeylessInfoModel>,
    pub annotations: Option<Seq<(Seq<char>, Seq<char>)>>,
}

/// The mathematical content of a [`GithubActions`].
pub struct GithubActionsModel {
    pub image: Seq<char>,
    pub owner: Seq<char>,
    pub repo: Option<Seq<char>>,
    pub annotations: Option<Seq<(Seq<char>, Seq<char>)>>,
}

/// The mathematical content of a [`KeylessPrefix`].
pub struct KeylessPrefixModel {
    pub image: Seq<char>,
    pub keyless_prefix: Seq<KeylessInfoModel>,
    pub annotations: Option<Seq<(Seq<char>, Seq<char>)>>,
}

/// The mathematical content of a [`Signature`].
pub enum SignatureModel {
    PubKeys(PubKeysModel),
    Keyless(KeylessModel),
    GithubActions(GithubActionsModel),
    KeylessPrefix(KeylessPrefixModel),
}

impl View for PubKeys {
    type V = PubKeysModel;

    open spec fn view(&self) -> PubKeysModel {
        PubKeysModel {
            image: self.image@,
            pub_keys: views(self.pub_keys@),
            annotations: optional_pairs(self.annotations),
        }
    }
}

impl View for Keyless {
    type V = KeylessModel;

    open spec fn view(&self) -> KeylessModel {
        KeylessModel {
            image: self.image@,
            keyless: views(self.keyless@),
            annotations: optional_pairs(self.annotations),
        }
    }
}

impl View for GithubActions {
    type V = GithubActionsModel;

    open spec fn view(&self) -> GithubActionsModel {
        GithubActionsModel {
            image: self.image@,
            owner: self.owner@,
            repo: match self.repo {
                Some(repo) => Some(repo@),
                None => None,
            },
            annotations: optional_pairs(self.annotations),
        }
    }
}

impl View for KeylessPrefix {
    type V = KeylessPrefixModel;

    open spec fn view(&self) -> KeylessPrefixModel {
        KeylessPrefixModel {
            image: self.image@,
            keyless_prefix: views(self.keyless_prefix@),
            annotations: optional_pairs(self.annotations),
        }
    }
}

impl View for Signature {
    type V = SignatureModel;

    open spec fn view(&self) -> SignatureModel {
        match self {
            Signature::PubKeys(inner) => SignatureModel::PubKeys(inner@),
            Signature::Keyless(inner) => SignatureModel::Keyless(inner@),
            Signature::GithubActions(inner) => SignatureModel::GithubActions(inner@),
            Signature::KeylessPrefix(inner) => SignatureModel::KeylessPrefix(inner@),
        }
    }
}

impl SignatureModel {
    /// The image the requirement is about.
    pub open spec fn image(self) -> Seq<char> {
        match self {
            SignatureModel::PubKeys(inner) => inner.image,
            SignatureModel::Keyless(inner) => inner.image,
            SignatureModel::GithubActions(inner) => inner.image,
            SignatureModel::KeylessPrefix(inner) => inner.image,
        }
    }

    /// The annotations every accepted signature must carry.
    pub open spec fn annotations(self) -> Option<Seq<(Seq<char>, Seq<char>)>> {
        match self {
            SignatureModel::PubKeys(inner) => inner.annotations,
            SignatureModel::Keyless(inner) => inner.annotations,
            SignatureModel::GithubActions(inner) => inner.annotations,
            SignatureModel::KeylessPrefix(inner) => inner.annotations,
        }
    }

    /// Annotations, where there are any, name each key once.
    pub open spec fn well_formed(self) -> bool {
        distinct_or_none(self.annotations())
    }
}

/// The requirement by pinned keys that a record holds: an image, a list of
/// keys under `pubKeys`, and optional annotations.
pub open spec fn pub_keys_of(doc: Doc) -> Option<PubKeysModel> {
    match doc {
        Doc::Record(entries) => match (
            text_in(entries, image_key()),
            texts_in(entries, pub_keys_key()),
            optional_annotations_in(entries, annotations_key()),
        ) {
            (Some(image), Some(pub_keys), Some(annotations)) => Some(
                PubKeysModel { image, pub_keys, annotations },
            ),
            _ => None,
        },
        _ => None,
    }
}

/// The requirement by identity that a record holds: an image, a list of
/// identities under `keyless`, and optional annotations.
pub open spec fn keyless_of(doc: Doc) -> Option<KeylessModel> {
    match doc {
        Doc::Record(entries) => match (
            text_in(entries, image_key()),
            identities_in(entries, keyless_key()),
            optional_annotations_in(entries, annotations_key()),
        ) {
            (Some(image), Some(keyless), Some(annotations)) => Some(
                KeylessModel { image, keyless, annotations },
            ),
            _ => None,
        },
        _ => None,
    }
}

/// The requirement by provenance that a record holds: an image, an owner,
/// an optional repository and optional annotations.
pub open spec fn github_actions_of(doc: Doc) -> Option<GithubActionsModel> {
    match doc {
        Doc::Record(entries) => match (
            text_in(entries, image_key()),
            text_in(entries, owner_key()),
            optional_text_in(entries, repo_key()),
            optional_annotations_in(entries, annotations_key()),
        ) {
            (Some(image), Some(owner), Some(repo), Some(annotations)) => Some(
                GithubActionsModel { image, owner, repo, annotations },
            ),
            _ => None,
        },
        _ => None,
    }
}

/// The requirement by identity prefix that a record holds: an image, a
/// list of identities under `keylessPrefix`, and optional annotations.
pub open spec fn keyless_prefix_of(doc: Doc) -> Option<KeylessPrefixModel> {
    match doc {
        Doc::Record(entries) => match (
            text_in(entries, image_key()),
            identities_in(entries, keyless_prefix_key()),
            optional_annotations_in(entries, annotations_key()),
        ) {
            (Some(image), Some(keyless_prefix), Some(annotations)) => Some(
                KeylessPrefixModel { image, keyless_prefix, annotations },
            ),
            _ => None,
        },
        _ => None,
    }
}

/// The requirement that a record holds. The four shapes are tried in
/// order and the first that fits decides; a record that fits none holds no
/// requirement.
pub open spec fn signature_of(doc: Doc) -> Option<SignatureModel> {
    if pub_keys_of(doc) is Some {
        Some(SignatureModel::PubKeys(pub_keys_of(doc)->Some_0))
    } else if keyless_of(doc) is Some {
        Some(SignatureModel::Keyless(keyless_of(doc)->Some_0))
    } else if github_actions_of(doc) is Some {
        Some(SignatureModel::GithubActions(github_actions_of(doc)->Some_0))
    } else if keyless_prefix_of(doc) is Some {
        Some(SignatureModel::KeylessPrefix(keyless_prefix_of(doc)->Some_0))
    } else {
        None
    }
}

/// The record a requirement by pinned keys is written as.
pub open spec fn pub_keys_doc(inner: PubKeysModel) -> Doc {
    Doc::Record(
        seq![
            Entry { name: image_key(), value: Doc::Text(inner.image) },
            Entry { name: pub_keys_key(), value: texts_doc(inner.pub_keys) },
            Entry { name: annotations_key(), value: optional_annotations_doc(inner.annotations) },
        ],
    )
}

/// The record a requirement by identity is written as.
pub open spec fn keyless_doc(inner: KeylessModel) -> Doc {
    Doc::Record(
        seq![
            Entry { name: image_key(), value: Doc::Text(inner.image) },
            Entry { name: keyless_key(), value: identities_doc(inner.keyless) },
            Entry { name: annotations_key(), value: optional_annotations_doc(inner.annotations) },
        ],
    )
}

/// The record a requirement by provenance is written as.
pub open spec fn github_actions_doc(inner: GithubActionsModel) -> Doc {
    Doc::Record(
        seq![
            Entry { name: image_key(), value: Doc::Text(inner.image) },
            Entry { name: owner_key(), value: Doc::Text(inner.owner) },
            Entry { name: repo_key(), value: optional_text_doc(inner.repo) },
            Entry { name: annotations_key(), value: optional_annotations_doc(inner.annotations) },
        ],
    )
}

/// The record a requirement by identity prefix is written as.
pub open spec fn keyless_prefix_doc(inner: KeylessPrefixModel) -> Doc {
    Doc::Record(
        seq![
            Entry { name: image_key(), value: Doc::Text(inner.image) },
            Entry { name: keyless_prefix_key(), value: identities_doc(inner.keyless_prefix) },
            Entry { name: annotations_key(), value: optional_annotations_doc(inner.annotations) },
        ],
    )
}

/// The record a requirement is written as: that of its variant, with
/// nothing to tell the variant but the fields.
pub open spec fn signature_doc(signature: SignatureModel) -> Doc {
    match signature {
        SignatureModel::PubKeys(inner) => pub_keys_doc(inner),
        SignatureModel::Keyless(inner) => keyless_doc(inner),
        SignatureModel::GithubActions(inner) => github_actions_doc(inner),
        SignatureModel::KeylessPrefix(inner) => keyless_prefix_doc(inner),
    }
}

/// A requirement by pinned keys is read back as it was written.
pub proof fn lemma_pub_keys_round_trip(inner: PubKeysModel)
    requires
        SignatureModel::PubKeys(inner).well_formed(),
    ensures
        pub_keys_of(pub_keys_doc(inner)) == Some(inner),
{
    let entries = pub_keys_doc(inner)->Record_0;
    lemma_names_differ();
    lemma_slot_once(entries, image_key(), 0);
    lemma_slot_once(entries, pub_keys_key(), 1);
    lemma_slot_once(entries, annotations_key(), 2);
    lemma_texts_round_trip(inner.pub_keys);
    lemma_optional_annotations_round_trip(entries, annotations_key(), inner.annotations);
}

/// A requirement by identity is read back as it was written, and not as
/// one by pinned keys.
pub proof fn lemma_keyless_round_trip(inner: KeylessModel)
    requires
        SignatureModel::Keyless(inner).well_formed(),
    ensures
        keyless_of(keyless_doc(inner)) == Some(inner),
        pub_keys_of(keyless_doc(inner)) is None,
{
    let entries = keyless_doc(inner)->Record_0;
    lemma_names_differ();
    lemma_slot_once(entries, image_key(), 0);
    lemma_slot_once(entries, keyless_key(), 1);
    lemma_slot_once(entries, annotations_key(), 2);
    lemma_slot_missing(entries, pub_keys_key());
    lemma_identities_round_trip(inner.keyless);
    lemma_optional_annotations_round_trip(entries, annotations_key(), inner.annotations);
}

/// A requirement by provenance is read back as it was written, and not as
/// one of the two kinds before it.
pub proof fn lemma_github_actions_round_trip(inner: GithubActionsModel)
    requires
        SignatureModel::GithubActions(inner).well_formed(),
    ensures
        github_actions_of(github_actions_doc(inner)) == Some(inner),
        pub_keys_of(github_actions_doc(inner)) is None,
        keyless_of(github_actions_doc(inner)) is None,
{
    let entries = github_actions_doc(inner)->Record_0;
    lemma_names_differ();
    lemma_slot_once(entries, image_key(), 0);
    lemma_slot_once(entries, owner_key(), 1);
    lemma_slot_once(entries, repo_key(), 2);
    lemma_slot_once(entries, annotations_key(), 3);
    lemma_slot_missing(entries, pub_keys_key());
    lemma_slot_missing(entries, keyless_key());
    lemma_optional_annotations_round_trip(entries, annotations_key(), inner.annotations);
}

/// A requirement by identity prefix is read back as it was written, and
/// not as one of the three kinds before it.
pub proof fn lemma_keyless_prefix_round_trip(inner: KeylessPrefixModel)
    requires
        SignatureModel::KeylessPrefix(inner).well_formed(),
    ensures
        keyless_prefix_of(keyless_prefix_doc(inner)) == Some(inner),
        pub_keys_of(keyless_prefix_doc(inner)) is None,
        keyless_of(keyless_prefix_doc(inner)) is None,
        github_actions_of(keyless_prefix_doc(inner)) is None,
{
    let entries = keyless_prefix_doc(inner)->Record_0;
    lemma_names_differ();
    lemma_slot_once(entries, image_key(), 0);
    lemma_slot_once(entries, keyless_prefix_key(), 1);
    lemma_slot_once(entries, annotations_key(), 2);
    lemma_slot_missing(entries, pub_keys_key());
    lemma_slot_missing(entries, keyless_key());
    lemma_slot_missing(entries, owner_key());
    lemma_identities_round_trip(inner.keyless_prefix);
    lemma_optional_annotations_round_trip(entries, annotations_key(), inner.annotations);
}

/// Writing a requirement and reading the record gives the requirement
/// back, in its own variant, whichever of the four it is.
pub proof fn lemma_signature_round_trip(signature: SignatureModel)
    requires
        signature.well_formed(),
    ensures
        signature_of(signature_doc(signature)) == Some(signature),
{
    match signature {
        SignatureModel::PubKeys(inner) => lemma_pub_keys_round_trip(inner),
        SignatureModel::Keyless(inner) => lemma_keyless_round_trip(inner),
        SignatureModel::GithubActions(inner) => lemma_github_actions_round_trip(inner),
        SignatureModel::KeylessPrefix(inner) => lemma_keyless_prefix_round_trip(inner),
    }
}

/// Every requirement that is read from a record is well formed.
pub proof fn lemma_read_signature_is_well_formed(doc: Doc)
    ensures
        match signature_of(doc) {
            Some(signature) => signature.well_formed(),
            None => true,
        },
{
    match doc {
        Doc::Record(entries) => {
            lemma_read_annotations_have_distinct_keys(entries, annotations_key());
        },
        _ => {},
    }
}

/// The first shape that fits decides: a record is read as a requirement by
/// pinned keys whenever it has that shape, as one by identity when it has
/// that shape and not the first, and so on down the four; a record with
/// none of the shapes is not read at all.
pub proof fn lemma_first_shape_wins(doc: Doc)
    ensures
        pub_keys_of(doc) is Some ==> signature_of(doc) == Some(
            SignatureModel::PubKeys(pub_keys_of(doc)->Some_0),
        ),
        pub_keys_of(doc) is None && keyless_of(doc) is Some ==> signature_of(doc) == Some(
            SignatureModel::Keyless(keyless_of(doc)->Some_0),
        ),
        pub_keys_of(doc) is None && keyless_of(doc) is None && github_actions_of(doc) is Some
            ==> signature_of(doc) == Some(
            SignatureModel::GithubActions(github_actions_of(doc)->Some_0),
        ),
        pub_keys_of(doc) is None && keyless_of(doc) is None && github_actions_of(doc) is None
            && keyless_prefix_of(doc) is Some ==> signature_of(doc) == Some(
            SignatureModel::KeylessPrefix(keyless_prefix_of(doc)->Some_0),
        ),
        pub_keys_of(doc) is None && keyless_of(doc) is None && github_actions_of(doc) is None
            && keyless_prefix_of(doc) is None ==> signature_of(doc) is None,
{
}

/// A requirement that was read names its variant's field: a record read as
/// pinned keys holds `pubKeys`, one read as identities holds `keyless`, one
/// read as provenance holds `owner`, one read as identity prefixes holds
/// `keylessPrefix`.
pub proof fn lemma_variant_names_its_field(doc: Doc)
    ensures
        match signature_of(doc) {
            Some(SignatureModel::PubKeys(_)) => doc is Record && has_field(
                doc->Record_0,
                pub_keys_key(),
            ),
            Some(SignatureModel::Keyless(_)) => doc is Record && has_field(
                doc->Record_0,
                keyless_key(),
            ),
            Some(SignatureModel::GithubActions(_)) => doc is Record && has_field(
                doc->Record_0,
                owner_key(),
            ),
            Some(SignatureModel::KeylessPrefix(_)) => doc is Record && has_field(
                doc->Record_0,
                keyless_prefix_key(),
            ),
            None => true,
        },
{
}

/// Among the records that are read at all, one that holds a single one of
/// `pubKeys`, `keyless`, `owner` and `keylessPrefix` is read as the variant
/// of that field.
pub proof fn lemma_lone_field_decides_variant(entries: Seq<Entry>)
    requires
        signature_of(Doc::Record(entries)) is Some,
    ensures
        has_field(entries, pub_keys_key()) && !has_field(entries, keyless_key()) && !has_field(
            entries,
            owner_key(),
        ) && !has_field(entries, keyless_prefix_key()) ==> signature_of(
            Doc::Record(entries),
        )->Some_0 is PubKeys,
        !has_field(entries, pub_keys_key()) && has_field(entries, keyless_key()) && !has_field(
            entries,
            owner_key(),
        ) && !has_field(entries, keyless_prefix_key()) ==> signature_of(
            Doc::Record(entries),
        )->Some_0 is Keyless,
        !has_field(entries, pub_keys_key()) && !has_field(entries, keyless_key()) && has_field(
            entries,
            owner_key(),
        ) && !has_field(entries, keyless_prefix_key()) ==> signature_of(
            Doc::Record(entries),
        )->Some_0 is GithubActions,
        !has_field(entries, pub_keys_key()) && !has_field(entries, keyless_key()) && !has_field(
            entries,
            owner_key(),
        ) && has_field(entries, keyless_prefix_key()) ==> signature_of(
            Doc::Record(entries),
        )->Some_0 is KeylessPrefix,
{
    lemma_variant_names_its_field(Doc::Record(entries));
}

impl PubKeys {
    /// Reads a requirement by pinned keys from a record.
    pub fn from_record(value: &Value) -> (read: Option<PubKeys>)
        ensures
            match read {
                Some(inner) => pub_keys_of(value@) == Some(inner@),
                None => pub_keys_of(value@) is None,
            },
    {
        let fields = match value.as_record() {
            Some(fields) => fields,
            None => {
                return None;
            },
        };
        let image = match read_text(fields, "image") {
            Some(text) => text,
            None => {
                return None;
            },
        };
        let pub_keys = match read_texts_in(fields, "pubKeys") {
            Some(list) => list,
            None => {
                return None;
            },
        };
        let annotations = match read_optional_annotations(fields, "annotations") {
            Some(read) => read,
            None => {
                return None;
            },
        };
        Some(PubKeys { image, pub_keys, annotations })
    }

    /// Writes the requirement as a record.
    pub fn to_record(&self) -> (value: Value)
        ensures
            value@ == pub_keys_doc(self@),
            SignatureModel::PubKeys(self@).well_formed(),
    {
        let mut fields: Vec<Field> = Vec::new();
        fields.push(field("image", text_value(&self.image)));
        fields.push(field("pubKeys", texts_value(&self.pub_keys)));
        fields.push(field("annotations", optional_annotations_value(&self.annotations)));
        proof {
            lemma_record_view(fields);
            assert(views(fields@) =~= pub_keys_doc(self@)->Record_0);
        }
        Value::Record(fields)
    }
}

impl Keyless {
    /// Reads a requirement by identity from a record.
    pub fn from_record(value: &Value) -> (read: Option<Keyless>)
        ensures
            match read {
                Some(inner) => keyless_of(value@) == Some(inner@),
                None => keyless_of(value@) is None,
            },
    {
        let fields = match value.as_record() {
            Some(fields) => fields,
            None => {
                return None;
            },
        };
        let image = match read_text(fields, "image") {
            Some(text) => text,
            None => {
                return None;
            },
        };
        let keyless = match read_identities_in(fields, "keyless") {
            Some(list) => list,
            None => {
                return None;
            },
        };
        let annotations = match read_optional_annotations(fields, "annotations") {
            Some(read) => read,
            None => {
                return None;
            },
        };
        Some(Keyless { image, keyless, annotations })
    }

    /// Writes the requirement as a record.
    pub fn to_record(&self) -> (value: Value)
        ensures
            value@ == keyless_doc(self@),
            SignatureModel::Keyless(self@).well_formed(),
    {
        let mut fields: Vec<Field> = Vec::new();
        fields.push(field("image", text_value(&self.image)));
        fields.push(field("keyless", identities_value(&self.keyless)));
        fields.push(field("annotations", optional_annotations_value(&self.annotations)));
        proof {
            lemma_record_view(fields);
            assert(views(fields@) =~= keyless_doc(self@)->Record_0);
        }
        Value::Record(fields)
    }
}

impl GithubActions {
    /// Reads a requirement by provenance from a record.
    pub fn from_record(value: &Value) -> (read: Option<GithubActions>)
        ensures
            match read {
                Some(inner) => github_actions_of(value@) == Some(inner@),
                None => github_actions_of(value@) is None,
            },
    {
        let fields = match value.as_record() {
            Some(fields) => fields,
            None => {
                return None;
            },
        };
        let image = match read_text(fields, "image") {
            Some(text) => text,
            None => {
                return None;
            },
        };
        let owner = match read_text(fields, "owner") {
            Some(text) => text,
            None => {
                return None;
            },
        };
        let repo = match read_optional_text(fields, "repo") {
            Some(read) => read,
            None => {
                return None;
            },
        };
        let annotations = match read_optional_annotations(fields, "annotations") {
            Some(read) => read,
            None => {
                return None;
            },
        };
        Some(GithubActions { image, owner, repo, annotations })
    }

    /// Writes the requirement as a record.
    pub fn to_record(&self) -> (value: Value)
        ensures
            value@ == github_actions_doc(self@),
            SignatureModel::GithubActions(self@).well_formed(),
    {
        let mut fields: Vec<Field> = Vec::new();
        fields.push(field("image", text_value(&self.image)));
        fields.push(field("owner", text_value(&self.owner)));
        fields.push(field("repo", optional_text_value(&self.repo)));
        fields.push(field("annotations", optional_annotations_value(&self.annotations)));
        proof {
            lemma_record_view(fields);
            assert(views(fields@) =~= github_actions_doc(self@)->Record_0);
        }
        Value::Record(fields)
    }
}

impl KeylessPrefix {
    /// Reads a requirement by identity prefix from a record.
    pub fn from_record(value: &Value) -> (read: Option<KeylessPrefix>)
        ensures
            match read {
                Some(inner) => keyless_prefix_of(value@) == Some(inner@),
                None => keyless_prefix_of(value@) is None,
            },
    {
        let fields = match value.as_record() {
            Some(fields) => fields,
            None => {
                return None;
            },
        };
        let image = match read_text(fields, "image") {
            Some(text) => text,
            None => {
                return None;
            },
        };
        let keyless_prefix = match read_identities_in(fields, "keylessPrefix") {
            Some(list) => list,
            None => {
                return None;
            },
        };
        let annotations = match read_optional_annotations(fields, "annotations") {
            Some(read) => read,
            None => {
                return None;
            },
        };
        Some(KeylessPrefix { image, keyless_prefix, annotations })
    }

    /// Writes the requirement as a record.
    pub fn to_record(&self) -> (value: Value)
        ensures
            value@ == keyless_prefix_doc(self@),
            SignatureModel::KeylessPrefix(self@).well_formed(),
    {
        let mut fields: Vec<Field> = Vec::new();
        fields.push(field("image", text_value(&self.image)));
        fields.push(field("keylessPrefix", identities_value(&self.keyless_prefix)));
        fields.push(field("annotations", optional_annotations_value(&self.annotations)));
        proof {
            lemma_record_view(fields);
            assert(views(fields@) =~= keyless_prefix_doc(self@)->Record_0);
        }
        Value::Record(fields)
    }
}

impl Signature {
    /// Reads a requirement from a record, as the first of the four shapes
    /// that the record fits.
    pub fn from_record(value: &Value) -> (read: Option<Signature>)
        ensures
            match read {
                Some(signature) => signature_of(value@) == Some(signature@),
                None => signature_of(value@) is None,
            },
    {
        match PubKeys::from_record(value) {
            Some(inner) => {
                return Some(Signature::PubKeys(inner));
            },
            None => {},
        }
        match Keyless::from_record(value) {
            Some(inner) => {
                return Some(Signature::Keyless(inner));
            },
            None => {},
        }
        match GithubActions::from_record(value) {
            Some(inner) => {
                return Some(Signature::GithubActions(inner));
            },
            None => {},
        }
        match KeylessPrefix::from_record(value) {
            Some(inner) => Some(Signature::KeylessPrefix(inner)),
            None => None,
        }
    }

    /// Writes the requirement as a record.
    pub fn to_record(&self) -> (value: Value)
        ensures
            value@ == signature_doc(self@),
            signature_of(value@) == Some(self@),
    {
        proof {
            if self@.well_formed() {
                lemma_signature_round_trip(self@);
            }
        }
        match self {
            Signature::PubKeys(inner) => inner.to_record(),
            Signature::Keyless(inner) => inner.to_record(),
            Signature::GithubActions(inner) => inner.to_record(),
            Signature::KeylessPrefix(inner) => inner.to_record(),
        }
    }

    /// The image the requirement is about.
    pub fn image(&self) -> (image: &String)
        ensures
            image@ == self@.image(),
    {
        match self {
            Signature::PubKeys(inner) => &inner.image,
            Signature::Keyless(inner) => &inner.image,
            Signature::GithubActions(inner) => &inner.image,
            Signature::KeylessPrefix(inner) => &inner.image,
        }
    }

    /// The annotations every accepted signature must carry.
    pub fn annotations(&self) -> (annotations: &Option<Annotations>)
        ensures
            optional_pairs(*annotations) == self@.annotations(),
    {
        match self {
            Signature::PubKeys(inner) => &inner.annotations,
            Signature::Keyless(inner) => &inner.annotations,
            Signature::GithubActions(inner) => &inner.annotations,
            Signature::KeylessPrefix(inner) => &inner.annotations,
        }
    }
}

} // verus!
