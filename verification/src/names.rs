//! The field names of the settings payload.

use vstd::prelude::*;

verus! {

/// Every requirement: the image it is about.
pub open spec fn image_key() -> Seq<char> {
    "image"@
}

/// Every requirement: the annotations a signature must carry.
pub open spec fn annotations_key() -> Seq<char> {
    "annotations"@
}

/// Public keys: the key material.
pub open spec fn pub_keys_key() -> Seq<char> {
    "pubKeys"@
}

/// Keyless: the identities that may have signed.
pub open spec fn keyless_key() -> Seq<char> {
    "keyless"@
}

/// GitHub Actions: the owner of the repository.
pub open spec fn owner_key() -> Seq<char> {
    "owner"@
}

/// GitHub Actions: the repository.
pub open spec fn repo_key() -> Seq<char> {
    "repo"@
}

/// Keyless prefix: the identities whose subject is matched by prefix.
pub open spec fn keyless_prefix_key() -> Seq<char> {
    "keylessPrefix"@
}

/// An identity: who issued it.
pub open spec fn issuer_key() -> Seq<char> {
    "issuer"@
}

/// An identity: whom it names.
pub open spec fn subject_key() -> Seq<char> {
    "subject"@
}

/// The settings: the list of requirements.
pub open spec fn signatures_key() -> Seq<char> {
    "signatures"@
}

/// The settings: whether image references are rewritten with their digest.
pub open spec fn modify_images_key() -> Seq<char> {
    "modifyImagesWithDigest"@
}

/// No two field names of a requirement are the same, nor the two of an
/// identity, nor the two of the settings.
pub proof fn lemma_names_differ()
    ensures
        image_key() != annotations_key(),
        image_key() != pub_keys_key(),
        image_key() != keyless_key(),
        image_key() != owner_key(),
        image_key() != repo_key(),
        image_key() != keyless_prefix_key(),
        annotations_key() != pub_keys_key(),
        annotations_key() != keyless_key(),
        annotations_key() != owner_key(),
        annotations_key() != repo_key(),
        annotations_key() != keyless_prefix_key(),
        pub_keys_key() != keyless_key(),
        pub_keys_key() != owner_key(),
        pub_keys_key() != repo_key(),
        pub_keys_key() != keyless_prefix_key(),
        keyless_key() != owner_key(),
        keyless_key() != repo_key(),
        keyless_key() != keyless_prefix_key(),
        owner_key() != repo_key(),
        owner_key() != keyless_prefix_key(),
        repo_key() != keyless_prefix_key(),
        issuer_key() != subject_key(),
        signatures_key() != modify_images_key(),
{
    reveal_strlit("image");
    reveal_strlit("annotations");
    reveal_strlit("pubKeys");
    reveal_strlit("keyless");
    reveal_strlit("owner");
    reveal_strlit("repo");
    reveal_strlit("keylessPrefix");
    reveal_strlit("issuer");
    reveal_strlit("subject");
    reveal_strlit("signatures");
    reveal_strlit("modifyImagesWithDigest");
    // Most of the names differ in length.
    assert(image_key().len() == 5 && owner_key().len() == 5 && repo_key().len() == 4);
    assert(pub_keys_key().len() == 7 && keyless_key().len() == 7);
    assert(annotations_key().len() == 11 && keyless_prefix_key().len() == 13);
    assert(issuer_key().len() == 6 && subject_key().len() == 7);
    assert(signatures_key().len() == 10 && modify_images_key().len() == 22);
    // The others differ in their first letter.
    assert(image_key()[0] != owner_key()[0]);
    assert(pub_keys_key()[0] != keyless_key()[0]);
}

} // verus!
