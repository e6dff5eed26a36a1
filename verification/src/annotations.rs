//! Required annotations: a mapping from key to value that keeps the order
//! in which its keys first arrived.

use crate::record::{
    find_field, lemma_record_view, slot, views, Doc, Entry, Field, Found, Slot, Value,
};
use crate::text::same_text;
use vstd::prelude::*;

verus! {

/// Whether entry `i` of `pairs` has the key `key`.
pub open spec fn key_at(pairs: Seq<(Seq<char>, Seq<char>)>, key: Seq<char>, i: int) -> bool {
    0 <= i < pairs.len() && pairs[i].0 == key
}

/// Whether some entry has the key `key`.
pub open spec fn has_key(pairs: Seq<(Seq<char>, Seq<char>)>, key: Seq<char>) -> bool {
    exists|i: int| key_at(pairs, key, i)
}

/// The position of an entry with the key `key`.
pub open spec fn key_index(pairs: Seq<(Seq<char>, Seq<char>)>, key: Seq<char>) -> int {
    choose|i: int| key_at(pairs, key, i)
}

/// The value that `key` is bound to, if it is bound.
pub open spec fn value_of(pairs: Seq<(Seq<char>, Seq<char>)>, key: Seq<char>) -> Option<
    Seq<char>,
> {
    if has_key(pairs, key) {
        Some(pairs[key_index(pairs, key)].1)
    } else {
        None
    }
}

/// No key occurs twice.
pub open spec fn distinct_keys(pairs: Seq<(Seq<char>, Seq<char>)>) -> bool {
    forall|i: int, j: int|
        0 <= i < j < pairs.len() ==> (#[trigger] pairs[i]).0 != (#[trigger] pairs[j]).0
}

/// `pairs` once `key` is bound to `value`: a known key keeps its place and
/// takes the new value, a new key goes to the end.
pub open spec fn put(pairs: Seq<(Seq<char>, Seq<char>)>, key: Seq<char>, value: Seq<char>) -> Seq<
    (Seq<char>, Seq<char>),
> {
    if has_key(pairs, key) {
        pairs.update(key_index(pairs, key), (key, value))
    } else {
        pairs.push((key, value))
    }
}

/// Binding a key keeps the keys distinct.
pub proof fn lemma_put_keeps_keys_distinct(
    pairs: Seq<(Seq<char>, Seq<char>)>,
    key: Seq<char>,
    value: Seq<char>,
)
    requires
        distinct_keys(pairs),
    ensures
        distinct_keys(put(pairs, key, value)),
{
    let after = put(pairs, key, value);
    assert forall|i: int, j: int| 0 <= i < j < after.len() implies
        (#[trigger] after[i]).0 != (#[trigger] after[j]).0
    by {
        if has_key(pairs, key) {
            // The entry that changes keeps its key.
            assert(key_at(pairs, key, key_index(pairs, key)));
        } else if j == pairs.len() {
            // The new key stands last, and no entry before it has it.
            assert(!key_at(pairs, key, i));
        }
    }
}

/// Where keys are distinct, the value of a key is the one beside it.
pub proof fn lemma_value_at(pairs: Seq<(Seq<char>, Seq<char>)>, key: Seq<char>, at: int)
    requires
        distinct_keys(pairs),
        key_at(pairs, key, at),
    ensures
        key_index(pairs, key) == at,
        value_of(pairs, key) == Some(pairs[at].1),
{
    assert(key_at(pairs, key, key_index(pairs, key)));
}

/// Binding a key behaves as it does in a mapping: the key then has the new
/// value, every other key has what it had, and the number of bindings grows
/// by one exactly when the key is new.
pub proof fn lemma_put_binds_one_key(
    pairs: Seq<(Seq<char>, Seq<char>)>,
    key: Seq<char>,
    value: Seq<char>,
    other: Seq<char>,
)
    requires
        distinct_keys(pairs),
    ensures
        value_of(put(pairs, key, value), key) == Some(value),
        other != key ==> value_of(put(pairs, key, value), other) == value_of(pairs, other),
        put(pairs, key, value).len() == pairs.len() + if has_key(pairs, key) {
            0int
        } else {
            1int
        },
{
    let after = put(pairs, key, value);
    lemma_put_keeps_keys_distinct(pairs, key, value);
    let at: int = if has_key(pairs, key) {
        key_index(pairs, key)
    } else {
        pairs.len() as int
    };
    lemma_value_at(after, key, at);
    if other != key {
        if has_key(pairs, other) {
            lemma_value_at(after, other, key_index(pairs, other));
        } else {
            assert forall|i: int| !key_at(after, other, i) by {
                if 0 <= i < pairs.len() {
                    assert(!key_at(pairs, other, i));
                }
            }
        }
    }
}

/// The bindings that the entries of a record make, taken in order: a key
/// that comes again takes the later value.
pub open spec fn bindings(entries: Seq<Entry>) -> Seq<(Seq<char>, Seq<char>)>
    decreases entries.len(),
{
    if entries.len() == 0 {
        Seq::empty()
    } else {
        put(bindings(entries.drop_last()), entries.last().name, entries.last().value->Text_0)
    }
}

/// The annotations that a record of texts holds.
pub open spec fn annotations_of(doc: Doc) -> Option<Seq<(Seq<char>, Seq<char>)>> {
    match doc {
        Doc::Record(entries) => if forall|i: int|
            0 <= i < entries.len() ==> (#[trigger] entries[i]).value is Text {
            Some(bindings(entries))
        } else {
            None
        },
        _ => None,
    }
}

/// The annotations that `entries` may hold under `name`. A record that
/// leaves the name out, or binds it to null, asks for none.
pub open spec fn optional_annotations_in(entries: Seq<Entry>, name: Seq<char>) -> Option<
    Option<Seq<(Seq<char>, Seq<char>)>>,
> {
    match slot(entries, name) {
        Slot::Missing => Some(None),
        Slot::Once(Doc::Null) => Some(None),
        Slot::Once(doc) => match annotations_of(doc) {
            Some(pairs) => Some(Some(pairs)),
            None => None,
        },
        Slot::Repeated => None,
    }
}

/// Annotations, where there are any, name each key once.
pub open spec fn distinct_or_none(pairs: Option<Seq<(Seq<char>, Seq<char>)>>) -> bool {
    match pairs {
        Some(p) => distinct_keys(p),
        None => true,
    }
}

/// The record that holds `pairs`, one entry each, in order.
pub open spec fn annotations_doc(pairs: Seq<(Seq<char>, Seq<char>)>) -> Doc {
    Doc::Record(
        Seq::new(pairs.len(), |i: int| Entry { name: pairs[i].0, value: Doc::Text(pairs[i].1) }),
    )
}

/// The value optional annotations are written as.
pub open spec fn optional_annotations_doc(pairs: Option<Seq<(Seq<char>, Seq<char>)>>) -> Doc {
    match pairs {
        Some(p) => annotations_doc(p),
        None => Doc::Null,
    }
}

/// Whatever a record holds, the bindings it makes have distinct keys.
pub proof fn lemma_bindings_have_distinct_keys(entries: Seq<Entry>)
    ensures
        distinct_keys(bindings(entries)),
    decreases entries.len(),
{
    if entries.len() > 0 {
        lemma_bindings_have_distinct_keys(entries.drop_last());
        lemma_put_keeps_keys_distinct(
            bindings(entries.drop_last()),
            entries.last().name,
            entries.last().value->Text_0,
        );
    }
}

/// Annotations with distinct keys are read back as they were written.
pub proof fn lemma_annotations_round_trip(pairs: Seq<(Seq<char>, Seq<char>)>)
    requires
        distinct_keys(pairs),
    ensures
        annotations_of(annotations_doc(pairs)) == Some(pairs),
    decreases pairs.len(),
{
    if pairs.len() > 0 {
        let entries = annotations_doc(pairs)->Record_0;
        let shorter = pairs.drop_last();
        assert(distinct_keys(shorter));
        lemma_annotations_round_trip(shorter);
        assert(annotations_doc(shorter)->Record_0 =~= entries.drop_last());
        // The last key is new to the pairs before it, so it is put last.
        assert(!has_key(shorter, pairs.last().0)) by {
            if has_key(shorter, pairs.last().0) {
                assert(key_at(shorter, pairs.last().0, key_index(shorter, pairs.last().0)));
            }
        }
    }
}

/// Annotations that are read under a name have distinct keys.
pub proof fn lemma_read_annotations_have_distinct_keys(entries: Seq<Entry>, name: Seq<char>)
    ensures
        match optional_annotations_in(entries, name) {
            Some(pairs) => distinct_or_none(pairs),
            None => true,
        },
{
    match slot(entries, name) {
        Slot::Once(Doc::Record(inner)) => {
            lemma_bindings_have_distinct_keys(inner);
        },
        _ => {},
    }
}

/// Optional annotations with distinct keys are read back as they were
/// written.
pub proof fn lemma_optional_annotations_round_trip(
    entries: Seq<Entry>,
    name: Seq<char>,
    pairs: Option<Seq<(Seq<char>, Seq<char>)>>,
)
    requires
        slot(entries, name) == Slot::Once(optional_annotations_doc(pairs)),
        distinct_or_none(pairs),
    ensures
        optional_annotations_in(entries, name) == Some(pairs),
{
    match pairs {
        Some(p) => {
            lemma_annotations_round_trip(p);
        },
        None => {},
    }
}

/// Annotations that every accepted signature must carry.
#[derive(Debug, PartialEq, Eq)]
pub struct Annotations {
    entries: Vec<(String, String)>,
}

impl View for Annotations {
    type V = Seq<(Seq<char>, Seq<char>)>;

    closed spec fn view(&self) -> Seq<(Seq<char>, Seq<char>)> {
        Seq::new(self.entries@.len(), |i: int| (self.entries@[i].0@, self.entries@[i].1@))
    }
}

impl Annotations {
    #[verifier::type_invariant]
    closed spec fn keys_stay_distinct(&self) -> bool {
        distinct_keys(self@)
    }

    /// No annotations.
    pub fn new() -> (empty: Annotations)
        ensures
            empty@ == Seq::<(Seq<char>, Seq<char>)>::empty(),
    {
        Annotations { entries: Vec::new() }
    }

    /// The number of annotations.
    pub fn len(&self) -> (count: usize)
        ensures
            count == self@.len(),
    {
        self.entries.len()
    }

    /// The annotations in order, each as key and value.
    pub fn entries(&self) -> (pairs: &Vec<(String, String)>)
        ensures
            pairs@.len() == self@.len(),
            forall|i: int| 0 <= i < pairs@.len() ==> (#[trigger] pairs@[i]).0@ == self@[i].0,
            forall|i: int| 0 <= i < pairs@.len() ==> (#[trigger] pairs@[i]).1@ == self@[i].1,
            distinct_keys(self@),
    {
        proof {
            use_type_invariant(self);
        }
        &self.entries
    }

    fn position(&self, key: &str) -> (at: Option<usize>)
        ensures
            match at {
                Some(k) => key_at(self@, key@, k as int) && k as int == key_index(self@, key@),
                None => !has_key(self@, key@),
            },
    {
        proof {
            use_type_invariant(self);
        }
        let mut i: usize = 0;
        while i < self.entries.len()
            invariant
                i <= self.entries@.len(),
                self.entries@.len() == self@.len(),
                distinct_keys(self@),
                forall|j: int| 0 <= j < i ==> !key_at(self@, key@, j),
            decreases self.entries@.len() - i,
        {
            if same_text(self.entries[i].0.as_str(), key) {
                assert(key_at(self@, key@, i as int));
                return Some(i);
            }
            i += 1;
        }
        None
    }

    /// The value bound to `key`, if there is one.
    pub fn get(&self, key: &str) -> (value: Option<&String>)
        ensures
            match value {
                Some(v) => value_of(self@, key@) == Some(v@),
                None => value_of(self@, key@) is None,
            },
    {
        match self.position(key) {
            Some(k) => Some(&self.entries[k].1),
            None => None,
        }
    }

    /// Binds `key` to `value`, in place of any value it had.
    pub fn insert(&mut self, key: String, value: String)
        ensures
            final(self)@ == put(old(self)@, key@, value@),
    {
        proof {
            use_type_invariant(&*self);
            lemma_put_keeps_keys_distinct(self@, key@, value@);
        }
        let at = self.position(key.as_str());
        // The entries leave `self` while they change, so that it holds
        // distinct keys at every step.
        let mut entries: Vec<(String, String)> = Vec::new();
        core::mem::swap(&mut self.entries, &mut entries);
        match at {
            Some(k) => {
                entries.set(k, (key, value));
            },
            None => {
                entries.push((key, value));
            },
        }
        assert(Seq::new(entries@.len(), |i: int| (entries@[i].0@, entries@[i].1@)) =~= put(
            old(self)@,
            key@,
            value@,
        ));
        core::mem::swap(&mut self.entries, &mut entries);
    }

    /// Reads annotations from a record of texts.
    pub fn from_record(value: &Value) -> (read: Option<Annotations>)
        ensures
            match read {
                Some(a) => annotations_of(value@) == Some(a@),
                None => annotations_of(value@) is None,
            },
    {
        let fields = match value.as_record() {
            Some(fields) => fields,
            None => {
                return None;
            },
        };
        let ghost entries = views(fields@);
        let mut read = Annotations::new();
        let mut i: usize = 0;
        while i < fields.len()
            invariant
                i <= fields@.len(),
                entries == views(fields@),
                value@ == Doc::Record(entries),
                read@ == bindings(entries.take(i as int)),
                forall|j: int| 0 <= j < i ==> (#[trigger] entries[j]).value is Text,
            decreases fields@.len() - i,
        {
            match fields[i].value.as_text() {
                Some(text) => {
                    assert(entries.take(i + 1).drop_last() =~= entries.take(i as int));
                    read.insert(fields[i].name.clone(), text.clone());
                },
                None => {
                    assert(!(entries[i as int].value is Text));
                    return None;
                },
            }
            i += 1;
        }
        assert(entries.take(i as int) =~= entries);
        Some(read)
    }

    /// Writes the annotations as a record of texts.
    pub fn to_record(&self) -> (value: Value)
        ensures
            value@ == annotations_doc(self@),
            distinct_keys(self@),
    {
        let pairs = self.entries();
        let mut fields: Vec<Field> = Vec::new();
        let mut i: usize = 0;
        while i < pairs.len()
            invariant
                i <= pairs@.len(),
                pairs@.len() == self@.len(),
                forall|j: int| 0 <= j < pairs@.len() ==> (#[trigger] pairs@[j]).0@ == self@[j].0,
                forall|j: int| 0 <= j < pairs@.len() ==> (#[trigger] pairs@[j]).1@ == self@[j].1,
                fields@.len() == i,
                forall|j: int|
                    0 <= j < i ==> (#[trigger] fields@[j])@ == (Entry {
                        name: self@[j].0,
                        value: Doc::Text(self@[j].1),
                    }),
            decreases pairs@.len() - i,
        {
            fields.push(
                Field { name: pairs[i].0.clone(), value: Value::Text(pairs[i].1.clone()) },
            );
            i += 1;
        }
        proof {
            lemma_record_view(fields);
            assert(views(fields@) =~= annotations_doc(self@)->Record_0);
        }
        Value::Record(fields)
    }
}

/// Reads the optional annotations under `name`.
pub fn read_optional_annotations(fields: &Vec<Field>, name: &str) -> (read: Option<
    Option<Annotations>,
>)
    ensures
        match read {
            Some(Some(a)) => optional_annotations_in(views(fields@), name@) == Some(Some(a@)),
            Some(None) => optional_annotations_in(views(fields@), name@) == Some(
                None::<Seq<(Seq<char>, Seq<char>)>>,
            ),
            None => optional_annotations_in(views(fields@), name@) is None,
        },
{
    match find_field(fields, name) {
        Found::Missing => Some(None),
        Found::Once(value) => if value.is_null() {
            Some(None)
        } else {
            match Annotations::from_record(value) {
                Some(a) => Some(Some(a)),
                None => None,
            }
        },
        Found::Repeated => None,
    }
}

/// The content of optional annotations.
pub open spec fn optional_pairs(annotations: Option<Annotations>) -> Option<
    Seq<(Seq<char>, Seq<char>)>,
> {
    match annotations {
        Some(a) => Some(a@),
        None => None,
    }
}

/// Writes optional annotations.
pub fn optional_annotations_value(annotations: &Option<Annotations>) -> (value: Value)
    ensures
        value@ == optional_annotations_doc(optional_pairs(*annotations)),
        distinct_or_none(optional_pairs(*annotations)),
{
    match annotations {
        Some(a) => a.to_record(),
        None => Value::Null,
    }
}

} // verus!
