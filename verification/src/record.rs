//! Structured records: the shape in which a configuration payload reaches
//! the settings once a self-describing format has been parsed.

use crate::text::same_text;
use vstd::prelude::*;

verus! {

/// A parsed payload.
#[derive(Debug, PartialEq, Eq)]
pub enum Value {
    /// Nothing: what a format writes for an absent value.
    Null,
    /// A truth value.
    Bool(bool),
    /// A number. No setting holds one, so its magnitude is not kept.
    Number,
    /// A text.
    Text(String),
    /// Values in order.
    List(Vec<Value>),
    /// Named values in the order of the payload. A name may come twice:
    /// the payload is kept as it was written.
    Record(Vec<Field>),
}

/// One named entry of a record.
#[derive(Debug, PartialEq, Eq)]
pub struct Field {
    pub name: String,
    pub value: Value,
}

/// The mathematical content of a [`Value`].
pub enum Doc {
    Null,
    Bool(bool),
    Number,
    Text(Seq<char>),
    List(Seq<Doc>),
    Record(Seq<Entry>),
}

/// The mathematical content of a [`Field`].
pub struct Entry {
    pub name: Seq<char>,
    pub value: Doc,
}

impl View for Value {
    type V = Doc;

    // Each sequence is built with its bounds in hand, so that the view of
    // an item is asked for only where the item is part of `self`.
    open spec fn view(&self) -> Doc
        decreases self,
    {
        match self {
            Value::Null => Doc::Null,
            Value::Bool(b) => Doc::Bool(*b),
            Value::Number => Doc::Number,
            Value::Text(s) => Doc::Text(s@),
            Value::List(items) => Doc::List(
                Seq::new(
                    items@.len(),
                    |i: int|
                        if 0 <= i < items@.len() {
                            items@[i]@
                        } else {
                            Doc::Null
                        },
                ),
            ),
            Value::Record(fields) => Doc::Record(
                Seq::new(
                    fields@.len(),
                    |i: int|
                        if 0 <= i < fields@.len() {
                            Entry { name: fields@[i].name@, value: fields@[i].value@ }
                        } else {
                            Entry { name: Seq::empty(), value: Doc::Null }
                        },
                ),
            ),
        }
    }
}

impl View for Field {
    type V = Entry;

    open spec fn view(&self) -> Entry {
        Entry { name: self.name@, value: self.value@ }
    }
}

/// The views of the items of a sequence, in the same order.
pub open spec fn views<T: View>(items: Seq<T>) -> Seq<T::V> {
    Seq::new(items.len(), |i: int| items[i]@)
}

/// A list's content is the contents of its items.
pub proof fn lemma_list_view(items: Vec<Value>)
    ensures
        Value::List(items)@ == Doc::List(views(items@)),
{
    assert(Value::List(items)@->List_0 =~= views(items@));
}

/// A record's content is the contents of its fields.
pub proof fn lemma_record_view(fields: Vec<Field>)
    ensures
        Value::Record(fields)@ == Doc::Record(views(fields@)),
{
    assert(Value::Record(fields)@->Record_0 =~= views(fields@));
}

impl Value {
    /// Whether this is the null value.
    pub fn is_null(&self) -> (null: bool)
        ensures
            null == (self@ is Null),
    {
        match self {
            Value::Null => true,
            _ => false,
        }
    }

    /// The truth value this holds, if it is one.
    pub fn as_bool(&self) -> (flag: Option<bool>)
        ensures
            flag == (match self@ {
                Doc::Bool(b) => Some(b),
                _ => None,
            }),
    {
        match self {
            Value::Bool(b) => Some(*b),
            _ => None,
        }
    }

    /// The text this holds, if it is one.
    pub fn as_text(&self) -> (text: Option<&String>)
        ensures
            match text {
                Some(s) => self@ == Doc::Text(s@),
                None => !(self@ is Text),
            },
    {
        match self {
            Value::Text(s) => Some(s),
            _ => None,
        }
    }

    /// The items of this list, if it is one.
    pub fn as_list(&self) -> (list: Option<&Vec<Value>>)
        ensures
            match list {
                Some(items) => self@ == Doc::List(views(items@)),
                None => !(self@ is List),
            },
    {
        match self {
            Value::List(items) => {
                proof {
                    lemma_list_view(*items);
                }
                Some(items)
            },
            _ => None,
        }
    }

    /// The fields of this record, if it is one.
    pub fn as_record(&self) -> (record: Option<&Vec<Field>>)
        ensures
            match record {
                Some(fields) => self@ == Doc::Record(views(fields@)),
                None => !(self@ is Record),
            },
    {
        match self {
            Value::Record(fields) => {
                proof {
                    lemma_record_view(*fields);
                }
                Some(fields)
            },
            _ => None,
        }
    }
}

/// Whether entry `i` of `entries` is called `name`.
pub open spec fn named_at(entries: Seq<Entry>, name: Seq<char>, i: int) -> bool {
    0 <= i < entries.len() && entries[i].name == name
}

/// Whether some entry is called `name`.
pub open spec fn has_field(entries: Seq<Entry>, name: Seq<char>) -> bool {
    exists|i: int| named_at(entries, name, i)
}

/// Whether two entries are called `name`.
pub open spec fn repeated(entries: Seq<Entry>, name: Seq<char>) -> bool {
    exists|i: int, j: int| i != j && named_at(entries, name, i) && named_at(entries, name, j)
}

/// The value of an entry called `name`.
pub open spec fn field_of(entries: Seq<Entry>, name: Seq<char>) -> Doc {
    entries[choose|i: int| named_at(entries, name, i)].value
}

/// What a record holds under one name.
pub enum Slot {
    Missing,
    Once(Doc),
    Repeated,
}

/// What `entries` holds under `name`.
pub open spec fn slot(entries: Seq<Entry>, name: Seq<char>) -> Slot {
    if !has_field(entries, name) {
        Slot::Missing
    } else if repeated(entries, name) {
        Slot::Repeated
    } else {
        Slot::Once(field_of(entries, name))
    }
}

/// A name that one entry carries, and no other, leads to that entry's value.
pub proof fn lemma_slot_once(entries: Seq<Entry>, name: Seq<char>, at: int)
    requires
        named_at(entries, name, at),
        forall|j: int| 0 <= j < entries.len() && j != at ==> (#[trigger] entries[j]).name != name,
    ensures
        slot(entries, name) == Slot::Once(entries[at].value),
{
    assert(named_at(entries, name, choose|i: int| named_at(entries, name, i)));
}

/// A name that no entry carries leads nowhere.
pub proof fn lemma_slot_missing(entries: Seq<Entry>, name: Seq<char>)
    requires
        forall|j: int| 0 <= j < entries.len() ==> (#[trigger] entries[j]).name != name,
    ensures
        slot(entries, name) == Slot::Missing,
{
}

/// An entry added under one name changes nothing under another.
pub proof fn lemma_slot_skips_other_names(entries: Seq<Entry>, extra: Entry, name: Seq<char>)
    requires
        extra.name != name,
    ensures
        slot(entries.push(extra), name) == slot(entries, name),
{
    let longer = entries.push(extra);
    assert forall|i: int| named_at(longer, name, i) == named_at(entries, name, i) by {}
    if !has_field(entries, name) {
        assert forall|j: int| 0 <= j < longer.len() implies
            (#[trigger] longer[j]).name != name
        by {
            assert(!named_at(entries, name, j));
        }
        lemma_slot_missing(longer, name);
    } else if !repeated(entries, name) {
        let at: int = choose|i: int| named_at(entries, name, i);
        assert forall|j: int| 0 <= j < longer.len() && j != at implies
            (#[trigger] longer[j]).name != name
        by {
            if longer[j].name == name {
                assert(named_at(entries, name, j));
            }
        }
        lemma_slot_once(longer, name, at);
    }
}

/// What a search of a record by name found.
pub enum Found<'a> {
    Missing,
    Once(&'a Value),
    Repeated,
}

impl<'a> View for Found<'a> {
    type V = Slot;

    open spec fn view(&self) -> Slot {
        match self {
            Found::Missing => Slot::Missing,
            Found::Once(value) => Slot::Once(value@),
            Found::Repeated => Slot::Repeated,
        }
    }
}

/// Searches `fields` for the name `name`.
pub fn find_field<'a>(fields: &'a Vec<Field>, name: &str) -> (found: Found<'a>)
    ensures
        found@ == slot(views(fields@), name@),
{
    let ghost entries = views(fields@);
    let mut at: Option<usize> = None;
    let mut i: usize = 0;
    while i < fields.len()
        invariant
            i <= fields@.len(),
            entries == views(fields@),
            match at {
                Some(k) => k < i && named_at(entries, name@, k as int) && forall|j: int|
                    0 <= j < i && named_at(entries, name@, j) ==> j == k,
                None => forall|j: int| 0 <= j < i ==> !named_at(entries, name@, j),
            },
        decreases fields@.len() - i,
    {
        if same_text(fields[i].name.as_str(), name) {
            assert(named_at(entries, name@, i as int));
            match at {
                Some(_) => {
                    return Found::Repeated;
                },
                None => {
                    at = Some(i);
                },
            }
        }
        i += 1;
    }
    match at {
        Some(k) => Found::Once(&fields[k].value),
        None => Found::Missing,
    }
}

} // verus!
