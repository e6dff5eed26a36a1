//! Typed fields: what a record holds under a name, read as the kind of
//! value a setting expects there, and the way back.

use crate::record::{find_field, lemma_list_view, slot, views, Doc, Entry, Field, Found, Slot, Value};
use vstd::prelude::*;

verus! {

/// The text that `entries` must hold under `name`.
pub open spec fn text_in(entries: Seq<Entry>, name: Seq<char>) -> Option<Seq<char>> {
    match slot(entries, name) {
        Slot::Once(Doc::Text(text)) => Some(text),
        _ => None,
    }
}

/// The text that `entries` may hold under `name`. A record that leaves the
/// name out, or binds it to null, holds none; any other value fits no
/// optional text.
pub open spec fn optional_text_in(entries: Seq<Entry>, name: Seq<char>) -> Option<
    Option<Seq<char>>,
> {
    match slot(entries, name) {
        Slot::Missing => Some(None),
        Slot::Once(Doc::Null) => Some(None),
        Slot::Once(Doc::Text(text)) => Some(Some(text)),
        _ => None,
    }
}

/// The texts of a list that holds nothing but texts.
pub open spec fn texts_of(doc: Doc) -> Option<Seq<Seq<char>>> {
    match doc {
        Doc::List(items) => if forall|i: int| 0 <= i < items.len() ==> items[i] is Text {
            Some(Seq::new(items.len(), |i: int| items[i]->Text_0))
        } else {
            None
        },
        _ => None,
    }
}

/// The list of texts that `entries` must hold under `name`.
pub open spec fn texts_in(entries: Seq<Entry>, name: Seq<char>) -> Option<Seq<Seq<char>>> {
    match slot(entries, name) {
        Slot::Once(doc) => texts_of(doc),
        _ => None,
    }
}

/// The list that holds `texts`.
pub open spec fn texts_doc(texts: Seq<Seq<char>>) -> Doc {
    Doc::List(Seq::new(texts.len(), |i: int| Doc::Text(texts[i])))
}

/// The value an optional text is written as.
pub open spec fn optional_text_doc(text: Option<Seq<char>>) -> Doc {
    match text {
        Some(t) => Doc::Text(t),
        None => Doc::Null,
    }
}

/// A list of texts is read back as it was written.
pub proof fn lemma_texts_round_trip(texts: Seq<Seq<char>>)
    ensures
        texts_of(texts_doc(texts)) == Some(texts),
{
}

/// Reads the text under `name`.
pub fn read_text(fields: &Vec<Field>, name: &str) -> (text: Option<String>)
    ensures
        match text {
            Some(t) => text_in(views(fields@), name@) == Some(t@),
            None => text_in(views(fields@), name@) is None,
        },
{
    match find_field(fields, name) {
        Found::Once(value) => match value.as_text() {
            Some(t) => Some(t.clone()),
            None => None,
        },
        _ => None,
    }
}

/// Reads the optional text under `name`.
pub fn read_optional_text(fields: &Vec<Field>, name: &str) -> (text: Option<Option<String>>)
    ensures
        match text {
            Some(Some(t)) => optional_text_in(views(fields@), name@) == Some(Some(t@)),
            Some(None) => optional_text_in(views(fields@), name@) == Some(None::<Seq<char>>),
            None => optional_text_in(views(fields@), name@) is None,
        },
{
    match find_field(fields, name) {
        Found::Missing => Some(None),
        Found::Once(value) => if value.is_null() {
            Some(None)
        } else {
            match value.as_text() {
                Some(t) => Some(Some(t.clone())),
                None => None,
            }
        },
        Found::Repeated => None,
    }
}

/// Reads a list of texts.
pub fn read_texts(value: &Value) -> (texts: Option<Vec<String>>)
    ensures
        match texts {
            Some(list) => texts_of(value@) == Some(views(list@)),
            None => texts_of(value@) is None,
        },
{
    let items = match value.as_list() {
        Some(items) => items,
        None => {
            return None;
        },
    };
    let ghost docs = views(items@);
    let mut list: Vec<String> = Vec::new();
    let mut i: usize = 0;
    while i < items.len()
        invariant
            i <= items@.len(),
            docs == views(items@),
            value@ == Doc::List(docs),
            list@.len() == i,
            forall|j: int| 0 <= j < i ==> #[trigger] docs[j] == Doc::Text(list@[j]@),
        decreases items@.len() - i,
    {
        match items[i].as_text() {
            Some(t) => {
                list.push(t.clone());
            },
            None => {
                assert(!(docs[i as int] is Text));
                return None;
            },
        }
        i += 1;
    }
    Some(list)
}

/// Reads the list of texts under `name`.
pub fn read_texts_in(fields: &Vec<Field>, name: &str) -> (texts: Option<Vec<String>>)
    ensures
        match texts {
            Some(list) => texts_in(views(fields@), name@) == Some(views(list@)),
            None => texts_in(views(fields@), name@) is None,
        },
{
    match find_field(fields, name) {
        Found::Once(value) => read_texts(value),
        _ => None,
    }
}

/// The field called `name` that holds `value`.
pub fn field(name: &str, value: Value) -> (made: Field)
    ensures
        made@ == (Entry { name: name@, value: value@ }),
{
    Field { name: name.to_owned(), value }
}

/// Writes a text.
pub fn text_value(text: &String) -> (value: Value)
    ensures
        value@ == Doc::Text(text@),
{
    Value::Text(text.clone())
}

/// Writes an optional text.
pub fn optional_text_value(text: &Option<String>) -> (value: Value)
    ensures
        value@ == optional_text_doc(
            match *text {
                Some(t) => Some(t@),
                None => None,
            },
        ),
{
    match text {
        Some(t) => Value::Text(t.clone()),
        None => Value::Null,
    }
}

/// Writes a list of texts.
pub fn texts_value(texts: &Vec<String>) -> (value: Value)
    ensures
        value@ == texts_doc(views(texts@)),
{
    let mut items: Vec<Value> = Vec::new();
    let mut i: usize = 0;
    while i < texts.len()
        invariant
            i <= texts@.len(),
            items@.len() == i,
            forall|j: int| 0 <= j < i ==> (#[trigger] items@[j])@ == Doc::Text(texts@[j]@),
        decreases texts@.len() - i,
    {
        items.push(Value::Text(texts[i].clone()));
        i += 1;
    }
    proof {
        lemma_list_view(items);
        assert(views(items@) =~= texts_doc(views(texts@))->List_0);
    }
    Value::List(items)
}

} // verus!
