//! Decoded card data: a structured value and lenient accessors over it.

use vstd::prelude::*;
use crate::text::same_text;

verus! {

/// A decoded value. A number is kept as its decimal text.
#[derive(Debug, PartialEq, Eq)]
pub enum Value {
    Null,
    Bool(bool),
    Number(String),
    String(String),
    Sequence(Vec<Value>),
    Mapping(Vec<Entry>),
}

/// One field of a mapping.
#[derive(Debug, PartialEq, Eq)]
pub struct Entry {
    pub key: String,
    pub value: Value,
}

/// What a `Value` holds, as mathematical data.
pub ghost enum Data {
    Null,
    Bool(bool),
    Number(Seq<char>),
    String(Seq<char>),
    Sequence(Seq<Data>),
    Mapping(Seq<Field>),
}

/// One field of a mapping, as mathematical data.
pub ghost struct Field {
    pub key: Seq<char>,
    pub value: Data,
}

impl View for Value {
    type V = Data;

    open spec fn view(&self) -> Data
        decreases self,
    {
        match self {
            Value::Null => Data::Null,
            Value::Bool(b) => Data::Bool(*b),
            Value::Number(n) => Data::Number(n@),
            Value::String(s) => Data::String(s@),
            Value::Sequence(items) => Data::Sequence(
                Seq::new(
                    items@.len(),
                    |i: int|
                        if 0 <= i < items@.len() {
                            items@[i]@
                        } else {
                            Data::Null
                        },
                ),
            ),
            Value::Mapping(entries) => Data::Mapping(
                Seq::new(
                    entries@.len(),
                    |i: int|
                        if 0 <= i < entries@.len() {
                            Field { key: entries@[i].key@, value: entries@[i].value@ }
                        } else {
                            Field { key: Seq::empty(), value: Data::Null }
                        },
                ),
            ),
        }
    }
}

/// The value of the first entry under `key`, if any.
pub open spec fn lookup(entries: Seq<Field>, key: Seq<char>) -> Option<Data>
    decreases entries.len(),
{
    if entries.len() == 0 {
        None
    } else if entries[0].key == key {
        Some(entries[0].value)
    } else {
        lookup(entries.skip(1), key)
    }
}

impl Data {
    /// The field `key` of a mapping; `None` for a missing field and for
    /// anything that is not a mapping.
    pub open spec fn field(self, key: Seq<char>) -> Option<Data> {
        match self {
            Data::Mapping(entries) => lookup(entries, key),
            _ => None,
        }
    }

    /// The text of a string value.
    pub open spec fn text(self) -> Option<Seq<char>> {
        match self {
            Data::String(s) => Some(s),
            _ => None,
        }
    }

    /// The truth value of a boolean value.
    pub open spec fn truth(self) -> Option<bool> {
        match self {
            Data::Bool(b) => Some(b),
            _ => None,
        }
    }

    /// The field `key` as text, if it is there and is a string.
    pub open spec fn text_field(self, key: Seq<char>) -> Option<Seq<char>> {
        match self.field(key) {
            Some(v) => v.text(),
            None => None,
        }
    }

    /// The field `key` as a truth value, or `default` where the field is
    /// missing or is no boolean.
    pub open spec fn truth_field_or(self, key: Seq<char>, default: bool) -> bool {
        match self.field(key) {
            Some(Data::Bool(b)) => b,
            _ => default,
        }
    }
}

impl Value {
    /// The truth value of a boolean value.
    pub fn as_bool(&self) -> (r: Option<bool>)
        ensures
            r == self@.truth(),
    {
        match self {
            Value::Bool(b) => Some(*b),
            _ => None,
        }
    }

    /// The text of a string value.
    pub fn as_str(&self) -> (r: Option<&str>)
        ensures
            match r {
                Some(s) => self@.text() == Some(s@),
                None => self@.text() is None,
            },
    {
        match self {
            Value::String(s) => Some(s.as_str()),
            _ => None,
        }
    }

    /// The field `key` of a mapping: the value of the first entry under
    /// that key.
    pub fn get(&self, key: &str) -> (r: Option<&Value>)
        ensures
            match r {
                Some(v) => self@.field(key@) == Some(v@),
                None => self@.field(key@) is None,
            },
    {
        match self {
            Value::Mapping(entries) => {
                let ghost all = self@->Mapping_0;
                let mut i: usize = 0;
                assert(all.skip(0) =~= all);
                while i < entries.len()
                    invariant
                        i <= entries.len(),
                        all.len() == entries@.len(),
                        forall|j: int|
                            0 <= j < entries@.len() ==> #[trigger] all[j] == (Field {
                                key: entries@[j].key@,
                                value: entries@[j].value@,
                            }),
                        self@.field(key@) == lookup(all.skip(i as int), key@),
                    decreases entries.len() - i,
                {
                    assert(all.skip(i as int)[0] == all[i as int]);
                    if same_text(entries[i].key.as_str(), key) {
                        return Some(&entries[i].value);
                    }
                    assert(all.skip(i as int).skip(1) =~= all.skip(i + 1));
                    i += 1;
                }
                None
            },
            _ => None,
        }
    }

    /// The field `key` as text, if it is there and is a string.
    pub fn get_str(&self, key: &str) -> (r: Option<&str>)
        ensures
            match r {
                Some(s) => self@.text_field(key@) == Some(s@),
                None => self@.text_field(key@) is None,
            },
    {
        match self.get(key) {
            Some(v) => v.as_str(),
            None => None,
        }
    }

    /// The field `key` as a truth value, or `default` where the field is
    /// missing or is no boolean.
    pub fn get_bool_or(&self, key: &str, default: bool) -> (r: bool)
        ensures
            r == self@.truth_field_or(key@, default),
    {
        match self.get(key) {
            Some(v) => match v.as_bool() {
                Some(b) => b,
                None => default,
            },
            None => default,
        }
    }
}

impl Clone for Value {
    /// A deep copy: it holds the same data.
    fn clone(&self) -> (r: Self)
        ensures
            r@ == self@,
    {
        self.duplicate()
    }
}

impl Value {
    /// A deep copy: it holds the same data.
    pub fn duplicate(&self) -> (r: Self)
        ensures
            r@ == self@,
        decreases self,
    {
        match self {
            Value::Null => Value::Null,
            Value::Bool(b) => Value::Bool(*b),
            Value::Number(n) => Value::Number(n.clone()),
            Value::String(s) => Value::String(s.clone()),
            Value::Sequence(items) => {
                let mut out: Vec<Value> = Vec::new();
                let mut i: usize = 0;
                while i < items.len()
                    invariant
                        i <= items.len(),
                        out@.len() == i,
                        *self == Value::Sequence(*items),
                        forall|j: int| 0 <= j < i ==> (#[trigger] out@[j])@ == items@[j]@,
                    decreases items.len() - i,
                {
                    assert(decreases_to!(*self => self->Sequence_0));
                    assert(decreases_to!(*items => items[i as int]));
                    out.push(items[i].duplicate());
                    i += 1;
                }
                let r = Value::Sequence(out);
                assert(r@->Sequence_0 =~= self@->Sequence_0);
                r
            },
            Value::Mapping(entries) => {
                let mut out: Vec<Entry> = Vec::new();
                let mut i: usize = 0;
                while i < entries.len()
                    invariant
                        i <= entries.len(),
                        out@.len() == i,
                        *self == Value::Mapping(*entries),
                        forall|j: int|
                            0 <= j < i ==> (#[trigger] out@[j]).key@ == entries@[j].key@
                                && out@[j].value@ == entries@[j].value@,
                    decreases entries.len() - i,
                {
                    assert(decreases_to!(*self => self->Mapping_0));
                    assert(decreases_to!(*entries => entries[i as int]));
                    assert(decreases_to!(entries[i as int] => entries[i as int].value));
                    let entry = &entries[i];
                    out.push(Entry { key: entry.key.clone(), value: entry.value.duplicate() });
                    i += 1;
                }
                let r = Value::Mapping(out);
                assert(r@->Mapping_0 =~= self@->Mapping_0);
                r
            },
        }
    }
}

} // verus!
