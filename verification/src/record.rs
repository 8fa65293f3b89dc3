use vstd::prelude::*;
use crate::errors::Error;
use crate::options::{lookup, lookup_from};

verus! {

/// A field value in a storage document: text or an unsigned number.
pub enum Value {
    Text(String),
    Num(u64),
}

/// Spec-level mirror of `Value`.
pub ghost enum ValueV {
    Text(Seq<char>),
    Num(u64),
}

impl View for Value {
    type V = ValueV;

    open spec fn view(&self) -> ValueV {
        match self {
            Value::Text(s) => ValueV::Text(s@),
            Value::Num(t) => ValueV::Num(*t),
        }
    }
}

impl Clone for Value {
    fn clone(&self) -> (r: Self)
        ensures
            r == *self,
    {
        match self {
            Value::Text(s) => Value::Text(s.clone()),
            Value::Num(t) => Value::Num(*t),
        }
    }
}

/// One named field of a storage document.
pub struct Field {
    pub name: String,
    pub value: Value,
}

impl Clone for Field {
    fn clone(&self) -> (r: Self)
        ensures
            r.name@ == self.name@,
            r.value == self.value,
    {
        Field { name: self.name.clone(), value: self.value.clone() }
    }
}

/// A storage document: an ordered sequence of named fields.
///
/// This is the shape in which records are persisted; a record document
/// carries exactly the fields `time`, `key` and `value`.
pub struct Document {
    pub entries: Vec<Field>,
}

impl View for Document {
    type V = Seq<(Seq<char>, ValueV)>;

    open spec fn view(&self) -> Seq<(Seq<char>, ValueV)> {
        Seq::new(self.entries@.len(), |i: int| (self.entries@[i].name@, self.entries@[i].value@))
    }
}

impl Clone for Document {
    fn clone(&self) -> (r: Self)
        ensures
            r@ == self@,
    {
        let mut entries: Vec<Field> = Vec::new();
        let mut i: usize = 0;
        while i < self.entries.len()
            invariant
                i <= self.entries@.len(),
                entries@.len() == i,
                forall|j: int| 0 <= j < i ==> #[trigger] entries@[j].name@ == self.entries@[j].name@
                    && entries@[j].value == self.entries@[j].value,
            decreases self.entries@.len() - i,
        {
            entries.push(self.entries[i].clone());
            i += 1;
        }
        let r = Document { entries };
        proof {
            assert(r@ =~= self@);
        }
        r
    }
}

impl Document {
    pub fn new() -> (d: Self)
        ensures
            d@ == Seq::<(Seq<char>, ValueV)>::empty(),
    {
        let d = Document { entries: Vec::new() };
        proof {
            assert(d@ =~= Seq::<(Seq<char>, ValueV)>::empty());
        }
        d
    }

    pub fn insert(&mut self, name: &str, value: Value)
        ensures
            final(self)@ == old(self)@.push((name@, value@)),
    {
        let ghost v = value@;
        self.entries.push(Field { name: name.to_owned(), value });
        proof {
            assert(self@ =~= old(self)@.push((name@, v)));
        }
    }

    /// The first field named `name`, if it exists and holds text.
    pub fn get_str(&self, name: &str) -> (r: Option<&String>)
        ensures
            match lookup(self@, name@) {
                Some(v) => match v {
                    ValueV::Text(s) => r matches Some(t) && t@ == s,
                    ValueV::Num(_) => r is None,
                },
                None => r is None,
            },
    {
        let n = name.to_owned();
        let mut i: usize = 0;
        while i < self.entries.len()
            invariant
                n@ == name@,
                i <= self.entries@.len(),
                lookup(self@, name@) == lookup_from(self@, name@, i as int),
            decreases self.entries@.len() - i,
        {
            if n == self.entries[i].name {
                return match &self.entries[i].value {
                    Value::Text(s) => Some(s),
                    Value::Num(_) => None,
                };
            }
            i += 1;
        }
        None
    }

    /// The first field named `name`, if it exists and holds a number.
    pub fn get_u64(&self, name: &str) -> (r: Option<u64>)
        ensures
            match lookup(self@, name@) {
                Some(v) => match v {
                    ValueV::Num(t) => r == Some(t),
                    ValueV::Text(_) => r is None,
                },
                None => r is None,
            },
    {
        let n = name.to_owned();
        let mut i: usize = 0;
        while i < self.entries.len()
            invariant
                n@ == name@,
                i <= self.entries@.len(),
                lookup(self@, name@) == lookup_from(self@, name@, i as int),
            decreases self.entries@.len() - i,
        {
            if n == self.entries[i].name {
                return match &self.entries[i].value {
                    Value::Num(t) => Some(*t),
                    Value::Text(_) => None,
                };
            }
            i += 1;
        }
        None
    }

    /// Decodes a storage document back into a record.
    ///
    /// A document missing one of the three record fields, or carrying one
    /// with the wrong shape, is undecodable: that is a storage failure, and
    /// the caller must treat it as fatal for the whole retrieval.
    pub fn to_message(&self) -> (r: Result<Message, Error>)
        ensures
            match spec_to_message(self@) {
                Some(mv) => r matches Ok(m) && m@ == mv,
                None => r == Err::<Message, Error>(Error::StorageFailure),
            },
    {
        let key = match self.get_str("key") {
            Some(s) => s.clone(),
            None => {
                return Err(Error::StorageFailure);
            },
        };
        let value = match self.get_str("value") {
            Some(s) => s.clone(),
            None => {
                return Err(Error::StorageFailure);
            },
        };
        let time = match self.get_u64("time") {
            Some(t) => t,
            None => {
                return Err(Error::StorageFailure);
            },
        };
        Ok(Message { key, value, time })
    }
}

/// A stored record: a `(key, value, time)` triple.
///
/// Records are created only at ingestion time and are immutable thereafter.
pub struct Message {
    pub key: String,
    pub value: String,
    pub time: u64,
}

/// Spec-level mirror of `Message`.
pub ghost struct MessageV {
    pub key: Seq<char>,
    pub value: Seq<char>,
    pub time: u64,
}

impl View for Message {
    type V = MessageV;

    open spec fn view(&self) -> MessageV {
        MessageV { key: self.key@, value: self.value@, time: self.time }
    }
}

/// The storage form of the record `(key, value, time)`: a document holding
/// exactly the fields `time`, `key` and `value`, in that order.
pub open spec fn doc_of(key: Seq<char>, value: Seq<char>, time: u64) -> Seq<(Seq<char>, ValueV)> {
    seq![
        ("time"@, ValueV::Num(time)),
        ("key"@, ValueV::Text(key)),
        ("value"@, ValueV::Text(value)),
    ]
}

/// The record a storage document decodes to, if it decodes at all.
pub open spec fn spec_to_message(d: Seq<(Seq<char>, ValueV)>) -> Option<MessageV> {
    match lookup(d, "key"@) {
        Some(kv) => match kv {
            ValueV::Text(k) => match lookup(d, "value"@) {
                Some(vv) => match vv {
                    ValueV::Text(v) => match lookup(d, "time"@) {
                        Some(tv) => match tv {
                            ValueV::Num(t) => Some(MessageV { key: k, value: v, time: t }),
                            ValueV::Text(_) => None,
                        },
                        None => None,
                    },
                    ValueV::Num(_) => None,
                },
                None => None,
            },
            ValueV::Num(_) => None,
        },
        None => None,
    }
}

impl Message {
    /// Serializes the record to its storage form.
    pub fn to_document(&self) -> (d: Document)
        ensures
            d@ == doc_of(self.key@, self.value@, self.time),
    {
        let mut d = Document::new();
        d.insert("time", Value::Num(self.time));
        d.insert("key", Value::Text(self.key.clone()));
        d.insert("value", Value::Text(self.value.clone()));
        proof {
            assert(d@ =~= doc_of(self.key@, self.value@, self.time));
        }
        d
    }
}

/// A record's storage form carries exactly the record's three fields under
/// their three distinct names.
pub proof fn lemma_doc_of_fields(key: Seq<char>, value: Seq<char>, time: u64)
    ensures
        lookup(doc_of(key, value, time), "key"@) == Some(ValueV::Text(key)),
        lookup(doc_of(key, value, time), "value"@) == Some(ValueV::Text(value)),
        lookup(doc_of(key, value, time), "time"@) == Some(ValueV::Num(time)),
{
    reveal_strlit("time");
    reveal_strlit("key");
    reveal_strlit("value");
    let d = doc_of(key, value, time);
    // The three field names differ already in length.
    assert("time"@.len() == 4);
    assert("key"@.len() == 3);
    assert("value"@.len() == 5);
    assert(lookup(d, "key"@) == Some(ValueV::Text(key))) by {
        reveal_with_fuel(lookup_from, 4);
    }
    assert(lookup(d, "value"@) == Some(ValueV::Text(value))) by {
        reveal_with_fuel(lookup_from, 4);
    }
    assert(lookup(d, "time"@) == Some(ValueV::Num(time))) by {
        reveal_with_fuel(lookup_from, 4);
    }
}

/// Serializing a record to its storage form and decoding it back yields the
/// record unchanged, in all three fields.
pub proof fn lemma_round_trip(key: Seq<char>, value: Seq<char>, time: u64)
    ensures
        spec_to_message(doc_of(key, value, time)) == Some(MessageV { key, value, time }),
{
    lemma_doc_of_fields(key, value, time);
}

} // verus!
