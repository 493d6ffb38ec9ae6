//! The structured values that flow along a graph's data edges, and the
//! records (port name to value) that nodes consume and produce.
//!
//! A value is either one of the primitives the engine itself inspects or
//! writes (null, booleans, integers, text) or an opaque JSON document kept
//! as its serialized text. The engine never looks inside the opaque form;
//! it only moves it between nodes.

use vstd::prelude::*;
use crate::text::str_eq;

verus! {

/// Mathematical model of a `Value`.
pub enum SpecValue {
    Null,
    Bool(bool),
    Int(int),
    Text(Seq<char>),
    Json(Seq<char>),
}

/// A structured data value carried on a data edge.
#[derive(Debug, PartialEq, Eq)]
pub enum Value {
    /// An empty / undefined value.
    Null,
    /// A boolean.
    Bool(bool),
    /// An integer number.
    Int(i64),
    /// A piece of text.
    Text(String),
    /// Any richer JSON document, kept as its serialized text and never
    /// inspected by the engine.
    Json(String),
}

impl View for Value {
    type V = SpecValue;

    open spec fn view(&self) -> SpecValue {
        match self {
            Value::Null => SpecValue::Null,
            Value::Bool(b) => SpecValue::Bool(*b),
            Value::Int(i) => SpecValue::Int(*i as int),
            Value::Text(s) => SpecValue::Text(s@),
            Value::Json(s) => SpecValue::Json(s@),
        }
    }
}

impl Clone for Value {
    fn clone(&self) -> (res: Self)
        ensures
            res@ == self@,
    {
        match self {
            Value::Null => Value::Null,
            Value::Bool(b) => Value::Bool(*b),
            Value::Int(i) => Value::Int(*i),
            Value::Text(s) => Value::Text(s.clone()),
            Value::Json(s) => Value::Json(s.clone()),
        }
    }
}

/// The map described by an association list, later entries winning over
/// earlier ones with the same key, as repeated insertion would leave it.
pub open spec fn assoc_map(s: Seq<(String, Value)>) -> Map<Seq<char>, SpecValue>
    decreases s.len(),
{
    if s.len() == 0 {
        Map::empty()
    } else {
        assoc_map(s.drop_last()).insert(s.last().0@, s.last().1@)
    }
}

/// A record mapping port names to values: the inputs gathered for a node,
/// or the outputs one produced. Kept as the list of insertions; its view
/// is the resulting map, where the latest entry for a key wins.
#[derive(Debug)]
pub struct Record {
    pub entries: Vec<(String, Value)>,
}

impl View for Record {
    type V = Map<Seq<char>, SpecValue>;

    open spec fn view(&self) -> Map<Seq<char>, SpecValue> {
        assoc_map(self.entries@)
    }
}

proof fn lemma_assoc_map_found(s: Seq<(String, Value)>, k: Seq<char>, j: int)
    requires
        0 <= j < s.len(),
        s[j].0@ == k,
        forall|l: int| j < l < s.len() ==> s[l].0@ != k,
    ensures
        assoc_map(s).contains_key(k),
        assoc_map(s)[k] == s[j].1@,
    decreases s.len(),
{
    if j < s.len() - 1 {
        lemma_assoc_map_found(s.drop_last(), k, j);
    }
}

proof fn lemma_assoc_map_absent(s: Seq<(String, Value)>, k: Seq<char>)
    requires
        forall|l: int| 0 <= l < s.len() ==> s[l].0@ != k,
    ensures
        !assoc_map(s).contains_key(k),
    decreases s.len(),
{
    if s.len() > 0 {
        lemma_assoc_map_absent(s.drop_last(), k);
    }
}

impl Record {
    /// An empty record.
    pub fn new() -> (r: Record)
        ensures
            r@ == Map::<Seq<char>, SpecValue>::empty(),
    {
        Record { entries: Vec::new() }
    }

    /// Bind `key` to `value`, shadowing any earlier binding of the key.
    pub fn insert(&mut self, key: String, value: Value)
        ensures
            final(self)@ == old(self)@.insert(key@, value@),
    {
        self.entries.push((key, value));
        proof {
            assert(self.entries@.drop_last() =~= old(self).entries@);
        }
    }

    /// Look the key up; the latest binding wins.
    pub fn get(&self, key: &str) -> (r: Option<&Value>)
        ensures
            match r {
                Some(v) => self@.contains_key(key@) && v@ == self@[key@],
                None => !self@.contains_key(key@),
            },
    {
        let mut i: usize = self.entries.len();
        while i > 0
            invariant
                i <= self.entries.len(),
                forall|l: int| i <= l < self.entries@.len() ==> self.entries@[l].0@ != key@,
            decreases i,
        {
            i = i - 1;
            if str_eq(self.entries[i].0.as_str(), key) {
                proof {
                    lemma_assoc_map_found(self.entries@, key@, i as int);
                }
                return Some(&self.entries[i].1);
            }
        }
        proof {
            lemma_assoc_map_absent(self.entries@, key@);
        }
        None
    }
}

} // verus!
