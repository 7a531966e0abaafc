//! Named call parameters (the members of a JSON object), reduced to what
//! the tools and offload handlers read of them.
use vstd::prelude::*;
use crate::text::str_eq;

verus! {

/// One parameter value of a tool call, as far as the tools read it.
#[derive(Debug, Clone)]
pub enum ParamValue {
    Str(String),
    Bool(bool),
    /// A whole number from 0 to `u64::MAX`.
    Int(u64),
    /// Any other number (negative or fractional).
    Num,
    /// Anything else (null, an array, an object).
    Other,
}

/// Named parameters, as a JSON object carries them to a tool or a handler.
#[derive(Debug, Clone)]
pub struct Params {
    pub entries: Vec<(String, ParamValue)>,
}

/// The value of the first parameter named `key`.
pub open spec fn lookup(es: Seq<(String, ParamValue)>, key: Seq<char>) -> Option<ParamValue>
    decreases es.len(),
{
    if es.len() == 0 {
        None
    } else if es[0].0@ == key {
        Some(es[0].1)
    } else {
        lookup(es.drop_first(), key)
    }
}

/// The parameter `key` when it is a string.
pub open spec fn str_param(es: Seq<(String, ParamValue)>, key: Seq<char>) -> Option<Seq<char>> {
    match lookup(es, key) {
        Some(ParamValue::Str(s)) => Some(s@),
        _ => None,
    }
}

/// The parameter `key` when it is a boolean.
pub open spec fn bool_param(es: Seq<(String, ParamValue)>, key: Seq<char>) -> Option<bool> {
    match lookup(es, key) {
        Some(ParamValue::Bool(b)) => Some(b),
        _ => None,
    }
}

/// A boolean parameter, or `default` when it is absent or not a boolean.
pub open spec fn bool_or(es: Seq<(String, ParamValue)>, key: Seq<char>, default: bool) -> bool {
    match bool_param(es, key) {
        Some(b) => b,
        None => default,
    }
}

/// A string parameter, or the empty text when it is absent or not a string.
pub open spec fn str_or_empty(es: Seq<(String, ParamValue)>, key: Seq<char>) -> Seq<char> {
    match str_param(es, key) {
        Some(s) => s,
        None => Seq::empty(),
    }
}

/// The parameter `key` when it is a whole number that fits in a `u64`.
pub open spec fn u64_param(es: Seq<(String, ParamValue)>, key: Seq<char>) -> Option<u64> {
    match lookup(es, key) {
        Some(ParamValue::Int(n)) => Some(n),
        _ => None,
    }
}

/// Whether the parameter `key` is a number.
pub open spec fn is_number(es: Seq<(String, ParamValue)>, key: Seq<char>) -> bool {
    match lookup(es, key) {
        Some(ParamValue::Int(_)) => true,
        Some(ParamValue::Num) => true,
        _ => false,
    }
}

/// Looking up in a list with one more entry at the end finds what the
/// list had, else the new entry when its name matches.
pub proof fn lemma_lookup_push(es: Seq<(String, ParamValue)>, e: (String, ParamValue), key: Seq<char>)
    ensures
        lookup(es.push(e), key) == (if lookup(es, key) is Some {
            lookup(es, key)
        } else if e.0@ == key {
            Some(e.1)
        } else {
            None
        }),
    decreases es.len(),
{
    let t = es.push(e);
    if es.len() > 0 {
        assert(t[0] == es[0]);
        assert(t.drop_first() =~= es.drop_first().push(e));
        lemma_lookup_push(es.drop_first(), e, key);
    } else {
        assert(t[0] == e);
        let empty = Seq::<(String, ParamValue)>::empty();
        assert(t.drop_first() =~= empty);
        assert(lookup(empty, key) is None);
    }
}

impl Params {
    /// Where the first parameter named `key` stands.
    fn position(&self, key: &str) -> (r: Option<usize>)
        ensures
            match r {
                Some(i) => i < self.entries@.len() && lookup(self.entries@, key@) == Some(
                    self.entries@[i as int].1,
                ),
                None => lookup(self.entries@, key@) is None,
            },
    {
        let ghost es = self.entries@;
        let mut i: usize = 0;
        assert(es.skip(0) =~= es);
        while i < self.entries.len()
            invariant
                es == self.entries@,
                i <= es.len(),
                lookup(es, key@) == lookup(es.skip(i as int), key@),
            decreases es.len() - i,
        {
            assert(es.skip(i as int).drop_first() =~= es.skip(i + 1));
            assert(es.skip(i as int)[0] == es[i as int]);
            if str_eq(self.entries[i].0.as_str(), key) {
                return Some(i);
            }
            i = i + 1;
        }
        None
    }

    /// The parameter `key` when it is a string.
    pub fn get_str(&self, key: &str) -> (r: Option<String>)
        ensures
            match r {
                Some(s) => str_param(self.entries@, key@) == Some(s@),
                None => str_param(self.entries@, key@) is None,
            },
    {
        match self.position(key) {
            Some(i) => match &self.entries[i].1 {
                ParamValue::Str(s) => Some(s.clone()),
                _ => None,
            },
            None => None,
        }
    }

    /// The parameter `key` when it is a boolean.
    pub fn get_bool(&self, key: &str) -> (r: Option<bool>)
        ensures
            r == bool_param(self.entries@, key@),
    {
        match self.position(key) {
            Some(i) => match &self.entries[i].1 {
                ParamValue::Bool(b) => Some(*b),
                _ => None,
            },
            None => None,
        }
    }

    /// A boolean parameter, or `default` when it is absent or not a boolean.
    pub fn bool_or(&self, key: &str, default: bool) -> (r: bool)
        ensures
            r == bool_or(self.entries@, key@, default),
    {
        match self.get_bool(key) {
            Some(b) => b,
            None => default,
        }
    }

    /// The parameter `key` when it is a whole number that fits in a `u64`.
    pub fn get_u64(&self, key: &str) -> (r: Option<u64>)
        ensures
            r == u64_param(self.entries@, key@),
    {
        match self.position(key) {
            Some(i) => match &self.entries[i].1 {
                ParamValue::Int(n) => Some(*n),
                _ => None,
            },
            None => None,
        }
    }

    /// Whether the parameter `key` is present at all.
    pub fn has(&self, key: &str) -> (r: bool)
        ensures
            r == (lookup(self.entries@, key@) is Some),
    {
        self.position(key).is_some()
    }

    /// Whether the parameter `key` is a number.
    pub fn has_number(&self, key: &str) -> (r: bool)
        ensures
            r == is_number(self.entries@, key@),
    {
        match self.position(key) {
            Some(i) => match &self.entries[i].1 {
                ParamValue::Int(_) => true,
                ParamValue::Num => true,
                _ => false,
            },
            None => false,
        }
    }
}

} // verus!
