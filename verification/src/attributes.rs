//! Attribute bags: the key/value lists of the wire format and the flat map made from them.

use crate::text::{str_eq, text_of};
use vstd::prelude::*;

verus! {

/// One attribute of the wire format.
#[derive(Debug)]
pub struct KeyValue {
    pub key: String,
    pub value: AttributeValue,
}

/// The value of an attribute: at most one of the fields is expected to be set.
///
/// `double_value` holds the decimal text of the number, as it is to be stored.
#[derive(Debug)]
pub struct AttributeValue {
    pub string_value: Option<String>,
    pub int_value: Option<String>,
    pub double_value: Option<String>,
    pub bool_value: Option<bool>,
    pub array_value: Option<ArrayValue>,
}

/// An array-valued attribute. Flattening drops it.
#[derive(Debug)]
pub struct ArrayValue {
    pub values: Option<Vec<AttributeValue>>,
}

/// The map that a list of entries stands for: a later entry replaces an earlier one with the
/// same key.
pub open spec fn map_of(entries: Seq<(String, String)>) -> Map<Seq<char>, Seq<char>>
    decreases entries.len(),
{
    if entries.len() == 0 {
        Map::empty()
    } else {
        map_of(entries.drop_last()).insert(entries.last().0@, entries.last().1@)
    }
}

/// No entry has the key: the map does not have it either.
pub proof fn lemma_map_of_absent(entries: Seq<(String, String)>, key: Seq<char>)
    requires
        forall|i: int| 0 <= i < entries.len() ==> (#[trigger] entries[i]).0@ != key,
    ensures
        !map_of(entries).contains_key(key),
    decreases entries.len(),
{
    if entries.len() > 0 {
        lemma_map_of_absent(entries.drop_last(), key);
    }
}

/// The last entry with the key gives the map's value for it.
pub proof fn lemma_map_of_found(entries: Seq<(String, String)>, key: Seq<char>, i: int)
    requires
        0 <= i < entries.len(),
        entries[i].0@ == key,
        forall|j: int| i < j < entries.len() ==> (#[trigger] entries[j]).0@ != key,
    ensures
        map_of(entries).contains_key(key),
        map_of(entries)[key] == entries[i].1@,
    decreases entries.len(),
{
    if i < entries.len() - 1 {
        lemma_map_of_found(entries.drop_last(), key, i);
    }
}

/// The value of `key` in `attrs`, if it has one.
pub open spec fn lookup(attrs: Map<Seq<char>, Seq<char>>, key: Seq<char>) -> Option<Seq<char>> {
    if attrs.contains_key(key) {
        Some(attrs[key])
    } else {
        None
    }
}

/// The value of `first` in `attrs`, or else that of `second`.
pub open spec fn lookup_or(
    attrs: Map<Seq<char>, Seq<char>>,
    first: Seq<char>,
    second: Seq<char>,
) -> Option<Seq<char>> {
    match lookup(attrs, first) {
        Some(v) => Some(v),
        None => lookup(attrs, second),
    }
}

/// Whether no two entries have the same key.
pub open spec fn keys_distinct(entries: Seq<(String, String)>) -> bool {
    forall|i: int, j: int|
        0 <= i < j < entries.len() ==> (#[trigger] entries[i]).0@ != (#[trigger] entries[j]).0@
}

/// Replacing the entry of a key among entries with distinct keys sets the value of the key
/// in the map, and keeps the keys distinct.
pub proof fn lemma_map_of_replace(entries: Seq<(String, String)>, i: int, entry: (String, String))
    requires
        0 <= i < entries.len(),
        keys_distinct(entries),
        entries[i].0@ == entry.0@,
    ensures
        map_of(entries.update(i, entry)) == map_of(entries).insert(entry.0@, entry.1@),
        keys_distinct(entries.update(i, entry)),
    decreases entries.len(),
{
    let rest = entries.drop_last();
    let last = entries.last();
    if i == entries.len() - 1 {
        assert(entries.update(i, entry).drop_last() =~= rest);
        assert(map_of(rest).insert(last.0@, last.1@).insert(entry.0@, entry.1@) =~= map_of(
            rest,
        ).insert(entry.0@, entry.1@));
    } else {
        assert(entries.update(i, entry).drop_last() =~= rest.update(i, entry));
        assert(keys_distinct(rest));
        lemma_map_of_replace(rest, i, entry);
        assert(entries[i].0@ != last.0@);
        assert(map_of(rest).insert(entry.0@, entry.1@).insert(last.0@, last.1@) =~= map_of(
            rest,
        ).insert(last.0@, last.1@).insert(entry.0@, entry.1@));
    }
}

/// A flat map from attribute names to their values as text.
#[derive(Debug, Clone)]
pub struct AttributeMap {
    entries: Vec<(String, String)>,
}

impl View for AttributeMap {
    type V = Map<Seq<char>, Seq<char>>;

    closed spec fn view(&self) -> Map<Seq<char>, Seq<char>> {
        map_of(self.entries@)
    }
}

impl AttributeMap {
    /// The empty map.
    pub fn new() -> (m: Self)
        ensures
            m@ == Map::<Seq<char>, Seq<char>>::empty(),
    {
        AttributeMap { entries: Vec::new() }
    }

    /// Sets the value of `key`, replacing the one it had.
    pub fn insert(&mut self, key: String, value: String)
        ensures
            final(self)@ == old(self)@.insert(key@, value@),
    {
        proof {
            assert(self.entries@.push((key, value)).drop_last() =~= self.entries@);
        }
        self.entries.push((key, value));
    }

    /// The value of `key`, if the map has one.
    pub fn get(&self, key: &str) -> (r: Option<&String>)
        ensures
            match r {
                Some(v) => self@.contains_key(key@) && self@[key@] == v@,
                None => !self@.contains_key(key@),
            },
    {
        let mut i: usize = self.entries.len();
        while i > 0
            invariant
                i <= self.entries.len(),
                forall|j: int|
                    i <= j < self.entries.len() ==> (#[trigger] self.entries@[j]).0@ != key@,
            decreases i,
        {
            i -= 1;
            if str_eq(self.entries[i].0.as_str(), key) {
                proof {
                    lemma_map_of_found(self.entries@, key@, i as int);
                }
                return Some(&self.entries[i].1);
            }
        }
        proof {
            lemma_map_of_absent(self.entries@, key@);
        }
        None
    }

    /// Whether the map has a value for `key`.
    pub fn contains_key(&self, key: &str) -> (b: bool)
        ensures
            b == self@.contains_key(key@),
    {
        self.get(key).is_some()
    }

    /// A copy of the value of `key`, if the map has one.
    pub fn get_cloned(&self, key: &str) -> (r: Option<String>)
        ensures
            text_of(r) == lookup(self@, key@),
    {
        match self.get(key) {
            Some(v) => Some(v.clone()),
            None => None,
        }
    }

    /// A copy of the value of `first`, or else of the value of `second`.
    pub fn get_either(&self, first: &str, second: &str) -> (r: Option<String>)
        ensures
            text_of(r) == lookup_or(self@, first@, second@),
    {
        match self.get_cloned(first) {
            Some(v) => Some(v),
            None => self.get_cloned(second),
        }
    }

    /// A copy of the map.
    pub fn duplicate(&self) -> (m: Self)
        ensures
            m@ == self@,
    {
        let mut entries: Vec<(String, String)> = Vec::new();
        let mut i: usize = 0;
        while i < self.entries.len()
            invariant
                i <= self.entries.len(),
                entries@ == self.entries@.take(i as int),
            decreases self.entries.len() - i,
        {
            let key = self.entries[i].0.clone();
            let value = self.entries[i].1.clone();
            entries.push((key, value));
            i += 1;
        }
        assert(self.entries@.take(self.entries.len() as int) =~= self.entries@);
        AttributeMap { entries }
    }

    /// The entries of the map: one pair of a name and its value for each name, in the
    /// order in which the names were first set.
    pub fn entries(&self) -> (r: Vec<(String, String)>)
        ensures
            map_of(r@) == self@,
            keys_distinct(r@),
    {
        let mut out: Vec<(String, String)> = Vec::new();
        let mut i: usize = 0;
        while i < self.entries.len()
            invariant
                i <= self.entries.len(),
                keys_distinct(out@),
                map_of(out@) == map_of(self.entries@.take(i as int)),
            decreases self.entries.len() - i,
        {
            let key = self.entries[i].0.clone();
            let value = self.entries[i].1.clone();
            proof {
                assert(self.entries@.take(i + 1).drop_last() =~= self.entries@.take(i as int));
            }
            let mut at: usize = 0;
            while at < out.len() && !str_eq(out[at].0.as_str(), key.as_str())
                invariant
                    at <= out.len(),
                    forall|j: int| 0 <= j < at ==> (#[trigger] out@[j]).0@ != key@,
                decreases out.len() - at,
            {
                at += 1;
            }
            if at < out.len() {
                proof {
                    lemma_map_of_replace(out@, at as int, (key, value));
                }
                out.set(at, (key, value));
            } else {
                proof {
                    assert(out@.push((key, value)).drop_last() =~= out@);
                }
                out.push((key, value));
            }
            i += 1;
        }
        proof {
            assert(self.entries@.take(self.entries.len() as int) =~= self.entries@);
        }
        out
    }
}

/// The text that an attribute value flattens to: the first field that is set, in the order
/// string, integer, double, boolean. `None` where none of the four is set.
pub open spec fn flat_value(v: AttributeValue) -> Option<Seq<char>> {
    if let Some(s) = v.string_value {
        Some(s@)
    } else if let Some(s) = v.int_value {
        Some(s@)
    } else if let Some(s) = v.double_value {
        Some(s@)
    } else if let Some(b) = v.bool_value {
        Some(
            if b {
                "true"@
            } else {
                "false"@
            },
        )
    } else {
        None
    }
}

/// The flat map of a list of attributes: entries without a value are skipped, and a later
/// entry replaces an earlier one with the same key.
pub open spec fn flatten(list: Seq<KeyValue>) -> Map<Seq<char>, Seq<char>>
    decreases list.len(),
{
    if list.len() == 0 {
        Map::empty()
    } else {
        let rest = flatten(list.drop_last());
        match flat_value(list.last().value) {
            Some(v) => rest.insert(list.last().key@, v),
            None => rest,
        }
    }
}

/// The flat map of an optional list of attributes; an absent list gives the empty map.
pub open spec fn flatten_opt(attrs: Option<Vec<KeyValue>>) -> Map<Seq<char>, Seq<char>> {
    match attrs {
        Some(list) => flatten(list@),
        None => Map::empty(),
    }
}

/// The text that `v` flattens to, if any of its scalar fields is set.
pub fn flatten_value(v: &AttributeValue) -> (r: Option<String>)
    ensures
        match r {
            Some(s) => flat_value(*v) == Some(s@),
            None => flat_value(*v).is_none(),
        },
{
    if let Some(s) = &v.string_value {
        Some(s.clone())
    } else if let Some(s) = &v.int_value {
        Some(s.clone())
    } else if let Some(s) = &v.double_value {
        Some(s.clone())
    } else if let Some(b) = v.bool_value {
        if b {
            Some("true".to_owned())
        } else {
            Some("false".to_owned())
        }
    } else {
        None
    }
}

/// Flattens a list of attributes into a map from names to text.
pub fn parse_attributes(attrs: &Option<Vec<KeyValue>>) -> (m: AttributeMap)
    ensures
        m@ == flatten_opt(*attrs),
{
    let mut m = AttributeMap::new();
    if let Some(list) = attrs {
        let mut i: usize = 0;
        while i < list.len()
            invariant
                i <= list.len(),
                m@ == flatten(list@.take(i as int)),
            decreases list.len() - i,
        {
            proof {
                assert(list@.take(i + 1).drop_last() =~= list@.take(i as int));
            }
            if let Some(text) = flatten_value(&list[i].value) {
                m.insert(list[i].key.clone(), text);
            }
            i += 1;
        }
        proof {
            assert(list@.take(list.len() as int) =~= list@);
        }
    }
    m
}

} // verus!
