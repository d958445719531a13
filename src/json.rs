//! A JSON value as a tree, with lookups that tolerate absent keys, short
//! arrays and values of the wrong kind.

use vstd::prelude::*;

verus! {

/// A JSON value.
#[derive(Debug)]
pub enum Json {
    Null,
    Bool(bool),
    /// A number, held as its JSON text (`300`, `72.0`, `-1`).
    Number(String),
    Str(String),
    Array(Vec<Json>),
    /// An object's entries, in their order.
    Object(Vec<(String, Json)>),
}

/// The value of the first entry under `key`, if any.
pub open spec fn entry_for(entries: Seq<(String, Json)>, key: Seq<char>) -> Option<Json>
    decreases entries.len(),
{
    if entries.len() == 0 {
        None
    } else if entries[0].0@ == key {
        Some(entries[0].1)
    } else {
        entry_for(entries.drop_first(), key)
    }
}

/// `a` comes strictly before `b` in lexicographic order by code point, the
/// order of `String`'s `Ord`.
pub open spec fn key_lt(a: Seq<char>, b: Seq<char>) -> bool
    decreases a.len(),
{
    if a.len() == 0 {
        b.len() > 0
    } else if b.len() == 0 {
        false
    } else if a[0] != b[0] {
        (a[0] as u32) < (b[0] as u32)
    } else {
        key_lt(a.drop_first(), b.drop_first())
    }
}

/// The order on keys is transitive.
pub proof fn lemma_key_lt_transitive(a: Seq<char>, b: Seq<char>, c: Seq<char>)
    requires
        key_lt(a, b),
        key_lt(b, c),
    ensures
        key_lt(a, c),
    decreases a.len(),
{
    if a.len() > 0 && b.len() > 0 && c.len() > 0 && a[0] == b[0] && b[0] == c[0] {
        lemma_key_lt_transitive(a.drop_first(), b.drop_first(), c.drop_first());
    }
}

/// No key comes before itself.
pub proof fn lemma_key_lt_irreflexive(a: Seq<char>)
    ensures
        !key_lt(a, a),
    decreases a.len(),
{
    if a.len() > 0 {
        lemma_key_lt_irreflexive(a.drop_first());
    }
}

/// The keys of `entries` strictly ascend, so no key occurs twice.
pub open spec fn keys_ascending(entries: Seq<(String, Json)>) -> bool {
    forall|i: int, j: int| 0 <= i < j < entries.len() ==> key_lt(entries[i].0@, entries[j].0@)
}

/// Whether `a` comes strictly before `b` by code point.
pub fn key_less(a: &String, b: &String) -> (r: bool)
    ensures
        r == key_lt(a@, b@),
{
    let sa = a.as_str();
    let sb = b.as_str();
    let la = sa.unicode_len();
    let lb = sb.unicode_len();
    let mut i: usize = 0;
    assert(a@.subrange(0, la as int) =~= a@);
    assert(b@.subrange(0, lb as int) =~= b@);
    while i < la && i < lb
        invariant
            0 <= i <= la,
            i <= lb,
            la == a@.len(),
            lb == b@.len(),
            sa@ == a@,
            sb@ == b@,
            key_lt(a@, b@) == key_lt(a@.subrange(i as int, la as int), b@.subrange(i as int, lb as int)),
        decreases la - i,
    {
        let ca = sa.get_char(i);
        let cb = sb.get_char(i);
        assert(a@.subrange(i as int, la as int)[0] == ca);
        assert(b@.subrange(i as int, lb as int)[0] == cb);
        if ca != cb {
            return (ca as u32) < (cb as u32);
        }
        assert(a@.subrange(i as int, la as int).drop_first() =~= a@.subrange(i + 1, la as int));
        assert(b@.subrange(i as int, lb as int).drop_first() =~= b@.subrange(i + 1, lb as int));
        i += 1;
    }
    i < lb
}

impl Json {
    /// Every object in the value, at any depth, has strictly ascending keys,
    /// as serde_json's map keeps them.
    pub open spec fn wf(self) -> bool
        decreases self,
    {
        match self {
            Json::Array(items) => forall|i: int| 0 <= i < items@.len() ==> (#[trigger] items@[i]).wf(),
            Json::Object(entries) => keys_ascending(entries@) && forall|i: int|
                0 <= i < entries@.len() ==> (#[trigger] entries@[i]).1.wf(),
            _ => true,
        }
    }

    /// Whether every object in the value has strictly ascending keys.
    pub fn is_wf(&self) -> (r: bool)
        ensures
            r == self.wf(),
        decreases self,
    {
        match self {
            Json::Array(items) => {
                let mut i: usize = 0;
                while i < items.len()
                    invariant
                        0 <= i <= items@.len(),
                        self.wf() == forall|k: int| 0 <= k < items@.len() ==> (#[trigger] items@[k]).wf(),
                        forall|k: int| 0 <= k < i ==> (#[trigger] items@[k]).wf(),
                        decreases_to!(*self => items@),
                    decreases items.len() - i,
                {
                    assert(decreases_to!(*self => items@[i as int]));
                    if !items[i].is_wf() {
                        return false;
                    }
                    i += 1;
                }
                true
            },
            Json::Object(entries) => {
                let mut i: usize = 0;
                while i < entries.len()
                    invariant
                        0 <= i <= entries@.len(),
                        self.wf() == (keys_ascending(entries@) && forall|k: int|
                            0 <= k < entries@.len() ==> (#[trigger] entries@[k]).1.wf()),
                        keys_ascending(entries@.subrange(0, i as int)),
                        forall|k: int| 0 <= k < i ==> (#[trigger] entries@[k]).1.wf(),
                        decreases_to!(*self => entries@),
                    decreases entries.len() - i,
                {
                    if i > 0 && !key_less(&entries[i - 1].0, &entries[i].0) {
                        return false;
                    }
                    assert(decreases_to!(*self => entries@[i as int].1));
                    if !entries[i].1.is_wf() {
                        return false;
                    }
                    proof {
                        let e = entries@;
                        assert forall|x: int, y: int| 0 <= x < y < i + 1 implies key_lt(
                            #[trigger] e.subrange(0, i + 1)[x].0@,
                            #[trigger] e.subrange(0, i + 1)[y].0@,
                        ) by {
                            if y == i && x < i - 1 {
                                assert(key_lt(e.subrange(0, i as int)[x].0@, e.subrange(0, i as int)[i - 1].0@));
                                lemma_key_lt_transitive(e[x].0@, e[i - 1].0@, e[y].0@);
                            } else if y < i {
                                assert(key_lt(e.subrange(0, i as int)[x].0@, e.subrange(0, i as int)[y].0@));
                            }
                        }
                    }
                    i += 1;
                }
                assert(entries@.subrange(0, entries@.len() as int) =~= entries@);
                true
            },
            _ => true,
        }
    }

    /// The value under `key` when `self` is an object that has one.
    pub open spec fn spec_get(self, key: Seq<char>) -> Option<Json> {
        match self {
            Json::Object(entries) => entry_for(entries@, key),
            _ => None,
        }
    }

    /// The item at `index` when `self` is an array that long.
    pub open spec fn spec_at(self, index: int) -> Option<Json> {
        match self {
            Json::Array(items) => if 0 <= index < items@.len() {
                Some(items@[index])
            } else {
                None
            },
            _ => None,
        }
    }

    /// The text of `self` when it is a string.
    pub open spec fn spec_as_str(self) -> Option<Seq<char>> {
        match self {
            Json::Str(s) => Some(s@),
            _ => None,
        }
    }

    /// The text under `key` when `self` is an object holding a string there.
    pub open spec fn spec_str_at(self, key: Seq<char>) -> Option<Seq<char>> {
        match self.spec_get(key) {
            Some(v) => v.spec_as_str(),
            None => None,
        }
    }

    /// Looks `key` up in an object; the first entry under it wins.
    pub fn get(&self, key: &str) -> (r: Option<&Json>)
        ensures
            match r {
                Some(v) => self.spec_get(key@) == Some(*v),
                None => self.spec_get(key@) is None,
            },
    {
        match self {
            Json::Object(entries) => {
                let k: String = key.to_owned();
                let mut i: usize = 0;
                assert(entries@.subrange(0, entries@.len() as int) =~= entries@);
                while i < entries.len()
                    invariant
                        0 <= i <= entries@.len(),
                        k@ == key@,
                        self.spec_get(key@) == entry_for(entries@, key@),
                        entry_for(entries@, key@) == entry_for(entries@.subrange(i as int, entries@.len() as int), key@),
                    decreases entries.len() - i,
                {
                    assert(entries@.subrange(i as int, entries@.len() as int).drop_first()
                        =~= entries@.subrange(i + 1, entries@.len() as int));
                    assert(entries@.subrange(i as int, entries@.len() as int)[0] == entries@[i as int]);
                    let entry = &entries[i];
                    if entry.0 == k {
                        return Some(&entry.1);
                    }
                    i += 1;
                }
                None
            },
            _ => None,
        }
    }

    /// The item at `index` of an array.
    pub fn at(&self, index: usize) -> (r: Option<&Json>)
        ensures
            match r {
                Some(v) => self.spec_at(index as int) == Some(*v),
                None => self.spec_at(index as int) is None,
            },
    {
        match self {
            Json::Array(items) => if index < items.len() {
                Some(&items[index])
            } else {
                None
            },
            _ => None,
        }
    }

    /// The text of a string value.
    pub fn as_str(&self) -> (r: Option<&String>)
        ensures
            match r {
                Some(s) => self.spec_as_str() == Some(s@),
                None => self.spec_as_str() is None,
            },
    {
        match self {
            Json::Str(s) => Some(s),
            _ => None,
        }
    }

    /// The text under `key` in an object, when it is a string.
    pub fn str_at(&self, key: &str) -> (r: Option<&String>)
        ensures
            match r {
                Some(s) => self.spec_str_at(key@) == Some(s@),
                None => self.spec_str_at(key@) is None,
            },
    {
        match self.get(key) {
            Some(v) => v.as_str(),
            None => None,
        }
    }
}

/// What serde_json reads from a text: the value, or `None` where the text is
/// not a JSON value.
pub uninterp spec fn parsed_of(text: Seq<char>) -> Option<Json>;

/// serde_json's indented rendering of a value.
pub uninterp spec fn pretty_of(value: Json) -> Seq<char>;

#[verifier::external_type_specification]
#[verifier::external_body]
pub struct ExValue(serde_json::Value);

/// Relies on serde_json::from_str::<serde_json::Value>: `text` read as one JSON
/// value, or `None` where serde_json refuses it; the outcome depends on the text
/// alone. Every object of the value is serde_json's map, a `BTreeMap` keyed by
/// `String`: its keys are unique and come out in ascending order (a repeated key
/// keeps its last value), and `from_value` keeps that order.
#[verifier::external_body]
pub(crate) fn parse_json(text: &str) -> (r: Option<Json>)
    ensures
        r == parsed_of(text@),
        r matches Some(v) ==> v.wf(),
{
    match serde_json::from_str::<serde_json::Value>(text) {
        Ok(v) => Some(from_value(v)),
        Err(_) => None,
    }
}

/// Relies on serde_json::Value's `{:#}` Display, which runs serde_json's pretty
/// serializer (the text serde_json::to_string_pretty gives): two-space indents,
/// a value that depends on `value` alone.
#[verifier::external_body]
pub(crate) fn pretty_json(value: &Json) -> (r: String)
    ensures
        r@ == pretty_of(*value),
{
    format!("{:#}", to_value(value))
}

/// Relies on serde_json::Value's variants: builds the tree node for node;
/// a number keeps the text serde_json::Number displays.
#[verifier::external_body]
fn from_value(v: serde_json::Value) -> Json {
    match v {
        serde_json::Value::Null => Json::Null,
        serde_json::Value::Bool(b) => Json::Bool(b),
        serde_json::Value::Number(n) => Json::Number(n.to_string()),
        serde_json::Value::String(s) => Json::Str(s),
        serde_json::Value::Array(items) => Json::Array(items.into_iter().map(from_value).collect()),
        serde_json::Value::Object(entries) => Json::Object(
            entries.into_iter().map(|(k, item)| (k, from_value(item))).collect(),
        ),
    }
}

/// Relies on serde_json::Value's variants and on serde_json::Number's FromStr:
/// builds serde_json's value node for node; a number text that serde_json does
/// not read as a number becomes null.
#[verifier::external_body]
fn to_value(j: &Json) -> serde_json::Value {
    match j {
        Json::Null => serde_json::Value::Null,
        Json::Bool(b) => serde_json::Value::Bool(*b),
        Json::Number(n) => n.parse().map_or(serde_json::Value::Null, serde_json::Value::Number),
        Json::Str(s) => serde_json::Value::String(s.clone()),
        Json::Array(items) => serde_json::Value::Array(items.iter().map(to_value).collect()),
        Json::Object(entries) => serde_json::Value::Object(
            entries.iter().map(|(k, item)| (k.clone(), to_value(item))).collect(),
        ),
    }
}

} // verus!
