//! A JSON document model for the public machine records the library builds
//! and checks: null, booleans, numbers, texts, arrays and objects.
//!
//! Numbers keep their kind: non-negative and negative integers, exact
//! basis-point fractions (`bp / 10000`), and other fractions by their decimal
//! text. An object's entries are looked up by the first matching key, and a
//! missing key reads as null.
use vstd::prelude::*;

use crate::text::{owned, text_eq};

verus! {

/// A JSON number.
#[derive(Debug)]
pub enum JsonNumber {
    Unsigned(u64),
    Negative(i64),
    BasisPoints(u32),
    Float(String),
}

pub ghost enum NumberView {
    Unsigned(u64),
    Negative(i64),
    BasisPoints(u32),
    Float(Seq<char>),
}

impl JsonNumber {
    pub open spec fn view(&self) -> NumberView {
        match self {
            JsonNumber::Unsigned(n) => NumberView::Unsigned(*n),
            JsonNumber::Negative(n) => NumberView::Negative(*n),
            JsonNumber::BasisPoints(n) => NumberView::BasisPoints(*n),
            JsonNumber::Float(s) => NumberView::Float(s@),
        }
    }
}

/// A JSON value.
#[derive(Debug)]
pub enum JsonValue {
    Null,
    Bool(bool),
    Number(JsonNumber),
    Text(String),
    Array(Vec<JsonValue>),
    Object(Vec<(String, JsonValue)>),
}

/// The abstract value of a JSON document.
pub ghost enum JsonView {
    Null,
    Bool(bool),
    Number(NumberView),
    Text(Seq<char>),
    Array(Seq<JsonView>),
    Object(Seq<(Seq<char>, JsonView)>),
}

impl JsonValue {
    pub open spec fn view(&self) -> JsonView
        decreases self,
    {
        match self {
            JsonValue::Null => JsonView::Null,
            JsonValue::Bool(b) => JsonView::Bool(*b),
            JsonValue::Number(n) => JsonView::Number(n.view()),
            JsonValue::Text(s) => JsonView::Text(s@),
            JsonValue::Array(items) => JsonView::Array(
                Seq::new(
                    items@.len(),
                    |i: int|
                        if 0 <= i < items@.len() {
                            items@[i].view()
                        } else {
                            JsonView::Null
                        },
                ),
            ),
            JsonValue::Object(entries) => JsonView::Object(
                Seq::new(
                    entries@.len(),
                    |i: int|
                        if 0 <= i < entries@.len() {
                            (entries@[i].0@, entries@[i].1.view())
                        } else {
                            (Seq::empty(), JsonView::Null)
                        },
                ),
            ),
        }
    }
}

/// The abstract values of a sequence of documents.
pub open spec fn items_view(items: Seq<JsonValue>) -> Seq<JsonView> {
    Seq::new(items.len(), |i: int| items[i].view())
}

/// The abstract entries of an object.
pub open spec fn entries_view(entries: Seq<(String, JsonValue)>) -> Seq<(Seq<char>, JsonView)> {
    Seq::new(entries.len(), |i: int| (entries[i].0@, entries[i].1.view()))
}

pub proof fn lemma_array_view(items: Vec<JsonValue>)
    ensures
        JsonValue::Array(items).view() == JsonView::Array(items_view(items@)),
{
    assert(match JsonValue::Array(items).view() {
        JsonView::Array(s) => s =~= items_view(items@),
        _ => false,
    });
}

pub proof fn lemma_object_view(entries: Vec<(String, JsonValue)>)
    ensures
        JsonValue::Object(entries).view() == JsonView::Object(entries_view(entries@)),
{
    assert(match JsonValue::Object(entries).view() {
        JsonView::Object(s) => s =~= entries_view(entries@),
        _ => false,
    });
}

/// The value under the first entry with key `key`, when there is one.
pub open spec fn lookup(entries: Seq<(Seq<char>, JsonView)>, key: Seq<char>) -> Option<JsonView>
    decreases entries.len(),
{
    if entries.len() == 0 {
        None
    } else if entries[0].0 == key {
        Some(entries[0].1)
    } else {
        lookup(entries.drop_first(), key)
    }
}

/// `value[key]`: the value under `key` of an object, or null.
pub open spec fn field(value: JsonView, key: Seq<char>) -> JsonView {
    match value {
        JsonView::Object(entries) => match lookup(entries, key) {
            Some(v) => v,
            None => JsonView::Null,
        },
        _ => JsonView::Null,
    }
}

/// Whether an object has an entry with key `key`.
pub open spec fn has_field(value: JsonView, key: Seq<char>) -> bool {
    match value {
        JsonView::Object(entries) => lookup(entries, key) is Some,
        _ => false,
    }
}

/// The text of a text value.
pub open spec fn as_text(value: JsonView) -> Option<Seq<char>> {
    match value {
        JsonView::Text(s) => Some(s),
        _ => None,
    }
}

/// The elements of an array value.
pub open spec fn as_array(value: JsonView) -> Option<Seq<JsonView>> {
    match value {
        JsonView::Array(s) => Some(s),
        _ => None,
    }
}

pub open spec fn is_null(value: JsonView) -> bool {
    value is Null
}

impl JsonValue {
    /// The entry under `key` of an object, when present.
    pub fn get(&self, key: &str) -> (r: Option<&JsonValue>)
        ensures
            r is Some <==> has_field(self.view(), key@),
            r matches Some(v) ==> v.view() == field(self.view(), key@),
    {
        match self {
            JsonValue::Object(entries) => {
                proof {
                    lemma_object_view(*entries);
                }
                let mut i: usize = 0;
                assert(entries_view(entries@).subrange(0, entries@.len() as int) =~= entries_view(entries@));
                while i < entries.len()
                    invariant
                        i <= entries@.len(),
                        self.view() == JsonView::Object(entries_view(entries@)),
                        lookup(entries_view(entries@), key@) == lookup(
                            entries_view(entries@).subrange(i as int, entries@.len() as int),
                            key@,
                        ),
                    decreases entries.len() - i,
                {
                    let ghost rest = entries_view(entries@).subrange(i as int, entries@.len() as int);
                    assert(rest[0] == (entries@[i as int].0@, entries@[i as int].1.view()));
                    if text_eq(entries[i].0.as_str(), key) {
                        return Some(&entries[i].1);
                    }
                    assert(rest.drop_first() =~= entries_view(entries@).subrange(
                        i + 1,
                        entries@.len() as int,
                    ));
                    i = i + 1;
                }
                None
            },
            _ => None,
        }
    }

    /// The text of `self[key]`, when that is a text.
    pub fn text_at(&self, key: &str) -> (r: Option<&str>)
        ensures
            r is Some <==> as_text(field(self.view(), key@)) is Some,
            r matches Some(s) ==> s@ == as_text(field(self.view(), key@))->0,
    {
        match self.get(key) {
            Some(JsonValue::Text(s)) => Some(s.as_str()),
            _ => None,
        }
    }

    /// Whether the value is null.
    pub fn is_null(&self) -> (r: bool)
        ensures
            r == (self.view() is Null),
    {
        match self {
            JsonValue::Null => true,
            _ => false,
        }
    }

    /// The text of a text value.
    pub fn as_str(&self) -> (r: Option<&str>)
        ensures
            r is Some <==> as_text(self.view()) is Some,
            r matches Some(s) ==> s@ == as_text(self.view())->0,
    {
        match self {
            JsonValue::Text(s) => Some(s.as_str()),
            _ => None,
        }
    }

    /// The elements of an array value.
    pub fn as_array(&self) -> (r: Option<&Vec<JsonValue>>)
        ensures
            r is Some <==> as_array(self.view()) is Some,
            r matches Some(items) ==> items_view(items@) == as_array(self.view())->0,
    {
        match self {
            JsonValue::Array(items) => {
                proof {
                    lemma_array_view(*items);
                }
                Some(items)
            },
            _ => None,
        }
    }

    /// Whether the value is the text `t`.
    pub fn is_text(&self, t: &str) -> (r: bool)
        ensures
            r == (self.view() == JsonView::Text(t@)),
    {
        match self {
            JsonValue::Text(s) => text_eq(s.as_str(), t),
            _ => false,
        }
    }
}

fn number_eq(a: &JsonNumber, b: &JsonNumber) -> (r: bool)
    ensures
        r == (a.view() == b.view()),
{
    match (a, b) {
        (JsonNumber::Unsigned(x), JsonNumber::Unsigned(y)) => *x == *y,
        (JsonNumber::Negative(x), JsonNumber::Negative(y)) => *x == *y,
        (JsonNumber::BasisPoints(x), JsonNumber::BasisPoints(y)) => *x == *y,
        (JsonNumber::Float(x), JsonNumber::Float(y)) => text_eq(x.as_str(), y.as_str()),
        _ => false,
    }
}

/// Structural equality of two documents.
pub fn json_eq(a: &JsonValue, b: &JsonValue) -> (r: bool)
    ensures
        r == (a.view() == b.view()),
    decreases a,
{
    match (a, b) {
        (JsonValue::Null, JsonValue::Null) => true,
        (JsonValue::Bool(x), JsonValue::Bool(y)) => *x == *y,
        (JsonValue::Number(x), JsonValue::Number(y)) => number_eq(x, y),
        (JsonValue::Text(x), JsonValue::Text(y)) => text_eq(x.as_str(), y.as_str()),
        (JsonValue::Array(xs), JsonValue::Array(ys)) => {
            proof {
                lemma_array_view(*xs);
                lemma_array_view(*ys);
            }
            if xs.len() != ys.len() {
                assert(items_view(xs@).len() != items_view(ys@).len());
                return false;
            }
            let mut i: usize = 0;
            while i < xs.len()
                invariant
                    *a == JsonValue::Array(*xs),
                    a.view() == JsonView::Array(items_view(xs@)),
                    b.view() == JsonView::Array(items_view(ys@)),
                    xs@.len() == ys@.len(),
                    i <= xs@.len(),
                    forall|j: int| 0 <= j < i ==> xs@[j].view() == ys@[j].view(),
                decreases xs.len() - i,
            {
                assert(decreases_to!(*a => *xs));
                assert(decreases_to!(*xs => xs@));
                assert(decreases_to!(xs@ => xs@[i as int]));
                if !json_eq(&xs[i], &ys[i]) {
                    assert(items_view(xs@)[i as int] != items_view(ys@)[i as int]);
                    return false;
                }
                i = i + 1;
            }
            assert(items_view(xs@) =~= items_view(ys@));
            true
        },
        (JsonValue::Object(xs), JsonValue::Object(ys)) => {
            proof {
                lemma_object_view(*xs);
                lemma_object_view(*ys);
            }
            if xs.len() != ys.len() {
                assert(entries_view(xs@).len() != entries_view(ys@).len());
                return false;
            }
            let mut i: usize = 0;
            while i < xs.len()
                invariant
                    *a == JsonValue::Object(*xs),
                    a.view() == JsonView::Object(entries_view(xs@)),
                    b.view() == JsonView::Object(entries_view(ys@)),
                    xs@.len() == ys@.len(),
                    i <= xs@.len(),
                    forall|j: int|
                        0 <= j < i ==> xs@[j].0@ == ys@[j].0@ && xs@[j].1.view() == ys@[j].1.view(),
                decreases xs.len() - i,
            {
                assert(decreases_to!(*a => *xs));
                assert(decreases_to!(*xs => xs@));
                assert(decreases_to!(xs@ => xs@[i as int]));
                assert(decreases_to!(xs@[i as int] => xs@[i as int].1));
                if !text_eq(xs[i].0.as_str(), ys[i].0.as_str()) || !json_eq(&xs[i].1, &ys[i].1) {
                    assert(entries_view(xs@)[i as int] != entries_view(ys@)[i as int]);
                    return false;
                }
                i = i + 1;
            }
            assert(entries_view(xs@) =~= entries_view(ys@));
            true
        },
        _ => false,
    }
}

/// Builds the entries of an object in order.
pub struct ObjectBuilder {
    pub entries: Vec<(String, JsonValue)>,
}

impl ObjectBuilder {
    pub fn new() -> (r: ObjectBuilder)
        ensures
            r.entries@.len() == 0,
    {
        ObjectBuilder { entries: Vec::new() }
    }

    /// Appends one entry.
    pub fn add(&mut self, key: &str, value: JsonValue)
        ensures
            entries_view(final(self).entries@) == entries_view(old(self).entries@).push(
                (key@, value.view()),
            ),
    {
        let ghost before = self.entries@;
        let ghost v = value.view();
        self.entries.push((owned(key), value));
        assert(entries_view(self.entries@) =~= entries_view(before).push((key@, v)));
    }

    /// The object built so far.
    pub fn build(self) -> (r: JsonValue)
        ensures
            r.view() == JsonView::Object(entries_view(self.entries@)),
    {
        proof {
            lemma_object_view(self.entries);
        }
        JsonValue::Object(self.entries)
    }
}

pub fn json_null() -> (r: JsonValue)
    ensures
        r.view() == JsonView::Null,
{
    JsonValue::Null
}

pub fn json_bool(b: bool) -> (r: JsonValue)
    ensures
        r.view() == JsonView::Bool(b),
{
    JsonValue::Bool(b)
}

pub fn json_text(s: &str) -> (r: JsonValue)
    ensures
        r.view() == JsonView::Text(s@),
{
    JsonValue::Text(owned(s))
}

pub fn json_u64(n: u64) -> (r: JsonValue)
    ensures
        r.view() == JsonView::Number(NumberView::Unsigned(n)),
{
    JsonValue::Number(JsonNumber::Unsigned(n))
}

/// The number `bp / 10000`.
pub fn json_bp(bp: u32) -> (r: JsonValue)
    ensures
        r.view() == JsonView::Number(NumberView::BasisPoints(bp)),
{
    JsonValue::Number(JsonNumber::BasisPoints(bp))
}

/// An optional count, null when absent.
pub open spec fn opt_u64_view(n: Option<u64>) -> JsonView {
    match n {
        Some(v) => JsonView::Number(NumberView::Unsigned(v)),
        None => JsonView::Null,
    }
}

pub fn json_opt_u64(n: Option<u64>) -> (r: JsonValue)
    ensures
        r.view() == opt_u64_view(n),
{
    match n {
        Some(v) => JsonValue::Number(JsonNumber::Unsigned(v)),
        None => JsonValue::Null,
    }
}

/// An optional basis-point fraction, null when absent.
pub open spec fn opt_bp_view(n: Option<u32>) -> JsonView {
    match n {
        Some(v) => JsonView::Number(NumberView::BasisPoints(v)),
        None => JsonView::Null,
    }
}

pub fn json_opt_bp(n: Option<u32>) -> (r: JsonValue)
    ensures
        r.view() == opt_bp_view(n),
{
    match n {
        Some(v) => JsonValue::Number(JsonNumber::BasisPoints(v)),
        None => JsonValue::Null,
    }
}

/// An optional text, null when absent.
pub open spec fn opt_text_view(s: Option<Seq<char>>) -> JsonView {
    match s {
        Some(v) => JsonView::Text(v),
        None => JsonView::Null,
    }
}

pub fn json_opt_text(s: Option<&str>) -> (r: JsonValue)
    ensures
        r.view() == opt_text_view(match s {
            Some(t) => Some(t@),
            None => None,
        }),
{
    match s {
        Some(t) => JsonValue::Text(owned(t)),
        None => JsonValue::Null,
    }
}

/// An array of the given elements.
pub fn json_array(items: Vec<JsonValue>) -> (r: JsonValue)
    ensures
        r.view() == JsonView::Array(items_view(items@)),
{
    proof {
        lemma_array_view(items);
    }
    JsonValue::Array(items)
}

/// A signed count.
pub open spec fn i64_view(v: i64) -> JsonView {
    if v >= 0 {
        JsonView::Number(NumberView::Unsigned(v as u64))
    } else {
        JsonView::Number(NumberView::Negative(v))
    }
}

pub fn json_i64(v: i64) -> (r: JsonValue)
    ensures
        r.view() == i64_view(v),
{
    if v >= 0 {
        JsonValue::Number(JsonNumber::Unsigned(v as u64))
    } else {
        JsonValue::Number(JsonNumber::Negative(v))
    }
}

} // verus!
