//! JSON documents as plain library values.
//!
//! Parsing and printing JSON text is `serde_json`'s work; everything the library reads
//! out of a document (job files, ruler messages, tile indexes) is done on [`JsonValue`],
//! which holds the parsed document as plain values.
use vstd::prelude::*;

use crate::text;

verus! {

/// A JSON number, held as the integer readings the library uses.
///
/// `as_i64` / `as_u64` are what `serde_json::Number::as_i64` / `as_u64` return; a
/// number with a fraction or exponent has neither.
#[derive(Clone, Copy, Debug, PartialEq, Eq, Structural)]
pub struct JsonNumber {
    pub as_i64: Option<i64>,
    pub as_u64: Option<u64>,
}

/// A parsed JSON document.
///
/// Object members keep the order in which the parser yields them.
#[derive(Debug, PartialEq)]
pub enum JsonValue {
    Null,
    Bool(bool),
    Number(JsonNumber),
    /// A number with a fraction or an exponent, kept as the text `serde_json` prints
    /// for it, so that saving a document writes it back unchanged.
    Fraction(String),
    Str(String),
    Array(Vec<JsonValue>),
    Object(Vec<(String, JsonValue)>),
}

/// A JSON text that could not be parsed, with the parser's message.
#[derive(Clone, Debug, PartialEq)]
pub struct JsonError {
    pub message: String,
}

#[verifier::external_type_specification]
#[verifier::external_body]
pub struct ExSerdeJsonValue(serde_json::Value);

/// The outcome of parsing `text` with `serde_json::from_str::<serde_json::Value>`.
pub uninterp spec fn json_document(text: Seq<char>) -> Result<JsonValue, JsonError>;

/// The text `serde_json` prints for `value` (`serde_json::Value::to_string`).
pub uninterp spec fn json_text(value: JsonValue) -> Seq<char>;

/// Converts a `serde_json::Value` into the library's value, one variant for one
/// variant (a floating-point number becomes a `Fraction` holding its printed text);
/// object members are taken in the map's iteration order.
///
/// Nothing is stated about the result: the input is opaque to the library, and the
/// only caller, [`parse_json`], names what the whole parse yields.
#[verifier::external_body]
fn from_serde(v: serde_json::Value) -> JsonValue {
    match v {
        serde_json::Value::Null => JsonValue::Null,
        serde_json::Value::Bool(b) => JsonValue::Bool(b),
        serde_json::Value::Number(n) => if n.is_f64() {
            JsonValue::Fraction(n.to_string())
        } else {
            JsonValue::Number(JsonNumber { as_i64: n.as_i64(), as_u64: n.as_u64() })
        },
        serde_json::Value::String(s) => JsonValue::Str(s),
        serde_json::Value::Array(a) => JsonValue::Array(a.into_iter().map(from_serde).collect()),
        serde_json::Value::Object(m) => JsonValue::Object(
            m.into_iter().map(|(k, v)| (k, from_serde(v))).collect(),
        ),
    }
}

/// Converts a value that holds no other values into a `serde_json::Value`, one variant
/// for one variant. A `Fraction` is read back with `serde_json::Number`'s `FromStr`; one
/// whose text is no JSON number, and a number with neither integer reading, become
/// `null`. Arrays and objects are [`to_serde`]'s.
///
/// Nothing is stated about the result; it is only passed on to printing.
#[verifier::external_body]
fn scalar_to_serde(v: &JsonValue) -> serde_json::Value {
    match v {
        JsonValue::Bool(b) => serde_json::Value::Bool(*b),
        JsonValue::Number(n) => match (n.as_i64, n.as_u64) {
            (Some(i), _) => serde_json::Value::from(i),
            (None, Some(u)) => serde_json::Value::from(u),
            (None, None) => serde_json::Value::Null,
        },
        JsonValue::Fraction(t) => t.parse().map_or(serde_json::Value::Null, serde_json::Value::Number),
        JsonValue::Str(s) => serde_json::Value::String(s.clone()),
        _ => serde_json::Value::Null,
    }
}

/// Converts the library's value into a `serde_json::Value`, one variant for one
/// variant; what holds no other values goes through [`scalar_to_serde`].
///
/// Nothing is stated about the result; the only caller, [`to_json_text`], names the
/// text that printing it yields.
#[verifier::external_body]
fn to_serde(v: &JsonValue) -> serde_json::Value {
    match v {
        JsonValue::Array(a) => serde_json::Value::Array(a.iter().map(to_serde).collect()),
        JsonValue::Object(m) => serde_json::Value::Object(
            m.iter().map(|(k, v)| (k.clone(), to_serde(v))).collect(),
        ),
        _ => scalar_to_serde(v),
    }
}

/// Parses JSON text with `serde_json::from_str::<serde_json::Value>` and converts the
/// document. The result depends on the text alone and is named by
/// [`json_document`]; the parser's error message is kept.
#[verifier::external_body]
pub(crate) fn parse_json(text: &str) -> (r: Result<JsonValue, JsonError>)
    ensures
        r == json_document(text@),
{
    serde_json::from_str::<serde_json::Value>(text).map(from_serde).map_err(
        |e| JsonError { message: e.to_string() },
    )
}

/// Prints `value` with `serde_json::Value::to_string` (compact form). The text depends
/// on the value alone and is named by [`json_text`].
#[verifier::external_body]
pub(crate) fn to_json_text(value: &JsonValue) -> (s: String)
    ensures
        s@ == json_text(*value),
{
    to_serde(value).to_string()
}

/// The text `serde_json::to_string` prints for an object with these members.
pub uninterp spec fn compact_object_text(entries: Seq<(String, JsonValue)>) -> Seq<char>;

/// The text `serde_json::to_string_pretty` prints for an object with these members.
pub uninterp spec fn pretty_object_text(entries: Seq<(String, JsonValue)>) -> Seq<char>;

/// Converts object members into a `serde_json` object, member for member.
///
/// Nothing is stated about the result; the callers name the text printed from it.
#[verifier::external_body]
fn to_serde_object(entries: &Vec<(String, JsonValue)>) -> serde_json::Value {
    serde_json::Value::Object(entries.iter().map(|(k, v)| (k.clone(), to_serde(v))).collect())
}

/// Prints an object with `serde_json::to_string`. The text depends on the members alone
/// and is named by [`compact_object_text`]. The call succeeds: `to_string` fails only
/// where the value's `Serialize` decides to fail or a map has non-string keys, and
/// `serde_json::Value`'s `Serialize` only passes on the serializer's own results, over
/// string keys, into a `Vec` writer.
#[verifier::external_body]
pub(crate) fn object_to_string(entries: &Vec<(String, JsonValue)>) -> (r: Result<String, JsonError>)
    ensures
        r is Ok,
        r matches Ok(s) ==> s@ == compact_object_text(entries@),
{
    serde_json::to_string(&to_serde_object(entries)).map_err(
        |e| JsonError { message: e.to_string() },
    )
}

/// Prints an object with `serde_json::to_string_pretty`. The text depends on the members
/// alone and is named by [`pretty_object_text`]. The call succeeds, for the reason given
/// at [`object_to_string`].
#[verifier::external_body]
pub(crate) fn object_to_pretty_string(entries: &Vec<(String, JsonValue)>) -> (r: Result<String, JsonError>)
    ensures
        r is Ok,
        r matches Ok(s) ==> s@ == pretty_object_text(entries@),
{
    serde_json::to_string_pretty(&to_serde_object(entries)).map_err(
        |e| JsonError { message: e.to_string() },
    )
}

/// The first member of `entries` whose key is `key`.
pub open spec fn member(entries: Seq<(String, JsonValue)>, key: Seq<char>) -> Option<JsonValue>
    decreases entries.len(),
{
    if entries.len() == 0 {
        None
    } else if entries[0].0@ == key {
        Some(entries[0].1)
    } else {
        member(entries.drop_first(), key)
    }
}

impl JsonValue {
    /// `value.get(key)`: the member named `key` of an object, `None` otherwise.
    pub open spec fn field(self, key: Seq<char>) -> Option<JsonValue> {
        match self {
            JsonValue::Object(entries) => member(entries@, key),
            _ => None,
        }
    }

    /// `as_str`: the text of a string value.
    pub open spec fn text(self) -> Option<Seq<char>> {
        match self {
            JsonValue::Str(s) => Some(s@),
            _ => None,
        }
    }

    /// `as_i64`.
    pub open spec fn integer(self) -> Option<i64> {
        match self {
            JsonValue::Number(n) => n.as_i64,
            _ => None,
        }
    }

    /// `as_u64`.
    pub open spec fn uint(self) -> Option<u64> {
        match self {
            JsonValue::Number(n) => n.as_u64,
            _ => None,
        }
    }

    /// `as_bool`.
    pub open spec fn boolean(self) -> Option<bool> {
        match self {
            JsonValue::Bool(b) => Some(b),
            _ => None,
        }
    }

    /// `as_array`.
    pub open spec fn items(self) -> Option<Seq<JsonValue>> {
        match self {
            JsonValue::Array(a) => Some(a@),
            _ => None,
        }
    }

    pub open spec fn is_object_value(self) -> bool {
        self is Object
    }

    /// The member named `key`, if this is an object that has one.
    pub fn get(&self, key: &str) -> (r: Option<&JsonValue>)
        ensures
            match r {
                Some(v) => self.field(key@) == Some(*v),
                None => self.field(key@) is None,
            },
    {
        match self {
            JsonValue::Object(entries) => {
                let mut i: usize = 0;
                assert(entries@.skip(0) =~= entries@);
                while i < entries.len()
                    invariant
                        i <= entries@.len(),
                        self.field(key@) == member(entries@, key@),
                        member(entries@, key@) == member(entries@.skip(i as int), key@),
                    decreases entries@.len() - i,
                {
                    let ghost rest = entries@.skip(i as int);
                    assert(rest.drop_first() =~= entries@.skip(i + 1));
                    let k = entries[i].0.as_str();
                    if text::str_eq(k, key) {
                        assert(rest[0] == entries@[i as int]);
                        assert(rest[0].0@ == key@);
                        assert(member(rest, key@) == Some(rest[0].1));
                        return Some(&entries[i].1);
                    }
                    i = i + 1;
                }
                None
            },
            _ => None,
        }
    }

    /// The text of a string value.
    pub fn as_str(&self) -> (r: Option<&str>)
        ensures
            match r {
                Some(s) => self.text() == Some(s@),
                None => self.text() is None,
            },
    {
        match self {
            JsonValue::Str(s) => Some(s.as_str()),
            _ => None,
        }
    }

    /// The value of an integer that fits `i64`.
    pub fn as_i64(&self) -> (r: Option<i64>)
        ensures
            r == self.integer(),
    {
        match self {
            JsonValue::Number(n) => n.as_i64,
            _ => None,
        }
    }

    /// The value of a non-negative integer that fits `u64`.
    pub fn as_u64(&self) -> (r: Option<u64>)
        ensures
            r == self.uint(),
    {
        match self {
            JsonValue::Number(n) => n.as_u64,
            _ => None,
        }
    }

    pub fn as_bool(&self) -> (r: Option<bool>)
        ensures
            r == self.boolean(),
    {
        match self {
            JsonValue::Bool(b) => Some(*b),
            _ => None,
        }
    }

    /// The elements of an array.
    pub fn as_array(&self) -> (r: Option<&Vec<JsonValue>>)
        ensures
            match r {
                Some(a) => self.items() == Some(a@),
                None => self.items() is None,
            },
    {
        match self {
            JsonValue::Array(a) => Some(a),
            _ => None,
        }
    }

    pub fn is_object(&self) -> (b: bool)
        ensures
            b == self.is_object_value(),
    {
        match self {
            JsonValue::Object(_) => true,
            _ => false,
        }
    }
}

// ---------------------------------------------------------------------------
// Reading object fields the way `#[serde(default)]` fields deserialize: an absent
// field takes the type's default; a present one must have the field's type (`null`
// only fits an `Option`).
// ---------------------------------------------------------------------------

/// An unsigned 64-bit field.
pub open spec fn default_u64(v: JsonValue, key: Seq<char>) -> Option<u64> {
    match v.field(key) {
        None => Some(0u64),
        Some(f) => f.uint(),
    }
}

/// An unsigned 32-bit field.
pub open spec fn default_u32(v: JsonValue, key: Seq<char>) -> Option<u32> {
    match v.field(key) {
        None => Some(0u32),
        Some(f) => fit_u32(f),
    }
}

/// A signed 64-bit field.
pub open spec fn default_i64(v: JsonValue, key: Seq<char>) -> Option<i64> {
    match v.field(key) {
        None => Some(0i64),
        Some(f) => f.integer(),
    }
}

/// A signed 32-bit field.
pub open spec fn default_i32(v: JsonValue, key: Seq<char>) -> Option<i32> {
    match v.field(key) {
        None => Some(0i32),
        Some(f) => fit_i32(f),
    }
}

/// A boolean field.
pub open spec fn default_bool(v: JsonValue, key: Seq<char>) -> Option<bool> {
    match v.field(key) {
        None => Some(false),
        Some(f) => f.boolean(),
    }
}

/// A string field.
pub open spec fn default_text(v: JsonValue, key: Seq<char>) -> Option<Seq<char>> {
    match v.field(key) {
        None => Some(Seq::empty()),
        Some(f) => f.text(),
    }
}

/// An optional signed 32-bit field: absent or `null` is `None`.
pub open spec fn optional_i32(v: JsonValue, key: Seq<char>) -> Option<Option<i32>> {
    match v.field(key) {
        None => Some(None),
        Some(JsonValue::Null) => Some(None),
        Some(f) => match fit_i32(f) {
            Some(x) => Some(Some(x)),
            None => None,
        },
    }
}

/// An optional unsigned 32-bit field.
pub open spec fn optional_u32(v: JsonValue, key: Seq<char>) -> Option<Option<u32>> {
    match v.field(key) {
        None => Some(None),
        Some(JsonValue::Null) => Some(None),
        Some(f) => match fit_u32(f) {
            Some(x) => Some(Some(x)),
            None => None,
        },
    }
}

/// An optional unsigned 64-bit field.
pub open spec fn optional_u64(v: JsonValue, key: Seq<char>) -> Option<Option<u64>> {
    match v.field(key) {
        None => Some(None),
        Some(JsonValue::Null) => Some(None),
        Some(f) => match f.uint() {
            Some(x) => Some(Some(x)),
            None => None,
        },
    }
}

/// An optional string field.
pub open spec fn optional_text(v: JsonValue, key: Seq<char>) -> Option<Option<Seq<char>>> {
    match v.field(key) {
        None => Some(None),
        Some(JsonValue::Null) => Some(None),
        Some(f) => match f.text() {
            Some(x) => Some(Some(x)),
            None => None,
        },
    }
}

/// A number that fits `u32`.
pub open spec fn fit_u32(f: JsonValue) -> Option<u32> {
    match f.uint() {
        Some(u) => if u <= u32::MAX {
            Some(u as u32)
        } else {
            None
        },
        None => None,
    }
}

/// A number that fits `i32`.
pub open spec fn fit_i32(f: JsonValue) -> Option<i32> {
    match f.integer() {
        Some(x) => if i32::MIN <= x <= i32::MAX {
            Some(x as i32)
        } else {
            None
        },
        None => None,
    }
}

fn number_u32(f: &JsonValue) -> (r: Option<u32>)
    ensures
        r == fit_u32(*f),
{
    match f.as_u64() {
        Some(u) => if u <= 4294967295u64 {
            Some(u as u32)
        } else {
            None
        },
        None => None,
    }
}

fn number_i32(f: &JsonValue) -> (r: Option<i32>)
    ensures
        r == fit_i32(*f),
{
    match f.as_i64() {
        Some(x) => if -2147483648i64 <= x && x <= 2147483647i64 {
            Some(x as i32)
        } else {
            None
        },
        None => None,
    }
}

pub fn read_default_u64(v: &JsonValue, key: &str) -> (r: Option<u64>)
    ensures
        r == default_u64(*v, key@),
{
    match v.get(key) {
        None => Some(0),
        Some(f) => f.as_u64(),
    }
}

pub fn read_default_u32(v: &JsonValue, key: &str) -> (r: Option<u32>)
    ensures
        r == default_u32(*v, key@),
{
    match v.get(key) {
        None => Some(0),
        Some(f) => number_u32(f),
    }
}

pub fn read_default_i64(v: &JsonValue, key: &str) -> (r: Option<i64>)
    ensures
        r == default_i64(*v, key@),
{
    match v.get(key) {
        None => Some(0),
        Some(f) => f.as_i64(),
    }
}

pub fn read_default_i32(v: &JsonValue, key: &str) -> (r: Option<i32>)
    ensures
        r == default_i32(*v, key@),
{
    match v.get(key) {
        None => Some(0),
        Some(f) => number_i32(f),
    }
}

pub fn read_default_bool(v: &JsonValue, key: &str) -> (r: Option<bool>)
    ensures
        r == default_bool(*v, key@),
{
    match v.get(key) {
        None => Some(false),
        Some(f) => f.as_bool(),
    }
}

pub fn read_default_text(v: &JsonValue, key: &str) -> (r: Option<String>)
    ensures
        match r {
            Some(s) => default_text(*v, key@) == Some(s@),
            None => default_text(*v, key@) is None,
        },
{
    match v.get(key) {
        None => {
            let s = String::new();
            assert(s@ =~= Seq::<char>::empty());
            Some(s)
        },
        Some(f) => match f.as_str() {
            Some(t) => Some(t.to_string()),
            None => None,
        },
    }
}

pub fn read_optional_i32(v: &JsonValue, key: &str) -> (r: Option<Option<i32>>)
    ensures
        r == optional_i32(*v, key@),
{
    match v.get(key) {
        None => Some(None),
        Some(JsonValue::Null) => Some(None),
        Some(f) => match number_i32(f) {
            Some(x) => Some(Some(x)),
            None => None,
        },
    }
}

pub fn read_optional_u32(v: &JsonValue, key: &str) -> (r: Option<Option<u32>>)
    ensures
        r == optional_u32(*v, key@),
{
    match v.get(key) {
        None => Some(None),
        Some(JsonValue::Null) => Some(None),
        Some(f) => match number_u32(f) {
            Some(x) => Some(Some(x)),
            None => None,
        },
    }
}

pub fn read_optional_u64(v: &JsonValue, key: &str) -> (r: Option<Option<u64>>)
    ensures
        r == optional_u64(*v, key@),
{
    match v.get(key) {
        None => Some(None),
        Some(JsonValue::Null) => Some(None),
        Some(f) => match f.as_u64() {
            Some(x) => Some(Some(x)),
            None => None,
        },
    }
}

pub fn read_optional_text(v: &JsonValue, key: &str) -> (r: Option<Option<String>>)
    ensures
        match r {
            Some(Some(s)) => optional_text(*v, key@) == Some(Some(s@)),
            Some(None) => optional_text(*v, key@) == Some(None::<Seq<char>>),
            None => optional_text(*v, key@) is None,
        },
{
    match v.get(key) {
        None => Some(None),
        Some(JsonValue::Null) => Some(None),
        Some(f) => match f.as_str() {
            Some(t) => Some(Some(t.to_string())),
            None => None,
        },
    }
}

// ---------------------------------------------------------------------------
// Objects as maps: members with pairwise different keys.
// ---------------------------------------------------------------------------

/// Whether no key occurs twice among `entries` (as in a parsed `serde_json` object).
pub open spec fn keys_unique(entries: Seq<(String, JsonValue)>) -> bool {
    forall|i: int, j: int|
        0 <= i < j < entries.len() ==> (#[trigger] entries[i]).0@ != (#[trigger] entries[j]).0@
}

pub proof fn lemma_member_first(entries: Seq<(String, JsonValue)>, i: int)
    requires
        0 <= i < entries.len(),
        forall|j: int| 0 <= j < i ==> (#[trigger] entries[j]).0@ != entries[i].0@,
    ensures
        member(entries, entries[i].0@) == Some(entries[i].1),
    decreases i,
{
    if i > 0 {
        let t = entries.drop_first();
        assert forall|j: int| 0 <= j < i - 1 implies (#[trigger] t[j]).0@ != t[i - 1].0@ by {
            assert(t[j] == entries[j + 1]);
        }
        lemma_member_first(t, i - 1);
    }
}

/// In an object with unique keys, each member is what its key finds.
pub proof fn lemma_member_at(entries: Seq<(String, JsonValue)>, i: int)
    requires
        keys_unique(entries),
        0 <= i < entries.len(),
    ensures
        member(entries, entries[i].0@) == Some(entries[i].1),
{
    lemma_member_first(entries, i);
}

/// A key held by no member finds nothing.
pub proof fn lemma_member_absent(entries: Seq<(String, JsonValue)>, key: Seq<char>)
    requires
        forall|i: int| 0 <= i < entries.len() ==> (#[trigger] entries[i]).0@ != key,
    ensures
        member(entries, key) is None,
    decreases entries.len(),
{
    if entries.len() > 0 {
        let t = entries.drop_first();
        assert forall|i: int| 0 <= i < t.len() implies (#[trigger] t[i]).0@ != key by {
            assert(t[i] == entries[i + 1]);
        }
        lemma_member_absent(t, key);
    }
}

/// What a key finds is held by some member.
pub proof fn lemma_member_found(entries: Seq<(String, JsonValue)>, key: Seq<char>)
    requires
        member(entries, key) is Some,
    ensures
        exists|i: int|
            0 <= i < entries.len() && (#[trigger] entries[i]).0@ == key && member(entries, key)
                == Some(entries[i].1),
    decreases entries.len(),
{
    if entries[0].0@ != key {
        let t = entries.drop_first();
        lemma_member_found(t, key);
        let i = choose|i: int| 0 <= i < t.len() && (#[trigger] t[i]).0@ == key && member(t, key) == Some(t[i].1);
        assert(entries[i + 1] == t[i]);
    }
}

pub proof fn lemma_member_update(entries: Seq<(String, JsonValue)>, i: int, e: (String, JsonValue), key: Seq<char>)
    requires
        0 <= i < entries.len(),
        entries[i].0@ == e.0@,
        key != e.0@,
    ensures
        member(entries.update(i, e), key) == member(entries, key),
    decreases entries.len(),
{
    let u = entries.update(i, e);
    if entries.len() > 0 {
        if i > 0 {
            assert(u.drop_first() =~= entries.drop_first().update(i - 1, e));
            if entries[0].0@ != key {
                lemma_member_update(entries.drop_first(), i - 1, e, key);
            }
        } else {
            assert(u.drop_first() =~= entries.drop_first());
        }
    }
}

pub proof fn lemma_member_push(entries: Seq<(String, JsonValue)>, e: (String, JsonValue), key: Seq<char>)
    requires
        key != e.0@ || member(entries, key) is Some,
    ensures
        member(entries.push(e), key) == member(entries, key),
    decreases entries.len(),
{
    let p = entries.push(e);
    if entries.len() == 0 {
        assert(p.drop_first() =~= Seq::<(String, JsonValue)>::empty());
    } else {
        assert(p.drop_first() =~= entries.drop_first().push(e));
        if entries[0].0@ != key {
            lemma_member_push(entries.drop_first(), e, key);
        }
    }
}

pub proof fn lemma_member_push_new(entries: Seq<(String, JsonValue)>, e: (String, JsonValue))
    requires
        member(entries, e.0@) is None,
    ensures
        member(entries.push(e), e.0@) == Some(e.1),
    decreases entries.len(),
{
    let p = entries.push(e);
    if entries.len() == 0 {
    } else {
        assert(p.drop_first() =~= entries.drop_first().push(e));
        lemma_member_push_new(entries.drop_first(), e);
    }
}

pub proof fn lemma_member_remove(entries: Seq<(String, JsonValue)>, i: int, key: Seq<char>)
    requires
        0 <= i < entries.len(),
        key != entries[i].0@,
    ensures
        member(entries.remove(i), key) == member(entries, key),
    decreases entries.len(),
{
    let r = entries.remove(i);
    if i == 0 {
        assert(r =~= entries.drop_first());
    } else {
        assert(r.drop_first() =~= entries.drop_first().remove(i - 1));
        assert(r[0] == entries[0]);
        if entries[0].0@ != key {
            lemma_member_remove(entries.drop_first(), i - 1, key);
        }
    }
}

/// The first member named `key`.
pub fn lookup<'a>(entries: &'a Vec<(String, JsonValue)>, key: &str) -> (r: Option<&'a JsonValue>)
    ensures
        match r {
            Some(v) => member(entries@, key@) == Some(*v),
            None => member(entries@, key@) is None,
        },
{
    match member_index(entries, key) {
        Some(i) => {
            proof {
                lemma_member_first(entries@, i as int);
            }
            Some(&entries[i].1)
        },
        None => {
            proof {
                lemma_member_absent(entries@, key@);
            }
            None
        },
    }
}

/// The index of the first member named `key`.
pub fn member_index(entries: &Vec<(String, JsonValue)>, key: &str) -> (r: Option<usize>)
    ensures
        match r {
            Some(i) => i < entries@.len() && entries@[i as int].0@ == key@ && forall|j: int|
                0 <= j < i ==> (#[trigger] entries@[j]).0@ != key@,
            None => forall|j: int| 0 <= j < entries@.len() ==> (#[trigger] entries@[j]).0@ != key@,
        },
{
    let mut i: usize = 0;
    while i < entries.len()
        invariant
            i <= entries@.len(),
            forall|j: int| 0 <= j < i ==> (#[trigger] entries@[j]).0@ != key@,
        decreases entries@.len() - i,
    {
        if text::str_eq(entries[i].0.as_str(), key) {
            return Some(i);
        }
        i = i + 1;
    }
    None
}

/// Sets the member named `key` (serde_json `Map::insert`).
pub fn object_insert(entries: &mut Vec<(String, JsonValue)>, key: String, value: JsonValue)
    ensures
        keys_unique(old(entries)@) ==> keys_unique(final(entries)@),
        member(final(entries)@, key@) == Some(value),
        forall|k: Seq<char>| k != key@ ==> #[trigger] member(final(entries)@, k) == member(old(entries)@, k),
{
    let ghost before = entries@;
    match member_index(entries, key.as_str()) {
        Some(i) => {
            let ghost e = (key, value);
            entries.set(i, (key, value));
            proof {
                assert(entries@ == before.update(i as int, e));
                if keys_unique(before) {
                    assert forall|a: int, b: int| 0 <= a < b < entries@.len() implies (
                    #[trigger] entries@[a]).0@ != (#[trigger] entries@[b]).0@ by {
                        assert(entries@[a].0@ == before[a].0@);
                        assert(entries@[b].0@ == before[b].0@);
                    }
                }
                assert forall|j: int| 0 <= j < i implies (#[trigger] entries@[j]).0@ != entries@[i as int].0@ by {
                    assert(entries@[j] == before[j]);
                }
                lemma_member_first(entries@, i as int);
                assert forall|k: Seq<char>| k != e.0@ implies #[trigger] member(entries@, k) == member(before, k) by {
                    lemma_member_update(before, i as int, e, k);
                }
            }
        },
        None => {
            let ghost e = (key, value);
            entries.push((key, value));
            proof {
                lemma_member_absent(before, e.0@);
                assert(entries@ == before.push(e));
                if keys_unique(before) {
                    assert forall|a: int, b: int| 0 <= a < b < entries@.len() implies (
                    #[trigger] entries@[a]).0@ != (#[trigger] entries@[b]).0@ by {
                        assert(entries@[a] == before[a]);
                        if b < before.len() {
                            assert(entries@[b] == before[b]);
                        }
                    }
                }
                lemma_member_push_new(before, e);
                assert forall|k: Seq<char>| k != e.0@ implies #[trigger] member(entries@, k) == member(before, k) by {
                    lemma_member_push(before, e, k);
                }
            }
        },
    }
}

/// Takes the member named `key` out (serde_json `Map::remove`).
pub fn object_take(entries: &mut Vec<(String, JsonValue)>, key: &str) -> (r: Option<JsonValue>)
    ensures
        keys_unique(old(entries)@) ==> keys_unique(final(entries)@),
        r == member(old(entries)@, key@),
        r is None ==> final(entries)@ == old(entries)@,
        r is Some ==> final(entries)@.len() + 1 == old(entries)@.len(),
        keys_unique(old(entries)@) ==> member(final(entries)@, key@) is None,
        forall|k: Seq<char>| k != key@ ==> #[trigger] member(final(entries)@, k) == member(old(entries)@, k),
{
    let ghost before = entries@;
    match member_index(entries, key) {
        Some(i) => {
            proof {
                lemma_member_first(before, i as int);
            }
            let (_, value) = entries.remove(i);
            proof {
                before.remove_ensures(i as int);
                if keys_unique(before) {
                    assert forall|a: int, b: int| 0 <= a < b < entries@.len() implies (
                    #[trigger] entries@[a]).0@ != (#[trigger] entries@[b]).0@ by {
                        let a0 = if a < i { a } else { a + 1 };
                        let b0 = if b < i { b } else { b + 1 };
                        assert(entries@[a] == before[a0]);
                        assert(entries@[b] == before[b0]);
                    }
                }
                if keys_unique(before) {
                    assert forall|j: int| 0 <= j < entries@.len() implies (#[trigger] entries@[j]).0@ != key@ by {
                        let j0 = if j < i { j } else { j + 1 };
                        assert(entries@[j] == before[j0]);
                    }
                    lemma_member_absent(entries@, key@);
                }
                assert forall|k: Seq<char>| k != key@ implies #[trigger] member(entries@, k) == member(before, k) by {
                    lemma_member_remove(before, i as int, k);
                }
            }
            Some(value)
        },
        None => {
            proof {
                lemma_member_absent(before, key@);
            }
            None
        },
    }
}

/// Removes every member named `key`.
pub fn object_remove_all(entries: &mut Vec<(String, JsonValue)>, key: &str)
    ensures
        keys_unique(old(entries)@) ==> keys_unique(final(entries)@),
        member(final(entries)@, key@) is None,
        forall|k: Seq<char>| k != key@ ==> #[trigger] member(final(entries)@, k) == member(old(entries)@, k),
{
    loop
        invariant
            keys_unique(old(entries)@) ==> keys_unique(entries@),
            forall|k: Seq<char>| k != key@ ==> #[trigger] member(entries@, k) == member(old(entries)@, k),
        decreases entries@.len(),
    {
        match object_take(entries, key) {
            Some(_) => {},
            None => {
                return;
            },
        }
    }
}

/// Whether `a` and `b` hold the same JSON: equal scalars and texts, arrays and objects
/// member for member.
pub open spec fn same_value(a: JsonValue, b: JsonValue) -> bool
    decreases a,
{
    match (a, b) {
        (JsonValue::Null, JsonValue::Null) => true,
        (JsonValue::Bool(x), JsonValue::Bool(y)) => x == y,
        (JsonValue::Number(x), JsonValue::Number(y)) => x == y,
        (JsonValue::Fraction(x), JsonValue::Fraction(y)) => x@ == y@,
        (JsonValue::Str(x), JsonValue::Str(y)) => x@ == y@,
        (JsonValue::Array(x), JsonValue::Array(y)) => x@.len() == y@.len() && forall|i: int|
            0 <= i < x@.len() ==> same_value(#[trigger] x@[i], y@[i]),
        (JsonValue::Object(x), JsonValue::Object(y)) => x@.len() == y@.len() && forall|i: int|
            0 <= i < x@.len() ==> (#[trigger] x@[i]).0@ == y@[i].0@ && same_value(x@[i].1, y@[i].1),
        _ => false,
    }
}

/// A deep copy of a value.
pub fn copy_value(v: &JsonValue) -> (r: JsonValue)
    ensures
        same_value(*v, r),
    decreases *v,
{
    broadcast use vstd::std_specs::vec::group_vec_axioms;

    match v {
        JsonValue::Null => JsonValue::Null,
        JsonValue::Bool(b) => JsonValue::Bool(*b),
        JsonValue::Number(n) => JsonValue::Number(*n),
        JsonValue::Fraction(t) => JsonValue::Fraction(t.clone()),
        JsonValue::Str(s) => JsonValue::Str(s.clone()),
        JsonValue::Array(items) => {
            let mut out: Vec<JsonValue> = Vec::new();
            let mut i: usize = 0;
            while i < items.len()
                invariant
                    *v == JsonValue::Array(*items),
                    i <= items@.len(),
                    out@.len() == i,
                    forall|j: int| 0 <= j < i ==> same_value(#[trigger] items@[j], out@[j]),
                decreases items@.len() - i,
            {
                assert(decreases_to!(*v => v->Array_0));
                assert(decreases_to!(*items => items[i as int]));
                let c = copy_value(&items[i]);
                out.push(c);
                i = i + 1;
            }
            JsonValue::Array(out)
        },
        JsonValue::Object(entries) => {
            let mut out: Vec<(String, JsonValue)> = Vec::new();
            let mut i: usize = 0;
            while i < entries.len()
                invariant
                    *v == JsonValue::Object(*entries),
                    i <= entries@.len(),
                    out@.len() == i,
                    forall|j: int|
                        0 <= j < i ==> (#[trigger] entries@[j]).0@ == out@[j].0@ && same_value(
                            entries@[j].1,
                            out@[j].1,
                        ),
                decreases entries@.len() - i,
            {
                assert(decreases_to!(*v => v->Object_0));
                assert(decreases_to!(*entries => entries[i as int]));
                assert(decreases_to!(entries[i as int] => entries[i as int].1));
                let c = copy_value(&entries[i].1);
                out.push((entries[i].0.clone(), c));
                i = i + 1;
            }
            JsonValue::Object(out)
        },
    }
}

} // verus!
