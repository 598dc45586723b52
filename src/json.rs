//! A JSON document tree as the ingestion logic reads it, and the tolerant
//! field coercion applied to it.
use vstd::prelude::*;
use vstd::string::StringExecFns;
use crate::text::{chars_of, same_text};

verus! {

/// A JSON value. A number is held as the decimal text it prints as.
#[derive(Debug)]
pub enum Json {
    Null,
    Bool(bool),
    Number(String),
    Str(String),
    Array(Vec<Json>),
    Object(Vec<(String, Json)>),
}

/// The value under `key` among `entries`: the first entry with that key.
pub open spec fn lookup(entries: Seq<(String, Json)>, key: Seq<char>) -> Option<Json>
    decreases entries.len(),
{
    if entries.len() == 0 {
        None
    } else if entries[0].0@ == key {
        Some(entries[0].1)
    } else {
        lookup(entries.drop_first(), key)
    }
}

/// The field `key` of an object; nothing for any other value.
pub open spec fn field(v: Json, key: Seq<char>) -> Option<Json> {
    match v {
        Json::Object(entries) => lookup(entries@, key),
        _ => None,
    }
}

/// The text that a scalar stands for: a string itself, a number's decimal
/// text, `true` or `false`.
pub open spec fn scalar_text(v: Json) -> Option<Seq<char>> {
    match v {
        Json::Str(s) => Some(s@),
        Json::Number(t) => Some(t@),
        Json::Bool(b) => Some(if b { "true"@ } else { "false"@ }),
        _ => None,
    }
}

/// A field coerced to text.
pub open spec fn text_field(v: Json, key: Seq<char>) -> Option<Seq<char>> {
    match field(v, key) {
        Some(f) => scalar_text(f),
        None => None,
    }
}

/// The view of an optional string.
pub open spec fn opt_view(o: Option<String>) -> Option<Seq<char>> {
    match o {
        Some(s) => Some(s@),
        None => None,
    }
}

/// The boolean that a text spells.
pub open spec fn bool_of_text(t: Seq<char>) -> Option<bool> {
    if t == "true"@ {
        Some(true)
    } else if t == "false"@ {
        Some(false)
    } else {
        None
    }
}

/// A field coerced to a boolean.
pub open spec fn bool_field(v: Json, key: Seq<char>) -> Option<bool> {
    match text_field(v, key) {
        Some(t) => bool_of_text(t),
        None => None,
    }
}

pub open spec fn is_digit(c: char) -> bool {
    '0' <= c && c <= '9'
}

/// The value of a run of decimal digits.
pub open spec fn digits_value(d: Seq<char>) -> nat
    decreases d.len(),
{
    if d.len() == 0 {
        0
    } else {
        digits_value(d.drop_last()) * 10 + ((d.last() as nat) - ('0' as nat)) as nat
    }
}

/// The digits of an unsigned decimal text, with its optional leading `+`.
pub open spec fn unsigned_digits(t: Seq<char>) -> Seq<char> {
    if t.len() > 0 && t[0] == '+' {
        t.drop_first()
    } else {
        t
    }
}

/// The unsigned integer that a text spells, as `usize::from_str` reads it.
pub open spec fn usize_of_text(t: Seq<char>) -> Option<usize> {
    let d = unsigned_digits(t);
    if d.len() > 0 && (forall|i: int| 0 <= i < d.len() ==> is_digit(#[trigger] d[i]))
        && digits_value(d) <= usize::MAX {
        Some(digits_value(d) as usize)
    } else {
        None
    }
}

/// A field coerced to an unsigned integer.
pub open spec fn usize_field(v: Json, key: Seq<char>) -> Option<usize> {
    match text_field(v, key) {
        Some(t) => usize_of_text(t),
        None => None,
    }
}

impl Json {
    /// The field `key` of an object.
    pub fn get(&self, key: &str) -> (r: Option<&Json>)
        ensures
            match r {
                Some(x) => field(*self, key@) == Some(*x),
                None => field(*self, key@) is None,
            },
    {
        match self {
            Json::Object(entries) => {
                let k = String::from_str(key);
                let mut i: usize = 0;
                assert(entries@.subrange(0, entries@.len() as int) =~= entries@);
                while i < entries.len()
                    invariant
                        i <= entries@.len(),
                        k@ == key@,
                        field(*self, key@) == lookup(entries@, key@),
                        lookup(entries@, key@) == lookup(entries@.subrange(i as int, entries@.len() as int), key@),
                    decreases entries.len() - i,
                {
                    let ghost rest = entries@.subrange(i as int, entries@.len() as int);
                    assert(rest.drop_first() =~= entries@.subrange(i + 1, entries@.len() as int));
                    assert(rest[0] == entries@[i as int]);
                    if entries[i].0 == k {
                        assert(lookup(rest, key@) == Some(entries@[i as int].1));
                        return Some(&entries[i].1);
                    }
                    i = i + 1;
                }
                None
            },
            _ => None,
        }
    }

    /// The text of a string value, without coercion.
    pub fn as_str(&self) -> (r: Option<&String>)
        ensures
            match r {
                Some(x) => *self == Json::Str(*x),
                None => !(*self is Str),
            },
    {
        match self {
            Json::Str(s) => Some(s),
            _ => None,
        }
    }

    /// The items of an array value.
    pub fn as_array(&self) -> (r: Option<&Vec<Json>>)
        ensures
            match r {
                Some(x) => *self == Json::Array(*x),
                None => !(*self is Array),
            },
    {
        match self {
            Json::Array(a) => Some(a),
            _ => None,
        }
    }

    /// Whether this is the null value.
    pub fn is_null(&self) -> (r: bool)
        ensures
            r == (*self is Null),
    {
        match self {
            Json::Null => true,
            _ => false,
        }
    }
}

/// The text a scalar stands for.
pub fn scalar_to_text(v: &Json) -> (r: Option<String>)
    ensures
        opt_view(r) == scalar_text(*v),
{
    match v {
        Json::Str(s) => Some(s.clone()),
        Json::Number(t) => Some(t.clone()),
        Json::Bool(b) => if *b {
            Some(String::from_str("true"))
        } else {
            Some(String::from_str("false"))
        },
        _ => None,
    }
}

/// Field `key` of `v`, coerced to text from a string, number or boolean.
pub fn get_text(v: &Json, key: &str) -> (r: Option<String>)
    ensures
        opt_view(r) == text_field(*v, key@),
{
    match v.get(key) {
        Some(f) => scalar_to_text(f),
        None => None,
    }
}

/// Field `key` of `v`, coerced to a boolean.
pub fn get_bool(v: &Json, key: &str) -> (r: Option<bool>)
    ensures
        r == bool_field(*v, key@),
{
    match get_text(v, key) {
        Some(t) => {
            if same_text(t.as_str(), "true") {
                Some(true)
            } else if same_text(t.as_str(), "false") {
                Some(false)
            } else {
                None
            }
        },
        None => None,
    }
}

/// Reads an unsigned decimal integer, as `usize::from_str` does.
pub fn parse_usize(t: &str) -> (r: Option<usize>)
    ensures
        r == usize_of_text(t@),
{
    let cs = chars_of(t);
    let mut i: usize = 0;
    if cs.len() > 0 && cs[0] == '+' {
        i = 1;
    }
    let ghost d = unsigned_digits(t@);
    assert(d =~= t@.subrange(i as int, t@.len() as int));
    if i == cs.len() {
        return None;
    }
    let mut value: usize = 0;
    let mut j: usize = i;
    while j < cs.len()
        invariant
            cs@ == t@,
            i <= j <= cs@.len(),
            d == unsigned_digits(t@),
            d =~= t@.subrange(i as int, t@.len() as int),
            forall|k: int| 0 <= k < j - i ==> is_digit(#[trigger] d[k]),
            value == digits_value(d.take(j - i)),
        decreases cs.len() - j,
    {
        let c = cs[j];
        assert(d[j - i] == c);
        if !('0' <= c && c <= '9') {
            let ghost k: int = j - i;
            assert(0 <= k < d.len() && !is_digit(d[k]));
            assert(!(forall|m: int| 0 <= m < d.len() ==> is_digit(#[trigger] d[m])));
            assert(usize_of_text(t@) is None);
            return None;
        }
        let digit = (c as u32 - '0' as u32) as usize;
        assert(d.take(j - i + 1).drop_last() =~= d.take(j - i));
        assert(d.take(j - i + 1).last() == c);
        assert(digits_value(d.take(j - i + 1)) == value * 10 + digit);
        if value > (usize::MAX - digit) / 10 {
            assert(value * 10 + digit > usize::MAX) by (nonlinear_arith)
                requires
                    value > (usize::MAX - digit) / 10,
                    digit <= 9,
            ;
            proof { lemma_digits_grow(d, (j - i + 1) as nat); }
            assert(usize_of_text(t@) is None);
            return None;
        }
        value = value * 10 + digit;
        j = j + 1;
    }
    assert(d.take(d.len() as int) =~= d);
    Some(value)
}

/// A longer run of digits is worth at least as much as its prefix.
proof fn lemma_digits_grow(d: Seq<char>, n: nat)
    requires
        n <= d.len(),
    ensures
        digits_value(d.take(n as int)) <= digits_value(d),
    decreases d.len() - n,
{
    if n < d.len() {
        lemma_digits_grow(d, n + 1);
        assert(d.take((n + 1) as int).drop_last() =~= d.take(n as int));
    } else {
        assert(d.take(n as int) =~= d);
    }
}

/// Field `key` of `v`, coerced to an unsigned integer.
pub fn get_usize(v: &Json, key: &str) -> (r: Option<usize>)
    ensures
        r == usize_field(*v, key@),
{
    match get_text(v, key) {
        Some(t) => parse_usize(t.as_str()),
        None => None,
    }
}

#[verifier::external_type_specification]
#[verifier::external_body]
pub struct ExValue(serde_json::Value);

/// The tree that a JSON text parses to; nothing when it is not JSON.
pub uninterp spec fn json_tree(text: Seq<char>) -> Option<Json>;

/// The tree that a YAML text parses to; nothing when it is not YAML that
/// maps onto a JSON tree.
pub uninterp spec fn yaml_tree(text: Seq<char>) -> Option<Json>;

/// Relies on serde_json::Number::as_f64 and the `Display` of `f64`: carries
/// a serde_json value over into the library's own tree, one node for one
/// node, a number becoming the decimal text of its `f64` value.
#[verifier::external_body]
fn tree_of_value(v: serde_json::Value) -> Json {
    match v {
        serde_json::Value::Null => Json::Null,
        serde_json::Value::Bool(b) => Json::Bool(b),
        serde_json::Value::Number(n) => match n.as_f64() {
            Some(x) => Json::Number(x.to_string()),
            None => Json::Null,
        },
        serde_json::Value::String(s) => Json::Str(s),
        serde_json::Value::Array(a) => Json::Array(a.into_iter().map(tree_of_value).collect()),
        serde_json::Value::Object(o) => Json::Object(o.into_iter().map(|(k, x)| (k, tree_of_value(x))).collect()),
    }
}

/// Relies on serde_json::from_str: parses a JSON text, the result depending
/// on the text alone.
#[verifier::external_body]
pub(crate) fn parse_json_text(text: &str) -> (r: Option<Json>)
    ensures
        r == json_tree(text@),
{
    serde_json::from_str::<serde_json::Value>(text).ok().map(tree_of_value)
}

/// Relies on serde_yaml_ng::from_str: parses a YAML text into a JSON-shaped
/// tree, the result depending on the text alone.
#[verifier::external_body]
pub(crate) fn parse_yaml_text(text: &str) -> (r: Option<Json>)
    ensures
        r == yaml_tree(text@),
{
    serde_yaml_ng::from_str::<serde_json::Value>(text).ok().map(tree_of_value)
}

} // verus!
