//! JSON documents as plain data, and the outside computations on JSON
//! text: reading it and selecting from it by a JSONPath.

use crate::number::Double;
use crate::text::{chars_of, split, split_chars, views};
use vstd::prelude::*;
use vstd::string::StringExecFns;

verus! {

/// A JSON number: an integer that fits an `i64`, a larger unsigned
/// integer, or a double.
#[derive(Debug, PartialEq, Clone)]
pub enum JsonNumber {
    Int(i64),
    UInt(u64),
    Float(Double),
}

/// A member of a JSON object.
#[derive(Debug, PartialEq)]
pub struct Member {
    pub key: String,
    pub value: Json,
}

/// A JSON document.
#[derive(Debug, PartialEq)]
pub enum Json {
    Null,
    Bool(bool),
    Number(JsonNumber),
    String(String),
    Array(Vec<Json>),
    Object(Vec<Member>),
}

/// The value of the first member of `members` whose key is `key`.
pub open spec fn find_member(members: Seq<Member>, key: Seq<char>) -> Option<Json>
    decreases members.len(),
{
    if members.len() == 0 {
        None
    } else if members[0].key@ == key {
        Some(members[0].value)
    } else {
        find_member(members.drop_first(), key)
    }
}

impl Json {
    /// The member of an object with the key `key`; `None` for a document
    /// that is no object or has no such member.
    pub open spec fn member(self, key: Seq<char>) -> Option<Json> {
        match self {
            Json::Object(members) => find_member(members@, key),
            _ => None,
        }
    }

    /// The member of an object with the key `key`, as `member` defines it.
    pub fn get(&self, key: &str) -> (r: Option<&Json>)
        ensures
            match self.member(key@) {
                Some(v) => r is Some && *r->Some_0 == v,
                None => r is None,
            },
    {
        match self {
            Json::Object(members) => find_in(members, key),
            _ => None,
        }
    }
}

fn find_in<'a>(members: &'a Vec<Member>, key: &str) -> (r: Option<&'a Json>)
    ensures
        match find_member(members@, key@) {
            Some(v) => r is Some && *r->Some_0 == v,
            None => r is None,
        },
{
    let wanted = String::from_str(key);
    let mut i: usize = 0;
    assert(members@.skip(0) == members@);
    while i < members.len()
        invariant
            i <= members.len(),
            wanted@ == key@,
            find_member(members@.skip(i as int), key@) == find_member(members@, key@),
        decreases members.len() - i,
    {
        let ghost rest = members@.skip(i as int);
        assert(rest[0] == members@[i as int]);
        assert(rest.drop_first() == members@.skip(i + 1));
        if members[i].key == wanted {
            return Some(&members[i].value);
        }
        i += 1;
    }
    None
}

/// A number by the parts that `serde_json::Number` offers: as an `i64`, as
/// a `u64`, and as a double by its bits and its `Display`.
#[derive(Debug, PartialEq, Clone)]
pub struct NumberParts {
    pub signed: Option<i64>,
    pub unsigned: Option<u64>,
    pub double: Option<Double>,
}

/// A JSON value without what it contains: for an array or an object only
/// that it is one.
#[derive(Debug, PartialEq, Clone)]
pub enum Leaf {
    Null,
    Bool(bool),
    Number(NumberParts),
    Text(String),
    Array,
    Object,
}

/// The number that the parts stand for: an `i64` where there is one, else
/// a `u64`, else the double.
pub open spec fn number_from(parts: NumberParts) -> JsonNumber {
    match (parts.signed, parts.unsigned, parts.double) {
        (Some(i), _, _) => JsonNumber::Int(i),
        (None, Some(u), _) => JsonNumber::UInt(u),
        (None, None, Some(d)) => JsonNumber::Float(d),
        (None, None, None) => JsonNumber::UInt(0),
    }
}

/// The number that the parts stand for.
pub fn number_of(parts: NumberParts) -> (r: JsonNumber)
    ensures
        r == number_from(parts),
{
    match (parts.signed, parts.unsigned, parts.double) {
        (Some(i), _, _) => JsonNumber::Int(i),
        (None, Some(u), _) => JsonNumber::UInt(u),
        (None, None, Some(d)) => JsonNumber::Float(d),
        (None, None, None) => JsonNumber::UInt(0),
    }
}

/// The compact text of the document that `serde_json::from_str` reads
/// from a text, and `None` where it reports an error.
pub uninterp spec fn json_compact(text: Seq<char>) -> Option<Seq<char>>;

/// Whether a character may stand in a key of a dotted path: an ASCII
/// letter or digit, `_` or `-`.
pub open spec fn is_key_char(c: char) -> bool {
    ('a' <= c <= 'z') || ('A' <= c <= 'Z') || ('0' <= c <= '9') || c == '_' || c == '-'
}

/// Whether a text is a key of a dotted path: one or more key characters.
pub open spec fn is_key(key: Seq<char>) -> bool {
    key.len() > 0 && forall|i: int| 0 <= i < key.len() ==> is_key_char(#[trigger] key[i])
}

/// Whether a path has the form `$.key.key`: a `$`, then one or more keys,
/// each after a dot. These are the paths that the library selects by.
pub open spec fn dotted_path(path: Seq<char>) -> bool {
    let parts = split(path, seq!['.']);
    &&& parts.len() >= 2
    &&& parts[0] == seq!['$']
    &&& forall|k: int| 1 <= k < parts.len() ==> is_key(#[trigger] parts[k])
}

fn key_chars(key: &Vec<char>) -> (r: bool)
    ensures
        r == is_key(key@),
{
    if key.len() == 0 {
        return false;
    }
    let mut i: usize = 0;
    while i < key.len()
        invariant
            i <= key.len(),
            forall|k: int| 0 <= k < i ==> is_key_char(#[trigger] key@[k]),
        decreases key.len() - i,
    {
        let c: char = key[i];
        let fits: bool = (c >= 'a' && c <= 'z') || (c >= 'A' && c <= 'Z') || (c >= '0' && c
            <= '9') || c == '_' || c == '-';
        if !fits {
            return false;
        }
        i += 1;
    }
    true
}

/// Whether a path has the form `$.key.key`.
pub fn is_dotted_path(path: &str) -> (r: bool)
    ensures
        r == dotted_path(path@),
{
    let parts = split_chars(&chars_of(path), &chars_of("."));
    proof {
        reveal_strlit(".");
        assert("."@ =~= seq!['.']);
    }
    let ghost all = views(parts@);
    if parts.len() < 2 || parts[0].len() != 1 || parts[0][0] != '$' {
        assert(parts@.len() >= 2 ==> all[0] == parts@[0]@);
        assert(parts@.len() >= 2 ==> all[0] != seq!['$']) by {
            if parts@.len() >= 2 && all[0] == seq!['$'] {
                assert(all[0].len() == 1);
                assert(all[0][0] == '$');
            }
        }
        return false;
    }
    assert(all[0] =~= seq!['$']);
    let mut k: usize = 1;
    while k < parts.len()
        invariant
            1 <= k <= parts.len(),
            parts.len() >= 2,
            all == views(parts@),
            all == split(path@, seq!['.']),
            all[0] == seq!['$'],
            forall|j: int| 1 <= j < k ==> is_key(#[trigger] all[j]),
        decreases parts.len() - k,
    {
        assert(all[k as int] == parts@[k as int]@);
        if !key_chars(&parts[k]) {
            return false;
        }
        k += 1;
    }
    true
}

/// The values that `jsonpath_lib::select` finds for a path in the
/// document that `serde_json::from_str` reads from a text, in the order in
/// which it finds them, each without what it contains; `None` where one
/// of the two reports an error.
pub uninterp spec fn jsonpath_matches(document: Seq<char>, path: Seq<char>) -> Option<Seq<Leaf>>;

/// Reads a JSON document with `serde_json::from_str` and writes it back
/// with the `Display` of `serde_json::Value`, which is compact. Trusted:
/// the result is a function of the text alone; `None` stands for an error
/// of the parser.
#[verifier::external_body]
pub(crate) fn compact_json(text: &str) -> (r: Option<String>)
    ensures
        r is Some <==> json_compact(text@) is Some,
        r is Some ==> r->Some_0@ == json_compact(text@)->Some_0,
{
    serde_json::from_str::<serde_json::Value>(text).ok().map(|v| v.to_string())
}

/// Reads a JSON document with `serde_json::from_str`, selects from it with
/// `jsonpath_lib::select` and hands out every value found, a number by the
/// parts that `serde_json::Number` offers. Trusted: the result is a
/// function of the two texts alone; `None` stands for an error of either
/// crate. The path must be a dotted path: on other paths the selection can
/// abort.
#[verifier::external_body]
pub(crate) fn select_all(document: &str, path: &str) -> (r: Option<Vec<Leaf>>)
    requires
        dotted_path(path@),
    ensures
        match jsonpath_matches(document@, path@) {
            Some(found) => r is Some && r->Some_0@ == found,
            None => r is None,
        },
{
    let parsed = serde_json::from_str::<serde_json::Value>(document).ok()?;
    Some(jsonpath_lib::select(&parsed, path).ok()?.into_iter().map(|v| match v {
        serde_json::Value::Null => Leaf::Null,
        serde_json::Value::Bool(b) => Leaf::Bool(*b),
        serde_json::Value::Number(n) => Leaf::Number(NumberParts {
            signed: n.as_i64(),
            unsigned: n.as_u64(),
            double: n.as_f64().map(|f| Double { bits: f.to_bits(), shown: format!("{}", f) }),
        }),
        serde_json::Value::String(s) => Leaf::Text(s.clone()),
        serde_json::Value::Array(_) => Leaf::Array,
        serde_json::Value::Object(_) => Leaf::Object,
    }).collect())
}

} // verus!
