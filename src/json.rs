//! A JSON value as the guest-agent protocol carries it: one level at a time.
//! Scalars are held as such; the items of an array and the member values of an
//! object are held as their compact JSON text, which is parsed again when a
//! member is looked at. Parsing and the quoting of strings are done by serde_json.
//! Nothing here prints JSON values: where a value's text is needed, the text
//! serde_json printed for it is kept.

use vstd::prelude::*;

verus! {

/// A JSON value, with nested values kept as text.
#[derive(Debug)]
pub enum Json {
    Null,
    Bool(bool),
    /// A number, in the notation serde_json prints for it.
    Number(String),
    Str(String),
    /// The items, each as its compact JSON text.
    Array(Vec<String>),
    /// The members in order, each value as its compact JSON text. A parsed object
    /// has each key once, in the order of serde_json's map.
    Object(Vec<(String, String)>),
}

/// The value serde_json reads from a text, or `None` where the text is not JSON.
pub uninterp spec fn parsed_json(text: Seq<char>) -> Option<Json>;

/// Hex digit for `d < 16`, in lower case.
pub open spec fn hex_digit(d: nat) -> char {
    if d < 10 {
        ('0' as nat + d) as char
    } else {
        ('a' as nat + (d - 10)) as char
    }
}

/// How serde_json writes `c` inside a string literal: `"` and `\` and the
/// control characters escaped (`\b \t \n \f \r` by name, the others as
/// `\u00XX`), everything else as it is.
pub open spec fn escaped(c: char) -> Seq<char> {
    if c == '"' {
        seq!['\\', '"']
    } else if c == '\\' {
        seq!['\\', '\\']
    } else if c == '\u{8}' {
        seq!['\\', 'b']
    } else if c == '\t' {
        seq!['\\', 't']
    } else if c == '\n' {
        seq!['\\', 'n']
    } else if c == '\u{c}' {
        seq!['\\', 'f']
    } else if c == '\r' {
        seq!['\\', 'r']
    } else if (c as u32) < 0x20 {
        seq!['\\', 'u', '0', '0', hex_digit((c as u32 / 16) as nat), hex_digit((c as u32 % 16) as nat)]
    } else {
        seq![c]
    }
}

/// The characters of `s`, each as serde_json writes it inside a string literal.
pub open spec fn escaped_all(s: Seq<char>) -> Seq<char>
    decreases s.len(),
{
    if s.len() == 0 {
        Seq::empty()
    } else {
        escaped_all(s.drop_last()) + escaped(s.last())
    }
}

/// The JSON string literal that serde_json writes for `s`.
pub open spec fn json_quoted(s: Seq<char>) -> Seq<char> {
    seq!['"'] + escaped_all(s) + seq!['"']
}

/// Relies on serde_json::from_str into serde_json::Value: whether the text parses,
/// and into what, depends on the text alone. The value's top level is converted
/// variant for variant; numbers, items and member values are written back with
/// serde_json's own compact `Display`.
#[verifier::external_body]
pub fn parse_json(text: &str) -> (r: Option<Json>)
    ensures
        r == parsed_json(text@),
{
    match serde_json::from_str::<serde_json::Value>(text).ok()? {
        serde_json::Value::Null => Some(Json::Null),
        serde_json::Value::Bool(b) => Some(Json::Bool(b)),
        serde_json::Value::Number(n) => Some(Json::Number(n.to_string())),
        serde_json::Value::String(s) => Some(Json::Str(s)),
        serde_json::Value::Array(a) => Some(Json::Array(a.iter().map(|v| v.to_string()).collect())),
        serde_json::Value::Object(m) => Some(
            Json::Object(m.iter().map(|(k, v)| (k.clone(), v.to_string())).collect()),
        ),
    }
}

/// Relies on serde_json::to_string on a string slice: `format_escaped_str` with
/// its `ESCAPE` table and `write_char_escape` (lower-case hex). Serializing a
/// string cannot fail.
#[verifier::external_body]
pub fn quote_json(s: &str) -> (r: String)
    ensures
        r@ == json_quoted(s@),
{
    serde_json::to_string(s).unwrap_or_default()
}

/// The text of the first member of `members` named `key`.
pub open spec fn member(members: Seq<(String, String)>, key: Seq<char>) -> Option<Seq<char>>
    decreases members.len(),
{
    if members.len() == 0 {
        None
    } else if members[0].0@ == key {
        Some(members[0].1@)
    } else {
        member(members.drop_first(), key)
    }
}

/// The text of the member `key` of `j`, where `j` is an object that has one.
pub open spec fn member_text(j: Json, key: Seq<char>) -> Option<Seq<char>> {
    match j {
        Json::Object(o) => member(o@, key),
        _ => None,
    }
}

/// The member `key` of `j`, where `j` is an object that has one, parsed.
pub open spec fn field(j: Json, key: Seq<char>) -> Option<Json> {
    match member_text(j, key) {
        Some(t) => parsed_json(t),
        None => None,
    }
}

/// The member `key` of `j`, where it is a string.
pub open spec fn str_field(j: Json, key: Seq<char>) -> Option<Seq<char>> {
    match field(j, key) {
        Some(Json::Str(s)) => Some(s@),
        _ => None,
    }
}

/// Index of the first member of `o` named `key`.
fn member_index(o: &Vec<(String, String)>, key: &str) -> (r: Option<usize>)
    ensures
        r is Some == member(o@, key@) is Some,
        r is Some ==> r->0 < o@.len() && member(o@, key@) == Some(o@[r->0 as int].1@),
{
    let k = String::from_str(key);
    let mut i: usize = 0;
    assert(o@.subrange(0, o@.len() as int) =~= o@);
    while i < o.len()
        invariant
            k@ == key@,
            i <= o@.len(),
            member(o@, key@) == member(o@.subrange(i as int, o@.len() as int), key@),
        decreases o@.len() - i,
    {
        proof {
            let rest = o@.subrange(i as int, o@.len() as int);
            assert(rest.drop_first() =~= o@.subrange(i + 1, o@.len() as int));
            assert(rest[0] == o@[i as int]);
        }
        if o[i].0 == k {
            return Some(i);
        }
        i += 1;
    }
    None
}

impl Json {
    /// The text of the member `key`, where `self` is an object that has one.
    pub fn member_text(&self, key: &str) -> (r: Option<&String>)
        ensures
            r is Some == member_text(*self, key@) is Some,
            r is Some ==> r->0@ == member_text(*self, key@)->0,
    {
        match self {
            Json::Object(o) => match member_index(o, key) {
                Some(i) => Some(&o[i].1),
                None => None,
            },
            _ => None,
        }
    }

    /// The member `key`, where `self` is an object that has one, parsed.
    pub fn get(&self, key: &str) -> (r: Option<Json>)
        ensures
            r == field(*self, key@),
    {
        match self.member_text(key) {
            Some(t) => parse_json(t.as_str()),
            None => None,
        }
    }

    /// The member `key`, where it is a string.
    pub fn get_str(&self, key: &str) -> (r: Option<String>)
        ensures
            r is Some == str_field(*self, key@) is Some,
            r is Some ==> r->0@ == str_field(*self, key@)->0,
    {
        match self.get(key) {
            Some(Json::Str(s)) => Some(s),
            _ => None,
        }
    }
}

/// The views of `v`'s strings.
pub open spec fn views(v: Seq<String>) -> Seq<Seq<char>> {
    v.map_values(|s: String| s@)
}

} // verus!
