use vstd::prelude::*;
use vstd::string::*;
use serde_json::Value as V;

verus! {

/// A JSON value as the library reads it: its outermost layer, with every
/// nested value kept as its JSON text.
#[derive(Clone, Debug)]
pub enum Json {
    Null,
    Bool(bool),
    /// A number, as written in JSON text.
    Number(String),
    Str(String),
    /// The elements, each as JSON text.
    Array(Vec<String>),
    /// The members, each a key and its value as JSON text.
    Object(Vec<(String, String)>),
}

/// What serde_json reads from a text: `None` where the text is not JSON. It
/// stands for two functions of serde_json: `from_str`, which reads the value,
/// and the `Display` of `Value`, which writes each nested value back as text.
pub uninterp spec fn json_of(text: Seq<char>) -> Option<Json>;

/// A lower-case hex digit.
pub open spec fn hex_digit(n: int) -> char {
    seq!['0', '1', '2', '3', '4', '5', '6', '7', '8', '9', 'a', 'b', 'c', 'd', 'e', 'f'][n]
}

/// How one char stands in a JSON string: `"` and `\` after a backslash; the
/// control chars backspace, tab, line feed, form feed and carriage return as
/// `\b \t \n \f \r`; any other char below 0x20 as `\u00` and two hex
/// digits; every other char as itself.
pub open spec fn escaped(c: char) -> Seq<char> {
    let n = c as u32 as int;
    if c == '"' {
        seq!['\\', '"']
    } else if c == '\\' {
        seq!['\\', '\\']
    } else if n == 0x08 {
        seq!['\\', 'b']
    } else if n == 0x09 {
        seq!['\\', 't']
    } else if n == 0x0a {
        seq!['\\', 'n']
    } else if n == 0x0c {
        seq!['\\', 'f']
    } else if n == 0x0d {
        seq!['\\', 'r']
    } else if n < 0x20 {
        seq!['\\', 'u', '0', '0', hex_digit(n / 16), hex_digit(n % 16)]
    } else {
        seq![c]
    }
}

/// The JSON text of a string: between quote marks, each char escaped.
pub open spec fn quoted(s: Seq<char>) -> Seq<char> {
    seq!['"'] + s.map_values(|c: char| escaped(c)).flatten() + seq!['"']
}

/// Relies on serde_json::from_str into serde_json::Value, and on the Display
/// of serde_json::Value and serde_json::Number to hand on nested values as text.
#[verifier::external_body]
pub(crate) fn parse_json(text: &str) -> (r: Option<Json>)
    ensures
        r == json_of(text@),
{
    match serde_json::from_str::<V>(text) {
        Ok(V::Null) => Some(Json::Null),
        Ok(V::Bool(b)) => Some(Json::Bool(b)),
        Ok(V::Number(n)) => Some(Json::Number(n.to_string())),
        Ok(V::String(s)) => Some(Json::Str(s)),
        Ok(V::Array(a)) => Some(Json::Array(a.iter().map(|x| x.to_string()).collect())),
        Ok(V::Object(o)) => Some(Json::Object(o.iter().map(|(k, x)| (k.clone(), x.to_string())).collect())),
        Err(_) => None,
    }
}

/// Relies on the Display of serde_json::Value to write a string as JSON text
/// (format_escaped_str: quote marks around the text, escapes by its table).
#[verifier::external_body]
pub(crate) fn quote(s: &str) -> (r: String)
    ensures
        r@ == quoted(s@),
{
    serde_json::Value::String(s.to_string()).to_string()
}

/// A text, where there is one.
pub open spec fn text_of(t: Option<String>) -> Option<Seq<char>> {
    match t {
        Some(s) => Some(s@),
        None => None,
    }
}

/// The parameters that a parsed query gives, from its JSON text: `None` where
/// the query did not parse or does not read as an object (a query that reads
/// as `null` gives no parameters).
pub open spec fn query_params_of(query: Option<Seq<char>>) -> Option<Seq<(String, String)>> {
    match query {
        None => None,
        Some(t) => match json_of(t) {
            Some(Json::Null) => Some(Seq::empty()),
            Some(Json::Object(m)) => Some(m@),
            _ => None,
        },
    }
}

/// The parameters of a query, given as the JSON text that the query string
/// parsed into (`None` where it did not parse), each a key and a JSON text.
pub fn parse_query(query: Option<String>) -> (r: Option<Vec<(String, String)>>)
    ensures
        r is Some <==> query_params_of(text_of(query)) is Some,
        r is Some ==> r->Some_0@ == query_params_of(text_of(query))->Some_0,
{
    match query {
        None => None,
        Some(t) => match parse_json(t.as_str()) {
            Some(Json::Null) => Some(Vec::new()),
            Some(Json::Object(m)) => Some(m),
            _ => None,
        },
    }
}

/// The body of an error reply: the array `["error!", message]`.
pub open spec fn error_text(msg: Seq<char>) -> Seq<char> {
    seq!['['] + quoted("error!"@) + seq![','] + quoted(msg) + seq![']']
}

/// Writes the error array `["error!", message]` as JSON text.
pub fn error_body(msg: &str) -> (r: String)
    ensures
        r@ == error_text(msg@),
{
    let mut r = String::from_str("[");
    let head = quote("error!");
    r.append(head.as_str());
    r.append(",");
    let m = quote(msg);
    r.append(m.as_str());
    r.append("]");
    proof {
        reveal_strlit("[");
        reveal_strlit(",");
        reveal_strlit("]");
    }
    assert(r@ == error_text(msg@));
    r
}

} // verus!
