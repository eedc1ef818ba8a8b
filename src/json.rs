use vstd::prelude::*;

verus! {

/// The string under the key `name` of the JSON object that `text` holds;
/// none when `text` is not a JSON object or has no such string.
pub uninterp spec fn sheet_name(text: Seq<char>) -> Option<Seq<char>>;

/// Relies on serde_json::from_str into a serde_json::Value, then Value::get
/// and Value::as_str: the string stored under "name" when the text is a JSON
/// object that has one, nothing otherwise. The answer depends on the text alone.
#[verifier::external_body]
pub(crate) fn read_sheet_name(text: &str) -> (r: Option<String>)
    ensures
        match r {
            Some(n) => sheet_name(text@) == Some(n@),
            None => sheet_name(text@) is None,
        },
{
    let value: serde_json::Value = serde_json::from_str(text).ok()?;
    value.get("name").and_then(serde_json::Value::as_str).map(String::from)
}

/// A lower-case hexadecimal digit, for `d` below sixteen.
pub open spec fn hex_digit(d: nat) -> char {
    if d < 10 {
        (('0' as nat) + d) as char
    } else {
        (('a' as nat) + d - 10) as char
    }
}

/// How one character is written inside a JSON string: quote and backslash
/// get a backslash, the control characters below 0x20 get their short escape
/// or `\u00XX`, every other character stays as it is.
pub open spec fn json_escaped_char(c: char) -> Seq<char> {
    if c == '"' {
        seq!['\\', '"']
    } else if c == '\\' {
        seq!['\\', '\\']
    } else if c == '\u{8}' {
        seq!['\\', 'b']
    } else if c == '\t' {
        seq!['\\', 't']
    } else if c == '\n' {
        seq!['\\', 'n']
    } else if c == '\u{c}' {
        seq!['\\', 'f']
    } else if c == '\r' {
        seq!['\\', 'r']
    } else if (c as nat) < 0x20 {
        seq!['\\', 'u', '0', '0', hex_digit((c as nat) / 16), hex_digit((c as nat) % 16)]
    } else {
        seq![c]
    }
}

/// The characters of `text`, each written as inside a JSON string.
pub open spec fn json_escaped(text: Seq<char>) -> Seq<char>
    decreases text.len(),
{
    if text.len() == 0 {
        Seq::empty()
    } else {
        json_escaped(text.drop_last()) + json_escaped_char(text.last())
    }
}

/// The JSON string literal that stands for `text`, quotes included.
pub open spec fn json_quoted(text: Seq<char>) -> Seq<char> {
    seq!['"'] + json_escaped(text) + seq!['"']
}

/// Relies on serde_json::to_string on a `str`: it writes the text between
/// double quotes, escaping each character by the rule of `json_escaped_char`
/// (serde_json's escape table and `write_char_escape`, compact formatter).
/// Writing a string into a byte buffer has no way to fail.
#[verifier::external_body]
pub(crate) fn quote_json(text: &str) -> (r: String)
    ensures
        r@ == json_quoted(text@),
{
    serde_json::to_string(text).expect("a string always serializes to JSON")
}

} // verus!
