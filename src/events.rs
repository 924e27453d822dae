//! The JSON texts that the server sends to its clients.
//!
//! Each event is an object whose keys are written in ascending order; string
//! values are quoted and escaped by serde_json.
use vstd::prelude::*;
use crate::text::push_str;

verus! {

/// A lowercase hexadecimal digit of value `d`, from 0 to 15.
pub open spec fn lower_hex_char(d: int) -> char {
    if d < 10 {
        crate::text::digit_char(d)
    } else if d == 10 {
        'a'
    } else if d == 11 {
        'b'
    } else if d == 12 {
        'c'
    } else if d == 13 {
        'd'
    } else if d == 14 {
        'e'
    } else {
        'f'
    }
}

/// How one character appears inside a JSON string literal: the quote, the
/// backslash and the control characters below U+0020 are escaped (five of them
/// by a letter, the others as `\u00xx`); every other character stands as it is.
pub open spec fn json_escape_char(c: char) -> Seq<char> {
    if c == '"' {
        seq!['\\', '"']
    } else if c == '\\' {
        seq!['\\', '\\']
    } else if c == '\u{8}' {
        seq!['\\', 'b']
    } else if c == '\t' {
        seq!['\\', 't']
    } else if c == '\n' {
        seq!['\\', 'n']
    } else if c == '\u{c}' {
        seq!['\\', 'f']
    } else if c == '\r' {
        seq!['\\', 'r']
    } else if (c as u32) < 0x20 {
        seq![
            '\\',
            'u',
            '0',
            '0',
            lower_hex_char((c as u32) as int / 16),
            lower_hex_char((c as u32) as int % 16),
        ]
    } else {
        seq![c]
    }
}

/// The characters of a text, each escaped for a JSON string literal.
pub open spec fn json_escaped(s: Seq<char>) -> Seq<char>
    decreases s.len(),
{
    if s.len() == 0 {
        Seq::empty()
    } else {
        json_escaped(s.drop_last()) + json_escape_char(s.last())
    }
}

/// The JSON string literal that stands for a text.
pub open spec fn json_quoted(s: Seq<char>) -> Seq<char> {
    seq!['"'] + json_escaped(s) + seq!['"']
}

/// Relies on `serde_json::to_string` applied to a `str` (`format_escaped_str`
/// and its `ESCAPE` table): the text between quotes, each character escaped as
/// `json_escape_char` says. Serializing a `str` into memory cannot fail, so the
/// error arm is never taken.
#[verifier::external_body]
fn json_string(s: &str) -> (r: String)
    ensures
        r@ == json_quoted(s@),
{
    match serde_json::to_string(s) {
        Ok(t) => t,
        Err(_) => String::new(),
    }
}

/// Appends `value` as a JSON string literal.
fn push_json_string(out: &mut String, value: &str)
    ensures
        final(out)@ == old(out)@ + json_quoted(value@),
{
    let q = json_string(value);
    push_str(out, q.as_str());
}

/// Announces a newly issued session token.
pub open spec fn token_event_text(token: Seq<char>) -> Seq<char> {
    "{\"token\":"@ + json_quoted(token) + "}"@
}

/// Announces that a file was stored: its hash and where it was written.
pub open spec fn copied_event_text(hash: Seq<char>, path: Seq<char>) -> Seq<char> {
    "{\"event\":\"copied\",\"hash\":"@ + json_quoted(hash) + ",\"path\":"@ + json_quoted(path)
        + ",\"status\":\"success\"}"@
}

/// Asks every client that holds the file with this hash to upload it.
pub open spec fn send_raw_text(hash: Seq<char>) -> Seq<char> {
    "{\"action\":\"send_raw\",\"hash\":"@ + json_quoted(hash) + "}"@
}

/// The side channel's answer to a configuration request.
pub open spec fn config_reply_text(main_directory: Seq<char>, user: Seq<char>) -> Seq<char> {
    "{\"MainDirectory\":"@ + json_quoted(main_directory) + ",\"User\":"@ + json_quoted(user)
        + "}"@
}

pub fn token_event(token: &str) -> (r: String)
    ensures
        r@ == token_event_text(token@),
{
    let mut out = String::new();
    push_str(&mut out, "{\"token\":");
    push_json_string(&mut out, token);
    push_str(&mut out, "}");
    out
}

pub fn copied_event(hash: &str, path: &str) -> (r: String)
    ensures
        r@ == copied_event_text(hash@, path@),
{
    let mut out = String::new();
    push_str(&mut out, "{\"event\":\"copied\",\"hash\":");
    push_json_string(&mut out, hash);
    push_str(&mut out, ",\"path\":");
    push_json_string(&mut out, path);
    push_str(&mut out, ",\"status\":\"success\"}");
    out
}

pub fn send_raw_request(hash: &str) -> (r: String)
    ensures
        r@ == send_raw_text(hash@),
{
    let mut out = String::new();
    push_str(&mut out, "{\"action\":\"send_raw\",\"hash\":");
    push_json_string(&mut out, hash);
    push_str(&mut out, "}");
    out
}

pub fn config_reply(main_directory: &str, user: &str) -> (r: String)
    ensures
        r@ == config_reply_text(main_directory@, user@),
{
    let mut out = String::new();
    push_str(&mut out, "{\"MainDirectory\":");
    push_json_string(&mut out, main_directory);
    push_str(&mut out, ",\"User\":");
    push_json_string(&mut out, user);
    push_str(&mut out, "}");
    out
}

/// The side channel's answer to any request other than a configuration request.
pub fn unknown_command_reply() -> (r: String)
    ensures
        r@ == "{\"error\":\"Unknown command\"}"@,
{
    String::from_str("{\"error\":\"Unknown command\"}")
}

/// The first message a mobile client receives once connected.
pub fn connected_greeting() -> (r: String)
    ensures
        r@ == "{\"status\":\"connected\"}"@,
{
    String::from_str("{\"status\":\"connected\"}")
}

} // verus!
