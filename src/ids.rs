//! Fresh identifiers: pairing-code characters, UUIDs and the current time.
use vstd::prelude::*;
use rand::Rng;

verus! {

/// An ASCII letter or digit.
pub open spec fn is_code_char(c: char) -> bool {
    ('A' <= c && c <= 'Z') || ('a' <= c && c <= 'z') || ('0' <= c && c <= '9')
}

/// Relies on `rand::distributions::Alphanumeric` sampled from `rand::thread_rng`:
/// one of the 62 ASCII letters and digits, drawn uniformly.
#[verifier::external_body]
fn random_code_char() -> (c: char)
    ensures
        is_code_char(c),
{
    char::from(rand::thread_rng().sample(rand::distributions::Alphanumeric))
}

/// Relies on `uuid::Uuid::new_v4` written by its `Display`: a random UUID in
/// hyphenated form, which has 36 characters.
#[verifier::external_body]
pub(crate) fn random_uuid() -> (r: String)
    ensures
        r@.len() == 36,
{
    uuid::Uuid::new_v4().to_string()
}

/// Relies on `chrono::Utc::now` written by `to_rfc3339`: the current time.
#[verifier::external_body]
pub(crate) fn now_rfc3339() -> (r: String) {
    chrono::Utc::now().to_rfc3339()
}

/// Draws a code of `len` ASCII letters and digits.
pub fn generate_code(len: usize) -> (r: String)
    ensures
        r@.len() == len,
        forall|i: int| 0 <= i < len ==> is_code_char(#[trigger] r@[i]),
{
    let mut s = String::new();
    let mut i: usize = 0;
    while i < len
        invariant
            i <= len,
            s@.len() == i,
            forall|j: int| 0 <= j < i ==> is_code_char(#[trigger] s@[j]),
        decreases len - i,
    {
        let c = random_code_char();
        crate::text::push_char(&mut s, c);
        i += 1;
    }
    s
}

} // verus!
