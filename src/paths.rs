//! Path policy: where an uploaded file is placed under the upload directory.
use vstd::prelude::*;
use chrono::Datelike;
use crate::text::{push_char, push_signed_decimal, push_str, push_two_digits, signed_decimal, two_digit_decimal};

verus! {

/// The calendar month, in UTC, of a file's modification time.
#[derive(Clone, Copy, Debug, PartialEq, Eq, Structural)]
pub struct YearMonth {
    pub year: i32,
    /// From 1 (January) to 12 (December).
    pub month: u32,
}

impl YearMonth {
    pub open spec fn wf(self) -> bool {
        1 <= self.month <= 12
    }
}

/// The UTC year and month of an RFC 3339 timestamp, or `None` when the text is
/// not such a timestamp.
pub uninterp spec fn rfc3339_utc_year_month(s: Seq<char>) -> Option<(i32, u32)>;

/// Relies on `chrono::DateTime::parse_from_rfc3339`, then `with_timezone(&Utc)`,
/// `year` and `month`: the result depends on the text alone, and a month is
/// numbered from 1 to 12.
#[verifier::external_body]
fn parse_rfc3339_utc(s: &str) -> (r: Option<(i32, u32)>)
    ensures
        r == rfc3339_utc_year_month(s@),
        r matches Some((_, m)) ==> 1 <= m <= 12,
{
    match chrono::DateTime::parse_from_rfc3339(s) {
        Ok(dt) => {
            let utc = dt.with_timezone(&chrono::Utc);
            Some((utc.year(), utc.month()))
        },
        Err(_) => None,
    }
}

/// The month that an RFC 3339 timestamp falls in, in UTC.
pub open spec fn modified_month(s: Seq<char>) -> Option<YearMonth> {
    match rfc3339_utc_year_month(s) {
        Some((y, m)) => Some(YearMonth { year: y, month: m }),
        None => None,
    }
}

/// Reads the month of an RFC 3339 modification timestamp, converted to UTC;
/// `None` when the text is not such a timestamp.
pub fn parse_modified_at(s: &str) -> (r: Option<YearMonth>)
    ensures
        r == modified_month(s@),
        r matches Some(ym) ==> ym.wf(),
{
    match parse_rfc3339_utc(s) {
        Some((y, m)) => Some(YearMonth { year: y, month: m }),
        None => None,
    }
}

/// `name` placed inside directory `dir`.
pub open spec fn join(dir: Seq<char>, name: Seq<char>) -> Seq<char> {
    dir + seq!['/'] + name
}

/// The directory that receives a user's file: `base/user`, or
/// `base/user/year/MM` when the modification month is known.
pub open spec fn output_dir(base: Seq<char>, user: Seq<char>, month: Option<YearMonth>) -> Seq<char> {
    match month {
        None => join(base, user),
        Some(ym) => join(
            join(join(base, user), signed_decimal(ym.year as int)),
            two_digit_decimal(ym.month as nat),
        ),
    }
}

/// Where a file goes: the directory to create and the file's full path.
#[derive(Clone, Debug)]
pub struct OutputPath {
    pub dir: String,
    pub file: String,
}

/// Resolves the path of an uploaded file: `base/username/filename`, or
/// `base/username/year/MM/filename` when the modification month is given. The
/// caller creates `dir` before writing `file`.
pub fn get_output_path(
    base: &str,
    username: &str,
    filename: &str,
    modified_at: Option<YearMonth>,
) -> (r: OutputPath)
    ensures
        r.dir@ == output_dir(base@, username@, modified_at),
        r.file@ == join(r.dir@, filename@),
{
    let mut dir = String::new();
    push_str(&mut dir, base);
    push_char(&mut dir, '/');
    push_str(&mut dir, username);
    match modified_at {
        Some(ym) => {
            push_char(&mut dir, '/');
            push_signed_decimal(&mut dir, ym.year);
            push_char(&mut dir, '/');
            push_two_digits(&mut dir, ym.month);
        },
        None => {},
    }
    let mut file = dir.clone();
    push_char(&mut file, '/');
    push_str(&mut file, filename);
    OutputPath { dir, file }
}

} // verus!
