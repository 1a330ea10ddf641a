//! Identifiers and clock readings that come from outside crates: ULIDs
//! (`ulid`), random UUIDs (`uuid`) and the current time (`chrono`, `std`).

use vstd::prelude::*;

verus! {

/// Value of one character of the ULID base-32 alphabet
/// `0123456789ABCDEFGHJKMNPQRSTVWXYZ`, lower case accepted.
pub open spec fn crockford_digit(c: char) -> Option<nat> {
    let n = c as u32;
    if 48 <= n && n <= 57 {
        Some((n - 48) as nat)
    } else if 97 <= n && n <= 122 {
        crockford_upper((n - 32) as u32)
    } else {
        crockford_upper(n)
    }
}

pub open spec fn crockford_upper(n: u32) -> Option<nat> {
    if 65 <= n && n <= 72 {
        Some((n - 55) as nat)
    } else if n == 74 || n == 75 {
        Some((n - 56) as nat)
    } else if n == 77 || n == 78 {
        Some((n - 57) as nat)
    } else if 80 <= n && n <= 84 {
        Some((n - 58) as nat)
    } else if 86 <= n && n <= 90 {
        Some((n - 59) as nat)
    } else {
        None
    }
}

pub open spec fn all_crockford(s: Seq<char>) -> bool {
    forall|i: int| 0 <= i < s.len() ==> (#[trigger] crockford_digit(s[i])) is Some
}

/// The 128-bit value that a string of base-32 digits decodes to; leading
/// bits beyond 128 are dropped, as `Ulid::from_string` does.
pub open spec fn ulid_value(s: Seq<char>) -> nat
    decreases s.len(),
{
    if s.len() == 0 {
        0
    } else {
        ((ulid_value(s.drop_last()) * 32 + crockford_digit(s.last()).unwrap_or(0))
            % 0x1_0000_0000_0000_0000_0000_0000_0000_0000nat) as nat
    }
}

/// Millisecond timestamp of the ULID written as `s`, `None` when `s` is not
/// a ULID (26 characters of the alphabet).
pub open spec fn ulid_timestamp(s: Seq<char>) -> Option<u64> {
    if s.len() == 26 && all_crockford(s) {
        Some((ulid_value(s) / 0x1_0000_0000_0000_0000_0000nat) as u64)
    } else {
        None
    }
}

/// A fresh ULID (`ulid::Ulid::new`) in its 26-character text form. Which
/// ULID comes back depends on the clock and a random source; only its shape
/// is stated.
#[verifier::external_body]
pub(crate) fn new_ulid() -> (r: String)
    ensures
        r@.len() == 26,
        all_crockford(r@),
{
    ulid::Ulid::new().to_string()
}

/// `ulid::Ulid::from_string` followed by `Ulid::timestamp_ms`: the top 48 bits
/// of the decoded value.
#[verifier::external_body]
pub(crate) fn ulid_timestamp_ms(s: &str) -> (r: Option<u64>)
    ensures
        r == ulid_timestamp(s@),
{
    match ulid::Ulid::from_string(s) {
        Ok(u) => Some(u.timestamp_ms()),
        Err(_) => None,
    }
}

/// What `ulid::DecodeError` displays for text that is not a ULID: a
/// length other than 26 bytes, else a byte outside the alphabet; `None`
/// for a ULID.
pub open spec fn ulid_decode_error(s: Seq<char>) -> Option<Seq<char>> {
    if vstd::utf8::encode_utf8(s).len() != 26 {
        Some("invalid length"@)
    } else if !all_crockford(s) {
        Some("invalid character"@)
    } else {
        None
    }
}

/// `ulid::Ulid::from_string`, keeping only the error's text.
#[verifier::external_body]
pub(crate) fn ulid_parse_error(s: &str) -> (r: Option<String>)
    ensures
        crate::text::string_opt(r) == ulid_decode_error(s@),
{
    match ulid::Ulid::from_string(s) {
        Ok(_) => None,
        Err(e) => Some(e.to_string()),
    }
}

/// What `uuid::Error` displays for text that `uuid::Uuid::parse_str`
/// refuses; `None` for text it accepts.
pub uninterp spec fn uuid_decode_error(s: Seq<char>) -> Option<Seq<char>>;

/// `uuid::Uuid::parse_str`, keeping only the error's text.
#[verifier::external_body]
pub(crate) fn uuid_parse_error(s: &str) -> (r: Option<String>)
    ensures
        crate::text::string_opt(r) == uuid_decode_error(s@),
{
    match uuid::Uuid::parse_str(s) {
        Ok(_) => None,
        Err(e) => Some(e.to_string()),
    }
}

/// What `chrono::ParseError` displays for text that
/// `chrono::DateTime::parse_from_rfc3339` refuses; `None` for text it accepts.
pub uninterp spec fn rfc3339_decode_error(s: Seq<char>) -> Option<Seq<char>>;

/// `chrono::DateTime::parse_from_rfc3339`, keeping only the error's text.
#[verifier::external_body]
pub(crate) fn rfc3339_parse_error(s: &str) -> (r: Option<String>)
    ensures
        crate::text::string_opt(r) == rfc3339_decode_error(s@),
{
    match chrono::DateTime::parse_from_rfc3339(s) {
        Ok(_) => None,
        Err(e) => Some(e.to_string()),
    }
}

/// Current time as RFC 3339 text (`chrono::Utc::now().to_rfc3339()`).
/// Nothing is stated about the value: it is the clock's.
#[verifier::external_body]
pub(crate) fn now_rfc3339() -> (r: String) {
    chrono::Utc::now().to_rfc3339()
}

/// Milliseconds since the Unix epoch from `std::time::SystemTime::now`, 0 if
/// the clock reads before the epoch. Nothing is stated about the value.
#[verifier::external_body]
pub(crate) fn now_unix_ms() -> (r: u64) {
    match std::time::SystemTime::now().duration_since(std::time::UNIX_EPOCH) {
        Ok(d) => d.as_millis() as u64,
        Err(_) => 0,
    }
}

} // verus!
