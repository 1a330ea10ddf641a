//! The stable identity of a Tome: a UUID stored in its metadata, kept in
//! the canonical hyphenated lower-case form.

use vstd::prelude::*;

use crate::hosted::protocol::{hyphenated, lemma_hyphenated_form_fixed, lemma_hex_is_ascii};
use crate::text::{
    all_hex, all_hex_chars, chars_of, count_char, count_chars, lemma_lower_counts, lemma_lower_idempotent,
    lemma_lower_trimmed, lemma_lower_utf8_len, lemma_trim_of_trimmed, lemma_trim_shape, lower, lower_chars,
    string_of, trim, trim_chars, concat, sub_chars,
};

verus! {

/// Metadata key under which the Tome UUID is stored.
pub const KEY: &'static str = "tome_uuid";

/// A stored Tome UUID in canonical form: the trimmed 36-byte form with four
/// hyphens is lower-cased; 32 hex digits are lower-cased and hyphenated;
/// any other text is only trimmed, so a corrupt value shows up as it is.
pub open spec fn normalized_uuid(raw: Seq<char>) -> Seq<char> {
    let t = trim(raw);
    if vstd::utf8::encode_utf8(t).len() as usize == 36 && count_char(t, '-') == 4 {
        lower(t)
    } else if vstd::utf8::encode_utf8(t).len() as usize == 32 && all_hex(t) {
        hyphenated(lower(t))
    } else {
        t
    }
}

/// Convert a stored Tome UUID to canonical form.
pub fn normalize(raw: &str) -> (r: String)
    ensures
        r@ == normalized_uuid(raw@),
{
    let t = trim_chars(&chars_of(raw));
    let ts = string_of(&t);
    let byte_len = ts.as_str().len();
    assert(byte_len == vstd::utf8::encode_utf8(t@).len() as usize);
    if byte_len == 36 && count_chars(&t, '-') == 4 {
        return string_of(&lower_chars(&t));
    }
    if byte_len == 32 && all_hex_chars(&t) {
        let s = lower_chars(&t);
        proof {
            lemma_hex_is_ascii(t@);
            vstd::utf8::is_ascii_chars_encode_utf8(t@);
            assert(s@.len() == 32);
        }
        let mut out = sub_chars(&s, 0, 8);
        out.push('-');
        out = concat(&out, &sub_chars(&s, 8, 12));
        out.push('-');
        out = concat(&out, &sub_chars(&s, 12, 16));
        out.push('-');
        out = concat(&out, &sub_chars(&s, 16, 20));
        out.push('-');
        out = concat(&out, &sub_chars(&s, 20, 32));
        proof {
            assert(out@ =~= hyphenated(s@));
        }
        return string_of(&out);
    }
    ts
}

/// What to keep of the stored Tome UUID: its canonical form, and whether
/// the stored text must be rewritten to it.
pub fn uuid_to_keep(stored: &str) -> (r: (String, bool))
    ensures
        r.0@ == normalized_uuid(stored@),
        r.1 == (normalized_uuid(stored@) != stored@),
{
    let n = normalize(stored);
    let rewrite = !crate::text::str_eq(n.as_str(), stored);
    (n, rewrite)
}

/// Once kept, the Tome UUID stays: reading back what `uuid_to_keep` chose
/// keeps it unchanged and asks for no rewrite.
pub proof fn lemma_kept_uuid_is_stable(stored: Seq<char>)
    ensures
        normalized_uuid(normalized_uuid(stored)) == normalized_uuid(stored),
{
    lemma_normalize_idempotent(stored);
}

/// Normalising twice is normalising once, so rewriting a stored value in
/// place is stable.
pub proof fn lemma_normalize_idempotent(raw: Seq<char>)
    ensures
        normalized_uuid(normalized_uuid(raw)) == normalized_uuid(raw),
{
    let t = trim(raw);
    lemma_trim_shape(raw);
    lemma_lower_trimmed(t);
    lemma_lower_counts(t);
    lemma_lower_utf8_len(t);
    lemma_lower_idempotent(t);
    lemma_trim_of_trimmed(t);
    lemma_trim_of_trimmed(lower(t));
    if vstd::utf8::encode_utf8(t).len() as usize == 32 && all_hex(t) && !(vstd::utf8::encode_utf8(t).len() as usize == 36 && count_char(t, '-') == 4) {
        lemma_hex_is_ascii(t);
        vstd::utf8::is_ascii_chars_encode_utf8(t);
        if t.len() < 32 {
            assert(t.len() as usize == t.len());
        }
        lemma_hyphenated_form_fixed(t);
    }
}

} // verus!
