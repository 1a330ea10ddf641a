//! Standard base64 (RFC 4648 alphabet, `=` padding) and percent-encoding.

use base64::Engine;
use vstd::prelude::*;

verus! {

/// The base64 digit of a 6-bit value.
pub open spec fn b64_digit(n: nat) -> char {
    if n < 26 {
        ((65 + n) as u32) as char
    } else if n < 52 {
        ((71 + n) as u32) as char
    } else if n < 62 {
        ((n - 4) as u32) as char
    } else if n == 62 {
        '+'
    } else {
        '/'
    }
}

/// Standard padded base64 of `b`: every three bytes become four digits;
/// a last group of one or two bytes is padded with `=`.
pub open spec fn base64_std(b: Seq<u8>) -> Seq<char>
    decreases b.len(),
{
    if b.len() == 0 {
        Seq::empty()
    } else if b.len() == 1 {
        seq![b64_digit((b[0] / 4) as nat), b64_digit(((b[0] % 4) * 16) as nat), '=', '=']
    } else if b.len() == 2 {
        seq![
            b64_digit((b[0] / 4) as nat),
            b64_digit(((b[0] % 4) * 16 + b[1] / 16) as nat),
            b64_digit(((b[1] % 16) * 4) as nat),
            '=',
        ]
    } else {
        seq![
            b64_digit((b[0] / 4) as nat),
            b64_digit(((b[0] % 4) * 16 + b[1] / 16) as nat),
            b64_digit(((b[1] % 16) * 4 + b[2] / 64) as nat),
            b64_digit((b[2] % 64) as nat),
        ] + base64_std(b.skip(3))
    }
}

fn b64_digit_exec(n: u32) -> (r: char)
    requires
        n < 64,
    ensures
        r == b64_digit(n as nat),
{
    if n < 26 {
        let c = 65 + n;
        assert(c < 0xD800);
        c as u8 as char
    } else if n < 52 {
        let c = 71 + n;
        c as u8 as char
    } else if n < 62 {
        let c = n - 4;
        c as u8 as char
    } else if n == 62 {
        '+'
    } else {
        '/'
    }
}

/// Standard padded base64 of `data`.
pub fn base64_encode(data: &[u8]) -> (r: String)
    ensures
        r@ == base64_std(data@),
{
    let mut out = String::new();
    let mut i: usize = 0;
    assert(data@.skip(0) =~= data@);
    while i < data.len()
        invariant
            i <= data@.len(),
            out@ + base64_std(data@.skip(i as int)) == base64_std(data@),
        decreases data@.len() - i,
    {
        let rest = data.len() - i;
        let b0 = data[i] as u32;
        let ghost pre = out@;
        let ghost tail = data@.skip(i as int);
        if rest == 1 {
            out.push(b64_digit_exec(b0 / 4));
            out.push(b64_digit_exec((b0 % 4) * 16));
            out.push('=');
            out.push('=');
            proof {
                assert(out@ =~= pre + base64_std(tail));
                assert(data@.skip(i + 1) =~= Seq::<u8>::empty());
            }
            i = i + 1;
        } else if rest == 2 {
            let b1 = data[i + 1] as u32;
            out.push(b64_digit_exec(b0 / 4));
            out.push(b64_digit_exec((b0 % 4) * 16 + b1 / 16));
            out.push(b64_digit_exec((b1 % 16) * 4));
            out.push('=');
            proof {
                assert(out@ =~= pre + base64_std(tail));
                assert(data@.skip(i + 2) =~= Seq::<u8>::empty());
            }
            i = i + 2;
        } else {
            let b1 = data[i + 1] as u32;
            let b2 = data[i + 2] as u32;
            out.push(b64_digit_exec(b0 / 4));
            out.push(b64_digit_exec((b0 % 4) * 16 + b1 / 16));
            out.push(b64_digit_exec((b1 % 16) * 4 + b2 / 64));
            out.push(b64_digit_exec(b2 % 64));
            proof {
                assert(tail.skip(3) =~= data@.skip(i + 3));
                assert(out@ + base64_std(data@.skip(i + 3)) =~= pre + base64_std(tail));
            }
            i = i + 3;
        }
    }
    proof {
        assert(base64_std(data@.skip(i as int)) =~= Seq::<char>::empty());
        assert(out@ + Seq::<char>::empty() =~= out@);
    }
    out
}

/// A character that stands for itself inside a JSON string: neither a
/// quote, a backslash nor a control character.
pub open spec fn json_plain_char(c: char) -> bool {
    c != '"' && c != '\\' && (c as u32) >= 0x20
}

proof fn lemma_b64_digit_plain(n: nat)
    ensures
        json_plain_char(b64_digit(n)),
{
}

/// Base64 text stands for itself inside a JSON string.
pub proof fn lemma_base64_json_plain(b: Seq<u8>)
    ensures
        forall|i: int| 0 <= i < base64_std(b).len() ==> json_plain_char(#[trigger] base64_std(b)[i]),
    decreases b.len(),
{
    if b.len() >= 3 {
        lemma_base64_json_plain(b.skip(3));
        let head = seq![
            b64_digit((b[0] / 4) as nat),
            b64_digit(((b[0] % 4) * 16 + b[1] / 16) as nat),
            b64_digit(((b[1] % 16) * 4 + b[2] / 64) as nat),
            b64_digit((b[2] % 64) as nat),
        ];
        lemma_b64_digit_plain((b[0] / 4) as nat);
        lemma_b64_digit_plain(((b[0] % 4) * 16 + b[1] / 16) as nat);
        lemma_b64_digit_plain(((b[1] % 16) * 4 + b[2] / 64) as nat);
        lemma_b64_digit_plain((b[2] % 64) as nat);
        let e = base64_std(b);
        assert(e == head + base64_std(b.skip(3)));
        assert forall|i: int| 0 <= i < e.len() implies json_plain_char(#[trigger] e[i]) by {
            if i >= 4 {
                assert(e[i] == base64_std(b.skip(3))[i - 4]);
            }
        }
    } else if b.len() == 2 {
        lemma_b64_digit_plain((b[0] / 4) as nat);
        lemma_b64_digit_plain(((b[0] % 4) * 16 + b[1] / 16) as nat);
        lemma_b64_digit_plain(((b[1] % 16) * 4) as nat);
    } else if b.len() == 1 {
        lemma_b64_digit_plain((b[0] / 4) as nat);
        lemma_b64_digit_plain(((b[0] % 4) * 16) as nat);
    }
}

/// Different byte strings have different base64 texts.
pub proof fn lemma_base64_injective(a: Seq<u8>, b: Seq<u8>)
    requires
        base64_std(a) == base64_std(b),
    ensures
        a == b,
    decreases a.len(),
{
    lemma_base64_len(a);
    lemma_base64_len(b);
    if a.len() == 0 || b.len() == 0 {
        assert(a =~= b);
    } else {
        let ea = base64_std(a);
        let eb = base64_std(b);
        lemma_b64_digit_injective();
        if a.len() >= 3 && b.len() >= 3 {
            assert(ea.take(4) == eb.take(4));
            assert(ea[0] == eb[0] && ea[1] == eb[1] && ea[2] == eb[2] && ea[3] == eb[3]) by {
                assert(ea[0] == ea.take(4)[0] && eb[0] == eb.take(4)[0]);
                assert(ea[1] == ea.take(4)[1] && eb[1] == eb.take(4)[1]);
                assert(ea[2] == ea.take(4)[2] && eb[2] == eb.take(4)[2]);
                assert(ea[3] == ea.take(4)[3] && eb[3] == eb.take(4)[3]);
            }
            assert(ea[0] == b64_digit((a[0] / 4) as nat));
            assert(eb[0] == b64_digit((b[0] / 4) as nat));
            assert(ea[1] == b64_digit(((a[0] % 4) * 16 + a[1] / 16) as nat));
            assert(eb[1] == b64_digit(((b[0] % 4) * 16 + b[1] / 16) as nat));
            assert(ea[2] == b64_digit(((a[1] % 16) * 4 + a[2] / 64) as nat));
            assert(eb[2] == b64_digit(((b[1] % 16) * 4 + b[2] / 64) as nat));
            assert(ea[3] == b64_digit((a[2] % 64) as nat));
            assert(eb[3] == b64_digit((b[2] % 64) as nat));
            assert(ea.skip(4) =~= base64_std(a.skip(3)));
            assert(eb.skip(4) =~= base64_std(b.skip(3)));
            lemma_base64_injective(a.skip(3), b.skip(3));
            lemma_three_bytes(a[0], a[1], a[2], b[0], b[1], b[2]);
            assert(a =~= b) by {
                assert forall|i: int| 0 <= i < a.len() implies a[i] == b[i] by {
                    if i >= 3 {
                        assert(a[i] == a.skip(3)[i - 3]);
                        assert(b[i] == b.skip(3)[i - 3]);
                    }
                }
            }
        } else {
            assert(ea.len() == 4 && eb.len() == 4);
            if a.len() == 1 {
                assert(ea[2] == '=');
                assert(b.len() == 1) by {
                    if b.len() >= 2 {
                        assert(eb[2] != '=') by {
                            lemma_b64_digit_not_pad(((b[1] % 16) * 4 + (if b.len() >= 3 { b[2] / 64 } else { 0 })) as nat);
                        }
                    }
                }
                lemma_one_byte(a[0], b[0]);
                assert(a =~= b);
            } else {
                assert(a.len() == 2 || a.len() >= 3);
                if a.len() == 2 {
                    assert(ea[3] == '=');
                    assert(b.len() == 2) by {
                        if b.len() == 1 {
                            assert(eb[2] == '=');
                            lemma_b64_digit_not_pad(((a[1] % 16) * 4) as nat);
                        } else if b.len() >= 3 {
                            lemma_b64_digit_not_pad((b[2] % 64) as nat);
                        }
                    }
                    lemma_two_bytes(a[0], a[1], b[0], b[1]);
                    assert(a =~= b);
                } else {
                    if b.len() == 1 {
                        assert(eb[2] == '=');
                        lemma_b64_digit_not_pad(((a[1] % 16) * 4 + a[2] / 64) as nat);
                    } else {
                        assert(eb[3] == '=');
                        lemma_b64_digit_not_pad((a[2] % 64) as nat);
                    }
                }
            }
        }
    }
}

proof fn lemma_base64_len(a: Seq<u8>)
    ensures
        a.len() == 0 ==> base64_std(a).len() == 0,
        a.len() > 0 ==> base64_std(a).len() >= 4,
        a.len() == 1 || a.len() == 2 ==> base64_std(a).len() == 4,
    decreases a.len(),
{
    if a.len() >= 3 {
        lemma_base64_len(a.skip(3));
    }
}

proof fn lemma_b64_digit_injective()
    ensures
        forall|x: nat, y: nat| x < 64 && y < 64 && #[trigger] b64_digit(x) == #[trigger] b64_digit(y) ==> x == y,
{
}

proof fn lemma_b64_digit_not_pad(x: nat)
    requires
        x < 64,
    ensures
        b64_digit(x) != '=',
{
}

proof fn lemma_one_byte(a0: u8, b0: u8)
    requires
        a0 / 4 == b0 / 4,
        (a0 % 4) * 16 == (b0 % 4) * 16,
    ensures
        a0 == b0,
{
}

proof fn lemma_two_bytes(a0: u8, a1: u8, b0: u8, b1: u8)
    requires
        a0 / 4 == b0 / 4,
        (a0 % 4) * 16 + a1 / 16 == (b0 % 4) * 16 + b1 / 16,
        (a1 % 16) * 4 == (b1 % 16) * 4,
    ensures
        a0 == b0,
        a1 == b1,
{
}

proof fn lemma_three_bytes(a0: u8, a1: u8, a2: u8, b0: u8, b1: u8, b2: u8)
    requires
        a0 / 4 == b0 / 4,
        (a0 % 4) * 16 + a1 / 16 == (b0 % 4) * 16 + b1 / 16,
        (a1 % 16) * 4 + a2 / 64 == (b1 % 16) * 4 + b2 / 64,
        a2 % 64 == b2 % 64,
    ensures
        a0 == b0,
        a1 == b1,
        a2 == b2,
{
}

/// The bytes whose standard Base64 is `t`, if there are any (at most one
/// sequence of bytes has a given encoding).
pub open spec fn base64_decoded(t: Seq<char>) -> Option<Seq<u8>> {
    if exists|b: Seq<u8>| base64_std(b) == t {
        Some(choose|b: Seq<u8>| base64_std(b) == t)
    } else {
        None
    }
}

/// Bytes that encode to `t` are the bytes `base64_decoded` gives.
pub proof fn lemma_base64_decoded(t: Seq<char>, b: Seq<u8>)
    requires
        base64_std(b) == t,
    ensures
        base64_decoded(t) == Some(b),
{
    let c = choose|c: Seq<u8>| base64_std(c) == t;
    lemma_base64_injective(c, b);
}

/// The text `base64`'s `DecodeError` displays for a text it refuses.
pub uninterp spec fn base64_error_text(text: Seq<char>) -> Seq<char>;

/// `base64::engine::general_purpose::STANDARD.decode`. Its configuration
/// requires canonical padding and zero trailing bits, so it accepts
/// exactly the texts that encoding some bytes produces, and gives those
/// bytes. The error's displayed text is named.
#[verifier::external_body]
pub(crate) fn b64_decode(text: &str) -> (r: Result<Vec<u8>, String>)
    ensures
        r matches Ok(b) ==> base64_std(b@) == text@,
        (exists|b: Seq<u8>| base64_std(b) == text@) ==> r is Ok,
        r matches Err(e) ==> e@ == base64_error_text(text@),
{
    base64::engine::general_purpose::STANDARD.decode(text).map_err(|e| e.to_string())
}

// ---------------------------------------------------------------------------
// Percent-encoding
// ---------------------------------------------------------------------------

/// A byte that percent-encoding leaves as it is: ASCII letters, digits,
/// `-`, `.`, `_`, `~`.
pub open spec fn url_safe(b: u8) -> bool {
    (48 <= b <= 57) || (65 <= b <= 90) || (97 <= b <= 122) || b == 45 || b == 46 || b == 95 || b == 126
}

/// Upper-case hexadecimal digit of `d`.
pub open spec fn hex_upper(d: nat) -> char {
    if d < 10 {
        ((48 + d) as u32) as char
    } else {
        ((55 + d) as u32) as char
    }
}

/// Percent-encoding of `bytes`: safe bytes as themselves, every other byte
/// as `%` and two upper-case hex digits.
pub open spec fn percent_encoded(bytes: Seq<u8>) -> Seq<char>
    decreases bytes.len(),
{
    if bytes.len() == 0 {
        Seq::empty()
    } else {
        let b = bytes.last();
        percent_encoded(bytes.drop_last()) + if url_safe(b) {
            seq![(b as u32) as char]
        } else {
            seq!['%', hex_upper((b / 16) as nat), hex_upper((b % 16) as nat)]
        }
    }
}

/// `urlencoding::encode`: the percent-encoding of the UTF-8 bytes of `s`.
#[verifier::external_body]
pub(crate) fn url_encode(s: &str) -> (r: String)
    ensures
        r@ == percent_encoded(vstd::utf8::encode_utf8(s@)),
{
    urlencoding::encode(s).into_owned()
}

} // verus!
