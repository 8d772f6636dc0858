//! The canonical percent-encoder.
//!
//! Every byte outside the RFC 3986 unreserved set (`A-Z a-z 0-9 - . _ ~`) is
//! written as `%XX` with uppercase hex digits; unreserved bytes pass through
//! untouched. This is the strict OAuth 1.0a profile: `!`, `*`, `'`, `(`, `)`
//! are encoded, and a space becomes `%20`, never `+`.

use vstd::prelude::*;
use vstd::utf8::*;

verus! {

/// A byte in RFC 3986's unreserved set: ASCII letters, digits, `-`, `.`, `_`, `~`.
pub open spec fn is_unreserved(b: u8) -> bool {
    ||| 0x41 <= b <= 0x5a  // 'A'..='Z'
    ||| 0x61 <= b <= 0x7a  // 'a'..='z'
    ||| 0x30 <= b <= 0x39  // '0'..='9'
    ||| b == 0x2d  // '-'
    ||| b == 0x2e  // '.'
    ||| b == 0x5f  // '_'
    ||| b == 0x7e  // '~'
}

/// The uppercase hex digit for a nibble: `0-9` then `A-F`.
pub open spec fn hex_digit(n: u8) -> u8
    recommends
        n < 16,
{
    if n < 10 {
        (0x30 + n) as u8
    } else {
        (0x41 + (n - 10)) as u8
    }
}

/// How one byte is encoded: itself if unreserved, else `%` and two hex digits.
pub open spec fn pe_byte(b: u8) -> Seq<u8> {
    if is_unreserved(b) {
        seq![b]
    } else {
        seq![0x25u8, hex_digit(b / 16), hex_digit(b % 16)]
    }
}

/// The percent-encoding of a byte string: each byte's encoding, concatenated.
pub open spec fn pe_bytes(s: Seq<u8>) -> Seq<u8>
    decreases s.len(),
{
    if s.len() == 0 {
        Seq::empty()
    } else {
        pe_byte(s[0]) + pe_bytes(s.drop_first())
    }
}

proof fn lemma_pe_bytes_push(s: Seq<u8>, b: u8)
    ensures
        pe_bytes(s.push(b)) == pe_bytes(s) + pe_byte(b),
    decreases s.len(),
{
    if s.len() == 0 {
        assert(s.push(b)[0] == b);
        assert(s.push(b).drop_first() =~= Seq::<u8>::empty());
        assert(pe_bytes(s.push(b)) == pe_byte(b) + pe_bytes(Seq::<u8>::empty()));
        assert(pe_byte(b) + Seq::<u8>::empty() =~= pe_byte(b));
        assert(pe_bytes(s) + pe_byte(b) =~= pe_byte(b));
    } else {
        assert(s.push(b).drop_first() =~= s.drop_first().push(b));
        lemma_pe_bytes_push(s.drop_first(), b);
        assert(pe_bytes(s.push(b)) =~= pe_bytes(s) + pe_byte(b));
    }
}

/// The characters spelled by a sequence of ASCII bytes.
pub open spec fn ascii_chars_of(b: Seq<u8>) -> Seq<char> {
    Seq::new(b.len(), |i: int| b[i] as char)
}

/// The percent-encoding of a string: its UTF-8 bytes encoded per the OAuth
/// profile, read back as (ASCII) characters.
pub open spec fn pe_str(s: Seq<char>) -> Seq<char> {
    ascii_chars_of(pe_bytes(encode_utf8(s)))
}

/// A sequence of bytes below 0x80 spells an ASCII character sequence whose
/// UTF-8 encoding is the byte sequence itself; in particular the bytes are
/// valid UTF-8 and decode to exactly those characters.
pub proof fn lemma_ascii_bytes_chars(b: Seq<u8>)
    requires
        forall|i: int| 0 <= i < b.len() ==> b[i] < 0x80,
    ensures
        is_ascii_chars(ascii_chars_of(b)),
        encode_utf8(ascii_chars_of(b)) == b,
        valid_utf8(b),
        decode_utf8(b) == ascii_chars_of(b),
{
    let s = ascii_chars_of(b);
    assert forall|i: int| 0 <= i < s.len() implies '\0' <= #[trigger] s[i] <= '\u{7f}' by {
        assert(s[i] == b[i] as char);
        assert('\0' <= (b[i] as char) <= '\u{7f}');
    }
    is_ascii_chars_encode_utf8(s);
    assert forall|i: int| 0 <= i < s.len() implies #[trigger] encode_utf8(s)[i] == b[i] by {
        assert(s[i] as u8 == encode_utf8(s)[i]);
        assert((b[i] as char) as u8 == b[i]);
    }
    assert(encode_utf8(s) =~= b);
    encode_utf8_valid_utf8(s);
    encode_utf8_decode_utf8(s);
}

/// Every byte that the encoder emits is either unreserved or `%`; in
/// particular the output is pure ASCII.
pub proof fn lemma_pe_output_alphabet(s: Seq<u8>)
    ensures
        forall|i: int|
            0 <= i < pe_bytes(s).len() ==> is_unreserved(#[trigger] pe_bytes(s)[i]) || pe_bytes(
                s,
            )[i] == 0x25,
    decreases s.len(),
{
    if s.len() > 0 {
        lemma_pe_output_alphabet(s.drop_first());
        let h = pe_byte(s[0]);
        let t = pe_bytes(s.drop_first());
        assert(pe_bytes(s) == h + t);
        assert forall|i: int|
            0 <= i < pe_bytes(s).len() implies is_unreserved(#[trigger] pe_bytes(s)[i])
            || pe_bytes(s)[i] == 0x25 by {
            if i < h.len() {
                assert(pe_bytes(s)[i] == h[i]);
                if !is_unreserved(s[0]) {
                    assert(is_unreserved(hex_digit(s[0] / 16)));
                    assert(is_unreserved(hex_digit(s[0] % 16)));
                }
            } else {
                assert(pe_bytes(s)[i] == t[i - h.len()]);
                assert(is_unreserved(t[i - h.len()]) || t[i - h.len()] == 0x25);
            }
        }
    }
}

/// Law: bytes in the unreserved set pass through the encoder untouched.
pub proof fn lemma_pe_unreserved_identity(s: Seq<u8>)
    requires
        forall|i: int| 0 <= i < s.len() ==> is_unreserved(#[trigger] s[i]),
    ensures
        pe_bytes(s) == s,
    decreases s.len(),
{
    if s.len() == 0 {
        assert(pe_bytes(s) =~= s);
    } else {
        lemma_pe_unreserved_identity(s.drop_first());
        assert(pe_bytes(s) =~= s);
    }
}

/// Law: a second pass of the encoder over a string of unreserved bytes does
/// not double-encode anything; together with `lemma_pe_output_alphabet`, a
/// second pass over any encoder output touches only the `%` bytes.
pub proof fn lemma_pe_idempotent_unreserved(s: Seq<u8>)
    requires
        forall|i: int| 0 <= i < s.len() ==> is_unreserved(#[trigger] s[i]),
    ensures
        pe_bytes(pe_bytes(s)) == s,
{
    lemma_pe_unreserved_identity(s);
}

/// A character whose percent-encoding is the character itself.
pub open spec fn is_unreserved_char(c: char) -> bool {
    '\0' <= c <= '\u{7f}' && is_unreserved(c as u8)
}

/// Law: a string of unreserved characters is its own percent-encoding, so
/// encoding an already-fully-encoded string a second time leaves every
/// unreserved character in place.
pub proof fn lemma_pe_str_unreserved_identity(s: Seq<char>)
    requires
        forall|i: int| 0 <= i < s.len() ==> is_unreserved_char(#[trigger] s[i]),
    ensures
        pe_str(s) == s,
{
    assert forall|i: int| 0 <= i < s.len() implies '\0' <= #[trigger] s[i] <= '\u{7f}' by {
        assert(is_unreserved_char(s[i]));
    }
    is_ascii_chars_encode_utf8(s);
    let b = encode_utf8(s);
    assert forall|i: int| 0 <= i < b.len() implies is_unreserved(#[trigger] b[i]) by {
        assert(b[i] == s[i] as u8);
    }
    lemma_pe_unreserved_identity(b);
    assert forall|i: int| 0 <= i < b.len() implies #[trigger] b[i] < 0x80 by {
        assert(is_unreserved(b[i]));
    }
    lemma_ascii_bytes_chars(b);
    encode_utf8_decode_utf8(s);
    assert(pe_str(s) == ascii_chars_of(pe_bytes(b)));
    assert(ascii_chars_of(b) == decode_utf8(b));
    assert(decode_utf8(b) == s);
}

/// Relies on `String::from_utf8`: a byte vector that is valid UTF-8 is turned
/// into the string those bytes spell.
#[verifier::external_body]
pub(crate) fn bytes_to_string(v: Vec<u8>) -> (r: String)
    requires
        valid_utf8(v@),
    ensures
        r@ == decode_utf8(v@),
{
    match String::from_utf8(v) {
        Ok(s) => s,
        Err(_) => String::new(),
    }
}

/// Percent-encode a byte string per the OAuth profile.
pub fn percent_encode_bytes(input: &[u8]) -> (r: Vec<u8>)
    ensures
        r@ == pe_bytes(input@),
{
    let mut out: Vec<u8> = Vec::new();
    let mut i: usize = 0;
    while i < input.len()
        invariant
            i <= input@.len(),
            out@ == pe_bytes(input@.take(i as int)),
        decreases input@.len() - i,
    {
        let b = input[i];
        if (0x41 <= b && b <= 0x5a) || (0x61 <= b && b <= 0x7a) || (0x30 <= b && b <= 0x39)
            || b == 0x2d || b == 0x2e || b == 0x5f || b == 0x7e {
            out.push(b);
        } else {
            out.push(0x25);
            let hi = b / 16;
            let lo = b % 16;
            out.push(if hi < 10 { 0x30 + hi } else { 0x41 + (hi - 10) });
            out.push(if lo < 10 { 0x30 + lo } else { 0x41 + (lo - 10) });
        }
        proof {
            lemma_pe_bytes_push(input@.take(i as int), input@[i as int]);
            assert(input@.take(i as int).push(input@[i as int]) =~= input@.take(i + 1));
        }
        i = i + 1;
    }
    proof {
        assert(input@.take(input@.len() as int) =~= input@);
    }
    out
}

/// Percent-encode a string per the OAuth profile: every byte of its UTF-8
/// form outside `A-Z a-z 0-9 - . _ ~` becomes `%XX` with uppercase hex.
pub fn percent_encode(input: &str) -> (r: String)
    ensures
        r@ == pe_str(input@),
{
    let bytes = input.as_bytes();
    let enc = percent_encode_bytes(bytes);
    proof {
        lemma_pe_output_alphabet(encode_utf8(input@));
        assert forall|i: int|
            0 <= i < pe_bytes(encode_utf8(input@)).len() implies #[trigger] pe_bytes(
            encode_utf8(input@),
        )[i] < 0x80 by {
            assert(is_unreserved(pe_bytes(encode_utf8(input@))[i]) || pe_bytes(
                encode_utf8(input@),
            )[i] == 0x25);
        }
        lemma_ascii_bytes_chars(pe_bytes(encode_utf8(input@)));
    }
    bytes_to_string(enc)
}

} // verus!
