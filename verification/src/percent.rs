//! Percent-encoding of URI path segments.
//!
//! A path field value is encoded byte by byte over its UTF-8 form, following
//! the RFC 3986 path-segment rule: unreserved bytes (ASCII letters, digits,
//! `-` `.` `_` `~`) stand for themselves, every other byte becomes a
//! `%`-triple with two uppercase hexadecimal digits.  The decoder is the
//! exact inverse; it also accepts lowercase hexadecimal digits.

use vstd::prelude::*;
use vstd::string::StrSliceExecFns;
use vstd::utf8::encode_utf8;
use crate::chars::chars_to_string;
use crate::chars::str_chars;

verus! {

/// The byte stands for itself in a percent-encoded path segment
/// (RFC 3986 unreserved: ASCII letter, digit, `-`, `.`, `_`, `~`).
pub open spec fn is_unreserved_byte(b: u8) -> bool {
    (0x41 <= b && b <= 0x5a) || (0x61 <= b && b <= 0x7a) || (0x30 <= b && b <= 0x39) || b == 0x2d
        || b == 0x2e || b == 0x5f || b == 0x7e
}

/// The uppercase hexadecimal digit for a nibble.
pub open spec fn hex_digit(n: u8) -> char
    recommends
        n < 16,
{
    if n == 0 {
        '0'
    } else if n == 1 {
        '1'
    } else if n == 2 {
        '2'
    } else if n == 3 {
        '3'
    } else if n == 4 {
        '4'
    } else if n == 5 {
        '5'
    } else if n == 6 {
        '6'
    } else if n == 7 {
        '7'
    } else if n == 8 {
        '8'
    } else if n == 9 {
        '9'
    } else if n == 10 {
        'A'
    } else if n == 11 {
        'B'
    } else if n == 12 {
        'C'
    } else if n == 13 {
        'D'
    } else if n == 14 {
        'E'
    } else {
        'F'
    }
}

/// The character is a hexadecimal digit, in either case.
pub open spec fn is_hex_char(c: char) -> bool {
    ('0' <= c && c <= '9') || ('A' <= c && c <= 'F') || ('a' <= c && c <= 'f')
}

/// The numeric value of a hexadecimal digit.
pub open spec fn hex_val(c: char) -> int
    recommends
        is_hex_char(c),
{
    if '0' <= c && c <= '9' {
        (c as u32) - 0x30
    } else if 'A' <= c && c <= 'F' {
        (c as u32) - 0x41 + 10
    } else {
        (c as u32) - 0x61 + 10
    }
}

/// The percent-encoding of one byte: itself when unreserved, otherwise a
/// `%`-triple.
pub open spec fn pe_byte(b: u8) -> Seq<char> {
    if is_unreserved_byte(b) {
        seq![b as char]
    } else {
        seq!['%', hex_digit(b / 16), hex_digit(b % 16)]
    }
}

/// The percent-encoding of a byte sequence.
pub open spec fn pe_bytes(bs: Seq<u8>) -> Seq<char>
    decreases bs.len(),
{
    if bs.len() == 0 {
        Seq::empty()
    } else {
        pe_byte(bs[0]) + pe_bytes(bs.drop_first())
    }
}

/// The percent-encoding of a string: its UTF-8 bytes, encoded byte by byte.
pub open spec fn pe_str(s: Seq<char>) -> Seq<char> {
    pe_bytes(encode_utf8(s))
}

/// The percent-decoding of a character sequence into bytes: a `%`-triple
/// yields its byte, any other ASCII character yields its own code; anything
/// else (a bare non-ASCII character, or a malformed `%`-triple) is rejected.
pub open spec fn pd_chars(s: Seq<char>) -> Option<Seq<u8>>
    decreases s.len(),
{
    if s.len() == 0 {
        Some(Seq::empty())
    } else if s[0] == '%' {
        if s.len() >= 3 && is_hex_char(s[1]) && is_hex_char(s[2]) {
            match pd_chars(s.skip(3)) {
                Some(r) => Some(seq![(16 * hex_val(s[1]) + hex_val(s[2])) as u8] + r),
                None => None,
            }
        } else {
            None
        }
    } else if (s[0] as u32) < 0x80 {
        match pd_chars(s.drop_first()) {
            Some(r) => Some(seq![s[0] as u8] + r),
            None => None,
        }
    } else {
        None
    }
}

/// A hexadecimal digit produced by [`hex_digit`] is recognized by the
/// decoder and decodes to the nibble it encodes; it is ASCII and is not
/// `%`.
pub proof fn lemma_hex_digit(n: u8)
    requires
        n < 16,
    ensures
        is_hex_char(hex_digit(n)),
        hex_val(hex_digit(n)) == n,
        hex_digit(n) != '%',
        (hex_digit(n) as u32) < 0x80,
{
}

/// Decides whether the byte is unreserved.
fn unreserved_byte(b: u8) -> (r: bool)
    ensures
        r == is_unreserved_byte(b),
{
    (0x41 <= b && b <= 0x5a) || (0x61 <= b && b <= 0x7a) || (0x30 <= b && b <= 0x39) || b == 0x2d
        || b == 0x2e || b == 0x5f || b == 0x7e
}

/// Returns the uppercase hexadecimal digit of a nibble.
pub fn hex_digit_char(n: u8) -> (c: char)
    requires
        n < 16,
    ensures
        c == hex_digit(n),
{
    if n == 0 {
        '0'
    } else if n == 1 {
        '1'
    } else if n == 2 {
        '2'
    } else if n == 3 {
        '3'
    } else if n == 4 {
        '4'
    } else if n == 5 {
        '5'
    } else if n == 6 {
        '6'
    } else if n == 7 {
        '7'
    } else if n == 8 {
        '8'
    } else if n == 9 {
        '9'
    } else if n == 10 {
        'A'
    } else if n == 11 {
        'B'
    } else if n == 12 {
        'C'
    } else if n == 13 {
        'D'
    } else if n == 14 {
        'E'
    } else {
        'F'
    }
}

/// Appending the encodings of two byte sequences encodes their
/// concatenation.
pub proof fn lemma_pe_bytes_concat(a: Seq<u8>, b: Seq<u8>)
    ensures
        pe_bytes(a + b) == pe_bytes(a) + pe_bytes(b),
    decreases a.len(),
{
    if a.len() == 0 {
        assert(a + b =~= b);
        assert(pe_bytes(a) + pe_bytes(b) =~= pe_bytes(b));
    } else {
        assert((a + b).drop_first() =~= a.drop_first() + b);
        lemma_pe_bytes_concat(a.drop_first(), b);
        assert(pe_bytes(a + b) =~= pe_bytes(a) + pe_bytes(b));
    }
}

/// Percent-encodes the UTF-8 bytes of a string into a character vector.
pub(crate) fn percent_encode_chars(s: &str) -> (r: Vec<char>)
    ensures
        r@ == pe_str(s@),
{
    let bytes = s.as_bytes_vec();
    let mut out: Vec<char> = Vec::new();
    let mut i: usize = 0;
    while i < bytes.len()
        invariant
            bytes@ == encode_utf8(s@),
            i <= bytes@.len(),
            out@ == pe_bytes(bytes@.take(i as int)),
        decreases bytes@.len() - i,
    {
        let b = bytes[i];
        if unreserved_byte(b) {
            out.push(b as char);
        } else {
            out.push('%');
            out.push(hex_digit_char(b / 16));
            out.push(hex_digit_char(b % 16));
        }
        proof {
            let pre = bytes@.take(i as int);
            assert(bytes@.take(i + 1 as int) =~= pre + seq![bytes@[i as int]]);
            lemma_pe_bytes_concat(pre, seq![bytes@[i as int]]);
            assert(seq![b].drop_first() =~= Seq::<u8>::empty());
            assert(pe_bytes(Seq::<u8>::empty()) =~= Seq::<char>::empty());
            assert(pe_byte(b) + Seq::<char>::empty() =~= pe_byte(b));
            assert(pe_bytes(seq![b]) =~= pe_byte(b));
            assert(out@ =~= pe_bytes(bytes@.take(i + 1 as int)));
        }
        i = i + 1;
    }
    proof {
        assert(bytes@.take(bytes@.len() as int) =~= bytes@);
    }
    out
}

/// Percent-encodes a string as one URI path segment over its UTF-8 bytes.
pub fn percent_encode(s: &str) -> (r: String)
    ensures
        r@ == pe_str(s@),
{
    chars_to_string(percent_encode_chars(s))
}

/// Percent-decodes a string into the byte sequence it denotes, or `None`
/// when it is not a well-formed percent-encoded ASCII string.
pub fn percent_decode(s: &str) -> (r: Option<Vec<u8>>)
    ensures
        match r {
            Some(v) => pd_chars(s@) == Some(v@),
            None => pd_chars(s@) is None,
        },
{
    let cs = str_chars(s);
    let n = cs.len();
    let mut out: Vec<u8> = Vec::new();
    let mut i: usize = 0;
    proof {
        assert(s@.skip(0) =~= s@);
        match pd_chars(s@) {
            Some(r) => {
                assert(Seq::<u8>::empty() + r =~= r);
            },
            None => {},
        }
    }
    while i < n
        invariant
            cs@ == s@,
            n == cs@.len(),
            i <= n,
            pd_chars(s@) == (match pd_chars(s@.skip(i as int)) {
                Some(r) => Some(out@ + r),
                None => None::<Seq<u8>>,
            }),
        decreases n - i,
    {
        let ghost rest = s@.skip(i as int);
        proof {
            assert(rest[0] == s@[i as int]);
        }
        let c = cs[i];
        if c == '%' {
            if n - i >= 3 && is_hex_char_exec(cs[i + 1]) && is_hex_char_exec(cs[i + 2]) {
                let hi = hex_val_exec(cs[i + 1]);
                let lo = hex_val_exec(cs[i + 2]);
                let b = 16 * hi + lo;
                let ghost out0 = out@;
                out.push(b);
                proof {
                    assert(rest[1] == s@[i + 1] && rest[2] == s@[i + 2]);
                    assert(rest.skip(3) =~= s@.skip(i + 3));
                    assert((16 * hex_val(rest[1]) + hex_val(rest[2])) as u8 == b);
                    match pd_chars(s@.skip(i + 3)) {
                        Some(r) => {
                            assert(pd_chars(rest) == Some(seq![b] + r));
                            assert(out0 + (seq![b] + r) =~= out@ + r);
                        },
                        None => {
                            assert(pd_chars(rest) is None);
                        },
                    }
                }
                i = i + 3;
            } else {
                proof {
                    assert(pd_chars(rest) is None);
                }
                return None;
            }
        } else if (c as u32) < 0x80 {
            let ghost out0 = out@;
            out.push(c as u8);
            proof {
                assert(rest.drop_first() =~= s@.skip(i + 1));
                match pd_chars(s@.skip(i + 1)) {
                    Some(r) => {
                        assert(pd_chars(rest) == Some(seq![c as u8] + r));
                        assert(out0 + (seq![c as u8] + r) =~= out@ + r);
                    },
                    None => {
                        assert(pd_chars(rest) is None);
                    },
                }
            }
            i = i + 1;
        } else {
            proof {
                assert(pd_chars(rest) is None);
            }
            return None;
        }
    }
    proof {
        assert(s@.skip(n as int) =~= Seq::<char>::empty());
        assert(out@ + Seq::<u8>::empty() =~= out@);
    }
    Some(out)
}

/// Decides whether a character is a hexadecimal digit.
fn is_hex_char_exec(c: char) -> (r: bool)
    ensures
        r == is_hex_char(c),
{
    let u = c as u32;
    (0x30 <= u && u <= 0x39) || (0x41 <= u && u <= 0x46) || (0x61 <= u && u <= 0x66)
}

/// Returns the numeric value of a hexadecimal digit.
fn hex_val_exec(c: char) -> (r: u8)
    requires
        is_hex_char(c),
    ensures
        r == hex_val(c),
        r < 16,
{
    let u = c as u32;
    if 0x30 <= u && u <= 0x39 {
        (u - 0x30) as u8
    } else if 0x41 <= u && u <= 0x46 {
        (u - 0x41 + 10) as u8
    } else {
        (u - 0x61 + 10) as u8
    }
}

/// Decoding inverts encoding on every byte sequence: the decoder maps the
/// encoded form back to exactly the bytes that were encoded.
pub proof fn lemma_pd_pe_bytes(bs: Seq<u8>)
    ensures
        pd_chars(pe_bytes(bs)) == Some(bs),
    decreases bs.len(),
{
    if bs.len() == 0 {
    } else {
        let b = bs[0];
        let rest = bs.drop_first();
        lemma_pd_pe_bytes(rest);
        let enc = pe_bytes(bs);
        assert(enc =~= pe_byte(b) + pe_bytes(rest));
        if is_unreserved_byte(b) {
            assert(enc[0] == b as char);
            assert((b as char) as u32 == b);
            assert((b as char) != '%') by {
                assert(('%' as u32) == 0x25);
                assert(!is_unreserved_byte(0x25));
            }
            assert(enc.drop_first() =~= pe_bytes(rest));
            assert((b as char) as u8 == b);
            assert(pd_chars(enc) == Some(seq![b] + rest));
            assert(seq![b] + rest =~= bs);
        } else {
            lemma_hex_digit(b / 16);
            lemma_hex_digit(b % 16);
            assert(enc[0] == '%');
            assert(enc.len() >= 3);
            assert(enc[1] == hex_digit(b / 16));
            assert(enc[2] == hex_digit(b % 16));
            assert(enc.skip(3) =~= pe_bytes(rest));
            assert(16 * (b / 16) + (b % 16) == b) by (bit_vector);
            assert((16 * hex_val(enc[1]) + hex_val(enc[2])) as u8 == b);
            assert(pd_chars(enc) == Some(seq![b] + rest));
            assert(seq![b] + rest =~= bs);
        }
    }
}

/// Round trip: percent-decoding a percent-encoded string returns exactly
/// the UTF-8 bytes of the original string, and those bytes decode back
/// to the original string.
pub proof fn lemma_percent_round_trip(s: Seq<char>)
    ensures
        pd_chars(pe_str(s)) == Some(encode_utf8(s)),
        vstd::utf8::decode_utf8(encode_utf8(s)) == s,
{
    lemma_pd_pe_bytes(encode_utf8(s));
    vstd::utf8::encode_utf8_decode_utf8(s);
}

/// An encoded value stays within one path segment: no character of the
/// percent-encoding of a string is a URI reserved character.
pub proof fn lemma_percent_single_segment(s: Seq<char>)
    ensures
        forall|i: int|
            0 <= i < pe_str(s).len() ==> #[trigger] pe_str(s)[i] != '/' && pe_str(s)[i] != '?'
                && pe_str(s)[i] != '#' && pe_str(s)[i] != '[' && pe_str(s)[i] != ']',
{
    lemma_pe_bytes_no_reserved(encode_utf8(s));
}

/// No character of a percent-encoded byte sequence is a URI reserved
/// character (`/`, `?`, `#`, `[`, `]`): an encoded value always stays
/// within one path segment.
pub proof fn lemma_pe_bytes_no_reserved(bs: Seq<u8>)
    ensures
        forall|i: int|
            0 <= i < pe_bytes(bs).len() ==> #[trigger] pe_bytes(bs)[i] != '/' && pe_bytes(bs)[i]
                != '?' && pe_bytes(bs)[i] != '#' && pe_bytes(bs)[i] != '[' && pe_bytes(bs)[i]
                != ']',
    decreases bs.len(),
{
    if bs.len() == 0 {
    } else {
        let b = bs[0];
        lemma_pe_bytes_no_reserved(bs.drop_first());
        assert(pe_bytes(bs) =~= pe_byte(b) + pe_bytes(bs.drop_first()));
        if is_unreserved_byte(b) {
            assert((b as char) as u32 == b);
        } else {
            lemma_hex_digit(b / 16);
            lemma_hex_digit(b % 16);
        }
    }
}

} // verus!
