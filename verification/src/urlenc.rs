//! Percent-encoding of values placed into tool-call paths and query
//! strings. Encoding is done by the `urlencoding` crate behind a trusted
//! wrapper whose contract pins the result byte by byte; decoding is a
//! verified function, and a lemma shows the two invert each other.

use vstd::prelude::*;

verus! {

use vstd::string::StrSliceExecFns;
use vstd::string::StringExecFns;
use vstd::string::StringSliceAdditionalSpecFns;

/// A byte the encoder passes through unchanged: ASCII alphanumerics and
/// `-`, `.`, `_`, `~`.
pub open spec fn is_unreserved_byte(b: u8) -> bool {
    (48 <= b <= 57) || (65 <= b <= 90) || (97 <= b <= 122) || b == 45 || b == 46 || b == 95
        || b == 126
}

/// The uppercase hex digit for a value below 16.
pub open spec fn hex_digit_char(d: u8) -> char
    recommends
        d < 16,
{
    if d < 10 {
        ((48 + d) as u8) as char
    } else {
        ((55 + d) as u8) as char
    }
}

/// How one byte appears in a percent-encoded string.
pub open spec fn encode_byte(b: u8) -> Seq<char> {
    if is_unreserved_byte(b) {
        seq![b as char]
    } else {
        seq!['%', hex_digit_char(b / 16), hex_digit_char(b % 16)]
    }
}

/// The percent-encoding of a byte string.
pub open spec fn url_encode_bytes(bytes: Seq<u8>) -> Seq<char>
    decreases bytes.len(),
{
    if bytes.len() == 0 {
        Seq::empty()
    } else {
        encode_byte(bytes[0]) + url_encode_bytes(bytes.drop_first())
    }
}

/// Relies on `urlencoding::encode`: percent-encodes every byte of the
/// UTF-8 form of `s` except ASCII alphanumerics and `-`, `_`, `.`, `~`,
/// using uppercase hex digits.
#[verifier::external_body]
pub fn url_encode(s: &str) -> (r: String)
    ensures
        r@ == url_encode_bytes(s.spec_bytes()),
{
    urlencoding::encode(s).into_owned()
}

/// A character that can appear in a percent-encoded string: the escape
/// character, a hex digit, or an unreserved byte read as a character.
pub open spec fn url_safe_char(c: char) -> bool {
    c == '%' || (48 <= c as u32 <= 57) || (65 <= c as u32 <= 90) || (97 <= c as u32 <= 122) || c
        == '-' || c == '.' || c == '_' || c == '~'
}

/// Everything the encoder emits is a url-safe character; in particular the
/// encoding of any value contains no `{`, `}`, `&`, `=` or `?`.
pub proof fn lemma_encoding_is_url_safe(bytes: Seq<u8>)
    ensures
        forall|i: int|
            0 <= i < url_encode_bytes(bytes).len() ==> url_safe_char(
                #[trigger] url_encode_bytes(bytes)[i],
            ),
    decreases bytes.len(),
{
    if bytes.len() > 0 {
        lemma_encoding_is_url_safe(bytes.drop_first());
        let head = encode_byte(bytes[0]);
        assert forall|i: int| 0 <= i < url_encode_bytes(bytes).len() implies url_safe_char(
            url_encode_bytes(bytes)[i],
        ) by {
            if i < head.len() {
                assert(url_encode_bytes(bytes)[i] == head[i]);
            } else {
                assert(url_encode_bytes(bytes)[i] == url_encode_bytes(bytes.drop_first())[i
                    - head.len()]);
            }
        }
    }
}

/// The numeric value of a hex digit character (uppercase or lowercase).
pub open spec fn is_hex_digit(c: char) -> bool {
    (48 <= c as u32 <= 57) || (65 <= c as u32 <= 70) || (97 <= c as u32 <= 102)
}

pub open spec fn hex_val(c: char) -> u8
    recommends
        is_hex_digit(c),
{
    if 48 <= c as u32 <= 57 {
        (c as u32 - 48) as u8
    } else if 65 <= c as u32 <= 70 {
        (c as u32 - 55) as u8
    } else {
        (c as u32 - 87) as u8
    }
}

/// Decoding of a percent-encoded ASCII string back to bytes; `None` on a
/// malformed escape or a character outside ASCII.
pub open spec fn url_decode_chars(s: Seq<char>) -> Option<Seq<u8>>
    decreases s.len(),
{
    if s.len() == 0 {
        Some(Seq::empty())
    } else if s[0] == '%' {
        if s.len() >= 3 && is_hex_digit(s[1]) && is_hex_digit(s[2]) {
            match url_decode_chars(s.skip(3)) {
                Some(r) => Some(seq![(16 * hex_val(s[1]) + hex_val(s[2])) as u8] + r),
                None => None,
            }
        } else {
            None
        }
    } else if (s[0] as u32) < 128 {
        match url_decode_chars(s.skip(1)) {
            Some(r) => Some(seq![(s[0] as u32) as u8] + r),
            None => None,
        }
    } else {
        None
    }
}

/// Decoding inverts encoding: whatever bytes a value holds, percent-encoding
/// them and decoding the result gives the bytes back.
pub proof fn lemma_url_round_trip(bytes: Seq<u8>)
    ensures
        url_decode_chars(url_encode_bytes(bytes)) == Some(bytes),
    decreases bytes.len(),
{
    if bytes.len() == 0 {
        assert(url_encode_bytes(bytes).len() == 0);
        assert(url_decode_chars(url_encode_bytes(bytes)) == Some(Seq::<u8>::empty()));
        assert(bytes =~= Seq::<u8>::empty());
    } else {
        lemma_url_round_trip(bytes.drop_first());
        let b = bytes[0];
        let enc = url_encode_bytes(bytes);
        if is_unreserved_byte(b) {
            assert(enc[0] == b as char);
            assert((b as char) as u32 == b as u32);
            assert(enc.skip(1) =~= url_encode_bytes(bytes.drop_first()));
            assert(((enc[0] as u32) as u8) == b);
            assert(seq![b] + bytes.drop_first() =~= bytes);
        } else {
            assert(enc[0] == '%');
            assert(enc[1] == hex_digit_char(b / 16));
            assert(enc[2] == hex_digit_char(b % 16));
            assert(b / 16 < 16 && b % 16 < 16) by (bit_vector);
            assert(is_hex_digit(hex_digit_char(b / 16)));
            assert(is_hex_digit(hex_digit_char(b % 16)));
            assert(hex_val(hex_digit_char(b / 16)) == b / 16);
            assert(hex_val(hex_digit_char(b % 16)) == b % 16);
            assert(16 * (b / 16) + (b % 16) == b) by (bit_vector);
            assert(enc.skip(3) =~= url_encode_bytes(bytes.drop_first()));
            assert(seq![b] + bytes.drop_first() =~= bytes);
        }
    }
}

/// Decode a percent-encoded string to bytes; `None` on a malformed escape
/// or a character outside ASCII.
pub fn url_decode(s: &str) -> (r: Option<Vec<u8>>)
    ensures
        match r {
            Some(v) => url_decode_chars(s@) == Some(v@),
            None => url_decode_chars(s@) is None,
        },
{
    let n = s.unicode_len();
    let mut out: Vec<u8> = Vec::new();
    proof {
        assert(s@.skip(0) =~= s@);
        if url_decode_chars(s@) is Some {
            assert(out@ + url_decode_chars(s@).unwrap() =~= url_decode_chars(s@).unwrap());
        }
    }
    let mut i: usize = 0;
    while i < n
        invariant
            i <= n,
            n == s@.len(),
            url_decode_chars(s@) matches Some(full) ==> url_decode_chars(s@.skip(i as int))
                matches Some(rest) && full == out@ + rest,
            url_decode_chars(s@) is None <==> url_decode_chars(s@.skip(i as int)) is None,
        decreases n - i,
    {
        let ghost tail = s@.skip(i as int);
        let c = s.get_char(i);
        assert(tail[0] == c);
        if c == '%' {
            if n - i < 3 {
                assert(tail.len() < 3);
                return None;
            }
            let c1 = s.get_char(i + 1);
            let c2 = s.get_char(i + 2);
            assert(tail[1] == c1 && tail[2] == c2);
            let h1 = match hex_digit_value(c1) {
                Some(v) => v,
                None => {
                    return None;
                },
            };
            let h2 = match hex_digit_value(c2) {
                Some(v) => v,
                None => {
                    return None;
                },
            };
            out.push(16 * h1 + h2);
            proof {
                assert(tail.skip(3) =~= s@.skip(i + 3));
            }
            i = i + 3;
        } else {
            let code = c as u32;
            if code >= 128 {
                return None;
            }
            out.push(code as u8);
            proof {
                assert(tail.skip(1) =~= s@.skip(i + 1));
            }
            i = i + 1;
        }
    }
    proof {
        assert(s@.skip(n as int) =~= Seq::<char>::empty());
    }
    Some(out)
}

/// The value of one hex digit character, or `None` for any other character.
pub fn hex_digit_value(c: char) -> (r: Option<u8>)
    ensures
        r matches Some(v) ==> is_hex_digit(c) && v == hex_val(c) && v < 16,
        r is None ==> !is_hex_digit(c),
{
    let code = c as u32;
    if 48 <= code && code <= 57 {
        Some((code - 48) as u8)
    } else if 65 <= code && code <= 70 {
        Some((code - 55) as u8)
    } else if 97 <= code && code <= 102 {
        Some((code - 87) as u8)
    } else {
        None
    }
}

} // verus!
