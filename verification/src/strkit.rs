//! Verified building blocks for the string work the gateway does:
//! substring tests, prefix/suffix stripping, and left-to-right
//! non-overlapping replacement, each proved against a spec function
//! over the string's character sequence.

use vstd::prelude::*;

verus! {

use vstd::string::StrSliceExecFns;
use vstd::string::StringExecFns;

/// Replace every non-overlapping occurrence of `pat` in `s` with `rep`,
/// scanning left to right, as `str::replace` does for a non-empty pattern.
pub open spec fn spec_replace(s: Seq<char>, pat: Seq<char>, rep: Seq<char>) -> Seq<char>
    decreases s.len(),
{
    if pat.len() == 0 || s.len() < pat.len() {
        s
    } else if s.subrange(0, pat.len() as int) == pat {
        rep + spec_replace(s.skip(pat.len() as int), pat, rep)
    } else {
        seq![s[0]] + spec_replace(s.skip(1), pat, rep)
    }
}

/// `pat` occurs in `s` starting at some position.
pub open spec fn spec_contains(s: Seq<char>, pat: Seq<char>) -> bool {
    exists|k: int|
        0 <= k && k + pat.len() <= s.len() && #[trigger] s.subrange(k, k + pat.len() as int)
            == pat
}

/// `c` occurs somewhere in `s`.
pub open spec fn spec_has_char(s: Seq<char>, c: char) -> bool {
    exists|i: int| 0 <= i < s.len() && s[i] == c
}

/// Whether the character `c` occurs in `s`.
pub fn contains_char(s: &str, c: char) -> (r: bool)
    ensures
        r == spec_has_char(s@, c),
{
    let n = s.unicode_len();
    let mut i: usize = 0;
    while i < n
        invariant
            i <= n,
            n == s@.len(),
            forall|k: int| 0 <= k < i ==> s@[k] != c,
        decreases n - i,
    {
        if s.get_char(i) == c {
            return true;
        }
        i = i + 1;
    }
    false
}

/// Whether the characters of `s` starting at `i` are exactly `pat`.
pub fn eq_substr_at(s: &str, i: usize, pat: &str) -> (r: bool)
    requires
        i + pat@.len() <= s@.len(),
    ensures
        r == (s@.subrange(i as int, i + pat@.len()) == pat@),
{
    let n = s.unicode_len();
    let plen = pat.unicode_len();
    let mut j: usize = 0;
    while j < plen
        invariant
            j <= plen,
            plen == pat@.len(),
            n == s@.len(),
            i + plen <= s@.len(),
            forall|k: int| 0 <= k < j ==> s@[i + k] == pat@[k],
        decreases plen - j,
    {
        if s.get_char(i + j) != pat.get_char(j) {
            assert(s@.subrange(i as int, i + pat@.len()) != pat@) by {
                assert(s@.subrange(i as int, i + pat@.len())[j as int] == s@[i + j]);
            }
            return false;
        }
        j = j + 1;
    }
    assert(s@.subrange(i as int, i + pat@.len()) =~= pat@);
    true
}

/// Whether two strings hold the same characters.
pub fn str_eq(a: &str, b: &str) -> (r: bool)
    ensures
        r == (a@ == b@),
{
    let n = a.unicode_len();
    if n != b.unicode_len() {
        return false;
    }
    let r = eq_substr_at(a, 0, b);
    proof {
        if a@ == b@ {
            assert(a@.subrange(0, b@.len() as int) =~= b@);
        }
        if a@.subrange(0, b@.len() as int) == b@ {
            assert(a@ =~= b@);
        }
    }
    r
}

/// Whether `pat` occurs anywhere in `s`.
pub fn contains_str(s: &str, pat: &str) -> (r: bool)
    ensures
        r == spec_contains(s@, pat@),
{
    let n = s.unicode_len();
    let plen = pat.unicode_len();
    if plen > n {
        assert(!spec_contains(s@, pat@));
        return false;
    }
    if plen == 0 {
        assert(s@.subrange(0, 0 + pat@.len() as int) =~= pat@);
        assert(spec_contains(s@, pat@));
        return true;
    }
    let mut i: usize = 0;
    while i <= n - plen
        invariant
            plen == pat@.len(),
            n == s@.len(),
            0 < plen <= n,
            i <= n,
            forall|k: int|
                0 <= k < i ==> #[trigger] s@.subrange(k, k + pat@.len() as int) != pat@,
        decreases n - i,
    {
        if eq_substr_at(s, i, pat) {
            assert(spec_contains(s@, pat@));
            return true;
        }
        i = i + 1;
    }
    assert(!spec_contains(s@, pat@));
    false
}

/// Whether `s` starts with `pat`.
pub fn starts_with_str(s: &str, pat: &str) -> (r: bool)
    ensures
        r == (pat@.len() <= s@.len() && s@.subrange(0, pat@.len() as int) == pat@),
{
    let n = s.unicode_len();
    let plen = pat.unicode_len();
    if plen > n {
        return false;
    }
    eq_substr_at(s, 0, pat)
}

/// Whether `s` ends with `pat`.
pub fn ends_with_str(s: &str, pat: &str) -> (r: bool)
    ensures
        r == (pat@.len() <= s@.len() && s@.subrange(
            s@.len() - pat@.len(),
            s@.len() as int,
        ) == pat@),
{
    let n = s.unicode_len();
    let plen = pat.unicode_len();
    if plen > n {
        return false;
    }
    eq_substr_at(s, n - plen, pat)
}

/// The characters of `s` after a leading `pat`, or all of `s` when the
/// prefix is absent.
pub fn strip_prefix_str(s: &str, pat: &str) -> (r: String)
    ensures
        (pat@.len() <= s@.len() && s@.subrange(0, pat@.len() as int) == pat@) ==> r@ == s@.skip(
            pat@.len() as int,
        ),
        !(pat@.len() <= s@.len() && s@.subrange(0, pat@.len() as int) == pat@) ==> r@ == s@,
{
    let n = s.unicode_len();
    let plen = pat.unicode_len();
    if starts_with_str(s, pat) {
        let rest = s.substring_char(plen, n);
        assert(rest@ =~= s@.skip(plen as int));
        rest.to_owned()
    } else {
        s.to_owned()
    }
}

/// The characters of `s` before a trailing `pat`, or all of `s` when the
/// suffix is absent.
pub fn strip_suffix_str(s: &str, pat: &str) -> (r: String)
    ensures
        (pat@.len() <= s@.len() && s@.subrange(s@.len() - pat@.len(), s@.len() as int) == pat@)
            ==> r@ == s@.take(s@.len() - pat@.len()),
        !(pat@.len() <= s@.len() && s@.subrange(s@.len() - pat@.len(), s@.len() as int) == pat@)
            ==> r@ == s@,
{
    let n = s.unicode_len();
    let plen = pat.unicode_len();
    if ends_with_str(s, pat) {
        let head = s.substring_char(0, n - plen);
        assert(head@ =~= s@.take(s@.len() - pat@.len()));
        head.to_owned()
    } else {
        s.to_owned()
    }
}

/// Append one character of `src` (the one at index `i`) to `out`.
pub fn append_char_of(out: &mut String, src: &str, i: usize)
    requires
        i < src@.len(),
        i < usize::MAX,
    ensures
        final(out)@ == old(out)@ + seq![src@[i as int]],
{
    let piece = src.substring_char(i, i + 1);
    assert(piece@ =~= seq![src@[i as int]]);
    out.append(piece);
}

/// Replace every non-overlapping occurrence of `pat` in `s` with `rep`.
pub fn replace_str(s: &str, pat: &str, rep: &str) -> (r: String)
    requires
        pat@.len() > 0,
    ensures
        r@ == spec_replace(s@, pat@, rep@),
{
    let n = s.unicode_len();
    let plen = pat.unicode_len();
    let mut out = String::new();
    proof {
        assert(s@.skip(0) =~= s@);
        assert(out@ + spec_replace(s@, pat@, rep@) =~= spec_replace(s@, pat@, rep@));
    }
    let mut i: usize = 0;
    while i < n
        invariant
            i <= n,
            n == s@.len(),
            plen == pat@.len(),
            plen > 0,
            out@ + spec_replace(s@.skip(i as int), pat@, rep@) == spec_replace(s@, pat@, rep@),
        decreases n - i,
    {
        let ghost tail = s@.skip(i as int);
        if plen <= n - i && eq_substr_at(s, i, pat) {
            proof {
                assert(tail.subrange(0, pat@.len() as int) =~= s@.subrange(
                    i as int,
                    i + pat@.len(),
                ));
                assert(tail.skip(pat@.len() as int) =~= s@.skip(i + plen));
            }
            out.append(rep);
            i = i + plen;
        } else {
            proof {
                if i + plen <= n {
                    assert(tail.subrange(0, pat@.len() as int) =~= s@.subrange(
                        i as int,
                        i + pat@.len(),
                    ));
                } else {
                    // the tail is shorter than the pattern: it is kept verbatim,
                    // which agrees with copying its head character
                    assert(spec_replace(tail, pat@, rep@) == tail);
                    assert(spec_replace(tail.skip(1), pat@, rep@) == tail.skip(1));
                }
                assert(tail[0] == s@[i as int]);
                assert(tail =~= seq![s@[i as int]] + tail.skip(1));
                assert(tail.skip(1) =~= s@.skip(i + 1));
            }
            append_char_of(&mut out, s, i);
            i = i + 1;
        }
    }
    assert(s@.skip(n as int) =~= Seq::<char>::empty());
    assert(out@ =~= spec_replace(s@, pat@, rep@));
    out
}


/// Relies on `String::from_utf8`: accepts exactly the valid UTF-8 byte
/// strings and decodes them.
#[verifier::external_body]
pub fn string_from_utf8(bytes: Vec<u8>) -> (r: Option<String>)
    ensures
        r matches Some(s) ==> vstd::utf8::valid_utf8(bytes@) && s@ == vstd::utf8::decode_utf8(
            bytes@,
        ),
        r is None ==> !vstd::utf8::valid_utf8(bytes@),
{
    String::from_utf8(bytes).ok()
}

/// Decode a byte slice as UTF-8 text.
pub fn utf8_to_string(bytes: &[u8]) -> (r: Option<String>)
    ensures
        r matches Some(s) ==> vstd::utf8::valid_utf8(bytes@) && s@ == vstd::utf8::decode_utf8(
            bytes@,
        ),
        r is None ==> !vstd::utf8::valid_utf8(bytes@),
{
    let owned = vstd::slice::slice_to_vec(bytes);
    string_from_utf8(owned)
}


/// The ASCII-lowercase folding of one character.
pub open spec fn spec_lower_char(c: char) -> char {
    if 65 <= c as u32 <= 90 {
        ((c as u8) + 32) as char
    } else {
        c
    }
}

pub open spec fn spec_lower(s: Seq<char>) -> Seq<char> {
    s.map_values(|c: char| spec_lower_char(c))
}

/// Whether two strings are equal up to ASCII case.
pub fn eq_ignore_ascii_case(a: &str, b: &str) -> (r: bool)
    ensures
        r == (spec_lower(a@) == spec_lower(b@)),
{
    let n = a.unicode_len();
    if n != b.unicode_len() {
        assert(spec_lower(a@).len() != spec_lower(b@).len());
        return false;
    }
    let mut i: usize = 0;
    while i < n
        invariant
            i <= n,
            n == a@.len(),
            n == b@.len(),
            forall|k: int| 0 <= k < i ==> spec_lower(a@)[k] == spec_lower(b@)[k],
        decreases n - i,
    {
        let ca = a.get_char(i) as u32;
        let cb = b.get_char(i) as u32;
        let la = if 65 <= ca && ca <= 90 {
            ca + 32
        } else {
            ca
        };
        let lb = if 65 <= cb && cb <= 90 {
            cb + 32
        } else {
            cb
        };
        if la != lb {
            assert(spec_lower(a@)[i as int] != spec_lower(b@)[i as int]) by {
                assert(spec_lower(a@)[i as int] == spec_lower_char(a@[i as int]));
                assert(spec_lower(b@)[i as int] == spec_lower_char(b@[i as int]));
            }
            return false;
        }
        proof {
            assert(spec_lower(a@)[i as int] == spec_lower_char(a@[i as int]));
            assert(spec_lower(b@)[i as int] == spec_lower_char(b@[i as int]));
            assert(spec_lower_char(a@[i as int]) as u32 == la);
            assert(spec_lower_char(b@[i as int]) as u32 == lb);
        }
        i = i + 1;
    }
    proof {
        assert(spec_lower(a@) =~= spec_lower(b@));
    }
    true
}


/// The first eighty characters of a string, with a trailing ellipsis when
/// it was longer; shorter strings stay themselves.
pub fn shorten_string(s: &str) -> (r: String)
    ensures
        s@.len() <= 80 ==> r@ == s@,
        s@.len() > 80 ==> r@ == s@.take(80) + "..."@,
{
    let n = s.unicode_len();
    if n > 80 {
        let mut head = s.substring_char(0, 80).to_owned();
        proof {
            assert(head@ =~= s@.take(80));
        }
        head.append("...");
        head
    } else {
        s.to_owned()
    }
}

} // verus!
