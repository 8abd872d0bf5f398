//! A verified encoder for the small pieces of JSON text the gateway itself
//! produces: escaped strings, and flat objects whose values are strings.
//! The escaping mirrors what serde_json emits, so text built here can stand
//! next to text serialized elsewhere.

use vstd::prelude::*;

verus! {

use vstd::string::StrSliceExecFns;
use vstd::string::StringExecFns;

/// Lowercase hex digit for a value below 16.
pub open spec fn lower_hex_char(d: u8) -> char
    recommends
        d < 16,
{
    if d < 10 {
        ((48 + d) as u8) as char
    } else {
        ((87 + d) as u8) as char
    }
}

/// How one character appears inside a JSON string literal.
pub open spec fn json_escape_char(c: char) -> Seq<char> {
    if c == '"' {
        seq!['\\', '"']
    } else if c == '\\' {
        seq!['\\', '\\']
    } else if c as u32 == 8 {
        seq!['\\', 'b']
    } else if c as u32 == 12 {
        seq!['\\', 'f']
    } else if c == '\n' {
        seq!['\\', 'n']
    } else if c == '\r' {
        seq!['\\', 'r']
    } else if c == '\t' {
        seq!['\\', 't']
    } else if (c as u32) < 32 {
        seq!['\\', 'u', '0', '0', lower_hex_char((c as u32 / 16) as u8), lower_hex_char(
            (c as u32 % 16) as u8,
        )]
    } else {
        seq![c]
    }
}

/// The body of a JSON string literal for `s`.
pub open spec fn json_escaped(s: Seq<char>) -> Seq<char>
    decreases s.len(),
{
    if s.len() == 0 {
        Seq::empty()
    } else {
        json_escape_char(s[0]) + json_escaped(s.skip(1))
    }
}

/// The JSON string literal for `s`, quotes included.
pub open spec fn json_quoted(s: Seq<char>) -> Seq<char> {
    seq!['"'] + json_escaped(s) + seq!['"']
}

/// The members of a JSON object of string fields, in order, with commas.
pub open spec fn json_members(ps: Seq<(Seq<char>, Seq<char>)>, first: bool) -> Seq<char>
    decreases ps.len(),
{
    if ps.len() == 0 {
        Seq::empty()
    } else {
        let lead: Seq<char> = if first {
            Seq::empty()
        } else {
            seq![',']
        };
        lead + json_quoted(ps[0].0) + seq![':'] + json_quoted(ps[0].1) + json_members(
            ps.drop_first(),
            false,
        )
    }
}

/// The JSON object whose fields are the given pairs, in order.
pub open spec fn json_string_object(ps: Seq<(Seq<char>, Seq<char>)>) -> Seq<char> {
    seq!['{'] + json_members(ps, true) + seq!['}']
}

/// One lowercase hex digit as a string.
fn lower_hex_str(d: u8) -> (r: String)
    requires
        d < 16,
    ensures
        r@ == seq![lower_hex_char(d)],
{
    let digits = "0123456789abcdef";
    proof {
        reveal_strlit("0123456789abcdef");
    }
    let piece = digits.substring_char(d as usize, d as usize + 1);
    proof {
        assert(piece@ =~= seq![digits@[d as int]]);
        assert(digits@[d as int] == lower_hex_char(d));
    }
    piece.to_owned()
}

/// Append the JSON escaping of `s` to `out`.
pub fn append_json_escaped(out: &mut String, s: &str)
    ensures
        final(out)@ == old(out)@ + json_escaped(s@),
{
    let n = s.unicode_len();
    let mut i: usize = 0;
    proof {
        assert(s@.skip(0) =~= s@);
        assert(old(out)@ + json_escaped(s@) =~= old(out)@ + json_escaped(s@));
    }
    while i < n
        invariant
            i <= n,
            n == s@.len(),
            out@ + json_escaped(s@.skip(i as int)) == old(out)@ + json_escaped(s@),
        decreases n - i,
    {
        let ghost tail = s@.skip(i as int);
        proof {
            assert(tail[0] == s@[i as int]);
            assert(tail.skip(1) =~= s@.skip(i + 1));
        }
        let ghost out_before = out@;
        let c = s.get_char(i);
        let code = c as u32;
        if c == '"' {
            out.append("\\\"");
            proof {
                reveal_strlit("\\\"");
                assert(out@ =~= out_before + json_escape_char(c));
            }
        } else if c == '\\' {
            out.append("\\\\");
            proof {
                reveal_strlit("\\\\");
                assert(out@ =~= out_before + json_escape_char(c));
            }
        } else if code == 8 {
            out.append("\\b");
            proof {
                reveal_strlit("\\b");
                assert(out@ =~= out_before + json_escape_char(c));
            }
        } else if code == 12 {
            out.append("\\f");
            proof {
                reveal_strlit("\\f");
                assert(out@ =~= out_before + json_escape_char(c));
            }
        } else if c == '\n' {
            out.append("\\n");
            proof {
                reveal_strlit("\\n");
                assert(out@ =~= out_before + json_escape_char(c));
            }
        } else if c == '\r' {
            out.append("\\r");
            proof {
                reveal_strlit("\\r");
                assert(out@ =~= out_before + json_escape_char(c));
            }
        } else if c == '\t' {
            out.append("\\t");
            proof {
                reveal_strlit("\\t");
                assert(out@ =~= out_before + json_escape_char(c));
            }
        } else if code < 32 {
            out.append("\\u00");
            let hi = lower_hex_str((code / 16) as u8);
            let lo = lower_hex_str((code % 16) as u8);
            out.append(hi.as_str());
            out.append(lo.as_str());
            proof {
                reveal_strlit("\\u00");
                assert(out@ =~= out_before + json_escape_char(c));
            }
        } else {
            crate::strkit::append_char_of(out, s, i);
            proof {
                assert(out@ =~= out_before + json_escape_char(c));
            }
        }
        i = i + 1;
    }
    proof {
        assert(s@.skip(n as int) =~= Seq::<char>::empty());
        assert(out@ + json_escaped(s@.skip(n as int)) =~= out@);
    }
}

/// Append the JSON string literal for `s` to `out`, quotes included.
pub fn append_json_quoted(out: &mut String, s: &str)
    ensures
        final(out)@ == old(out)@ + json_quoted(s@),
{
    let ghost out0 = out@;
    out.append("\"");
    proof {
        reveal_strlit("\"");
        assert(out@ =~= out0 + seq!['"']);
    }
    append_json_escaped(out, s);
    let ghost before_close = out@;
    out.append("\"");
    proof {
        reveal_strlit("\"");
        assert(out@ =~= before_close + seq!['"']);
        assert(out@ =~= out0 + json_quoted(s@));
    }
}

/// The JSON object text for a list of string fields, in order.
pub fn json_object_of_pairs(pairs: &Vec<(String, String)>) -> (r: String)
    ensures
        r@ == json_string_object(crate::templater::pairs_view(pairs@)),
{
    let ghost pv = crate::templater::pairs_view(pairs@);
    let mut out = String::from_str("{");
    proof {
        reveal_strlit("{");
        assert(out@ =~= seq!['{']);
    }
    let mut i: usize = 0;
    proof {
        assert(pv.skip(0) =~= pv);
    }
    while i < pairs.len()
        invariant
            i <= pairs@.len(),
            pv == crate::templater::pairs_view(pairs@),
            out@ + json_members(pv.skip(i as int), i == 0) == seq!['{'] + json_members(pv, true),
        decreases pairs@.len() - i,
    {
        let ghost tail = pv.skip(i as int);
        proof {
            assert(tail[0] == pv[i as int]);
            assert(tail.drop_first() =~= pv.skip(i + 1));
        }
        let ghost out_before = out@;
        if i > 0 {
            out.append(",");
            proof {
                reveal_strlit(",");
            }
        }
        let kv = &pairs[i];
        append_json_quoted(&mut out, kv.0.as_str());
        out.append(":");
        append_json_quoted(&mut out, kv.1.as_str());
        proof {
            reveal_strlit(":");
            let lead: Seq<char> = if i == 0 {
                Seq::empty()
            } else {
                seq![',']
            };
            assert(out@ =~= out_before + lead + json_quoted(tail[0].0) + seq![':'] + json_quoted(
                tail[0].1,
            ));
        }
        i = i + 1;
    }
    proof {
        assert(pv.skip(pairs@.len() as int) =~= Seq::<(Seq<char>, Seq<char>)>::empty());
    }
    out.append("}");
    proof {
        reveal_strlit("}");
        assert(out@ =~= json_string_object(pv));
    }
    out
}

} // verus!
