//! From a tool call to an outbound HTTP request: argument filtering, path
//! templating, and the method-dependent split into path and JSON body.

use vstd::prelude::*;

verus! {

use vstd::string::StrSliceExecFns;
use vstd::string::StringExecFns;
use crate::jsontext::{json_object_of_pairs, json_string_object};
use crate::strkit::append_char_of;
use crate::templater::{
    args_view, decls_view, filter_tool_params, pairs_view, replace_params_in_path,
    spec_filter_params, spec_replace_params, HttpMethod, Parameter, ParameterV, ParamValue,
    ParamValueV,
};

/// Split `s` at the first occurrence of `c`: the part before it and the part
/// after it. Without an occurrence, the whole of `s` and an empty rest.
pub open spec fn spec_split_go(s: Seq<char>, c: char, cur: Seq<char>) -> (Seq<char>, Seq<char>)
    decreases s.len(),
{
    if s.len() == 0 {
        (cur, Seq::empty())
    } else if s[0] == c {
        (cur, s.skip(1))
    } else {
        spec_split_go(s.skip(1), c, cur.push(s[0]))
    }
}

pub open spec fn spec_split_first(s: Seq<char>, c: char) -> (Seq<char>, Seq<char>) {
    spec_split_go(s, c, Seq::empty())
}

/// All pieces of `s` between occurrences of `c`, in order.
pub open spec fn spec_split_go_list(s: Seq<char>, c: char, cur: Seq<char>) -> Seq<Seq<char>>
    decreases s.len(),
{
    if s.len() == 0 {
        seq![cur]
    } else if s[0] == c {
        seq![cur] + spec_split_go_list(s.skip(1), c, Seq::empty())
    } else {
        spec_split_go_list(s.skip(1), c, cur.push(s[0]))
    }
}

pub open spec fn spec_split_all(s: Seq<char>, c: char) -> Seq<Seq<char>> {
    spec_split_go_list(s, c, Seq::empty())
}

/// The `k=v` pairs of a query string, split on `&` and at the first `=` of
/// each piece, neither keys nor values decoded. An empty query holds none.
pub open spec fn spec_query_pairs(q: Seq<char>) -> Seq<(Seq<char>, Seq<char>)> {
    if q.len() == 0 {
        Seq::empty()
    } else {
        spec_split_all(q, '&').map_values(|p: Seq<char>| spec_split_first(p, '='))
    }
}

/// Split `s` at the first occurrence of `c`.
pub fn split_first(s: &str, c: char) -> (r: (String, String))
    ensures
        (r.0@, r.1@) == spec_split_first(s@, c),
{
    let n = s.unicode_len();
    let mut head = String::new();
    proof {
        assert(s@.skip(0) =~= s@);
    }
    let mut i: usize = 0;
    while i < n
        invariant
            i <= n,
            n == s@.len(),
            spec_split_go(s@.skip(i as int), c, head@) == spec_split_first(s@, c),
        decreases n - i,
    {
        let ghost tail = s@.skip(i as int);
        proof {
            assert(tail[0] == s@[i as int]);
            assert(tail.skip(1) =~= s@.skip(i + 1));
        }
        let ch = s.get_char(i);
        if ch == c {
            let rest = s.substring_char(i + 1, n).to_owned();
            proof {
                assert(rest@ =~= s@.skip(i + 1));
            }
            return (head, rest);
        }
        let ghost head_before = head@;
        append_char_of(&mut head, s, i);
        proof {
            assert(head@ =~= head_before.push(s@[i as int]));
        }
        i = i + 1;
    }
    proof {
        assert(s@.skip(n as int) =~= Seq::<char>::empty());
    }
    (head, String::new())
}

/// Split `s` on every occurrence of `c`, keeping empty pieces.
pub fn split_all(s: &str, c: char) -> (r: Vec<String>)
    ensures
        r@.map_values(|p: String| p@) == spec_split_all(s@, c),
{
    let n = s.unicode_len();
    let mut done: Vec<String> = Vec::new();
    let mut cur = String::new();
    proof {
        assert(s@.skip(0) =~= s@);
        assert(done@.map_values(|p: String| p@) + spec_split_all(s@, c) =~= spec_split_all(
            s@,
            c,
        ));
    }
    let mut i: usize = 0;
    while i < n
        invariant
            i <= n,
            n == s@.len(),
            done@.map_values(|p: String| p@) + spec_split_go_list(s@.skip(i as int), c, cur@)
                == spec_split_all(s@, c),
        decreases n - i,
    {
        let ghost tail = s@.skip(i as int);
        proof {
            assert(tail[0] == s@[i as int]);
            assert(tail.skip(1) =~= s@.skip(i + 1));
        }
        let ch = s.get_char(i);
        if ch == c {
            let ghost done_before = done@;
            let ghost cur_before = cur@;
            done.push(cur);
            cur = String::new();
            proof {
                assert(done@.map_values(|p: String| p@) =~= done_before.map_values(
                    |p: String| p@,
                ).push(cur_before));
                assert(done_before.map_values(|p: String| p@).push(cur_before)
                    + spec_split_go_list(s@.skip(i + 1), c, Seq::empty()) =~= done_before.map_values(
                    |p: String| p@,
                ) + (seq![cur_before] + spec_split_go_list(s@.skip(i + 1), c, Seq::empty())));
            }
        } else {
            let ghost cur_before = cur@;
            append_char_of(&mut cur, s, i);
            proof {
                assert(cur@ =~= cur_before.push(s@[i as int]));
            }
        }
        i = i + 1;
    }
    proof {
        assert(s@.skip(n as int) =~= Seq::<char>::empty());
    }
    let ghost done_before = done@;
    let ghost cur_last = cur@;
    done.push(cur);
    proof {
        assert(done@.map_values(|p: String| p@) =~= done_before.map_values(|p: String| p@).push(
            cur_last,
        ));
        assert(done_before.map_values(|p: String| p@).push(cur_last) =~= done_before.map_values(
            |p: String| p@,
        ) + seq![cur_last]);
    }
    done
}

/// The `k=v` pairs of a query string, neither keys nor values decoded.
pub fn query_pairs(q: &str) -> (r: Vec<(String, String)>)
    ensures
        pairs_view(r@) == spec_query_pairs(q@),
{
    if q.is_empty() {
        let out: Vec<(String, String)> = Vec::new();
        proof {
            assert(pairs_view(out@) =~= spec_query_pairs(q@));
        }
        return out;
    }
    let parts = split_all(q, '&');
    let ghost parts_v = parts@.map_values(|p: String| p@);
    let mut out: Vec<(String, String)> = Vec::new();
    let mut i: usize = 0;
    while i < parts.len()
        invariant
            i <= parts@.len(),
            parts_v == parts@.map_values(|p: String| p@),
            pairs_view(out@) =~= parts_v.take(i as int).map_values(
                |p: Seq<char>| spec_split_first(p, '='),
            ),
        decreases parts@.len() - i,
    {
        let ghost out_before = out@;
        let kv = split_first(parts[i].as_str(), '=');
        out.push(kv);
        proof {
            assert(parts_v.take(i + 1).drop_last() =~= parts_v.take(i as int));
            assert(pairs_view(out@) =~= pairs_view(out_before).push(
                (spec_split_first(parts_v[i as int], '=').0, spec_split_first(
                    parts_v[i as int],
                    '=',
                ).1),
            ));
            assert(parts_v.take(i + 1).map_values(|p: Seq<char>| spec_split_first(p, '='))
                =~= parts_v.take(i as int).map_values(|p: Seq<char>| spec_split_first(p, '=')).push(
                spec_split_first(parts_v[i as int], '='),
            ));
        }
        i = i + 1;
    }
    proof {
        assert(parts_v.take(parts@.len() as int) =~= parts_v);
    }
    out
}

/// What `compute_request_path_body` returns: for GET the full templated
/// path with its query, and no body; for POST the templated path up to its
/// query, and a JSON object holding the query's pairs.
pub open spec fn spec_compute_request(
    path: Seq<char>,
    args: Seq<(Seq<char>, ParamValueV)>,
    decls: Seq<ParameterV>,
    m: HttpMethod,
) -> Result<(Seq<char>, Option<Seq<char>>), Seq<char>> {
    match spec_replace_params(path, spec_filter_params(args), decls) {
        Err(e) => Err(e),
        Ok(full) => match m {
            HttpMethod::Get => Ok((full, None)),
            HttpMethod::Post => {
                let (head, q) = spec_split_first(full, '?');
                Ok((head, Some(json_string_object(spec_query_pairs(q)))))
            },
        },
    }
}

/// Compute the outbound path and body of a tool call: scalar arguments fill
/// the path template and the query string; for POST, the query pairs move
/// into a JSON body instead.
pub fn compute_request_path_body(
    endpoint_path: &str,
    tool_params: &Vec<(String, ParamValue)>,
    prompt_target_params: &Vec<Parameter>,
    http_method: &HttpMethod,
) -> (r: Result<(String, Option<String>), String>)
    ensures
        match r {
            Ok(pb) => spec_compute_request(
                endpoint_path@,
                args_view(tool_params@),
                decls_view(prompt_target_params@),
                *http_method,
            ) == Ok::<(Seq<char>, Option<Seq<char>>), Seq<char>>(
                (
                    pb.0@,
                    match pb.1 {
                        Some(b) => Some(b@),
                        None => None,
                    },
                ),
            ),
            Err(e) => spec_compute_request(
                endpoint_path@,
                args_view(tool_params@),
                decls_view(prompt_target_params@),
                *http_method,
            ) == Err::<(Seq<char>, Option<Seq<char>>), Seq<char>>(e@),
        },
{
    let filtered = filter_tool_params(tool_params);
    match replace_params_in_path(endpoint_path, &filtered, prompt_target_params) {
        Err(e) => Err(e),
        Ok(full) => match http_method {
            HttpMethod::Get => Ok((full, None)),
            HttpMethod::Post => {
                let (head, q) = split_first(full.as_str(), '?');
                let qp = query_pairs(q.as_str());
                let body = json_object_of_pairs(&qp);
                Ok((head, Some(body)))
            },
        },
    }
}


/// A text free of the query-string separators.
pub open spec fn sep_free(s: Seq<char>) -> bool {
    forall|i: int| 0 <= i < s.len() ==> #[trigger] s[i] != '?' && s[i] != '&' && s[i] != '='
}

/// Splitting at a separator that `a` does not hold finds exactly the parts
/// around the one inserted between `a` and `b`.
proof fn lemma_split_go_around(a: Seq<char>, c: char, b: Seq<char>, cur: Seq<char>)
    requires
        forall|i: int| 0 <= i < a.len() ==> #[trigger] a[i] != c,
    ensures
        spec_split_go(a + seq![c] + b, c, cur) == (cur + a, b),
    decreases a.len(),
{
    let s = a + seq![c] + b;
    if a.len() == 0 {
        assert(s[0] == c);
        assert(s.skip(1) =~= b);
        assert(cur + a =~= cur);
    } else {
        assert(s[0] == a[0]);
        assert(s.skip(1) =~= a.drop_first() + seq![c] + b);
        assert(forall|i: int|
            0 <= i < a.drop_first().len() ==> (#[trigger] a.drop_first()[i]) == a[i + 1]);
        lemma_split_go_around(a.drop_first(), c, b, cur.push(a[0]));
        assert(cur.push(a[0]) + a.drop_first() =~= cur + a);
    }
}

/// Splitting a text without the separator yields the whole text.
proof fn lemma_split_go_whole(a: Seq<char>, c: char, cur: Seq<char>)
    requires
        forall|i: int| 0 <= i < a.len() ==> #[trigger] a[i] != c,
    ensures
        spec_split_go(a, c, cur) == (cur + a, Seq::<char>::empty()),
        spec_split_go_list(a, c, cur) == seq![cur + a],
    decreases a.len(),
{
    if a.len() == 0 {
        assert(cur + a =~= cur);
    } else {
        assert(a.skip(1) =~= a.drop_first());
        assert(forall|i: int|
            0 <= i < a.drop_first().len() ==> (#[trigger] a.drop_first()[i]) == a[i + 1]);
        lemma_split_go_whole(a.drop_first(), c, cur.push(a[0]));
        assert(cur.push(a[0]) + a.drop_first() =~= cur + a);
    }
}

/// Splitting on every separator peels one separator-free piece at a time.
proof fn lemma_split_go_list_around(a: Seq<char>, c: char, b: Seq<char>, cur: Seq<char>)
    requires
        forall|i: int| 0 <= i < a.len() ==> #[trigger] a[i] != c,
    ensures
        spec_split_go_list(a + seq![c] + b, c, cur) == seq![cur + a] + spec_split_go_list(
            b,
            c,
            Seq::empty(),
        ),
    decreases a.len(),
{
    let s = a + seq![c] + b;
    if a.len() == 0 {
        assert(s[0] == c);
        assert(s.skip(1) =~= b);
        assert(cur + a =~= cur);
    } else {
        assert(s[0] == a[0]);
        assert(s.skip(1) =~= a.drop_first() + seq![c] + b);
        assert(forall|i: int|
            0 <= i < a.drop_first().len() ==> (#[trigger] a.drop_first()[i]) == a[i + 1]);
        lemma_split_go_list_around(a.drop_first(), c, b, cur.push(a[0]));
        assert(cur.push(a[0]) + a.drop_first() =~= cur + a);
    }
}

/// A percent-encoded value holds no separator.
proof fn lemma_enc_sep_free(v: Seq<char>)
    ensures
        sep_free(crate::templater::enc_of(v)),
{
    let enc = crate::templater::enc_of(v);
    crate::urlenc::lemma_encoding_is_url_safe(vstd::utf8::encode_utf8(v));
    assert forall|i: int| 0 <= i < enc.len() implies #[trigger] enc[i] != '?' && enc[i] != '&'
        && enc[i] != '=' by {
        assert(crate::urlenc::url_safe_char(enc[i]));
    }
}


/// The query text the templater appends for a pair list: `?` or `&` before
/// the first pair according to position, `&` between the rest.
pub open spec fn spec_query_text(ps: Seq<(Seq<char>, Seq<char>)>, first: bool) -> Seq<char>
    decreases ps.len(),
{
    if ps.len() == 0 {
        Seq::empty()
    } else {
        let sep: char = if first {
            '?'
        } else {
            '&'
        };
        seq![sep] + ps[0].0 + seq!['='] + crate::templater::enc_of(ps[0].1) + spec_query_text(
            ps.drop_first(),
            false,
        )
    }
}

/// The same text without its leading separator.
pub open spec fn spec_query_body(ps: Seq<(Seq<char>, Seq<char>)>) -> Seq<char>
    decreases ps.len(),
{
    if ps.len() == 0 {
        Seq::empty()
    } else if ps.len() == 1 {
        ps[0].0 + seq!['='] + crate::templater::enc_of(ps[0].1)
    } else {
        ps[0].0 + seq!['='] + crate::templater::enc_of(ps[0].1) + seq!['&'] + spec_query_body(
            ps.drop_first(),
        )
    }
}

proof fn lemma_query_text_body(ps: Seq<(Seq<char>, Seq<char>)>, first: bool)
    requires
        ps.len() > 0,
    ensures
        spec_query_text(ps, first) == seq![
            if first {
                '?'
            } else {
                '&'
            },
        ] + spec_query_body(ps),
    decreases ps.len(),
{
    let sep: char = if first {
        '?'
    } else {
        '&'
    };
    if ps.len() == 1 {
        assert(spec_query_text(ps.drop_first(), false) == Seq::<char>::empty());
        assert(spec_query_text(ps, first) =~= seq![sep] + spec_query_body(ps));
    } else {
        lemma_query_text_body(ps.drop_first(), false);
        assert(spec_query_text(ps, first) =~= seq![sep] + spec_query_body(ps));
    }
}

/// Over a template without braces the walk copies the path and consumes no
/// argument.
proof fn lemma_subst_plain(path: Seq<char>, pairs: Seq<(Seq<char>, Seq<char>)>)
    requires
        crate::templater::brace_free(path),
    ensures
        crate::templater::spec_subst(path, pairs, false, Seq::empty()) == Ok::<
            (Seq<char>, Seq<Seq<char>>),
            Seq<char>,
        >((path, Seq::empty())),
    decreases path.len(),
{
    if path.len() == 0 {
        assert(path =~= Seq::<char>::empty());
    } else {
        let c = path[0];
        assert(c != '{' && c != '}');
        assert(forall|i: int|
            0 <= i < path.skip(1).len() ==> (#[trigger] path.skip(1)[i]) == path[i + 1]);
        lemma_subst_plain(path.skip(1), pairs);
        assert(seq![c] + path.skip(1) =~= path);
    }
}

/// With every key unconsumed, separator-free and distinct, the query phase
/// appends exactly the query text.
proof fn lemma_add_queries_text(
    acc: Seq<char>,
    pairs: Seq<(Seq<char>, Seq<char>)>,
    used: Seq<Seq<char>>,
)
    requires
        forall|i: int| 0 <= i < pairs.len() ==> sep_free((#[trigger] pairs[i]).0),
        forall|i: int|
            0 <= i < pairs.len() ==> !crate::templater::name_used(used, (#[trigger] pairs[i]).0),
        forall|i: int, j: int| 0 <= i < j < pairs.len() ==> pairs[i].0 != pairs[j].0,
    ensures
        crate::templater::spec_add_queries(acc, pairs, used).0 == acc + spec_query_text(
            pairs,
            !crate::strkit::spec_has_char(acc, '?'),
        ),
    decreases pairs.len(),
{
    if pairs.len() == 0 {
        assert(acc + spec_query_text(pairs, !crate::strkit::spec_has_char(acc, '?')) =~= acc);
    } else {
        let k = pairs[0].0;
        let v = pairs[0].1;
        assert(!crate::templater::name_used(used, k));
        let first = !crate::strkit::spec_has_char(acc, '?');
        let sep: char = if first {
            '?'
        } else {
            '&'
        };
        let next = acc + seq![sep] + k + seq!['='] + crate::templater::enc_of(v);
        assert(crate::strkit::spec_has_char(next, '?')) by {
            if first {
                assert(next[acc.len() as int] == '?');
            } else {
                let w = choose|w: int| 0 <= w < acc.len() && acc[w] == '?';
                assert(next[w] == '?');
            }
        }
        assert(forall|i: int|
            0 <= i < pairs.drop_first().len() ==> (#[trigger] pairs.drop_first()[i]) == pairs[i
                + 1]);
        assert(forall|i: int|
            0 <= i < pairs.drop_first().len() ==> !crate::templater::name_used(
                used.push(k),
                (#[trigger] pairs.drop_first()[i]).0,
            )) by {
            assert forall|i: int| 0 <= i < pairs.drop_first().len() implies !crate::templater::name_used(
                used.push(k),
                (#[trigger] pairs.drop_first()[i]).0,
            ) by {
                let key = pairs[i + 1].0;
                assert(key != k);
                assert(!crate::templater::name_used(used, key));
                assert forall|j: int| 0 <= j < used.push(k).len() implies used.push(k)[j]
                    != key by {
                    if j < used.len() {
                        assert(used.push(k)[j] == used[j]);
                    } else {
                        assert(used.push(k)[j] == k);
                    }
                }
            }
        }
        lemma_add_queries_text(next, pairs.drop_first(), used.push(k));
        assert(!crate::strkit::spec_has_char(next, '?') == false);
        assert(next + spec_query_text(pairs.drop_first(), false) =~= acc + spec_query_text(
            pairs,
            first,
        ));
    }
}

/// A key-value piece of the query body holds no ampersand.
proof fn lemma_piece_amp_free(k: Seq<char>, v: Seq<char>)
    requires
        sep_free(k),
    ensures
        forall|i: int|
            0 <= i < (k + seq!['='] + crate::templater::enc_of(v)).len() ==> (#[trigger] (k
                + seq!['='] + crate::templater::enc_of(v))[i]) != '&',
{
    let piece = k + seq!['='] + crate::templater::enc_of(v);
    lemma_enc_sep_free(v);
    assert forall|i: int| 0 <= i < piece.len() implies (#[trigger] piece[i]) != '&' by {
        if i < k.len() {
            assert(piece[i] == k[i]);
        } else if i == k.len() {
            assert(piece[i] == '=');
        } else {
            assert(piece[i] == crate::templater::enc_of(v)[i - k.len() - 1]);
        }
    }
}

/// Splitting the query body on `&` recovers one piece per pair.
proof fn lemma_split_body(ps: Seq<(Seq<char>, Seq<char>)>)
    requires
        ps.len() > 0,
        forall|i: int| 0 <= i < ps.len() ==> sep_free((#[trigger] ps[i]).0),
    ensures
        spec_split_all(spec_query_body(ps), '&') == ps.map_values(
            |p: (Seq<char>, Seq<char>)| p.0 + seq!['='] + crate::templater::enc_of(p.1),
        ),
    decreases ps.len(),
{
    let piece = ps[0].0 + seq!['='] + crate::templater::enc_of(ps[0].1);
    lemma_piece_amp_free(ps[0].0, ps[0].1);
    if ps.len() == 1 {
        lemma_split_go_whole(piece, '&', Seq::empty());
        assert(Seq::<char>::empty() + piece =~= piece);
        assert(spec_split_all(spec_query_body(ps), '&') =~= ps.map_values(
            |p: (Seq<char>, Seq<char>)| p.0 + seq!['='] + crate::templater::enc_of(p.1),
        ));
    } else {
        assert(forall|i: int|
            0 <= i < ps.drop_first().len() ==> (#[trigger] ps.drop_first()[i]) == ps[i + 1]);
        lemma_split_body(ps.drop_first());
        assert(spec_query_body(ps) =~= piece + seq!['&'] + spec_query_body(ps.drop_first()));
        lemma_split_go_list_around(piece, '&', spec_query_body(ps.drop_first()), Seq::empty());
        assert(Seq::<char>::empty() + piece =~= piece);
        assert(spec_split_all(spec_query_body(ps), '&') =~= ps.map_values(
            |p: (Seq<char>, Seq<char>)| p.0 + seq!['='] + crate::templater::enc_of(p.1),
        ));
    }
}

/// Encoding a tool call's scalar arguments into a GET path and reading them
/// back as an echoing endpoint does — splitting the query from the path,
/// the pairs at `&` and `=`, then percent-decoding each value — reproduces
/// the original fields, name for name and byte for byte.
pub proof fn lemma_templater_round_trip(path: Seq<char>, args: Seq<(Seq<char>, ParamValueV)>)
    requires
        crate::templater::brace_free(path),
        !crate::strkit::spec_has_char(path, '?'),
        spec_filter_params(args).len() > 0,
        forall|i: int|
            0 <= i < spec_filter_params(args).len() ==> sep_free(
                (#[trigger] spec_filter_params(args)[i]).0,
            ),
        forall|i: int, j: int|
            0 <= i < j < spec_filter_params(args).len() ==> spec_filter_params(args)[i].0
                != spec_filter_params(args)[j].0,
    ensures
        ({
            let pairs = spec_filter_params(args);
            let full = spec_replace_params(path, pairs, Seq::empty());
            &&& full is Ok
            &&& spec_split_first(full->Ok_0, '?').0 == path
            &&& spec_query_pairs(spec_split_first(full->Ok_0, '?').1).len() == pairs.len()
            &&& forall|i: int|
                0 <= i < pairs.len() ==> ({
                    let parsed = #[trigger] spec_query_pairs(spec_split_first(full->Ok_0, '?').1)[i];
                    parsed.0 == pairs[i].0 && crate::urlenc::url_decode_chars(parsed.1) == Some(
                        vstd::utf8::encode_utf8(pairs[i].1),
                    )
                })
        }),
{
    let pairs = spec_filter_params(args);
    lemma_subst_plain(path, pairs);
    assert(forall|i: int|
        0 <= i < pairs.len() ==> !crate::templater::name_used(
            Seq::<Seq<char>>::empty(),
            (#[trigger] pairs[i]).0,
        ));
    lemma_add_queries_text(path, pairs, Seq::empty());
    let q = crate::templater::spec_add_queries(path, pairs, Seq::empty());
    assert(crate::templater::spec_add_defaults(q.0, Seq::<ParameterV>::empty(), q.1) == q.0);
    let full = spec_replace_params(path, pairs, Seq::empty());
    assert(full is Ok && full->Ok_0 == path + spec_query_text(pairs, true));
    lemma_query_text_body(pairs, true);
    let body = spec_query_body(pairs);
    assert(full->Ok_0 =~= path + seq!['?'] + body);
    lemma_split_go_around(path, '?', body, Seq::empty());
    assert(Seq::<char>::empty() + path =~= path);
    assert(spec_split_first(full->Ok_0, '?') == (path, body));
    assert(body.len() > 0) by {
        assert(body[pairs[0].0.len() as int] == '=');
    }
    lemma_split_body(pairs);
    let pieces = spec_split_all(body, '&');
    assert(spec_query_pairs(body) == pieces.map_values(
        |p: Seq<char>| spec_split_first(p, '='),
    ));
    assert forall|i: int| 0 <= i < pairs.len() implies ({
        let parsed = #[trigger] spec_query_pairs(body)[i];
        parsed.0 == pairs[i].0 && crate::urlenc::url_decode_chars(parsed.1) == Some(
            vstd::utf8::encode_utf8(pairs[i].1),
        )
    }) by {
        let piece = pairs[i].0 + seq!['='] + crate::templater::enc_of(pairs[i].1);
        assert(pieces[i] == piece);
        lemma_split_go_around(pairs[i].0, '=', crate::templater::enc_of(pairs[i].1), Seq::empty());
        assert(Seq::<char>::empty() + pairs[i].0 =~= pairs[i].0);
        assert(spec_query_pairs(body)[i] == spec_split_first(piece, '='));
        crate::urlenc::lemma_url_round_trip(vstd::utf8::encode_utf8(pairs[i].1));
    }
}

} // verus!
