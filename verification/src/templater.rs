//! Path templating for tool calls: `{name}` segments of an endpoint path
//! template are substituted with percent-encoded argument values, surplus
//! arguments are appended as query parameters, and declared defaults fill
//! in what the call did not provide.

use vstd::prelude::*;

verus! {

use vstd::string::StrSliceExecFns;
use vstd::string::StringExecFns;
use vstd::utf8::encode_utf8;
use crate::strkit::{contains_char, spec_has_char};
use crate::urlenc::{url_encode, url_encode_bytes};

/// A parameter a tool declares for its endpoint.
#[derive(Debug)]
pub struct Parameter {
    pub name: String,
    pub parameter_type: Option<String>,
    pub description: String,
    pub required: Option<bool>,
    pub enum_values: Option<Vec<String>>,
    pub default: Option<String>,
    pub in_path: Option<bool>,
    pub format: Option<String>,
}

#[verifier::ext_equal]
pub ghost struct ParameterV {
    pub name: Seq<char>,
    pub parameter_type: Option<Seq<char>>,
    pub description: Seq<char>,
    pub required: Option<bool>,
    pub enum_values: Option<Seq<Seq<char>>>,
    pub default: Option<Seq<char>>,
    pub in_path: Option<bool>,
    pub format: Option<Seq<char>>,
}

pub open spec fn opt_str_view(o: Option<String>) -> Option<Seq<char>> {
    match o {
        Some(s) => Some(s@),
        None => None,
    }
}

impl View for Parameter {
    type V = ParameterV;

    open spec fn view(&self) -> ParameterV {
        ParameterV {
            name: self.name@,
            parameter_type: opt_str_view(self.parameter_type),
            description: self.description@,
            required: self.required,
            enum_values: match self.enum_values {
                Some(vs) => Some(vs@.map_values(|s: String| s@)),
                None => None,
            },
            default: opt_str_view(self.default),
            in_path: self.in_path,
            format: opt_str_view(self.format),
        }
    }
}

impl Parameter {
    /// A value copy.
    pub fn duplicate(&self) -> (r: Parameter)
        ensures
            r@ == self@,
    {
        let enum_values: Option<Vec<String>> = match &self.enum_values {
            Some(vs) => {
                let mut out: Vec<String> = Vec::new();
                let mut i: usize = 0;
                while i < vs.len()
                    invariant
                        i <= vs@.len(),
                        out@.map_values(|s: String| s@) =~= vs@.take(i as int).map_values(
                            |s: String| s@,
                        ),
                    decreases vs@.len() - i,
                {
                    let ghost out_before = out@;
                    out.push(vs[i].clone());
                    proof {
                        assert(out@.map_values(|s: String| s@) =~= out_before.map_values(
                            |s: String| s@,
                        ).push(vs@[i as int]@));
                        assert(vs@.take(i + 1).map_values(|s: String| s@) =~= vs@.take(
                            i as int,
                        ).map_values(|s: String| s@).push(vs@[i as int]@));
                    }
                    i = i + 1;
                }
                proof {
                    assert(vs@.take(vs@.len() as int) =~= vs@);
                }
                Some(out)
            },
            None => None,
        };
        let r = Parameter {
            name: self.name.clone(),
            parameter_type: match &self.parameter_type {
                Some(s) => Some(s.clone()),
                None => None,
            },
            description: self.description.clone(),
            required: self.required,
            enum_values,
            default: match &self.default {
                Some(s) => Some(s.clone()),
                None => None,
            },
            in_path: self.in_path,
            format: match &self.format {
                Some(s) => Some(s.clone()),
                None => None,
            },
        };
        proof {
            assert(r@ =~= self@);
        }
        r
    }
}

/// The HTTP method a tool endpoint declares.
#[derive(Debug, Clone, Copy, PartialEq, Eq, Structural)]
pub enum HttpMethod {
    Get,
    Post,
}

impl Default for HttpMethod {
    /// A tool endpoint that declares no method is called with GET.
    fn default() -> (r: Self)
        ensures
            r == HttpMethod::Get,
    {
        HttpMethod::Get
    }
}

/// A JSON value of a tool-call arguments object, reduced to what the
/// templater reads: scalars keep their text, anything else only its kind.
#[derive(Debug)]
pub enum ParamValue {
    /// A JSON string, verbatim.
    Str(String),
    /// A JSON number, as its source text.
    Num(String),
    /// A JSON boolean.
    Bool(bool),
    /// A JSON null.
    Null,
    /// A JSON array or object.
    Composite,
}

#[verifier::ext_equal]
pub ghost enum ParamValueV {
    Str(Seq<char>),
    Num(Seq<char>),
    Bool(bool),
    Null,
    Composite,
}

impl View for ParamValue {
    type V = ParamValueV;

    open spec fn view(&self) -> ParamValueV {
        match self {
            ParamValue::Str(s) => ParamValueV::Str(s@),
            ParamValue::Num(t) => ParamValueV::Num(t@),
            ParamValue::Bool(b) => ParamValueV::Bool(*b),
            ParamValue::Null => ParamValueV::Null,
            ParamValue::Composite => ParamValueV::Composite,
        }
    }
}

/// View of an argument list as pure character sequences and value shapes.
pub open spec fn args_view(ps: Seq<(String, ParamValue)>) -> Seq<(Seq<char>, ParamValueV)> {
    ps.map_values(|p: (String, ParamValue)| (p.0@, p.1@))
}

/// The text a scalar argument contributes, or `None` for a non-scalar.
pub open spec fn scalar_text(v: ParamValueV) -> Option<Seq<char>> {
    match v {
        ParamValueV::Str(s) => Some(s),
        ParamValueV::Num(t) => Some(t),
        ParamValueV::Bool(b) => Some(
            if b {
                "true"@
            } else {
                "false"@
            },
        ),
        ParamValueV::Null => None,
        ParamValueV::Composite => None,
    }
}

/// View of a string pair list as pure character sequences.
pub open spec fn pairs_view(ps: Seq<(String, String)>) -> Seq<(Seq<char>, Seq<char>)> {
    ps.map_values(|p: (String, String)| (p.0@, p.1@))
}

/// The scalar arguments of an argument list, each as its text, keeping order.
pub open spec fn spec_filter_params(ps: Seq<(Seq<char>, ParamValueV)>) -> Seq<(Seq<char>, Seq<char>)>
    decreases ps.len(),
{
    if ps.len() == 0 {
        Seq::empty()
    } else {
        let rest = spec_filter_params(ps.drop_first());
        match scalar_text(ps[0].1) {
            Some(t) => seq![(ps[0].0, t)] + rest,
            None => rest,
        }
    }
}

/// The percent-encoding of a value's characters.
pub open spec fn enc_of(v: Seq<char>) -> Seq<char> {
    url_encode_bytes(encode_utf8(v))
}

/// First value bound to `k`, scanning the pairs in order.
pub open spec fn spec_lookup(ps: Seq<(Seq<char>, Seq<char>)>, k: Seq<char>) -> Option<Seq<char>>
    decreases ps.len(),
{
    if ps.len() == 0 {
        None
    } else if ps[0].0 == k {
        Some(ps[0].1)
    } else {
        spec_lookup(ps.drop_first(), k)
    }
}

/// `k` is one of the names in `used`.
pub open spec fn name_used(used: Seq<Seq<char>>, k: Seq<char>) -> bool {
    exists|j: int| 0 <= j < used.len() && used[j] == k
}

pub open spec fn used_view(u: Seq<String>) -> Seq<Seq<char>> {
    u.map_values(|s: String| s@)
}

/// The walk over the path template. Characters outside braces are copied;
/// `{` opens a parameter name, `}` closes it and substitutes the
/// percent-encoded value; a name with no value stops the walk. Returns the
/// substituted text and the names consumed, or the first missing name.
pub open spec fn spec_subst(
    path: Seq<char>,
    pairs: Seq<(Seq<char>, Seq<char>)>,
    in_param: bool,
    cur: Seq<char>,
) -> Result<(Seq<char>, Seq<Seq<char>>), Seq<char>>
    decreases path.len(),
{
    if path.len() == 0 {
        Ok((Seq::empty(), Seq::empty()))
    } else {
        let c = path[0];
        let rest = path.skip(1);
        if c == '{' {
            spec_subst(rest, pairs, true, cur)
        } else if c == '}' {
            match spec_lookup(pairs, cur) {
                Some(v) => match spec_subst(rest, pairs, false, Seq::empty()) {
                    Ok((txt, used)) => Ok((enc_of(v) + txt, seq![cur] + used)),
                    Err(e) => Err(e),
                },
                None => Err(cur),
            }
        } else if in_param {
            spec_subst(rest, pairs, in_param, cur.push(c))
        } else {
            match spec_subst(rest, pairs, in_param, cur) {
                Ok((txt, used)) => Ok((seq![c] + txt, used)),
                Err(e) => Err(e),
            }
        }
    }
}

/// Query-parameter additions: every pair whose name was not consumed is
/// appended as `?k=v` or `&k=v` (value percent-encoded), and its name is
/// marked used.
pub open spec fn spec_add_queries(
    acc: Seq<char>,
    pairs: Seq<(Seq<char>, Seq<char>)>,
    used: Seq<Seq<char>>,
) -> (Seq<char>, Seq<Seq<char>>)
    decreases pairs.len(),
{
    if pairs.len() == 0 {
        (acc, used)
    } else {
        let k = pairs[0].0;
        let v = pairs[0].1;
        if name_used(used, k) {
            spec_add_queries(acc, pairs.drop_first(), used)
        } else {
            let sep = if spec_has_char(acc, '?') {
                '&'
            } else {
                '?'
            };
            spec_add_queries(
                acc + seq![sep] + k + seq!['='] + enc_of(v),
                pairs.drop_first(),
                used.push(k),
            )
        }
    }
}

/// Default additions: every declared parameter that carries a default and
/// was not consumed is appended as a query parameter, its default verbatim.
pub open spec fn spec_add_defaults(
    acc: Seq<char>,
    decls: Seq<ParameterV>,
    used: Seq<Seq<char>>,
) -> Seq<char>
    decreases decls.len(),
{
    if decls.len() == 0 {
        acc
    } else {
        let p = decls[0];
        if !name_used(used, p.name) && p.default is Some {
            let sep = if spec_has_char(acc, '?') {
                '&'
            } else {
                '?'
            };
            spec_add_defaults(
                acc + seq![sep] + p.name + seq!['='] + p.default.unwrap(),
                decls.drop_first(),
                used,
            )
        } else {
            spec_add_defaults(acc, decls.drop_first(), used)
        }
    }
}

/// View of a declared-parameter list.
pub open spec fn decls_view(ps: Seq<Parameter>) -> Seq<ParameterV> {
    ps.map_values(|p: Parameter| p@)
}

/// What `replace_params_in_path` returns: the substituted path with query
/// additions, or the message naming the first parameter without a value.
pub open spec fn spec_replace_params(
    path: Seq<char>,
    pairs: Seq<(Seq<char>, Seq<char>)>,
    decls: Seq<ParameterV>,
) -> Result<Seq<char>, Seq<char>> {
    match spec_subst(path, pairs, false, Seq::empty()) {
        Ok((txt, used)) => {
            let (q, used2) = spec_add_queries(txt, pairs, used);
            Ok(spec_add_defaults(q, decls, used2))
        },
        Err(name) => Err("Missing value for parameter `"@ + name + "`"@),
    }
}

/// Keep only the scalar arguments (strings, numbers, booleans), each as the
/// text it contributes to a path or query string; objects, arrays and nulls
/// are dropped.
pub fn filter_tool_params(tool_params: &Vec<(String, ParamValue)>) -> (r: Vec<(String, String)>)
    ensures
        pairs_view(r@) == spec_filter_params(args_view(tool_params@)),
{
    let ghost av = args_view(tool_params@);
    let mut out: Vec<(String, String)> = Vec::new();
    let mut i: usize = 0;
    proof {
        assert(av.skip(0) =~= av);
        assert(pairs_view(out@) + spec_filter_params(av) =~= spec_filter_params(av));
    }
    while i < tool_params.len()
        invariant
            i <= tool_params@.len(),
            av == args_view(tool_params@),
            spec_filter_params(av) == pairs_view(out@) + spec_filter_params(av.skip(i as int)),
        decreases tool_params@.len() - i,
    {
        let ghost tail = av.skip(i as int);
        let kv = &tool_params[i];
        let text: Option<String> = match &kv.1 {
            ParamValue::Str(s) => Some(s.clone()),
            ParamValue::Num(t) => Some(t.clone()),
            ParamValue::Bool(b) => Some(
                if *b {
                    String::from_str("true")
                } else {
                    String::from_str("false")
                },
            ),
            ParamValue::Null => None,
            ParamValue::Composite => None,
        };
        proof {
            assert(tail[0] == av[i as int]);
            assert(tail[0] == (tool_params@[i as int].0@, tool_params@[i as int].1@));
            assert(tail.drop_first() =~= av.skip(i + 1));
        }
        let ghost out_before = out@;
        match text {
            Some(t) => {
                out.push((kv.0.clone(), t));
                proof {
                    assert(pairs_view(out@) =~= pairs_view(out_before) + seq![
                        (tail[0].0, scalar_text(tail[0].1).unwrap()),
                    ]);
                }
            },
            None => {},
        }
        i = i + 1;
    }
    proof {
        assert(av.skip(i as int) =~= Seq::<(Seq<char>, ParamValueV)>::empty());
        assert(pairs_view(out@) + spec_filter_params(av.skip(i as int)) =~= pairs_view(out@));
    }
    out
}

/// First value bound to `key` in `pairs`.
pub fn lookup_param(pairs: &Vec<(String, String)>, key: &String) -> (r: Option<String>)
    ensures
        match spec_lookup(pairs_view(pairs@), key@) {
            Some(v) => r matches Some(rv) && rv@ == v,
            None => r is None,
        },
{
    let mut i: usize = 0;
    proof {
        assert(pairs_view(pairs@).skip(0) =~= pairs_view(pairs@));
    }
    while i < pairs.len()
        invariant
            i <= pairs@.len(),
            spec_lookup(pairs_view(pairs@), key@) == spec_lookup(
                pairs_view(pairs@).skip(i as int),
                key@,
            ),
        decreases pairs@.len() - i,
    {
        let ghost tail = pairs_view(pairs@).skip(i as int);
        proof {
            assert(tail[0] == pairs_view(pairs@)[i as int]);
            assert(tail.drop_first() =~= pairs_view(pairs@).skip(i + 1));
        }
        if pairs[i].0 == *key {
            assert(pairs_view(pairs@)[i as int].0 == key@);
            return Some(pairs[i].1.clone());
        }
        assert(pairs_view(pairs@)[i as int].0 != key@);
        i = i + 1;
    }
    None
}

/// Substitute `{name}` segments of `path` with the percent-encoded values
/// bound to them in `tool_params`, then append every unconsumed pair and
/// every unconsumed declared default as query parameters. A `{name}` with
/// no bound value is rejected with a message naming it.
pub fn replace_params_in_path(
    path: &str,
    tool_params: &Vec<(String, String)>,
    prompt_target_params: &Vec<Parameter>,
) -> (r: Result<String, String>)
    ensures
        match r {
            Ok(s) => spec_replace_params(
                path@,
                pairs_view(tool_params@),
                decls_view(prompt_target_params@),
            ) == Ok::<Seq<char>, Seq<char>>(s@),
            Err(e) => spec_replace_params(
                path@,
                pairs_view(tool_params@),
                decls_view(prompt_target_params@),
            ) == Err::<Seq<char>, Seq<char>>(e@),
        },
{
    let ghost pv = pairs_view(tool_params@);
    let n = path.unicode_len();
    let mut out = String::new();
    let mut cur = String::new();
    let mut used: Vec<String> = Vec::new();
    let mut in_param = false;
    let mut i: usize = 0;
    proof {
        assert(path@.skip(0) =~= path@);
        let sub0 = spec_subst(path@, pv, false, Seq::empty());
        if sub0 is Ok {
            assert(out@ + sub0->Ok_0.0 =~= sub0->Ok_0.0);
            assert(used_view(used@) + sub0->Ok_0.1 =~= sub0->Ok_0.1);
        }
    }
    while i < n
        invariant
            i <= n,
            n == path@.len(),
            pv == pairs_view(tool_params@),
            match spec_subst(path@.skip(i as int), pv, in_param, cur@) {
                Ok(pr) => spec_subst(path@, pv, false, Seq::empty()) == Ok::<
                    (Seq<char>, Seq<Seq<char>>),
                    Seq<char>,
                >((out@ + pr.0, used_view(used@) + pr.1)),
                Err(e) => spec_subst(path@, pv, false, Seq::empty()) == Err::<
                    (Seq<char>, Seq<Seq<char>>),
                    Seq<char>,
                >(e),
            },
        decreases n - i,
    {
        let ghost tail = path@.skip(i as int);
        proof {
            assert(tail[0] == path@[i as int]);
            assert(tail.skip(1) =~= path@.skip(i + 1));
        }
        let c = path.get_char(i);
        if c == '{' {
            in_param = true;
        } else if c == '}' {
            in_param = false;
            match lookup_param(tool_params, &cur) {
                Some(v) => {
                    let ghost out_before = out@;
                    let ghost used_before = used@;
                    let ghost cur_before = cur@;
                    let enc = url_encode(v.as_str());
                    out.append(enc.as_str());
                    used.push(cur);
                    cur = String::new();
                    proof {
                        let looked = spec_lookup(pv, cur_before).unwrap();
                        assert(enc@ == enc_of(looked));
                        assert(used_view(used@) =~= used_view(used_before).push(cur_before));
                        let sub = spec_subst(path@.skip(i + 1), pv, false, Seq::empty());
                        if sub is Ok {
                            let pr = sub->Ok_0;
                            assert(out_before + (enc_of(looked) + pr.0) =~= out@ + pr.0);
                            assert(used_view(used_before) + (seq![cur_before] + pr.1)
                                =~= used_view(used@) + pr.1);
                        }
                    }
                },
                None => {
                    let mut msg = String::from_str("Missing value for parameter `");
                    msg.append(cur.as_str());
                    msg.append("`");
                    proof {
                        assert(msg@ =~= "Missing value for parameter `"@ + cur@ + "`"@);
                    }
                    return Err(msg);
                },
            }
        } else if in_param {
            let ghost cur_before = cur@;
            crate::strkit::append_char_of(&mut cur, path, i);
            proof {
                assert(cur@ =~= cur_before.push(path@[i as int]));
            }
        } else {
            let ghost out_before = out@;
            crate::strkit::append_char_of(&mut out, path, i);
            proof {
                let sub = spec_subst(path@.skip(i + 1), pv, in_param, cur@);
                if sub is Ok {
                    let pr = sub->Ok_0;
                    assert(out_before + (seq![path@[i as int]] + pr.0) =~= out@ + pr.0);
                }
            }
        }
        i = i + 1;
    }
    proof {
        assert(path@.skip(n as int) =~= Seq::<char>::empty());
        let walk = spec_subst(path@, pv, false, Seq::empty());
        assert(out@ + Seq::<char>::empty() =~= out@);
        assert(used_view(used@) + Seq::<Seq<char>>::empty() =~= used_view(used@));
        assert(walk is Ok && walk->Ok_0.0 == out@ && walk->Ok_0.1 == used_view(used@));
    }
    let ghost walk_txt = out@;
    let ghost walk_used = used_view(used@);

    // query additions for the pairs the walk did not consume
    let ghost q_goal = spec_add_queries(walk_txt, pv, walk_used);
    let mut j: usize = 0;
    proof {
        assert(pv.skip(0) =~= pv);
    }
    while j < tool_params.len()
        invariant
            j <= tool_params@.len(),
            pv == pairs_view(tool_params@),
            spec_add_queries(out@, pv.skip(j as int), used_view(used@)) == q_goal,
        decreases tool_params@.len() - j,
    {
        let ghost tail = pv.skip(j as int);
        proof {
            assert(tail[0] == pv[j as int]);
            assert(tail.drop_first() =~= pv.skip(j + 1));
        }
        let kv = &tool_params[j];
        if !name_in_used(&used, &kv.0) {
            let ghost out_before = out@;
            let ghost used_before = used@;
            if contains_char(out.as_str(), '?') {
                out.append("&");
                proof {
                    reveal_strlit("&");
                    assert(out@ =~= out_before + seq!['&']);
                }
            } else {
                out.append("?");
                proof {
                    reveal_strlit("?");
                    assert(out@ =~= out_before + seq!['?']);
                }
            }
            let ghost with_sep = out@;
            out.append(kv.0.as_str());
            out.append("=");
            let enc = url_encode(kv.1.as_str());
            out.append(enc.as_str());
            used.push(kv.0.clone());
            proof {
                reveal_strlit("=");
                assert(out@ =~= with_sep + kv.0@ + seq!['='] + enc_of(kv.1@));
                assert(used_view(used@) =~= used_view(used_before).push(kv.0@));
            }
        }
        j = j + 1;
    }
    proof {
        assert(pv.skip(tool_params@.len() as int) =~= Seq::<(Seq<char>, Seq<char>)>::empty());
    }

    // defaults for declared parameters that are still unconsumed
    let ghost dv = decls_view(prompt_target_params@);
    let ghost d_goal = spec_add_defaults(q_goal.0, dv, q_goal.1);
    let mut k: usize = 0;
    proof {
        assert(dv.skip(0) =~= dv);
    }
    while k < prompt_target_params.len()
        invariant
            k <= prompt_target_params@.len(),
            dv == decls_view(prompt_target_params@),
            used_view(used@) == q_goal.1,
            spec_add_defaults(out@, dv.skip(k as int), used_view(used@)) == d_goal,
        decreases prompt_target_params@.len() - k,
    {
        let ghost tail = dv.skip(k as int);
        proof {
            assert(tail[0] == dv[k as int]);
            assert(tail[0] == prompt_target_params@[k as int]@);
            assert(tail.drop_first() =~= dv.skip(k + 1));
        }
        let p = &prompt_target_params[k];
        if !name_in_used(&used, &p.name) {
            match &p.default {
                Some(d) => {
                    let ghost out_before = out@;
                    if contains_char(out.as_str(), '?') {
                        out.append("&");
                        proof {
                            reveal_strlit("&");
                            assert(out@ =~= out_before + seq!['&']);
                        }
                    } else {
                        out.append("?");
                        proof {
                            reveal_strlit("?");
                            assert(out@ =~= out_before + seq!['?']);
                        }
                    }
                    let ghost with_sep = out@;
                    out.append(p.name.as_str());
                    out.append("=");
                    out.append(d.as_str());
                    proof {
                        reveal_strlit("=");
                        assert(out@ =~= with_sep + p.name@ + seq!['='] + d@);
                    }
                },
                None => {},
            }
        }
        k = k + 1;
    }
    proof {
        assert(dv.skip(prompt_target_params@.len() as int) =~= Seq::<ParameterV>::empty());
    }
    Ok(out)
}

/// Whether `key` is among the names already consumed.
pub fn name_in_used(used: &Vec<String>, key: &String) -> (r: bool)
    ensures
        r == name_used(used_view(used@), key@),
{
    let mut i: usize = 0;
    while i < used.len()
        invariant
            i <= used@.len(),
            forall|j: int| 0 <= j < i ==> used_view(used@)[j] != key@,
        decreases used@.len() - i,
    {
        if used[i] == *key {
            assert(used_view(used@)[i as int] == key@);
            return true;
        }
        assert(used_view(used@)[i as int] != key@);
        i = i + 1;
    }
    false
}


/// Replace the first pair bound to `k` with `(k, v)`, or append one.
pub open spec fn spec_upsert(
    ps: Seq<(Seq<char>, Seq<char>)>,
    k: Seq<char>,
    v: Seq<char>,
) -> Seq<(Seq<char>, Seq<char>)>
    decreases ps.len(),
{
    if ps.len() == 0 {
        seq![(k, v)]
    } else if ps[0].0 == k {
        seq![(k, v)] + ps.drop_first()
    } else {
        seq![ps[0]] + spec_upsert(ps.drop_first(), k, v)
    }
}

/// Bind `key` to `value` in a pair list, replacing the first binding when
/// one exists and appending otherwise.
pub fn upsert_pair(pairs: &Vec<(String, String)>, key: &str, value: &str) -> (r: Vec<(String, String)>)
    ensures
        pairs_view(r@) == spec_upsert(pairs_view(pairs@), key@, value@),
{
    let ghost pv = pairs_view(pairs@);
    let mut out: Vec<(String, String)> = Vec::new();
    let mut found = false;
    let mut i: usize = 0;
    proof {
        assert(pv.skip(0) =~= pv);
        assert(pairs_view(out@) + spec_upsert(pv, key@, value@) =~= spec_upsert(pv, key@, value@));
    }
    while i < pairs.len()
        invariant
            i <= pairs@.len(),
            pv == pairs_view(pairs@),
            !found ==> pairs_view(out@) + spec_upsert(pv.skip(i as int), key@, value@)
                == spec_upsert(pv, key@, value@),
            found ==> pairs_view(out@) + pv.skip(i as int) == spec_upsert(pv, key@, value@),
        decreases pairs@.len() - i,
    {
        let ghost tail = pv.skip(i as int);
        proof {
            assert(tail[0] == pv[i as int]);
            assert(tail.drop_first() =~= pv.skip(i + 1));
        }
        let kv = &pairs[i];
        let ghost out_before = out@;
        if !found && crate::strkit::str_eq(kv.0.as_str(), key) {
            out.push((key.to_owned(), value.to_owned()));
            found = true;
            proof {
                assert(pairs_view(out@) =~= pairs_view(out_before) + seq![(key@, value@)]);
            }
        } else {
            out.push((kv.0.clone(), kv.1.clone()));
            proof {
                assert(pairs_view(out@) =~= pairs_view(out_before) + seq![tail[0]]);
            }
        }
        i = i + 1;
    }
    proof {
        assert(pv.skip(pairs@.len() as int) =~= Seq::<(Seq<char>, Seq<char>)>::empty());
    }
    if !found {
        let ghost out_before = out@;
        out.push((key.to_owned(), value.to_owned()));
        proof {
            assert(pairs_view(out@) =~= pairs_view(out_before) + seq![(key@, value@)]);
        }
    } else {
        proof {
            assert(pairs_view(out@) + Seq::<(Seq<char>, Seq<char>)>::empty() =~= pairs_view(out@));
        }
    }
    out
}


/// No character of `s` is a brace.
pub open spec fn brace_free(s: Seq<char>) -> bool {
    forall|i: int| 0 <= i < s.len() ==> #[trigger] s[i] != '{' && s[i] != '}'
}

proof fn lemma_brace_free_concat(a: Seq<char>, b: Seq<char>)
    requires
        brace_free(a),
        brace_free(b),
    ensures
        brace_free(a + b),
{
    assert forall|i: int| 0 <= i < (a + b).len() implies #[trigger] (a + b)[i] != '{' && (a
        + b)[i] != '}' by {
        if i < a.len() {
            assert((a + b)[i] == a[i]);
        } else {
            assert((a + b)[i] == b[i - a.len()]);
        }
    }
}

/// A percent-encoded value holds no brace: every character the encoder
/// emits is url-safe, and braces are not.
proof fn lemma_enc_brace_free(v: Seq<char>)
    ensures
        brace_free(enc_of(v)),
{
    crate::urlenc::lemma_encoding_is_url_safe(encode_utf8(v));
    assert forall|i: int| 0 <= i < enc_of(v).len() implies #[trigger] enc_of(v)[i] != '{' && enc_of(
        v,
    )[i] != '}' by {
        assert(crate::urlenc::url_safe_char(enc_of(v)[i]));
    }
}

proof fn lemma_subst_brace_free(
    path: Seq<char>,
    pairs: Seq<(Seq<char>, Seq<char>)>,
    in_param: bool,
    cur: Seq<char>,
)
    ensures
        spec_subst(path, pairs, in_param, cur) matches Ok(pr) ==> brace_free(pr.0),
    decreases path.len(),
{
    if path.len() == 0 {
        assert(brace_free(Seq::<char>::empty()));
    } else {
        let c = path[0];
        let rest = path.skip(1);
        if c == '{' {
            lemma_subst_brace_free(rest, pairs, true, cur);
        } else if c == '}' {
            match spec_lookup(pairs, cur) {
                Some(v) => {
                    lemma_subst_brace_free(rest, pairs, false, Seq::empty());
                    let sub = spec_subst(rest, pairs, false, Seq::empty());
                    if sub is Ok {
                        lemma_enc_brace_free(v);
                        lemma_brace_free_concat(enc_of(v), sub->Ok_0.0);
                    }
                },
                None => {},
            }
        } else if in_param {
            lemma_subst_brace_free(rest, pairs, in_param, cur.push(c));
        } else {
            lemma_subst_brace_free(rest, pairs, in_param, cur);
            let sub = spec_subst(rest, pairs, in_param, cur);
            if sub is Ok {
                assert(brace_free(seq![c])) by {
                    assert(seq![c][0] == c);
                }
                lemma_brace_free_concat(seq![c], sub->Ok_0.0);
            }
        }
    }
}

proof fn lemma_queries_brace_free(
    acc: Seq<char>,
    pairs: Seq<(Seq<char>, Seq<char>)>,
    used: Seq<Seq<char>>,
)
    requires
        brace_free(acc),
        forall|i: int| 0 <= i < pairs.len() ==> brace_free((#[trigger] pairs[i]).0),
    ensures
        brace_free(spec_add_queries(acc, pairs, used).0),
    decreases pairs.len(),
{
    if pairs.len() > 0 {
        let k = pairs[0].0;
        let v = pairs[0].1;
        assert(forall|i: int|
            0 <= i < pairs.drop_first().len() ==> (#[trigger] pairs.drop_first()[i]) == pairs[i
                + 1]);
        if name_used(used, k) {
            lemma_queries_brace_free(acc, pairs.drop_first(), used);
        } else {
            let sep = if spec_has_char(acc, '?') {
                '&'
            } else {
                '?'
            };
            let next = acc + seq![sep] + k + seq!['='] + enc_of(v);
            assert(brace_free(seq![sep])) by {
                assert(seq![sep][0] == sep);
            }
            assert(brace_free(seq!['='])) by {
                assert(seq!['='][0] == '=');
            }
            lemma_brace_free_concat(acc, seq![sep]);
            lemma_brace_free_concat(acc + seq![sep], k);
            lemma_brace_free_concat(acc + seq![sep] + k, seq!['=']);
            lemma_enc_brace_free(v);
            lemma_brace_free_concat(acc + seq![sep] + k + seq!['='], enc_of(v));
            lemma_queries_brace_free(next, pairs.drop_first(), used.push(k));
        }
    }
}

proof fn lemma_defaults_brace_free(acc: Seq<char>, decls: Seq<ParameterV>, used: Seq<Seq<char>>)
    requires
        brace_free(acc),
        forall|i: int|
            0 <= i < decls.len() ==> brace_free((#[trigger] decls[i]).name) && (decls[i].default
                matches Some(d) ==> brace_free(d)),
    ensures
        brace_free(spec_add_defaults(acc, decls, used)),
    decreases decls.len(),
{
    if decls.len() > 0 {
        let p = decls[0];
        assert(forall|i: int|
            0 <= i < decls.drop_first().len() ==> (#[trigger] decls.drop_first()[i]) == decls[i
                + 1]);
        if !name_used(used, p.name) && p.default is Some {
            let sep = if spec_has_char(acc, '?') {
                '&'
            } else {
                '?'
            };
            let next = acc + seq![sep] + p.name + seq!['='] + p.default.unwrap();
            assert(brace_free(seq![sep])) by {
                assert(seq![sep][0] == sep);
            }
            assert(brace_free(seq!['='])) by {
                assert(seq!['='][0] == '=');
            }
            lemma_brace_free_concat(acc, seq![sep]);
            lemma_brace_free_concat(acc + seq![sep], p.name);
            lemma_brace_free_concat(acc + seq![sep] + p.name, seq!['=']);
            lemma_brace_free_concat(acc + seq![sep] + p.name + seq!['='], p.default.unwrap());
            lemma_defaults_brace_free(next, decls.drop_first(), used);
        } else {
            lemma_defaults_brace_free(acc, decls.drop_first(), used);
        }
    }
}

/// Law: a path the templater accepts holds no unresolved `{name}` segment:
/// as long as the argument names, the declared names and the declared
/// defaults hold no brace themselves, no `{` or `}` survives into the
/// result, and every argument value stands in it percent-encoded.
pub proof fn lemma_templater_no_braces(
    path: Seq<char>,
    pairs: Seq<(Seq<char>, Seq<char>)>,
    decls: Seq<ParameterV>,
)
    requires
        forall|i: int| 0 <= i < pairs.len() ==> brace_free((#[trigger] pairs[i]).0),
        forall|i: int|
            0 <= i < decls.len() ==> brace_free((#[trigger] decls[i]).name) && (decls[i].default
                matches Some(d) ==> brace_free(d)),
    ensures
        spec_replace_params(path, pairs, decls) matches Ok(txt) ==> brace_free(txt),
{
    lemma_subst_brace_free(path, pairs, false, Seq::empty());
    let sub = spec_subst(path, pairs, false, Seq::empty());
    if sub is Ok {
        lemma_queries_brace_free(sub->Ok_0.0, pairs, sub->Ok_0.1);
        let q = spec_add_queries(sub->Ok_0.0, pairs, sub->Ok_0.1);
        lemma_defaults_brace_free(q.0, decls, q.1);
    }
}

} // verus!
