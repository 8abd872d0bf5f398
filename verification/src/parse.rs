//! Verified readers that take apart parsed JSON values into the gateway's
//! own types. Each reader's contract pins its result against a spec-level
//! decoder over the named shape of the parsed value (`val_of`), so what a
//! reader accepts and what it hands back are both stated exactly.

use vstd::prelude::*;

verus! {

use vstd::string::StrSliceExecFns;
use vstd::string::StringExecFns;
use crate::chat::{
    ChatCompletionsRequest, ChatCompletionsResponse, Choice, FunctionCallDetail, Message, MessageV,
    StreamOptions, ToolCall, ToolType, Usage,
};
use crate::jsonval::{
    entry_get, json_array_items, json_object_entries, json_shape, lemma_entry_is_field, parse_json,
    parsed_json, spec_field_get, val_of, JsonShape, JsonV,
};
use crate::templater::{args_view, ParamValue, ParamValueV};

/// The numeric value of a digit string, most significant first.
pub open spec fn spec_digits_val(s: Seq<char>) -> int
    decreases s.len(),
{
    if s.len() == 0 {
        0
    } else {
        spec_digits_val(s.drop_last()) * 10 + (s.last() as u32 - 48)
    }
}

pub open spec fn spec_all_digits(s: Seq<char>) -> bool {
    forall|i: int| 0 <= i < s.len() ==> 48 <= #[trigger] s[i] as u32 <= 57
}

/// Parse a decimal digit string into a `u64`: defined exactly for strings
/// of digits whose value fits.
pub fn parse_u64(s: &str) -> (r: Option<u64>)
    ensures
        r matches Some(v) ==> s@.len() > 0 && spec_all_digits(s@) && v == spec_digits_val(s@),
        r is None ==> s@.len() == 0 || !spec_all_digits(s@) || spec_digits_val(s@) > u64::MAX,
{
    let n = s.unicode_len();
    if n == 0 {
        return None;
    }
    let mut val: u64 = 0;
    let mut i: usize = 0;
    proof {
        assert(s@.take(0) =~= Seq::<char>::empty());
    }
    while i < n
        invariant
            i <= n,
            n == s@.len(),
            spec_all_digits(s@.take(i as int)),
            val == spec_digits_val(s@.take(i as int)),
        decreases n - i,
    {
        let c = s.get_char(i);
        let code = c as u32;
        if code < 48 || code > 57 {
            assert(!spec_all_digits(s@)) by {
                assert(s@[i as int] == c);
            }
            return None;
        }
        let d = (code - 48) as u64;
        if val > (u64::MAX - d) / 10 {
            proof {
                assert(s@.take(i + 1).drop_last() =~= s@.take(i as int));
                assert(s@.take(i + 1).last() == s@[i as int]);
                lemma_digits_prefix_monotone(s@, i + 1);
            }
            return None;
        }
        val = val * 10 + d;
        proof {
            assert(s@.take(i + 1).drop_last() =~= s@.take(i as int));
            assert(s@.take(i + 1).last() == s@[i as int]);
        }
        i = i + 1;
    }
    proof {
        assert(s@.take(n as int) =~= s@);
    }
    Some(val)
}

/// A digit string's value is never negative.
proof fn lemma_digits_val_nonneg(s: Seq<char>)
    requires
        spec_all_digits(s),
    ensures
        spec_digits_val(s) >= 0,
    decreases s.len(),
{
    if s.len() > 0 {
        let t = s.drop_last();
        assert forall|i: int| 0 <= i < t.len() implies 48 <= #[trigger] t[i] as u32 <= 57 by {
            assert(t[i] == s[i]);
            assert(48 <= s[i] as u32 <= 57);
        }
        assert(spec_all_digits(t));
        lemma_digits_val_nonneg(t);
        assert(s.last() == s[s.len() - 1]);
        assert(48 <= s[s.len() - 1] as u32 <= 57);
        assert(spec_digits_val(t) * 10 >= 0) by (nonlinear_arith)
            requires
                spec_digits_val(t) >= 0,
        ;
    }
}

/// A longer digit prefix never has a smaller value.
proof fn lemma_digits_prefix_monotone(s: Seq<char>, i: int)
    requires
        0 < i <= s.len(),
        spec_all_digits(s.take(i)),
    ensures
        spec_digits_val(s) >= spec_digits_val(s.take(i)) || !spec_all_digits(s),
    decreases s.len() - i,
{
    if i == s.len() {
        assert(s.take(i) =~= s);
    } else {
        if spec_all_digits(s.take(i + 1)) {
            assert(s.take(i + 1).drop_last() =~= s.take(i));
            assert(spec_digits_val(s.take(i + 1)) == spec_digits_val(s.take(i)) * 10 + (s.take(
                i + 1,
            ).last() as u32 - 48));
            lemma_digits_val_nonneg(s.take(i));
            assert(s.take(i + 1).last() == s.take(i + 1)[i]);
            assert(48 <= s.take(i + 1)[i] as u32 <= 57);
            assert(spec_digits_val(s.take(i)) * 10 >= spec_digits_val(s.take(i))) by (
            nonlinear_arith)
                requires
                    spec_digits_val(s.take(i)) >= 0,
            ;
            assert(spec_digits_val(s.take(i + 1)) >= spec_digits_val(s.take(i)));
            lemma_digits_prefix_monotone(s, i + 1);
        } else {
            assert(exists|k: int|
                0 <= k < i + 1 && !(48 <= #[trigger] s.take(i + 1)[k] as u32 <= 57));
            let k = choose|k: int|
                0 <= k < i + 1 && !(48 <= #[trigger] s.take(i + 1)[k] as u32 <= 57);
            assert(s[k] == s.take(i + 1)[k]);
            assert(!spec_all_digits(s));
        }
    }
}

/// The templater argument a JSON value contributes: scalars keep their
/// content, arrays and objects only their kind.
pub open spec fn pv_of_json(j: JsonV) -> ParamValueV {
    match j {
        JsonV::Null => ParamValueV::Null,
        JsonV::Bool(b) => ParamValueV::Bool(b),
        JsonV::Num(t) => ParamValueV::Num(t),
        JsonV::Str(t) => ParamValueV::Str(t),
        JsonV::Arr(_) => ParamValueV::Composite,
        JsonV::Obj(_) => ParamValueV::Composite,
    }
}

/// The argument list a parsed arguments object yields, field by field.
pub open spec fn spec_args_of_json(fields: Seq<(Seq<char>, JsonV)>) -> Seq<
    (Seq<char>, ParamValueV),
> {
    fields.map_values(|f: (Seq<char>, JsonV)| (f.0, pv_of_json(f.1)))
}

/// The shape of one JSON value as a templater argument.
pub fn param_value_of(v: &serde_json::Value) -> (r: ParamValue)
    ensures
        r@ == pv_of_json(val_of(*v)),
{
    match json_shape(v) {
        JsonShape::Null => ParamValue::Null,
        JsonShape::Bool(b) => ParamValue::Bool(b),
        JsonShape::Num(t) => ParamValue::Num(t),
        JsonShape::Str(s) => ParamValue::Str(s),
        JsonShape::Array => ParamValue::Composite,
        JsonShape::Object => ParamValue::Composite,
    }
}

/// Parse a tool-call arguments string into named values: exactly the fields
/// of the arguments object, in its order; anything but a JSON object is
/// rejected.
pub fn parse_tool_args(s: &str) -> (r: Result<Vec<(String, ParamValue)>, String>)
    ensures
        parsed_json(s@) is None ==> r is Err,
        (parsed_json(s@) matches Some(j) && !(j is Obj)) ==> r is Err,
        (match parsed_json(s@) {
            Some(j) => j is Obj ==> ({
                &&& r matches Ok(ps)
                &&& args_view(ps@) == spec_args_of_json(j->Obj_0)
            }),
            None => true,
        }),
{
    let v = match parse_json(s) {
        Ok(v) => v,
        Err(e) => {
            return Err(e);
        },
    };
    let entries = match json_object_entries(&v) {
        Some(es) => es,
        None => {
            return Err(String::from_str("tool arguments are not a JSON object"));
        },
    };
    let ghost fields = val_of(v)->Obj_0;
    let mut out: Vec<(String, ParamValue)> = Vec::new();
    let mut i: usize = 0;
    while i < entries.len()
        invariant
            i <= entries@.len(),
            entries@.len() == fields.len(),
            forall|k: int|
                0 <= k < fields.len() ==> (#[trigger] entries@[k]).0@ == fields[k].0 && val_of(
                    entries@[k].1,
                ) == fields[k].1,
            args_view(out@) =~= spec_args_of_json(fields.take(i as int)),
        decreases entries@.len() - i,
    {
        let ghost out_before = out@;
        let pv = param_value_of(&entries[i].1);
        out.push((entries[i].0.clone(), pv));
        proof {
            assert(args_view(out@) =~= args_view(out_before).push(
                (fields[i as int].0, pv_of_json(fields[i as int].1)),
            ));
            assert(spec_args_of_json(fields.take(i + 1)) =~= spec_args_of_json(
                fields.take(i as int),
            ).push((fields[i as int].0, pv_of_json(fields[i as int].1))));
        }
        i = i + 1;
    }
    proof {
        assert(fields.take(fields.len() as int) =~= fields);
        assert(args_view(out@) =~= spec_args_of_json(fields));
    }
    Ok(out)
}

/// The first binding of `key` among object entries, as the field lookup;
/// entries with pairwise-distinct keys make the two agree.
pub fn field_lookup<'a>(
    entries: &'a Vec<(String, serde_json::Value)>,
    key: &str,
    Ghost(fields): Ghost<Seq<(Seq<char>, JsonV)>>,
) -> (r: Option<&'a serde_json::Value>)
    requires
        entries@.len() == fields.len(),
        forall|k: int|
            0 <= k < fields.len() ==> (#[trigger] entries@[k]).0@ == fields[k].0 && val_of(
                entries@[k].1,
            ) == fields[k].1,
        forall|i: int, j: int| 0 <= i < j < entries@.len() ==> entries@[i].0@ != entries@[j].0@,
    ensures
        match r {
            Some(v) => spec_field_get(fields, key@) == Some(val_of(*v)),
            None => spec_field_get(fields, key@) is None,
        },
{
    proof {
        lemma_entry_is_field(entries@, fields, key@);
    }
    let r = entry_get(entries, key);
    proof {
        if r is Some {
            let w = choose|i: int|
                0 <= i < entries@.len() && (#[trigger] entries@[i]).0@ == key@ && *r.unwrap()
                    == entries@[i].1;
            assert(forall|k: int| 0 <= k < w ==> (#[trigger] entries@[k]).0@ != key@) by {
                assert(forall|i: int, j: int|
                    0 <= i < j < entries@.len() ==> entries@[i].0@ != entries@[j].0@);
            }
        }
    }
    r
}

/// The rendering of a multi-part content list: the `text` of text parts
/// joined with newlines, image parts skipped; nothing on a malformed part.
pub open spec fn spec_parts_render(parts: Seq<JsonV>, acc: Seq<char>, first: bool) -> Option<
    Seq<char>,
>
    decreases parts.len(),
{
    if parts.len() == 0 {
        Some(acc)
    } else {
        match parts[0] {
            JsonV::Obj(fs) => match spec_field_get(fs, "type"@) {
                Some(ty) => match ty {
                    JsonV::Str(t) => if t == "text"@ {
                        match spec_field_get(fs, "text"@) {
                            Some(tv) => match tv {
                                JsonV::Str(txt) => spec_parts_render(
                                    parts.drop_first(),
                                    acc + (if first {
                                        Seq::empty()
                                    } else {
                                        seq!['\n']
                                    }) + txt,
                                    false,
                                ),
                                _ => None,
                            },
                            None => None,
                        }
                    } else if t == "image_url"@ {
                        spec_parts_render(parts.drop_first(), acc, first)
                    } else {
                        None
                    },
                    _ => None,
                },
                None => None,
            },
            _ => None,
        }
    }
}

/// What rendering a content value yields: the string itself, absence for
/// null, the joined text of a part list, or nothing renderable.
pub open spec fn spec_content_render(j: JsonV) -> Result<Option<Seq<char>>, ()> {
    match j {
        JsonV::Str(t) => Ok(Some(t)),
        JsonV::Null => Ok(None),
        JsonV::Arr(parts) => match spec_parts_render(parts, Seq::empty(), true) {
            Some(t) => Ok(Some(t)),
            None => Err(()),
        },
        _ => Err(()),
    }
}

/// Render a message's `content` value as text: a string stays itself; a
/// multi-part array concatenates its `text` parts with newlines, skipping
/// image parts; `null` is absent; anything else is rejected.
pub fn render_content_value(v: &serde_json::Value) -> (r: Result<Option<String>, String>)
    ensures
        (match spec_content_render(val_of(*v)) {
            Ok(c) => ({
                &&& r matches Ok(rc)
                &&& crate::chat::opt_view(rc) == c
            }),
            Err(_) => r is Err,
        }),
{
    match json_shape(v) {
        JsonShape::Str(s) => Ok(Some(s)),
        JsonShape::Null => Ok(None),
        JsonShape::Array => {
            let items = match json_array_items(v) {
                Some(items) => items,
                None => {
                    proof {
                        assert(false);
                    }
                    return Err(String::from_str("content array unreadable"));
                },
            };
            let ghost parts = val_of(*v)->Arr_0;
            let mut text = String::new();
            let mut first = true;
            let mut i: usize = 0;
            proof {
                assert(parts.skip(0) =~= parts);
            }
            while i < items.len()
                invariant
                    i <= items@.len(),
                    items@.len() == parts.len(),
                    val_of(*v) == JsonV::Arr(parts),
                    forall|k: int|
                        0 <= k < parts.len() ==> val_of(#[trigger] items@[k]) == parts[k],
                    spec_parts_render(parts.skip(i as int), text@, first) == spec_parts_render(
                        parts,
                        Seq::empty(),
                        true,
                    ),
                decreases items@.len() - i,
            {
                let ghost tail = parts.skip(i as int);
                proof {
                    reveal_strlit("type");
                    reveal_strlit("text");
                    reveal_strlit("image_url");
                    assert(tail[0] == parts[i as int]);
                    assert(tail.drop_first() =~= parts.skip(i + 1));
                }
                let entries = match json_object_entries(&items[i]) {
                    Some(es) => es,
                    None => {
                        return Err(String::from_str("content part is not an object"));
                    },
                };
                let ghost fs = val_of(items@[i as int])->Obj_0;
                let part_type = match field_lookup(&entries, "type", Ghost(fs)) {
                    Some(t) => match json_shape(t) {
                        JsonShape::Str(s) => s,
                        _ => {
                            return Err(String::from_str("content part type is not a string"));
                        },
                    },
                    None => {
                        return Err(String::from_str("content part has no type"));
                    },
                };
                if crate::strkit::str_eq(part_type.as_str(), "text") {
                    let part_text = match field_lookup(&entries, "text", Ghost(fs)) {
                        Some(t) => match json_shape(t) {
                            JsonShape::Str(s) => s,
                            _ => {
                                return Err(String::from_str("text part is not a string"));
                            },
                        },
                        None => {
                            return Err(String::from_str("text part has no text"));
                        },
                    };
                    let ghost text_before = text@;
                    if !first {
                        text.append("\n");
                        proof {
                            reveal_strlit("\n");
                        }
                    }
                    text.append(part_text.as_str());
                    proof {
                        let lead: Seq<char> = if first {
                            Seq::empty()
                        } else {
                            seq!['\n']
                        };
                        assert(text@ =~= text_before + lead + part_text@);
                    }
                    first = false;
                } else if !crate::strkit::str_eq(part_type.as_str(), "image_url") {
                    return Err(String::from_str("unsupported content part type"));
                }
                i = i + 1;
            }
            proof {
                assert(parts.skip(items@.len() as int) =~= Seq::<JsonV>::empty());
            }
            Ok(Some(text))
        },
        _ => Err(String::from_str("content has an unsupported type")),
    }
}

/// An optional string field: present as its text, absent or null as none,
/// any other type malformed.
pub open spec fn spec_opt_str_field(fs: Seq<(Seq<char>, JsonV)>, key: Seq<char>) -> Result<
    Option<Seq<char>>,
    (),
> {
    match spec_field_get(fs, key) {
        Some(fv) => match fv {
            JsonV::Str(t) => Ok(Some(t)),
            JsonV::Null => Ok(None),
            _ => Err(()),
        },
        None => Ok(None),
    }
}

/// What one tool call's JSON object decodes to.
pub open spec fn spec_tool_call_of(j: JsonV) -> Result<crate::chat::ToolCallV, ()> {
    match j {
        JsonV::Obj(fs) => {
            let id_r: Result<Seq<char>, ()> = match spec_field_get(fs, "id"@) {
                Some(iv) => match iv {
                    JsonV::Str(t) => Ok(t),
                    _ => Err(()),
                },
                None => Ok(Seq::empty()),
            };
            match id_r {
                Err(_) => Err(()),
                Ok(id) => match spec_field_get(fs, "function"@) {
                    None => Err(()),
                    Some(f) => match f {
                        JsonV::Obj(ffs) => match spec_field_get(ffs, "name"@) {
                            Some(nv) => match nv {
                                JsonV::Str(name) => match spec_opt_str_field(ffs, "arguments"@) {
                                    Ok(args) => Ok(
                                        crate::chat::ToolCallV {
                                            id,
                                            function: crate::chat::FunctionCallDetailV {
                                                name,
                                                arguments: args,
                                            },
                                            tool_type: ToolType::Function,
                                        },
                                    ),
                                    Err(_) => Err(()),
                                },
                                _ => Err(()),
                            },
                            None => Err(()),
                        },
                        _ => Err(()),
                    },
                },
            }
        },
        _ => Err(()),
    }
}

/// Read one tool call out of its JSON object.
pub fn tool_call_from_json(v: &serde_json::Value) -> (r: Result<ToolCall, String>)
    ensures
        (match spec_tool_call_of(val_of(*v)) {
            Ok(tc) => ({
                &&& r matches Ok(rt)
                &&& rt@ == tc
            }),
            Err(_) => r is Err,
        }),
{
    proof {
        reveal_strlit("id");
        reveal_strlit("function");
        reveal_strlit("name");
        reveal_strlit("arguments");
    }
    let entries = match json_object_entries(v) {
        Some(es) => es,
        None => {
            return Err(String::from_str("tool call is not an object"));
        },
    };
    let ghost fs = val_of(*v)->Obj_0;
    let id = match field_lookup(&entries, "id", Ghost(fs)) {
        Some(t) => match json_shape(t) {
            JsonShape::Str(s) => s,
            _ => {
                return Err(String::from_str("tool call id is not a string"));
            },
        },
        None => String::new(),
    };
    let function = match field_lookup(&entries, "function", Ghost(fs)) {
        Some(f) => {
            let fentries = match json_object_entries(f) {
                Some(es) => es,
                None => {
                    return Err(String::from_str("tool call function is not an object"));
                },
            };
            let ghost ffs = val_of(*f)->Obj_0;
            let name = match field_lookup(&fentries, "name", Ghost(ffs)) {
                Some(t) => match json_shape(t) {
                    JsonShape::Str(s) => s,
                    _ => {
                        return Err(String::from_str("function name is not a string"));
                    },
                },
                None => {
                    return Err(String::from_str("function has no name"));
                },
            };
            let arguments = match field_lookup(&fentries, "arguments", Ghost(ffs)) {
                Some(t) => match json_shape(t) {
                    JsonShape::Str(s) => Some(s),
                    JsonShape::Null => None,
                    _ => {
                        return Err(String::from_str("function arguments are not a string"));
                    },
                },
                None => None,
            };
            FunctionCallDetail { name, arguments }
        },
        None => {
            return Err(String::from_str("tool call has no function"));
        },
    };
    Ok(ToolCall { id, function, tool_type: ToolType::Function })
}

/// What a list of tool-call objects decodes to; one malformed call fails
/// the whole list.
pub open spec fn spec_tool_calls_of(items: Seq<JsonV>) -> Result<Seq<crate::chat::ToolCallV>, ()>
    decreases items.len(),
{
    if items.len() == 0 {
        Ok(Seq::empty())
    } else {
        match spec_tool_call_of(items[0]) {
            Ok(tc) => match spec_tool_calls_of(items.drop_first()) {
                Ok(rest) => Ok(seq![tc] + rest),
                Err(_) => Err(()),
            },
            Err(_) => Err(()),
        }
    }
}

/// A string field kept only when it is a string, as the reader does for the
/// optional `model` and `tool_call_id` members.
pub open spec fn spec_str_or_none(fs: Seq<(Seq<char>, JsonV)>, key: Seq<char>) -> Option<
    Seq<char>,
> {
    match spec_field_get(fs, key) {
        Some(fv) => match fv {
            JsonV::Str(t) => Some(t),
            _ => None,
        },
        None => None,
    }
}

/// What one chat message's JSON object decodes to: role required, content
/// rendered to text, tool calls decoded when they come as an array.
pub open spec fn spec_message_of(j: JsonV) -> Result<MessageV, ()> {
    match j {
        JsonV::Obj(fs) => match spec_field_get(fs, "role"@) {
            Some(rv) => match rv {
                JsonV::Str(role) => {
                    let content_r = match spec_field_get(fs, "content"@) {
                        Some(c) => spec_content_render(c),
                        None => Ok(None),
                    };
                    match content_r {
                        Ok(content) => {
                            let tool_calls_r: Result<Option<Seq<crate::chat::ToolCallV>>, ()> = (
                            match spec_field_get(fs, "tool_calls"@) {
                                Some(tv) => match tv {
                                    JsonV::Arr(items) => match spec_tool_calls_of(items) {
                                        Ok(tcs) => Ok(Some(tcs)),
                                        Err(_) => Err(()),
                                    },
                                    _ => Ok(None),
                                },
                                None => Ok(None),
                            });
                            match tool_calls_r {
                                Ok(tool_calls) => Ok(
                                    MessageV {
                                        role,
                                        content,
                                        model: spec_str_or_none(fs, "model"@),
                                        tool_calls,
                                        tool_call_id: spec_str_or_none(fs, "tool_call_id"@),
                                    },
                                ),
                                Err(_) => Err(()),
                            }
                        },
                        Err(_) => Err(()),
                    }
                },
                _ => Err(()),
            },
            None => Err(()),
        },
        _ => Err(()),
    }
}

/// Read one chat message out of its JSON object.
pub fn message_from_json(v: &serde_json::Value) -> (r: Result<Message, String>)
    ensures
        (match spec_message_of(val_of(*v)) {
            Ok(m) => ({
                &&& r matches Ok(rm)
                &&& rm@ == m
            }),
            Err(_) => r is Err,
        }),
{
    proof {
        reveal_strlit("role");
        reveal_strlit("content");
        reveal_strlit("model");
        reveal_strlit("tool_calls");
        reveal_strlit("tool_call_id");
    }
    let entries = match json_object_entries(v) {
        Some(es) => es,
        None => {
            return Err(String::from_str("message is not an object"));
        },
    };
    let ghost fs = val_of(*v)->Obj_0;
    let role = match field_lookup(&entries, "role", Ghost(fs)) {
        Some(t) => match json_shape(t) {
            JsonShape::Str(s) => s,
            _ => {
                return Err(String::from_str("message role is not a string"));
            },
        },
        None => {
            return Err(String::from_str("message has no role"));
        },
    };
    let content = match field_lookup(&entries, "content", Ghost(fs)) {
        Some(c) => match render_content_value(c) {
            Ok(c) => c,
            Err(e) => {
                return Err(e);
            },
        },
        None => None,
    };
    let model = match field_lookup(&entries, "model", Ghost(fs)) {
        Some(t) => match json_shape(t) {
            JsonShape::Str(s) => Some(s),
            _ => None,
        },
        None => None,
    };
    let tool_calls = match field_lookup(&entries, "tool_calls", Ghost(fs)) {
        Some(t) => match json_array_items(t) {
            Some(items) => {
                let ghost tc_items = val_of(*t)->Arr_0;
                let mut out: Vec<ToolCall> = Vec::new();
                let mut i: usize = 0;
                proof {
                    assert(tc_items.skip(0) =~= tc_items);
                }
                while i < items.len()
                    invariant
                        i <= items@.len(),
                        items@.len() == tc_items.len(),
                        spec_tool_calls_of(tc_items) is Err ==> spec_message_of(val_of(*v))
                            is Err,
                        forall|k: int|
                            0 <= k < tc_items.len() ==> val_of(#[trigger] items@[k])
                                == tc_items[k],
                        (match spec_tool_calls_of(tc_items.skip(i as int)) {
                            Ok(rest) => spec_tool_calls_of(tc_items) == Ok::<
                                Seq<crate::chat::ToolCallV>,
                                (),
                            >(out@.map_values(|t: ToolCall| t@) + rest),
                            Err(_) => spec_tool_calls_of(tc_items) is Err,
                        }),
                    decreases items@.len() - i,
                {
                    let ghost tail = tc_items.skip(i as int);
                    proof {
                        assert(tail[0] == tc_items[i as int]);
                        assert(tail.drop_first() =~= tc_items.skip(i + 1));
                    }
                    match tool_call_from_json(&items[i]) {
                        Ok(tc) => {
                            let ghost out_before = out@;
                            out.push(tc);
                            proof {
                                assert(out@.map_values(|t: ToolCall| t@) =~= out_before.map_values(
                                    |t: ToolCall| t@,
                                ).push(spec_tool_call_of(tail[0])->Ok_0));
                                let sub = spec_tool_calls_of(tc_items.skip(i + 1));
                                if sub is Ok {
                                    assert(out_before.map_values(|t: ToolCall| t@) + (seq![
                                        spec_tool_call_of(tail[0])->Ok_0,
                                    ] + sub->Ok_0) =~= out@.map_values(|t: ToolCall| t@)
                                        + sub->Ok_0);
                                }
                            }
                        },
                        Err(e) => {
                            return Err(e);
                        },
                    }
                    i = i + 1;
                }
                proof {
                    assert(tc_items.skip(tc_items.len() as int) =~= Seq::<JsonV>::empty());
                    assert(out@.map_values(|t: ToolCall| t@) + Seq::<
                        crate::chat::ToolCallV,
                    >::empty() =~= out@.map_values(|t: ToolCall| t@));
                }
                Some(out)
            },
            None => None,
        },
        None => None,
    };
    let tool_call_id = match field_lookup(&entries, "tool_call_id", Ghost(fs)) {
        Some(t) => match json_shape(t) {
            JsonShape::Str(s) => Some(s),
            _ => None,
        },
        None => None,
    };
    let r = Message { role, content, model, tool_calls, tool_call_id };
    proof {
        assert(r@ =~= spec_message_of(val_of(*v))->Ok_0);
    }
    Ok(r)
}

/// The string-valued fields of a metadata object, in order.
pub open spec fn spec_meta_of_json(fields: Seq<(Seq<char>, JsonV)>) -> Seq<(Seq<char>, Seq<char>)>
    decreases fields.len(),
{
    if fields.len() == 0 {
        Seq::empty()
    } else {
        let rest = spec_meta_of_json(fields.drop_first());
        match fields[0].1 {
            JsonV::Str(t) => seq![(fields[0].0, t)] + rest,
            _ => rest,
        }
    }
}

/// Read a metadata object of string values; non-string values are dropped.
pub fn metadata_from_json(v: &serde_json::Value) -> (r: Option<Vec<(String, String)>>)
    ensures
        r is Some <==> val_of(*v) is Obj,
        (match val_of(*v) {
            JsonV::Obj(fields) => ({
                &&& r matches Some(md)
                &&& crate::templater::pairs_view(md@) == spec_meta_of_json(fields)
            }),
            _ => r is None,
        }),
{
    let entries = match json_object_entries(v) {
        Some(es) => es,
        None => {
            return None;
        },
    };
    let ghost fields = val_of(*v)->Obj_0;
    let mut out: Vec<(String, String)> = Vec::new();
    let mut i: usize = 0;
    proof {
        assert(fields.skip(0) =~= fields);
        assert(crate::templater::pairs_view(out@) + spec_meta_of_json(fields)
            =~= spec_meta_of_json(fields));
    }
    while i < entries.len()
        invariant
            i <= entries@.len(),
            entries@.len() == fields.len(),
            forall|k: int|
                0 <= k < fields.len() ==> (#[trigger] entries@[k]).0@ == fields[k].0 && val_of(
                    entries@[k].1,
                ) == fields[k].1,
            crate::templater::pairs_view(out@) + spec_meta_of_json(fields.skip(i as int))
                == spec_meta_of_json(fields),
        decreases entries@.len() - i,
    {
        let ghost tail = fields.skip(i as int);
        proof {
            assert(tail[0] == fields[i as int]);
            assert(tail.drop_first() =~= fields.skip(i + 1));
        }
        match json_shape(&entries[i].1) {
            JsonShape::Str(s) => {
                let ghost before = crate::templater::pairs_view(out@);
                out.push((entries[i].0.clone(), s));
                proof {
                    assert(crate::templater::pairs_view(out@) =~= before.push(
                        (tail[0].0, tail[0].1->Str_0),
                    ));
                    assert(before.push((tail[0].0, tail[0].1->Str_0)) =~= before + seq![
                        (tail[0].0, tail[0].1->Str_0),
                    ]);
                }
            },
            _ => {},
        }
        i = i + 1;
    }
    proof {
        assert(fields.skip(fields.len() as int) =~= Seq::<(Seq<char>, JsonV)>::empty());
        assert(crate::templater::pairs_view(out@) + Seq::<(Seq<char>, Seq<char>)>::empty()
            =~= crate::templater::pairs_view(out@));
    }
    Some(out)
}

/// What a list of message objects decodes to; one malformed message fails
/// the whole list.
pub open spec fn spec_messages_of(items: Seq<JsonV>) -> Result<Seq<MessageV>, ()>
    decreases items.len(),
{
    if items.len() == 0 {
        Ok(Seq::empty())
    } else {
        match spec_message_of(items[0]) {
            Ok(m) => match spec_messages_of(items.drop_first()) {
                Ok(rest) => Ok(seq![m] + rest),
                Err(_) => Err(()),
            },
            Err(_) => Err(()),
        }
    }
}

/// A boolean field kept only when it is a boolean, as the reader does for
/// the `stream` flag.
pub open spec fn spec_bool_or(fs: Seq<(Seq<char>, JsonV)>, key: Seq<char>) -> bool {
    match spec_field_get(fs, key) {
        Some(fv) => match fv {
            JsonV::Bool(b) => b,
            _ => false,
        },
        None => false,
    }
}

/// The stream options a request carries: an `include_usage` boolean inside
/// a `stream_options` object, anything else none.
pub open spec fn spec_stream_options_of(fs: Seq<(Seq<char>, JsonV)>) -> Option<StreamOptions> {
    match spec_field_get(fs, "stream_options"@) {
        Some(ov) => match ov {
            JsonV::Obj(ofs) => match spec_field_get(ofs, "include_usage"@) {
                Some(bv) => match bv {
                    JsonV::Bool(b) => Some(StreamOptions { include_usage: b }),
                    _ => None,
                },
                None => None,
            },
            _ => None,
        },
        None => None,
    }
}

/// The metadata a request carries: its string-valued members when the
/// member is an object, anything else none.
pub open spec fn spec_metadata_of(fs: Seq<(Seq<char>, JsonV)>) -> Option<
    Seq<(Seq<char>, Seq<char>)>,
> {
    match spec_field_get(fs, "metadata"@) {
        Some(mv) => match mv {
            JsonV::Obj(mfs) => Some(spec_meta_of_json(mfs)),
            _ => None,
        },
        None => None,
    }
}

/// What an inbound request body decodes to: messages required and each
/// well-formed, the model a string or absent, the client's tools dropped.
pub open spec fn spec_request_of(j: JsonV) -> Result<crate::chat::ChatCompletionsRequestV, ()> {
    match j {
        JsonV::Obj(fs) => {
            let model_r: Result<Seq<char>, ()> = match spec_field_get(fs, "model"@) {
                Some(mv) => match mv {
                    JsonV::Str(t) => Ok(t),
                    _ => Err(()),
                },
                None => Ok(Seq::empty()),
            };
            match model_r {
                Err(_) => Err(()),
                Ok(model) => match spec_field_get(fs, "messages"@) {
                    Some(msv) => match msv {
                        JsonV::Arr(items) => match spec_messages_of(items) {
                            Ok(messages) => Ok(
                                crate::chat::ChatCompletionsRequestV {
                                    model,
                                    messages,
                                    tools: None,
                                    stream: spec_bool_or(fs, "stream"@),
                                    stream_options: spec_stream_options_of(fs),
                                    metadata: spec_metadata_of(fs),
                                },
                            ),
                            Err(_) => Err(()),
                        },
                        _ => Err(()),
                    },
                    None => Err(()),
                },
            }
        },
        _ => Err(()),
    }
}

/// Parse an inbound chat-completions request body. The client's `tools`
/// are not kept: the orchestrator supplies the agent's own tool set.
pub fn chat_request_from_json(s: &str) -> (r: Result<ChatCompletionsRequest, String>)
    ensures
        parsed_json(s@) is None ==> r is Err,
        (match parsed_json(s@) {
            Some(j) => match spec_request_of(j) {
                Ok(req) => ({
                    &&& r matches Ok(rr)
                    &&& rr@ == req
                }),
                Err(_) => r is Err,
            },
            None => true,
        }),
{
    proof {
        reveal_strlit("model");
        reveal_strlit("messages");
        reveal_strlit("stream");
        reveal_strlit("stream_options");
        reveal_strlit("include_usage");
        reveal_strlit("metadata");
    }
    let v = match parse_json(s) {
        Ok(v) => v,
        Err(e) => {
            return Err(e);
        },
    };
    let entries = match json_object_entries(&v) {
        Some(es) => es,
        None => {
            return Err(String::from_str("request is not a JSON object"));
        },
    };
    let ghost fs = val_of(v)->Obj_0;
    let model = match field_lookup(&entries, "model", Ghost(fs)) {
        Some(t) => match json_shape(t) {
            JsonShape::Str(s) => s,
            _ => {
                return Err(String::from_str("model is not a string"));
            },
        },
        None => String::new(),
    };
    let messages = match field_lookup(&entries, "messages", Ghost(fs)) {
        Some(m) => match json_array_items(m) {
            Some(items) => {
                let ghost ms_items = val_of(*m)->Arr_0;
                let mut out: Vec<Message> = Vec::new();
                let mut i: usize = 0;
                proof {
                    assert(ms_items.skip(0) =~= ms_items);
                }
                while i < items.len()
                    invariant
                        i <= items@.len(),
                        items@.len() == ms_items.len(),
                        parsed_json(s@) == Some(val_of(v)),
                        spec_messages_of(ms_items) is Err ==> spec_request_of(val_of(v)) is Err,
                        forall|k: int|
                            0 <= k < ms_items.len() ==> val_of(#[trigger] items@[k])
                                == ms_items[k],
                        (match spec_messages_of(ms_items.skip(i as int)) {
                            Ok(rest) => spec_messages_of(ms_items) == Ok::<Seq<MessageV>, ()>(
                                crate::chat::msgs_view(out@) + rest,
                            ),
                            Err(_) => spec_messages_of(ms_items) is Err,
                        }),
                    decreases items@.len() - i,
                {
                    let ghost tail = ms_items.skip(i as int);
                    proof {
                        assert(tail[0] == ms_items[i as int]);
                        assert(tail.drop_first() =~= ms_items.skip(i + 1));
                    }
                    match message_from_json(&items[i]) {
                        Ok(m) => {
                            let ghost out_before = out@;
                            out.push(m);
                            proof {
                                assert(crate::chat::msgs_view(out@)
                                    =~= crate::chat::msgs_view(out_before).push(
                                    spec_message_of(tail[0])->Ok_0,
                                ));
                                let sub = spec_messages_of(ms_items.skip(i + 1));
                                if sub is Ok {
                                    assert(crate::chat::msgs_view(out_before) + (seq![
                                        spec_message_of(tail[0])->Ok_0,
                                    ] + sub->Ok_0) =~= crate::chat::msgs_view(out@) + sub->Ok_0);
                                }
                            }
                        },
                        Err(e) => {
                            return Err(e);
                        },
                    }
                    i = i + 1;
                }
                proof {
                    assert(ms_items.skip(ms_items.len() as int) =~= Seq::<JsonV>::empty());
                    assert(crate::chat::msgs_view(out@) + Seq::<MessageV>::empty()
                        =~= crate::chat::msgs_view(out@));
                }
                out
            },
            None => {
                return Err(String::from_str("messages is not an array"));
            },
        },
        None => {
            return Err(String::from_str("request has no messages"));
        },
    };
    let stream = match field_lookup(&entries, "stream", Ghost(fs)) {
        Some(t) => match json_shape(t) {
            JsonShape::Bool(b) => b,
            _ => false,
        },
        None => false,
    };
    let stream_options = match field_lookup(&entries, "stream_options", Ghost(fs)) {
        Some(t) => match json_object_entries(t) {
            Some(es) => {
                let ghost ofs = val_of(*t)->Obj_0;
                match field_lookup(&es, "include_usage", Ghost(ofs)) {
                    Some(b) => match json_shape(b) {
                        JsonShape::Bool(b) => Some(StreamOptions { include_usage: b }),
                        _ => None,
                    },
                    None => None,
                }
            },
            None => None,
        },
        None => None,
    };
    let metadata = match field_lookup(&entries, "metadata", Ghost(fs)) {
        Some(t) => metadata_from_json(t),
        None => None,
    };
    let r = ChatCompletionsRequest { model, messages, tools: None, stream, stream_options, metadata };
    proof {
        assert(r@ =~= spec_request_of(val_of(v))->Ok_0);
    }
    Ok(r)
}

/// A numeric field's value as the readers take it: the digits when they
/// fit, zero when the field is absent, of another type, or out of range.
pub open spec fn spec_u64_or_zero(fs: Seq<(Seq<char>, JsonV)>, key: Seq<char>) -> u64 {
    match spec_field_get(fs, key) {
        Some(fv) => match fv {
            JsonV::Num(t) => if t.len() > 0 && spec_all_digits(t) && spec_digits_val(t)
                <= u64::MAX {
                spec_digits_val(t) as u64
            } else {
                0
            },
            _ => 0,
        },
        None => 0,
    }
}

/// A numeric field under the lenient reading, clipped to zero when it does
/// not fit in a `u32`.
pub open spec fn spec_u32_or_zero(fs: Seq<(Seq<char>, JsonV)>, key: Seq<char>) -> u32 {
    let n = spec_u64_or_zero(fs, key);
    if n <= u32::MAX {
        n as u32
    } else {
        0
    }
}

/// A numeric field under the lenient reading, clipped to zero when it does
/// not fit in an `i64`.
pub open spec fn spec_i64_or_zero(fs: Seq<(Seq<char>, JsonV)>, key: Seq<char>) -> i64 {
    let n = spec_u64_or_zero(fs, key);
    if n <= i64::MAX {
        n as i64
    } else {
        0
    }
}

/// The choice index as the reader takes it: digits that fit in a `u32`, or
/// nothing.
pub open spec fn spec_index_of(fs: Seq<(Seq<char>, JsonV)>) -> Option<u32> {
    match spec_field_get(fs, "index"@) {
        Some(fv) => match fv {
            JsonV::Num(t) => if t.len() > 0 && spec_all_digits(t) && spec_digits_val(t)
                <= u32::MAX {
                Some(spec_digits_val(t) as u32)
            } else {
                None
            },
            _ => None,
        },
        None => None,
    }
}

/// A string field kept as empty text when absent or of another type, as the
/// reader does for a response's `model`.
pub open spec fn spec_str_or_empty(fs: Seq<(Seq<char>, JsonV)>, key: Seq<char>) -> Seq<char> {
    match spec_field_get(fs, key) {
        Some(fv) => match fv {
            JsonV::Str(t) => t,
            _ => Seq::empty(),
        },
        None => Seq::empty(),
    }
}

/// What a usage member decodes to: its three counters, or absence when the
/// member is missing or not an object.
pub open spec fn spec_usage_of(fs: Seq<(Seq<char>, JsonV)>) -> Option<Usage> {
    match spec_field_get(fs, "usage"@) {
        Some(uv) => match uv {
            JsonV::Obj(ufs) => Some(
                Usage {
                    prompt_tokens: spec_u64_or_zero(ufs, "prompt_tokens"@),
                    completion_tokens: spec_u64_or_zero(ufs, "completion_tokens"@),
                    total_tokens: spec_u64_or_zero(ufs, "total_tokens"@),
                },
            ),
            _ => None,
        },
        None => None,
    }
}

/// What one choice's JSON object decodes to.
pub open spec fn spec_choice_of(j: JsonV) -> Result<crate::chat::ChoiceV, ()> {
    match j {
        JsonV::Obj(cfs) => match spec_field_get(cfs, "message"@) {
            Some(mv) => match spec_message_of(mv) {
                Ok(m) => Ok(
                    crate::chat::ChoiceV {
                        message: m,
                        finish_reason: spec_str_or_none(cfs, "finish_reason"@),
                        index: spec_index_of(cfs),
                    },
                ),
                Err(_) => Err(()),
            },
            None => Err(()),
        },
        _ => Err(()),
    }
}

/// What a list of choice objects decodes to.
pub open spec fn spec_choices_of(items: Seq<JsonV>) -> Result<Seq<crate::chat::ChoiceV>, ()>
    decreases items.len(),
{
    if items.len() == 0 {
        Ok(Seq::empty())
    } else {
        match spec_choice_of(items[0]) {
            Ok(c) => match spec_choices_of(items.drop_first()) {
                Ok(rest) => Ok(seq![c] + rest),
                Err(_) => Err(()),
            },
            Err(_) => Err(()),
        }
    }
}

/// What an upstream response body decodes to: choices required and each
/// well-formed; model, usage and metadata as the lenient readers take them.
pub open spec fn spec_response_of(j: JsonV) -> Result<crate::chat::ChatCompletionsResponseV, ()> {
    match j {
        JsonV::Obj(fs) => match spec_field_get(fs, "choices"@) {
            Some(cv) => match cv {
                JsonV::Arr(items) => match spec_choices_of(items) {
                    Ok(choices) => Ok(
                        crate::chat::ChatCompletionsResponseV {
                            choices,
                            usage: spec_usage_of(fs),
                            model: spec_str_or_empty(fs, "model"@),
                            metadata: spec_metadata_of(fs),
                        },
                    ),
                    Err(_) => Err(()),
                },
                _ => Err(()),
            },
            None => Err(()),
        },
        _ => Err(()),
    }
}

/// A string field's value under the lenient reading (empty when absent or
/// of another type), with the entry list standing for the given fields.
pub fn str_field(
    entries: &Vec<(String, serde_json::Value)>,
    key: &str,
    Ghost(fields): Ghost<Seq<(Seq<char>, JsonV)>>,
) -> (r: String)
    requires
        entries@.len() == fields.len(),
        forall|k: int|
            0 <= k < fields.len() ==> (#[trigger] entries@[k]).0@ == fields[k].0 && val_of(
                entries@[k].1,
            ) == fields[k].1,
        forall|i: int, j: int| 0 <= i < j < entries@.len() ==> entries@[i].0@ != entries@[j].0@,
    ensures
        r@ == spec_str_or_empty(fields, key@),
{
    match field_lookup(entries, key, Ghost(fields)) {
        Some(t) => match json_shape(t) {
            JsonShape::Str(s) => s,
            _ => String::new(),
        },
        None => String::new(),
    }
}

/// A numeric field's value under the lenient reading, with the entry list
/// standing for the given fields.
pub fn u64_field(
    entries: &Vec<(String, serde_json::Value)>,
    key: &str,
    Ghost(fields): Ghost<Seq<(Seq<char>, JsonV)>>,
) -> (r: u64)
    requires
        entries@.len() == fields.len(),
        forall|k: int|
            0 <= k < fields.len() ==> (#[trigger] entries@[k]).0@ == fields[k].0 && val_of(
                entries@[k].1,
            ) == fields[k].1,
        forall|i: int, j: int| 0 <= i < j < entries@.len() ==> entries@[i].0@ != entries@[j].0@,
    ensures
        r == spec_u64_or_zero(fields, key@),
{
    match field_lookup(entries, key, Ghost(fields)) {
        Some(t) => match json_shape(t) {
            JsonShape::Num(txt) => match parse_u64(txt.as_str()) {
                Some(n) => n,
                None => 0,
            },
            _ => 0,
        },
        None => 0,
    }
}

/// Parse an upstream chat-completions response body.
pub fn chat_response_from_json(s: &str) -> (r: Result<ChatCompletionsResponse, String>)
    ensures
        parsed_json(s@) is None ==> r is Err,
        (match parsed_json(s@) {
            Some(j) => match spec_response_of(j) {
                Ok(resp) => ({
                    &&& r matches Ok(rr)
                    &&& rr@ == resp
                }),
                Err(_) => r is Err,
            },
            None => true,
        }),
{
    proof {
        reveal_strlit("model");
        reveal_strlit("choices");
        reveal_strlit("message");
        reveal_strlit("finish_reason");
        reveal_strlit("index");
        reveal_strlit("usage");
        reveal_strlit("metadata");
        reveal_strlit("prompt_tokens");
        reveal_strlit("completion_tokens");
        reveal_strlit("total_tokens");
    }
    let v = match parse_json(s) {
        Ok(v) => v,
        Err(e) => {
            return Err(e);
        },
    };
    let entries = match json_object_entries(&v) {
        Some(es) => es,
        None => {
            return Err(String::from_str("response is not a JSON object"));
        },
    };
    let ghost fs = val_of(v)->Obj_0;
    let model = match field_lookup(&entries, "model", Ghost(fs)) {
        Some(t) => match json_shape(t) {
            JsonShape::Str(s) => s,
            _ => String::new(),
        },
        None => String::new(),
    };
    let choices = match field_lookup(&entries, "choices", Ghost(fs)) {
        Some(c) => match json_array_items(c) {
            Some(items) => {
                let ghost ch_items = val_of(*c)->Arr_0;
                let mut out: Vec<Choice> = Vec::new();
                let mut i: usize = 0;
                proof {
                    assert(ch_items.skip(0) =~= ch_items);
                }
                while i < items.len()
                    invariant
                        i <= items@.len(),
                        items@.len() == ch_items.len(),
                        parsed_json(s@) == Some(val_of(v)),
                        spec_choices_of(ch_items) is Err ==> spec_response_of(val_of(v)) is Err,
                        forall|k: int|
                            0 <= k < ch_items.len() ==> val_of(#[trigger] items@[k])
                                == ch_items[k],
                        (match spec_choices_of(ch_items.skip(i as int)) {
                            Ok(rest) => spec_choices_of(ch_items) == Ok::<
                                Seq<crate::chat::ChoiceV>,
                                (),
                            >(out@.map_values(|c: Choice| c@) + rest),
                            Err(_) => spec_choices_of(ch_items) is Err,
                        }),
                    decreases items@.len() - i,
                {
                    let ghost tail = ch_items.skip(i as int);
                    proof {
                        reveal_strlit("message");
                        reveal_strlit("finish_reason");
                        reveal_strlit("index");
                        assert(tail[0] == ch_items[i as int]);
                        assert(tail.drop_first() =~= ch_items.skip(i + 1));
                    }
                    let centries = match json_object_entries(&items[i]) {
                        Some(es) => es,
                        None => {
                            return Err(String::from_str("choice is not an object"));
                        },
                    };
                    let ghost cfs = val_of(items@[i as int])->Obj_0;
                    let message = match field_lookup(&centries, "message", Ghost(cfs)) {
                        Some(m) => match message_from_json(m) {
                            Ok(m) => m,
                            Err(e) => {
                                return Err(e);
                            },
                        },
                        None => {
                            return Err(String::from_str("choice has no message"));
                        },
                    };
                    let finish_reason = match field_lookup(&centries, "finish_reason", Ghost(cfs)) {
                        Some(t) => match json_shape(t) {
                            JsonShape::Str(s) => Some(s),
                            _ => None,
                        },
                        None => None,
                    };
                    let index = match field_lookup(&centries, "index", Ghost(cfs)) {
                        Some(t) => match json_shape(t) {
                            JsonShape::Num(txt) => match parse_u64(txt.as_str()) {
                                Some(n) => if n <= u32::MAX as u64 {
                                    Some(n as u32)
                                } else {
                                    None
                                },
                                None => None,
                            },
                            _ => None,
                        },
                        None => None,
                    };
                    let ghost out_before = out@;
                    let choice = Choice { message, finish_reason, index };
                    proof {
                        assert(choice@ =~= spec_choice_of(tail[0])->Ok_0);
                    }
                    out.push(choice);
                    proof {
                        assert(out@.map_values(|c: Choice| c@) =~= out_before.map_values(
                            |c: Choice| c@,
                        ).push(spec_choice_of(tail[0])->Ok_0));
                        let sub = spec_choices_of(ch_items.skip(i + 1));
                        if sub is Ok {
                            assert(out_before.map_values(|c: Choice| c@) + (seq![
                                spec_choice_of(tail[0])->Ok_0,
                            ] + sub->Ok_0) =~= out@.map_values(|c: Choice| c@) + sub->Ok_0);
                        }
                    }
                    i = i + 1;
                }
                proof {
                    assert(ch_items.skip(ch_items.len() as int) =~= Seq::<JsonV>::empty());
                    assert(out@.map_values(|c: Choice| c@) + Seq::<crate::chat::ChoiceV>::empty()
                        =~= out@.map_values(|c: Choice| c@));
                }
                out
            },
            None => {
                return Err(String::from_str("choices is not an array"));
            },
        },
        None => {
            return Err(String::from_str("response has no choices"));
        },
    };
    let usage: Option<Usage> = match field_lookup(&entries, "usage", Ghost(fs)) {
        Some(u) => match json_object_entries(u) {
            Some(ues) => {
                let ghost ufs = val_of(*u)->Obj_0;
                Some(
                    Usage {
                        prompt_tokens: u64_field(&ues, "prompt_tokens", Ghost(ufs)),
                        completion_tokens: u64_field(&ues, "completion_tokens", Ghost(ufs)),
                        total_tokens: u64_field(&ues, "total_tokens", Ghost(ufs)),
                    },
                )
            },
            None => None,
        },
        None => None,
    };
    let metadata = match field_lookup(&entries, "metadata", Ghost(fs)) {
        Some(t) => metadata_from_json(t),
        None => None,
    };
    let r = ChatCompletionsResponse { choices, usage, model, metadata };
    proof {
        assert(r@ =~= spec_response_of(val_of(v))->Ok_0);
    }
    Ok(r)
}


/// The character of one decimal digit.
pub open spec fn spec_digit_char(d: u64) -> char {
    ((48 + (d % 10)) as u8) as char
}

/// The decimal notation of a number, most significant digit first.
pub open spec fn spec_format_u64(n: u64) -> Seq<char>
    decreases n,
{
    if n < 10 {
        seq![spec_digit_char(n)]
    } else {
        spec_format_u64(n / 10) + seq![spec_digit_char(n % 10)]
    }
}

/// One decimal digit as a string.
fn digit_str(d: u64) -> (r: String)
    requires
        d < 10,
    ensures
        r@.len() == 1 && spec_all_digits(r@) && spec_digits_val(r@) == d,
        r@ == seq![spec_digit_char(d)],
{
    let digits = "0123456789";
    proof {
        reveal_strlit("0123456789");
    }
    let piece = digits.substring_char(d as usize, d as usize + 1);
    proof {
        assert(piece@ =~= seq![digits@[d as int]]);
        assert(piece@.drop_last() =~= Seq::<char>::empty());
        assert(spec_digits_val(Seq::<char>::empty()) == 0);
        assert(piece@.last() == digits@[d as int]);
        assert(spec_digits_val(piece@) == spec_digits_val(piece@.drop_last()) * 10 + (
        piece@.last() as u32 - 48));
        assert(digits@[d as int] as u32 - 48 == d && 48 <= digits@[d as int] as u32 <= 57) by {
            if d == 0 {
                assert(digits@[0] == '0');
            } else if d == 1 {
                assert(digits@[1] == '1');
            } else if d == 2 {
                assert(digits@[2] == '2');
            } else if d == 3 {
                assert(digits@[3] == '3');
            } else if d == 4 {
                assert(digits@[4] == '4');
            } else if d == 5 {
                assert(digits@[5] == '5');
            } else if d == 6 {
                assert(digits@[6] == '6');
            } else if d == 7 {
                assert(digits@[7] == '7');
            } else if d == 8 {
                assert(digits@[8] == '8');
            } else {
                assert(digits@[9] == '9');
            }
        }
    }
    piece.to_owned()
}

/// Render a number in decimal.
pub fn format_u64(n: u64) -> (r: String)
    ensures
        r@.len() > 0,
        spec_all_digits(r@),
        spec_digits_val(r@) == n,
        r@ == spec_format_u64(n),
    decreases n,
{
    if n < 10 {
        digit_str(n)
    } else {
        let mut s = format_u64(n / 10);
        let ghost head = s@;
        let low = digit_str(n % 10);
        s.append(low.as_str());
        proof {
            assert(s@.drop_last() =~= head);
            assert(s@.last() == low@[0]);
            assert forall|i: int| 0 <= i < s@.len() implies 48 <= #[trigger] s@[i] as u32
                <= 57 by {
                if i < head.len() {
                    assert(s@[i] == head[i]);
                } else {
                    assert(s@[i] == low@[0]);
                }
            }
            assert(spec_digits_val(s@) == spec_digits_val(head) * 10 + (s@.last() as u32 - 48));
        }
        s
    }
}

} // verus!
