//! A small provider-translation layer: one request shape for several
//! OpenAI-compatible upstreams, serialized by a verified encoder whose
//! output is pinned character by character.

use vstd::prelude::*;

verus! {

use vstd::string::StrSliceExecFns;
use vstd::string::StringExecFns;
use vstd::utf8::encode_utf8;
use crate::jsontext::{append_json_quoted, json_quoted};
use crate::jsonval::{
    json_array_items, json_object_entries, json_shape, parsed_json, spec_field_get, val_of,
    JsonShape, JsonV,
};
use crate::parse::{field_lookup, parse_u64, spec_i64_or_zero, spec_str_or_none};
use crate::strkit::{eq_ignore_ascii_case, spec_lower};

/// An upstream provider this layer can speak to.
#[derive(Debug, Clone, Copy, PartialEq, Eq, Hash, Structural)]
pub enum Provider {
    OpenAI,
    Mistral,
}

impl Provider {
    /// Read a provider from its name, case-insensitively.
    pub fn from_str(s: &str) -> (r: Result<Provider, String>)
        ensures
            spec_lower(s@) == spec_lower("openai"@) ==> r == Ok::<Provider, String>(
                Provider::OpenAI,
            ),
            spec_lower(s@) == spec_lower("mistral"@) ==> r == Ok::<Provider, String>(
                Provider::Mistral,
            ),
            (spec_lower(s@) != spec_lower("openai"@) && spec_lower(s@) != spec_lower("mistral"@))
                ==> r is Err,
    {
        proof {
            reveal_strlit("openai");
            reveal_strlit("mistral");
            assert(spec_lower("openai"@).len() != spec_lower("mistral"@).len());
        }
        if eq_ignore_ascii_case(s, "openai") {
            Ok(Provider::OpenAI)
        } else if eq_ignore_ascii_case(s, "mistral") {
            Ok(Provider::Mistral)
        } else {
            let mut m = String::from_str("invalid provider: ");
            m.append(s);
            Err(m)
        }
    }
}

/// A message role this layer forwards.
#[derive(Debug, Clone, Copy, PartialEq, Eq, Structural)]
pub enum Role {
    System,
    User,
}

/// One message of a translation request.
#[derive(Debug)]
pub struct Message {
    pub role: Role,
    pub content: Option<String>,
    pub model: Option<String>,
}

#[verifier::ext_equal]
pub ghost struct OmniMessageV {
    pub role: Role,
    pub content: Option<Seq<char>>,
    pub model: Option<Seq<char>>,
}

impl View for Message {
    type V = OmniMessageV;

    open spec fn view(&self) -> OmniMessageV {
        OmniMessageV {
            role: self.role,
            content: match self.content {
                Some(c) => Some(c@),
                None => None,
            },
            model: match self.model {
                Some(m) => Some(m@),
                None => None,
            },
        }
    }
}

/// Usage reporting control.
#[derive(Debug, Clone, Copy, PartialEq, Eq, Structural)]
pub struct StreamOptions {
    pub include_usage: Option<bool>,
}

/// A request to translate and forward.
#[derive(Debug)]
pub struct ChatRequest {
    pub model: String,
    pub messages: Vec<Message>,
    pub stream: Option<bool>,
    pub stream_options: Option<StreamOptions>,
}

/// Token accounting of a translated response.
#[derive(Debug, Clone, Copy, PartialEq, Eq, Structural)]
pub struct Usage {
    pub prompt_tokens: i64,
    pub completion_tokens: i64,
    pub total: i64,
}

/// A translated response.
#[derive(Debug)]
pub struct ChatResponse {
    pub messages: Vec<Message>,
    pub usage: Option<Usage>,
}

#[verifier::ext_equal]
pub ghost struct ChatResponseV {
    pub messages: Seq<OmniMessageV>,
    pub usage: Option<Usage>,
}

impl View for ChatResponse {
    type V = ChatResponseV;

    open spec fn view(&self) -> ChatResponseV {
        ChatResponseV {
            messages: self.messages@.map_values(|m: Message| m@),
            usage: self.usage,
        }
    }
}

/// The wire name of a role.
pub open spec fn spec_role_text(r: Role) -> Seq<char> {
    match r {
        Role::System => "system"@,
        Role::User => "user"@,
    }
}

/// The JSON text of one message: role, content (null when absent), and the
/// model only when one is set.
pub open spec fn spec_message_json(m: &Message) -> Seq<char> {
    let base = "{\"role\":"@ + json_quoted(spec_role_text(m.role)) + ",\"content\":"@ + (
    match m.content {
        Some(c) => json_quoted(c@),
        None => "null"@,
    });
    let with_model = match m.model {
        Some(md) => base + ",\"model\":"@ + json_quoted(md@),
        None => base,
    };
    with_model + "}"@
}

pub open spec fn spec_messages_json(ms: Seq<Message>, first: bool) -> Seq<char>
    decreases ms.len(),
{
    if ms.len() == 0 {
        Seq::empty()
    } else {
        let lead: Seq<char> = if first {
            Seq::empty()
        } else {
            seq![',']
        };
        lead + spec_message_json(&ms[0]) + spec_messages_json(ms.drop_first(), false)
    }
}

/// The JSON text of a request: model and messages, then the stream flag and
/// stream options only when set.
pub open spec fn spec_request_json(req: &ChatRequest) -> Seq<char> {
    let base = "{\"model\":"@ + json_quoted(req.model@) + ",\"messages\":["@ + spec_messages_json(
        req.messages@,
        true,
    ) + "]"@;
    let with_stream = match req.stream {
        Some(b) => base + ",\"stream\":"@ + (if b {
            "true"@
        } else {
            "false"@
        }),
        None => base,
    };
    let with_options = match req.stream_options {
        Some(o) => with_stream + ",\"stream_options\":{"@ + (match o.include_usage {
            Some(b) => "\"include_usage\":"@ + (if b {
                "true"@
            } else {
                "false"@
            }),
            None => Seq::empty(),
        }) + "}"@,
        None => with_stream,
    };
    with_options + "}"@
}

/// Serialize one message.
fn append_message_json(out: &mut String, m: &Message)
    ensures
        final(out)@ == old(out)@ + spec_message_json(m),
{
    out.append("{\"role\":");
    match m.role {
        Role::System => append_json_quoted(out, "system"),
        Role::User => append_json_quoted(out, "user"),
    }
    out.append(",\"content\":");
    match &m.content {
        Some(c) => append_json_quoted(out, c.as_str()),
        None => out.append("null"),
    }
    match &m.model {
        Some(md) => {
            out.append(",\"model\":");
            append_json_quoted(out, md.as_str());
        },
        None => {},
    }
    out.append("}");
    proof {
        assert(out@ =~= old(out)@ + spec_message_json(m));
    }
}

/// Serialize a request, exactly as its wire encoding writes it.
pub fn request_to_json(req: &ChatRequest) -> (r: String)
    ensures
        r@ == spec_request_json(req),
{
    let mut out = String::from_str("{\"model\":");
    append_json_quoted(&mut out, req.model.as_str());
    out.append(",\"messages\":[");
    let mut i: usize = 0;
    let ghost msgs = req.messages@;
    let ghost head = out@;
    proof {
        assert(msgs.skip(0) =~= msgs);
    }
    while i < req.messages.len()
        invariant
            i <= req.messages@.len(),
            msgs == req.messages@,
            out@ + spec_messages_json(msgs.skip(i as int), i == 0) == head + spec_messages_json(
                msgs,
                true,
            ),
        decreases req.messages@.len() - i,
    {
        let ghost tail = msgs.skip(i as int);
        proof {
            assert(tail.drop_first() =~= msgs.skip(i + 1));
        }
        let ghost out_before = out@;
        if i > 0 {
            out.append(",");
            proof {
                reveal_strlit(",");
            }
        }
        append_message_json(&mut out, &req.messages[i]);
        proof {
            let lead: Seq<char> = if i == 0 {
                Seq::empty()
            } else {
                seq![',']
            };
            assert(out@ =~= out_before + lead + spec_message_json(&tail[0]));
        }
        i = i + 1;
    }
    proof {
        assert(msgs.skip(req.messages@.len() as int) =~= Seq::<Message>::empty());
    }
    out.append("]");
    match &req.stream {
        Some(b) => {
            out.append(",\"stream\":");
            out.append(
                if *b {
                    "true"
                } else {
                    "false"
                },
            );
        },
        None => {},
    }
    match &req.stream_options {
        Some(o) => {
            out.append(",\"stream_options\":{");
            match o.include_usage {
                Some(b) => {
                    out.append("\"include_usage\":");
                    out.append(
                        if b {
                            "true"
                        } else {
                            "false"
                        },
                    );
                },
                None => {},
            }
            out.append("}");
        },
        None => {},
    }
    out.append("}");
    proof {
        assert(out@ =~= spec_request_json(req));
    }
    out
}

/// The provider that speaks plain OpenAI JSON.
#[derive(Debug)]
pub struct OpenAI;

/// The provider that speaks Mistral's OpenAI-compatible JSON.
#[derive(Debug)]
pub struct Mistral;

impl OpenAI {
    /// Serialize a request for this provider.
    pub fn translate_request(&self, request: &ChatRequest) -> (r: Result<Vec<u8>, String>)
        ensures
            r matches Ok(bytes) && bytes@ == encode_utf8(spec_request_json(request)),
    {
        let text = request_to_json(request);
        Ok(text.as_str().as_bytes_vec())
    }

    /// Read a response from this provider's bytes.
    pub fn translate_response(&self, response: &Vec<u8>) -> Result<ChatResponse, String> {
        chat_response_from_bytes(response)
    }
}

impl Mistral {
    /// Serialize a request for this provider.
    pub fn translate_request(&self, request: &ChatRequest) -> (r: Result<Vec<u8>, String>)
        ensures
            r matches Ok(bytes) && bytes@ == encode_utf8(spec_request_json(request)),
    {
        let text = request_to_json(request);
        Ok(text.as_str().as_bytes_vec())
    }

    /// Read a response from this provider's bytes.
    pub fn translate_response(&self, response: &Vec<u8>) -> Result<ChatResponse, String> {
        chat_response_from_bytes(response)
    }
}

/// What one translated message decodes to: a known role is required,
/// content must be a string or null, the model is read leniently.
pub open spec fn spec_omni_message_of(j: JsonV) -> Result<OmniMessageV, ()> {
    match j {
        JsonV::Obj(fs) => match spec_field_get(fs, "role"@) {
            Some(rv) => match rv {
                JsonV::Str(t) => {
                    let role_r: Result<Role, ()> = if t == "system"@ {
                        Ok(Role::System)
                    } else if t == "user"@ {
                        Ok(Role::User)
                    } else {
                        Err(())
                    };
                    match role_r {
                        Ok(role) => {
                            let content_r: Result<Option<Seq<char>>, ()> = match spec_field_get(
                                fs,
                                "content"@,
                            ) {
                                Some(cv) => match cv {
                                    JsonV::Str(c) => Ok(Some(c)),
                                    JsonV::Null => Ok(None),
                                    _ => Err(()),
                                },
                                None => Ok(None),
                            };
                            match content_r {
                                Ok(content) => Ok(
                                    OmniMessageV {
                                        role,
                                        content,
                                        model: spec_str_or_none(fs, "model"@),
                                    },
                                ),
                                Err(_) => Err(()),
                            }
                        },
                        Err(_) => Err(()),
                    }
                },
                _ => Err(()),
            },
            None => Err(()),
        },
        _ => Err(()),
    }
}

/// What a list of translated messages decodes to.
pub open spec fn spec_omni_messages_of(items: Seq<JsonV>) -> Result<Seq<OmniMessageV>, ()>
    decreases items.len(),
{
    if items.len() == 0 {
        Ok(Seq::empty())
    } else {
        match spec_omni_message_of(items[0]) {
            Ok(m) => match spec_omni_messages_of(items.drop_first()) {
                Ok(rest) => Ok(seq![m] + rest),
                Err(_) => Err(()),
            },
            Err(_) => Err(()),
        }
    }
}

/// What a translated response decodes to: messages required and each
/// well-formed, the usage read leniently.
pub open spec fn spec_omni_response_of(j: JsonV) -> Result<ChatResponseV, ()> {
    match j {
        JsonV::Obj(fs) => match spec_field_get(fs, "messages"@) {
            Some(mv) => match mv {
                JsonV::Arr(items) => match spec_omni_messages_of(items) {
                    Ok(messages) => Ok(
                        ChatResponseV {
                            messages,
                            usage: (match spec_field_get(fs, "usage"@) {
                                Some(uv) => match uv {
                                    JsonV::Obj(ufs) => Some(
                                        Usage {
                                            prompt_tokens: spec_i64_or_zero(ufs, "prompt_tokens"@),
                                            completion_tokens: spec_i64_or_zero(
                                                ufs,
                                                "completion_tokens"@,
                                            ),
                                            total: spec_i64_or_zero(ufs, "total"@),
                                        },
                                    ),
                                    _ => None,
                                },
                                None => None,
                            }),
                        },
                    ),
                    Err(_) => Err(()),
                },
                _ => Err(()),
            },
            None => Err(()),
        },
        _ => Err(()),
    }
}

/// Read a translated response out of its bytes.
pub fn chat_response_from_bytes(bytes: &Vec<u8>) -> (r: Result<ChatResponse, String>)
    ensures
        !vstd::utf8::valid_utf8(bytes@) ==> r is Err,
        (vstd::utf8::valid_utf8(bytes@) && crate::jsonval::parsed_json(
            vstd::utf8::decode_utf8(bytes@),
        ) is None) ==> r is Err,
        (match crate::jsonval::parsed_json(vstd::utf8::decode_utf8(bytes@)) {
            Some(j) => vstd::utf8::valid_utf8(bytes@) ==> (match spec_omni_response_of(j) {
                Ok(resp) => ({
                    &&& r matches Ok(rr)
                    &&& rr@ == resp
                }),
                Err(_) => r is Err,
            }),
            None => true,
        }),
{
    proof {
        reveal_strlit("messages");
        reveal_strlit("usage");
        reveal_strlit("prompt_tokens");
        reveal_strlit("completion_tokens");
        reveal_strlit("total");
    }
    let text = match crate::strkit::utf8_to_string(bytes.as_slice()) {
        Some(t) => t,
        None => {
            return Err(String::from_str("response bytes are not valid UTF-8"));
        },
    };
    let v = match crate::jsonval::parse_json(text.as_str()) {
        Ok(v) => v,
        Err(e) => {
            return Err(e);
        },
    };
    let entries = match json_object_entries(&v) {
        Some(es) => es,
        None => {
            return Err(String::from_str("response is not a JSON object"));
        },
    };
    let ghost fs = val_of(v)->Obj_0;
    let messages: Vec<Message> = match field_lookup(&entries, "messages", Ghost(fs)) {
        Some(m) => match json_array_items(m) {
            Some(items) => {
                let ghost ms_items = val_of(*m)->Arr_0;
                let mut out: Vec<Message> = Vec::new();
                let mut i: usize = 0;
                proof {
                    assert(ms_items.skip(0) =~= ms_items);
                }
                while i < items.len()
                    invariant
                        i <= items@.len(),
                        items@.len() == ms_items.len(),
                        vstd::utf8::valid_utf8(bytes@),
                        parsed_json(vstd::utf8::decode_utf8(bytes@)) == Some(val_of(v)),
                        spec_omni_messages_of(ms_items) is Err ==> spec_omni_response_of(
                            val_of(v),
                        ) is Err,
                        forall|k: int|
                            0 <= k < ms_items.len() ==> val_of(#[trigger] items@[k])
                                == ms_items[k],
                        (match spec_omni_messages_of(ms_items.skip(i as int)) {
                            Ok(rest) => spec_omni_messages_of(ms_items) == Ok::<
                                Seq<OmniMessageV>,
                                (),
                            >(out@.map_values(|m: Message| m@) + rest),
                            Err(_) => spec_omni_messages_of(ms_items) is Err,
                        }),
                    decreases items@.len() - i,
                {
                    let ghost tail = ms_items.skip(i as int);
                    proof {
                        reveal_strlit("role");
                        reveal_strlit("content");
                        reveal_strlit("model");
                        reveal_strlit("system");
                        reveal_strlit("user");
                        assert(tail[0] == ms_items[i as int]);
                        assert(tail.drop_first() =~= ms_items.skip(i + 1));
                    }
                    let mentries = match json_object_entries(&items[i]) {
                        Some(es) => es,
                        None => {
                            return Err(String::from_str("message is not an object"));
                        },
                    };
                    let ghost mfs = val_of(items@[i as int])->Obj_0;
                    let role = match field_lookup(&mentries, "role", Ghost(mfs)) {
                        Some(t) => match json_shape(t) {
                            JsonShape::Str(s) => {
                                if crate::strkit::str_eq(s.as_str(), "system") {
                                    Role::System
                                } else if crate::strkit::str_eq(s.as_str(), "user") {
                                    Role::User
                                } else {
                                    return Err(String::from_str("unsupported role"));
                                }
                            },
                            _ => {
                                return Err(String::from_str("role is not a string"));
                            },
                        },
                        None => {
                            return Err(String::from_str("message has no role"));
                        },
                    };
                    let content = match field_lookup(&mentries, "content", Ghost(mfs)) {
                        Some(t) => match json_shape(t) {
                            JsonShape::Str(s) => Some(s),
                            JsonShape::Null => None,
                            _ => {
                                return Err(String::from_str("content is not a string"));
                            },
                        },
                        None => None,
                    };
                    let model = match field_lookup(&mentries, "model", Ghost(mfs)) {
                        Some(t) => match json_shape(t) {
                            JsonShape::Str(s) => Some(s),
                            _ => None,
                        },
                        None => None,
                    };
                    let ghost out_before = out@;
                    let msg = Message { role, content, model };
                    proof {
                        assert(msg@ =~= spec_omni_message_of(tail[0])->Ok_0);
                    }
                    out.push(msg);
                    proof {
                        assert(out@.map_values(|m: Message| m@) =~= out_before.map_values(
                            |m: Message| m@,
                        ).push(spec_omni_message_of(tail[0])->Ok_0));
                        let sub = spec_omni_messages_of(ms_items.skip(i + 1));
                        if sub is Ok {
                            assert(out_before.map_values(|m: Message| m@) + (seq![
                                spec_omni_message_of(tail[0])->Ok_0,
                            ] + sub->Ok_0) =~= out@.map_values(|m: Message| m@) + sub->Ok_0);
                        }
                    }
                    i = i + 1;
                }
                proof {
                    assert(ms_items.skip(ms_items.len() as int) =~= Seq::<JsonV>::empty());
                    assert(out@.map_values(|m: Message| m@) + Seq::<OmniMessageV>::empty()
                        =~= out@.map_values(|m: Message| m@));
                }
                out
            },
            None => {
                return Err(String::from_str("messages is not an array"));
            },
        },
        None => {
            return Err(String::from_str("response has no messages"));
        },
    };
    let usage: Option<Usage> = match field_lookup(&entries, "usage", Ghost(fs)) {
        Some(u) => match json_object_entries(u) {
            Some(ues) => {
                let ghost ufs = val_of(*u)->Obj_0;
                Some(
                    Usage {
                        prompt_tokens: i64_field(&ues, "prompt_tokens", Ghost(ufs)),
                        completion_tokens: i64_field(&ues, "completion_tokens", Ghost(ufs)),
                        total: i64_field(&ues, "total", Ghost(ufs)),
                    },
                )
            },
            None => None,
        },
        None => None,
    };
    let r = ChatResponse { messages, usage };
    proof {
        assert(r@ =~= spec_omni_response_of(val_of(v))->Ok_0);
    }
    Ok(r)
}

/// A numeric field's value under the lenient reading, clipped to zero when
/// it does not fit, with the entry list standing for the given fields.
fn i64_field(
    entries: &Vec<(String, serde_json::Value)>,
    key: &str,
    Ghost(fields): Ghost<Seq<(Seq<char>, JsonV)>>,
) -> (r: i64)
    requires
        entries@.len() == fields.len(),
        forall|k: int|
            0 <= k < fields.len() ==> (#[trigger] entries@[k]).0@ == fields[k].0 && val_of(
                entries@[k].1,
            ) == fields[k].1,
        forall|i: int, j: int| 0 <= i < j < entries@.len() ==> entries@[i].0@ != entries@[j].0@,
    ensures
        r == spec_i64_or_zero(fields, key@),
{
    match field_lookup(entries, key, Ghost(fields)) {
        Some(t) => match json_shape(t) {
            JsonShape::Num(txt) => match parse_u64(txt.as_str()) {
                Some(n) => if n <= i64::MAX as u64 {
                    n as i64
                } else {
                    0
                },
                None => 0,
            },
            _ => 0,
        },
        None => 0,
    }
}

} // verus!
