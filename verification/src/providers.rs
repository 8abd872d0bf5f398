//! Shared wire shapes of the OpenAI-compatible providers, and the provider
//! tags the translation layer dispatches on.

use vstd::prelude::*;

verus! {

use vstd::string::StringExecFns;
use crate::jsonval::{
    json_array_items, json_object_entries, json_shape, parsed_json, spec_field_get, val_of,
    JsonShape, JsonV,
};
use crate::parse::{
    field_lookup, parse_u64, spec_str_or_empty, spec_str_or_none, spec_u32_or_zero,
    spec_u64_or_zero, str_field,
};

/// The providers the translation layer knows.
#[derive(Debug, Clone, Copy, PartialEq, Eq, Structural)]
pub enum Provider {
    Groq,
    OpenAI,
    DeepSeek,
}

/// One message of the shared wire shape.
#[derive(Debug)]
pub struct Message {
    pub role: String,
    pub content: String,
}

#[verifier::ext_equal]
pub ghost struct SharedMessageV {
    pub role: Seq<char>,
    pub content: Seq<char>,
}

impl View for Message {
    type V = SharedMessageV;

    open spec fn view(&self) -> SharedMessageV {
        SharedMessageV { role: self.role@, content: self.content@ }
    }
}

/// The response fields every provider shares.
#[derive(Debug)]
pub struct ChatResponseBase {
    pub id: String,
    pub object: String,
    pub created: u64,
    pub choices: Vec<Choice>,
    pub usage: Option<Usage>,
}

#[verifier::ext_equal]
pub ghost struct ChatResponseBaseV {
    pub id: Seq<char>,
    pub object: Seq<char>,
    pub created: u64,
    pub choices: Seq<SharedChoiceV>,
    pub usage: Option<Usage>,
}

impl View for ChatResponseBase {
    type V = ChatResponseBaseV;

    open spec fn view(&self) -> ChatResponseBaseV {
        ChatResponseBaseV {
            id: self.id@,
            object: self.object@,
            created: self.created,
            choices: self.choices@.map_values(|c: Choice| c@),
            usage: self.usage,
        }
    }
}

/// One choice of a shared response.
#[derive(Debug)]
pub struct Choice {
    pub index: u32,
    pub message: Message,
    pub finish_reason: Option<String>,
}

#[verifier::ext_equal]
pub ghost struct SharedChoiceV {
    pub index: u32,
    pub message: SharedMessageV,
    pub finish_reason: Option<Seq<char>>,
}

impl View for Choice {
    type V = SharedChoiceV;

    open spec fn view(&self) -> SharedChoiceV {
        SharedChoiceV {
            index: self.index,
            message: self.message@,
            finish_reason: match self.finish_reason {
                Some(f) => Some(f@),
                None => None,
            },
        }
    }
}

/// Token accounting of a shared response.
#[derive(Debug, Clone, Copy, PartialEq, Eq, Structural)]
pub struct Usage {
    pub prompt_tokens: u32,
    pub completion_tokens: u32,
    pub total_tokens: u32,
}

/// A DeepSeek response: the shared shape under that provider's name.
#[derive(Debug)]
pub struct DeepSeekResponse {
    pub base: ChatResponseBase,
}

/// A Groq response: the shared shape under that provider's name.
#[derive(Debug)]
pub struct GroqResponse {
    pub base: ChatResponseBase,
}

/// What one shared choice decodes to: the message object is required, its
/// role and content read leniently.
pub open spec fn spec_shared_choice_of(j: JsonV) -> Result<SharedChoiceV, ()> {
    match j {
        JsonV::Obj(cfs) => match spec_field_get(cfs, "message"@) {
            Some(mv) => match mv {
                JsonV::Obj(mfs) => Ok(
                    SharedChoiceV {
                        index: spec_u32_or_zero(cfs, "index"@),
                        message: SharedMessageV {
                            role: spec_str_or_empty(mfs, "role"@),
                            content: spec_str_or_empty(mfs, "content"@),
                        },
                        finish_reason: spec_str_or_none(cfs, "finish_reason"@),
                    },
                ),
                _ => Err(()),
            },
            None => Err(()),
        },
        _ => Err(()),
    }
}

/// What a list of shared choices decodes to.
pub open spec fn spec_shared_choices_of(items: Seq<JsonV>) -> Result<Seq<SharedChoiceV>, ()>
    decreases items.len(),
{
    if items.len() == 0 {
        Ok(Seq::empty())
    } else {
        match spec_shared_choice_of(items[0]) {
            Ok(c) => match spec_shared_choices_of(items.drop_first()) {
                Ok(rest) => Ok(seq![c] + rest),
                Err(_) => Err(()),
            },
            Err(_) => Err(()),
        }
    }
}

/// What the shared response shape decodes to: choices required and each
/// well-formed; the rest read leniently.
pub open spec fn spec_response_base_of(j: JsonV) -> Result<ChatResponseBaseV, ()> {
    match j {
        JsonV::Obj(fs) => match spec_field_get(fs, "choices"@) {
            Some(cv) => match cv {
                JsonV::Arr(items) => match spec_shared_choices_of(items) {
                    Ok(choices) => Ok(
                        ChatResponseBaseV {
                            id: spec_str_or_empty(fs, "id"@),
                            object: spec_str_or_empty(fs, "object"@),
                            created: spec_u64_or_zero(fs, "created"@),
                            choices,
                            usage: (match spec_field_get(fs, "usage"@) {
                                Some(uv) => match uv {
                                    JsonV::Obj(ufs) => Some(
                                        Usage {
                                            prompt_tokens: spec_u32_or_zero(ufs, "prompt_tokens"@),
                                            completion_tokens: spec_u32_or_zero(
                                                ufs,
                                                "completion_tokens"@,
                                            ),
                                            total_tokens: spec_u32_or_zero(ufs, "total_tokens"@),
                                        },
                                    ),
                                    _ => None,
                                },
                                None => None,
                            }),
                        },
                    ),
                    Err(_) => Err(()),
                },
                _ => Err(()),
            },
            None => Err(()),
        },
        _ => Err(()),
    }
}

/// Read the shared response shape out of JSON bytes.
pub fn response_base_from_bytes(bytes: &[u8]) -> (r: Result<ChatResponseBase, String>)
    ensures
        !vstd::utf8::valid_utf8(bytes@) ==> r is Err,
        (vstd::utf8::valid_utf8(bytes@) && crate::jsonval::parsed_json(
            vstd::utf8::decode_utf8(bytes@),
        ) is None) ==> r is Err,
        (match crate::jsonval::parsed_json(vstd::utf8::decode_utf8(bytes@)) {
            Some(j) => vstd::utf8::valid_utf8(bytes@) ==> (match spec_response_base_of(j) {
                Ok(base) => ({
                    &&& r matches Ok(rb)
                    &&& rb@ == base
                }),
                Err(_) => r is Err,
            }),
            None => true,
        }),
{
    proof {
        reveal_strlit("id");
        reveal_strlit("object");
        reveal_strlit("created");
        reveal_strlit("choices");
        reveal_strlit("usage");
        reveal_strlit("prompt_tokens");
        reveal_strlit("completion_tokens");
        reveal_strlit("total_tokens");
    }
    let text = match crate::strkit::utf8_to_string(bytes) {
        Some(t) => t,
        None => {
            return Err(String::from_str("response bytes are not valid UTF-8"));
        },
    };
    let v = match crate::jsonval::parse_json(text.as_str()) {
        Ok(v) => v,
        Err(e) => {
            return Err(e);
        },
    };
    let entries = match json_object_entries(&v) {
        Some(es) => es,
        None => {
            return Err(String::from_str("response is not a JSON object"));
        },
    };
    let ghost fs = val_of(v)->Obj_0;
    let id = str_field(&entries, "id", Ghost(fs));
    let object = str_field(&entries, "object", Ghost(fs));
    let created: u64 = match field_lookup(&entries, "created", Ghost(fs)) {
        Some(t) => match json_shape(t) {
            JsonShape::Num(txt) => match parse_u64(txt.as_str()) {
                Some(n) => n,
                None => 0,
            },
            _ => 0,
        },
        None => 0,
    };
    let choices: Vec<Choice> = match field_lookup(&entries, "choices", Ghost(fs)) {
        Some(c) => match json_array_items(c) {
            Some(items) => {
                let ghost ch_items = val_of(*c)->Arr_0;
                let mut out: Vec<Choice> = Vec::new();
                let mut i: usize = 0;
                proof {
                    assert(ch_items.skip(0) =~= ch_items);
                }
                while i < items.len()
                    invariant
                        i <= items@.len(),
                        items@.len() == ch_items.len(),
                        vstd::utf8::valid_utf8(bytes@),
                        parsed_json(vstd::utf8::decode_utf8(bytes@)) == Some(val_of(v)),
                        spec_shared_choices_of(ch_items) is Err ==> spec_response_base_of(
                            val_of(v),
                        ) is Err,
                        forall|k: int|
                            0 <= k < ch_items.len() ==> val_of(#[trigger] items@[k])
                                == ch_items[k],
                        (match spec_shared_choices_of(ch_items.skip(i as int)) {
                            Ok(rest) => spec_shared_choices_of(ch_items) == Ok::<
                                Seq<SharedChoiceV>,
                                (),
                            >(out@.map_values(|c: Choice| c@) + rest),
                            Err(_) => spec_shared_choices_of(ch_items) is Err,
                        }),
                    decreases items@.len() - i,
                {
                    let ghost tail = ch_items.skip(i as int);
                    proof {
                        reveal_strlit("index");
                        reveal_strlit("message");
                        reveal_strlit("role");
                        reveal_strlit("content");
                        reveal_strlit("finish_reason");
                        assert(tail[0] == ch_items[i as int]);
                        assert(tail.drop_first() =~= ch_items.skip(i + 1));
                    }
                    let centries = match json_object_entries(&items[i]) {
                        Some(es) => es,
                        None => {
                            return Err(String::from_str("choice is not an object"));
                        },
                    };
                    let ghost cfs = val_of(items@[i as int])->Obj_0;
                    let index: u32 = match field_lookup(&centries, "index", Ghost(cfs)) {
                        Some(t) => match json_shape(t) {
                            JsonShape::Num(txt) => match parse_u64(txt.as_str()) {
                                Some(n) => if n <= u32::MAX as u64 {
                                    n as u32
                                } else {
                                    0
                                },
                                None => 0,
                            },
                            _ => 0,
                        },
                        None => 0,
                    };
                    let message = match field_lookup(&centries, "message", Ghost(cfs)) {
                        Some(m) => match json_object_entries(m) {
                            Some(mes) => {
                                let ghost mfs = val_of(*m)->Obj_0;
                                Message {
                                    role: str_field(&mes, "role", Ghost(mfs)),
                                    content: str_field(&mes, "content", Ghost(mfs)),
                                }
                            },
                            None => {
                                return Err(String::from_str("message is not an object"));
                            },
                        },
                        None => {
                            return Err(String::from_str("choice has no message"));
                        },
                    };
                    let finish_reason = match field_lookup(&centries, "finish_reason", Ghost(cfs)) {
                        Some(t) => match json_shape(t) {
                            JsonShape::Str(s) => Some(s),
                            _ => None,
                        },
                        None => None,
                    };
                    let ghost out_before = out@;
                    let choice = Choice { index, message, finish_reason };
                    proof {
                        assert(choice@ =~= spec_shared_choice_of(tail[0])->Ok_0);
                    }
                    out.push(choice);
                    proof {
                        assert(out@.map_values(|c: Choice| c@) =~= out_before.map_values(
                            |c: Choice| c@,
                        ).push(spec_shared_choice_of(tail[0])->Ok_0));
                        let sub = spec_shared_choices_of(ch_items.skip(i + 1));
                        if sub is Ok {
                            assert(out_before.map_values(|c: Choice| c@) + (seq![
                                spec_shared_choice_of(tail[0])->Ok_0,
                            ] + sub->Ok_0) =~= out@.map_values(|c: Choice| c@) + sub->Ok_0);
                        }
                    }
                    i = i + 1;
                }
                proof {
                    assert(ch_items.skip(ch_items.len() as int) =~= Seq::<JsonV>::empty());
                    assert(out@.map_values(|c: Choice| c@) + Seq::<SharedChoiceV>::empty()
                        =~= out@.map_values(|c: Choice| c@));
                }
                out
            },
            None => {
                return Err(String::from_str("choices is not an array"));
            },
        },
        None => {
            return Err(String::from_str("response has no choices"));
        },
    };
    let usage: Option<Usage> = match field_lookup(&entries, "usage", Ghost(fs)) {
        Some(u) => match json_object_entries(u) {
            Some(ues) => {
                let ghost ufs = val_of(*u)->Obj_0;
                Some(
                    Usage {
                        prompt_tokens: u32_field(&ues, "prompt_tokens", Ghost(ufs)),
                        completion_tokens: u32_field(&ues, "completion_tokens", Ghost(ufs)),
                        total_tokens: u32_field(&ues, "total_tokens", Ghost(ufs)),
                    },
                )
            },
            None => None,
        },
        None => None,
    };
    let r = ChatResponseBase { id, object, created, choices, usage };
    proof {
        assert(r@ =~= spec_response_base_of(val_of(v))->Ok_0);
    }
    Ok(r)
}

/// A numeric field's value under the lenient reading, clipped to zero when
/// it does not fit, with the entry list standing for the given fields.
fn u32_field(
    entries: &Vec<(String, serde_json::Value)>,
    key: &str,
    Ghost(fields): Ghost<Seq<(Seq<char>, JsonV)>>,
) -> (r: u32)
    requires
        entries@.len() == fields.len(),
        forall|k: int|
            0 <= k < fields.len() ==> (#[trigger] entries@[k]).0@ == fields[k].0 && val_of(
                entries@[k].1,
            ) == fields[k].1,
        forall|i: int, j: int| 0 <= i < j < entries@.len() ==> entries@[i].0@ != entries@[j].0@,
    ensures
        r == spec_u32_or_zero(fields, key@),
{
    match field_lookup(entries, key, Ghost(fields)) {
        Some(t) => match json_shape(t) {
            JsonShape::Num(txt) => match parse_u64(txt.as_str()) {
                Some(n) => if n <= u32::MAX as u64 {
                    n as u32
                } else {
                    0
                },
                None => 0,
            },
            _ => 0,
        },
        None => 0,
    }
}

impl DeepSeekResponse {
    /// Read a DeepSeek response out of JSON bytes.
    pub fn from_bytes(bytes: &[u8]) -> (r: Result<DeepSeekResponse, String>)
        ensures
            !vstd::utf8::valid_utf8(bytes@) ==> r is Err,
            (match crate::jsonval::parsed_json(vstd::utf8::decode_utf8(bytes@)) {
                Some(j) => vstd::utf8::valid_utf8(bytes@) ==> (match spec_response_base_of(j) {
                    Ok(base) => ({
                        &&& r matches Ok(rb)
                        &&& rb.base@ == base
                    }),
                    Err(_) => r is Err,
                }),
                None => vstd::utf8::valid_utf8(bytes@) ==> r is Err,
            }),
    {
        match response_base_from_bytes(bytes) {
            Ok(base) => Ok(DeepSeekResponse { base }),
            Err(e) => Err(e),
        }
    }
}

impl GroqResponse {
    /// Read a Groq response out of JSON bytes.
    pub fn from_bytes(bytes: &[u8]) -> (r: Result<GroqResponse, String>)
        ensures
            !vstd::utf8::valid_utf8(bytes@) ==> r is Err,
            (match crate::jsonval::parsed_json(vstd::utf8::decode_utf8(bytes@)) {
                Some(j) => vstd::utf8::valid_utf8(bytes@) ==> (match spec_response_base_of(j) {
                    Ok(base) => ({
                        &&& r matches Ok(rb)
                        &&& rb.base@ == base
                    }),
                    Err(_) => r is Err,
                }),
                None => vstd::utf8::valid_utf8(bytes@) ==> r is Err,
            }),
    {
        match response_base_from_bytes(bytes) {
            Ok(base) => Ok(GroqResponse { base }),
            Err(e) => Err(e),
        }
    }
}

} // verus!
