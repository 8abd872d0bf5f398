//! The router-model protocol: render the routing prompt from the
//! configured providers and the conversation, and read the route name out
//! of the model's (often slightly broken) JSON answer.

use vstd::prelude::*;

verus! {

use vstd::string::StringExecFns;
use crate::chat::{msgs_view, ChatCompletionsRequest, Message, MessageV};
use crate::config::LlmProvider;
use crate::jsontext::{append_json_quoted, json_quoted};
use crate::jsonval::{
    entry_get, json_object_entries, json_shape, lemma_entry_is_field, parse_json, parsed_json,
    spec_field_get, val_of, JsonShape, JsonV,
};
use crate::strkit::{replace_str, spec_replace, strip_prefix_str, strip_suffix_str};

/// The fixed prompt of the routing model, with `{routes}` and
/// `{conversation}` placeholders.
pub fn router_system_prompt() -> (r: &'static str)
    ensures
        r@ == spec_router_system_prompt(),
{
    "\nYou are an advanced Routing Assistant designed to select the optimal route based on user requests.\nYour task is to analyze conversations and match them to the most appropriate predefined route.\nReview the available routes config:\n\n# ROUTES CONFIG START\n{routes}\n# ROUTES CONFIG END\n\nExamine the following conversation between a user and an assistant:\n\n# CONVERSATION START\n{conversation}\n# CONVERSATION END\n\nYour goal is to identify the most appropriate route that matches the user's LATEST intent. Follow these steps:\n\n1. Carefully read and analyze the provided conversation, focusing on the user's latest request and the conversation scenario.\n2. Check if the user's request and scenario matches any of the routes in the routing configuration (focus on the description).\n3. Find the route that best matches.\n4. Use context clues from the entire conversation to determine the best fit.\n5. Return the best match possible. You only response the name of the route that best matches the user's request, use the exact name in the routes config.\n6. If no route relatively close to matches the user's latest intent or user last message is thank you or greeting, return an empty route ''.\n\n# OUTPUT FORMAT\nYour final output must follow this JSON format:\n{\n  \"route\": \"route_name\" # The matched route name, or empty string '' if no match\n}\n\nBased on your analysis, provide only the JSON object as your final output with no additional text, explanations, or whitespace.\n"
}

pub open spec fn spec_router_system_prompt() -> Seq<char> {
    "\nYou are an advanced Routing Assistant designed to select the optimal route based on user requests.\nYour task is to analyze conversations and match them to the most appropriate predefined route.\nReview the available routes config:\n\n# ROUTES CONFIG START\n{routes}\n# ROUTES CONFIG END\n\nExamine the following conversation between a user and an assistant:\n\n# CONVERSATION START\n{conversation}\n# CONVERSATION END\n\nYour goal is to identify the most appropriate route that matches the user's LATEST intent. Follow these steps:\n\n1. Carefully read and analyze the provided conversation, focusing on the user's latest request and the conversation scenario.\n2. Check if the user's request and scenario matches any of the routes in the routing configuration (focus on the description).\n3. Find the route that best matches.\n4. Use context clues from the entire conversation to determine the best fit.\n5. Return the best match possible. You only response the name of the route that best matches the user's request, use the exact name in the routes config.\n6. If no route relatively close to matches the user's latest intent or user last message is thank you or greeting, return an empty route ''.\n\n# OUTPUT FORMAT\nYour final output must follow this JSON format:\n{\n  \"route\": \"route_name\" # The matched route name, or empty string '' if no match\n}\n\nBased on your analysis, provide only the JSON object as your final output with no additional text, explanations, or whitespace.\n"@
}

/// The JSON rendering of a message's content: the quoted, escaped string,
/// or `null` when absent.
pub open spec fn spec_content_json(content: Option<Seq<char>>) -> Seq<char> {
    match content {
        Some(c) => json_quoted(c),
        None => "null"@,
    }
}

/// The conversation rendering: every non-system message as
/// `role: <content as JSON>`, joined with newlines.
pub open spec fn spec_conversation(ms: Seq<MessageV>, first: bool) -> Seq<char>
    decreases ms.len(),
{
    if ms.len() == 0 {
        Seq::empty()
    } else if ms[0].role == "system"@ {
        spec_conversation(ms.drop_first(), first)
    } else {
        let lead: Seq<char> = if first {
            Seq::empty()
        } else {
            seq!['\n']
        };
        lead + ms[0].role + ": "@ + spec_content_json(ms[0].content) + spec_conversation(
            ms.drop_first(),
            false,
        )
    }
}

/// The full routing prompt for a conversation and a routes rendering.
pub open spec fn spec_router_prompt(routes_yaml: Seq<char>, ms: Seq<MessageV>) -> Seq<char> {
    spec_replace(
        spec_replace(spec_router_system_prompt(), "{routes}"@, routes_yaml),
        "{conversation}"@,
        spec_conversation(ms, true),
    )
}

/// The usage-based router: the providers rendering and the model that picks
/// among them.
#[derive(Debug)]
pub struct RouterModelV1 {
    pub llm_providers_with_usage_yaml: String,
    pub routing_model: String,
}

impl RouterModelV1 {
    pub fn new(llm_providers_with_usage_yaml: String, routing_model: String) -> (r: RouterModelV1)
        ensures
            r.llm_providers_with_usage_yaml == llm_providers_with_usage_yaml,
            r.routing_model == routing_model,
    {
        RouterModelV1 { llm_providers_with_usage_yaml, routing_model }
    }

    /// The request sent to the routing model: one user message holding the
    /// rendered prompt, never streamed, no tools, no metadata.
    pub fn generate_request(&self, messages: &Vec<Message>) -> (r: ChatCompletionsRequest)
        ensures
            r@.model == self.routing_model@,
            r@.stream == false,
            r@.tools is None,
            r@.metadata is None,
            r@.stream_options is None,
            r@.messages.len() == 1,
            r@.messages[0].role == "user"@,
            r@.messages[0].content == Some(
                spec_router_prompt(self.llm_providers_with_usage_yaml@, msgs_view(messages@)),
            ),
    {
        let conversation = render_conversation(messages);
        proof {
            reveal_strlit("{routes}");
            reveal_strlit("{conversation}");
        }
        let with_routes = replace_str(
            router_system_prompt(),
            "{routes}",
            self.llm_providers_with_usage_yaml.as_str(),
        );
        let prompt = replace_str(with_routes.as_str(), "{conversation}", conversation.as_str());
        let mut msgs: Vec<Message> = Vec::new();
        msgs.push(
            Message {
                role: String::from_str("user"),
                content: Some(prompt),
                model: None,
                tool_calls: None,
                tool_call_id: None,
            },
        );
        let r = ChatCompletionsRequest {
            model: self.routing_model.clone(),
            messages: msgs,
            tools: None,
            stream: false,
            stream_options: None,
            metadata: None,
        };
        proof {
            assert(r@.messages =~= seq![r@.messages[0]]);
        }
        r
    }

    /// Read the route out of the routing model's reply, tolerating its
    /// usual JSON mistakes. The repaired reply must be a JSON object; a
    /// missing or null route, or an empty one with or without a `()`
    /// suffix, means no route was selected; a route of another type is an
    /// error.
    pub fn parse_response(&self, content: &str) -> (r: Result<Option<String>, String>)
        ensures
            r matches Ok(Some(name)) ==> name@.len() > 0,
            (match parsed_json(spec_fix_json_response(content@)) {
                None => r is Err,
                Some(j) => match j {
                    JsonV::Obj(fields) => (match spec_field_get(fields, "route"@) {
                        Some(rv) => (match rv {
                            JsonV::Str(t) => ({
                                &&& r matches Ok(rr)
                                &&& crate::chat::opt_view(rr) == spec_normalize_route(Some(t))
                            }),
                            JsonV::Null => r == Ok::<Option<String>, String>(None),
                            _ => r is Err,
                        }),
                        None => r == Ok::<Option<String>, String>(None),
                    }),
                    _ => r is Err,
                },
            }),
    {
        let fixed = fix_json_response(content);
        let v = match parse_json(fixed.as_str()) {
            Ok(v) => v,
            Err(e) => {
                return Err(e);
            },
        };
        let entries = match json_object_entries(&v) {
            Some(es) => es,
            None => {
                return Err(String::from_str("route answer is not a JSON object"));
            },
        };
        let ghost fields = val_of(v)->Obj_0;
        proof {
            reveal_strlit("route");
            lemma_entry_is_field(entries@, fields, "route"@);
        }
        let route: Option<String> = match entry_get(&entries, "route") {
            Some(t) => {
                proof {
                    let w = choose|i: int|
                        0 <= i < entries@.len() && (#[trigger] entries@[i]).0@ == "route"@ && *t
                            == entries@[i].1;
                    assert(forall|k: int|
                        0 <= k < w ==> (#[trigger] entries@[k]).0@ != "route"@) by {
                        assert(forall|k: int, j: int|
                            0 <= k < j < entries@.len() ==> (#[trigger] entries@[k]).0@ != (
                            #[trigger] entries@[j]).0@);
                    }
                    assert(spec_field_get(fields, "route"@) == Some(val_of(*t)));
                }
                match json_shape(t) {
                    JsonShape::Str(s) => Some(s),
                    JsonShape::Null => None,
                    _ => {
                        return Err(String::from_str("route is not a string"));
                    },
                }
            },
            None => None,
        };
        Ok(normalize_route(route))
    }
}

/// What normalizing a raw route value yields: a `()` suffix is dropped, and
/// an empty or absent route means none was selected.
pub open spec fn spec_normalize_route(route: Option<Seq<char>>) -> Option<Seq<char>> {
    match route {
        Some(raw) => {
            let stripped = if raw.len() >= 2 && raw.subrange(raw.len() - 2, raw.len() as int)
                == "()"@ {
                raw.take(raw.len() - 2)
            } else {
                raw
            };
            if stripped.len() == 0 {
                None
            } else {
                Some(stripped)
            }
        },
        None => None,
    }
}

/// Strip a `()` suffix from the route name; an empty result means no route.
pub fn normalize_route(route: Option<String>) -> (r: Option<String>)
    ensures
        crate::chat::opt_view(r) == spec_normalize_route(crate::chat::opt_view(route)),
{
    match route {
        Some(raw) => {
            let stripped = strip_suffix_str(raw.as_str(), "()");
            proof {
                reveal_strlit("()");
            }
            if stripped.as_str().is_empty() {
                None
            } else {
                Some(stripped)
            }
        },
        None => None,
    }
}

/// The provider hint header for a selected route; no route, no header.
pub fn provider_hint_header(route: &Option<String>) -> (r: Option<(String, String)>)
    ensures
        match *route {
            Some(name) => if name@.len() > 0 {
                r matches Some(h) && h.0@ == "x-arch-llm-provider-hint"@ && h.1@ == name@
            } else {
                r is None
            },
            None => r is None,
        },
{
    match route {
        Some(name) => {
            if name.as_str().is_empty() {
                None
            } else {
                Some((String::from_str("x-arch-llm-provider-hint"), name.clone()))
            }
        },
        None => None,
    }
}

/// What repairing a router reply yields: single quotes become double
/// quotes, literal `\n` sequences vanish, and stray markdown fences around
/// the JSON are dropped.
pub open spec fn spec_fix_json_response(body: Seq<char>) -> Seq<char> {
    let unquoted = spec_replace(body, "'"@, "\""@);
    let unescaped = spec_replace(unquoted, "\\n"@, Seq::empty());
    let unprefixed = if "```json"@.len() <= unescaped.len() && unescaped.subrange(
        0,
        "```json"@.len() as int,
    ) == "```json"@ {
        unescaped.skip("```json"@.len() as int)
    } else {
        unescaped
    };
    if "```"@.len() <= unprefixed.len() && unprefixed.subrange(
        unprefixed.len() - "```"@.len(),
        unprefixed.len() as int,
    ) == "```"@ {
        unprefixed.take(unprefixed.len() - "```"@.len())
    } else {
        unprefixed
    }
}

/// Apply the tolerant repairs to a router reply, in their fixed order.
pub fn fix_json_response(body: &str) -> (r: String)
    ensures
        r@ == spec_fix_json_response(body@),
{
    proof {
        reveal_strlit("'");
        reveal_strlit("\\n");
        reveal_strlit("");
        assert(""@ =~= Seq::<char>::empty());
    }
    let unquoted = replace_str(body, "'", "\"");
    let unescaped = replace_str(unquoted.as_str(), "\\n", "");
    let unprefixed = strip_prefix_str(unescaped.as_str(), "```json");
    strip_suffix_str(unprefixed.as_str(), "```")
}

/// The providers rendering handed to the routing prompt: one entry per
/// provider that declares a usage, `- name: <name>()` and its description.
pub open spec fn spec_providers_yaml(ps: Seq<LlmProvider>, first: bool) -> Seq<char>
    decreases ps.len(),
{
    if ps.len() == 0 {
        Seq::empty()
    } else if ps[0].usage is None {
        spec_providers_yaml(ps.drop_first(), first)
    } else {
        let lead: Seq<char> = if first {
            Seq::empty()
        } else {
            seq!['\n']
        };
        lead + "- name: "@ + ps[0].name@ + "()\n  description: "@ + ps[0].usage.unwrap()@
            + spec_providers_yaml(ps.drop_first(), false)
    }
}

/// Render the non-system messages of a conversation for the routing prompt.
pub fn render_conversation(messages: &Vec<Message>) -> (r: String)
    ensures
        r@ == spec_conversation(msgs_view(messages@), true),
{
    let mut out = String::new();
    let mut first = true;
    let mut i: usize = 0;
    let ghost mv = msgs_view(messages@);
    proof {
        assert(mv.skip(0) =~= mv);
    }
    while i < messages.len()
        invariant
            i <= messages@.len(),
            mv == msgs_view(messages@),
            out@ + spec_conversation(mv.skip(i as int), first) == spec_conversation(mv, true),
        decreases messages@.len() - i,
    {
        let ghost tail = mv.skip(i as int);
        proof {
            assert(tail[0] == mv[i as int]);
            assert(tail.drop_first() =~= mv.skip(i + 1));
        }
        let m = &messages[i];
        if !crate::strkit::str_eq(m.role.as_str(), "system") {
            let ghost out_before = out@;
            if !first {
                out.append("\n");
                proof {
                    reveal_strlit("\n");
                }
            }
            out.append(m.role.as_str());
            out.append(": ");
            match &m.content {
                Some(c) => {
                    append_json_quoted(&mut out, c.as_str());
                },
                None => {
                    out.append("null");
                },
            }
            proof {
                reveal_strlit(": ");
                reveal_strlit("null");
                let lead: Seq<char> = if first {
                    Seq::empty()
                } else {
                    seq!['\n']
                };
                assert(out@ =~= out_before + lead + tail[0].role + ": "@ + spec_content_json(
                    tail[0].content,
                ));
            }
            first = false;
        }
        i = i + 1;
    }
    proof {
        assert(mv.skip(messages@.len() as int) =~= Seq::<MessageV>::empty());
    }
    out
}

/// The per-process routing service: the providers it may route to and the
/// rendering the prompt embeds.
#[derive(Debug)]
pub struct RouterService {
    pub providers: Vec<LlmProvider>,
    pub providers_with_usage: Vec<LlmProvider>,
    pub router_url: String,
    pub llm_providers_with_usage_yaml: String,
}

impl RouterService {
    /// Keep the providers that declare a usage and render them for the
    /// routing prompt.
    pub fn new(providers: Vec<LlmProvider>, router_url: String) -> (r: RouterService)
        ensures
            r.router_url == router_url,
            r.providers == providers,
            r.llm_providers_with_usage_yaml@ == spec_providers_yaml(providers@, true),
            r.providers_with_usage@ == providers@.filter(|p: LlmProvider| p.usage is Some),
    {
        let mut with_usage: Vec<LlmProvider> = Vec::new();
        let mut yaml = String::new();
        let mut first = true;
        let mut i: usize = 0;
        proof {
            assert(providers@.skip(0) =~= providers@);
            reveal(Seq::filter);
            assert(providers@.take(0) =~= Seq::<LlmProvider>::empty());
            assert(with_usage@ =~= providers@.take(0).filter(|p: LlmProvider| p.usage is Some));
        }
        while i < providers.len()
            invariant
                i <= providers@.len(),
                yaml@ + spec_providers_yaml(providers@.skip(i as int), first)
                    == spec_providers_yaml(providers@, true),
                with_usage@ =~= providers@.take(i as int).filter(
                    |p: LlmProvider| p.usage is Some,
                ),
            decreases providers@.len() - i,
        {
            proof {
                reveal(Seq::filter);
                assert(providers@.take(i + 1).drop_last() =~= providers@.take(i as int));
                assert(providers@.take(i + 1).last() == providers@[i as int]);
            }
            let ghost tail = providers@.skip(i as int);
            proof {
                assert(tail[0] == providers@[i as int]);
                assert(tail.drop_first() =~= providers@.skip(i + 1));
            }
            let p = &providers[i];
            match &p.usage {
                Some(usage) => {
                    let ghost yaml_before = yaml@;
                    if !first {
                        yaml.append("\n");
                        proof {
                            reveal_strlit("\n");
                        }
                    }
                    yaml.append("- name: ");
                    yaml.append(p.name.as_str());
                    yaml.append("()\n  description: ");
                    yaml.append(usage.as_str());
                    proof {
                        reveal_strlit("- name: ");
                        reveal_strlit("()\n  description: ");
                        let lead: Seq<char> = if first {
                            Seq::empty()
                        } else {
                            seq!['\n']
                        };
                        assert(yaml@ =~= yaml_before + lead + "- name: "@ + tail[0].name@
                            + "()\n  description: "@ + tail[0].usage.unwrap()@);
                    }
                    first = false;
                    let ghost with_before = with_usage@;
                    with_usage.push(
                        LlmProvider {
                            name: p.name.clone(),
                            usage: Some(usage.clone()),
                        },
                    );
                    proof {
                        assert(with_usage@.last() == providers@[i as int]);
                        assert(with_usage@ =~= with_before.push(providers@[i as int]));
                    }
                },
                None => {},
            }
            i = i + 1;
        }
        proof {
            assert(providers@.skip(providers@.len() as int) =~= Seq::<LlmProvider>::empty());
            assert(providers@.take(providers@.len() as int) =~= providers@);
        }
        RouterService {
            providers,
            providers_with_usage: with_usage,
            router_url,
            llm_providers_with_usage_yaml: yaml,
        }
    }

    /// The request sent to the routing model for this conversation.
    pub fn route_request(&self, messages: &Vec<Message>, routing_model: String) -> (r:
        ChatCompletionsRequest)
        ensures
            r@.stream == false,
            r@.tools is None,
            r@.metadata is None,
            r@.messages.len() == 1,
            r@.messages[0].role == "user"@,
            r@.messages[0].content == Some(
                spec_router_prompt(self.llm_providers_with_usage_yaml@, msgs_view(messages@)),
            ),
    {
        let model = RouterModelV1::new(
            self.llm_providers_with_usage_yaml.clone(),
            routing_model,
        );
        model.generate_request(messages)
    }
}

} // verus!
