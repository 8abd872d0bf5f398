//! The per-request orchestration state machine: ingress decisions, the
//! function-calling phase, the tool-invocation phase, and the hand-over to
//! the final LLM. Each handler is a function from the request's state and
//! one event to the next state and an outward action; the transport runs
//! the actions.

use vstd::prelude::*;

verus! {

use vstd::string::StringExecFns;
use crate::chat::{
    construct_llm_messages, duplicate_messages, keeps_message, msgs_view, system_message_v,
    ChatCompletionTool, ChatCompletionsRequest, ChatCompletionsResponse, Message, MessageV,
    ToolCall,
};
use crate::config::{find_agent, GatewayConfig, Tool};
use crate::errors::ServerError;
use crate::sse::{to_server_events, SyntheticChunk};
use crate::templater::{pairs_view, spec_lookup, HttpMethod};
use crate::tools::compute_request_path_body;

/// Which reply an outstanding outbound call expects.
#[derive(Debug, Clone, Copy, PartialEq, Eq, Structural)]
pub enum ResponseHandlerType {
    ArchFC,
    FunctionCall,
}

/// What the gateway knows about one outstanding outbound call.
#[derive(Debug)]
pub struct StreamCallContext {
    pub response_handler_type: ResponseHandlerType,
    pub user_message: Option<String>,
    pub prompt_target_name: Option<String>,
    pub request_body: ChatCompletionsRequest,
    pub upstream_cluster: Option<String>,
    pub upstream_cluster_path: Option<String>,
    pub agent_index: Option<usize>,
}

/// The payload of an outbound call: a request envelope the transport
/// serializes, raw text, or nothing.
#[derive(Debug)]
pub enum OutboundPayload {
    Chat(ChatCompletionsRequest),
    Text(String),
    Empty,
}

/// One outbound HTTP call the transport is asked to make.
#[derive(Debug)]
pub struct CallSpec {
    pub cluster: String,
    pub path: String,
    pub method: String,
    pub headers: Vec<(String, String)>,
    pub body: OutboundPayload,
    pub timeout_ms: u64,
    pub context: StreamCallContext,
}

/// What the transport should do next with the client's request.
#[derive(Debug)]
pub enum RequestAction {
    /// Answer the client at once.
    Respond { status: u16, body: Option<String> },
    /// Issue an outbound call and wait for its reply.
    Dispatch(CallSpec),
    /// Let the request continue upstream unchanged.
    Forward,
    /// Replace the inbound body with this request and resume upstream.
    ResumeWithBody { request: ChatCompletionsRequest },
}

/// What the ingress decides from the request head alone.
#[derive(Debug)]
pub struct HeadersOutcome {
    /// An immediate response that ends the request, if one is due.
    pub response: Option<(u16, Option<String>)>,
    /// The provider hint header value to set, if any.
    pub provider_hint: Option<String>,
}

/// The per-request state, created at ingress and dropped when the response
/// is complete.
#[derive(Debug)]
pub struct StreamContext {
    pub context_id: u32,
    pub tool_calls: Option<Vec<ToolCall>>,
    pub tool_call_response: Option<String>,
    pub arch_state: Option<String>,
    pub request_body_size: usize,
    pub user_prompt: Option<Message>,
    pub streaming_response: bool,
    pub is_chat_completions_request: bool,
    pub chat_completions_request: Option<ChatCompletionsRequest>,
    pub request_id: Option<String>,
    pub traceparent: Option<String>,
    pub agent_index: Option<usize>,
    pub start_upstream_llm_request_time: u128,
    pub time_to_first_token: Option<u128>,
    pub arch_fc_response: Option<String>,
    pub fc_model_name: Option<String>,
}

impl StreamContext {
    /// A fresh per-request state.
    pub fn new(context_id: u32) -> (r: StreamContext)
        ensures
            r.context_id == context_id,
            r.tool_calls is None,
            r.tool_call_response is None,
            r.arch_state is None,
            r.request_body_size == 0,
            r.user_prompt is None,
            !r.streaming_response,
            !r.is_chat_completions_request,
            r.chat_completions_request is None,
            r.request_id is None,
            r.traceparent is None,
            r.agent_index is None,
            r.start_upstream_llm_request_time == 0,
            r.time_to_first_token is None,
            r.arch_fc_response is None,
            r.fc_model_name is None,
    {
        StreamContext {
            context_id,
            tool_calls: None,
            tool_call_response: None,
            arch_state: None,
            request_body_size: 0,
            user_prompt: None,
            streaming_response: false,
            is_chat_completions_request: false,
            chat_completions_request: None,
            request_id: None,
            traceparent: None,
            agent_index: None,
            start_upstream_llm_request_time: 0,
            time_to_first_token: None,
            arch_fc_response: None,
            fc_model_name: None,
        }
    }

    /// Ingress decisions from the request head: health checks answer at
    /// once; the agent-orchestrator hint requires a single endpoint; the
    /// target agent comes from the `x-agent-name` header, or is the only
    /// configured agent, and anything else is rejected.
    pub fn on_http_request_headers(
        &mut self,
        path: &str,
        agent_header: &Option<String>,
        request_id: Option<String>,
        traceparent: Option<String>,
        config: &GatewayConfig,
    ) -> (r: HeadersOutcome)
        ensures
            final(self).request_id == request_id,
            final(self).traceparent == traceparent,
            final(self).is_chat_completions_request == (path@ == "/v1/chat/completions"@),
            r.provider_hint matches Some(h) ==> config.overrides matches Some(o)
                && o.use_agent_orchestrator == Some(true) && config.endpoints@.len() == 1
                && h@ == config.endpoints@[0].name@,
            path@ == "/healthz"@ ==> r.response == Some((200u16, None::<String>)),
            (path@ != "/healthz"@ && r.response is None) ==> (match *agent_header {
                Some(h) => final(self).agent_index matches Some(j) && j < config.agents@.len()
                    && config.agents@[j as int].name@ == h@,
                None => final(self).agent_index == Some(0usize) && config.agents@.len() == 1,
            }),
            (path@ != "/healthz"@ && agent_header is None && config.agents@.len() != 1)
                ==> r.response is Some,
            (path@ != "/healthz"@ && !(config.overrides matches Some(o3)
                && o3.use_agent_orchestrator == Some(true) && config.endpoints@.len() != 1)) ==> (
            match *agent_header {
                Some(h) => (forall|j: int|
                    0 <= j < config.agents@.len() ==> (#[trigger] config.agents@[j]).name@ != h@)
                    ==> ({
                    &&& r.response matches Some(resp)
                    &&& resp.0 == 500
                }),
                None => config.agents@.len() != 1 ==> ({
                    &&& r.response matches Some(resp)
                    &&& resp.0 == 400
                }),
            }),
            (path@ != "/healthz"@ && !(config.overrides matches Some(o2)
                && o2.use_agent_orchestrator == Some(true) && config.endpoints@.len() != 1) && (
            match *agent_header {
                Some(h) => exists|j: int|
                    0 <= j < config.agents@.len() && (#[trigger] config.agents@[j]).name@ == h@,
                None => config.agents@.len() == 1,
            })) ==> r.response is None,
    {
        self.request_id = request_id;
        self.traceparent = traceparent;
        self.is_chat_completions_request = crate::strkit::str_eq(path, "/v1/chat/completions");
        if crate::strkit::str_eq(path, "/healthz") {
            return HeadersOutcome { response: Some((200, None)), provider_hint: None };
        }
        let mut provider_hint: Option<String> = None;
        match &config.overrides {
            Some(o) => match o.use_agent_orchestrator {
                Some(true) => {
                    if config.endpoints.len() == 1 {
                        provider_hint = Some(config.endpoints[0].name.clone());
                    } else {
                        let e = ServerError::LogicError(
                            String::from_str(
                                "need a single endpoint when use_agent_orchestrator is set",
                            ),
                        );
                        return HeadersOutcome {
                            response: Some((e.status(), Some(e.message()))),
                            provider_hint: None,
                        };
                    }
                },
                _ => {},
            },
            None => {},
        }
        match agent_header {
            Some(h) => match find_agent(&config.agents, h.as_str()) {
                Some(j) => {
                    self.agent_index = Some(j);
                },
                None => {
                    let e = ServerError::LogicError(String::from_str("agent not found in config"));
                    return HeadersOutcome {
                        response: Some((e.status(), Some(e.message()))),
                        provider_hint,
                    };
                },
            },
            None => {
                if config.agents.len() == 1 {
                    self.agent_index = Some(0);
                } else {
                    return HeadersOutcome {
                        response: Some(
                            (
                                400,
                                Some(
                                    String::from_str(
                                        "multiple agents found in config and no agent name in request header",
                                    ),
                                ),
                            ),
                        ),
                        provider_hint,
                    };
                }
            },
        }
        HeadersOutcome { response: None, provider_hint }
    }
}

/// The tools an agent declares, resolved through the registry in order;
/// names the registry does not know are skipped, never an error.
pub open spec fn spec_resolve_tools(names: Seq<String>, tools: Seq<Tool>) -> Seq<
    crate::chat::ChatCompletionToolV,
>
    decreases names.len(),
{
    if names.len() == 0 {
        Seq::empty()
    } else {
        let rest = spec_resolve_tools(names.drop_first(), tools);
        match spec_find_tool(tools, names[0]@) {
            Some(t) => seq![tool_encoding_v(t)] + rest,
            None => rest,
        }
    }
}

/// The first registry tool with the given name.
pub open spec fn spec_find_tool(tools: Seq<Tool>, name: Seq<char>) -> Option<Tool>
    decreases tools.len(),
{
    if tools.len() == 0 {
        None
    } else if tools[0].name@ == name {
        Some(tools[0])
    } else {
        spec_find_tool(tools.drop_first(), name)
    }
}

/// The OpenAI-tool encoding of a registry tool.
pub open spec fn tool_encoding_v(t: Tool) -> crate::chat::ChatCompletionToolV {
    crate::chat::ChatCompletionToolV {
        name: t.name@,
        description: t.description@,
        parameters: match t.parameters {
            Some(ps) => ps@.map_values(|p: crate::templater::Parameter| p@),
            None => Seq::empty(),
        },
    }
}

/// Resolve the agent's declared tool names through the registry, in order.
pub fn resolve_agent_tools(names: &Vec<String>, tools: &Vec<Tool>) -> (r: Vec<ChatCompletionTool>)
    ensures
        r@.map_values(|t: ChatCompletionTool| t@) == spec_resolve_tools(names@, tools@),
{
    let mut out: Vec<ChatCompletionTool> = Vec::new();
    let mut i: usize = 0;
    proof {
        assert(names@.skip(0) =~= names@);
        assert(out@.map_values(|t: ChatCompletionTool| t@) + spec_resolve_tools(names@, tools@)
            =~= spec_resolve_tools(names@, tools@));
    }
    while i < names.len()
        invariant
            i <= names@.len(),
            out@.map_values(|t: ChatCompletionTool| t@) + spec_resolve_tools(
                names@.skip(i as int),
                tools@,
            ) == spec_resolve_tools(names@, tools@),
        decreases names@.len() - i,
    {
        let ghost tail = names@.skip(i as int);
        proof {
            assert(tail[0] == names@[i as int]);
            assert(tail.drop_first() =~= names@.skip(i + 1));
        }
        match find_tool_value(tools, names[i].as_str()) {
            Some(t) => {
                let ghost out_before = out@;
                out.push(t);
                proof {
                    assert(out@.map_values(|t: ChatCompletionTool| t@) =~= out_before.map_values(
                        |t: ChatCompletionTool| t@,
                    ).push(tool_encoding_v(spec_find_tool(tools@, names@[i as int]@).unwrap())));
                }
            },
            None => {},
        }
        i = i + 1;
    }
    proof {
        assert(names@.skip(names@.len() as int) =~= Seq::<String>::empty());
        assert(out@.map_values(|t: ChatCompletionTool| t@) + Seq::<
            crate::chat::ChatCompletionToolV,
        >::empty() =~= out@.map_values(|t: ChatCompletionTool| t@));
    }
    out
}

/// The registry tool with the given name, as its OpenAI-tool encoding.
pub fn find_tool_value(tools: &Vec<Tool>, name: &str) -> (r: Option<ChatCompletionTool>)
    ensures
        match spec_find_tool(tools@, name@) {
            Some(t) => r matches Some(c) && c@ == tool_encoding_v(t),
            None => r is None,
        },
{
    let mut i: usize = 0;
    proof {
        assert(tools@.skip(0) =~= tools@);
    }
    while i < tools.len()
        invariant
            i <= tools@.len(),
            spec_find_tool(tools@, name@) == spec_find_tool(tools@.skip(i as int), name@),
        decreases tools@.len() - i,
    {
        let ghost tail = tools@.skip(i as int);
        proof {
            assert(tail[0] == tools@[i as int]);
            assert(tail.drop_first() =~= tools@.skip(i + 1));
        }
        if crate::strkit::str_eq(tools[i].name.as_str(), name) {
            let t = &tools[i];
            let parameters = match &t.parameters {
                Some(ps) => crate::chat::duplicate_params(ps),
                None => Vec::new(),
            };
            let c = ChatCompletionTool {
                name: t.name.clone(),
                description: t.description.clone(),
                parameters,
            };
            proof {
                assert(c@ =~= tool_encoding_v(tools@[i as int]));
            }
            return Some(c);
        }
        i = i + 1;
    }
    None
}


/// `m` is the last user-role message of the list.
pub open spec fn spec_is_last_user(ms: Seq<MessageV>, m: MessageV) -> bool {
    exists|j: int|
        0 <= j < ms.len() && ms[j] == m && crate::chat::is_user_message(m) && (forall|k: int|
            j < k < ms.len() ==> !crate::chat::is_user_message(#[trigger] ms[k]))
}

/// The `x-arch-state` blob a request's metadata carries, if any.
pub open spec fn spec_arch_state(md: Option<Seq<(Seq<char>, Seq<char>)>>) -> Option<Seq<char>> {
    match md {
        Some(m) => spec_lookup(m, "x-arch-state"@),
        None => None,
    }
}

/// The metadata handed to the function-calling model: the request's own,
/// with `optimize_context_window` set when the configuration asks for it.
pub open spec fn spec_fc_metadata(
    md: Option<Seq<(Seq<char>, Seq<char>)>>,
    optimize: bool,
) -> Option<Seq<(Seq<char>, Seq<char>)>> {
    if optimize {
        match md {
            Some(m) => Some(
                crate::templater::spec_upsert(m, "optimize_context_window"@, "true"@),
            ),
            None => Some(seq![("optimize_context_window"@, "true"@)]),
        }
    } else {
        md
    }
}

/// The headers of the function-calling dispatch.
pub open spec fn spec_fc_headers(
    request_id: Option<Seq<char>>,
    traceparent: Option<Seq<char>>,
) -> Seq<(Seq<char>, Seq<char>)> {
    seq![
        ("x-arch-upstream-host"@, "openai"@),
        (":authority"@, "openai"@),
        ("content-type"@, "application/json"@),
    ] + (match request_id {
        Some(r) => seq![("x-request-id"@, r)],
        None => Seq::empty(),
    }) + (match traceparent {
        Some(t) => seq![("traceparent"@, t)],
        None => Seq::empty(),
    })
}

impl StreamContext {
    /// The function-calling phase: derive the request addressed to the
    /// function-calling model from the parsed client request. A request
    /// without a user message passes through without orchestration.
    pub fn on_chat_request(&mut self, req: ChatCompletionsRequest, config: &GatewayConfig) -> (r:
        RequestAction)
        requires
            old(self).agent_index matches Some(j) && j < config.agents@.len(),
            old(self).chat_completions_request is None,
        ensures
            final(self).streaming_response == req@.stream,
            crate::chat::opt_view(final(self).arch_state) == spec_arch_state(req@.metadata),
            final(self).agent_index == old(self).agent_index,
            (forall|k: int|
                0 <= k < req@.messages.len() ==> !crate::chat::is_user_message(
                    #[trigger] req@.messages[k],
                )) ==> r is Forward,
            (exists|k: int|
                0 <= k < req@.messages.len() && crate::chat::is_user_message(
                    #[trigger] req@.messages[k],
                )) ==> r is Dispatch,
            r is Forward ==> final(self).chat_completions_request is None,
            r matches RequestAction::Dispatch(cs) ==> ({
                let agent = config.agents@[old(self).agent_index.unwrap() as int];
                let optimize = match config.overrides {
                    Some(o) => o.optimize_context_window == Some(true),
                    None => false,
                };
                &&& cs.body matches OutboundPayload::Chat(fc) && ({
                    &&& fc@.stream == false
                    &&& fc@.model == req@.model
                    &&& fc@.stream_options == req@.stream_options
                    &&& fc@.messages == (match crate::chat::opt_view(
                        agent.agent_orchestrator_prompt,
                    ) {
                        Some(p) => seq![system_message_v(p)] + req@.messages,
                        None => req@.messages,
                    })
                    &&& fc@.tools matches Some(ts) && ts == (match agent.tools {
                        Some(ns) => spec_resolve_tools(ns@, config.tools@),
                        None => Seq::empty(),
                    })
                    &&& fc@.metadata == spec_fc_metadata(req@.metadata, optimize)
                })
                &&& cs.context.response_handler_type == ResponseHandlerType::ArchFC
                &&& cs.context.request_body@ == req@
                &&& cs.context.agent_index == old(self).agent_index
                &&& cs.timeout_ms == 5000
                &&& cs.method@ == "POST"@
                &&& cs.path@ == "/v1/chat/completions"@
                &&& pairs_view(cs.headers@) == spec_fc_headers(
                    crate::chat::opt_view(old(self).request_id),
                    crate::chat::opt_view(old(self).traceparent),
                )
                &&& final(self).chat_completions_request matches Some(q) && q@ == req@
                &&& final(self).user_prompt matches Some(um) && spec_is_last_user(
                    req@.messages,
                    um@,
                ) && crate::chat::opt_view(cs.context.user_message) == um@.content
            }),
    {
        let ghost req_v = req@;
        self.arch_state = match &req.metadata {
            Some(md) => crate::templater::lookup_param(md, &String::from_str("x-arch-state")),
            None => None,
        };
        self.streaming_response = req.stream;
        let user_idx = match crate::chat::last_user_index(&req.messages) {
            Some(j) => j,
            None => {
                proof {
                    assert forall|k: int|
                        0 <= k < req_v.messages.len() implies !crate::chat::is_user_message(
                        #[trigger] req_v.messages[k],
                    ) by {
                        assert(req_v.messages[k] == req.messages@[k]@);
                    }
                }
                return RequestAction::Forward;
            },
        };
        proof {
            assert(req_v.messages[user_idx as int] == req.messages@[user_idx as int]@);
            assert(crate::chat::is_user_message(req_v.messages[user_idx as int]));
            assert(spec_is_last_user(req_v.messages, req_v.messages[user_idx as int])) by {
                assert forall|k: int|
                    user_idx < k < req_v.messages.len() implies !crate::chat::is_user_message(
                    #[trigger] req_v.messages[k],
                ) by {
                    assert(req_v.messages[k] == req.messages@[k]@);
                }
            }
        }
        let user_msg = req.messages[user_idx].duplicate();
        let user_content: Option<String> = match &user_msg.content {
            Some(c) => Some(c.clone()),
            None => None,
        };
        self.user_prompt = Some(user_msg);

        let agent_idx = match self.agent_index {
            Some(j) => j,
            None => {
                let e = ServerError::LogicError(String::from_str("no agent resolved"));
                return RequestAction::Respond { status: e.status(), body: Some(e.message()) };
            },
        };
        let agent = &config.agents[agent_idx];
        let tools: Vec<ChatCompletionTool> = match &agent.tools {
            Some(ns) => resolve_agent_tools(ns, &config.tools),
            None => Vec::new(),
        };

        let optimize = match &config.overrides {
            Some(o) => match o.optimize_context_window {
                Some(true) => true,
                _ => false,
            },
            None => false,
        };
        let metadata: Option<Vec<(String, String)>> = if optimize {
            match &req.metadata {
                Some(md) => Some(
                    crate::templater::upsert_pair(md, "optimize_context_window", "true"),
                ),
                None => {
                    let mut md: Vec<(String, String)> = Vec::new();
                    md.push(
                        (String::from_str("optimize_context_window"), String::from_str("true")),
                    );
                    proof {
                        assert(pairs_view(md@) =~= seq![("optimize_context_window"@, "true"@)]);
                    }
                    Some(md)
                },
            }
        } else {
            match &req.metadata {
                Some(md) => Some(crate::chat::duplicate_pairs(md)),
                None => None,
            }
        };

        let fc_messages: Vec<Message> = match &agent.agent_orchestrator_prompt {
            Some(p) => {
                let mut ms: Vec<Message> = Vec::new();
                ms.push(
                    Message {
                        role: String::from_str("system"),
                        content: Some(p.clone()),
                        model: None,
                        tool_calls: None,
                        tool_call_id: None,
                    },
                );
                let mut rest = duplicate_messages(&req.messages);
                let ghost head_v = msgs_view(ms@);
                let ghost rest_v = msgs_view(rest@);
                ms.append(&mut rest);
                proof {
                    assert(msgs_view(ms@) =~= head_v + rest_v);
                    assert(head_v =~= seq![system_message_v(p@)]);
                }
                ms
            },
            None => duplicate_messages(&req.messages),
        };

        let fc_request = ChatCompletionsRequest {
            model: req.model.clone(),
            messages: fc_messages,
            tools: Some(tools),
            stream: false,
            stream_options: req.stream_options,
            metadata,
        };

        let mut headers: Vec<(String, String)> = Vec::new();
        headers.push((String::from_str("x-arch-upstream-host"), String::from_str("openai")));
        headers.push((String::from_str(":authority"), String::from_str("openai")));
        headers.push((String::from_str("content-type"), String::from_str("application/json")));
        match &self.request_id {
            Some(rid) => {
                headers.push((String::from_str("x-request-id"), rid.clone()));
            },
            None => {},
        }
        match &self.traceparent {
            Some(tp) => {
                headers.push((String::from_str("traceparent"), tp.clone()));
            },
            None => {},
        }
        proof {
            assert(pairs_view(headers@) =~= spec_fc_headers(
                crate::chat::opt_view(self.request_id),
                crate::chat::opt_view(self.traceparent),
            ));
        }

        let context = StreamCallContext {
            response_handler_type: ResponseHandlerType::ArchFC,
            user_message: user_content,
            prompt_target_name: None,
            request_body: req.duplicate(),
            upstream_cluster: Some(String::from_str("arch_internal")),
            upstream_cluster_path: Some(String::from_str("/function_calling")),
            agent_index: self.agent_index,
        };
        self.chat_completions_request = Some(req);

        RequestAction::Dispatch(
            CallSpec {
                cluster: String::from_str("arch_listener_llm"),
                path: String::from_str("/v1/chat/completions"),
                method: String::from_str("POST"),
                headers,
                body: OutboundPayload::Chat(fc_request),
                timeout_ms: 5000,
                context,
            },
        )
    }
}


/// The view of a plain user message carrying the given text.
pub open spec fn user_message_v(content: Seq<char>) -> MessageV {
    MessageV {
        role: "user"@,
        content: Some(content),
        model: None,
        tool_calls: None,
        tool_call_id: None,
    }
}

/// The method token of an outbound tool call.
pub fn method_text(m: &HttpMethod) -> (r: String)
    ensures
        r@ == (match *m {
            HttpMethod::Get => "GET"@,
            HttpMethod::Post => "POST"@,
        }),
{
    match m {
        HttpMethod::Get => String::from_str("GET"),
        HttpMethod::Post => String::from_str("POST"),
    }
}

/// The base headers of a tool-endpoint dispatch, before the endpoint's own
/// fixed headers override them.
pub open spec fn spec_tool_base_headers(
    endpoint_name: Seq<char>,
    request_id: Option<Seq<char>>,
    traceparent: Option<Seq<char>>,
) -> Seq<(Seq<char>, Seq<char>)> {
    seq![
        ("x-arch-upstream-host"@, endpoint_name),
        (":authority"@, endpoint_name),
        ("content-type"@, "application/json"@),
        ("x-envoy-max-retries"@, "3"@),
        ("x-envoy-upstream-rq-timeout-ms"@, "5000"@),
    ] + (match request_id {
        Some(r) => seq![("x-request-id"@, r)],
        None => Seq::empty(),
    }) + (match traceparent {
        Some(t) => seq![("traceparent"@, t)],
        None => Seq::empty(),
    })
}

/// The parsed tool-call arguments, as the templater receives them: absent
/// arguments are an empty list; argument text that is not a JSON object is
/// rejected.
pub open spec fn spec_sched_args(args: Option<Seq<char>>) -> Option<
    Seq<(Seq<char>, crate::templater::ParamValueV)>,
> {
    match args {
        None => Some(Seq::empty()),
        Some(a) => match crate::jsonval::parsed_json(a) {
            Some(j) => if j is Obj {
                Some(crate::parse::spec_args_of_json(j->Obj_0))
            } else {
                None
            },
            None => None,
        },
    }
}

/// Each extra pair bound in turn, later pairs overriding earlier values.
pub open spec fn spec_apply_upserts(
    hs: Seq<(Seq<char>, Seq<char>)>,
    extra: Seq<(Seq<char>, Seq<char>)>,
) -> Seq<(Seq<char>, Seq<char>)>
    decreases extra.len(),
{
    if extra.len() == 0 {
        hs
    } else {
        spec_apply_upserts(
            crate::templater::spec_upsert(hs, extra[0].0, extra[0].1),
            extra.drop_first(),
        )
    }
}

/// Bind every extra pair in turn, overriding earlier values on collision.
pub fn apply_upserts(headers: Vec<(String, String)>, extra: &Vec<(String, String)>) -> (r: Vec<(String, String)>)
    ensures
        pairs_view(r@) == spec_apply_upserts(pairs_view(headers@), pairs_view(extra@)),
{
    let ghost ev = pairs_view(extra@);
    let mut out = headers;
    let mut i: usize = 0;
    proof {
        assert(ev.skip(0) =~= ev);
    }
    while i < extra.len()
        invariant
            i <= extra@.len(),
            ev == pairs_view(extra@),
            spec_apply_upserts(pairs_view(out@), ev.skip(i as int)) == spec_apply_upserts(
                pairs_view(headers@),
                ev,
            ),
        decreases extra@.len() - i,
    {
        let ghost tail = ev.skip(i as int);
        proof {
            assert(tail[0] == ev[i as int]);
            assert(tail.drop_first() =~= ev.skip(i + 1));
        }
        let kv = &extra[i];
        out = crate::templater::upsert_pair(&out, kv.0.as_str(), kv.1.as_str());
        i = i + 1;
    }
    proof {
        assert(ev.skip(extra@.len() as int) =~= Seq::<(Seq<char>, Seq<char>)>::empty());
    }
    out
}

impl StreamContext {
    /// The function-calling model's reply. No tool call means a direct
    /// answer: the reply goes back to the client, as two synthetic SSE
    /// frames when the client streams, verbatim otherwise. A tool call
    /// moves the flow to the tool-invocation phase.
    pub fn arch_fc_response_handler(
        &mut self,
        resp: ChatCompletionsResponse,
        raw_body: String,
        callout_context: StreamCallContext,
        config: &GatewayConfig,
    ) -> (r: RequestAction)
        ensures
            resp@.choices.len() != 1 ==> ({
                &&& r matches RequestAction::Respond { status, body }
                &&& status == 500
            }),
            (resp@.choices.len() == 1 && (match resp@.choices[0].message.tool_calls {
                Some(ts) => ts.len() == 0,
                None => true,
            })) ==> ({
                &&& final(self).tool_calls is None
                &&& !old(self).streaming_response ==> r == RequestAction::Respond {
                    status: 200u16,
                    body: Some(raw_body),
                }
                &&& old(self).streaming_response ==> ({
                    &&& r matches RequestAction::Respond { status, body }
                    &&& status == 200
                    &&& body matches Some(b) && b@ == crate::sse::spec_sse_frame(
                        crate::sse::spec_chunk_json(
                            resp@.model,
                            Some("assistant"@),
                            crate::chat::opt_view(old(self).arch_fc_response),
                        ),
                    ) + crate::sse::spec_sse_frame(
                        crate::sse::spec_chunk_json(
                            resp@.model + "-Chat"@,
                            Some("assistant"@),
                            Some(
                                match resp@.choices[0].message.content {
                                    Some(c) => c,
                                    None => Seq::empty(),
                                },
                            ),
                        ),
                    )
                })
            }),
            (resp@.choices.len() == 1 && (match resp@.choices[0].message.tool_calls {
                Some(ts) => ts.len() > 0,
                None => false,
            })) ==> ({
                &&& final(self).tool_calls matches Some(ts)
                &&& ts@.map_values(|t: ToolCall| t@) == resp@.choices[0].message.tool_calls.unwrap()
            }),
    {
        if resp.choices.len() == 0 {
            let e = ServerError::LogicError(
                String::from_str("function-calling model returned no choices"),
            );
            return RequestAction::Respond { status: e.status(), body: Some(e.message()) };
        }
        let ghost resp_v = resp@;
        let mut resp = resp;
        let choice = match resp.choices.pop() {
            Some(c) => c,
            None => {
                // unreachable: the list was checked non-empty above
                proof {
                    assert(false);
                }
                return RequestAction::Forward;
            },
        };
        proof {
            assert(resp.choices@.len() + 1 == resp_v.choices.len());
        }
        if resp.choices.len() > 0 {
            // more than one choice is not supported: the reply must be
            // unambiguous before a tool call is honored
            let e = ServerError::LogicError(
                String::from_str("function-calling model returned multiple choices"),
            );
            return RequestAction::Respond { status: e.status(), body: Some(e.message()) };
        }
        proof {
            assert(choice@ == resp_v.choices[0]);
        }
        let message = choice.message;
        let has_tool_calls = match &message.tool_calls {
            Some(ts) => ts.len() > 0,
            None => false,
        };
        if !has_tool_calls {
            self.tool_calls = None;
            if self.streaming_response {
                let content: String = match &message.content {
                    Some(c) => c.clone(),
                    None => String::new(),
                };
                let mut chat_model = resp.model.clone();
                chat_model.append("-Chat");
                let arch_fc_buffer: Option<String> = match &self.arch_fc_response {
                    Some(b) => Some(b.clone()),
                    None => None,
                };
                let mut chunks: Vec<SyntheticChunk> = Vec::new();
                chunks.push(
                    SyntheticChunk {
                        model: resp.model.clone(),
                        role: Some(String::from_str("assistant")),
                        content: arch_fc_buffer,
                    },
                );
                chunks.push(
                    SyntheticChunk {
                        model: chat_model,
                        role: Some(String::from_str("assistant")),
                        content: Some(content),
                    },
                );
                let body = to_server_events(&chunks);
                proof {
                    reveal_with_fuel(crate::sse::spec_server_events, 4);
                    assert(chunks@.len() == 2);
                    assert(chunks@[0].model@ == resp_v.model);
                    assert(crate::chat::opt_view(chunks@[0].role) == Some("assistant"@));
                    assert(crate::chat::opt_view(chunks@[0].content) == crate::chat::opt_view(
                        old(self).arch_fc_response,
                    ));
                    assert(chunks@[1].model@ == resp_v.model + "-Chat"@);
                    assert(crate::chat::opt_view(chunks@[1].role) == Some("assistant"@));
                    assert(crate::chat::opt_view(chunks@[1].content) == Some(
                        match resp_v.choices[0].message.content {
                            Some(c) => c,
                            None => Seq::empty(),
                        },
                    ));
                    assert(chunks@.drop_first()[0] == chunks@[1]);
                    assert(chunks@.drop_first().drop_first() =~= Seq::<SyntheticChunk>::empty());
                    assert(body@ =~= crate::sse::spec_sse_frame(
                        crate::sse::spec_chunk_json(
                            resp_v.model,
                            Some("assistant"@),
                            crate::chat::opt_view(old(self).arch_fc_response),
                        ),
                    ) + crate::sse::spec_sse_frame(
                        crate::sse::spec_chunk_json(
                            resp_v.model + "-Chat"@,
                            Some("assistant"@),
                            Some(
                                match resp_v.choices[0].message.content {
                                    Some(c) => c,
                                    None => Seq::empty(),
                                },
                            ),
                        ),
                    ));
                }
                return RequestAction::Respond { status: 200, body: Some(body) };
            }
            return RequestAction::Respond { status: 200, body: Some(raw_body) };
        }
        let tool_calls = match message.tool_calls {
            Some(ts) => ts,
            None => {
                // unreachable: this branch runs only when tool calls exist
                proof {
                    assert(false);
                }
                Vec::new()
            },
        };
        let mut ctx = callout_context;
        ctx.prompt_target_name = Some(tool_calls[0].function.name.clone());
        self.tool_calls = Some(tool_calls);
        self.fc_model_name = Some(resp.model);
        self.schedule_api_call_request(ctx, config)
    }

    /// The tool-invocation phase: resolve the selected tool in the
    /// registry, parse its arguments, compute the outbound path and body,
    /// and dispatch the call. A tool the registry does not know fails the
    /// request; unreadable arguments are the caller's fault.
    pub fn schedule_api_call_request(
        &mut self,
        callout_context: StreamCallContext,
        config: &GatewayConfig,
    ) -> (r: RequestAction)
        ensures
            final(self).tool_calls == old(self).tool_calls,
            !(old(self).tool_calls matches Some(ts) && ts@.len() > 0) ==> ({
                &&& r matches RequestAction::Respond { status, body }
                &&& status == 500
            }),
            (old(self).tool_calls matches Some(ts) && ts@.len() > 0 && spec_find_tool(
                config.tools@,
                ts@[0]@.function.name,
            ) is None) ==> ({
                &&& r matches RequestAction::Respond { status, body }
                &&& status == 500
            }),
            (old(self).tool_calls matches Some(ts) && ts@.len() > 0 && spec_find_tool(
                config.tools@,
                ts@[0]@.function.name,
            ) is Some) ==> ({
                let ts0 = old(self).tool_calls.unwrap()@[0]@;
                let tool = spec_find_tool(config.tools@, ts0.function.name).unwrap();
                match tool.endpoint {
                    None => ({
                        &&& r matches RequestAction::Respond { status, body }
                        &&& status == 500
                    }),
                    Some(ep) => (match spec_sched_args(ts0.function.arguments) {
                        None => ({
                            &&& r matches RequestAction::Respond { status, body }
                            &&& status == 400
                        }),
                        Some(argsv) => (match crate::tools::spec_compute_request(
                            (match ep.path {
                                Some(p) => p@,
                                None => "/"@,
                            }),
                            argsv,
                            (match tool.parameters {
                                Some(ps) => crate::templater::decls_view(ps@),
                                None => Seq::empty(),
                            }),
                            (match ep.method {
                                Some(m) => m,
                                None => HttpMethod::Get,
                            }),
                        ) {
                            Ok(pb) => ({
                                &&& r matches RequestAction::Dispatch(cs)
                                &&& cs.path@ == pb.0
                                &&& (match pb.1 {
                                    Some(bt) => cs.body matches OutboundPayload::Text(x) && x@
                                        == bt,
                                    None => cs.body is Empty,
                                })
                            }),
                            Err(_) => ({
                                &&& r matches RequestAction::Respond { status, body }
                                &&& status == 400
                            }),
                        }),
                    }),
                }
            }),
            r matches RequestAction::Dispatch(cs) ==> (old(self).tool_calls matches Some(ts)
                && ts@.len() > 0 && spec_find_tool(config.tools@, ts@[0]@.function.name) is Some
                && ({
                let tool = spec_find_tool(config.tools@, ts@[0]@.function.name).unwrap();
                &&& tool.endpoint is Some
                &&& cs.context.response_handler_type == ResponseHandlerType::FunctionCall
                &&& cs.context.upstream_cluster matches Some(c) && c@
                    == tool.endpoint.unwrap().name@
                &&& cs.context.upstream_cluster_path matches Some(p) && p@ == cs.path@
                &&& cs.timeout_ms == 5000
                &&& cs.cluster@ == "arch_internal"@
                &&& cs.method@ == (match tool.endpoint.unwrap().method {
                    Some(HttpMethod::Post) => "POST"@,
                    _ => "GET"@,
                })
                &&& pairs_view(cs.headers@) == spec_apply_upserts(
                    spec_tool_base_headers(
                        tool.endpoint.unwrap().name@,
                        crate::chat::opt_view(old(self).request_id),
                        crate::chat::opt_view(old(self).traceparent),
                    ),
                    match tool.endpoint.unwrap().http_headers {
                        Some(hs) => pairs_view(hs@),
                        None => Seq::empty(),
                    },
                )
            })),
    {
        let name: String = match &self.tool_calls {
            Some(ts) => {
                if ts.len() == 0 {
                    let e = ServerError::LogicError(
                        String::from_str("no tool call to schedule"),
                    );
                    return RequestAction::Respond { status: e.status(), body: Some(e.message()) };
                }
                ts[0].function.name.clone()
            },
            None => {
                let e = ServerError::LogicError(String::from_str("no tool call to schedule"));
                return RequestAction::Respond { status: e.status(), body: Some(e.message()) };
            },
        };
        let arguments: Option<String> = match &self.tool_calls {
            Some(ts) => match &ts[0].function.arguments {
                Some(a) => Some(a.clone()),
                None => None,
            },
            None => None,
        };
        let ghost ts0 = old(self).tool_calls.unwrap()@[0]@;
        proof {
            assert(crate::chat::opt_view(arguments) == ts0.function.arguments);
            assert(name@ == ts0.function.name);
        }
        let tool = match find_tool_ref(&config.tools, name.as_str()) {
            Some(t) => t,
            None => {
                let e = ServerError::LogicError(
                    String::from_str("tool not found in the registry"),
                );
                return RequestAction::Respond { status: e.status(), body: Some(e.message()) };
            },
        };
        let endpoint = match &tool.endpoint {
            Some(ep) => ep,
            None => {
                let e = ServerError::LogicError(String::from_str("tool has no endpoint"));
                return RequestAction::Respond { status: e.status(), body: Some(e.message()) };
            },
        };
        let endpoint_path: String = match &endpoint.path {
            Some(p) => p.clone(),
            None => String::from_str("/"),
        };
        let http_method: HttpMethod = match &endpoint.method {
            Some(m) => *m,
            None => HttpMethod::Get,
        };
        let prompt_target_params: Vec<crate::templater::Parameter> = match &tool.parameters {
            Some(ps) => crate::chat::duplicate_params(ps),
            None => Vec::new(),
        };
        let tool_params: Vec<(String, crate::templater::ParamValue)> = match &arguments {
            Some(args) => match crate::parse::parse_tool_args(args.as_str()) {
                Ok(ps) => ps,
                Err(why) => {
                    proof {
                        assert(spec_sched_args(ts0.function.arguments) is None);
                    }
                    let e = ServerError::Deserialization(why);
                    return RequestAction::Respond { status: 400, body: Some(e.message()) };
                },
            },
            None => Vec::new(),
        };
        proof {
            assert(spec_sched_args(ts0.function.arguments) matches Some(argsv) && argsv
                == crate::templater::args_view(tool_params@)) by {
                if ts0.function.arguments is None {
                    assert(crate::templater::args_view(tool_params@) =~= Seq::<
                        (Seq<char>, crate::templater::ParamValueV),
                    >::empty());
                }
            }
        }
        proof {
            assert(endpoint_path@ == (match tool.endpoint.unwrap().path {
                Some(p) => p@,
                None => "/"@,
            }));
            assert(crate::templater::decls_view(prompt_target_params@) == (
            match tool.parameters {
                Some(ps) => crate::templater::decls_view(ps@),
                None => Seq::empty(),
            })) by {
                if tool.parameters is None {
                    assert(crate::templater::decls_view(prompt_target_params@) =~= Seq::<
                        crate::templater::ParameterV,
                    >::empty());
                }
            }
        }
        let (path, api_call_body) = match compute_request_path_body(
            endpoint_path.as_str(),
            &tool_params,
            &prompt_target_params,
            &http_method,
        ) {
            Ok(pb) => pb,
            Err(why) => {
                let e = ServerError::BadRequest { why };
                return RequestAction::Respond { status: 400, body: Some(e.message()) };
            },
        };

        let mut headers: Vec<(String, String)> = Vec::new();
        headers.push((String::from_str("x-arch-upstream-host"), endpoint.name.clone()));
        headers.push((String::from_str(":authority"), endpoint.name.clone()));
        headers.push((String::from_str("content-type"), String::from_str("application/json")));
        headers.push((String::from_str("x-envoy-max-retries"), String::from_str("3")));
        headers.push(
            (String::from_str("x-envoy-upstream-rq-timeout-ms"), String::from_str("5000")),
        );
        match &self.request_id {
            Some(rid) => {
                headers.push((String::from_str("x-request-id"), rid.clone()));
            },
            None => {},
        }
        match &self.traceparent {
            Some(tp) => {
                headers.push((String::from_str("traceparent"), tp.clone()));
            },
            None => {},
        }
        proof {
            assert(pairs_view(headers@) =~= spec_tool_base_headers(
                tool.endpoint.unwrap().name@,
                crate::chat::opt_view(self.request_id),
                crate::chat::opt_view(self.traceparent),
            ));
        }
        let headers = match &endpoint.http_headers {
            Some(hs) => apply_upserts(headers, hs),
            None => {
                proof {
                    assert(spec_apply_upserts(
                        pairs_view(headers@),
                        Seq::<(Seq<char>, Seq<char>)>::empty(),
                    ) == pairs_view(headers@));
                }
                headers
            },
        };

        let mut ctx = callout_context;
        ctx.upstream_cluster = Some(endpoint.name.clone());
        ctx.upstream_cluster_path = Some(path.clone());
        ctx.agent_index = self.agent_index;
        ctx.response_handler_type = ResponseHandlerType::FunctionCall;

        let body = match api_call_body {
            Some(b) => OutboundPayload::Text(b),
            None => OutboundPayload::Empty,
        };

        RequestAction::Dispatch(
            CallSpec {
                cluster: String::from_str("arch_internal"),
                path,
                method: method_text(&http_method),
                headers,
                body,
                timeout_ms: 5000,
                context: ctx,
            },
        )
    }
}

/// The registry tool with the given name, by reference.
pub fn find_tool_ref<'a>(tools: &'a Vec<Tool>, name: &str) -> (r: Option<&'a Tool>)
    ensures
        match spec_find_tool(tools@, name@) {
            Some(t) => r matches Some(rt) && *rt == t,
            None => r is None,
        },
{
    let mut i: usize = 0;
    proof {
        assert(tools@.skip(0) =~= tools@);
    }
    while i < tools.len()
        invariant
            i <= tools@.len(),
            spec_find_tool(tools@, name@) == spec_find_tool(tools@.skip(i as int), name@),
        decreases tools@.len() - i,
    {
        let ghost tail = tools@.skip(i as int);
        proof {
            assert(tail[0] == tools@[i as int]);
            assert(tail.drop_first() =~= tools@.skip(i + 1));
        }
        if crate::strkit::str_eq(tools[i].name.as_str(), name) {
            return Some(&tools[i]);
        }
        i = i + 1;
    }
    None
}


/// The message list of the final-LLM request: the agent's system prompt,
/// the original messages with orchestration traces removed, and the last
/// message's content extended with the tool's reply.
pub open spec fn spec_final_messages(
    system_prompt: Option<Seq<char>>,
    messages: Seq<MessageV>,
    tool_body: Seq<char>,
) -> Seq<MessageV> {
    let base = match system_prompt {
        Some(p) => seq![system_message_v(p)] + messages.filter(|m: MessageV| keeps_message(m)),
        None => messages.filter(|m: MessageV| keeps_message(m)),
    };
    base.drop_last().push(
        user_message_v(base.last().content.unwrap() + "\ncontext: "@ + tool_body),
    )
}

impl StreamContext {
    /// The tool endpoint's reply. A non-2xx status is surfaced to the
    /// caller with that same status; otherwise the reply body becomes the
    /// context of the final-LLM request, which replaces the inbound body.
    pub fn api_call_response_handler(
        &mut self,
        status: u16,
        body: String,
        callout_context: StreamCallContext,
        config: &GatewayConfig,
    ) -> (r: RequestAction)
        ensures
            !(200 <= status <= 299) ==> ({
                let host = match callout_context.upstream_cluster {
                    Some(h) => h@,
                    None => Seq::empty(),
                };
                let upath = match callout_context.upstream_cluster_path {
                    Some(p) => p@,
                    None => Seq::empty(),
                };
                &&& r matches RequestAction::Respond { status: st, body: b }
                &&& st == status
                &&& b matches Some(m) && m@ == "upstream application error host="@ + host
                    + " path="@ + upath + " status="@ + crate::parse::spec_format_u64(
                    status as u64,
                ) + " body="@ + body@
                &&& *final(self) == *old(self)
            }),
            (200 <= status <= 299) ==> ({
                let sys = match callout_context.agent_index {
                    Some(j) => if j < config.agents@.len() {
                        crate::chat::opt_view(config.agents@[j as int].system_prompt)
                    } else {
                        None
                    },
                    None => None,
                };
                let base = match sys {
                    Some(p) => seq![system_message_v(p)]
                        + callout_context.request_body@.messages.filter(
                        |m: MessageV| keeps_message(m),
                    ),
                    None => callout_context.request_body@.messages.filter(
                        |m: MessageV| keeps_message(m),
                    ),
                };
                &&& final(self).tool_call_response matches Some(t) && t@ == body@
                &&& base.len() == 0 ==> (r matches RequestAction::Respond { status: st, body: b }
                    && st == 400)
                &&& base.len() > 0 ==> ({
                    &&& r matches RequestAction::ResumeWithBody { request }
                    &&& request@.messages == spec_final_messages(
                        sys,
                        callout_context.request_body@.messages,
                        body@,
                    )
                    &&& request@.model == callout_context.request_body@.model
                    &&& request@.stream == callout_context.request_body@.stream
                    &&& request@.stream_options == callout_context.request_body@.stream_options
                    &&& request@.tools is None
                    &&& request@.metadata is None
                })
            }),
    {
        if !(200 <= status && status <= 299) {
            let host: String = match &callout_context.upstream_cluster {
                Some(h) => h.clone(),
                None => String::new(),
            };
            let path: String = match &callout_context.upstream_cluster_path {
                Some(p) => p.clone(),
                None => String::new(),
            };
            let e = ServerError::Upstream {
                host,
                path,
                status: crate::parse::format_u64(status as u64),
                body,
            };
            return RequestAction::Respond { status, body: Some(e.message()) };
        }
        self.tool_call_response = Some(body.clone());

        let system_prompt: Option<String> = match callout_context.agent_index {
            Some(j) => {
                if j < config.agents.len() {
                    match &config.agents[j].system_prompt {
                        Some(p) => Some(p.clone()),
                        None => None,
                    }
                } else {
                    None
                }
            },
            None => None,
        };
        let mut messages = construct_llm_messages(
            &system_prompt,
            &callout_context.request_body.messages,
        );
        let ghost base = msgs_view(messages@);
        let last = match messages.pop() {
            Some(m) => m,
            None => {
                let e = ServerError::NoMessagesFound {
                    why: String::from_str("no user messages found"),
                };
                return RequestAction::Respond { status: 400, body: Some(e.message()) };
            },
        };
        proof {
            assert(msgs_view(messages@) =~= base.drop_last());
            assert(last@ == base.last());
        }
        let mut final_prompt: String = match last.content {
            Some(c) => c,
            None => {
                // unreachable: every constructed message carries content
                proof {
                    assert(base[base.len() - 1].content is Some);
                    assert(false);
                }
                String::new()
            },
        };
        final_prompt.append("\ncontext: ");
        final_prompt.append(body.as_str());
        let ghost messages_before = msgs_view(messages@);
        messages.push(
            Message {
                role: String::from_str("user"),
                content: Some(final_prompt),
                model: None,
                tool_calls: None,
                tool_call_id: None,
            },
        );
        proof {
            assert(msgs_view(messages@) =~= messages_before.push(
                user_message_v(base.last().content.unwrap() + "\ncontext: "@ + body@),
            ));
        }
        let request = ChatCompletionsRequest {
            model: callout_context.request_body.model.clone(),
            messages,
            tools: None,
            stream: callout_context.request_body.stream,
            stream_options: callout_context.request_body.stream_options,
            metadata: None,
        };
        RequestAction::ResumeWithBody { request }
    }
}


impl StreamContext {
    /// The inbound body, once fully buffered. An empty body passes through
    /// without orchestration; a body that does not parse as a
    /// chat-completions envelope is rejected; otherwise the
    /// function-calling phase begins.
    pub fn on_http_request_body(&mut self, body: &str, config: &GatewayConfig) -> (r:
        RequestAction)
        requires
            old(self).agent_index matches Some(j) && j < config.agents@.len(),
            old(self).chat_completions_request is None,
        ensures
            body@.len() == 0 ==> r is Forward,
            (body@.len() > 0 && crate::jsonval::parsed_json(body@) is None) ==> ({
                &&& r matches RequestAction::Respond { status, body: b }
                &&& status == 400
            }),
            (body@.len() > 0 && (match crate::jsonval::parsed_json(body@) {
                Some(j) => crate::parse::spec_request_of(j) is Err,
                None => false,
            })) ==> ({
                &&& r matches RequestAction::Respond { status, body: b }
                &&& status == 400
            }),
            (body@.len() > 0 && (match crate::jsonval::parsed_json(body@) {
                Some(j) => crate::parse::spec_request_of(j) is Ok,
                None => false,
            })) ==> ({
                let req = crate::parse::spec_request_of(
                    crate::jsonval::parsed_json(body@).unwrap(),
                )->Ok_0;
                &&& final(self).streaming_response == req.stream
                &&& crate::chat::opt_view(final(self).arch_state) == spec_arch_state(req.metadata)
                &&& (forall|k: int|
                    0 <= k < req.messages.len() ==> !crate::chat::is_user_message(
                        #[trigger] req.messages[k],
                    )) ==> r is Forward
                &&& (exists|k: int|
                    0 <= k < req.messages.len() && crate::chat::is_user_message(
                        #[trigger] req.messages[k],
                    )) ==> r is Dispatch
                &&& (r matches RequestAction::Dispatch(cs) ==> ({
                    let agent = config.agents@[old(self).agent_index.unwrap() as int];
                    let optimize = match config.overrides {
                        Some(o) => o.optimize_context_window == Some(true),
                        None => false,
                    };
                    &&& cs.body matches OutboundPayload::Chat(fc) && ({
                        &&& fc@.stream == false
                        &&& fc@.model == req.model
                        &&& fc@.stream_options == req.stream_options
                        &&& fc@.messages == (match crate::chat::opt_view(
                            agent.agent_orchestrator_prompt,
                        ) {
                            Some(p) => seq![system_message_v(p)] + req.messages,
                            None => req.messages,
                        })
                        &&& fc@.tools matches Some(ts) && ts == (match agent.tools {
                            Some(ns) => spec_resolve_tools(ns@, config.tools@),
                            None => Seq::empty(),
                        })
                        &&& fc@.metadata == spec_fc_metadata(req.metadata, optimize)
                    })
                    &&& cs.context.response_handler_type == ResponseHandlerType::ArchFC
                    &&& cs.context.request_body@ == req
                    &&& cs.timeout_ms == 5000
                    &&& cs.method@ == "POST"@
                    &&& cs.path@ == "/v1/chat/completions"@
                    &&& pairs_view(cs.headers@) == spec_fc_headers(
                        crate::chat::opt_view(old(self).request_id),
                        crate::chat::opt_view(old(self).traceparent),
                    )
                    &&& final(self).user_prompt matches Some(um) && spec_is_last_user(
                        req.messages,
                        um@,
                    ) && crate::chat::opt_view(cs.context.user_message) == um@.content
                }))
            }),
    {
        if body.is_empty() {
            return RequestAction::Forward;
        }
        self.request_body_size = body.len();
        let req = match crate::parse::chat_request_from_json(body) {
            Ok(req) => req,
            Err(why) => {
                let e = ServerError::Deserialization(why);
                return RequestAction::Respond { status: 400, body: Some(e.message()) };
            },
        };
        self.on_chat_request(req, config)
    }
}


/// Law: the message list handed to the final LLM holds no tool-role
/// message and no assistant message carrying tool calls; the
/// orchestration's own traces never reach the final model.
pub proof fn lemma_final_messages_clean(
    system_prompt: Option<Seq<char>>,
    messages: Seq<MessageV>,
    tool_body: Seq<char>,
)
    requires
        (match system_prompt {
            Some(p) => seq![system_message_v(p)] + messages.filter(
                |m: MessageV| keeps_message(m),
            ),
            None => messages.filter(|m: MessageV| keeps_message(m)),
        }).len() > 0,
    ensures
        forall|i: int|
            0 <= i < spec_final_messages(system_prompt, messages, tool_body).len() ==> ({
                let m = #[trigger] spec_final_messages(system_prompt, messages, tool_body)[i];
                m.role != "tool"@ && (m.tool_calls matches Some(ts) ==> ts.len() == 0)
            }),
{
    broadcast use vstd::seq_lib::group_filter_ensures;

    let filtered = messages.filter(|m: MessageV| keeps_message(m));
    let base = match system_prompt {
        Some(p) => seq![system_message_v(p)] + filtered,
        None => filtered,
    };
    let result = spec_final_messages(system_prompt, messages, tool_body);
    reveal_strlit("tool");
    reveal_strlit("system");
    reveal_strlit("user");
    assert("system"@.len() != "tool"@.len());
    assert("user"@[0] != "tool"@[0]);
    assert forall|i: int| 0 <= i < result.len() implies ({
        let m = #[trigger] result[i];
        m.role != "tool"@ && (m.tool_calls matches Some(ts) ==> ts.len() == 0)
    }) by {
        if i == result.len() - 1 {
            assert(result[i] == user_message_v(base.last().content.unwrap() + "\ncontext: "@
                + tool_body));
        } else {
            assert(result[i] == base[i]);
            match system_prompt {
                Some(p) => {
                    if i == 0 {
                        assert(base[0] == system_message_v(p));
                    } else {
                        assert(base[i] == filtered[i - 1]);
                        assert(keeps_message(filtered[i - 1]));
                    }
                },
                None => {
                    assert(base[i] == filtered[i]);
                    assert(keeps_message(filtered[i]));
                },
            }
        }
    }
}

} // verus!
