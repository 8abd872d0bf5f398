use archgw::chat::{
    check_intent_matched, filter_out_arch_messages, last_user_index, ChatCompletionsRequest,
    ChatCompletionsResponse, Choice, FunctionCallDetail, Message, ToolCall, ToolType,
};
use archgw::config::{Agent, GatewayConfig, Tool, ToolEndpoint};
use archgw::dispatch::{body_within_limit, CalloutMap};
use archgw::orchestrate::{
    OutboundPayload, RequestAction, ResponseHandlerType, StreamCallContext, StreamContext,
};
use archgw::templater::{HttpMethod, Parameter};

fn msg(role: &str, content: &str) -> Message {
    Message {
        role: role.to_string(),
        content: Some(content.to_string()),
        model: None,
        tool_calls: None,
        tool_call_id: None,
    }
}

fn weather_config() -> GatewayConfig {
    GatewayConfig {
        agents: vec![Agent {
            name: "weather".to_string(),
            tools: Some(vec!["get_weather".to_string()]),
            system_prompt: None,
            agent_orchestrator_prompt: Some("You route weather.".to_string()),
        }],
        tools: vec![Tool {
            name: "get_weather".to_string(),
            description: "weather lookup".to_string(),
            endpoint: Some(ToolEndpoint {
                name: "weather_api".to_string(),
                path: Some("/weather/{city}".to_string()),
                method: Some(HttpMethod::Get),
                http_headers: None,
            }),
            parameters: Some(vec![Parameter {
                name: "city".to_string(),
                parameter_type: Some("str".to_string()),
                description: "city".to_string(),
                required: Some(true),
                enum_values: None,
                default: None,
                in_path: Some(true),
                format: None,
            }]),
        }],
        endpoints: vec![],
        overrides: None,
        tracing: None,
    }
}

fn fc_response(content: &str, tool_calls: Option<Vec<ToolCall>>) -> ChatCompletionsResponse {
    ChatCompletionsResponse {
        choices: vec![Choice {
            message: Message {
                role: "assistant".to_string(),
                content: Some(content.to_string()),
                model: None,
                tool_calls,
                tool_call_id: None,
            },
            finish_reason: None,
            index: None,
        }],
        usage: None,
        model: "arch-fc".to_string(),
        metadata: None,
    }
}

#[test]
fn test_intent_matched() {
    let model_server_response = fc_response("", Some(vec![]));
    assert!(!check_intent_matched(&model_server_response));

    let model_server_response = fc_response("hello", Some(vec![]));
    assert!(check_intent_matched(&model_server_response));

    let model_server_response = fc_response(
        "",
        Some(vec![ToolCall {
            id: "1".to_string(),
            function: FunctionCallDetail { name: "test".to_string(), arguments: None },
            tool_type: ToolType::Function,
        }]),
    );
    assert!(check_intent_matched(&model_server_response));
}

#[test]
fn healthz_answers_immediately() {
    let config = weather_config();
    let mut ctx = StreamContext::new(1);
    let outcome = ctx.on_http_request_headers("/healthz", &None, None, None, &config);
    assert_eq!(outcome.response, Some((200, None)));
}

#[test]
fn single_agent_is_selected_without_header() {
    let config = weather_config();
    let mut ctx = StreamContext::new(1);
    let outcome =
        ctx.on_http_request_headers("/v1/chat/completions", &None, None, None, &config);
    assert!(outcome.response.is_none());
    assert_eq!(ctx.agent_index, Some(0));
}

#[test]
fn unknown_agent_header_fails() {
    let config = weather_config();
    let mut ctx = StreamContext::new(1);
    let outcome = ctx.on_http_request_headers(
        "/v1/chat/completions",
        &Some("nope".to_string()),
        None,
        None,
        &config,
    );
    let (status, _) = outcome.response.unwrap();
    assert_eq!(status, 500);
}

#[test]
fn no_user_message_forwards_as_is() {
    let config = weather_config();
    let mut ctx = StreamContext::new(1);
    ctx.agent_index = Some(0);
    let req = ChatCompletionsRequest {
        model: "gpt".to_string(),
        messages: vec![msg("system", "hi")],
        tools: None,
        stream: false,
        stream_options: None,
        metadata: None,
    };
    let action = ctx.on_chat_request(req, &config);
    assert!(matches!(action, RequestAction::Forward));
}

#[test]
fn single_user_message_drives_orchestration() {
    let config = weather_config();
    let mut ctx = StreamContext::new(1);
    ctx.agent_index = Some(0);
    let req = ChatCompletionsRequest {
        model: "gpt".to_string(),
        messages: vec![msg("user", "hi")],
        tools: None,
        stream: false,
        stream_options: None,
        metadata: None,
    };
    let action = ctx.on_chat_request(req, &config);
    match action {
        RequestAction::Dispatch(cs) => {
            assert_eq!(cs.method, "POST".to_string());
            assert_eq!(cs.path, "/v1/chat/completions".to_string());
            match cs.body {
                OutboundPayload::Chat(fc) => {
                    assert!(!fc.stream);
                    // orchestrator prompt first, then the original message
                    assert_eq!(fc.messages.len(), 2);
                    assert_eq!(fc.messages[0].role, "system".to_string());
                    assert_eq!(
                        fc.messages[0].content,
                        Some("You route weather.".to_string())
                    );
                    assert_eq!(fc.messages[1].role, "user".to_string());
                    let tools = fc.tools.unwrap();
                    assert_eq!(tools.len(), 1);
                    assert_eq!(tools[0].name, "get_weather".to_string());
                },
                _ => panic!("expected a chat payload"),
            }
        },
        _ => panic!("expected a dispatch"),
    }
}

#[test]
fn direct_answer_returns_fc_body() {
    // the FC model answers without a tool call: its reply goes back verbatim
    let config = weather_config();
    let mut ctx = StreamContext::new(1);
    ctx.agent_index = Some(0);
    ctx.streaming_response = false;
    let resp = fc_response("hello", None);
    let raw = "{\"choices\":[{\"message\":{\"role\":\"assistant\",\"content\":\"hello\"}}]}";
    let call_ctx = StreamCallContext {
        response_handler_type: ResponseHandlerType::ArchFC,
        user_message: Some("hi".to_string()),
        prompt_target_name: None,
        request_body: ChatCompletionsRequest {
            model: "gpt".to_string(),
            messages: vec![msg("user", "hi")],
            tools: None,
            stream: false,
            stream_options: None,
            metadata: None,
        },
        upstream_cluster: None,
        upstream_cluster_path: None,
        agent_index: Some(0),
    };
    let action = ctx.arch_fc_response_handler(resp, raw.to_string(), call_ctx, &config);
    match action {
        RequestAction::Respond { status, body } => {
            assert_eq!(status, 200);
            assert_eq!(body, Some(raw.to_string()));
        },
        _ => panic!("expected an immediate response"),
    }
}

#[test]
fn tool_invocation_flow() {
    let config = weather_config();
    let mut ctx = StreamContext::new(1);
    ctx.agent_index = Some(0);
    let resp = fc_response(
        "",
        Some(vec![ToolCall {
            id: "1".to_string(),
            function: FunctionCallDetail {
                name: "get_weather".to_string(),
                arguments: Some("{\"city\":\"seattle\"}".to_string()),
            },
            tool_type: ToolType::Function,
        }]),
    );
    let call_ctx = StreamCallContext {
        response_handler_type: ResponseHandlerType::ArchFC,
        user_message: Some("weather in seattle".to_string()),
        prompt_target_name: None,
        request_body: ChatCompletionsRequest {
            model: "gpt".to_string(),
            messages: vec![msg("user", "weather in seattle")],
            tools: None,
            stream: false,
            stream_options: None,
            metadata: None,
        },
        upstream_cluster: None,
        upstream_cluster_path: None,
        agent_index: Some(0),
    };
    let action = ctx.arch_fc_response_handler(resp, "".to_string(), call_ctx, &config);
    let call_ctx = match action {
        RequestAction::Dispatch(cs) => {
            assert_eq!(cs.path, "/weather/seattle".to_string());
            assert_eq!(cs.method, "GET".to_string());
            assert!(matches!(cs.body, OutboundPayload::Empty));
            cs.context
        },
        _ => panic!("expected a tool dispatch"),
    };

    // the tool replies; the final LLM request folds the body into the last
    // user message and carries no orchestration traces
    let action = ctx.api_call_response_handler(200, "{\"temp\":20}".to_string(), call_ctx, &config);
    match action {
        RequestAction::ResumeWithBody { request } => {
            assert!(request.tools.is_none());
            assert!(request.metadata.is_none());
            let last = request.messages.last().unwrap();
            assert_eq!(last.role, "user".to_string());
            assert_eq!(
                last.content,
                Some("weather in seattle\ncontext: {\"temp\":20}".to_string())
            );
            for m in &request.messages {
                assert_ne!(m.role, "tool".to_string());
                if let Some(tcs) = &m.tool_calls {
                    assert!(tcs.is_empty());
                }
            }
        },
        _ => panic!("expected the final LLM hand-over"),
    }
}

#[test]
fn unknown_tool_fails_with_logic_error() {
    // a tool name the registry does not know terminates the request
    let config = weather_config();
    let mut ctx = StreamContext::new(1);
    ctx.agent_index = Some(0);
    ctx.tool_calls = Some(vec![ToolCall {
        id: "1".to_string(),
        function: FunctionCallDetail { name: "no_such_tool".to_string(), arguments: None },
        tool_type: ToolType::Function,
    }]);
    let call_ctx = StreamCallContext {
        response_handler_type: ResponseHandlerType::ArchFC,
        user_message: None,
        prompt_target_name: None,
        request_body: ChatCompletionsRequest {
            model: "gpt".to_string(),
            messages: vec![],
            tools: None,
            stream: false,
            stream_options: None,
            metadata: None,
        },
        upstream_cluster: None,
        upstream_cluster_path: None,
        agent_index: Some(0),
    };
    let action = ctx.schedule_api_call_request(call_ctx, &config);
    match action {
        RequestAction::Respond { status, .. } => assert_eq!(status, 500),
        _ => panic!("expected a logic error"),
    }
}

#[test]
fn malformed_tool_arguments_fail_with_400() {
    let config = weather_config();
    let mut ctx = StreamContext::new(1);
    ctx.agent_index = Some(0);
    ctx.tool_calls = Some(vec![ToolCall {
        id: "1".to_string(),
        function: FunctionCallDetail {
            name: "get_weather".to_string(),
            arguments: Some("not json".to_string()),
        },
        tool_type: ToolType::Function,
    }]);
    let call_ctx = StreamCallContext {
        response_handler_type: ResponseHandlerType::ArchFC,
        user_message: None,
        prompt_target_name: None,
        request_body: ChatCompletionsRequest {
            model: "gpt".to_string(),
            messages: vec![],
            tools: None,
            stream: false,
            stream_options: None,
            metadata: None,
        },
        upstream_cluster: None,
        upstream_cluster_path: None,
        agent_index: Some(0),
    };
    let action = ctx.schedule_api_call_request(call_ctx, &config);
    match action {
        RequestAction::Respond { status, .. } => assert_eq!(status, 400),
        _ => panic!("expected a bad-request response"),
    }
}

#[test]
fn upstream_failure_is_propagated() {
    let config = weather_config();
    let mut ctx = StreamContext::new(1);
    ctx.agent_index = Some(0);
    let call_ctx = StreamCallContext {
        response_handler_type: ResponseHandlerType::FunctionCall,
        user_message: None,
        prompt_target_name: None,
        request_body: ChatCompletionsRequest {
            model: "gpt".to_string(),
            messages: vec![msg("user", "hi")],
            tools: None,
            stream: false,
            stream_options: None,
            metadata: None,
        },
        upstream_cluster: Some("weather_api".to_string()),
        upstream_cluster_path: Some("/weather/seattle".to_string()),
        agent_index: Some(0),
    };
    let action = ctx.api_call_response_handler(503, "overloaded".to_string(), call_ctx, &config);
    match action {
        RequestAction::Respond { status, body } => {
            assert_eq!(status, 503);
            let body = body.unwrap();
            assert!(body.contains("weather_api"));
            assert!(body.contains("503"));
        },
        _ => panic!("expected the upstream status to be propagated"),
    }
}

#[test]
fn filter_removes_orchestration_traces() {
    let messages = vec![
        msg("system", "s"),
        msg("user", "u"),
        Message {
            role: "assistant".to_string(),
            content: Some("calling".to_string()),
            model: None,
            tool_calls: Some(vec![ToolCall {
                id: "1".to_string(),
                function: FunctionCallDetail { name: "t".to_string(), arguments: None },
                tool_type: ToolType::Function,
            }]),
            tool_call_id: None,
        },
        msg("tool", "tool output"),
        Message {
            role: "assistant".to_string(),
            content: None,
            model: None,
            tool_calls: None,
            tool_call_id: None,
        },
        msg("assistant", "a"),
    ];
    let kept = filter_out_arch_messages(&messages);
    assert_eq!(kept.len(), 3);
    assert_eq!(kept[0].role, "system".to_string());
    assert_eq!(kept[1].role, "user".to_string());
    assert_eq!(kept[2].role, "assistant".to_string());
    assert_eq!(kept[2].content, Some("a".to_string()));
}

#[test]
fn last_user_message_is_the_driver() {
    let one_user = vec![msg("system", "s"), msg("user", "only")];
    assert_eq!(last_user_index(&one_user), Some(1));
    let no_user = vec![msg("system", "s"), msg("assistant", "a")];
    assert_eq!(last_user_index(&no_user), None);
    let two_users = vec![msg("user", "first"), msg("assistant", "a"), msg("user", "second")];
    assert_eq!(last_user_index(&two_users), Some(2));
}

#[test]
fn body_size_boundary() {
    assert!(body_within_limit(1048576));
    assert!(!body_within_limit(1048577));
}

#[test]
fn callout_map_stores_and_removes() {
    let mut map = CalloutMap::new();
    let ctx = StreamCallContext {
        response_handler_type: ResponseHandlerType::ArchFC,
        user_message: None,
        prompt_target_name: None,
        request_body: ChatCompletionsRequest {
            model: "m".to_string(),
            messages: vec![],
            tools: None,
            stream: false,
            stream_options: None,
            metadata: None,
        },
        upstream_cluster: None,
        upstream_cluster_path: None,
        agent_index: None,
    };
    map.insert(7, ctx);
    assert_eq!(map.len(), 1);
    assert!(map.remove(9).is_none());
    assert_eq!(map.len(), 1);
    let got = map.remove(7).unwrap();
    assert_eq!(got.request_body.model, "m".to_string());
    assert_eq!(map.len(), 0);
}

#[test]
fn arch_state_is_captured_from_metadata() {
    let config = weather_config();
    let mut ctx = StreamContext::new(1);
    ctx.agent_index = Some(0);
    let req = ChatCompletionsRequest {
        model: "gpt".to_string(),
        messages: vec![msg("user", "hi")],
        tools: None,
        stream: true,
        stream_options: None,
        metadata: Some(vec![(
            "x-arch-state".to_string(),
            "[{\"k\":\"v\"}]".to_string(),
        )]),
    };
    let _ = ctx.on_chat_request(req, &config);
    assert_eq!(ctx.arch_state, Some("[{\"k\":\"v\"}]".to_string()));
    assert!(ctx.streaming_response);
}
