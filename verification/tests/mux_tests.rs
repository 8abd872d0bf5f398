use archgw::chat::{FunctionCallDetail, ToolCall, ToolType};
use archgw::mux::{assemble_rewrite, rewrite_nonstream_body};
use archgw::omni::{ChatRequest, Message as OmniMessage, OpenAI, Provider, Role};
use archgw::orchestrate::StreamContext;
use archgw::sse::{to_server_events, SyntheticChunk};

fn tool_call() -> ToolCall {
    ToolCall {
        id: "1".to_string(),
        function: FunctionCallDetail { name: "get_weather".to_string(), arguments: None },
        tool_type: ToolType::Function,
    }
}

#[test]
fn time_to_first_token_is_set_at_most_once() {
    let mut ctx = StreamContext::new(1);
    assert!(ctx.time_to_first_token.is_none());
    ctx.note_first_token(100);
    assert_eq!(ctx.time_to_first_token, Some(100));
    ctx.note_first_token(200);
    assert_eq!(ctx.time_to_first_token, Some(100));
}

#[test]
fn streaming_prepends_synthetic_frames_once() {
    // the tool flow ran: the first chunk gets two SSE frames in front, the
    // next chunk passes through verbatim
    let mut ctx = StreamContext::new(1);
    ctx.tool_calls = Some(vec![tool_call()]);
    ctx.fc_model_name = Some("arch-fc".to_string());
    ctx.arch_fc_response = Some("buffered".to_string());
    ctx.tool_call_response = Some("{\"temp\":20}".to_string());

    let first = ctx.on_streaming_chunk("A".to_string());
    let frames: Vec<&str> = first.matches("data: ").collect();
    assert_eq!(frames.len(), 2);
    assert!(first.contains("buffered"));
    assert!(first.ends_with("A"));
    assert!(ctx.tool_calls.is_none());

    let second = ctx.on_streaming_chunk("B".to_string());
    assert_eq!(second, "B".to_string());
}

#[test]
fn passthrough_stream_without_tool_calls() {
    let mut ctx = StreamContext::new(1);
    let chunk = ctx.on_streaming_chunk("data: {}\n\n".to_string());
    assert_eq!(chunk, "data: {}\n\n".to_string());
}

#[test]
fn synthetic_frames_are_sse_framed() {
    let chunks = vec![SyntheticChunk {
        model: "m".to_string(),
        role: Some("assistant".to_string()),
        content: Some("hi".to_string()),
    }];
    let text = to_server_events(&chunks);
    assert!(text.starts_with("data: {\"object\":\"chat.completion.chunk\",\"model\":\"m\""));
    assert!(text.ends_with("\n\n"));
    assert!(text.contains("\"delta\":{\"role\":\"assistant\",\"content\":\"hi\"}"));
}

#[test]
fn arch_state_round_trips_into_response_metadata() {
    // what the client sent as x-arch-state appears unchanged in the
    // rewritten response metadata
    let state = Some("[{\"k\":\"v\"}]".to_string());
    let body = "{\"id\":\"r1\",\"choices\":[],\"metadata\":{\"other\":1}}";
    let rewritten = rewrite_nonstream_body(body, &state);
    let v: serde_json::Value = serde_json::from_str(&rewritten).unwrap();
    assert_eq!(v["id"], serde_json::Value::String("r1".to_string()));
    assert_eq!(
        v["metadata"]["x-arch-state"],
        serde_json::Value::String("[{\"k\":\"v\"}]".to_string())
    );
    assert_eq!(
        v["metadata"]["other"],
        serde_json::Value::Number(serde_json::Number::from(1u64))
    );
}

#[test]
fn rewrite_creates_missing_metadata() {
    let state = Some("s".to_string());
    let body = "{\"id\":\"r1\"}";
    let rewritten = rewrite_nonstream_body(body, &state);
    let v: serde_json::Value = serde_json::from_str(&rewritten).unwrap();
    assert_eq!(v["metadata"]["x-arch-state"], serde_json::Value::String("s".to_string()));
    // a body that is not a JSON object passes through unchanged
    assert_eq!(rewrite_nonstream_body("plain text", &state), "plain text".to_string());
}

#[test]
fn assemble_rewrite_escapes_the_blob() {
    let fields = vec![("id".to_string(), "\"x\"".to_string())];
    let meta = vec![];
    let state = Some("[{\"k\":1}]".to_string());
    let out = assemble_rewrite(&fields, &meta, &state);
    assert_eq!(
        out,
        "{\"id\":\"x\",\"metadata\":{\"x-arch-state\":\"[{\\\"k\\\":1}]\"}}".to_string()
    );
}

#[test]
fn response_body_rewrite_when_tools_ran() {
    // the buffered reply of a request whose agent flow ran carries the
    // state blob; the first-byte timestamp is recorded exactly once
    let mut ctx = StreamContext::new(1);
    ctx.is_chat_completions_request = true;
    ctx.streaming_response = false;
    ctx.tool_calls = Some(vec![tool_call()]);
    ctx.arch_state = Some("[1,2]".to_string());
    let out = ctx.on_http_response_body("{\"id\":\"r\"}".to_string(), 42);
    assert_eq!(ctx.time_to_first_token, Some(42));
    let v: serde_json::Value = serde_json::from_str(&out).unwrap();
    assert_eq!(v["metadata"]["x-arch-state"], serde_json::Value::String("[1,2]".to_string()));
    let _ = ctx.on_http_response_body("{}".to_string(), 99);
    assert_eq!(ctx.time_to_first_token, Some(42));
}

#[test]
fn response_body_passthrough_for_non_chat() {
    let mut ctx = StreamContext::new(1);
    ctx.is_chat_completions_request = false;
    let out = ctx.on_http_response_body("anything".to_string(), 7);
    assert_eq!(out, "anything".to_string());
    assert!(ctx.time_to_first_token.is_none());
}

#[test]
fn test_translate_request_openai() {
    let request = ChatRequest {
        model: "gpt-3.5-turbo".to_string(),
        messages: vec![
            OmniMessage {
                role: Role::System,
                content: Some("You are a helpful assistant.".to_string()),
                model: None,
            },
            OmniMessage {
                role: Role::User,
                content: Some("I need help with my computer.".to_string()),
                model: None,
            },
        ],
        stream: None,
        stream_options: None,
    };
    let openai = OpenAI;
    let result = openai.translate_request(&request).unwrap();
    let expected = r#"{"model":"gpt-3.5-turbo","messages":[{"role":"system","content":"You are a helpful assistant."},{"role":"user","content":"I need help with my computer."}]}"#;
    assert_eq!(String::from_utf8(result).unwrap(), expected);
}

#[test]
fn provider_names_are_case_insensitive() {
    assert_eq!(Provider::from_str("OpenAI"), Ok(Provider::OpenAI));
    assert_eq!(Provider::from_str("MISTRAL"), Ok(Provider::Mistral));
    assert!(Provider::from_str("groq").is_err());
}
