use archgw::openai::{
    split_lines, trim_blank, ContentType, MultiPartContent, MultiPartContentType,
    SseChatCompletionIter,
};
use archgw::parse::{chat_request_from_json, format_u64, parse_u64};

#[test]
fn test_content_type_display() {
    let text_content = ContentType::Text("Hello, world!".to_string());
    assert_eq!(text_content.to_text(), "Hello, world!");

    let multi_part_content = ContentType::MultiPart(vec![
        MultiPartContent {
            text: Some("This is a text part.".to_string()),
            content_type: MultiPartContentType::Text,
        },
        MultiPartContent {
            text: Some("https://example.com/image.png".to_string()),
            content_type: MultiPartContentType::ImageUrl,
        },
    ]);
    assert_eq!(multi_part_content.to_text(), "This is a text part.");
}

#[test]
fn test_sse_streaming() {
    let json_data = r#"data: {"id":"chatcmpl-123","object":"chat.completion.chunk","created":1700000000,"model":"gpt-3.5-turbo","choices":[{"index":0,"delta":{"role":"assistant"},"finish_reason":null}]}
data: {"id":"chatcmpl-123","object":"chat.completion.chunk","created":1700000000,"model":"gpt-3.5-turbo","choices":[{"index":0,"delta":{"content":"Hello, how can I help you today?"},"finish_reason":null}]}
data: [DONE]"#;

    let mut iter = SseChatCompletionIter::new(split_lines(json_data));

    println!("Testing SSE Streaming");
    while let Some(item) = iter.next_item() {
        match item {
            Ok(response) => {
                println!("Received response: {:?}", response);
                if response.choices.is_empty() {
                    continue;
                }
                for choice in response.choices {
                    if let Some(content) = choice.delta.content {
                        println!("Content: {}", content.to_text());
                    }
                }
            }
            Err(e) => {
                println!("Error parsing JSON: {}", e);
                return;
            }
        }
    }
}

#[test]
fn test_sse_streaming_try_from_bytes() {
    let json_data = r#"data: {"id":"chatcmpl-123","object":"chat.completion.chunk","created":1700000000,"model":"gpt-3.5-turbo","choices":[{"index":0,"delta":{"role":"assistant"},"finish_reason":null}]}
data: {"id":"chatcmpl-123","object":"chat.completion.chunk","created":1700000000,"model":"gpt-3.5-turbo","choices":[{"index":0,"delta":{"content":"Hello, how can I help you today?"},"finish_reason":null}]}
data: [DONE]"#;

    let mut iter = SseChatCompletionIter::from_bytes(json_data.as_bytes())
        .expect("Failed to create SSE iterator");

    println!("Testing SSE Streaming");
    while let Some(item) = iter.next_item() {
        match item {
            Ok(response) => {
                println!("Received response: {:?}", response);
                if response.choices.is_empty() {
                    continue;
                }
                for choice in response.choices {
                    if let Some(content) = choice.delta.content {
                        println!("Content: {}", content.to_text());
                    }
                }
            }
            Err(e) => {
                println!("Error parsing JSON: {}", e);
                return;
            }
        }
    }
}

#[test]
fn parse_chat_completions_request() {
    const CHAT_COMPLETIONS_REQUEST: &str = r#"
{
  "model": "None",
  "messages": [
    {
      "role": "user",
      "content": "how is the weather in seattle"
    }
  ],
  "stream": true
}        "#;

    let chat_completions_request = chat_request_from_json(CHAT_COMPLETIONS_REQUEST)
        .expect("Failed to parse ChatCompletionsRequest");
    assert_eq!(chat_completions_request.model, "None".to_string());
    assert!(chat_completions_request.stream);
    assert_eq!(chat_completions_request.messages.len(), 1);
    assert_eq!(
        chat_completions_request.messages[0].content,
        Some("how is the weather in seattle".to_string())
    );
}

#[test]
fn test_chat_completions_request_text_type_array() {
    const CHAT_COMPLETIONS_REQUEST: &str = r#"
        {
          "model": "gpt-3.5-turbo",
          "messages": [
            {
              "role": "user",
              "content": [
                {
                  "type": "text",
                  "text": "What city do you want to know the weather for?"
                },
                {
                  "type": "text",
                  "text": "hello world"
                }
              ]
            }
          ]
        }
        "#;

    let value: serde_json::Value = serde_json::from_str(CHAT_COMPLETIONS_REQUEST).unwrap();
    let message = archgw::openai::message_from_json_value(&value["messages"][0]).unwrap();
    assert_eq!(message.role, "user".to_string());
    if let Some(ContentType::MultiPart(multi_part_content)) = message.content.as_ref() {
        assert_eq!(multi_part_content.len(), 2);
        assert_eq!(
            multi_part_content[0].content_type,
            MultiPartContentType::Text
        );
        assert_eq!(
            multi_part_content[0].text,
            Some("What city do you want to know the weather for?".to_string())
        );
        assert_eq!(
            multi_part_content[1].content_type,
            MultiPartContentType::Text
        );
        assert_eq!(multi_part_content[1].text, Some("hello world".to_string()));
    } else {
        panic!("Expected MultiPartContent");
    }
}

#[test]
fn sse_chunks_are_parsed() {
    let json_data = "data: {\"id\":\"c1\",\"object\":\"chat.completion.chunk\",\"created\":1700000000,\"model\":\"m\",\"choices\":[{\"index\":0,\"delta\":{\"role\":\"assistant\",\"content\":\"A\"},\"finish_reason\":null}]}\ndata: [DONE]";
    let mut iter = SseChatCompletionIter::from_bytes(json_data.as_bytes()).unwrap();
    let first = iter.next_item().unwrap().unwrap();
    assert_eq!(first.id, "c1".to_string());
    assert_eq!(first.created, 1700000000);
    assert_eq!(first.model, "m".to_string());
    assert_eq!(first.choices.len(), 1);
    assert_eq!(first.choices[0].delta.role, "assistant".to_string());
    assert!(iter.next_item().is_none());
}

#[test]
fn sse_skips_non_data_lines_and_reports_bad_payloads() {
    // comment lines and blanks are skipped; a data line that is not JSON
    // comes back as an error; [DONE] ends the stream without being yielded
    let text = ": keepalive\n\ndata: not json\ndata: [DONE]\ndata: {\"model\":\"m\"}";
    let mut iter = SseChatCompletionIter::new(split_lines(text));
    let first = iter.next_item().unwrap();
    assert!(first.is_err());
    assert!(iter.next_item().is_none());
}

#[test]
fn sse_chunk_reader_defaults_missing_fields() {
    let text = "data: {\"choices\":[{\"delta\":{\"role\":\"assistant\"}}]}";
    let mut iter = SseChatCompletionIter::new(split_lines(text));
    let chunk = iter.next_item().unwrap().unwrap();
    assert_eq!(chunk.id, "".to_string());
    assert_eq!(chunk.created, 0);
    assert_eq!(chunk.choices.len(), 1);
    assert_eq!(chunk.choices[0].index, 0);
    assert_eq!(chunk.choices[0].delta.role, "assistant".to_string());
    assert!(chunk.choices[0].delta.content.is_none());
}

#[test]
fn trim_and_lines_behave() {
    assert_eq!(trim_blank("  a b \r\n"), "a b".to_string());
    assert_eq!(trim_blank(""), "".to_string());
    assert_eq!(
        split_lines("a\r\nb\nc\n"),
        vec!["a".to_string(), "b".to_string(), "c".to_string()]
    );
    assert_eq!(split_lines(""), Vec::<String>::new());
}

#[test]
fn numbers_round_trip_through_text() {
    assert_eq!(parse_u64("0"), Some(0));
    assert_eq!(parse_u64("1700000000"), Some(1700000000));
    assert_eq!(parse_u64(""), None);
    assert_eq!(parse_u64("12a"), None);
    assert_eq!(format_u64(0), "0".to_string());
    assert_eq!(format_u64(1048576), "1048576".to_string());
    assert_eq!(parse_u64(&format_u64(987654321)), Some(987654321));
}
