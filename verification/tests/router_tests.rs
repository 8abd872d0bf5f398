use archgw::chat::Message;
use archgw::config::LlmProvider;
use archgw::router::{
    fix_json_response, normalize_route, provider_hint_header, RouterModelV1, RouterService,
};

fn msg(role: &str, content: &str) -> Message {
    Message {
        role: role.to_string(),
        content: Some(content.to_string()),
        model: None,
        tool_calls: None,
        tool_call_id: None,
    }
}

#[test]
fn test_system_prompt_format() {
    let expected_prompt = r#"
You are an advanced Routing Assistant designed to select the optimal route based on user requests.
Your task is to analyze conversations and match them to the most appropriate predefined route.
Review the available routes config:

# ROUTES CONFIG START
route1: description1
route2: description2
# ROUTES CONFIG END

Examine the following conversation between a user and an assistant:

# CONVERSATION START
user: "Hello, I want to book a flight."
assistant: "Sure, where would you like to go?"
user: "seattle"
# CONVERSATION END

Your goal is to identify the most appropriate route that matches the user's LATEST intent. Follow these steps:

1. Carefully read and analyze the provided conversation, focusing on the user's latest request and the conversation scenario.
2. Check if the user's request and scenario matches any of the routes in the routing configuration (focus on the description).
3. Find the route that best matches.
4. Use context clues from the entire conversation to determine the best fit.
5. Return the best match possible. You only response the name of the route that best matches the user's request, use the exact name in the routes config.
6. If no route relatively close to matches the user's latest intent or user last message is thank you or greeting, return an empty route ''.

# OUTPUT FORMAT
Your final output must follow this JSON format:
{
  "route": "route_name" # The matched route name, or empty string '' if no match
}

Based on your analysis, provide only the JSON object as your final output with no additional text, explanations, or whitespace.
"#;

    let routes_yaml = "route1: description1\nroute2: description2";
    let routing_model = "test-model".to_string();
    let router = RouterModelV1::new(routes_yaml.to_string(), routing_model.clone());

    let messages = vec![
        msg("system", "You are a helpful assistant."),
        msg("user", "Hello, I want to book a flight."),
        msg("assistant", "Sure, where would you like to go?"),
        msg("user", "seattle"),
    ];

    let req = router.generate_request(&messages);

    let prompt = req.messages[0].content.as_ref().unwrap();

    assert_eq!(expected_prompt, prompt);
}

#[test]
fn fix_json_response_repairs() {
    assert_eq!(
        fix_json_response("{'route': 'a'}"),
        "{\"route\": \"a\"}".to_string()
    );
    assert_eq!(
        fix_json_response("```json{\"route\": \"a\"}```"),
        "{\"route\": \"a\"}".to_string()
    );
    assert_eq!(fix_json_response("{\"a\":\\n1}"), "{\"a\":1}".to_string());
}

#[test]
fn parse_response_reads_route() {
    let router = RouterModelV1::new("".to_string(), "m".to_string());
    assert_eq!(
        router.parse_response("{\"route\": \"gpt-4o()\"}"),
        Ok(Some("gpt-4o".to_string()))
    );
    assert_eq!(router.parse_response("{'route': ''}"), Ok(None));
    assert_eq!(
        router.parse_response("```json{\"route\": \"fast\"}```"),
        Ok(Some("fast".to_string()))
    );
    assert!(router.parse_response("no json at all").is_err());
}

#[test]
fn empty_route_adds_no_hint_header() {
    // an empty route never becomes a provider hint
    assert_eq!(normalize_route(Some("".to_string())), None);
    assert_eq!(normalize_route(Some("()".to_string())), None);
    assert_eq!(provider_hint_header(&None), None);
    let hint = provider_hint_header(&Some("fast".to_string()));
    assert_eq!(
        hint,
        Some(("x-arch-llm-provider-hint".to_string(), "fast".to_string()))
    );
}

#[test]
fn router_service_renders_usage_yaml() {
    let providers = vec![
        LlmProvider { name: "gpt-4o".to_string(), usage: Some("simple requests".to_string()) },
        LlmProvider { name: "quiet".to_string(), usage: None },
        LlmProvider { name: "o4-mini".to_string(), usage: Some("complex reasoning".to_string()) },
    ];
    let service = RouterService::new(providers, "http://router".to_string());
    assert_eq!(
        service.llm_providers_with_usage_yaml,
        "- name: gpt-4o()\n  description: simple requests\n- name: o4-mini()\n  description: complex reasoning"
            .to_string()
    );
    assert_eq!(service.providers_with_usage.len(), 2);
}
