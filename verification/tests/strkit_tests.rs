use archgw::errors::ServerError;
use archgw::strkit::{
    contains_char, eq_ignore_ascii_case, replace_str, shorten_string, str_eq, strip_prefix_str,
    strip_suffix_str,
};

#[test]
fn replace_handles_repeats_and_absence() {
    assert_eq!(replace_str("a-b-c", "-", "+"), "a+b+c".to_string());
    assert_eq!(replace_str("abc", "x", "y"), "abc".to_string());
    assert_eq!(replace_str("aaaa", "aa", "a"), "aa".to_string());
}

#[test]
fn strips_only_matching_affixes() {
    assert_eq!(strip_prefix_str("```json{}", "```json"), "{}".to_string());
    assert_eq!(strip_prefix_str("{}", "```json"), "{}".to_string());
    assert_eq!(strip_suffix_str("{}```", "```"), "{}".to_string());
    assert_eq!(strip_suffix_str("{}", "```"), "{}".to_string());
}

#[test]
fn string_equality_helpers() {
    assert!(str_eq("abc", "abc"));
    assert!(!str_eq("abc", "abd"));
    assert!(!str_eq("abc", "ab"));
    assert!(eq_ignore_ascii_case("OpenAI", "openai"));
    assert!(!eq_ignore_ascii_case("OpenAI", "openal"));
    assert!(contains_char("a?b", '?'));
    assert!(!contains_char("ab", '?'));
}

#[test]
fn shorten_keeps_short_strings() {
    assert_eq!(shorten_string("short"), "short".to_string());
    let long: String = "x".repeat(81);
    let shortened = shorten_string(&long);
    assert_eq!(shortened.len(), 83);
    assert!(shortened.ends_with("..."));
    let exact: String = "y".repeat(80);
    assert_eq!(shorten_string(&exact), exact);
}

#[test]
fn error_statuses_follow_the_taxonomy() {
    assert_eq!(ServerError::BadRequest { why: "w".to_string() }.status(), 400);
    assert_eq!(ServerError::LogicError("w".to_string()).status(), 500);
    assert_eq!(ServerError::Deserialization("w".to_string()).status(), 400);
    assert_eq!(ServerError::Serialization("w".to_string()).status(), 500);
    assert_eq!(
        ServerError::Upstream {
            host: "h".to_string(),
            path: "/p".to_string(),
            status: "503".to_string(),
            body: "b".to_string()
        }
        .status(),
        502
    );
    assert_eq!(ServerError::HttpDispatch("w".to_string()).status(), 500);
    assert_eq!(ServerError::Timeout.status(), 504);
    assert_eq!(
        ServerError::BadRequest { why: "no agent".to_string() }.message(),
        "bad request: no agent".to_string()
    );
}
