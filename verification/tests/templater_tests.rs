use archgw::templater::{
    filter_tool_params, replace_params_in_path, upsert_pair, HttpMethod, ParamValue, Parameter,
};
use archgw::tools::{compute_request_path_body, query_pairs, split_all, split_first};
use archgw::urlenc::{url_decode, url_encode};

fn param(name: &str, default: Option<&str>) -> Parameter {
    Parameter {
        name: name.to_string(),
        parameter_type: None,
        description: "test target".to_string(),
        required: None,
        enum_values: None,
        default: default.map(|d| d.to_string()),
        in_path: None,
        format: None,
    }
}

#[test]
fn test_replace_path() {
    let path = "/cluster.open-cluster-management.io/v1/managedclusters/{cluster_name}";
    let params = vec![
        ("cluster_name".to_string(), "test1".to_string()),
        ("hello".to_string(), "hello world".to_string()),
    ];
    let prompt_target_params = vec![param("country", Some("US"))];

    assert_eq!(
        replace_params_in_path(path, &params, &prompt_target_params),
        Ok(
            "/cluster.open-cluster-management.io/v1/managedclusters/test1?hello=hello%20world&country=US"
                .to_string()
        )
    );

    let prompt_target_params = vec![];

    let path = "/cluster.open-cluster-management.io/v1/managedclusters";
    let params = vec![];
    assert_eq!(
        replace_params_in_path(path, &params, &prompt_target_params),
        Ok("/cluster.open-cluster-management.io/v1/managedclusters".to_string())
    );

    let path = "/foo/{bar}/baz";
    let params = vec![("bar".to_string(), "qux".to_string())];
    assert_eq!(
        replace_params_in_path(path, &params, &prompt_target_params),
        Ok("/foo/qux/baz".to_string())
    );

    let path = "/foo/{bar}/baz/{qux}";
    let params = vec![
        ("bar".to_string(), "qux".to_string()),
        ("qux".to_string(), "quux".to_string()),
    ];
    assert_eq!(
        replace_params_in_path(path, &params, &prompt_target_params),
        Ok("/foo/qux/baz/quux".to_string())
    );

    let path = "/foo/{bar}/baz/{qux}";
    let params = vec![("bar".to_string(), "qux".to_string())];
    assert_eq!(
        replace_params_in_path(path, &params, &prompt_target_params),
        Err("Missing value for parameter `qux`".to_string())
    );
}

#[test]
fn templater_query_folding() {
    // template substitution plus surplus argument and default, GET
    let args = vec![
        ("extra".to_string(), ParamValue::Str("x y".to_string())),
        ("id".to_string(), ParamValue::Str("42".to_string())),
    ];
    let decls = vec![param("lang", Some("en"))];
    let r = compute_request_path_body("/items/{id}", &args, &decls, &HttpMethod::Get).unwrap();
    assert_eq!(r.0, "/items/42?extra=x%20y&lang=en".to_string());
    assert!(r.1.is_none());
}

#[test]
fn templater_post_body() {
    let args = vec![
        ("a".to_string(), ParamValue::Str("1".to_string())),
        ("b".to_string(), ParamValue::Str("two".to_string())),
    ];
    let decls = vec![];
    let r = compute_request_path_body("/create", &args, &decls, &HttpMethod::Post).unwrap();
    assert_eq!(r.0, "/create".to_string());
    assert_eq!(r.1, Some("{\"a\":\"1\",\"b\":\"two\"}".to_string()));
}

#[test]
fn filter_drops_non_scalars() {
    let args = vec![
        ("s".to_string(), ParamValue::Str("v".to_string())),
        ("n".to_string(), ParamValue::Num("3".to_string())),
        ("b".to_string(), ParamValue::Bool(true)),
        ("nothing".to_string(), ParamValue::Null),
        ("deep".to_string(), ParamValue::Composite),
    ];
    let kept = filter_tool_params(&args);
    assert_eq!(kept.len(), 3);
    assert_eq!(kept[0], ("s".to_string(), "v".to_string()));
    assert_eq!(kept[1], ("n".to_string(), "3".to_string()));
    assert_eq!(kept[2], ("b".to_string(), "true".to_string()));
}

#[test]
fn missing_parameter_is_reported() {
    let args = vec![("a".to_string(), ParamValue::Str("1".to_string()))];
    let decls = vec![];
    let r = compute_request_path_body("/x/{b}", &args, &decls, &HttpMethod::Get);
    assert_eq!(r, Err("Missing value for parameter `b`".to_string()));
}

#[test]
fn url_encode_decode_round_trip() {
    let encoded = url_encode("hello world/{}&=?");
    assert_eq!(encoded, "hello%20world%2F%7B%7D%26%3D%3F".to_string());
    let decoded = url_decode(&encoded).unwrap();
    assert_eq!(decoded, "hello world/{}&=?".as_bytes().to_vec());
}

#[test]
fn echo_of_templated_query_recovers_args() {
    // a tool-call arguments object folded into a GET query and read back by
    // an echoing endpoint gives the original scalar fields
    let args = vec![
        ("city".to_string(), ParamValue::Str("new york".to_string())),
        ("units".to_string(), ParamValue::Str("C&F".to_string())),
    ];
    let decls = vec![];
    let r = compute_request_path_body("/weather", &args, &decls, &HttpMethod::Get).unwrap();
    let (path, query) = split_first(&r.0, '?');
    assert_eq!(path, "/weather".to_string());
    let pairs = query_pairs(&query);
    assert_eq!(pairs.len(), 2);
    assert_eq!(pairs[0].0, "city".to_string());
    assert_eq!(url_decode(&pairs[0].1).unwrap(), "new york".as_bytes().to_vec());
    assert_eq!(pairs[1].0, "units".to_string());
    assert_eq!(url_decode(&pairs[1].1).unwrap(), "C&F".as_bytes().to_vec());
}

#[test]
fn upsert_replaces_and_appends() {
    let base = vec![("a".to_string(), "1".to_string()), ("b".to_string(), "2".to_string())];
    let replaced = upsert_pair(&base, "a", "9");
    assert_eq!(replaced, vec![("a".to_string(), "9".to_string()), ("b".to_string(), "2".to_string())]);
    let appended = upsert_pair(&base, "c", "3");
    assert_eq!(appended.len(), 3);
    assert_eq!(appended[2], ("c".to_string(), "3".to_string()));
}

#[test]
fn split_all_keeps_empty_pieces() {
    let parts = split_all("a&&b", '&');
    assert_eq!(parts, vec!["a".to_string(), "".to_string(), "b".to_string()]);
}
