use falcon::dispatch::SendError;
use falcon::env::Env;
use falcon::http_method::HttpMethod;
use falcon::request::FalconAuthorization;
use falcon::request::PendingRequest;
use falcon::response_size_kb;

fn env_with(items: Vec<(&str, &str)>) -> Env {
    let mut env = Env::default();
    env.items = items
        .into_iter()
        .map(|(k, v)| (k.to_string(), v.to_string()))
        .collect();
    env
}

#[test]
fn prepare_resolves_url_queries_headers_and_auth() {
    let env = env_with(vec![("HOST", "example.com"), ("TOKEN", "s3cret")]);
    let mut req = PendingRequest::default();
    req.url = "https://{{HOST}}/api".to_string();
    req.method = HttpMethod::Post;
    req.headers = vec![("X-Test".to_string(), "{{HOST}}".to_string())];
    req.queries = vec![("q".to_string(), "1".to_string())];
    req.cookies = vec![("session".to_string(), "{{TOKEN}}".to_string())];
    req.authorization = FalconAuthorization::Bearer {
        prefix: "Bearer".to_string(),
        token: "{{TOKEN}}".to_string(),
    };
    let resolved = req.prepare(&env, "").expect("everything is valid");
    assert_eq!(resolved.url, "https://example.com/api?q=1");
    assert_eq!(resolved.method, HttpMethod::Post);
    assert_eq!(
        resolved.headers,
        vec![
            ("X-Test".to_string(), "example.com".to_string()),
            ("Content-Type".to_string(), "application/json".to_string()),
            ("Authorization".to_string(), "Bearer s3cret".to_string()),
        ]
    );
    assert_eq!(resolved.cookies, vec![("session".to_string(), "s3cret".to_string())]);
    assert_eq!(resolved.body, "");
}

#[test]
fn prepare_composes_against_the_base_url() {
    let env = env_with(vec![]);
    let mut req = PendingRequest::default();
    req.url = "{{%PROJECT_BASE_URL%}}/pets".to_string();
    let resolved = req.prepare(&env, "http://example.com").expect("valid");
    assert_eq!(resolved.url, "http://example.com/pets");
}

#[test]
fn prepare_skips_blank_rows() {
    let env = env_with(vec![]);
    let mut req = PendingRequest::default();
    req.url = "https://example.com/".to_string();
    // the defaults hold one blank row in each list
    let resolved = req.prepare(&env, "").expect("valid");
    assert_eq!(resolved.url, "https://example.com/");
    assert_eq!(
        resolved.headers,
        vec![("Content-Type".to_string(), "application/json".to_string())]
    );
    assert_eq!(resolved.cookies, vec![]);
}

#[test]
fn prepare_rejects_a_malformed_url() {
    let env = env_with(vec![]);
    let mut req = PendingRequest::default();
    req.url = "not a url at all".to_string();
    match req.prepare(&env, "") {
        Err(SendError::InvalidUrl(u)) => assert_eq!(u, "not a url at all"),
        other => panic!("expected an invalid-URL error, got {:?}", other),
    }
}

#[test]
fn prepare_rejects_a_bad_header_name() {
    let env = env_with(vec![]);
    let mut req = PendingRequest::default();
    req.url = "https://example.com/".to_string();
    req.headers = vec![("bad name".to_string(), "v".to_string())];
    match req.prepare(&env, "") {
        Err(SendError::InvalidHeaderName(n)) => assert_eq!(n, "bad name"),
        other => panic!("expected an invalid-header-name error, got {:?}", other),
    }
}

#[test]
fn prepare_rejects_a_bad_header_value() {
    let env = env_with(vec![]);
    let mut req = PendingRequest::default();
    req.url = "https://example.com/".to_string();
    req.headers = vec![("X-Ok".to_string(), "bad\nvalue".to_string())];
    match req.prepare(&env, "") {
        Err(SendError::InvalidHeaderValue(v)) => assert_eq!(v, "bad\nvalue"),
        other => panic!("expected an invalid-header-value error, got {:?}", other),
    }
}

#[test]
fn prepare_rejects_a_bad_substituted_bearer_line() {
    let env = env_with(vec![("TOKEN", "a\nb")]);
    let mut req = PendingRequest::default();
    req.url = "https://example.com/".to_string();
    req.authorization = FalconAuthorization::Bearer {
        prefix: "Bearer".to_string(),
        token: "{{TOKEN}}".to_string(),
    };
    match req.prepare(&env, "") {
        Err(SendError::InvalidHeaderValue(v)) => assert_eq!(v, "Bearer a\nb"),
        other => panic!("expected an invalid-header-value error, got {:?}", other),
    }
}

#[test]
fn blank_bearer_token_adds_no_authorization_header() {
    let env = env_with(vec![]);
    let mut req = PendingRequest::default();
    req.url = "https://example.com/".to_string();
    req.authorization = FalconAuthorization::Bearer {
        prefix: "Bearer".to_string(),
        token: "   ".to_string(),
    };
    let resolved = req.prepare(&env, "").expect("valid");
    assert!(resolved.headers.iter().all(|(k, _)| k != "Authorization"));
}

#[test]
fn queries_accumulate_duplicate_keys() {
    let env = env_with(vec![]);
    let mut req = PendingRequest::default();
    req.url = "https://example.com/".to_string();
    req.queries = vec![
        ("k".to_string(), "1".to_string()),
        ("k".to_string(), "2".to_string()),
    ];
    let resolved = req.prepare(&env, "").expect("valid");
    assert_eq!(resolved.url, "https://example.com/?k=1&k=2");
}

#[test]
fn send_error_messages_name_the_offender() {
    assert_eq!(
        SendError::InvalidUrl("x".to_string()).message(),
        "invalid URL: x"
    );
    assert_eq!(
        SendError::InvalidHeaderName("y".to_string()).message(),
        "invalid header name: y"
    );
    assert_eq!(
        SendError::InvalidHeaderValue("z".to_string()).message(),
        "invalid header value: z"
    );
    assert_eq!(
        SendError::Transport("down".to_string()).message(),
        "transport error: down"
    );
}

#[test]
fn response_size_rounds_up_to_whole_kilobytes() {
    assert_eq!(response_size_kb(0), 0);
    assert_eq!(response_size_kb(1), 1);
    assert_eq!(response_size_kb(1024), 1);
    assert_eq!(response_size_kb(1025), 2);
    assert_eq!(response_size_kb(4096), 4);
}
