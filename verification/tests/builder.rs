use forge::builder::{build_client, build_request, filter_pairs, normalize_url};
use forge::request::{AuthConfig, HttpMethod, KeyValuePair, RequestBody, RequestState};

#[test]
fn test_normalize_url_cases() {
    assert_eq!(normalize_url(":3000/x"), "http://localhost:3000/x");
    assert_eq!(normalize_url("example.com"), "https://example.com");
    assert_eq!(normalize_url("http://x"), "http://x");
    assert_eq!(normalize_url("https://x"), "https://x");
    assert_eq!(normalize_url("localhost:8080"), "http://localhost:8080");
    assert_eq!(normalize_url("127.0.0.1/health"), "http://127.0.0.1/health");
}

#[test]
fn test_normalize_url_trims_and_empty() {
    assert_eq!(normalize_url(""), "");
    assert_eq!(normalize_url("   "), "");
    assert_eq!(normalize_url("  example.com  "), "https://example.com");
    // trimming removes Unicode whitespace, as str::trim does
    assert_eq!(normalize_url("\u{a0}example.com\u{3000}"), "https://example.com");
}

#[test]
fn test_filter_pairs_requires_key() {
    let pairs = vec![
        KeyValuePair::new("a".to_string(), "1".to_string()),
        KeyValuePair {
            key: "b".to_string(),
            value: "2".to_string(),
            enabled: false,
            description: String::new(),
        },
        KeyValuePair::new(String::new(), "3".to_string()),
        KeyValuePair::new("d".to_string(), "4".to_string()),
    ];
    let kept = filter_pairs(&pairs, true);
    assert_eq!(
        kept,
        vec![
            ("a".to_string(), "1".to_string()),
            ("d".to_string(), "4".to_string()),
        ]
    );
    // form filtering keeps enabled pairs whatever the key
    let form = filter_pairs(&pairs, false);
    assert_eq!(form.len(), 3);
    assert_eq!(form[1], (String::new(), "3".to_string()));
}

#[test]
fn test_build_request_always_constructs() {
    let client = build_client().expect("client should build");
    let mut state = RequestState::default();
    state.url = "example.com/api".to_string();
    state.method = HttpMethod::Post;
    state.headers.push(KeyValuePair::new("X-Test".to_string(), "1".to_string()));
    state.params.push(KeyValuePair::new("q".to_string(), "v".to_string()));
    state.auth = AuthConfig::Bearer { token: "tok".to_string() };
    state.body = RequestBody::Json("{\"a\":1}".to_string());
    let built = build_request(&client, &state);
    assert!(built.is_ok());
    let request = built.unwrap().build().expect("request should build");
    assert_eq!(request.method().as_str(), "POST");
    assert_eq!(request.url().host_str(), Some("example.com"));
    assert_eq!(request.url().query(), Some("q=v"));
    assert_eq!(request.headers().get("X-Test").unwrap(), "1");
    assert_eq!(request.headers().get("Content-Type").unwrap(), "application/json");
    assert!(request
        .headers()
        .get("Authorization")
        .unwrap()
        .to_str()
        .unwrap()
        .starts_with("Bearer "));
}

#[test]
fn test_build_request_binary_body_and_api_key_query() {
    let client = build_client().expect("client should build");
    let mut state = RequestState::default();
    state.url = ":9000/upload".to_string();
    state.auth = AuthConfig::ApiKey {
        key: "k".to_string(),
        value: "s".to_string(),
        in_header: false,
    };
    state.body = RequestBody::Binary(vec![0u8, 159, 146, 150]);
    let request = build_request(&client, &state).unwrap().build().unwrap();
    assert_eq!(request.url().as_str(), "http://localhost:9000/upload?k=s");
    assert!(request.headers().get("Content-Type").is_none());
}

#[test]
fn test_build_request_basic_auth_and_form() {
    let client = build_client().expect("client should build");
    let mut state = RequestState::default();
    state.url = "http://example.com/login".to_string();
    state.method = HttpMethod::Post;
    state.auth = AuthConfig::Basic {
        username: "user".to_string(),
        password: "pass".to_string(),
    };
    let mut disabled = KeyValuePair::new("x".to_string(), "9".to_string());
    disabled.enabled = false;
    state.body = RequestBody::Form(vec![
        KeyValuePair::new("a".to_string(), "1".to_string()),
        disabled,
        KeyValuePair::new("b".to_string(), "2 3".to_string()),
    ]);
    let request = build_request(&client, &state).unwrap().build().unwrap();
    // standard basic credential encoding of user:pass
    assert_eq!(
        request.headers().get("authorization").unwrap(),
        "Basic dXNlcjpwYXNz"
    );
    assert_eq!(
        request.headers().get("Content-Type").unwrap(),
        "application/x-www-form-urlencoded"
    );
    // URL-encoded body from the enabled pairs only
    assert_eq!(
        request.body().unwrap().as_bytes().unwrap(),
        b"a=1&b=2+3"
    );
}

#[test]
fn test_build_request_text_body_bytes() {
    let client = build_client().expect("client should build");
    let mut state = RequestState::default();
    state.url = "example.com".to_string();
    state.body = RequestBody::Text("hello".to_string());
    let request = build_request(&client, &state).unwrap().build().unwrap();
    assert_eq!(request.headers().get("Content-Type").unwrap(), "text/plain");
    assert_eq!(request.body().unwrap().as_bytes().unwrap(), b"hello");
}
