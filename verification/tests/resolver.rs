use forge::resolver::{EnvResolver, VariableLayer, VarStatus};

fn make_resolver(vars: &[(&str, &str)], secrets: &[&str]) -> EnvResolver {
    let entries: Vec<(String, String)> =
        vars.iter().map(|(k, v)| (k.to_string(), v.to_string())).collect();
    let secret_keys = secrets.iter().map(|s| s.to_string()).collect();
    EnvResolver::new(vec![VariableLayer { entries }], secret_keys)
}

#[test]
fn test_resolve_found() {
    let r = make_resolver(&[("host", "example.com")], &[]);
    let result = r.resolve("{{host}}/api");
    assert_eq!(result.value, "example.com/api");
    assert_eq!(result.spans.len(), 1);
    assert!(matches!(result.spans[0].status, VarStatus::Resolved(_)));
}

#[test]
fn test_resolve_not_found() {
    let r = make_resolver(&[], &[]);
    let result = r.resolve("{{unknown}}/api");
    // Unresolved keeps the placeholder text
    assert!(result.value.contains("{{unknown}}"));
    assert_eq!(result.spans.len(), 1);
    assert!(matches!(result.spans[0].status, VarStatus::Unresolved));
}

#[test]
fn test_resolve_secret_display() {
    let r = make_resolver(&[("token", "supersecret")], &["token"]);
    let result = r.resolve("Bearer {{token}}");
    // Display shows bullets
    assert_eq!(result.value, "Bearer ••••••••");
    assert!(matches!(result.spans[0].status, VarStatus::Secret));
}

#[test]
fn test_resolve_for_send_secret_real_value() {
    let r = make_resolver(&[("token", "supersecret")], &["token"]);
    let result = r.resolve_for_send("Bearer {{token}}");
    assert_eq!(result, "Bearer supersecret");
}

#[test]
fn test_resolve_for_send_found() {
    let r = make_resolver(&[("host", "example.com")], &[]);
    let result = r.resolve_for_send("{{host}}/api");
    assert_eq!(result, "example.com/api");
}

#[test]
fn test_resolve_span_positions_are_output_relative() {
    let r = make_resolver(&[("host", "example.com")], &[]);
    let result = r.resolve("{{host}}/x");
    assert_eq!(result.value, "example.com/x");
    assert_eq!(result.spans.len(), 1);
    let span = &result.spans[0];
    assert_eq!(span.start, 0);
    assert_eq!(span.end, 11);
    assert_eq!(span.variable_name, "host");
    match &span.status {
        VarStatus::Resolved(v) => assert_eq!(v, "example.com"),
        _ => panic!("expected a resolved span"),
    }
    assert_eq!(&result.value[span.start..span.end], "example.com");
}

#[test]
fn test_resolve_layer_priority() {
    let layer0 = VariableLayer {
        entries: vec![("host".to_string(), "first.example".to_string())],
    };
    let layer1 = VariableLayer {
        entries: vec![
            ("host".to_string(), "second.example".to_string()),
            ("extra".to_string(), "e".to_string()),
        ],
    };
    let r = EnvResolver::new(vec![layer0, layer1], Vec::new());
    assert_eq!(r.resolve("{{host}}").value, "first.example");
    assert_eq!(r.resolve("{{extra}}").value, "e");
    assert_eq!(r.resolve_for_send("{{host}}"), "first.example");
}

#[test]
fn test_resolve_no_placeholders_identity() {
    let r = make_resolver(&[("host", "example.com")], &[]);
    assert_eq!(r.resolve("plain text").value, "plain text");
    assert_eq!(r.resolve_for_send("plain text"), "plain text");
}

#[test]
fn test_resolve_mixed_spans() {
    let r = make_resolver(&[("a", "AAA"), ("s", "hush")], &["s"]);
    let result = r.resolve("-{{a}}-{{s}}-{{missing}}-");
    assert_eq!(result.value, "-AAA-••••••••-{{missing}}-");
    assert_eq!(result.spans.len(), 3);
    assert!(matches!(result.spans[0].status, VarStatus::Resolved(_)));
    assert!(matches!(result.spans[1].status, VarStatus::Secret));
    assert!(matches!(result.spans[2].status, VarStatus::Unresolved));
    assert_eq!(result.spans[1].variable_name, "s");
    let sent = r.resolve_for_send("-{{a}}-{{s}}-{{missing}}-");
    assert_eq!(sent, "-AAA-hush-{{missing}}-");
}

#[test]
fn test_resolve_for_send_returns_plain_string() {
    // send-mode resolution yields only the value; unresolved stays literal
    let r = make_resolver(&[], &[]);
    assert_eq!(r.resolve_for_send("{{nope}}/x"), "{{nope}}/x");
}

#[test]
fn test_layer_duplicate_key_last_wins() {
    // a layer filled by repeated insertion keeps the last duplicate
    let layer = VariableLayer {
        entries: vec![
            ("host".to_string(), "first.example".to_string()),
            ("host".to_string(), "second.example".to_string()),
        ],
    };
    let r = EnvResolver::new(vec![layer], Vec::new());
    assert_eq!(r.resolve("{{host}}").value, "second.example");
    assert_eq!(r.resolve_for_send("{{host}}"), "second.example");
}
