use forge::appstate::{resolver_from_state, AppState, RequestStatus};
use forge::environment::{EnvVariable, Environment, VarType};
use forge::error::AppError;
use forge::orchestrator::{
    advance_spinner, apply_outcome, cancel_current, deliver_outcome, mark_loading, prepare_send,
    should_send, SendSlot,
};
use forge::request::{KeyValuePair, RequestState};
use forge::resolver::{EnvResolver, VariableLayer, VarStatus};
use forge::response::ResponseState;
use forge::workspace::RequestTab;

#[test]
fn test_send_slot_second_send_supersedes_first() {
    // only the second send's token is ever accepted afterwards
    let mut slot = SendSlot::new();
    let first = slot.begin();
    let second = slot.begin();
    assert_ne!(first, second);
    assert!(!slot.accepts(first));
    assert!(slot.accepts(second));
}

#[test]
fn test_send_slot_clear() {
    let mut slot = SendSlot::new();
    let id = slot.begin();
    assert!(slot.accepts(id));
    slot.clear();
    assert!(!slot.accepts(id));
}

#[test]
fn test_should_send_requires_url() {
    let mut req = RequestState::default();
    assert!(!should_send(&req));
    req.url = "example.com".to_string();
    assert!(should_send(&req));
}

fn send_resolver() -> EnvResolver {
    EnvResolver::new(
        vec![VariableLayer {
            entries: vec![
                ("host".to_string(), "api.example.com".to_string()),
                ("token".to_string(), "sekrit".to_string()),
            ],
        }],
        vec!["token".to_string()],
    )
}

#[test]
fn test_prepare_send_resolves_url_and_enabled_headers() {
    let resolver = send_resolver();
    let mut req = RequestState::default();
    req.url = "{{host}}/v1".to_string();
    req.headers.push(KeyValuePair::new(
        "Authorization".to_string(),
        "Bearer {{token}}".to_string(),
    ));
    let mut disabled = KeyValuePair::new("X-Skip".to_string(), "{{token}}".to_string());
    disabled.enabled = false;
    req.headers.push(disabled);

    let prepared = prepare_send(&resolver, req);
    assert_eq!(prepared.url, "api.example.com/v1");
    // secrets carry their real value in send mode
    assert_eq!(prepared.headers[0].value, "Bearer sekrit");
    // disabled headers are untouched
    assert_eq!(prepared.headers[1].value, "{{token}}");
}

#[test]
fn test_secret_masked_for_display_real_for_send() {
    let resolver = send_resolver();
    let shown = resolver.resolve("{{token}}");
    assert_eq!(shown.value, "••••••••");
    assert!(matches!(shown.spans[0].status, VarStatus::Secret));
    assert_eq!(resolver.resolve_for_send("{{token}}"), "sekrit");
}

#[test]
fn test_mark_loading_and_apply_response() {
    let mut tab = RequestTab::default();
    mark_loading(&mut tab);
    assert!(matches!(
        tab.request_status,
        RequestStatus::Loading { spinner_tick: 0 }
    ));
    assert!(tab.response.is_none());

    let mut resp = ResponseState::default();
    resp.status = 200;
    apply_outcome(&mut tab, Ok(resp));
    assert!(matches!(tab.request_status, RequestStatus::Idle));
    assert_eq!(tab.response.as_ref().unwrap().status, 200);
}

#[test]
fn test_apply_cancelled_keeps_no_partial_response() {
    let mut tab = RequestTab::default();
    mark_loading(&mut tab);
    apply_outcome(&mut tab, Err(AppError::Cancelled));
    assert!(matches!(tab.request_status, RequestStatus::Idle));
    assert!(tab.response.is_none());
}

#[test]
fn test_apply_error_records_message() {
    let mut tab = RequestTab::default();
    mark_loading(&mut tab);
    apply_outcome(&mut tab, Err(AppError::Http("connect refused".to_string())));
    match &tab.request_status {
        RequestStatus::Error(m) => assert_eq!(m, "HTTP error: connect refused"),
        _ => panic!("expected an error status"),
    }
}

#[test]
fn test_cancel_current_resets() {
    let mut slot = SendSlot::new();
    let id = slot.begin();
    let mut tab = RequestTab::default();
    mark_loading(&mut tab);
    cancel_current(&mut slot, &mut tab);
    assert!(!slot.accepts(id));
    assert!(matches!(tab.request_status, RequestStatus::Idle));
}

#[test]
fn test_resolver_from_state_layers() {
    let mut state = AppState::default();
    let mut env = Environment::default();
    env.variables.push(EnvVariable {
        key: "host".to_string(),
        value: "env.example".to_string(),
        var_type: VarType::Text,
        enabled: true,
        description: String::new(),
    });
    env.variables.push(EnvVariable {
        key: "token".to_string(),
        value: "hush".to_string(),
        var_type: VarType::Secret,
        enabled: true,
        description: String::new(),
    });
    env.variables.push(EnvVariable {
        key: "off".to_string(),
        value: "nope".to_string(),
        var_type: VarType::Text,
        enabled: false,
        description: String::new(),
    });
    state.workspace.environments.push(env);
    state.workspace.active_environment_idx = Some(0);

    let os_vars = vec![
        ("host".to_string(), "os.example".to_string()),
        ("osonly".to_string(), "fromos".to_string()),
    ];
    let resolver = resolver_from_state(&state, os_vars);

    // the active environment outranks the process environment
    assert_eq!(resolver.resolve_for_send("{{host}}"), "env.example");
    // the process environment is still reachable
    assert_eq!(resolver.resolve_for_send("{{osonly}}"), "fromos");
    // disabled variables are excluded entirely
    assert_eq!(resolver.resolve_for_send("{{off}}"), "{{off}}");
    // secret-typed variables are masked for display
    assert_eq!(resolver.resolve("{{token}}").value, "••••••••");
}

#[test]
fn test_resolver_from_state_without_active_env() {
    let state = AppState::default();
    let resolver = resolver_from_state(
        &state,
        vec![("x".to_string(), "1".to_string())],
    );
    assert_eq!(resolver.layers.len(), 1);
    assert_eq!(resolver.resolve_for_send("{{x}}"), "1");
    assert!(resolver.secret_keys.is_empty());
}

#[test]
fn test_advance_spinner_wraps() {
    let mut tab = RequestTab::default();
    advance_spinner(&mut tab);
    assert!(matches!(tab.request_status, RequestStatus::Idle));
    mark_loading(&mut tab);
    advance_spinner(&mut tab);
    assert!(matches!(
        tab.request_status,
        RequestStatus::Loading { spinner_tick: 1 }
    ));
    tab.request_status = RequestStatus::Loading { spinner_tick: 255 };
    advance_spinner(&mut tab);
    assert!(matches!(
        tab.request_status,
        RequestStatus::Loading { spinner_tick: 0 }
    ));
}

#[test]
fn test_deliver_outcome_clears_slot() {
    let mut slot = SendSlot::new();
    let id = slot.begin();
    let mut tab = RequestTab::default();
    mark_loading(&mut tab);
    let mut resp = ResponseState::default();
    resp.status = 204;
    assert!(deliver_outcome(&mut slot, &mut tab, id, Ok(resp)));
    // the slot is emptied on delivery, as the send is over
    assert!(!slot.accepts(id));
    assert!(matches!(tab.request_status, RequestStatus::Idle));
    assert_eq!(tab.response.as_ref().unwrap().status, 204);
}

#[test]
fn test_deliver_outcome_discards_stale_token() {
    let mut slot = SendSlot::new();
    let stale = slot.begin();
    let current = slot.begin();
    let mut tab = RequestTab::default();
    mark_loading(&mut tab);
    let mut resp = ResponseState::default();
    resp.status = 500;
    // the first send's late result is discarded by identity
    assert!(!deliver_outcome(&mut slot, &mut tab, stale, Ok(resp)));
    assert!(matches!(
        tab.request_status,
        RequestStatus::Loading { spinner_tick: 0 }
    ));
    assert!(tab.response.is_none());
    assert!(slot.accepts(current));
}
