use clipygo_plugin_msteams::auth::{
    device_request_error, device_timeout_at, device_wait, device_wait_at, poll_interval, poll_step,
    DeviceCodePollResponse, DeviceCodeResponse, PollStep, DeviceWait,
};
use clipygo_plugin_msteams::config::{
    apply_config_update, auth_method_of, default_auth_method, AuthMethod, Config, ConfigUpdate,
};
use clipygo_plugin_msteams::handler::{
    check_send_format, config_values, info_response, merge_targets, send_outcome, targets_gate,
    TargetsGate, HOME_PAGE,
};
use clipygo_plugin_msteams::protocol::make_target;

fn update(tenant: Option<&str>, client: Option<&str>, method: Option<&str>) -> ConfigUpdate {
    ConfigUpdate {
        tenant_id: tenant.map(|s| s.to_string()),
        client_id: client.map(|s| s.to_string()),
        auth_method: method.map(|s| s.to_string()),
        username: None,
        password: None,
    }
}

fn with_tokens() -> Config {
    Config {
        tenant_id: "t".to_string(),
        client_id: "c".to_string(),
        auth_method: "oauth2".to_string(),
        access_token: Some("a".to_string()),
        refresh_token: Some("r".to_string()),
        token_expiry: Some(9),
        ..Config::default()
    }
}

#[test]
fn handler_get_info_fields() {
    let info = info_response("0.1.0");
    assert_eq!(info.name, "MS Teams");
    assert_eq!(info.version, "0.1.0");
    assert!(!info.description.is_empty());
    assert!(!info.author.is_empty());
}

#[test]
fn main_get_info_fields() {
    let info = info_response("1.2.3");
    assert_eq!(info.name, "MS Teams");
    assert_eq!(info.version, "1.2.3");
    assert_eq!(info.description, "Send clipboard content to Microsoft Teams chats and channels");
    assert_eq!(info.author, "clipygo");
}

#[test]
fn get_info_includes_link() {
    let info = info_response("0.1.0");
    assert!(info.link.as_deref().unwrap().starts_with("https://"));
    assert_eq!(info.link.as_deref(), Some(HOME_PAGE));
}

#[test]
fn handler_send_unsupported_format_returns_error() {
    let resp = check_send_format("image").unwrap();
    assert!(!resp.success);
    assert!(resp.error.unwrap().contains("image"));
}

#[test]
fn main_send_unsupported_format_returns_error() {
    let resp = check_send_format("image").unwrap();
    assert!(!resp.success);
    assert_eq!(resp.error.as_deref(), Some("Unsupported format: image"));
    assert!(check_send_format("text").is_none());
}

#[test]
fn send_outcomes() {
    let ok = send_outcome(Ok(()));
    assert!(ok.success);
    assert!(ok.error.is_none());
    let bad = send_outcome(Err("Send failed".to_string()));
    assert!(!bad.success);
    assert_eq!(bad.error.as_deref(), Some("Send failed"));
}

#[test]
fn handler_set_config_returns_success() {
    let mut c = Config::default();
    apply_config_update(&mut c, &update(Some("test-tenant"), Some("test-client"), Some("oauth2")));
    assert_eq!(c.tenant_id, "test-tenant");
    assert_eq!(c.client_id, "test-client");
    assert_eq!(c.auth_method, "oauth2");
    assert!(send_outcome(Ok(())).success);
}

#[test]
fn main_set_config_returns_success() {
    let mut c = Config::default();
    apply_config_update(&mut c, &update(Some("test-tenant"), Some("test-client"), Some("oauth2")));
    assert!(send_outcome(Ok(())).success);
}

#[test]
fn handler_default_auth_method_is_oauth2() {
    assert_eq!(default_auth_method(), "oauth2");
}

#[test]
fn main_default_auth_method_is_oauth2() {
    assert_eq!(auth_method_of(&default_auth_method()), AuthMethod::OAuth2);
}

#[test]
fn identity_change_clears_tokens() {
    for u in [
        update(Some("other"), None, None),
        update(None, Some("other"), None),
        update(None, None, Some("password")),
    ] {
        let mut c = with_tokens();
        assert!(apply_config_update(&mut c, &u));
        assert!(c.access_token.is_none());
        assert!(c.refresh_token.is_none());
        assert!(c.token_expiry.is_none());
    }
}

#[test]
fn same_identity_keeps_tokens() {
    let mut c = with_tokens();
    assert!(!apply_config_update(&mut c, &update(Some("t"), Some("c"), Some("oauth2"))));
    assert_eq!(c.access_token.as_deref(), Some("a"));
    assert_eq!(c.token_expiry, Some(9));
}

#[test]
fn empty_credentials_are_removed() {
    let mut c = with_tokens();
    c.username = Some("old".to_string());
    let u = ConfigUpdate {
        tenant_id: None,
        client_id: None,
        auth_method: None,
        username: Some(String::new()),
        password: Some("pw".to_string()),
    };
    apply_config_update(&mut c, &u);
    assert!(c.username.is_none());
    assert_eq!(c.password.as_deref(), Some("pw"));
}

#[test]
fn config_update_twice_is_update_once() {
    let u = update(Some("new"), None, Some("device_code"));
    let mut once = with_tokens();
    apply_config_update(&mut once, &u);
    let mut twice = with_tokens();
    apply_config_update(&mut twice, &u);
    assert!(!apply_config_update(&mut twice, &u));
    assert_eq!(once.tenant_id, twice.tenant_id);
    assert_eq!(once.auth_method, twice.auth_method);
    assert_eq!(once.access_token, twice.access_token);
}

#[test]
fn targets_gate_cases() {
    assert_eq!(targets_gate(&Config::default()), TargetsGate::NotConfigured);
    let mut c = with_tokens();
    assert_eq!(targets_gate(&c), TargetsGate::Ready);
    c.auth_method = "password".to_string();
    assert_eq!(targets_gate(&c), TargetsGate::MissingCredentials);
    c.username = Some("u".to_string());
    c.password = Some("".to_string());
    assert_eq!(targets_gate(&c), TargetsGate::MissingCredentials);
    c.password = Some("p".to_string());
    assert_eq!(targets_gate(&c), TargetsGate::Ready);
    c.client_id = String::new();
    assert_eq!(targets_gate(&c), TargetsGate::NotConfigured);
}

#[test]
fn merge_targets_chats_first_and_skips_errors() {
    let t = |id: &str| make_target(id.to_string(), "t".to_string(), "d".to_string());
    let all = merge_targets(Ok(vec![t("chat:1")]), Ok(vec![t("channel:a:b")]));
    let ids: Vec<&str> = all.iter().map(|x| x.id.as_str()).collect();
    assert_eq!(ids, vec!["chat:1", "channel:a:b"]);
    let only = merge_targets(Err("down".to_string()), Ok(vec![t("channel:x:y")]));
    assert_eq!(only.len(), 1);
    assert!(merge_targets(Err("a".to_string()), Err("b".to_string())).is_empty());
}

#[test]
fn config_values_show_empty_credentials() {
    let v = config_values(&with_tokens());
    assert_eq!(v.tenant_id, "t");
    assert_eq!(v.client_id, "c");
    assert_eq!(v.auth_method, "oauth2");
    assert_eq!(v.username, "");
    assert_eq!(v.password, "");
}

fn poll(access: Option<&str>, expires: Option<u64>, error: Option<&str>) -> DeviceCodePollResponse {
    DeviceCodePollResponse {
        access_token: access.map(|s| s.to_string()),
        refresh_token: None,
        expires_in: expires,
        error: error.map(|s| s.to_string()),
    }
}

#[test]
fn poll_steps() {
    match poll_step(poll(Some("tok"), None, None)) {
        PollStep::Token(t) => {
            assert_eq!(t.access_token, "tok");
            assert_eq!(t.expires_in, 3600);
        }
        other => panic!("unexpected {:?}", other),
    }
    match poll_step(poll(Some("tok"), Some(10), Some("ignored"))) {
        PollStep::Token(t) => assert_eq!(t.expires_in, 10),
        other => panic!("unexpected {:?}", other),
    }
    assert!(matches!(poll_step(poll(None, None, Some("authorization_pending"))), PollStep::Wait));
    assert!(matches!(poll_step(poll(None, None, None)), PollStep::Wait));
    assert!(matches!(poll_step(poll(None, None, Some("slow_down"))), PollStep::SlowDown));
    match poll_step(poll(None, None, Some("authorization_declined"))) {
        PollStep::Fail(e) => assert_eq!(e, "User declined the authentication request"),
        other => panic!("unexpected {:?}", other),
    }
    match poll_step(poll(None, None, Some("expired_token"))) {
        PollStep::Fail(e) => assert_eq!(e, "Device code expired — user did not complete authentication in time"),
        other => panic!("unexpected {:?}", other),
    }
    match poll_step(poll(None, None, Some("bad_verification_code"))) {
        PollStep::Fail(e) => assert_eq!(e, "Device code auth error: bad_verification_code"),
        other => panic!("unexpected {:?}", other),
    }
}

#[test]
fn poll_interval_at_least_five_seconds() {
    assert_eq!(poll_interval(0), 5);
    assert_eq!(poll_interval(5), 5);
    assert_eq!(poll_interval(12), 12);
}

fn device_reply(expires_in: u64, interval: u64) -> DeviceCodeResponse {
    DeviceCodeResponse {
        device_code: "dc".to_string(),
        user_code: "ABCD".to_string(),
        verification_uri: "https://microsoft.com/devicelogin".to_string(),
        expires_in,
        interval,
        message: "go".to_string(),
    }
}

#[test]
fn device_wait_deadline_and_timeout() {
    let w: DeviceWait = device_wait_at(&device_reply(900, 1), 100);
    assert_eq!(w.deadline, 1000);
    assert_eq!(w.interval, 5);
    assert_eq!(w.device_code, "dc");
    assert!(device_timeout_at(&w, 999).is_none());
    assert_eq!(
        device_timeout_at(&w, 1000).as_deref(),
        Some("Device code flow timed out — user did not complete authentication")
    );
    assert!(device_wait(&device_reply(900, 7)).is_some());
    assert!(device_wait(&device_reply(u64::MAX, 7)).is_none());
}

#[test]
fn device_request_error_message() {
    assert_eq!(device_request_error("400 Bad Request", "x"), "Device code request failed 400 Bad Request: x");
}

#[test]
fn default_config_uses_oauth2() {
    let c = Config::default();
    assert_eq!(c.auth_method, "oauth2");
    assert_eq!(auth_method_of(&c.auth_method), AuthMethod::OAuth2);
    assert!(c.tenant_id.is_empty() && c.client_id.is_empty());
    assert!(c.access_token.is_none() && c.token_expiry.is_none());
}

#[test]
fn config_form_offers_device_code() {
    let methods = clipygo_plugin_msteams::handler::offered_auth_methods();
    assert_eq!(methods, vec!["oauth2", "device_code", "password"]);
    let kinds: Vec<AuthMethod> = methods.iter().map(|m| auth_method_of(m)).collect();
    assert_eq!(kinds, vec![AuthMethod::OAuth2, AuthMethod::DeviceCode, AuthMethod::Password]);
    assert_eq!(clipygo_plugin_msteams::handler::required_settings(), vec!["tenant_id", "client_id"]);
}
