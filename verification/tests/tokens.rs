use clipygo_plugin_msteams::auth::{
    apply_tokens, apply_tokens_at, code_form, device_code_form, device_code_url, device_poll_form,
    password_form, refresh_form, token_after_refresh, token_after_refresh_at, token_after_sign_in,
    token_after_sign_in_at, token_error, token_start, token_start_at, token_url, TokenAction,
    TokenResponse, SCOPES,
};
use clipygo_plugin_msteams::config::{AuthMethod, Config};

fn configured(method: &str) -> Config {
    Config {
        tenant_id: "t".to_string(),
        client_id: "c".to_string(),
        auth_method: method.to_string(),
        ..Config::default()
    }
}

fn reply(access: &str, refresh: Option<&str>, expires_in: u64) -> TokenResponse {
    TokenResponse {
        access_token: access.to_string(),
        refresh_token: refresh.map(|s| s.to_string()),
        expires_in,
    }
}

fn pairs(form: &[(String, String)]) -> Vec<(&str, &str)> {
    form.iter().map(|(k, v)| (k.as_str(), v.as_str())).collect()
}

#[test]
fn cached_token_used_while_valid_for_more_than_a_minute() {
    let mut c = configured("oauth2");
    c.access_token = Some("tok".to_string());
    c.token_expiry = Some(1_000);
    match token_start_at(&c, 939) {
        TokenAction::UseCached(t) => assert_eq!(t, "tok"),
        other => panic!("unexpected {:?}", other),
    }
    // exactly 60 s left is not enough
    match token_start_at(&c, 940) {
        TokenAction::SignIn(AuthMethod::OAuth2) => {}
        other => panic!("unexpected {:?}", other),
    }
}

#[test]
fn expired_token_leads_to_refresh_when_refresh_token_stored() {
    let mut c = configured("password");
    c.access_token = Some("tok".to_string());
    c.refresh_token = Some("rt".to_string());
    c.token_expiry = Some(100);
    match token_start_at(&c, 5_000) {
        TokenAction::Refresh(r) => assert_eq!(r, "rt"),
        other => panic!("unexpected {:?}", other),
    }
}

#[test]
fn no_tokens_leads_to_configured_sign_in() {
    match token_start_at(&configured("device_code"), 0) {
        TokenAction::SignIn(AuthMethod::DeviceCode) => {}
        other => panic!("unexpected {:?}", other),
    }
    match token_start_at(&configured("password"), 0) {
        TokenAction::SignIn(AuthMethod::Password) => {}
        other => panic!("unexpected {:?}", other),
    }
    match token_start_at(&configured("something"), 0) {
        TokenAction::SignIn(AuthMethod::OAuth2) => {}
        other => panic!("unexpected {:?}", other),
    }
}

#[test]
fn token_start_without_token_signs_in() {
    match token_start(&configured("oauth2")) {
        TokenAction::SignIn(AuthMethod::OAuth2) => {}
        other => panic!("unexpected {:?}", other),
    }
}

#[test]
fn apply_tokens_keeps_old_refresh_token_when_reply_has_none() {
    let mut c = configured("oauth2");
    c.refresh_token = Some("old".to_string());
    apply_tokens_at(&mut c, reply("new", None, 3600), 1_000);
    assert_eq!(c.access_token.as_deref(), Some("new"));
    assert_eq!(c.refresh_token.as_deref(), Some("old"));
    assert_eq!(c.token_expiry, Some(4_600));
    apply_tokens_at(&mut c, reply("newer", Some("fresh"), 10), 2_000);
    assert_eq!(c.refresh_token.as_deref(), Some("fresh"));
    assert_eq!(c.token_expiry, Some(2_010));
}

#[test]
fn apply_tokens_now_stores_token() {
    let mut c = configured("oauth2");
    assert!(apply_tokens(&mut c, reply("a", None, 100)));
    assert_eq!(c.access_token.as_deref(), Some("a"));
    assert!(c.token_expiry.unwrap() >= 100);
    let mut d = configured("oauth2");
    assert!(!apply_tokens(&mut d, reply("b", None, u64::MAX)));
    assert!(d.access_token.is_none());
}

#[test]
fn refresh_success_stores_and_returns_token() {
    let mut c = configured("oauth2");
    c.refresh_token = Some("rt".to_string());
    match token_after_refresh_at(&mut c, Ok(reply("fresh", Some("rt2"), 60)), 500) {
        TokenAction::StoreAndUse(t) => assert_eq!(t, "fresh"),
        other => panic!("unexpected {:?}", other),
    }
    assert_eq!(c.access_token.as_deref(), Some("fresh"));
    assert_eq!(c.refresh_token.as_deref(), Some("rt2"));
    assert_eq!(c.token_expiry, Some(560));
}

#[test]
fn refresh_failure_clears_tokens_and_signs_in() {
    let mut c = configured("password");
    c.access_token = Some("old".to_string());
    c.refresh_token = Some("rt".to_string());
    c.token_expiry = Some(1);
    match token_after_refresh_at(&mut c, Err("boom".to_string()), 500) {
        TokenAction::SignIn(AuthMethod::Password) => {}
        other => panic!("unexpected {:?}", other),
    }
    assert!(c.access_token.is_none());
    assert!(c.refresh_token.is_none());
    assert!(c.token_expiry.is_none());
    assert_eq!(c.tenant_id, "t");
}

#[test]
fn sign_in_failure_reports_error_and_keeps_config() {
    let mut c = configured("oauth2");
    c.refresh_token = None;
    match token_after_sign_in_at(&mut c, Err("denied".to_string()), 7) {
        TokenAction::Fail(e) => assert_eq!(e, "denied"),
        other => panic!("unexpected {:?}", other),
    }
    assert!(c.access_token.is_none());
}

#[test]
fn stored_token_is_then_served_from_cache() {
    let mut c = configured("oauth2");
    match token_after_sign_in_at(&mut c, Ok(reply("abc", None, 3600)), 10_000) {
        TokenAction::StoreAndUse(t) => assert_eq!(t, "abc"),
        other => panic!("unexpected {:?}", other),
    }
    match token_start_at(&c, 13_539) {
        TokenAction::UseCached(t) => assert_eq!(t, "abc"),
        other => panic!("unexpected {:?}", other),
    }
}

#[test]
fn replies_at_current_time() {
    let mut c = configured("oauth2");
    match token_after_sign_in(&mut c, Ok(reply("x", None, 3600))) {
        Some(TokenAction::StoreAndUse(t)) => assert_eq!(t, "x"),
        other => panic!("unexpected {:?}", other),
    }
    let mut d = configured("oauth2");
    assert!(token_after_refresh(&mut d, Ok(reply("y", None, u64::MAX))).is_none());
    assert!(d.access_token.is_none());
    match token_after_refresh(&mut d, Err("e".to_string())) {
        Some(TokenAction::SignIn(AuthMethod::OAuth2)) => {}
        other => panic!("unexpected {:?}", other),
    }
}

#[test]
fn token_and_device_urls() {
    assert_eq!(token_url("contoso"), "https://login.microsoftonline.com/contoso/oauth2/v2.0/token");
    assert_eq!(device_code_url("contoso"), "https://login.microsoftonline.com/contoso/oauth2/v2.0/devicecode");
}

#[test]
fn refresh_form_fields() {
    let c = configured("oauth2");
    let f = refresh_form(&c, "rt");
    assert_eq!(
        pairs(&f),
        vec![("grant_type", "refresh_token"), ("client_id", "c"), ("refresh_token", "rt"), ("scope", SCOPES)]
    );
    assert!(SCOPES.ends_with(" offline_access"));
    assert!(SCOPES.starts_with("https://graph.microsoft.com/Team.ReadBasic.All https://"));
}

#[test]
fn password_form_requires_username_and_password() {
    let mut c = configured("password");
    assert_eq!(password_form(&c).unwrap_err(), "username not set — required for password auth");
    c.username = Some("".to_string());
    assert_eq!(password_form(&c).unwrap_err(), "username not set — required for password auth");
    c.username = Some("u@x".to_string());
    assert_eq!(password_form(&c).unwrap_err(), "password not set — required for password auth");
    c.password = Some("pw".to_string());
    let f = password_form(&c).unwrap();
    assert_eq!(
        pairs(&f),
        vec![
            ("grant_type", "password"),
            ("client_id", "c"),
            ("username", "u@x"),
            ("password", "pw"),
            ("scope", SCOPES)
        ]
    );
}

#[test]
fn code_and_device_forms() {
    let c = configured("oauth2");
    let f = code_form(&c, "abc", "http://localhost:1/");
    assert_eq!(
        pairs(&f),
        vec![
            ("grant_type", "authorization_code"),
            ("client_id", "c"),
            ("code", "abc"),
            ("redirect_uri", "http://localhost:1/"),
            ("scope", SCOPES)
        ]
    );
    assert_eq!(pairs(&device_code_form(&c)), vec![("client_id", "c"), ("scope", SCOPES)]);
    assert_eq!(
        pairs(&device_poll_form(&c, "dc")),
        vec![
            ("grant_type", "urn:ietf:params:oauth:grant-type:device_code"),
            ("client_id", "c"),
            ("device_code", "dc")
        ]
    );
}

#[test]
fn token_error_message() {
    assert_eq!(token_error("400 Bad Request", "{}"), "Token error 400 Bad Request: {}");
}
