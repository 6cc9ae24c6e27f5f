//! The decisions behind each request clipygo sends to the plugin.

use vstd::prelude::*;
use crate::auth::credential_given;
use crate::config::{default_auth_method, spec_auth_method, AuthMethod, Config, ConfigView};
use crate::protocol::{InfoResponse, SendResponse, Target, TargetView, TEXT_FORMAT};
use crate::text::same_text;

verus! {

/// The link to the plugin's home page.
pub const HOME_PAGE: &'static str = "https://github.com/it-atelier-gn/clipygo-plugin-msteams";

/// The plugin's description, for the given build version.
pub fn info_response(version: &str) -> (info: InfoResponse)
    ensures
        info.name@ == "MS Teams"@,
        info.version@ == version@,
        info.description@ == "Send clipboard content to Microsoft Teams chats and channels"@,
        info.author@ == "clipygo"@,
        info.link.deep_view() == Some(HOME_PAGE@),
{
    InfoResponse {
        name: "MS Teams".to_string(),
        version: version.to_string(),
        description: "Send clipboard content to Microsoft Teams chats and channels".to_string(),
        author: "clipygo".to_string(),
        link: Some(HOME_PAGE.to_string()),
    }
}

/// Whether targets can be listed with a configuration.
#[derive(Debug, Clone, Copy, PartialEq, Eq, Structural)]
pub enum TargetsGate {
    /// Tenant or client id is missing: no targets.
    NotConfigured,
    /// Password sign-in without a username or password: no targets.
    MissingCredentials,
    /// Sign in and list.
    Ready,
}

/// Targets need a tenant and a client id, and for password sign-in a non-empty
/// username and password.
pub open spec fn spec_targets_gate(c: ConfigView) -> TargetsGate {
    if c.tenant_id.len() == 0 || c.client_id.len() == 0 {
        TargetsGate::NotConfigured
    } else if c.auth_method == "password"@ && !(credential_given(c.username) && credential_given(c.password)) {
        TargetsGate::MissingCredentials
    } else {
        TargetsGate::Ready
    }
}

fn missing(v: &Option<String>) -> (r: bool)
    ensures
        r == !credential_given(v.deep_view()),
{
    match v {
        Some(s) => s.as_str().is_empty(),
        None => true,
    }
}

/// Whether targets can be listed with `config`.
pub fn targets_gate(config: &Config) -> (g: TargetsGate)
    ensures
        g == spec_targets_gate(config@),
{
    if config.tenant_id.as_str().is_empty() || config.client_id.as_str().is_empty() {
        return TargetsGate::NotConfigured;
    }
    if same_text(config.auth_method.as_str(), "password") {
        if missing(&config.username) || missing(&config.password) {
            return TargetsGate::MissingCredentials;
        }
    }
    TargetsGate::Ready
}

/// The targets of a list that could be fetched, none of one that could not.
pub open spec fn fetched(r: Result<Vec<Target>, String>) -> Seq<TargetView> {
    match r {
        Ok(v) => v@.map_values(|t: Target| t@),
        Err(_) => Seq::empty(),
    }
}

/// All targets offered: the chats first, then the channels; a list that could not
/// be fetched contributes nothing.
pub fn merge_targets(chats: Result<Vec<Target>, String>, channels: Result<Vec<Target>, String>) -> (all: Vec<Target>)
    ensures
        all@.map_values(|t: Target| t@) == fetched(chats) + fetched(channels),
{
    let ghost c1 = fetched(chats);
    let ghost c2 = fetched(channels);
    let mut all: Vec<Target> = Vec::new();
    if let Ok(mut v) = chats {
        all.append(&mut v);
    }
    assert(all@.map_values(|t: Target| t@) =~= c1);
    if let Ok(mut v) = channels {
        let ghost before = all@;
        all.append(&mut v);
        assert(all@ =~= before + fetched_values(channels));
        assert(all@.map_values(|t: Target| t@) =~= c1 + c2);
    } else {
        assert(all@.map_values(|t: Target| t@) =~= c1 + c2);
    }
    all
}

/// The targets of a list that could be fetched, as they are.
spec fn fetched_values(r: Result<Vec<Target>, String>) -> Seq<Target> {
    match r {
        Ok(v) => v@,
        Err(_) => Seq::empty(),
    }
}

/// The settings shown in the configuration form.
#[derive(Debug)]
pub struct ConfigValues {
    pub tenant_id: String,
    pub client_id: String,
    pub auth_method: String,
    pub username: String,
    pub password: String,
}

/// The text of an optional setting, empty where it is not set.
pub open spec fn or_empty(v: Option<Seq<char>>) -> Seq<char> {
    match v {
        Some(s) => s,
        None => Seq::empty(),
    }
}

fn text_or_empty(v: &Option<String>) -> (s: String)
    ensures
        s@ == or_empty(v.deep_view()),
{
    match v {
        Some(s) => s.clone(),
        None => String::new(),
    }
}

/// The stored settings as shown in the configuration form; an unset username or
/// password shows as empty.
pub fn config_values(config: &Config) -> (v: ConfigValues)
    ensures
        v.tenant_id@ == config@.tenant_id,
        v.client_id@ == config@.client_id,
        v.auth_method@ == config@.auth_method,
        v.username@ == or_empty(config@.username),
        v.password@ == or_empty(config@.password),
{
    ConfigValues {
        tenant_id: config.tenant_id.clone(),
        client_id: config.client_id.clone(),
        auth_method: config.auth_method.clone(),
        username: text_or_empty(&config.username),
        password: text_or_empty(&config.password),
    }
}

/// A send or update answer as plain values.
pub open spec fn answer(r: SendResponse) -> (bool, Option<Seq<char>>) {
    (r.success, r.error.deep_view())
}

/// The answer to a send in `format`: a refusal naming the format unless it is
/// "text", else nothing yet.
pub fn check_send_format(format: &str) -> (r: Option<SendResponse>)
    ensures
        r is None <==> format@ == TEXT_FORMAT@,
        r matches Some(a) ==> answer(a) == (false, Some("Unsupported format: "@ + format@)),
{
    if same_text(format, TEXT_FORMAT) {
        None
    } else {
        let mut e = "Unsupported format: ".to_string();
        e.append(format);
        Some(SendResponse { success: false, error: Some(e) })
    }
}

/// The answer for the outcome of a send or an update: success, or failure with
/// the error.
pub fn send_outcome(outcome: Result<(), String>) -> (r: SendResponse)
    ensures
        answer(r) == match outcome {
            Ok(()) => (true, None::<Seq<char>>),
            Err(e) => (false, Some(e@)),
        },
{
    match outcome {
        Ok(()) => SendResponse { success: true, error: None },
        Err(e) => SendResponse { success: false, error: Some(e) },
    }
}


/// The sign-in method names the configuration form offers, in order.
pub open spec fn spec_offered_auth_methods() -> Seq<Seq<char>> {
    seq!["oauth2"@, "device_code"@, "password"@]
}

/// The sign-in method names the configuration form offers: each of the three
/// methods once, the default first.
pub fn offered_auth_methods() -> (names: Vec<String>)
    ensures
        names.deep_view() == spec_offered_auth_methods(),
        names.deep_view().map_values(|n: Seq<char>| spec_auth_method(n))
            == seq![AuthMethod::OAuth2, AuthMethod::DeviceCode, AuthMethod::Password],
        names.deep_view()[0] == "oauth2"@,
{
    let mut names: Vec<String> = Vec::new();
    names.push(default_auth_method());
    names.push("device_code".to_string());
    names.push("password".to_string());
    proof {
        reveal_strlit("oauth2");
        reveal_strlit("device_code");
        reveal_strlit("password");
        assert(names.deep_view() =~= spec_offered_auth_methods());
        assert("oauth2"@ != "password"@ && "oauth2"@ != "device_code"@) by {
            assert("oauth2"@[0] != "password"@[0]);
            assert("oauth2"@[0] != "device_code"@[0]);
        }
        assert("device_code"@ != "password"@) by {
            assert("device_code"@[0] != "password"@[0]);
        }
        assert(names.deep_view().map_values(|n: Seq<char>| spec_auth_method(n))
            =~= seq![AuthMethod::OAuth2, AuthMethod::DeviceCode, AuthMethod::Password]);
    }
    names
}

/// The settings the configuration form requires, in order.
pub open spec fn spec_required_settings() -> Seq<Seq<char>> {
    seq!["tenant_id"@, "client_id"@]
}

/// The settings the configuration form requires: the tenant and the client id.
pub fn required_settings() -> (names: Vec<String>)
    ensures
        names.deep_view() == spec_required_settings(),
{
    let mut names: Vec<String> = Vec::new();
    names.push("tenant_id".to_string());
    names.push("client_id".to_string());
    assert(names.deep_view() =~= spec_required_settings());
    names
}

/// The stored text of a setting by its name in the configuration form.
pub open spec fn setting(c: ConfigView, name: Seq<char>) -> Seq<char> {
    if name == "tenant_id"@ {
        c.tenant_id
    } else if name == "client_id"@ {
        c.client_id
    } else if name == "auth_method"@ {
        c.auth_method
    } else if name == "username"@ {
        or_empty(c.username)
    } else if name == "password"@ {
        or_empty(c.password)
    } else {
        Seq::empty()
    }
}

/// Targets are withheld as unconfigured exactly when a setting that the form
/// requires is empty.
pub proof fn lemma_required_settings_gate_targets(c: ConfigView)
    ensures
        (spec_targets_gate(c) == TargetsGate::NotConfigured) <==> exists|i: int|
            0 <= i < spec_required_settings().len()
                && #[trigger] setting(c, spec_required_settings()[i]).len() == 0,
{
    reveal_strlit("tenant_id");
    reveal_strlit("client_id");
    assert("tenant_id"@ != "client_id"@) by {
        assert("tenant_id"@[0] != "client_id"@[0]);
    }
    assert(setting(c, spec_required_settings()[0]) == c.tenant_id);
    assert(setting(c, spec_required_settings()[1]) == c.client_id);
}


/// With tenant and client set, targets are withheld for missing credentials exactly
/// when the method is "password" and the username or the password is missing or empty.
pub proof fn lemma_password_needs_credentials(c: ConfigView)
    requires
        c.tenant_id.len() > 0,
        c.client_id.len() > 0,
    ensures
        (spec_targets_gate(c) == TargetsGate::MissingCredentials) <==> (c.auth_method == "password"@
            && !(c.username is Some && c.username->0.len() > 0 && c.password is Some
                && c.password->0.len() > 0)),
        spec_targets_gate(c) != TargetsGate::NotConfigured,
{
}

} // verus!
