//! The plugin's stored configuration and the rules for changing it.

use vstd::prelude::*;
use crate::text::same_text;

verus! {

/// Sign-in method used when the configuration names no other: "oauth2".
pub fn default_auth_method() -> (m: String)
    ensures
        m@ == "oauth2"@,
{
    "oauth2".to_string()
}

/// The stored configuration, with the tokens cached from the last sign-in.
#[derive(Debug)]
pub struct Config {
    pub tenant_id: String,
    pub client_id: String,
    /// "oauth2" (default), "password", or "device_code"
    pub auth_method: String,
    pub username: Option<String>,
    pub password: Option<String>,
    pub access_token: Option<String>,
    pub refresh_token: Option<String>,
    pub token_expiry: Option<u64>,
}

/// A configuration as plain text values.
pub struct ConfigView {
    pub tenant_id: Seq<char>,
    pub client_id: Seq<char>,
    pub auth_method: Seq<char>,
    pub username: Option<Seq<char>>,
    pub password: Option<Seq<char>>,
    pub access_token: Option<Seq<char>>,
    pub refresh_token: Option<Seq<char>>,
    pub token_expiry: Option<u64>,
}

impl View for Config {
    type V = ConfigView;

    open spec fn view(&self) -> ConfigView {
        ConfigView {
            tenant_id: self.tenant_id@,
            client_id: self.client_id@,
            auth_method: self.auth_method@,
            username: self.username.deep_view(),
            password: self.password.deep_view(),
            access_token: self.access_token.deep_view(),
            refresh_token: self.refresh_token.deep_view(),
            token_expiry: self.token_expiry,
        }
    }
}

impl ConfigView {
    /// This configuration with no cached tokens.
    pub open spec fn without_tokens(self) -> ConfigView {
        ConfigView { access_token: None, refresh_token: None, token_expiry: None, ..self }
    }
}

impl Default for Config {
    /// The configuration before anything is set: empty tenant and client, the
    /// default sign-in method "oauth2", no credentials and no tokens.
    fn default() -> (c: Config)
        ensures
            c@ == (ConfigView {
                tenant_id: Seq::empty(),
                client_id: Seq::empty(),
                auth_method: "oauth2"@,
                username: None,
                password: None,
                access_token: None,
                refresh_token: None,
                token_expiry: None,
            }),
    {
        Config {
            tenant_id: String::new(),
            client_id: String::new(),
            auth_method: default_auth_method(),
            username: None,
            password: None,
            access_token: None,
            refresh_token: None,
            token_expiry: None,
        }
    }
}

/// Drops the cached tokens and keeps the rest.
pub fn clear_tokens(config: &mut Config)
    ensures
        final(config)@ == old(config)@.without_tokens(),
{
    config.access_token = None;
    config.refresh_token = None;
    config.token_expiry = None;
}

/// The ways the plugin can sign in.
#[derive(Debug, Clone, Copy, PartialEq, Eq, Structural)]
pub enum AuthMethod {
    /// Browser login with an authorization code sent to a local callback.
    OAuth2,
    /// Username and password (ROPC).
    Password,
    /// A code entered on another device.
    DeviceCode,
}

/// The sign-in method a configured name stands for: "password" and "device_code"
/// name theirs, any other name means OAuth2.
pub open spec fn spec_auth_method(name: Seq<char>) -> AuthMethod {
    if name == "password"@ {
        AuthMethod::Password
    } else if name == "device_code"@ {
        AuthMethod::DeviceCode
    } else {
        AuthMethod::OAuth2
    }
}

/// The sign-in method a configured name stands for.
pub fn auth_method_of(name: &str) -> (m: AuthMethod)
    ensures
        m == spec_auth_method(name@),
{
    if same_text(name, "password") {
        AuthMethod::Password
    } else if same_text(name, "device_code") {
        AuthMethod::DeviceCode
    } else {
        AuthMethod::OAuth2
    }
}

/// The settings a configuration request carries; a field is `Some` where the
/// request holds that key with a text value.
#[derive(Debug)]
pub struct ConfigUpdate {
    pub tenant_id: Option<String>,
    pub client_id: Option<String>,
    pub auth_method: Option<String>,
    pub username: Option<String>,
    pub password: Option<String>,
}

/// A configuration request as plain text values.
pub struct ConfigUpdateView {
    pub tenant_id: Option<Seq<char>>,
    pub client_id: Option<Seq<char>>,
    pub auth_method: Option<Seq<char>>,
    pub username: Option<Seq<char>>,
    pub password: Option<Seq<char>>,
}

impl View for ConfigUpdate {
    type V = ConfigUpdateView;

    open spec fn view(&self) -> ConfigUpdateView {
        ConfigUpdateView {
            tenant_id: self.tenant_id.deep_view(),
            client_id: self.client_id.deep_view(),
            auth_method: self.auth_method.deep_view(),
            username: self.username.deep_view(),
            password: self.password.deep_view(),
        }
    }
}

/// Whether `new` is given and differs from `current`.
pub open spec fn changes(new: Option<Seq<char>>, current: Seq<char>) -> bool {
    new is Some && new->0 != current
}

/// The given value, or `current` where none is given.
pub open spec fn given_or(new: Option<Seq<char>>, current: Seq<char>) -> Seq<char> {
    match new {
        Some(v) => v,
        None => current,
    }
}

/// A given credential replaces the stored one; an empty one removes it.
pub open spec fn credential(new: Option<Seq<char>>, current: Option<Seq<char>>) -> Option<Seq<char>> {
    match new {
        Some(v) => if v.len() == 0 { None } else { Some(v) },
        None => current,
    }
}

/// Whether an update changes who signs in or how: tenant, client or method.
pub open spec fn changes_identity(c: ConfigView, u: ConfigUpdateView) -> bool {
    changes(u.tenant_id, c.tenant_id) || changes(u.client_id, c.client_id)
        || changes(u.auth_method, c.auth_method)
}

/// The configuration after an update: given fields replace stored ones, and the
/// cached tokens are dropped when the tenant, client or method changes.
pub open spec fn spec_apply_update(c: ConfigView, u: ConfigUpdateView) -> ConfigView {
    let updated = ConfigView {
        tenant_id: given_or(u.tenant_id, c.tenant_id),
        client_id: given_or(u.client_id, c.client_id),
        auth_method: given_or(u.auth_method, c.auth_method),
        username: credential(u.username, c.username),
        password: credential(u.password, c.password),
        ..c
    };
    if changes_identity(c, u) { updated.without_tokens() } else { updated }
}

/// Whether `new` is given and differs from `current`.
fn differs(new: &Option<String>, current: &String) -> (r: bool)
    ensures
        r == changes(new.deep_view(), current@),
{
    match new {
        Some(v) => !same_text(v.as_str(), current.as_str()),
        None => false,
    }
}

/// The credential to store for a given value: none for an empty one.
fn credential_of(v: &String) -> (r: Option<String>)
    ensures
        r.deep_view() == credential(Some(v@), None),
{
    if v.as_str().is_empty() { None } else { Some(v.clone()) }
}

/// Applies a configuration request. Returns whether the cached tokens were dropped
/// because the tenant, client or sign-in method changed.
pub fn apply_config_update(config: &mut Config, update: &ConfigUpdate) -> (cleared: bool)
    ensures
        final(config)@ == spec_apply_update(old(config)@, update@),
        cleared == changes_identity(old(config)@, update@),
{
    let tenant_changed = differs(&update.tenant_id, &config.tenant_id);
    let client_changed = differs(&update.client_id, &config.client_id);
    let method_changed = differs(&update.auth_method, &config.auth_method);
    if let Some(v) = &update.tenant_id {
        config.tenant_id = v.clone();
    }
    if let Some(v) = &update.client_id {
        config.client_id = v.clone();
    }
    if let Some(v) = &update.auth_method {
        config.auth_method = v.clone();
    }
    if let Some(v) = &update.username {
        config.username = credential_of(v);
    }
    if let Some(v) = &update.password {
        config.password = credential_of(v);
    }
    let cleared = tenant_changed || client_changed || method_changed;
    if cleared {
        clear_tokens(config);
    }
    cleared
}

/// Sending the same configuration request twice leaves the configuration as
/// sending it once does.
pub proof fn lemma_update_idempotent(c: ConfigView, u: ConfigUpdateView)
    ensures
        spec_apply_update(spec_apply_update(c, u), u) == spec_apply_update(c, u),
{
}

/// A request that leaves tenant, client and method as they are keeps the cached tokens.
pub proof fn lemma_update_keeps_tokens(c: ConfigView, u: ConfigUpdateView)
    requires
        !changes_identity(c, u),
    ensures
        spec_apply_update(c, u).access_token == c.access_token,
        spec_apply_update(c, u).refresh_token == c.refresh_token,
        spec_apply_update(c, u).token_expiry == c.token_expiry,
{
}


/// A given non-empty username or password replaces whatever was stored, an empty one
/// removes it, and one not given keeps what was stored; tenant, client and method are
/// the given ones where given and the stored ones where not.
pub proof fn lemma_update_sets_given_fields(c: ConfigView, u: ConfigUpdateView)
    ensures
        u.username matches Some(v) ==> (v.len() > 0 ==> spec_apply_update(c, u).username == Some(v)),
        u.username matches Some(v) ==> (v.len() == 0 ==> spec_apply_update(c, u).username is None),
        u.username is None ==> spec_apply_update(c, u).username == c.username,
        u.password matches Some(v) ==> (v.len() > 0 ==> spec_apply_update(c, u).password == Some(v)),
        u.password matches Some(v) ==> (v.len() == 0 ==> spec_apply_update(c, u).password is None),
        u.password is None ==> spec_apply_update(c, u).password == c.password,
        u.tenant_id matches Some(v) ==> spec_apply_update(c, u).tenant_id == v,
        u.tenant_id is None ==> spec_apply_update(c, u).tenant_id == c.tenant_id,
        u.client_id matches Some(v) ==> spec_apply_update(c, u).client_id == v,
        u.client_id is None ==> spec_apply_update(c, u).client_id == c.client_id,
        u.auth_method matches Some(v) ==> spec_apply_update(c, u).auth_method == v,
        u.auth_method is None ==> spec_apply_update(c, u).auth_method == c.auth_method,
{
}


/// A request that gives a tenant, client or method different from the stored one
/// leaves no cached token.
pub proof fn lemma_identity_change_forgets_tokens(c: ConfigView, u: ConfigUpdateView)
    requires
        (u.tenant_id matches Some(t) && t != c.tenant_id) || (u.client_id matches Some(t) && t != c.client_id)
            || (u.auth_method matches Some(m) && m != c.auth_method),
    ensures
        spec_apply_update(c, u).access_token is None,
        spec_apply_update(c, u).refresh_token is None,
        spec_apply_update(c, u).token_expiry is None,
{
}

} // verus!
