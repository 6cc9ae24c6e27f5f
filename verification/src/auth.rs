//! Signing in to Microsoft Entra ID: the cached-token rules, the sign-in decisions,
//! the forms sent to the token endpoints and the device-code wait.

use vstd::prelude::*;
use crate::config::{clear_tokens, auth_method_of, spec_auth_method, AuthMethod, Config, ConfigView};
use crate::text::same_text;

verus! {

/// Seconds that a cached token must still be valid for to be used.
pub const EXPIRY_MARGIN: u64 = 60;

/// A reply of the token endpoint.
#[derive(Debug)]
pub struct TokenResponse {
    pub access_token: String,
    pub refresh_token: Option<String>,
    pub expires_in: u64,
}

/// A token reply as plain values.
pub struct TokenResponseView {
    pub access_token: Seq<char>,
    pub refresh_token: Option<Seq<char>>,
    pub expires_in: u64,
}

impl View for TokenResponse {
    type V = TokenResponseView;

    open spec fn view(&self) -> TokenResponseView {
        TokenResponseView {
            access_token: self.access_token@,
            refresh_token: self.refresh_token.deep_view(),
            expires_in: self.expires_in,
        }
    }
}

/// The current time in whole seconds since the Unix epoch, through
/// `std::time::SystemTime::now` and `duration_since(UNIX_EPOCH)`; 0 where the
/// clock is set before the epoch. Nothing is claimed of the value: it is the clock's.
#[verifier::external_body]
fn now_unix() -> u64 {
    std::time::SystemTime::now().duration_since(std::time::UNIX_EPOCH).unwrap_or_default().as_secs()
}

/// Whether the configuration holds a token that is still valid for more than the
/// margin at time `now`.
pub open spec fn token_still_valid(c: ConfigView, now: u64) -> bool {
    &&& c.access_token is Some
    &&& c.token_expiry is Some
    &&& now + EXPIRY_MARGIN < c.token_expiry->0
}

/// The configuration after storing a token reply received at time `now`: the new
/// access token, its expiry `now + expires_in`, and the new refresh token where the
/// reply has one (else the old one stays).
pub open spec fn spec_apply_tokens(c: ConfigView, tr: TokenResponseView, now: u64) -> ConfigView {
    ConfigView {
        token_expiry: Some((now + tr.expires_in) as u64),
        refresh_token: if tr.refresh_token is Some { tr.refresh_token } else { c.refresh_token },
        access_token: Some(tr.access_token),
        ..c
    }
}

/// Whether the expiry of a reply received at `now` fits in a `u64`.
pub open spec fn expiry_fits(tr: TokenResponseView, now: u64) -> bool {
    now + tr.expires_in <= u64::MAX
}

/// Stores a token reply received at time `now`.
pub fn apply_tokens_at(config: &mut Config, tr: TokenResponse, now: u64)
    requires
        expiry_fits(tr@, now),
    ensures
        final(config)@ == spec_apply_tokens(old(config)@, tr@, now),
{
    config.token_expiry = Some(now + tr.expires_in);
    if let Some(rt) = tr.refresh_token {
        config.refresh_token = Some(rt);
    }
    config.access_token = Some(tr.access_token);
}

/// Stores a token reply, stamped with the current time `now` read from the clock:
/// where `now + expires_in` fits in a `u64` the reply is stored as at `now` and
/// `true` comes back; else nothing is stored and `false` comes back.
pub fn apply_tokens(config: &mut Config, tr: TokenResponse) -> (stored: bool)
    ensures
        exists|now: u64| {
            &&& stored == #[trigger] expiry_fits(tr@, now)
            &&& stored ==> final(config)@ == spec_apply_tokens(old(config)@, tr@, now)
            &&& !stored ==> final(config)@ == old(config)@
        },
{
    let now = now_unix();
    let ghost t = tr@;
    if now <= u64::MAX - tr.expires_in {
        apply_tokens_at(config, tr, now);
        assert(expiry_fits(t, now));
        true
    } else {
        assert(!expiry_fits(t, now));
        false
    }
}

/// What the caller of the token logic does next.
#[derive(Debug)]
pub enum TokenAction {
    /// Hand this cached token back; nothing to store.
    UseCached(String),
    /// Redeem this refresh token at the token endpoint.
    Refresh(String),
    /// Run the interactive sign-in of this method.
    SignIn(AuthMethod),
    /// Store the configuration, then hand this token back.
    StoreAndUse(String),
    /// Give up with this error.
    Fail(String),
}

/// A next step as plain values.
pub enum TokenActionView {
    UseCached(Seq<char>),
    Refresh(Seq<char>),
    SignIn(AuthMethod),
    StoreAndUse(Seq<char>),
    Fail(Seq<char>),
}

impl View for TokenAction {
    type V = TokenActionView;

    open spec fn view(&self) -> TokenActionView {
        match self {
            TokenAction::UseCached(t) => TokenActionView::UseCached(t@),
            TokenAction::Refresh(t) => TokenActionView::Refresh(t@),
            TokenAction::SignIn(m) => TokenActionView::SignIn(*m),
            TokenAction::StoreAndUse(t) => TokenActionView::StoreAndUse(t@),
            TokenAction::Fail(e) => TokenActionView::Fail(e@),
        }
    }
}

/// The first step towards a token at time `now`: the cached token while it is valid
/// for more than the margin, else a refresh where a refresh token is stored, else
/// the configured sign-in.
pub open spec fn spec_token_start(c: ConfigView, now: u64) -> TokenActionView {
    if token_still_valid(c, now) {
        TokenActionView::UseCached(c.access_token->0)
    } else if c.refresh_token is Some {
        TokenActionView::Refresh(c.refresh_token->0)
    } else {
        TokenActionView::SignIn(spec_auth_method(c.auth_method))
    }
}

/// The first step towards a token at time `now`.
pub fn token_start_at(config: &Config, now: u64) -> (a: TokenAction)
    ensures
        a@ == spec_token_start(config@, now),
{
    if let (Some(token), Some(expiry)) = (&config.access_token, config.token_expiry) {
        if now < expiry && expiry - now > EXPIRY_MARGIN {
            return TokenAction::UseCached(token.clone());
        }
    }
    match &config.refresh_token {
        Some(rt) => TokenAction::Refresh(rt.clone()),
        None => TokenAction::SignIn(auth_method_of(config.auth_method.as_str())),
    }
}

/// The first step towards a token, judged at the current time.
pub fn token_start(config: &Config) -> (a: TokenAction)
    ensures
        exists|now: u64| a@ == #[trigger] spec_token_start(config@, now),
{
    let now = now_unix();
    token_start_at(config, now)
}

/// A reply of the token endpoint as plain values.
pub open spec fn reply_view(reply: Result<TokenResponse, String>) -> Result<TokenResponseView, Seq<char>> {
    match reply {
        Ok(tr) => Ok(tr@),
        Err(e) => Err(e@),
    }
}

/// Whether a reply received at `now` can be stored: an error always can, a token
/// where its expiry fits in a `u64`.
pub open spec fn reply_fits(reply: Result<TokenResponseView, Seq<char>>, now: u64) -> bool {
    reply matches Ok(tr) ==> expiry_fits(tr, now)
}

/// The configuration and next step after the reply to a refresh, received at `now`:
/// a token is stored and handed back; an error drops every cached token and leads to
/// the configured sign-in.
pub open spec fn spec_after_refresh(
    c: ConfigView,
    reply: Result<TokenResponseView, Seq<char>>,
    now: u64,
) -> (ConfigView, TokenActionView) {
    match reply {
        Ok(tr) => (spec_apply_tokens(c, tr, now), TokenActionView::StoreAndUse(tr.access_token)),
        Err(_) => (c.without_tokens(), TokenActionView::SignIn(spec_auth_method(c.auth_method))),
    }
}

/// The configuration and next step after the reply to a sign-in, received at `now`:
/// a token is stored and handed back; an error is handed back with nothing changed.
pub open spec fn spec_after_sign_in(
    c: ConfigView,
    reply: Result<TokenResponseView, Seq<char>>,
    now: u64,
) -> (ConfigView, TokenActionView) {
    match reply {
        Ok(tr) => (spec_apply_tokens(c, tr, now), TokenActionView::StoreAndUse(tr.access_token)),
        Err(e) => (c, TokenActionView::Fail(e)),
    }
}

/// Handles the reply to a refresh, received at time `now`.
pub fn token_after_refresh_at(config: &mut Config, reply: Result<TokenResponse, String>, now: u64) -> (a: TokenAction)
    requires
        reply_fits(reply_view(reply), now),
    ensures
        (final(config)@, a@) == spec_after_refresh(old(config)@, reply_view(reply), now),
{
    match reply {
        Ok(tr) => {
            let token = tr.access_token.clone();
            apply_tokens_at(config, tr, now);
            TokenAction::StoreAndUse(token)
        },
        Err(_) => {
            clear_tokens(config);
            TokenAction::SignIn(auth_method_of(config.auth_method.as_str()))
        },
    }
}

/// Handles the reply to a sign-in, received at time `now`.
pub fn token_after_sign_in_at(config: &mut Config, reply: Result<TokenResponse, String>, now: u64) -> (a: TokenAction)
    requires
        reply_fits(reply_view(reply), now),
    ensures
        (final(config)@, a@) == spec_after_sign_in(old(config)@, reply_view(reply), now),
{
    match reply {
        Ok(tr) => {
            let token = tr.access_token.clone();
            apply_tokens_at(config, tr, now);
            TokenAction::StoreAndUse(token)
        },
        Err(e) => TokenAction::Fail(e),
    }
}

/// Whether a reply received at `now` can be stored.
fn reply_fits_at(reply: &Result<TokenResponse, String>, now: u64) -> (r: bool)
    ensures
        r == reply_fits(reply_view(*reply), now),
{
    match reply {
        Ok(tr) => now <= u64::MAX - tr.expires_in,
        Err(_) => true,
    }
}

/// Handles the reply to a refresh at the current time `now` read from the clock, as
/// `token_after_refresh_at` does at `now`. `None`, with the configuration untouched,
/// exactly where the reply is a token whose expiry `now + expires_in` would not fit
/// in a `u64`; an error reply always gives a next step.
pub fn token_after_refresh(config: &mut Config, reply: Result<TokenResponse, String>) -> (a: Option<TokenAction>)
    ensures
        reply is Err ==> a is Some,
        exists|now: u64| {
            &&& (a is Some <==> #[trigger] reply_fits(reply_view(reply), now))
            &&& a is None ==> final(config)@ == old(config)@
            &&& a matches Some(act) ==> spec_after_refresh(old(config)@, reply_view(reply), now) == (final(config)@, act@)
        },
{
    let now = now_unix();
    let ghost r = reply_view(reply);
    if reply_fits_at(&reply, now) {
        let act = token_after_refresh_at(config, reply, now);
        assert(reply_fits(r, now));
        Some(act)
    } else {
        assert(!reply_fits(r, now));
        None
    }
}

/// Handles the reply to a sign-in at the current time `now` read from the clock, as
/// `token_after_sign_in_at` does at `now`. `None`, with the configuration untouched,
/// exactly where the reply is a token whose expiry `now + expires_in` would not fit
/// in a `u64`; an error reply always gives a next step.
pub fn token_after_sign_in(config: &mut Config, reply: Result<TokenResponse, String>) -> (a: Option<TokenAction>)
    ensures
        reply is Err ==> a is Some,
        exists|now: u64| {
            &&& (a is Some <==> #[trigger] reply_fits(reply_view(reply), now))
            &&& a is None ==> final(config)@ == old(config)@
            &&& a matches Some(act) ==> spec_after_sign_in(old(config)@, reply_view(reply), now) == (final(config)@, act@)
        },
{
    let now = now_unix();
    let ghost r = reply_view(reply);
    if reply_fits_at(&reply, now) {
        let act = token_after_sign_in_at(config, reply, now);
        assert(reply_fits(r, now));
        Some(act)
    } else {
        assert(!reply_fits(r, now));
        None
    }
}

/// A token just stored is served from the cache, without a refresh or a sign-in,
/// until less than the margin is left before it expires.
pub proof fn lemma_stored_token_is_served(c: ConfigView, tr: TokenResponseView, now: u64, later: u64)
    requires
        expiry_fits(tr, now),
        later + EXPIRY_MARGIN < now + tr.expires_in,
    ensures
        spec_token_start(spec_after_refresh(c, Ok(tr), now).0, later) == TokenActionView::UseCached(tr.access_token),
        spec_token_start(spec_after_sign_in(c, Ok(tr), now).0, later) == TokenActionView::UseCached(tr.access_token),
{
}

/// The token handed back after a successful refresh or sign-in is the one stored.
pub proof fn lemma_handed_token_is_stored(c: ConfigView, tr: TokenResponseView, now: u64)
    ensures
        spec_after_refresh(c, Ok(tr), now).1 == TokenActionView::StoreAndUse(tr.access_token),
        spec_after_refresh(c, Ok(tr), now).0.access_token == Some(tr.access_token),
        spec_after_sign_in(c, Ok(tr), now).1 == TokenActionView::StoreAndUse(tr.access_token),
        spec_after_sign_in(c, Ok(tr), now).0.access_token == Some(tr.access_token),
{
}

/// What a successful refresh or sign-in stores, field by field: the reply's access
/// token, the expiry `now + expires_in`, and the reply's refresh token whenever it
/// carries one (the stored one only where it carries none); tenant, client, method
/// and credentials stay as they were.
pub proof fn lemma_token_reply_is_stored(c: ConfigView, tr: TokenResponseView, now: u64)
    requires
        expiry_fits(tr, now),
    ensures
        ({
            let after_refresh = spec_after_refresh(c, Ok(tr), now).0;
            let after_sign_in = spec_after_sign_in(c, Ok(tr), now).0;
            &&& after_refresh.access_token == Some(tr.access_token)
            &&& after_sign_in.access_token == Some(tr.access_token)
            &&& after_refresh.token_expiry == Some((now + tr.expires_in) as u64)
            &&& after_sign_in.token_expiry == Some((now + tr.expires_in) as u64)
            &&& after_sign_in.token_expiry->0 == now + tr.expires_in
            &&& tr.refresh_token is Some ==> after_refresh.refresh_token == tr.refresh_token
            &&& tr.refresh_token is Some ==> after_sign_in.refresh_token == tr.refresh_token
            &&& tr.refresh_token is None ==> after_refresh.refresh_token == c.refresh_token
            &&& tr.refresh_token is None ==> after_sign_in.refresh_token == c.refresh_token
            &&& after_refresh.tenant_id == c.tenant_id && after_sign_in.tenant_id == c.tenant_id
            &&& after_refresh.client_id == c.client_id && after_sign_in.client_id == c.client_id
            &&& after_refresh.auth_method == c.auth_method && after_sign_in.auth_method == c.auth_method
            &&& after_refresh.username == c.username && after_sign_in.username == c.username
            &&& after_refresh.password == c.password && after_sign_in.password == c.password
        }),
{
}

/// The first step towards a token: a cached token is handed back exactly when one is
/// stored with an expiry more than the margin after `now`; otherwise a stored refresh
/// token is redeemed, and only without one does the configured sign-in run.
pub proof fn lemma_token_start_cases(c: ConfigView, now: u64)
    ensures
        (c.access_token matches Some(t) && c.token_expiry matches Some(e) && now + 60 < e)
            ==> spec_token_start(c, now) == TokenActionView::UseCached(c.access_token->0),
        spec_token_start(c, now) is UseCached ==> c.access_token is Some && c.token_expiry is Some
            && now + 60 < c.token_expiry->0,
        spec_token_start(c, now) is Refresh ==> c.refresh_token == Some(spec_token_start(c, now)->Refresh_0),
        spec_token_start(c, now) is SignIn ==> c.refresh_token is None
            && spec_token_start(c, now)->SignIn_0 == spec_auth_method(c.auth_method),
        !(spec_token_start(c, now) is StoreAndUse) && !(spec_token_start(c, now) is Fail),
{
}

/// A failed refresh leaves no cached token and leads to the configured sign-in,
/// keeping every other setting.
pub proof fn lemma_failed_refresh_forgets_tokens(c: ConfigView, e: Seq<char>, now: u64)
    ensures
        ({
            let (after, next) = spec_after_refresh(c, Err(e), now);
            &&& after.access_token is None && after.refresh_token is None && after.token_expiry is None
            &&& after.tenant_id == c.tenant_id && after.client_id == c.client_id
            &&& after.auth_method == c.auth_method
            &&& after.username == c.username && after.password == c.password
            &&& next == TokenActionView::SignIn(spec_auth_method(c.auth_method))
        }),
{
}

/// A failed sign-in changes nothing and gives up with the sign-in's own error.
pub proof fn lemma_failed_sign_in_reports_error(c: ConfigView, e: Seq<char>, now: u64)
    ensures
        spec_after_sign_in(c, Err(e), now) == (c, TokenActionView::Fail(e)),
{
}

/// Once a cached token is no longer valid for more than the margin, a stored refresh
/// token is tried before any sign-in.
pub proof fn lemma_refresh_before_sign_in(c: ConfigView, now: u64)
    requires
        !token_still_valid(c, now),
        c.refresh_token is Some,
    ensures
        spec_token_start(c, now) == TokenActionView::Refresh(c.refresh_token->0),
{
}


/// The permissions asked for at every sign-in.
pub const SCOPES: &'static str = "https://graph.microsoft.com/Team.ReadBasic.All https://graph.microsoft.com/Channel.ReadBasic.All https://graph.microsoft.com/ChannelMessage.Send https://graph.microsoft.com/Chat.ReadBasic https://graph.microsoft.com/ChatMessage.Send offline_access";

/// The address of the sign-in service of a tenant, without the endpoint's name.
pub open spec fn login_base(tenant_id: Seq<char>) -> Seq<char> {
    "https://login.microsoftonline.com/"@ + tenant_id + "/oauth2/v2.0/"@
}

/// The token endpoint of a tenant.
pub open spec fn spec_token_url(tenant_id: Seq<char>) -> Seq<char> {
    login_base(tenant_id) + "token"@
}

/// `https://login.microsoftonline.com/<tenant>/oauth2/v2.0/<endpoint>`.
fn login_url(tenant_id: &str, endpoint: &str) -> (url: String)
    ensures
        url@ == login_base(tenant_id@) + endpoint@,
{
    let mut url = "https://login.microsoftonline.com/".to_string();
    url.append(tenant_id);
    url.append("/oauth2/v2.0/");
    url.append(endpoint);
    url
}

/// The token endpoint of a tenant.
pub fn token_url(tenant_id: &str) -> (url: String)
    ensures
        url@ == spec_token_url(tenant_id@),
{
    login_url(tenant_id, "token")
}

/// The device-code endpoint of a tenant.
pub fn device_code_url(tenant_id: &str) -> (url: String)
    ensures
        url@ == login_base(tenant_id@) + "devicecode"@,
{
    login_url(tenant_id, "devicecode")
}

/// The fields of a form, as plain text pairs.
pub open spec fn form_view(form: Vec<(String, String)>) -> Seq<(Seq<char>, Seq<char>)> {
    form.deep_view()
}

fn push_field(form: &mut Vec<(String, String)>, key: &str, value: &str)
    ensures
        form_view(*final(form)) == form_view(*old(form)).push((key@, value@)),
{
    let ghost before = form_view(*form);
    form.push((key.to_string(), value.to_string()));
    assert(form_view(*form) =~= before.push((key@, value@)));
}

/// The form that redeems a refresh token.
pub open spec fn spec_refresh_form(c: ConfigView, refresh_token: Seq<char>) -> Seq<(Seq<char>, Seq<char>)> {
    seq![
        ("grant_type"@, "refresh_token"@),
        ("client_id"@, c.client_id),
        ("refresh_token"@, refresh_token),
        ("scope"@, SCOPES@),
    ]
}

/// The form posted to the token endpoint to redeem a refresh token.
pub fn refresh_form(config: &Config, refresh_token: &str) -> (form: Vec<(String, String)>)
    ensures
        form_view(form) == spec_refresh_form(config@, refresh_token@),
{
    let mut form: Vec<(String, String)> = Vec::new();
    push_field(&mut form, "grant_type", "refresh_token");
    push_field(&mut form, "client_id", config.client_id.as_str());
    push_field(&mut form, "refresh_token", refresh_token);
    push_field(&mut form, "scope", SCOPES);
    assert(form_view(form) =~= spec_refresh_form(config@, refresh_token@));
    form
}

/// Whether a credential is present and not empty.
pub open spec fn credential_given(v: Option<Seq<char>>) -> bool {
    v is Some && v->0.len() > 0
}

/// The form for a password sign-in, or the error when a credential is missing or empty.
pub open spec fn spec_password_form(c: ConfigView) -> Result<Seq<(Seq<char>, Seq<char>)>, Seq<char>> {
    if !credential_given(c.username) {
        Err("username not set — required for password auth"@)
    } else if !credential_given(c.password) {
        Err("password not set — required for password auth"@)
    } else {
        Ok(seq![
            ("grant_type"@, "password"@),
            ("client_id"@, c.client_id),
            ("username"@, c.username->0),
            ("password"@, c.password->0),
            ("scope"@, SCOPES@),
        ])
    }
}

/// The password form as plain values.
pub open spec fn form_result_view(r: Result<Vec<(String, String)>, String>) -> Result<Seq<(Seq<char>, Seq<char>)>, Seq<char>> {
    match r {
        Ok(f) => Ok(form_view(f)),
        Err(e) => Err(e@),
    }
}

/// A credential that is present and not empty.
fn given(v: &Option<String>) -> (r: Option<&String>)
    ensures
        r is Some <==> credential_given(v.deep_view()),
        r matches Some(s) ==> Some(s@) == v.deep_view(),
{
    match v {
        Some(s) => if s.as_str().is_empty() { None } else { Some(s) },
        None => None,
    }
}

/// The form posted to the token endpoint for a username/password sign-in; both
/// must be set and not empty.
pub fn password_form(config: &Config) -> (r: Result<Vec<(String, String)>, String>)
    ensures
        form_result_view(r) == spec_password_form(config@),
{
    let username = match given(&config.username) {
        Some(u) => u,
        None => return Err("username not set — required for password auth".to_string()),
    };
    let password = match given(&config.password) {
        Some(p) => p,
        None => return Err("password not set — required for password auth".to_string()),
    };
    let mut form: Vec<(String, String)> = Vec::new();
    push_field(&mut form, "grant_type", "password");
    push_field(&mut form, "client_id", config.client_id.as_str());
    push_field(&mut form, "username", username.as_str());
    push_field(&mut form, "password", password.as_str());
    push_field(&mut form, "scope", SCOPES);
    assert(form_view(form) =~= spec_password_form(config@)->Ok_0);
    Ok(form)
}

/// A password sign-in is possible exactly when a non-empty username and password
/// are stored, and its form then carries exactly those, with the client id.
pub proof fn lemma_password_form_carries_credentials(c: ConfigView)
    ensures
        spec_password_form(c) is Ok <==> (c.username is Some && c.username->0.len() > 0
            && c.password is Some && c.password->0.len() > 0),
        spec_password_form(c) matches Ok(f) ==> f.len() == 5 && f.contains(("username"@, c.username->0))
            && f.contains(("password"@, c.password->0)) && f.contains(("client_id"@, c.client_id))
            && f.contains(("grant_type"@, "password"@)),
{
    if spec_password_form(c) is Ok {
        let f = spec_password_form(c)->Ok_0;
        assert(f[0] == ("grant_type"@, "password"@));
        assert(f[1] == ("client_id"@, c.client_id));
        assert(f[2] == ("username"@, c.username->0));
        assert(f[3] == ("password"@, c.password->0));
    }
}

/// The form that trades an authorization code for a token.
pub open spec fn spec_code_form(c: ConfigView, code: Seq<char>, redirect_uri: Seq<char>) -> Seq<(Seq<char>, Seq<char>)> {
    seq![
        ("grant_type"@, "authorization_code"@),
        ("client_id"@, c.client_id),
        ("code"@, code),
        ("redirect_uri"@, redirect_uri),
        ("scope"@, SCOPES@),
    ]
}

/// The form posted to the token endpoint to trade an authorization code.
pub fn code_form(config: &Config, code: &str, redirect_uri: &str) -> (form: Vec<(String, String)>)
    ensures
        form_view(form) == spec_code_form(config@, code@, redirect_uri@),
{
    let mut form: Vec<(String, String)> = Vec::new();
    push_field(&mut form, "grant_type", "authorization_code");
    push_field(&mut form, "client_id", config.client_id.as_str());
    push_field(&mut form, "code", code);
    push_field(&mut form, "redirect_uri", redirect_uri);
    push_field(&mut form, "scope", SCOPES);
    assert(form_view(form) =~= spec_code_form(config@, code@, redirect_uri@));
    form
}

/// The form that asks for a device code.
pub open spec fn spec_device_code_form(c: ConfigView) -> Seq<(Seq<char>, Seq<char>)> {
    seq![("client_id"@, c.client_id), ("scope"@, SCOPES@)]
}

/// The form posted to the device-code endpoint.
pub fn device_code_form(config: &Config) -> (form: Vec<(String, String)>)
    ensures
        form_view(form) == spec_device_code_form(config@),
{
    let mut form: Vec<(String, String)> = Vec::new();
    push_field(&mut form, "client_id", config.client_id.as_str());
    push_field(&mut form, "scope", SCOPES);
    assert(form_view(form) =~= spec_device_code_form(config@));
    form
}

/// The form that asks whether a device code has been confirmed.
pub open spec fn spec_device_poll_form(c: ConfigView, device_code: Seq<char>) -> Seq<(Seq<char>, Seq<char>)> {
    seq![
        ("grant_type"@, "urn:ietf:params:oauth:grant-type:device_code"@),
        ("client_id"@, c.client_id),
        ("device_code"@, device_code),
    ]
}

/// The form posted to the token endpoint while waiting for a device code.
pub fn device_poll_form(config: &Config, device_code: &str) -> (form: Vec<(String, String)>)
    ensures
        form_view(form) == spec_device_poll_form(config@, device_code@),
{
    let mut form: Vec<(String, String)> = Vec::new();
    push_field(&mut form, "grant_type", "urn:ietf:params:oauth:grant-type:device_code");
    push_field(&mut form, "client_id", config.client_id.as_str());
    push_field(&mut form, "device_code", device_code);
    assert(form_view(form) =~= spec_device_poll_form(config@, device_code@));
    form
}


/// The message for a token endpoint reply with an error status.
pub fn token_error(status: &str, body: &str) -> (e: String)
    ensures
        e@ == "Token error "@ + status@ + ": "@ + body@,
{
    let mut e = "Token error ".to_string();
    e.append(status);
    e.append(": ");
    e.append(body);
    e
}

/// The message for a device-code endpoint reply with an error status.
pub fn device_request_error(status: &str, body: &str) -> (e: String)
    ensures
        e@ == "Device code request failed "@ + status@ + ": "@ + body@,
{
    let mut e = "Device code request failed ".to_string();
    e.append(status);
    e.append(": ");
    e.append(body);
    e
}

/// The reply of the device-code endpoint.
#[derive(Debug)]
pub struct DeviceCodeResponse {
    pub device_code: String,
    pub user_code: String,
    pub verification_uri: String,
    pub expires_in: u64,
    pub interval: u64,
    pub message: String,
}

/// A reply to a poll for a device code.
#[derive(Debug)]
pub struct DeviceCodePollResponse {
    pub access_token: Option<String>,
    pub refresh_token: Option<String>,
    pub expires_in: Option<u64>,
    pub error: Option<String>,
}

/// The shortest wait between two polls, in seconds.
pub const MIN_POLL_INTERVAL: u64 = 5;

/// The extra wait, in seconds, when the endpoint asks to slow down.
pub const SLOW_DOWN_SECS: u64 = 5;

/// Lifetime assumed for a token whose reply gives none, in seconds.
pub const DEFAULT_EXPIRES_IN: u64 = 3600;

/// The wait between polls: the interval the endpoint asked for, but at least
/// `MIN_POLL_INTERVAL` seconds.
pub fn poll_interval(interval: u64) -> (secs: u64)
    ensures
        secs == if interval < MIN_POLL_INTERVAL { MIN_POLL_INTERVAL } else { interval },
        secs >= MIN_POLL_INTERVAL,
{
    if interval < MIN_POLL_INTERVAL { MIN_POLL_INTERVAL } else { interval }
}

/// Waiting for the user to confirm a device code.
#[derive(Debug)]
pub struct DeviceWait {
    /// The code to poll with.
    pub device_code: String,
    /// When the code expires, in seconds since the Unix epoch.
    pub deadline: u64,
    /// Seconds between two polls.
    pub interval: u64,
}

/// The wait for a device code received at time `now`.
pub fn device_wait_at(dc: &DeviceCodeResponse, now: u64) -> (w: DeviceWait)
    requires
        now + dc.expires_in <= u64::MAX,
    ensures
        w.device_code@ == dc.device_code@,
        w.deadline == now + dc.expires_in,
        w.interval == if dc.interval < MIN_POLL_INTERVAL { MIN_POLL_INTERVAL } else { dc.interval },
{
    DeviceWait {
        device_code: dc.device_code.clone(),
        deadline: now + dc.expires_in,
        interval: poll_interval(dc.interval),
    }
}

/// Whether a deadline `expires_in` seconds after `now` fits in a `u64`.
pub open spec fn deadline_fits(expires_in: u64, now: u64) -> bool {
    now + expires_in <= u64::MAX
}

/// The wait for a device code received at the current time `now` read from the
/// clock, as `device_wait_at` makes it at `now`: the deadline is `now + expires_in`.
/// `None` exactly where that deadline would not fit in a `u64`.
pub fn device_wait(dc: &DeviceCodeResponse) -> (w: Option<DeviceWait>)
    ensures
        exists|now: u64| {
            &&& (w is Some <==> #[trigger] deadline_fits(dc.expires_in, now))
            &&& w matches Some(w) ==> w.deadline == now + dc.expires_in
        },
        w matches Some(w) ==> w.device_code@ == dc.device_code@,
        w matches Some(w) ==> w.interval == if dc.interval < MIN_POLL_INTERVAL { MIN_POLL_INTERVAL } else { dc.interval },
{
    let now = now_unix();
    if now <= u64::MAX - dc.expires_in {
        let w = device_wait_at(dc, now);
        assert(deadline_fits(dc.expires_in, now));
        Some(w)
    } else {
        assert(!deadline_fits(dc.expires_in, now));
        None
    }
}

/// The error once the device code has expired unconfirmed.
pub open spec fn spec_device_timeout(w_deadline: u64, now: u64) -> Option<Seq<char>> {
    if now >= w_deadline {
        Some("Device code flow timed out — user did not complete authentication"@)
    } else {
        None
    }
}

/// The error to give up with at time `now`, once the deadline is reached.
pub fn device_timeout_at(w: &DeviceWait, now: u64) -> (e: Option<String>)
    ensures
        e.deep_view() == spec_device_timeout(w.deadline, now),
{
    if now >= w.deadline {
        Some("Device code flow timed out — user did not complete authentication".to_string())
    } else {
        None
    }
}

/// The error to give up with now, once the deadline is reached.
pub fn device_timeout(w: &DeviceWait) -> (e: Option<String>)
    ensures
        exists|now: u64| e.deep_view() == #[trigger] spec_device_timeout(w.deadline, now),
{
    let now = now_unix();
    device_timeout_at(w, now)
}

/// Readings of the clock that each come at least `interval` seconds after the one
/// before have all advanced by at least that much per step since the first.
proof fn lemma_readings_advance(readings: Seq<u64>, interval: u64, j: int)
    requires
        0 <= j < readings.len(),
        forall|i: int| 0 <= i < readings.len() - 1 ==> #[trigger] readings[i + 1] >= readings[i] + interval,
    ensures
        readings[j] >= readings[0] + j * interval,
    decreases j,
{
    if j > 0 {
        lemma_readings_advance(readings, interval, j - 1);
        let p = j - 1;
        assert(readings[p + 1] >= readings[p] + interval);
        assert(readings[0] + (j - 1) * interval + interval == readings[0] + j * interval) by (nonlinear_arith);
    }
}

/// The wait for a device code ends. Let the wait start at `start` (its deadline
/// `deadline` not before it), and let the checks of the clock come at least the poll
/// interval (`MIN_POLL_INTERVAL` seconds or more) after one another, the first not
/// before `start`. Then the check numbered `(deadline - start) / interval + 1` gives
/// the timeout error, if no earlier one did.
pub proof fn lemma_device_wait_ends(start: u64, deadline: u64, interval: u64, readings: Seq<u64>)
    requires
        interval >= MIN_POLL_INTERVAL,
        start <= deadline,
        readings.len() > (deadline - start) / (interval as int) + 1,
        readings[0] >= start,
        forall|i: int| 0 <= i < readings.len() - 1 ==> #[trigger] readings[i + 1] >= readings[i] + interval,
    ensures
        spec_device_timeout(deadline, readings[(deadline - start) / (interval as int) + 1]) is Some,
{
    let d: int = deadline - start;
    let i: int = interval as int;
    let k: int = d / i + 1;
    lemma_readings_advance(readings, interval, k);
    assert(k * i > d) by (nonlinear_arith)
        requires
            i > 0,
            d >= 0,
            k == d / i + 1,
    {
        assert(d == i * (d / i) + d % i);
        assert(d % i < i);
        assert(k * i == i * (d / i) + i);
    }
}

/// What to do after a poll reply.
#[derive(Debug)]
pub enum PollStep {
    /// The user confirmed: here is the token.
    Token(TokenResponse),
    /// Not yet: poll again after the interval.
    Wait,
    /// Not yet, and poll less often: wait `SLOW_DOWN_SECS` more first.
    SlowDown,
    /// Give up with this error.
    Fail(String),
}

/// A poll step as plain values.
pub enum PollStepView {
    Token(TokenResponseView),
    Wait,
    SlowDown,
    Fail(Seq<char>),
}

impl View for PollStep {
    type V = PollStepView;

    open spec fn view(&self) -> PollStepView {
        match self {
            PollStep::Token(t) => PollStepView::Token(t@),
            PollStep::Wait => PollStepView::Wait,
            PollStep::SlowDown => PollStepView::SlowDown,
            PollStep::Fail(e) => PollStepView::Fail(e@),
        }
    }
}

/// The step after a poll reply: a token ends the wait (an hour's lifetime where none
/// is given); "authorization_pending" and no error at all mean poll again;
/// "slow_down" means poll again later; any other error ends the wait.
pub open spec fn spec_poll_step(
    access_token: Option<Seq<char>>,
    refresh_token: Option<Seq<char>>,
    expires_in: Option<u64>,
    error: Option<Seq<char>>,
) -> PollStepView {
    if access_token is Some {
        PollStepView::Token(TokenResponseView {
            access_token: access_token->0,
            refresh_token,
            expires_in: match expires_in { Some(e) => e, None => DEFAULT_EXPIRES_IN },
        })
    } else {
        match error {
            None => PollStepView::Wait,
            Some(e) => if e == "authorization_pending"@ {
                PollStepView::Wait
            } else if e == "slow_down"@ {
                PollStepView::SlowDown
            } else if e == "authorization_declined"@ {
                PollStepView::Fail("User declined the authentication request"@)
            } else if e == "expired_token"@ {
                PollStepView::Fail("Device code expired — user did not complete authentication in time"@)
            } else {
                PollStepView::Fail("Device code auth error: "@ + e)
            },
        }
    }
}

/// A poll reply that carries an access token ends the wait with exactly that
/// token, the reply's refresh token unchanged, and the reply's lifetime (an hour
/// where it gives none), whatever error it also names.
pub proof fn lemma_poll_token_kept(
    access_token: Seq<char>,
    refresh_token: Option<Seq<char>>,
    expires_in: Option<u64>,
    error: Option<Seq<char>>,
)
    ensures
        spec_poll_step(Some(access_token), refresh_token, expires_in, error) matches PollStepView::Token(t)
            && t.access_token == access_token
            && t.refresh_token == refresh_token
            && (expires_in matches Some(e) ==> t.expires_in == e)
            && (expires_in is None ==> t.expires_in == 3600),
{
}

/// Without an access token, the reply's error decides: none or
/// "authorization_pending" polls again, "slow_down" polls again later, and any other
/// error ends the wait with a failure.
pub proof fn lemma_poll_errors(
    refresh_token: Option<Seq<char>>,
    expires_in: Option<u64>,
    error: Option<Seq<char>>,
)
    ensures
        error is None ==> spec_poll_step(None, refresh_token, expires_in, error) is Wait,
        error == Some("authorization_pending"@) ==> spec_poll_step(None, refresh_token, expires_in, error) is Wait,
        error == Some("slow_down"@) ==> spec_poll_step(None, refresh_token, expires_in, error) is SlowDown,
        error matches Some(e) ==> (e != "authorization_pending"@ && e != "slow_down"@
            ==> spec_poll_step(None, refresh_token, expires_in, error) is Fail),
        error matches Some(e) ==> (e != "authorization_pending"@ && e != "slow_down"@ && e != "authorization_declined"@
            && e != "expired_token"@ ==> spec_poll_step(None, refresh_token, expires_in, error)
                == PollStepView::Fail("Device code auth error: "@ + e)),
{
    reveal_strlit("slow_down");
    reveal_strlit("authorization_pending");
    assert("slow_down"@.len() != "authorization_pending"@.len());
}

/// A poll reply without an access token never ends the wait with a token.
pub proof fn lemma_poll_without_token_gives_none(
    refresh_token: Option<Seq<char>>,
    expires_in: Option<u64>,
    error: Option<Seq<char>>,
)
    ensures
        !(spec_poll_step(None, refresh_token, expires_in, error) is Token),
{
}

/// Decides what a poll reply means.
pub fn poll_step(reply: DeviceCodePollResponse) -> (step: PollStep)
    ensures
        step@ == spec_poll_step(
            reply.access_token.deep_view(),
            reply.refresh_token.deep_view(),
            reply.expires_in,
            reply.error.deep_view(),
        ),
{
    if let Some(access_token) = reply.access_token {
        let expires_in = match reply.expires_in {
            Some(e) => e,
            None => DEFAULT_EXPIRES_IN,
        };
        return PollStep::Token(TokenResponse { access_token, refresh_token: reply.refresh_token, expires_in });
    }
    match reply.error {
        None => PollStep::Wait,
        Some(e) => {
            if same_text(e.as_str(), "authorization_pending") {
                PollStep::Wait
            } else if same_text(e.as_str(), "slow_down") {
                PollStep::SlowDown
            } else if same_text(e.as_str(), "authorization_declined") {
                PollStep::Fail("User declined the authentication request".to_string())
            } else if same_text(e.as_str(), "expired_token") {
                PollStep::Fail("Device code expired — user did not complete authentication in time".to_string())
            } else {
                let mut m = "Device code auth error: ".to_string();
                m.append(e.as_str());
                PollStep::Fail(m)
            }
        },
    }
}

} // verus!
