//! Configuration of the API client: environment variables over the config
//! file over built-in defaults, and how the client authenticates.
use vstd::prelude::*;

use crate::api_error::ApiError;
use crate::auth::OidcTokens;

verus! {

/// The optional settings of the config file.
pub struct FileConfig {
    pub base_url: Option<String>,
    pub api_key: Option<String>,
    pub context_slug: Option<String>,
    pub keycloak_url: Option<String>,
    pub oidc_realm: Option<String>,
    pub oidc_client_id: Option<String>,
}

/// The environment variables the client reads, as set (`None` when unset).
pub struct EnvVars {
    /// `TODO_API_URL`
    pub api_url: Option<String>,
    /// `TODO_API_KEY`
    pub api_key: Option<String>,
    /// `TODO_CONTEXT`
    pub context: Option<String>,
    /// `TODO_KEYCLOAK_URL`
    pub keycloak_url: Option<String>,
    /// `TODO_OIDC_REALM`
    pub oidc_realm: Option<String>,
    /// `TODO_OIDC_CLIENT_ID`
    pub oidc_client_id: Option<String>,
}

/// How the client authenticates.
pub enum AuthConfig {
    ApiKey(String),
    Bearer(String),
    /// OIDC is configured but no valid token is cached: login required.
    OidcLoginRequired,
}

/// The resolved client configuration.
pub struct Config {
    pub base_url: String,
    pub auth: AuthConfig,
    pub context_slug: String,
    /// OIDC settings, present when Keycloak is configured.
    pub oidc: Option<OidcConfig>,
}

/// Where and as whom to log in with OIDC.
pub struct OidcConfig {
    pub keycloak_url: String,
    pub realm: String,
    pub client_id: String,
}

pub open spec fn opt_view(o: Option<String>) -> Option<Seq<char>> {
    match o {
        Some(s) => Some(s@),
        None => None,
    }
}

/// An environment value counts only when it is set and not empty.
pub open spec fn set_value(o: Option<String>) -> Option<Seq<char>> {
    match o {
        Some(s) => if s@.len() > 0 {
            Some(s@)
        } else {
            None
        },
        None => None,
    }
}

/// The first of the environment value and the file value that is there,
/// else the default.
pub open spec fn pick(env: Option<String>, file: Option<String>, default: Seq<char>) -> Seq<char> {
    match set_value(env) {
        Some(v) => v,
        None => match opt_view(file) {
            Some(v) => v,
            None => default,
        },
    }
}

fn nonempty(o: &Option<String>) -> (r: Option<String>)
    ensures
        opt_view(r) == set_value(*o),
{
    match o {
        Some(s) => {
            if s.as_str().unicode_len() > 0 {
                Some(s.clone())
            } else {
                None
            }
        },
        None => None,
    }
}

fn pick_value(env: &Option<String>, file: &Option<String>, default: &str) -> (r: String)
    ensures
        r@ == pick(*env, *file, default@),
{
    match nonempty(env) {
        Some(v) => v,
        None => match file {
            Some(v) => v.clone(),
            None => String::from_str(default),
        },
    }
}

/// The API's base URL: `TODO_API_URL`, the file's `base_url`, or
/// `http://localhost:8000`.
pub fn resolve_base_url(file: &FileConfig, env: &EnvVars) -> (r: String)
    ensures
        r@ == pick(env.api_url, file.base_url, "http://localhost:8000"@),
{
    pick_value(&env.api_url, &file.base_url, "http://localhost:8000")
}

/// The active context: `TODO_CONTEXT`, the file's `context_slug`, or
/// `inbox`.
pub fn resolve_context(file: &FileConfig, env: &EnvVars) -> (r: String)
    ensures
        r@ == pick(env.context, file.context_slug, "inbox"@),
{
    pick_value(&env.context, &file.context_slug, "inbox")
}

/// The OIDC settings: present when a Keycloak URL is set in the
/// environment or the file; realm and client id default to `todo` and
/// `todo-tui`.
pub fn resolve_oidc_config(file: &FileConfig, env: &EnvVars) -> (r: Option<OidcConfig>)
    ensures
        match r {
            None => set_value(env.keycloak_url) is None && file.keycloak_url is None,
            Some(c) => {
                &&& c.keycloak_url@ == pick(env.keycloak_url, file.keycloak_url, seq![])
                &&& (set_value(env.keycloak_url) is Some || file.keycloak_url is Some)
                &&& c.realm@ == pick(env.oidc_realm, file.oidc_realm, "todo"@)
                &&& c.client_id@ == pick(env.oidc_client_id, file.oidc_client_id, "todo-tui"@)
            },
        },
{
    let keycloak_url = match nonempty(&env.keycloak_url) {
        Some(v) => v,
        None => match &file.keycloak_url {
            Some(v) => v.clone(),
            None => return None,
        },
    };
    let realm = pick_value(&env.oidc_realm, &file.oidc_realm, "todo");
    let client_id = pick_value(&env.oidc_client_id, &file.oidc_client_id, "todo-tui");
    Some(OidcConfig { keycloak_url, realm, client_id })
}

/// Without OIDC the client needs an API key: `TODO_API_KEY` or the file's
/// `api_key`.
pub fn api_key_auth(file: &FileConfig, env: &EnvVars) -> (r: Result<AuthConfig, ApiError>)
    ensures
        match r {
            Ok(AuthConfig::ApiKey(k)) => (set_value(env.api_key) is Some || file.api_key is Some) && k@ == pick(
                env.api_key,
                file.api_key,
                seq![],
            ),
            Ok(_) => false,
            Err(ApiError::Config(m)) => set_value(env.api_key) is None && file.api_key is None
                && m@ == "no valid auth: set TODO_API_KEY, or run ':auth login' in the TUI"@,
            Err(_) => false,
        },
{
    match nonempty(&env.api_key) {
        Some(k) => Ok(AuthConfig::ApiKey(k)),
        None => match &file.api_key {
            Some(k) => Ok(AuthConfig::ApiKey(k.clone())),
            None => Err(
                ApiError::Config(String::from_str("no valid auth: set TODO_API_KEY, or run ':auth login' in the TUI")),
            ),
        },
    }
}

/// What to do with saved tokens when OIDC is configured.
pub enum TokenCheck {
    /// The access token is still good.
    UseBearer(String),
    /// The access token expired; try this refresh token.
    Refresh(String),
    /// No usable token: the user must log in.
    LoginRequired,
}

/// With OIDC configured: use a saved access token that has not expired
/// at `now`, else refresh it with its refresh token if there is one, else
/// ask for a login.
pub fn check_tokens(tokens: &Option<OidcTokens>, now: u64) -> (r: TokenCheck)
    ensures
        match tokens {
            None => r is LoginRequired,
            Some(t) => if !t.expired_at(now) {
                r matches TokenCheck::UseBearer(a) && a@ == t.access_token@
            } else {
                match t.refresh_token {
                    Some(rt) => r matches TokenCheck::Refresh(x) && x@ == rt@,
                    None => r is LoginRequired,
                }
            },
        },
{
    match tokens {
        None => TokenCheck::LoginRequired,
        Some(t) => {
            if !t.is_expired_at(now) {
                TokenCheck::UseBearer(t.access_token.clone())
            } else {
                match &t.refresh_token {
                    Some(rt) => TokenCheck::Refresh(rt.clone()),
                    None => TokenCheck::LoginRequired,
                }
            }
        },
    }
}

/// After a refresh attempt: the new access token when the refresh and the
/// saving of the new tokens both succeeded, else a login is required.
pub fn auth_after_refresh(refreshed: Option<OidcTokens>) -> (r: AuthConfig)
    ensures
        match refreshed {
            Some(t) => r matches AuthConfig::Bearer(a) && a@ == t.access_token@,
            None => r is OidcLoginRequired,
        },
{
    match refreshed {
        Some(t) => AuthConfig::Bearer(t.access_token),
        None => AuthConfig::OidcLoginRequired,
    }
}

/// How the client authenticates. With OIDC configured (`oidc_configured`)
/// it never uses an API key and never fails: a saved access token that
/// has not expired at `now`, else the access token of `refreshed` (the
/// outcome of refreshing with the saved refresh token, present when the
/// refresh and the saving of its tokens succeeded), else a login is
/// required. Without OIDC it uses the API key, or fails without one.
pub fn resolve_auth(
    oidc_configured: bool,
    file: &FileConfig,
    env: &EnvVars,
    tokens: &Option<OidcTokens>,
    now: u64,
    refreshed: Option<OidcTokens>,
) -> (r: Result<AuthConfig, ApiError>)
    ensures
        !oidc_configured ==> match r {
            Ok(AuthConfig::ApiKey(k)) => (set_value(env.api_key) is Some || file.api_key is Some) && k@ == pick(
                env.api_key,
                file.api_key,
                seq![],
            ),
            Ok(_) => false,
            Err(ApiError::Config(m)) => set_value(env.api_key) is None && file.api_key is None
                && m@ == "no valid auth: set TODO_API_KEY, or run ':auth login' in the TUI"@,
            Err(_) => false,
        },
        oidc_configured ==> r is Ok && !(r->Ok_0 is ApiKey),
        oidc_configured ==> match tokens {
            None => r matches Ok(AuthConfig::OidcLoginRequired),
            Some(t) => if !t.expired_at(now) {
                r matches Ok(AuthConfig::Bearer(a)) && a@ == t.access_token@
            } else {
                match (t.refresh_token, refreshed) {
                    (Some(_), Some(n)) => r matches Ok(AuthConfig::Bearer(a)) && a@ == n.access_token@,
                    _ => r matches Ok(AuthConfig::OidcLoginRequired),
                }
            },
        },
{
    if !oidc_configured {
        return api_key_auth(file, env);
    }
    match check_tokens(tokens, now) {
        TokenCheck::UseBearer(a) => Ok(AuthConfig::Bearer(a)),
        TokenCheck::LoginRequired => Ok(AuthConfig::OidcLoginRequired),
        TokenCheck::Refresh(_) => Ok(auth_after_refresh(refreshed)),
    }
}

impl Config {
    /// The configuration from the file, the environment and the chosen
    /// authentication.
    pub fn resolve(file: &FileConfig, env: &EnvVars, auth: AuthConfig, oidc: Option<OidcConfig>) -> (c: Config)
        ensures
            c.base_url@ == pick(env.api_url, file.base_url, "http://localhost:8000"@),
            c.context_slug@ == pick(env.context, file.context_slug, "inbox"@),
            c.auth == auth,
            c.oidc == oidc,
    {
        Config {
            base_url: resolve_base_url(file, env),
            auth,
            context_slug: resolve_context(file, env),
            oidc,
        }
    }
}

/// A partial update of a note: only the fields that are set change.
pub struct PatchedNote {
    pub title: Option<String>,
    pub body: Option<String>,
}

/// The empty payload of deletion events.
pub struct EmptyPayload {}

} // verus!
