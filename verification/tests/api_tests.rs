use todo_tui::api_config::{
    api_key_auth, auth_after_refresh, check_tokens, resolve_auth, resolve_oidc_config, AuthConfig, Config, EnvVars,
    FileConfig, TokenCheck,
};
use todo_tui::api_error::{check_status, detail_from, extract_detail, JsonDoc, JsonItem, status_text, truncate, ApiError};
use todo_tui::auth::{
    auth_url, extract_code_from_request_line, logout_url, pkce_challenge, redirect_uri, refresh_token_to_revoke,
    token_url, tokens_from_response, url_decode, url_encode, utf8_bytes, OidcTokens,
};
use todo_tui::mailer::{parse_u16, SmtpConfig, SmtpConfigError, SmtpEnv};
use todo_tui::store_config;

fn no_env() -> EnvVars {
    EnvVars { api_url: None, api_key: None, context: None, keycloak_url: None, oidc_realm: None, oidc_client_id: None }
}

fn no_file() -> FileConfig {
    FileConfig {
        base_url: None,
        api_key: None,
        context_slug: None,
        keycloak_url: None,
        oidc_realm: None,
        oidc_client_id: None,
    }
}

fn resolve(file: &FileConfig, env: &EnvVars) -> Result<Config, ApiError> {
    let oidc = resolve_oidc_config(file, env);
    let auth = api_key_auth(file, env)?;
    Ok(Config::resolve(file, env, auth, oidc))
}

#[test]
fn env_overrides_file() {
    let file = FileConfig {
        base_url: Some("http://file".into()),
        api_key: Some("file-key".into()),
        context_slug: Some("file-ctx".into()),
        ..no_file()
    };
    let env = EnvVars {
        api_url: Some("http://env".into()),
        api_key: Some("env-key".into()),
        context: Some("env-ctx".into()),
        ..no_env()
    };
    let cfg = resolve(&file, &env).unwrap_or_else(|_| panic!("config"));
    assert_eq!(cfg.base_url, "http://env");
    assert!(matches!(cfg.auth, AuthConfig::ApiKey(ref k) if k == "env-key"));
    assert_eq!(cfg.context_slug, "env-ctx");
}

#[test]
fn file_fills_gaps() {
    let file = FileConfig { base_url: Some("http://file".into()), api_key: Some("file-key".into()), ..no_file() };
    let cfg = resolve(&file, &no_env()).unwrap_or_else(|_| panic!("config"));
    assert_eq!(cfg.base_url, "http://file");
    assert!(matches!(cfg.auth, AuthConfig::ApiKey(ref k) if k == "file-key"));
    assert_eq!(cfg.context_slug, "inbox");
}

#[test]
fn missing_key_errors() {
    let err = match resolve(&no_file(), &no_env()) {
        Err(e) => e,
        Ok(_) => panic!("expected an error"),
    };
    assert!(matches!(err, ApiError::Config(_)));
    assert_eq!(err.message(), "config error: no valid auth: set TODO_API_KEY, or run ':auth login' in the TUI");
}

#[test]
fn empty_env_values_do_not_count() {
    let env = EnvVars { api_url: Some(String::new()), api_key: Some(String::new()), ..no_env() };
    let file = FileConfig { api_key: Some("k".into()), ..no_file() };
    let cfg = resolve(&file, &env).unwrap_or_else(|_| panic!("config"));
    assert_eq!(cfg.base_url, "http://localhost:8000");
    assert!(matches!(cfg.auth, AuthConfig::ApiKey(ref k) if k == "k"));
}

#[test]
fn oidc_defaults() {
    assert!(resolve_oidc_config(&no_file(), &no_env()).is_none());
    let env = EnvVars { keycloak_url: Some("https://kc".into()), ..no_env() };
    let o = resolve_oidc_config(&no_file(), &env).unwrap();
    assert_eq!((o.keycloak_url.as_str(), o.realm.as_str(), o.client_id.as_str()), ("https://kc", "todo", "todo-tui"));
}

#[test]
fn token_checks() {
    let t = OidcTokens { access_token: "at".into(), refresh_token: Some("rt".into()), expires_at: 1000 };
    assert!(!t.is_expired_at(969));
    assert!(t.is_expired_at(970));
    assert!(matches!(check_tokens(&Some(OidcTokens { ..t.clone_for_test() }), 100), TokenCheck::UseBearer(ref a) if a == "at"));
    assert!(matches!(check_tokens(&Some(t.clone_for_test()), 5000), TokenCheck::Refresh(ref r) if r == "rt"));
    let no_rt = OidcTokens { access_token: "at".into(), refresh_token: None, expires_at: 0 };
    assert!(no_rt.is_expired());
    assert!(matches!(check_tokens(&Some(no_rt), 0), TokenCheck::LoginRequired));
    assert!(matches!(check_tokens(&None, 0), TokenCheck::LoginRequired));
    assert!(matches!(auth_after_refresh(None), AuthConfig::OidcLoginRequired));
    assert!(matches!(auth_after_refresh(Some(t.clone_for_test())), AuthConfig::Bearer(ref a) if a == "at"));
    assert_eq!(refresh_token_to_revoke(&Some(t)), Some("rt".to_string()));
    assert_eq!(refresh_token_to_revoke(&None), None);
    let fresh = tokens_from_response("a".into(), None, 300, 1_700_000_000);
    assert_eq!(fresh.expires_at, 1_700_000_300);
}

trait CloneForTest {
    fn clone_for_test(&self) -> Self;
}

impl CloneForTest for OidcTokens {
    fn clone_for_test(&self) -> Self {
        OidcTokens {
            access_token: self.access_token.clone(),
            refresh_token: self.refresh_token.clone(),
            expires_at: self.expires_at,
        }
    }
}

#[test]
fn truncate_counts_characters() {
    assert_eq!(truncate("short", 80), "short");
    assert_eq!(truncate("abcdef", 3), "abc…");
    assert_eq!(truncate("ééé", 2), "éé…");
}

#[test]
fn status_lines() {
    assert_eq!(ApiError::Network("x".into()).status_line(), "offline — read-only");
    assert!(ApiError::Network("x".into()).is_network());
    assert!(!ApiError::StaleNote.is_network());
    assert_eq!(ApiError::NotFound("gone".into()).status_line(), "not found: gone");
    assert_eq!(ApiError::StaleNote.status_line(), "item changed elsewhere — reopen");
    assert_eq!(ApiError::Http { status: 500, body: "boom".into() }.status_line(), "api 500 Internal Server Error: boom");
    assert_eq!(status_text(404), "404 Not Found");
    assert_eq!(status_text(599), "599 <unknown status code>");
    assert_eq!(ApiError::StaleNote.message(), "item changed elsewhere — reopen and retry");
}

#[test]
fn status_codes_map_to_errors() {
    assert!(check_status(204, String::new()).is_ok());
    assert!(matches!(check_status(401, "{\"detail\": \"nope\"}".into()), Err(ApiError::Unauthorized)));
    assert!(matches!(check_status(412, "{\"detail\": \"stale\"}".into()), Err(ApiError::StaleNote)));
    match check_status(409, "{\"detail\": \"slug already exists\"}".into()) {
        Err(ApiError::Conflict(d)) => assert!(d.contains("slug")),
        _ => panic!("expected a conflict"),
    }
    match check_status(422, "{\"detail\": [1, 2]}".into()) {
        Err(ApiError::BadRequest(d)) => assert_eq!(d, "[1,2]"),
        _ => panic!("expected a bad request"),
    }
    match check_status(503, "down".into()) {
        Err(ApiError::Http { status, body }) => assert_eq!((status, body.as_str()), (503, "down")),
        _ => panic!("expected an http error"),
    }
}

#[test]
fn detail_extraction() {
    assert_eq!(extract_detail("{\"detail\": \"x\"}"), "x");
    assert_eq!(extract_detail("{\"other\": 1}"), "{\"other\": 1}");
    assert_eq!(extract_detail("not json"), "not json");
    assert_eq!(extract_detail("{\"detail\": {\"a\": 1}}"), "{\"a\":1}");
}

#[test]
fn url_coding() {
    assert_eq!(url_encode("http://localhost:8080/callback"), "http%3a%2f%2flocalhost%3a8080%2fcallback");
    assert_eq!(url_encode("a b~é"), "a%20b~%c3%a9");
    assert_eq!(url_decode("a%20b%7e%C3%A9"), "a b~é");
    assert_eq!(url_decode("100%"), "100%");
    assert_eq!(url_decode("%zz%4"), "%zz%4");
    for s in ["", "plain", "with space & symbols?=", "ünïcödé ☃"] {
        assert_eq!(url_decode(&url_encode(s)), s);
    }
    assert_eq!(utf8_bytes("é"), vec![0xC3, 0xA9]);
}

#[test]
fn callback_code_extraction() {
    let line = "GET /callback?code=abc%2Fdef&session_state=xyz HTTP/1.1\r\n";
    assert_eq!(extract_code_from_request_line(line), Some("abc/def".to_string()));
    assert_eq!(extract_code_from_request_line("GET /callback?state=1&code=z HTTP/1.1"), Some("z".to_string()));
    assert_eq!(extract_code_from_request_line("GET /callback HTTP/1.1"), None);
    assert_eq!(extract_code_from_request_line("GET /callback?state=1 HTTP/1.1"), None);
    assert_eq!(extract_code_from_request_line(""), None);
}

#[test]
fn pkce_known_vector() {
    assert_eq!(pkce_challenge("dBjftJeZ4CVP-mB92K27uhbUJU1p1r_wW1gFWFOEjXk"), "E9Melhoa2OwvFrEMTJguCHaoeK1t8URWbuGJSstw-cM");
    let v = todo_tui::auth::generate_code_verifier();
    assert_eq!(v.len(), 43);
}

#[test]
fn keycloak_endpoints() {
    assert_eq!(token_url("https://kc", "r"), "https://kc/realms/r/protocol/openid-connect/token");
    assert_eq!(logout_url("https://kc", "r"), "https://kc/realms/r/protocol/openid-connect/logout");
    assert_eq!(redirect_uri(8765), "http://localhost:8765/callback");
    assert_eq!(
        auth_url("https://kc", "r", "cli", "http://localhost:1/callback", "CH"),
        "https://kc/realms/r/protocol/openid-connect/auth?response_type=code&client_id=cli&redirect_uri=http%3a%2f%2flocalhost%3a1%2fcallback&code_challenge=CH&code_challenge_method=S256&scope=openid+email+profile"
    );
}

#[test]
fn port_parsing() {
    assert_eq!(parse_u16("465"), Some(465));
    assert_eq!(parse_u16("+25"), Some(25));
    assert_eq!(parse_u16("65535"), Some(65535));
    assert_eq!(parse_u16("65536"), None);
    assert_eq!(parse_u16(""), None);
    assert_eq!(parse_u16("+"), None);
    assert_eq!(parse_u16(" 25"), None);
    assert_eq!(parse_u16("-1"), None);
    for s in ["0", "007", "99999", "12a"] {
        assert_eq!(parse_u16(s), s.parse::<u16>().ok());
    }
}

#[test]
fn smtp_settings() {
    let env = SmtpEnv { host: None, port: None, user: Some("me@x".into()), pass: Some("pw".into()), from: None };
    let c = SmtpConfig::from_env_values(env).unwrap_or_else(|_| panic!("settings"));
    assert_eq!((c.host.as_str(), c.port, c.from.as_str()), ("smtp.gmail.com", 465, "me@x"));
    let bad = SmtpEnv { host: None, port: Some("x".into()), user: None, pass: None, from: None };
    assert_eq!(SmtpConfig::from_env_values(bad).err(), Some(SmtpConfigError::BadPort));
    let no_user = SmtpEnv { host: None, port: None, user: None, pass: Some("p".into()), from: None };
    assert_eq!(SmtpConfig::from_env_values(no_user).err(), Some(SmtpConfigError::MissingUser));
    assert_eq!(SmtpConfigError::MissingUser.message(), "TODO_SMTP_USER not set");
}

#[test]
fn store_config_merge() {
    let d = store_config::Config::defaults("/home/u/.local/share/todo-tui".into());
    assert_eq!(d.context_slug, "inbox");
    assert_eq!(d.save_path("/cfg/config.toml"), "/cfg/config.toml");
    let c = store_config::Config::load(Some("/data".into()), None, d, "/etc/todo.toml".into());
    assert_eq!(c.root_dir, "/data");
    assert_eq!(c.context_slug, "inbox");
    assert_eq!(c.save_path("/cfg/config.toml"), "/etc/todo.toml");
}

#[test]
fn every_success_status_is_ok() {
    for st in [200u16, 201, 204, 299] {
        assert!(check_status(st, "x".into()).is_ok());
    }
    assert!(check_status(300, "x".into()).is_err());
    assert!(check_status(199, "x".into()).is_err());
}

#[test]
fn url_text_round_trip() {
    for s in ["", "a b", "ünï/cödé?&=", "100%", "%zz"] {
        assert_eq!(url_decode(&url_encode(s)), s);
    }
}

fn tokens(expires_at: u64, refresh: Option<&str>) -> Option<OidcTokens> {
    Some(OidcTokens { access_token: "old".into(), refresh_token: refresh.map(String::from), expires_at })
}

#[test]
fn oidc_auth_never_uses_an_api_key() {
    let env = EnvVars { api_key: Some("k".into()), ..no_env() };
    let file = no_file();
    assert!(matches!(resolve_auth(true, &file, &env, &tokens(1_000, None), 0, None), Ok(AuthConfig::Bearer(a)) if a == "old"));
    assert!(matches!(resolve_auth(true, &file, &env, &None, 0, None), Ok(AuthConfig::OidcLoginRequired)));
    let fresh = tokens(9_000, None);
    assert!(matches!(resolve_auth(true, &file, &env, &tokens(10, Some("r")), 500, fresh), Ok(AuthConfig::Bearer(a)) if a == "old"));
    assert!(matches!(resolve_auth(true, &file, &env, &tokens(10, Some("r")), 500, None), Ok(AuthConfig::OidcLoginRequired)));
    assert!(matches!(resolve_auth(true, &file, &env, &tokens(10, None), 500, None), Ok(AuthConfig::OidcLoginRequired)));
    assert!(matches!(resolve_auth(false, &file, &env, &None, 0, None), Ok(AuthConfig::ApiKey(k)) if k == "k"));
    assert!(matches!(resolve_auth(false, &file, &no_env(), &None, 0, None), Err(ApiError::Config(_))));
}

#[test]
fn detail_of_arrays_and_nulls() {
    assert_eq!(extract_detail("[\"x\"]"), "x");
    assert_eq!(extract_detail("[1, 2]"), "[1, 2]");
    assert_eq!(extract_detail("[]"), "[]");
    assert_eq!(extract_detail("{\"detail\": null}"), "{\"detail\": null}");
    assert_eq!(extract_detail("\"just text\""), "\"just text\"");
}

#[test]
fn detail_from_a_parsed_document() {
    let item = |s: Option<&str>, text: &str| JsonItem { null: false, string: s.map(String::from), text: text.to_string() };
    let doc = JsonDoc::Object(vec![("a".to_string(), item(Some("no"), "\"no\"")), ("detail".to_string(), item(None, "3"))]);
    assert_eq!(detail_from(&doc, "body"), "3");
    assert_eq!(detail_from(&JsonDoc::Scalar, "body"), "body");
    assert_eq!(detail_from(&JsonDoc::Array(vec![item(Some("hi"), "\"hi\"")]), "body"), "hi");
}
