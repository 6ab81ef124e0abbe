use octa::dashboard::analytics::{chart_days, days_param, ChartQuery};
use octa::dashboard::api_keys::{generate_api_key, hash_key, key_display_parts};
use octa::dashboard::config::{parse_agent_urls, skip_login_flag, Config, DashboardEnv};
use octa::dashboard::middleware::{
    extract_api_token, finish_api_key, finish_session, hash_api_key, start_auth, AuthMode,
    AuthStart,
};
use octa::dashboard::migrations::{migration_name, migration_order};
use octa::dashboard::oauth::{
    allowlisted_role, check_oauth_state, cleared_cookie, profile_of, require_primary_email,
    select_primary_email, session_cookie, GitHubEmail, GitHubUser,
};
use octa::dashboard::proxy::{proxy_plan, proxy_target, upstream_status, HttpMethod};
use octa::dashboard::registry::{
    agent_authorization, capitalize_first, health_status, health_url, manifest_url,
    microservice_entry,
};
use octa::dashboard::secrets::{
    internal_secret_gate, validate_new_secret, validate_secret_update, CreateSecretRequest,
    UpdateSecretRequest,
};
use octa::dashboard::services::missing_secrets;
use octa::dashboard::session::{api_key_claims, dev_claims, session_claims, Claims, SESSION_SECONDS};
use octa::dashboard::sources::{normalize_source, AddSourceRequest};
use octa::dashboard::team::member_role;
use octa::error::AppError;
use octa::protocol::{AgentApiConfig, AgentManifest, AgentUiConfig};

fn env() -> DashboardEnv {
    DashboardEnv {
        database_url: Some("postgres://d".to_string()),
        github_client_id: None,
        github_client_secret: None,
        github_redirect_uri: None,
        jwt_secret: Some("jwt".to_string()),
        initial_admin_email: None,
        agent_urls: None,
        listen_addr: None,
        port: None,
        skip_login: None,
        agent_secret: Some("agent".to_string()),
    }
}

#[test]
fn dashboard_config() {
    let c = Config::from_env_vars(&env());
    assert_eq!(c.listen_addr, "0.0.0.0:8080");
    assert!(!c.skip_login);
    assert!(c.agent_urls.is_empty());
    assert_eq!(c.jwt_secret, "jwt");
    assert_eq!(c.github_client_id, "");
    let mut e = env();
    e.agent_urls = Some(" http://a:1 ,,http://b:2".to_string());
    e.skip_login = Some("TRUE".to_string());
    e.port = Some("3000".to_string());
    let c2 = Config::from_env_vars(&e);
    assert_eq!(c2.agent_urls, vec!["http://a:1", "http://b:2"]);
    assert!(c2.skip_login);
    assert_eq!(c2.listen_addr, "0.0.0.0:3000");
    assert!(skip_login_flag(&Some("1".to_string())));
    assert!(!skip_login_flag(&Some("yes".to_string())));
    assert_eq!(parse_agent_urls(" , x "), vec!["", "x"]);
}

#[test]
fn dev_claims_are_admin() {
    let c = dev_claims();
    assert_eq!(c.sub, "00000000-0000-0000-0000-000000000000");
    assert_eq!(c.email, "dev@localhost");
    assert_eq!(c.role, "admin");
    assert_eq!(c.exp, i64::MAX);
    assert_eq!(c.user_id(), None);
}

#[test]
fn session_and_api_key_claims() {
    let u: u128 = 0x11111111222233334444555555555555;
    let c = session_claims(u, "a@b.c", "member", 1000);
    assert_eq!(c.sub, "11111111-2222-3333-4444-555555555555");
    assert_eq!(c.exp, 1000 + SESSION_SECONDS);
    assert_eq!(c.iat, 1000);
    assert_eq!(c.user_id(), Some(u));
    let k = api_key_claims(1);
    assert_eq!(k.sub, "00000000-0000-0000-0000-000000000001");
    assert_eq!(k.email, "api-key");
    assert_eq!(k.user_id(), None);
}

#[test]
fn api_keys() {
    let key = generate_api_key();
    assert_eq!(key.len(), 67);
    assert!(key.starts_with("tk_"));
    assert!(key[3..].chars().all(|c| c.is_ascii_hexdigit() && !c.is_ascii_uppercase()));
    assert_ne!(generate_api_key(), key);
    assert_eq!(hash_key("abc"), "ba7816bf8f01cfea414140de5dae2223b00361a396177a9cb410ff61f20015ad");
    assert_eq!(hash_api_key("abc"), hash_key("abc"));
    let (prefix, suffix) = key_display_parts("tk_0123456789abcdef");
    assert_eq!(prefix, "tk_01234567");
    assert_eq!(suffix, "cdef");
    let bearer = format!("Bearer {key}");
    assert_eq!(extract_api_token(&Some(bearer)), Some(key.clone()));
}

#[test]
fn api_token_extraction() {
    assert_eq!(extract_api_token(&Some("Bearer tk_x".to_string())), Some("tk_x".to_string()));
    assert_eq!(extract_api_token(&Some("Bearer eyJ".to_string())), None);
    assert_eq!(extract_api_token(&Some("tk_x".to_string())), None);
    assert_eq!(extract_api_token(&None), None);
}

#[test]
fn authentication_steps() {
    assert!(matches!(start_auth(true, &None), AuthStart::Dev(c) if c.role == "admin"));
    match start_auth(false, &Some("Bearer tk_abc".to_string())) {
        AuthStart::ApiKey(h) => assert_eq!(h, hash_key("tk_abc")),
        other => panic!("unexpected {:?}", other),
    }
    assert!(matches!(start_auth(false, &Some("Bearer jwt".to_string())), AuthStart::Session));
    assert_eq!(finish_api_key(AuthMode::Member, false, Some(1)).unwrap_err(), 500);
    assert_eq!(finish_api_key(AuthMode::Admin, true, None).unwrap_err(), 401);
    assert_eq!(finish_api_key(AuthMode::Admin, true, Some(1)).unwrap().email, "api-key");
    assert_eq!(finish_session(AuthMode::Member, None).unwrap_err(), 401);
    let member = Claims { sub: "s".to_string(), email: "e".to_string(), role: "member".to_string(), exp: 9, iat: 1, is_user: false };
    assert_eq!(finish_session(AuthMode::Admin, Some(member.clone())).unwrap_err(), 403);
    let ok = finish_session(AuthMode::Member, Some(member)).unwrap();
    assert!(ok.is_user);
    assert_eq!(ok.role, "member");
}

#[test]
fn migration_files() {
    assert_eq!(migration_name("001_init.sql"), Some("001_init".to_string()));
    assert_eq!(migration_name("README.md"), None);
    assert_eq!(migration_name(".sql"), None);
    assert_eq!(migration_name("a.b.sql"), Some("a.b".to_string()));
    let files = vec![
        "010_x.sql".to_string(),
        "notes.txt".to_string(),
        "002_y.sql".to_string(),
        "001_z.sql".to_string(),
    ];
    assert_eq!(migration_order(&files), vec![3, 2, 0]);
}

#[test]
fn oauth_steps() {
    let emails = vec![
        GitHubEmail { email: "a@x".to_string(), primary: true, verified: false },
        GitHubEmail { email: "b@x".to_string(), primary: false, verified: true },
        GitHubEmail { email: "c@x".to_string(), primary: true, verified: true },
    ];
    assert_eq!(select_primary_email(&emails), Some("c@x".to_string()));
    assert_eq!(select_primary_email(&emails[..2].to_vec()), None);
    assert!(check_oauth_state(&None, &None).is_ok());
    assert!(check_oauth_state(&Some("s".to_string()), &Some("s".to_string())).is_ok());
    assert!(matches!(check_oauth_state(&Some("s".to_string()), &Some("t".to_string())),
        Err(AppError::Forbidden(m)) if m == "Invalid OAuth state — possible CSRF"));
    assert!(check_oauth_state(&Some("s".to_string()), &None).is_err());
    assert!(matches!(require_primary_email(None), Err(AppError::Unauthorized(m)) if m == "No verified primary email on GitHub account"));
    assert_eq!(require_primary_email(Some("e".to_string())).unwrap(), "e");
    assert!(matches!(allowlisted_role(None), Err(AppError::Forbidden(m)) if m == "Your email is not on the team allowlist"));
    let user = GitHubUser { id: 1, login: "octo".to_string(), name: None, avatar_url: None };
    assert_eq!(profile_of(&user), ("octo".to_string(), String::new()));
    let c = session_cookie("tok".to_string(), false);
    assert_eq!((c.name.as_str(), c.value.as_str(), c.path.as_str()), ("session", "tok", "/"));
    assert!(c.http_only && c.secure && c.same_site_lax);
    assert_eq!(c.max_age_secs, 604800);
    assert!(!session_cookie("t".to_string(), true).secure);
    let cl = cleared_cookie("oauth_state", false);
    assert_eq!(cl.max_age_secs, 0);
    assert_eq!(cl.value, "");
}

#[test]
fn proxying() {
    assert_eq!(proxy_target("http://a:1", "api/x", &Some("q=1".to_string())), "http://a:1/api/x?q=1");
    let user = session_claims(0x11111111222233334444555555555555, "u@x", "member", 0);
    let plan = proxy_plan("http://a:1", "api/x", &None, HttpMethod::Post, "sec", &user).unwrap();
    assert_eq!(plan.target_url, "http://a:1/api/x");
    assert!(plan.forward_body);
    assert_eq!(
        plan.headers,
        vec![
            ("Authorization".to_string(), "Bearer sec".to_string()),
            ("x-user-id".to_string(), "11111111-2222-3333-4444-555555555555".to_string()),
            ("x-user-email".to_string(), "u@x".to_string()),
        ]
    );
    let dev = proxy_plan("http://a:1", "p", &None, HttpMethod::Get, "", &dev_claims()).unwrap();
    assert!(!dev.forward_body);
    assert_eq!(dev.headers, vec![("x-user-email".to_string(), "dev@localhost".to_string())]);
    assert_eq!(proxy_plan("http://a:1", "p", &None, HttpMethod::Other, "", &dev_claims()).unwrap_err(), 405);
    assert_eq!(upstream_status(201), 201);
    assert_eq!(upstream_status(42), 502);
}

fn manifest(ui: bool, icon: Option<&str>) -> AgentManifest {
    AgentManifest {
        id: "kb".to_string(),
        name: "KB".to_string(),
        version: "1".to_string(),
        description: "d".to_string(),
        icon: icon.map(|s| s.to_string()),
        ui: if ui {
            Some(AgentUiConfig { entry_path: "/ui/".to_string(), width: None, height: None, bundle_js: None, bundle_css: None })
        } else {
            None
        },
        api: Some(AgentApiConfig { base_path: "/api".to_string() }),
        health_endpoint: "/health".to_string(),
        capabilities: vec![],
        required_secrets: vec![],
    }
}

#[test]
fn agent_registry() {
    assert_eq!(capitalize_first("book"), "Book");
    assert_eq!(capitalize_first(""), "");
    assert_eq!(capitalize_first("ßx"), "SSx");
    assert_eq!(manifest_url("http://a"), "http://a/.well-known/agent.json");
    assert_eq!(health_url("http://a"), "http://a/health");
    assert_eq!(agent_authorization(""), None);
    assert_eq!(agent_authorization("s"), Some("Bearer s".to_string()));
    assert_eq!(health_status(true), "healthy");
    assert_eq!(health_status(false), "unhealthy");
    let e = microservice_entry(&manifest(true, Some("book")), "http://kb").unwrap();
    assert_eq!((e.icon.as_str(), e.nav_path.as_str(), e.slug.as_str()), ("Book", "/app/kb", "kb"));
    assert_eq!(microservice_entry(&manifest(true, None), "u").unwrap().icon, "Box");
    assert!(microservice_entry(&manifest(false, None), "u").is_none());
}

#[test]
fn platform_secrets() {
    let s = validate_new_secret(&CreateSecretRequest { key: " s3_key ".to_string(), value: " v ".to_string(), description: " d ".to_string() }).unwrap();
    assert_eq!((s.key.as_str(), s.value.as_str(), s.description.as_str()), ("S3_KEY", "v", "d"));
    assert!(matches!(validate_new_secret(&CreateSecretRequest { key: "  ".to_string(), value: "v".to_string(), description: String::new() }),
        Err(AppError::BadRequest(m)) if m == "Key cannot be empty"));
    assert!(matches!(validate_new_secret(&CreateSecretRequest { key: "k".to_string(), value: " ".to_string(), description: String::new() }),
        Err(AppError::BadRequest(m)) if m == "Value cannot be empty"));
    let u = validate_secret_update(&UpdateSecretRequest { value: " x ".to_string(), description: Some(" y ".to_string()) }).unwrap();
    assert_eq!(u.value, "x");
    assert_eq!(u.description, Some("y".to_string()));
    assert_eq!(u.insert_description, " y ");
    assert!(validate_secret_update(&UpdateSecretRequest { value: "".to_string(), description: None }).is_err());
    assert!(matches!(internal_secret_gate("", &None), Err(AppError::Forbidden(m)) if m == "AGENT_SECRET not configured"));
    assert!(internal_secret_gate("k", &Some("Bearer k".to_string())).is_ok());
    assert!(matches!(internal_secret_gate("k", &Some("Bearer j".to_string())), Err(AppError::Unauthorized(m)) if m == "Invalid agent secret"));
}

#[test]
fn services_missing_secrets() {
    let required = vec!["A".to_string(), "B".to_string(), "C".to_string()];
    let configured = vec!["B".to_string()];
    assert_eq!(missing_secrets(&required, &configured), vec!["A", "C"]);
    assert!(missing_secrets(&required, &required).is_empty());
}

#[test]
fn sources_and_team() {
    let (url, label) = normalize_source(&AddSourceRequest { url: " http://a:1/ ".to_string(), label: None }).unwrap();
    assert_eq!((url.as_str(), label.as_str()), ("http://a:1", ""));
    assert!(matches!(normalize_source(&AddSourceRequest { url: " / ".to_string(), label: None }),
        Err(AppError::BadRequest(m)) if m == "URL is required"));
    assert_eq!(member_role(&None).unwrap(), "member");
    assert_eq!(member_role(&Some("admin".to_string())).unwrap(), "admin");
    assert!(matches!(member_role(&Some("owner".to_string())), Err(AppError::BadRequest(m)) if m == "Role must be 'admin' or 'member'"));
}

#[test]
fn analytics_days() {
    assert_eq!(chart_days(&ChartQuery { days: None }), 7);
    assert_eq!(chart_days(&ChartQuery { days: Some(30) }), 30);
    assert_eq!(days_param(30), "30");
    assert_eq!(days_param(-1), "-1");
}
