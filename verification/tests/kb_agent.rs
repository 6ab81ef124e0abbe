use octa::dashboard::proxy::{proxy_plan, HttpMethod};
use octa::dashboard::session::session_claims;
use octa::error::AppError;
use octa::kb::chat::{
    needs_title, retrieval_pages, session_title, validate_message, verify_session_kb,
    CreateSession, RetrieveRequest, SendMessage,
};
use octa::kb::config::{Config, KbEnv, SecretSlot};
use octa::kb::documents::{CreateDocument, Document, UpdateDocument};
use octa::kb::folders::{
    check_document, check_folder, check_folder_move, check_parent_folder, check_target_folder,
    folder_name, validate_new_folder, CreateFolderRequest, MoveFolderRequest,
};
use octa::kb::identity::{extract_kb_id, identity_from_headers, kb_id_segment, require_kb_id};
use octa::kb::knowledgebase::{
    initial_description, is_slug_conflict, validate_create_kb, validate_settings, validate_slug,
    CreateKb, Knowledgebase, UpdateSettings,
};
use octa::kb::manifest::knowledgebase_manifest;

fn bad(r: Result<(), AppError>) -> String {
    match r {
        Err(AppError::BadRequest(m)) => m,
        other => panic!("expected a bad request, got {:?}", other),
    }
}

fn env() -> KbEnv {
    KbEnv {
        database_url: Some("postgres://db".to_string()),
        kb_listen_addr: None,
        port: None,
        kb_static_dir: None,
        agent_secret: None,
        dashboard_url: None,
        openai_api_key: None,
        openai_model: None,
        s3_region: None,
        s3_access_key: None,
        s3_secret_key: None,
        s3_bucket: None,
        s3_endpoint: None,
    }
}

#[test]
fn kb_config_defaults() {
    let c = Config::from_env_vars(&env());
    assert_eq!(c.database_url, "postgres://db");
    assert_eq!(c.listen_addr, "0.0.0.0:4001");
    assert_eq!(c.static_dir, "static");
    assert_eq!(c.agent_secret, "");
    assert_eq!(c.dashboard_url, "http://localhost:8080");
    assert_eq!(c.openai_api_key, "");
    assert_eq!(c.openai_model, "gpt-5.4");
    assert_eq!(c.s3_region, "nyc3");
    assert_eq!(c.s3_bucket, "knowledgebase-docs");
    assert_eq!(c.s3_endpoint, "");
}

#[test]
fn kb_config_from_variables() {
    let mut e = env();
    e.port = Some("9000".to_string());
    e.openai_model = Some("m".to_string());
    let c = Config::from_env_vars(&e);
    assert_eq!(c.listen_addr, "0.0.0.0:9000");
    assert_eq!(c.openai_model, "m");
    e.kb_listen_addr = Some("127.0.0.1:1".to_string());
    assert_eq!(Config::from_env_vars(&e).listen_addr, "127.0.0.1:1");
}

#[test]
fn s3_config_needs_both_keys() {
    let mut c = Config::from_env_vars(&env());
    assert!(c.s3_config().is_none());
    c.s3_access_key = "AK".to_string();
    assert!(c.s3_config().is_none());
    c.s3_secret_key = "SK".to_string();
    let s3 = c.s3_config().unwrap();
    assert_eq!(s3.region, "nyc3");
    assert_eq!(s3.access_key, "AK");
    assert_eq!(s3.secret_key, "SK");
    assert_eq!(s3.bucket, "knowledgebase-docs");
    assert_eq!(s3.endpoint, None);
    c.s3_endpoint = "https://s3.example".to_string();
    assert_eq!(c.s3_config().unwrap().endpoint, Some("https://s3.example".to_string()));
    c.s3_access_key = String::new();
    assert!(c.s3_config().is_none());
}

#[test]
fn pending_secrets_are_the_empty_slots() {
    let mut c = Config::from_env_vars(&env());
    assert_eq!(
        c.pending_secrets(),
        vec![SecretSlot::OpenaiApiKey, SecretSlot::S3AccessKey, SecretSlot::S3SecretKey, SecretSlot::S3Endpoint]
    );
    c.openai_api_key = "sk".to_string();
    assert_eq!(
        c.pending_secrets(),
        vec![SecretSlot::S3AccessKey, SecretSlot::S3SecretKey, SecretSlot::S3Endpoint]
    );
    c.dashboard_url = String::new();
    assert!(c.pending_secrets().is_empty());
    assert_eq!(SecretSlot::S3Endpoint.key(), "S3_ENDPOINT");
    assert_eq!(SecretSlot::OpenaiApiKey.key(), "OPENAI_API_KEY");
}

#[test]
fn filling_a_secret_never_overwrites_others() {
    let mut c = Config::from_env_vars(&env());
    c.fill_secret(SecretSlot::S3AccessKey, "AK".to_string());
    assert_eq!(c.s3_access_key, "AK");
    assert_eq!(c.s3_region, "nyc3");
    c.fill_secret(SecretSlot::S3Region, String::new());
    assert_eq!(c.s3_region, "nyc3");
    for slot in c.pending_secrets() {
        c.fill_secret(slot, "v".to_string());
    }
    assert_eq!(c.openai_api_key, "v");
    assert_eq!(c.s3_access_key, "AK");
    assert_eq!(c.s3_bucket, "knowledgebase-docs");
    assert!(c.pending_secrets().is_empty());
}

#[test]
fn identity_headers() {
    let id = identity_from_headers(
        &Some("01234567-89ab-cdef-0123-456789abcdef".to_string()),
        &Some("a@b.c".to_string()),
    );
    assert_eq!(id.user_id, Some(0x0123456789abcdef0123456789abcdef));
    assert_eq!(id.email, Some("a@b.c".to_string()));
    let anon = identity_from_headers(&Some("nope".to_string()), &None);
    assert_eq!(anon.user_id, None);
    assert_eq!(anon.email, None);
}

#[test]
fn kb_id_from_path() {
    let id = "01234567-89ab-cdef-0123-456789abcdef";
    let path = format!("/api/kb/{id}/documents");
    assert_eq!(kb_id_segment(&path), Some(id.to_string()));
    assert_eq!(extract_kb_id(&path).unwrap(), Some(0x0123456789abcdef0123456789abcdef));
    assert_eq!(extract_kb_id("/api/kbs").unwrap(), None);
    assert_eq!(extract_kb_id("/api/kb").unwrap(), None);
    assert!(matches!(extract_kb_id("/api/kb/xyz"), Err(AppError::BadRequest(m)) if m == "invalid kb_id"));
    assert!(matches!(require_kb_id("/health"), Err(AppError::BadRequest(m)) if m == "kb_id not found in path"));
    assert_eq!(require_kb_id(&path).unwrap(), 0x0123456789abcdef0123456789abcdef);
}

#[test]
fn slug_rules() {
    assert!(validate_slug("my-kb-2").is_ok());
    assert_eq!(bad(validate_slug("")), "slug must be 1-64 characters");
    assert_eq!(bad(validate_slug(&"a".repeat(65))), "slug must be 1-64 characters");
    assert!(validate_slug(&"a".repeat(64)).is_ok());
    assert_eq!(bad(validate_slug("My_KB")), "slug must be lowercase alphanumeric with dashes");
    assert_eq!(bad(validate_slug("-kb")), "slug cannot start or end with dash");
    assert_eq!(bad(validate_slug("kb-")), "slug cannot start or end with dash");
    assert_eq!(bad(validate_slug(&"é".repeat(33))), "slug must be 1-64 characters");
}

#[test]
fn kb_creation_checks() {
    let mut req = CreateKb { name: "Docs".to_string(), slug: "docs".to_string(), description: None };
    assert!(validate_create_kb(&req).is_ok());
    assert_eq!(initial_description(&req), "");
    req.description = Some("d".repeat(501));
    assert_eq!(bad(validate_create_kb(&req)), "description must be at most 500 characters");
    req.slug = "Bad Slug".to_string();
    assert_eq!(bad(validate_create_kb(&req)), "slug must be lowercase alphanumeric with dashes");
    req.name = "   ".to_string();
    assert_eq!(bad(validate_create_kb(&req)), "name must be 1-100 characters");
    req.name = "n".repeat(101);
    assert_eq!(bad(validate_create_kb(&req)), "name must be 1-100 characters");
    req.name = "ok".to_string();
    req.slug = "ok".to_string();
    req.description = Some("short".to_string());
    assert_eq!(initial_description(&req), "short");
}

#[test]
fn slug_conflicts() {
    assert!(is_slug_conflict("duplicate key value violates unique constraint \"kb_slug\""));
    assert!(is_slug_conflict("violates unique constraint"));
    assert!(!is_slug_conflict("connection refused"));
}

fn kb() -> Knowledgebase {
    Knowledgebase {
        id: 7,
        name: "Name".to_string(),
        slug: "name".to_string(),
        description: "Desc".to_string(),
        system_prompt: "Prompt".to_string(),
        model: "gpt".to_string(),
        accent_color: "#fff".to_string(),
        logo_url: None,
        created_by: None,
        created_at: "2024-01-01T00:00:00+00:00".to_string(),
        updated_at: "2024-01-01T00:00:00+00:00".to_string(),
    }
}

#[test]
fn settings_updates() {
    let none = UpdateSettings { name: None, description: None, system_prompt: None, model: None, accent_color: None };
    assert!(validate_settings(&none).is_ok());
    let v = none.merged_with(&kb());
    assert_eq!((v.name, v.description, v.system_prompt, v.model, v.accent_color),
        ("Name".to_string(), "Desc".to_string(), "Prompt".to_string(), "gpt".to_string(), "#fff".to_string()));
    let some = UpdateSettings { name: Some("New".to_string()), description: None, system_prompt: Some("P2".to_string()), model: None, accent_color: Some("#000".to_string()) };
    assert!(validate_settings(&some).is_ok());
    let w = some.merged_with(&kb());
    assert_eq!(w.name, "New");
    assert_eq!(w.description, "Desc");
    assert_eq!(w.system_prompt, "P2");
    assert_eq!(w.model, "gpt");
    assert_eq!(w.accent_color, "#000");
    let long_color = UpdateSettings { accent_color: Some("c".repeat(21)), ..none.clone() };
    assert_eq!(bad(validate_settings(&long_color)), "accent_color must be at most 20 characters");
    let long_desc = UpdateSettings { description: Some("c".repeat(501)), ..none.clone() };
    assert_eq!(bad(validate_settings(&long_desc)), "description must be at most 500 characters");
    let blank = UpdateSettings { name: Some(" ".to_string()), ..none.clone() };
    assert_eq!(bad(validate_settings(&blank)), "name must be 1-100 characters");
}

#[test]
fn sessions_and_messages() {
    assert!(verify_session_kb(1, 1).is_ok());
    assert!(matches!(verify_session_kb(1, 2), Err(AppError::NotFound(m)) if m == "session not found"));
    assert_eq!(session_title(&CreateSession { title: None }).unwrap(), "New Chat");
    assert_eq!(session_title(&CreateSession { title: Some("T".to_string()) }).unwrap(), "T");
    assert!(matches!(session_title(&CreateSession { title: Some("t".repeat(201)) }),
        Err(AppError::BadRequest(m)) if m == "title must be at most 200 characters"));
    assert!(validate_message(&SendMessage { content: "hi".to_string() }).is_ok());
    assert_eq!(bad(validate_message(&SendMessage { content: " \n".to_string() })), "message must be 1-32000 characters");
    assert_eq!(bad(validate_message(&SendMessage { content: "x".repeat(32001) })), "message must be 1-32000 characters");
    assert!(validate_message(&SendMessage { content: "x".repeat(32000) }).is_ok());
    assert!(needs_title("New Chat"));
    assert!(!needs_title("Other"));
}

#[test]
fn retrieval_requests() {
    let r = |q: &str, n: Option<usize>| retrieval_pages(&RetrieveRequest { query: q.to_string(), max_pages: n });
    assert_eq!(r("q", None).unwrap(), 10);
    assert_eq!(r("q", Some(5)).unwrap(), 5);
    assert_eq!(r("q", Some(500)).unwrap(), 100);
    assert!(matches!(r("", None), Err(AppError::BadRequest(m)) if m == "query must be 1-32000 characters"));
}

#[test]
fn folder_checks() {
    assert_eq!(folder_name("  Reports  ").unwrap(), "Reports");
    assert!(matches!(folder_name("   "), Err(AppError::BadRequest(m)) if m == "folder name must be 1-200 characters"));
    assert!(folder_name(&"f".repeat(201)).is_err());
    let mut req = CreateFolderRequest { name: " A ".to_string(), parent_id: None, category: Some("c".repeat(101)) };
    assert!(matches!(validate_new_folder(&req), Err(AppError::BadRequest(m)) if m == "category must be at most 100 characters"));
    req.category = Some("cat".to_string());
    assert_eq!(validate_new_folder(&req).unwrap(), "A");
    assert!(check_parent_folder(Some(3), 3).is_ok());
    assert!(matches!(check_parent_folder(None, 3), Err(AppError::NotFound(m)) if m == "parent folder not found"));
    assert!(matches!(check_parent_folder(Some(4), 3), Err(AppError::NotFound(m)) if m == "parent folder not found in this KB"));
    assert!(matches!(check_folder(Some(4), 3), Err(AppError::NotFound(m)) if m == "folder not found in this KB"));
    assert!(matches!(check_folder(None, 3), Err(AppError::NotFound(m)) if m == "folder not found"));
    assert!(matches!(check_document(None, 3), Err(AppError::NotFound(m)) if m == "document not found"));
    assert!(matches!(check_document(Some(1), 3), Err(AppError::NotFound(m)) if m == "document not found in this KB"));
    assert!(matches!(check_target_folder(None, 3), Err(AppError::NotFound(m)) if m == "target folder not found"));
    assert!(matches!(check_target_folder(Some(9), 3), Err(AppError::NotFound(m)) if m == "target folder not found in this KB"));
    assert!(check_folder_move(&MoveFolderRequest { parent_id: Some(2) }, false).is_ok());
    assert!(check_folder_move(&MoveFolderRequest { parent_id: None }, true).is_ok());
    assert!(matches!(check_folder_move(&MoveFolderRequest { parent_id: Some(2) }, true),
        Err(AppError::BadRequest(m)) if m == "cannot move folder into its own descendant"));
}

#[test]
fn document_defaults_and_updates() {
    let c = CreateDocument { title: "T".to_string(), slug: "t".to_string(), content: None, parent_id: None, is_folder: None, sort_order: None };
    let v = c.stored_values();
    assert_eq!((v.content.as_str(), v.is_folder, v.sort_order), ("", false, 0));
    let d = Document {
        id: 5, title: "Old".to_string(), slug: "old".to_string(), content: "C".to_string(),
        parent_id: Some(1), is_folder: false, sort_order: 2, created_by: None, updated_by: None,
        created_at: "c".to_string(), updated_at: "u".to_string(),
    };
    let u = UpdateDocument { title: Some("New".to_string()), slug: None, content: None, parent_id: None, is_folder: Some(true), sort_order: Some(9) };
    let after = u.applied_to(&d);
    assert_eq!(after.title, "New");
    assert_eq!(after.slug, "old");
    assert_eq!(after.content, "C");
    assert_eq!(after.parent_id, Some(1));
    assert!(after.is_folder);
    assert_eq!(after.sort_order, 9);
    assert_eq!(after.id, 5);
}

#[test]
fn kb_manifest() {
    let m = knowledgebase_manifest();
    assert_eq!(m.id, "knowledgebase");
    assert_eq!(m.version, "0.2.0");
    assert_eq!(m.icon, Some("book".to_string()));
    let ui = m.ui.unwrap();
    assert_eq!(ui.entry_path, "/ui/");
    assert_eq!(ui.bundle_js, Some("kb.js".to_string()));
    assert_eq!(m.api.unwrap().base_path, "/api");
    assert_eq!(m.required_secrets, vec!["OPENAI_API_KEY", "S3_ACCESS_KEY", "S3_SECRET_KEY", "S3_BUCKET"]);
}

#[test]
fn forwarded_identity_is_read_back() {
    let user: u128 = 0xfedcba98765432100123456789abcdef;
    let claims = session_claims(user, "u@x.io", "member", 10);
    let plan = proxy_plan("http://kb:4001", "api/kbs", &None, HttpMethod::Get, "s", &claims).unwrap();
    let find = |name: &str| plan.headers.iter().find(|(k, _)| k == name).map(|(_, v)| v.clone());
    let identity = identity_from_headers(&find("x-user-id"), &find("x-user-email"));
    assert_eq!(identity.user_id, Some(user));
    assert_eq!(identity.email, Some("u@x.io".to_string()));
}
