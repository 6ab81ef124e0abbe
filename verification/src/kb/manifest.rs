//! How the knowledgebase agent presents itself to the dashboard.
use vstd::prelude::*;
use crate::dashboard::config::string_views;
use crate::protocol::{opt_view, AgentApiConfig, AgentManifest, AgentUiConfig};

verus! {

/// The knowledgebase agent's manifest.  The secrets it lists are reported
/// as missing until configured: the agent runs without them, but upload,
/// indexing and chat stay off.
pub fn knowledgebase_manifest() -> (res: AgentManifest)
    ensures
        res.id@ == "knowledgebase"@,
        res.name@ == "Knowledgebase"@,
        res.version@ == "0.2.0"@,
        res.description@ == "RAG knowledgebase — upload documents and chat with an agent over them"@,
        opt_view(res.icon) == Some("book"@),
        res.ui matches Some(ui) && {
            &&& ui.entry_path@ == "/ui/"@
            &&& ui.width is None
            &&& ui.height is None
            &&& opt_view(ui.bundle_js) == Some("kb.js"@)
            &&& opt_view(ui.bundle_css) == Some("kb.css"@)
        },
        res.api matches Some(api) && api.base_path@ == "/api"@,
        res.health_endpoint@ == "/health"@,
        string_views(res.capabilities@) == seq!["ui"@, "api"@],
        string_views(res.required_secrets@) == seq![
            "OPENAI_API_KEY"@,
            "S3_ACCESS_KEY"@,
            "S3_SECRET_KEY"@,
            "S3_BUCKET"@,
        ],
{
    let capabilities = vec![String::from_str("ui"), String::from_str("api")];
    let required_secrets = vec![
        String::from_str("OPENAI_API_KEY"),
        String::from_str("S3_ACCESS_KEY"),
        String::from_str("S3_SECRET_KEY"),
        String::from_str("S3_BUCKET"),
    ];
    assert(string_views(capabilities@) =~= seq!["ui"@, "api"@]);
    assert(string_views(required_secrets@) =~= seq![
        "OPENAI_API_KEY"@,
        "S3_ACCESS_KEY"@,
        "S3_SECRET_KEY"@,
        "S3_BUCKET"@,
    ]);
    AgentManifest {
        id: String::from_str("knowledgebase"),
        name: String::from_str("Knowledgebase"),
        version: String::from_str("0.2.0"),
        description: String::from_str(
            "RAG knowledgebase — upload documents and chat with an agent over them",
        ),
        icon: Some(String::from_str("book")),
        ui: Some(
            AgentUiConfig {
                entry_path: String::from_str("/ui/"),
                width: None,
                height: None,
                bundle_js: Some(String::from_str("kb.js")),
                bundle_css: Some(String::from_str("kb.css")),
            },
        ),
        api: Some(AgentApiConfig { base_path: String::from_str("/api") }),
        health_endpoint: String::from_str("/health"),
        capabilities,
        required_secrets,
    }
}

} // verus!
