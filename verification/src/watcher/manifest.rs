//! How the watcher agent presents itself to the dashboard.
use vstd::prelude::*;
use crate::dashboard::config::string_views;
use crate::protocol::{opt_view, AgentApiConfig, AgentManifest, AgentUiConfig};

verus! {

/// The watcher agent's manifest.  Its icon `W` is drawn as a letter by the
/// dashboard; the secrets it lists are reported as missing until configured.
pub fn watcher_manifest() -> (res: AgentManifest)
    ensures
        res.id@ == "watcher"@,
        res.name@ == "Watcher"@,
        res.version@ == "0.1.0"@,
        res.description@ == "Tracks recent GitHub commits across linked repositories"@,
        opt_view(res.icon) == Some("W"@),
        res.ui matches Some(ui) && {
            &&& ui.entry_path@ == "/ui/"@
            &&& ui.width is None
            &&& ui.height is None
            &&& opt_view(ui.bundle_js) == Some("watcher.js"@)
            &&& opt_view(ui.bundle_css) == Some("watcher.css"@)
        },
        res.api matches Some(api) && api.base_path@ == "/api"@,
        res.health_endpoint@ == "/health"@,
        string_views(res.capabilities@) == seq!["ui"@, "api"@],
        string_views(res.required_secrets@) == seq!["GITHUB_TOKEN"@, "OPENAI_API_KEY"@],
{
    let capabilities = vec![String::from_str("ui"), String::from_str("api")];
    let required_secrets = vec![String::from_str("GITHUB_TOKEN"), String::from_str("OPENAI_API_KEY")];
    assert(string_views(capabilities@) =~= seq!["ui"@, "api"@]);
    assert(string_views(required_secrets@) =~= seq!["GITHUB_TOKEN"@, "OPENAI_API_KEY"@]);
    AgentManifest {
        id: String::from_str("watcher"),
        name: String::from_str("Watcher"),
        version: String::from_str("0.1.0"),
        description: String::from_str(
            "Tracks recent GitHub commits across linked repositories",
        ),
        icon: Some(String::from_str("W")),
        ui: Some(
            AgentUiConfig {
                entry_path: String::from_str("/ui/"),
                width: None,
                height: None,
                bundle_js: Some(String::from_str("watcher.js")),
                bundle_css: Some(String::from_str("watcher.css")),
            },
        ),
        api: Some(AgentApiConfig { base_path: String::from_str("/api") }),
        health_endpoint: String::from_str("/health"),
        capabilities,
        required_secrets,
    }
}

} // verus!
