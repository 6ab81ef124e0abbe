use octa::watcher::config::{choose_secret, Config, WatcherEnv};
use octa::watcher::github::{
    branch_or_main, commit_api_url, commits_api_url, failure_message, github_failure,
    github_headers, new_commit, present_shas, repo_api_url, CommitFields,
};
use octa::watcher::manifest::watcher_manifest;
use octa::watcher::repos::{
    commits_limit, is_valid_name, needs_default_branch, stored_branch, valid_repo_request,
    CreateRepo,
};
use octa::watcher::worker::{
    files_description, lookback_start, message_text, openai_failure, summary_from_reply,
    summary_outcome, summary_request,
};

fn env() -> WatcherEnv {
    WatcherEnv {
        database_url: Some("postgres://w".to_string()),
        watcher_listen_addr: None,
        port: None,
        watcher_static_dir: None,
        agent_secret: None,
        dashboard_url: None,
        github_token: None,
        openai_api_key: None,
    }
}

#[test]
fn watcher_config_defaults() {
    let c = Config::from_env_vars(&env());
    assert_eq!(c.database_url, "postgres://w");
    assert_eq!(c.listen_addr, "0.0.0.0:4004");
    assert_eq!(c.static_dir, "static");
    assert_eq!(c.dashboard_url, "http://localhost:8080");
    assert_eq!(c.github_token, "");
    assert!(c.asks_dashboard());
    let mut e = env();
    e.dashboard_url = Some(String::new());
    e.port = Some("1".to_string());
    let c2 = Config::from_env_vars(&e);
    assert!(!c2.asks_dashboard());
    assert_eq!(c2.listen_addr, "0.0.0.0:1");
}

#[test]
fn platform_secret_wins_over_environment() {
    assert_eq!(choose_secret(Some("platform".to_string()), "env"), Some("platform".to_string()));
    assert_eq!(choose_secret(Some(String::new()), "env"), Some("env".to_string()));
    assert_eq!(choose_secret(None, "env"), Some("env".to_string()));
    assert_eq!(choose_secret(None, ""), None);
    assert_eq!(choose_secret(Some(String::new()), ""), None);
}

#[test]
fn repository_names() {
    assert!(is_valid_name("octa-dash_board.v2"));
    assert!(!is_valid_name(""));
    assert!(!is_valid_name("a/b"));
    assert!(!is_valid_name("é"));
    assert!(is_valid_name(&"a".repeat(100)));
    assert!(!is_valid_name(&"a".repeat(101)));
    let req = CreateRepo { owner: "me".to_string(), repo: "proj".to_string(), default_branch: None };
    assert!(valid_repo_request(&req));
    assert!(needs_default_branch(&req));
    assert_eq!(stored_branch(&req), "main");
    let bad = CreateRepo { owner: "me".to_string(), repo: "bad name".to_string(), default_branch: Some("dev".to_string()) };
    assert!(!valid_repo_request(&bad));
    assert!(!needs_default_branch(&bad));
    assert_eq!(stored_branch(&bad), "dev");
}

#[test]
fn commit_listing_limits() {
    assert_eq!(commits_limit(None), 100);
    assert_eq!(commits_limit(Some(0)), 1);
    assert_eq!(commits_limit(Some(-5)), 1);
    assert_eq!(commits_limit(Some(42)), 42);
    assert_eq!(commits_limit(Some(10_000)), 500);
}

#[test]
fn github_urls_and_headers() {
    assert_eq!(repo_api_url("o", "r"), "https://api.github.com/repos/o/r");
    assert_eq!(
        commits_api_url("o", "r", "main", "2024-01-01T00:00:00+00:00"),
        "https://api.github.com/repos/o/r/commits?sha=main&since=2024-01-01T00:00:00+00:00&per_page=100"
    );
    assert_eq!(commit_api_url("o", "r", "abc"), "https://api.github.com/repos/o/r/commits/abc");
    let h = github_headers("tok");
    assert_eq!(h[0], ("Authorization".to_string(), "Bearer tok".to_string()));
    assert_eq!(h[1], ("User-Agent".to_string(), "octa-watcher-agent".to_string()));
    assert_eq!(h[2], ("Accept".to_string(), "application/vnd.github+json".to_string()));
}

#[test]
fn github_failures() {
    assert_eq!(github_failure(401), "GitHub 401 Unauthorized: token invalid or revoked");
    assert_eq!(github_failure(403), "GitHub 403 Forbidden: rate limited or forbidden");
    assert_eq!(github_failure(404), "GitHub 404 Not Found: repo not found or no access");
    assert_eq!(github_failure(500), "GitHub 500 Internal Server Error: unexpected error");
    assert_eq!(failure_message("418 I'm a teapot", 418), "GitHub 418 I'm a teapot: unexpected error");
    assert_eq!(openai_failure(429), "OpenAI 429 Too Many Requests");
}

#[test]
fn branches_and_shas() {
    assert_eq!(branch_or_main(Some("trunk".to_string())), "trunk");
    assert_eq!(branch_or_main(None), "main");
    assert_eq!(
        present_shas(vec![Some("a".to_string()), None, Some("b".to_string())]),
        vec!["a".to_string(), "b".to_string()]
    );
}

#[test]
fn commit_records() {
    let f = CommitFields {
        author: Some("Ann".to_string()),
        author_email: None,
        message: Some("fix".to_string()),
        html_url: Some("https://github.com/o/r/commit/abc".to_string()),
        date: Some("2024-01-02T03:04:05Z".to_string()),
        additions: Some(4_294_967_301),
        deletions: Some(-1),
    };
    let c = new_commit(9, "abc", f.clone());
    assert_eq!(c.repo_id, 9);
    assert_eq!(c.sha, "abc");
    assert_eq!(c.author, Some("Ann".to_string()));
    assert_eq!(c.url, Some("https://github.com/o/r/commit/abc".to_string()));
    assert_eq!(c.committed_at, Some((1_704_164_645, 0)));
    assert_eq!(c.additions, Some(5));
    assert_eq!(c.deletions, Some(-1));
    let g = CommitFields { date: Some("yesterday".to_string()), ..f };
    assert_eq!(new_commit(9, "abc", g).committed_at, None);
}

#[test]
fn summaries() {
    assert_eq!(lookback_start(100_000), 13_600);
    assert_eq!(message_text(&None), "");
    assert_eq!(files_description(None), "No file data");
    assert_eq!(files_description(Some("[]".to_string())), "[]");
    let r = summary_request("Fix bug", "[]");
    assert_eq!(r.model, "gpt-4o-mini");
    assert_eq!(r.max_tokens, 200);
    assert_eq!(
        r.prompt,
        "Summarize this git commit in 2-3 sentences for a project status report. Focus on what changed and why it matters.\n\nCommit message: Fix bug\n\nFiles changed:\n[]"
    );
    assert_eq!(summary_from_reply(Some("  Done.  ".to_string())).unwrap(), "Done.");
    assert_eq!(summary_from_reply(None).unwrap_err(), "OpenAI returned no content");
    assert_eq!(summary_outcome(Ok("S".to_string())), (Some("S".to_string()), "done".to_string()));
    assert_eq!(summary_outcome(Err("e".to_string())), (None, "error".to_string()));
}

#[test]
fn watcher_agent_manifest() {
    let m = watcher_manifest();
    assert_eq!(m.id, "watcher");
    assert_eq!(m.name, "Watcher");
    assert_eq!(m.icon, Some("W".to_string()));
    assert_eq!(m.ui.unwrap().bundle_css, Some("watcher.css".to_string()));
    assert_eq!(m.required_secrets, vec!["GITHUB_TOKEN", "OPENAI_API_KEY"]);
    assert_eq!(m.capabilities, vec!["ui", "api"]);
}
