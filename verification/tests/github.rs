use creatio_devhub::json::JsonValue;
use creatio_devhub::github::{
    authenticated, repos_from_json,
    branch_names, branches_path, config_value, gh_failure, identity, identity_failure, nonempty_text,
    sort_repos, suggested_email, unauthenticated, GithubRepo,
};

fn repo(n: &str) -> GithubRepo {
    GithubRepo {
        name_with_owner: n.to_string(),
        name: n.rsplit('/').next().unwrap().to_string(),
        url: format!("https://github.com/{n}"),
        default_branch: "main".to_string(),
        is_private: true,
    }
}

#[test]
fn the_suggested_email_prefers_the_public_one() {
    assert_eq!(suggested_email(Some("a@b.c".to_string()), Some(7), Some("octo")), Some("a@b.c".to_string()));
    assert_eq!(
        suggested_email(None, Some(12345), Some("octo")),
        Some("12345+octo@users.noreply.github.com".to_string())
    );
    assert_eq!(suggested_email(None, None, Some("octo")), None);
}

#[test]
fn empty_texts_read_as_absent() {
    assert_eq!(nonempty_text(Some(String::new())), None);
    assert_eq!(nonempty_text(Some("x".to_string())), Some("x".to_string()));
    assert_eq!(config_value(0, "Ann".to_string()), Some("Ann".to_string()));
    assert_eq!(config_value(1, "Ann".to_string()), None);
    assert_eq!(config_value(0, String::new()), None);
}

#[test]
fn a_missing_gh_is_reported_with_where_it_was_looked_for() {
    let s = unauthenticated(Some("not found".to_string()), None, vec!["PATH".to_string()], Some("Ann".to_string()), None);
    assert!(!s.gh_installed);
    assert!(!s.authenticated);
    assert_eq!(s.gh_searched, vec!["PATH".to_string()]);
    assert_eq!(s.git_name, Some("Ann".to_string()));
    let t = unauthenticated(None, Some("/usr/bin/gh".to_string()), vec![], None, None);
    assert!(t.gh_installed);
    assert!(t.login.is_none());
}

#[test]
fn gh_failures_fall_back_when_silent() {
    assert_eq!(gh_failure("  \n".to_string(), "gh repo list failed"), "gh repo list failed");
    assert_eq!(gh_failure("HTTP 401".to_string(), "gh repo list failed"), "HTTP 401");
}

#[test]
fn repositories_sort_ignoring_case() {
    let out = sort_repos(vec![repo("zeta/x"), repo("Alpha/y"), repo("beta/z")]);
    let names: Vec<&str> = out.iter().map(|r| r.name_with_owner.as_str()).collect();
    assert_eq!(names, vec!["Alpha/y", "beta/z", "zeta/x"]);
}

#[test]
fn branches_need_an_owner_and_name() {
    assert_eq!(branches_path(" octo/repo "), Ok("repos/octo/repo/branches".to_string()));
    assert_eq!(branches_path("repo"), Err("Expected a repository in owner/name form.".to_string()));
    assert_eq!(branch_names("main\n  dev  \n\nfeature/x\n"), vec!["main", "dev", "feature/x"]);
}

#[test]
fn identities_are_trimmed_and_checked() {
    assert_eq!(identity(" Ann ", " ann@x.io "), Ok(("Ann".to_string(), "ann@x.io".to_string())));
    assert_eq!(identity("Ann", "nope"), Err("Enter a valid Git name and email.".to_string()));
    assert_eq!(identity_failure("user.name", "locked"), "Could not set Git user.name: locked");
}

fn json_of(value: serde_json::Value) -> JsonValue {
    match value {
        serde_json::Value::Null => JsonValue::Null,
        serde_json::Value::Bool(b) => JsonValue::Bool(b),
        serde_json::Value::Number(n) => JsonValue::Number(n.to_string()),
        serde_json::Value::String(s) => JsonValue::Str(s),
        serde_json::Value::Array(items) => JsonValue::Array(items.into_iter().map(json_of).collect()),
        serde_json::Value::Object(members) => {
            JsonValue::Object(members.into_iter().map(|(k, v)| (k, json_of(v))).collect())
        }
    }
}

fn doc(raw: &str) -> JsonValue {
    json_of(serde_json::from_str(raw).unwrap())
}

#[test]
fn signed_in_account_suggests_the_noreply_address_without_a_public_email() {
    let account = doc(r#"{"login":"octo","id":42,"name":"Octo Cat","email":null}"#);
    let s = authenticated(Some(account), Some("/usr/bin/gh".into()), vec![], Some("Me".into()), None);
    assert!(s.gh_installed && s.authenticated && s.gh_error.is_none());
    assert_eq!(s.login.as_deref(), Some("octo"));
    assert_eq!(s.account_name.as_deref(), Some("Octo Cat"));
    assert_eq!(s.account_email, None);
    assert_eq!(s.suggested_email.as_deref(), Some("42+octo@users.noreply.github.com"));
    assert_eq!(s.git_name.as_deref(), Some("Me"));
}

#[test]
fn signed_in_account_prefers_its_public_email_and_survives_unreadable_json() {
    let account = doc(r#"{"login":"octo","id":42,"name":"","email":"o@example.com"}"#);
    let s = authenticated(Some(account), None, vec![], None, None);
    assert_eq!(s.account_name, None);
    assert_eq!(s.suggested_email.as_deref(), Some("o@example.com"));
    let s = authenticated(None, None, vec![], None, None);
    assert!(s.authenticated);
    assert_eq!(s.login, None);
    assert_eq!(s.suggested_email, None);
}

#[test]
fn repositories_are_read_from_gh_json_and_sorted() {
    let rows = doc(
        r#"[{"nameWithOwner":"me/zeta","name":"zeta","url":"u1","defaultBranchRef":{"name":"dev"},"isPrivate":true},
            {"name":"nameless"},
            {"nameWithOwner":"me/Alpha","name":"Alpha","url":"u2","defaultBranchRef":null}]"#,
    );
    let repos = repos_from_json(&rows).unwrap();
    assert_eq!(repos.len(), 2);
    assert_eq!(repos[0].name_with_owner, "me/Alpha");
    assert_eq!(repos[0].default_branch, "main");
    assert!(!repos[0].is_private);
    assert_eq!(repos[1].default_branch, "dev");
    assert!(repos[1].is_private);
    assert_eq!(repos_from_json(&doc(r#"{"message":"no"}"#)), Err("Unexpected gh output.".to_string()));
}
