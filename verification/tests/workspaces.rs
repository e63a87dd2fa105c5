use creatio_devhub::json::JsonValue;
use creatio_devhub::workspaces::{
    create_repo_args, create_workspace_args, deploy_request, pull_report, push_workspace_args, record_sync,
    register_once, repo_name, initial_commit_message, initial_remote, repo_outcome,
    add_package_check, add_package_clean, commit_message, drift_check, find_workspace, missing_folder, pull_check,
    push_remote_check, remove_workspace, sorted_package_names, workspace_has_package, workspace_packages, Workspace,
};

fn ws(id: &str) -> Workspace {
    Workspace {
        id: id.to_string(),
        name: format!("ws {id}"),
        path: format!("/tmp/{id}"),
        env: "dev".to_string(),
        app_code: None,
        created_at: 1,
        last_pull: None,
        last_push: None,
        packages_snapshot: None,
    }
}

#[test]
fn detects_configured_workspace_packages_case_insensitively() {
    let names = vec!["Base".to_string(), "QntImportEngine".to_string()];
    assert!(workspace_has_package(&names, "qntimportengine"));
    assert!(!workspace_has_package(&names, "AnotherPackage"));
}

#[test]
fn package_selection_is_sorted_ignoring_case() {
    let names = vec!["QntImportEngine".to_string(), "base".to_string(), "Custom".to_string()];
    assert_eq!(sorted_package_names(names), vec!["base", "Custom", "QntImportEngine"]);
}

#[test]
fn workspaces_are_found_and_removed_by_id() {
    let list = vec![ws("a"), ws("b"), ws("a"), ws("c")];
    assert_eq!(find_workspace(&list, "b"), Ok(1));
    assert_eq!(find_workspace(&list, "a"), Ok(0));
    assert_eq!(find_workspace(&list, "z"), Err("Workspace not found".to_string()));
    let rest = remove_workspace(list, "a");
    assert_eq!(rest, vec![ws("b"), ws("c")]);
    assert_eq!(find_workspace(&rest, "a"), Err("Workspace not found".to_string()));
}

#[test]
fn adding_a_package_needs_a_clean_tree_and_a_new_name() {
    let selected = vec!["Base".to_string()];
    let check = |p: &str, exists: bool, configured: bool| add_package_check(p, "My WS", "/ws", exists, configured, &selected);
    assert_eq!(check("  Custom ", true, true), Ok("Custom".to_string()));
    assert_eq!(check(" ", true, true), Err("Invalid package name.".to_string()));
    assert_eq!(check("a,b", false, false), Err("Invalid package name.".to_string()));
    assert_eq!(check("-x", true, true), Err("Invalid package name.".to_string()));
    assert_eq!(check("Custom", false, true), Err("Workspace folder is missing: /ws".to_string()));
    assert_eq!(
        check("Custom", true, false),
        Err("The selected folder is not a configured clio workspace.".to_string())
    );
    assert_eq!(check("base", true, true), Err("base is already included in My WS.".to_string()));
    assert_eq!(add_package_clean(0), Ok(()));
    assert_eq!(
        add_package_clean(2),
        Err("The workspace has 2 uncommitted change(s). Commit or discard them before adding another package, so unrelated changes never mix.".to_string())
    );
}

#[test]
fn pulling_and_pushing_are_guarded() {
    assert_eq!(pull_check(0), Ok(()));
    assert_eq!(
        pull_check(3),
        Err("The workspace has 3 uncommitted change(s). Commit or discard them before pulling, so cloud changes never mix with local edits.".to_string())
    );
    assert_eq!(push_remote_check(0), Ok(()));
    assert_eq!(
        push_remote_check(2),
        Err("REMOTE_AHEAD: origin has 2 commit(s) you do not have. Another contributor pushed changes; pull/rebase before pushing to avoid conflicts.".to_string())
    );
    assert_eq!(missing_folder("/x"), "Workspace folder is missing: /x");
}

#[test]
fn commit_messages_are_trimmed_and_required() {
    assert_eq!(commit_message("  fix it \n"), Ok("fix it".to_string()));
    assert_eq!(commit_message("   "), Err("Commit message is required.".to_string()));
}

#[test]
fn drift_is_refused_unless_forced() {
    let base = "Base|8.0\nCustom|1.0";
    let cur = "Base|8.0\nCustom|1.1";
    assert_eq!(drift_check("dev", Some(base), Ok(base), false), Ok(()));
    assert_eq!(drift_check("dev", Some(base), Ok(cur), true), Ok(()));
    assert_eq!(drift_check("dev", None, Ok(cur), false), Ok(()));
    assert_eq!(drift_check("dev", Some(base), Err("unreachable"), false), Ok(()));
    let e = drift_check("dev", Some(base), Ok(cur), false).unwrap_err();
    assert!(e.starts_with("DRIFT: dev has package changes you haven't pulled ("));
    assert!(e.contains("Custom 1.1"));
    assert!(e.contains("Custom 1.0"));
    assert!(!e.contains("Base 8.0"));
    assert!(e.ends_with("). Pull first so those changes reach git, or push anyway to proceed regardless."));
}

#[test]
fn drift_lists_at_most_six_rows() {
    let base = "";
    let cur: String = (0..10).map(|i| format!("P{i}|1.0")).collect::<Vec<_>>().join("\n");
    let e = drift_check("dev", Some(base), Ok(&cur), false).unwrap_err();
    assert_eq!(e.matches(" 1.0").count(), 6);
}

#[test]
fn syncing_records_the_time_and_keeps_a_known_baseline() {
    let mut list = vec![ws("a"), ws("b")];
    record_sync(&mut list, "b", true, 50, Some("Base|8.0".to_string()));
    assert_eq!(list[1].last_pull, Some(50));
    assert_eq!(list[1].packages_snapshot, Some("Base|8.0".to_string()));
    record_sync(&mut list, "b", false, 60, None);
    assert_eq!(list[1].last_push, Some(60));
    assert_eq!(list[1].last_pull, Some(50));
    assert_eq!(list[1].packages_snapshot, Some("Base|8.0".to_string()));
    assert_eq!(list[0], ws("a"));
    let before = list.clone();
    record_sync(&mut list, "zz", true, 70, None);
    assert_eq!(list, before);
}

#[test]
fn a_folder_is_registered_once() {
    let mut list = vec![ws("a")];
    let mut clone = ws("c");
    clone.path = "/TMP/A".to_string();
    register_once(&mut list, clone.clone());
    assert_eq!(list.len(), 1);
    clone.path = "/tmp/new".to_string();
    register_once(&mut list, clone.clone());
    register_once(&mut list, clone.clone());
    assert_eq!(list.len(), 2);
}

#[test]
fn github_deployments_are_checked() {
    assert_eq!(
        deploy_request(" octo/repo ", " main ", " dev "),
        Ok(("octo/repo".to_string(), "main".to_string(), "dev".to_string(), "repo".to_string()))
    );
    assert_eq!(deploy_request("repo", "main", "dev"), Err("Choose a GitHub repository (owner/name).".to_string()));
    assert_eq!(deploy_request("o/r", " ", "dev"), Err("Choose a branch to deploy.".to_string()));
    assert_eq!(deploy_request("o/r", "main", ""), Err("Choose a target environment.".to_string()));
    assert_eq!(repo_name(" octo/new "), Ok("octo/new".to_string()));
    assert_eq!(
        repo_name("my repo"),
        Err("Enter a repository name without spaces (owner/name is allowed).".to_string())
    );
}

#[test]
fn workspace_commands_are_built_from_the_request() {
    assert_eq!(
        create_repo_args("octo/new", true, "/ws", true),
        vec!["repo", "create", "octo/new", "--private", "--source", "/ws", "--remote", "origin", "--push"]
    );
    assert_eq!(create_repo_args("n", false, "/ws", false)[3], "--public");
    assert_eq!(create_workspace_args("dev", Some("App")), vec!["create-workspace", "-e", "dev", "-a", "App"]);
    assert_eq!(create_workspace_args("dev", None), vec!["create-workspace", "-e", "dev"]);
    assert_eq!(push_workspace_args("dev", true), vec!["push-workspace", "-e", "dev", "--skip-backup", "true"]);
    assert_eq!(pull_report(0), "✓ Already up to date — no changes in the cloud since last pull.");
    assert_eq!(pull_report(4), "✓ Pulled — 4 file(s) changed. Review and commit them on the workspace screen.");
}

#[test]
fn a_new_workspace_commits_and_pushes_as_asked() {
    assert_eq!(initial_commit_message("dev", true), "Initial empty workspace");
    assert_eq!(initial_commit_message("dev", false), "Initial pull from dev");
    assert_eq!(initial_remote(None), None);
    assert_eq!(initial_remote(Some("   ")), None);
    assert_eq!(initial_remote(Some(" https://x/y.git ")), Some("https://x/y.git".to_string()));
}

#[test]
fn creating_a_repository_reports_and_records_a_push() {
    assert_eq!(
        repo_outcome(Ok(0), true),
        (vec!["✓ GitHub repository created and set as origin.".to_string(), "✓ Pushed the initial commit.".to_string()], 0, true)
    );
    assert_eq!(repo_outcome(Ok(0), false), (vec!["✓ GitHub repository created and set as origin.".to_string()], 0, false));
    let (lines, code, pushed) = repo_outcome(Ok(1), true);
    assert!(lines[0].starts_with("✗ gh repo create failed."));
    assert_eq!((code, pushed), (1, false));
    assert_eq!(repo_outcome(Err("gh missing".to_string()), true), (vec!["gh missing".to_string()], 1, false));
}

fn json_of(value: serde_json::Value) -> JsonValue {
    match value {
        serde_json::Value::Null => JsonValue::Null,
        serde_json::Value::Bool(b) => JsonValue::Bool(b),
        serde_json::Value::Number(n) => JsonValue::Number(n.to_string()),
        serde_json::Value::String(s) => JsonValue::Str(s),
        serde_json::Value::Array(items) => JsonValue::Array(items.into_iter().map(json_of).collect()),
        serde_json::Value::Object(members) => {
            JsonValue::Object(members.into_iter().map(|(k, v)| (k, json_of(v))).collect())
        }
    }
}

#[test]
fn reads_workspace_packages_from_settings() {
    let raw = r#"{"Packages":["QntImportEngine","Base"],"IgnorePackages":[]}"#;
    let settings = serde_json::from_str::<serde_json::Value>(raw).ok().map(json_of);
    let packages = workspace_packages(settings);
    assert_eq!(packages, vec!["QntImportEngine", "Base"]);
}

#[test]
fn reads_no_packages_when_settings_missing() {
    assert!(workspace_packages(None).is_empty());
}

#[test]
fn workspace_settings_in_camel_case_keep_only_text_names() {
    let raw = r#"{"packages":["A",3,null,"B"]}"#;
    let settings = serde_json::from_str::<serde_json::Value>(raw).ok().map(json_of);
    assert_eq!(workspace_packages(settings), vec!["A", "B"]);
    let raw = r#"{"Packages":"QntImportEngine"}"#;
    let settings = serde_json::from_str::<serde_json::Value>(raw).ok().map(json_of);
    assert!(workspace_packages(settings).is_empty());
}
