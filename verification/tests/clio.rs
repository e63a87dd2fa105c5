use creatio_devhub::json::JsonValue;
use creatio_devhub::clio::{
    clio_status_from, default_env_outcome, default_env_request, diagnose, env_summaries, install_plan,
    install_verdict, install_outcome, install_phase, tool_lines, packages_snapshot, parse_available_version, parse_labeled_version,
    parse_packages_snapshot, environments_from_json, EnvSettings,
};

#[test]
fn packages_snapshot_parses_table_and_skips_noise() {
    let raw = "\
[WAR] - clio 8.1.0.86 is available. Run 'dotnet tool update clio -g' to update.

[INF] - Name                Version      Maintainer

ActionsDashboard    7.8.0        Creatio
Base                7.8.0        Creatio
CampaignElements.UI 7.8.0        Creatio
";
    let rows = parse_packages_snapshot(raw);
    assert_eq!(rows, vec!["ActionsDashboard|7.8.0", "Base|7.8.0", "CampaignElements.UI|7.8.0"]);

    let with_banner = format!("[WAR] - clio 9.0.0.1 is available.\n{raw}");
    assert_eq!(parse_packages_snapshot(&with_banner), rows);
}

#[test]
fn diagnoses_real_clio_failures() {
    let locked = "Tool 'clio' failed to update due to the following:\nFailed to uninstall tool package 'clio': Access to the path 'C:\\Users\\x\\.dotnet\\tools\\.store\\clio\\8.1.0.84' is denied.";
    assert!(diagnose(locked).expect("locked hint").contains("still running"));

    let broken = "[ERR] - Could not load file or assembly 'Creatio.Metrics.Abstractions, Version=1.0.5.0'. The system cannot find the file specified.";
    assert!(diagnose(broken).expect("broken hint").contains("Repair clio"));

    assert_eq!(diagnose("some unexpected failure"), None);
}

#[test]
fn parses_clio_version_and_update_notice() {
    let out = "\
[WAR] - clio 8.1.0.86 is available. Run 'dotnet tool update clio -g' to update.
[INF] - clio:   8.1.0.84
[INF] - gate:   2.0.0.44
[INF] - dotnet:   10.0.10
[INF] - settings file path: C:\\Users\\x\\AppData\\Local\\creatio\\clio\\appsettings.json
";
    assert_eq!(parse_labeled_version(out, "clio:").as_deref(), Some("8.1.0.84"));
    assert_eq!(parse_labeled_version(out, "gate:").as_deref(), Some("2.0.0.44"));
    assert_eq!(parse_available_version(out).as_deref(), Some("8.1.0.86"));

    let current = "[INF] - clio:   8.1.0.86\n[INF] - gate:   2.0.0.44\n";
    assert_eq!(parse_available_version(current), None);
    assert_eq!(parse_labeled_version("[INF] - settings file path: C:\\x\\clio\\a.json", "clio:"), None);
}

#[test]
fn a_diagnosis_hint_numbers_its_steps() {
    let hint = diagnose("[ERR] - Could not load file or assembly 'X'").unwrap();
    assert!(hint.contains(" 1. "));
}

#[test]
fn package_snapshot_text_needs_rows() {
    assert_eq!(
        packages_snapshot("dev", 3, "[ERR] - nothing"),
        Err("Could not read package list from dev (exit 3).".to_string())
    );
    assert_eq!(packages_snapshot("dev", 0, "B 1.0\nA 2.0\n"), Ok("A|2.0\nB|1.0".to_string()));
}

#[test]
fn clio_status_reads_versions_and_damage() {
    let out = "[WAR] - clio 8.1.0.86 is available.\n[INF] - clio:   8.1.0.84\n[INF] - gate:   2.0.0.44\n";
    let status = clio_status_from(Some(out), Some("10.0.1".to_string()));
    assert!(status.installed);
    assert!(status.update_available);
    assert_eq!(status.version.as_deref(), Some("8.1.0.84"));
    assert_eq!(status.latest.as_deref(), Some("8.1.0.86"));
    assert_eq!(status.gate_version.as_deref(), Some("2.0.0.44"));
    assert!(!status.broken);

    let damaged = clio_status_from(Some("[ERR] - Could not load file or assembly 'X'"), None);
    assert!(damaged.installed && damaged.broken && damaged.version.is_none());

    let missing = clio_status_from(None, None);
    assert!(!missing.installed && !missing.update_available);
}

fn env(name: &str, client_id: &str, secret: &str, login: &str) -> EnvSettings {
    EnvSettings {
        name: name.into(),
        uri: format!("https://{name}.example"),
        client_id: client_id.into(),
        client_secret: secret.into(),
        login: login.into(),
        is_net_core: true,
        developer_mode: false,
        maintainer: "Customer".into(),
    }
}

#[test]
fn the_active_environment_comes_first_then_by_name() {
    let envs = vec![env("zeta", "", "", "u"), env("Beta", "id", "s", ""), env("alpha", "", "", ""), env("dev", "id", "", "")];
    let out = env_summaries("zeta", &envs);
    let names: Vec<&str> = out.iter().map(|e| e.name.as_str()).collect();
    assert_eq!(names, vec!["zeta", "alpha", "Beta", "dev"]);
    assert!(out[0].is_active && !out[1].is_active);
    assert_eq!(out[0].auth_kind, "password");
    assert_eq!(out[2].auth_kind, "oauth");
    assert_eq!(out[1].auth_kind, "none");
    assert_eq!(out[3].auth_kind, "none");
}

#[test]
fn setting_the_default_environment_is_checked() {
    let registered = vec!["dev".to_string(), "pre".to_string()];
    assert_eq!(default_env_request("  ", &registered), Err("Choose an environment.".to_string()));
    assert_eq!(
        default_env_request("qa", &registered),
        Err("Environment qa is not registered in clio.".to_string())
    );
    assert_eq!(default_env_request(" dev ", &registered), Ok("dev".to_string()));
    assert_eq!(
        default_env_outcome("dev", 2, " boom \n", Some("dev")),
        Err("Could not set the default environment (exit 2): boom".to_string())
    );
    assert_eq!(
        default_env_outcome("dev", 0, "", Some("pre")),
        Err("clio completed without updating the active environment.".to_string())
    );
    assert_eq!(default_env_outcome("dev", 0, "", Some("dev")), Ok(()));
}

#[test]
fn install_modes_map_to_dotnet_tool_commands() {
    let repair = install_plan(" Repair ").unwrap();
    assert_eq!(repair.action, "install");
    assert_eq!(repair.kind, "repair-clio");
    assert!(repair.repair);
    assert_eq!(repair.display, "dotnet tool reinstall clio -g");
    assert_eq!(install_plan("update").unwrap().kind, "update-clio");
    assert_eq!(install_plan("remove").map(|p| p.kind), Err("Unknown clio action: remove".to_string()));
    assert_eq!(install_verdict(0, ""), "✓ clio is ready.");
    assert_eq!(install_verdict(1, "weird"), "✗ Failed — see the output above.");
}

#[test]
fn install_jobs_log_the_tool_and_its_verdict() {
    assert_eq!(install_phase(&install_plan("repair").unwrap()), "repairing clio");
    assert_eq!(install_phase(&install_plan("update").unwrap()), "updateing clio");
    assert_eq!(install_phase(&install_plan(" Install ").unwrap()), "installing clio");
    assert_eq!(tool_lines(Ok((0, "a\n\n  \nb".to_string()))), vec!["a", "b"]);
    assert_eq!(tool_lines(Err("no dotnet".to_string())), vec!["no dotnet"]);
    assert_eq!(install_outcome(Ok((0, "Tool installed.\n".to_string()))), (vec!["Tool installed.".to_string(), "✓ clio is ready.".to_string()], 0));
    assert_eq!(
        install_outcome(Err("not found".to_string())),
        (vec!["✗ not found".to_string(), "The .NET SDK (dotnet) is required to manage clio.".to_string()], 1)
    );
}

#[test]
fn an_empty_label_reads_the_first_character_of_the_first_line() {
    assert_eq!(parse_labeled_version("8.1 ready\nclio: 9.0", "").as_deref(), Some("8"));
    assert_eq!(parse_labeled_version("clio 8.1", ""), None);
    assert_eq!(parse_labeled_version("", ""), None);
}

fn json_of(value: serde_json::Value) -> JsonValue {
    match value {
        serde_json::Value::Null => JsonValue::Null,
        serde_json::Value::Bool(b) => JsonValue::Bool(b),
        serde_json::Value::Number(n) => JsonValue::Number(n.to_string()),
        serde_json::Value::String(s) => JsonValue::Str(s),
        serde_json::Value::Array(items) => JsonValue::Array(items.into_iter().map(json_of).collect()),
        serde_json::Value::Object(members) => {
            JsonValue::Object(members.into_iter().map(|(k, v)| (k, json_of(v))).collect())
        }
    }
}

#[test]
fn environments_are_read_from_clio_settings_without_secrets() {
    let raw = r#"{
      "ActiveEnvironmentKey": "prod",
      "Environments": {
        "dev": {"Uri": "http://dev", "Login": "Supervisor", "Password": "x", "IsNetCore": true},
        "prod": {"Uri": "https://prod", "ClientId": "id", "ClientSecret": "s", "DeveloperModeEnabled": true, "Maintainer": "Qnt"},
        "Bare": {}
      }
    }"#;
    let envs = environments_from_json(&json_of(serde_json::from_str(raw).unwrap()));
    let names: Vec<&str> = envs.iter().map(|e| e.name.as_str()).collect();
    assert_eq!(names, vec!["prod", "Bare", "dev"]);
    assert!(envs[0].is_active);
    assert_eq!(envs[0].auth_kind, "oauth");
    assert!(envs[0].developer_mode);
    assert_eq!(envs[0].maintainer, "Qnt");
    assert_eq!(envs[1].auth_kind, "none");
    assert_eq!(envs[1].uri, "");
    assert_eq!(envs[2].auth_kind, "password");
    assert!(envs[2].is_net_core);
    assert!(!envs[2].is_active);
    assert!(environments_from_json(&json_of(serde_json::from_str(r#"{"Environments":[]}"#).unwrap())).is_empty());
}
