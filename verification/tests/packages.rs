use creatio_devhub::json::JsonValue;
use creatio_devhub::packages::{
    action_job, action_phase, list_failure, lock_states, packages_from_descriptors, parse_package_json, parse_package_list,
    require_package_name, require_version, transfer_check, PackageInfo, PackageLockState,
};
use creatio_devhub::sql::SqlResult;

fn pkg(name: &str, version: &str, maintainer: &str) -> PackageInfo {
    PackageInfo { name: name.into(), version: version.into(), maintainer: maintainer.into() }
}

#[test]
fn parses_package_table_and_skips_clio_noise() {
    let raw = "\
[WAR] - clio 8.1.0.99 is available.
[INF] - Name                Version      Maintainer
──────────────────────────────────────────────────
Base                         8.3.0        Creatio
QntImportEngine              1.2.3.4      Qnovate Labs
CampaignElements.UI          7.8.0        Creatio
";
    assert_eq!(
        parse_package_list(raw),
        vec![
            pkg("Base", "8.3.0", "Creatio"),
            pkg("CampaignElements.UI", "7.8.0", "Creatio"),
            pkg("QntImportEngine", "1.2.3.4", "Qnovate Labs"),
        ]
    );
}

#[test]
fn rejects_non_package_rows() {
    let raw = "No packages were found\nError Unauthorized\n";
    assert!(parse_package_list(raw).is_empty());
}

#[test]
fn json_descriptors_without_a_name_are_dropped_and_sorted() {
    let rows = vec![pkg("zeta", "", "C"), pkg("", "1", "X"), pkg("Alpha", "1.0", "Q")];
    assert_eq!(packages_from_descriptors(rows), vec![pkg("Alpha", "1.0", "Q"), pkg("zeta", "", "C")]);
}

#[test]
fn package_names_are_checked() {
    assert_eq!(require_package_name("  "), Err("Package name is required.".to_string()));
    assert_eq!(require_package_name("a,b"), Err("Invalid package name.".to_string()));
    assert_eq!(require_package_name("-x"), Err("Invalid package name.".to_string()));
    assert_eq!(require_package_name(" Base "), Ok("Base".to_string()));
}

#[test]
fn versions_must_be_dotted_numbers() {
    let message = Err("Enter a numeric package version such as 1.2.3.4.".to_string());
    assert_eq!(require_version(Some(" 1.2.3.4 ")), Ok("1.2.3.4".to_string()));
    assert_eq!(require_version(Some("1..2")), message);
    assert_eq!(require_version(Some("1.2a")), message);
    assert_eq!(require_version(Some(".1")), message);
    assert_eq!(require_version(None), message);
}

#[test]
fn actions_are_allow_listed() {
    let lock = action_job("dev", "Base", "lock", None, false, false, None, false).unwrap();
    assert_eq!(lock.kind, "lock-package");
    assert_eq!(lock.display, "lock Base on dev");
    assert_eq!(lock.args, vec!["lock-package", "Base", "-e", "dev"]);
    let push = action_job("dev", "Base", "push", Some(" /tmp/Base.gz "), true, false, None, true).unwrap();
    assert_eq!(push.args, vec!["push-pkg", "/tmp/Base.gz", "-e", "dev", "--skip-backup", "true"]);
    assert_eq!(push.display, "install /tmp/Base.gz → dev");
    let pull = action_job("dev", "Base", "pull", Some("/tmp"), true, true, None, false).unwrap();
    assert_eq!(pull.cwd.as_deref(), Some("/tmp"));
    assert_eq!(
        action_job("dev", "Base", "pull", Some("/tmp/x.gz"), true, false, None, false),
        Err("Choose a destination folder for the downloaded package.".to_string())
    );
    assert_eq!(
        action_job("dev", "Base", "push", None, false, false, None, false),
        Err("Choose an existing package folder or .zip/.gz archive.".to_string())
    );
    let hotfix = action_job("dev", "Base", "hotfix", None, false, false, Some("true"), false).unwrap();
    assert_eq!(hotfix.args, vec!["pkg-hotfix", "Base", "true", "-e", "dev"]);
    assert_eq!(
        action_job("dev", "Base", "hotfix", None, false, false, Some("yes"), false),
        Err("Hotfix value must be true or false.".to_string())
    );
    assert_eq!(action_job("dev", "Base", "delete", None, false, false, None, false).unwrap().args[0], "delete-pkg-remote");
    assert_eq!(
        action_job("dev", "Base", "explode", None, false, false, None, false),
        Err("Unsupported package action: explode".to_string())
    );
}

#[test]
fn lock_states_read_install_type() {
    let result = SqlResult {
        columns: vec!["name".into(), "INSTALLTYPE".into()],
        rows: vec![vec!["Base".into(), "1".into()], vec![" ".into(), "1".into()], vec!["Custom".into(), "0".into()], vec!["Short".into()]],
        row_count: 4,
        truncated: false,
        statement: false,
        messages: vec![],
    };
    assert_eq!(
        lock_states(&result).unwrap(),
        vec![
            PackageLockState { name: "Base".into(), locked: true },
            PackageLockState { name: "Custom".into(), locked: false },
        ]
    );
}

#[test]
fn list_failures_carry_the_exit_code() {
    assert_eq!(list_failure("list-packages", "dev", 2, " nope "), "clio list-packages failed for dev (exit 2): nope");
    assert_eq!(list_failure("list-apps", "dev", -1, ""), "clio list-apps failed for dev (exit -1): ");
}

#[test]
fn transfers_need_two_registered_environments() {
    let registered = vec!["dev".to_string(), "pre".to_string()];
    assert_eq!(transfer_check("dev", "dev", &registered), Err("Choose a different target environment.".to_string()));
    assert_eq!(transfer_check("dev", "qa", &registered), Err("Environment qa is not registered in clio.".to_string()));
    assert_eq!(transfer_check("dev", "pre", &registered), Ok(()));
}

#[test]
fn only_downloads_can_be_stopped() {
    assert_eq!(action_phase("pull-package"), ("downloading package", true));
    assert_eq!(action_phase("delete-package"), ("modifying environment", false));
}

fn json_of(value: serde_json::Value) -> JsonValue {
    match value {
        serde_json::Value::Null => JsonValue::Null,
        serde_json::Value::Bool(b) => JsonValue::Bool(b),
        serde_json::Value::Number(n) => JsonValue::Number(n.to_string()),
        serde_json::Value::String(s) => JsonValue::Str(s),
        serde_json::Value::Array(items) => JsonValue::Array(items.into_iter().map(json_of).collect()),
        serde_json::Value::Object(members) => {
            JsonValue::Object(members.into_iter().map(|(k, v)| (k, json_of(v))).collect())
        }
    }
}

fn first_json(raw: &str) -> Option<Result<JsonValue, String>> {
    serde_json::Deserializer::from_str(raw)
        .into_iter::<serde_json::Value>()
        .next()
        .map(|item| item.map(json_of).map_err(|error| error.to_string()))
}

#[test]
fn parses_json_packages_with_empty_versions_and_trailing_warning() {
    let raw = r#"{
      "schemaVersion": "1.0",
      "ok": true,
      "data": [
        {"Descriptor":{"Name":"NoVersion","PackageVersion":"","Maintainer":"Customer"}},
        {"Descriptor":{"Name":"Versioned","PackageVersion":"1.2.3","Maintainer":"Qnovate"}}
      ],
      "error": null
    }
    [WAR] - a newer clio is available"#;
    assert_eq!(
        parse_package_json(first_json(raw)).unwrap(),
        vec![
            PackageInfo {
                name: "NoVersion".into(),
                version: "".into(),
                maintainer: "Customer".into()
            },
            PackageInfo {
                name: "Versioned".into(),
                version: "1.2.3".into(),
                maintainer: "Qnovate".into()
            }
        ]
    );
}

#[test]
fn package_json_reports_its_own_error() {
    let raw = r#"{"ok":false,"error":{"message":"Environment dev is not reachable"}}"#;
    assert_eq!(parse_package_json(first_json(raw)), Err("Environment dev is not reachable".to_string()));
    assert_eq!(parse_package_json(first_json(r#"{"ok":false}"#)), Err("clio could not list packages".to_string()));
}

#[test]
fn package_json_rows_without_a_descriptor_are_skipped() {
    let raw = r#"{"data":[{"Other":1},{"descriptor":{"name":"b","packageVersion":"2","maintainer":"M"}},{"Descriptor":{"Name":"A"}},{"Descriptor":{"Name":""}}]}"#;
    let packages = parse_package_json(first_json(raw)).unwrap();
    assert_eq!(packages.len(), 2);
    assert_eq!(packages[0].name, "A");
    assert_eq!(packages[0].version, "");
    assert_eq!(packages[1].name, "b");
    assert_eq!(packages[1].version, "2");
}

#[test]
fn package_json_failures_are_explained() {
    assert_eq!(parse_package_json(None), Err("clio returned no JSON.".to_string()));
    assert_eq!(
        parse_package_json(Some(Err("oops".to_string()))),
        Err("Invalid clio package JSON: oops".to_string())
    );
    assert_eq!(parse_package_json(first_json(r#"{"ok":true,"data":{}}"#)), Err("clio package JSON has no data array.".to_string()));
}
