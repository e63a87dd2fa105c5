use creatio_devhub::diagnostics::{diagnose, diagnose_log, rules};

fn code_for(raw: &str) -> Option<String> {
    diagnose(raw).map(|d| d.code)
}

#[test]
fn recognizes_a_damaged_clio_install() {
    let raw = "[ERR] - Could not load file or assembly 'Creatio.Metrics.Abstractions, Version=1.0.5.0'.";
    assert_eq!(code_for(raw).as_deref(), Some("clio-damaged"));
}

#[test]
fn recognizes_a_locked_clio_tool_store() {
    let raw = "Failed to uninstall tool package 'clio': Access to the path 'C:\\Users\\x\\.dotnet\\tools\\.store' is denied.";
    assert_eq!(code_for(raw).as_deref(), Some("clio-locked"));
}

#[test]
fn a_damaged_install_outranks_the_generic_missing_file_rule() {
    let raw = "Could not load file or assembly 'X'. The system cannot find the file specified.";
    assert_eq!(code_for(raw).as_deref(), Some("clio-damaged"));
}

#[test]
fn recognizes_a_missing_executable() {
    let raw = "'gh' is not recognized as an internal or external command, operable program or batch file.";
    let found = diagnose(raw).expect("tool-missing");
    assert_eq!(found.code, "tool-missing");
    assert!(found.steps.iter().any(|step| step.contains("Command-line tools")));
}

#[test]
fn separates_github_access_from_creatio_auth() {
    let git = "remote: Repository not found.\nfatal: repository 'https://github.com/x/y.git/' not found";
    assert_eq!(code_for(git).as_deref(), Some("git-repo-access"));
    let creatio = "[ERR] - Unauthorized (401) while calling the Creatio dataservice";
    assert_eq!(code_for(creatio).as_deref(), Some("creatio-auth"));
}

#[test]
fn recognizes_a_rejected_push() {
    let raw = "! [rejected] main -> main (non-fast-forward)\nUpdates were rejected because the tip of your current branch is behind";
    assert_eq!(code_for(raw).as_deref(), Some("git-push-rejected"));
}

#[test]
fn recognizes_an_unreachable_environment() {
    let raw = "No connection could be made because the target machine actively refused it 127.0.0.1:8080";
    assert_eq!(code_for(raw).as_deref(), Some("creatio-unreachable"));
}

#[test]
fn unknown_failures_fall_through_to_raw_output() {
    assert_eq!(diagnose("some unexpected failure"), None);
    assert_eq!(diagnose(""), None);
}

#[test]
fn log_diagnosis_reads_the_tail_not_the_header() {
    let mut lines: Vec<String> = vec!["[INF] - starting".to_string(); 60];
    lines.push("[ERR] - Could not load file or assembly 'X'".to_string());
    assert_eq!(diagnose_log(&lines).map(|d| d.code).as_deref(), Some("clio-damaged"));

    let mut buried = vec!["[ERR] - Could not load file or assembly 'X'".to_string()];
    buried.extend(vec!["[INF] - working".to_string(); 100]);
    assert_eq!(diagnose_log(&buried), None);
}

#[test]
fn every_rule_has_a_cause_and_at_least_one_step() {
    for rule in rules() {
        assert!(!rule.cause.is_empty(), "{} has no cause", rule.code);
        assert!(!rule.steps.is_empty(), "{} has no steps", rule.code);
        assert!(!rule.all.is_empty() || !rule.any.is_empty(), "{} would match everything", rule.code);
    }
}

#[test]
fn rule_needles_are_lowercase_so_they_can_match() {
    for rule in rules() {
        for needle in rule.all.iter().chain(rule.any.iter()).chain(rule.none.iter()) {
            assert_eq!(*needle, needle.to_lowercase(), "{} has a non-lowercase needle", rule.code);
        }
    }
}

#[test]
fn matching_ignores_case() {
    assert_eq!(code_for("COULD NOT LOAD FILE OR ASSEMBLY 'X'").as_deref(), Some("clio-damaged"));
}

#[test]
fn a_foreign_key_violation_is_not_an_unreachable_environment() {
    let raw = r#"23503: insert or update on table "Campaign" violates foreign key constraint "FK0dIuly2u9hURhe40fYhfTeLzE""#;
    assert_eq!(code_for(raw).as_deref(), Some("sql-fk-violation"));
    assert_eq!(code_for("HTTP 503 Service Unavailable").as_deref(), Some("creatio-unreachable"));
    assert_eq!(code_for("The remote server returned an error: (502) Bad Gateway.").as_deref(), Some("creatio-unreachable"));
    assert_eq!(code_for("23502: null value in column \"Name\" violates not-null constraint"), None);
}

#[test]
fn a_missing_column_outranks_the_cliogate_hint() {
    let raw = "42703: column \"Name\" does not exist\nNo lookup data was returned. The environment may be missing the cliogate helper (clio install-gate), or the query was rejected.";
    assert_eq!(code_for(raw).as_deref(), Some("sql-column-missing"));
    assert_eq!(
        code_for("The environment may be missing the cliogate helper (clio install-gate)").as_deref(),
        Some("cliogate-missing")
    );
}
