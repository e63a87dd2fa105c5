use creatio_devhub::git::{
    access_error, ahead_behind_ranges, current_branch, git_ok, is_missing_repository, log, log_args,
    porcelain_is_ascii, remote_url, rev_count, status, upstream, FileChange,
};

fn strings(items: &[&str]) -> Vec<String> {
    items.iter().map(|s| s.to_string()).collect()
}

#[test]
fn porcelain_status_reads_paths_and_codes() {
    let out = " M src/Schema.cs\n?? \"new file.cs\"\nD  gone.cs\nR  a -> b\nxx\n";
    assert!(porcelain_is_ascii(out));
    let changes = status(out);
    assert_eq!(
        changes,
        vec![
            FileChange { path: "src/Schema.cs".to_string(), status: "M".to_string() },
            FileChange { path: "new file.cs".to_string(), status: "A".to_string() },
            FileChange { path: "gone.cs".to_string(), status: "D".to_string() },
            FileChange { path: "a -> b".to_string(), status: "R".to_string() },
        ]
    );
    assert!(status("").is_empty());
}

#[test]
fn non_ascii_status_columns_are_detected() {
    assert!(!porcelain_is_ascii("é  x\n"));
    assert!(porcelain_is_ascii("M  é\n"));
}

#[test]
fn a_failed_git_command_names_itself_and_its_error() {
    let args = strings(&["push", "origin", "main"]);
    assert_eq!(git_ok(&args, 0, "ok\n".to_string(), "noise"), Ok("ok\n".to_string()));
    assert_eq!(
        git_ok(&args, 1, "out".to_string(), "  rejected \n"),
        Err("git push origin main failed: rejected".to_string())
    );
    assert_eq!(
        git_ok(&args, 128, " only stdout \n".to_string(), "   "),
        Err("git push origin main failed: only stdout".to_string())
    );
}

#[test]
fn the_log_reads_four_fields_per_line() {
    assert_eq!(
        log_args(10),
        strings(&["log", "-10", "--date=relative", "--pretty=format:%h\x1f%s\x1f%an\x1f%ad"])
    );
    let out = "abc123\x1finitial\x1ft\x1f2 hours ago\nbroken line\ndef\x1fsecond\x1fu\x1fnow\x1fextra";
    let commits = log(0, out);
    assert_eq!(commits.len(), 2);
    assert_eq!(commits[0].hash, "abc123");
    assert_eq!(commits[0].message, "initial");
    assert_eq!(commits[0].author, "t");
    assert_eq!(commits[0].date, "2 hours ago");
    assert_eq!(commits[1].date, "now");
    assert!(log(128, out).is_empty());
}

#[test]
fn branch_and_remote_need_a_successful_query() {
    assert_eq!(current_branch(0, "main\n"), Some("main".to_string()));
    assert_eq!(current_branch(128, "main\n"), None);
    assert_eq!(remote_url(0, " https://github.com/x/y.git \n"), Some("https://github.com/x/y.git".to_string()));
    assert_eq!(remote_url(2, ""), None);
}

#[test]
fn rev_counts_fall_back_to_zero() {
    assert_eq!(rev_count(0, "3\n"), 3);
    assert_eq!(rev_count(0, "+7"), 7);
    assert_eq!(rev_count(0, "lots"), 0);
    assert_eq!(rev_count(0, "99999999999"), 0);
    assert_eq!(rev_count(1, "3"), 0);
}

#[test]
fn ahead_and_behind_compare_with_origin() {
    let up = upstream("main");
    assert_eq!(up, "origin/main");
    assert_eq!(ahead_behind_ranges(&up), ("origin/main..HEAD".to_string(), "HEAD..origin/main".to_string()));
}

#[test]
fn a_hidden_repository_is_explained() {
    assert!(is_missing_repository("remote: Repository not found.\nfatal: ..."));
    assert!(!is_missing_repository("fatal: unable to access"));
    assert_eq!(
        access_error(Some("octo"), Some("https://github.com/x/y.git")),
        "The active GitHub account 'octo' cannot access the private repository https://github.com/x/y.git. Switch to an account with access, or add 'octo' as a repository collaborator and accept the invitation."
    );
    assert_eq!(
        access_error(None, None),
        "The authenticated GitHub account cannot access the private repository the configured origin. Sign in with an account that has access."
    );
}
