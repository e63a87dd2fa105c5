use creatio_devhub::wsjob::{WorkspaceJob, WsAction, WsEvent};

fn s(v: &str) -> String {
    v.to_string()
}

fn args(v: &[&str]) -> Vec<String> {
    v.iter().map(|a| a.to_string()).collect()
}

#[test]
fn creating_a_workspace_scaffolds_restores_commits_and_pushes() {
    let mut j = WorkspaceJob::create("dev", Some("App"), Some(" https://x/r.git "), false);
    assert_eq!(j.next(WsEvent::Ready), WsAction::Begin(s("creating workspace"), true));
    assert_eq!(j.next(WsEvent::Started(true)), WsAction::Clio(args(&["create-workspace", "-e", "dev", "-a", "App"])));
    assert_eq!(j.next(WsEvent::Exited(Ok(0))), WsAction::CheckCancel);
    assert_eq!(j.next(WsEvent::CancelRequested(false)), WsAction::SetPhase(s("restoring workspace files"), true));
    assert_eq!(j.next(WsEvent::PhaseSet(true)), WsAction::Clio(args(&["restore-workspace", "-e", "dev"])));
    assert_eq!(j.next(WsEvent::Exited(Ok(0))), WsAction::Log(s("Initializing git repository…")));
    assert_eq!(j.next(WsEvent::Ready), WsAction::Git(args(&["init", "-b", "main"])));
    assert_eq!(j.next(WsEvent::GitDone(Ok(()))), WsAction::WriteGitignore);
    assert_eq!(j.next(WsEvent::FileWritten(Ok(()))), WsAction::Git(args(&["add", "-A"])));
    assert_eq!(j.next(WsEvent::GitDone(Ok(()))), WsAction::Git(args(&["commit", "-m", "Initial pull from dev"])));
    assert_eq!(j.next(WsEvent::GitDone(Ok(()))), WsAction::Log(s("✓ Initial commit created on branch main")));
    assert_eq!(j.next(WsEvent::Ready), WsAction::Git(args(&["remote", "add", "origin", "https://x/r.git"])));
    assert_eq!(j.next(WsEvent::GitDone(Ok(()))), WsAction::Log(s("Pushing to https://x/r.git…")));
    assert_eq!(j.next(WsEvent::Ready), WsAction::Git(args(&["push", "-u", "origin", "main"])));
    assert_eq!(
        j.next(WsEvent::GitDone(Err(s("auth")))),
        WsAction::Log(s("⚠ Remote push failed (auth). The workspace is fine — set up git credentials and push from the workspace screen."))
    );
    assert_eq!(j.next(WsEvent::Ready), WsAction::Register(true));
    assert_eq!(j.next(WsEvent::Ready), WsAction::Log(s("✓ Workspace ready")));
    assert_eq!(j.next(WsEvent::Ready), WsAction::Report(vec![], 0));
    assert!(j.is_done());
}

#[test]
fn an_empty_workspace_skips_the_restore_and_the_remote() {
    let mut j = WorkspaceJob::create("dev", None, Some("  "), true);
    j.next(WsEvent::Ready);
    assert_eq!(j.next(WsEvent::Started(true)), WsAction::Clio(args(&["create-workspace", "-e", "dev"])));
    assert!(matches!(j.next(WsEvent::Exited(Ok(0))), WsAction::Log(l) if l.starts_with("Empty workspace")));
    assert_eq!(j.next(WsEvent::Ready), WsAction::Log(s("Initializing git repository…")));
    j.next(WsEvent::Ready);
    j.next(WsEvent::GitDone(Ok(())));
    j.next(WsEvent::FileWritten(Ok(())));
    assert_eq!(j.next(WsEvent::GitDone(Ok(()))), WsAction::Git(args(&["commit", "-m", "Initial empty workspace"])));
    j.next(WsEvent::GitDone(Ok(())));
    assert_eq!(j.next(WsEvent::Ready), WsAction::Register(false));
}

#[test]
fn a_failed_scaffold_ends_the_job() {
    let mut j = WorkspaceJob::create("dev", None, None, false);
    j.next(WsEvent::Ready);
    j.next(WsEvent::Started(true));
    assert_eq!(j.next(WsEvent::Exited(Ok(2))), WsAction::Report(vec![s("✗ clio create-workspace failed")], 1));
    let mut c = WorkspaceJob::create("dev", None, None, false);
    c.next(WsEvent::Ready);
    c.next(WsEvent::Started(true));
    c.next(WsEvent::Exited(Ok(0)));
    assert_eq!(c.next(WsEvent::CancelRequested(true)), WsAction::Report(vec![s("✗ Cancelled before restore.")], 1));
}

#[test]
fn adding_a_package_configures_restores_and_records_a_pull() {
    let mut j = WorkspaceJob::add_package("dev", "Custom", "ws");
    assert_eq!(j.next(WsEvent::Ready), WsAction::Begin(s("updating workspace selection"), true));
    assert_eq!(j.next(WsEvent::Started(true)), WsAction::Log(s("Adding Custom to the workspace package selection…")));
    assert_eq!(j.next(WsEvent::Ready), WsAction::Clio(args(&["cfg-worspace", "--Packages", "Custom", "-e", "dev"])));
    assert_eq!(j.next(WsEvent::Exited(Ok(0))), WsAction::CheckCancel);
    assert_eq!(j.next(WsEvent::CancelRequested(false)), WsAction::SetPhase(s("restoring package into workspace"), true));
    assert_eq!(j.next(WsEvent::PhaseSet(true)), WsAction::Log(s("Restoring Custom source files from dev…")));
    assert_eq!(j.next(WsEvent::Ready), WsAction::Clio(args(&["restore-workspace", "-e", "dev"])));
    assert_eq!(j.next(WsEvent::Exited(Ok(0))), WsAction::CountChanges);
    assert_eq!(
        j.next(WsEvent::Changed(3)),
        WsAction::Log(s("✓ Custom is now part of ws. Review the 3 changed file(s), then commit and push them to Git."))
    );
    assert_eq!(j.next(WsEvent::Ready), WsAction::Record(true));
    assert_eq!(j.next(WsEvent::Ready), WsAction::Report(vec![], 0));
}

#[test]
fn installing_and_pulling_report_their_outcome() {
    let mut push = WorkspaceJob::push_cloud("pre", true);
    assert_eq!(push.next(WsEvent::Ready), WsAction::Begin(s("installing workspace in environment"), false));
    assert!(matches!(push.next(WsEvent::Started(true)), WsAction::Log(_)));
    assert_eq!(
        push.next(WsEvent::Ready),
        WsAction::Clio(args(&["push-workspace", "-e", "pre", "--skip-backup", "true"]))
    );
    assert_eq!(push.next(WsEvent::Exited(Ok(0))), WsAction::Log(s("✓ Workspace installed to the environment.")));
    assert_eq!(push.next(WsEvent::Ready), WsAction::Record(false));

    let mut failed = WorkspaceJob::push_cloud("pre", false);
    failed.next(WsEvent::Ready);
    failed.next(WsEvent::Started(true));
    failed.next(WsEvent::Ready);
    match failed.next(WsEvent::Exited(Ok(4))) {
        WsAction::Report(lines, 4) => assert!(lines[0].starts_with("✗ Push failed")),
        other => panic!("unexpected {other:?}"),
    }

    let mut pull = WorkspaceJob::pull("dev");
    assert_eq!(pull.next(WsEvent::Ready), WsAction::Begin(s("restoring workspace files"), true));
    assert_eq!(pull.next(WsEvent::Started(true)), WsAction::Clio(args(&["restore-workspace", "-e", "dev"])));
    assert_eq!(pull.next(WsEvent::Exited(Ok(0))), WsAction::CountChanges);
    assert_eq!(
        pull.next(WsEvent::Changed(0)),
        WsAction::Log(s("✓ Already up to date — no changes in the cloud since last pull."))
    );
    assert_eq!(pull.next(WsEvent::Ready), WsAction::Record(true));
    assert_eq!(pull.next(WsEvent::Ready), WsAction::Report(vec![], 0));

    let mut stopped = WorkspaceJob::pull("dev");
    stopped.next(WsEvent::Ready);
    assert_eq!(stopped.next(WsEvent::Started(false)), WsAction::Stop);
}
