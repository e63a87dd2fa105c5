use creatio_devhub::deploy::{DeployAction, DeployEvent, GithubDeploy};

fn s(v: &str) -> String {
    v.to_string()
}

fn args(v: &[&str]) -> Vec<String> {
    v.iter().map(|a| a.to_string()).collect()
}

fn flow(register: bool) -> GithubDeploy {
    GithubDeploy::new("me/ws", "main", "pre", "ws", "/src/ws", "https://github.com/me/ws.git", false, register)
}

fn install_from_check(d: &mut GithubDeploy) {
    assert_eq!(d.next(DeployEvent::IsWorkspace(true)), DeployAction::CheckCancel);
    assert_eq!(
        d.next(DeployEvent::CancelRequested(false)),
        DeployAction::SetPhase(s("installing workspace in environment"), false)
    );
    assert!(matches!(d.next(DeployEvent::PhaseSet(true)), DeployAction::Log(l) if l.starts_with("Packing and installing")));
    assert_eq!(d.next(DeployEvent::Ready), DeployAction::Clio(args(&["push-workspace", "-e", "pre"])));
}

#[test]
fn an_existing_clone_is_refreshed_then_installed_and_registered() {
    let mut d = flow(true);
    assert_eq!(d.next(DeployEvent::Ready), DeployAction::Begin(s("fetching from GitHub"), true));
    assert_eq!(d.next(DeployEvent::Started(true)), DeployAction::InspectFolder);
    assert_eq!(d.next(DeployEvent::Folder(true, true)), DeployAction::Log(s("Refreshing existing clone at /src/ws…")));
    assert_eq!(d.next(DeployEvent::Ready), DeployAction::Git(args(&["fetch", "--prune", "origin"])));
    assert_eq!(d.next(DeployEvent::GitDone(Ok(()))), DeployAction::Git(args(&["checkout", "main"])));
    assert_eq!(d.next(DeployEvent::GitDone(Ok(()))), DeployAction::Git(args(&["reset", "--hard", "origin/main"])));
    assert_eq!(d.next(DeployEvent::GitDone(Ok(()))), DeployAction::CheckWorkspace);
    install_from_check(&mut d);
    assert_eq!(d.next(DeployEvent::Exited(Ok(0))), DeployAction::Log(s("✓ Deployed me/ws@main to pre.")));
    assert_eq!(d.next(DeployEvent::Ready), DeployAction::Register);
    assert_eq!(d.next(DeployEvent::Ready), DeployAction::Report(vec![], 0));
    assert!(d.is_done());
}

#[test]
fn a_failed_gh_clone_falls_back_to_git() {
    let mut d = flow(false);
    d.next(DeployEvent::Ready);
    d.next(DeployEvent::Started(true));
    assert_eq!(d.next(DeployEvent::Folder(false, false)), DeployAction::Log(s("Cloning me/ws (main)…")));
    assert_eq!(
        d.next(DeployEvent::Ready),
        DeployAction::Gh(args(&["repo", "clone", "me/ws", "/src/ws", "--", "-b", "main"]))
    );
    assert_eq!(d.next(DeployEvent::GhExited(Ok(1))), DeployAction::Log(s("gh clone failed — falling back to git clone…")));
    assert_eq!(
        d.next(DeployEvent::Ready),
        DeployAction::GitInParent(args(&["clone", "-b", "main", "https://github.com/me/ws.git", "ws"]))
    );
    assert_eq!(d.next(DeployEvent::GitDone(Ok(()))), DeployAction::CheckWorkspace);
    install_from_check(&mut d);
    d.next(DeployEvent::Exited(Ok(0)));
    assert_eq!(d.next(DeployEvent::Ready), DeployAction::Report(vec![], 0));
}

#[test]
fn a_deployment_refuses_what_it_cannot_install() {
    let mut occupied = flow(false);
    occupied.next(DeployEvent::Ready);
    occupied.next(DeployEvent::Started(true));
    assert_eq!(
        occupied.next(DeployEvent::Folder(false, true)),
        DeployAction::Report(vec![s("✗ /src/ws already exists and is not a git clone. Pick another destination.")], 1)
    );

    let mut not_workspace = flow(false);
    not_workspace.next(DeployEvent::Ready);
    not_workspace.next(DeployEvent::Started(true));
    not_workspace.next(DeployEvent::Folder(false, false));
    not_workspace.next(DeployEvent::Ready);
    not_workspace.next(DeployEvent::GhExited(Ok(0)));
    assert_eq!(
        not_workspace.next(DeployEvent::IsWorkspace(false)),
        DeployAction::Report(
            vec![s("✗ me/ws is not a clio workspace (no .clio directory). Only DevHub/clio workspaces can be deployed.")],
            1
        )
    );

    let mut cancelled = flow(false);
    cancelled.next(DeployEvent::Ready);
    cancelled.next(DeployEvent::Started(true));
    cancelled.next(DeployEvent::Folder(true, true));
    cancelled.next(DeployEvent::Ready);
    assert_eq!(
        cancelled.next(DeployEvent::GitDone(Err(s("git fetch failed: no route")))),
        DeployAction::Report(vec![s("✗ git fetch failed: no route")], 1)
    );

    let mut failed = flow(false);
    failed.next(DeployEvent::Ready);
    failed.next(DeployEvent::Started(true));
    failed.next(DeployEvent::Folder(true, true));
    failed.next(DeployEvent::Ready);
    failed.next(DeployEvent::GitDone(Ok(())));
    failed.next(DeployEvent::GitDone(Ok(())));
    failed.next(DeployEvent::GitDone(Ok(())));
    failed.next(DeployEvent::IsWorkspace(true));
    assert_eq!(failed.next(DeployEvent::CancelRequested(true)), DeployAction::Report(vec![s("✗ Cancelled before install.")], 1));
}
