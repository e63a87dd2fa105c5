use creatio_devhub::transfer::{FlowAction, FlowEvent, PackageFlow};

fn strings(items: &[&str]) -> Vec<String> {
    items.iter().map(|s| s.to_string()).collect()
}

#[test]
fn a_version_change_pulls_edits_and_pushes() {
    let mut f = PackageFlow::set_version("Custom", "dev", "1.2.3", true);
    assert!(matches!(f.next(FlowEvent::Ready), FlowAction::Log(_)));
    assert_eq!(f.next(FlowEvent::Ready), FlowAction::Pull(strings(&["pull-pkg", "Custom", "-e", "dev", "--unzip"])));
    assert_eq!(f.next(FlowEvent::Exited(0)), FlowAction::CheckCancel);
    assert_eq!(
        f.next(FlowEvent::CancelRequested(false)),
        FlowAction::SetPhase("updating local descriptor".to_string(), true)
    );
    assert_eq!(f.next(FlowEvent::PhaseSet(true)), FlowAction::Locate);
    assert_eq!(
        f.next(FlowEvent::Located(Some("/tmp/x/Custom".to_string()))),
        FlowAction::Run(strings(&["set-pkg-version", "/tmp/x/Custom", "-v", "1.2.3"]))
    );
    assert_eq!(f.next(FlowEvent::Exited(0)), FlowAction::CheckCancel);
    assert_eq!(
        f.next(FlowEvent::CancelRequested(false)),
        FlowAction::SetPhase("installing package in environment".to_string(), false)
    );
    assert_eq!(
        f.next(FlowEvent::PhaseSet(true)),
        FlowAction::Run(strings(&["push-pkg", "/tmp/x/Custom", "-e", "dev", "--skip-backup", "true"]))
    );
    assert!(!f.is_done());
    assert_eq!(f.next(FlowEvent::Exited(0)), FlowAction::Finish(0));
    assert!(f.is_done());
    assert_eq!(f.next(FlowEvent::Ready), FlowAction::Finish(1));
}

#[test]
fn a_deployment_reports_each_side() {
    let mut f = PackageFlow::deploy("Custom", "dev", "pre", false);
    assert_eq!(f.next(FlowEvent::Ready), FlowAction::Log("Downloading Custom from dev…".to_string()));
    assert_eq!(f.next(FlowEvent::Ready), FlowAction::Pull(strings(&["pull-pkg", "Custom", "-e", "dev", "--unzip"])));
    assert_eq!(f.next(FlowEvent::Exited(0)), FlowAction::CheckCancel);
    assert_eq!(f.next(FlowEvent::CancelRequested(false)), FlowAction::Locate);
    assert_eq!(
        f.next(FlowEvent::Located(Some("/t/Custom".to_string()))),
        FlowAction::Log("Installing Custom into pre…".to_string())
    );
    assert_eq!(
        f.next(FlowEvent::Ready),
        FlowAction::SetPhase("installing in target environment".to_string(), false)
    );
    assert_eq!(f.next(FlowEvent::PhaseSet(true)), FlowAction::Run(strings(&["push-pkg", "/t/Custom", "-e", "pre"])));
    assert_eq!(f.next(FlowEvent::Exited(0)), FlowAction::Log("✓ Custom deployed from dev to pre.".to_string()));
    assert_eq!(f.next(FlowEvent::Ready), FlowAction::Finish(0));
}

#[test]
fn failures_and_cancels_end_the_transfer() {
    let mut f = PackageFlow::deploy("Custom", "dev", "pre", false);
    f.next(FlowEvent::Ready);
    f.next(FlowEvent::Ready);
    assert_eq!(f.next(FlowEvent::Exited(3)), FlowAction::Finish(3));
    assert!(f.is_done());

    let mut g = PackageFlow::set_version("Custom", "dev", "2.0", false);
    g.next(FlowEvent::Ready);
    g.next(FlowEvent::Ready);
    g.next(FlowEvent::Exited(0));
    assert_eq!(g.next(FlowEvent::CancelRequested(true)), FlowAction::Finish(1));

    let mut h = PackageFlow::deploy("Custom", "dev", "pre", false);
    h.next(FlowEvent::Ready);
    h.next(FlowEvent::Ready);
    h.next(FlowEvent::Exited(0));
    h.next(FlowEvent::CancelRequested(false));
    assert_eq!(
        h.next(FlowEvent::Located(None)),
        FlowAction::Fail("clio downloaded the package, but its folder could not be located.".to_string())
    );
    assert!(h.is_done());
}
