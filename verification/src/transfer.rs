//! The steps of a package transfer job: setting a package's version (pull,
//! edit the descriptor, push back) and deploying a package from one
//! environment to another (pull from the source, push to the target).
//!
//! The caller runs each step (a clio run in the temporary download folder, a
//! cancel check, a phase change, locating the downloaded folder) and hands
//! back what happened; the flow answers with the next step. A non-zero exit
//! ends the job with that code; a cancel seen between steps, or a phase
//! change refused because of one, ends it with 1.
use vstd::prelude::*;
use crate::text::{owned, views};

verus! {

/// What happened in the step just run.
#[derive(Clone, Debug, PartialEq, Eq)]
pub enum FlowEvent {
    /// A log line was written (or the job has just started).
    Ready,
    /// A clio run ended with this exit code.
    Exited(i32),
    /// Whether the user has asked to stop the job.
    CancelRequested(bool),
    /// Whether the phase could be entered (not when a cancel came first).
    PhaseSet(bool),
    /// The downloaded package folder, when it was found.
    Located(Option<String>),
}

pub enum FlowEventView {
    Ready,
    Exited(i32),
    CancelRequested(bool),
    PhaseSet(bool),
    Located(Option<Seq<char>>),
}

impl View for FlowEvent {
    type V = FlowEventView;

    open spec fn view(&self) -> FlowEventView {
        match self {
            FlowEvent::Ready => FlowEventView::Ready,
            FlowEvent::Exited(c) => FlowEventView::Exited(*c),
            FlowEvent::CancelRequested(b) => FlowEventView::CancelRequested(*b),
            FlowEvent::PhaseSet(b) => FlowEventView::PhaseSet(*b),
            FlowEvent::Located(p) => FlowEventView::Located(
                match p {
                    Some(s) => Some(s@),
                    None => None,
                },
            ),
        }
    }
}

/// The next step to run.
#[derive(Clone, Debug, PartialEq, Eq)]
pub enum FlowAction {
    /// Add a line to the job log.
    Log(String),
    /// Run clio with these arguments in the download folder.
    Pull(Vec<String>),
    /// Run clio with these arguments.
    Run(Vec<String>),
    /// Report whether a cancel was requested.
    CheckCancel,
    /// Enter a phase, and whether it may be cancelled.
    SetPhase(String, bool),
    /// Find the folder clio downloaded the package into.
    Locate,
    /// Log the message and end the job with exit code 1.
    Fail(String),
    /// End the job with this exit code.
    Finish(i32),
}

pub enum FlowActionView {
    Log(Seq<char>),
    Pull(Seq<Seq<char>>),
    Run(Seq<Seq<char>>),
    CheckCancel,
    SetPhase(Seq<char>, bool),
    Locate,
    Fail(Seq<char>),
    Finish(i32),
}

impl View for FlowAction {
    type V = FlowActionView;

    open spec fn view(&self) -> FlowActionView {
        match self {
            FlowAction::Log(s) => FlowActionView::Log(s@),
            FlowAction::Pull(a) => FlowActionView::Pull(views(a@)),
            FlowAction::Run(a) => FlowActionView::Run(views(a@)),
            FlowAction::CheckCancel => FlowActionView::CheckCancel,
            FlowAction::SetPhase(p, c) => FlowActionView::SetPhase(p@, *c),
            FlowAction::Locate => FlowActionView::Locate,
            FlowAction::Fail(s) => FlowActionView::Fail(s@),
            FlowAction::Finish(c) => FlowActionView::Finish(*c),
        }
    }
}

/// Where a transfer stands: the package, the environment pulled from and the
/// one pushed to (the same one when setting a version), the version to set,
/// whether the target's backup is skipped, the step reached and the
/// downloaded folder once found.
pub struct PackageFlow {
    deploy: bool,
    package: String,
    source: String,
    target: String,
    version: String,
    skip_backup: bool,
    stage: u8,
    path: String,
}

pub struct PackageFlowView {
    pub deploy: bool,
    pub package: Seq<char>,
    pub source: Seq<char>,
    pub target: Seq<char>,
    pub version: Seq<char>,
    pub skip_backup: bool,
    pub stage: u8,
    pub path: Seq<char>,
}

impl View for PackageFlow {
    type V = PackageFlowView;

    closed spec fn view(&self) -> PackageFlowView {
        PackageFlowView {
            deploy: self.deploy,
            package: self.package@,
            source: self.source@,
            target: self.target@,
            version: self.version@,
            skip_backup: self.skip_backup,
            stage: self.stage,
            path: self.path@,
        }
    }
}

/// The step after which nothing runs.
pub open spec fn done() -> u8 {
    100
}

pub open spec fn spec_version_note() -> Seq<char> {
    "Version changes are applied safely as pull package → edit descriptor → push package."@
}

pub open spec fn spec_not_located() -> Seq<char> {
    "clio downloaded the package, but its folder could not be located."@
}

/// `clio pull-pkg <package> -e <env> --unzip`.
pub open spec fn pull_args(package: Seq<char>, env: Seq<char>) -> Seq<Seq<char>> {
    seq!["pull-pkg"@, package, "-e"@, env, "--unzip"@]
}

/// `clio push-pkg <folder> -e <env>`, without the target's backup when asked.
pub open spec fn push_args(path: Seq<char>, env: Seq<char>, skip_backup: bool) -> Seq<Seq<char>> {
    seq!["push-pkg"@, path, "-e"@, env] + if skip_backup {
        seq!["--skip-backup"@, "true"@]
    } else {
        seq![]
    }
}

pub open spec fn at(f: PackageFlowView, stage: u8) -> PackageFlowView {
    PackageFlowView { stage, ..f }
}

pub open spec fn ended(f: PackageFlowView, code: i32) -> (PackageFlowView, FlowActionView) {
    (at(f, done()), FlowActionView::Finish(code))
}

/// The step of a version change after `e`.
pub open spec fn version_step(f: PackageFlowView, e: FlowEventView) -> (PackageFlowView, FlowActionView) {
    match (f.stage, e) {
        (0, FlowEventView::Ready) => (at(f, 1), FlowActionView::Log(spec_version_note())),
        (1, FlowEventView::Ready) => (at(f, 2), FlowActionView::Pull(pull_args(f.package, f.source))),
        (2, FlowEventView::Exited(c)) => if c != 0 {
            ended(f, c)
        } else {
            (at(f, 3), FlowActionView::CheckCancel)
        },
        (3, FlowEventView::CancelRequested(b)) => if b {
            ended(f, 1)
        } else {
            (at(f, 4), FlowActionView::SetPhase("updating local descriptor"@, true))
        },
        (4, FlowEventView::PhaseSet(go)) => if !go {
            ended(f, 1)
        } else {
            (at(f, 5), FlowActionView::Locate)
        },
        (5, FlowEventView::Located(p)) => match p {
            None => (at(f, done()), FlowActionView::Fail(spec_not_located())),
            Some(path) => (
                PackageFlowView { stage: 6, path, ..f },
                FlowActionView::Run(seq!["set-pkg-version"@, path, "-v"@, f.version]),
            ),
        },
        (6, FlowEventView::Exited(c)) => if c != 0 {
            ended(f, c)
        } else {
            (at(f, 7), FlowActionView::CheckCancel)
        },
        (7, FlowEventView::CancelRequested(b)) => if b {
            ended(f, 1)
        } else {
            (at(f, 8), FlowActionView::SetPhase("installing package in environment"@, false))
        },
        (8, FlowEventView::PhaseSet(go)) => if !go {
            ended(f, 1)
        } else {
            (at(f, 9), FlowActionView::Run(push_args(f.path, f.target, f.skip_backup)))
        },
        (9, FlowEventView::Exited(c)) => ended(f, c),
        _ => ended(f, 1),
    }
}

/// The step of a deployment after `e`.
pub open spec fn deploy_step(f: PackageFlowView, e: FlowEventView) -> (PackageFlowView, FlowActionView) {
    match (f.stage, e) {
        (0, FlowEventView::Ready) => (
            at(f, 1),
            FlowActionView::Log("Downloading "@ + f.package + " from "@ + f.source + "…"@),
        ),
        (1, FlowEventView::Ready) => (at(f, 2), FlowActionView::Pull(pull_args(f.package, f.source))),
        (2, FlowEventView::Exited(c)) => if c != 0 {
            ended(f, c)
        } else {
            (at(f, 3), FlowActionView::CheckCancel)
        },
        (3, FlowEventView::CancelRequested(b)) => if b {
            ended(f, 1)
        } else {
            (at(f, 4), FlowActionView::Locate)
        },
        (4, FlowEventView::Located(p)) => match p {
            None => (at(f, done()), FlowActionView::Fail(spec_not_located())),
            Some(path) => (
                PackageFlowView { stage: 5, path, ..f },
                FlowActionView::Log("Installing "@ + f.package + " into "@ + f.target + "…"@),
            ),
        },
        (5, FlowEventView::Ready) => (at(f, 6), FlowActionView::SetPhase("installing in target environment"@, false)),
        (6, FlowEventView::PhaseSet(go)) => if !go {
            ended(f, 1)
        } else {
            (at(f, 7), FlowActionView::Run(push_args(f.path, f.target, f.skip_backup)))
        },
        (7, FlowEventView::Exited(c)) => if c != 0 {
            ended(f, c)
        } else {
            (
                at(f, 8),
                FlowActionView::Log("✓ "@ + f.package + " deployed from "@ + f.source + " to "@ + f.target + "."@),
            )
        },
        (8, FlowEventView::Ready) => ended(f, 0),
        _ => ended(f, 1),
    }
}

pub open spec fn spec_step(f: PackageFlowView, e: FlowEventView) -> (PackageFlowView, FlowActionView) {
    if f.deploy {
        deploy_step(f, e)
    } else {
        version_step(f, e)
    }
}

fn pull_args_of(package: &str, env: &str) -> (a: Vec<String>)
    ensures
        views(a@) == pull_args(package@, env@),
{
    let a = vec![owned("pull-pkg"), owned(package), owned("-e"), owned(env), owned("--unzip")];
    assert(views(a@) =~= pull_args(package@, env@));
    a
}

fn push_args_of(path: &str, env: &str, skip_backup: bool) -> (a: Vec<String>)
    ensures
        views(a@) == push_args(path@, env@, skip_backup),
{
    let mut a = vec![owned("push-pkg"), owned(path), owned("-e"), owned(env)];
    if skip_backup {
        a.push(owned("--skip-backup"));
        a.push(owned("true"));
    }
    assert(views(a@) =~= push_args(path@, env@, skip_backup));
    a
}

impl PackageFlow {
    /// A version change of `package` on `env`.
    pub fn set_version(package: &str, env: &str, version: &str, skip_backup: bool) -> (f: Self)
        ensures
            f@ == (PackageFlowView {
                deploy: false,
                package: package@,
                source: env@,
                target: env@,
                version: version@,
                skip_backup,
                stage: 0,
                path: seq![],
            }),
    {
        PackageFlow {
            deploy: false,
            package: owned(package),
            source: owned(env),
            target: owned(env),
            version: owned(version),
            skip_backup,
            stage: 0,
            path: String::new(),
        }
    }

    /// A deployment of `package` from `source` to `target`.
    pub fn deploy(package: &str, source: &str, target: &str, skip_backup: bool) -> (f: Self)
        ensures
            f@ == (PackageFlowView {
                deploy: true,
                package: package@,
                source: source@,
                target: target@,
                version: seq![],
                skip_backup,
                stage: 0,
                path: seq![],
            }),
    {
        PackageFlow {
            deploy: true,
            package: owned(package),
            source: owned(source),
            target: owned(target),
            version: String::new(),
            skip_backup,
            stage: 0,
            path: String::new(),
        }
    }

    /// Whether the flow has ended.
    pub fn is_done(&self) -> (b: bool)
        ensures
            b == (self@.stage == done()),
    {
        self.stage == 100
    }

    fn finish_with(&mut self, code: i32) -> (a: FlowAction)
        ensures
            (final(self)@, a@) == ended(old(self)@, code),
    {
        self.stage = 100;
        FlowAction::Finish(code)
    }

    fn version_next(&mut self, e: FlowEvent) -> (a: FlowAction)
        ensures
            (final(self)@, a@) == version_step(old(self)@, e@),
    {
        match (self.stage, e) {
            (0, FlowEvent::Ready) => {
                self.stage = 1;
                FlowAction::Log(
                    owned("Version changes are applied safely as pull package → edit descriptor → push package."),
                )
            },
            (1, FlowEvent::Ready) => {
                self.stage = 2;
                FlowAction::Pull(pull_args_of(self.package.as_str(), self.source.as_str()))
            },
            (2, FlowEvent::Exited(c)) => if c != 0 {
                self.finish_with(c)
            } else {
                self.stage = 3;
                FlowAction::CheckCancel
            },
            (3, FlowEvent::CancelRequested(b)) => if b {
                self.finish_with(1)
            } else {
                self.stage = 4;
                FlowAction::SetPhase(owned("updating local descriptor"), true)
            },
            (4, FlowEvent::PhaseSet(go)) => if !go {
                self.finish_with(1)
            } else {
                self.stage = 5;
                FlowAction::Locate
            },
            (5, FlowEvent::Located(p)) => match p {
                None => {
                    self.stage = 100;
                    FlowAction::Fail(owned("clio downloaded the package, but its folder could not be located."))
                },
                Some(path) => {
                    let args = vec![owned("set-pkg-version"), path.clone(), owned("-v"), self.version.clone()];
                    assert(views(args@) =~= seq!["set-pkg-version"@, path@, "-v"@, self.version@]);
                    self.stage = 6;
                    self.path = path;
                    FlowAction::Run(args)
                },
            },
            (6, FlowEvent::Exited(c)) => if c != 0 {
                self.finish_with(c)
            } else {
                self.stage = 7;
                FlowAction::CheckCancel
            },
            (7, FlowEvent::CancelRequested(b)) => if b {
                self.finish_with(1)
            } else {
                self.stage = 8;
                FlowAction::SetPhase(owned("installing package in environment"), false)
            },
            (8, FlowEvent::PhaseSet(go)) => if !go {
                self.finish_with(1)
            } else {
                self.stage = 9;
                FlowAction::Run(push_args_of(self.path.as_str(), self.target.as_str(), self.skip_backup))
            },
            (9, FlowEvent::Exited(c)) => self.finish_with(c),
            _ => self.finish_with(1),
        }
    }

    fn deploy_next(&mut self, e: FlowEvent) -> (a: FlowAction)
        ensures
            (final(self)@, a@) == deploy_step(old(self)@, e@),
    {
        match (self.stage, e) {
            (0, FlowEvent::Ready) => {
                self.stage = 1;
                let mut m = owned("Downloading ");
                m.append(self.package.as_str());
                m.append(" from ");
                m.append(self.source.as_str());
                m.append("…");
                FlowAction::Log(m)
            },
            (1, FlowEvent::Ready) => {
                self.stage = 2;
                FlowAction::Pull(pull_args_of(self.package.as_str(), self.source.as_str()))
            },
            (2, FlowEvent::Exited(c)) => if c != 0 {
                self.finish_with(c)
            } else {
                self.stage = 3;
                FlowAction::CheckCancel
            },
            (3, FlowEvent::CancelRequested(b)) => if b {
                self.finish_with(1)
            } else {
                self.stage = 4;
                FlowAction::Locate
            },
            (4, FlowEvent::Located(p)) => match p {
                None => {
                    self.stage = 100;
                    FlowAction::Fail(owned("clio downloaded the package, but its folder could not be located."))
                },
                Some(path) => {
                    let mut m = owned("Installing ");
                    m.append(self.package.as_str());
                    m.append(" into ");
                    m.append(self.target.as_str());
                    m.append("…");
                    self.stage = 5;
                    self.path = path;
                    FlowAction::Log(m)
                },
            },
            (5, FlowEvent::Ready) => {
                self.stage = 6;
                FlowAction::SetPhase(owned("installing in target environment"), false)
            },
            (6, FlowEvent::PhaseSet(go)) => if !go {
                self.finish_with(1)
            } else {
                self.stage = 7;
                FlowAction::Run(push_args_of(self.path.as_str(), self.target.as_str(), self.skip_backup))
            },
            (7, FlowEvent::Exited(c)) => if c != 0 {
                self.finish_with(c)
            } else {
                let mut m = owned("✓ ");
                m.append(self.package.as_str());
                m.append(" deployed from ");
                m.append(self.source.as_str());
                m.append(" to ");
                m.append(self.target.as_str());
                m.append(".");
                self.stage = 8;
                FlowAction::Log(m)
            },
            (8, FlowEvent::Ready) => self.finish_with(0),
            _ => self.finish_with(1),
        }
    }

    /// The step after `e`.
    pub fn next(&mut self, e: FlowEvent) -> (a: FlowAction)
        ensures
            (final(self)@, a@) == spec_step(old(self)@, e@),
    {
        if self.deploy {
            self.deploy_next(e)
        } else {
            self.version_next(e)
        }
    }
}

/// A transfer never runs clio again after a failed run, a cancel request or
/// a refused phase: each ends the job (a failed run with its own code when it
/// was the run awaited), and an ended flow stays ended.
pub proof fn lemma_flow_stops(f: PackageFlowView, e: FlowEventView)
    ensures
        ({
            let (g, a) = spec_step(f, e);
            &&& (e matches FlowEventView::Exited(c) && c != 0) ==> g.stage == done() && a is Finish
            &&& e == FlowEventView::CancelRequested(true) ==> g.stage == done() && a == FlowActionView::Finish(1)
            &&& e == FlowEventView::PhaseSet(false) ==> g.stage == done() && a == FlowActionView::Finish(1)
            &&& f.stage == done() ==> g.stage == done() && a == FlowActionView::Finish(1)
        }),
{
}

} // verus!
