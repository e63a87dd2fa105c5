//! The steps of deploying a workspace from GitHub: bring a local clone to
//! the branch tip (refreshing an existing clone, or cloning with the GitHub
//! CLI and falling back to plain git), check that it is a clio workspace,
//! install it into the target environment, and optionally register it.
//!
//! The caller runs each step (a git or gh or clio run, a look at the
//! folder, a phase change) and hands back what happened; the deployment
//! answers with the next step.
use vstd::prelude::*;
use crate::text::{owned, views};
use crate::workspaces::{push_workspace_args, spec_push_workspace_args};

verus! {

/// What happened in the step just run.
#[derive(Debug, PartialEq, Eq)]
pub enum DeployEvent {
    /// A log line was written (or the job has just been created).
    Ready,
    /// Whether the job could start (not when it was cancelled while queued).
    Started(bool),
    /// Whether the destination is a Git clone, and whether it is a folder
    /// that holds anything.
    Folder(bool, bool),
    /// A git command succeeded, or failed with this message.
    GitDone(Result<(), String>),
    /// The GitHub CLI's exit code, or why it could not run.
    GhExited(Result<i32, String>),
    /// Whether the clone is a clio workspace.
    IsWorkspace(bool),
    /// Whether the user has asked to stop the job.
    CancelRequested(bool),
    /// Whether the phase could be entered (not when a cancel came first).
    PhaseSet(bool),
    /// clio's exit code for the install, or why it could not run.
    Exited(Result<i32, String>),
}

pub enum DeployEventView {
    Ready,
    Started(bool),
    Folder(bool, bool),
    GitDone(Result<(), Seq<char>>),
    GhExited(Result<i32, Seq<char>>),
    IsWorkspace(bool),
    CancelRequested(bool),
    PhaseSet(bool),
    Exited(Result<i32, Seq<char>>),
}

impl View for DeployEvent {
    type V = DeployEventView;

    open spec fn view(&self) -> DeployEventView {
        match self {
            DeployEvent::Ready => DeployEventView::Ready,
            DeployEvent::Started(b) => DeployEventView::Started(*b),
            DeployEvent::Folder(g, o) => DeployEventView::Folder(*g, *o),
            DeployEvent::GitDone(r) => DeployEventView::GitDone(
                match r {
                    Ok(()) => Ok(()),
                    Err(e) => Err(e@),
                },
            ),
            DeployEvent::GhExited(r) => DeployEventView::GhExited(
                match r {
                    Ok(c) => Ok(*c),
                    Err(e) => Err(e@),
                },
            ),
            DeployEvent::IsWorkspace(b) => DeployEventView::IsWorkspace(*b),
            DeployEvent::CancelRequested(b) => DeployEventView::CancelRequested(*b),
            DeployEvent::PhaseSet(b) => DeployEventView::PhaseSet(*b),
            DeployEvent::Exited(r) => DeployEventView::Exited(
                match r {
                    Ok(c) => Ok(*c),
                    Err(e) => Err(e@),
                },
            ),
        }
    }
}

/// The next step to run.
#[derive(Debug, PartialEq, Eq)]
pub enum DeployAction {
    /// Start the job in this phase, and whether it may be cancelled there.
    Begin(String, bool),
    /// Look at the destination folder.
    InspectFolder,
    /// Add a line to the job log.
    Log(String),
    /// Run git with these arguments in the destination folder.
    Git(Vec<String>),
    /// Run git with these arguments in the folder that holds the destination.
    GitInParent(Vec<String>),
    /// Run the GitHub CLI with these arguments in the folder that holds the
    /// destination.
    Gh(Vec<String>),
    /// Check whether the destination is a clio workspace.
    CheckWorkspace,
    /// Report whether a cancel was requested.
    CheckCancel,
    /// Enter a phase, and whether it may be cancelled.
    SetPhase(String, bool),
    /// Run clio with these arguments in the destination folder.
    Clio(Vec<String>),
    /// Register the destination as a workspace of the target environment,
    /// unless one is registered at that path already.
    Register,
    /// Log these lines and end the job with this exit code.
    Report(Vec<String>, i32),
    /// End here: the job was cancelled.
    Stop,
}

pub enum DeployActionView {
    Begin(Seq<char>, bool),
    InspectFolder,
    Log(Seq<char>),
    Git(Seq<Seq<char>>),
    GitInParent(Seq<Seq<char>>),
    Gh(Seq<Seq<char>>),
    CheckWorkspace,
    CheckCancel,
    SetPhase(Seq<char>, bool),
    Clio(Seq<Seq<char>>),
    Register,
    Report(Seq<Seq<char>>, i32),
    Stop,
}

impl View for DeployAction {
    type V = DeployActionView;

    open spec fn view(&self) -> DeployActionView {
        match self {
            DeployAction::Begin(p, c) => DeployActionView::Begin(p@, *c),
            DeployAction::InspectFolder => DeployActionView::InspectFolder,
            DeployAction::Log(s) => DeployActionView::Log(s@),
            DeployAction::Git(a) => DeployActionView::Git(views(a@)),
            DeployAction::GitInParent(a) => DeployActionView::GitInParent(views(a@)),
            DeployAction::Gh(a) => DeployActionView::Gh(views(a@)),
            DeployAction::CheckWorkspace => DeployActionView::CheckWorkspace,
            DeployAction::CheckCancel => DeployActionView::CheckCancel,
            DeployAction::SetPhase(p, c) => DeployActionView::SetPhase(p@, *c),
            DeployAction::Clio(a) => DeployActionView::Clio(views(a@)),
            DeployAction::Register => DeployActionView::Register,
            DeployAction::Report(lines, code) => DeployActionView::Report(views(lines@), *code),
            DeployAction::Stop => DeployActionView::Stop,
        }
    }
}

/// Where a deployment stands: the repository, branch, target environment,
/// the destination folder's name and path, the URL for a plain git clone,
/// whether the target's backup is skipped, whether to register the
/// workspace, and the step reached.
pub struct GithubDeploy {
    repo: String,
    branch: String,
    target: String,
    leaf: String,
    dir: String,
    clone_url: String,
    skip_backup: bool,
    register: bool,
    stage: u8,
}

pub struct GithubDeployView {
    pub repo: Seq<char>,
    pub branch: Seq<char>,
    pub target: Seq<char>,
    pub leaf: Seq<char>,
    pub dir: Seq<char>,
    pub clone_url: Seq<char>,
    pub skip_backup: bool,
    pub register: bool,
    pub stage: u8,
}

impl View for GithubDeploy {
    type V = GithubDeployView;

    closed spec fn view(&self) -> GithubDeployView {
        GithubDeployView {
            repo: self.repo@,
            branch: self.branch@,
            target: self.target@,
            leaf: self.leaf@,
            dir: self.dir@,
            clone_url: self.clone_url@,
            skip_backup: self.skip_backup,
            register: self.register,
            stage: self.stage,
        }
    }
}

pub open spec fn deploy_done() -> u8 {
    100
}

pub open spec fn spec_install_note() -> Seq<char> {
    "Packing and installing the workspace — the server-side compile can take several minutes and cannot be safely cancelled once it starts."@
}

pub open spec fn spec_install_failed() -> Seq<char> {
    "✗ Install failed — scroll up for the compile/installation errors. The environment keeps its backup unless you skipped it."@
}

pub open spec fn spec_cancelled_before_install() -> Seq<char> {
    "✗ Cancelled before install."@
}

pub open spec fn spec_not_workspace(repo: Seq<char>) -> Seq<char> {
    "✗ "@ + repo + " is not a clio workspace (no .clio directory). Only DevHub/clio workspaces can be deployed."@
}

pub open spec fn spec_gh_clone_args(repo: Seq<char>, dir: Seq<char>, branch: Seq<char>) -> Seq<Seq<char>> {
    seq!["repo"@, "clone"@, repo, dir, "--"@, "-b"@, branch]
}

pub open spec fn step_to(d: GithubDeployView, stage: u8, a: DeployActionView) -> (GithubDeployView, DeployActionView) {
    (GithubDeployView { stage, ..d }, a)
}

pub open spec fn report_and_end(d: GithubDeployView, lines: Seq<Seq<char>>, code: i32) -> (GithubDeployView, DeployActionView) {
    step_to(d, deploy_done(), DeployActionView::Report(lines, code))
}

/// A failed step ends the job with its message.
pub open spec fn failed_with(d: GithubDeployView, e: Seq<char>) -> (GithubDeployView, DeployActionView) {
    report_and_end(d, seq!["✗ "@ + e], 1)
}

/// The step of a deployment after `e`.
pub open spec fn spec_deploy_step(d: GithubDeployView, e: DeployEventView) -> (GithubDeployView, DeployActionView) {
    match (d.stage, e) {
        (0, DeployEventView::Ready) => step_to(d, 1, DeployActionView::Begin("fetching from GitHub"@, true)),
        (1, DeployEventView::Started(go)) => if go {
            step_to(d, 2, DeployActionView::InspectFolder)
        } else {
            step_to(d, deploy_done(), DeployActionView::Stop)
        },
        (2, DeployEventView::Folder(is_clone, occupied)) => if is_clone {
            step_to(d, 3, DeployActionView::Log("Refreshing existing clone at "@ + d.dir + "…"@))
        } else if occupied {
            failed_with(d, d.dir + " already exists and is not a git clone. Pick another destination."@)
        } else {
            step_to(d, 10, DeployActionView::Log("Cloning "@ + d.repo + " ("@ + d.branch + ")…"@))
        },
        (3, DeployEventView::Ready) => step_to(d, 4, DeployActionView::Git(seq!["fetch"@, "--prune"@, "origin"@])),
        (4, DeployEventView::GitDone(r)) => match r {
            Err(e) => failed_with(d, e),
            Ok(()) => step_to(d, 5, DeployActionView::Git(seq!["checkout"@, d.branch])),
        },
        (5, DeployEventView::GitDone(r)) => match r {
            Err(e) => failed_with(d, e),
            Ok(()) => step_to(d, 6, DeployActionView::Git(seq!["reset"@, "--hard"@, "origin/"@ + d.branch])),
        },
        (6, DeployEventView::GitDone(r)) => match r {
            Err(e) => failed_with(d, e),
            Ok(()) => step_to(d, 20, DeployActionView::CheckWorkspace),
        },
        (10, DeployEventView::Ready) => step_to(d, 11, DeployActionView::Gh(spec_gh_clone_args(d.repo, d.dir, d.branch))),
        (11, DeployEventView::GhExited(r)) => match r {
            Err(e) => failed_with(d, e),
            Ok(code) => if code == 0 {
                step_to(d, 20, DeployActionView::CheckWorkspace)
            } else {
                step_to(d, 12, DeployActionView::Log("gh clone failed — falling back to git clone…"@))
            },
        },
        (12, DeployEventView::Ready) => step_to(
            d,
            13,
            DeployActionView::GitInParent(seq!["clone"@, "-b"@, d.branch, d.clone_url, d.leaf]),
        ),
        (13, DeployEventView::GitDone(r)) => match r {
            Err(e) => failed_with(d, e),
            Ok(()) => step_to(d, 20, DeployActionView::CheckWorkspace),
        },
        (20, DeployEventView::IsWorkspace(yes)) => if yes {
            step_to(d, 21, DeployActionView::CheckCancel)
        } else {
            report_and_end(d, seq![spec_not_workspace(d.repo)], 1)
        },
        (21, DeployEventView::CancelRequested(asked)) => if asked {
            report_and_end(d, seq![spec_cancelled_before_install()], 1)
        } else {
            step_to(d, 22, DeployActionView::SetPhase("installing workspace in environment"@, false))
        },
        (22, DeployEventView::PhaseSet(go)) => if go {
            step_to(d, 23, DeployActionView::Log(spec_install_note()))
        } else {
            report_and_end(d, seq![spec_cancelled_before_install()], 1)
        },
        (23, DeployEventView::Ready) => step_to(d, 24, DeployActionView::Clio(spec_push_workspace_args(d.target, d.skip_backup))),
        (24, DeployEventView::Exited(r)) => match r {
            Err(e) => failed_with(d, e),
            Ok(code) => if code == 0 {
                step_to(
                    d,
                    25,
                    DeployActionView::Log("✓ Deployed "@ + d.repo + "@"@ + d.branch + " to "@ + d.target + "."@),
                )
            } else {
                report_and_end(d, seq![spec_install_failed()], code)
            },
        },
        (25, DeployEventView::Ready) => if d.register {
            step_to(d, 26, DeployActionView::Register)
        } else {
            report_and_end(d, seq![], 0)
        },
        (26, DeployEventView::Ready) => report_and_end(d, seq![], 0),
        _ => report_and_end(d, seq![], 1),
    }
}

fn texts(parts: Vec<&str>) -> (v: Vec<String>)
    ensures
        v@.len() == parts@.len(),
        forall|i: int| 0 <= i < parts@.len() ==> #[trigger] v@[i]@ == parts@[i]@,
{
    let mut v: Vec<String> = Vec::new();
    let mut i: usize = 0;
    while i < parts.len()
        invariant
            i <= parts.len(),
            v@.len() == i,
            forall|k: int| 0 <= k < i ==> #[trigger] v@[k]@ == parts@[k]@,
        decreases parts.len() - i,
    {
        v.push(owned(parts[i]));
        i = i + 1;
    }
    v
}

impl GithubDeploy {
    /// A deployment of `repo` at `branch` into `target`, through the folder
    /// `dir` (named `leaf`); `clone_url` serves a plain git clone.
    pub fn new(repo: &str, branch: &str, target: &str, leaf: &str, dir: &str, clone_url: &str, skip_backup: bool, register: bool) -> (d: Self)
        ensures
            d@ == (GithubDeployView {
                repo: repo@,
                branch: branch@,
                target: target@,
                leaf: leaf@,
                dir: dir@,
                clone_url: clone_url@,
                skip_backup,
                register,
                stage: 0,
            }),
    {
        GithubDeploy {
            repo: owned(repo),
            branch: owned(branch),
            target: owned(target),
            leaf: owned(leaf),
            dir: owned(dir),
            clone_url: owned(clone_url),
            skip_backup,
            register,
            stage: 0,
        }
    }

    /// Whether the deployment has ended.
    pub fn is_done(&self) -> (b: bool)
        ensures
            b == (self@.stage == deploy_done()),
    {
        self.stage == 100
    }

    fn end(&mut self, line: Option<String>, code: i32) -> (a: DeployAction)
        ensures
            (final(self)@, a@) == report_and_end(
                old(self)@,
                match line {
                    Some(l) => seq![l@],
                    None => seq![],
                },
                code,
            ),
    {
        self.stage = 100;
        let lines = match line {
            Some(l) => vec![l],
            None => Vec::new(),
        };
        assert(views(lines@) =~= match line {
            Some(l) => seq![l@],
            None => Seq::<Seq<char>>::empty(),
        });
        DeployAction::Report(lines, code)
    }

    fn fail(&mut self, e: String) -> (a: DeployAction)
        ensures
            (final(self)@, a@) == failed_with(old(self)@, e@),
    {
        let mut line = owned("✗ ");
        line.append(e.as_str());
        self.end(Some(line), 1)
    }

    /// The next step after `e`.
    pub fn next(&mut self, e: DeployEvent) -> (a: DeployAction)
        ensures
            (final(self)@, a@) == spec_deploy_step(old(self)@, e@),
    {
        match (self.stage, e) {
            (0, DeployEvent::Ready) => {
                self.stage = 1;
                DeployAction::Begin(owned("fetching from GitHub"), true)
            },
            (1, DeployEvent::Started(go)) => if go {
                self.stage = 2;
                DeployAction::InspectFolder
            } else {
                self.stage = 100;
                DeployAction::Stop
            },
            (2, DeployEvent::Folder(is_clone, occupied)) => if is_clone {
                let mut line = owned("Refreshing existing clone at ");
                line.append(self.dir.as_str());
                line.append("…");
                self.stage = 3;
                DeployAction::Log(line)
            } else if occupied {
                let mut e = self.dir.clone();
                e.append(" already exists and is not a git clone. Pick another destination.");
                self.fail(e)
            } else {
                let mut line = owned("Cloning ");
                line.append(self.repo.as_str());
                line.append(" (");
                line.append(self.branch.as_str());
                line.append(")…");
                self.stage = 10;
                DeployAction::Log(line)
            },
            (3, DeployEvent::Ready) => {
                let args = texts(vec!["fetch", "--prune", "origin"]);
                assert(views(args@) =~= seq!["fetch"@, "--prune"@, "origin"@]);
                self.stage = 4;
                DeployAction::Git(args)
            },
            (4, DeployEvent::GitDone(r)) => match r {
                Err(e) => self.fail(e),
                Ok(()) => {
                    let args = vec![owned("checkout"), self.branch.clone()];
                    assert(views(args@) =~= seq!["checkout"@, self.branch@]);
                    self.stage = 5;
                    DeployAction::Git(args)
                },
            },
            (5, DeployEvent::GitDone(r)) => match r {
                Err(e) => self.fail(e),
                Ok(()) => {
                    let mut upstream = owned("origin/");
                    upstream.append(self.branch.as_str());
                    let args = vec![owned("reset"), owned("--hard"), upstream];
                    assert(views(args@) =~= seq!["reset"@, "--hard"@, "origin/"@ + self.branch@]);
                    self.stage = 6;
                    DeployAction::Git(args)
                },
            },
            (6, DeployEvent::GitDone(r)) => match r {
                Err(e) => self.fail(e),
                Ok(()) => {
                    self.stage = 20;
                    DeployAction::CheckWorkspace
                },
            },
            (10, DeployEvent::Ready) => {
                let args = vec![
                    owned("repo"),
                    owned("clone"),
                    self.repo.clone(),
                    self.dir.clone(),
                    owned("--"),
                    owned("-b"),
                    self.branch.clone(),
                ];
                assert(views(args@) =~= spec_gh_clone_args(self.repo@, self.dir@, self.branch@));
                self.stage = 11;
                DeployAction::Gh(args)
            },
            (11, DeployEvent::GhExited(r)) => match r {
                Err(e) => self.fail(e),
                Ok(code) => if code == 0 {
                    self.stage = 20;
                    DeployAction::CheckWorkspace
                } else {
                    self.stage = 12;
                    DeployAction::Log(owned("gh clone failed — falling back to git clone…"))
                },
            },
            (12, DeployEvent::Ready) => {
                let args = vec![
                    owned("clone"),
                    owned("-b"),
                    self.branch.clone(),
                    self.clone_url.clone(),
                    self.leaf.clone(),
                ];
                assert(views(args@) =~= seq!["clone"@, "-b"@, self.branch@, self.clone_url@, self.leaf@]);
                self.stage = 13;
                DeployAction::GitInParent(args)
            },
            (13, DeployEvent::GitDone(r)) => match r {
                Err(e) => self.fail(e),
                Ok(()) => {
                    self.stage = 20;
                    DeployAction::CheckWorkspace
                },
            },
            (20, DeployEvent::IsWorkspace(yes)) => if yes {
                self.stage = 21;
                DeployAction::CheckCancel
            } else {
                let mut line = owned("✗ ");
                line.append(self.repo.as_str());
                line.append(
                    " is not a clio workspace (no .clio directory). Only DevHub/clio workspaces can be deployed.",
                );
                self.end(Some(line), 1)
            },
            (21, DeployEvent::CancelRequested(asked)) => if asked {
                self.end(Some(owned("✗ Cancelled before install.")), 1)
            } else {
                self.stage = 22;
                DeployAction::SetPhase(owned("installing workspace in environment"), false)
            },
            (22, DeployEvent::PhaseSet(go)) => if go {
                self.stage = 23;
                DeployAction::Log(
                    owned(
                        "Packing and installing the workspace — the server-side compile can take several minutes and cannot be safely cancelled once it starts.",
                    ),
                )
            } else {
                self.end(Some(owned("✗ Cancelled before install.")), 1)
            },
            (23, DeployEvent::Ready) => {
                self.stage = 24;
                DeployAction::Clio(push_workspace_args(self.target.as_str(), self.skip_backup))
            },
            (24, DeployEvent::Exited(r)) => match r {
                Err(e) => self.fail(e),
                Ok(code) => if code == 0 {
                    let mut line = owned("✓ Deployed ");
                    line.append(self.repo.as_str());
                    line.append("@");
                    line.append(self.branch.as_str());
                    line.append(" to ");
                    line.append(self.target.as_str());
                    line.append(".");
                    self.stage = 25;
                    DeployAction::Log(line)
                } else {
                    self.end(
                        Some(
                            owned(
                                "✗ Install failed — scroll up for the compile/installation errors. The environment keeps its backup unless you skipped it.",
                            ),
                        ),
                        code,
                    )
                },
            },
            (25, DeployEvent::Ready) => if self.register {
                self.stage = 26;
                DeployAction::Register
            } else {
                self.end(None, 0)
            },
            (26, DeployEvent::Ready) => self.end(None, 0),
            _ => self.end(None, 1),
        }
    }
}

/// Nothing is installed unless the clone is a clio workspace and no cancel
/// came first: the install step (`Clio`) only follows the install phase,
/// which only follows a workspace check that passed and a cancel check that
/// found none.
pub proof fn lemma_install_needs_workspace(d: GithubDeployView, e: DeployEventView)
    ensures
        spec_deploy_step(d, e).1 is Clio ==> d.stage == 23,
        spec_deploy_step(d, e).0.stage == 23 ==> d.stage == 22 && e == DeployEventView::PhaseSet(true),
        spec_deploy_step(d, e).0.stage == 22 ==> d.stage == 21 && e == DeployEventView::CancelRequested(false),
        spec_deploy_step(d, e).0.stage == 21 ==> d.stage == 20 && e == DeployEventView::IsWorkspace(true),
{
}

} // verus!
