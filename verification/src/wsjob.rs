//! The steps of the workspace jobs: creating a workspace (scaffold, restore
//! from the environment unless it starts empty, a first commit, an optional
//! push to a remote), adding a package to one, pulling it from the cloud,
//! and installing it into its environment.
//!
//! The caller runs each step (a clio or git run in the workspace folder, a
//! cancel check, a phase change, counting changed files, recording the sync)
//! and hands back what happened; the job answers with the next step.
use vstd::prelude::*;
use crate::text::{decimal_usize, owned, spec_decimal, views};
use crate::workspaces::{
    create_workspace_args, initial_commit_message, initial_remote, pull_report, push_workspace_args,
    spec_create_workspace_args, spec_initial_commit_message, spec_pull_report, spec_push_workspace_args,
};
use crate::text::spec_trim;

verus! {

/// What happened in the step just run.
#[derive(Debug, PartialEq, Eq)]
pub enum WsEvent {
    /// A log line was written, or a record kept (or the job was just created).
    Ready,
    /// Whether the job could start (not when it was cancelled while queued).
    Started(bool),
    /// clio's exit code, or why it could not run.
    Exited(Result<i32, String>),
    /// A git command succeeded, or failed with this message.
    GitDone(Result<(), String>),
    /// Whether the user has asked to stop the job.
    CancelRequested(bool),
    /// Whether the phase could be entered (not when a cancel came first).
    PhaseSet(bool),
    /// How many files the workspace has changed.
    Changed(usize),
    /// Whether the `.gitignore` could be written, or why not.
    FileWritten(Result<(), String>),
}

pub enum WsEventView {
    Ready,
    Started(bool),
    Exited(Result<i32, Seq<char>>),
    GitDone(Result<(), Seq<char>>),
    CancelRequested(bool),
    PhaseSet(bool),
    Changed(usize),
    FileWritten(Result<(), Seq<char>>),
}

impl View for WsEvent {
    type V = WsEventView;

    open spec fn view(&self) -> WsEventView {
        match self {
            WsEvent::Ready => WsEventView::Ready,
            WsEvent::Started(b) => WsEventView::Started(*b),
            WsEvent::Exited(r) => WsEventView::Exited(
                match r {
                    Ok(c) => Ok(*c),
                    Err(e) => Err(e@),
                },
            ),
            WsEvent::GitDone(r) => WsEventView::GitDone(
                match r {
                    Ok(()) => Ok(()),
                    Err(e) => Err(e@),
                },
            ),
            WsEvent::CancelRequested(b) => WsEventView::CancelRequested(*b),
            WsEvent::PhaseSet(b) => WsEventView::PhaseSet(*b),
            WsEvent::Changed(n) => WsEventView::Changed(*n),
            WsEvent::FileWritten(r) => WsEventView::FileWritten(
                match r {
                    Ok(()) => Ok(()),
                    Err(e) => Err(e@),
                },
            ),
        }
    }
}

/// The next step to run.
#[derive(Debug, PartialEq, Eq)]
pub enum WsAction {
    /// Start the job in this phase, and whether it may be cancelled there.
    Begin(String, bool),
    /// Add a line to the job log.
    Log(String),
    /// Run clio with these arguments in the workspace folder.
    Clio(Vec<String>),
    /// Run git with these arguments in the workspace folder.
    Git(Vec<String>),
    /// Write the workspace's `.gitignore`.
    WriteGitignore,
    /// Report whether a cancel was requested.
    CheckCancel,
    /// Enter a phase, and whether it may be cancelled.
    SetPhase(String, bool),
    /// Count the workspace's changed files.
    CountChanges,
    /// Record a sync of the workspace: a pull (true) or a push (false).
    Record(bool),
    /// Register the new workspace; when it was pulled (true), with the pull's
    /// time and the environment's package list as its drift baseline.
    Register(bool),
    /// Log these lines and end the job with this exit code.
    Report(Vec<String>, i32),
    /// End here: the job was cancelled.
    Stop,
}

pub enum WsActionView {
    Begin(Seq<char>, bool),
    Log(Seq<char>),
    Clio(Seq<Seq<char>>),
    Git(Seq<Seq<char>>),
    WriteGitignore,
    CheckCancel,
    SetPhase(Seq<char>, bool),
    CountChanges,
    Record(bool),
    Register(bool),
    Report(Seq<Seq<char>>, i32),
    Stop,
}

impl View for WsAction {
    type V = WsActionView;

    open spec fn view(&self) -> WsActionView {
        match self {
            WsAction::Begin(p, c) => WsActionView::Begin(p@, *c),
            WsAction::Log(s) => WsActionView::Log(s@),
            WsAction::Clio(a) => WsActionView::Clio(views(a@)),
            WsAction::Git(a) => WsActionView::Git(views(a@)),
            WsAction::WriteGitignore => WsActionView::WriteGitignore,
            WsAction::CheckCancel => WsActionView::CheckCancel,
            WsAction::SetPhase(p, c) => WsActionView::SetPhase(p@, *c),
            WsAction::CountChanges => WsActionView::CountChanges,
            WsAction::Record(b) => WsActionView::Record(*b),
            WsAction::Register(b) => WsActionView::Register(*b),
            WsAction::Report(lines, code) => WsActionView::Report(views(lines@), *code),
            WsAction::Stop => WsActionView::Stop,
        }
    }
}

/// Which job: creating a workspace, adding a package to it, installing it
/// into its environment, or pulling it from there.
pub open spec fn creating() -> u8 {
    0
}

pub open spec fn adding() -> u8 {
    1
}

pub open spec fn pushing() -> u8 {
    2
}

pub open spec fn pulling() -> u8 {
    3
}

/// Where a workspace job stands: which job, the environment, the package
/// added and the workspace's name (adding), the application code, the remote
/// and whether the workspace starts empty (creating), whether the
/// environment's backup is skipped (installing), and the step reached.
pub struct WorkspaceJob {
    kind: u8,
    env: String,
    package: String,
    name: String,
    app_code: Option<String>,
    remote: Option<String>,
    skip_restore: bool,
    skip_backup: bool,
    stage: u8,
}

pub struct WorkspaceJobView {
    pub kind: u8,
    pub env: Seq<char>,
    pub package: Seq<char>,
    pub name: Seq<char>,
    pub app_code: Option<Seq<char>>,
    pub remote: Option<Seq<char>>,
    pub skip_restore: bool,
    pub skip_backup: bool,
    pub stage: u8,
}

pub open spec fn opt_seq(o: Option<String>) -> Option<Seq<char>> {
    match o {
        Some(s) => Some(s@),
        None => None,
    }
}

impl View for WorkspaceJob {
    type V = WorkspaceJobView;

    closed spec fn view(&self) -> WorkspaceJobView {
        WorkspaceJobView {
            kind: self.kind,
            env: self.env@,
            package: self.package@,
            name: self.name@,
            app_code: opt_seq(self.app_code),
            remote: opt_seq(self.remote),
            skip_restore: self.skip_restore,
            skip_backup: self.skip_backup,
            stage: self.stage,
        }
    }
}

/// The remote's URL (empty when there is none).
pub open spec fn remote_text(remote: Option<Seq<char>>) -> Seq<char> {
    match remote {
        Some(u) => u,
        None => seq![],
    }
}

pub open spec fn ws_done() -> u8 {
    100
}

pub open spec fn go(j: WorkspaceJobView, stage: u8, a: WsActionView) -> (WorkspaceJobView, WsActionView) {
    (WorkspaceJobView { stage, ..j }, a)
}

pub open spec fn end_with(j: WorkspaceJobView, lines: Seq<Seq<char>>, code: i32) -> (WorkspaceJobView, WsActionView) {
    go(j, ws_done(), WsActionView::Report(lines, code))
}

pub open spec fn restore_args(env: Seq<char>) -> Seq<Seq<char>> {
    seq!["restore-workspace"@, "-e"@, env]
}

pub open spec fn spec_empty_note() -> Seq<char> {
    "Empty workspace — skipping package download. Add packages later from the workspace screen."@
}

pub open spec fn spec_install_note() -> Seq<char> {
    "Packing workspace and installing to the environment — the server-side compile can take several minutes. This job cannot be safely cancelled once installation starts."@
}

pub open spec fn spec_push_failed() -> Seq<char> {
    "✗ Push failed — scroll up for the compile/installation errors. The environment keeps its backup unless you skipped it."@
}

pub open spec fn spec_push_warning(e: Seq<char>) -> Seq<char> {
    "⚠ Remote push failed ("@ + e
        + "). The workspace is fine — set up git credentials and push from the workspace screen."@
}

/// A failed step of creating a workspace ends the job with its message.
pub open spec fn create_failed(j: WorkspaceJobView, e: Seq<char>) -> (WorkspaceJobView, WsActionView) {
    end_with(j, seq!["✗ "@ + e], 1)
}

/// The step of creating a workspace after `e`.
pub open spec fn create_step(j: WorkspaceJobView, e: WsEventView) -> (WorkspaceJobView, WsActionView) {
    match (j.stage, e) {
        (0, WsEventView::Ready) => go(j, 1, WsActionView::Begin("creating workspace"@, true)),
        (1, WsEventView::Started(ok)) => if ok {
            go(j, 2, WsActionView::Clio(spec_create_workspace_args(j.env, j.app_code)))
        } else {
            go(j, ws_done(), WsActionView::Stop)
        },
        (2, WsEventView::Exited(r)) => match r {
            Err(e) => create_failed(j, e),
            Ok(code) => if code != 0 {
                create_failed(j, "clio create-workspace failed"@)
            } else if j.skip_restore {
                go(j, 6, WsActionView::Log(spec_empty_note()))
            } else {
                go(j, 3, WsActionView::CheckCancel)
            },
        },
        (3, WsEventView::CancelRequested(asked)) => if asked {
            create_failed(j, "Cancelled before restore."@)
        } else {
            go(j, 4, WsActionView::SetPhase("restoring workspace files"@, true))
        },
        (4, WsEventView::PhaseSet(ok)) => if ok {
            go(j, 5, WsActionView::Clio(restore_args(j.env)))
        } else {
            create_failed(j, "Cancelled before restore."@)
        },
        (5, WsEventView::Exited(r)) => match r {
            Err(e) => create_failed(j, e),
            Ok(code) => if code != 0 {
                create_failed(j, "clio restore-workspace failed"@)
            } else {
                go(j, 7, WsActionView::Log("Initializing git repository…"@))
            },
        },
        (6, WsEventView::Ready) => go(j, 7, WsActionView::Log("Initializing git repository…"@)),
        (7, WsEventView::Ready) => go(j, 8, WsActionView::Git(seq!["init"@, "-b"@, "main"@])),
        (8, WsEventView::GitDone(r)) => match r {
            Err(e) => create_failed(j, e),
            Ok(()) => go(j, 9, WsActionView::WriteGitignore),
        },
        (9, WsEventView::FileWritten(r)) => match r {
            Err(e) => create_failed(j, e),
            Ok(()) => go(j, 10, WsActionView::Git(seq!["add"@, "-A"@])),
        },
        (10, WsEventView::GitDone(r)) => match r {
            Err(e) => create_failed(j, e),
            Ok(()) => go(
                j,
                11,
                WsActionView::Git(seq!["commit"@, "-m"@, spec_initial_commit_message(j.env, j.skip_restore)]),
            ),
        },
        (11, WsEventView::GitDone(r)) => match r {
            Err(e) => create_failed(j, e),
            Ok(()) => go(j, 12, WsActionView::Log("✓ Initial commit created on branch main"@)),
        },
        (12, WsEventView::Ready) => match j.remote {
            Some(url) => go(j, 13, WsActionView::Git(seq!["remote"@, "add"@, "origin"@, url])),
            None => go(j, 16, WsActionView::Register(!j.skip_restore)),
        },
        (13, WsEventView::GitDone(r)) => match r {
            Err(e) => create_failed(j, e),
            Ok(()) => go(j, 14, WsActionView::Log("Pushing to "@ + remote_text(j.remote) + "…"@)),
        },
        (14, WsEventView::Ready) => go(j, 15, WsActionView::Git(seq!["push"@, "-u"@, "origin"@, "main"@])),
        (15, WsEventView::GitDone(r)) => match r {
            Err(e) => go(j, 17, WsActionView::Log(spec_push_warning(e))),
            Ok(()) => go(j, 17, WsActionView::Log("✓ Pushed to remote"@)),
        },
        (17, WsEventView::Ready) => go(j, 16, WsActionView::Register(!j.skip_restore)),
        (16, WsEventView::Ready) => go(j, 18, WsActionView::Log("✓ Workspace ready"@)),
        (18, WsEventView::Ready) => end_with(j, seq![], 0),
        _ => end_with(j, seq![], 1),
    }
}

/// The step of adding a package to a workspace after `e`.
pub open spec fn add_step(j: WorkspaceJobView, e: WsEventView) -> (WorkspaceJobView, WsActionView) {
    match (j.stage, e) {
        (0, WsEventView::Ready) => go(j, 1, WsActionView::Begin("updating workspace selection"@, true)),
        (1, WsEventView::Started(ok)) => if ok {
            go(j, 2, WsActionView::Log("Adding "@ + j.package + " to the workspace package selection…"@))
        } else {
            go(j, ws_done(), WsActionView::Stop)
        },
        (2, WsEventView::Ready) => go(
            j,
            3,
            WsActionView::Clio(seq!["cfg-worspace"@, "--Packages"@, j.package, "-e"@, j.env]),
        ),
        (3, WsEventView::Exited(r)) => match r {
            Err(e) => end_with(j, seq![e], 1),
            Ok(code) => if code != 0 {
                end_with(j, seq![], code)
            } else {
                go(j, 4, WsActionView::CheckCancel)
            },
        },
        (4, WsEventView::CancelRequested(asked)) => if asked {
            end_with(j, seq![], 1)
        } else {
            go(j, 5, WsActionView::SetPhase("restoring package into workspace"@, true))
        },
        (5, WsEventView::PhaseSet(ok)) => if ok {
            go(j, 6, WsActionView::Log("Restoring "@ + j.package + " source files from "@ + j.env + "…"@))
        } else {
            end_with(j, seq![], 1)
        },
        (6, WsEventView::Ready) => go(j, 7, WsActionView::Clio(restore_args(j.env))),
        (7, WsEventView::Exited(r)) => match r {
            Err(e) => end_with(j, seq![e], 1),
            Ok(code) => if code != 0 {
                end_with(j, seq![], code)
            } else {
                go(j, 8, WsActionView::CountChanges)
            },
        },
        (8, WsEventView::Changed(n)) => go(
            j,
            9,
            WsActionView::Log(
                "✓ "@ + j.package + " is now part of "@ + j.name + ". Review the "@ + spec_decimal(n as nat)
                    + " changed file(s), then commit and push them to Git."@,
            ),
        ),
        (9, WsEventView::Ready) => go(j, 10, WsActionView::Record(true)),
        (10, WsEventView::Ready) => end_with(j, seq![], 0),
        _ => end_with(j, seq![], 1),
    }
}

/// The step of installing a workspace into its environment after `e`.
pub open spec fn push_step(j: WorkspaceJobView, e: WsEventView) -> (WorkspaceJobView, WsActionView) {
    match (j.stage, e) {
        (0, WsEventView::Ready) => go(j, 1, WsActionView::Begin("installing workspace in environment"@, false)),
        (1, WsEventView::Started(ok)) => if ok {
            go(j, 2, WsActionView::Log(spec_install_note()))
        } else {
            go(j, ws_done(), WsActionView::Stop)
        },
        (2, WsEventView::Ready) => go(j, 3, WsActionView::Clio(spec_push_workspace_args(j.env, j.skip_backup))),
        (3, WsEventView::Exited(r)) => match r {
            Err(e) => end_with(j, seq![e], 1),
            Ok(code) => if code != 0 {
                end_with(j, seq![spec_push_failed()], code)
            } else {
                go(j, 4, WsActionView::Log("✓ Workspace installed to the environment."@))
            },
        },
        (4, WsEventView::Ready) => go(j, 5, WsActionView::Record(false)),
        (5, WsEventView::Ready) => end_with(j, seq![], 0),
        _ => end_with(j, seq![], 1),
    }
}

/// The step of pulling a workspace from its environment after `e`.
pub open spec fn pull_step(j: WorkspaceJobView, e: WsEventView) -> (WorkspaceJobView, WsActionView) {
    match (j.stage, e) {
        (0, WsEventView::Ready) => go(j, 1, WsActionView::Begin("restoring workspace files"@, true)),
        (1, WsEventView::Started(ok)) => if ok {
            go(j, 2, WsActionView::Clio(restore_args(j.env)))
        } else {
            go(j, ws_done(), WsActionView::Stop)
        },
        (2, WsEventView::Exited(r)) => match r {
            Err(e) => end_with(j, seq![e], 1),
            Ok(code) => if code != 0 {
                end_with(j, seq![], code)
            } else {
                go(j, 3, WsActionView::CountChanges)
            },
        },
        (3, WsEventView::Changed(n)) => go(j, 4, WsActionView::Log(spec_pull_report(n as nat))),
        (4, WsEventView::Ready) => go(j, 5, WsActionView::Record(true)),
        (5, WsEventView::Ready) => end_with(j, seq![], 0),
        _ => end_with(j, seq![], 1),
    }
}

pub open spec fn spec_ws_step(j: WorkspaceJobView, e: WsEventView) -> (WorkspaceJobView, WsActionView) {
    if j.kind == creating() {
        create_step(j, e)
    } else if j.kind == adding() {
        add_step(j, e)
    } else if j.kind == pushing() {
        push_step(j, e)
    } else {
        pull_step(j, e)
    }
}

fn restore_args_of(env: &str) -> (a: Vec<String>)
    ensures
        views(a@) == restore_args(env@),
{
    let a = vec![owned("restore-workspace"), owned("-e"), owned(env)];
    assert(views(a@) =~= restore_args(env@));
    a
}

fn one(line: String) -> (v: Vec<String>)
    ensures
        views(v@) == seq![line@],
{
    let v = vec![line];
    assert(views(v@) =~= seq![line@]);
    v
}

fn none() -> (v: Vec<String>)
    ensures
        views(v@) == Seq::<Seq<char>>::empty(),
{
    let v: Vec<String> = Vec::new();
    assert(views(v@) =~= Seq::<Seq<char>>::empty());
    v
}

fn crossed(e: String) -> (r: String)
    ensures
        r@ == "✗ "@ + e@,
{
    let mut r = owned("✗ ");
    r.append(e.as_str());
    r
}

fn opt_owned(o: Option<&str>) -> (r: Option<String>)
    ensures
        opt_seq(r) == match o {
            Some(s) => Some(s@),
            None => None,
        },
{
    match o {
        Some(s) => Some(owned(s)),
        None => None,
    }
}

impl WorkspaceJob {
    fn fresh(kind: u8, env: &str) -> (j: Self)
        ensures
            j@ == (WorkspaceJobView {
                kind,
                env: env@,
                package: seq![],
                name: seq![],
                app_code: None,
                remote: None,
                skip_restore: false,
                skip_backup: false,
                stage: 0,
            }),
    {
        WorkspaceJob {
            kind,
            env: owned(env),
            package: String::new(),
            name: String::new(),
            app_code: None,
            remote: None,
            skip_restore: false,
            skip_backup: false,
            stage: 0,
        }
    }

    /// Creating a workspace of `env` (of one application when `app_code` is
    /// given), pushed to `remote_url` when it is not blank, starting empty
    /// with `skip_restore`.
    pub fn create(env: &str, app_code: Option<&str>, remote_url: Option<&str>, skip_restore: bool) -> (j: Self)
        ensures
            j@.kind == creating() && j@.env == env@ && j@.stage == 0 && j@.skip_restore == skip_restore,
            j@.app_code == match app_code {
                Some(c) => Some(c@),
                None => None,
            },
            j@.remote == match remote_url {
                None => None,
                Some(u) => if spec_trim(u@).len() == 0 {
                    None
                } else {
                    Some(spec_trim(u@))
                },
            },
    {
        let mut j = Self::fresh(0, env);
        j.app_code = opt_owned(app_code);
        let remote = initial_remote(remote_url);
        proof {
            match remote_url {
                None => {},
                Some(u) => if spec_trim(u@).len() != 0 {
                    assert(opt_seq(remote) == Some(spec_trim(u@)));
                },
            }
        }
        j.remote = remote;
        j.skip_restore = skip_restore;
        j
    }

    /// Adding `package` to the workspace `name` of `env`.
    pub fn add_package(env: &str, package: &str, name: &str) -> (j: Self)
        ensures
            j@ == (WorkspaceJobView {
                kind: adding(),
                env: env@,
                package: package@,
                name: name@,
                app_code: None,
                remote: None,
                skip_restore: false,
                skip_backup: false,
                stage: 0,
            }),
    {
        let mut j = Self::fresh(1, env);
        j.package = owned(package);
        j.name = owned(name);
        j
    }

    /// Installing a workspace into `env`, with or without its backup.
    pub fn push_cloud(env: &str, skip_backup: bool) -> (j: Self)
        ensures
            j@ == (WorkspaceJobView {
                kind: pushing(),
                env: env@,
                package: seq![],
                name: seq![],
                app_code: None,
                remote: None,
                skip_restore: false,
                skip_backup,
                stage: 0,
            }),
    {
        let mut j = Self::fresh(2, env);
        j.skip_backup = skip_backup;
        j
    }

    /// Pulling a workspace from `env`.
    pub fn pull(env: &str) -> (j: Self)
        ensures
            j@ == (WorkspaceJobView {
                kind: pulling(),
                env: env@,
                package: seq![],
                name: seq![],
                app_code: None,
                remote: None,
                skip_restore: false,
                skip_backup: false,
                stage: 0,
            }),
    {
        Self::fresh(3, env)
    }

    /// Whether the job has ended.
    pub fn is_done(&self) -> (b: bool)
        ensures
            b == (self@.stage == ws_done()),
    {
        self.stage == 100
    }

    fn end(&mut self, lines: Vec<String>, code: i32) -> (a: WsAction)
        ensures
            (final(self)@, a@) == end_with(old(self)@, views(lines@), code),
    {
        self.stage = 100;
        WsAction::Report(lines, code)
    }

    fn stop(&mut self) -> (a: WsAction)
        ensures
            (final(self)@, a@) == go(old(self)@, ws_done(), WsActionView::Stop),
    {
        self.stage = 100;
        WsAction::Stop
    }

    fn create_next(&mut self, e: WsEvent) -> (a: WsAction)
        ensures
            (final(self)@, a@) == create_step(old(self)@, e@),
    {
        match (self.stage, e) {
            (0, WsEvent::Ready) => {
                self.stage = 1;
                WsAction::Begin(owned("creating workspace"), true)
            },
            (1, WsEvent::Started(ok)) => if ok {
                let code = match &self.app_code {
                    Some(c) => Some(c.as_str()),
                    None => None,
                };
                let args = create_workspace_args(self.env.as_str(), code);
                self.stage = 2;
                WsAction::Clio(args)
            } else {
                self.stop()
            },
            (2, WsEvent::Exited(r)) => match r {
                Err(e) => self.end(one(crossed(e)), 1),
                Ok(code) => if code != 0 {
                    self.end(one(crossed(owned("clio create-workspace failed"))), 1)
                } else if self.skip_restore {
                    self.stage = 6;
                    WsAction::Log(
                        owned(
                            "Empty workspace — skipping package download. Add packages later from the workspace screen.",
                        ),
                    )
                } else {
                    self.stage = 3;
                    WsAction::CheckCancel
                },
            },
            (3, WsEvent::CancelRequested(asked)) => if asked {
                self.end(one(crossed(owned("Cancelled before restore."))), 1)
            } else {
                self.stage = 4;
                WsAction::SetPhase(owned("restoring workspace files"), true)
            },
            (4, WsEvent::PhaseSet(ok)) => if ok {
                self.stage = 5;
                WsAction::Clio(restore_args_of(self.env.as_str()))
            } else {
                self.end(one(crossed(owned("Cancelled before restore."))), 1)
            },
            (5, WsEvent::Exited(r)) => match r {
                Err(e) => self.end(one(crossed(e)), 1),
                Ok(code) => if code != 0 {
                    self.end(one(crossed(owned("clio restore-workspace failed"))), 1)
                } else {
                    self.stage = 7;
                    WsAction::Log(owned("Initializing git repository…"))
                },
            },
            (6, WsEvent::Ready) => {
                self.stage = 7;
                WsAction::Log(owned("Initializing git repository…"))
            },
            (7, WsEvent::Ready) => {
                let args = vec![owned("init"), owned("-b"), owned("main")];
                assert(views(args@) =~= seq!["init"@, "-b"@, "main"@]);
                self.stage = 8;
                WsAction::Git(args)
            },
            (8, WsEvent::GitDone(r)) => match r {
                Err(e) => self.end(one(crossed(e)), 1),
                Ok(()) => {
                    self.stage = 9;
                    WsAction::WriteGitignore
                },
            },
            (9, WsEvent::FileWritten(r)) => match r {
                Err(e) => self.end(one(crossed(e)), 1),
                Ok(()) => {
                    let args = vec![owned("add"), owned("-A")];
                    assert(views(args@) =~= seq!["add"@, "-A"@]);
                    self.stage = 10;
                    WsAction::Git(args)
                },
            },
            (10, WsEvent::GitDone(r)) => match r {
                Err(e) => self.end(one(crossed(e)), 1),
                Ok(()) => {
                    let message = initial_commit_message(self.env.as_str(), self.skip_restore);
                    let args = vec![owned("commit"), owned("-m"), message];
                    assert(views(args@) =~= seq![
                        "commit"@,
                        "-m"@,
                        spec_initial_commit_message(self.env@, self.skip_restore),
                    ]);
                    self.stage = 11;
                    WsAction::Git(args)
                },
            },
            (11, WsEvent::GitDone(r)) => match r {
                Err(e) => self.end(one(crossed(e)), 1),
                Ok(()) => {
                    self.stage = 12;
                    WsAction::Log(owned("✓ Initial commit created on branch main"))
                },
            },
            (12, WsEvent::Ready) => match &self.remote {
                Some(url) => {
                    let args = vec![owned("remote"), owned("add"), owned("origin"), url.clone()];
                    assert(views(args@) =~= seq!["remote"@, "add"@, "origin"@, url@]);
                    self.stage = 13;
                    WsAction::Git(args)
                },
                None => {
                    self.stage = 16;
                    WsAction::Register(!self.skip_restore)
                },
            },
            (13, WsEvent::GitDone(r)) => match r {
                Err(e) => self.end(one(crossed(e)), 1),
                Ok(()) => {
                    let mut line = owned("Pushing to ");
                    match &self.remote {
                        Some(url) => line.append(url.as_str()),
                        None => {},
                    }
                    line.append("…");
                    self.stage = 14;
                    WsAction::Log(line)
                },
            },
            (14, WsEvent::Ready) => {
                let args = vec![owned("push"), owned("-u"), owned("origin"), owned("main")];
                assert(views(args@) =~= seq!["push"@, "-u"@, "origin"@, "main"@]);
                self.stage = 15;
                WsAction::Git(args)
            },
            (15, WsEvent::GitDone(r)) => match r {
                Err(e) => {
                    let mut line = owned("⚠ Remote push failed (");
                    line.append(e.as_str());
                    line.append("). The workspace is fine — set up git credentials and push from the workspace screen.");
                    self.stage = 17;
                    WsAction::Log(line)
                },
                Ok(()) => {
                    self.stage = 17;
                    WsAction::Log(owned("✓ Pushed to remote"))
                },
            },
            (17, WsEvent::Ready) => {
                self.stage = 16;
                WsAction::Register(!self.skip_restore)
            },
            (16, WsEvent::Ready) => {
                self.stage = 18;
                WsAction::Log(owned("✓ Workspace ready"))
            },
            (18, WsEvent::Ready) => self.end(none(), 0),
            _ => self.end(none(), 1),
        }
    }

    fn add_next(&mut self, e: WsEvent) -> (a: WsAction)
        ensures
            (final(self)@, a@) == add_step(old(self)@, e@),
    {
        match (self.stage, e) {
            (0, WsEvent::Ready) => {
                self.stage = 1;
                WsAction::Begin(owned("updating workspace selection"), true)
            },
            (1, WsEvent::Started(ok)) => if ok {
                let mut line = owned("Adding ");
                line.append(self.package.as_str());
                line.append(" to the workspace package selection…");
                self.stage = 2;
                WsAction::Log(line)
            } else {
                self.stop()
            },
            (2, WsEvent::Ready) => {
                let args = vec![
                    owned("cfg-worspace"),
                    owned("--Packages"),
                    self.package.clone(),
                    owned("-e"),
                    self.env.clone(),
                ];
                assert(views(args@) =~= seq!["cfg-worspace"@, "--Packages"@, self.package@, "-e"@, self.env@]);
                self.stage = 3;
                WsAction::Clio(args)
            },
            (3, WsEvent::Exited(r)) => match r {
                Err(e) => self.end(one(e), 1),
                Ok(code) => if code != 0 {
                    self.end(none(), code)
                } else {
                    self.stage = 4;
                    WsAction::CheckCancel
                },
            },
            (4, WsEvent::CancelRequested(asked)) => if asked {
                self.end(none(), 1)
            } else {
                self.stage = 5;
                WsAction::SetPhase(owned("restoring package into workspace"), true)
            },
            (5, WsEvent::PhaseSet(ok)) => if ok {
                let mut line = owned("Restoring ");
                line.append(self.package.as_str());
                line.append(" source files from ");
                line.append(self.env.as_str());
                line.append("…");
                self.stage = 6;
                WsAction::Log(line)
            } else {
                self.end(none(), 1)
            },
            (6, WsEvent::Ready) => {
                self.stage = 7;
                WsAction::Clio(restore_args_of(self.env.as_str()))
            },
            (7, WsEvent::Exited(r)) => match r {
                Err(e) => self.end(one(e), 1),
                Ok(code) => if code != 0 {
                    self.end(none(), code)
                } else {
                    self.stage = 8;
                    WsAction::CountChanges
                },
            },
            (8, WsEvent::Changed(n)) => {
                let mut line = owned("✓ ");
                line.append(self.package.as_str());
                line.append(" is now part of ");
                line.append(self.name.as_str());
                line.append(". Review the ");
                let count = decimal_usize(n);
                line.append(count.as_str());
                line.append(" changed file(s), then commit and push them to Git.");
                self.stage = 9;
                WsAction::Log(line)
            },
            (9, WsEvent::Ready) => {
                self.stage = 10;
                WsAction::Record(true)
            },
            (10, WsEvent::Ready) => self.end(none(), 0),
            _ => self.end(none(), 1),
        }
    }

    fn push_next(&mut self, e: WsEvent) -> (a: WsAction)
        ensures
            (final(self)@, a@) == push_step(old(self)@, e@),
    {
        match (self.stage, e) {
            (0, WsEvent::Ready) => {
                self.stage = 1;
                WsAction::Begin(owned("installing workspace in environment"), false)
            },
            (1, WsEvent::Started(ok)) => if ok {
                self.stage = 2;
                WsAction::Log(
                    owned(
                        "Packing workspace and installing to the environment — the server-side compile can take several minutes. This job cannot be safely cancelled once installation starts.",
                    ),
                )
            } else {
                self.stop()
            },
            (2, WsEvent::Ready) => {
                self.stage = 3;
                WsAction::Clio(push_workspace_args(self.env.as_str(), self.skip_backup))
            },
            (3, WsEvent::Exited(r)) => match r {
                Err(e) => self.end(one(e), 1),
                Ok(code) => if code != 0 {
                    self.end(
                        one(
                            owned(
                                "✗ Push failed — scroll up for the compile/installation errors. The environment keeps its backup unless you skipped it.",
                            ),
                        ),
                        code,
                    )
                } else {
                    self.stage = 4;
                    WsAction::Log(owned("✓ Workspace installed to the environment."))
                },
            },
            (4, WsEvent::Ready) => {
                self.stage = 5;
                WsAction::Record(false)
            },
            (5, WsEvent::Ready) => self.end(none(), 0),
            _ => self.end(none(), 1),
        }
    }

    fn pull_next(&mut self, e: WsEvent) -> (a: WsAction)
        ensures
            (final(self)@, a@) == pull_step(old(self)@, e@),
    {
        match (self.stage, e) {
            (0, WsEvent::Ready) => {
                self.stage = 1;
                WsAction::Begin(owned("restoring workspace files"), true)
            },
            (1, WsEvent::Started(ok)) => if ok {
                self.stage = 2;
                WsAction::Clio(restore_args_of(self.env.as_str()))
            } else {
                self.stop()
            },
            (2, WsEvent::Exited(r)) => match r {
                Err(e) => self.end(one(e), 1),
                Ok(code) => if code != 0 {
                    self.end(none(), code)
                } else {
                    self.stage = 3;
                    WsAction::CountChanges
                },
            },
            (3, WsEvent::Changed(n)) => {
                self.stage = 4;
                WsAction::Log(pull_report(n))
            },
            (4, WsEvent::Ready) => {
                self.stage = 5;
                WsAction::Record(true)
            },
            (5, WsEvent::Ready) => self.end(none(), 0),
            _ => self.end(none(), 1),
        }
    }

    /// The next step after `e`.
    pub fn next(&mut self, e: WsEvent) -> (a: WsAction)
        ensures
            (final(self)@, a@) == spec_ws_step(old(self)@, e@),
    {
        if self.kind == 0 {
            self.create_next(e)
        } else if self.kind == 1 {
            self.add_next(e)
        } else if self.kind == 2 {
            self.push_next(e)
        } else {
            self.pull_next(e)
        }
    }
}

/// A workspace is registered or its sync recorded only after its clio step
/// succeeded: the `Register` and `Record` steps come only from the states
/// reached after a clio run that exited 0 (and, creating, the first commit).
pub proof fn lemma_sync_follows_success(j: WorkspaceJobView, e: WsEventView)
    requires
        j.kind <= pulling(),
    ensures
        spec_ws_step(j, e).1 is Record ==> (j.kind == adding() && j.stage == 9) || (j.kind == pushing() && j.stage == 4)
            || (j.kind == pulling() && j.stage == 4),
        spec_ws_step(j, e).1 is Register ==> j.kind == creating() && (j.stage == 12 || j.stage == 17),
{
}

} // verus!
