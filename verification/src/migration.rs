//! The steps of a lookup migration job: read the planned tables from the
//! source, write a runnable rollback of the target (unless the backup is
//! skipped), then apply the forward upsert to the target in one transaction.
//!
//! The caller runs each step (a phase change, reading the source or the
//! target, writing a file, running clio) and hands back what happened; the
//! migration answers with the next step. A phase change refused because the
//! job was cancelled stops it where it is.
use vstd::prelude::*;
use crate::refdata::{migration_outcome, migration_script, spec_migration_outcome, spec_migration_script, TablePlan};
use crate::text::{decimal, decimal_usize, owned, spec_decimal, views};

verus! {

/// What happened in the step just run.
#[derive(Debug, PartialEq, Eq)]
pub enum MigrationEvent {
    /// A log line was written (or the job has just been created).
    Ready,
    /// Whether the job could start (not when it was cancelled while queued).
    Started(bool),
    /// Whether the phase could be entered (not when a cancel came first).
    PhaseSet(bool),
    /// The forward SQL of the planned tables, their row count and the number
    /// of lookups; or why they could not be read.
    Planned(Result<(String, usize, usize), String>),
    /// The rollback of the target's current rows and the time it was read at
    /// (milliseconds); or why the target could not be read.
    RollbackRead(Result<(String, u64), String>),
    /// The folder for migration files could not be made.
    NoBackupFolder(String),
    /// The path of the rollback file written, or why it could not be written.
    BackupWritten(Result<String, String>),
    /// Whether the migration script could be staged, or why not.
    ScriptStaged(Result<(), String>),
    /// clio's exit code and output for the write, or why it could not run.
    Applied(Result<(i32, String), String>),
}

pub enum MigrationEventView {
    Ready,
    Started(bool),
    PhaseSet(bool),
    Planned(Result<(Seq<char>, usize, usize), Seq<char>>),
    RollbackRead(Result<(Seq<char>, u64), Seq<char>>),
    NoBackupFolder(Seq<char>),
    BackupWritten(Result<Seq<char>, Seq<char>>),
    ScriptStaged(Result<(), Seq<char>>),
    Applied(Result<(i32, Seq<char>), Seq<char>>),
}

impl View for MigrationEvent {
    type V = MigrationEventView;

    open spec fn view(&self) -> MigrationEventView {
        match self {
            MigrationEvent::Ready => MigrationEventView::Ready,
            MigrationEvent::Started(b) => MigrationEventView::Started(*b),
            MigrationEvent::PhaseSet(b) => MigrationEventView::PhaseSet(*b),
            MigrationEvent::Planned(r) => MigrationEventView::Planned(
                match r {
                    Ok((f, t, n)) => Ok((f@, *t, *n)),
                    Err(e) => Err(e@),
                },
            ),
            MigrationEvent::RollbackRead(r) => MigrationEventView::RollbackRead(
                match r {
                    Ok((s, at)) => Ok((s@, *at)),
                    Err(e) => Err(e@),
                },
            ),
            MigrationEvent::NoBackupFolder(e) => MigrationEventView::NoBackupFolder(e@),
            MigrationEvent::BackupWritten(r) => MigrationEventView::BackupWritten(
                match r {
                    Ok(p) => Ok(p@),
                    Err(e) => Err(e@),
                },
            ),
            MigrationEvent::ScriptStaged(r) => MigrationEventView::ScriptStaged(
                match r {
                    Ok(()) => Ok(()),
                    Err(e) => Err(e@),
                },
            ),
            MigrationEvent::Applied(r) => MigrationEventView::Applied(
                match r {
                    Ok((c, o)) => Ok((*c, o@)),
                    Err(e) => Err(e@),
                },
            ),
        }
    }
}

/// The next step to run.
#[derive(Debug, PartialEq, Eq)]
pub enum MigrationAction {
    /// Start the job in this phase, and whether it may be cancelled there.
    Begin(String, bool),
    /// Read the planned tables from the source.
    Plan,
    /// Enter a phase, and whether it may be cancelled.
    SetPhase(String, bool),
    /// Read the target's current rows of the planned tables as a rollback.
    ReadRollback,
    /// In the migrations folder, write the rollback (second) under the first
    /// name and the forward SQL (fourth) under the third.
    WriteBackup(String, String, String, String),
    /// Write this script to a temporary file for clio.
    Stage(String),
    /// Add a line to the job log.
    Log(String),
    /// Run the staged script against the target.
    Apply,
    /// Log these lines and end the job with this exit code.
    Report(Vec<String>, i32),
    /// End here: the job was cancelled.
    Stop,
}

pub enum MigrationActionView {
    Begin(Seq<char>, bool),
    Plan,
    SetPhase(Seq<char>, bool),
    ReadRollback,
    WriteBackup(Seq<char>, Seq<char>, Seq<char>, Seq<char>),
    Stage(Seq<char>),
    Log(Seq<char>),
    Apply,
    Report(Seq<Seq<char>>, i32),
    Stop,
}

impl View for MigrationAction {
    type V = MigrationActionView;

    open spec fn view(&self) -> MigrationActionView {
        match self {
            MigrationAction::Begin(p, c) => MigrationActionView::Begin(p@, *c),
            MigrationAction::Plan => MigrationActionView::Plan,
            MigrationAction::SetPhase(p, c) => MigrationActionView::SetPhase(p@, *c),
            MigrationAction::ReadRollback => MigrationActionView::ReadRollback,
            MigrationAction::WriteBackup(a, b, c, d) => MigrationActionView::WriteBackup(a@, b@, c@, d@),
            MigrationAction::Stage(s) => MigrationActionView::Stage(s@),
            MigrationAction::Log(s) => MigrationActionView::Log(s@),
            MigrationAction::Apply => MigrationActionView::Apply,
            MigrationAction::Report(lines, code) => MigrationActionView::Report(views(lines@), *code),
            MigrationAction::Stop => MigrationActionView::Stop,
        }
    }
}

/// Where a migration stands: its target, whether the backup is skipped, the
/// step reached, the forward SQL with its row and lookup counts once
/// planned, and whether the rollback file has been written.
pub struct LookupMigration {
    target: String,
    skip_backup: bool,
    stage: u8,
    forward: String,
    total_rows: usize,
    lookups: usize,
    backed_up: bool,
}

pub struct LookupMigrationView {
    pub target: Seq<char>,
    pub skip_backup: bool,
    pub stage: u8,
    pub forward: Seq<char>,
    pub total_rows: usize,
    pub lookups: usize,
    pub backed_up: bool,
}

impl View for LookupMigration {
    type V = LookupMigrationView;

    closed spec fn view(&self) -> LookupMigrationView {
        LookupMigrationView {
            target: self.target@,
            skip_backup: self.skip_backup,
            stage: self.stage,
            forward: self.forward@,
            total_rows: self.total_rows,
            lookups: self.lookups,
            backed_up: self.backed_up,
        }
    }
}

/// The step after which nothing runs.
pub open spec fn finished_stage() -> u8 {
    100
}

pub open spec fn spec_nothing_to_migrate() -> Seq<char> {
    "The selected lookups have no rows to migrate."@
}

/// The names of a migration's rollback and applied-SQL files.
pub open spec fn spec_backup_names(target: Seq<char>, stamp: u64) -> (Seq<char>, Seq<char>) {
    (
        "rollback-"@ + target + "-"@ + spec_decimal(stamp as nat) + ".sql"@,
        "applied-"@ + target + "-"@ + spec_decimal(stamp as nat) + ".sql"@,
    )
}

pub open spec fn spec_backup_written(target: Seq<char>, path: Seq<char>) -> Seq<char> {
    "Backup written. To undo this migration, run this file against "@ + target + ":\n"@ + path
}

pub open spec fn spec_applying(total_rows: usize, lookups: usize, target: Seq<char>) -> Seq<char> {
    "Applying "@ + spec_decimal(total_rows as nat) + " row(s) across "@ + spec_decimal(lookups as nat)
        + " lookup(s) to "@ + target + "…"@
}

pub open spec fn moved(m: LookupMigrationView, stage: u8) -> LookupMigrationView {
    LookupMigrationView { stage, ..m }
}

pub open spec fn reported(m: LookupMigrationView, lines: Seq<Seq<char>>, code: i32) -> (LookupMigrationView, MigrationActionView) {
    (moved(m, finished_stage()), MigrationActionView::Report(lines, code))
}

pub open spec fn stopped(m: LookupMigrationView) -> (LookupMigrationView, MigrationActionView) {
    (moved(m, finished_stage()), MigrationActionView::Stop)
}

/// The step of a migration after `e`.
pub open spec fn spec_migration_step(m: LookupMigrationView, e: MigrationEventView) -> (LookupMigrationView, MigrationActionView) {
    match (m.stage, e) {
        (0, MigrationEventView::Ready) => (moved(m, 1), MigrationActionView::Begin("reading source lookups"@, true)),
        (1, MigrationEventView::Started(go)) => if go {
            (moved(m, 2), MigrationActionView::Plan)
        } else {
            stopped(m)
        },
        (2, MigrationEventView::Planned(r)) => match r {
            Err(e) => reported(m, seq![e], 1),
            Ok((forward, total_rows, lookups)) => if forward.len() == 0 {
                reported(m, seq![spec_nothing_to_migrate()], 0)
            } else {
                let planned = LookupMigrationView { forward, total_rows, lookups, ..m };
                if m.skip_backup {
                    (moved(planned, 7), MigrationActionView::SetPhase("writing to target"@, false))
                } else {
                    (moved(planned, 3), MigrationActionView::SetPhase("backing up target"@, true))
                }
            },
        },
        (3, MigrationEventView::PhaseSet(go)) => if go {
            (moved(m, 4), MigrationActionView::ReadRollback)
        } else {
            stopped(m)
        },
        (4, MigrationEventView::RollbackRead(r)) => match r {
            Err(e) => reported(m, seq!["Could not read the target for backup: "@ + e], 1),
            Ok((rollback, stamp)) => {
                let (rollback_name, applied_name) = spec_backup_names(m.target, stamp);
                (moved(m, 5), MigrationActionView::WriteBackup(rollback_name, rollback, applied_name, m.forward))
            },
        },
        (5, MigrationEventView::NoBackupFolder(e)) => reported(m, seq![e], 1),
        (5, MigrationEventView::BackupWritten(r)) => match r {
            Err(e) => reported(m, seq!["Could not write the rollback: "@ + e], 1),
            Ok(path) => (
                LookupMigrationView { stage: 6, backed_up: true, ..m },
                MigrationActionView::Log(spec_backup_written(m.target, path)),
            ),
        },
        (6, MigrationEventView::Ready) => (moved(m, 7), MigrationActionView::SetPhase("writing to target"@, false)),
        (7, MigrationEventView::PhaseSet(go)) => if go {
            (moved(m, 8), MigrationActionView::Stage(spec_migration_script(m.forward)))
        } else {
            stopped(m)
        },
        (8, MigrationEventView::ScriptStaged(r)) => match r {
            Err(e) => reported(m, seq!["Could not stage the migration: "@ + e], 1),
            Ok(()) => (moved(m, 9), MigrationActionView::Log(spec_applying(m.total_rows, m.lookups, m.target))),
        },
        (9, MigrationEventView::Ready) => (moved(m, 10), MigrationActionView::Apply),
        (10, MigrationEventView::Applied(r)) => match r {
            Err(e) => reported(m, seq![e], 1),
            Ok((code, out)) => {
                let (lines, exit) = spec_migration_outcome(
                    code,
                    out,
                    m.skip_backup,
                    m.total_rows as nat,
                    m.lookups as nat,
                    m.target,
                );
                reported(m, lines, exit)
            },
        },
        _ => reported(m, seq![], 1),
    }
}

/// What every migration keeps: past the backup step, a migration that does
/// not skip its backup has written it.
pub open spec fn backup_kept(m: LookupMigrationView) -> bool {
    (6 <= m.stage <= 10 && !m.skip_backup) ==> m.backed_up
}

/// The total number of rows of the planned tables.
pub open spec fn spec_total_rows(plans: Seq<TablePlan>) -> nat
    decreases plans.len(),
{
    if plans.len() == 0 {
        0
    } else {
        spec_total_rows(plans.drop_last()) + plans.last().source_rows@.len()
    }
}

pub fn total_rows(plans: &[TablePlan]) -> (n: usize)
    requires
        spec_total_rows(plans@) <= usize::MAX,
    ensures
        n == spec_total_rows(plans@),
{
    let mut n: usize = 0;
    let mut i: usize = 0;
    while i < plans.len()
        invariant
            i <= plans.len(),
            n == spec_total_rows(plans@.take(i as int)),
            spec_total_rows(plans@) <= usize::MAX,
        decreases plans.len() - i,
    {
        proof {
            assert(plans@.take(i + 1).drop_last() =~= plans@.take(i as int));
            assert(plans@.take(i + 1).last() == plans@[i as int]);
            lemma_total_rows_prefix(plans@, i + 1);
        }
        n = n + plans[i].source_rows.len();
        i = i + 1;
    }
    assert(plans@.take(plans.len() as int) =~= plans@);
    n
}

proof fn lemma_total_rows_prefix(plans: Seq<TablePlan>, k: int)
    requires
        0 <= k <= plans.len(),
    ensures
        spec_total_rows(plans.take(k)) <= spec_total_rows(plans),
    decreases plans.len(),
{
    if k < plans.len() {
        assert(plans.drop_last().take(k) =~= plans.take(k));
        lemma_total_rows_prefix(plans.drop_last(), k);
    } else {
        assert(plans.take(k) =~= plans);
    }
}

fn backup_names(target: &str, stamp: u64) -> (r: (String, String))
    ensures
        (r.0@, r.1@) == spec_backup_names(target@, stamp),
{
    let n = decimal(stamp);
    let mut rollback = owned("rollback-");
    rollback.append(target);
    rollback.append("-");
    rollback.append(n.as_str());
    rollback.append(".sql");
    let mut applied = owned("applied-");
    applied.append(target);
    applied.append("-");
    applied.append(n.as_str());
    applied.append(".sql");
    (rollback, applied)
}

fn prefixed(prefix: &str, e: String) -> (r: String)
    ensures
        r@ == prefix@ + e@,
{
    let mut r = owned(prefix);
    r.append(e.as_str());
    r
}

impl LookupMigration {
    /// A migration into `target`, with or without a backup of it.
    pub fn new(target: &str, skip_backup: bool) -> (m: Self)
        ensures
            m@ == (LookupMigrationView {
                target: target@,
                skip_backup,
                stage: 0,
                forward: seq![],
                total_rows: 0,
                lookups: 0,
                backed_up: false,
            }),
            backup_kept(m@),
    {
        LookupMigration {
            target: owned(target),
            skip_backup,
            stage: 0,
            forward: String::new(),
            total_rows: 0,
            lookups: 0,
            backed_up: false,
        }
    }

    /// Whether the migration has ended.
    pub fn is_done(&self) -> (b: bool)
        ensures
            b == (self@.stage == finished_stage()),
    {
        self.stage == 100
    }

    fn report(&mut self, lines: Vec<String>, code: i32) -> (a: MigrationAction)
        ensures
            (final(self)@, a@) == reported(old(self)@, views(lines@), code),
    {
        self.stage = 100;
        MigrationAction::Report(lines, code)
    }

    fn stop(&mut self) -> (a: MigrationAction)
        ensures
            (final(self)@, a@) == stopped(old(self)@),
    {
        self.stage = 100;
        MigrationAction::Stop
    }

    /// The next step after `e`.
    pub fn next(&mut self, e: MigrationEvent) -> (a: MigrationAction)
        ensures
            (final(self)@, a@) == spec_migration_step(old(self)@, e@),
    {
        proof {
            reveal_strlit("reading source lookups");
            reveal_strlit("writing to target");
            reveal_strlit("backing up target");
        }
        match (self.stage, e) {
            (0, MigrationEvent::Ready) => {
                self.stage = 1;
                MigrationAction::Begin(owned("reading source lookups"), true)
            },
            (1, MigrationEvent::Started(go)) => if go {
                self.stage = 2;
                MigrationAction::Plan
            } else {
                self.stop()
            },
            (2, MigrationEvent::Planned(r)) => match r {
                Err(e) => {
                    let lines = vec![e];
                    assert(views(lines@) =~= seq![lines@[0]@]);
                    self.report(lines, 1)
                },
                Ok((forward, total_rows, lookups)) => if forward.as_str().unicode_len() == 0 {
                    let lines = vec![owned("The selected lookups have no rows to migrate.")];
                    assert(views(lines@) =~= seq![spec_nothing_to_migrate()]);
                    self.report(lines, 0)
                } else {
                    self.forward = forward;
                    self.total_rows = total_rows;
                    self.lookups = lookups;
                    if self.skip_backup {
                        self.stage = 7;
                        MigrationAction::SetPhase(owned("writing to target"), false)
                    } else {
                        self.stage = 3;
                        MigrationAction::SetPhase(owned("backing up target"), true)
                    }
                },
            },
            (3, MigrationEvent::PhaseSet(go)) => if go {
                self.stage = 4;
                MigrationAction::ReadRollback
            } else {
                self.stop()
            },
            (4, MigrationEvent::RollbackRead(r)) => match r {
                Err(e) => {
                    let lines = vec![prefixed("Could not read the target for backup: ", e)];
                    assert(views(lines@) =~= seq![lines@[0]@]);
                    self.report(lines, 1)
                },
                Ok((rollback, stamp)) => {
                    let (rollback_name, applied_name) = backup_names(self.target.as_str(), stamp);
                    self.stage = 5;
                    MigrationAction::WriteBackup(rollback_name, rollback, applied_name, self.forward.clone())
                },
            },
            (5, MigrationEvent::NoBackupFolder(e)) => {
                let lines = vec![e];
                assert(views(lines@) =~= seq![lines@[0]@]);
                self.report(lines, 1)
            },
            (5, MigrationEvent::BackupWritten(r)) => match r {
                Err(e) => {
                    let lines = vec![prefixed("Could not write the rollback: ", e)];
                    assert(views(lines@) =~= seq![lines@[0]@]);
                    self.report(lines, 1)
                },
                Ok(path) => {
                    let mut line = owned("Backup written. To undo this migration, run this file against ");
                    line.append(self.target.as_str());
                    line.append(":\n");
                    line.append(path.as_str());
                    self.stage = 6;
                    self.backed_up = true;
                    MigrationAction::Log(line)
                },
            },
            (6, MigrationEvent::Ready) => {
                self.stage = 7;
                MigrationAction::SetPhase(owned("writing to target"), false)
            },
            (7, MigrationEvent::PhaseSet(go)) => if go {
                self.stage = 8;
                MigrationAction::Stage(migration_script(self.forward.as_str()))
            } else {
                self.stop()
            },
            (8, MigrationEvent::ScriptStaged(r)) => match r {
                Err(e) => {
                    let lines = vec![prefixed("Could not stage the migration: ", e)];
                    assert(views(lines@) =~= seq![lines@[0]@]);
                    self.report(lines, 1)
                },
                Ok(()) => {
                    let mut line = owned("Applying ");
                    let t = decimal_usize(self.total_rows);
                    line.append(t.as_str());
                    line.append(" row(s) across ");
                    let n = decimal_usize(self.lookups);
                    line.append(n.as_str());
                    line.append(" lookup(s) to ");
                    line.append(self.target.as_str());
                    line.append("…");
                    self.stage = 9;
                    MigrationAction::Log(line)
                },
            },
            (9, MigrationEvent::Ready) => {
                self.stage = 10;
                MigrationAction::Apply
            },
            (10, MigrationEvent::Applied(r)) => match r {
                Err(e) => {
                    let lines = vec![e];
                    assert(views(lines@) =~= seq![lines@[0]@]);
                    self.report(lines, 1)
                },
                Ok((code, out)) => {
                    let (lines, exit) = migration_outcome(
                        code,
                        out.as_str(),
                        self.skip_backup,
                        self.total_rows,
                        self.lookups,
                        self.target.as_str(),
                    );
                    self.report(lines, exit)
                },
            },
            _ => {
                let lines: Vec<String> = Vec::new();
                assert(views(lines@) =~= Seq::<Seq<char>>::empty());
                self.report(lines, 1)
            },
        }
    }
}

/// The rollback is written before anything is changed: every step keeps
/// `backup_kept`, and a migration that does not skip its backup stages or
/// applies its write only once the rollback file has been written (the only
/// step that marks it written is a successful `BackupWritten`).
pub proof fn lemma_write_follows_backup(m: LookupMigrationView, e: MigrationEventView)
    requires
        backup_kept(m),
    ensures
        backup_kept(spec_migration_step(m, e).0),
        (spec_migration_step(m, e).1 is Stage || spec_migration_step(m, e).1 is Apply) ==> (m.skip_backup
            || m.backed_up),
        (!m.backed_up && spec_migration_step(m, e).0.backed_up) ==> (e matches MigrationEventView::BackupWritten(
            Ok(_),
        )),
{
}

} // verus!
