//! The steps of a lookup capture job: read the environment's lookup
//! registry, read every lookup's values with one query, and save them as a
//! snapshot.
//!
//! The caller runs each step (a phase change, a clio run, reading or
//! writing a file) and hands back what happened; the capture answers with the
//! next step. A phase change refused because the job was cancelled stops it
//! where it is.
use vstd::prelude::*;
use crate::refdata::{
    build_snapshot_at, built_from, capture_sql, infos_view, spec_capture_sql, table_values, value_count,
    LookupInfo, LookupInfoView, LookupSnapshot,
};
use crate::sql::{csv_view, read_table, spec_read_table, table_view};
use crate::text::{decimal_usize, owned, spec_decimal, views};

verus! {

/// What happened in the step just run.
pub enum CaptureEvent {
    /// A log line was written (or the job has just been created).
    Ready,
    /// Whether the job could start (not when it was cancelled while queued).
    Started(bool),
    /// The environment's lookup registry, or why it could not be read.
    Registry(Result<Vec<LookupInfo>, String>),
    /// Whether the phase could be entered (not when a cancel came first).
    PhaseSet(bool),
    /// Whether the capture query could be staged, or why not.
    QueryStaged(Result<(), String>),
    /// clio's exit code for the capture query, or why it could not run.
    Exited(Result<i32, String>),
    /// The result file's bytes (none when clio wrote no file), and the time
    /// (milliseconds) it was read at.
    ResultRead(Option<Vec<u8>>, u64),
    /// The snapshot could not be put into its file format.
    NotSerialized(String),
    /// Whether the snapshot file could be written, or why not.
    SnapshotWritten(Result<(), String>),
}

pub enum CaptureEventView {
    Ready,
    Started(bool),
    Registry(Result<Seq<LookupInfoView>, Seq<char>>),
    PhaseSet(bool),
    QueryStaged(Result<(), Seq<char>>),
    Exited(Result<i32, Seq<char>>),
    ResultRead(Option<Seq<u8>>, u64),
    NotSerialized(Seq<char>),
    SnapshotWritten(Result<(), Seq<char>>),
}

impl View for CaptureEvent {
    type V = CaptureEventView;

    open spec fn view(&self) -> CaptureEventView {
        match self {
            CaptureEvent::Ready => CaptureEventView::Ready,
            CaptureEvent::Started(b) => CaptureEventView::Started(*b),
            CaptureEvent::Registry(r) => CaptureEventView::Registry(
                match r {
                    Ok(infos) => Ok(infos_view(infos@)),
                    Err(e) => Err(e@),
                },
            ),
            CaptureEvent::PhaseSet(b) => CaptureEventView::PhaseSet(*b),
            CaptureEvent::QueryStaged(r) => CaptureEventView::QueryStaged(
                match r {
                    Ok(()) => Ok(()),
                    Err(e) => Err(e@),
                },
            ),
            CaptureEvent::Exited(r) => CaptureEventView::Exited(
                match r {
                    Ok(c) => Ok(*c),
                    Err(e) => Err(e@),
                },
            ),
            CaptureEvent::ResultRead(b, at) => CaptureEventView::ResultRead(
                match b {
                    Some(bytes) => Some(bytes@),
                    None => None,
                },
                *at,
            ),
            CaptureEvent::NotSerialized(e) => CaptureEventView::NotSerialized(e@),
            CaptureEvent::SnapshotWritten(r) => CaptureEventView::SnapshotWritten(
                match r {
                    Ok(()) => Ok(()),
                    Err(e) => Err(e@),
                },
            ),
        }
    }
}

/// The next step to run.
#[derive(Debug)]
pub enum CaptureAction {
    /// Start the job in this phase, and whether it may be cancelled there.
    Begin(String, bool),
    /// Read the environment's lookup registry.
    ReadRegistry,
    /// Add a line to the job log.
    Log(String),
    /// Enter a phase, and whether it may be cancelled.
    SetPhase(String, bool),
    /// Write this query to a temporary file for clio.
    StageQuery(String),
    /// Run the staged query against the environment, its result to a file.
    RunQuery,
    /// Read clio's result file.
    ReadResult,
    /// Save this snapshot as the environment's lookup snapshot.
    SaveSnapshot(LookupSnapshot),
    /// Record how long the capture took.
    RecordDuration,
    /// Log these lines and end the job with this exit code.
    Report(Vec<String>, i32),
    /// End here: the job was cancelled.
    Stop,
}

pub enum CaptureActionView {
    Begin(Seq<char>, bool),
    ReadRegistry,
    Log(Seq<char>),
    SetPhase(Seq<char>, bool),
    StageQuery(Seq<char>),
    RunQuery,
    ReadResult,
    SaveSnapshot(LookupSnapshot),
    RecordDuration,
    Report(Seq<Seq<char>>, i32),
    Stop,
}

impl View for CaptureAction {
    type V = CaptureActionView;

    open spec fn view(&self) -> CaptureActionView {
        match self {
            CaptureAction::Begin(p, c) => CaptureActionView::Begin(p@, *c),
            CaptureAction::ReadRegistry => CaptureActionView::ReadRegistry,
            CaptureAction::Log(s) => CaptureActionView::Log(s@),
            CaptureAction::SetPhase(p, c) => CaptureActionView::SetPhase(p@, *c),
            CaptureAction::StageQuery(s) => CaptureActionView::StageQuery(s@),
            CaptureAction::RunQuery => CaptureActionView::RunQuery,
            CaptureAction::ReadResult => CaptureActionView::ReadResult,
            CaptureAction::SaveSnapshot(s) => CaptureActionView::SaveSnapshot(*s),
            CaptureAction::RecordDuration => CaptureActionView::RecordDuration,
            CaptureAction::Report(lines, code) => CaptureActionView::Report(views(lines@), *code),
            CaptureAction::Stop => CaptureActionView::Stop,
        }
    }
}

/// Where a capture stands: its environment, the step reached, the registry
/// once read, and the counts of the snapshot once built.
pub struct LookupCapture {
    env: String,
    stage: u8,
    infos: Vec<LookupInfo>,
    lookups: usize,
    values: usize,
}

pub struct LookupCaptureView {
    pub env: Seq<char>,
    pub stage: u8,
    pub infos: Seq<LookupInfoView>,
    pub lookups: usize,
    pub values: usize,
}

impl View for LookupCapture {
    type V = LookupCaptureView;

    closed spec fn view(&self) -> LookupCaptureView {
        LookupCaptureView {
            env: self.env@,
            stage: self.stage,
            infos: infos_view(self.infos@),
            lookups: self.lookups,
            values: self.values,
        }
    }
}

pub open spec fn capture_done() -> u8 {
    100
}

pub open spec fn spec_no_lookups() -> Seq<char> {
    "No lookups were found in this environment."@
}

pub open spec fn spec_no_result() -> Seq<char> {
    "No lookup data was returned. The environment may be missing the cliogate helper (clio install-gate), or the query was rejected."@
}

pub open spec fn spec_found(n: nat) -> Seq<char> {
    "Found "@ + spec_decimal(n) + " lookups. Reading their values…"@
}

pub open spec fn spec_captured(lookups: usize, values: usize) -> Seq<char> {
    "Captured "@ + spec_decimal(lookups as nat) + " lookups ("@ + spec_decimal(values as nat)
        + " values). This snapshot holds lookup data — delete it from the Compare screen when done."@
}

pub open spec fn at_stage(c: LookupCaptureView, stage: u8) -> LookupCaptureView {
    LookupCaptureView { stage, ..c }
}

/// The capture ends, logging `lines` and exiting with `code`.
pub open spec fn ends(c: LookupCaptureView, n: LookupCaptureView, a: CaptureActionView, lines: Seq<Seq<char>>, code: i32) -> bool {
    n == at_stage(c, capture_done()) && a == CaptureActionView::Report(lines, code)
}

/// What one step of a capture does: `n` and `a` are the state and the action
/// after event `e` in state `c`.
pub open spec fn capture_step(c: LookupCaptureView, e: CaptureEventView, n: LookupCaptureView, a: CaptureActionView) -> bool {
    match (c.stage, e) {
        (0, CaptureEventView::Ready) => n == at_stage(c, 1) && a == CaptureActionView::Begin(
            "reading lookup registry"@,
            false,
        ),
        (1, CaptureEventView::Started(go)) => if go {
            n == at_stage(c, 2) && a == CaptureActionView::ReadRegistry
        } else {
            n == at_stage(c, capture_done()) && a == CaptureActionView::Stop
        },
        (2, CaptureEventView::Registry(r)) => match r {
            Err(e) => ends(c, n, a, seq![e], 1),
            Ok(infos) => if infos.len() == 0 {
                ends(c, n, a, seq![spec_no_lookups()], 1)
            } else {
                n == (LookupCaptureView { stage: 3, infos, ..c }) && a == CaptureActionView::Log(
                    spec_found(infos.len()),
                )
            },
        },
        (3, CaptureEventView::Ready) => n == at_stage(c, 4) && a == CaptureActionView::SetPhase(
            "reading lookup values"@,
            false,
        ),
        (4, CaptureEventView::PhaseSet(go)) => if go {
            n == at_stage(c, 5) && a == CaptureActionView::StageQuery(spec_capture_sql(c.infos))
        } else {
            n == at_stage(c, capture_done()) && a == CaptureActionView::Stop
        },
        (5, CaptureEventView::QueryStaged(r)) => match r {
            Err(e) => ends(c, n, a, seq!["Could not stage the query: "@ + e], 1),
            Ok(()) => n == at_stage(c, 6) && a == CaptureActionView::RunQuery,
        },
        (6, CaptureEventView::Exited(r)) => match r {
            Err(e) => ends(c, n, a, seq![e], 1),
            Ok(code) => if code != 0 {
                ends(c, n, a, seq![], code)
            } else {
                n == at_stage(c, 7) && a == CaptureActionView::ReadResult
            },
        },
        (7, CaptureEventView::ResultRead(bytes, now)) => match bytes {
            None => ends(c, n, a, seq![spec_no_result()], 1),
            Some(b) => match spec_read_table(b) {
                Err(e) => ends(c, n, a, seq![e], 1),
                Ok((columns, data)) => match a {
                    CaptureActionView::SaveSnapshot(s) => {
                        &&& built_from(s, c.env, c.infos, columns, data, now)
                        &&& n == (LookupCaptureView {
                            stage: 8,
                            lookups: s.spec_lookups().len() as usize,
                            values: table_values(s.spec_lookups()) as usize,
                            ..c
                        })
                    },
                    _ => false,
                },
            },
        },
        (8, CaptureEventView::NotSerialized(e)) => ends(c, n, a, seq!["Could not serialize: "@ + e], 1),
        (8, CaptureEventView::SnapshotWritten(r)) => match r {
            Err(e) => ends(c, n, a, seq!["Could not write the snapshot: "@ + e], 1),
            Ok(()) => n == at_stage(c, 9) && a == CaptureActionView::RecordDuration,
        },
        (9, CaptureEventView::Ready) => ends(c, n, a, seq![spec_captured(c.lookups, c.values)], 0),
        _ => ends(c, n, a, seq![], 1),
    }
}

fn prefixed(prefix: &str, e: String) -> (r: String)
    ensures
        r@ == prefix@ + e@,
{
    let mut r = owned(prefix);
    r.append(e.as_str());
    r
}

fn one_line(line: String) -> (v: Vec<String>)
    ensures
        views(v@) == seq![line@],
{
    let v = vec![line];
    assert(views(v@) =~= seq![line@]);
    v
}

impl LookupCapture {
    /// A capture of `env`'s lookups.
    pub fn new(env: &str) -> (c: Self)
        ensures
            c@ == (LookupCaptureView { env: env@, stage: 0, infos: seq![], lookups: 0, values: 0 }),
    {
        let c = LookupCapture { env: owned(env), stage: 0, infos: Vec::new(), lookups: 0, values: 0 };
        assert(infos_view(c.infos@) =~= Seq::<LookupInfoView>::empty());
        c
    }

    /// Whether the capture has ended.
    pub fn is_done(&self) -> (b: bool)
        ensures
            b == (self@.stage == capture_done()),
    {
        self.stage == 100
    }

    fn report(&mut self, lines: Vec<String>, code: i32) -> (a: CaptureAction)
        ensures
            ends(old(self)@, final(self)@, a@, views(lines@), code),
    {
        self.stage = 100;
        CaptureAction::Report(lines, code)
    }

    /// The next step after `e`.
    pub fn next(&mut self, e: CaptureEvent) -> (a: CaptureAction)
        ensures
            capture_step(old(self)@, e@, final(self)@, a@),
    {
        match (self.stage, e) {
            (0, CaptureEvent::Ready) => {
                self.stage = 1;
                CaptureAction::Begin(owned("reading lookup registry"), false)
            },
            (1, CaptureEvent::Started(go)) => if go {
                self.stage = 2;
                CaptureAction::ReadRegistry
            } else {
                self.stage = 100;
                CaptureAction::Stop
            },
            (2, CaptureEvent::Registry(r)) => match r {
                Err(e) => self.report(one_line(e), 1),
                Ok(infos) => if infos.len() == 0 {
                    self.report(one_line(owned("No lookups were found in this environment.")), 1)
                } else {
                    let mut line = owned("Found ");
                    let n = decimal_usize(infos.len());
                    line.append(n.as_str());
                    line.append(" lookups. Reading their values…");
                    self.infos = infos;
                    self.stage = 3;
                    CaptureAction::Log(line)
                },
            },
            (3, CaptureEvent::Ready) => {
                self.stage = 4;
                CaptureAction::SetPhase(owned("reading lookup values"), false)
            },
            (4, CaptureEvent::PhaseSet(go)) => if go {
                self.stage = 5;
                CaptureAction::StageQuery(capture_sql(self.infos.as_slice()))
            } else {
                self.stage = 100;
                CaptureAction::Stop
            },
            (5, CaptureEvent::QueryStaged(r)) => match r {
                Err(e) => self.report(one_line(prefixed("Could not stage the query: ", e)), 1),
                Ok(()) => {
                    self.stage = 6;
                    CaptureAction::RunQuery
                },
            },
            (6, CaptureEvent::Exited(r)) => match r {
                Err(e) => self.report(one_line(e), 1),
                Ok(code) => if code != 0 {
                    let none: Vec<String> = Vec::new();
                    assert(views(none@) =~= Seq::<Seq<char>>::empty());
                    self.report(none, code)
                } else {
                    self.stage = 7;
                    CaptureAction::ReadResult
                },
            },
            (7, CaptureEvent::ResultRead(bytes, now)) => match bytes {
                None => self.report(
                    one_line(
                        owned(
                            "No lookup data was returned. The environment may be missing the cliogate helper (clio install-gate), or the query was rejected.",
                        ),
                    ),
                    1,
                ),
                Some(b) => match read_table(b.as_slice()) {
                    Err(e) => self.report(one_line(e), 1),
                    Ok((columns, data)) => {
                        let s = build_snapshot_at(self.env.as_str(), self.infos.as_slice(), &columns, &data, now);
                        proof {
                            assert(csv_view(Ok::<(Vec<String>, Vec<Vec<String>>), String>((columns, data))) == Ok::<
                                (Seq<Seq<char>>, Seq<Seq<Seq<char>>>),
                                Seq<char>,
                            >((views(columns@), table_view(data@))));
                        }
                        let lookups = s.lookups().len();
                        let values = value_count(&s);
                        self.lookups = lookups;
                        self.values = values;
                        self.stage = 8;
                        CaptureAction::SaveSnapshot(s)
                    },
                },
            },
            (8, CaptureEvent::NotSerialized(e)) => self.report(one_line(prefixed("Could not serialize: ", e)), 1),
            (8, CaptureEvent::SnapshotWritten(r)) => match r {
                Err(e) => self.report(one_line(prefixed("Could not write the snapshot: ", e)), 1),
                Ok(()) => {
                    self.stage = 9;
                    CaptureAction::RecordDuration
                },
            },
            (9, CaptureEvent::Ready) => {
                let mut line = owned("Captured ");
                let n = decimal_usize(self.lookups);
                line.append(n.as_str());
                line.append(" lookups (");
                let v = decimal_usize(self.values);
                line.append(v.as_str());
                line.append(" values). This snapshot holds lookup data — delete it from the Compare screen when done.");
                self.report(one_line(line), 0)
            },
            _ => {
                let none: Vec<String> = Vec::new();
                assert(views(none@) =~= Seq::<Seq<char>>::empty());
                self.report(none, 1)
            },
        }
    }
}

} // verus!
