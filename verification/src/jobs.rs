//! Tracked background jobs: their lifecycle, their logs and their history.
//!
//! A job is `queued`, then `running` (or `cancelled` before it starts),
//! possibly `cancelling`, and ends `succeeded`, `failed` or `cancelled`. Each
//! phase says whether cancelling is safe. The state here is what the job list
//! shows; the caller runs the processes, holds the per-environment locks and
//! stores the history, and feeds back what happened.
use vstd::prelude::*;
use crate::assoc::{get, lemma_get_upsert, spec_get, spec_upsert, upsert};
use crate::diagnostics::{
    diagnose_log, failure_despite_zero_exit, log_tail, opt_diagnosis_view, spec_diagnose,
    spec_failure_despite_zero_exit, Diagnosis, DiagnosisView,
};
use crate::text::{
    chars_apart, decimal, join, lemma_replace_occurrence, occurs_at, owned, replace, spec_decimal, spec_join,
    spec_replace, str_eq, views,
};

verus! {

/// One job as the job list shows it.
#[derive(Clone, Debug, PartialEq)]
pub struct JobInfo {
    pub id: String,
    pub kind: String,
    pub env: Option<String>,
    /// The full command line with secret values masked: safe to show and log.
    pub display_command: String,
    /// `queued`, `running`, `cancelling`, `cancelled`, `succeeded` or `failed`.
    pub status: String,
    pub phase: String,
    pub cancellable: bool,
    pub cancel_requested: bool,
    pub started_at: u64,
    pub finished_at: Option<u64>,
    pub exit_code: Option<i32>,
    /// Cause and resolution of a failure the log was recognized by.
    pub diagnosis: Option<Diagnosis>,
    /// Background work the user did not start: listed, but never notified.
    pub quiet: bool,
}

pub struct JobInfoView {
    pub id: Seq<char>,
    pub kind: Seq<char>,
    pub env: Option<Seq<char>>,
    pub display_command: Seq<char>,
    pub status: Seq<char>,
    pub phase: Seq<char>,
    pub cancellable: bool,
    pub cancel_requested: bool,
    pub started_at: u64,
    pub finished_at: Option<u64>,
    pub exit_code: Option<i32>,
    pub diagnosis: Option<DiagnosisView>,
    pub quiet: bool,
}

impl View for JobInfo {
    type V = JobInfoView;

    open spec fn view(&self) -> JobInfoView {
        JobInfoView {
            id: self.id@,
            kind: self.kind@,
            env: match self.env {
                Some(e) => Some(e@),
                None => None,
            },
            display_command: self.display_command@,
            status: self.status@,
            phase: self.phase@,
            cancellable: self.cancellable,
            cancel_requested: self.cancel_requested,
            started_at: self.started_at,
            finished_at: self.finished_at,
            exit_code: self.exit_code,
            diagnosis: opt_diagnosis_view(self.diagnosis),
            quiet: self.quiet,
        }
    }
}

pub open spec fn jobs_view(v: Seq<JobInfo>) -> Seq<JobInfoView> {
    v.map_values(|j: JobInfo| j@)
}

/// One line of a job's log, as it is streamed to the window.
#[derive(Clone, Debug, PartialEq, Eq)]
pub struct JobLogLine {
    pub id: String,
    pub line: String,
}

/// A status a job never leaves.
pub open spec fn is_terminal(status: Seq<char>) -> bool {
    status == "succeeded"@ || status == "failed"@ || status == "cancelled"@
}

pub fn is_finished_status(status: &str) -> (b: bool)
    ensures
        b == is_terminal(status@),
{
    str_eq(status, "succeeded") || str_eq(status, "failed") || str_eq(status, "cancelled")
}

/// The current time in milliseconds since the Unix epoch.
///
/// Trusted: reads `SystemTime::now()`; nothing is promised of the value.
#[verifier::external_body]
pub fn now_ms() -> u64 {
    std::time::SystemTime::now().duration_since(std::time::UNIX_EPOCH).unwrap_or_default().as_millis() as u64
}

// ------------------------------------------------------ command display

/// Options whose following value is a secret.
pub open spec fn is_secret_flag(a: Seq<char>) -> bool {
    a == "-p"@ || a == "--Password"@ || a == "--password"@ || a == "--ClientSecret"@
}

fn secret_flag(a: &str) -> (b: bool)
    ensures
        b == is_secret_flag(a@),
{
    str_eq(a, "-p") || str_eq(a, "--Password") || str_eq(a, "--password") || str_eq(a, "--ClientSecret")
}

/// The arguments as shown, with the value after each secret flag replaced by
/// `•••` (a masked value is not itself read as a flag), and whether the next
/// argument would be masked.
pub open spec fn masking(args: Seq<Seq<char>>) -> (Seq<Seq<char>>, bool)
    decreases args.len(),
{
    if args.len() == 0 {
        (seq![], false)
    } else {
        let (shown, mask) = masking(args.drop_last());
        if mask {
            (shown.push("•••"@), false)
        } else {
            (shown.push(args.last()), is_secret_flag(args.last()))
        }
    }
}

pub open spec fn spec_display_command(program: Seq<char>, args: Seq<Seq<char>>) -> Seq<char> {
    spec_join(seq![program] + masking(args).0, " "@)
}

/// The full invocation with secret values masked: safe to display and log.
pub fn display_command(program: &str, args: &Vec<String>) -> (r: String)
    ensures
        r@ == spec_display_command(program@, views(args@)),
{
    let ghost av = views(args@);
    let mut parts: Vec<String> = vec![owned(program)];
    let mut mask_next = false;
    let mut i: usize = 0;
    assert(views(parts@) =~= seq![program@] + masking(av.take(0)).0);
    while i < args.len()
        invariant
            i <= args.len(),
            av == views(args@),
            views(parts@) == seq![program@] + masking(av.take(i as int)).0,
            mask_next == masking(av.take(i as int)).1,
        decreases args.len() - i,
    {
        proof {
            assert(av.take(i + 1).drop_last() =~= av.take(i as int));
            assert(av.take(i + 1).last() == args@[i as int]@);
        }
        let ghost before = views(parts@);
        if mask_next {
            parts.push(owned("•••"));
            mask_next = false;
            assert(views(parts@) =~= before.push("•••"@));
        } else {
            mask_next = secret_flag(args[i].as_str());
            parts.push(args[i].clone());
            assert(views(parts@) =~= before.push(args@[i as int]@));
        }
        i = i + 1;
    }
    assert(av.take(args.len() as int) =~= av);
    join(&parts, " ")
}

/// The values following secret flags (a value is not itself read as a flag).
pub open spec fn taking(args: Seq<Seq<char>>) -> (Seq<Seq<char>>, bool)
    decreases args.len(),
{
    if args.len() == 0 {
        (seq![], false)
    } else {
        let (secrets, take) = taking(args.drop_last());
        if take {
            (secrets.push(args.last()), false)
        } else {
            (secrets, is_secret_flag(args.last()))
        }
    }
}

pub fn secret_values(args: &Vec<String>) -> (secrets: Vec<String>)
    ensures
        views(secrets@) == taking(views(args@)).0,
{
    let ghost av = views(args@);
    let mut secrets: Vec<String> = Vec::new();
    let mut take_next = false;
    let mut i: usize = 0;
    assert(views(secrets@) =~= taking(av.take(0)).0);
    while i < args.len()
        invariant
            i <= args.len(),
            av == views(args@),
            views(secrets@) == taking(av.take(i as int)).0,
            take_next == taking(av.take(i as int)).1,
        decreases args.len() - i,
    {
        proof {
            assert(av.take(i + 1).drop_last() =~= av.take(i as int));
            assert(av.take(i + 1).last() == args@[i as int]@);
        }
        if take_next {
            let ghost before = views(secrets@);
            secrets.push(args[i].clone());
            take_next = false;
            assert(views(secrets@) =~= before.push(args@[i as int]@));
        } else {
            take_next = secret_flag(args[i].as_str());
        }
        i = i + 1;
    }
    assert(av.take(args.len() as int) =~= av);
    secrets
}

/// A log line with every non-empty secret replaced by `•••`, in order.
pub open spec fn spec_scrub(line: Seq<char>, secrets: Seq<Seq<char>>) -> Seq<char>
    decreases secrets.len(),
{
    if secrets.len() == 0 {
        line
    } else {
        let before = spec_scrub(line, secrets.drop_last());
        if secrets.last().len() == 0 {
            before
        } else {
            spec_replace(before, secrets.last(), "•••"@)
        }
    }
}

pub fn scrub(line: &str, secrets: &Vec<String>) -> (r: String)
    ensures
        r@ == spec_scrub(line@, views(secrets@)),
{
    let ghost sv = views(secrets@);
    let mut out = owned(line);
    let mut i: usize = 0;
    while i < secrets.len()
        invariant
            i <= secrets.len(),
            sv == views(secrets@),
            out@ == spec_scrub(line@, sv.take(i as int)),
        decreases secrets.len() - i,
    {
        proof {
            assert(sv.take(i + 1).drop_last() =~= sv.take(i as int));
            assert(sv.take(i + 1).last() == secrets@[i as int]@);
        }
        if secrets[i].as_str().unicode_len() > 0 {
            out = replace(out.as_str(), secrets[i].as_str(), "•••");
        }
        i = i + 1;
    }
    assert(sv.take(secrets.len() as int) =~= sv);
    out
}

/// Secrets are masked in logs: after `scrub`, no non-empty secret that holds
/// no `•` occurs anywhere in the line, whatever the line and the other
/// secrets.
pub proof fn lemma_scrub_hides_secrets(line: Seq<char>, secrets: Seq<Seq<char>>, k: int, i: int)
    requires
        0 <= k < secrets.len(),
        secrets[k].len() > 0,
        chars_apart(secrets[k], "•••"@),
    ensures
        !occurs_at(spec_scrub(line, secrets), secrets[k], i),
    decreases secrets.len(),
{
    reveal_strlit("•••");
    let q = secrets[k];
    let before = spec_scrub(line, secrets.drop_last());
    if secrets.last().len() == 0 {
        if k < secrets.len() - 1 {
            assert(secrets.drop_last()[k] == q);
            lemma_scrub_hides_secrets(line, secrets.drop_last(), k, i);
        }
    } else if occurs_at(spec_scrub(line, secrets), q, i) {
        lemma_replace_occurrence(before, secrets.last(), "•••"@, q, i);
        if k < secrets.len() - 1 {
            let j = choose|j: int| occurs_at(before, q, j);
            assert(secrets.drop_last()[k] == q);
            lemma_scrub_hides_secrets(line, secrets.drop_last(), k, j);
        }
    }
}

/// Secret arguments are masked in the displayed command: every argument is
/// shown as typed, except each value that `secret_values` collects, which is
/// shown as `•••`.
pub proof fn lemma_display_masks_collected_secrets(args: Seq<Seq<char>>)
    ensures
        masking(args).0.len() == args.len(),
        masking(args).1 == taking(args).1,
        forall|k: int|
            0 <= k < args.len() ==> if #[trigger] taking(args.take(k)).1 {
                masking(args).0[k] == "•••"@ && taking(args.take(k + 1)).0.last() == args[k]
            } else {
                masking(args).0[k] == args[k]
            },
    decreases args.len(),
{
    if args.len() > 0 {
        let d = args.drop_last();
        lemma_display_masks_collected_secrets(d);
        assert(args.take(args.len() - 1) =~= d);
        assert(args.take(args.len() as int) =~= args);
        assert forall|k: int|
            0 <= k < args.len() implies if #[trigger] taking(args.take(k)).1 {
                masking(args).0[k] == "•••"@ && taking(args.take(k + 1)).0.last() == args[k]
            } else {
                masking(args).0[k] == args[k]
            } by {
            if k < args.len() - 1 {
                assert(args.take(k) =~= d.take(k));
                assert(args.take(k + 1) =~= d.take(k + 1));
                assert(masking(args).0[k] == masking(d).0[k]);
            }
        }
    }
}

/// The phase a `clio` job runs in, and whether it may be cancelled there:
/// only a few read-only commands can be stopped.
pub open spec fn spec_clio_job_phase(kind: Seq<char>) -> (Seq<char>, bool) {
    (
        if kind == "install-gate"@ {
            "installing cliogate"@
        } else {
            "running clio command"@
        },
        kind == "ping-app"@ || kind == "open-web-app"@ || kind == "reg-web-app"@,
    )
}

pub fn clio_job_phase(kind: &str) -> (r: (&'static str, bool))
    ensures
        (r.0@, r.1) == spec_clio_job_phase(kind@),
{
    let cancellable = str_eq(kind, "ping-app") || str_eq(kind, "open-web-app") || str_eq(kind, "reg-web-app");
    if str_eq(kind, "install-gate") {
        ("installing cliogate", cancellable)
    } else {
        ("running clio command", cancellable)
    }
}

// ------------------------------------------------------------ the store

/// How many finished jobs the history keeps.
pub const MAX_HISTORY: usize = 200;

/// The persistent job history: `history.json` (newest first, capped) and one
/// log file per finished job, under `dir`.
#[derive(Clone, Debug, PartialEq, Eq)]
pub struct JobStore {
    pub dir: String,
}

/// A job as loaded from the history: anything recorded as still active was
/// orphaned when DevHub closed, and becomes a failed, interrupted job.
pub open spec fn restored(j: JobInfoView) -> JobInfoView {
    if is_terminal(j.status) {
        j
    } else {
        JobInfoView {
            status: "failed"@,
            phase: "interrupted — DevHub closed while the job was active"@,
            cancellable: false,
            cancel_requested: false,
            finished_at: match j.finished_at {
                Some(t) => Some(t),
                None => Some(j.started_at),
            },
            ..j
        }
    }
}

impl JobStore {
    pub fn new(dir: String) -> (s: Self)
        ensures
            s.dir@ == dir@,
    {
        JobStore { dir }
    }

    /// The loaded history with orphaned jobs marked interrupted.
    pub fn restore(list: Vec<JobInfo>) -> (out: Vec<JobInfo>)
        ensures
            jobs_view(out@) == jobs_view(list@).map_values(|j: JobInfoView| restored(j)),
    {
        let ghost lv = jobs_view(list@);
        let mut rest = list;
        let total: usize = rest.len();
        let mut reversed: Vec<JobInfo> = Vec::new();
        proof {
            assert(lv.take(lv.len() as int) =~= lv);
        }
        while rest.len() > 0
            invariant
                lv.len() == rest.len() + reversed.len(),
                lv.len() == total,
                jobs_view(rest@) == lv.take(rest.len() as int),
                forall|k: int| 0 <= k < reversed.len() ==> (#[trigger] reversed@[k])@ == lv[lv.len() - 1 - k],
            decreases rest.len(),
        {
            let ghost before = rest@;
            let x = rest.pop().unwrap();
            proof {
                assert(jobs_view(before)[before.len() - 1] == x@);
            }
            reversed.push(x);
            assert(jobs_view(rest@) =~= lv.take(rest.len() as int));
        }
        let mut out: Vec<JobInfo> = Vec::new();
        let mut taken: usize = 0;
        while reversed.len() > 0
            invariant
                taken + reversed.len() == lv.len(),
                lv.len() == total,
                forall|k: int| 0 <= k < reversed.len() ==> (#[trigger] reversed@[k])@ == lv[lv.len() - 1 - k],
                jobs_view(out@) == lv.take(taken as int).map_values(|j: JobInfoView| restored(j)),
            decreases reversed.len(),
        {
            let mut j = reversed.pop().unwrap();
            proof {
                assert(j@ == lv[taken as int]);
            }
            if !is_finished_status(j.status.as_str()) {
                j.status = owned("failed");
                j.phase = owned("interrupted — DevHub closed while the job was active");
                j.cancellable = false;
                j.cancel_requested = false;
                if j.finished_at.is_none() {
                    j.finished_at = Some(j.started_at);
                }
            }
            let ghost before = jobs_view(out@);
            let ghost jv = j@;
            out.push(j);
            assert(jobs_view(out@) =~= before.push(jv));
            taken = taken + 1;
            assert(jobs_view(out@) =~= lv.take(taken as int).map_values(|j: JobInfoView| restored(j)));
        }
        assert(lv.take(lv.len() as int) =~= lv);
        out
    }

    /// How many of `jobs` (newest first) the history keeps, and the ids of
    /// the rest, whose log files are deleted.
    pub fn pruned(jobs: &Vec<JobInfo>) -> (r: (usize, Vec<String>))
        ensures
            r.0 as int == (if jobs.len() < MAX_HISTORY {
                jobs.len() as int
            } else {
                MAX_HISTORY as int
            }),
            views(r.1@) == jobs_view(jobs@).skip(r.0 as int).map_values(|j: JobInfoView| j.id),
    {
        let keep = if jobs.len() < MAX_HISTORY {
            jobs.len()
        } else {
            MAX_HISTORY
        };
        let mut ids: Vec<String> = Vec::new();
        let mut i = keep;
        while i < jobs.len()
            invariant
                keep <= i <= jobs.len(),
                views(ids@) == jobs_view(jobs@).subrange(keep as int, i as int).map_values(|j: JobInfoView| j.id),
            decreases jobs.len() - i,
        {
            let ghost before = views(ids@);
            let x = jobs[i].id.clone();
            let ghost xv = x@;
            ids.push(x);
            proof {
                let jv = jobs_view(jobs@);
                assert(jv[i as int] == jobs@[i as int]@);
                assert(views(ids@) =~= before.push(xv));
                assert(jv.subrange(keep as int, i + 1) =~= jv.subrange(keep as int, i as int).push(jv[i as int]));
                assert(jv.subrange(keep as int, i + 1).map_values(|j: JobInfoView| j.id) =~= jv.subrange(
                    keep as int,
                    i as int,
                ).map_values(|j: JobInfoView| j.id).push(xv));
            }
            i = i + 1;
        }
        assert(jobs_view(jobs@).subrange(keep as int, jobs.len() as int) =~= jobs_view(jobs@).skip(keep as int));
        (keep, ids)
    }
}

/// Restoring leaves no job active, keeps finished jobs as they were, and
/// restoring twice is restoring once.
pub proof fn lemma_restore_settles(j: JobInfoView)
    ensures
        is_terminal(restored(j).status),
        is_terminal(j.status) ==> restored(j) == j,
        restored(restored(j)) == restored(j),
{
}

// -------------------------------------------------------------- the state

/// Index of the first job with `id`, or -1.
pub open spec fn job_index(jobs: Seq<JobInfoView>, id: Seq<char>) -> int
    decreases jobs.len(),
{
    if jobs.len() == 0 {
        -1
    } else if jobs[0].id == id {
        0
    } else {
        let r = job_index(jobs.drop_first(), id);
        if r < 0 {
            -1
        } else {
            r + 1
        }
    }
}

proof fn lemma_job_index(jobs: Seq<JobInfoView>, id: Seq<char>)
    ensures
        job_index(jobs, id) < jobs.len(),
        job_index(jobs, id) >= 0 ==> jobs[job_index(jobs, id)].id == id,
    decreases jobs.len(),
{
    if jobs.len() > 0 && jobs[0].id != id {
        lemma_job_index(jobs.drop_first(), id);
    }
}

/// Changing a job in place, its id kept, moves no job.
proof fn lemma_job_index_update(jobs: Seq<JobInfoView>, k: int, x: JobInfoView, id: Seq<char>)
    requires
        0 <= k < jobs.len(),
        x.id == jobs[k].id,
    ensures
        job_index(jobs.update(k, x), id) == job_index(jobs, id),
    decreases jobs.len(),
{
    if k > 0 {
        assert(jobs.update(k, x).drop_first() =~= jobs.drop_first().update(k - 1, x));
        lemma_job_index_update(jobs.drop_first(), k - 1, x, id);
    } else {
        assert(jobs.update(k, x).drop_first() =~= jobs.drop_first());
    }
}

/// Phases that cannot be stopped safely stay unstoppable: once a job has
/// entered such a phase (`set_phase` with `cancellable` false went ahead),
/// `cancel_job` refuses, naming that phase while the job runs.
pub proof fn lemma_unsafe_phase_refuses_cancel(jobs: Seq<JobInfoView>, id: Seq<char>, phase: Seq<char>)
    requires
        job_index(jobs, id) >= 0,
        !jobs[job_index(jobs, id)].cancel_requested,
    ensures
        ({
            let k = job_index(jobs, id);
            let after = jobs.update(k, JobInfoView { phase, cancellable: false, ..jobs[k] });
            &&& spec_cancel_refusal(after, id) is Some
            &&& !is_terminal(jobs[k].status) ==> spec_cancel_refusal(after, id) == Some(
                "This job cannot be stopped safely during the '"@ + phase + "' phase."@,
            )
        }),
{
    let k = job_index(jobs, id);
    lemma_job_index(jobs, id);
    let x = JobInfoView { phase, cancellable: false, ..jobs[k] };
    lemma_job_index_update(jobs, k, x, id);
    assert(jobs.update(k, x)[k] == x);
}

/// The lines logged for a job (none when it has no log).
pub open spec fn log_lines(logs: Seq<(String, Vec<String>)>, id: Seq<char>) -> Seq<Seq<char>> {
    match spec_get(logs, id) {
        Some(v) => views(v@),
        None => seq![],
    }
}

/// The jobs of this run and of the loaded history, newest first, with their
/// logs, the environments that have a lock, and the process of each running
/// job.
pub struct JobState {
    jobs: Vec<JobInfo>,
    logs: Vec<(String, Vec<String>)>,
    env_locks: Vec<String>,
    process_ids: Vec<(String, Option<u32>)>,
}

/// A job entering its running phase.
pub open spec fn started(j: JobInfoView, phase: Seq<char>, cancellable: bool) -> JobInfoView {
    JobInfoView { status: "running"@, phase, cancellable, ..j }
}

/// A job cancelled before it started.
pub open spec fn cancelled_before_start(j: JobInfoView, now: u64) -> JobInfoView {
    JobInfoView {
        status: "cancelled"@,
        phase: "cancelled before start"@,
        cancellable: false,
        finished_at: Some(now),
        ..j
    }
}

/// A finished job: `cancelled` when a cancel was requested, else `failed` or
/// `succeeded`.
pub open spec fn finished(j: JobInfoView, code: Option<i32>, diagnosis: Option<DiagnosisView>, failed: bool, now: u64) -> JobInfoView {
    JobInfoView {
        diagnosis,
        exit_code: code,
        finished_at: Some(now),
        cancellable: false,
        status: if j.cancel_requested {
            "cancelled"@
        } else if failed {
            "failed"@
        } else {
            "succeeded"@
        },
        phase: if j.cancel_requested {
            "cancelled"@
        } else if failed {
            "failed"@
        } else {
            "completed"@
        },
        ..j
    }
}

/// A running job asked to stop.
pub open spec fn cancel_requested_of(j: JobInfoView, now: u64) -> JobInfoView {
    if j.status == "queued"@ {
        JobInfoView {
            cancel_requested: true,
            status: "cancelled"@,
            phase: "cancelled before start"@,
            cancellable: false,
            finished_at: Some(now),
            ..j
        }
    } else {
        JobInfoView { cancel_requested: true, status: "cancelling"@, phase: "stopping "@ + j.phase, ..j }
    }
}

/// Why a cancel request is refused.
pub open spec fn spec_cancel_refusal(jobs: Seq<JobInfoView>, id: Seq<char>) -> Option<Seq<char>> {
    let k = job_index(jobs, id);
    if k < 0 {
        Some("Job not found."@)
    } else if is_terminal(jobs[k].status) {
        Some("This job has already finished."@)
    } else if !jobs[k].cancellable {
        Some("This job cannot be stopped safely during the '"@ + jobs[k].phase + "' phase."@)
    } else {
        None
    }
}

/// The line logged when a zero exit is overruled by the log.
pub open spec fn spec_zero_exit_notice() -> Seq<char> {
    "[DevHub] The tool exited 0, but its output reports a server error — this job is marked failed. Verify the target environment before retrying."@
}

/// The line logged when a job is asked to stop.
pub open spec fn spec_cancel_notice() -> Seq<char> {
    "Cancellation requested. Stopping the local process tree…"@
}

/// What `finish` concludes: the diagnosis recorded, and whether the job
/// failed. A zero exit is failed only when its log reports a server error
/// behind it (exit codes lie: clio can end with 0 after Creatio answered
/// HTTP 500); any other outcome failed, explained by the end of its log when
/// that is recognized.
pub open spec fn spec_verdict(code: Option<i32>, lines: Option<Seq<Seq<char>>>) -> (Option<DiagnosisView>, bool) {
    if code == Some(0i32) {
        let d = match lines {
            Some(l) => spec_failure_despite_zero_exit(l),
            None => None,
        };
        (d, d is Some)
    } else {
        (
            match lines {
                Some(l) => spec_diagnose(spec_join(log_tail(l), "\n"@)),
                None => None,
            },
            true,
        )
    }
}

fn copy_lines(v: &Vec<String>) -> (c: Vec<String>)
    ensures
        views(c@) == views(v@),
{
    let mut c: Vec<String> = Vec::new();
    let mut i: usize = 0;
    while i < v.len()
        invariant
            i <= v.len(),
            views(c@) == views(v@).take(i as int),
        decreases v.len() - i,
    {
        let ghost before = views(c@);
        let x = v[i].clone();
        let ghost xv = x@;
        c.push(x);
        proof {
            assert(views(v@)[i as int] == v@[i as int]@);
            assert(views(c@) =~= before.push(xv));
            assert(views(v@).take(i + 1) =~= views(v@).take(i as int).push(xv));
        }
        i = i + 1;
    }
    assert(views(v@).take(v.len() as int) =~= views(v@));
    c
}

impl JobState {
    pub closed spec fn spec_jobs(self) -> Seq<JobInfoView> {
        jobs_view(self.jobs@)
    }

    pub closed spec fn spec_logs(self) -> Seq<(String, Vec<String>)> {
        self.logs@
    }

    pub closed spec fn spec_lines(self, id: Seq<char>) -> Seq<Seq<char>> {
        log_lines(self.logs@, id)
    }

    pub closed spec fn spec_env_locks(self) -> Seq<Seq<char>> {
        views(self.env_locks@)
    }

    pub closed spec fn spec_process(self, id: Seq<char>) -> Option<u32> {
        match spec_get(self.process_ids@, id) {
            Some(p) => p,
            None => None,
        }
    }

    pub fn new() -> (s: Self)
        ensures
            s.spec_jobs() == Seq::<JobInfoView>::empty(),
            forall|id: Seq<char>| #[trigger] s.spec_lines(id) == Seq::<Seq<char>>::empty(),
            s.spec_env_locks() == Seq::<Seq<char>>::empty(),
            forall|id: Seq<char>| #[trigger] s.spec_process(id) is None,
    {
        let s = JobState { jobs: Vec::new(), logs: Vec::new(), env_locks: Vec::new(), process_ids: Vec::new() };
        assert(s.spec_jobs() =~= Seq::<JobInfoView>::empty());
        assert(s.spec_env_locks() =~= Seq::<Seq<char>>::empty());
        s
    }

    /// The jobs, newest first.
    pub fn jobs(&self) -> (r: &Vec<JobInfo>)
        ensures
            jobs_view(r@) == self.spec_jobs(),
    {
        &self.jobs
    }

    fn find(&self, id: &str) -> (r: Option<usize>)
        ensures
            match r {
                Some(k) => job_index(self.spec_jobs(), id@) == k && k < self.jobs.len(),
                None => job_index(self.spec_jobs(), id@) < 0,
            },
    {
        let ghost jv = jobs_view(self.jobs@);
        let mut i: usize = 0;
        proof {
            assert(jv.skip(0) =~= jv);
        }
        while i < self.jobs.len()
            invariant
                i <= self.jobs.len(),
                jv == jobs_view(self.jobs@),
                job_index(jv, id@) == (if job_index(jv.skip(i as int), id@) < 0 {
                    -1
                } else {
                    job_index(jv.skip(i as int), id@) + i
                }),
            decreases self.jobs.len() - i,
        {
            proof {
                assert(jv.skip(i as int)[0] == self.jobs@[i as int]@);
                assert(jv.skip(i as int).drop_first() =~= jv.skip(i + 1));
            }
            if str_eq(self.jobs[i].id.as_str(), id) {
                return Some(i);
            }
            i = i + 1;
        }
        proof {
            assert(jv.skip(i as int) =~= Seq::<JobInfoView>::empty());
        }
        None
    }

    /// Attach the loaded history: its jobs follow this run's, orphaned ones
    /// marked interrupted.
    pub fn init_persistence(&mut self, loaded: Vec<JobInfo>)
        ensures
            final(self).spec_jobs() == old(self).spec_jobs() + jobs_view(loaded@).map_values(
                |j: JobInfoView| restored(j),
            ),
            forall|id: Seq<char>| #[trigger] final(self).spec_lines(id) == old(self).spec_lines(id),
            final(self).spec_env_locks() == old(self).spec_env_locks(),
    {
        let mut restored_jobs = JobStore::restore(loaded);
        let ghost before = jobs_view(self.jobs@);
        let ghost added = restored_jobs@;
        self.jobs.append(&mut restored_jobs);
        assert(jobs_view(self.jobs@) =~= before + jobs_view(added));
    }

    /// The lock key of an environment (`_global` for work on no
    /// environment), registered on first use: jobs against the same
    /// environment run one at a time.
    pub fn env_lock(&mut self, env: Option<&str>) -> (key: String)
        ensures
            key@ == match env {
                Some(e) => e@,
                None => "_global"@,
            },
            final(self).spec_env_locks().contains(key@),
            forall|e: Seq<char>| final(self).spec_env_locks().contains(e) <==> (old(self).spec_env_locks().contains(e) || e == key@),
            final(self).spec_jobs() == old(self).spec_jobs(),
            forall|id: Seq<char>| #[trigger] final(self).spec_lines(id) == old(self).spec_lines(id),
    {
        let key = match env {
            Some(e) => owned(e),
            None => owned("_global"),
        };
        let found = crate::text::position(&self.env_locks, key.as_str());
        proof {
            crate::text::lemma_position_found(views(self.env_locks@), key@);
        }
        if found.is_none() {
            let ghost before = views(self.env_locks@);
            self.env_locks.push(key.clone());
            proof {
                assert(views(self.env_locks@) =~= before.push(key@));
                assert forall|e: Seq<char>| views(self.env_locks@).contains(e) <==> (before.contains(e) || e == key@) by {
                    if views(self.env_locks@).contains(e) {
                        let q = choose|q: int| 0 <= q < views(self.env_locks@).len() && views(self.env_locks@)[q] == e;
                        if q < before.len() {
                            assert(before[q] == e);
                        }
                    }
                    if before.contains(e) {
                        let q = choose|q: int| 0 <= q < before.len() && before[q] == e;
                        assert(views(self.env_locks@)[q] == e);
                    }
                    if e == key@ {
                        assert(views(self.env_locks@)[before.len() as int] == e);
                    }
                }
            }
        }
        key
    }

    /// Record a new job, newest first, with an empty log, and return its id
    /// (`{now}-{kind}`).
    pub fn create_job_at(&mut self, kind: &str, env: Option<String>, display: String, quiet: bool, now: u64) -> (id: String)
        ensures
            id@ == spec_decimal(now as nat) + "-"@ + kind@,
            final(self).spec_jobs() == seq![
                JobInfoView {
                    id: id@,
                    kind: kind@,
                    env: match env {
                        Some(e) => Some(e@),
                        None => None,
                    },
                    display_command: display@,
                    status: "queued"@,
                    phase: "waiting"@,
                    cancellable: true,
                    cancel_requested: false,
                    started_at: now,
                    finished_at: None,
                    exit_code: None,
                    diagnosis: None,
                    quiet,
                },
            ] + old(self).spec_jobs(),
            forall|q: Seq<char>| #[trigger] final(self).spec_lines(q) == (if q == id@ {
                Seq::<Seq<char>>::empty()
            } else {
                old(self).spec_lines(q)
            }),
            final(self).spec_env_locks() == old(self).spec_env_locks(),
    {
        let mut id = decimal(now);
        id.append("-");
        id.append(kind);
        let job = JobInfo {
            quiet,
            id: id.clone(),
            kind: owned(kind),
            env,
            display_command: display,
            status: owned("queued"),
            phase: owned("waiting"),
            cancellable: true,
            cancel_requested: false,
            started_at: now,
            finished_at: None,
            exit_code: None,
            diagnosis: None,
        };
        let ghost before = jobs_view(self.jobs@);
        let ghost jv = job@;
        self.jobs.insert(0, job);
        assert(jobs_view(self.jobs@) =~= seq![jv] + before);
        let ghost logs_before = self.logs@;
        let fresh: Vec<String> = Vec::new();
        let ghost fv = fresh;
        let key = id.clone();
        let ghost kv = key;
        upsert(&mut self.logs, key, fresh);
        proof {
            assert forall|q: Seq<char>| #[trigger] log_lines(self.logs@, q) == (if q == id@ {
                Seq::<Seq<char>>::empty()
            } else {
                log_lines(logs_before, q)
            }) by {
                lemma_get_upsert(logs_before, kv, fv, q);
                if q == id@ {
                    assert(views(fv@) =~= Seq::<Seq<char>>::empty());
                }
            }
        }
        id
    }

    /// Record a new job started now.
    pub fn create_job_with(&mut self, kind: &str, env: Option<String>, display: String, quiet: bool) -> (id: String)
        ensures
            final(self).spec_jobs().len() == old(self).spec_jobs().len() + 1,
            final(self).spec_jobs().skip(1) == old(self).spec_jobs(),
            final(self).spec_jobs()[0].id == id@,
            final(self).spec_jobs()[0].status == "queued"@,
            final(self).spec_jobs()[0].kind == kind@,
            final(self).spec_jobs()[0].quiet == quiet,
            final(self).spec_lines(id@) == Seq::<Seq<char>>::empty(),
    {
        let now = now_ms();
        let id = self.create_job_at(kind, env, display, quiet, now);
        assert(self.spec_jobs().skip(1) =~= old(self).spec_jobs());
        id
    }

    /// A job the user started.
    pub fn create_job(&mut self, kind: &str, env: Option<String>, display: String) -> (id: String)
        ensures
            final(self).spec_jobs().len() == old(self).spec_jobs().len() + 1,
            final(self).spec_jobs().skip(1) == old(self).spec_jobs(),
            final(self).spec_jobs()[0].id == id@,
            final(self).spec_jobs()[0].status == "queued"@,
            final(self).spec_jobs()[0].quiet == false,
    {
        self.create_job_with(kind, env, display, false)
    }

    /// Append a line to a job's log.
    pub fn log(&mut self, id: &str, line: String)
        ensures
            forall|q: Seq<char>| #[trigger] final(self).spec_lines(q) == (if q == id@ {
                old(self).spec_lines(id@).push(line@)
            } else {
                old(self).spec_lines(q)
            }),
            final(self).spec_jobs() == old(self).spec_jobs(),
            final(self).spec_env_locks() == old(self).spec_env_locks(),
    {
        let mut lines = match get(&self.logs, id) {
            Some(v) => copy_lines(v),
            None => Vec::new(),
        };
        let ghost before_lines = views(lines@);
        assert(before_lines == log_lines(self.logs@, id@)) by {
            if spec_get(self.logs@, id@) is None {
                assert(views(lines@) =~= Seq::<Seq<char>>::empty());
            }
        }
        let ghost lv = line@;
        lines.push(line);
        assert(views(lines@) =~= before_lines.push(lv));
        let ghost logs_before = self.logs@;
        let key = owned(id);
        let ghost lines_value = lines;
        upsert(&mut self.logs, key, lines);
        proof {
            assert forall|q: Seq<char>| #[trigger] log_lines(self.logs@, q) == (if q == id@ {
                log_lines(logs_before, id@).push(lv)
            } else {
                log_lines(logs_before, q)
            }) by {
                lemma_get_upsert(logs_before, key, lines_value, q);
            }
        }
    }

    /// Enter the running phase, unless a cancel came first: then the job is
    /// cancelled before it started and `false` is returned (as for an unknown
    /// job).
    pub fn mark_running_phase(&mut self, id: &str, phase: &str, cancellable: bool, now: u64) -> (go: bool)
        ensures
            ({
                let k = job_index(old(self).spec_jobs(), id@);
                if k < 0 {
                    !go && final(self).spec_jobs() == old(self).spec_jobs()
                } else {
                    let j = old(self).spec_jobs()[k];
                    if j.cancel_requested || j.status == "cancelled"@ {
                        !go && final(self).spec_jobs() == old(self).spec_jobs().update(k, cancelled_before_start(j, now))
                    } else {
                        go && final(self).spec_jobs() == old(self).spec_jobs().update(k, started(j, phase@, cancellable))
                    }
                }
            }),
            forall|q: Seq<char>| #[trigger] final(self).spec_lines(q) == old(self).spec_lines(q),
    {
        let k = match self.find(id) {
            Some(k) => k,
            None => return false,
        };
        let ghost before = jobs_view(self.jobs@);
        let mut job = self.jobs.remove(k);
        let go = if job.cancel_requested || str_eq(job.status.as_str(), "cancelled") {
            job.status = owned("cancelled");
            job.phase = owned("cancelled before start");
            job.cancellable = false;
            job.finished_at = Some(now);
            false
        } else {
            job.status = owned("running");
            job.phase = owned(phase);
            job.cancellable = cancellable;
            true
        };
        let ghost jv = job@;
        self.jobs.insert(k, job);
        assert(jobs_view(self.jobs@) =~= before.update(k as int, jv));
        go
    }

    /// Move a running job to another phase, unless a cancel was requested.
    pub fn set_phase(&mut self, id: &str, phase: &str, cancellable: bool) -> (go: bool)
        ensures
            ({
                let k = job_index(old(self).spec_jobs(), id@);
                if k < 0 || old(self).spec_jobs()[k].cancel_requested {
                    !go && final(self).spec_jobs() == old(self).spec_jobs()
                } else {
                    go && final(self).spec_jobs() == old(self).spec_jobs().update(
                        k,
                        JobInfoView { phase: phase@, cancellable, ..old(self).spec_jobs()[k] },
                    )
                }
            }),
            forall|q: Seq<char>| #[trigger] final(self).spec_lines(q) == old(self).spec_lines(q),
    {
        let k = match self.find(id) {
            Some(k) => k,
            None => return false,
        };
        if self.jobs[k].cancel_requested {
            return false;
        }
        let ghost before = jobs_view(self.jobs@);
        let mut job = self.jobs.remove(k);
        job.phase = owned(phase);
        job.cancellable = cancellable;
        let ghost jv = job@;
        self.jobs.insert(k, job);
        assert(jobs_view(self.jobs@) =~= before.update(k as int, jv));
        true
    }

    /// Whether the user asked to stop the job.
    pub fn is_cancel_requested(&self, id: &str) -> (b: bool)
        ensures
            b == (job_index(self.spec_jobs(), id@) >= 0 && self.spec_jobs()[job_index(
                self.spec_jobs(),
                id@,
            )].cancel_requested),
    {
        match self.find(id) {
            Some(k) => self.jobs[k].cancel_requested,
            None => false,
        }
    }

    /// The lines kept in memory for a job, when there are any (a job of an
    /// earlier run has its log on disk instead).
    pub fn job_log(&self, id: &str) -> (r: Option<Vec<String>>)
        ensures
            match r {
                Some(v) => views(v@) == self.spec_lines(id@) && v.len() > 0,
                None => self.spec_lines(id@).len() == 0,
            },
    {
        match get(&self.logs, id) {
            Some(v) => {
                if v.len() > 0 {
                    let c = copy_lines(v);
                    assert(c@.len() == views(c@).len());
                    Some(c)
                } else {
                    assert(views(v@).len() == 0);
                    None
                }
            },
            None => None,
        }
    }

    /// Remember the process of a running job.
    pub fn track_process(&mut self, id: String, pid: u32)
        ensures
            final(self).spec_process(id@) == Some(pid),
            forall|q: Seq<char>| q != id@ ==> #[trigger] final(self).spec_process(q) == old(self).spec_process(q),
            final(self).spec_jobs() == old(self).spec_jobs(),
            forall|q: Seq<char>| #[trigger] final(self).spec_lines(q) == old(self).spec_lines(q),
    {
        let ghost before = self.process_ids@;
        let ghost key = id;
        upsert(&mut self.process_ids, id, Some(pid));
        proof {
            assert forall|q: Seq<char>| true implies #[trigger] spec_get(self.process_ids@, q) == (if q == key@ {
                Some(Some(pid))
            } else {
                spec_get(before, q)
            }) by {
                lemma_get_upsert(before, key, Some(pid), q);
            }
        }
    }

    /// Forget the process of a job once it has exited.
    pub fn forget_process(&mut self, id: &str)
        ensures
            final(self).spec_process(id@) is None,
            forall|q: Seq<char>| q != id@ ==> #[trigger] final(self).spec_process(q) == old(self).spec_process(q),
            final(self).spec_jobs() == old(self).spec_jobs(),
            forall|q: Seq<char>| #[trigger] final(self).spec_lines(q) == old(self).spec_lines(q),
    {
        let ghost before = self.process_ids@;
        let key = owned(id);
        let ghost kv = key;
        upsert(&mut self.process_ids, key, None);
        proof {
            assert forall|q: Seq<char>| true implies #[trigger] spec_get(self.process_ids@, q) == (if q == kv@ {
                Some(None::<u32>)
            } else {
                spec_get(before, q)
            }) by {
                lemma_get_upsert(before, kv, None, q);
            }
        }
    }

    /// Record how a job ended. On a zero exit the job's log is read for a
    /// server error behind it, which fails the job with the
    /// `creatio-server-error` diagnosis and adds a notice to the log;
    /// otherwise the end of the log explains a failure when it is recognized.
    /// A job whose cancel was requested ends `cancelled`.
    pub fn finish(&mut self, id: &str, code: Option<i32>, now: u64)
        ensures
            ({
                let (diagnosis, failed) = spec_verdict(
                    code,
                    if spec_get(old(self).spec_logs(), id@) is Some {
                        Some(old(self).spec_lines(id@))
                    } else {
                        None
                    },
                );
                let k = job_index(old(self).spec_jobs(), id@);
                &&& k < 0 ==> final(self).spec_jobs() == old(self).spec_jobs()
                &&& k >= 0 ==> final(self).spec_jobs() == old(self).spec_jobs().update(
                    k,
                    finished(old(self).spec_jobs()[k], code, diagnosis, failed, now),
                )
                &&& forall|q: Seq<char>| #[trigger] final(self).spec_lines(q) == (if q == id@ && failed && code
                    == Some(0i32) {
                    old(self).spec_lines(id@).push(spec_zero_exit_notice())
                } else {
                    old(self).spec_lines(q)
                })
            }),
    {
        let ghost logs0 = self.logs@;
        let (diagnosis, failed) = if code == Some(0i32) {
            let d = match get(&self.logs, id) {
                Some(lines) => failure_despite_zero_exit(lines.as_slice()),
                None => None,
            };
            let failed = d.is_some();
            (d, failed)
        } else {
            let d = match get(&self.logs, id) {
                Some(lines) => diagnose_log(lines.as_slice()),
                None => None,
            };
            (d, true)
        };
        let notify = failed && code == Some(0i32);
        if notify {
            self.log(
                id,
                owned(
                    "[DevHub] The tool exited 0, but its output reports a server error — this job is marked failed. Verify the target environment before retrying.",
                ),
            );
        }
        proof {
            assert forall|q: Seq<char>| #[trigger] log_lines(self.logs@, q) == (if q == id@ && notify {
                log_lines(logs0, id@).push(spec_zero_exit_notice())
            } else {
                log_lines(logs0, q)
            }) by {
                assert(self.spec_lines(q) == log_lines(self.logs@, q));
                if !notify {
                    assert(self.logs@ == logs0);
                }
            }
        }
        match self.find(id) {
            Some(k) => {
                let ghost before = jobs_view(self.jobs@);
                let mut job = self.jobs.remove(k);
                job.diagnosis = diagnosis;
                job.exit_code = code;
                job.finished_at = Some(now);
                job.cancellable = false;
                if job.cancel_requested {
                    job.status = owned("cancelled");
                    job.phase = owned("cancelled");
                } else if failed {
                    job.status = owned("failed");
                    job.phase = owned("failed");
                } else {
                    job.status = owned("succeeded");
                    job.phase = owned("completed");
                }
                let ghost jv = job@;
                self.jobs.insert(k, job);
                assert(jobs_view(self.jobs@) =~= before.update(k as int, jv));
            },
            None => {},
        }
    }

    /// Ask a job to stop: refused for an unknown or finished job and during a
    /// phase that cannot be stopped safely. A queued job is cancelled at
    /// once; a running one becomes `cancelling`. Returns the process to stop,
    /// if one is running, and logs the request.
    pub fn cancel_job(&mut self, id: &str, now: u64) -> (r: Result<Option<u32>, String>)
        ensures
            match spec_cancel_refusal(old(self).spec_jobs(), id@) {
                Some(message) => (match r {
                    Err(e) => e@ == message,
                    Ok(_) => false,
                }) && final(self).spec_jobs() == old(self).spec_jobs()
                    && (forall|q: Seq<char>| #[trigger] final(self).spec_lines(q) == old(self).spec_lines(q)),
                None => {
                    let k = job_index(old(self).spec_jobs(), id@);
                    &&& r == Ok::<Option<u32>, String>(old(self).spec_process(id@))
                    &&& final(self).spec_jobs() == old(self).spec_jobs().update(
                        k,
                        cancel_requested_of(old(self).spec_jobs()[k], now),
                    )
                    &&& forall|q: Seq<char>| #[trigger] final(self).spec_lines(q) == (if q == id@ {
                        old(self).spec_lines(id@).push(spec_cancel_notice())
                    } else {
                        old(self).spec_lines(q)
                    })
                },
            },
    {
        proof {
            lemma_job_index(jobs_view(self.jobs@), id@);
        }
        let k = match self.find(id) {
            Some(k) => k,
            None => return Err(owned("Job not found.")),
        };
        proof {
            assert(jobs_view(self.jobs@)[k as int] == self.jobs@[k as int]@);
        }
        if is_finished_status(self.jobs[k].status.as_str()) {
            return Err(owned("This job has already finished."));
        }
        if !self.jobs[k].cancellable {
            let mut e = owned("This job cannot be stopped safely during the '");
            e.append(self.jobs[k].phase.as_str());
            e.append("' phase.");
            return Err(e);
        }
        let ghost before = jobs_view(self.jobs@);
        let mut job = self.jobs.remove(k);
        job.cancel_requested = true;
        if str_eq(job.status.as_str(), "queued") {
            job.status = owned("cancelled");
            job.phase = owned("cancelled before start");
            job.cancellable = false;
            job.finished_at = Some(now);
        } else {
            job.status = owned("cancelling");
            let mut p = owned("stopping ");
            p.append(job.phase.as_str());
            job.phase = p;
        }
        let ghost jv = job@;
        self.jobs.insert(k, job);
        assert(jobs_view(self.jobs@) =~= before.update(k as int, jv));
        let pid = match get(&self.process_ids, id) {
            Some(p) => *p,
            None => None,
        };
        self.log(id, owned("Cancellation requested. Stopping the local process tree…"));
        Ok(pid)
    }

    /// Remove finished jobs and their logs from the history; active jobs
    /// stay, in order. Returns the ids removed (whose log files go too).
    pub fn clear_job_history(&mut self) -> (removed: Vec<String>)
        ensures
            final(self).spec_jobs() == old(self).spec_jobs().filter(|j: JobInfoView| !is_terminal(j.status)),
            views(removed@) == old(self).spec_jobs().filter(|j: JobInfoView| is_terminal(j.status)).map_values(
                |j: JobInfoView| j.id,
            ),
            forall|q: Seq<char>|
                #[trigger] final(self).spec_lines(q) == (if views(removed@).contains(q) {
                    Seq::<Seq<char>>::empty()
                } else {
                    old(self).spec_lines(q)
                }),
    {
        let ghost all = jobs_view(self.jobs@);
        let mut old_jobs: Vec<JobInfo> = Vec::new();
        std::mem::swap(&mut old_jobs, &mut self.jobs);
        let mut keep: Vec<JobInfo> = Vec::new();
        let mut removed: Vec<String> = Vec::new();
        let mut rest = old_jobs;
        let total: usize = rest.len();
        let mut reversed: Vec<JobInfo> = Vec::new();
        proof {
            assert(all.take(all.len() as int) =~= all);
        }
        while rest.len() > 0
            invariant
                all.len() == rest.len() + reversed.len(),
                all.len() == total,
                jobs_view(rest@) == all.take(rest.len() as int),
                forall|k: int| 0 <= k < reversed.len() ==> (#[trigger] reversed@[k])@ == all[all.len() - 1 - k],
            decreases rest.len(),
        {
            let ghost before = rest@;
            let x = rest.pop().unwrap();
            proof {
                assert(jobs_view(before)[before.len() - 1] == x@);
            }
            reversed.push(x);
            assert(jobs_view(rest@) =~= all.take(rest.len() as int));
        }
        let mut taken: usize = 0;
        proof {
            reveal(Seq::filter);
            assert(all.take(0).filter(|j: JobInfoView| !is_terminal(j.status)) =~= Seq::<JobInfoView>::empty());
            assert(all.take(0).filter(|j: JobInfoView| is_terminal(j.status)) =~= Seq::<JobInfoView>::empty());
        }
        while reversed.len() > 0
            invariant
                taken + reversed.len() == all.len(),
                all.len() == total,
                forall|k: int| 0 <= k < reversed.len() ==> (#[trigger] reversed@[k])@ == all[all.len() - 1 - k],
                jobs_view(keep@) == all.take(taken as int).filter(|j: JobInfoView| !is_terminal(j.status)),
                views(removed@) == all.take(taken as int).filter(|j: JobInfoView| is_terminal(j.status)).map_values(
                    |j: JobInfoView| j.id,
                ),
            decreases reversed.len(),
        {
            let j = reversed.pop().unwrap();
            proof {
                assert(j@ == all[taken as int]);
                reveal(Seq::filter);
                assert(all.take(taken + 1).drop_last() =~= all.take(taken as int));
            }
            if is_finished_status(j.status.as_str()) {
                let ghost before = views(removed@);
                removed.push(j.id.clone());
                assert(views(removed@) =~= before.push(j@.id));
                proof {
                    let f = all.take(taken + 1).filter(|j: JobInfoView| is_terminal(j.status));
                    assert(f == all.take(taken as int).filter(|j: JobInfoView| is_terminal(j.status)).push(all[taken as int]));
                    assert(f.map_values(|j: JobInfoView| j.id) =~= all.take(taken as int).filter(
                        |j: JobInfoView| is_terminal(j.status),
                    ).map_values(|j: JobInfoView| j.id).push(j@.id));
                }
            } else {
                let ghost before = jobs_view(keep@);
                let ghost jv = j@;
                keep.push(j);
                assert(jobs_view(keep@) =~= before.push(jv));
            }
            taken = taken + 1;
        }
        proof {
            assert(all.take(all.len() as int) =~= all);
        }
        self.jobs = keep;
        let ghost logs_before = self.logs@;
        let mut i: usize = 0;
        while i < removed.len()
            invariant
                i <= removed.len(),
                jobs_view(self.jobs@) == all.filter(|j: JobInfoView| !is_terminal(j.status)),
                forall|q: Seq<char>|
                    #[trigger] log_lines(self.logs@, q) == (if views(removed@).take(i as int).contains(q) {
                        Seq::<Seq<char>>::empty()
                    } else {
                        log_lines(logs_before, q)
                    }),
            decreases removed.len() - i,
        {
            let ghost prev = self.logs@;
            let key = removed[i].clone();
            let ghost kv = key;
            let fresh: Vec<String> = Vec::new();
            let ghost fv = fresh;
            upsert(&mut self.logs, key, fresh);
            proof {
                assert(views(removed@)[i as int] == removed@[i as int]@);
                assert forall|q: Seq<char>|
                    #[trigger] log_lines(self.logs@, q) == (if views(removed@).take(i + 1).contains(q) {
                        Seq::<Seq<char>>::empty()
                    } else {
                        log_lines(logs_before, q)
                    }) by {
                    lemma_get_upsert(prev, kv, fv, q);
                    assert(views(fv@) =~= Seq::<Seq<char>>::empty());
                    if q == kv@ {
                        assert(spec_get(self.logs@, q) == Some(fv));
                        assert(log_lines(self.logs@, q) == views(fv@));
                    } else {
                        assert(spec_get(self.logs@, q) == spec_get(prev, q));
                        assert(log_lines(self.logs@, q) == log_lines(prev, q));
                    }
                    let t1 = views(removed@).take(i + 1);
                    let t0 = views(removed@).take(i as int);
                    assert(t1 =~= t0.push(kv@));
                    if t1.contains(q) && q != kv@ {
                        let w = choose|w: int| 0 <= w < t1.len() && t1[w] == q;
                        assert(t0[w] == q);
                    }
                    if t0.contains(q) {
                        let w = choose|w: int| 0 <= w < t0.len() && t0[w] == q;
                        assert(t1[w] == q);
                    }
                    if q == kv@ {
                        assert(t1[i as int] == q);
                    }
                }
            }
            i = i + 1;
        }
        proof {
            assert(views(removed@).take(removed.len() as int) =~= views(removed@));
        }
        removed
    }
}

/// A job is shown as succeeded only when its tool exited 0, its log showed
/// no server error behind that exit, and nobody asked to stop it: a
/// deployment that failed on the server is never shown as green.
pub proof fn lemma_green_means_clean_exit(j: JobInfoView, code: Option<i32>, lines: Option<Seq<Seq<char>>>, now: u64)
    ensures
        ({
            let (diagnosis, failed) = spec_verdict(code, lines);
            finished(j, code, diagnosis, failed, now).status == "succeeded"@ ==> code == Some(0i32)
                && (lines matches Some(l) ==> spec_failure_despite_zero_exit(l) is None) && !j.cancel_requested
        }),
{
    reveal_strlit("succeeded");
    reveal_strlit("failed");
    reveal_strlit("cancelled");
    assert("failed"@.len() != "succeeded"@.len());
    assert("cancelled"@[0] != "succeeded"@[0]);
}

} // verus!
