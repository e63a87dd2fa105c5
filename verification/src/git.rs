//! Reading what git printed: porcelain status, the commit log, the current
//! branch and remote, and the errors worth explaining.
//!
//! The caller runs git (with `GIT_TERMINAL_PROMPT=0`, so a credential prompt
//! fails fast) and hands over its exit code and output.
use vstd::prelude::*;
use crate::text::{
    chars_of, contains, decimal, is_blank, is_blank_str, join, lines, owned, parse_unsigned,
    spec_decimal, spec_join, spec_lines, spec_parse_unsigned, spec_split, spec_trim,
    spec_trim_matches, split_char, starts_with, string_of_range, trim, trim_matches, views,
};

verus! {

/// What `git <args>` returns when it must succeed: its standard output, or an
/// error naming the command with its standard error (its standard output
/// when the error stream is blank), trimmed.
pub open spec fn spec_git_ok(args: Seq<Seq<char>>, code: i32, stdout: Seq<char>, stderr: Seq<char>) -> Result<Seq<char>, Seq<char>> {
    if code != 0 {
        let detail = if is_blank(stderr) {
            stdout
        } else {
            stderr
        };
        Err("git "@ + spec_join(args, " "@) + " failed: "@ + spec_trim(detail))
    } else {
        Ok(stdout)
    }
}

/// Like running git, but an error when it exits non-zero.
pub fn git_ok(args: &Vec<String>, code: i32, stdout: String, stderr: &str) -> (r: Result<String, String>)
    ensures
        match r {
            Ok(out) => spec_git_ok(views(args@), code, stdout@, stderr@) == Ok::<Seq<char>, Seq<char>>(out@),
            Err(e) => spec_git_ok(views(args@), code, stdout@, stderr@) == Err::<Seq<char>, Seq<char>>(e@),
        },
{
    if code != 0 {
        let detail = if is_blank_str(stderr) {
            trim(stdout.as_str())
        } else {
            trim(stderr)
        };
        let mut e = owned("git ");
        let joined = join(args, " ");
        e.append(joined.as_str());
        e.append(" failed: ");
        e.append(detail.as_str());
        return Err(e);
    }
    Ok(stdout)
}

// --------------------------------------------------------------- status

/// One changed file of the working tree.
#[derive(Clone, Debug, PartialEq, Eq)]
pub struct FileChange {
    pub path: String,
    /// `M`, `A`, `D`, `R`, … (an untracked file reads as `A`: it will be added).
    pub status: String,
}

pub struct FileChangeView {
    pub path: Seq<char>,
    pub status: Seq<char>,
}

impl View for FileChange {
    type V = FileChangeView;

    open spec fn view(&self) -> FileChangeView {
        FileChangeView { path: self.path@, status: self.status@ }
    }
}

pub open spec fn changes_view(v: Seq<FileChange>) -> Seq<FileChangeView> {
    v.map_values(|c: FileChange| c@)
}

/// A porcelain line whose status columns and separator are ASCII, as git
/// writes them (the positions are then the same in bytes and characters).
pub open spec fn ascii_head(line: Seq<char>) -> bool {
    forall|i: int| 0 <= i < line.len() && i < 3 ==> (#[trigger] line[i] as u32) < 128
}

/// The change of one `git status --porcelain` line: `XY PATH`. None for a
/// line of fewer than four characters.
pub open spec fn porcelain_change(line: Seq<char>) -> Option<FileChangeView> {
    if line.len() < 4 {
        None
    } else {
        let code = line.take(2);
        let status = if starts_with(code, "??"@) {
            "A"@
        } else if spec_trim(code).len() > 0 {
            seq![spec_trim(code)[0]]
        } else {
            "M"@
        };
        Some(FileChangeView { path: spec_trim_matches(spec_trim(line.skip(3)), '"'), status })
    }
}

/// The status of a porcelain line comes from its two-column code `XY`: an
/// untracked `??` line is an addition (`A`); otherwise it is the first
/// column `X` (the index) when that is not blank, else the second column `Y`
/// (the worktree) when that is not blank, else `M`. Every line of four or
/// more characters is a change, and its path is what follows the code and
/// its separator (when that has no surrounding blanks or quotes).
pub proof fn lemma_porcelain_status(line: Seq<char>)
    requires
        line.len() >= 4,
    ensures
        porcelain_change(line) is Some,
        line[0] == '?' && line[1] == '?' ==> porcelain_change(line).unwrap().status == "A"@,
        !(line[0] == '?' && line[1] == '?') && !crate::text::is_ws(line[0]) ==> porcelain_change(line).unwrap().status
            == seq![line[0]],
        crate::text::is_ws(line[0]) && !crate::text::is_ws(line[1]) ==> porcelain_change(line).unwrap().status
            == seq![line[1]],
        crate::text::is_ws(line[0]) && crate::text::is_ws(line[1]) ==> porcelain_change(line).unwrap().status == "M"@,
        !crate::text::is_ws(line[3]) && line[3] != '"' && !crate::text::is_ws(line.last()) && line.last() != '"'
            ==> porcelain_change(line).unwrap().path == line.skip(3),
{
    let p = line.skip(3);
    if !crate::text::is_ws(line[3]) && line[3] != '"' && !crate::text::is_ws(line.last()) && line.last() != '"' {
        assert(p[0] == line[3] && p.last() == line.last());
        assert(crate::text::leading_ws(p) == 0);
        assert(crate::text::spec_trim_start(p) =~= p);
        assert(crate::text::trailing_ws(p) == 0);
        assert(spec_trim(p) =~= p);
        assert(crate::text::strip_start_char(p, '"') == p);
        assert(crate::text::strip_end_char(p, '"') == p);
    }
    reveal_strlit("??");
    reveal_with_fuel(crate::text::leading_ws, 3);
    reveal_with_fuel(crate::text::trailing_ws, 3);
    let code = line.take(2);
    assert(code.len() == 2 && code[0] == line[0] && code[1] == line[1]);
    if line[0] == '?' && line[1] == '?' {
        assert(code.take(2) =~= "??"@);
    } else {
        assert(!starts_with(code, "??"@)) by {
            if starts_with(code, "??"@) {
                assert(code.take(2)[0] == "??"@[0]);
                assert(code.take(2)[1] == "??"@[1]);
            }
        }
        assert(code.drop_first() =~= seq![line[1]]);
        assert(seq![line[1]].drop_first() =~= Seq::<char>::empty());
        assert(code.drop_last() =~= seq![line[0]]);
        assert(seq![line[0]].drop_last() =~= Seq::<char>::empty());
        let t = spec_trim(code);
        if !crate::text::is_ws(line[0]) {
            assert(crate::text::leading_ws(code) == 0);
            assert(crate::text::spec_trim_start(code) =~= code);
            assert(t.len() >= 1);
            assert(t[0] == line[0]);
        } else if !crate::text::is_ws(line[1]) {
            assert(crate::text::leading_ws(code) == 1);
            assert(crate::text::spec_trim_start(code) =~= seq![line[1]]);
            assert(t =~= seq![line[1]]);
        } else {
            assert(crate::text::leading_ws(code) == 2);
            assert(crate::text::spec_trim_start(code) =~= Seq::<char>::empty());
            assert(t.len() == 0);
        }
    }
}

pub open spec fn porcelain_changes(ls: Seq<Seq<char>>) -> Seq<FileChangeView>
    decreases ls.len(),
{
    if ls.len() == 0 {
        seq![]
    } else {
        let rest = porcelain_changes(ls.drop_last());
        match porcelain_change(ls.last()) {
            Some(c) => rest.push(c),
            None => rest,
        }
    }
}

fn porcelain_change_of(line: &str) -> (r: Option<FileChange>)
    ensures
        match r {
            Some(c) => porcelain_change(line@) == Some(c@),
            None => porcelain_change(line@) is None,
        },
{
    let v = chars_of(line);
    if v.len() < 4 {
        return None;
    }
    let code = string_of_range(&v, 0, 2);
    let rest = string_of_range(&v, 3, v.len());
    proof {
        assert(v@.take(2) =~= v@.subrange(0, 2));
        assert(v@.skip(3) =~= v@.subrange(3, v@.len() as int));
    }
    let trimmed = trim(rest.as_str());
    let path = trim_matches(trimmed.as_str(), '"');
    let status = if v[0] == '?' && v[1] == '?' {
        proof {
            reveal_strlit("??");
            assert(code@ =~= "??"@);
            assert(code@.take(2) =~= code@);
        }
        owned("A")
    } else {
        proof {
            reveal_strlit("??");
            assert(code@[0] == v@[0] && code@[1] == v@[1]);
            if starts_with(code@, "??"@) {
                assert(code@.take(2)[0] == "??"@[0]);
                assert(code@.take(2)[1] == "??"@[1]);
            }
        }
        let t = trim(code.as_str());
        let tc = chars_of(t.as_str());
        if tc.len() > 0 {
            let one = vec![tc[0]];
            proof {
                assert(one@ =~= seq![spec_trim(code@)[0]]);
            }
            crate::text::string_from_chars(one.as_slice())
        } else {
            owned("M")
        }
    };
    Some(FileChange { path, status })
}

/// Whether every line of `out` has ASCII status columns, as `status` needs.
pub fn porcelain_is_ascii(out: &str) -> (b: bool)
    ensures
        b == forall|k: int| 0 <= k < spec_lines(out@).len() ==> ascii_head(#[trigger] spec_lines(out@)[k]),
{
    let ls = lines(out);
    let mut i: usize = 0;
    while i < ls.len()
        invariant
            i <= ls.len(),
            views(ls@) == spec_lines(out@),
            forall|k: int| 0 <= k < i ==> ascii_head(#[trigger] spec_lines(out@)[k]),
        decreases ls.len() - i,
    {
        let v = chars_of(ls[i].as_str());
        proof {
            assert(views(ls@)[i as int] == v@);
        }
        let mut j: usize = 0;
        while j < v.len() && j < 3
            invariant
                j <= v.len(),
                j <= 3,
                i < ls.len(),
                views(ls@) == spec_lines(out@),
                views(ls@)[i as int] == v@,
                forall|q: int| 0 <= q < j ==> (#[trigger] v@[q] as u32) < 128,
            decreases 3 - j,
        {
            if (v[j] as u32) >= 128 {
                assert(spec_lines(out@)[i as int][j as int] == v@[j as int]);
                assert(!ascii_head(spec_lines(out@)[i as int]));
                return false;
            }
            j = j + 1;
        }
        assert(ascii_head(v@));
        i = i + 1;
    }
    true
}

/// Parse `git status --porcelain` into per-file changes (untracked files
/// included, as additions).
pub fn status(out: &str) -> (changes: Vec<FileChange>)
    requires
        forall|k: int| 0 <= k < spec_lines(out@).len() ==> ascii_head(#[trigger] spec_lines(out@)[k]),
    ensures
        changes_view(changes@) == porcelain_changes(spec_lines(out@)),
{
    let ls = lines(out);
    let ghost lv = views(ls@);
    let mut changes: Vec<FileChange> = Vec::new();
    let mut i: usize = 0;
    while i < ls.len()
        invariant
            i <= ls.len(),
            lv == views(ls@),
            changes_view(changes@) == porcelain_changes(lv.take(i as int)),
        decreases ls.len() - i,
    {
        proof {
            assert(lv.take(i + 1).drop_last() =~= lv.take(i as int));
            assert(lv.take(i + 1).last() == ls@[i as int]@);
        }
        match porcelain_change_of(ls[i].as_str()) {
            Some(c) => {
                let ghost before = changes_view(changes@);
                changes.push(c);
                assert(changes_view(changes@) =~= before.push(c@));
            },
            None => {},
        }
        i = i + 1;
    }
    assert(lv.take(ls.len() as int) =~= lv);
    changes
}

// ------------------------------------------------------------------ log

/// One commit of the log.
#[derive(Clone, Debug, PartialEq, Eq)]
pub struct Commit {
    pub hash: String,
    pub message: String,
    pub author: String,
    pub date: String,
}

pub struct CommitView {
    pub hash: Seq<char>,
    pub message: Seq<char>,
    pub author: Seq<char>,
    pub date: Seq<char>,
}

impl View for Commit {
    type V = CommitView;

    open spec fn view(&self) -> CommitView {
        CommitView { hash: self.hash@, message: self.message@, author: self.author@, date: self.date@ }
    }
}

pub open spec fn commits_view(v: Seq<Commit>) -> Seq<CommitView> {
    v.map_values(|c: Commit| c@)
}

/// The arguments of `git log` for the last `limit` commits, one line each:
/// abbreviated hash, subject, author and relative date separated by `\x1f`.
pub open spec fn spec_log_args(limit: u32) -> Seq<Seq<char>> {
    seq!["log"@, "-"@ + spec_decimal(limit as nat), "--date=relative"@, "--pretty=format:%h\x1f%s\x1f%an\x1f%ad"@]
}

pub fn log_args(limit: u32) -> (args: Vec<String>)
    ensures
        views(args@) == spec_log_args(limit),
{
    let mut n = owned("-");
    let digits = decimal(limit as u64);
    n.append(digits.as_str());
    let args = vec![owned("log"), n, owned("--date=relative"), owned("--pretty=format:%h\x1f%s\x1f%an\x1f%ad")];
    assert(views(args@) =~= spec_log_args(limit));
    args
}

/// The commit of one log line: its first four `\x1f`-separated fields, none
/// when it has fewer.
pub open spec fn log_commit(line: Seq<char>) -> Option<CommitView> {
    let p = spec_split(line, '\x1f');
    if p.len() < 4 {
        None
    } else {
        Some(CommitView { hash: p[0], message: p[1], author: p[2], date: p[3] })
    }
}

pub open spec fn log_commits(ls: Seq<Seq<char>>) -> Seq<CommitView>
    decreases ls.len(),
{
    if ls.len() == 0 {
        seq![]
    } else {
        let rest = log_commits(ls.drop_last());
        match log_commit(ls.last()) {
            Some(c) => rest.push(c),
            None => rest,
        }
    }
}

/// The commits of a `git log` run: none when it failed (a repository without
/// commits yet).
pub open spec fn spec_log(code: i32, out: Seq<char>) -> Seq<CommitView> {
    if code != 0 {
        seq![]
    } else {
        log_commits(spec_lines(out))
    }
}

pub fn log(code: i32, out: &str) -> (commits: Vec<Commit>)
    ensures
        commits_view(commits@) == spec_log(code, out@),
{
    let mut commits: Vec<Commit> = Vec::new();
    if code != 0 {
        assert(commits_view(commits@) =~= Seq::<CommitView>::empty());
        return commits;
    }
    let ls = lines(out);
    let ghost lv = views(ls@);
    let mut i: usize = 0;
    while i < ls.len()
        invariant
            i <= ls.len(),
            lv == views(ls@),
            commits_view(commits@) == log_commits(lv.take(i as int)),
        decreases ls.len() - i,
    {
        proof {
            assert(lv.take(i + 1).drop_last() =~= lv.take(i as int));
            assert(lv.take(i + 1).last() == ls@[i as int]@);
        }
        let p = split_char(ls[i].as_str(), '\x1f');
        if p.len() >= 4 {
            let c = Commit {
                hash: p[0].clone(),
                message: p[1].clone(),
                author: p[2].clone(),
                date: p[3].clone(),
            };
            proof {
                assert(views(p@)[0] == p@[0]@);
                assert(views(p@)[1] == p@[1]@);
                assert(views(p@)[2] == p@[2]@);
                assert(views(p@)[3] == p@[3]@);
            }
            let ghost before = commits_view(commits@);
            commits.push(c);
            assert(commits_view(commits@) =~= before.push(c@));
        }
        i = i + 1;
    }
    assert(lv.take(ls.len() as int) =~= lv);
    commits
}

// ------------------------------------------------------- branch, remote

/// The trimmed output of a git query that succeeded.
pub open spec fn spec_query_text(code: i32, out: Seq<char>) -> Option<Seq<char>> {
    if code == 0 {
        Some(spec_trim(out))
    } else {
        None
    }
}

fn query_text(code: i32, out: &str) -> (r: Option<String>)
    ensures
        match r {
            Some(t) => spec_query_text(code, out@) == Some(t@),
            None => spec_query_text(code, out@) is None,
        },
{
    if code == 0 {
        Some(trim(out))
    } else {
        None
    }
}

/// The current branch, from `git rev-parse --abbrev-ref HEAD`.
pub fn current_branch(code: i32, out: &str) -> (r: Option<String>)
    ensures
        match r {
            Some(t) => spec_query_text(code, out@) == Some(t@),
            None => spec_query_text(code, out@) is None,
        },
{
    query_text(code, out)
}

/// The URL of `origin`, from `git remote get-url origin`.
pub fn remote_url(code: i32, out: &str) -> (r: Option<String>)
    ensures
        match r {
            Some(t) => spec_query_text(code, out@) == Some(t@),
            None => spec_query_text(code, out@) is None,
        },
{
    query_text(code, out)
}

/// The count printed by `git rev-list --count`, or 0 when the query failed or
/// printed no `u32`.
pub open spec fn spec_rev_count(code: i32, out: Seq<char>) -> nat {
    if code != 0 {
        0
    } else {
        match spec_parse_unsigned(spec_trim(out), u32::MAX as nat) {
            Some(n) => n,
            None => 0,
        }
    }
}

pub fn rev_count(code: i32, out: &str) -> (n: u32)
    ensures
        n == spec_rev_count(code, out@),
{
    if code != 0 {
        return 0;
    }
    let t = trim(out);
    match parse_unsigned(t.as_str(), u32::MAX as u64) {
        Some(n) => n as u32,
        None => 0,
    }
}

/// The current branch compared with its counterpart on `origin`.
#[derive(Clone, Debug, PartialEq, Eq)]
pub struct RemoteStatus {
    pub has_remote: bool,
    pub branch: Option<String>,
    /// Local commits not on the remote.
    pub ahead: u32,
    /// Remote commits missing locally: another clone pushed, and a push must
    /// be blocked.
    pub behind: u32,
}

/// The remote-tracking ref of a branch.
pub open spec fn spec_upstream(branch: Seq<char>) -> Seq<char> {
    "origin/"@ + branch
}

pub fn upstream(branch: &str) -> (r: String)
    ensures
        r@ == spec_upstream(branch@),
{
    let mut r = owned("origin/");
    r.append(branch);
    r
}

/// The `rev-list` ranges counting the commits ahead of and behind `upstream`.
pub fn ahead_behind_ranges(upstream: &str) -> (r: (String, String))
    ensures
        r.0@ == upstream@ + "..HEAD"@,
        r.1@ == "HEAD.."@ + upstream@,
{
    let mut ahead = owned(upstream);
    ahead.append("..HEAD");
    let mut behind = owned("HEAD..");
    behind.append(upstream);
    (ahead, behind)
}

/// Whether a failed fetch means the repository is missing or hidden from the
/// signed-in account.
pub open spec fn spec_is_missing_repository(error: Seq<char>) -> bool {
    crate::text::contains_sub(error, "Repository not found"@)
}

pub fn is_missing_repository(error: &str) -> (b: bool)
    ensures
        b == spec_is_missing_repository(error@),
{
    contains(error, "Repository not found")
}

/// The explanation of a fetch that cannot see the private repository, naming
/// the active GitHub account when it is known (`gh api user`) and the remote
/// (`the configured origin` when it cannot be read).
pub open spec fn spec_access_error(account: Option<Seq<char>>, remote: Option<Seq<char>>) -> Seq<char> {
    let remote = match remote {
        Some(r) => r,
        None => "the configured origin"@,
    };
    match account {
        Some(a) => "The active GitHub account '"@ + a + "' cannot access the private repository "@ + remote
            + ". Switch to an account with access, or add '"@ + a
            + "' as a repository collaborator and accept the invitation."@,
        None => "The authenticated GitHub account cannot access the private repository "@ + remote
            + ". Sign in with an account that has access."@,
    }
}

pub fn access_error(account: Option<&str>, remote: Option<&str>) -> (r: String)
    ensures
        r@ == spec_access_error(match account {
            Some(a) => Some(a@),
            None => None,
        }, match remote {
            Some(x) => Some(x@),
            None => None,
        }),
{
    let remote_text = match remote {
        Some(x) => owned(x),
        None => owned("the configured origin"),
    };
    match account {
        Some(a) => {
            let mut r = owned("The active GitHub account '");
            r.append(a);
            r.append("' cannot access the private repository ");
            r.append(remote_text.as_str());
            r.append(". Switch to an account with access, or add '");
            r.append(a);
            r.append("' as a repository collaborator and accept the invitation.");
            r
        },
        None => {
            let mut r = owned("The authenticated GitHub account cannot access the private repository ");
            r.append(remote_text.as_str());
            r.append(". Sign in with an account that has access.");
            r
        },
    }
}

} // verus!
