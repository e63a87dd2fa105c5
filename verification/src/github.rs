//! The GitHub side: the signed-in account, its repositories and branches,
//! and the Git identity used for commits. `gh` and `git` are run by the
//! caller; their answers are read here.
use vstd::prelude::*;
use crate::json::{
    as_bool, as_text, as_u64, get, spec_as_bool, spec_as_str, spec_as_u64, spec_get, JsonValue,
};
use crate::text::{
    contains, contains_sub, decimal, keep_nonempty, nonempty_strings, owned, sort_by_lowercase,
    sorted_by_lowercase, spec_decimal, spec_lines, spec_trim, trim, trim_all, trimmed_lines, views,
};

verus! {

/// What Settings shows of GitHub and Git.
#[derive(Clone, Debug, PartialEq, Eq)]
pub struct GithubStatus {
    pub gh_installed: bool,
    /// Where gh was resolved.
    pub gh_path: Option<String>,
    /// Folders checked, for the "not found" message.
    pub gh_searched: Vec<String>,
    /// Why starting gh failed, when it did.
    pub gh_error: Option<String>,
    pub authenticated: bool,
    pub login: Option<String>,
    pub account_name: Option<String>,
    pub account_email: Option<String>,
    pub suggested_email: Option<String>,
    pub git_name: Option<String>,
    pub git_email: Option<String>,
}

/// One repository of the signed-in account.
#[derive(Clone, Debug, PartialEq, Eq)]
pub struct GithubRepo {
    pub name_with_owner: String,
    pub name: String,
    pub url: String,
    pub default_branch: String,
    pub is_private: bool,
}

pub open spec fn opt_view(o: Option<String>) -> Option<Seq<char>> {
    match o {
        Some(s) => Some(s@),
        None => None,
    }
}

/// A text that is present and not empty.
pub open spec fn nonempty(o: Option<Seq<char>>) -> Option<Seq<char>> {
    match o {
        Some(s) => if s.len() > 0 {
            Some(s)
        } else {
            None
        },
        None => None,
    }
}

pub fn nonempty_text(o: Option<String>) -> (r: Option<String>)
    ensures
        opt_view(r) == nonempty(opt_view(o)),
{
    match o {
        Some(s) => if s.as_str().unicode_len() > 0 {
            Some(s)
        } else {
            None
        },
        None => None,
    }
}

/// The value of a `git config --global --get` that succeeded with a
/// (trimmed) non-empty value.
pub open spec fn spec_config_value(code: i32, value: Seq<char>) -> Option<Seq<char>> {
    if code == 0 && value.len() > 0 {
        Some(value)
    } else {
        None
    }
}

pub fn config_value(code: i32, value: String) -> (r: Option<String>)
    ensures
        opt_view(r) == spec_config_value(code, value@),
{
    if code == 0 && value.as_str().unicode_len() > 0 {
        Some(value)
    } else {
        None
    }
}

/// The commit email to suggest: the account's public email, else GitHub's
/// private `{id}+{login}@users.noreply.github.com` address when both are
/// known.
pub open spec fn spec_suggested_email(account_email: Option<Seq<char>>, id: Option<u64>, login: Option<Seq<char>>) -> Option<Seq<char>> {
    match account_email {
        Some(e) => Some(e),
        None => match (id, login) {
            (Some(n), Some(l)) => Some(spec_decimal(n as nat) + "+"@ + l + "@users.noreply.github.com"@),
            _ => None,
        },
    }
}

pub fn suggested_email(account_email: Option<String>, id: Option<u64>, login: Option<&str>) -> (r: Option<String>)
    ensures
        opt_view(r) == spec_suggested_email(opt_view(account_email), id, match login {
            Some(l) => Some(l@),
            None => None,
        }),
{
    match account_email {
        Some(e) => Some(e),
        None => match (id, login) {
            (Some(n), Some(l)) => {
                let mut r = decimal(n);
                r.append("+");
                r.append(l);
                r.append("@users.noreply.github.com");
                Some(r)
            },
            _ => None,
        },
    }
}

/// The status when gh is missing (`error`, from starting it) or present but
/// not signed in.
pub fn unauthenticated(error: Option<String>, gh_path: Option<String>, gh_searched: Vec<String>, git_name: Option<String>, git_email: Option<String>) -> (s: GithubStatus)
    ensures
        s.gh_installed == error is None,
        s.gh_error == error,
        !s.authenticated,
        s.login is None && s.account_name is None && s.account_email is None && s.suggested_email is None,
        s.gh_path == gh_path && s.gh_searched == gh_searched,
        s.git_name == git_name && s.git_email == git_email,
{
    GithubStatus {
        gh_installed: error.is_none(),
        gh_path,
        gh_searched,
        gh_error: error,
        authenticated: false,
        login: None,
        account_name: None,
        account_email: None,
        suggested_email: None,
        git_name,
        git_email,
    }
}

/// A text member of the account document of `gh api user`.
pub open spec fn account_text(account: Option<JsonValue>, key: Seq<char>) -> Option<Seq<char>> {
    match account {
        Some(doc) => spec_as_str(spec_get(doc, key)),
        None => None,
    }
}

/// The numeric id of the account document.
pub open spec fn account_id(account: Option<JsonValue>) -> Option<u64> {
    match account {
        Some(doc) => spec_as_u64(spec_get(doc, "id"@)),
        None => None,
    }
}

fn account_member(account: &Option<JsonValue>, key: &str) -> (r: Option<String>)
    ensures
        opt_view(r) == account_text(*account, key@),
{
    match account {
        Some(doc) => as_text(get(doc, key)),
        None => None,
    }
}

/// The status of a signed-in gh: `account` is the JSON document of
/// `gh api user` (nothing when it could not be read). Name and email are
/// kept when not empty; the suggested commit email follows from them.
pub fn authenticated(account: Option<JsonValue>, gh_path: Option<String>, gh_searched: Vec<String>, git_name: Option<String>, git_email: Option<String>) -> (s: GithubStatus)
    ensures
        s.gh_installed && s.authenticated && s.gh_error is None,
        opt_view(s.login) == account_text(account, "login"@),
        opt_view(s.account_name) == nonempty(account_text(account, "name"@)),
        opt_view(s.account_email) == nonempty(account_text(account, "email"@)),
        opt_view(s.suggested_email) == spec_suggested_email(
            nonempty(account_text(account, "email"@)),
            account_id(account),
            account_text(account, "login"@),
        ),
        s.gh_path == gh_path && s.gh_searched == gh_searched,
        s.git_name == git_name && s.git_email == git_email,
{
    let login = account_member(&account, "login");
    let id = match &account {
        Some(doc) => as_u64(get(doc, "id")),
        None => None,
    };
    let account_email = nonempty_text(account_member(&account, "email"));
    let account_name = nonempty_text(account_member(&account, "name"));
    let email_copy = match &account_email {
        Some(e) => Some(e.clone()),
        None => None,
    };
    let suggested = suggested_email(email_copy, id, match &login {
        Some(l) => Some(l.as_str()),
        None => None,
    });
    GithubStatus {
        gh_installed: true,
        gh_path,
        gh_searched,
        gh_error: None,
        authenticated: true,
        login,
        account_name,
        account_email,
        suggested_email: suggested,
        git_name,
        git_email,
    }
}

/// What one row of `gh repo list --json` says, when it names its
/// repository: a row without a text `nameWithOwner` is skipped. Missing
/// texts read as empty, a missing default branch as `main`, a missing
/// privacy flag as public.
pub open spec fn repo_of_json(row: JsonValue) -> Option<(Seq<char>, Seq<char>, Seq<char>, Seq<char>, bool)> {
    match spec_as_str(spec_get(row, "nameWithOwner"@)) {
        Some(full) => Some(
            (
                full,
                crate::json::text_or_empty(spec_get(row, "name"@)),
                crate::json::text_or_empty(spec_get(row, "url"@)),
                match spec_as_str(
                    match spec_get(row, "defaultBranchRef"@) {
                        Some(b) => spec_get(b, "name"@),
                        None => None,
                    },
                ) {
                    Some(b) => b,
                    None => "main"@,
                },
                match spec_as_bool(spec_get(row, "isPrivate"@)) {
                    Some(p) => p,
                    None => false,
                },
            ),
        ),
        None => None,
    }
}

pub open spec fn repo_fields(r: GithubRepo) -> (Seq<char>, Seq<char>, Seq<char>, Seq<char>, bool) {
    (r.name_with_owner@, r.name@, r.url@, r.default_branch@, r.is_private)
}

/// The repositories among the rows, in order.
pub open spec fn repos_of_json(rows: Seq<JsonValue>) -> Seq<(Seq<char>, Seq<char>, Seq<char>, Seq<char>, bool)>
    decreases rows.len(),
{
    if rows.len() == 0 {
        Seq::empty()
    } else {
        let init = repos_of_json(rows.drop_last());
        match repo_of_json(rows.last()) {
            Some(r) => init.push(r),
            None => init,
        }
    }
}

/// One row of `gh repo list --json`.
pub fn repo_from_json(row: &JsonValue) -> (r: Option<GithubRepo>)
    ensures
        match r {
            Some(repo) => repo_of_json(*row) == Some(repo_fields(repo)),
            None => repo_of_json(*row) is None,
        },
{
    let name_with_owner = match as_text(get(row, "nameWithOwner")) {
        Some(n) => n,
        None => return None,
    };
    let branch = match get(row, "defaultBranchRef") {
        Some(b) => get(b, "name"),
        None => None,
    };
    let default_branch = match as_text(branch) {
        Some(b) => b,
        None => owned("main"),
    };
    let is_private = match as_bool(get(row, "isPrivate")) {
        Some(p) => p,
        None => false,
    };
    Some(GithubRepo {
        name_with_owner,
        name: crate::json::text_of(get(row, "name")),
        url: crate::json::text_of(get(row, "url")),
        default_branch,
        is_private,
    })
}

/// `out` lists the repositories of `rows`, sorted by `owner/name` ignoring
/// case.
pub open spec fn repos_listed(rows: Seq<JsonValue>, out: Seq<GithubRepo>) -> bool {
    exists|raw: Seq<GithubRepo>|
        raw.map_values(|x: GithubRepo| repo_fields(x)) == repos_of_json(rows) && #[trigger] sorted_by_lowercase(
            raw,
            repo_names(raw),
            out,
        )
}

/// The account's repositories from the JSON of `gh repo list`, sorted by
/// `owner/name` ignoring case; an error when the document is not an array.
pub fn repos_from_json(doc: &JsonValue) -> (r: Result<Vec<GithubRepo>, String>)
    ensures
        match *doc {
            JsonValue::Array(rows) => r matches Ok(out) && repos_listed(rows@, out@),
            _ => r matches Err(e) && e@ == "Unexpected gh output."@,
        },
{
    let rows = match doc {
        JsonValue::Array(rows) => rows,
        _ => return Err(owned("Unexpected gh output.")),
    };
    let mut raw: Vec<GithubRepo> = Vec::new();
    let mut i: usize = 0;
    proof {
        assert(rows@.take(0) =~= Seq::<JsonValue>::empty());
        assert(raw@.map_values(|x: GithubRepo| repo_fields(x)) =~= Seq::<(Seq<char>, Seq<char>, Seq<char>, Seq<char>, bool)>::empty());
    }
    while i < rows.len()
        invariant
            i <= rows.len(),
            raw@.map_values(|x: GithubRepo| repo_fields(x)) == repos_of_json(rows@.take(i as int)),
        decreases rows.len() - i,
    {
        proof {
            assert(rows@.take(i + 1).drop_last() =~= rows@.take(i as int));
            assert(rows@.take(i + 1).last() == rows@[i as int]);
        }
        match repo_from_json(&rows[i]) {
            Some(repo) => {
                let ghost before = raw@;
                let ghost f = repo_fields(repo);
                raw.push(repo);
                proof {
                    assert(raw@ =~= before.push(repo));
                    assert(raw@.map_values(|x: GithubRepo| repo_fields(x)) =~= before.map_values(
                        |x: GithubRepo| repo_fields(x),
                    ).push(f));
                }
            },
            None => {},
        }
        i = i + 1;
    }
    proof {
        assert(rows@.take(rows.len() as int) =~= rows@);
    }
    let ghost all = raw@;
    let out = sort_repos(raw);
    proof {
        assert(sorted_by_lowercase(all, repo_names(all), out@));
        assert(all.map_values(|x: GithubRepo| repo_fields(x)) == repos_of_json(rows@));
        assert(repos_listed(rows@, out@));
    }
    Ok(out)
}

/// The error of a failed `gh` query: its (trimmed) error output, or
/// `fallback` when it printed nothing.
pub open spec fn spec_gh_failure(err: Seq<char>, fallback: Seq<char>) -> Seq<char> {
    if spec_trim(err).len() == 0 {
        fallback
    } else {
        err
    }
}

pub fn gh_failure(err: String, fallback: &str) -> (r: String)
    ensures
        r@ == spec_gh_failure(err@, fallback@),
{
    let t = trim(err.as_str());
    if t.as_str().unicode_len() == 0 {
        owned(fallback)
    } else {
        err
    }
}

/// Repositories sorted by `owner/name` ignoring case.
pub open spec fn repo_names(repos: Seq<GithubRepo>) -> Seq<Seq<char>> {
    repos.map_values(|r: GithubRepo| r.name_with_owner@)
}

pub fn sort_repos(repos: Vec<GithubRepo>) -> (out: Vec<GithubRepo>)
    ensures
        sorted_by_lowercase(repos@, repo_names(repos@), out@),
{
    let mut names: Vec<String> = Vec::new();
    let mut i: usize = 0;
    while i < repos.len()
        invariant
            i <= repos.len(),
            views(names@) == repo_names(repos@).take(i as int),
        decreases repos.len() - i,
    {
        let ghost before = views(names@);
        let n = repos[i].name_with_owner.clone();
        let ghost nv = n@;
        names.push(n);
        assert(views(names@) =~= before.push(nv));
        i = i + 1;
        assert(views(names@) =~= repo_names(repos@).take(i as int));
    }
    assert(repo_names(repos@).take(repos.len() as int) =~= repo_names(repos@));
    sort_by_lowercase(repos, &names)
}

/// A branch listing request: a repository in `owner/name` form, and the API
/// path of its branches.
pub open spec fn spec_branches_path(repo: Seq<char>) -> Result<Seq<char>, Seq<char>> {
    let r = spec_trim(repo);
    if r.len() == 0 || !contains_sub(r, "/"@) {
        Err("Expected a repository in owner/name form."@)
    } else {
        Ok("repos/"@ + r + "/branches"@)
    }
}

pub fn branches_path(repo: &str) -> (r: Result<String, String>)
    ensures
        match r {
            Ok(p) => spec_branches_path(repo@) == Ok::<Seq<char>, Seq<char>>(p@),
            Err(e) => spec_branches_path(repo@) == Err::<Seq<char>, Seq<char>>(e@),
        },
{
    let r = trim(repo);
    if r.as_str().unicode_len() == 0 || !contains(r.as_str(), "/") {
        return Err(owned("Expected a repository in owner/name form."));
    }
    let mut p = owned("repos/");
    p.append(r.as_str());
    p.append("/branches");
    Ok(p)
}

/// The branch names `gh api ... --jq '.[].name'` printed: one per line,
/// trimmed, blank lines skipped.
pub fn branch_names(out: &str) -> (names: Vec<String>)
    ensures
        views(names@) == keep_nonempty(trim_all(spec_lines(out@))),
{
    let t = trimmed_lines(out);
    nonempty_strings(&t)
}

/// A Git identity to set: trimmed name and email, both non-empty, the email
/// holding an `@`.
pub open spec fn spec_identity(name: Seq<char>, email: Seq<char>) -> Result<(Seq<char>, Seq<char>), Seq<char>> {
    let n = spec_trim(name);
    let e = spec_trim(email);
    if n.len() == 0 || e.len() == 0 || !contains_sub(e, "@"@) {
        Err("Enter a valid Git name and email."@)
    } else {
        Ok((n, e))
    }
}

pub fn identity(name: &str, email: &str) -> (r: Result<(String, String), String>)
    ensures
        match r {
            Ok((n, e)) => spec_identity(name@, email@) == Ok::<(Seq<char>, Seq<char>), Seq<char>>((n@, e@)),
            Err(m) => spec_identity(name@, email@) == Err::<(Seq<char>, Seq<char>), Seq<char>>(m@),
        },
{
    let n = trim(name);
    let e = trim(email);
    if n.as_str().unicode_len() == 0 || e.as_str().unicode_len() == 0 || !contains(e.as_str(), "@") {
        return Err(owned("Enter a valid Git name and email."));
    }
    Ok((n, e))
}

/// The error of a `git config --global` write that failed.
pub open spec fn spec_identity_failure(key: Seq<char>, error: Seq<char>) -> Seq<char> {
    "Could not set Git "@ + key + ": "@ + error
}

pub fn identity_failure(key: &str, error: &str) -> (r: String)
    ensures
        r@ == spec_identity_failure(key@, error@),
{
    let mut r = owned("Could not set Git ");
    r.append(key);
    r.append(": ");
    r.append(error);
    r
}

} // verus!
