//! Workspaces: clio workspace folders under Git, registered with DevHub.
//!
//! The registry, the package selection of a workspace, and the guards that
//! keep cloud changes and local edits apart: a clean tree before pulling or
//! adding a package, and a drift check before pushing to the environment.
use vstd::prelude::*;
use crate::json::{as_array, get_either, spec_as_array, spec_get_either, spec_texts, texts_of, JsonValue};
use crate::text::{
    decimal_usize, eq_ignore_ascii_case, eq_ignore_case, join, lines, owned, replace, sort_by_lowercase,
    sorted_by_lowercase, spec_decimal, spec_join, spec_lines, spec_replace, spec_trim, str_eq, trim,
    views,
};

verus! {

/// A registered workspace.
#[derive(Clone, Debug, PartialEq, Eq)]
pub struct Workspace {
    pub id: String,
    pub name: String,
    pub path: String,
    pub env: String,
    pub app_code: Option<String>,
    pub created_at: u64,
    pub last_pull: Option<u64>,
    pub last_push: Option<u64>,
    /// The `name|version` rows recorded at the last pull or push: the drift
    /// baseline.
    pub packages_snapshot: Option<String>,
}

/// A workspace card: the registration with its live Git state.
#[derive(Clone, Debug, PartialEq, Eq)]
pub struct WorkspaceSummary {
    pub workspace: Workspace,
    pub exists: bool,
    pub branch: Option<String>,
    pub remote: Option<String>,
    pub dirty_count: usize,
}

/// The registry, kept in `workspaces.json` under the application data folder.
#[derive(Clone, Debug, PartialEq, Eq)]
pub struct WsState {
    pub file: String,
}

/// Index of the first workspace with `id`, or -1.
pub open spec fn workspace_index(list: Seq<Workspace>, id: Seq<char>) -> int
    decreases list.len(),
{
    if list.len() == 0 {
        -1
    } else if list[0].id@ == id {
        0
    } else {
        let r = workspace_index(list.drop_first(), id);
        if r < 0 {
            -1
        } else {
            r + 1
        }
    }
}

/// Find a registered workspace.
pub fn find_workspace(list: &Vec<Workspace>, id: &str) -> (r: Result<usize, String>)
    ensures
        match r {
            Ok(k) => workspace_index(list@, id@) == k && k < list.len(),
            Err(e) => workspace_index(list@, id@) < 0 && e@ == "Workspace not found"@,
        },
{
    let mut i: usize = 0;
    proof {
        assert(list@.skip(0) =~= list@);
    }
    while i < list.len()
        invariant
            i <= list.len(),
            workspace_index(list@, id@) == (if workspace_index(list@.skip(i as int), id@) < 0 {
                -1
            } else {
                workspace_index(list@.skip(i as int), id@) + i
            }),
        decreases list.len() - i,
    {
        proof {
            assert(list@.skip(i as int)[0] == list@[i as int]);
            assert(list@.skip(i as int).drop_first() =~= list@.skip(i + 1));
        }
        if str_eq(list[i].id.as_str(), id) {
            return Ok(i);
        }
        i = i + 1;
    }
    proof {
        assert(list@.skip(i as int) =~= Seq::<Workspace>::empty());
    }
    Err(owned("Workspace not found"))
}

/// The registry without the entries of `id`, the others in order.
pub open spec fn without(list: Seq<Workspace>, id: Seq<char>) -> Seq<Workspace> {
    list.filter(|w: Workspace| w.id@ != id)
}

/// Unregister a workspace (its folder is left on disk): every entry with
/// that id goes, the others stay in order.
pub fn remove_workspace(list: Vec<Workspace>, id: &str) -> (out: Vec<Workspace>)
    ensures
        out@ == without(list@, id@),
{
    let ghost all = list@;
    let mut rest = list;
    let total: usize = rest.len();
    let mut reversed: Vec<Workspace> = Vec::new();
    proof {
        assert(all.take(all.len() as int) =~= all);
    }
    while rest.len() > 0
        invariant
            all.len() == rest.len() + reversed.len(),
            all.len() == total,
            rest@ == all.take(rest.len() as int),
            forall|k: int| 0 <= k < reversed.len() ==> reversed@[k] == all[all.len() - 1 - k],
        decreases rest.len(),
    {
        let x = rest.pop().unwrap();
        reversed.push(x);
        assert(rest@ =~= all.take(rest.len() as int));
    }
    let mut out: Vec<Workspace> = Vec::new();
    let mut taken: usize = 0;
    proof {
        reveal(Seq::filter);
        assert(all.take(0).filter(|w: Workspace| w.id@ != id@) =~= Seq::<Workspace>::empty());
    }
    while reversed.len() > 0
        invariant
            taken + reversed.len() == all.len(),
            all.len() == total,
            forall|k: int| 0 <= k < reversed.len() ==> reversed@[k] == all[all.len() - 1 - k],
            out@ == all.take(taken as int).filter(|w: Workspace| w.id@ != id@),
        decreases reversed.len(),
    {
        let x = reversed.pop().unwrap();
        proof {
            assert(x == all[taken as int]);
            reveal(Seq::filter);
            assert(all.take(taken + 1).drop_last() =~= all.take(taken as int));
        }
        if !str_eq(x.id.as_str(), id) {
            out.push(x);
        }
        taken = taken + 1;
    }
    proof {
        assert(all.take(all.len() as int) =~= all);
        assert(out@ == without(all, id@));
    }
    out
}

/// Removing a workspace leaves no entry with its id.
pub proof fn lemma_removed_is_gone(list: Seq<Workspace>, id: Seq<char>)
    ensures
        forall|k: int| 0 <= k < without(list, id).len() ==> (#[trigger] without(list, id)[k]).id@ != id,
        forall|k: int| 0 <= k < list.len() && list[k].id@ != id ==> without(list, id).contains(#[trigger] list[k]),
    decreases list.len(),
{
    reveal(Seq::filter);
    if list.len() > 0 {
        let init = list.drop_last();
        lemma_removed_is_gone(init, id);
        let w = without(list, id);
        let wi = without(init, id);
        assert(w == (if list.last().id@ != id {
            wi.push(list.last())
        } else {
            wi
        }));
        assert forall|k: int| 0 <= k < list.len() && list[k].id@ != id implies w.contains(#[trigger] list[k]) by {
            if k < list.len() - 1 {
                assert(init[k] == list[k]);
                assert(wi.contains(init[k]));
                let q = choose|q: int| 0 <= q < wi.len() && wi[q] == init[k];
                assert(w[q] == wi[q]);
            } else {
                assert(w[w.len() - 1] == list.last());
            }
        }
    }
}

// ------------------------------------------------------------- records

/// A workspace after a pull (`pulled`) or a push at `now`: that time is
/// recorded, and the environment's package list becomes the drift baseline
/// when it could be read.
pub open spec fn synced(w: Workspace, pulled: bool, now: u64, snapshot: Option<String>) -> Workspace {
    Workspace {
        last_pull: if pulled {
            Some(now)
        } else {
            w.last_pull
        },
        last_push: if pulled {
            w.last_push
        } else {
            Some(now)
        },
        packages_snapshot: match snapshot {
            Some(s) => Some(s),
            None => w.packages_snapshot,
        },
        ..w
    }
}

/// Record a pull or push of the workspace `id` (its first entry); the
/// registry is unchanged when no entry has that id.
pub fn record_sync(list: &mut Vec<Workspace>, id: &str, pulled: bool, now: u64, snapshot: Option<String>)
    ensures
        ({
            let k = workspace_index(old(list)@, id@);
            &&& k < 0 ==> final(list)@ == old(list)@
            &&& k >= 0 ==> final(list)@ == old(list)@.update(k, synced(old(list)@[k], pulled, now, snapshot))
        }),
{
    match find_workspace(list, id) {
        Ok(k) => {
            let mut w = list.remove(k);
            let ghost before = w;
            if pulled {
                w.last_pull = Some(now);
            } else {
                w.last_push = Some(now);
            }
            match snapshot {
                Some(s) => {
                    w.packages_snapshot = Some(s);
                },
                None => {},
            }
            assert(w == synced(before, pulled, now, snapshot));
            list.insert(k, w);
            assert(list@ =~= old(list)@.update(k as int, synced(old(list)@[k as int], pulled, now, snapshot)));
        },
        Err(_) => {},
    }
}

/// Whether a workspace at `path` (compared ignoring ASCII case) is
/// registered.
pub open spec fn has_path(list: Seq<Workspace>, path: Seq<char>) -> bool {
    exists|k: int| 0 <= k < list.len() && eq_ignore_case(#[trigger] list[k].path@, path)
}

/// The registry with `w` added, unless a workspace at its folder is
/// already registered.
pub open spec fn registered(list: Seq<Workspace>, w: Workspace) -> Seq<Workspace> {
    if has_path(list, w.path@) {
        list
    } else {
        list.push(w)
    }
}

/// Register a deployed clone, unless a workspace at the same folder is
/// already registered.
pub fn register_once(list: &mut Vec<Workspace>, w: Workspace)
    ensures
        final(list)@ == registered(old(list)@, w),
{
    let mut i: usize = 0;
    while i < list.len()
        invariant
            i <= list.len(),
            forall|k: int| 0 <= k < i ==> !eq_ignore_case(#[trigger] list@[k].path@, w.path@),
        decreases list.len() - i,
    {
        if eq_ignore_ascii_case(list[i].path.as_str(), w.path.as_str()) {
            return;
        }
        i = i + 1;
    }
    list.push(w);
}

/// Registering the same folder twice is registering it once.
pub proof fn lemma_register_once_is_idempotent(list: Seq<Workspace>, w: Workspace)
    ensures
        registered(registered(list, w), w) == registered(list, w),
{
    if !has_path(list, w.path@) {
        assert(eq_ignore_case(list.push(w)[list.len() as int].path@, w.path@));
    }
}

// ------------------------------------------------------------- requests

/// A deployment from GitHub: the repository (`owner/name`), branch and
/// target environment, each trimmed and required, and the name of the
/// clone's folder (the repository's last `/` part).
pub open spec fn spec_deploy_request(repo: Seq<char>, branch: Seq<char>, target: Seq<char>) -> Result<(Seq<char>, Seq<char>, Seq<char>, Seq<char>), Seq<char>> {
    let r = spec_trim(repo);
    let b = spec_trim(branch);
    let t = spec_trim(target);
    if r.len() == 0 || !crate::text::contains_sub(r, "/"@) {
        Err("Choose a GitHub repository (owner/name)."@)
    } else if b.len() == 0 {
        Err("Choose a branch to deploy."@)
    } else if t.len() == 0 {
        Err("Choose a target environment."@)
    } else {
        Ok((r, b, t, crate::text::spec_split(r, '/').last()))
    }
}

pub fn deploy_request(repo: &str, branch: &str, target: &str) -> (r: Result<(String, String, String, String), String>)
    ensures
        match r {
            Ok((a, b, c, d)) => spec_deploy_request(repo@, branch@, target@) == Ok::<
                (Seq<char>, Seq<char>, Seq<char>, Seq<char>),
                Seq<char>,
            >((a@, b@, c@, d@)),
            Err(e) => spec_deploy_request(repo@, branch@, target@) == Err::<
                (Seq<char>, Seq<char>, Seq<char>, Seq<char>),
                Seq<char>,
            >(e@),
        },
{
    let r = trim(repo);
    let b = trim(branch);
    let t = trim(target);
    if r.as_str().unicode_len() == 0 || !crate::text::contains(r.as_str(), "/") {
        return Err(owned("Choose a GitHub repository (owner/name)."));
    }
    if b.as_str().unicode_len() == 0 {
        return Err(owned("Choose a branch to deploy."));
    }
    if t.as_str().unicode_len() == 0 {
        return Err(owned("Choose a target environment."));
    }
    let parts = crate::text::split_char(r.as_str(), '/');
    assert(views(parts@).len() >= 1);
    let leaf = parts[parts.len() - 1].clone();
    assert(leaf@ == crate::text::spec_split(r@, '/').last());
    Ok((r, b, t, leaf))
}

/// A repository name for `gh repo create`: trimmed, required, without spaces.
pub open spec fn spec_repo_name(name: Seq<char>) -> Result<Seq<char>, Seq<char>> {
    let n = spec_trim(name);
    if n.len() == 0 || crate::text::contains_sub(n, " "@) {
        Err("Enter a repository name without spaces (owner/name is allowed)."@)
    } else {
        Ok(n)
    }
}

pub fn repo_name(name: &str) -> (r: Result<String, String>)
    ensures
        match r {
            Ok(n) => spec_repo_name(name@) == Ok::<Seq<char>, Seq<char>>(n@),
            Err(e) => spec_repo_name(name@) == Err::<Seq<char>, Seq<char>>(e@),
        },
{
    let n = trim(name);
    if n.as_str().unicode_len() == 0 || crate::text::contains(n.as_str(), " ") {
        return Err(owned("Enter a repository name without spaces (owner/name is allowed)."));
    }
    Ok(n)
}

/// `gh repo create <name> --private|--public --source <folder> --remote
/// origin`, with `--push` when asked.
pub open spec fn spec_create_repo_args(name: Seq<char>, private: bool, source: Seq<char>, push: bool) -> Seq<Seq<char>> {
    seq![
        "repo"@,
        "create"@,
        name,
        if private {
            "--private"@
        } else {
            "--public"@
        },
        "--source"@,
        source,
        "--remote"@,
        "origin"@,
    ] + if push {
        seq!["--push"@]
    } else {
        seq![]
    }
}

pub fn create_repo_args(name: &str, private: bool, source: &str, push: bool) -> (a: Vec<String>)
    ensures
        views(a@) == spec_create_repo_args(name@, private, source@, push),
{
    let visibility = if private {
        owned("--private")
    } else {
        owned("--public")
    };
    let mut a = vec![
        owned("repo"),
        owned("create"),
        owned(name),
        visibility,
        owned("--source"),
        owned(source),
        owned("--remote"),
        owned("origin"),
    ];
    if push {
        a.push(owned("--push"));
    }
    assert(views(a@) =~= spec_create_repo_args(name@, private, source@, push));
    a
}

/// The message of a new workspace's first commit.
pub open spec fn spec_initial_commit_message(env: Seq<char>, skip_restore: bool) -> Seq<char> {
    if skip_restore {
        "Initial empty workspace"@
    } else {
        "Initial pull from "@ + env
    }
}

pub fn initial_commit_message(env: &str, skip_restore: bool) -> (r: String)
    ensures
        r@ == spec_initial_commit_message(env@, skip_restore),
{
    if skip_restore {
        owned("Initial empty workspace")
    } else {
        let mut r = owned("Initial pull from ");
        r.append(env);
        r
    }
}

/// The remote a new workspace is pushed to: the given URL trimmed, none when
/// it is missing or blank.
pub fn initial_remote(remote_url: Option<&str>) -> (r: Option<String>)
    ensures
        match remote_url {
            None => r is None,
            Some(u) => if spec_trim(u@).len() == 0 {
                r is None
            } else {
                r matches Some(t) && t@ == spec_trim(u@)
            },
        },
{
    match remote_url {
        None => None,
        Some(u) => {
            let t = trim(u);
            if t.as_str().unicode_len() == 0 {
                None
            } else {
                Some(t)
            }
        },
    }
}

/// What creating a GitHub repository logs when `gh` ends, its exit code, and
/// whether a push is to be recorded: on success the created line, with the
/// pushed line (and a recorded push) when the first commit was pushed; on a
/// failed run the hint; the error when `gh` could not run.
pub open spec fn spec_repo_outcome(run: Result<i32, Seq<char>>, push: bool) -> (Seq<Seq<char>>, i32, bool) {
    match run {
        Err(e) => (seq![e], 1, false),
        Ok(code) => if code == 0 {
            if push {
                (seq!["✓ GitHub repository created and set as origin."@, "✓ Pushed the initial commit."@], 0, true)
            } else {
                (seq!["✓ GitHub repository created and set as origin."@], 0, false)
            }
        } else {
            (
                seq![
                    "✗ gh repo create failed. If this is an auth error, sign in on Settings → GitHub first. If the name is taken, pick another."@,
                ],
                code,
                false,
            )
        },
    }
}

pub fn repo_outcome(run: Result<i32, String>, push: bool) -> (r: (Vec<String>, i32, bool))
    ensures
        (views(r.0@), r.1, r.2) == spec_repo_outcome(
            match run {
                Ok(c) => Ok(c),
                Err(e) => Err(e@),
            },
            push,
        ),
{
    match run {
        Err(e) => {
            let v = vec![e];
            assert(views(v@) =~= seq![v@[0]@]);
            (v, 1, false)
        },
        Ok(code) => if code == 0 {
            if push {
                let v = vec![
                    owned("✓ GitHub repository created and set as origin."),
                    owned("✓ Pushed the initial commit."),
                ];
                assert(views(v@) =~= seq![v@[0]@, v@[1]@]);
                (v, 0, true)
            } else {
                let v = vec![owned("✓ GitHub repository created and set as origin.")];
                assert(views(v@) =~= seq![v@[0]@]);
                (v, 0, false)
            }
        } else {
            let v = vec![
                owned(
                    "✗ gh repo create failed. If this is an auth error, sign in on Settings → GitHub first. If the name is taken, pick another.",
                ),
            ];
            assert(views(v@) =~= seq![v@[0]@]);
            (v, code, false)
        },
    }
}

/// `clio create-workspace -e <env>`, with `-a <code>` for an application.
pub open spec fn spec_create_workspace_args(env: Seq<char>, app_code: Option<Seq<char>>) -> Seq<Seq<char>> {
    seq!["create-workspace"@, "-e"@, env] + match app_code {
        Some(c) => seq!["-a"@, c],
        None => seq![],
    }
}

pub fn create_workspace_args(env: &str, app_code: Option<&str>) -> (a: Vec<String>)
    ensures
        views(a@) == spec_create_workspace_args(env@, match app_code {
            Some(c) => Some(c@),
            None => None,
        }),
{
    let mut a = vec![owned("create-workspace"), owned("-e"), owned(env)];
    match app_code {
        Some(c) => {
            a.push(owned("-a"));
            a.push(owned(c));
        },
        None => {},
    }
    assert(views(a@) =~= spec_create_workspace_args(env@, match app_code {
        Some(c) => Some(c@),
        None => None,
    }));
    a
}

/// `clio push-workspace -e <env>`, without the environment's backup when
/// asked.
pub open spec fn spec_push_workspace_args(env: Seq<char>, skip_backup: bool) -> Seq<Seq<char>> {
    seq!["push-workspace"@, "-e"@, env] + if skip_backup {
        seq!["--skip-backup"@, "true"@]
    } else {
        seq![]
    }
}

pub fn push_workspace_args(env: &str, skip_backup: bool) -> (a: Vec<String>)
    ensures
        views(a@) == spec_push_workspace_args(env@, skip_backup),
{
    let mut a = vec![owned("push-workspace"), owned("-e"), owned(env)];
    if skip_backup {
        a.push(owned("--skip-backup"));
        a.push(owned("true"));
    }
    assert(views(a@) =~= spec_push_workspace_args(env@, skip_backup));
    a
}

/// The line a finished pull logs: up to date, or how many files changed.
pub open spec fn spec_pull_report(changed: nat) -> Seq<char> {
    if changed == 0 {
        "✓ Already up to date — no changes in the cloud since last pull."@
    } else {
        "✓ Pulled — "@ + spec_decimal(changed) + " file(s) changed. Review and commit them on the workspace screen."@
    }
}

pub fn pull_report(changed: usize) -> (r: String)
    ensures
        r@ == spec_pull_report(changed as nat),
{
    if changed == 0 {
        owned("✓ Already up to date — no changes in the cloud since last pull.")
    } else {
        let mut r = owned("✓ Pulled — ");
        let n = decimal_usize(changed);
        r.append(n.as_str());
        r.append(" file(s) changed. Review and commit them on the workspace screen.");
        r
    }
}

// ------------------------------------------------------------- packages

/// Whether the workspace's package selection names `package` (ignoring
/// ASCII case).
pub open spec fn spec_has_package(names: Seq<Seq<char>>, package: Seq<char>) -> bool {
    exists|k: int| 0 <= k < names.len() && eq_ignore_case(#[trigger] names[k], package)
}

pub fn workspace_has_package(names: &Vec<String>, package: &str) -> (b: bool)
    ensures
        b == spec_has_package(views(names@), package@),
{
    let mut i: usize = 0;
    while i < names.len()
        invariant
            i <= names.len(),
            forall|k: int| 0 <= k < i ==> !eq_ignore_case(#[trigger] views(names@)[k], package@),
        decreases names.len() - i,
    {
        proof {
            assert(views(names@)[i as int] == names@[i as int]@);
        }
        if eq_ignore_ascii_case(names[i].as_str(), package) {
            return true;
        }
        i = i + 1;
    }
    false
}

/// The package names of a workspace's `.clio/workspaceSettings.json`: the
/// texts of its `Packages` (or `packages`) array; none when the document
/// could not be read or has no such array.
pub open spec fn spec_workspace_packages(settings: Option<JsonValue>) -> Seq<Seq<char>> {
    match settings {
        Some(doc) => match spec_as_array(spec_get_either(doc, "Packages"@, "packages"@)) {
            Some(items) => spec_texts(items),
            None => Seq::empty(),
        },
        None => Seq::empty(),
    }
}

pub fn workspace_packages(settings: Option<JsonValue>) -> (r: Vec<String>)
    ensures
        views(r@) == spec_workspace_packages(settings),
{
    match settings {
        Some(doc) => match as_array(get_either(&doc, "Packages", "packages")) {
            Some(items) => texts_of(items),
            None => Vec::new(),
        },
        None => Vec::new(),
    }
}

/// The selection sorted for the Packages tab, ignoring case.
pub fn sorted_package_names(names: Vec<String>) -> (out: Vec<String>)
    ensures
        sorted_by_lowercase(names@, views(names@), out@),
{
    let mut keys: Vec<String> = Vec::new();
    let mut i: usize = 0;
    while i < names.len()
        invariant
            i <= names.len(),
            views(keys@) == views(names@).take(i as int),
        decreases names.len() - i,
    {
        let ghost before = views(keys@);
        let k = names[i].clone();
        let ghost kv = k@;
        keys.push(k);
        proof {
            assert(views(names@)[i as int] == names@[i as int]@);
            assert(views(keys@) =~= before.push(kv));
        }
        i = i + 1;
        assert(views(keys@) =~= views(names@).take(i as int));
    }
    assert(views(names@).take(names.len() as int) =~= views(names@));
    let ghost given = names@;
    sort_by_lowercase(names, &keys)
}

/// Why a package cannot be added to a workspace: an invalid name, a missing
/// workspace folder (at `path`), a folder without clio workspace settings,
/// or a package already selected (ignoring case). Otherwise the trimmed
/// name.
pub open spec fn spec_add_package_check(package: Seq<char>, workspace: Seq<char>, path: Seq<char>, folder_exists: bool, configured: bool, selected: Seq<Seq<char>>) -> Result<Seq<char>, Seq<char>> {
    let p = spec_trim(package);
    if p.len() == 0 || crate::text::contains_sub(p, ","@) || p[0] == '-' {
        Err("Invalid package name."@)
    } else if !folder_exists {
        Err(spec_missing_folder(path))
    } else if !configured {
        Err("The selected folder is not a configured clio workspace."@)
    } else if spec_has_package(selected, p) {
        Err(p + " is already included in "@ + workspace + "."@)
    } else {
        Ok(p)
    }
}

pub fn add_package_check(package: &str, workspace: &str, path: &str, folder_exists: bool, configured: bool, selected: &Vec<String>) -> (r: Result<String, String>)
    ensures
        match r {
            Ok(p) => spec_add_package_check(package@, workspace@, path@, folder_exists, configured, views(selected@))
                == Ok::<Seq<char>, Seq<char>>(p@),
            Err(e) => spec_add_package_check(package@, workspace@, path@, folder_exists, configured, views(selected@))
                == Err::<Seq<char>, Seq<char>>(e@),
        },
{
    let p = trim(package);
    let cs = crate::text::chars_of(p.as_str());
    if cs.len() == 0 || crate::text::contains(p.as_str(), ",") || cs[0] == '-' {
        return Err(owned("Invalid package name."));
    }
    if !folder_exists {
        return Err(missing_folder(path));
    }
    if !configured {
        return Err(owned("The selected folder is not a configured clio workspace."));
    }
    if workspace_has_package(selected, p.as_str()) {
        let mut e = p.clone();
        e.append(" is already included in ");
        e.append(workspace);
        e.append(".");
        return Err(e);
    }
    Ok(p)
}

/// The error of a package added to a workspace with local changes.
pub open spec fn spec_add_package_clean(dirty: nat) -> Result<(), Seq<char>> {
    if dirty > 0 {
        Err("The workspace has "@ + spec_decimal(dirty)
            + " uncommitted change(s). Commit or discard them before adding another package, so unrelated changes never mix."@)
    } else {
        Ok(())
    }
}

pub fn add_package_clean(dirty: usize) -> (r: Result<(), String>)
    ensures
        match r {
            Ok(_) => spec_add_package_clean(dirty as nat) is Ok,
            Err(e) => spec_add_package_clean(dirty as nat) == Err::<(), Seq<char>>(e@),
        },
{
    if dirty > 0 {
        let mut e = owned("The workspace has ");
        let n = decimal_usize(dirty);
        e.append(n.as_str());
        e.append(
            " uncommitted change(s). Commit or discard them before adding another package, so unrelated changes never mix.",
        );
        return Err(e);
    }
    Ok(())
}

/// The error of a pull asked for on a workspace with local changes.
pub open spec fn spec_pull_check(dirty: nat) -> Result<(), Seq<char>> {
    if dirty > 0 {
        Err("The workspace has "@ + spec_decimal(dirty)
            + " uncommitted change(s). Commit or discard them before pulling, so cloud changes never mix with local edits."@)
    } else {
        Ok(())
    }
}

pub fn pull_check(dirty: usize) -> (r: Result<(), String>)
    ensures
        match r {
            Ok(_) => spec_pull_check(dirty as nat) is Ok,
            Err(e) => spec_pull_check(dirty as nat) == Err::<(), Seq<char>>(e@),
        },
{
    if dirty > 0 {
        let mut e = owned("The workspace has ");
        let n = decimal_usize(dirty);
        e.append(n.as_str());
        e.append(
            " uncommitted change(s). Commit or discard them before pulling, so cloud changes never mix with local edits.",
        );
        return Err(e);
    }
    Ok(())
}

/// The error for a workspace whose folder is gone.
pub open spec fn spec_missing_folder(path: Seq<char>) -> Seq<char> {
    "Workspace folder is missing: "@ + path
}

pub fn missing_folder(path: &str) -> (r: String)
    ensures
        r@ == spec_missing_folder(path@),
{
    let mut r = owned("Workspace folder is missing: ");
    r.append(path);
    r
}

/// A commit message: trimmed and required.
pub open spec fn spec_commit_message(message: Seq<char>) -> Result<Seq<char>, Seq<char>> {
    if spec_trim(message).len() == 0 {
        Err("Commit message is required."@)
    } else {
        Ok(spec_trim(message))
    }
}

pub fn commit_message(message: &str) -> (r: Result<String, String>)
    ensures
        match r {
            Ok(m) => spec_commit_message(message@) == Ok::<Seq<char>, Seq<char>>(m@),
            Err(e) => spec_commit_message(message@) == Err::<Seq<char>, Seq<char>>(e@),
        },
{
    let t = trim(message);
    if t.as_str().unicode_len() == 0 {
        Err(owned("Commit message is required."))
    } else {
        Ok(t)
    }
}

/// The refusal of a Git push while the remote has commits the workspace
/// lacks.
pub open spec fn spec_remote_ahead(behind: nat) -> Seq<char> {
    "REMOTE_AHEAD: origin has "@ + spec_decimal(behind)
        + " commit(s) you do not have. Another contributor pushed changes; pull/rebase before pushing to avoid conflicts."@
}

pub fn push_remote_check(behind: u32) -> (r: Result<(), String>)
    ensures
        behind == 0 <==> r is Ok,
        match r {
            Ok(_) => true,
            Err(e) => e@ == spec_remote_ahead(behind as nat),
        },
{
    if behind > 0 {
        let mut e = owned("REMOTE_AHEAD: origin has ");
        let n = crate::text::decimal(behind as u64);
        e.append(n.as_str());
        e.append(
            " commit(s) you do not have. Another contributor pushed changes; pull/rebase before pushing to avoid conflicts.",
        );
        return Err(e);
    }
    Ok(())
}

// ------------------------------------------------------------------ drift

/// The rows in exactly one of two snapshots.
pub open spec fn in_symmetric_difference(row: Seq<char>, a: Seq<Seq<char>>, b: Seq<Seq<char>>) -> bool {
    a.contains(row) != b.contains(row)
}

/// How a changed row is shown: `name version`.
pub open spec fn shown_row(row: Seq<char>) -> Seq<char> {
    spec_replace(row, "|"@, " "@)
}

/// What the refusal lists of two snapshots: distinct rows that are each in
/// exactly one of them, six of them, or all of them when there are fewer.
/// Which six (and in what order) is not part of the promise.
pub open spec fn drift_listing(raw: Seq<Seq<char>>, b: Seq<Seq<char>>, c: Seq<Seq<char>>) -> bool {
    &&& raw.no_duplicates()
    &&& raw.len() <= 6
    &&& forall|k: int| 0 <= k < raw.len() ==> in_symmetric_difference(#[trigger] raw[k], b, c)
    &&& (raw.len() == 6 || forall|r: Seq<char>| in_symmetric_difference(r, b, c) ==> raw.contains(r))
}

pub open spec fn shown_rows(raw: Seq<Seq<char>>) -> Seq<Seq<char>> {
    raw.map_values(|r: Seq<char>| shown_row(r))
}

/// The drift refusal naming the listed rows.
pub open spec fn drift_message(env: Seq<char>, listed: Seq<Seq<char>>) -> Seq<char> {
    "DRIFT: "@ + env + " has package changes you haven't pulled ("@ + spec_join(listed, ", "@)
        + "). Pull first so those changes reach git, or push anyway to proceed regardless."@
}

/// Check a push against the drift baseline: with `force`, without a
/// baseline, or when the environment's package list could not be read
/// (`current` is an error), the push goes ahead; otherwise a changed list is
/// refused, naming up to six rows that differ (with `|` shown as a space).
pub fn drift_check(env: &str, baseline: Option<&str>, current: Result<&str, &str>, force: bool) -> (r: Result<(), String>)
    ensures
        (force || baseline is None || current is Err || (match (baseline, current) {
            (Some(b), Ok(c)) => b@ == c@,
            _ => false,
        })) ==> r is Ok,
        match (baseline, current) {
            (Some(b), Ok(c)) => (!force && b@ != c@) ==> (match r {
                Ok(_) => false,
                Err(e) => exists|raw: Seq<Seq<char>>|
                    #![trigger drift_listing(raw, spec_lines(b@), spec_lines(c@))]
                    drift_listing(raw, spec_lines(b@), spec_lines(c@)) && e@ == drift_message(
                        env@,
                        shown_rows(raw),
                    ),
            }),
            _ => true,
        },
{
    if force {
        return Ok(());
    }
    let (b, c) = match (baseline, current) {
        (Some(b), Ok(c)) => (b, c),
        _ => return Ok(()),
    };
    if str_eq(b, c) {
        return Ok(());
    }
    let base = lines(b);
    let cur = lines(c);
    let ghost bl = spec_lines(b@);
    let ghost cl = spec_lines(c@);
    let mut raw: Vec<String> = Vec::new();
    let mut i: usize = 0;
    while i < cur.len() && raw.len() < 6
        invariant
            i <= cur.len(),
            bl == spec_lines(b@),
            cl == spec_lines(c@),
            views(base@) == bl,
            views(cur@) == cl,
            raw.len() <= 6,
            views(raw@).no_duplicates(),
            forall|k: int| 0 <= k < raw.len() ==> in_symmetric_difference(#[trigger] views(raw@)[k], bl, cl),
            raw.len() == 6 || forall|k: int|
                0 <= k < i && in_symmetric_difference(#[trigger] cl[k], bl, cl) ==> views(raw@).contains(cl[k]),
        decreases cur.len() - i,
    {
        let ghost before = views(raw@);
        push_if_changed(&mut raw, cur[i].as_str(), &cur, &base, b, c);
        proof {
            assert(views(cur@)[i as int] == cur@[i as int]@);
            if raw.len() < 6 {
                assert forall|k: int|
                    0 <= k < i + 1 && in_symmetric_difference(#[trigger] cl[k], bl, cl) implies views(raw@).contains(cl[k]) by {
                    if k < i {
                        let x = choose|x: int| 0 <= x < before.len() && before[x] == cl[k];
                        assert(views(raw@)[x] == cl[k]);
                    }
                }
            }
        }
        i = i + 1;
    }
    let mut j: usize = 0;
    while j < base.len() && raw.len() < 6
        invariant
            j <= base.len(),
            bl == spec_lines(b@),
            cl == spec_lines(c@),
            views(base@) == bl,
            views(cur@) == cl,
            raw.len() <= 6,
            views(raw@).no_duplicates(),
            forall|k: int| 0 <= k < raw.len() ==> in_symmetric_difference(#[trigger] views(raw@)[k], bl, cl),
            raw.len() == 6 || forall|r: Seq<char>| #[trigger] cl.contains(r) && in_symmetric_difference(r, bl, cl) ==> views(raw@).contains(r),
            raw.len() == 6 || forall|k: int|
                0 <= k < j && in_symmetric_difference(#[trigger] bl[k], bl, cl) ==> views(raw@).contains(bl[k]),
        decreases base.len() - j,
    {
        let ghost before = views(raw@);
        push_if_changed(&mut raw, base[j].as_str(), &cur, &base, b, c);
        proof {
            assert(views(base@)[j as int] == base@[j as int]@);
            if raw.len() < 6 {
                assert forall|r: Seq<char>| #[trigger] cl.contains(r) && in_symmetric_difference(r, bl, cl) implies views(raw@).contains(r) by {
                    let x = choose|x: int| 0 <= x < before.len() && before[x] == r;
                    assert(views(raw@)[x] == r);
                }
                assert forall|k: int|
                    0 <= k < j + 1 && in_symmetric_difference(#[trigger] bl[k], bl, cl) implies views(raw@).contains(bl[k]) by {
                    if k < j {
                        let x = choose|x: int| 0 <= x < before.len() && before[x] == bl[k];
                        assert(views(raw@)[x] == bl[k]);
                    }
                }
            }
        }
        j = j + 1;
    }
    proof {
        if raw.len() < 6 {
            assert forall|r: Seq<char>| in_symmetric_difference(r, bl, cl) implies views(raw@).contains(r) by {
                if cl.contains(r) {
                } else {
                    let k = choose|k: int| 0 <= k < bl.len() && bl[k] == r;
                    assert(in_symmetric_difference(bl[k], bl, cl));
                }
            }
        }
        assert(drift_listing(views(raw@), bl, cl));
    }
    let mut listed: Vec<String> = Vec::new();
    let mut k: usize = 0;
    while k < raw.len()
        invariant
            k <= raw.len(),
            views(listed@) == shown_rows(views(raw@).take(k as int)),
        decreases raw.len() - k,
    {
        proof {
            reveal_strlit("|");
        }
        let shown = replace(raw[k].as_str(), "|", " ");
        let ghost before = views(listed@);
        listed.push(shown);
        proof {
            assert(views(raw@)[k as int] == raw@[k as int]@);
            assert(views(listed@) =~= before.push(shown_row(views(raw@)[k as int])));
            assert(shown_rows(views(raw@).take(k + 1)) =~= shown_rows(views(raw@).take(k as int)).push(
                shown_row(views(raw@)[k as int]),
            ));
        }
        k = k + 1;
    }
    assert(views(raw@).take(raw.len() as int) =~= views(raw@));
    let mut e = owned("DRIFT: ");
    e.append(env);
    e.append(" has package changes you haven't pulled (");
    let list = join(&listed, ", ");
    e.append(list.as_str());
    e.append("). Pull first so those changes reach git, or push anyway to proceed regardless.");
    proof {
        assert(e@ == drift_message(env@, views(listed@)));
    }
    Err(e)
}

/// Add `row` to `raw` when it is in exactly one of the two snapshots and not
/// listed yet.
fn push_if_changed(raw: &mut Vec<String>, row: &str, cur: &Vec<String>, base: &Vec<String>, b: &str, c: &str)
    requires
        old(raw).len() < 6,
        views(base@) == spec_lines(b@),
        views(cur@) == spec_lines(c@),
        views(old(raw)@).no_duplicates(),
        forall|k: int|
            0 <= k < old(raw).len() ==> in_symmetric_difference(
                #[trigger] views(old(raw)@)[k],
                spec_lines(b@),
                spec_lines(c@),
            ),
    ensures
        final(raw).len() <= 6,
        views(final(raw)@).no_duplicates(),
        forall|k: int|
            0 <= k < final(raw).len() ==> in_symmetric_difference(
                #[trigger] views(final(raw)@)[k],
                spec_lines(b@),
                spec_lines(c@),
            ),
        views(old(raw)@).is_prefix_of(views(final(raw)@)),
        in_symmetric_difference(row@, spec_lines(b@), spec_lines(c@)) ==> views(final(raw)@).contains(row@),
{
    let in_cur = crate::text::position(cur, row);
    let in_base = crate::text::position(base, row);
    proof {
        crate::text::lemma_position_found(views(cur@), row@);
        crate::text::lemma_position_found(views(base@), row@);
    }
    let ghost before = views(raw@);
    if in_cur.is_some() != in_base.is_some() {
        let seen = crate::text::position(raw, row);
        proof {
            crate::text::lemma_position_found(views(raw@), row@);
        }
        if seen.is_none() {
            let owned_row = owned(row);
            raw.push(owned_row);
            proof {
                assert(views(raw@) =~= before.push(row@));
                assert(views(raw@)[before.len() as int] == row@);
                assert forall|x: int, y: int| 0 <= x < y < views(raw@).len() implies views(raw@)[x]
                    != views(raw@)[y] by {
                    if y == before.len() {
                        assert(before[x] == views(raw@)[x]);
                        assert(before.contains(before[x]));
                    }
                }
            }
        }
    }
    assert(before.is_prefix_of(views(raw@)));
}

} // verus!
