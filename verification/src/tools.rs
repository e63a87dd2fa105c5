//! Locating the external CLIs DevHub drives (clio, git, gh, dotnet).
//!
//! A tool is looked up in order: the user's override, the inherited `PATH`,
//! the live `PATH` from the registry, then the tool's well-known install
//! folders; the answer is cached until the cache is cleared. The file-system
//! probes are the caller's; this module decides the names to probe, the
//! folders, what the registry's `PATH` value holds, and what is reported.
use vstd::prelude::*;
use crate::assoc::{get, spec_get, spec_upsert, upsert};
use crate::text::{
    ascii_lower_seq, chars_of, eq_ignore_ascii_case, eq_ignore_case, find_char, first_occ, index_of,
    join, lines, owned, position, position_of, spec_join, spec_lines, spec_split, spec_to_lowercase,
    spec_trim, spec_words, split_char, str_eq, string_of_range, to_lowercase, trim, views, words,
};

verus! {

/// Where a tool resolved, for the Settings screen.
#[derive(Clone, Debug, PartialEq, Eq)]
pub struct ToolPath {
    pub program: String,
    /// Where it resolved, if at all.
    pub path: Option<String>,
    /// The user's override, if one is set.
    pub custom: Option<String>,
    pub searched: Vec<String>,
}

/// The path to run `program` with: where it was found, else the bare name, so
/// the OS gets its normal chance and a failure names the tool the user knows.
pub fn resolve(program: &str, located: Option<String>) -> (r: String)
    ensures
        r@ == match located {
            Some(p) => p@,
            None => program@,
        },
{
    match located {
        Some(p) => p,
        None => owned(program),
    }
}

// ------------------------------------------------------------------ cache

/// Memoized lookups, hits and misses alike: program name to where it was
/// found.
pub struct ToolCache {
    entries: Vec<(String, Option<String>)>,
}

impl ToolCache {
    pub closed spec fn spec_entries(self) -> Seq<(String, Option<String>)> {
        self.entries@
    }

    pub fn new() -> (c: Self)
        ensures
            c.spec_entries() == Seq::<(String, Option<String>)>::empty(),
    {
        ToolCache { entries: Vec::new() }
    }

    /// The memoized answer for `program`: `None` when it was never looked up.
    pub fn locate(&self, program: &str) -> (r: Option<Option<String>>)
        ensures
            match r {
                Some(found) => spec_get(self.spec_entries(), program@) == Some(found),
                None => spec_get(self.spec_entries(), program@) is None,
            },
    {
        match get(&self.entries, program) {
            Some(found) => Some(
                match found {
                    Some(p) => Some(p.clone()),
                    None => None,
                },
            ),
            None => None,
        }
    }

    /// Remember where `program` was found (or that it was not).
    pub fn remember(&mut self, program: String, found: Option<String>)
        ensures
            final(self).spec_entries() == spec_upsert(old(self).spec_entries(), program, found),
    {
        upsert(&mut self.entries, program, found);
    }

    /// Keep a search's answer for `program` unless one is kept already, and
    /// return the kept answer: the first answer stands until the cache is
    /// cleared.
    pub fn settle(&mut self, program: String, found: Option<String>) -> (r: Option<String>)
        ensures
            final(self).spec_entries() == spec_settle(old(self).spec_entries(), program, found),
            spec_get(final(self).spec_entries(), program@) == Some(r),
    {
        match get(&self.entries, program.as_str()) {
            Some(kept) => {
                let r = match kept {
                    Some(p) => Some(p.clone()),
                    None => None,
                };
                r
            },
            None => {
                let ghost before = self.entries@;
                let r = match &found {
                    Some(p) => Some(p.clone()),
                    None => None,
                };
                proof {
                    lemma_cache_reads_back(before, program, found);
                }
                upsert(&mut self.entries, program, found);
                r
            },
        }
    }

    /// Drop every memoized lookup, so a tool installed while DevHub is open is
    /// picked up.
    pub fn clear_cache(&mut self)
        ensures
            final(self).spec_entries() == Seq::<(String, Option<String>)>::empty(),
    {
        self.entries = Vec::new();
    }
}

/// Clearing the cache forgets every lookup, and remembering an answer is what
/// a later lookup returns.
pub proof fn lemma_cache_reads_back(entries: Seq<(String, Option<String>)>, program: String, found: Option<String>)
    ensures
        spec_get(spec_upsert(entries, program, found), program@) == Some(found),
        spec_get(Seq::<(String, Option<String>)>::empty(), program@) is None,
    decreases entries.len(),
{
    if entries.len() == 0 {
        assert(spec_upsert(entries, program, found) == seq![(program, found)]);
    } else if entries[0].0@ == program@ {
        let m = spec_upsert(entries, program, found);
        assert(m[0] == (entries[0].0, found));
    } else if crate::text::seq_lt(program@, entries[0].0@) {
        let m = spec_upsert(entries, program, found);
        assert(m[0] == (program, found));
    } else {
        lemma_cache_reads_back(entries.drop_first(), program, found);
        let r = spec_upsert(entries.drop_first(), program, found);
        let m = spec_upsert(entries, program, found);
        assert(m == seq![entries[0]] + r);
        assert(m[0] == entries[0]);
        assert(m.drop_first() =~= r);
    }
}

/// What settling a search's answer leaves in the cache.
pub open spec fn spec_settle(entries: Seq<(String, Option<String>)>, program: String, found: Option<String>) -> Seq<(String, Option<String>)> {
    if spec_get(entries, program@) is Some {
        entries
    } else {
        spec_upsert(entries, program, found)
    }
}

/// A lookup keeps its answer until the cache is cleared: once the cache
/// holds an answer for a program, settling any search's answer (for that
/// program or another) leaves it as it was.
pub proof fn lemma_cache_keeps_answer(entries: Seq<(String, Option<String>)>, p: Seq<char>, q: String, found: Option<String>)
    requires
        spec_get(entries, p) is Some,
    ensures
        spec_get(spec_settle(entries, q, found), p) == spec_get(entries, p),
{
    if spec_get(entries, q@) is None {
        crate::assoc::lemma_get_upsert(entries, q, found, p);
    }
}

// ----------------------------------------------------------------- search

/// One place a tool is looked for: a file named outright, or a file name in
/// a folder.
#[derive(Debug, PartialEq, Eq)]
pub enum Probe {
    File(String),
    InDir(String, String),
}

pub enum ProbeView {
    File(Seq<char>),
    InDir(Seq<char>, Seq<char>),
}

impl View for Probe {
    type V = ProbeView;

    open spec fn view(&self) -> ProbeView {
        match self {
            Probe::File(f) => ProbeView::File(f@),
            Probe::InDir(d, n) => ProbeView::InDir(d@, n@),
        }
    }
}

pub open spec fn probe_views(v: Seq<Probe>) -> Seq<ProbeView> {
    v.map_values(|p: Probe| p@)
}

/// Every file name in every folder, folder by folder.
pub open spec fn in_dirs(dirs: Seq<Seq<char>>, names: Seq<Seq<char>>) -> Seq<ProbeView>
    decreases dirs.len(),
{
    if dirs.len() == 0 {
        seq![]
    } else {
        in_dirs(dirs.drop_last(), names) + names.map_values(|n: Seq<char>| ProbeView::InDir(dirs.last(), n))
    }
}

/// Where a tool is looked for, in order; the first that exists wins: the
/// user's pinned file, then each candidate name in each `PATH` folder, then
/// in each well-known install folder.
pub open spec fn spec_search_plan(custom: Option<Seq<char>>, path_dirs: Seq<Seq<char>>, well_known: Seq<Seq<char>>, names: Seq<Seq<char>>) -> Seq<ProbeView> {
    (match custom {
        Some(c) => seq![ProbeView::File(c)],
        None => seq![],
    }) + in_dirs(path_dirs, names) + in_dirs(well_known, names)
}

fn push_in_dirs(out: &mut Vec<Probe>, dirs: &Vec<String>, names: &Vec<String>)
    ensures
        probe_views(final(out)@) == probe_views(old(out)@) + in_dirs(views(dirs@), views(names@)),
{
    let ghost start = probe_views(out@);
    let ghost dv = views(dirs@);
    let ghost nv = views(names@);
    let mut i: usize = 0;
    while i < dirs.len()
        invariant
            i <= dirs.len(),
            dv == views(dirs@),
            nv == views(names@),
            probe_views(out@) == start + in_dirs(dv.take(i as int), nv),
        decreases dirs.len() - i,
    {
        let ghost mid = probe_views(out@);
        let mut k: usize = 0;
        while k < names.len()
            invariant
                k <= names.len(),
                i < dirs.len(),
                dv == views(dirs@),
                nv == views(names@),
                probe_views(out@) == mid + nv.take(k as int).map_values(|n: Seq<char>| ProbeView::InDir(dv[i as int], n)),
            decreases names.len() - k,
        {
            let ghost before = probe_views(out@);
            out.push(Probe::InDir(dirs[i].clone(), names[k].clone()));
            proof {
                assert(dv[i as int] == dirs@[i as int]@);
                assert(nv[k as int] == names@[k as int]@);
                assert(probe_views(out@) =~= before.push(ProbeView::InDir(dv[i as int], nv[k as int])));
                assert(nv.take(k + 1).map_values(|n: Seq<char>| ProbeView::InDir(dv[i as int], n)) =~= nv.take(
                    k as int,
                ).map_values(|n: Seq<char>| ProbeView::InDir(dv[i as int], n)).push(ProbeView::InDir(dv[i as int], nv[k as int])));
            }
            k = k + 1;
        }
        proof {
            assert(nv.take(names.len() as int) =~= nv);
            assert(dv.take(i + 1).drop_last() =~= dv.take(i as int));
            assert(dv.take(i + 1).last() == dv[i as int]);
            assert(probe_views(out@) =~= start + in_dirs(dv.take(i + 1), nv));
        }
        i = i + 1;
    }
    assert(dv.take(dirs.len() as int) =~= dv);
}

/// Where to look for a tool, in order.
pub fn search_plan(custom: Option<String>, path_dirs: &Vec<String>, well_known: &Vec<String>, names: &Vec<String>) -> (plan: Vec<Probe>)
    ensures
        probe_views(plan@) == spec_search_plan(
            match custom {
                Some(c) => Some(c@),
                None => None,
            },
            views(path_dirs@),
            views(well_known@),
            views(names@),
        ),
{
    let mut plan: Vec<Probe> = Vec::new();
    let ghost c = match &custom {
        Some(c) => Some(c@),
        None => None::<Seq<char>>,
    };
    match custom {
        Some(file) => {
            plan.push(Probe::File(file));
        },
        None => {},
    }
    assert(probe_views(plan@) =~= match c {
        Some(x) => seq![ProbeView::File(x)],
        None => Seq::<ProbeView>::empty(),
    });
    push_in_dirs(&mut plan, path_dirs, names);
    push_in_dirs(&mut plan, well_known, names);
    plan
}

// ------------------------------------------------------------- candidates

/// The file names probed for `program` in a folder: the bare name outside
/// Windows or when it has an extension; on Windows every `PATHEXT` extension
/// (lowercased, blank entries skipped; `.COM;.EXE;.BAT;.CMD` when `PATHEXT` is
/// unset) appended, then the bare name.
pub open spec fn spec_candidates(program: Seq<char>, windows: bool, has_extension: bool, pathext: Option<Seq<char>>) -> Seq<Seq<char>> {
    if !windows || has_extension {
        seq![program]
    } else {
        let exts = match pathext {
            Some(p) => p,
            None => ".COM;.EXE;.BAT;.CMD"@,
        };
        ext_names(program, spec_split(exts, ';')).push(program)
    }
}

pub open spec fn ext_names(program: Seq<char>, exts: Seq<Seq<char>>) -> Seq<Seq<char>>
    decreases exts.len(),
{
    if exts.len() == 0 {
        seq![]
    } else {
        let rest = ext_names(program, exts.drop_last());
        let e = spec_trim(exts.last());
        if e.len() == 0 {
            rest
        } else {
            rest.push(program + spec_to_lowercase(e))
        }
    }
}

pub fn candidates(program: &str, windows: bool, has_extension: bool, pathext: Option<&str>) -> (names: Vec<String>)
    ensures
        views(names@) == spec_candidates(program@, windows, has_extension, match pathext {
            Some(p) => Some(p@),
            None => None,
        }),
{
    if !windows || has_extension {
        let names = vec![owned(program)];
        assert(views(names@) =~= seq![program@]);
        return names;
    }
    let exts = match pathext {
        Some(p) => owned(p),
        None => owned(".COM;.EXE;.BAT;.CMD"),
    };
    let parts = split_char(exts.as_str(), ';');
    let ghost pv = views(parts@);
    let mut names: Vec<String> = Vec::new();
    let mut i: usize = 0;
    while i < parts.len()
        invariant
            i <= parts.len(),
            pv == views(parts@),
            views(names@) == ext_names(program@, pv.take(i as int)),
        decreases parts.len() - i,
    {
        proof {
            assert(pv.take(i + 1).drop_last() =~= pv.take(i as int));
            assert(pv.take(i + 1).last() == parts@[i as int]@);
        }
        let e = trim(parts[i].as_str());
        if e.as_str().unicode_len() > 0 {
            let lowered = to_lowercase(e.as_str());
            let mut name = owned(program);
            name.append(lowered.as_str());
            let ghost before = views(names@);
            names.push(name);
            assert(views(names@) =~= before.push(name@));
        }
        i = i + 1;
    }
    assert(pv.take(parts.len() as int) =~= pv);
    let ghost before = views(names@);
    names.push(owned(program));
    assert(views(names@) =~= before.push(program@));
    names
}

// ------------------------------------------------------- install folders

/// The environment a tool search reads: the home folder (`USERPROFILE`, else
/// `HOME`) and the Windows install roots, each when set.
#[derive(Clone, Debug, PartialEq, Eq)]
pub struct ToolEnv {
    pub home: Option<String>,
    pub program_files: Option<String>,
    pub program_files_x86: Option<String>,
    pub local: Option<String>,
    pub program_data: Option<String>,
}

pub open spec fn opt_seq(o: Option<String>) -> Option<Seq<char>> {
    match o {
        Some(s) => Some(s@),
        None => None,
    }
}

/// A folder under an install root, when the root is set.
pub open spec fn under(base: Option<Seq<char>>, tail: Seq<char>) -> Seq<(Seq<char>, Seq<char>)> {
    match base {
        Some(b) => seq![(b, tail)],
        None => seq![],
    }
}

/// The default install folders of `program`, as (root, relative folder)
/// pairs, then the absolute Unix folders as (folder, empty): the tool's own
/// folders, the package managers' shim folders, then Homebrew and the system
/// `bin` folders.
pub open spec fn spec_well_known_dirs(program: Seq<char>, env: ToolEnv) -> Seq<(Seq<char>, Seq<char>)> {
    let own = if program == "gh"@ {
        under(opt_seq(env.program_files), "GitHub CLI"@) + under(opt_seq(env.program_files_x86), "GitHub CLI"@)
            + under(opt_seq(env.local), "Programs\\GitHub CLI"@)
    } else if program == "git"@ {
        under(opt_seq(env.program_files), "Git\\cmd"@) + under(opt_seq(env.program_files_x86), "Git\\cmd"@)
            + under(opt_seq(env.local), "Programs\\Git\\cmd"@)
    } else if program == "clio"@ {
        under(opt_seq(env.home), ".dotnet\\tools"@)
    } else if program == "dotnet"@ {
        under(opt_seq(env.program_files), "dotnet"@) + under(opt_seq(env.local), "Microsoft\\dotnet"@)
    } else {
        seq![]
    };
    own + under(opt_seq(env.local), "Microsoft\\WinGet\\Links"@) + under(opt_seq(env.program_data), "chocolatey\\bin"@)
        + under(opt_seq(env.home), "scoop\\shims"@) + seq![
        ("/opt/homebrew/bin"@, seq![]),
        ("/usr/local/bin"@, seq![]),
        ("/usr/bin"@, seq![]),
    ]
}

pub open spec fn pairs_view(v: Seq<(String, String)>) -> Seq<(Seq<char>, Seq<char>)> {
    v.map_values(|p: (String, String)| (p.0@, p.1@))
}

fn push_under(dirs: &mut Vec<(String, String)>, base: &Option<String>, tail: &str)
    ensures
        pairs_view(final(dirs)@) == pairs_view(old(dirs)@) + under(opt_seq(*base), tail@),
{
    match base {
        Some(b) => {
            let ghost before = pairs_view(dirs@);
            dirs.push((b.clone(), owned(tail)));
            assert(pairs_view(dirs@) =~= before + under(opt_seq(*base), tail@));
        },
        None => {
            assert(pairs_view(dirs@) =~= pairs_view(dirs@) + under(opt_seq(*base), tail@));
        },
    }
}

/// The default install folders of `program` (the caller joins each relative
/// folder onto its root).
pub fn well_known_dirs(program: &str, env: &ToolEnv) -> (dirs: Vec<(String, String)>)
    ensures
        pairs_view(dirs@) == spec_well_known_dirs(program@, *env),
{
    let mut dirs: Vec<(String, String)> = Vec::new();
    assert(pairs_view(dirs@) =~= Seq::<(Seq<char>, Seq<char>)>::empty());
    if str_eq(program, "gh") {
        push_under(&mut dirs, &env.program_files, "GitHub CLI");
        push_under(&mut dirs, &env.program_files_x86, "GitHub CLI");
        push_under(&mut dirs, &env.local, "Programs\\GitHub CLI");
    } else if str_eq(program, "git") {
        push_under(&mut dirs, &env.program_files, "Git\\cmd");
        push_under(&mut dirs, &env.program_files_x86, "Git\\cmd");
        push_under(&mut dirs, &env.local, "Programs\\Git\\cmd");
    } else if str_eq(program, "clio") {
        push_under(&mut dirs, &env.home, ".dotnet\\tools");
    } else if str_eq(program, "dotnet") {
        push_under(&mut dirs, &env.program_files, "dotnet");
        push_under(&mut dirs, &env.local, "Microsoft\\dotnet");
    }
    push_under(&mut dirs, &env.local, "Microsoft\\WinGet\\Links");
    push_under(&mut dirs, &env.program_data, "chocolatey\\bin");
    push_under(&mut dirs, &env.home, "scoop\\shims");
    let ghost before = pairs_view(dirs@);
    dirs.push((owned("/opt/homebrew/bin"), String::new()));
    dirs.push((owned("/usr/local/bin"), String::new()));
    dirs.push((owned("/usr/bin"), String::new()));
    assert(pairs_view(dirs@) =~= before + seq![
        ("/opt/homebrew/bin"@, Seq::<char>::empty()),
        ("/usr/local/bin"@, Seq::<char>::empty()),
        ("/usr/bin"@, Seq::<char>::empty()),
    ]);
    dirs
}

// -------------------------------------------------------------- reporting

/// The "we looked here" list: `PATH`, then each folder once, in order.
pub open spec fn spec_searched_locations(dirs: Seq<Seq<char>>) -> Seq<Seq<char>>
    decreases dirs.len(),
{
    if dirs.len() == 0 {
        seq!["PATH"@]
    } else {
        let seen = spec_searched_locations(dirs.drop_last());
        if seen.contains(dirs.last()) {
            seen
        } else {
            seen.push(dirs.last())
        }
    }
}

/// The folders searched for a tool, for error messages, given the folders of
/// its well-known install paths.
pub fn searched_locations(dirs: &Vec<String>) -> (seen: Vec<String>)
    ensures
        views(seen@) == spec_searched_locations(views(dirs@)),
        views(seen@).len() >= 1 && views(seen@)[0] == "PATH"@,
{
    let ghost dv = views(dirs@);
    let mut seen: Vec<String> = vec![owned("PATH")];
    assert(views(seen@) =~= spec_searched_locations(dv.take(0)));
    let mut i: usize = 0;
    while i < dirs.len()
        invariant
            i <= dirs.len(),
            dv == views(dirs@),
            views(seen@) == spec_searched_locations(dv.take(i as int)),
            views(seen@).len() >= 1 && views(seen@)[0] == "PATH"@,
        decreases dirs.len() - i,
    {
        proof {
            assert(dv.take(i + 1).drop_last() =~= dv.take(i as int));
            assert(dv.take(i + 1).last() == dirs@[i as int]@);
        }
        let found = position(&seen, dirs[i].as_str());
        proof {
            crate::text::lemma_position_found(views(seen@), dirs@[i as int]@);
        }
        if found.is_none() {
            let ghost before = views(seen@);
            seen.push(dirs[i].clone());
            assert(views(seen@) =~= before.push(dirs@[i as int]@));
        }
        i = i + 1;
    }
    assert(dv.take(dirs.len() as int) =~= dv);
    seen
}

/// `dirs` followed by each folder of `live` that is not listed yet.
pub open spec fn spec_search_dirs(dirs: Seq<Seq<char>>, live: Seq<Seq<char>>) -> Seq<Seq<char>>
    decreases live.len(),
{
    if live.len() == 0 {
        dirs
    } else {
        let merged = spec_search_dirs(dirs, live.drop_last());
        if merged.contains(live.last()) {
            merged
        } else {
            merged.push(live.last())
        }
    }
}

/// The folders searched for a tool: `PATH` as inherited, then the folders of
/// the live `PATH` (read back from the registry) that it lacks, so a tool
/// installed after login is found without signing out. Folders compare as
/// text.
pub fn search_dirs(inherited: Vec<String>, live: &Vec<String>) -> (dirs: Vec<String>)
    ensures
        views(dirs@) == spec_search_dirs(views(inherited@), views(live@)),
{
    let ghost lv = views(live@);
    let ghost start = views(inherited@);
    let mut dirs = inherited;
    let mut i: usize = 0;
    assert(lv.take(0) =~= Seq::<Seq<char>>::empty());
    while i < live.len()
        invariant
            i <= live.len(),
            lv == views(live@),
            views(dirs@) == spec_search_dirs(start, lv.take(i as int)),
        decreases live.len() - i,
    {
        proof {
            assert(lv.take(i + 1).drop_last() =~= lv.take(i as int));
            assert(lv.take(i + 1).last() == live@[i as int]@);
        }
        let found = position(&dirs, live[i].as_str());
        proof {
            crate::text::lemma_position_found(views(dirs@), live@[i as int]@);
        }
        if found.is_none() {
            let ghost before = views(dirs@);
            dirs.push(live[i].clone());
            assert(views(dirs@) =~= before.push(live@[i as int]@));
        }
        i = i + 1;
    }
    assert(lv.take(live.len() as int) =~= lv);
    dirs
}

pub open spec fn spec_not_found(program: Seq<char>, searched: Seq<Seq<char>>) -> Seq<char> {
    "Could not find "@ + program + ". Searched: "@ + spec_join(searched, ", "@)
        + ". If it is installed somewhere else, set its path in Settings."@
}

/// The message shown when a tool cannot be found anywhere.
pub fn not_found(program: &str, searched: &Vec<String>) -> (r: String)
    ensures
        r@ == spec_not_found(program@, views(searched@)),
{
    let mut r = owned("Could not find ");
    r.append(program);
    r.append(". Searched: ");
    let list = join(searched, ", ");
    r.append(list.as_str());
    r.append(". If it is installed somewhere else, set its path in Settings.");
    r
}

/// The override to store for a Settings edit: `None` clears it (an empty
/// path), else the trimmed path, which must name an existing file.
pub open spec fn spec_override(path: Seq<char>, is_file: bool) -> Result<Option<Seq<char>>, Seq<char>> {
    let t = spec_trim(path);
    if t.len() == 0 {
        Ok(None)
    } else if !is_file {
        Err("No file at "@ + t + "."@)
    } else {
        Ok(Some(t))
    }
}

pub fn override_for(path: &str, is_file: bool) -> (r: Result<Option<String>, String>)
    ensures
        match r {
            Ok(o) => spec_override(path@, is_file) == Ok::<Option<Seq<char>>, Seq<char>>(opt_seq(o)),
            Err(e) => spec_override(path@, is_file) == Err::<Option<Seq<char>>, Seq<char>>(e@),
        },
{
    let t = trim(path);
    if t.as_str().unicode_len() == 0 {
        return Ok(None);
    }
    if !is_file {
        let mut e = owned("No file at ");
        e.append(t.as_str());
        e.append(".");
        return Err(e);
    }
    Ok(Some(t))
}

// ------------------------------------------------------ the live PATH

/// The value of the first variable named `name` ignoring ASCII case.
pub open spec fn spec_var(vars: Seq<(Seq<char>, Seq<char>)>, name: Seq<char>) -> Option<Seq<char>>
    decreases vars.len(),
{
    if vars.len() == 0 {
        None
    } else if eq_ignore_case(vars[0].0, name) {
        Some(vars[0].1)
    } else {
        spec_var(vars.drop_first(), name)
    }
}

/// `%VAR%` substituted from `vars`; an unknown name is left as written, and a
/// `%` without a closing one is kept.
pub open spec fn spec_expand_env(raw: Seq<char>, vars: Seq<(Seq<char>, Seq<char>)>) -> Seq<char>
    decreases raw.len(),
{
    let open = index_of(raw, '%');
    if open < 0 {
        raw
    } else {
        proof {
            crate::text::lemma_index_of_bound(raw, '%');
        }
        let after = raw.skip(open + 1);
        let close = index_of(after, '%');
        if close < 0 {
            raw.take(open) + "%"@ + after
        } else {
            proof {
                crate::text::lemma_index_of_bound(after, '%');
            }
            let name = after.take(close);
            raw.take(open) + (match spec_var(vars, name) {
                Some(v) => v,
                None => "%"@ + name + "%"@,
            }) + spec_expand_env(after.skip(close + 1), vars)
        }
    }
}

/// The text substituted for one `%name%` reference.
pub open spec fn substitution(vars: Seq<(Seq<char>, Seq<char>)>, name: Seq<char>) -> Seq<char> {
    match spec_var(vars, name) {
        Some(v) => v,
        None => "%"@ + name + "%"@,
    }
}

proof fn lemma_expand_step(rest: Seq<char>, vars: Seq<(Seq<char>, Seq<char>)>, open: int)
    requires
        0 <= open < rest.len(),
        index_of(rest, '%') == open,
    ensures
        index_of(rest.skip(open + 1), '%') < 0 ==> spec_expand_env(rest, vars) == rest.take(open) + "%"@
            + rest.skip(open + 1),
        index_of(rest.skip(open + 1), '%') >= 0 ==> spec_expand_env(rest, vars) == rest.take(open)
            + substitution(vars, rest.skip(open + 1).take(index_of(rest.skip(open + 1), '%')))
            + spec_expand_env(rest.skip(open + 1).skip(index_of(rest.skip(open + 1), '%') + 1), vars),
{
}

fn lookup_var(vars: &Vec<(String, String)>, name: &str) -> (r: Option<String>)
    ensures
        opt_seq(r) == spec_var(pairs_view(vars@), name@),
{
    let mut i: usize = 0;
    proof {
        assert(pairs_view(vars@).skip(0) =~= pairs_view(vars@));
    }
    while i < vars.len()
        invariant
            i <= vars.len(),
            spec_var(pairs_view(vars@), name@) == spec_var(pairs_view(vars@).skip(i as int), name@),
        decreases vars.len() - i,
    {
        proof {
            assert(pairs_view(vars@).skip(i as int)[0] == (vars@[i as int].0@, vars@[i as int].1@));
            assert(pairs_view(vars@).skip(i as int).drop_first() =~= pairs_view(vars@).skip(i + 1));
        }
        if eq_ignore_ascii_case(vars[i].0.as_str(), name) {
            return Some(vars[i].1.clone());
        }
        i = i + 1;
    }
    None
}

/// Substitute `%VAR%` references from a snapshot of the environment
/// (variable names compare ignoring ASCII case, as Windows does).
#[verifier::rlimit(90)]
pub fn expand_env(raw: &str, vars: &Vec<(String, String)>) -> (r: String)
    ensures
        r@ == spec_expand_env(raw@, pairs_view(vars@)),
{
    let v = chars_of(raw);
    let ghost pv = pairs_view(vars@);
    let mut out = String::new();
    let mut pos: usize = 0;
    proof {
        assert(v@.skip(0) =~= v@);
    }
    loop
        invariant
            pos <= v.len(),
            v@ == raw@,
            pv == pairs_view(vars@),
            out@ + spec_expand_env(v@.skip(pos as int), pv) == spec_expand_env(raw@, pv),
        decreases v.len() - pos,
    {
        let ghost rest = v@.skip(pos as int);
        let open = find_char(&v, '%', pos);
        if open >= v.len() {
            let tail = string_of_range(&v, pos, v.len());
            proof {
                assert(tail@ =~= rest);
            }
            out.append(tail.as_str());
            return out;
        }
        let head = string_of_range(&v, pos, open);
        let close = find_char(&v, '%', open + 1);
        proof {
            assert(head@ =~= rest.take(open - pos));
            assert(rest.skip(open - pos + 1) =~= v@.skip(open + 1));
            lemma_expand_step(rest, pv, open - pos);
        }
        if close >= v.len() {
            let after = string_of_range(&v, open + 1, v.len());
            proof {
                assert(after@ =~= v@.skip(open + 1));
            }
            out.append(head.as_str());
            out.append("%");
            out.append(after.as_str());
            return out;
        }
        let name = string_of_range(&v, open + 1, close);
        proof {
            assert(name@ =~= v@.skip(open + 1).take(close - open - 1));
            assert(v@.skip(open + 1).skip(close - open - 1 + 1) =~= v@.skip(close + 1));
        }
        let ghost out_before = out@;
        out.append(head.as_str());
        match lookup_var(vars, name.as_str()) {
            Some(value) => out.append(value.as_str()),
            None => {
                out.append("%");
                out.append(name.as_str());
                out.append("%");
            },
        }
        proof {
            assert(out@ =~= out_before + head@ + substitution(pv, name@));
        }
        pos = close + 1;
    }
}

/// The folders of one line of `reg query <key> /v Path` output
/// (`    Path    REG_EXPAND_SZ    C:\a;%USERPROFILE%\b`): when its first word
/// is `Path` (any case), the text after its second word, trimmed, with
/// `%VAR%` expanded, split at `;`, each entry trimmed, empty ones dropped.
pub open spec fn reg_line_dirs(line: Seq<char>, vars: Seq<(Seq<char>, Seq<char>)>) -> Seq<Seq<char>> {
    let ws = spec_words(line);
    if ws.len() < 2 || !eq_ignore_case(ws[0], "Path"@) {
        seq![]
    } else {
        let start = first_occ(line, ws[1]) + ws[1].len();
        nonempty_trimmed(spec_split(spec_expand_env(spec_trim(line.skip(start)), vars), ';'))
    }
}

pub open spec fn nonempty_trimmed(entries: Seq<Seq<char>>) -> Seq<Seq<char>>
    decreases entries.len(),
{
    if entries.len() == 0 {
        seq![]
    } else {
        let rest = nonempty_trimmed(entries.drop_last());
        let e = spec_trim(entries.last());
        if e.len() == 0 {
            rest
        } else {
            rest.push(e)
        }
    }
}

pub open spec fn reg_dirs(ls: Seq<Seq<char>>, vars: Seq<(Seq<char>, Seq<char>)>) -> Seq<Seq<char>>
    decreases ls.len(),
{
    if ls.len() == 0 {
        seq![]
    } else {
        reg_dirs(ls.drop_last(), vars) + reg_line_dirs(ls.last(), vars)
    }
}

fn nonempty_trimmed_of(entries: &Vec<String>) -> (out: Vec<String>)
    ensures
        views(out@) == nonempty_trimmed(views(entries@)),
{
    let ghost ev = views(entries@);
    let mut out: Vec<String> = Vec::new();
    let mut i: usize = 0;
    while i < entries.len()
        invariant
            i <= entries.len(),
            ev == views(entries@),
            views(out@) == nonempty_trimmed(ev.take(i as int)),
        decreases entries.len() - i,
    {
        proof {
            assert(ev.take(i + 1).drop_last() =~= ev.take(i as int));
            assert(ev.take(i + 1).last() == entries@[i as int]@);
        }
        let e = trim(entries[i].as_str());
        if e.as_str().unicode_len() > 0 {
            let ghost before = views(out@);
            out.push(e);
            assert(views(out@) =~= before.push(e@));
        }
        i = i + 1;
    }
    assert(ev.take(entries.len() as int) =~= ev);
    out
}

fn reg_line_dirs_of(line: &str, vars: &Vec<(String, String)>) -> (out: Vec<String>)
    ensures
        views(out@) == reg_line_dirs(line@, pairs_view(vars@)),
{
    let ws = words(line);
    if ws.len() < 2 || !eq_ignore_ascii_case(ws[0].as_str(), "Path") {
        let out: Vec<String> = Vec::new();
        proof {
            if ws.len() >= 2 {
                assert(views(ws@)[0] == ws@[0]@);
            }
        }
        assert(views(out@) =~= Seq::<Seq<char>>::empty());
        return out;
    }
    proof {
        assert(views(ws@)[0] == ws@[0]@);
        assert(views(ws@)[1] == ws@[1]@);
    }
    let lc = chars_of(line);
    let kc = chars_of(ws[1].as_str());
    let at = match crate::text::find_sub(&lc, &kc) {
        Some(at) => at,
        None => {
            proof {
                lemma_word_occurs(line@, 1);
            }
            let out: Vec<String> = Vec::new();
            return out;
        },
    };
    proof {
        crate::text::lemma_first_occ_facts(lc@, kc@);
        assert(crate::text::occurs_at(lc@, kc@, at as int));
    }
    let end: usize = lc.len();
    let rest = string_of_range(&lc, at + kc.len(), end);
    proof {
        assert(rest@ =~= line@.skip(at + kc@.len()));
    }
    let value = trim(rest.as_str());
    let expanded = expand_env(value.as_str(), vars);
    let entries = split_char(expanded.as_str(), ';');
    nonempty_trimmed_of(&entries)
}

proof fn lemma_word_occurs(s: Seq<char>, k: int)
    requires
        0 <= k < spec_words(s).len(),
    ensures
        first_occ(s, spec_words(s)[k]) >= 0,
{
    crate::text::lemma_words_occur(s, k);
}

/// Pull the folders out of `reg query ... /v Path` output.
pub fn parse_reg_path(out: &str, vars: &Vec<(String, String)>) -> (dirs: Vec<String>)
    ensures
        views(dirs@) == reg_dirs(spec_lines(out@), pairs_view(vars@)),
{
    let ls = lines(out);
    let ghost lv = views(ls@);
    let mut dirs: Vec<String> = Vec::new();
    let mut i: usize = 0;
    while i < ls.len()
        invariant
            i <= ls.len(),
            lv == views(ls@),
            views(dirs@) == reg_dirs(lv.take(i as int), pairs_view(vars@)),
        decreases ls.len() - i,
    {
        proof {
            assert(lv.take(i + 1).drop_last() =~= lv.take(i as int));
            assert(lv.take(i + 1).last() == ls@[i as int]@);
        }
        let found = reg_line_dirs_of(ls[i].as_str(), vars);
        let mut j: usize = 0;
        let ghost before = views(dirs@);
        assert(views(dirs@) =~= before + views(found@).take(0));
        while j < found.len()
            invariant
                j <= found.len(),
                views(dirs@) == before + views(found@).take(j as int),
            decreases found.len() - j,
        {
            let ghost prev = views(dirs@);
            assert(views(found@)[j as int] == found@[j as int]@);
            dirs.push(found[j].clone());
            assert(views(dirs@) =~= prev.push(found@[j as int]@));
            j = j + 1;
            assert(views(dirs@) =~= before + views(found@).take(j as int));
        }
        assert(views(found@).take(found.len() as int) =~= views(found@));
        i = i + 1;
    }
    assert(lv.take(ls.len() as int) =~= lv);
    dirs
}

} // verus!
