//! Packages of an environment: reading clio's package table, the lock state
//! of each package, and planning the clio command of a package action.
//!
//! Every action is checked against a strict allow-list before anything runs;
//! the destructive confirmation itself belongs to the UI.
use vstd::prelude::*;
use crate::json::{
    as_array, as_bool, as_text, get, get_either, spec_as_array, spec_as_bool, spec_as_str, spec_get,
    spec_get_either, text_of, text_or_empty, JsonValue,
};
use crate::sql::SqlResult;
use crate::text::{
    seq_lt, chars_of, concat2, contains, contains_sub, get_view, is_digit, is_whitespace, is_ws, join, lines, owned,
    position_ignore_case, position_ignoring_case, signed_decimal, sort_by_key, spec_join, spec_lines,
    spec_signed_decimal, spec_sort_by_key, spec_split, spec_to_lowercase, spec_trim, spec_words,
    split_char, starts_with, starts_with_str, str_eq, to_lowercase, trim, views, words,
};
use crate::clio::{diagnose, spec_clio_diagnose, starts_with_digit};

verus! {

#[derive(Clone, Debug, PartialEq, Eq)]
pub struct PackageInfo {
    pub name: String,
    pub version: String,
    pub maintainer: String,
}

pub struct PackageInfoView {
    pub name: Seq<char>,
    pub version: Seq<char>,
    pub maintainer: Seq<char>,
}

impl View for PackageInfo {
    type V = PackageInfoView;

    open spec fn view(&self) -> PackageInfoView {
        PackageInfoView { name: self.name@, version: self.version@, maintainer: self.maintainer@ }
    }
}

pub open spec fn packages_view(v: Seq<PackageInfo>) -> Seq<PackageInfoView> {
    v.map_values(|p: PackageInfo| p@)
}

/// Whether a package is locked, keyed by name.
#[derive(Clone, Debug, PartialEq, Eq)]
pub struct PackageLockState {
    pub name: String,
    pub locked: bool,
}

// ------------------------------------------------------------- sorting

/// The packages as the list shows them: by name ignoring case, packages of
/// equal names in their given order.
pub open spec fn sorted_by_name(input: Seq<PackageInfo>, output: Seq<PackageInfo>) -> bool {
    exists|pairs: Seq<(String, PackageInfo)>|
        #[trigger] name_keyed(pairs, input) && output == values_of(spec_sort_by_key(pairs))
}

pub open spec fn name_keyed(pairs: Seq<(String, PackageInfo)>, input: Seq<PackageInfo>) -> bool {
    &&& pairs.len() == input.len()
    &&& forall|k: int|
        0 <= k < input.len() ==> (#[trigger] pairs[k]).1 == input[k] && pairs[k].0@ == spec_to_lowercase(
            input[k].name@,
        )
}

pub open spec fn values_of(pairs: Seq<(String, PackageInfo)>) -> Seq<PackageInfo> {
    pairs.map_values(|p: (String, PackageInfo)| p.1)
}

/// Sort packages by name ignoring case (a stable sort).
/// Packages are listed by name ignoring case: the result holds as many
/// packages as were given, each one of them, and no package's lowercased
/// name sorts before that of a package listed earlier.
pub proof fn lemma_packages_listed_by_lowercase_name(input: Seq<PackageInfo>, output: Seq<PackageInfo>)
    requires
        sorted_by_name(input, output),
    ensures
        output.len() == input.len(),
        forall|k: int| 0 <= k < output.len() ==> input.contains(#[trigger] output[k]),
        forall|i: int, j: int|
            0 <= i < j < output.len() ==> !seq_lt(
                spec_to_lowercase(#[trigger] output[j].name@),
                spec_to_lowercase(#[trigger] output[i].name@),
            ),
{
    let pairs = choose|pairs: Seq<(String, PackageInfo)>|
        #[trigger] name_keyed(pairs, input) && output == values_of(spec_sort_by_key(pairs));
    let sorted = spec_sort_by_key(pairs);
    crate::text::lemma_sort_elements(pairs);
    crate::text::lemma_sort_ascending(pairs);
    assert forall|k: int| 0 <= k < sorted.len() implies (#[trigger] sorted[k]).0@ == spec_to_lowercase(sorted[k].1.name@)
        && input.contains(sorted[k].1) by {
        let w = choose|w: int| 0 <= w < pairs.len() && pairs[w] == sorted[k];
        assert(pairs[w].1 == input[w]);
    }
    assert forall|k: int| 0 <= k < output.len() implies input.contains(#[trigger] output[k]) by {
        assert(output[k] == sorted[k].1);
    }
    assert forall|i: int, j: int| 0 <= i < j < output.len() implies !seq_lt(
        spec_to_lowercase(#[trigger] output[j].name@),
        spec_to_lowercase(#[trigger] output[i].name@),
    ) by {
        assert(output[i] == sorted[i].1 && output[j] == sorted[j].1);
        assert(sorted[i].0@ == spec_to_lowercase(sorted[i].1.name@));
        assert(sorted[j].0@ == spec_to_lowercase(sorted[j].1.name@));
    }
}

pub fn sort_packages(packages: Vec<PackageInfo>) -> (out: Vec<PackageInfo>)
    ensures
        sorted_by_name(packages@, out@),
{
    let ghost input = packages@;
    let mut rest = packages;
    let total: usize = rest.len();
    let mut reversed: Vec<PackageInfo> = Vec::new();
    proof {
        assert(input.take(input.len() as int) =~= input);
    }
    while rest.len() > 0
        invariant
            input.len() == rest.len() + reversed.len(),
            input.len() == total,
            rest@ == input.take(rest.len() as int),
            forall|k: int| 0 <= k < reversed.len() ==> reversed@[k] == input[input.len() - 1 - k],
        decreases rest.len(),
    {
        let x = rest.pop().unwrap();
        reversed.push(x);
        assert(rest@ =~= input.take(rest.len() as int));
    }
    let mut pairs: Vec<(String, PackageInfo)> = Vec::new();
    let mut taken: usize = 0;
    while reversed.len() > 0
        invariant
            taken + reversed.len() == input.len(),
            input.len() == total,
            forall|k: int| 0 <= k < reversed.len() ==> reversed@[k] == input[input.len() - 1 - k],
            name_keyed(pairs@, input.take(taken as int)),
        decreases reversed.len(),
    {
        let x = reversed.pop().unwrap();
        proof {
            assert(x == input[taken as int]);
        }
        let key = to_lowercase(x.name.as_str());
        let ghost before = pairs@;
        pairs.push((key, x));
        proof {
            assert forall|k: int| 0 <= k < taken + 1 implies (#[trigger] pairs@[k]).1 == input.take(
                taken + 1,
            )[k] && pairs@[k].0@ == spec_to_lowercase(input.take(taken + 1)[k].name@) by {
                if k < taken {
                    assert(pairs@[k] == before[k]);
                    assert(input.take(taken + 1)[k] == input.take(taken as int)[k]);
                }
            }
        }
        taken = taken + 1;
    }
    proof {
        assert(input.take(input.len() as int) =~= input);
    }
    let ghost keyed = pairs@;
    let sorted = sort_by_key(pairs);
    let ghost all = sorted@;
    let mut back = sorted;
    let mut queue: Vec<(String, PackageInfo)> = Vec::new();
    let n: usize = back.len();
    proof {
        assert(all.take(all.len() as int) =~= all);
    }
    while back.len() > 0
        invariant
            all.len() == back.len() + queue.len(),
            all.len() == n,
            back@ == all.take(back.len() as int),
            forall|k: int| 0 <= k < queue.len() ==> queue@[k] == all[all.len() - 1 - k],
        decreases back.len(),
    {
        let x = back.pop().unwrap();
        queue.push(x);
        assert(back@ =~= all.take(back.len() as int));
    }
    let mut out: Vec<PackageInfo> = Vec::new();
    let mut done: usize = 0;
    while queue.len() > 0
        invariant
            done + queue.len() == all.len(),
            all.len() == n,
            forall|k: int| 0 <= k < queue.len() ==> queue@[k] == all[all.len() - 1 - k],
            out@ == values_of(all.take(done as int)),
        decreases queue.len(),
    {
        let x = queue.pop().unwrap();
        proof {
            assert(x == all[done as int]);
        }
        out.push(x.1);
        done = done + 1;
        assert(out@ =~= values_of(all.take(done as int)));
    }
    proof {
        assert(all.take(all.len() as int) =~= all);
        assert(name_keyed(keyed, input));
    }
    out
}

// ------------------------------------------------------- the table form

/// A line of clio's package table that is not a package row: blank, a log
/// line (`[...]`), the header (`Name ...`), or a separator of dashes.
pub open spec fn is_table_noise(t: Seq<char>) -> bool {
    t.len() == 0 || t[0] == '[' || starts_with(t, "Name "@) || forall|i: int|
        0 <= i < t.len() ==> (#[trigger] t[i] == '-' || t[i] == '─' || is_ws(t[i]))
}

/// The package of one table line: name, a version starting with a digit, and
/// the rest of the words as the maintainer.
pub open spec fn table_package(line: Seq<char>) -> Option<PackageInfoView> {
    let t = spec_trim(line);
    if is_table_noise(t) {
        None
    } else {
        let ws = spec_words(t);
        if ws.len() < 2 || !starts_with_digit(ws[1]) {
            None
        } else {
            Some(PackageInfoView { name: ws[0], version: ws[1], maintainer: spec_join(ws.skip(2), " "@) })
        }
    }
}

pub open spec fn table_packages(ls: Seq<Seq<char>>) -> Seq<PackageInfoView>
    decreases ls.len(),
{
    if ls.len() == 0 {
        seq![]
    } else {
        let rest = table_packages(ls.drop_last());
        match table_package(ls.last()) {
            Some(p) => rest.push(p),
            None => rest,
        }
    }
}

fn is_table_noise_str(t: &str) -> (b: bool)
    ensures
        b == is_table_noise(t@),
{
    let v = chars_of(t);
    if v.len() == 0 || v[0] == '[' || starts_with_str(t, "Name ") {
        return true;
    }
    let mut i: usize = 0;
    while i < v.len()
        invariant
            i <= v.len(),
            v@ == t@,
            v@.len() > 0 && v@[0] != '[' && !starts_with(t@, "Name "@),
            forall|k: int| 0 <= k < i ==> (#[trigger] v@[k] == '-' || v@[k] == '─' || is_ws(v@[k])),
        decreases v.len() - i,
    {
        if !(v[i] == '-' || v[i] == '─' || is_whitespace(v[i])) {
            assert(!(t@[i as int] == '-' || t@[i as int] == '─' || is_ws(t@[i as int])));
            return false;
        }
        i = i + 1;
    }
    assert(forall|k: int| 0 <= k < t@.len() ==> (#[trigger] t@[k] == '-' || t@[k] == '─' || is_ws(t@[k])));
    true
}

fn table_package_of(line: &str) -> (r: Option<PackageInfo>)
    ensures
        match r {
            Some(p) => table_package(line@) == Some(p@),
            None => table_package(line@) is None,
        },
{
    let t = trim(line);
    if is_table_noise_str(t.as_str()) {
        return None;
    }
    let ws = words(t.as_str());
    if ws.len() < 2 {
        return None;
    }
    proof {
        assert(views(ws@)[0] == ws@[0]@);
        assert(views(ws@)[1] == ws@[1]@);
    }
    let vc = chars_of(ws[1].as_str());
    if !(vc.len() > 0 && is_digit(vc[0])) {
        return None;
    }
    let mut rest: Vec<String> = Vec::new();
    let mut i: usize = 2;
    assert(views(rest@) =~= views(ws@).subrange(2, 2));
    while i < ws.len()
        invariant
            2 <= i <= ws.len(),
            views(rest@) == views(ws@).subrange(2, i as int),
        decreases ws.len() - i,
    {
        let ghost before = views(rest@);
        assert(views(ws@)[i as int] == ws@[i as int]@);
        rest.push(ws[i].clone());
        assert(views(rest@) =~= before.push(ws@[i as int]@));
        i = i + 1;
        assert(views(rest@) =~= views(ws@).subrange(2, i as int));
    }
    assert(views(ws@).skip(2) =~= views(ws@).subrange(2, views(ws@).len() as int));
    let maintainer = join(&rest, " ");
    Some(PackageInfo { name: ws[0].clone(), version: ws[1].clone(), maintainer })
}

/// Parse the human-readable `clio list-packages` table; clio may prepend log
/// lines and render a separator row below the header. Sorted by name
/// ignoring case.
pub fn parse_package_list(raw: &str) -> (packages: Vec<PackageInfo>)
    ensures
        exists|found: Seq<PackageInfo>|
            packages_view(found) == table_packages(spec_lines(raw@)) && #[trigger] sorted_by_name(
                found,
                packages@,
            ),
{
    let ls = lines(raw);
    let ghost lv = views(ls@);
    let mut found: Vec<PackageInfo> = Vec::new();
    let mut i: usize = 0;
    while i < ls.len()
        invariant
            i <= ls.len(),
            lv == views(ls@),
            packages_view(found@) == table_packages(lv.take(i as int)),
        decreases ls.len() - i,
    {
        proof {
            assert(lv.take(i + 1).drop_last() =~= lv.take(i as int));
            assert(lv.take(i + 1).last() == ls@[i as int]@);
        }
        match table_package_of(ls[i].as_str()) {
            Some(p) => {
                let ghost before = packages_view(found@);
                found.push(p);
                assert(packages_view(found@) =~= before.push(p@));
            },
            None => {},
        }
        i = i + 1;
    }
    assert(lv.take(ls.len() as int) =~= lv);
    let ghost unsorted = found@;
    let out = sort_packages(found);
    assert(sorted_by_name(unsorted, out@));
    out
}

/// The packages of clio's JSON listing, given the descriptors it held: those
/// without a name are dropped, the rest sorted by name ignoring case.
pub fn packages_from_descriptors(descriptors: Vec<PackageInfo>) -> (out: Vec<PackageInfo>)
    ensures
        exists|named: Seq<PackageInfo>|
            named == descriptors@.filter(|p: PackageInfo| p.name@.len() > 0) && #[trigger] sorted_by_name(
                named,
                out@,
            ),
{
    let ghost all = descriptors@;
    let mut named: Vec<PackageInfo> = Vec::new();
    let mut rest = descriptors;
    let total: usize = rest.len();
    let mut reversed: Vec<PackageInfo> = Vec::new();
    proof {
        assert(all.take(all.len() as int) =~= all);
    }
    while rest.len() > 0
        invariant
            all.len() == rest.len() + reversed.len(),
            all.len() == total,
            rest@ == all.take(rest.len() as int),
            forall|k: int| 0 <= k < reversed.len() ==> reversed@[k] == all[all.len() - 1 - k],
        decreases rest.len(),
    {
        let x = rest.pop().unwrap();
        reversed.push(x);
        assert(rest@ =~= all.take(rest.len() as int));
    }
    let mut taken: usize = 0;
    proof {
        reveal(Seq::filter);
        assert(all.take(0).filter(|p: PackageInfo| p.name@.len() > 0) =~= Seq::<PackageInfo>::empty());
    }
    while reversed.len() > 0
        invariant
            taken + reversed.len() == all.len(),
            all.len() == total,
            forall|k: int| 0 <= k < reversed.len() ==> reversed@[k] == all[all.len() - 1 - k],
            named@ == all.take(taken as int).filter(|p: PackageInfo| p.name@.len() > 0),
        decreases reversed.len(),
    {
        let x = reversed.pop().unwrap();
        proof {
            assert(x == all[taken as int]);
            reveal(Seq::filter);
            assert(all.take(taken + 1).drop_last() =~= all.take(taken as int));
        }
        if x.name.as_str().unicode_len() > 0 {
            named.push(x);
        }
        taken = taken + 1;
    }
    proof {
        assert(all.take(all.len() as int) =~= all);
    }
    let ghost kept = named@;
    let out = sort_packages(named);
    assert(sorted_by_name(kept, out@));
    out
}

// ------------------------------------------------------------- listing JSON

/// What one package descriptor of clio's JSON says: each field under its
/// PascalCase name, else its camelCase one; empty where it is not text.
pub open spec fn package_of_json(d: JsonValue) -> PackageInfoView {
    PackageInfoView {
        name: text_or_empty(spec_get_either(d, "Name"@, "name"@)),
        version: text_or_empty(spec_get_either(d, "PackageVersion"@, "packageVersion"@)),
        maintainer: text_or_empty(spec_get_either(d, "Maintainer"@, "maintainer"@)),
    }
}

/// The descriptors among the rows, in order: each row's `Descriptor` (or
/// `descriptor`) member; a row without one is skipped.
pub open spec fn descriptors_of(rows: Seq<JsonValue>) -> Seq<JsonValue>
    decreases rows.len(),
{
    if rows.len() == 0 {
        Seq::empty()
    } else {
        let init = descriptors_of(rows.drop_last());
        match spec_get_either(rows.last(), "Descriptor"@, "descriptor"@) {
            Some(d) => init.push(d),
            None => init,
        }
    }
}

/// The error a listing document reports with `"ok": false`: its
/// `error.message`, or a fixed text when it has none.
pub open spec fn package_json_error(v: JsonValue) -> Option<Seq<char>> {
    if spec_as_bool(spec_get(v, "ok"@)) == Some(false) {
        let message = match spec_get(v, "error"@) {
            Some(e) => spec_as_str(spec_get(e, "message"@)),
            None => None,
        };
        match message {
            Some(m) => Some(m),
            None => Some("clio could not list packages"@),
        }
    } else {
        None
    }
}

/// `out` is the package list of `rows`: one package per descriptor, those
/// without a name dropped, sorted by name.
pub open spec fn listed_packages(rows: Seq<JsonValue>, out: Seq<PackageInfo>) -> bool {
    exists|raw: Seq<PackageInfo>|
        #[trigger] packages_view(raw) == descriptors_of(rows).map_values(|d: JsonValue| package_of_json(d))
            && sorted_by_name(raw.filter(|p: PackageInfo| p.name@.len() > 0), out)
}

/// What a listing document gives: its error, its packages, or why it has none.
pub open spec fn package_listing_outcome(v: JsonValue, r: Result<Vec<PackageInfo>, String>) -> bool {
    match package_json_error(v) {
        Some(m) => r matches Err(e) && e@ == m,
        None => match spec_as_array(spec_get(v, "data"@)) {
            None => r matches Err(e) && e@ == "clio package JSON has no data array."@,
            Some(rows) => r matches Ok(out) && listed_packages(rows, out@),
        },
    }
}

/// One package descriptor of clio's JSON.
pub fn package_from_json(d: &JsonValue) -> (p: PackageInfo)
    ensures
        p@ == package_of_json(*d),
{
    PackageInfo {
        name: text_of(get_either(d, "Name", "name")),
        version: text_of(get_either(d, "PackageVersion", "packageVersion")),
        maintainer: text_of(get_either(d, "Maintainer", "maintainer")),
    }
}

/// The packages of a listing document.
pub fn packages_from_json(v: &JsonValue) -> (r: Result<Vec<PackageInfo>, String>)
    ensures
        package_listing_outcome(*v, r),
{
    match as_bool(get(v, "ok")) {
        Some(false) => {
            let message = match get(v, "error") {
                Some(e) => get(e, "message"),
                None => None,
            };
            return match as_text(message) {
                Some(m) => Err(m),
                None => Err(owned("clio could not list packages")),
            };
        },
        _ => {},
    }
    let rows: &Vec<JsonValue> = match as_array(get(v, "data")) {
        Some(items) => items,
        None => return Err(owned("clio package JSON has no data array.")),
    };
    let mut raw: Vec<PackageInfo> = Vec::new();
    let mut i: usize = 0;
    proof {
        assert(rows@.take(0) =~= Seq::<JsonValue>::empty());
        assert(packages_view(raw@) =~= Seq::<PackageInfoView>::empty());
    }
    while i < rows.len()
        invariant
            i <= rows.len(),
            packages_view(raw@) == descriptors_of(rows@.take(i as int)).map_values(
                |d: JsonValue| package_of_json(d),
            ),
        decreases rows.len() - i,
    {
        proof {
            assert(rows@.take(i + 1).drop_last() =~= rows@.take(i as int));
            assert(rows@.take(i + 1).last() == rows@[i as int]);
        }
        match get_either(&rows[i], "Descriptor", "descriptor") {
            Some(d) => {
                let p = package_from_json(d);
                let ghost before = raw@;
                raw.push(p);
                proof {
                    let ds = descriptors_of(rows@.take(i as int));
                    assert(raw@ =~= before.push(p));
                    assert(descriptors_of(rows@.take(i + 1)) == ds.push(*d));
                    assert(packages_view(raw@) =~= packages_view(before).push(p@));
                    assert(ds.push(*d).map_values(|d: JsonValue| package_of_json(d)) =~= ds.map_values(
                        |d: JsonValue| package_of_json(d),
                    ).push(package_of_json(*d)));
                }
            },
            None => {
                proof {
                    assert(descriptors_of(rows@.take(i + 1)) == descriptors_of(rows@.take(i as int)));
                }
            },
        }
        i = i + 1;
    }
    proof {
        assert(rows@.take(rows.len() as int) =~= rows@);
    }
    let ghost all = raw@;
    let out = packages_from_descriptors(raw);
    proof {
        let named = choose|named: Seq<PackageInfo>|
            named == all.filter(|p: PackageInfo| p.name@.len() > 0) && #[trigger] sorted_by_name(named, out@);
        assert(sorted_by_name(all.filter(|p: PackageInfo| p.name@.len() > 0), out@));
        assert(packages_view(all) == descriptors_of(rows@).map_values(|d: JsonValue| package_of_json(d)));
    }
    Ok(out)
}

/// Read clio's JSON package listing from the first JSON document of its
/// output (a warning may follow it): `first` is that document, the reason it
/// could not be read, or nothing when the output holds none.
pub fn parse_package_json(first: Option<Result<JsonValue, String>>) -> (r: Result<Vec<PackageInfo>, String>)
    ensures
        match first {
            None => r matches Err(e) && e@ == "clio returned no JSON."@,
            Some(Err(m)) => r matches Err(e) && e@ == "Invalid clio package JSON: "@ + m@,
            Some(Ok(v)) => package_listing_outcome(v, r),
        },
{
    match first {
        None => Err(owned("clio returned no JSON.")),
        Some(Err(m)) => Err(concat2("Invalid clio package JSON: ", m.as_str())),
        Some(Ok(v)) => packages_from_json(&v),
    }
}

/// The error of a failed clio listing (`list-packages`, `list-apps`): the
/// exit code and trimmed output, and the diagnosis when one is known.
pub open spec fn spec_list_failure(command: Seq<char>, env: Seq<char>, code: i32, output: Seq<char>) -> Seq<char> {
    let base = "clio "@ + command + " failed for "@ + env + " (exit "@ + spec_signed_decimal(code as int) + "): "@
        + spec_trim(output);
    match spec_clio_diagnose(output) {
        Some(hint) => base + " — "@ + hint,
        None => base,
    }
}

pub fn list_failure(command: &str, env: &str, code: i32, output: &str) -> (r: String)
    ensures
        r@ == spec_list_failure(command@, env@, code, output@),
{
    let mut r = owned("clio ");
    r.append(command);
    r.append(" failed for ");
    r.append(env);
    r.append(" (exit ");
    let c = signed_decimal(code);
    r.append(c.as_str());
    r.append("): ");
    let t = trim(output);
    r.append(t.as_str());
    match diagnose(output) {
        Some(hint) => {
            r.append(" — ");
            r.append(hint.as_str());
        },
        None => {},
    }
    r
}

// ----------------------------------------------------------- lock states

/// The lock-state query: every package's `InstallType`.
pub open spec fn spec_lock_states_sql() -> Seq<char> {
    "SELECT p.\"Name\", p.\"InstallType\" FROM \"SysPackage\" p ORDER BY p.\"Name\""@
}

pub fn lock_states_sql() -> (r: String)
    ensures
        r@ == spec_lock_states_sql(),
{
    owned("SELECT p.\"Name\", p.\"InstallType\" FROM \"SysPackage\" p ORDER BY p.\"Name\"")
}

pub struct LockStateView {
    pub name: Seq<char>,
    pub locked: bool,
}

pub open spec fn lock_states_view(v: Seq<PackageLockState>) -> Seq<LockStateView> {
    v.map_values(|s: PackageLockState| LockStateView { name: s.name@, locked: s.locked })
}

/// The lock state of one result row: none without a non-blank name or an
/// `InstallType` cell; locked when `InstallType` is `1` (`clio lock-package`
/// sets it so).
pub open spec fn row_lock_state(row: Seq<Seq<char>>, name_at: int, type_at: int) -> Option<LockStateView> {
    match get_view(row, name_at) {
        None => None,
        Some(raw) => if spec_trim(raw).len() == 0 {
            None
        } else {
            match get_view(row, type_at) {
                None => None,
                Some(t) => Some(LockStateView { name: spec_trim(raw), locked: spec_trim(t) == "1"@ }),
            }
        },
    }
}

pub open spec fn row_lock_states(rows: Seq<Seq<Seq<char>>>, name_at: int, type_at: int) -> Seq<LockStateView>
    decreases rows.len(),
{
    if rows.len() == 0 {
        seq![]
    } else {
        let rest = row_lock_states(rows.drop_last(), name_at, type_at);
        match row_lock_state(rows.last(), name_at, type_at) {
            Some(s) => rest.push(s),
            None => rest,
        }
    }
}

/// The lock states of the lock-state query's result, its columns found by
/// name ignoring case; an error when `Name` or `InstallType` is missing.
pub open spec fn spec_lock_states(columns: Seq<Seq<char>>, rows: Seq<Seq<Seq<char>>>) -> Result<Seq<LockStateView>, Seq<char>> {
    let name_at = position_ignore_case(columns, "Name"@);
    let type_at = position_ignore_case(columns, "InstallType"@);
    if name_at < 0 || type_at < 0 {
        Err("SysPackage did not return Name and InstallType."@)
    } else {
        Ok(row_lock_states(rows, name_at, type_at))
    }
}

pub fn lock_states(result: &SqlResult) -> (r: Result<Vec<PackageLockState>, String>)
    ensures
        match r {
            Ok(v) => spec_lock_states(views(result.columns@), crate::sql::table_view(result.rows@)) == Ok::<
                Seq<LockStateView>,
                Seq<char>,
            >(lock_states_view(v@)),
            Err(e) => spec_lock_states(views(result.columns@), crate::sql::table_view(result.rows@)) == Err::<
                Seq<LockStateView>,
                Seq<char>,
            >(e@),
        },
{
    let (name_at, type_at) = match (
        position_ignoring_case(&result.columns, "Name"),
        position_ignoring_case(&result.columns, "InstallType"),
    ) {
        (Some(n), Some(t)) => (n, t),
        _ => return Err(owned("SysPackage did not return Name and InstallType.")),
    };
    let ghost d = crate::sql::table_view(result.rows@);
    let mut out: Vec<PackageLockState> = Vec::new();
    let mut i: usize = 0;
    while i < result.rows.len()
        invariant
            i <= result.rows.len(),
            d == crate::sql::table_view(result.rows@),
            lock_states_view(out@) == row_lock_states(d.take(i as int), name_at as int, type_at as int),
        decreases result.rows.len() - i,
    {
        proof {
            assert(d.take(i + 1).drop_last() =~= d.take(i as int));
            assert(d.take(i + 1).last() == views(result.rows@[i as int]@));
        }
        let row = &result.rows[i];
        if name_at < row.len() && type_at < row.len() {
            let name = trim(row[name_at].as_str());
            if name.as_str().unicode_len() > 0 {
                let t = trim(row[type_at].as_str());
                let locked = str_eq(t.as_str(), "1");
                let s = PackageLockState { name, locked };
                let ghost before = lock_states_view(out@);
                out.push(s);
                assert(lock_states_view(out@) =~= before.push(LockStateView { name: s.name@, locked: s.locked }));
            }
        }
        i = i + 1;
    }
    assert(d.take(result.rows.len() as int) =~= d);
    Ok(out)
}

// --------------------------------------------------------------- actions

/// A package name usable in a clio command line: trimmed, non-empty, without
/// a comma and not starting with `-`.
pub open spec fn spec_require_package_name(name: Seq<char>) -> Result<Seq<char>, Seq<char>> {
    let n = spec_trim(name);
    if n.len() == 0 {
        Err("Package name is required."@)
    } else if contains_sub(n, ","@) || n[0] == '-' {
        Err("Invalid package name."@)
    } else {
        Ok(n)
    }
}

pub fn require_package_name(name: &str) -> (r: Result<String, String>)
    ensures
        match r {
            Ok(n) => spec_require_package_name(name@) == Ok::<Seq<char>, Seq<char>>(n@),
            Err(e) => spec_require_package_name(name@) == Err::<Seq<char>, Seq<char>>(e@),
        },
{
    let n = trim(name);
    let cs = chars_of(n.as_str());
    if cs.len() == 0 {
        return Err(owned("Package name is required."));
    }
    if contains(n.as_str(), ",") || cs[0] == '-' {
        return Err(owned("Invalid package name."));
    }
    Ok(n)
}

/// A numeric package version such as `1.2.3.4`: trimmed, non-empty, digits
/// and dots only, no empty part.
pub open spec fn spec_require_version(value: Seq<char>) -> Result<Seq<char>, Seq<char>> {
    let v = spec_trim(value);
    if v.len() == 0 || !(forall|i: int| 0 <= i < v.len() ==> crate::text::is_ascii_digit(#[trigger] v[i]) || v[i] == '.')
        || exists|k: int| 0 <= k < spec_split(v, '.').len() && (#[trigger] spec_split(v, '.')[k]).len() == 0 {
        Err("Enter a numeric package version such as 1.2.3.4."@)
    } else {
        Ok(v)
    }
}

pub fn require_version(value: Option<&str>) -> (r: Result<String, String>)
    ensures
        match r {
            Ok(v) => spec_require_version(match value {
                Some(x) => x@,
                None => seq![],
            }) == Ok::<Seq<char>, Seq<char>>(v@),
            Err(e) => spec_require_version(match value {
                Some(x) => x@,
                None => seq![],
            }) == Err::<Seq<char>, Seq<char>>(e@),
        },
{
    let raw = match value {
        Some(x) => owned(x),
        None => String::new(),
    };
    let v = trim(raw.as_str());
    let cs = chars_of(v.as_str());
    if cs.len() == 0 {
        return Err(owned("Enter a numeric package version such as 1.2.3.4."));
    }
    let mut i: usize = 0;
    while i < cs.len()
        invariant
            i <= cs.len(),
            cs@ == v@,
            v@ == spec_trim(match value {
                Some(x) => x@,
                None => seq![],
            }),
            forall|k: int| 0 <= k < i ==> crate::text::is_ascii_digit(#[trigger] cs@[k]) || cs@[k] == '.',
        decreases cs.len() - i,
    {
        if !(is_digit(cs[i]) || cs[i] == '.') {
            assert(!(crate::text::is_ascii_digit(v@[i as int]) || v@[i as int] == '.'));
            return Err(owned("Enter a numeric package version such as 1.2.3.4."));
        }
        i = i + 1;
    }
    let parts = split_char(v.as_str(), '.');
    let mut j: usize = 0;
    while j < parts.len()
        invariant
            j <= parts.len(),
            views(parts@) == spec_split(v@, '.'),
            cs@ == v@,
            v@ == spec_trim(match value {
                Some(x) => x@,
                None => seq![],
            }),
            cs@.len() > 0,
            forall|k: int| 0 <= k < cs@.len() ==> crate::text::is_ascii_digit(#[trigger] cs@[k]) || cs@[k] == '.',
            forall|k: int| 0 <= k < j ==> (#[trigger] spec_split(v@, '.')[k]).len() > 0,
        decreases parts.len() - j,
    {
        proof {
            assert(views(parts@)[j as int] == parts@[j as int]@);
        }
        if parts[j].as_str().unicode_len() == 0 {
            assert(spec_split(v@, '.')[j as int].len() == 0);
            return Err(owned("Enter a numeric package version such as 1.2.3.4."));
        }
        j = j + 1;
    }
    Ok(v)
}

/// A clio job of a package action: its kind, display command, arguments and
/// working folder.
#[derive(Clone, Debug, PartialEq, Eq)]
pub struct PackageJob {
    pub kind: String,
    pub display: String,
    pub args: Vec<String>,
    pub cwd: Option<String>,
}

pub struct PackageJobView {
    pub kind: Seq<char>,
    pub display: Seq<char>,
    pub args: Seq<Seq<char>>,
    pub cwd: Option<Seq<char>>,
}

pub open spec fn job_view(j: PackageJob) -> PackageJobView {
    PackageJobView {
        kind: j.kind@,
        display: j.display@,
        args: views(j.args@),
        cwd: match j.cwd {
            Some(c) => Some(c@),
            None => None,
        },
    }
}

pub open spec fn simple_job(kind: Seq<char>, verb: Seq<char>, clio_cmd: Seq<char>, package: Seq<char>, env: Seq<char>, link: Seq<char>) -> PackageJobView {
    PackageJobView {
        kind,
        display: verb + " "@ + package + link + env,
        args: seq![clio_cmd, package, "-e"@, env],
        cwd: None,
    }
}

/// The job of a package action other than `version` (which runs its own
/// pull, edit and push), for a checked package name. `path` is the folder or
/// archive of `pull`/`push`, with whether it exists and is a folder.
pub open spec fn spec_action_job(env: Seq<char>, package: Seq<char>, action: Seq<char>, path: Option<Seq<char>>, path_exists: bool, path_is_dir: bool, value: Option<Seq<char>>, skip_backup: bool) -> Result<PackageJobView, Seq<char>> {
    let raw = match path {
        Some(p) => spec_trim(p),
        None => seq![],
    };
    let missing = raw.len() == 0 || !path_exists;
    if action == "pull"@ {
        if missing {
            Err("Choose an existing package folder or .zip/.gz archive."@)
        } else if !path_is_dir {
            Err("Choose a destination folder for the downloaded package."@)
        } else {
            Ok(
                PackageJobView {
                    kind: "pull-package"@,
                    display: "pull "@ + package + " ← "@ + env,
                    args: seq!["pull-pkg"@, package, "-e"@, env],
                    cwd: Some(raw),
                },
            )
        }
    } else if action == "push"@ {
        if missing {
            Err("Choose an existing package folder or .zip/.gz archive."@)
        } else {
            Ok(
                PackageJobView {
                    kind: "install-package"@,
                    display: "install "@ + raw + " → "@ + env,
                    args: seq!["push-pkg"@, raw, "-e"@, env] + if skip_backup {
                        seq!["--skip-backup"@, "true"@]
                    } else {
                        seq![]
                    },
                    cwd: None,
                },
            )
        }
    } else if action == "lock"@ {
        Ok(simple_job("lock-package"@, "lock"@, "lock-package"@, package, env, " on "@))
    } else if action == "unlock"@ {
        Ok(simple_job("unlock-package"@, "unlock"@, "unlock-package"@, package, env, " on "@))
    } else if action == "activate"@ {
        Ok(simple_job("activate-package"@, "activate"@, "activate-pkg"@, package, env, " on "@))
    } else if action == "deactivate"@ {
        Ok(simple_job("deactivate-package"@, "deactivate"@, "deactivate-pkg"@, package, env, " on "@))
    } else if action == "hotfix"@ {
        if value == Some("true"@) || value == Some("false"@) {
            let enabled = value.unwrap();
            Ok(
                PackageJobView {
                    kind: "package-hotfix"@,
                    display: "set "@ + package + " hotfix="@ + enabled + " on "@ + env,
                    args: seq!["pkg-hotfix"@, package, enabled, "-e"@, env],
                    cwd: None,
                },
            )
        } else {
            Err("Hotfix value must be true or false."@)
        }
    } else if action == "delete"@ {
        Ok(simple_job("delete-package"@, "delete"@, "delete-pkg-remote"@, package, env, " from "@))
    } else {
        Err("Unsupported package action: "@ + action)
    }
}

fn simple_job_of(kind: &str, verb: &str, clio_cmd: &str, package: &str, env: &str, link: &str) -> (j: PackageJob)
    ensures
        job_view(j) == simple_job(kind@, verb@, clio_cmd@, package@, env@, link@),
{
    let mut display = owned(verb);
    display.append(" ");
    display.append(package);
    display.append(link);
    display.append(env);
    let args = vec![owned(clio_cmd), owned(package), owned("-e"), owned(env)];
    assert(views(args@) =~= seq![clio_cmd@, package@, "-e"@, env@]);
    PackageJob { kind: owned(kind), display, args, cwd: None }
}

pub fn action_job(env: &str, package: &str, action: &str, path: Option<&str>, path_exists: bool, path_is_dir: bool, value: Option<&str>, skip_backup: bool) -> (r: Result<PackageJob, String>)
    ensures
        match r {
            Ok(j) => spec_action_job(env@, package@, action@, match path {
                Some(p) => Some(p@),
                None => None,
            }, path_exists, path_is_dir, match value {
                Some(v) => Some(v@),
                None => None,
            }, skip_backup) == Ok::<PackageJobView, Seq<char>>(job_view(j)),
            Err(e) => spec_action_job(env@, package@, action@, match path {
                Some(p) => Some(p@),
                None => None,
            }, path_exists, path_is_dir, match value {
                Some(v) => Some(v@),
                None => None,
            }, skip_backup) == Err::<PackageJobView, Seq<char>>(e@),
        },
{
    let raw = match path {
        Some(p) => trim(p),
        None => String::new(),
    };
    let missing = raw.as_str().unicode_len() == 0 || !path_exists;
    if str_eq(action, "pull") {
        if missing {
            return Err(owned("Choose an existing package folder or .zip/.gz archive."));
        }
        if !path_is_dir {
            return Err(owned("Choose a destination folder for the downloaded package."));
        }
        let mut display = owned("pull ");
        display.append(package);
        display.append(" ← ");
        display.append(env);
        let args = vec![owned("pull-pkg"), owned(package), owned("-e"), owned(env)];
        assert(views(args@) =~= seq!["pull-pkg"@, package@, "-e"@, env@]);
        return Ok(PackageJob { kind: owned("pull-package"), display, args, cwd: Some(raw) });
    }
    if str_eq(action, "push") {
        if missing {
            return Err(owned("Choose an existing package folder or .zip/.gz archive."));
        }
        let mut display = owned("install ");
        display.append(raw.as_str());
        display.append(" → ");
        display.append(env);
        let mut args = vec![owned("push-pkg"), raw.clone(), owned("-e"), owned(env)];
        if skip_backup {
            args.push(owned("--skip-backup"));
            args.push(owned("true"));
        }
        assert(views(args@) =~= seq!["push-pkg"@, raw@, "-e"@, env@] + if skip_backup {
            seq!["--skip-backup"@, "true"@]
        } else {
            seq![]
        });
        return Ok(PackageJob { kind: owned("install-package"), display, args, cwd: None });
    }
    if str_eq(action, "lock") {
        return Ok(simple_job_of("lock-package", "lock", "lock-package", package, env, " on "));
    }
    if str_eq(action, "unlock") {
        return Ok(simple_job_of("unlock-package", "unlock", "unlock-package", package, env, " on "));
    }
    if str_eq(action, "activate") {
        return Ok(simple_job_of("activate-package", "activate", "activate-pkg", package, env, " on "));
    }
    if str_eq(action, "deactivate") {
        return Ok(simple_job_of("deactivate-package", "deactivate", "deactivate-pkg", package, env, " on "));
    }
    if str_eq(action, "hotfix") {
        let enabled = match value {
            Some(v) => if str_eq(v, "true") || str_eq(v, "false") {
                owned(v)
            } else {
                return Err(owned("Hotfix value must be true or false."));
            },
            None => return Err(owned("Hotfix value must be true or false.")),
        };
        let mut display = owned("set ");
        display.append(package);
        display.append(" hotfix=");
        display.append(enabled.as_str());
        display.append(" on ");
        display.append(env);
        let args = vec![owned("pkg-hotfix"), owned(package), enabled.clone(), owned("-e"), owned(env)];
        assert(views(args@) =~= seq!["pkg-hotfix"@, package@, enabled@, "-e"@, env@]);
        return Ok(PackageJob { kind: owned("package-hotfix"), display, args, cwd: None });
    }
    if str_eq(action, "delete") {
        return Ok(simple_job_of("delete-package", "delete", "delete-pkg-remote", package, env, " from "));
    }
    let mut e = owned("Unsupported package action: ");
    e.append(action);
    Err(e)
}

/// Why a transfer between two environments cannot start: the same
/// environment on both sides, or one clio does not know.
pub open spec fn spec_transfer_check(source: Seq<char>, target: Seq<char>, registered: Seq<Seq<char>>) -> Result<(), Seq<char>> {
    if source == target {
        Err("Choose a different target environment."@)
    } else if !registered.contains(source) {
        Err("Environment "@ + source + " is not registered in clio."@)
    } else if !registered.contains(target) {
        Err("Environment "@ + target + " is not registered in clio."@)
    } else {
        Ok(())
    }
}

pub fn transfer_check(source: &str, target: &str, registered: &Vec<String>) -> (r: Result<(), String>)
    ensures
        match r {
            Ok(_) => spec_transfer_check(source@, target@, views(registered@)) is Ok,
            Err(e) => spec_transfer_check(source@, target@, views(registered@)) == Err::<(), Seq<char>>(e@),
        },
{
    if str_eq(source, target) {
        return Err(owned("Choose a different target environment."));
    }
    let s = crate::text::position(registered, source);
    proof {
        crate::text::lemma_position_found(views(registered@), source@);
        crate::text::lemma_position_found(views(registered@), target@);
    }
    if s.is_none() {
        let mut e = owned("Environment ");
        e.append(source);
        e.append(" is not registered in clio.");
        return Err(e);
    }
    let t = crate::text::position(registered, target);
    if t.is_none() {
        let mut e = owned("Environment ");
        e.append(target);
        e.append(" is not registered in clio.");
        return Err(e);
    }
    Ok(())
}

/// The phase a package action runs in, and whether it may be cancelled: only
/// a download can be stopped safely.
pub open spec fn spec_action_phase(kind: Seq<char>) -> (Seq<char>, bool) {
    if kind == "pull-package"@ {
        ("downloading package"@, true)
    } else {
        ("modifying environment"@, false)
    }
}

pub fn action_phase(kind: &str) -> (r: (&'static str, bool))
    ensures
        (r.0@, r.1) == spec_action_phase(kind@),
{
    if str_eq(kind, "pull-package") {
        ("downloading package", true)
    } else {
        ("modifying environment", false)
    }
}

} // verus!
