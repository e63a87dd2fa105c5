//! What DevHub reads out of clio: its environments, its version report, an
//! environment's package list, and one-line guidance for its failures.
//!
//! Running clio is the caller's business; these functions take what it
//! printed (and its exit code) and decide.
use vstd::prelude::*;
use crate::diagnostics::{diagnose as diagnose_failure, spec_diagnose, DiagnosisView};
use crate::json::{as_bool, get, spec_as_bool, spec_get, text_of, text_or_empty, JsonValue};
use crate::text::{
    chars_of, contains, contains_sub, decimal, decimal_usize, find_sub, first_occ, is_ascii_digit,
    is_digit, join, lines, owned, seq_lt, signed_decimal, sort_by_key, sort_strings, spec_decimal,
    spec_join, spec_lines, spec_signed_decimal, spec_sort_by_key, spec_sort_texts, spec_to_lowercase,
    spec_trim, spec_words, str_eq, string_of_range, to_lowercase, trim, views, words,
};

verus! {

// ------------------------------------------------------------ environments

/// One environment registered in clio, as the environment picker shows it.
#[derive(Clone, Debug, PartialEq, Eq)]
pub struct EnvSummary {
    pub name: String,
    pub uri: String,
    /// `oauth`, `password` or `none`.
    pub auth_kind: String,
    pub is_net_core: bool,
    pub is_active: bool,
    pub developer_mode: bool,
    pub maintainer: String,
}

/// The settings clio keeps for one environment, as far as the picker reads
/// them (absent text settings read as empty, absent flags as false).
#[derive(Clone, Debug, PartialEq, Eq)]
pub struct EnvSettings {
    pub name: String,
    pub uri: String,
    pub client_id: String,
    pub client_secret: String,
    pub login: String,
    pub is_net_core: bool,
    pub developer_mode: bool,
    pub maintainer: String,
}

/// How an environment authenticates: OAuth when it has both a client id and a
/// secret, else a password when it has a login, else none.
pub open spec fn spec_auth_kind(e: EnvSettings) -> Seq<char> {
    if e.client_id@.len() > 0 && e.client_secret@.len() > 0 {
        "oauth"@
    } else if e.login@.len() > 0 {
        "password"@
    } else {
        "none"@
    }
}

/// The order of the picker: the active environment first, then by name
/// ignoring case.
pub open spec fn picker_key(e: EnvSettings, active: Seq<char>) -> Seq<char> {
    (if e.name@ == active {
        "0"@
    } else {
        "1"@
    }) + spec_to_lowercase(e.name@)
}

/// What the picker shows of one environment.
pub open spec fn summary_matches(s: EnvSummary, e: EnvSettings, active: Seq<char>) -> bool {
    &&& s.name@ == e.name@
    &&& s.uri@ == e.uri@
    &&& s.auth_kind@ == spec_auth_kind(e)
    &&& s.is_net_core == e.is_net_core
    &&& s.is_active == (e.name@ == active)
    &&& s.developer_mode == e.developer_mode
    &&& s.maintainer@ == e.maintainer@
}

fn auth_kind_of(e: &EnvSettings) -> (r: String)
    ensures
        r@ == spec_auth_kind(*e),
{
    if e.client_id.as_str().unicode_len() > 0 && e.client_secret.as_str().unicode_len() > 0 {
        owned("oauth")
    } else if e.login.as_str().unicode_len() > 0 {
        owned("password")
    } else {
        owned("none")
    }
}

fn summarize(e: &EnvSettings, active: &str) -> (r: EnvSummary)
    ensures
        summary_matches(r, *e, active@),
{
    EnvSummary {
        name: e.name.clone(),
        uri: e.uri.clone(),
        auth_kind: auth_kind_of(e),
        is_net_core: e.is_net_core,
        is_active: str_eq(e.name.as_str(), active),
        developer_mode: e.developer_mode,
        maintainer: e.maintainer.clone(),
    }
}

/// The keys the picker is sorted by, each with the summary it orders.
pub open spec fn keys_match(pairs: Seq<(String, EnvSummary)>, envs: Seq<EnvSettings>, active: Seq<char>) -> bool {
    &&& pairs.len() == envs.len()
    &&& forall|k: int|
        0 <= k < envs.len() ==> (#[trigger] pairs[k]).0@ == picker_key(envs[k], active)
            && summary_matches(pairs[k].1, envs[k], active)
}

pub open spec fn summaries_of(pairs: Seq<(String, EnvSummary)>) -> Seq<EnvSummary> {
    pairs.map_values(|p: (String, EnvSummary)| p.1)
}

/// The picker lists the active environment first and the rest by name
/// ignoring case: whatever comes after an active entry is active too, and
/// among entries alike in that, no lowercased name sorts before an earlier
/// one's. Every entry summarizes one of the settings.
pub proof fn lemma_picker_order(envs: Seq<EnvSettings>, active: Seq<char>, out: Seq<EnvSummary>)
    requires
        exists|pairs: Seq<(String, EnvSummary)>|
            keys_match(pairs, envs, active) && #[trigger] summaries_of(spec_sort_by_key(pairs)) == out,
    ensures
        out.len() == envs.len(),
        forall|k: int| 0 <= k < out.len() ==> exists|w: int| 0 <= w < envs.len() && summary_matches(#[trigger] out[k], envs[w], active),
        forall|i: int, j: int| 0 <= i < j < out.len() && (#[trigger] out[j]).is_active ==> (#[trigger] out[i]).is_active,
        forall|i: int, j: int|
            0 <= i < j < out.len() && (#[trigger] out[i]).is_active == (#[trigger] out[j]).is_active ==> !seq_lt(
                spec_to_lowercase(out[j].name@),
                spec_to_lowercase(out[i].name@),
            ),
{
    reveal_strlit("0");
    reveal_strlit("1");
    let pairs = choose|pairs: Seq<(String, EnvSummary)>|
        keys_match(pairs, envs, active) && #[trigger] summaries_of(spec_sort_by_key(pairs)) == out;
    let sorted = spec_sort_by_key(pairs);
    crate::text::lemma_sort_elements(pairs);
    crate::text::lemma_sort_ascending(pairs);
    assert forall|k: int| 0 <= k < sorted.len() implies (#[trigger] sorted[k]).0@ == (if sorted[k].1.is_active {
        "0"@
    } else {
        "1"@
    }) + spec_to_lowercase(sorted[k].1.name@) && exists|w: int| 0 <= w < envs.len() && summary_matches(sorted[k].1, envs[w], active) by {
        let w = choose|w: int| 0 <= w < pairs.len() && pairs[w] == sorted[k];
        assert(pairs[w].0@ == picker_key(envs[w], active));
        assert(summary_matches(pairs[w].1, envs[w], active));
    }
    assert forall|k: int| 0 <= k < out.len() implies exists|w: int| 0 <= w < envs.len() && summary_matches(#[trigger] out[k], envs[w], active) by {
        assert(out[k] == sorted[k].1);
    }
    assert forall|i: int, j: int| 0 <= i < j < out.len() && (#[trigger] out[j]).is_active implies (#[trigger] out[i]).is_active by {
        assert(out[i] == sorted[i].1 && out[j] == sorted[j].1);
        let ki = sorted[i].0@;
        let kj = sorted[j].0@;
        assert(!seq_lt(kj, ki));
        if !out[i].is_active {
            assert(kj[0] == '0' && ki[0] == '1');
            assert(seq_lt(kj, ki));
        }
    }
    assert forall|i: int, j: int|
        0 <= i < j < out.len() && (#[trigger] out[i]).is_active == (#[trigger] out[j]).is_active implies !seq_lt(
            spec_to_lowercase(out[j].name@),
            spec_to_lowercase(out[i].name@),
        ) by {
        assert(out[i] == sorted[i].1 && out[j] == sorted[j].1);
        let ki = sorted[i].0@;
        let kj = sorted[j].0@;
        assert(!seq_lt(kj, ki));
        let c: Seq<char> = if out[i].is_active { "0"@ } else { "1"@ };
        assert(ki == c + spec_to_lowercase(out[i].name@));
        assert(kj == c + spec_to_lowercase(out[j].name@));
        assert(ki.drop_first() =~= spec_to_lowercase(out[i].name@));
        assert(kj.drop_first() =~= spec_to_lowercase(out[j].name@));
        assert(ki[0] == kj[0]);
    }
}

/// The environments for the picker: one summary per environment of the
/// settings, the active one (named by `active`) first, then by name ignoring
/// case, environments of equal keys in their given order.
pub fn env_summaries(active: &str, envs: &Vec<EnvSettings>) -> (out: Vec<EnvSummary>)
    ensures
        exists|pairs: Seq<(String, EnvSummary)>|
            keys_match(pairs, envs@, active@) && #[trigger] summaries_of(spec_sort_by_key(pairs)) == out@,
{
    let mut pairs: Vec<(String, EnvSummary)> = Vec::new();
    let mut i: usize = 0;
    while i < envs.len()
        invariant
            i <= envs.len(),
            keys_match(pairs@, envs@.take(i as int), active@),
        decreases envs.len() - i,
    {
        let e = &envs[i];
        let lowered = to_lowercase(e.name.as_str());
        let mut key = if str_eq(e.name.as_str(), active) {
            owned("0")
        } else {
            owned("1")
        };
        key.append(lowered.as_str());
        let summary = summarize(e, active);
        let ghost before = pairs@;
        pairs.push((key, summary));
        proof {
            assert forall|k: int| 0 <= k < i + 1 implies (#[trigger] pairs@[k]).0@ == picker_key(
                envs@.take(i + 1)[k],
                active@,
            ) && summary_matches(pairs@[k].1, envs@.take(i + 1)[k], active@) by {
                if k < i {
                    assert(pairs@[k] == before[k]);
                    assert(envs@.take(i + 1)[k] == envs@.take(i as int)[k]);
                }
            }
        }
        i = i + 1;
    }
    assert(envs@.take(envs.len() as int) =~= envs@);
    let ghost keyed_pairs = pairs@;
    let sorted = sort_by_key(pairs);
    let mut out: Vec<EnvSummary> = Vec::new();
    let mut rest = sorted;
    let ghost all = rest@;
    let mut queue: Vec<(String, EnvSummary)> = Vec::new();
    let total: usize = rest.len();
    proof {
        assert(all.take(all.len() as int) =~= all);
    }
    while rest.len() > 0
        invariant
            all.len() == rest.len() + queue.len(),
            all.len() == total,
            rest@ == all.take(rest.len() as int),
            forall|k: int| 0 <= k < queue.len() ==> queue@[k] == all[all.len() - 1 - k],
        decreases rest.len(),
    {
        let x = rest.pop().unwrap();
        queue.push(x);
        assert(rest@ =~= all.take(rest.len() as int));
    }
    let mut taken: usize = 0;
    while queue.len() > 0
        invariant
            taken + queue.len() == all.len(),
            all.len() == total,
            forall|k: int| 0 <= k < queue.len() ==> queue@[k] == all[all.len() - 1 - k],
            out@ == all.take(taken as int).map_values(|p: (String, EnvSummary)| p.1),
        decreases queue.len(),
    {
        let x = queue.pop().unwrap();
        proof {
            assert(x == all[taken as int]);
        }
        out.push(x.1);
        taken = taken + 1;
        assert(out@ =~= all.take(taken as int).map_values(|p: (String, EnvSummary)| p.1));
    }
    proof {
        assert(all.take(all.len() as int) =~= all);
        assert(keys_match(keyed_pairs, envs@, active@));
        assert(summaries_of(spec_sort_by_key(keyed_pairs)) == out@);
    }
    out
}

/// Why setting the default environment cannot start: no name, or a name clio
/// does not know.
pub open spec fn spec_default_env_request(name: Seq<char>, registered: Seq<Seq<char>>) -> Result<Seq<char>, Seq<char>> {
    let n = spec_trim(name);
    if n.len() == 0 {
        Err("Choose an environment."@)
    } else if !registered.contains(n) {
        Err("Environment "@ + n + " is not registered in clio."@)
    } else {
        Ok(n)
    }
}

/// Check a request to make `name` clio's default environment against the
/// registered environments; the trimmed name when it may go ahead.
pub fn default_env_request(name: &str, registered: &Vec<String>) -> (r: Result<String, String>)
    ensures
        match r {
            Ok(n) => spec_default_env_request(name@, views(registered@)) == Ok::<Seq<char>, Seq<char>>(n@),
            Err(e) => spec_default_env_request(name@, views(registered@)) == Err::<Seq<char>, Seq<char>>(e@),
        },
{
    let n = trim(name);
    if n.as_str().unicode_len() == 0 {
        return Err(owned("Choose an environment."));
    }
    let found = crate::text::position(registered, n.as_str());
    proof {
        crate::text::lemma_position_found(views(registered@), n@);
    }
    if found.is_none() {
        let mut e = owned("Environment ");
        e.append(n.as_str());
        e.append(" is not registered in clio.");
        return Err(e);
    }
    Ok(n)
}

/// The outcome of `clio reg-web-app -a <name>`: its exit code and output, and
/// the environment clio reports as active afterwards.
pub open spec fn spec_default_env_outcome(name: Seq<char>, code: i32, output: Seq<char>, active: Option<Seq<char>>) -> Result<(), Seq<char>> {
    if code != 0 {
        Err("Could not set the default environment (exit "@ + spec_signed_decimal(code as int) + "): "@
            + spec_trim(output))
    } else if active != Some(name) {
        Err("clio completed without updating the active environment."@)
    } else {
        Ok(())
    }
}

pub fn default_env_outcome(name: &str, code: i32, output: &str, active: Option<&str>) -> (r: Result<(), String>)
    ensures
        match r {
            Ok(_) => spec_default_env_outcome(name@, code, output@, match active {
                Some(a) => Some(a@),
                None => None,
            }) is Ok,
            Err(e) => spec_default_env_outcome(name@, code, output@, match active {
                Some(a) => Some(a@),
                None => None,
            }) == Err::<(), Seq<char>>(e@),
        },
{
    if code != 0 {
        let mut e = owned("Could not set the default environment (exit ");
        let c = signed_decimal(code);
        e.append(c.as_str());
        e.append("): ");
        let t = trim(output);
        e.append(t.as_str());
        return Err(e);
    }
    let same = match active {
        Some(a) => str_eq(a, name),
        None => false,
    };
    if !same {
        return Err(owned("clio completed without updating the active environment."));
    }
    Ok(())
}

// ------------------------------------------------------------ diagnosis

/// The steps of a diagnosis, numbered from 1.
pub open spec fn numbered_steps(steps: Seq<Seq<char>>) -> Seq<Seq<char>> {
    Seq::new(steps.len(), |i: int| spec_decimal((i + 1) as nat) + ". "@ + steps[i])
}

/// A diagnosis on one line: summary, cause, then the numbered steps.
pub open spec fn spec_hint(d: DiagnosisView) -> Seq<char> {
    d.summary + " "@ + d.cause + " "@ + spec_join(numbered_steps(d.steps), " "@)
}

pub open spec fn spec_clio_diagnose(output: Seq<char>) -> Option<Seq<char>> {
    match spec_diagnose(output) {
        Some(d) => Some(spec_hint(d)),
        None => None,
    }
}

/// Turn a well-known clio or dotnet-tool failure into one line of guidance;
/// `None` when it is not recognized (the caller shows the raw output).
pub fn diagnose(output: &str) -> (r: Option<String>)
    ensures
        match r {
            Some(h) => spec_clio_diagnose(output@) == Some(h@),
            None => spec_clio_diagnose(output@) is None,
        },
{
    match diagnose_failure(output) {
        None => None,
        Some(found) => {
            let mut numbered: Vec<String> = Vec::new();
            let mut i: usize = 0;
            while i < found.steps.len()
                invariant
                    i <= found.steps.len(),
                    views(numbered@) == numbered_steps(views(found.steps@)).take(i as int),
                decreases found.steps.len() - i,
            {
                let mut line = decimal_usize(i + 1);
                line.append(". ");
                line.append(found.steps[i].as_str());
                let ghost before = numbered@;
                numbered.push(line);
                proof {
                    let b = numbered_steps(views(found.steps@));
                    assert(views(found.steps@)[i as int] == found.steps@[i as int]@);
                    assert(views(numbered@) =~= views(before).push(line@));
                    assert(b.take(i + 1) =~= b.take(i as int).push(b[i as int]));
                }
                i = i + 1;
            }
            assert(numbered_steps(views(found.steps@)).take(found.steps.len() as int)
                =~= numbered_steps(views(found.steps@)));
            let steps = join(&numbered, " ");
            let mut hint = found.summary.clone();
            hint.append(" ");
            hint.append(found.cause.as_str());
            hint.append(" ");
            hint.append(steps.as_str());
            Some(hint)
        },
    }
}

/// An environment's settings as plain values.
pub open spec fn env_fields(e: EnvSettings) -> (Seq<char>, Seq<char>, Seq<char>, Seq<char>, Seq<char>, bool, bool, Seq<char>) {
    (e.name@, e.uri@, e.client_id@, e.client_secret@, e.login@, e.is_net_core, e.developer_mode, e.maintainer@)
}

pub open spec fn envs_fields(envs: Seq<EnvSettings>) -> Seq<(Seq<char>, Seq<char>, Seq<char>, Seq<char>, Seq<char>, bool, bool, Seq<char>)> {
    envs.map_values(|e: EnvSettings| env_fields(e))
}

/// A flag member of an environment's settings; absent or not a flag reads
/// as false.
pub open spec fn flag_or_false(e: JsonValue, key: Seq<char>) -> bool {
    spec_as_bool(spec_get(e, key)) == Some(true)
}

/// What clio's settings say of the environment registered as `name`.
pub open spec fn env_of_json(name: Seq<char>, e: JsonValue) -> (Seq<char>, Seq<char>, Seq<char>, Seq<char>, Seq<char>, bool, bool, Seq<char>) {
    (
        name,
        text_or_empty(spec_get(e, "Uri"@)),
        text_or_empty(spec_get(e, "ClientId"@)),
        text_or_empty(spec_get(e, "ClientSecret"@)),
        text_or_empty(spec_get(e, "Login"@)),
        flag_or_false(e, "IsNetCore"@),
        flag_or_false(e, "DeveloperModeEnabled"@),
        text_or_empty(spec_get(e, "Maintainer"@)),
    )
}

/// The members of the settings' `Environments` object; none when it has
/// no such object.
pub open spec fn settings_environments(doc: JsonValue) -> Seq<(String, JsonValue)> {
    match spec_get(doc, "Environments"@) {
        Some(JsonValue::Object(members)) => members@,
        _ => Seq::empty(),
    }
}

/// `out` is the picker's list for clio's settings document `doc`.
pub open spec fn environments_listed(doc: JsonValue, out: Seq<EnvSummary>) -> bool {
    exists|envs: Seq<EnvSettings>|
        #[trigger] envs_fields(envs) == settings_environments(doc).map_values(
            |m: (String, JsonValue)| env_of_json(m.0@, m.1),
        ) && exists|pairs: Seq<(String, EnvSummary)>|
            keys_match(pairs, envs, text_or_empty(spec_get(doc, "ActiveEnvironmentKey"@)))
                && #[trigger] summaries_of(spec_sort_by_key(pairs)) == out
}

fn flag_of(e: &JsonValue, key: &str) -> (b: bool)
    ensures
        b == flag_or_false(*e, key@),
{
    match as_bool(get(e, key)) {
        Some(b) => b,
        None => false,
    }
}

/// The settings of the environment registered as `name`.
pub fn env_settings_from_json(name: &String, e: &JsonValue) -> (r: EnvSettings)
    ensures
        env_fields(r) == env_of_json(name@, *e),
{
    EnvSettings {
        name: name.clone(),
        uri: text_of(get(e, "Uri")),
        client_id: text_of(get(e, "ClientId")),
        client_secret: text_of(get(e, "ClientSecret")),
        login: text_of(get(e, "Login")),
        is_net_core: flag_of(e, "IsNetCore"),
        developer_mode: flag_of(e, "DeveloperModeEnabled"),
        maintainer: text_of(get(e, "Maintainer")),
    }
}

/// The environments registered in clio's settings document, for the picker
/// (secrets never leave the summaries).
pub fn environments_from_json(doc: &JsonValue) -> (out: Vec<EnvSummary>)
    ensures
        environments_listed(*doc, out@),
{
    let active = text_of(get(doc, "ActiveEnvironmentKey"));
    let mut envs: Vec<EnvSettings> = Vec::new();
    match get(doc, "Environments") {
        Some(JsonValue::Object(members)) => {
            let mut i: usize = 0;
            while i < members.len()
                invariant
                    i <= members.len(),
                    envs.len() == i,
                    envs@.map_values(|e: EnvSettings| env_fields(e)) == members@.take(i as int).map_values(
                        |m: (String, JsonValue)| env_of_json(m.0@, m.1),
                    ),
                decreases members.len() - i,
            {
                let e = env_settings_from_json(&members[i].0, &members[i].1);
                let ghost before = envs@;
                envs.push(e);
                proof {
                    assert(members@.take(i + 1) =~= members@.take(i as int).push(members@[i as int]));
                    assert(envs@ =~= before.push(e));
                    assert forall|k: int| 0 <= k < i implies #[trigger] env_fields(envs@[k]) == env_of_json(
                        members@[k].0@,
                        members@[k].1,
                    ) by {
                        assert(before.map_values(|e: EnvSettings| env_fields(e))[k] == members@.take(i as int).map_values(
                            |m: (String, JsonValue)| env_of_json(m.0@, m.1),
                        )[k]);
                    }
                    assert(envs@.map_values(|e: EnvSettings| env_fields(e)) =~= members@.take(i + 1).map_values(
                        |m: (String, JsonValue)| env_of_json(m.0@, m.1),
                    ));
                }
                i = i + 1;
            }
            proof {
                assert(members@.take(members.len() as int) =~= members@);
            }
        },
        _ => {
            proof {
                assert(envs@.map_values(|e: EnvSettings| env_fields(e)) =~= settings_environments(*doc).map_values(
                    |m: (String, JsonValue)| env_of_json(m.0@, m.1),
                ));
            }
        },
    }
    let ghost all = envs@;
    let out = env_summaries(active.as_str(), &envs);
    proof {
        assert(envs_fields(all) == settings_environments(*doc).map_values(
            |m: (String, JsonValue)| env_of_json(m.0@, m.1),
        ));
    }
    out
}

// ------------------------------------------------------------- versions

/// Whether a text starts with an ASCII digit.
pub open spec fn starts_with_digit(v: Seq<char>) -> bool {
    v.len() > 0 && is_ascii_digit(v[0])
}

fn starts_with_digit_str(v: &str) -> (b: bool)
    ensures
        b == starts_with_digit(v@),
{
    let cs = chars_of(v);
    cs.len() > 0 && is_digit(cs[0])
}

/// Index of the first line containing `key`, or -1.
pub open spec fn first_line_with(ls: Seq<Seq<char>>, key: Seq<char>) -> int
    decreases ls.len(),
{
    if ls.len() == 0 {
        -1
    } else if contains_sub(ls[0], key) {
        0
    } else {
        let r = first_line_with(ls.drop_first(), key);
        if r < 0 {
            -1
        } else {
            r + 1
        }
    }
}

proof fn lemma_first_line_with(ls: Seq<Seq<char>>, key: Seq<char>)
    ensures
        first_line_with(ls, key) < ls.len(),
        first_line_with(ls, key) >= 0 ==> contains_sub(ls[first_line_with(ls, key)], key),
    decreases ls.len(),
{
    if ls.len() > 0 && !contains_sub(ls[0], key) {
        lemma_first_line_with(ls.drop_first(), key);
    }
}

fn find_line_with(ls: &Vec<String>, key: &str) -> (r: Option<usize>)
    ensures
        match r {
            Some(k) => first_line_with(views(ls@), key@) == k && k < ls.len(),
            None => first_line_with(views(ls@), key@) < 0,
        },
{
    let mut i: usize = 0;
    proof {
        assert(views(ls@).skip(0) =~= views(ls@));
    }
    while i < ls.len()
        invariant
            i <= ls.len(),
            first_line_with(views(ls@), key@) == (if first_line_with(views(ls@).skip(i as int), key@) < 0 {
                -1
            } else {
                first_line_with(views(ls@).skip(i as int), key@) + i
            }),
        decreases ls.len() - i,
    {
        proof {
            assert(views(ls@).skip(i as int)[0] == ls@[i as int]@);
            assert(views(ls@).skip(i as int).drop_first() =~= views(ls@).skip(i + 1));
        }
        if contains(ls[i].as_str(), key) {
            return Some(i);
        }
        i = i + 1;
    }
    proof {
        assert(views(ls@).skip(i as int) =~= Seq::<Seq<char>>::empty());
    }
    None
}

/// `line.split(key).nth(1)` for a line containing `key`: the text between its
/// first and second occurrence (or the end). An empty key splits before every
/// character, so the second piece is the line's first character, if any.
pub open spec fn second_piece(line: Seq<char>, key: Seq<char>) -> Seq<char> {
    if key.len() == 0 {
        line.take(if line.len() > 0 { 1int } else { 0int })
    } else {
        let rest = line.skip(first_occ(line, key) + key.len());
        if first_occ(rest, key) >= 0 {
            rest.take(first_occ(rest, key))
        } else {
            rest
        }
    }
}

/// The value after `key` on the first line containing it, trimmed, when it
/// starts with a digit.
pub open spec fn spec_labeled_version(out: Seq<char>, key: Seq<char>) -> Option<Seq<char>> {
    let ls = spec_lines(out);
    let k = first_line_with(ls, key);
    if k < 0 {
        None
    } else {
        let v = spec_trim(second_piece(ls[k], key));
        if starts_with_digit(v) {
            Some(v)
        } else {
            None
        }
    }
}

/// Value after `key:` on the first line containing it, when it looks like a
/// version.
pub fn parse_labeled_version(out: &str, key: &str) -> (r: Option<String>)
    ensures
        match r {
            Some(v) => spec_labeled_version(out@, key@) == Some(v@),
            None => spec_labeled_version(out@, key@) is None,
        },
{
    let ls = lines(out);
    let k = match find_line_with(&ls, key) {
        Some(k) => k,
        None => return None,
    };
    let line = chars_of(ls[k].as_str());
    let kv = chars_of(key);
    proof {
        lemma_first_line_with(views(ls@), key@);
        assert(views(ls@)[k as int] == line@);
    }
    if kv.len() == 0 {
        let head: usize = if line.len() > 0 { 1 } else { 0 };
        let piece = string_of_range(&line, 0, head);
        proof {
            assert(line@.take(head as int) =~= line@.subrange(0, head as int));
        }
        let v = trim(piece.as_str());
        if starts_with_digit_str(v.as_str()) {
            return Some(v);
        } else {
            return None;
        }
    }
    let at = match find_sub(&line, &kv) {
        Some(at) => at,
        None => return None,
    };
    proof {
        crate::text::lemma_first_occ_facts(line@, kv@);
        assert(crate::text::occurs_at(line@, kv@, at as int));
        assert(at + kv@.len() <= line@.len());
    }
    let end: usize = line.len();
    let rest = string_of_range(&line, at + kv.len(), end);
    let rv = chars_of(rest.as_str());
    let piece = match find_sub(&rv, &kv) {
        Some(next) => {
            proof {
                crate::text::lemma_first_occ_facts(rv@, kv@);
                assert(crate::text::occurs_at(rv@, kv@, next as int));
            }
            string_of_range(&rv, 0, next)
        },
        None => rest,
    };
    proof {
        assert(line@.skip(at + kv@.len()) =~= line@.subrange(at + kv@.len(), line@.len() as int));
        assert(rv@.take(0) =~= rv@.subrange(0, 0));
    }
    let v = trim(piece.as_str());
    if starts_with_digit_str(v.as_str()) {
        Some(v)
    } else {
        None
    }
}

/// The version named in clio's "clio X.Y.Z is available" update notice: the
/// last word before `is available` on the first line containing it, when it
/// starts with a digit.
pub open spec fn spec_available_version(out: Seq<char>) -> Option<Seq<char>> {
    let ls = spec_lines(out);
    let k = first_line_with(ls, "is available"@);
    if k < 0 {
        None
    } else {
        let before = ls[k].take(first_occ(ls[k], "is available"@));
        let ws = spec_words(before);
        if ws.len() == 0 {
            None
        } else if starts_with_digit(ws.last()) {
            Some(ws.last())
        } else {
            None
        }
    }
}

pub fn parse_available_version(out: &str) -> (r: Option<String>)
    ensures
        match r {
            Some(v) => spec_available_version(out@) == Some(v@),
            None => spec_available_version(out@) is None,
        },
{
    let ls = lines(out);
    let k = match find_line_with(&ls, "is available") {
        Some(k) => k,
        None => return None,
    };
    let line = chars_of(ls[k].as_str());
    let kv = chars_of("is available");
    proof {
        lemma_first_line_with(views(ls@), "is available"@);
        assert(views(ls@)[k as int] == line@);
    }
    let at = match find_sub(&line, &kv) {
        Some(at) => at,
        None => return None,
    };
    proof {
        crate::text::lemma_first_occ_facts(line@, kv@);
        assert(crate::text::occurs_at(line@, kv@, at as int));
    }
    let before = string_of_range(&line, 0, at);
    proof {
        assert(line@.take(at as int) =~= line@.subrange(0, at as int));
    }
    let ws = words(before.as_str());
    if ws.len() == 0 {
        return None;
    }
    let last = ws[ws.len() - 1].clone();
    if starts_with_digit_str(last.as_str()) {
        Some(last)
    } else {
        None
    }
}

/// Whether clio is installed, and whether a newer build exists.
#[derive(Clone, Debug, PartialEq, Eq)]
pub struct ClioStatus {
    pub installed: bool,
    pub version: Option<String>,
    pub latest: Option<String>,
    pub update_available: bool,
    pub gate_version: Option<String>,
    pub dotnet: Option<String>,
    /// clio runs but its install is damaged (a missing assembly): needs a repair.
    pub broken: bool,
}

pub open spec fn opt_text(o: Option<String>) -> Option<Seq<char>> {
    match o {
        Some(s) => Some(s@),
        None => None,
    }
}

/// The status read from `clio ver` (`None` when clio could not be started)
/// and from `dotnet --version` (`None` when it failed or printed nothing).
pub open spec fn spec_clio_status_holds(s: ClioStatus, ver: Option<Seq<char>>, dotnet: Option<Seq<char>>) -> bool {
    &&& opt_text(s.dotnet) == dotnet
    &&& match ver {
        None => !s.installed && s.version is None && s.latest is None && !s.update_available
            && s.gate_version is None && !s.broken,
        Some(out) => {
            let version = spec_labeled_version(out, "clio:"@);
            let latest = spec_available_version(out);
            &&& opt_text(s.version) == version
            &&& opt_text(s.latest) == latest
            &&& s.update_available == (version is Some && latest is Some && version != latest)
            &&& opt_text(s.gate_version) == spec_labeled_version(out, "gate:"@)
            &&& s.broken == contains_sub(spec_to_lowercase(out), "could not load file or assembly"@)
            &&& s.installed == (version is Some || s.broken)
        },
    }
}

/// Assemble clio's status from the output of `clio ver` (`None` when clio
/// could not be started at all) and the dotnet version.
pub fn clio_status_from(ver: Option<&str>, dotnet: Option<String>) -> (s: ClioStatus)
    ensures
        spec_clio_status_holds(s, match ver {
            Some(v) => Some(v@),
            None => None,
        }, opt_text(dotnet)),
{
    match ver {
        None => ClioStatus {
            installed: false,
            version: None,
            latest: None,
            update_available: false,
            gate_version: None,
            dotnet,
            broken: false,
        },
        Some(out) => {
            proof {
                reveal_strlit("clio:");
                reveal_strlit("gate:");
            }
            let version = parse_labeled_version(out, "clio:");
            let latest = parse_available_version(out);
            let update_available = match (&version, &latest) {
                (Some(current), Some(newest)) => !str_eq(current.as_str(), newest.as_str()),
                _ => false,
            };
            let lowered = to_lowercase(out);
            let broken = contains(lowered.as_str(), "could not load file or assembly");
            let gate_version = parse_labeled_version(out, "gate:");
            ClioStatus {
                installed: version.is_some() || broken,
                version,
                latest,
                update_available,
                gate_version,
                dotnet,
                broken,
            }
        },
    }
}

/// What installing, updating or repairing clio runs.
#[derive(Clone, Debug, PartialEq, Eq)]
pub struct ClioInstallPlan {
    /// The `dotnet tool` verb: `install` or `update`.
    pub action: String,
    /// The job kind: `install-clio`, `update-clio` or `repair-clio`.
    pub kind: String,
    /// Whether clio is uninstalled first (a repair).
    pub repair: bool,
    /// The job's display command.
    pub display: String,
}

/// The plan for `mode` (`install`, `update` or `repair`, any case and
/// surrounding whitespace); an error naming any other mode.
pub open spec fn spec_install_plan(mode: Seq<char>) -> Result<(Seq<char>, Seq<char>, bool, Seq<char>), Seq<char>> {
    let m = spec_to_lowercase(spec_trim(mode));
    if m == "install"@ {
        Ok(("install"@, "install-clio"@, false, "dotnet tool install clio -g"@))
    } else if m == "repair"@ {
        Ok(("install"@, "repair-clio"@, true, "dotnet tool reinstall clio -g"@))
    } else if m == "update"@ {
        Ok(("update"@, "update-clio"@, false, "dotnet tool update clio -g"@))
    } else {
        Err("Unknown clio action: "@ + m)
    }
}

pub fn install_plan(mode: &str) -> (r: Result<ClioInstallPlan, String>)
    ensures
        match r {
            Ok(p) => spec_install_plan(mode@) == Ok::<(Seq<char>, Seq<char>, bool, Seq<char>), Seq<char>>(
                (p.action@, p.kind@, p.repair, p.display@),
            ),
            Err(e) => spec_install_plan(mode@) == Err::<(Seq<char>, Seq<char>, bool, Seq<char>), Seq<char>>(e@),
        },
{
    let trimmed = trim(mode);
    let m = to_lowercase(trimmed.as_str());
    if str_eq(m.as_str(), "install") {
        Ok(ClioInstallPlan {
            action: owned("install"),
            kind: owned("install-clio"),
            repair: false,
            display: owned("dotnet tool install clio -g"),
        })
    } else if str_eq(m.as_str(), "repair") {
        Ok(ClioInstallPlan {
            action: owned("install"),
            kind: owned("repair-clio"),
            repair: true,
            display: owned("dotnet tool reinstall clio -g"),
        })
    } else if str_eq(m.as_str(), "update") {
        Ok(ClioInstallPlan {
            action: owned("update"),
            kind: owned("update-clio"),
            repair: false,
            display: owned("dotnet tool update clio -g"),
        })
    } else {
        let mut e = owned("Unknown clio action: ");
        e.append(m.as_str());
        Err(e)
    }
}

/// The phase an install job runs in.
pub open spec fn spec_install_phase(action: Seq<char>, repair: bool) -> Seq<char> {
    if repair {
        "repairing clio"@
    } else {
        action + "ing clio"@
    }
}

pub fn install_phase(plan: &ClioInstallPlan) -> (r: String)
    ensures
        r@ == spec_install_phase(plan.action@, plan.repair),
{
    if plan.repair {
        owned("repairing clio")
    } else {
        let mut r = plan.action.clone();
        r.append("ing clio");
        r
    }
}

/// What a `dotnet tool` run of an install job logs: its non-blank output
/// lines, or the reason it could not run.
pub open spec fn spec_tool_lines(run: Result<(i32, Seq<char>), Seq<char>>) -> Seq<Seq<char>> {
    match run {
        Ok((_, out)) => crate::refdata::nonblank_lines(spec_lines(out)),
        Err(e) => seq![e],
    }
}

pub open spec fn run_view(run: Result<(i32, String), String>) -> Result<(i32, Seq<char>), Seq<char>> {
    match run {
        Ok((c, o)) => Ok((c, o@)),
        Err(e) => Err(e@),
    }
}

pub fn tool_lines(run: Result<(i32, String), String>) -> (r: Vec<String>)
    ensures
        views(r@) == spec_tool_lines(run_view(run)),
{
    match run {
        Ok((_, out)) => crate::refdata::shown_lines(out.as_str()),
        Err(e) => {
            let v = vec![e];
            assert(views(v@) =~= seq![v@[0]@]);
            v
        },
    }
}

/// What the install step of an install job logs, and the job's exit code:
/// the tool's output lines and the verdict, with the tool's exit code; or,
/// when dotnet could not run, why, and that it is required.
pub open spec fn spec_install_outcome(run: Result<(i32, Seq<char>), Seq<char>>) -> (Seq<Seq<char>>, i32) {
    match run {
        Ok((code, out)) => (
            crate::refdata::nonblank_lines(spec_lines(out)).push(spec_install_verdict(code, out)),
            code,
        ),
        Err(e) => (seq!["✗ "@ + e, "The .NET SDK (dotnet) is required to manage clio."@], 1),
    }
}

pub fn install_outcome(run: Result<(i32, String), String>) -> (r: (Vec<String>, i32))
    ensures
        (views(r.0@), r.1) == spec_install_outcome(run_view(run)),
{
    match run {
        Ok((code, out)) => {
            let mut lines = crate::refdata::shown_lines(out.as_str());
            let ghost before = views(lines@);
            let verdict = install_verdict(code, out.as_str());
            let ghost vv = verdict@;
            lines.push(verdict);
            assert(views(lines@) =~= before.push(vv));
            (lines, code)
        },
        Err(e) => {
            let mut first = owned("✗ ");
            first.append(e.as_str());
            let v = vec![first, owned("The .NET SDK (dotnet) is required to manage clio.")];
            assert(views(v@) =~= seq![v@[0]@, v@[1]@]);
            (v, 1)
        },
    }
}

/// The closing log line of an install job, from the tool's exit code and
/// output.
pub open spec fn spec_install_verdict(code: i32, out: Seq<char>) -> Seq<char> {
    if code == 0 {
        "✓ clio is ready."@
    } else {
        match spec_clio_diagnose(out) {
            Some(hint) => "✗ "@ + hint,
            None => "✗ Failed — see the output above."@,
        }
    }
}

pub fn install_verdict(code: i32, out: &str) -> (r: String)
    ensures
        r@ == spec_install_verdict(code, out@),
{
    if code == 0 {
        return owned("✓ clio is ready.");
    }
    match diagnose(out) {
        Some(hint) => {
            let mut r = owned("✗ ");
            r.append(hint.as_str());
            r
        },
        None => owned("✗ Failed — see the output above."),
    }
}

// ------------------------------------------------------------- packages

/// The `name|version` entry of one line of `clio packages`: none for blank
/// lines, log-prefixed lines (`[...]`), the header, and rows whose second
/// word does not start with a digit.
pub open spec fn package_entry(line: Seq<char>) -> Option<Seq<char>> {
    let t = spec_trim(line);
    if t.len() == 0 || t[0] == '[' {
        None
    } else {
        let ws = spec_words(t);
        if ws.len() < 2 {
            None
        } else if ws[0] == "Name"@ && ws[1] == "Version"@ {
            None
        } else if !starts_with_digit(ws[1]) {
            None
        } else {
            Some(ws[0] + "|"@ + ws[1])
        }
    }
}

pub open spec fn package_entries(ls: Seq<Seq<char>>) -> Seq<Seq<char>>
    decreases ls.len(),
{
    if ls.len() == 0 {
        seq![]
    } else {
        let rest = package_entries(ls.drop_last());
        match package_entry(ls.last()) {
            Some(e) => rest.push(e),
            None => rest,
        }
    }
}

/// The sorted `name|version` snapshot of `clio packages` output.
pub open spec fn spec_packages_snapshot(raw: Seq<char>) -> Seq<Seq<char>> {
    spec_sort_texts(package_entries(spec_lines(raw)))
}

fn package_entry_of(line: &str) -> (r: Option<String>)
    ensures
        match r {
            Some(e) => package_entry(line@) == Some(e@),
            None => package_entry(line@) is None,
        },
{
    let t = trim(line);
    let tc = chars_of(t.as_str());
    if tc.len() == 0 || tc[0] == '[' {
        return None;
    }
    let ws = words(t.as_str());
    if ws.len() < 2 {
        return None;
    }
    proof {
        assert(views(ws@)[0] == ws@[0]@);
        assert(views(ws@)[1] == ws@[1]@);
    }
    if str_eq(ws[0].as_str(), "Name") && str_eq(ws[1].as_str(), "Version") {
        return None;
    }
    if !starts_with_digit_str(ws[1].as_str()) {
        return None;
    }
    let mut e = ws[0].clone();
    e.append("|");
    e.append(ws[1].as_str());
    Some(e)
}

/// Normalize `clio packages` output into a sorted `name|version` snapshot
/// used for drift detection. Log-prefixed lines and the header are dropped,
/// so an update banner appearing later does not register as drift.
pub fn parse_packages_snapshot(raw: &str) -> (rows: Vec<String>)
    ensures
        views(rows@) == spec_packages_snapshot(raw@),
{
    let ls = lines(raw);
    let ghost lv = views(ls@);
    let mut entries: Vec<String> = Vec::new();
    let mut i: usize = 0;
    while i < ls.len()
        invariant
            i <= ls.len(),
            lv == views(ls@),
            views(entries@) == package_entries(lv.take(i as int)),
        decreases ls.len() - i,
    {
        proof {
            assert(lv.take(i + 1).drop_last() =~= lv.take(i as int));
            assert(lv.take(i + 1).last() == ls@[i as int]@);
        }
        match package_entry_of(ls[i].as_str()) {
            Some(e) => {
                let ghost before = views(entries@);
                entries.push(e);
                assert(views(entries@) =~= before.push(e@));
            },
            None => {},
        }
        i = i + 1;
    }
    assert(lv.take(ls.len() as int) =~= lv);
    sort_strings(&entries)
}

/// The package snapshot text of an environment from the exit code and output
/// of `clio packages -e <env>`: the rows joined by newlines, or an error when
/// no row could be read.
pub open spec fn spec_packages_snapshot_text(env: Seq<char>, code: i32, out: Seq<char>) -> Result<Seq<char>, Seq<char>> {
    let rows = spec_packages_snapshot(out);
    if rows.len() == 0 {
        Err("Could not read package list from "@ + env + " (exit "@ + spec_signed_decimal(code as int) + ")."@)
    } else {
        Ok(spec_join(rows, "\n"@))
    }
}

pub fn packages_snapshot(env: &str, code: i32, out: &str) -> (r: Result<String, String>)
    ensures
        match r {
            Ok(s) => spec_packages_snapshot_text(env@, code, out@) == Ok::<Seq<char>, Seq<char>>(s@),
            Err(e) => spec_packages_snapshot_text(env@, code, out@) == Err::<Seq<char>, Seq<char>>(e@),
        },
{
    let rows = parse_packages_snapshot(out);
    if rows.len() == 0 {
        let mut e = owned("Could not read package list from ");
        e.append(env);
        e.append(" (exit ");
        let c = signed_decimal(code);
        e.append(c.as_str());
        e.append(").");
        return Err(e);
    }
    Ok(join(&rows, "\n"))
}

/// A line clio prefixed with a log level, such as `[WAR] ...`.
pub open spec fn is_log_line(l: Seq<char>) -> bool {
    spec_trim(l).len() > 0 && spec_trim(l)[0] == '['
}

/// The lines that are not log-prefixed, in order.
pub open spec fn drop_log_lines(ls: Seq<Seq<char>>) -> Seq<Seq<char>>
    decreases ls.len(),
{
    if ls.len() == 0 {
        seq![]
    } else if is_log_line(ls.last()) {
        drop_log_lines(ls.drop_last())
    } else {
        drop_log_lines(ls.drop_last()).push(ls.last())
    }
}

/// Log-prefixed lines (`[WAR] ...`, `[INF] ...`) never change a package
/// snapshot: the snapshot of any output equals that of the same lines with
/// those removed, so an update banner does not register as drift.
pub proof fn lemma_log_lines_never_drift(ls: Seq<Seq<char>>)
    ensures
        spec_sort_texts(package_entries(ls)) == spec_sort_texts(package_entries(drop_log_lines(ls))),
        package_entries(ls) == package_entries(drop_log_lines(ls)),
    decreases ls.len(),
{
    if ls.len() > 0 {
        lemma_log_lines_never_drift(ls.drop_last());
        if !is_log_line(ls.last()) {
            let d = drop_log_lines(ls.drop_last()).push(ls.last());
            assert(d.drop_last() =~= drop_log_lines(ls.drop_last()));
        }
    }
}

} // verus!
