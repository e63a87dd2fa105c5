//! Reading the outcome of `clio execute-sql-script`.
//!
//! Neither clio's exit code nor an `[ERR]` line is enough to tell a failed run:
//! when the database rejects a statement clio exits 0, prints no `[ERR]`, and
//! writes the engine's message followed by `Done`. This module reads the
//! output for that message, tells queries from statements, and turns a
//! finished run into the result the SQL screen shows.
use vstd::prelude::*;
use crate::text::{
    chars_of, concat2, contains, contains_sub, eq_ignore_ascii_case, eq_ignore_case, index_of,
    is_alnum, is_ascii_alpha, is_ascii_digit, is_ascii_upper, is_blank, is_blank_str, is_digit,
    is_upper, is_whitespace, is_ws, join, keep_not_blank, keep_nonempty, lines, lower_char,
    ascii_lower_seq, nonempty_strings, owned, spec_join, spec_lines, spec_to_lowercase,
    spec_to_uppercase, spec_trim, spec_trim_end, spec_trim_start, starts_with, starts_with_str,
    string_from_chars, string_of_range, to_lowercase, to_uppercase, trim, trim_all, trim_end,
    trim_start, trimmed_lines, views, first_occ, find_sub, lemma_first_occ_facts, occurs_at,
};

verus! {

/// Most rows handed to the result grid. Exports are never capped.
pub const DISPLAY_CAP: usize = 5000;

/// A result set for the SQL screen.
#[derive(Clone, Debug, PartialEq)]
pub struct SqlResult {
    pub columns: Vec<String>,
    pub rows: Vec<Vec<String>>,
    /// Every row the query returned, shown or not.
    pub row_count: usize,
    pub truncated: bool,
    /// The SQL was a statement rather than a query, so no rows is expected.
    pub statement: bool,
    /// Notes to show beside (or instead of) the grid.
    pub messages: Vec<String>,
}

// ------------------------------------------------------------- SQLSTATE

/// `5 alphanumerics:` where each is an ASCII digit or uppercase letter and at
/// least one is a digit, followed by a non-blank message: a PostgreSQL
/// SQLSTATE header such as `42703: column "x" does not exist`.
pub open spec fn spec_is_sqlstate_line(line: Seq<char>) -> bool {
    let k = index_of(line, ':');
    &&& k == 5
    &&& forall|i: int| 0 <= i < 5 ==> is_ascii_digit(#[trigger] line[i]) || is_ascii_upper(line[i])
    &&& exists|i: int| 0 <= i < 5 && is_ascii_digit(#[trigger] line[i])
    &&& !is_blank(line.skip(6))
}

/// Whether `line` is a SQLSTATE header.
pub fn is_sqlstate_line(line: &str) -> (b: bool)
    ensures
        b == spec_is_sqlstate_line(line@),
{
    let v = chars_of(line);
    let k = crate::text::find_char(&v, ':', 0);
    proof {
        assert(v@.skip(0) =~= v@);
    }
    if k != 5 || k >= v.len() {
        return false;
    }
    let mut i: usize = 0;
    let mut digit = false;
    while i < 5
        invariant
            i <= 5,
            v.len() > 5,
            v@ == line@,
            forall|j: int| 0 <= j < i ==> is_ascii_digit(#[trigger] v@[j]) || is_ascii_upper(v@[j]),
            digit == exists|j: int| 0 <= j < i && is_ascii_digit(#[trigger] v@[j]),
        decreases 5 - i,
    {
        if !(is_digit(v[i]) || is_upper(v[i])) {
            return false;
        }
        if is_digit(v[i]) {
            digit = true;
        }
        i = i + 1;
    }
    if !digit {
        return false;
    }
    let message = string_of_range(&v, 6, v.len());
    assert(message@ =~= line@.skip(6));
    !is_blank_str(message.as_str())
}

/// Phrases that only appear when an engine rejected the statement.
pub open spec fn spec_db_error_phrase(i: int) -> Seq<char> {
    if i == 0 {
        "syntax error"@
    } else if i == 1 {
        "does not exist"@
    } else if i == 2 {
        "already exists"@
    } else if i == 3 {
        "invalid column name"@
    } else if i == 4 {
        "invalid object name"@
    } else if i == 5 {
        "permission denied"@
    } else if i == 6 {
        "duplicate key"@
    } else {
        "violates"@
    }
}

pub const DB_ERROR_PHRASE_COUNT: usize = 8;

fn db_error_phrase(i: usize) -> (p: &'static str)
    requires
        i < DB_ERROR_PHRASE_COUNT,
    ensures
        p@ == spec_db_error_phrase(i as int),
{
    if i == 0 {
        "syntax error"
    } else if i == 1 {
        "does not exist"
    } else if i == 2 {
        "already exists"
    } else if i == 3 {
        "invalid column name"
    } else if i == 4 {
        "invalid object name"
    } else if i == 5 {
        "permission denied"
    } else if i == 6 {
        "duplicate key"
    } else {
        "violates"
    }
}

/// Whether a (trimmed) output line carries the engine's complaint.
pub open spec fn spec_is_db_error_line(line: Seq<char>) -> bool {
    spec_is_sqlstate_line(line) || exists|i: int|
        0 <= i < DB_ERROR_PHRASE_COUNT && contains_sub(
            spec_to_lowercase(line),
            #[trigger] spec_db_error_phrase(i),
        )
}

fn is_db_error_line(line: &str) -> (b: bool)
    ensures
        b == spec_is_db_error_line(line@),
{
    if is_sqlstate_line(line) {
        return true;
    }
    let lowered = to_lowercase(line);
    let mut i: usize = 0;
    while i < DB_ERROR_PHRASE_COUNT
        invariant
            i <= DB_ERROR_PHRASE_COUNT,
            lowered@ == spec_to_lowercase(line@),
            forall|j: int|
                0 <= j < i ==> !contains_sub(lowered@, #[trigger] spec_db_error_phrase(j)),
        decreases DB_ERROR_PHRASE_COUNT - i,
    {
        if contains(lowered.as_str(), db_error_phrase(i)) {
            return true;
        }
        i = i + 1;
    }
    false
}

/// Index of the first line satisfying `spec_is_db_error_line`, or -1.
pub open spec fn first_db_error_line(ls: Seq<Seq<char>>) -> int
    decreases ls.len(),
{
    if ls.len() == 0 {
        -1
    } else if spec_is_db_error_line(ls[0]) {
        0
    } else {
        let r = first_db_error_line(ls.drop_first());
        if r < 0 {
            -1
        } else {
            r + 1
        }
    }
}

/// The lines before the first one that reads `done` (ASCII case ignored).
pub open spec fn until_done(ls: Seq<Seq<char>>) -> Seq<Seq<char>>
    decreases ls.len(),
{
    if ls.len() == 0 || eq_ignore_case(ls[0], "done"@) {
        seq![]
    } else {
        seq![ls[0]] + until_done(ls.drop_first())
    }
}

/// The database's own complaint in clio's output: every non-empty trimmed line
/// from the first error line up to clio's trailing `Done`, joined with spaces.
pub open spec fn spec_database_error(out: Seq<char>) -> Option<Seq<char>> {
    let ls = trim_all(spec_lines(out));
    let k = first_db_error_line(ls);
    if k < 0 {
        None
    } else {
        Some(spec_join(keep_nonempty(until_done(ls.skip(k))), " "@))
    }
}

proof fn lemma_first_db_error_line(ls: Seq<Seq<char>>, k: int)
    requires
        0 <= k <= ls.len(),
        k < ls.len() ==> spec_is_db_error_line(ls[k]),
        forall|i: int| 0 <= i < k ==> !spec_is_db_error_line(#[trigger] ls[i]),
    ensures
        first_db_error_line(ls) == (if k < ls.len() { k } else { -1 }),
    decreases k,
{
    if k > 0 {
        assert forall|i: int| 0 <= i < k - 1 implies !spec_is_db_error_line(
            #[trigger] ls.drop_first()[i],
        ) by {
            assert(ls.drop_first()[i] == ls[i + 1]);
        }
        lemma_first_db_error_line(ls.drop_first(), k - 1);
    }
}

/// The database's own complaint in clio's output, if there is one.
pub fn database_error(out: &str) -> (r: Option<String>)
    ensures
        match r {
            Some(m) => spec_database_error(out@) == Some(m@),
            None => spec_database_error(out@) is None,
        },
{
    let ls = trimmed_lines(out);
    let mut k: usize = 0;
    while k < ls.len() && !is_db_error_line(ls[k].as_str())
        invariant
            k <= ls.len(),
            forall|i: int| 0 <= i < k ==> !spec_is_db_error_line(#[trigger] views(ls@)[i]),
        decreases ls.len() - k,
    {
        k = k + 1;
    }
    proof {
        lemma_first_db_error_line(views(ls@), k as int);
    }
    if k == ls.len() {
        return None;
    }
    let mut message: Vec<String> = Vec::new();
    let mut i = k;
    while i < ls.len() && !eq_ignore_ascii_case(ls[i].as_str(), "done")
        invariant
            k <= i <= ls.len(),
            views(message@) + until_done(views(ls@).skip(i as int)) == until_done(
                views(ls@).skip(k as int),
            ),
        decreases ls.len() - i,
    {
        proof {
            assert(views(ls@).skip(i as int)[0] == ls@[i as int]@);
            assert(views(ls@).skip(i as int).drop_first() =~= views(ls@).skip(i + 1));
            assert(views(message@.push(ls@[i as int])) =~= views(message@).push(ls@[i as int]@));
        }
        message.push(ls[i].clone());
        i = i + 1;
    }
    proof {
        if i < ls.len() {
            assert(views(ls@).skip(i as int)[0] == ls@[i as int]@);
        } else {
            assert(views(ls@).skip(i as int) =~= Seq::<Seq<char>>::empty());
        }
        assert(views(message@) + seq![] =~= views(message@));
    }
    let kept = nonempty_strings(&message);
    Some(join(&kept, " "))
}

// -------------------------------------------------------------- failures

/// Whether clio's run failed: a non-zero exit, an `[ERR]` line, or the
/// database's own complaint in the output. A missing result file is not a
/// failure: statements and empty queries never write one.
pub open spec fn spec_is_failure(code: i32, out: Seq<char>) -> bool {
    code != 0 || contains_sub(out, "[ERR]"@) || spec_database_error(out) is Some
}

/// Whether clio's run failed.
pub fn is_failure(code: i32, out: &str) -> (b: bool)
    ensures
        b == spec_is_failure(code, out@),
{
    code != 0 || contains(out, "[ERR]") || database_error(out).is_some()
}

/// A statement the database rejected fails with the database's own message,
/// whatever clio's exit code (clio reports such errors with a success code),
/// unless the output asks for the cliogate helper.
pub proof fn lemma_database_error_surfaces(code: i32, out: Seq<char>)
    requires
        spec_database_error(out) is Some,
        !(contains_sub(out, "cliogate"@) && contains_sub(spec_to_lowercase(out), "install"@)),
    ensures
        spec_is_failure(code, out),
        spec_friendly_error(out) == spec_database_error(out)->0,
{
}

// ------------------------------------------------------ query or statement

/// `trim_start_matches(['(', '"'])`: the text without leading `(` and `"`.
pub open spec fn skip_open(s: Seq<char>) -> Seq<char>
    decreases s.len(),
{
    if s.len() > 0 && (s[0] == '(' || s[0] == '"') {
        skip_open(s.drop_first())
    } else {
        s
    }
}

/// The leading ASCII letters of `s`.
pub open spec fn leading_letters(s: Seq<char>) -> Seq<char>
    decreases s.len(),
{
    if s.len() > 0 && is_ascii_alpha(s[0]) {
        seq![s[0]] + leading_letters(s.drop_first())
    } else {
        seq![]
    }
}

/// The first keyword of a query: its leading letters, lowercased, after
/// leading whitespace, `(` and `"`.
pub open spec fn first_keyword(query: Seq<char>) -> Seq<char> {
    ascii_lower_seq(leading_letters(skip_open(spec_trim_start(query))))
}

/// Whether the SQL asks the database for rows back.
pub open spec fn spec_returns_rows(query: Seq<char>) -> bool {
    let w = first_keyword(query);
    w == "select"@ || w == "with"@ || w == "show"@ || w == "explain"@ || w == "values"@ || w
        == "table"@
}

fn first_keyword_of(query: &str) -> (w: String)
    ensures
        w@ == first_keyword(query@),
{
    let head = trim_start(query);
    let v = chars_of(head.as_str());
    let mut a: usize = 0;
    proof {
        assert(v@.skip(0) =~= v@);
    }
    while a < v.len() && (v[a] == '(' || v[a] == '"')
        invariant
            a <= v.len(),
            skip_open(v@.skip(a as int)) == skip_open(v@),
        decreases v.len() - a,
    {
        proof {
            assert(v@.skip(a as int).drop_first() =~= v@.skip(a + 1));
        }
        a = a + 1;
    }
    proof {
        if a < v.len() {
            assert(v@.skip(a as int)[0] == v@[a as int]);
        }
    }
    let mut out: Vec<char> = Vec::new();
    let mut b = a;
    while b < v.len() && is_alnum(v[b]) && !is_digit(v[b])
        invariant
            a <= b <= v.len(),
            out@ + ascii_lower_seq(leading_letters(v@.skip(b as int))) == ascii_lower_seq(
                leading_letters(v@.skip(a as int)),
            ),
        decreases v.len() - b,
    {
        proof {
            let t = v@.skip(b as int);
            assert(t[0] == v@[b as int]);
            assert(t.drop_first() =~= v@.skip(b + 1));
            assert(ascii_lower_seq(seq![t[0]] + leading_letters(t.drop_first())) =~= seq![
                crate::text::ascii_lower(t[0]),
            ] + ascii_lower_seq(leading_letters(t.drop_first())));
        }
        out.push(lower_char(v[b]));
        b = b + 1;
    }
    proof {
        if b < v.len() {
            assert(v@.skip(b as int)[0] == v@[b as int]);
        }
        assert(out@ + seq![] =~= out@);
    }
    string_from_chars(out.as_slice())
}

/// Whether this SQL asks the database for rows back.
pub fn returns_rows(query: &str) -> (b: bool)
    ensures
        b == spec_returns_rows(query@),
{
    let w = first_keyword_of(query);
    let s = w.as_str();
    crate::text::str_eq(s, "select") || crate::text::str_eq(s, "with") || crate::text::str_eq(
        s,
        "show",
    ) || crate::text::str_eq(s, "explain") || crate::text::str_eq(s, "values")
        || crate::text::str_eq(s, "table")
}

/// Whether the SQL's only output would be PL/pgSQL messages: an anonymous `DO`
/// block (`do`, any case, then whitespace or `$`), or a `RAISE NOTICE`
/// anywhere in the uppercased script.
pub open spec fn spec_emits_only_notices(query: Seq<char>) -> bool {
    let head = spec_trim_start(query);
    let starts_do = head.len() >= 3 && eq_ignore_case(head.take(2), "do"@) && (is_ws(head[2])
        || head[2] == '$');
    starts_do || contains_sub(spec_to_uppercase(query), "RAISE NOTICE"@)
}

/// Whether the SQL's only output would be PL/pgSQL messages.
pub fn emits_only_notices(query: &str) -> (b: bool)
    ensures
        b == spec_emits_only_notices(query@),
{
    let head = trim_start(query);
    let v = chars_of(head.as_str());
    let mut starts_do = false;
    if v.len() >= 3 {
        let first = string_of_range(&v, 0, 2);
        assert(first@ =~= v@.take(2));
        starts_do = eq_ignore_ascii_case(first.as_str(), "do") && (is_whitespace(v[2]) || v[2]
            == '$');
    }
    starts_do || contains(to_uppercase(query).as_str(), "RAISE NOTICE")
}

/// The note shown when a run's only output would have been PL/pgSQL messages.
pub fn notice_only_hint() -> (s: String)
    ensures
        s@ == spec_notice_only_hint(),
{
    owned(
        "This block ran, but produced no result set. clio's SQL executor does not return PL/pgSQL messages (RAISE NOTICE / anonymous DO-block output), so the notices are lost before they reach DevHub. To see results in the grid, return them as rows instead — e.g. move the logic into a function that RETURNS TABLE(...) and finish the script with a SELECT from it.",
    )
}

pub open spec fn spec_notice_only_hint() -> Seq<char> {
    "This block ran, but produced no result set. clio's SQL executor does not return PL/pgSQL messages (RAISE NOTICE / anonymous DO-block output), so the notices are lost before they reach DevHub. To see results in the grid, return them as rows instead — e.g. move the logic into a function that RETURNS TABLE(...) and finish the script with a SELECT from it."@
}


// --------------------------------------------------------- error messages

/// The text after the first `[ERR]` of a line, trimmed.
pub open spec fn err_message(line: Seq<char>) -> Seq<char> {
    spec_trim(line.skip(first_occ(line, "[ERR]"@) + "[ERR]"@.len()))
}

/// The non-empty `[ERR]` messages of the lines, in order.
pub open spec fn err_messages(ls: Seq<Seq<char>>) -> Seq<Seq<char>>
    decreases ls.len(),
{
    if ls.len() == 0 {
        seq![]
    } else if contains_sub(ls.last(), "[ERR]"@) && err_message(ls.last()).len() > 0 {
        err_messages(ls.drop_last()).push(err_message(ls.last()))
    } else {
        err_messages(ls.drop_last())
    }
}

/// Whether a line is part of the fallback message: not clio's `[WAR]`/`[INF]`
/// chatter and not blank.
pub open spec fn is_signal_line(line: Seq<char>) -> bool {
    let t = spec_trim_end(line);
    !starts_with(spec_trim_start(t), "[WAR]"@) && !starts_with(spec_trim_start(t), "[INF]"@)
        && !is_blank(t)
}

/// The signal lines, each with its trailing whitespace removed.
pub open spec fn signal_lines(ls: Seq<Seq<char>>) -> Seq<Seq<char>>
    decreases ls.len(),
{
    if ls.len() == 0 {
        seq![]
    } else if is_signal_line(ls.last()) {
        signal_lines(ls.drop_last()).push(spec_trim_end(ls.last()))
    } else {
        signal_lines(ls.drop_last())
    }
}

pub open spec fn spec_cliogate_hint() -> Seq<char> {
    "This environment needs the cliogate helper to run SQL. Install it first (clio install-gate), then try again."@
}

pub open spec fn spec_no_output_message() -> Seq<char> {
    "The SQL command produced no output."@
}

/// Most characters of the fallback message.
pub const FALLBACK_CHARS: usize = 600;

/// A readable error from clio's output: the cliogate hint when the output
/// names cliogate and mentions installing, else the database's complaint,
/// else the `[ERR]` messages, else the output without clio's chatter (at most
/// `FALLBACK_CHARS` characters), else a fixed note.
pub open spec fn spec_friendly_error(out: Seq<char>) -> Seq<char> {
    let ls = spec_lines(out);
    if contains_sub(out, "cliogate"@) && contains_sub(spec_to_lowercase(out), "install"@) {
        spec_cliogate_hint()
    } else if spec_database_error(out) is Some {
        spec_database_error(out)->0
    } else if err_messages(ls).len() > 0 {
        spec_join(err_messages(ls), " "@)
    } else if spec_join(signal_lines(ls), "\n"@).len() == 0 {
        spec_no_output_message()
    } else {
        let t = spec_join(signal_lines(ls), "\n"@);
        if t.len() > FALLBACK_CHARS {
            t.take(FALLBACK_CHARS as int)
        } else {
            t
        }
    }
}

fn err_message_of(line: &str) -> (r: Option<String>)
    ensures
        r is Some <==> contains_sub(line@, "[ERR]"@),
        match r {
            Some(m) => m@ == err_message(line@),
            None => true,
        },
{
    let v = chars_of(line);
    let pat = chars_of("[ERR]");
    match find_sub(&v, &pat) {
        Some(k) => {
            proof {
                lemma_first_occ_facts(v@, pat@);
                assert(occurs_at(v@, pat@, k as int));
                assert(k + pat.len() <= v.len());
            }
            let rest = string_of_range(&v, k + pat.len(), v.len());
            assert(rest@ =~= line@.skip(first_occ(line@, "[ERR]"@) + "[ERR]"@.len()));
            let m = trim(rest.as_str());
            Some(m)
        },
        None => None,
    }
}

/// A readable error from clio's output.
pub fn friendly_error(out: &str) -> (r: String)
    ensures
        r@ == spec_friendly_error(out@),
{
    if contains(out, "cliogate") && contains(to_lowercase(out).as_str(), "install") {
        return owned(
            "This environment needs the cliogate helper to run SQL. Install it first (clio install-gate), then try again.",
        );
    }
    if let Some(message) = database_error(out) {
        return message;
    }
    let ls = lines(out);
    let mut errs: Vec<String> = Vec::new();
    let mut signal: Vec<String> = Vec::new();
    let mut i: usize = 0;
    while i < ls.len()
        invariant
            i <= ls.len(),
            views(ls@) == spec_lines(out@),
            views(errs@) == err_messages(views(ls@).take(i as int)),
            views(signal@) == signal_lines(views(ls@).take(i as int)),
        decreases ls.len() - i,
    {
        let line = ls[i].as_str();
        proof {
            assert(views(ls@).take(i + 1).drop_last() =~= views(ls@).take(i as int));
            assert(views(ls@).take(i + 1).last() == ls@[i as int]@);
        }
        if contains(line, "[ERR]") {
            let m = err_message_of(line);
            if let Some(text) = m {
                if text.as_str().unicode_len() > 0 {
                    let ghost before = errs@;
                    errs.push(text);
                    assert(views(errs@) =~= views(before).push(err_message(ls@[i as int]@)));
                }
            }
        }
        let t = trim_end(line);
        let t_start = trim_start(t.as_str());
        if !starts_with_str(t_start.as_str(), "[WAR]") && !starts_with_str(t_start.as_str(), "[INF]")
            && !is_blank_str(t.as_str()) {
            let ghost before = signal@;
            signal.push(t);
            assert(views(signal@) =~= views(before).push(spec_trim_end(ls@[i as int]@)));
        }
        i = i + 1;
    }
    proof {
        assert(views(ls@).take(ls.len() as int) =~= views(ls@));
    }
    if errs.len() > 0 {
        return join(&errs, " ");
    }
    let trimmed = join(&signal, "\n");
    let v = chars_of(trimmed.as_str());
    if v.len() == 0 {
        owned("The SQL command produced no output.")
    } else if v.len() > FALLBACK_CHARS {
        string_of_range(&v, 0, FALLBACK_CHARS)
    } else {
        trimmed
    }
}


// ------------------------------------------------------------ requests

/// The trimmed query, or the error shown for an empty one.
pub fn require_query(query: &str) -> (r: Result<String, String>)
    ensures
        match r {
            Ok(q) => q@ == spec_trim(query@) && spec_trim(query@).len() > 0,
            Err(e) => spec_trim(query@).len() == 0 && e@ == "Enter a SQL query to run."@,
        },
{
    let q = trim(query);
    if q.as_str().unicode_len() == 0 {
        return Err(owned("Enter a SQL query to run."));
    }
    Ok(q)
}

/// An error when no environment is chosen.
pub fn require_env(env: &str) -> (r: Result<(), String>)
    ensures
        match r {
            Ok(()) => !is_blank(env@),
            Err(e) => is_blank(env@) && e@ == "Choose an environment."@,
        },
{
    if is_blank_str(env) {
        return Err(owned("Choose an environment."));
    }
    Ok(())
}

// ------------------------------------------------------------- results

/// The character sequences of a table of strings.
pub open spec fn table_view(rows: Seq<Vec<String>>) -> Seq<Seq<Seq<char>>> {
    rows.map_values(|r: Vec<String>| views(r@))
}

/// What the csv crate reads from clio's result file (`;`-delimited, a header
/// row, rows of any width): the column names and every record; or, for the
/// first error, whether it came while reading the header row, and its text.
pub uninterp spec fn spec_csv_table(bytes: Seq<u8>) -> Result<
    (Seq<Seq<char>>, Seq<Seq<Seq<char>>>),
    (bool, Seq<char>),
>;

/// Why the csv crate could not read a result file.
pub enum CsvFailure {
    /// The header row could not be read.
    Headers(String),
    /// A record could not be read.
    Row(String),
}

/// The views of what the csv crate read.
pub open spec fn csv_raw_view(r: Result<(Vec<String>, Vec<Vec<String>>), CsvFailure>) -> Result<
    (Seq<Seq<char>>, Seq<Seq<Seq<char>>>),
    (bool, Seq<char>),
> {
    match r {
        Ok((c, rows)) => Ok((views(c@), table_view(rows@))),
        Err(CsvFailure::Headers(e)) => Err((true, e@)),
        Err(CsvFailure::Row(e)) => Err((false, e@)),
    }
}

/// The views of a parsed table.
pub open spec fn csv_view(r: Result<(Vec<String>, Vec<Vec<String>>), String>) -> Result<
    (Seq<Seq<char>>, Seq<Seq<Seq<char>>>),
    Seq<char>,
> {
    match r {
        Ok((c, rows)) => Ok((views(c@), table_view(rows@))),
        Err(e) => Err(e@),
    }
}

/// Read clio's semicolon-delimited result with the csv crate.
///
/// Trusted: calls `csv::ReaderBuilder` (delimiter `;`, headers, flexible),
/// `Reader::headers` and `Reader::records`; the table is named, not stated.
#[verifier::external_body]
pub(crate) fn read_semicolon_csv(bytes: &[u8]) -> (r: Result<(Vec<String>, Vec<Vec<String>>), CsvFailure>)
    ensures
        csv_raw_view(r) == spec_csv_table(bytes@),
{
    let mut reader = csv::ReaderBuilder::new().delimiter(b';').has_headers(true).flexible(true).from_reader(bytes);
    let columns: Vec<String> = match reader.headers() {
        Ok(h) => h.iter().map(|s| s.to_string()).collect(),
        Err(e) => return Err(CsvFailure::Headers(e.to_string())),
    };
    let mut rows: Vec<Vec<String>> = Vec::new();
    for record in reader.records() {
        match record {
            Ok(r) => rows.push(r.iter().map(|s| s.to_string()).collect()),
            Err(e) => return Err(CsvFailure::Row(e.to_string())),
        }
    }
    Ok((columns, rows))
}

/// A result file read as a table, or what went wrong reading it.
pub open spec fn spec_read_table(bytes: Seq<u8>) -> Result<(Seq<Seq<char>>, Seq<Seq<Seq<char>>>), Seq<char>> {
    match spec_csv_table(bytes) {
        Ok(t) => Ok(t),
        Err((true, e)) => Err("Could not read column headers: "@ + e),
        Err((false, e)) => Err("Malformed result row: "@ + e),
    }
}

pub(crate) fn read_table(bytes: &[u8]) -> (r: Result<(Vec<String>, Vec<Vec<String>>), String>)
    ensures
        csv_view(r) == spec_read_table(bytes@),
{
    match read_semicolon_csv(bytes) {
        Ok(t) => Ok(t),
        Err(CsvFailure::Headers(e)) => Err(concat2("Could not read column headers: ", e.as_str())),
        Err(CsvFailure::Row(e)) => Err(concat2("Malformed result row: ", e.as_str())),
    }
}

/// Turn a finished uncapped `SELECT` run (a lookup capture or read) into its
/// table: a failed run is its friendly error, a run without a result file
/// matched nothing, and a result file is read whole.
pub fn select_outcome(code: i32, out: &str, result_file: Option<&[u8]>) -> (r: Result<
    (Vec<String>, Vec<Vec<String>>),
    String,
>)
    ensures
        spec_is_failure(code, out@) ==> (r matches Err(e) && e@ == spec_friendly_error(out@)),
        !spec_is_failure(code, out@) && result_file is None ==> (r matches Ok((c, rows)) && c@.len() == 0
            && rows@.len() == 0),
        !spec_is_failure(code, out@) && result_file is Some ==> csv_view(r) == spec_read_table(
            result_file->0@,
        ),
{
    if is_failure(code, out) {
        return Err(friendly_error(out));
    }
    match result_file {
        None => Ok((Vec::new(), Vec::new())),
        Some(bytes) => read_table(bytes),
    }
}

/// The grid's view of a result: at most `DISPLAY_CAP` rows, the true count,
/// and whether rows were left out.
pub open spec fn spec_grid(columns: Seq<Seq<char>>, rows: Seq<Seq<Seq<char>>>) -> (
    Seq<Seq<char>>,
    Seq<Seq<Seq<char>>>,
    nat,
    bool,
) {
    let shown = if rows.len() > DISPLAY_CAP {
        rows.take(DISPLAY_CAP as int)
    } else {
        rows
    };
    (columns, shown, rows.len(), rows.len() > DISPLAY_CAP)
}

/// The grid result for a parsed table: a query's rows, capped for display.
pub fn grid_result(columns: Vec<String>, records: Vec<Vec<String>>) -> (r: SqlResult)
    ensures
        (views(r.columns@), table_view(r.rows@), r.row_count as nat, r.truncated) == spec_grid(
            views(columns@),
            table_view(records@),
        ),
        !r.statement,
        r.messages@.len() == 0,
{
    let row_count = records.len();
    let mut rows = records;
    if rows.len() > DISPLAY_CAP {
        rows.truncate(DISPLAY_CAP);
        assert(table_view(rows@) =~= table_view(records@).take(DISPLAY_CAP as int));
    }
    SqlResult {
        columns,
        truncated: row_count > rows.len(),
        row_count,
        rows,
        statement: false,
        messages: Vec::new(),
    }
}

/// Parse clio's result file into the grid result.
pub fn parse_csv(bytes: &[u8]) -> (r: Result<SqlResult, String>)
    ensures
        match spec_read_table(bytes@) {
            Ok((c, rows)) => r matches Ok(res) && ((
                views(res.columns@),
                table_view(res.rows@),
                res.row_count as nat,
                res.truncated,
            ) == spec_grid(c, rows)) && !res.statement && res.messages@.len() == 0,
            Err(e) => r matches Err(m) && m@ == e,
        },
{
    match read_table(bytes) {
        Ok((columns, records)) => Ok(grid_result(columns, records)),
        Err(e) => Err(e),
    }
}

/// The result of a run that wrote no result file: a statement succeeded or a
/// query matched nothing, which only the SQL can tell apart.
pub open spec fn spec_empty_result(query: Seq<char>) -> (bool, Seq<Seq<char>>) {
    (
        !spec_returns_rows(query),
        if spec_emits_only_notices(query) {
            seq![spec_notice_only_hint()]
        } else {
            seq![]
        },
    )
}

/// Turn a finished `execute-sql-script` run into the SQL screen's answer.
///
/// A failed run is its friendly error; a run without a result file is an empty
/// success, worded by the SQL; otherwise the result file is read into the grid.
pub fn query_outcome(query: &str, code: i32, out: &str, result_file: Option<&[u8]>) -> (r: Result<
    SqlResult,
    String,
>)
    ensures
        spec_is_failure(code, out@) ==> (r matches Err(e) && e@ == spec_friendly_error(out@)),
        !spec_is_failure(code, out@) && result_file is None ==> (r matches Ok(res) && res.columns@.len()
            == 0 && res.rows@.len() == 0 && res.row_count == 0 && !res.truncated
            && ((res.statement, views(res.messages@)) == spec_empty_result(query@))),
        !spec_is_failure(code, out@) && result_file is Some ==> match spec_read_table(
            result_file->0@,
        ) {
            Ok((c, rows)) => r matches Ok(res) && ((
                views(res.columns@),
                table_view(res.rows@),
                res.row_count as nat,
                res.truncated,
            ) == spec_grid(c, rows)) && !res.statement && res.messages@.len() == 0,
            Err(e) => r matches Err(m) && m@ == e,
        },
{
    if is_failure(code, out) {
        return Err(friendly_error(out));
    }
    match result_file {
        None => {
            let mut messages: Vec<String> = Vec::new();
            if emits_only_notices(query) {
                messages.push(notice_only_hint());
            }
            proof {
                if spec_emits_only_notices(query@) {
                    assert(views(messages@) =~= seq![spec_notice_only_hint()]);
                } else {
                    assert(views(messages@) =~= Seq::<Seq<char>>::empty());
                }
            }
            Ok(
                SqlResult {
                    columns: Vec::new(),
                    rows: Vec::new(),
                    row_count: 0,
                    truncated: false,
                    statement: !returns_rows(query),
                    messages,
                },
            )
        },
        Some(bytes) => parse_csv(bytes),
    }
}

// ----------------------------------------------------------------- export

/// The clio output format for an export format name (trimmed, lowercased):
/// `csv`, or `xlsx` for `xlsx` and `excel`.
pub open spec fn spec_export_format(format: Seq<char>) -> Result<Seq<char>, Seq<char>> {
    let f = spec_to_lowercase(spec_trim(format));
    if f == "csv"@ {
        Ok("csv"@)
    } else if f == "xlsx"@ || f == "excel"@ {
        Ok("xlsx"@)
    } else {
        Err("Unsupported export format: "@ + f)
    }
}

/// The clio output format for an export, or why it is refused.
pub fn export_format(format: &str) -> (r: Result<String, String>)
    ensures
        match r {
            Ok(f) => spec_export_format(format@) == Ok::<Seq<char>, Seq<char>>(f@),
            Err(e) => spec_export_format(format@) == Err::<Seq<char>, Seq<char>>(e@),
        },
{
    let t = trim(format);
    let f = to_lowercase(t.as_str());
    if crate::text::str_eq(f.as_str(), "csv") {
        Ok(owned("csv"))
    } else if crate::text::str_eq(f.as_str(), "xlsx") || crate::text::str_eq(f.as_str(), "excel") {
        Ok(owned("xlsx"))
    } else {
        Err(concat2("Unsupported export format: ", f.as_str()))
    }
}

/// Check an export request in this order — environment, query,
/// format, destination — and return the trimmed query and clio format.
pub fn validate_export(env: &str, query: &str, format: &str, path: &str) -> (r: Result<
    (String, String),
    String,
>)
    ensures
        is_blank(env@) ==> (r matches Err(e) && e@ == "Choose an environment."@),
        !is_blank(env@) && spec_trim(query@).len() == 0 ==> (r matches Err(e) && e@
            == "Enter a SQL query to run."@),
        !is_blank(env@) && spec_trim(query@).len() > 0 && spec_export_format(format@) is Err
            ==> (r matches Err(e) && Err::<Seq<char>, Seq<char>>(e@) == spec_export_format(format@)),
        !is_blank(env@) && spec_trim(query@).len() > 0 && spec_export_format(format@) is Ok
            && is_blank(path@) ==> (r matches Err(e) && e@ == "Choose where to save the file."@),
        !is_blank(env@) && spec_trim(query@).len() > 0 && spec_export_format(format@) is Ok
            && !is_blank(path@) ==> (r matches Ok((q, f)) && q@ == spec_trim(query@)
            && Ok::<Seq<char>, Seq<char>>(f@) == spec_export_format(format@)),
{
    require_env(env)?;
    let q = require_query(query)?;
    let f = export_format(format)?;
    if is_blank_str(path) {
        return Err(owned("Choose where to save the file."));
    }
    Ok((q, f))
}

/// Judge a finished export: a failed run is its friendly error, and a run that
/// wrote no file had nothing to export.
pub fn export_outcome(code: i32, out: &str, file_written: bool) -> (r: Result<(), String>)
    ensures
        spec_is_failure(code, out@) ==> (r matches Err(e) && e@ == spec_friendly_error(out@)),
        !spec_is_failure(code, out@) && !file_written ==> (r matches Err(e) && e@
            == "The statement ran, but it produced no result set — there is nothing to export."@),
        !spec_is_failure(code, out@) && file_written ==> r is Ok,
{
    if is_failure(code, out) {
        return Err(friendly_error(out));
    }
    if !file_written {
        return Err(
            owned(
                "The statement ran, but it produced no result set — there is nothing to export.",
            ),
        );
    }
    Ok(())
}

} // verus!
