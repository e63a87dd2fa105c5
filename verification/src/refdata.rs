//! Lookup (reference-data) comparison and migration between environments.
//!
//! `SysLookup` registers each lookup and points at the entity table holding
//! its values (`Id`, `Name`, `Description`). Values are compared and migrated
//! keyed on `Id`, never `Name`: other tables reference a lookup value by its
//! Guid, so a migration keeps it. The migration SQL is an idempotent
//! `INSERT … ON CONFLICT ("Id") DO UPDATE`, every table name spliced into SQL
//! must be a bare identifier, and every value is `''`-escaped.
use vstd::prelude::*;
use crate::assoc::{
    last_value, lemma_get_collect, get, spec_get, lemma_merge_self, collect, joined_views, keys_sorted, lemma_collect_sorted, merge, spec_collect, spec_merge, Joined,
};
use crate::sql::table_view;
use crate::text::{
    lemma_position_found, chars_of, concat2, concat3, decimal_usize, get_cloned, get_view, is_alnum, is_ascii_alnum,
    join, owned, position, position_of, seq_lt, spec_decimal, spec_join, spec_trim, str_eq,
    str_lt, string_from_chars, trim, views, is_blank, is_blank_str,
};

verus! {

// ------------------------------------------------------------------ types

/// One registered lookup: display name, backing table, owning package, and
/// whether the table has a `Description` column.
#[derive(Clone, Debug, PartialEq, Eq)]
pub struct LookupInfo {
    pub name: String,
    pub table: String,
    pub package: String,
    pub has_description: bool,
}

pub struct LookupInfoView {
    pub name: Seq<char>,
    pub table: Seq<char>,
    pub package: Seq<char>,
    pub has_description: bool,
}

impl View for LookupInfo {
    type V = LookupInfoView;

    open spec fn view(&self) -> LookupInfoView {
        LookupInfoView {
            name: self.name@,
            table: self.table@,
            package: self.package@,
            has_description: self.has_description,
        }
    }
}

/// The views of a list of lookups.
pub open spec fn infos_view(v: Seq<LookupInfo>) -> Seq<LookupInfoView> {
    v.map_values(|x: LookupInfo| x@)
}

/// A single lookup value row, reduced to the compared columns.
#[derive(Clone, Debug, PartialEq, Eq)]
pub struct LookupRow {
    pub id: String,
    pub name: String,
    /// Absent when the table has no `Description` column, or it is empty.
    pub description: Option<String>,
}

pub open spec fn opt_view(o: Option<String>) -> Option<Seq<char>> {
    match o {
        Some(s) => Some(s@),
        None => None,
    }
}

pub struct LookupRowView {
    pub id: Seq<char>,
    pub name: Seq<char>,
    pub description: Option<Seq<char>>,
}

impl View for LookupRow {
    type V = LookupRowView;

    open spec fn view(&self) -> LookupRowView {
        LookupRowView { id: self.id@, name: self.name@, description: opt_view(self.description) }
    }
}

/// The views of a list of rows.
pub open spec fn rows_view(v: Seq<LookupRow>) -> Seq<LookupRowView> {
    v.map_values(|x: LookupRow| x@)
}

/// The captured contents of one lookup table.
#[derive(Clone, Debug, PartialEq, Eq)]
pub struct LookupTable {
    /// The lookup's display name.
    pub title: String,
    pub rows: Vec<LookupRow>,
}

// ---------------------------------------------------------- pure: SQL text

/// The query enumerating every lookup with its table, package and whether the
/// table has a `Description` column. Lookups whose table has no `Name` column
/// (system views) or does not exist are excluded.
pub open spec fn spec_enumeration_sql() -> Seq<char> {
    "SELECT l.\"Name\" AS \"Name\",\n       s.\"Name\" AS \"Table\",\n       COALESCE(p.\"Name\", '') AS \"Package\",\n       CASE WHEN EXISTS (\n         SELECT 1 FROM information_schema.columns c\n         WHERE c.table_name = s.\"Name\" AND c.column_name = 'Description'\n       ) THEN '1' ELSE '0' END AS \"HasDescription\"\nFROM \"SysLookup\" l\nJOIN \"SysSchema\" s ON s.\"UId\" = l.\"SysEntitySchemaUId\"\nLEFT JOIN \"SysPackage\" p ON p.\"Id\" = s.\"SysPackageId\"\nWHERE EXISTS (\n  SELECT 1 FROM information_schema.columns c\n  WHERE c.table_name = s.\"Name\" AND c.column_name = 'Name'\n)\nORDER BY l.\"Name\""@
}

/// The lookup registry query.
pub fn enumeration_sql() -> (r: String)
    ensures
        r@ == spec_enumeration_sql(),
{
    owned(
        "SELECT l.\"Name\" AS \"Name\",\n       s.\"Name\" AS \"Table\",\n       COALESCE(p.\"Name\", '') AS \"Package\",\n       CASE WHEN EXISTS (\n         SELECT 1 FROM information_schema.columns c\n         WHERE c.table_name = s.\"Name\" AND c.column_name = 'Description'\n       ) THEN '1' ELSE '0' END AS \"HasDescription\"\nFROM \"SysLookup\" l\nJOIN \"SysSchema\" s ON s.\"UId\" = l.\"SysEntitySchemaUId\"\nLEFT JOIN \"SysPackage\" p ON p.\"Id\" = s.\"SysPackageId\"\nWHERE EXISTS (\n  SELECT 1 FROM information_schema.columns c\n  WHERE c.table_name = s.\"Name\" AND c.column_name = 'Name'\n)\nORDER BY l.\"Name\"",
    )
}

/// A bare identifier: non-empty, ASCII letters, digits and `_` only.
pub open spec fn spec_is_safe_identifier(name: Seq<char>) -> bool {
    name.len() > 0 && forall|i: int|
        0 <= i < name.len() ==> is_ascii_alnum(#[trigger] name[i]) || name[i] == '_'
}

/// Whether `name` is a bare identifier safe to splice into SQL. Anything else
/// is refused rather than escaped, so a table name can never carry SQL.
pub fn is_safe_identifier(name: &str) -> (b: bool)
    ensures
        b == spec_is_safe_identifier(name@),
{
    let v = chars_of(name);
    if v.len() == 0 {
        return false;
    }
    let mut i: usize = 0;
    while i < v.len()
        invariant
            i <= v.len(),
            v@ == name@,
            forall|k: int| 0 <= k < i ==> is_ascii_alnum(#[trigger] v@[k]) || v@[k] == '_',
        decreases v.len() - i,
    {
        if !(is_alnum(v[i]) || v[i] == '_') {
            return false;
        }
        i = i + 1;
    }
    true
}

/// `value.replace('\'', "''")`: every quote doubled.
pub open spec fn spec_escape(s: Seq<char>) -> Seq<char>
    decreases s.len(),
{
    if s.len() == 0 {
        seq![]
    } else if s.last() == '\'' {
        spec_escape(s.drop_last()) + seq!['\'', '\'']
    } else {
        spec_escape(s.drop_last()).push(s.last())
    }
}

/// Escape a value for a single-quoted SQL string literal.
pub fn escape_literal(value: &str) -> (r: String)
    ensures
        r@ == spec_escape(value@),
{
    let v = chars_of(value);
    let mut out: Vec<char> = Vec::new();
    let mut i: usize = 0;
    while i < v.len()
        invariant
            i <= v.len(),
            v@ == value@,
            out@ == spec_escape(v@.take(i as int)),
        decreases v.len() - i,
    {
        proof {
            assert(v@.take(i + 1).drop_last() =~= v@.take(i as int));
            assert(v@.take(i + 1).last() == v@[i as int]);
        }
        if v[i] == '\'' {
            out.push('\'');
            out.push('\'');
            assert(out@ =~= spec_escape(v@.take(i + 1)));
        } else {
            out.push(v[i]);
        }
        i = i + 1;
    }
    assert(v@.take(v.len() as int) =~= v@);
    string_from_chars(out.as_slice())
}

/// `value` as a quoted SQL literal: `'` + escaped value + `'`.
pub open spec fn spec_quoted(s: Seq<char>) -> Seq<char> {
    "'"@ + spec_escape(s) + "'"@
}

pub fn quoted(value: &str) -> (r: String)
    ensures
        r@ == spec_quoted(value@),
{
    let e = escape_literal(value);
    concat3("'", e.as_str(), "'")
}

/// How SQL reads the body of a single-quoted literal (after its opening
/// quote): `''` stands for one quote and a lone `'` ends it. The text read, and
/// what follows the closing quote; `None` when the literal never ends.
pub open spec fn read_literal_body(t: Seq<char>) -> Option<(Seq<char>, Seq<char>)>
    decreases t.len(),
{
    if t.len() == 0 {
        None
    } else if t[0] == '\'' {
        if t.len() > 1 && t[1] == '\'' {
            match read_literal_body(t.skip(2)) {
                Some((v, r)) => Some((seq!['\''] + v, r)),
                None => None,
            }
        } else {
            Some((Seq::empty(), t.drop_first()))
        }
    } else {
        match read_literal_body(t.drop_first()) {
            Some((v, r)) => Some((seq![t[0]] + v, r)),
            None => None,
        }
    }
}

/// How SQL reads a single-quoted literal at the start of `t`.
pub open spec fn read_literal(t: Seq<char>) -> Option<(Seq<char>, Seq<char>)> {
    if t.len() > 0 && t[0] == '\'' {
        read_literal_body(t.drop_first())
    } else {
        None
    }
}

proof fn lemma_escape_append(a: Seq<char>, b: Seq<char>)
    ensures
        spec_escape(a + b) == spec_escape(a) + spec_escape(b),
    decreases b.len(),
{
    if b.len() == 0 {
        assert(a + b =~= a);
        assert(spec_escape(a) + spec_escape(b) =~= spec_escape(a));
    } else {
        lemma_escape_append(a, b.drop_last());
        assert((a + b).drop_last() =~= a + b.drop_last());
        assert((a + b).last() == b.last());
        if b.last() == '\'' {
            assert(spec_escape(a + b) =~= spec_escape(a) + spec_escape(b));
        } else {
            assert(spec_escape(a + b) =~= spec_escape(a) + spec_escape(b));
        }
    }
}

/// Values are quoted safely: a quoted value, followed by anything that does
/// not itself start with a quote (a comma, a parenthesis, the end of the
/// statement), reads back as exactly that value, and the literal ends where
/// the quoting put its closing quote.
pub proof fn lemma_quoted_reads_back(s: Seq<char>, rest: Seq<char>)
    requires
        rest.len() == 0 || rest[0] != '\'',
    ensures
        read_literal(spec_quoted(s) + rest) == Some((s, rest)),
    decreases s.len(),
{
    reveal_strlit("'");
    let t = spec_quoted(s) + rest;
    assert(t.drop_first() =~= spec_escape(s) + seq!['\''] + rest);
    lemma_quoted_body(s, rest);
}

proof fn lemma_quoted_body(s: Seq<char>, rest: Seq<char>)
    requires
        rest.len() == 0 || rest[0] != '\'',
    ensures
        read_literal_body(spec_escape(s) + seq!['\''] + rest) == Some((s, rest)),
    decreases s.len(),
{
    let t = spec_escape(s) + seq!['\''] + rest;
    if s.len() == 0 {
        assert(spec_escape(s) =~= Seq::<char>::empty());
        assert(t =~= seq!['\''] + rest);
        assert(t.drop_first() =~= rest);
        assert(s =~= Seq::<char>::empty());
    } else {
        let c = s[0];
        let tail = s.drop_first();
        assert(s =~= seq![c] + tail);
        lemma_escape_append(seq![c], tail);
        assert(seq![c].drop_last() =~= Seq::<char>::empty());
        assert(spec_escape(Seq::<char>::empty()) =~= Seq::<char>::empty());
        assert(seq![c].last() == c);
        lemma_quoted_body(tail, rest);
        if c == '\'' {
            assert(spec_escape(seq![c]) =~= seq!['\'', '\'']);
            assert(t.skip(2) =~= spec_escape(tail) + seq!['\''] + rest);
            assert(seq!['\''] + tail =~= s);
        } else {
            assert(spec_escape(seq![c]) =~= seq![c]);
            assert(t.drop_first() =~= spec_escape(tail) + seq!['\''] + rest);
            assert(seq![c] + tail =~= s);
        }
    }
}

/// The expression read as `Description`: the column, or a typed NULL.
pub open spec fn description_expr(has_description: bool) -> Seq<char> {
    if has_description {
        "\"Description\""@
    } else {
        "CAST(NULL AS text)"@
    }
}

fn description_expr_text(has_description: bool) -> (r: &'static str)
    ensures
        r@ == description_expr(has_description),
{
    if has_description {
        "\"Description\""
    } else {
        "CAST(NULL AS text)"
    }
}

/// The `SELECT` that reads one lookup table's rows.
pub open spec fn spec_select_table_sql(table: Seq<char>, has_description: bool) -> Seq<char> {
    "SELECT CAST(\"Id\" AS text) AS \"Id\", \"Name\" AS \"Name\", "@ + description_expr(
        has_description,
    ) + " AS \"Description\" FROM \""@ + table + "\""@
}

/// The `SELECT` that reads one lookup table's rows.
pub fn select_table_sql(table: &str, has_description: bool) -> (r: String)
    ensures
        r@ == spec_select_table_sql(table@, has_description),
{
    let mut r = owned("SELECT CAST(\"Id\" AS text) AS \"Id\", \"Name\" AS \"Name\", ");
    r.append(description_expr_text(has_description));
    r.append(" AS \"Description\" FROM \"");
    r.append(table);
    r.append("\"");
    r
}

/// One lookup's part of the capture query, tagged with its table in `__lk`.
pub open spec fn capture_select(info: LookupInfoView) -> Seq<char> {
    "SELECT '"@ + info.table + "' AS \"__lk\", CAST(\"Id\" AS text) AS \"Id\", \"Name\" AS \"Name\", "@
        + description_expr(info.has_description) + " AS \"Description\" FROM \""@ + info.table
        + "\""@
}

/// The capture selects of the lookups whose table is a bare identifier.
pub open spec fn capture_selects(infos: Seq<LookupInfoView>) -> Seq<Seq<char>>
    decreases infos.len(),
{
    if infos.len() == 0 {
        seq![]
    } else if spec_is_safe_identifier(infos.last().table) {
        capture_selects(infos.drop_last()).push(capture_select(infos.last()))
    } else {
        capture_selects(infos.drop_last())
    }
}

/// One `UNION ALL` query reading every safe lookup's rows in one round trip.
pub open spec fn spec_capture_sql(infos: Seq<LookupInfoView>) -> Seq<char> {
    spec_join(capture_selects(infos), "\nUNION ALL\n"@)
}

/// One `UNION ALL` query reading every lookup's rows, each tagged with its
/// table in `__lk`. Tables that are not bare identifiers are skipped.
pub fn capture_sql(lookups: &[LookupInfo]) -> (r: String)
    ensures
        r@ == spec_capture_sql(infos_view(lookups@)),
{
    let mut parts: Vec<String> = Vec::new();
    let mut i: usize = 0;
    while i < lookups.len()
        invariant
            i <= lookups.len(),
            views(parts@) == capture_selects(infos_view(lookups@).take(i as int)),
        decreases lookups.len() - i,
    {
        let info = &lookups[i];
        proof {
            assert(infos_view(lookups@).take(i + 1).drop_last() =~= infos_view(lookups@).take(
                i as int,
            ));
            assert(infos_view(lookups@).take(i + 1).last() == info@);
        }
        if is_safe_identifier(info.table.as_str()) {
            let mut part = owned("SELECT '");
            part.append(info.table.as_str());
            part.append("' AS \"__lk\", CAST(\"Id\" AS text) AS \"Id\", \"Name\" AS \"Name\", ");
            part.append(description_expr_text(info.has_description));
            part.append(" AS \"Description\" FROM \"");
            part.append(info.table.as_str());
            part.append("\"");
            let ghost before = parts@;
            parts.push(part);
            assert(views(parts@) =~= views(before).push(capture_select(info@)));
        }
        i = i + 1;
    }
    assert(infos_view(lookups@).take(lookups.len() as int) =~= infos_view(lookups@));
    join(&parts, "\nUNION ALL\n")
}

/// One row of the upsert's `VALUES` list.
pub open spec fn upsert_value(row: LookupRowView, has_description: bool) -> Seq<char> {
    if has_description {
        let description = match row.description {
            Some(text) => spec_quoted(text),
            None => "NULL"@,
        };
        "("@ + spec_quoted(row.id) + ", "@ + spec_quoted(row.name) + ", "@ + description + ")"@
    } else {
        "("@ + spec_quoted(row.id) + ", "@ + spec_quoted(row.name) + ")"@
    }
}

pub open spec fn upsert_values(rows: Seq<LookupRowView>, has_description: bool) -> Seq<Seq<char>> {
    rows.map_values(|r: LookupRowView| upsert_value(r, has_description))
}

pub open spec fn upsert_columns(has_description: bool) -> Seq<char> {
    if has_description {
        "(\"Id\", \"Name\", \"Description\")"@
    } else {
        "(\"Id\", \"Name\")"@
    }
}

pub open spec fn upsert_set(has_description: bool) -> Seq<char> {
    if has_description {
        "\"Name\" = EXCLUDED.\"Name\", \"Description\" = EXCLUDED.\"Description\""@
    } else {
        "\"Name\" = EXCLUDED.\"Name\""@
    }
}

/// The idempotent upsert of `rows` into `table`, keyed on `Id`; empty when
/// there are no rows or the table is not a bare identifier.
pub open spec fn spec_upsert_sql(table: Seq<char>, has_description: bool, rows: Seq<LookupRowView>) -> Seq<char> {
    if rows.len() == 0 || !spec_is_safe_identifier(table) {
        seq![]
    } else {
        "INSERT INTO \""@ + table + "\" "@ + upsert_columns(has_description) + " VALUES\n"@
            + spec_join(upsert_values(rows, has_description), ",\n"@)
            + "\nON CONFLICT (\"Id\") DO UPDATE SET "@ + upsert_set(has_description) + ";"@
    }
}

fn upsert_value_text(row: &LookupRow, has_description: bool) -> (r: String)
    ensures
        r@ == upsert_value(row@, has_description),
{
    let id = quoted(row.id.as_str());
    let name = quoted(row.name.as_str());
    let mut r = owned("(");
    r.append(id.as_str());
    r.append(", ");
    r.append(name.as_str());
    if has_description {
        let description = match &row.description {
            Some(text) => quoted(text.as_str()),
            None => owned("NULL"),
        };
        r.append(", ");
        r.append(description.as_str());
    }
    r.append(")");
    r
}

/// Build an idempotent upsert for one lookup table, keyed on `Id` so re-running
/// never duplicates and existing rows keep their Guid (PostgreSQL `ON CONFLICT`).
pub fn build_upsert_sql(table: &str, has_description: bool, rows: &[LookupRow]) -> (r: String)
    ensures
        r@ == spec_upsert_sql(table@, has_description, rows_view(rows@)),
{
    if rows.len() == 0 || !is_safe_identifier(table) {
        return String::new();
    }
    let mut values: Vec<String> = Vec::new();
    let mut i: usize = 0;
    while i < rows.len()
        invariant
            i <= rows.len(),
            values.len() == i,
            views(values@) == upsert_values(rows_view(rows@).take(i as int), has_description),
        decreases rows.len() - i,
    {
        let v = upsert_value_text(&rows[i], has_description);
        let ghost before = values@;
        values.push(v);
        proof {
            let a = views(values@);
            let b = upsert_values(rows_view(rows@).take(i + 1), has_description);
            assert forall|j: int| 0 <= j < a.len() implies a[j] == b[j] by {
                if j < i {
                    assert(a[j] == views(before)[j]);
                } else {
                    assert(rows_view(rows@).take(i + 1)[j] == rows@[i as int]@);
                }
            }
            assert(a =~= b);
        }
        i = i + 1;
    }
    assert(rows_view(rows@).take(rows.len() as int) =~= rows_view(rows@));
    let mut r = owned("INSERT INTO \"");
    r.append(table);
    r.append("\" ");
    if has_description {
        r.append("(\"Id\", \"Name\", \"Description\")");
    } else {
        r.append("(\"Id\", \"Name\")");
    }
    r.append(" VALUES\n");
    let joined = join(&values, ",\n");
    r.append(joined.as_str());
    r.append("\nON CONFLICT (\"Id\") DO UPDATE SET ");
    if has_description {
        r.append("\"Name\" = EXCLUDED.\"Name\", \"Description\" = EXCLUDED.\"Description\"");
    } else {
        r.append("\"Name\" = EXCLUDED.\"Name\"");
    }
    r.append(";");
    r
}

/// The upsert writes every given row and, for a row whose `Id` already
/// exists, overwrites each non-key column from the incoming row: the
/// statement lists `("Id", "Name")` (with `"Description"` when the table has
/// one), one `('id', 'name'[, description])` tuple per row in order, and
/// ends `ON CONFLICT ("Id") DO UPDATE SET` assigning `"Name"` (and
/// `"Description"`) from `EXCLUDED`; nothing is produced for no rows or an
/// unsafe table name.
pub proof fn lemma_upsert_overwrites_every_column(table: Seq<char>, has_description: bool, rows: Seq<LookupRowView>)
    ensures
        rows.len() == 0 || !spec_is_safe_identifier(table) ==> spec_upsert_sql(table, has_description, rows)
            == Seq::<char>::empty(),
        rows.len() > 0 && spec_is_safe_identifier(table) && !has_description ==> spec_upsert_sql(
            table,
            has_description,
            rows,
        ) == "INSERT INTO \""@ + table + "\" "@ + "(\"Id\", \"Name\")"@ + " VALUES\n"@ + spec_join(
            rows.map_values(|r: LookupRowView| "("@ + spec_quoted(r.id) + ", "@ + spec_quoted(r.name) + ")"@),
            ",\n"@,
        ) + "\nON CONFLICT (\"Id\") DO UPDATE SET "@ + "\"Name\" = EXCLUDED.\"Name\""@ + ";"@,
        rows.len() > 0 && spec_is_safe_identifier(table) && has_description ==> spec_upsert_sql(
            table,
            has_description,
            rows,
        ) == "INSERT INTO \""@ + table + "\" "@ + "(\"Id\", \"Name\", \"Description\")"@ + " VALUES\n"@ + spec_join(
            rows.map_values(
                |r: LookupRowView|
                    "("@ + spec_quoted(r.id) + ", "@ + spec_quoted(r.name) + ", "@ + (match r.description {
                        Some(text) => spec_quoted(text),
                        None => "NULL"@,
                    }) + ")"@,
            ),
            ",\n"@,
        )
            + "\nON CONFLICT (\"Id\") DO UPDATE SET "@ + "\"Name\" = EXCLUDED.\"Name\", \"Description\" = EXCLUDED.\"Description\""@
            + ";"@,
{
    assert(upsert_values(rows, false) =~= rows.map_values(
        |r: LookupRowView| "("@ + spec_quoted(r.id) + ", "@ + spec_quoted(r.name) + ")"@,
    ));
    assert(upsert_values(rows, true) =~= rows.map_values(
        |r: LookupRowView|
            "("@ + spec_quoted(r.id) + ", "@ + spec_quoted(r.name) + ", "@ + (match r.description {
                Some(text) => spec_quoted(text),
                None => "NULL"@,
            }) + ")"@,
    ));
}

/// Delete the given ids from a table — the inverse of an insert. Empty when
/// there are no ids or the table is not a bare identifier.
pub open spec fn spec_delete_sql(table: Seq<char>, ids: Seq<Seq<char>>) -> Seq<char> {
    if ids.len() == 0 || !spec_is_safe_identifier(table) {
        seq![]
    } else {
        "DELETE FROM \""@ + table + "\" WHERE \"Id\" IN ("@ + spec_join(
            ids.map_values(|id: Seq<char>| spec_quoted(id)),
            ", "@,
        ) + ");"@
    }
}

/// The `DELETE` removing `ids` from `table`.
pub fn build_delete_sql(table: &str, ids: &Vec<String>) -> (r: String)
    ensures
        r@ == spec_delete_sql(table@, views(ids@)),
{
    if ids.len() == 0 || !is_safe_identifier(table) {
        return String::new();
    }
    let mut list: Vec<String> = Vec::new();
    let mut i: usize = 0;
    while i < ids.len()
        invariant
            i <= ids.len(),
            list.len() == i,
            views(list@) == views(ids@).take(i as int).map_values(|id: Seq<char>| spec_quoted(id)),
        decreases ids.len() - i,
    {
        let q = quoted(ids[i].as_str());
        let ghost before = list@;
        list.push(q);
        proof {
            let a = views(list@);
            let b = views(ids@).take(i + 1).map_values(|id: Seq<char>| spec_quoted(id));
            assert forall|j: int| 0 <= j < a.len() implies a[j] == b[j] by {
                if j < i {
                    assert(a[j] == views(before)[j]);
                } else {
                    assert(views(ids@).take(i + 1)[j] == ids@[i as int]@);
                }
            }
            assert(a =~= b);
        }
        i = i + 1;
    }
    assert(views(ids@).take(ids.len() as int) =~= views(ids@));
    let mut r = owned("DELETE FROM \"");
    r.append(table);
    r.append("\" WHERE \"Id\" IN (");
    let joined = join(&list, ", ");
    r.append(joined.as_str());
    r.append(");");
    r
}


// -------------------------------------------------------------- snapshots

/// Every lookup table's contents for one environment: table name to contents,
/// in ascending name order with no table twice.
#[derive(Debug)]
pub struct LookupSnapshot {
    env: String,
    captured_at: u64,
    lookups: Vec<(String, LookupTable)>,
}

impl LookupSnapshot {
    #[verifier::type_invariant]
    spec fn well_formed(self) -> bool {
        keys_sorted(self.lookups@)
    }

    pub closed spec fn spec_env(self) -> Seq<char> {
        self.env@
    }

    pub closed spec fn spec_captured_at(self) -> u64 {
        self.captured_at
    }

    /// The tables, in ascending name order.
    pub closed spec fn spec_lookups(self) -> Seq<(String, LookupTable)> {
        self.lookups@
    }

    /// A snapshot of `tables`, keyed by table name; a later entry replaces an
    /// earlier one of the same name.
    pub fn new(env: String, captured_at: u64, tables: Vec<(String, LookupTable)>) -> (s: Self)
        ensures
            s.spec_env() == env@,
            s.spec_captured_at() == captured_at,
            s.spec_lookups() == spec_collect(tables@),
    {
        let ghost given = tables@;
        let lookups = collect(tables);
        proof {
            lemma_collect_sorted(given);
        }
        LookupSnapshot { env, captured_at, lookups }
    }

    pub fn env(&self) -> (r: &str)
        ensures
            r@ == self.spec_env(),
    {
        self.env.as_str()
    }

    pub fn captured_at(&self) -> (r: u64)
        ensures
            r == self.spec_captured_at(),
    {
        self.captured_at
    }

    pub fn lookups(&self) -> (r: &Vec<(String, LookupTable)>)
        ensures
            r@ == self.spec_lookups(),
            keys_sorted(r@),
    {
        proof {
            use_type_invariant(self);
        }
        &self.lookups
    }
}

/// A listed lookup snapshot file, for the capture/compare screen.
#[derive(Clone, Debug, PartialEq, Eq)]
pub struct LookupSnapshotInfo {
    pub env: String,
    pub captured_at: u64,
    pub size_bytes: u64,
    pub lookup_count: usize,
}

/// Registry entries whose table was not listed before: the first entry of each
/// table, in order.
pub open spec fn spec_dedupe(infos: Seq<LookupInfoView>) -> Seq<LookupInfoView>
    decreases infos.len(),
{
    if infos.len() == 0 {
        seq![]
    } else {
        let rest = spec_dedupe(infos.drop_last());
        if exists|j: int| 0 <= j < infos.len() - 1 && (#[trigger] infos[j]).table == infos.last().table {
            rest
        } else {
            rest.push(infos.last())
        }
    }
}

/// A copy of `info`.
pub fn copy_info(info: &LookupInfo) -> (c: LookupInfo)
    ensures
        c == *info,
{
    LookupInfo {
        name: info.name.clone(),
        table: info.table.clone(),
        package: info.package.clone(),
        has_description: info.has_description,
    }
}

proof fn lemma_dedupe_tables(infos: Seq<LookupInfoView>)
    ensures
        forall|k: int|
            0 <= k < spec_dedupe(infos).len() ==> exists|j: int|
                0 <= j < infos.len() && #[trigger] spec_dedupe(infos)[k] == infos[j],
        forall|a: int, b: int|
            0 <= a < b < spec_dedupe(infos).len() ==> (#[trigger] spec_dedupe(infos)[a]).table
                != (#[trigger] spec_dedupe(infos)[b]).table,
    decreases infos.len(),
{
    if infos.len() > 0 {
        let init = infos.drop_last();
        lemma_dedupe_tables(init);
        let rest = spec_dedupe(init);
        assert forall|k: int| 0 <= k < rest.len() implies exists|j: int|
            0 <= j < infos.len() && #[trigger] rest[k] == infos[j] by {
            let j = choose|j: int| 0 <= j < init.len() && rest[k] == init[j];
            assert(infos[j] == init[j]);
        }
        if !(exists|j: int| 0 <= j < infos.len() - 1 && (#[trigger] infos[j]).table == infos.last().table) {
            let out = rest.push(infos.last());
            assert forall|a: int, b: int| 0 <= a < b < out.len() implies (#[trigger] out[a]).table
                != (#[trigger] out[b]).table by {
                if b == out.len() - 1 {
                    let j = choose|j: int| 0 <= j < init.len() && rest[a] == init[j];
                    assert(infos[j] == init[j]);
                }
            }
            assert(out[out.len() - 1] == infos[infos.len() - 1]);
        }
    }
}

/// Drop registry entries whose table was already listed, keeping the first:
/// two registry rows can point at the same table, and inside `capture_sql` a
/// duplicate would capture every row of that table twice. No two entries of the
/// result name the same table, and each is one of the given entries.
pub fn dedupe_by_table(infos: Vec<LookupInfo>) -> (out: Vec<LookupInfo>)
    ensures
        infos_view(out@) == spec_dedupe(infos_view(infos@)),
        forall|a: int, b: int|
            0 <= a < b < out.len() ==> (#[trigger] out@[a]).table@ != (#[trigger] out@[b]).table@,
        forall|k: int| 0 <= k < out.len() ==> exists|j: int| 0 <= j < infos.len() && #[trigger] out@[k]@ == infos@[j]@,
{
    let mut out: Vec<LookupInfo> = Vec::new();
    let mut seen: Vec<String> = Vec::new();
    let mut i: usize = 0;
    while i < infos.len()
        invariant
            i <= infos.len(),
            infos_view(out@) == spec_dedupe(infos_view(infos@).take(i as int)),
            forall|t: Seq<char>|
                (views(seen@).contains(t)) <==> exists|j: int| 0 <= j < i && (#[trigger] infos@[j]).table@ == t,
        decreases infos.len() - i,
    {
        let ghost pre = infos_view(infos@).take(i as int);
        let ghost post = infos_view(infos@).take(i + 1);
        proof {
            assert(post.drop_last() =~= pre);
            assert(post.last() == infos@[i as int]@);
        }
        let found = position(&seen, infos[i].table.as_str());
        proof {
            lemma_position_found(views(seen@), infos@[i as int].table@);
            assert((exists|j: int| 0 <= j < post.len() - 1 && (#[trigger] post[j]).table == post.last().table)
                <==> exists|j: int| 0 <= j < i && (#[trigger] infos@[j]).table@ == infos@[i as int].table@) by {
                if exists|j: int| 0 <= j < i && (#[trigger] infos@[j]).table@ == infos@[i as int].table@ {
                    let j = choose|j: int| 0 <= j < i && (#[trigger] infos@[j]).table@ == infos@[i as int].table@;
                    assert(post[j] == infos@[j]@);
                }
                if exists|j: int| 0 <= j < post.len() - 1 && (#[trigger] post[j]).table == post.last().table {
                    let j = choose|j: int| 0 <= j < post.len() - 1 && (#[trigger] post[j]).table == post.last().table;
                    assert(post[j] == infos@[j]@);
                }
            }
        }
        if found.is_none() {
            let info = copy_info(&infos[i]);
            let ghost before = out@;
            out.push(info);
            assert(infos_view(out@) =~= infos_view(before).push(infos@[i as int]@));
        }
        let ghost seen_before = seen@;
        seen.push(infos[i].table.clone());
        proof {
            assert(views(seen@) =~= views(seen_before).push(infos@[i as int].table@));
            assert forall|t: Seq<char>| (views(seen@).contains(t)) <==> exists|j: int|
                0 <= j < i + 1 && (#[trigger] infos@[j]).table@ == t by {
                if views(seen@).contains(t) {
                    let k = choose|k: int| 0 <= k < views(seen@).len() && views(seen@)[k] == t;
                    if k < views(seen_before).len() {
                        assert(views(seen_before)[k] == t);
                        assert(views(seen_before).contains(t));
                    }
                }
                if exists|j: int| 0 <= j < i + 1 && (#[trigger] infos@[j]).table@ == t {
                    let j = choose|j: int| 0 <= j < i + 1 && (#[trigger] infos@[j]).table@ == t;
                    if j < i {
                        assert(views(seen_before).contains(t));
                        let k = choose|k: int| 0 <= k < views(seen_before).len() && views(seen_before)[k] == t;
                        assert(views(seen@)[k] == t);
                    } else {
                        assert(views(seen@)[views(seen@).len() - 1] == t);
                    }
                }
            }
        }
        i = i + 1;
    }
    proof {
        assert(infos_view(infos@).take(infos.len() as int) =~= infos_view(infos@));
        lemma_dedupe_tables(infos_view(infos@));
        let d = spec_dedupe(infos_view(infos@));
        assert forall|a: int, b: int| 0 <= a < b < out.len() implies (#[trigger] out@[a]).table@
            != (#[trigger] out@[b]).table@ by {
            assert(d[a] == out@[a]@);
            assert(d[b] == out@[b]@);
        }
        assert forall|k: int| 0 <= k < out.len() implies exists|j: int| 0 <= j < infos.len() && #[trigger] out@[k]@ == infos@[j]@ by {
            assert(d[k] == out@[k]@);
            let j = choose|j: int| 0 <= j < infos_view(infos@).len() && d[k] == infos_view(infos@)[j];
            assert(infos_view(infos@)[j] == infos@[j]@);
        }
    }
    out
}


// ------------------------------------------------------------------- diff

/// One row of a comparison report: a lookup, or one value of a lookup in its
/// `detail`.
#[derive(Debug, PartialEq, Eq)]
pub struct DiffRow {
    pub category: String,
    pub key: String,
    pub source: Option<String>,
    pub target: Option<String>,
    /// `same`, `different`, `missingTarget` or `missingSource`.
    pub status: String,
    pub sensitive: bool,
    pub detail: Vec<DiffRow>,
}

/// A comparison of two environments' snapshots.
#[derive(Debug, PartialEq, Eq)]
pub struct DiffReport {
    pub source_env: String,
    pub target_env: String,
    pub source_captured_at: u64,
    pub target_captured_at: u64,
    pub rows: Vec<DiffRow>,
    /// Category to number of rows that are not `same`; only non-zero counts.
    pub counts: Vec<(String, usize)>,
}

/// A report row without its detail.
pub struct DiffLine {
    pub category: Seq<char>,
    pub key: Seq<char>,
    pub source: Option<Seq<char>>,
    pub target: Option<Seq<char>>,
    pub status: Seq<char>,
    pub sensitive: bool,
}

pub open spec fn line_of(r: DiffRow) -> DiffLine {
    DiffLine {
        category: r.category@,
        key: r.key@,
        source: opt_view(r.source),
        target: opt_view(r.target),
        status: r.status@,
        sensitive: r.sensitive,
    }
}

pub open spec fn lines_of(v: Seq<DiffRow>) -> Seq<DiffLine> {
    v.map_values(|r: DiffRow| line_of(r))
}

/// A report row with the lines of its detail.
pub open spec fn row_view(r: DiffRow) -> (DiffLine, Seq<DiffLine>) {
    (line_of(r), lines_of(r.detail@))
}

pub open spec fn report_view(v: Seq<DiffRow>) -> Seq<(DiffLine, Seq<DiffLine>)> {
    v.map_values(|r: DiffRow| row_view(r))
}

/// Both sides hold the item and it is unchanged, or neither does.
pub open spec fn is_same(source: bool, target: bool, differs: bool) -> bool {
    (source && target && !differs) || (!source && !target)
}

/// The status word of an item present on the source and/or target side.
pub open spec fn spec_status(source: bool, target: bool, differs: bool) -> Seq<char> {
    if source && target {
        if differs {
            "different"@
        } else {
            "same"@
        }
    } else if source {
        "missingTarget"@
    } else if target {
        "missingSource"@
    } else {
        "same"@
    }
}

fn status_of(source: bool, target: bool, differs: bool) -> (r: String)
    ensures
        r@ == spec_status(source, target, differs),
{
    if source && target {
        if differs {
            owned("different")
        } else {
            owned("same")
        }
    } else if source {
        owned("missingTarget")
    } else if target {
        owned("missingSource")
    } else {
        owned("same")
    }
}

/// A copy of `row`.
pub fn copy_row(row: &LookupRow) -> (c: LookupRow)
    ensures
        c == *row,
{
    let description = match &row.description {
        Some(text) => Some(text.clone()),
        None => None,
    };
    LookupRow { id: row.id.clone(), name: row.name.clone(), description }
}

fn rows_equal(a: &LookupRow, b: &LookupRow) -> (r: bool)
    ensures
        r == (a@ == b@),
{
    let descriptions = match (&a.description, &b.description) {
        (Some(x), Some(y)) => str_eq(x.as_str(), y.as_str()),
        (None, None) => true,
        _ => false,
    };
    str_eq(a.id.as_str(), b.id.as_str()) && str_eq(a.name.as_str(), b.name.as_str()) && descriptions
}

/// Rows keyed by their `Id`.
pub open spec fn id_pairs(rows: Seq<LookupRow>) -> Seq<(String, LookupRow)> {
    rows.map_values(|r: LookupRow| (r.id, r))
}

pub open spec fn name_of(o: Option<LookupRow>) -> Option<Seq<char>> {
    match o {
        Some(r) => Some(r.name@),
        None => None,
    }
}

/// Present on both sides with a different `Name` or `Description`.
pub open spec fn row_differs(j: Joined<LookupRow, LookupRow>) -> bool {
    j.left is Some && j.right is Some && j.left.unwrap()@ != j.right.unwrap()@
}

pub open spec fn value_line(j: Joined<LookupRow, LookupRow>) -> DiffLine {
    DiffLine {
        category: "lookupValue"@,
        key: j.key,
        source: name_of(j.left),
        target: name_of(j.right),
        status: spec_status(j.left is Some, j.right is Some, row_differs(j)),
        sensitive: false,
    }
}

/// The lines of the values that are not the same on both sides.
pub open spec fn value_lines(js: Seq<Joined<LookupRow, LookupRow>>) -> Seq<DiffLine>
    decreases js.len(),
{
    if js.len() == 0 {
        seq![]
    } else {
        let rest = value_lines(js.drop_first());
        if is_same(js[0].left is Some, js[0].right is Some, row_differs(js[0])) {
            rest
        } else {
            seq![value_line(js[0])] + rest
        }
    }
}

/// Per-value differences between two lookups, keyed on `Id` in ascending
/// order (a later row of an `Id` replacing an earlier one).
pub open spec fn spec_value_diffs(source: Seq<LookupRow>, target: Seq<LookupRow>) -> Seq<DiffLine> {
    value_lines(spec_merge(spec_collect(id_pairs(source)), spec_collect(id_pairs(target))))
}

fn index_rows(rows: &[LookupRow]) -> (m: Vec<(String, LookupRow)>)
    ensures
        m@ == spec_collect(id_pairs(rows@)),
{
    let mut pairs: Vec<(String, LookupRow)> = Vec::new();
    let mut i: usize = 0;
    while i < rows.len()
        invariant
            i <= rows.len(),
            pairs@ == id_pairs(rows@.take(i as int)),
        decreases rows.len() - i,
    {
        let copy = copy_row(&rows[i]);
        let key = rows[i].id.clone();
        let ghost before = pairs@;
        pairs.push((key, copy));
        assert(pairs@ =~= id_pairs(rows@.take(i + 1)));
        i = i + 1;
    }
    assert(rows@.take(rows.len() as int) =~= rows@);
    collect(pairs)
}

fn name_copy(o: &Option<LookupRow>) -> (r: Option<String>)
    ensures
        opt_view(r) == name_of(*o),
{
    match o {
        Some(row) => Some(row.name.clone()),
        None => None,
    }
}

/// Per-value differences between two lookups, keyed on `Id`: a row appears
/// when its `Id` is on one side only, or its `Name` or `Description` differs.
/// The `Name` is what the source/target cells show.
pub fn value_diffs(source: &[LookupRow], target: &[LookupRow]) -> (out: Vec<DiffRow>)
    ensures
        lines_of(out@) == spec_value_diffs(source@, target@),
        forall|k: int| 0 <= k < out.len() ==> (#[trigger] out@[k]).detail@.len() == 0,
{
    let left = index_rows(source);
    let right = index_rows(target);
    let joined = merge(left, right);
    let ghost js = joined_views(joined@);
    let mut out: Vec<DiffRow> = Vec::new();
    let mut i: usize = 0;
    proof {
        assert(js.skip(0) =~= js);
    }
    while i < joined.len()
        invariant
            i <= joined.len(),
            js == joined_views(joined@),
            lines_of(out@) + value_lines(js.skip(i as int)) == value_lines(js),
            forall|k: int| 0 <= k < out.len() ==> (#[trigger] out@[k]).detail@.len() == 0,
        decreases joined.len() - i,
    {
        let e = &joined[i];
        let ghost j = js[i as int];
        proof {
            assert(js.skip(i as int)[0] == j);
            assert(js.skip(i as int).drop_first() =~= js.skip(i + 1));
        }
        let a = e.left.is_some();
        let b = e.right.is_some();
        let differs = match (&e.left, &e.right) {
            (Some(x), Some(y)) => !rows_equal(x, y),
            _ => false,
        };
        assert(differs == row_differs(j));
        if !((a && b && !differs) || (!a && !b)) {
            let row = DiffRow {
                category: owned("lookupValue"),
                key: e.key.clone(),
                source: name_copy(&e.left),
                target: name_copy(&e.right),
                status: status_of(a, b, differs),
                sensitive: false,
                detail: Vec::new(),
            };
            let ghost before = out@;
            out.push(row);
            proof {
                assert(line_of(row) == value_line(j));
                assert(lines_of(out@) =~= lines_of(before).push(value_line(j)));
                assert(lines_of(out@) + value_lines(js.skip(i + 1)) =~= lines_of(before) + (seq![
                    value_line(j),
                ] + value_lines(js.skip(i + 1))));
            }
        }
        i = i + 1;
    }
    proof {
        assert(js.skip(i as int) =~= Seq::<Joined<LookupRow, LookupRow>>::empty());
        assert(lines_of(out@) + seq![] =~= lines_of(out@));
    }
    out
}

/// The rows of a table that may be absent.
pub open spec fn table_rows(t: Option<LookupTable>) -> Seq<LookupRow> {
    match t {
        Some(table) => table.rows@,
        None => seq![],
    }
}

/// The display name of a lookup: the source's title, else the target's, else
/// the table name.
pub open spec fn spec_title(j: Joined<LookupTable, LookupTable>) -> Seq<char> {
    if j.left is Some && j.left.unwrap().title@.len() > 0 {
        j.left.unwrap().title@
    } else if j.right is Some && j.right.unwrap().title@.len() > 0 {
        j.right.unwrap().title@
    } else {
        j.key
    }
}

/// `"{n} values"` for a present table.
pub open spec fn count_text(t: Option<LookupTable>) -> Option<Seq<char>> {
    match t {
        Some(table) => Some(spec_decimal(table.rows@.len()) + " values"@),
        None => None,
    }
}

pub open spec fn table_detail(j: Joined<LookupTable, LookupTable>) -> Seq<DiffLine> {
    spec_value_diffs(table_rows(j.left), table_rows(j.right))
}

/// Present on both sides with at least one differing value.
pub open spec fn table_differs(j: Joined<LookupTable, LookupTable>) -> bool {
    j.left is Some && j.right is Some && table_detail(j).len() > 0
}

/// The report row of one lookup.
pub open spec fn table_report(j: Joined<LookupTable, LookupTable>) -> (DiffLine, Seq<DiffLine>) {
    (
        DiffLine {
            category: "lookup"@,
            key: spec_title(j),
            source: count_text(j.left),
            target: count_text(j.right),
            status: spec_status(j.left is Some, j.right is Some, table_differs(j)),
            sensitive: false,
        },
        if table_differs(j) {
            table_detail(j)
        } else {
            seq![]
        },
    )
}

pub open spec fn table_reports(js: Seq<Joined<LookupTable, LookupTable>>) -> Seq<(DiffLine, Seq<DiffLine>)> {
    js.map_values(|j: Joined<LookupTable, LookupTable>| table_report(j))
}

/// The number of rows whose status is not `same`.
pub open spec fn changed_count(rows: Seq<(DiffLine, Seq<DiffLine>)>) -> nat
    decreases rows.len(),
{
    if rows.len() == 0 {
        0
    } else {
        changed_count(rows.drop_last()) + if rows.last().0.status == "same"@ {
            0nat
        } else {
            1nat
        }
    }
}

/// The counts of a report: the category `lookup` with its number of changed
/// rows, when there is any.
pub open spec fn spec_counts(rows: Seq<(DiffLine, Seq<DiffLine>)>) -> Seq<(Seq<char>, nat)> {
    if changed_count(rows) > 0 {
        seq![("lookup"@, changed_count(rows))]
    } else {
        seq![]
    }
}

pub open spec fn counts_view(v: Seq<(String, usize)>) -> Seq<(Seq<char>, nat)> {
    v.map_values(|c: (String, usize)| (c.0@, c.1 as nat))
}

/// The rows comparing two snapshots: one per table of either side, in table
/// name order.
pub open spec fn spec_diff_rows(source: LookupSnapshot, target: LookupSnapshot) -> Seq<(DiffLine, Seq<DiffLine>)> {
    table_reports(spec_merge(source.spec_lookups(), target.spec_lookups()))
}

fn table_count_text(t: Option<&LookupTable>) -> (r: Option<String>)
    ensures
        opt_view(r) == count_text(match t {
            Some(x) => Some(*x),
            None => None,
        }),
{
    match t {
        Some(table) => {
            let mut text = decimal_usize(table.rows.len());
            text.append(" values");
            Some(text)
        },
        None => None,
    }
}

fn count_changed(rows: &Vec<DiffRow>) -> (n: usize)
    ensures
        n == changed_count(report_view(rows@)),
{
    let mut n: usize = 0;
    let mut k: usize = 0;
    while k < rows.len()
        invariant
            k <= rows.len(),
            n <= k,
            n == changed_count(report_view(rows@).take(k as int)),
        decreases rows.len() - k,
    {
        proof {
            assert(report_view(rows@).take(k + 1).drop_last() =~= report_view(rows@).take(k as int));
        }
        if !str_eq(rows[k].status.as_str(), "same") {
            n = n + 1;
        }
        k = k + 1;
    }
    assert(report_view(rows@).take(rows.len() as int) =~= report_view(rows@));
    n
}

/// The report row of one lookup, given the tables present on each side.
fn lookup_row(key: &String, left: Option<&LookupTable>, right: Option<&LookupTable>) -> (r: DiffRow)
    ensures
        row_view(r) == table_report(Joined {
            key: key@,
            left: match left {
                Some(x) => Some(*x),
                None => None,
            },
            right: match right {
                Some(x) => Some(*x),
                None => None,
            },
        }),
{
    let ghost j = Joined {
        key: key@,
        left: match left {
            Some(x) => Some(*x),
            None => None,
        },
        right: match right {
            Some(x) => Some(*x),
            None => None,
        },
    };
    let empty: Vec<LookupRow> = Vec::new();
    let detail = value_diffs(
        match left {
            Some(t) => t.rows.as_slice(),
            None => empty.as_slice(),
        },
        match right {
            Some(t) => t.rows.as_slice(),
            None => empty.as_slice(),
        },
    );
    assert(lines_of(detail@) == table_detail(j));
    let differs = left.is_some() && right.is_some() && detail.len() > 0;
    let status = status_of(left.is_some(), right.is_some(), differs);
    let title = match left {
        Some(t) if t.title.as_str().unicode_len() > 0 => t.title.clone(),
        _ => match right {
            Some(t) if t.title.as_str().unicode_len() > 0 => t.title.clone(),
            _ => key.clone(),
        },
    };
    let row = DiffRow {
        category: owned("lookup"),
        key: title,
        source: table_count_text(left),
        target: table_count_text(right),
        status,
        sensitive: false,
        detail: if differs {
            detail
        } else {
            Vec::new()
        },
    };
    proof {
        if !differs {
            assert(lines_of(row.detail@) =~= Seq::<DiffLine>::empty());
        }
    }
    row
}

/// Compare two lookup snapshots. Each top row is a lookup of either side, in
/// table name order; its `detail` rows are the individual values that differ,
/// keyed on `Id`, and are kept only when the lookup is on both sides and
/// differs. `counts` gives the number of lookups that are not `same`.
pub fn diff_snapshots(source: &LookupSnapshot, target: &LookupSnapshot) -> (report: DiffReport)
    ensures
        report.source_env@ == source.spec_env(),
        report.target_env@ == target.spec_env(),
        report.source_captured_at == source.spec_captured_at(),
        report.target_captured_at == target.spec_captured_at(),
        report_view(report.rows@) == spec_diff_rows(*source, *target),
        counts_view(report.counts@) == spec_counts(spec_diff_rows(*source, *target)),
{
    let l = source.lookups();
    let r = target.lookups();
    let ghost goal = spec_diff_rows(*source, *target);
    let mut rows: Vec<DiffRow> = Vec::new();
    let mut i: usize = 0;
    let mut j: usize = 0;
    proof {
        assert(l@.skip(0) =~= l@);
        assert(r@.skip(0) =~= r@);
        assert(report_view(rows@) =~= Seq::<(DiffLine, Seq<DiffLine>)>::empty());
        assert(report_view(rows@) + table_reports(spec_merge(l@, r@)) =~= goal);
    }
    while i < l.len() || j < r.len()
        invariant
            i <= l.len(),
            j <= r.len(),
            l@ == source.spec_lookups(),
            r@ == target.spec_lookups(),
            goal == spec_diff_rows(*source, *target),
            report_view(rows@) + table_reports(spec_merge(l@.skip(i as int), r@.skip(j as int))) == goal,
        decreases l.len() + r.len() - i - j,
    {
        let ghost ls = l@.skip(i as int);
        let ghost rs = r@.skip(j as int);
        proof {
            if i < l.len() {
                assert(ls[0] == l@[i as int]);
                assert(ls.drop_first() =~= l@.skip(i + 1));
            }
            if j < r.len() {
                assert(rs[0] == r@[j as int]);
                assert(rs.drop_first() =~= r@.skip(j + 1));
            }
        }
        let take_left = j >= r.len() || (i < l.len() && str_lt(l[i].0.as_str(), r[j].0.as_str()));
        let take_right = !take_left && (i >= l.len() || str_lt(r[j].0.as_str(), l[i].0.as_str()));
        let row = if take_left {
            lookup_row(&l[i].0, Some(&l[i].1), None)
        } else if take_right {
            lookup_row(&r[j].0, None, Some(&r[j].1))
        } else {
            lookup_row(&l[i].0, Some(&l[i].1), Some(&r[j].1))
        };
        let ghost before = rows@;
        rows.push(row);
        proof {
            let m = spec_merge(ls, rs);
            assert(report_view(rows@) =~= report_view(before).push(row_view(row)));
            assert(table_reports(m) =~= seq![table_report(m[0])] + table_reports(m.drop_first()));
        }
        if take_left {
            i = i + 1;
        } else if take_right {
            j = j + 1;
        } else {
            i = i + 1;
            j = j + 1;
        }
        proof {
            assert(report_view(rows@) + table_reports(spec_merge(l@.skip(i as int), r@.skip(j as int))) =~= goal);
        }
    }
    proof {
        assert(l@.skip(i as int) =~= Seq::<(String, LookupTable)>::empty());
        assert(r@.skip(j as int) =~= Seq::<(String, LookupTable)>::empty());
        assert(report_view(rows@) =~= goal);
    }
    let changed = count_changed(&rows);
    let mut counts: Vec<(String, usize)> = Vec::new();
    if changed > 0 {
        counts.push((owned("lookup"), changed));
    }
    proof {
        if changed > 0 {
            assert(counts_view(counts@) =~= seq![("lookup"@, changed as nat)]);
        } else {
            assert(counts_view(counts@) =~= Seq::<(Seq<char>, nat)>::empty());
        }
    }
    DiffReport {
        source_env: owned(source.env()),
        target_env: owned(target.env()),
        source_captured_at: source.captured_at(),
        target_captured_at: target.captured_at(),
        rows,
        counts,
    }
}


proof fn lemma_unchanged_values_vanish(js: Seq<Joined<LookupRow, LookupRow>>)
    requires
        forall|k: int| 0 <= k < js.len() ==> (#[trigger] js[k]).left is Some && js[k].left == js[k].right,
    ensures
        value_lines(js) == Seq::<DiffLine>::empty(),
    decreases js.len(),
{
    if js.len() > 0 {
        let t = js.drop_first();
        assert forall|k: int| 0 <= k < t.len() implies (#[trigger] t[k]).left is Some && t[k].left == t[k].right by {
            assert(t[k] == js[k + 1]);
        }
        lemma_unchanged_values_vanish(t);
        assert(js[0].left is Some && js[0].left == js[0].right);
    }
}

proof fn lemma_changed_count_zero(rows: Seq<(DiffLine, Seq<DiffLine>)>)
    requires
        forall|k: int| 0 <= k < rows.len() ==> (#[trigger] rows[k]).0.status == "same"@,
    ensures
        changed_count(rows) == 0,
    decreases rows.len(),
{
    if rows.len() > 0 {
        let t = rows.drop_last();
        assert forall|k: int| 0 <= k < t.len() implies (#[trigger] t[k]).0.status == "same"@ by {
            assert(t[k] == rows[k]);
        }
        lemma_changed_count_zero(t);
        assert(rows.last() == rows[rows.len() - 1]);
    }
}

/// Comparing two snapshots that hold the same lookups reports every lookup as
/// `same`, with no detail rows, and no counts.
pub proof fn lemma_identical_lookups_are_same(source: LookupSnapshot, target: LookupSnapshot)
    requires
        source.spec_lookups() == target.spec_lookups(),
    ensures
        forall|k: int|
            0 <= k < spec_diff_rows(source, target).len() ==> (#[trigger] spec_diff_rows(source, target)[k]).0.status
                == "same"@ && spec_diff_rows(source, target)[k].1.len() == 0,
        spec_counts(spec_diff_rows(source, target)).len() == 0,
{
    let l = source.spec_lookups();
    lemma_merge_self(l);
    let m = spec_merge(l, l);
    let rows = spec_diff_rows(source, target);
    assert forall|k: int| 0 <= k < rows.len() implies (#[trigger] rows[k]).0.status == "same"@ && rows[k].1.len() == 0 by {
        let j = m[k];
        assert(j == Joined { key: l[k].0@, left: Some(l[k].1), right: Some(l[k].1) });
        let c = spec_collect(id_pairs(l[k].1.rows@));
        lemma_merge_self(c);
        let vm = spec_merge(c, c);
        assert forall|q: int| 0 <= q < vm.len() implies (#[trigger] vm[q]).left is Some && vm[q].left == vm[q].right by {
            assert(vm[q] == Joined { key: c[q].0@, left: Some(c[q].1), right: Some(c[q].1) });
        }
        lemma_unchanged_values_vanish(vm);
        assert(!table_differs(j));
        assert(rows[k] == table_report(j));
    }
    lemma_changed_count_zero(rows);
}


// ------------------------------------------------------- reading results

/// The cell at `at` of a record, or the empty text when there is none.
pub open spec fn cell_or_empty(record: Seq<Seq<char>>, at: int) -> Seq<char> {
    match get_view(record, at) {
        Some(v) => v,
        None => seq![],
    }
}

/// A present, non-empty cell.
pub open spec fn nonempty_cell(record: Seq<Seq<char>>, at: int) -> Option<Seq<char>> {
    match get_view(record, at) {
        Some(v) => if v.len() > 0 {
            Some(v)
        } else {
            None
        },
        None => None,
    }
}

/// The lookup row of one result record: none without a non-blank `Id`.
pub open spec fn record_row(record: Seq<Seq<char>>, id_at: int, name_at: int, desc_at: int) -> Option<LookupRowView> {
    match get_view(record, id_at) {
        None => None,
        Some(raw) => if spec_trim(raw).len() == 0 {
            None
        } else {
            Some(
                LookupRowView {
                    id: spec_trim(raw),
                    name: cell_or_empty(record, name_at),
                    description: nonempty_cell(record, desc_at),
                },
            )
        },
    }
}

pub open spec fn record_rows(data: Seq<Seq<Seq<char>>>, id_at: int, name_at: int, desc_at: int) -> Seq<LookupRowView>
    decreases data.len(),
{
    if data.len() == 0 {
        seq![]
    } else {
        let rest = record_rows(data.drop_last(), id_at, name_at, desc_at);
        match record_row(data.last(), id_at, name_at, desc_at) {
            Some(row) => rest.push(row),
            None => rest,
        }
    }
}

/// The rows of a `SELECT Id, Name, Description` result: none when the `Id` or
/// `Name` column is missing; records without an `Id` are dropped.
pub open spec fn spec_rows_from_result(columns: Seq<Seq<char>>, data: Seq<Seq<Seq<char>>>) -> Seq<LookupRowView> {
    let id_at = position_of(columns, "Id"@);
    let name_at = position_of(columns, "Name"@);
    if id_at < 0 || name_at < 0 {
        seq![]
    } else {
        record_rows(data, id_at, name_at, position_of(columns, "Description"@))
    }
}

pub open spec fn index_or_none(at: Option<usize>) -> int {
    match at {
        Some(k) => k as int,
        None => -1,
    }
}

fn cell_text(record: &Vec<String>, at: Option<usize>) -> (r: Option<String>)
    ensures
        opt_view(r) == get_view(views(record@), index_or_none(at)),
{
    match at {
        Some(k) => get_cloned(record, k),
        None => None,
    }
}

fn record_row_of(record: &Vec<String>, id_at: usize, name_at: usize, desc_at: Option<usize>) -> (r: Option<LookupRow>)
    ensures
        match r {
            Some(row) => record_row(views(record@), id_at as int, name_at as int, index_or_none(desc_at))
                == Some(row@),
            None => record_row(views(record@), id_at as int, name_at as int, index_or_none(desc_at)) is None,
        },
{
    let raw = match get_cloned(record, id_at) {
        Some(raw) => raw,
        None => return None,
    };
    let id = trim(raw.as_str());
    if id.as_str().unicode_len() == 0 {
        return None;
    }
    let name = match get_cloned(record, name_at) {
        Some(name) => name,
        None => String::new(),
    };
    let description = match cell_text(record, desc_at) {
        Some(d) => if d.as_str().unicode_len() > 0 {
            Some(d)
        } else {
            None
        },
        None => None,
    };
    Some(LookupRow { id, name, description })
}

/// Turn a `SELECT Id, Name, Description` result into rows, dropping any
/// without an `Id`.
pub fn rows_from_result(columns: &Vec<String>, data: &Vec<Vec<String>>) -> (rows: Vec<LookupRow>)
    ensures
        rows_view(rows@) == spec_rows_from_result(views(columns@), table_view(data@)),
{
    let id_at = position(columns, "Id");
    let name_at = position(columns, "Name");
    let desc_at = position(columns, "Description");
    let mut rows: Vec<LookupRow> = Vec::new();
    match (id_at, name_at) {
        (Some(id_at), Some(name_at)) => {
            let ghost d = table_view(data@);
            let ghost di = index_or_none(desc_at);
            let mut i: usize = 0;
            while i < data.len()
                invariant
                    i <= data.len(),
                    d == table_view(data@),
                    rows_view(rows@) == record_rows(d.take(i as int), id_at as int, name_at as int, di),
                    di == index_or_none(desc_at),
                decreases data.len() - i,
            {
                proof {
                    assert(d.take(i + 1).drop_last() =~= d.take(i as int));
                    assert(d.take(i + 1).last() == views(data@[i as int]@));
                }
                let found = record_row_of(&data[i], id_at, name_at, desc_at);
                match found {
                    Some(row) => {
                        let ghost before = rows@;
                        rows.push(row);
                        assert(rows_view(rows@) =~= rows_view(before).push(row@));
                    },
                    None => {},
                }
                i = i + 1;
            }
            assert(d.take(data.len() as int) =~= d);
        },
        _ => {
            assert(rows_view(rows@) =~= Seq::<LookupRowView>::empty());
        },
    }
    rows
}

/// The rows a capture result holds for `table`: the records whose `__lk`
/// cell names it and that have a non-blank `Id`, in order.
pub open spec fn capture_rows(data: Seq<Seq<Seq<char>>>, lk_at: int, id_at: int, name_at: int, desc_at: int, table: Seq<char>) -> Seq<LookupRowView>
    decreases data.len(),
{
    if data.len() == 0 {
        seq![]
    } else {
        let rest = capture_rows(data.drop_last(), lk_at, id_at, name_at, desc_at, table);
        if get_view(data.last(), lk_at) == Some(table) {
            match record_row(data.last(), id_at, name_at, desc_at) {
                Some(row) => rest.push(row),
                None => rest,
            }
        } else {
            rest
        }
    }
}

/// The captured rows of `table`: none when the result lacks the `__lk`,
/// `Id` or `Name` column.
pub open spec fn spec_snapshot_rows(columns: Seq<Seq<char>>, data: Seq<Seq<Seq<char>>>, table: Seq<char>) -> Seq<LookupRowView> {
    let lk_at = position_of(columns, "__lk"@);
    let id_at = position_of(columns, "Id"@);
    let name_at = position_of(columns, "Name"@);
    if lk_at < 0 || id_at < 0 || name_at < 0 {
        seq![]
    } else {
        capture_rows(data, lk_at, id_at, name_at, position_of(columns, "Description"@), table)
    }
}

/// The title a table is seeded with: the name of the last registry entry for
/// it, none when no entry names it.
pub open spec fn seeded_title(infos: Seq<LookupInfoView>, table: Seq<char>) -> Option<Seq<char>>
    decreases infos.len(),
{
    if infos.len() == 0 {
        None
    } else if infos.last().table == table {
        Some(infos.last().name)
    } else {
        seeded_title(infos.drop_last(), table)
    }
}

/// What a snapshot built from a registry and a capture result holds for
/// `table`: nothing when no registry entry names it, else its title and the
/// captured rows.
pub open spec fn snapshot_entry_matches(entry: Option<LookupTable>, infos: Seq<LookupInfoView>, columns: Seq<Seq<char>>, data: Seq<Seq<Seq<char>>>, table: Seq<char>) -> bool {
    match seeded_title(infos, table) {
        None => entry is None,
        Some(title) => match entry {
            Some(t) => t.title@ == title && rows_view(t.rows@) == spec_snapshot_rows(columns, data, table),
            None => false,
        },
    }
}

fn capture_rows_of(data: &Vec<Vec<String>>, lk_at: usize, id_at: usize, name_at: usize, desc_at: Option<usize>, table: &str) -> (rows: Vec<LookupRow>)
    ensures
        rows_view(rows@) == capture_rows(table_view(data@), lk_at as int, id_at as int, name_at as int, index_or_none(desc_at), table@),
{
    let ghost d = table_view(data@);
    let ghost di = index_or_none(desc_at);
    let mut rows: Vec<LookupRow> = Vec::new();
    let mut i: usize = 0;
    while i < data.len()
        invariant
            i <= data.len(),
            d == table_view(data@),
            di == index_or_none(desc_at),
            rows_view(rows@) == capture_rows(d.take(i as int), lk_at as int, id_at as int, name_at as int, di, table@),
        decreases data.len() - i,
    {
        proof {
            assert(d.take(i + 1).drop_last() =~= d.take(i as int));
            assert(d.take(i + 1).last() == views(data@[i as int]@));
        }
        let here = match cell_text(&data[i], Some(lk_at)) {
            Some(t) => str_eq(t.as_str(), table),
            None => false,
        };
        if here {
            match record_row_of(&data[i], id_at, name_at, desc_at) {
                Some(row) => {
                    let ghost before = rows@;
                    rows.push(row);
                    assert(rows_view(rows@) =~= rows_view(before).push(row@));
                },
                None => {},
            }
        }
        i = i + 1;
    }
    assert(d.take(data.len() as int) =~= d);
    rows
}

fn snapshot_rows_of(columns: &Vec<String>, data: &Vec<Vec<String>>, table: &str) -> (rows: Vec<LookupRow>)
    ensures
        rows_view(rows@) == spec_snapshot_rows(views(columns@), table_view(data@), table@),
{
    let lk_at = position(columns, "__lk");
    let id_at = position(columns, "Id");
    let name_at = position(columns, "Name");
    let desc_at = position(columns, "Description");
    match (lk_at, id_at, name_at) {
        (Some(lk_at), Some(id_at), Some(name_at)) => capture_rows_of(data, lk_at, id_at, name_at, desc_at, table),
        _ => {
            let rows: Vec<LookupRow> = Vec::new();
            assert(rows_view(rows@) =~= Seq::<LookupRowView>::empty());
            rows
        },
    }
}

/// What `build_snapshot_at` promises of the snapshot it builds.
pub open spec fn built_from(s: LookupSnapshot, env: Seq<char>, infos: Seq<LookupInfoView>, columns: Seq<Seq<char>>, data: Seq<Seq<Seq<char>>>, captured_at: u64) -> bool {
    &&& s.spec_env() == env
    &&& s.spec_captured_at() == captured_at
    &&& keys_sorted(s.spec_lookups())
    &&& table_values(s.spec_lookups()) <= data.len()
    &&& forall|q: Seq<char>| #[trigger] snapshot_entry_matches(spec_get(s.spec_lookups(), q), infos, columns, data, q)
}

/// Assemble a snapshot taken at `captured_at` from the registry (which seeds
/// every table, so an empty lookup is recorded, titled by its last entry) and
/// the `UNION ALL` capture result, whose records are grouped by their `__lk`
/// table; records of tables the registry does not name are dropped.
pub fn build_snapshot_at(env: &str, infos: &[LookupInfo], columns: &Vec<String>, data: &Vec<Vec<String>>, captured_at: u64) -> (s: LookupSnapshot)
    ensures
        s.spec_env() == env@,
        s.spec_captured_at() == captured_at,
        keys_sorted(s.spec_lookups()),
        table_values(s.spec_lookups()) <= data.len(),
        forall|q: Seq<char>|
            #[trigger] snapshot_entry_matches(
                spec_get(s.spec_lookups(), q),
                infos_view(infos@),
                views(columns@),
                table_view(data@),
                q,
            ),
{
    let ghost iv = infos_view(infos@);
    let mut tables: Vec<(String, LookupTable)> = Vec::new();
    let mut k: usize = 0;
    while k < infos.len()
        invariant
            k <= infos.len(),
            iv == infos_view(infos@),
            forall|q: Seq<char>|
                #[trigger] snapshot_entry_matches(
                    last_value(tables@, q),
                    iv.take(k as int),
                    views(columns@),
                    table_view(data@),
                    q,
                ),
        decreases infos.len() - k,
    {
        let table = infos[k].table.clone();
        let rows = snapshot_rows_of(columns, data, table.as_str());
        let entry = LookupTable { title: infos[k].name.clone(), rows };
        let ghost before = tables@;
        let ghost pair = (table, entry);
        tables.push((table, entry));
        proof {
            assert(tables@ == before.push(pair));
            assert(iv.take(k + 1).drop_last() =~= iv.take(k as int));
            assert(iv.take(k + 1).last() == infos@[k as int]@);
            assert forall|q: Seq<char>|
                #[trigger] snapshot_entry_matches(
                    last_value(tables@, q),
                    iv.take(k + 1),
                    views(columns@),
                    table_view(data@),
                    q,
                ) by {
                assert(tables@.drop_last() =~= before);
                assert(tables@.last() == pair);
                assert(snapshot_entry_matches(
                    last_value(before, q),
                    iv.take(k as int),
                    views(columns@),
                    table_view(data@),
                    q,
                ));
                assert(pair.0@ == iv.take(k + 1).last().table);
                assert(pair.1.title@ == iv.take(k + 1).last().name);
                assert(rows_view(pair.1.rows@) == spec_snapshot_rows(views(columns@), table_view(data@), pair.0@));
                assert(last_value(tables@, q) == (if pair.0@ == q {
                    Some(pair.1)
                } else {
                    last_value(before, q)
                }));
                assert(seeded_title(iv.take(k + 1), q) == (if pair.0@ == q {
                    Some(pair.1.title@)
                } else {
                    seeded_title(iv.take(k as int), q)
                }));
            }
        }
        k = k + 1;
    }
    assert(iv.take(infos.len() as int) =~= iv);
    let ghost given = tables@;
    let s = LookupSnapshot::new(owned(env), captured_at, tables);
    proof {
        lemma_collect_sorted(given);
        assert forall|q: Seq<char>|
            #[trigger] snapshot_entry_matches(
                spec_get(s.spec_lookups(), q),
                infos_view(infos@),
                views(columns@),
                table_view(data@),
                q,
            ) by {
            lemma_get_collect(given, q);
        }
        lemma_snapshot_values_bounded(s.spec_lookups(), infos_view(infos@), views(columns@), table_view(data@));
    }
    s
}

/// Assemble a snapshot taken now.
pub fn build_snapshot(env: &str, infos: &[LookupInfo], columns: &Vec<String>, data: &Vec<Vec<String>>) -> (s: LookupSnapshot)
    ensures
        s.spec_env() == env@,
        keys_sorted(s.spec_lookups()),
        forall|q: Seq<char>|
            #[trigger] snapshot_entry_matches(
                spec_get(s.spec_lookups(), q),
                infos_view(infos@),
                views(columns@),
                table_view(data@),
                q,
            ),
{
    let now = crate::jobs::now_ms();
    build_snapshot_at(env, infos, columns, data, now)
}

// ------------------------------------------------------------ value counts

/// How many rows the tables hold together.
pub open spec fn table_values(m: Seq<(String, LookupTable)>) -> nat
    decreases m.len(),
{
    if m.len() == 0 {
        0
    } else {
        table_values(m.drop_last()) + m.last().1.rows@.len()
    }
}

/// How many rows a capture result gives the named tables together.
pub open spec fn captured_count(columns: Seq<Seq<char>>, data: Seq<Seq<Seq<char>>>, ks: Seq<Seq<char>>) -> nat
    decreases ks.len(),
{
    if ks.len() == 0 {
        0
    } else {
        captured_count(columns, data, ks.drop_last()) + spec_snapshot_rows(columns, data, ks.last()).len()
    }
}

/// Whether a capture record becomes a row of `table`.
pub open spec fn lands_in(columns: Seq<Seq<char>>, record: Seq<Seq<char>>, table: Seq<char>) -> bool {
    let lk_at = position_of(columns, "__lk"@);
    let id_at = position_of(columns, "Id"@);
    let name_at = position_of(columns, "Name"@);
    &&& lk_at >= 0 && id_at >= 0 && name_at >= 0
    &&& get_view(record, lk_at) == Some(table)
    &&& record_row(record, id_at, name_at, position_of(columns, "Description"@)) is Some
}

/// Into how many of the named tables a record lands.
pub open spec fn landings(columns: Seq<Seq<char>>, record: Seq<Seq<char>>, ks: Seq<Seq<char>>) -> nat
    decreases ks.len(),
{
    if ks.len() == 0 {
        0
    } else {
        landings(columns, record, ks.drop_last()) + if lands_in(columns, record, ks.last()) {
            1nat
        } else {
            0nat
        }
    }
}

proof fn lemma_captured_count_empty(columns: Seq<Seq<char>>, data: Seq<Seq<Seq<char>>>, ks: Seq<Seq<char>>)
    requires
        data.len() == 0,
    ensures
        captured_count(columns, data, ks) == 0,
    decreases ks.len(),
{
    if ks.len() > 0 {
        lemma_captured_count_empty(columns, data, ks.drop_last());
    }
}

proof fn lemma_captured_count_step(columns: Seq<Seq<char>>, data: Seq<Seq<Seq<char>>>, ks: Seq<Seq<char>>)
    requires
        data.len() > 0,
    ensures
        captured_count(columns, data, ks) == captured_count(columns, data.drop_last(), ks) + landings(
            columns,
            data.last(),
            ks,
        ),
    decreases ks.len(),
{
    if ks.len() > 0 {
        lemma_captured_count_step(columns, data, ks.drop_last());
    }
}

proof fn lemma_landings_at_most_one(columns: Seq<Seq<char>>, record: Seq<Seq<char>>, ks: Seq<Seq<char>>)
    requires
        ks.no_duplicates(),
    ensures
        landings(columns, record, ks) <= 1,
        landings(columns, record, ks) == 1 ==> exists|j: int| 0 <= j < ks.len() && lands_in(columns, record, #[trigger] ks[j]),
    decreases ks.len(),
{
    if ks.len() > 0 {
        let d = ks.drop_last();
        assert(d.no_duplicates()) by {
            assert forall|x: int, y: int| 0 <= x < d.len() && 0 <= y < d.len() && x != y implies d[x] != d[y] by {
                assert(d[x] == ks[x] && d[y] == ks[y]);
            }
        }
        lemma_landings_at_most_one(columns, record, d);
        if landings(columns, record, d) == 1 {
            let j = choose|j: int| 0 <= j < d.len() && lands_in(columns, record, #[trigger] d[j]);
            assert(ks[j] == d[j]);
            if lands_in(columns, record, ks.last()) {
                assert(ks[ks.len() - 1] == ks.last());
                assert(ks[j] == ks[ks.len() - 1]);
            }
        }
        if lands_in(columns, record, ks.last()) {
            assert(ks[ks.len() - 1] == ks.last());
        }
    }
}

/// A capture result gives distinct tables no more rows than it has records.
proof fn lemma_captured_count_bounded(columns: Seq<Seq<char>>, data: Seq<Seq<Seq<char>>>, ks: Seq<Seq<char>>)
    requires
        ks.no_duplicates(),
    ensures
        captured_count(columns, data, ks) <= data.len(),
    decreases data.len(),
{
    if data.len() == 0 {
        lemma_captured_count_empty(columns, data, ks);
    } else {
        lemma_captured_count_step(columns, data, ks);
        lemma_landings_at_most_one(columns, data.last(), ks);
        lemma_captured_count_bounded(columns, data.drop_last(), ks);
    }
}

proof fn lemma_get_sorted<V>(m: Seq<(String, V)>, i: int)
    requires
        keys_sorted(m),
        0 <= i < m.len(),
    ensures
        spec_get(m, m[i].0@) == Some(m[i].1),
    decreases i,
{
    if i > 0 {
        crate::assoc::lemma_lt_asym(m[0].0@, m[i].0@);
        let t = m.drop_first();
        assert(keys_sorted(t)) by {
            assert forall|a: int, b: int| 0 <= a < b < t.len() implies seq_lt(#[trigger] t[a].0@, #[trigger] t[b].0@) by {
                assert(t[a] == m[a + 1] && t[b] == m[b + 1]);
            }
        }
        assert(t[i - 1] == m[i]);
        lemma_get_sorted(t, i - 1);
    }
}

pub open spec fn table_keys(m: Seq<(String, LookupTable)>) -> Seq<Seq<char>> {
    m.map_values(|p: (String, LookupTable)| p.0@)
}

proof fn lemma_values_match_counts(m: Seq<(String, LookupTable)>, columns: Seq<Seq<char>>, data: Seq<Seq<Seq<char>>>)
    requires
        forall|i: int| 0 <= i < m.len() ==> (#[trigger] m[i]).1.rows@.len() == spec_snapshot_rows(columns, data, m[i].0@).len(),
    ensures
        table_values(m) == captured_count(columns, data, table_keys(m)),
    decreases m.len(),
{
    if m.len() > 0 {
        let d = m.drop_last();
        assert forall|i: int| 0 <= i < d.len() implies (#[trigger] d[i]).1.rows@.len() == spec_snapshot_rows(columns, data, d[i].0@).len() by {
            assert(d[i] == m[i]);
        }
        lemma_values_match_counts(d, columns, data);
        assert(table_keys(m).drop_last() =~= table_keys(d));
        assert(m[m.len() - 1] == m.last());
    }
}

/// A snapshot holds no more rows than the capture result it was built from
/// has records.
proof fn lemma_snapshot_values_bounded(m: Seq<(String, LookupTable)>, infos: Seq<LookupInfoView>, columns: Seq<Seq<char>>, data: Seq<Seq<Seq<char>>>)
    requires
        keys_sorted(m),
        forall|q: Seq<char>| #[trigger] snapshot_entry_matches(spec_get(m, q), infos, columns, data, q),
    ensures
        table_values(m) <= data.len(),
{
    assert forall|i: int| 0 <= i < m.len() implies (#[trigger] m[i]).1.rows@.len() == spec_snapshot_rows(columns, data, m[i].0@).len() by {
        lemma_get_sorted(m, i);
        assert(snapshot_entry_matches(spec_get(m, m[i].0@), infos, columns, data, m[i].0@));
        assert(rows_view(m[i].1.rows@).len() == m[i].1.rows@.len());
    }
    lemma_values_match_counts(m, columns, data);
    let ks = table_keys(m);
    assert(ks.no_duplicates()) by {
        assert forall|x: int, y: int| 0 <= x < ks.len() && 0 <= y < ks.len() && x != y implies ks[x] != ks[y] by {
            if x < y {
                crate::assoc::lemma_lt_asym(m[x].0@, m[y].0@);
            } else {
                crate::assoc::lemma_lt_asym(m[y].0@, m[x].0@);
            }
        }
    }
    lemma_captured_count_bounded(columns, data, ks);
}

/// How many rows a snapshot holds.
pub fn value_count(s: &LookupSnapshot) -> (n: usize)
    requires
        table_values(s.spec_lookups()) <= usize::MAX,
    ensures
        n == table_values(s.spec_lookups()),
{
    let m = s.lookups();
    let mut n: usize = 0;
    let mut i: usize = 0;
    while i < m.len()
        invariant
            i <= m.len(),
            m@ == s.spec_lookups(),
            n == table_values(m@.take(i as int)),
            table_values(m@) <= usize::MAX,
        decreases m.len() - i,
    {
        proof {
            assert(m@.take(i + 1).drop_last() =~= m@.take(i as int));
            assert(m@.take(i + 1).last() == m@[i as int]);
            lemma_table_values_prefix(m@, i + 1);
        }
        n = n + m[i].1.rows.len();
        i = i + 1;
    }
    assert(m@.take(m.len() as int) =~= m@);
    n
}

proof fn lemma_table_values_prefix(m: Seq<(String, LookupTable)>, k: int)
    requires
        0 <= k <= m.len(),
    ensures
        table_values(m.take(k)) <= table_values(m),
    decreases m.len(),
{
    if k < m.len() {
        assert(m.drop_last().take(k) =~= m.take(k));
        lemma_table_values_prefix(m.drop_last(), k);
    } else {
        assert(m.take(k) =~= m);
    }
}

/// The registry entry of one enumeration record: none without a table name.
pub open spec fn record_info(record: Seq<Seq<char>>, name_at: int, table_at: int, package_at: int, desc_at: int) -> Option<LookupInfoView> {
    let table = cell_or_empty(record, table_at);
    if table.len() == 0 {
        None
    } else {
        Some(
            LookupInfoView {
                name: cell_or_empty(record, name_at),
                table,
                package: cell_or_empty(record, package_at),
                has_description: get_view(record, desc_at) == Some("1"@),
            },
        )
    }
}

pub open spec fn record_infos(data: Seq<Seq<Seq<char>>>, name_at: int, table_at: int, package_at: int, desc_at: int) -> Seq<LookupInfoView>
    decreases data.len(),
{
    if data.len() == 0 {
        seq![]
    } else {
        let rest = record_infos(data.drop_last(), name_at, table_at, package_at, desc_at);
        match record_info(data.last(), name_at, table_at, package_at, desc_at) {
            Some(info) => rest.push(info),
            None => rest,
        }
    }
}

pub open spec fn spec_registry_shape_error() -> Seq<char> {
    "The lookup registry query returned an unexpected shape."@
}

/// The lookups of a registry result (`Name`, `Table`, `Package`,
/// `HasDescription`), without repeated tables; an error when `Name` or `Table`
/// is missing.
pub open spec fn spec_registry_infos(columns: Seq<Seq<char>>, data: Seq<Seq<Seq<char>>>) -> Result<Seq<LookupInfoView>, Seq<char>> {
    let name_at = position_of(columns, "Name"@);
    let table_at = position_of(columns, "Table"@);
    if name_at < 0 || table_at < 0 {
        Err(spec_registry_shape_error())
    } else {
        Ok(spec_dedupe(record_infos(data, name_at, table_at, position_of(columns, "Package"@), position_of(columns, "HasDescription"@))))
    }
}

fn text_or_empty(record: &Vec<String>, at: Option<usize>) -> (r: String)
    ensures
        r@ == cell_or_empty(views(record@), index_or_none(at)),
{
    match cell_text(record, at) {
        Some(t) => t,
        None => String::new(),
    }
}

/// Read the lookup registry from the enumeration query's result.
pub fn registry_infos(columns: &Vec<String>, data: &Vec<Vec<String>>) -> (r: Result<Vec<LookupInfo>, String>)
    ensures
        match r {
            Ok(infos) => spec_registry_infos(views(columns@), table_view(data@)) == Ok::<Seq<LookupInfoView>, Seq<char>>(infos_view(infos@)),
            Err(e) => spec_registry_infos(views(columns@), table_view(data@)) == Err::<Seq<LookupInfoView>, Seq<char>>(e@),
        },
{
    let name_at = position(columns, "Name");
    let table_at = position(columns, "Table");
    let package_at = position(columns, "Package");
    let desc_at = position(columns, "HasDescription");
    if name_at.is_none() || table_at.is_none() {
        return Err(owned("The lookup registry query returned an unexpected shape."));
    }
    let ghost d = table_view(data@);
    let mut infos: Vec<LookupInfo> = Vec::new();
    let mut i: usize = 0;
    while i < data.len()
        invariant
            i <= data.len(),
            d == table_view(data@),
            name_at is Some,
            table_at is Some,
            infos_view(infos@) == record_infos(
                d.take(i as int),
                index_or_none(name_at),
                index_or_none(table_at),
                index_or_none(package_at),
                index_or_none(desc_at),
            ),
        decreases data.len() - i,
    {
        proof {
            assert(d.take(i + 1).drop_last() =~= d.take(i as int));
            assert(d.take(i + 1).last() == views(data@[i as int]@));
        }
        let record = &data[i];
        let table = text_or_empty(record, table_at);
        if table.as_str().unicode_len() > 0 {
            let name = text_or_empty(record, name_at);
            let package = text_or_empty(record, package_at);
            let flag = cell_text(record, desc_at);
            let has_description = match &flag {
                Some(v) => str_eq(v.as_str(), "1"),
                None => false,
            };
            let info = LookupInfo { name, table, package, has_description };
            let ghost before = infos@;
            infos.push(info);
            assert(infos_view(infos@) =~= infos_view(before).push(info@));
        }
        i = i + 1;
    }
    assert(d.take(data.len() as int) =~= d);
    Ok(dedupe_by_table(infos))
}

// -------------------------------------------------------------- migration

/// One lookup to migrate: its registry entry and the source rows that define
/// what the target should hold.
#[derive(Clone, Debug, PartialEq, Eq)]
pub struct TablePlan {
    pub info: LookupInfo,
    pub source_rows: Vec<LookupRow>,
}

/// The commented upsert of one planned table; empty when it upserts nothing.
pub open spec fn plan_sql(plan: TablePlan) -> Seq<char> {
    let statement = spec_upsert_sql(plan.info.table@, plan.info.has_description, rows_view(plan.source_rows@));
    if statement.len() == 0 {
        seq![]
    } else {
        "-- "@ + plan.info.name@ + " ("@ + spec_decimal(plan.source_rows@.len()) + " rows)\n"@ + statement
            + "\n\n"@
    }
}

pub open spec fn spec_forward_sql(plans: Seq<TablePlan>) -> Seq<char>
    decreases plans.len(),
{
    if plans.len() == 0 {
        seq![]
    } else {
        spec_forward_sql(plans.drop_last()) + plan_sql(plans.last())
    }
}

/// The forward migration: upsert each lookup's source rows onto the target.
pub fn forward_sql(plans: &[TablePlan]) -> (r: String)
    ensures
        r@ == spec_forward_sql(plans@),
{
    let mut out = String::new();
    let mut i: usize = 0;
    while i < plans.len()
        invariant
            i <= plans.len(),
            out@ == spec_forward_sql(plans@.take(i as int)),
        decreases plans.len() - i,
    {
        proof {
            assert(plans@.take(i + 1).drop_last() =~= plans@.take(i as int));
            assert(plans@.take(i + 1).last() == plans@[i as int]);
        }
        let plan = &plans[i];
        let statement = build_upsert_sql(plan.info.table.as_str(), plan.info.has_description, plan.source_rows.as_slice());
        if statement.as_str().unicode_len() > 0 {
            out.append("-- ");
            out.append(plan.info.name.as_str());
            out.append(" (");
            let n = decimal_usize(plan.source_rows.len());
            out.append(n.as_str());
            out.append(" rows)\n");
            out.append(statement.as_str());
            out.append("\n\n");
        }
        i = i + 1;
    }
    assert(plans@.take(plans.len() as int) =~= plans@);
    out
}

/// The migration script: the forward SQL in one explicit transaction.
pub open spec fn spec_migration_script(forward: Seq<char>) -> Seq<char> {
    "BEGIN;\n"@ + forward + "COMMIT;\n"@
}

pub fn migration_script(forward: &str) -> (r: String)
    ensures
        r@ == spec_migration_script(forward@),
{
    let mut r = owned("BEGIN;\n");
    r.append(forward);
    r.append("COMMIT;\n");
    r
}


/// The rows the target holds now under the ids a migration writes (restored by
/// the rollback), and the ids it does not hold (deleted by the rollback).
pub open spec fn rollback_parts(source_rows: Seq<LookupRow>, current: Seq<(String, LookupRow)>) -> (Seq<LookupRowView>, Seq<Seq<char>>)
    decreases source_rows.len(),
{
    if source_rows.len() == 0 {
        (seq![], seq![])
    } else {
        let (restore, delete) = rollback_parts(source_rows.drop_last(), current);
        match spec_get(current, source_rows.last().id@) {
            Some(existing) => (restore.push(existing@), delete),
            None => (restore, delete.push(source_rows.last().id@)),
        }
    }
}

/// The rollback of one planned table, given the target's current rows.
pub open spec fn spec_rollback_block(plan: TablePlan, current: Seq<LookupRow>) -> Seq<char> {
    let (restore, delete) = rollback_parts(plan.source_rows@, spec_collect(id_pairs(current)));
    let upsert = spec_upsert_sql(plan.info.table@, plan.info.has_description, restore);
    let remove = spec_delete_sql(plan.info.table@, delete);
    if upsert.len() == 0 && remove.len() == 0 {
        seq![]
    } else {
        "-- rollback "@ + plan.info.name@ + " (restore "@ + spec_decimal(restore.len()) + " / remove "@
            + spec_decimal(delete.len()) + ")\n"@ + (if upsert.len() > 0 {
            upsert + "\n"@
        } else {
            seq![]
        }) + (if remove.len() > 0 {
            remove + "\n"@
        } else {
            seq![]
        }) + "\n"@
    }
}

/// A lookup table as the database holds it: rows by id.
pub open spec fn table_of(current: Seq<(String, LookupRow)>) -> Map<Seq<char>, LookupRowView> {
    Map::new(|x: Seq<char>| spec_get(current, x) is Some, |x: Seq<char>| spec_get(current, x).unwrap()@)
}

/// What upserting rows keyed on `Id` leaves in a table: each row under its
/// id, later rows winning.
pub open spec fn upsert_rows(t: Map<Seq<char>, LookupRowView>, rows: Seq<LookupRowView>) -> Map<Seq<char>, LookupRowView>
    decreases rows.len(),
{
    if rows.len() == 0 {
        t
    } else {
        upsert_rows(t, rows.drop_last()).insert(rows.last().id, rows.last())
    }
}

/// What deleting rows by id leaves in a table.
pub open spec fn delete_rows(t: Map<Seq<char>, LookupRowView>, ids: Seq<Seq<char>>) -> Map<Seq<char>, LookupRowView>
    decreases ids.len(),
{
    if ids.len() == 0 {
        t
    } else {
        delete_rows(t, ids.drop_last()).remove(ids.last())
    }
}

proof fn lemma_upsert_rows_overwritten(m: Map<Seq<char>, LookupRowView>, k: Seq<char>, v: LookupRowView, w: LookupRowView, rows: Seq<LookupRowView>)
    ensures
        upsert_rows(m.insert(k, v), rows).insert(k, w) == upsert_rows(m, rows).insert(k, w),
    decreases rows.len(),
{
    if rows.len() > 0 {
        let r = rows.last();
        lemma_upsert_rows_overwritten(m, k, v, w, rows.drop_last());
        let a = upsert_rows(m.insert(k, v), rows.drop_last());
        let b = upsert_rows(m, rows.drop_last());
        assert(a.insert(k, w) == b.insert(k, w));
        if r.id == k {
            assert(a.insert(r.id, r).insert(k, w) =~= a.insert(k, w));
            assert(b.insert(r.id, r).insert(k, w) =~= b.insert(k, w));
        } else {
            assert(a.insert(r.id, r).insert(k, w) =~= a.insert(k, w).insert(r.id, r));
            assert(b.insert(r.id, r).insert(k, w) =~= b.insert(k, w).insert(r.id, r));
        }
    }
}

proof fn lemma_upsert_rows_other_key(m: Map<Seq<char>, LookupRowView>, k: Seq<char>, v: LookupRowView, rows: Seq<LookupRowView>)
    requires
        forall|j: int| 0 <= j < rows.len() ==> (#[trigger] rows[j]).id != k,
    ensures
        upsert_rows(m.insert(k, v), rows) == upsert_rows(m, rows).insert(k, v),
    decreases rows.len(),
{
    if rows.len() > 0 {
        lemma_upsert_rows_other_key(m, k, v, rows.drop_last());
        assert(rows.last() == rows[rows.len() - 1]);
        assert(upsert_rows(m.insert(k, v), rows) =~= upsert_rows(m, rows).insert(k, v));
    }
}

proof fn lemma_delete_rows_kept(m: Map<Seq<char>, LookupRowView>, k: Seq<char>, v: LookupRowView, ids: Seq<Seq<char>>)
    requires
        !ids.contains(k),
    ensures
        delete_rows(m.insert(k, v), ids) == delete_rows(m, ids).insert(k, v),
    decreases ids.len(),
{
    if ids.len() > 0 {
        assert(ids.drop_last().contains(k) ==> ids.contains(k)) by {
            if ids.drop_last().contains(k) {
                let j = choose|j: int| 0 <= j < ids.drop_last().len() && ids.drop_last()[j] == k;
                assert(ids[j] == k);
            }
        }
        lemma_delete_rows_kept(m, k, v, ids.drop_last());
        assert(ids[ids.len() - 1] == ids.last());
        assert(delete_rows(m.insert(k, v), ids) =~= delete_rows(m, ids).insert(k, v));
    }
}

proof fn lemma_delete_rows_removed(m: Map<Seq<char>, LookupRowView>, k: Seq<char>, v: LookupRowView, ids: Seq<Seq<char>>)
    ensures
        delete_rows(m.insert(k, v), ids).remove(k) == delete_rows(m, ids).remove(k),
    decreases ids.len(),
{
    if ids.len() > 0 {
        lemma_delete_rows_removed(m, k, v, ids.drop_last());
        let a = delete_rows(m.insert(k, v), ids.drop_last());
        let b = delete_rows(m, ids.drop_last());
        assert(a.remove(k) == b.remove(k));
        assert(a.remove(ids.last()).remove(k) =~= a.remove(k).remove(ids.last()));
        assert(b.remove(ids.last()).remove(k) =~= b.remove(k).remove(ids.last()));
    }
}

/// What the rollback parts hold: restored rows are the table's own rows under
/// ids it has, deleted ids are ids it lacks.
proof fn lemma_rollback_parts(source_rows: Seq<LookupRow>, current: Seq<(String, LookupRow)>)
    requires
        forall|x: Seq<char>| #[trigger] spec_get(current, x) is Some ==> spec_get(current, x).unwrap().id@ == x,
    ensures
        forall|j: int| 0 <= j < rollback_parts(source_rows, current).0.len() ==> {
            let r = #[trigger] rollback_parts(source_rows, current).0[j];
            table_of(current).dom().contains(r.id) && table_of(current)[r.id] == r
        },
        forall|x: Seq<char>| #[trigger] rollback_parts(source_rows, current).1.contains(x) ==> !table_of(current).dom().contains(x),
    decreases source_rows.len(),
{
    if source_rows.len() > 0 {
        lemma_rollback_parts(source_rows.drop_last(), current);
        let (restore, delete) = rollback_parts(source_rows.drop_last(), current);
        let id = source_rows.last().id@;
        match spec_get(current, id) {
            Some(existing) => {
                assert forall|j: int| 0 <= j < restore.push(existing@).len() implies {
                    let r = #[trigger] restore.push(existing@)[j];
                    table_of(current).dom().contains(r.id) && table_of(current)[r.id] == r
                } by {
                    if j < restore.len() {
                        assert(restore.push(existing@)[j] == restore[j]);
                    }
                }
            },
            None => {
                assert forall|x: Seq<char>| #[trigger] delete.push(id).contains(x) implies !table_of(current).dom().contains(x) by {
                    let j = choose|j: int| 0 <= j < delete.push(id).len() && delete.push(id)[j] == x;
                    if j < delete.len() {
                        assert(delete.contains(x));
                    }
                }
            },
        }
    }
}

/// The rollback undoes the migration: applying a table's forward upsert and
/// then its rollback (restore, then delete) leaves the table exactly as the
/// rollback found it.
pub proof fn lemma_rollback_restores(source_rows: Seq<LookupRow>, current: Seq<LookupRow>)
    ensures
        ({
            let c = spec_collect(id_pairs(current));
            let t = table_of(c);
            let (restore, delete) = rollback_parts(source_rows, c);
            delete_rows(upsert_rows(upsert_rows(t, rows_view(source_rows)), restore), delete) == t
        }),
    decreases source_rows.len(),
{
    let c = spec_collect(id_pairs(current));
    let t = table_of(c);
    assert forall|x: Seq<char>| #[trigger] spec_get(c, x) is Some implies spec_get(c, x).unwrap().id@ == x by {
        lemma_get_collect(id_pairs(current), x);
        lemma_last_value_ids(current, x);
    }
    let (restore, delete) = rollback_parts(source_rows, c);
    if source_rows.len() == 0 {
        assert(rows_view(source_rows) =~= Seq::<LookupRowView>::empty());
    } else {
        let d = source_rows.drop_last();
        lemma_rollback_restores(d, current);
        lemma_rollback_parts(d, c);
        let (r0, d0) = rollback_parts(d, c);
        let s = source_rows.last();
        let sid = s.id@;
        assert(rows_view(source_rows).drop_last() =~= rows_view(d));
        assert(rows_view(source_rows).last() == s@);
        let f0 = upsert_rows(t, rows_view(d));
        assert(upsert_rows(t, rows_view(source_rows)) == f0.insert(sid, s@));
        let y = upsert_rows(f0, r0);
        assert(delete_rows(y, d0) == t);
        match spec_get(c, sid) {
            Some(existing) => {
                let e = existing@;
                assert(t.dom().contains(sid) && t[sid] == e);
                assert(restore == r0.push(e) && delete == d0);
                lemma_upsert_rows_overwritten(f0, sid, s@, e, r0);
                assert(upsert_rows(f0.insert(sid, s@), restore) == y.insert(sid, e)) by {
                    assert(restore.drop_last() =~= r0);
                }
                assert(!d0.contains(sid));
                lemma_delete_rows_kept(y, sid, e, d0);
                assert(t.insert(sid, e) =~= t);
            },
            None => {
                assert(!t.dom().contains(sid));
                assert(restore == r0 && delete == d0.push(sid));
                assert forall|j: int| 0 <= j < r0.len() implies (#[trigger] r0[j]).id != sid by {
                    assert(t.dom().contains(r0[j].id));
                }
                lemma_upsert_rows_other_key(f0, sid, s@, r0);
                lemma_delete_rows_removed(y, sid, s@, d0);
                assert(delete.drop_last() =~= d0);
                assert(t.remove(sid) =~= t);
            },
        }
    }
}

proof fn lemma_last_value_ids(current: Seq<LookupRow>, x: Seq<char>)
    ensures
        last_value(id_pairs(current), x) is Some ==> last_value(id_pairs(current), x).unwrap().id@ == x,
    decreases current.len(),
{
    if current.len() > 0 {
        assert(id_pairs(current).drop_last() =~= id_pairs(current.drop_last()));
        lemma_last_value_ids(current.drop_last(), x);
    }
}

/// A runnable rollback for one table of the forward migration, built from the
/// target's current rows: an id the target already has is restored to its
/// current values (undoing an update), an id it lacks is deleted (undoing an
/// insert).
pub fn rollback_block(plan: &TablePlan, current: &[LookupRow]) -> (r: String)
    ensures
        r@ == spec_rollback_block(*plan, current@),
{
    let by_id = index_rows(current);
    let mut restore: Vec<LookupRow> = Vec::new();
    let mut delete_ids: Vec<String> = Vec::new();
    let mut i: usize = 0;
    while i < plan.source_rows.len()
        invariant
            i <= plan.source_rows.len(),
            by_id@ == spec_collect(id_pairs(current@)),
            (rows_view(restore@), views(delete_ids@)) == rollback_parts(plan.source_rows@.take(i as int), by_id@),
        decreases plan.source_rows.len() - i,
    {
        proof {
            assert(plan.source_rows@.take(i + 1).drop_last() =~= plan.source_rows@.take(i as int));
            assert(plan.source_rows@.take(i + 1).last() == plan.source_rows@[i as int]);
        }
        let row = &plan.source_rows[i];
        match get(&by_id, row.id.as_str()) {
            Some(existing) => {
                let ghost before = restore@;
                restore.push(copy_row(existing));
                assert(rows_view(restore@) =~= rows_view(before).push(existing@));
            },
            None => {
                let ghost before = delete_ids@;
                delete_ids.push(row.id.clone());
                assert(views(delete_ids@) =~= views(before).push(row.id@));
            },
        }
        i = i + 1;
    }
    assert(plan.source_rows@.take(plan.source_rows.len() as int) =~= plan.source_rows@);
    let upsert = build_upsert_sql(plan.info.table.as_str(), plan.info.has_description, restore.as_slice());
    let remove = build_delete_sql(plan.info.table.as_str(), &delete_ids);
    let mut out = String::new();
    if upsert.as_str().unicode_len() > 0 || remove.as_str().unicode_len() > 0 {
        out.append("-- rollback ");
        out.append(plan.info.name.as_str());
        out.append(" (restore ");
        let n = decimal_usize(restore.len());
        out.append(n.as_str());
        out.append(" / remove ");
        let m = decimal_usize(delete_ids.len());
        out.append(m.as_str());
        out.append(")\n");
        if upsert.as_str().unicode_len() > 0 {
            out.append(upsert.as_str());
            out.append("\n");
        }
        if remove.as_str().unicode_len() > 0 {
            out.append(remove.as_str());
            out.append("\n");
        }
        out.append("\n");
    }
    out
}

/// The tables of a migration request, resolved against the source registry
/// (a later registry entry of a table replacing an earlier one): an error for
/// an empty request, the first unsafe table name, or the first table that is
/// not a lookup of the source.
pub open spec fn spec_plan_infos(source_env: Seq<char>, registry: Seq<(String, LookupInfo)>, tables: Seq<Seq<char>>) -> Result<Seq<LookupInfoView>, Seq<char>>
    decreases tables.len(),
{
    if tables.len() == 0 {
        Err("Select at least one lookup to migrate."@)
    } else {
        plan_prefix(source_env, registry, tables, tables.len() as int)
    }
}

pub open spec fn plan_prefix(source_env: Seq<char>, registry: Seq<(String, LookupInfo)>, tables: Seq<Seq<char>>, n: int) -> Result<Seq<LookupInfoView>, Seq<char>>
    decreases n,
{
    if n <= 0 {
        Ok(seq![])
    } else {
        match plan_prefix(source_env, registry, tables, n - 1) {
            Err(e) => Err(e),
            Ok(found) => {
                let table = tables[n - 1];
                if !spec_is_safe_identifier(table) {
                    Err("Refusing to migrate an unsafe table name: "@ + table)
                } else {
                    match spec_get(registry, table) {
                        Some(info) => Ok(found.push(info@)),
                        None => Err(table + " is not a lookup in "@ + source_env + "."@),
                    }
                }
            },
        }
    }
}

pub open spec fn registry_pairs(infos: Seq<LookupInfo>) -> Seq<(String, LookupInfo)> {
    infos.map_values(|i: LookupInfo| (i.table, i))
}

/// Resolve the requested tables against the source environment's registry.
/// Fails closed on an unknown or unsafe table name.
pub fn plan_infos(source_env: &str, registry: &Vec<LookupInfo>, tables: &Vec<String>) -> (r: Result<Vec<LookupInfo>, String>)
    ensures
        match r {
            Ok(infos) => spec_plan_infos(source_env@, spec_collect(registry_pairs(registry@)), views(tables@))
                == Ok::<Seq<LookupInfoView>, Seq<char>>(infos_view(infos@)),
            Err(e) => spec_plan_infos(source_env@, spec_collect(registry_pairs(registry@)), views(tables@))
                == Err::<Seq<LookupInfoView>, Seq<char>>(e@),
        },
{
    if tables.len() == 0 {
        return Err(owned("Select at least one lookup to migrate."));
    }
    let mut pairs: Vec<(String, LookupInfo)> = Vec::new();
    let mut k: usize = 0;
    while k < registry.len()
        invariant
            k <= registry.len(),
            pairs@ == registry_pairs(registry@.take(k as int)),
        decreases registry.len() - k,
    {
        pairs.push((registry[k].table.clone(), copy_info(&registry[k])));
        assert(pairs@ =~= registry_pairs(registry@.take(k + 1)));
        k = k + 1;
    }
    assert(registry@.take(registry.len() as int) =~= registry@);
    let by_table = collect(pairs);
    let ghost tv = views(tables@);
    let mut found: Vec<LookupInfo> = Vec::new();
    let mut i: usize = 0;
    assert(infos_view(found@) =~= Seq::<LookupInfoView>::empty());
    while i < tables.len()
        invariant
            i <= tables.len(),
            tv == views(tables@),
            by_table@ == spec_collect(registry_pairs(registry@)),
            plan_prefix(source_env@, by_table@, tv, i as int) == Ok::<Seq<LookupInfoView>, Seq<char>>(infos_view(found@)),
        decreases tables.len() - i,
    {
        let table = tables[i].as_str();
        if !is_safe_identifier(table) {
            let mut e = owned("Refusing to migrate an unsafe table name: ");
            e.append(table);
            proof {
                assert(plan_prefix(source_env@, by_table@, tv, tables.len() as int) == Err::<Seq<LookupInfoView>, Seq<char>>(e@)) by {
                    lemma_plan_error_sticks(source_env@, by_table@, tv, i + 1, tables.len() as int);
                }
            }
            return Err(e);
        }
        match get(&by_table, table) {
            Some(info) => {
                let ghost before = found@;
                found.push(copy_info(info));
                assert(infos_view(found@) =~= infos_view(before).push(info@));
            },
            None => {
                let mut e = owned(table);
                e.append(" is not a lookup in ");
                e.append(source_env);
                e.append(".");
                proof {
                    lemma_plan_error_sticks(source_env@, by_table@, tv, i + 1, tables.len() as int);
                }
                return Err(e);
            },
        }
        i = i + 1;
    }
    Ok(found)
}

proof fn lemma_plan_error_sticks(source_env: Seq<char>, registry: Seq<(String, LookupInfo)>, tables: Seq<Seq<char>>, m: int, n: int)
    requires
        0 < m <= n,
        plan_prefix(source_env, registry, tables, m) is Err,
    ensures
        plan_prefix(source_env, registry, tables, n) == plan_prefix(source_env, registry, tables, m),
    decreases n - m,
{
    if m < n {
        lemma_plan_error_sticks(source_env, registry, tables, m, n - 1);
    }
}

/// The two environments of a migration in the order their locks are taken:
/// the smaller name first, so two migrations in opposite directions cannot
/// deadlock.
pub open spec fn spec_lock_order(source_env: Seq<char>, target_env: Seq<char>) -> (Seq<char>, Seq<char>) {
    if seq_lt(source_env, target_env) {
        (source_env, target_env)
    } else {
        (target_env, source_env)
    }
}

pub fn lock_order(source_env: &str, target_env: &str) -> (r: (String, String))
    ensures
        (r.0@, r.1@) == spec_lock_order(source_env@, target_env@),
{
    if str_lt(source_env, target_env) {
        (owned(source_env), owned(target_env))
    } else {
        (owned(target_env), owned(source_env))
    }
}

/// Transfers in opposite directions between the same two environments take
/// their locks in the same order.
pub proof fn lemma_lock_order_symmetric(a: Seq<char>, b: Seq<char>)
    ensures
        spec_lock_order(a, b) == spec_lock_order(b, a),
{
    crate::text::lemma_seq_lt_trichotomy(a, b);
}

/// The file name of an environment's lookup snapshot: the name with every
/// character but ASCII letters, digits, `-` and `_` replaced by `_`; an error
/// for an empty name.
pub open spec fn safe_char(c: char) -> char {
    if is_ascii_alnum(c) || c == '-' || c == '_' {
        c
    } else {
        '_'
    }
}

pub open spec fn spec_safe_env(env: Seq<char>) -> Result<Seq<char>, Seq<char>> {
    if env.len() == 0 {
        Err("Select an environment first."@)
    } else {
        Ok(env.map_values(|c: char| safe_char(c)))
    }
}

pub fn safe_env(env: &str) -> (r: Result<String, String>)
    ensures
        match r {
            Ok(s) => spec_safe_env(env@) == Ok::<Seq<char>, Seq<char>>(s@),
            Err(e) => spec_safe_env(env@) == Err::<Seq<char>, Seq<char>>(e@),
        },
{
    let cs = chars_of(env);
    if cs.len() == 0 {
        return Err(owned("Select an environment first."));
    }
    let mut out: Vec<char> = Vec::new();
    let mut i: usize = 0;
    while i < cs.len()
        invariant
            i <= cs.len(),
            cs@ == env@,
            out@ == env@.take(i as int).map_values(|c: char| safe_char(c)),
        decreases cs.len() - i,
    {
        let c = cs[i];
        let keep = is_alnum(c) || c == '-' || c == '_';
        out.push(if keep { c } else { '_' });
        assert(out@ =~= env@.take(i + 1).map_values(|c: char| safe_char(c)));
        i = i + 1;
    }
    assert(env@.take(env@.len() as int) =~= env@);
    Ok(string_from_chars(out.as_slice()))
}

/// Two snapshots to compare must be of different environments (compared
/// trimmed).
pub fn compare_envs(source_env: &str, target_env: &str) -> (r: Result<(), String>)
    ensures
        (spec_trim(source_env@) == spec_trim(target_env@)) <==> r is Err,
        match r {
            Ok(_) => true,
            Err(e) => e@ == "Choose two different environments to compare."@,
        },
{
    let s = trim(source_env);
    let t = trim(target_env);
    if str_eq(s.as_str(), t.as_str()) {
        return Err(owned("Choose two different environments to compare."));
    }
    Ok(())
}

/// The two environments of a lookup migration, trimmed; they must differ.
pub open spec fn spec_migration_envs(source_env: Seq<char>, target_env: Seq<char>) -> Result<(Seq<char>, Seq<char>), Seq<char>> {
    if spec_trim(source_env) == spec_trim(target_env) {
        Err("Choose a different target environment."@)
    } else {
        Ok((spec_trim(source_env), spec_trim(target_env)))
    }
}

pub fn migration_envs(source_env: &str, target_env: &str) -> (r: Result<(String, String), String>)
    ensures
        match r {
            Ok((s, t)) => spec_migration_envs(source_env@, target_env@) == Ok::<(Seq<char>, Seq<char>), Seq<char>>(
                (s@, t@),
            ),
            Err(e) => spec_migration_envs(source_env@, target_env@) == Err::<(Seq<char>, Seq<char>), Seq<char>>(e@),
        },
{
    let s = trim(source_env);
    let t = trim(target_env);
    if str_eq(s.as_str(), t.as_str()) {
        return Err(owned("Choose a different target environment."));
    }
    Ok((s, t))
}

/// A migration needs at least one lookup.
pub fn require_tables(count: usize) -> (r: Result<(), String>)
    ensures
        count == 0 <==> r is Err,
        match r {
            Ok(_) => true,
            Err(e) => e@ == "Select at least one lookup to migrate."@,
        },
{
    if count == 0 {
        return Err(owned("Select at least one lookup to migrate."));
    }
    Ok(())
}

/// The migration preview: the forward SQL, unless it upserts nothing.
pub fn forward_preview(forward: String) -> (r: Result<String, String>)
    ensures
        forward@.len() == 0 <==> r is Err,
        match r {
            Ok(f) => f@ == forward@,
            Err(e) => e@ == "The selected lookups have no rows to migrate."@,
        },
{
    if forward.as_str().unicode_len() == 0 {
        return Err(owned("The selected lookups have no rows to migrate."));
    }
    Ok(forward)
}

// ------------------------------------------------------ migration outcome

/// The lines of clio's output that are not blank, as printed.
pub open spec fn nonblank_lines(ls: Seq<Seq<char>>) -> Seq<Seq<char>>
    decreases ls.len(),
{
    if ls.len() == 0 {
        seq![]
    } else if is_blank(ls.last()) {
        nonblank_lines(ls.drop_last())
    } else {
        nonblank_lines(ls.drop_last()).push(ls.last())
    }
}

/// The lines of `out` that are not blank, as printed.
pub fn shown_lines(out: &str) -> (shown: Vec<String>)
    ensures
        views(shown@) == nonblank_lines(crate::text::spec_lines(out@)),
{
    let ls = crate::text::lines(out);
    let ghost lv = views(ls@);
    let mut shown: Vec<String> = Vec::new();
    let mut i: usize = 0;
    while i < ls.len()
        invariant
            i <= ls.len(),
            lv == views(ls@),
            lv == crate::text::spec_lines(out@),
            views(shown@) == nonblank_lines(lv.take(i as int)),
        decreases ls.len() - i,
    {
        proof {
            assert(lv.take(i + 1).drop_last() =~= lv.take(i as int));
            assert(lv.take(i + 1).last() == ls@[i as int]@);
        }
        if !is_blank_str(ls[i].as_str()) {
            let ghost before = views(shown@);
            shown.push(ls[i].clone());
            assert(views(shown@) =~= before.push(ls@[i as int]@));
        }
        i = i + 1;
    }
    assert(lv.take(ls.len() as int) =~= lv);
    shown
}

pub open spec fn spec_rollback_note() -> Seq<char> {
    "Nothing was committed if the transaction rolled back; the rollback file above restores the target either way."@
}

/// What a lookup migration's write reports, and the job's exit code: clio's
/// non-blank output lines, then, when the run failed (by exit code, `[ERR]`
/// or a database error), the readable error and (with a backup) the note
/// that the rollback file restores the target, ending with the run's exit
/// code or 1 for a zero exit; else the success line, ending with 0.
pub open spec fn spec_migration_outcome(code: i32, out: Seq<char>, skip_backup: bool, total_rows: nat, lookups: nat, target_env: Seq<char>) -> (Seq<Seq<char>>, i32) {
    let shown = nonblank_lines(crate::text::spec_lines(out));
    if crate::sql::spec_is_failure(code, out) {
        (
            shown.push("Migration failed: "@ + crate::sql::spec_friendly_error(out)) + if skip_backup {
                seq![]
            } else {
                seq![spec_rollback_note()]
            },
            if code == 0 {
                1
            } else {
                code
            },
        )
    } else {
        (
            shown.push(
                "✓ Migrated "@ + spec_decimal(total_rows) + " row(s) across "@ + spec_decimal(lookups)
                    + " lookup(s) to "@ + target_env + "."@,
            ),
            0,
        )
    }
}

pub fn migration_outcome(code: i32, out: &str, skip_backup: bool, total_rows: usize, lookups: usize, target_env: &str) -> (r: (Vec<String>, i32))
    ensures
        (views(r.0@), r.1) == spec_migration_outcome(code, out@, skip_backup, total_rows as nat, lookups as nat, target_env@),
{
    let mut shown = shown_lines(out);
    let ghost base = views(shown@);
    if crate::sql::is_failure(code, out) {
        let e = crate::sql::friendly_error(out);
        let mut m = owned("Migration failed: ");
        m.append(e.as_str());
        shown.push(m);
        if !skip_backup {
            shown.push(
                owned(
                    "Nothing was committed if the transaction rolled back; the rollback file above restores the target either way.",
                ),
            );
        }
        let exit = if code == 0 {
            1
        } else {
            code
        };
        proof {
            let want = spec_migration_outcome(code, out@, skip_backup, total_rows as nat, lookups as nat, target_env@);
            assert(views(shown@) =~= want.0);
        }
        (shown, exit)
    } else {
        let mut m = owned("✓ Migrated ");
        let n = decimal_usize(total_rows);
        m.append(n.as_str());
        m.append(" row(s) across ");
        let k = decimal_usize(lookups);
        m.append(k.as_str());
        m.append(" lookup(s) to ");
        m.append(target_env);
        m.append(".");
        shown.push(m);
        proof {
            let want = spec_migration_outcome(code, out@, skip_backup, total_rows as nat, lookups as nat, target_env@);
            assert(views(shown@) =~= want.0);
        }
        (shown, 0)
    }
}

/// A failed migration write never reports success: it ends with a non-zero
/// code, and a zero code means clio's output held no failure.
pub proof fn lemma_failed_migration_is_not_green(code: i32, out: Seq<char>, skip_backup: bool, total_rows: nat, lookups: nat, target_env: Seq<char>)
    ensures
        crate::sql::spec_is_failure(code, out) <==> spec_migration_outcome(code, out, skip_backup, total_rows, lookups, target_env).1 != 0,
{
}

} // verus!
