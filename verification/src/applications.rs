//! Installed applications: the list clio reports, the descriptor facts read
//! through SQL, and the drill-down assembled from both.
//!
//! Each source fails on its own; whatever answers is shown, and a missing
//! part becomes a note rather than an error.
use vstd::prelude::*;
use crate::refdata::{escape_literal, spec_escape};
use crate::json::{
    as_array, as_text, get, get_either, spec_as_array, spec_as_str, spec_get, spec_get_either, text_of,
    text_or_empty, JsonValue,
};
use crate::sql::{table_view, SqlResult};
use crate::text::{
    chars_of, concat2, get_view, index_of, owned, parse_unsigned, position_ignore_case, position_ignoring_case,
    sort_by_lowercase, sorted_by_lowercase, spec_parse_unsigned, spec_trim, str_eq, trim, views,
};

verus! {

#[derive(Clone, Debug, PartialEq, Eq)]
pub struct ApplicationInfo {
    pub id: String,
    pub name: String,
    pub code: String,
    pub version: String,
    pub description: Option<String>,
}

/// Descriptor facts `list-apps` does not return (read from `SysInstalledApp`
/// through SQL).
#[derive(Clone, Debug, PartialEq, Eq)]
pub struct ApplicationExtras {
    pub code: String,
    pub maintainer: String,
    pub created_on: String,
    pub modified_on: String,
    pub required_platform_version: String,
    pub package_count: usize,
}

/// One package belonging to an application.
#[derive(Clone, Debug, PartialEq, Eq)]
pub struct ApplicationPackage {
    pub name: String,
    pub version: String,
    pub maintainer: String,
}

/// A page (client schema) the application contributes.
#[derive(Clone, Debug, PartialEq, Eq)]
pub struct ApplicationPage {
    pub schema_name: String,
    pub package_name: String,
    pub parent_schema_name: String,
}

/// Everything the drill-down shows.
#[derive(Clone, Debug, PartialEq, Eq)]
pub struct ApplicationDetails {
    pub code: String,
    pub name: String,
    pub version: String,
    pub description: String,
    pub maintainer: String,
    pub created_on: String,
    pub modified_on: String,
    pub install_date: String,
    pub last_update: String,
    pub required_platform_version: String,
    pub marketplace_link: String,
    pub help_link: String,
    pub support_email: String,
    pub is_hidden: String,
    pub needs_update: String,
    pub schema_name_prefix: String,
    pub packages: Vec<ApplicationPackage>,
    pub pages: Vec<ApplicationPage>,
    /// Why part of the picture is missing, when something failed.
    pub notes: Vec<String>,
}

// ------------------------------------------------------------- columns

/// The cell of `row` under the column named `name` (ignoring ASCII case), or
/// the empty text when there is no such column or cell.
pub open spec fn spec_column(columns: Seq<Seq<char>>, row: Seq<Seq<char>>, name: Seq<char>) -> Seq<char> {
    let at = position_ignore_case(columns, name);
    match get_view(row, at) {
        Some(v) => if at >= 0 {
            v
        } else {
            seq![]
        },
        None => seq![],
    }
}

/// Read a column of a SQL result row by header name. A missing column yields
/// the empty text, so an older Creatio blanks a field instead of failing.
pub fn column(columns: &Vec<String>, row: &Vec<String>, name: &str) -> (r: String)
    ensures
        r@ == spec_column(views(columns@), views(row@), name@),
{
    match position_ignoring_case(columns, name) {
        Some(at) => {
            if at < row.len() {
                row[at].clone()
            } else {
                String::new()
            }
        },
        None => String::new(),
    }
}

/// A value as the body of a single-quoted SQL literal.
pub fn sql_literal(value: &str) -> (r: String)
    ensures
        r@ == spec_escape(value@),
{
    escape_literal(value)
}

// -------------------------------------------------------------- queries

pub open spec fn spec_extras_sql() -> Seq<char> {
    "SELECT a.\"Code\", a.\"Maintainer\", a.\"CreatedOn\", a.\"ModifiedOn\",\n       a.\"RequiredPlatformVersion\", COUNT(pa.\"SysPackageId\") AS \"PackageCount\"\nFROM \"SysInstalledApp\" a\nLEFT JOIN \"SysPackageInInstalledApp\" pa ON pa.\"SysInstalledAppId\" = a.\"Id\"\nGROUP BY a.\"Code\", a.\"Maintainer\", a.\"CreatedOn\", a.\"ModifiedOn\", a.\"RequiredPlatformVersion\""@
}

/// The descriptor facts of every application, in one query.
pub fn extras_sql() -> (r: String)
    ensures
        r@ == spec_extras_sql(),
{
    owned(
        "SELECT a.\"Code\", a.\"Maintainer\", a.\"CreatedOn\", a.\"ModifiedOn\",\n       a.\"RequiredPlatformVersion\", COUNT(pa.\"SysPackageId\") AS \"PackageCount\"\nFROM \"SysInstalledApp\" a\nLEFT JOIN \"SysPackageInInstalledApp\" pa ON pa.\"SysInstalledAppId\" = a.\"Id\"\nGROUP BY a.\"Code\", a.\"Maintainer\", a.\"CreatedOn\", a.\"ModifiedOn\", a.\"RequiredPlatformVersion\"",
    )
}

pub open spec fn spec_descriptor_sql(code: Seq<char>) -> Seq<char> {
    "SELECT a.\"Name\", a.\"Code\", a.\"Version\", a.\"Description\", a.\"Maintainer\",\n       a.\"CreatedOn\", a.\"ModifiedOn\", a.\"InstallDate\", a.\"LastUpdate\",\n       a.\"RequiredPlatformVersion\", a.\"MarketplaceLink\", a.\"HelpLink\", a.\"SupportEmail\",\n       a.\"IsHidden\", a.\"NeedUpdate\"\nFROM \"SysInstalledApp\" a WHERE a.\"Code\" = '"@
        + spec_escape(code) + "'"@
}

/// The descriptor row of one application.
pub fn descriptor_sql(code: &str) -> (r: String)
    ensures
        r@ == spec_descriptor_sql(code@),
{
    let literal = sql_literal(code);
    let mut r = owned(
        "SELECT a.\"Name\", a.\"Code\", a.\"Version\", a.\"Description\", a.\"Maintainer\",\n       a.\"CreatedOn\", a.\"ModifiedOn\", a.\"InstallDate\", a.\"LastUpdate\",\n       a.\"RequiredPlatformVersion\", a.\"MarketplaceLink\", a.\"HelpLink\", a.\"SupportEmail\",\n       a.\"IsHidden\", a.\"NeedUpdate\"\nFROM \"SysInstalledApp\" a WHERE a.\"Code\" = '",
    );
    r.append(literal.as_str());
    r.append("'");
    r
}

pub open spec fn spec_app_packages_sql(code: Seq<char>) -> Seq<char> {
    "SELECT p.\"Name\", p.\"Version\", p.\"Maintainer\"\nFROM \"SysPackage\" p\nJOIN \"SysPackageInInstalledApp\" pa ON pa.\"SysPackageId\" = p.\"Id\"\nJOIN \"SysInstalledApp\" a ON a.\"Id\" = pa.\"SysInstalledAppId\"\nWHERE a.\"Code\" = '"@
        + spec_escape(code) + "'\nORDER BY p.\"Name\""@
}

/// The packages of one application.
pub fn app_packages_sql(code: &str) -> (r: String)
    ensures
        r@ == spec_app_packages_sql(code@),
{
    let literal = sql_literal(code);
    let mut r = owned(
        "SELECT p.\"Name\", p.\"Version\", p.\"Maintainer\"\nFROM \"SysPackage\" p\nJOIN \"SysPackageInInstalledApp\" pa ON pa.\"SysPackageId\" = p.\"Id\"\nJOIN \"SysInstalledApp\" a ON a.\"Id\" = pa.\"SysInstalledAppId\"\nWHERE a.\"Code\" = '",
    );
    r.append(literal.as_str());
    r.append("'\nORDER BY p.\"Name\"");
    r
}

// -------------------------------------------------------------- results

pub struct ExtrasView {
    pub code: Seq<char>,
    pub maintainer: Seq<char>,
    pub created_on: Seq<char>,
    pub modified_on: Seq<char>,
    pub required_platform_version: Seq<char>,
    pub package_count: nat,
}

pub open spec fn extras_view(e: ApplicationExtras) -> ExtrasView {
    ExtrasView {
        code: e.code@,
        maintainer: e.maintainer@,
        created_on: e.created_on@,
        modified_on: e.modified_on@,
        required_platform_version: e.required_platform_version@,
        package_count: e.package_count as nat,
    }
}

/// The extras of one result row; none without a code. A package count that
/// does not parse reads as 0.
pub open spec fn row_extras(columns: Seq<Seq<char>>, row: Seq<Seq<char>>) -> Option<ExtrasView> {
    let code = spec_column(columns, row, "Code"@);
    if code.len() == 0 {
        None
    } else {
        Some(
            ExtrasView {
                code,
                maintainer: spec_column(columns, row, "Maintainer"@),
                created_on: spec_column(columns, row, "CreatedOn"@),
                modified_on: spec_column(columns, row, "ModifiedOn"@),
                required_platform_version: spec_column(columns, row, "RequiredPlatformVersion"@),
                package_count: match spec_parse_unsigned(spec_column(columns, row, "PackageCount"@), usize::MAX as nat) {
                    Some(n) => n,
                    None => 0,
                },
            },
        )
    }
}

pub open spec fn rows_extras(columns: Seq<Seq<char>>, rows: Seq<Seq<Seq<char>>>) -> Seq<ExtrasView>
    decreases rows.len(),
{
    if rows.len() == 0 {
        seq![]
    } else {
        let rest = rows_extras(columns, rows.drop_last());
        match row_extras(columns, rows.last()) {
            Some(e) => rest.push(e),
            None => rest,
        }
    }
}

/// The descriptor facts of every application in an extras query's result.
pub fn extras_from_result(result: &SqlResult) -> (out: Vec<ApplicationExtras>)
    ensures
        out@.map_values(|e: ApplicationExtras| extras_view(e)) == rows_extras(
            views(result.columns@),
            table_view(result.rows@),
        ),
{
    let ghost d = table_view(result.rows@);
    let ghost cv = views(result.columns@);
    let mut out: Vec<ApplicationExtras> = Vec::new();
    let mut i: usize = 0;
    while i < result.rows.len()
        invariant
            i <= result.rows.len(),
            d == table_view(result.rows@),
            cv == views(result.columns@),
            out@.map_values(|e: ApplicationExtras| extras_view(e)) == rows_extras(cv, d.take(i as int)),
        decreases result.rows.len() - i,
    {
        proof {
            assert(d.take(i + 1).drop_last() =~= d.take(i as int));
            assert(d.take(i + 1).last() == views(result.rows@[i as int]@));
        }
        let row = &result.rows[i];
        let code = column(&result.columns, row, "Code");
        if code.as_str().unicode_len() > 0 {
            let count_text = column(&result.columns, row, "PackageCount");
            let package_count = match parse_unsigned(count_text.as_str(), usize::MAX as u64) {
                Some(n) => n as usize,
                None => 0,
            };
            let e = ApplicationExtras {
                code,
                maintainer: column(&result.columns, row, "Maintainer"),
                created_on: column(&result.columns, row, "CreatedOn"),
                modified_on: column(&result.columns, row, "ModifiedOn"),
                required_platform_version: column(&result.columns, row, "RequiredPlatformVersion"),
                package_count,
            };
            let ghost before = out@.map_values(|e: ApplicationExtras| extras_view(e));
            let ghost ev = extras_view(e);
            out.push(e);
            assert(out@.map_values(|e: ApplicationExtras| extras_view(e)) =~= before.push(ev));
        }
        i = i + 1;
    }
    assert(d.take(result.rows.len() as int) =~= d);
    out
}

pub struct PackageView {
    pub name: Seq<char>,
    pub version: Seq<char>,
    pub maintainer: Seq<char>,
}

pub open spec fn app_package_view(p: ApplicationPackage) -> PackageView {
    PackageView { name: p.name@, version: p.version@, maintainer: p.maintainer@ }
}

pub open spec fn rows_packages(columns: Seq<Seq<char>>, rows: Seq<Seq<Seq<char>>>) -> Seq<PackageView>
    decreases rows.len(),
{
    if rows.len() == 0 {
        seq![]
    } else {
        let rest = rows_packages(columns, rows.drop_last());
        let name = spec_column(columns, rows.last(), "Name"@);
        if name.len() == 0 {
            rest
        } else {
            rest.push(
                PackageView {
                    name,
                    version: spec_column(columns, rows.last(), "Version"@),
                    maintainer: spec_column(columns, rows.last(), "Maintainer"@),
                },
            )
        }
    }
}

/// The packages of an application's package query, rows without a name
/// dropped.
pub fn packages_from_result(result: &SqlResult) -> (out: Vec<ApplicationPackage>)
    ensures
        out@.map_values(|p: ApplicationPackage| app_package_view(p)) == rows_packages(
            views(result.columns@),
            table_view(result.rows@),
        ),
{
    let ghost d = table_view(result.rows@);
    let ghost cv = views(result.columns@);
    let mut out: Vec<ApplicationPackage> = Vec::new();
    let mut i: usize = 0;
    while i < result.rows.len()
        invariant
            i <= result.rows.len(),
            d == table_view(result.rows@),
            cv == views(result.columns@),
            out@.map_values(|p: ApplicationPackage| app_package_view(p)) == rows_packages(cv, d.take(i as int)),
        decreases result.rows.len() - i,
    {
        proof {
            assert(d.take(i + 1).drop_last() =~= d.take(i as int));
            assert(d.take(i + 1).last() == views(result.rows@[i as int]@));
        }
        let row = &result.rows[i];
        let name = column(&result.columns, row, "Name");
        if name.as_str().unicode_len() > 0 {
            let p = ApplicationPackage {
                name,
                version: column(&result.columns, row, "Version"),
                maintainer: column(&result.columns, row, "Maintainer"),
            };
            let ghost before = out@.map_values(|p: ApplicationPackage| app_package_view(p));
            let ghost pv = app_package_view(p);
            out.push(p);
            assert(out@.map_values(|p: ApplicationPackage| app_package_view(p)) =~= before.push(pv));
        }
        i = i + 1;
    }
    assert(d.take(result.rows.len() as int) =~= d);
    out
}

// ------------------------------------------------------------ the list

/// The applications of clio's listing: those without a code dropped, an
/// empty description read as none, sorted by name ignoring case.
pub open spec fn listed(a: ApplicationInfo) -> bool {
    a.code@.len() > 0
}

pub open spec fn app_names(apps: Seq<ApplicationInfo>) -> Seq<Seq<char>> {
    apps.map_values(|a: ApplicationInfo| a.name@)
}

/// One listed application as it is kept: an empty description read as none.
pub open spec fn tidy_app(a: ApplicationInfo) -> ApplicationInfo {
    ApplicationInfo {
        description: match a.description {
            Some(d) => if d@.len() > 0 {
                Some(d)
            } else {
                None
            },
            None => None,
        },
        ..a
    }
}

/// The rows that have a code, tidied, in their order.
pub open spec fn kept_apps(rows: Seq<ApplicationInfo>) -> Seq<ApplicationInfo>
    decreases rows.len(),
{
    if rows.len() == 0 {
        Seq::empty()
    } else {
        let rest = kept_apps(rows.drop_first());
        if listed(rows[0]) {
            seq![tidy_app(rows[0])] + rest
        } else {
            rest
        }
    }
}

pub fn applications_from_rows(rows: Vec<ApplicationInfo>) -> (out: Vec<ApplicationInfo>)
    ensures
        sorted_by_lowercase(kept_apps(rows@), app_names(kept_apps(rows@)), out@),
{
    let mut kept: Vec<ApplicationInfo> = Vec::new();
    let mut names: Vec<String> = Vec::new();
    let ghost all = rows@;
    let mut rest = rows;
    while rest.len() > 0
        invariant
            kept.len() == names.len(),
            views(names@) == app_names(kept@),
            kept@ + kept_apps(rest@) == kept_apps(all),
        decreases rest.len(),
    {
        let ghost old_rest = rest@;
        let a = rest.remove(0);
        proof {
            assert(rest@ =~= old_rest.drop_first());
        }
        if a.code.as_str().unicode_len() > 0 {
            let description = match a.description {
                Some(d) => if d.as_str().unicode_len() > 0 {
                    Some(d)
                } else {
                    None
                },
                None => None,
            };
            let item = ApplicationInfo { id: a.id, name: a.name, code: a.code, version: a.version, description };
            let ghost before = kept@;
            let ghost nb = views(names@);
            names.push(item.name.clone());
            let ghost iv = item;
            assert(iv == tidy_app(old_rest[0]));
            kept.push(item);
            assert(views(names@) =~= nb.push(iv.name@));
            assert(kept@ =~= before.push(iv));
            assert(app_names(kept@) =~= app_names(before).push(iv.name@));
            assert(kept@ + kept_apps(rest@) =~= before + kept_apps(old_rest));
        }
    }
    assert(kept@ =~= kept_apps(all));
    let ghost k = kept@;
    let out = sort_by_lowercase(kept, &names);
    assert(sorted_by_lowercase(k, app_names(k), out@));
    out
}

// ------------------------------------------------------------ the details

/// The drill-down of a code before anything was read.
pub fn empty_details(code: String) -> (d: ApplicationDetails)
    ensures
        d.code == code,
        d.name@.len() == 0 && d.version@.len() == 0 && d.schema_name_prefix@.len() == 0,
        d.packages@.len() == 0 && d.pages@.len() == 0 && d.notes@.len() == 0,
{
    ApplicationDetails {
        code,
        name: String::new(),
        version: String::new(),
        description: String::new(),
        maintainer: String::new(),
        created_on: String::new(),
        modified_on: String::new(),
        install_date: String::new(),
        last_update: String::new(),
        required_platform_version: String::new(),
        marketplace_link: String::new(),
        help_link: String::new(),
        support_email: String::new(),
        is_hidden: String::new(),
        needs_update: String::new(),
        schema_name_prefix: String::new(),
        packages: Vec::new(),
        pages: Vec::new(),
        notes: Vec::new(),
    }
}

/// The code of a drill-down request: trimmed and non-empty.
pub open spec fn spec_details_code(code: Seq<char>) -> Result<Seq<char>, Seq<char>> {
    if spec_trim(code).len() == 0 {
        Err("No application code was supplied."@)
    } else {
        Ok(spec_trim(code))
    }
}

pub fn details_code(code: &str) -> (r: Result<String, String>)
    ensures
        match r {
            Ok(c) => spec_details_code(code@) == Ok::<Seq<char>, Seq<char>>(c@),
            Err(e) => spec_details_code(code@) == Err::<Seq<char>, Seq<char>>(e@),
        },
{
    let c = trim(code);
    if c.as_str().unicode_len() == 0 {
        Err(owned("No application code was supplied."))
    } else {
        Ok(c)
    }
}

// ------------------------------------------------------------- listing JSON

/// The fields of a listed application as plain text.
pub open spec fn app_fields(a: ApplicationInfo) -> (Seq<char>, Seq<char>, Seq<char>, Seq<char>, Option<Seq<char>>) {
    (
        a.id@,
        a.name@,
        a.code@,
        a.version@,
        match a.description {
            Some(d) => Some(d@),
            None => None,
        },
    )
}

/// What one row of clio's application JSON says: each field under its
/// PascalCase name, else its camelCase one. A field that is not text reads
/// as empty; a description that is not text, as none.
pub open spec fn app_row_fields(row: JsonValue) -> (Seq<char>, Seq<char>, Seq<char>, Seq<char>, Option<Seq<char>>) {
    (
        text_or_empty(spec_get_either(row, "Id"@, "id"@)),
        text_or_empty(spec_get_either(row, "Name"@, "name"@)),
        text_or_empty(spec_get_either(row, "Code"@, "code"@)),
        text_or_empty(spec_get_either(row, "Version"@, "version"@)),
        spec_as_str(spec_get_either(row, "Description"@, "description"@)),
    )
}

/// The rows of clio's application JSON: the document itself when it is an
/// array, else its `data` array.
pub open spec fn app_json_rows(v: JsonValue) -> Option<Seq<JsonValue>> {
    match v {
        JsonValue::Array(items) => Some(items@),
        _ => spec_as_array(spec_get(v, "data"@)),
    }
}

/// `out` is the listing of `rows`: one application per row, those without a
/// code dropped, sorted by name.
pub open spec fn listed_from_json(rows: Seq<JsonValue>, out: Seq<ApplicationInfo>) -> bool {
    exists|raw: Seq<ApplicationInfo>|
        raw.map_values(|a: ApplicationInfo| app_fields(a)) == rows.map_values(|j: JsonValue| app_row_fields(j))
            && #[trigger] sorted_by_lowercase(kept_apps(raw), app_names(kept_apps(raw)), out)
}

/// What a listing document gives: its applications, or why it has none.
pub open spec fn listing_outcome(v: JsonValue, r: Result<Vec<ApplicationInfo>, String>) -> bool {
    match app_json_rows(v) {
        None => r matches Err(e) && e@ == "clio application JSON has no data array."@,
        Some(rows) => r matches Ok(out) && listed_from_json(rows, out@),
    }
}

/// One row of clio's application JSON.
pub fn application_from_row(row: &JsonValue) -> (a: ApplicationInfo)
    ensures
        app_fields(a) == app_row_fields(*row),
{
    ApplicationInfo {
        id: text_of(get_either(row, "Id", "id")),
        name: text_of(get_either(row, "Name", "name")),
        code: text_of(get_either(row, "Code", "code")),
        version: text_of(get_either(row, "Version", "version")),
        description: as_text(get_either(row, "Description", "description")),
    }
}

/// The applications of a listing document.
pub fn applications_from_json(v: &JsonValue) -> (r: Result<Vec<ApplicationInfo>, String>)
    ensures
        listing_outcome(*v, r),
{
    let rows: &Vec<JsonValue> = match v {
        JsonValue::Array(items) => items,
        _ => match as_array(get(v, "data")) {
            Some(items) => items,
            None => return Err(owned("clio application JSON has no data array.")),
        },
    };
    proof {
        assert(app_json_rows(*v) == Some(rows@));
    }
    let mut raw: Vec<ApplicationInfo> = Vec::new();
    let mut i: usize = 0;
    while i < rows.len()
        invariant
            i <= rows.len(),
            raw.len() == i,
            raw@.map_values(|a: ApplicationInfo| app_fields(a)) == rows@.take(i as int).map_values(
                |j: JsonValue| app_row_fields(j),
            ),
        decreases rows.len() - i,
    {
        let a = application_from_row(&rows[i]);
        let ghost before = raw@;
        raw.push(a);
        proof {
            assert(rows@.take(i + 1) =~= rows@.take(i as int).push(rows@[i as int]));
            assert(raw@ =~= before.push(a));
            assert forall|k: int| 0 <= k < i implies #[trigger] app_fields(raw@[k]) == app_row_fields(rows@[k]) by {
                if 0 <= k < i {
                    assert(before.map_values(|a: ApplicationInfo| app_fields(a))[k] == rows@.take(i as int).map_values(
                        |j: JsonValue| app_row_fields(j),
                    )[k]);
                }
            }
            assert(raw@.map_values(|a: ApplicationInfo| app_fields(a)) =~= rows@.take(i + 1).map_values(
                |j: JsonValue| app_row_fields(j),
            ));
        }
        i = i + 1;
    }
    proof {
        assert(rows@.take(rows.len() as int) =~= rows@);
    }
    let ghost all = raw@;
    let out = applications_from_rows(raw);
    proof {
        assert(all.map_values(|a: ApplicationInfo| app_fields(a)) == rows@.map_values(|j: JsonValue| app_row_fields(j)));
        assert(sorted_by_lowercase(kept_apps(all), app_names(kept_apps(all)), out@));
    }
    Ok(out)
}

/// Read clio's application listing from the first JSON document of its
/// output (a warning may follow it): `first` is that document, the reason it
/// could not be read, or nothing when the output holds none.
pub fn parse_applications_json(first: Option<Result<JsonValue, String>>) -> (r: Result<Vec<ApplicationInfo>, String>)
    ensures
        match first {
            None => r matches Err(e) && e@ == "clio returned no application JSON."@,
            Some(Err(m)) => r matches Err(e) && e@ == "Invalid clio application JSON: "@ + m@,
            Some(Ok(v)) => listing_outcome(v, r),
        },
{
    match first {
        None => Err(owned("clio returned no application JSON.")),
        Some(Err(m)) => Err(concat2("Invalid clio application JSON: ", m.as_str())),
        Some(Ok(v)) => applications_from_json(&v),
    }
}

// ------------------------------------------------------------- descriptor

/// The fields of a page as plain text.
pub open spec fn page_fields(p: ApplicationPage) -> (Seq<char>, Seq<char>, Seq<char>) {
    (p.schema_name@, p.package_name@, p.parent_schema_name@)
}

/// What one entry of a descriptor's `Pages` says.
pub open spec fn page_json_fields(j: JsonValue) -> (Seq<char>, Seq<char>, Seq<char>) {
    (
        text_or_empty(spec_get(j, "schema-name"@)),
        text_or_empty(spec_get(j, "packageName"@)),
        text_or_empty(spec_get(j, "parentSchemaName"@)),
    )
}

/// The entries of a descriptor's `Pages` array; none when it has no array.
pub open spec fn descriptor_pages(v: JsonValue) -> Seq<JsonValue> {
    match spec_as_array(spec_get(v, "Pages"@)) {
        Some(items) => items,
        None => Seq::empty(),
    }
}

/// One entry of a descriptor's `Pages`.
pub fn page_from_json(j: &JsonValue) -> (p: ApplicationPage)
    ensures
        page_fields(p) == page_json_fields(*j),
{
    ApplicationPage {
        schema_name: text_of(get(j, "schema-name")),
        package_name: text_of(get(j, "packageName")),
        parent_schema_name: text_of(get(j, "parentSchemaName")),
    }
}

/// What the JSON document of `clio get-app-info` describes: its name,
/// version, schema prefix (empty where not text) and pages.
pub fn app_descriptor(v: &JsonValue) -> (d: AppDescriptor)
    ensures
        d.name@ == text_or_empty(spec_get(*v, "ApplicationName"@)),
        d.version@ == text_or_empty(spec_get(*v, "ApplicationVersion"@)),
        d.schema_name_prefix@ == text_or_empty(spec_get(*v, "SchemaNamePrefix"@)),
        d.pages@.map_values(|p: ApplicationPage| page_fields(p)) == descriptor_pages(*v).map_values(
            |j: JsonValue| page_json_fields(j),
        ),
{
    let mut pages: Vec<ApplicationPage> = Vec::new();
    match as_array(get(v, "Pages")) {
        Some(items) => {
            let mut i: usize = 0;
            while i < items.len()
                invariant
                    i <= items.len(),
                    pages.len() == i,
                    pages@.map_values(|p: ApplicationPage| page_fields(p)) == items@.take(i as int).map_values(
                        |j: JsonValue| page_json_fields(j),
                    ),
                decreases items.len() - i,
            {
                let p = page_from_json(&items[i]);
                let ghost before = pages@;
                pages.push(p);
                proof {
                    assert(items@.take(i + 1) =~= items@.take(i as int).push(items@[i as int]));
                    assert(pages@ =~= before.push(p));
                    assert forall|k: int| 0 <= k < i implies #[trigger] page_fields(pages@[k]) == page_json_fields(items@[k]) by {
                        if 0 <= k < i {
                            assert(before.map_values(|p: ApplicationPage| page_fields(p))[k] == items@.take(i as int).map_values(
                                |j: JsonValue| page_json_fields(j),
                            )[k]);
                        }
                    }
                    assert(pages@.map_values(|p: ApplicationPage| page_fields(p)) =~= items@.take(i + 1).map_values(
                        |j: JsonValue| page_json_fields(j),
                    ));
                }
                i = i + 1;
            }
            proof {
                assert(items@.take(items.len() as int) =~= items@);
            }
        },
        None => {
            proof {
                assert(pages@.map_values(|p: ApplicationPage| page_fields(p)) =~= descriptor_pages(*v).map_values(
                    |j: JsonValue| page_json_fields(j),
                ));
            }
        },
    }
    AppDescriptor {
        name: text_of(get(v, "ApplicationName")),
        version: text_of(get(v, "ApplicationVersion")),
        schema_name_prefix: text_of(get(v, "SchemaNamePrefix")),
        pages,
    }
}

/// What `clio get-app-info --json` describes, as read from its JSON.
#[derive(Clone, Debug, PartialEq, Eq)]
pub struct AppDescriptor {
    pub name: String,
    pub version: String,
    pub schema_name_prefix: String,
    pub pages: Vec<ApplicationPage>,
}

/// Where the JSON document of `clio get-app-info` starts: clio prefixes it
/// with its log level (`[INF] - `), so at the first `{`.
pub fn descriptor_start(output: &str) -> (r: Option<usize>)
    ensures
        match r {
            Some(k) => index_of(output@, '{') == k,
            None => index_of(output@, '{') < 0,
        },
{
    let v = chars_of(output);
    let k = crate::text::find_char(&v, '{', 0);
    proof {
        assert(v@.skip(0) =~= v@);
    }
    if k < v.len() {
        Some(k)
    } else {
        None
    }
}

/// Fold `clio get-app-info --json` into the drill-down: `parsed` is its JSON
/// document (from the first `{` of `output`), when it could be read. Without
/// a `{`, or with an unreadable document, a note is added instead.
pub fn merge_app_info(details: &mut ApplicationDetails, output: &str, parsed: Option<AppDescriptor>)
    ensures
        index_of(output@, '{') < 0 ==> final(details).notes@.len() == old(details).notes@.len() + 1
            && final(details).notes@.last()@ == "clio returned no application descriptor."@
            && final(details).name == old(details).name && final(details).pages@ == old(details).pages@,
        index_of(output@, '{') >= 0 && parsed is None ==> final(details).notes@.len() == old(details).notes@.len()
            + 1 && final(details).notes@.last()@ == "clio's application descriptor could not be read."@
            && final(details).name == old(details).name && final(details).pages@ == old(details).pages@,
        index_of(output@, '{') >= 0 && parsed is Some ==> final(details).name == parsed.unwrap().name
            && final(details).version == parsed.unwrap().version && final(details).schema_name_prefix
            == parsed.unwrap().schema_name_prefix && final(details).pages@ == parsed.unwrap().pages@.filter(
            |p: ApplicationPage| p.schema_name@.len() > 0,
        ) && final(details).notes@ == old(details).notes@,
        final(details).code == old(details).code,
{
    if descriptor_start(output).is_none() {
        details.notes.push(owned("clio returned no application descriptor."));
        return;
    }
    match parsed {
        None => {
            details.notes.push(owned("clio's application descriptor could not be read."));
        },
        Some(doc) => {
            details.name = doc.name;
            details.version = doc.version;
            details.schema_name_prefix = doc.schema_name_prefix;
            let ghost all = doc.pages@;
            let mut pages: Vec<ApplicationPage> = Vec::new();
            let mut rest = doc.pages;
            let n: usize = rest.len();
            let mut reversed: Vec<ApplicationPage> = Vec::new();
            proof {
                assert(all.take(all.len() as int) =~= all);
            }
            while rest.len() > 0
                invariant
                    all.len() == rest.len() + reversed.len(),
                    all.len() == n,
                    rest@ == all.take(rest.len() as int),
                    forall|k: int| 0 <= k < reversed.len() ==> reversed@[k] == all[all.len() - 1 - k],
                decreases rest.len(),
            {
                let x = rest.pop().unwrap();
                reversed.push(x);
                assert(rest@ =~= all.take(rest.len() as int));
            }
            let mut taken: usize = 0;
            proof {
                reveal(Seq::filter);
                assert(all.take(0).filter(|p: ApplicationPage| p.schema_name@.len() > 0) =~= Seq::<ApplicationPage>::empty());
            }
            while reversed.len() > 0
                invariant
                    taken + reversed.len() == all.len(),
                    all.len() == n,
                    forall|k: int| 0 <= k < reversed.len() ==> reversed@[k] == all[all.len() - 1 - k],
                    pages@ == all.take(taken as int).filter(|p: ApplicationPage| p.schema_name@.len() > 0),
                decreases reversed.len(),
            {
                let x = reversed.pop().unwrap();
                proof {
                    assert(x == all[taken as int]);
                    reveal(Seq::filter);
                    assert(all.take(taken + 1).drop_last() =~= all.take(taken as int));
                }
                if x.schema_name.as_str().unicode_len() > 0 {
                    pages.push(x);
                }
                taken = taken + 1;
            }
            proof {
                assert(all.take(all.len() as int) =~= all);
            }
            details.pages = pages;
        },
    }
}

/// Fill the drill-down from the descriptor row of the SQL read: the name and
/// version only where clio left them empty, every other field from the row.
pub fn apply_descriptor(details: &mut ApplicationDetails, columns: &Vec<String>, row: &Vec<String>)
    ensures
        final(details).name@ == (if old(details).name@.len() == 0 {
            spec_column(views(columns@), views(row@), "Name"@)
        } else {
            old(details).name@
        }),
        final(details).version@ == (if old(details).version@.len() == 0 {
            spec_column(views(columns@), views(row@), "Version"@)
        } else {
            old(details).version@
        }),
        final(details).description@ == spec_column(views(columns@), views(row@), "Description"@),
        final(details).maintainer@ == spec_column(views(columns@), views(row@), "Maintainer"@),
        final(details).created_on@ == spec_column(views(columns@), views(row@), "CreatedOn"@),
        final(details).modified_on@ == spec_column(views(columns@), views(row@), "ModifiedOn"@),
        final(details).install_date@ == spec_column(views(columns@), views(row@), "InstallDate"@),
        final(details).last_update@ == spec_column(views(columns@), views(row@), "LastUpdate"@),
        final(details).required_platform_version@ == spec_column(
            views(columns@),
            views(row@),
            "RequiredPlatformVersion"@,
        ),
        final(details).marketplace_link@ == spec_column(views(columns@), views(row@), "MarketplaceLink"@),
        final(details).help_link@ == spec_column(views(columns@), views(row@), "HelpLink"@),
        final(details).support_email@ == spec_column(views(columns@), views(row@), "SupportEmail"@),
        final(details).is_hidden@ == spec_column(views(columns@), views(row@), "IsHidden"@),
        final(details).needs_update@ == spec_column(views(columns@), views(row@), "NeedUpdate"@),
        final(details).code == old(details).code,
        final(details).notes@ == old(details).notes@,
        final(details).pages@ == old(details).pages@,
{
    if details.name.as_str().unicode_len() == 0 {
        details.name = column(columns, row, "Name");
    }
    if details.version.as_str().unicode_len() == 0 {
        details.version = column(columns, row, "Version");
    }
    details.description = column(columns, row, "Description");
    details.maintainer = column(columns, row, "Maintainer");
    details.created_on = column(columns, row, "CreatedOn");
    details.modified_on = column(columns, row, "ModifiedOn");
    details.install_date = column(columns, row, "InstallDate");
    details.last_update = column(columns, row, "LastUpdate");
    details.required_platform_version = column(columns, row, "RequiredPlatformVersion");
    details.marketplace_link = column(columns, row, "MarketplaceLink");
    details.help_link = column(columns, row, "HelpLink");
    details.support_email = column(columns, row, "SupportEmail");
    details.is_hidden = column(columns, row, "IsHidden");
    details.needs_update = column(columns, row, "NeedUpdate");
}

/// The note for a `get-app-info` that exited non-zero.
pub open spec fn spec_app_info_failure_note(output: Seq<char>) -> Seq<char> {
    "clio could not read the application descriptor: "@ + spec_trim(output)
}

pub fn app_info_failure_note(output: &str) -> (r: String)
    ensures
        r@ == spec_app_info_failure_note(output@),
{
    let mut r = owned("clio could not read the application descriptor: ");
    let t = trim(output);
    r.append(t.as_str());
    r
}

/// The note for a descriptor read that SQL could not answer.
pub open spec fn spec_descriptor_failure_note(error: Seq<char>) -> Seq<char> {
    "Descriptor details need SQL access to this environment (cliogate): "@ + error
}

pub fn descriptor_failure_note(error: &str) -> (r: String)
    ensures
        r@ == spec_descriptor_failure_note(error@),
{
    let mut r = owned("Descriptor details need SQL access to this environment (cliogate): ");
    r.append(error);
    r
}

// ------------------------------------------------------------ deployment

/// An application code usable on a clio command line: trimmed, non-empty and
/// not starting with `-`.
pub open spec fn spec_require_app_code(code: Seq<char>) -> Result<Seq<char>, Seq<char>> {
    let c = spec_trim(code);
    if c.len() == 0 || c[0] == '-' {
        Err("Invalid application code."@)
    } else {
        Ok(c)
    }
}

pub fn require_app_code(code: &str) -> (r: Result<String, String>)
    ensures
        match r {
            Ok(c) => spec_require_app_code(code@) == Ok::<Seq<char>, Seq<char>>(c@),
            Err(e) => spec_require_app_code(code@) == Err::<Seq<char>, Seq<char>>(e@),
        },
{
    let c = trim(code);
    let cs = chars_of(c.as_str());
    if cs.len() == 0 || cs[0] == '-' {
        return Err(owned("Invalid application code."));
    }
    Ok(c)
}

/// The clio arguments deploying an application between environments.
pub open spec fn spec_deploy_args(code: Seq<char>, source: Seq<char>, target: Seq<char>) -> Seq<Seq<char>> {
    seq!["deploy-application"@, code, "-e"@, source, "-d"@, target]
}

pub fn deploy_args(code: &str, source: &str, target: &str) -> (args: Vec<String>)
    ensures
        views(args@) == spec_deploy_args(code@, source@, target@),
{
    let args = vec![owned("deploy-application"), owned(code), owned("-e"), owned(source), owned("-d"), owned(target)];
    assert(views(args@) =~= spec_deploy_args(code@, source@, target@));
    args
}

/// The line an application deployment starts with.
pub open spec fn spec_deploy_note(code: Seq<char>, source: Seq<char>, target: Seq<char>) -> Seq<char> {
    "Deploying application "@ + code + " from "@ + source + " to "@ + target
        + ". This clio operation downloads, transfers, and installs the application as one server-side workflow and cannot be safely cancelled after it starts."@
}

pub fn deploy_note(code: &str, source: &str, target: &str) -> (r: String)
    ensures
        r@ == spec_deploy_note(code@, source@, target@),
{
    let mut r = owned("Deploying application ");
    r.append(code);
    r.append(" from ");
    r.append(source);
    r.append(" to ");
    r.append(target);
    r.append(
        ". This clio operation downloads, transfers, and installs the application as one server-side workflow and cannot be safely cancelled after it starts.",
    );
    r
}

/// What an application deployment logs when clio ends, and its exit code:
/// the success line for a zero exit, nothing for another exit, the error when
/// clio could not run.
pub open spec fn spec_deploy_outcome(run: Result<i32, Seq<char>>, code: Seq<char>, source: Seq<char>, target: Seq<char>) -> (Seq<Seq<char>>, i32) {
    match run {
        Err(e) => (seq![e], 1),
        Ok(exit) => if exit == 0 {
            (seq!["✓ "@ + code + " deployed from "@ + source + " to "@ + target + "."@], 0)
        } else {
            (seq![], exit)
        },
    }
}

pub fn deploy_outcome(run: Result<i32, String>, code: &str, source: &str, target: &str) -> (r: (Vec<String>, i32))
    ensures
        (views(r.0@), r.1) == spec_deploy_outcome(
            match run {
                Ok(c) => Ok(c),
                Err(e) => Err(e@),
            },
            code@,
            source@,
            target@,
        ),
{
    match run {
        Err(e) => {
            let v = vec![e];
            assert(views(v@) =~= seq![v@[0]@]);
            (v, 1)
        },
        Ok(exit) => if exit == 0 {
            let mut line = owned("✓ ");
            line.append(code);
            line.append(" deployed from ");
            line.append(source);
            line.append(" to ");
            line.append(target);
            line.append(".");
            let v = vec![line];
            assert(views(v@) =~= seq![v@[0]@]);
            (v, 0)
        } else {
            let v: Vec<String> = Vec::new();
            assert(views(v@) =~= Seq::<Seq<char>>::empty());
            (v, exit)
        },
    }
}

} // verus!
