//! Inspecting arbitrary entity objects (Lead, Contact, Account, …) for data
//! migration: which objects exist, what columns an object's table has, and
//! which tables it depends on through foreign keys.
//!
//! Every read is a plain `SELECT` against Creatio's PostgreSQL; the queries
//! are built here and their results read here. A value spliced into a query is
//! always an escaped string literal, and a table name in an identifier
//! position must be a bare identifier.
use vstd::prelude::*;
use crate::refdata::{
    cell_or_empty, escape_literal, index_or_none, is_safe_identifier, spec_escape,
    spec_is_safe_identifier,
};
use crate::sql::table_view;
use crate::text::{
    all_digits, chars_of, digits_value, eq_ignore_ascii_case, eq_ignore_case, get_view, owned,
    parse_unsigned, position, position_of, spec_parse_unsigned, spec_trim, str_eq, string_from_chars,
    trim, unsigned_body, views,
};

verus! {

/// One migratable entity object: its backing table and owning package.
#[derive(Clone, Debug, PartialEq, Eq)]
pub struct ObjectInfo {
    pub table: String,
    pub package: String,
}

/// One physical column of an object's table.
#[derive(Clone, Debug, PartialEq, Eq)]
pub struct ObjectColumn {
    pub name: String,
    pub data_type: String,
    pub nullable: bool,
}

/// A foreign-key edge: `column` on this table points at `references_table`.
#[derive(Clone, Debug, PartialEq, Eq)]
pub struct ObjectDependency {
    pub column: String,
    pub references_table: String,
}

// ------------------------------------------------------------------- SQL

pub open spec fn spec_list_objects_sql(filter: Seq<char>) -> Seq<char> {
    "SELECT s.\"Name\" AS \"Table\", COALESCE(p.\"Name\", '') AS \"Package\"\nFROM \"SysSchema\" s\nLEFT JOIN \"SysPackage\" p ON p.\"Id\" = s.\"SysPackageId\"\nWHERE s.\"ManagerName\" = 'EntitySchemaManager'\n  AND EXISTS (\n    SELECT 1 FROM information_schema.columns c\n    WHERE c.table_name = s.\"Name\" AND c.column_name = 'Id'\n  )\n  AND s.\"Name\" ILIKE '%"@
        + spec_escape(filter) + "%'\nORDER BY s.\"Name\"\nLIMIT 300"@
}

/// Search entity schemas by name (case-insensitive substring), capped at 300
/// so a broad term cannot return the whole schema. Only schemas whose table
/// exists and has an `Id` column are listed.
pub fn list_objects_sql(filter: &str) -> (r: String)
    ensures
        r@ == spec_list_objects_sql(filter@),
{
    let needle = escape_literal(filter);
    let mut r = owned(
        "SELECT s.\"Name\" AS \"Table\", COALESCE(p.\"Name\", '') AS \"Package\"\nFROM \"SysSchema\" s\nLEFT JOIN \"SysPackage\" p ON p.\"Id\" = s.\"SysPackageId\"\nWHERE s.\"ManagerName\" = 'EntitySchemaManager'\n  AND EXISTS (\n    SELECT 1 FROM information_schema.columns c\n    WHERE c.table_name = s.\"Name\" AND c.column_name = 'Id'\n  )\n  AND s.\"Name\" ILIKE '%",
    );
    r.append(needle.as_str());
    r.append("%'\nORDER BY s.\"Name\"\nLIMIT 300");
    r
}

pub open spec fn spec_columns_sql(table: Seq<char>) -> Seq<char> {
    "SELECT column_name AS \"Column\", data_type AS \"Type\", is_nullable AS \"Nullable\"\nFROM information_schema.columns\nWHERE table_name = '"@
        + spec_escape(table) + "'\nORDER BY ordinal_position"@
}

/// Every physical column of a table, in definition order.
pub fn columns_sql(table: &str) -> (r: String)
    ensures
        r@ == spec_columns_sql(table@),
{
    let t = escape_literal(table);
    let mut r = owned(
        "SELECT column_name AS \"Column\", data_type AS \"Type\", is_nullable AS \"Nullable\"\nFROM information_schema.columns\nWHERE table_name = '",
    );
    r.append(t.as_str());
    r.append("'\nORDER BY ordinal_position");
    r
}

pub open spec fn spec_dependencies_sql(table: Seq<char>) -> Seq<char> {
    "SELECT kcu.column_name AS \"Column\", ccu.table_name AS \"RefTable\"\nFROM information_schema.table_constraints tc\nJOIN information_schema.key_column_usage kcu\n  ON tc.constraint_name = kcu.constraint_name AND tc.table_schema = kcu.table_schema\nJOIN information_schema.constraint_column_usage ccu\n  ON tc.constraint_name = ccu.constraint_name AND tc.table_schema = ccu.table_schema\nWHERE tc.constraint_type = 'FOREIGN KEY' AND tc.table_name = '"@
        + spec_escape(table) + "'\nORDER BY kcu.column_name"@
}

/// The foreign keys defined on a table (column to referenced table), read
/// from the database's own constraints.
pub fn dependencies_sql(table: &str) -> (r: String)
    ensures
        r@ == spec_dependencies_sql(table@),
{
    let t = escape_literal(table);
    let mut r = owned(
        "SELECT kcu.column_name AS \"Column\", ccu.table_name AS \"RefTable\"\nFROM information_schema.table_constraints tc\nJOIN information_schema.key_column_usage kcu\n  ON tc.constraint_name = kcu.constraint_name AND tc.table_schema = kcu.table_schema\nJOIN information_schema.constraint_column_usage ccu\n  ON tc.constraint_name = ccu.constraint_name AND tc.table_schema = ccu.table_schema\nWHERE tc.constraint_type = 'FOREIGN KEY' AND tc.table_name = '",
    );
    r.append(t.as_str());
    r.append("'\nORDER BY kcu.column_name");
    r
}

/// A table name for the column, dependency and count reads: trimmed, and a
/// bare identifier, else an error naming it as given.
pub open spec fn spec_checked_table(table: Seq<char>) -> Result<Seq<char>, Seq<char>> {
    if spec_is_safe_identifier(spec_trim(table)) {
        Ok(spec_trim(table))
    } else {
        Err("Refusing an unsafe table name: "@ + table)
    }
}

pub fn checked_table(table: &str) -> (r: Result<String, String>)
    ensures
        match r {
            Ok(t) => spec_checked_table(table@) == Ok::<Seq<char>, Seq<char>>(t@),
            Err(e) => spec_checked_table(table@) == Err::<Seq<char>, Seq<char>>(e@),
        },
{
    let t = trim(table);
    if is_safe_identifier(t.as_str()) {
        Ok(t)
    } else {
        let mut e = owned("Refusing an unsafe table name: ");
        e.append(table);
        Err(e)
    }
}

/// The row count query of a (checked) table.
pub open spec fn spec_count_sql(table: Seq<char>) -> Seq<char> {
    "SELECT COUNT(*)::text AS \"Count\" FROM \""@ + table + "\""@
}

pub fn count_sql(table: &str) -> (r: String)
    ensures
        r@ == spec_count_sql(table@),
{
    let mut r = owned("SELECT COUNT(*)::text AS \"Count\" FROM \"");
    r.append(table);
    r.append("\"");
    r
}

// --------------------------------------------------------------- results

pub struct ObjectInfoView {
    pub table: Seq<char>,
    pub package: Seq<char>,
}

pub open spec fn object_view(o: ObjectInfo) -> ObjectInfoView {
    ObjectInfoView { table: o.table@, package: o.package@ }
}

pub open spec fn objects_view(v: Seq<ObjectInfo>) -> Seq<ObjectInfoView> {
    v.map_values(|o: ObjectInfo| object_view(o))
}

pub open spec fn record_objects(data: Seq<Seq<Seq<char>>>, table_at: int, package_at: int) -> Seq<ObjectInfoView>
    decreases data.len(),
{
    if data.len() == 0 {
        seq![]
    } else {
        let rest = record_objects(data.drop_last(), table_at, package_at);
        let table = cell_or_empty(data.last(), table_at);
        if table.len() == 0 {
            rest
        } else {
            rest.push(ObjectInfoView { table, package: cell_or_empty(data.last(), package_at) })
        }
    }
}

/// The objects of a search result: records without a table name are dropped;
/// an error when the `Table` or `Package` column is missing.
pub open spec fn spec_objects_from_result(columns: Seq<Seq<char>>, data: Seq<Seq<Seq<char>>>) -> Result<Seq<ObjectInfoView>, Seq<char>> {
    let table_at = position_of(columns, "Table"@);
    let package_at = position_of(columns, "Package"@);
    if table_at < 0 || package_at < 0 {
        Err("The object search returned an unexpected shape."@)
    } else {
        Ok(record_objects(data, table_at, package_at))
    }
}

fn cell_copy(record: &Vec<String>, at: usize) -> (r: String)
    ensures
        r@ == cell_or_empty(views(record@), at as int),
{
    if at < record.len() {
        record[at].clone()
    } else {
        String::new()
    }
}

pub fn objects_from_result(columns: &Vec<String>, data: &Vec<Vec<String>>) -> (r: Result<Vec<ObjectInfo>, String>)
    ensures
        match r {
            Ok(v) => spec_objects_from_result(views(columns@), table_view(data@)) == Ok::<Seq<ObjectInfoView>, Seq<char>>(
                objects_view(v@),
            ),
            Err(e) => spec_objects_from_result(views(columns@), table_view(data@)) == Err::<Seq<ObjectInfoView>, Seq<char>>(
                e@,
            ),
        },
{
    let (table_at, package_at) = match (position(columns, "Table"), position(columns, "Package")) {
        (Some(t), Some(p)) => (t, p),
        _ => return Err(owned("The object search returned an unexpected shape.")),
    };
    let ghost d = table_view(data@);
    let mut out: Vec<ObjectInfo> = Vec::new();
    let mut i: usize = 0;
    while i < data.len()
        invariant
            i <= data.len(),
            d == table_view(data@),
            objects_view(out@) == record_objects(d.take(i as int), table_at as int, package_at as int),
        decreases data.len() - i,
    {
        proof {
            assert(d.take(i + 1).drop_last() =~= d.take(i as int));
            assert(d.take(i + 1).last() == views(data@[i as int]@));
        }
        let table = cell_copy(&data[i], table_at);
        if table.as_str().unicode_len() > 0 {
            let package = cell_copy(&data[i], package_at);
            let o = ObjectInfo { table, package };
            let ghost before = objects_view(out@);
            out.push(o);
            assert(objects_view(out@) =~= before.push(object_view(o)));
        }
        i = i + 1;
    }
    assert(d.take(data.len() as int) =~= d);
    Ok(out)
}

pub struct ObjectColumnView {
    pub name: Seq<char>,
    pub data_type: Seq<char>,
    pub nullable: bool,
}

pub open spec fn column_view(c: ObjectColumn) -> ObjectColumnView {
    ObjectColumnView { name: c.name@, data_type: c.data_type@, nullable: c.nullable }
}

pub open spec fn object_columns_view(v: Seq<ObjectColumn>) -> Seq<ObjectColumnView> {
    v.map_values(|c: ObjectColumn| column_view(c))
}

pub open spec fn record_columns(data: Seq<Seq<Seq<char>>>, name_at: int, type_at: int, nullable_at: int) -> Seq<ObjectColumnView>
    decreases data.len(),
{
    if data.len() == 0 {
        seq![]
    } else {
        let rest = record_columns(data.drop_last(), name_at, type_at, nullable_at);
        let name = cell_or_empty(data.last(), name_at);
        if name.len() == 0 {
            rest
        } else {
            rest.push(
                ObjectColumnView {
                    name,
                    data_type: cell_or_empty(data.last(), type_at),
                    nullable: match get_view(data.last(), nullable_at) {
                        Some(v) => eq_ignore_case(v, "YES"@),
                        None => false,
                    },
                },
            )
        }
    }
}

/// The columns of a column query's result: records without a name are
/// dropped, `Nullable` is `YES` in any case; an error when a column of the
/// result is missing.
pub open spec fn spec_columns_from_result(columns: Seq<Seq<char>>, data: Seq<Seq<Seq<char>>>) -> Result<Seq<ObjectColumnView>, Seq<char>> {
    let name_at = position_of(columns, "Column"@);
    let type_at = position_of(columns, "Type"@);
    let nullable_at = position_of(columns, "Nullable"@);
    if name_at < 0 || type_at < 0 || nullable_at < 0 {
        Err("The column query returned an unexpected shape."@)
    } else {
        Ok(record_columns(data, name_at, type_at, nullable_at))
    }
}

pub fn columns_from_result(columns: &Vec<String>, data: &Vec<Vec<String>>) -> (r: Result<Vec<ObjectColumn>, String>)
    ensures
        match r {
            Ok(v) => spec_columns_from_result(views(columns@), table_view(data@)) == Ok::<Seq<ObjectColumnView>, Seq<char>>(
                object_columns_view(v@),
            ),
            Err(e) => spec_columns_from_result(views(columns@), table_view(data@)) == Err::<Seq<ObjectColumnView>, Seq<char>>(
                e@,
            ),
        },
{
    let (name_at, type_at, nullable_at) = match (
        position(columns, "Column"),
        position(columns, "Type"),
        position(columns, "Nullable"),
    ) {
        (Some(n), Some(t), Some(u)) => (n, t, u),
        _ => return Err(owned("The column query returned an unexpected shape.")),
    };
    let ghost d = table_view(data@);
    let mut out: Vec<ObjectColumn> = Vec::new();
    let mut i: usize = 0;
    while i < data.len()
        invariant
            i <= data.len(),
            d == table_view(data@),
            object_columns_view(out@) == record_columns(
                d.take(i as int),
                name_at as int,
                type_at as int,
                nullable_at as int,
            ),
        decreases data.len() - i,
    {
        proof {
            assert(d.take(i + 1).drop_last() =~= d.take(i as int));
            assert(d.take(i + 1).last() == views(data@[i as int]@));
        }
        let record = &data[i];
        let name = cell_copy(record, name_at);
        if name.as_str().unicode_len() > 0 {
            let data_type = cell_copy(record, type_at);
            let nullable = if nullable_at < record.len() {
                eq_ignore_ascii_case(record[nullable_at].as_str(), "YES")
            } else {
                false
            };
            let c = ObjectColumn { name, data_type, nullable };
            let ghost before = object_columns_view(out@);
            out.push(c);
            assert(object_columns_view(out@) =~= before.push(column_view(c)));
        }
        i = i + 1;
    }
    assert(d.take(data.len() as int) =~= d);
    Ok(out)
}

pub struct ObjectDependencyView {
    pub column: Seq<char>,
    pub references_table: Seq<char>,
}

pub open spec fn dependency_view(d: ObjectDependency) -> ObjectDependencyView {
    ObjectDependencyView { column: d.column@, references_table: d.references_table@ }
}

pub open spec fn dependencies_view(v: Seq<ObjectDependency>) -> Seq<ObjectDependencyView> {
    v.map_values(|d: ObjectDependency| dependency_view(d))
}

pub open spec fn record_dependencies(data: Seq<Seq<Seq<char>>>, column_at: int, ref_at: int, table: Seq<char>) -> Seq<ObjectDependencyView>
    decreases data.len(),
{
    if data.len() == 0 {
        seq![]
    } else {
        let rest = record_dependencies(data.drop_last(), column_at, ref_at, table);
        let column = cell_or_empty(data.last(), column_at);
        let target = cell_or_empty(data.last(), ref_at);
        if column.len() == 0 || target.len() == 0 || target == table {
            rest
        } else {
            rest.push(ObjectDependencyView { column, references_table: target })
        }
    }
}

/// The dependencies of `table` from a foreign-key query's result: records
/// missing a column or target are dropped, and so are references back to the
/// table itself; an error when a column of the result is missing.
pub open spec fn spec_dependencies_from_result(table: Seq<char>, columns: Seq<Seq<char>>, data: Seq<Seq<Seq<char>>>) -> Result<Seq<ObjectDependencyView>, Seq<char>> {
    let column_at = position_of(columns, "Column"@);
    let ref_at = position_of(columns, "RefTable"@);
    if column_at < 0 || ref_at < 0 {
        Err("The dependency query returned an unexpected shape."@)
    } else {
        Ok(record_dependencies(data, column_at, ref_at, table))
    }
}

pub fn dependencies_from_result(table: &str, columns: &Vec<String>, data: &Vec<Vec<String>>) -> (r: Result<
    Vec<ObjectDependency>,
    String,
>)
    ensures
        match r {
            Ok(v) => spec_dependencies_from_result(table@, views(columns@), table_view(data@)) == Ok::<
                Seq<ObjectDependencyView>,
                Seq<char>,
            >(dependencies_view(v@)),
            Err(e) => spec_dependencies_from_result(table@, views(columns@), table_view(data@)) == Err::<
                Seq<ObjectDependencyView>,
                Seq<char>,
            >(e@),
        },
{
    let (column_at, ref_at) = match (position(columns, "Column"), position(columns, "RefTable")) {
        (Some(c), Some(r)) => (c, r),
        _ => return Err(owned("The dependency query returned an unexpected shape.")),
    };
    let ghost d = table_view(data@);
    let mut out: Vec<ObjectDependency> = Vec::new();
    let mut i: usize = 0;
    while i < data.len()
        invariant
            i <= data.len(),
            d == table_view(data@),
            dependencies_view(out@) == record_dependencies(d.take(i as int), column_at as int, ref_at as int, table@),
        decreases data.len() - i,
    {
        proof {
            assert(d.take(i + 1).drop_last() =~= d.take(i as int));
            assert(d.take(i + 1).last() == views(data@[i as int]@));
        }
        let column = cell_copy(&data[i], column_at);
        let target = cell_copy(&data[i], ref_at);
        if column.as_str().unicode_len() > 0 && target.as_str().unicode_len() > 0 && !str_eq(
            target.as_str(),
            table,
        ) {
            let dep = ObjectDependency { column, references_table: target };
            let ghost before = dependencies_view(out@);
            out.push(dep);
            assert(dependencies_view(out@) =~= before.push(dependency_view(dep)));
        }
        i = i + 1;
    }
    assert(d.take(data.len() as int) =~= d);
    Ok(out)
}

/// `str::parse::<i64>`: an optional sign, then one or more ASCII digits whose
/// value fits.
pub open spec fn spec_parse_i64(s: Seq<char>) -> Option<int> {
    if s.len() > 0 && s[0] == '-' {
        let d = s.drop_first();
        if d.len() > 0 && all_digits(d) && digits_value(d) <= 0x8000_0000_0000_0000 {
            Some(-(digits_value(d) as int))
        } else {
            None
        }
    } else {
        match spec_parse_unsigned(s, i64::MAX as nat) {
            Some(n) => Some(n as int),
            None => None,
        }
    }
}

pub fn parse_i64(s: &str) -> (r: Option<i64>)
    ensures
        match r {
            Some(v) => spec_parse_i64(s@) == Some(v as int),
            None => spec_parse_i64(s@) is None,
        },
{
    let v = chars_of(s);
    if v.len() > 0 && v[0] == '-' {
        let body = crate::text::string_of_range(&v, 1, v.len());
        proof {
            assert(body@ =~= s@.drop_first());
        }
        let bc = chars_of(body.as_str());
        if bc.len() > 0 && bc[0] == '+' {
            return None;
        }
        proof {
            assert(unsigned_body(body@) == body@);
        }
        match parse_unsigned(body.as_str(), 0x8000_0000_0000_0000u64) {
            Some(n) => {
                if n == 0x8000_0000_0000_0000u64 {
                    Some(i64::MIN)
                } else {
                    Some(-(n as i64))
                }
            },
            None => None,
        }
    } else {
        match parse_unsigned(s, i64::MAX as u64) {
            Some(n) => Some(n as i64),
            None => None,
        }
    }
}

/// The row count of a count query's result: the trimmed first cell of the
/// first record under `Count`, 0 when there is none or it is not an `i64`; an
/// error when the `Count` column is missing.
pub open spec fn spec_row_count(columns: Seq<Seq<char>>, data: Seq<Seq<Seq<char>>>) -> Result<int, Seq<char>> {
    let at = position_of(columns, "Count"@);
    if at < 0 {
        Err("No count returned."@)
    } else if data.len() == 0 {
        Ok(0)
    } else {
        match get_view(data[0], at) {
            Some(v) => match spec_parse_i64(spec_trim(v)) {
                Some(n) => Ok(n),
                None => Ok(0),
            },
            None => Ok(0),
        }
    }
}

pub fn row_count(columns: &Vec<String>, data: &Vec<Vec<String>>) -> (r: Result<i64, String>)
    ensures
        match r {
            Ok(n) => spec_row_count(views(columns@), table_view(data@)) == Ok::<int, Seq<char>>(n as int),
            Err(e) => spec_row_count(views(columns@), table_view(data@)) == Err::<int, Seq<char>>(e@),
        },
{
    let at = match position(columns, "Count") {
        Some(at) => at,
        None => return Err(owned("No count returned.")),
    };
    if data.len() == 0 {
        return Ok(0);
    }
    let first = &data[0];
    proof {
        assert(table_view(data@)[0] == views(first@));
    }
    if at >= first.len() {
        return Ok(0);
    }
    let t = trim(first[at].as_str());
    match parse_i64(t.as_str()) {
        Some(n) => Ok(n),
        None => Ok(0),
    }
}

} // verus!
