//! GUID-preserving marketing-content migration: the decisions and the SQL.
//!
//! Rows travel over Creatio OData (the caller's business); protected campaign
//! flow schemas are inserted through SQL built here, byte payloads written as
//! hex. Every id and text spliced into SQL is an escaped literal.
use vstd::prelude::*;
use crate::json::{
    as_bool, as_text, get, get_either, spec_as_bool, spec_as_str, spec_get, spec_get_either, spec_texts, text_of,
    text_or_empty, JsonValue,
};
use crate::refdata::{escape_literal, spec_escape};
use crate::text::{
    ascii_lower_seq, chars_of, contains, string_of_range, contains_sub, eq_ignore_ascii_case, eq_ignore_case, join,
    owned, seq_lt, spec_decimal, spec_join, str_eq, str_lt, string_from_chars, to_ascii_lower, views,
};

verus! {

// ----------------------------------------------------------------- reports

#[derive(Clone, Debug, PartialEq, Eq)]
pub struct ContentGap {
    pub entity: String,
    pub source_count: usize,
    pub target_count: usize,
    pub missing_count: usize,
    pub notes: Vec<String>,
}

#[derive(Clone, Debug, PartialEq, Eq)]
pub struct ContentGapReport {
    pub source_env: String,
    pub target_env: String,
    pub entities: Vec<ContentGap>,
    pub broken_flows: Vec<String>,
    pub local_image_references: Vec<String>,
}

#[derive(Clone, Debug, PartialEq, Eq)]
pub struct RowFailure {
    pub id: String,
    pub name: String,
    pub status: u16,
    pub error: String,
}

#[derive(Clone, Debug, PartialEq, Eq)]
pub struct EntityMigrateResult {
    pub entity: String,
    pub source_count: usize,
    pub inserted: usize,
    pub skipped: usize,
    pub failures: Vec<RowFailure>,
}

#[derive(Clone, Debug, PartialEq, Eq)]
pub struct ContentMigrateReport {
    pub source_env: String,
    pub target_env: String,
    pub rollback_path: String,
    pub entities: Vec<EntityMigrateResult>,
}

#[derive(Clone, Debug, PartialEq, Eq)]
pub struct FlowMigrateReport {
    pub source_env: String,
    pub target_env: String,
    pub schemas_inserted: usize,
    pub schemas_skipped: usize,
    pub campaigns_repointed: usize,
    pub metadata_bytes: usize,
    pub rollback_path: String,
    pub entities: Vec<EntityMigrateResult>,
    pub failures: Vec<RowFailure>,
}

/// Two environments to compare or migrate between: both named, and different.
pub open spec fn spec_check_pair(source: Seq<char>, target: Seq<char>) -> Result<(), Seq<char>> {
    if crate::text::spec_trim(source).len() == 0 || crate::text::spec_trim(target).len() == 0 || source == target {
        Err("Choose two different environments."@)
    } else {
        Ok(())
    }
}

pub fn check_pair(source: &str, target: &str) -> (r: Result<(), String>)
    ensures
        match r {
            Ok(_) => spec_check_pair(source@, target@) is Ok,
            Err(e) => spec_check_pair(source@, target@) == Err::<(), Seq<char>>(e@),
        },
{
    let s = crate::text::trim(source);
    let t = crate::text::trim(target);
    if s.as_str().unicode_len() == 0 || t.as_str().unicode_len() == 0 || str_eq(source, target) {
        return Err(owned("Choose two different environments."));
    }
    Ok(())
}

// ---------------------------------------------------------------- ordering

/// The content entities that can be migrated as rows, in dependency order.
pub open spec fn base_entities() -> Seq<Seq<char>> {
    seq!["BfEmailTemplate"@, "DCTemplate"@, "DCReplica"@, "Campaign"@, "BulkEmail"@]
}

fn base_entity(i: usize) -> (r: &'static str)
    requires
        i < 5,
    ensures
        r@ == base_entities()[i as int],
{
    if i == 0 {
        "BfEmailTemplate"
    } else if i == 1 {
        "DCTemplate"
    } else if i == 2 {
        "DCReplica"
    } else if i == 3 {
        "Campaign"
    } else {
        "BulkEmail"
    }
}

/// The selected entities in dependency order, each once. An error names an
/// unsupported selected entity when there is one.
pub open spec fn order_of(selected: Seq<Seq<char>>) -> Seq<Seq<char>> {
    base_entities().filter(|e: Seq<char>| selected.contains(e))
}

/// Content is migrated in the fixed dependency order `BfEmailTemplate`,
/// `DCTemplate`, `DCReplica`, `Campaign`, `BulkEmail`, restricted to what was
/// selected: in particular templates come before the replicas built on them.
pub proof fn lemma_dependency_order_is_canonical(selected: Seq<Seq<char>>)
    ensures
        order_of(selected) == seq!["BfEmailTemplate"@, "DCTemplate"@, "DCReplica"@, "Campaign"@, "BulkEmail"@].filter(
            |e: Seq<char>| selected.contains(e),
        ),
        selected.contains("DCTemplate"@) && selected.contains("DCReplica"@) ==> exists|i: int, j: int|
            0 <= i < j < order_of(selected).len() && order_of(selected)[i] == "DCTemplate"@
                && order_of(selected)[j] == "DCReplica"@,
{
    let canon = seq!["BfEmailTemplate"@, "DCTemplate"@, "DCReplica"@, "Campaign"@, "BulkEmail"@];
    assert(base_entities() =~= canon);
    if selected.contains("DCTemplate"@) && selected.contains("DCReplica"@) {
        let f = |e: Seq<char>| selected.contains(e);
        reveal_with_fuel(Seq::filter, 6);
        assert(canon.take(1).filter(f).len() <= 1);
        let a = canon.take(2).filter(f);
        let b = canon.take(3).filter(f);
        assert(canon.take(2).drop_last() =~= canon.take(1));
        assert(canon.take(3).drop_last() =~= canon.take(2));
        assert(a == canon.take(1).filter(f).push("DCTemplate"@));
        assert(b == a.push("DCReplica"@));
        let i = a.len() - 1;
        let j = b.len() - 1;
        assert(b[i] == "DCTemplate"@);
        assert(b[j] == "DCReplica"@);
        lemma_filter_prefix(canon, f, 3);
        assert(order_of(selected)[i] == "DCTemplate"@);
        assert(order_of(selected)[j] == "DCReplica"@);
    }
}

/// Filtering a prefix gives a prefix of the filtered whole.
proof fn lemma_filter_prefix(s: Seq<Seq<char>>, f: spec_fn(Seq<char>) -> bool, n: int)
    requires
        0 <= n <= s.len(),
    ensures
        s.take(n).filter(f).len() <= s.filter(f).len(),
        forall|k: int| 0 <= k < s.take(n).filter(f).len() ==> s.filter(f)[k] == #[trigger] s.take(n).filter(f)[k],
    decreases s.len() - n,
{
    if n < s.len() {
        lemma_filter_prefix(s, f, n + 1);
        reveal(Seq::filter);
        assert(s.take(n + 1).drop_last() =~= s.take(n));
        let short = s.take(n).filter(f);
        let long = s.take(n + 1).filter(f);
        assert(long == if f(s.take(n + 1).last()) { short.push(s.take(n + 1).last()) } else { short });
        assert forall|k: int| 0 <= k < short.len() implies s.filter(f)[k] == #[trigger] short[k] by {
            assert(long[k] == short[k]);
            assert(s.filter(f)[k] == long[k]);
        }
    } else {
        assert(s.take(n) =~= s);
    }
}

pub fn dependency_order(selected: &Vec<String>) -> (r: Result<Vec<String>, String>)
    ensures
        match r {
            Ok(order) => (forall|k: int| 0 <= k < selected.len() ==> base_entities().contains(#[trigger] selected@[k]@))
                && views(order@) == order_of(views(selected@)),
            Err(e) => exists|k: int|
                0 <= k < selected.len() && !base_entities().contains(#[trigger] selected@[k]@) && e@
                    == "Unsupported marketing content entity: "@ + selected@[k]@,
        },
{
    let base: Vec<String> = vec![
        owned(base_entity(0)),
        owned(base_entity(1)),
        owned(base_entity(2)),
        owned(base_entity(3)),
        owned(base_entity(4)),
    ];
    assert(views(base@) =~= base_entities());
    let mut k: usize = 0;
    while k < selected.len()
        invariant
            k <= selected.len(),
            views(base@) == base_entities(),
            forall|j: int| 0 <= j < k ==> base_entities().contains(#[trigger] selected@[j]@),
        decreases selected.len() - k,
    {
        let found = crate::text::position(&base, selected[k].as_str());
        proof {
            crate::text::lemma_position_found(views(base@), selected@[k as int]@);
        }
        if found.is_none() {
            let mut e = owned("Unsupported marketing content entity: ");
            e.append(selected[k].as_str());
            return Err(e);
        }
        k = k + 1;
    }
    let ghost sv = views(selected@);
    let mut order: Vec<String> = Vec::new();
    let mut i: usize = 0;
    proof {
        reveal(Seq::filter);
        assert(base_entities().take(0).filter(|e: Seq<char>| sv.contains(e)) =~= Seq::<Seq<char>>::empty());
    }
    while i < 5
        invariant
            i <= 5,
            base.len() == 5,
            sv == views(selected@),
            views(base@) == base_entities(),
            views(order@) == base_entities().take(i as int).filter(|e: Seq<char>| sv.contains(e)),
        decreases 5 - i,
    {
        let found = crate::text::position(selected, base[i].as_str());
        proof {
            crate::text::lemma_position_found(sv, base@[i as int]@);
            reveal(Seq::filter);
            assert(base_entities().take(i + 1).drop_last() =~= base_entities().take(i as int));
            assert(views(base@)[i as int] == base@[i as int]@);
        }
        if found.is_some() {
            let ghost before = views(order@);
            order.push(base[i].clone());
            assert(views(order@) =~= before.push(base@[i as int]@));
        }
        i = i + 1;
    }
    assert(base_entities().take(5) =~= base_entities());
    Ok(order)
}

// -------------------------------------------------------------------- SQL

/// The lowercase hex digit of a value below 16.
pub open spec fn hex_digit(n: nat) -> char {
    if n < 10 {
        (48 + n) as char
    } else {
        (87 + n) as char
    }
}

/// Bytes as lowercase hex, two digits each.
pub open spec fn spec_hex(bytes: Seq<u8>) -> Seq<char>
    decreases bytes.len(),
{
    if bytes.len() == 0 {
        seq![]
    } else {
        spec_hex(bytes.drop_last()) + seq![hex_digit((bytes.last() / 16) as nat), hex_digit((bytes.last() % 16) as nat)]
    }
}

fn hex_char(n: u8) -> (c: char)
    requires
        n < 16,
    ensures
        c == hex_digit(n as nat),
{
    if n < 10 {
        crate::text::char_from_ascii((48 + n) as u32)
    } else {
        crate::text::char_from_ascii((87 + n) as u32)
    }
}

pub fn hex(bytes: &[u8]) -> (r: String)
    ensures
        r@ == spec_hex(bytes@),
{
    let mut out: Vec<char> = Vec::new();
    let mut i: usize = 0;
    while i < bytes.len()
        invariant
            i <= bytes.len(),
            out@ == spec_hex(bytes@.take(i as int)),
        decreases bytes.len() - i,
    {
        proof {
            assert(bytes@.take(i + 1).drop_last() =~= bytes@.take(i as int));
        }
        let b = bytes[i];
        out.push(hex_char(b / 16));
        out.push(hex_char(b % 16));
        i = i + 1;
        assert(out@ =~= spec_hex(bytes@.take(i as int)));
    }
    assert(bytes@.take(bytes.len() as int) =~= bytes@);
    string_from_chars(out.as_slice())
}

/// The nil Guid, which Creatio writes for "no reference".
pub open spec fn zero_guid() -> Seq<char> {
    "00000000-0000-0000-0000-000000000000"@
}

/// A Guid as SQL: a quoted literal, or `NULL` when absent, empty or nil.
pub open spec fn spec_sql_guid(value: Option<Seq<char>>) -> Seq<char> {
    match value {
        Some(v) => if v.len() > 0 && !eq_ignore_case(v, zero_guid()) {
            "'"@ + spec_escape(v) + "'"@
        } else {
            "NULL"@
        },
        None => "NULL"@,
    }
}

pub fn sql_guid(value: Option<&str>) -> (r: String)
    ensures
        r@ == spec_sql_guid(match value {
            Some(v) => Some(v@),
            None => None,
        }),
{
    match value {
        Some(v) => {
            if v.unicode_len() > 0 && !eq_ignore_ascii_case(v, "00000000-0000-0000-0000-000000000000") {
                let e = escape_literal(v);
                let mut r = owned("'");
                r.append(e.as_str());
                r.append("'");
                r
            } else {
                owned("NULL")
            }
        },
        None => owned("NULL"),
    }
}

pub open spec fn spec_bool_sql(value: Option<bool>) -> Seq<char> {
    if value == Some(true) {
        "true"@
    } else {
        "false"@
    }
}

pub fn bool_sql(value: Option<bool>) -> (r: &'static str)
    ensures
        r@ == spec_bool_sql(value),
{
    match value {
        Some(true) => "true",
        _ => "false",
    }
}

/// The text fields of a campaign flow's `SysSchema` row (absent ones read as
/// empty).
#[derive(Clone, Debug, PartialEq, Eq)]
pub struct FlowSchema {
    pub id: String,
    pub uid: String,
    pub name: String,
    pub caption: String,
    pub sys_package_id: String,
    pub description: String,
    pub checksum: String,
    pub is_net_standard: Option<bool>,
}

pub open spec fn first_chars(s: Seq<char>, n: nat) -> Seq<char> {
    if s.len() <= n {
        s
    } else {
        s.take(n as int)
    }
}

/// The insert of one flow schema with its payloads as hex, owned by the
/// target's supervisor; a schema already present is left alone.
pub open spec fn spec_flow_insert_sql(schema: FlowSchema, metadata: Seq<u8>, descriptor: Seq<u8>, supervisor: Seq<char>) -> Seq<char> {
    "INSERT INTO \"SysSchema\" (\"Id\",\"UId\",\"Name\",\"Caption\",\"ManagerName\",\"SysPackageId\",\"IsLocked\",\"IsChanged\",\"ExtendParent\",\"Description\",\"Checksum\",\"IsNetStandard\",\"CreatedById\",\"ModifiedById\",\"MetaData\",\"Descriptor\",\"MetaDataModifiedOn\",\"StructureModifiedOn\") VALUES ('"@
        + spec_escape(schema.id@) + "','"@ + spec_escape(schema.uid@) + "','"@ + spec_escape(schema.name@)
        + "','"@ + spec_escape(first_chars(schema.caption@, 250)) + "','CampaignSchemaManager','"@
        + spec_escape(schema.sys_package_id@) + "',false,true,false,'"@ + spec_escape(schema.description@)
        + "','"@ + spec_escape(schema.checksum@) + "',"@ + (if schema.is_net_standard == Some(false) {
        "false"@
    } else {
        "true"@
    }) + ",'"@ + supervisor + "','"@ + supervisor + "',decode('"@ + spec_hex(metadata) + "','hex'),decode('"@
        + spec_hex(descriptor)
        + "','hex'),timezone('utc'::text,CURRENT_TIMESTAMP),timezone('utc'::text,CURRENT_TIMESTAMP)) ON CONFLICT (\"Id\") DO NOTHING;"@
}

fn first_chars_of(s: &str, n: usize) -> (r: String)
    ensures
        r@ == first_chars(s@, n as nat),
{
    let v = chars_of(s);
    if v.len() <= n {
        owned(s)
    } else {
        let r = crate::text::string_of_range(&v, 0, n);
        assert(v@.subrange(0, n as int) =~= v@.take(n as int));
        r
    }
}

pub fn flow_insert_sql(schema: &FlowSchema, metadata: &[u8], descriptor: &[u8], supervisor: &str) -> (r: String)
    ensures
        r@ == spec_flow_insert_sql(*schema, metadata@, descriptor@, supervisor@),
{
    let caption = first_chars_of(schema.caption.as_str(), 250);
    let mut r = owned(
        "INSERT INTO \"SysSchema\" (\"Id\",\"UId\",\"Name\",\"Caption\",\"ManagerName\",\"SysPackageId\",\"IsLocked\",\"IsChanged\",\"ExtendParent\",\"Description\",\"Checksum\",\"IsNetStandard\",\"CreatedById\",\"ModifiedById\",\"MetaData\",\"Descriptor\",\"MetaDataModifiedOn\",\"StructureModifiedOn\") VALUES ('",
    );
    let t = escape_literal(schema.id.as_str());
    r.append(t.as_str());
    r.append("','");
    let t = escape_literal(schema.uid.as_str());
    r.append(t.as_str());
    r.append("','");
    let t = escape_literal(schema.name.as_str());
    r.append(t.as_str());
    r.append("','");
    let t = escape_literal(caption.as_str());
    r.append(t.as_str());
    r.append("','CampaignSchemaManager','");
    let t = escape_literal(schema.sys_package_id.as_str());
    r.append(t.as_str());
    r.append("',false,true,false,'");
    let t = escape_literal(schema.description.as_str());
    r.append(t.as_str());
    r.append("','");
    let t = escape_literal(schema.checksum.as_str());
    r.append(t.as_str());
    r.append("',");
    match schema.is_net_standard {
        Some(false) => r.append("false"),
        _ => r.append("true"),
    }
    r.append(",'");
    r.append(supervisor);
    r.append("','");
    r.append(supervisor);
    r.append("',decode('");
    let h = hex(metadata);
    r.append(h.as_str());
    r.append("','hex'),decode('");
    let h = hex(descriptor);
    r.append(h.as_str());
    r.append(
        "','hex'),timezone('utc'::text,CURRENT_TIMESTAMP),timezone('utc'::text,CURRENT_TIMESTAMP)) ON CONFLICT (\"Id\") DO NOTHING;",
    );
    r
}

/// The fields of a `CampaignItem` row that OData cannot insert (an empty
/// name): absent texts read as empty.
#[derive(Clone, Debug, PartialEq, Eq)]
pub struct CampaignItemRow {
    pub id: String,
    pub campaign_id: Option<String>,
    pub name: String,
    pub is_deleted: Option<bool>,
    pub element_type: String,
    pub record_id: Option<String>,
    pub sys_schema_uid: Option<String>,
}

pub open spec fn opt_text(o: Option<String>) -> Option<Seq<char>> {
    match o {
        Some(s) => Some(s@),
        None => None,
    }
}

pub open spec fn spec_campaign_item_insert(row: CampaignItemRow, supervisor: Seq<char>) -> Seq<char> {
    "INSERT INTO \"CampaignItem\" (\"Id\",\"CampaignId\",\"Name\",\"IsDeleted\",\"CampaignElementType\",\"RecordId\",\"SysSchemaUId\",\"CreatedById\",\"ModifiedById\") VALUES ('"@
        + spec_escape(row.id@) + "',"@ + spec_sql_guid(opt_text(row.campaign_id)) + ",'"@ + spec_escape(row.name@)
        + "',"@ + spec_bool_sql(row.is_deleted) + ",'"@ + spec_escape(row.element_type@) + "',"@
        + spec_sql_guid(opt_text(row.record_id)) + ","@ + spec_sql_guid(opt_text(row.sys_schema_uid)) + ",'"@
        + supervisor + "','"@ + supervisor + "') ON CONFLICT (\"Id\") DO NOTHING;"@
}

/// The inserts of campaign items, one per line.
pub open spec fn spec_campaign_item_sql(rows: Seq<CampaignItemRow>, supervisor: Seq<char>) -> Seq<char> {
    spec_join(rows.map_values(|r: CampaignItemRow| spec_campaign_item_insert(r, supervisor)), "\n"@)
}

fn opt_str(o: &Option<String>) -> (r: Option<&str>)
    ensures
        match r {
            Some(s) => opt_text(*o) == Some(s@),
            None => o is None,
        },
{
    match o {
        Some(s) => Some(s.as_str()),
        None => None,
    }
}

fn campaign_item_insert(row: &CampaignItemRow, supervisor: &str) -> (r: String)
    ensures
        r@ == spec_campaign_item_insert(*row, supervisor@),
{
    let mut r = owned(
        "INSERT INTO \"CampaignItem\" (\"Id\",\"CampaignId\",\"Name\",\"IsDeleted\",\"CampaignElementType\",\"RecordId\",\"SysSchemaUId\",\"CreatedById\",\"ModifiedById\") VALUES ('",
    );
    let t = escape_literal(row.id.as_str());
    r.append(t.as_str());
    r.append("',");
    let g = sql_guid(opt_str(&row.campaign_id));
    r.append(g.as_str());
    r.append(",'");
    let t = escape_literal(row.name.as_str());
    r.append(t.as_str());
    r.append("',");
    r.append(bool_sql(row.is_deleted));
    r.append(",'");
    let t = escape_literal(row.element_type.as_str());
    r.append(t.as_str());
    r.append("',");
    let g = sql_guid(opt_str(&row.record_id));
    r.append(g.as_str());
    r.append(",");
    let g = sql_guid(opt_str(&row.sys_schema_uid));
    r.append(g.as_str());
    r.append(",'");
    r.append(supervisor);
    r.append("','");
    r.append(supervisor);
    r.append("') ON CONFLICT (\"Id\") DO NOTHING;");
    r
}

pub fn campaign_item_sql(rows: &[CampaignItemRow], supervisor: &str) -> (r: String)
    ensures
        r@ == spec_campaign_item_sql(rows@, supervisor@),
{
    let mut lines: Vec<String> = Vec::new();
    let mut i: usize = 0;
    while i < rows.len()
        invariant
            i <= rows.len(),
            views(lines@) == rows@.take(i as int).map_values(
                |r: CampaignItemRow| spec_campaign_item_insert(r, supervisor@),
            ),
        decreases rows.len() - i,
    {
        let line = campaign_item_insert(&rows[i], supervisor);
        let ghost before = views(lines@);
        let ghost lv = line@;
        lines.push(line);
        assert(views(lines@) =~= before.push(lv));
        assert(rows@.take(i + 1) =~= rows@.take(i as int).push(rows@[i as int]));
        i = i + 1;
        assert(views(lines@) =~= rows@.take(i as int).map_values(
            |r: CampaignItemRow| spec_campaign_item_insert(r, supervisor@),
        ));
    }
    assert(rows@.take(rows.len() as int) =~= rows@);
    join(&lines, "\n")
}

/// The transaction that adds the campaign items posted without a name: the
/// inserts between `BEGIN;` and `COMMIT;`.
pub open spec fn spec_campaign_items_script(rows: Seq<CampaignItemRow>, supervisor: Seq<char>) -> Seq<char> {
    "BEGIN;\n"@ + spec_campaign_item_sql(rows, supervisor) + "\nCOMMIT;"@
}

pub fn campaign_items_script(rows: &[CampaignItemRow], supervisor: &str) -> (r: String)
    ensures
        r@ == spec_campaign_items_script(rows@, supervisor@),
{
    let mut r = owned("BEGIN;\n");
    let body = campaign_item_sql(rows, supervisor);
    r.append(body.as_str());
    r.append("\nCOMMIT;");
    r
}

/// Each flow schema insert on a line of its own.
pub open spec fn insert_lines(inserts: Seq<Seq<char>>) -> Seq<char>
    decreases inserts.len(),
{
    if inserts.len() == 0 {
        seq![]
    } else {
        insert_lines(inserts.drop_last()) + inserts.last() + "\n"@
    }
}

/// The transaction that adds the missing flow schemas.
pub open spec fn spec_flow_schemas_script(inserts: Seq<Seq<char>>) -> Seq<char> {
    "BEGIN;\n"@ + insert_lines(inserts) + "COMMIT;\n"@
}

pub fn flow_schemas_script(inserts: &Vec<String>) -> (r: String)
    ensures
        r@ == spec_flow_schemas_script(views(inserts@)),
{
    let ghost iv = views(inserts@);
    let mut body = String::new();
    let mut i: usize = 0;
    while i < inserts.len()
        invariant
            i <= inserts.len(),
            iv == views(inserts@),
            body@ == insert_lines(iv.take(i as int)),
        decreases inserts.len() - i,
    {
        proof {
            assert(iv.take(i + 1).drop_last() =~= iv.take(i as int));
            assert(iv.take(i + 1).last() == inserts@[i as int]@);
        }
        body.append(inserts[i].as_str());
        body.append("\n");
        i = i + 1;
    }
    assert(iv.take(inserts.len() as int) =~= iv);
    let mut r = owned("BEGIN;\n");
    r.append(body.as_str());
    r.append("COMMIT;\n");
    r
}

/// The fields left out when a row of `entity` is copied: a campaign's flow
/// link (the flow is migrated and relinked separately).
pub open spec fn spec_row_drop_fields(entity: Seq<char>) -> Seq<Seq<char>> {
    if entity == "Campaign"@ {
        seq!["CampaignSchemaUId"@]
    } else {
        seq![]
    }
}

pub fn row_drop_fields(entity: &str) -> (v: Vec<String>)
    ensures
        views(v@) == spec_row_drop_fields(entity@),
{
    if str_eq(entity, "Campaign") {
        let v = vec![owned("CampaignSchemaUId")];
        assert(views(v@) =~= spec_row_drop_fields(entity@));
        v
    } else {
        let v: Vec<String> = Vec::new();
        assert(views(v@) =~= spec_row_drop_fields(entity@));
        v
    }
}

/// A finalization step's result: it failed when it exited non-zero, or
/// exited 0 while its output reports a server error.
pub fn finalize_step(command: &str, code: i32, output: &str) -> (r: Result<(), String>)
    ensures
        (code == 0 && crate::diagnostics::spec_failure_despite_zero_exit(crate::text::spec_lines(output@)) is None)
            <==> r is Ok,
        match r {
            Ok(_) => true,
            Err(e) => e@ == spec_finalize_failure(command@, output@),
        },
{
    let ls = crate::text::lines(output);
    if code != 0 || crate::diagnostics::failure_despite_zero_exit(ls.as_slice()).is_some() {
        return Err(finalize_failure(command, output));
    }
    Ok(())
}

/// The target of a finalization, refused when blank.
pub fn finalize_target(target_env: &str) -> (r: Result<(), String>)
    ensures
        match r {
            Ok(_) => !crate::text::is_blank(target_env@),
            Err(e) => crate::text::is_blank(target_env@) && e@ == "Choose a target environment."@,
        },
{
    if crate::text::is_blank_str(target_env) {
        return Err(owned("Choose a target environment."));
    }
    Ok(())
}

/// How many rows one OData read asks for.
pub const PAGE_SIZE: usize = 100;

/// Where the next OData read starts after a page of `count` rows read at
/// `skip`: nowhere once a page comes back short.
pub fn next_skip(skip: usize, count: usize) -> (r: Option<usize>)
    requires
        skip + PAGE_SIZE <= usize::MAX,
    ensures
        count < PAGE_SIZE ==> r is None,
        count >= PAGE_SIZE ==> r == Some((skip + PAGE_SIZE) as usize),
{
    if count < PAGE_SIZE {
        None
    } else {
        Some(skip + PAGE_SIZE)
    }
}

// ------------------------------------------------------------- row sets

/// The lowercase ids of rows that have one.
pub open spec fn lower_ids(ids: Seq<Option<String>>) -> Set<Seq<char>> {
    Set::new(|x: Seq<char>| exists|k: int| 0 <= k < ids.len() && ids[k] is Some && x == ascii_lower_seq(#[trigger] ids[k].unwrap()@))
}

/// Whether a list is strictly ascending (so each element occurs once).
pub open spec fn strictly_sorted(v: Seq<Seq<char>>) -> bool {
    forall|i: int, j: int| 0 <= i < j < v.len() ==> seq_lt(#[trigger] v[i], #[trigger] v[j])
}

/// The ids of source rows missing from the target, compared ignoring ASCII
/// case: their lowercase forms, ascending, each once.
pub fn missing_ids(source: &Vec<Option<String>>, target: &Vec<Option<String>>) -> (out: Vec<String>)
    ensures
        strictly_sorted(views(out@)),
        views(out@).to_set() == lower_ids(source@).difference(lower_ids(target@)),
{
    let mut right: Vec<String> = Vec::new();
    let mut j: usize = 0;
    while j < target.len()
        invariant
            j <= target.len(),
            forall|x: Seq<char>| views(right@).contains(x) <==> exists|k: int|
                0 <= k < j && target@[k] is Some && x == ascii_lower_seq(#[trigger] target@[k].unwrap()@),
        decreases target.len() - j,
    {
        match &target[j] {
            Some(id) => {
                let ghost before = views(right@);
                right.push(to_ascii_lower(id.as_str()));
                proof {
                    assert(views(right@) =~= before.push(ascii_lower_seq(id@)));
                    assert forall|x: Seq<char>| views(right@).contains(x) <==> exists|k: int|
                        0 <= k < j + 1 && target@[k] is Some && x == ascii_lower_seq(#[trigger] target@[k].unwrap()@) by {
                        if views(right@).contains(x) && x != ascii_lower_seq(id@) {
                            let q = choose|q: int| 0 <= q < views(right@).len() && views(right@)[q] == x;
                            assert(before[q] == x);
                            assert(before.contains(x));
                        }
                        if x == ascii_lower_seq(id@) {
                            assert(views(right@)[views(right@).len() - 1] == x);
                        } else if exists|k: int| 0 <= k < j + 1 && target@[k] is Some && x == ascii_lower_seq(#[trigger] target@[k].unwrap()@) {
                            let k = choose|k: int| 0 <= k < j + 1 && target@[k] is Some && x == ascii_lower_seq(#[trigger] target@[k].unwrap()@);
                            assert(k < j);
                            assert(before.contains(x));
                            let q = choose|q: int| 0 <= q < before.len() && before[q] == x;
                            assert(views(right@)[q] == x);
                        }
                    }
                }
            },
            None => {
                proof {
                    assert forall|x: Seq<char>| views(right@).contains(x) <==> exists|k: int|
                        0 <= k < j + 1 && target@[k] is Some && x == ascii_lower_seq(#[trigger] target@[k].unwrap()@) by {
                        if exists|k: int| 0 <= k < j + 1 && target@[k] is Some && x == ascii_lower_seq(#[trigger] target@[k].unwrap()@) {
                            let k = choose|k: int| 0 <= k < j + 1 && target@[k] is Some && x == ascii_lower_seq(#[trigger] target@[k].unwrap()@);
                            assert(k < j);
                        }
                    }
                }
            },
        }
        j = j + 1;
    }
    let mut out: Vec<String> = Vec::new();
    let mut i: usize = 0;
    while i < source.len()
        invariant
            i <= source.len(),
            forall|x: Seq<char>| views(right@).contains(x) <==> lower_ids(target@).contains(x),
            strictly_sorted(views(out@)),
            forall|x: Seq<char>| views(out@).contains(x) <==> (exists|k: int|
                0 <= k < i && source@[k] is Some && x == ascii_lower_seq(#[trigger] source@[k].unwrap()@))
                && !lower_ids(target@).contains(x),
        decreases source.len() - i,
    {
        match &source[i] {
            Some(id) => {
                let lowered = to_ascii_lower(id.as_str());
                let in_right = crate::text::position(&right, lowered.as_str());
                proof {
                    crate::text::lemma_position_found(views(right@), lowered@);
                }
                if in_right.is_none() {
                    insert_sorted(&mut out, lowered);
                }
                proof {
                    assert forall|x: Seq<char>| views(out@).contains(x) <==> (exists|k: int|
                        0 <= k < i + 1 && source@[k] is Some && x == ascii_lower_seq(#[trigger] source@[k].unwrap()@))
                        && !lower_ids(target@).contains(x) by {
                        if exists|k: int| 0 <= k < i + 1 && source@[k] is Some && x == ascii_lower_seq(#[trigger] source@[k].unwrap()@) {
                            let k = choose|k: int| 0 <= k < i + 1 && source@[k] is Some && x == ascii_lower_seq(#[trigger] source@[k].unwrap()@);
                            if k == i {
                                assert(x == ascii_lower_seq(id@));
                            }
                        }
                    }
                }
            },
            None => {
                proof {
                    assert forall|x: Seq<char>| views(out@).contains(x) <==> (exists|k: int|
                        0 <= k < i + 1 && source@[k] is Some && x == ascii_lower_seq(#[trigger] source@[k].unwrap()@))
                        && !lower_ids(target@).contains(x) by {
                        if exists|k: int| 0 <= k < i + 1 && source@[k] is Some && x == ascii_lower_seq(#[trigger] source@[k].unwrap()@) {
                            let k = choose|k: int| 0 <= k < i + 1 && source@[k] is Some && x == ascii_lower_seq(#[trigger] source@[k].unwrap()@);
                            assert(k < i);
                        }
                    }
                }
            },
        }
        i = i + 1;
    }
    proof {
        assert(views(out@).to_set() =~= lower_ids(source@).difference(lower_ids(target@)));
    }
    out
}

/// Insert `x` into a strictly ascending list unless it is already there.
fn insert_sorted(v: &mut Vec<String>, x: String)
    requires
        strictly_sorted(views(old(v)@)),
    ensures
        strictly_sorted(views(final(v)@)),
        forall|y: Seq<char>| views(final(v)@).contains(y) <==> (views(old(v)@).contains(y) || y == x@),
{
    let mut p: usize = 0;
    while p < v.len() && str_lt(v[p].as_str(), x.as_str())
        invariant
            p <= v.len(),
            v@ == old(v)@,
            strictly_sorted(views(v@)),
            forall|k: int| 0 <= k < p ==> seq_lt(#[trigger] views(v@)[k], x@),
        decreases v.len() - p,
    {
        p = p + 1;
    }
    let ghost before = views(v@);
    if p < v.len() && str_eq(v[p].as_str(), x.as_str()) {
        proof {
            assert(before[p as int] == x@);
        }
        return;
    }
    proof {
        if p < before.len() {
            crate::text::lemma_seq_lt_trichotomy(before[p as int], x@);
        }
    }
    v.insert(p, x);
    proof {
        let after = views(v@);
        assert(after =~= before.take(p as int).push(x@) + before.skip(p as int));
        assert forall|i: int, j: int| 0 <= i < j < after.len() implies seq_lt(#[trigger] after[i], #[trigger] after[j]) by {
            if j < p {
                assert(after[i] == before[i] && after[j] == before[j]);
            } else if j == p {
                assert(after[i] == before[i]);
            } else if i < p {
                assert(after[i] == before[i] && after[j] == before[j - 1]);
                if j - 1 > p {
                    crate::text::lemma_seq_lt_transitive(x@, before[p as int], before[j - 1]);
                }
                crate::text::lemma_seq_lt_transitive(before[i], x@, before[j - 1]);
            } else if i == p {
                assert(after[j] == before[j - 1]);
                if j - 1 > p {
                    crate::text::lemma_seq_lt_transitive(x@, before[p as int], before[j - 1]);
                }
            } else {
                assert(after[i] == before[i - 1] && after[j] == before[j - 1]);
            }
        }
        assert forall|y: Seq<char>| after.contains(y) <==> (before.contains(y) || y == x@) by {
            if after.contains(y) {
                let q = choose|q: int| 0 <= q < after.len() && after[q] == y;
                if q < p {
                    assert(before[q] == y);
                } else if q > p {
                    assert(before[q - 1] == y);
                }
            }
            if before.contains(y) {
                let q = choose|q: int| 0 <= q < before.len() && before[q] == y;
                if q < p {
                    assert(after[q] == y);
                } else {
                    assert(after[q + 1] == y);
                }
            }
            if y == x@ {
                assert(after[p as int] == y);
            }
        }
    }
}

/// One row scanned for references to images stored on the source
/// environment: its id and its text values.
#[derive(Clone, Debug, PartialEq, Eq)]
pub struct ScannedRow {
    pub id: String,
    pub texts: Vec<String>,
}

/// The needles of a locally stored image reference (matched on lowercased
/// text).
pub open spec fn image_needles() -> Seq<Seq<char>> {
    seq!["/0/rest/"@, "imageservice"@, "sysimage"@, "getfile"@]
}

pub open spec fn refers_to_local_image(text: Seq<char>) -> bool {
    exists|n: int| 0 <= n < 4 && contains_sub(ascii_lower_seq(text), #[trigger] image_needles()[n])
}

/// A text refers to a locally stored image exactly when, ASCII-lowercased,
/// it holds `/0/rest/`, `imageservice`, `sysimage` or `getfile`.
pub proof fn lemma_local_image_needles(text: Seq<char>)
    ensures
        refers_to_local_image(text) <==> (contains_sub(ascii_lower_seq(text), "/0/rest/"@) || contains_sub(
            ascii_lower_seq(text),
            "imageservice"@,
        ) || contains_sub(ascii_lower_seq(text), "sysimage"@) || contains_sub(ascii_lower_seq(text), "getfile"@)),
{
    let h = ascii_lower_seq(text);
    if contains_sub(h, "/0/rest/"@) {
        assert(image_needles()[0] == "/0/rest/"@);
    } else if contains_sub(h, "imageservice"@) {
        assert(image_needles()[1] == "imageservice"@);
    } else if contains_sub(h, "sysimage"@) {
        assert(image_needles()[2] == "sysimage"@);
    } else if contains_sub(h, "getfile"@) {
        assert(image_needles()[3] == "getfile"@);
    }
}

pub open spec fn row_has_local_image(row: ScannedRow) -> bool {
    exists|t: int| 0 <= t < row.texts.len() && refers_to_local_image(#[trigger] row.texts@[t]@)
}

/// `"{entity}: {id}"` for each row holding a locally stored image reference.
pub open spec fn spec_local_image_hits(entity: Seq<char>, rows: Seq<ScannedRow>) -> Seq<Seq<char>>
    decreases rows.len(),
{
    if rows.len() == 0 {
        seq![]
    } else {
        let rest = spec_local_image_hits(entity, rows.drop_last());
        if row_has_local_image(rows.last()) {
            rest.push(entity + ": "@ + rows.last().id@)
        } else {
            rest
        }
    }
}

fn needle(n: usize) -> (r: &'static str)
    requires
        n < 4,
    ensures
        r@ == image_needles()[n as int],
{
    if n == 0 {
        "/0/rest/"
    } else if n == 1 {
        "imageservice"
    } else if n == 2 {
        "sysimage"
    } else {
        "getfile"
    }
}

fn refers_to_local_image_str(text: &str) -> (b: bool)
    ensures
        b == refers_to_local_image(text@),
{
    let lower = to_ascii_lower(text);
    let mut n: usize = 0;
    while n < 4
        invariant
            n <= 4,
            lower@ == ascii_lower_seq(text@),
            forall|m: int| 0 <= m < n ==> !contains_sub(lower@, #[trigger] image_needles()[m]),
        decreases 4 - n,
    {
        if contains(lower.as_str(), needle(n)) {
            return true;
        }
        n = n + 1;
    }
    false
}

pub fn local_image_hits(entity: &str, rows: &[ScannedRow]) -> (hits: Vec<String>)
    ensures
        views(hits@) == spec_local_image_hits(entity@, rows@),
{
    let mut hits: Vec<String> = Vec::new();
    let mut i: usize = 0;
    while i < rows.len()
        invariant
            i <= rows.len(),
            views(hits@) == spec_local_image_hits(entity@, rows@.take(i as int)),
        decreases rows.len() - i,
    {
        proof {
            assert(rows@.take(i + 1).drop_last() =~= rows@.take(i as int));
            assert(rows@.take(i + 1).last() == rows@[i as int]);
        }
        let row = &rows[i];
        let mut found = false;
        let mut t: usize = 0;
        while t < row.texts.len() && !found
            invariant
                t <= row.texts.len(),
                found ==> row_has_local_image(*row),
                !found ==> forall|q: int| 0 <= q < t ==> !refers_to_local_image(#[trigger] row.texts@[q]@),
            decreases row.texts.len() - t + (if found { 0int } else { 1int }),
        {
            if refers_to_local_image_str(row.texts[t].as_str()) {
                found = true;
            } else {
                t = t + 1;
            }
        }
        if found {
            let mut h = owned(entity);
            h.append(": ");
            h.append(row.id.as_str());
            let ghost before = views(hits@);
            hits.push(h);
            assert(views(hits@) =~= before.push(h@));
        }
        i = i + 1;
    }
    assert(rows@.take(rows.len() as int) =~= rows@);
    hits
}

// --------------------------------------------------------------- rollback

/// One `DELETE` of a rollback batch.
pub open spec fn delete_line(table: Seq<char>, ids: Seq<Seq<char>>) -> Seq<char> {
    "DELETE FROM \""@ + table + "\" WHERE \"Id\" IN ("@ + spec_join(
        ids.map_values(|id: Seq<char>| "'"@ + spec_escape(id) + "'"@),
        ","@,
    ) + ");\n"@
}

pub open spec fn delete_lines(batches: Seq<(Seq<char>, Seq<Seq<char>>)>) -> Seq<char>
    decreases batches.len(),
{
    if batches.len() == 0 {
        seq![]
    } else {
        let (table, ids) = batches.last();
        (if ids.len() == 0 {
            seq![]
        } else {
            delete_line(table, ids)
        }) + delete_lines(batches.drop_last())
    }
}

/// The rollback of inserted rows: one transaction deleting each batch's ids,
/// the batches in reverse order (dependents before what they depend on).
pub open spec fn spec_delete_rollback(batches: Seq<(Seq<char>, Seq<Seq<char>>)>) -> Seq<char> {
    "BEGIN;\n"@ + delete_lines(batches) + "COMMIT;\n"@
}

pub open spec fn batches_view(v: Seq<(String, Vec<String>)>) -> Seq<(Seq<char>, Seq<Seq<char>>)> {
    v.map_values(|b: (String, Vec<String>)| (b.0@, views(b.1@)))
}

fn delete_line_of(table: &str, ids: &Vec<String>) -> (r: String)
    ensures
        r@ == delete_line(table@, views(ids@)),
{
    let mut quoted: Vec<String> = Vec::new();
    let mut i: usize = 0;
    while i < ids.len()
        invariant
            i <= ids.len(),
            views(quoted@) == views(ids@).take(i as int).map_values(|id: Seq<char>| "'"@ + spec_escape(id) + "'"@),
        decreases ids.len() - i,
    {
        let q = crate::refdata::quoted(ids[i].as_str());
        let ghost before = views(quoted@);
        let ghost qv = q@;
        quoted.push(q);
        proof {
            assert(views(ids@)[i as int] == ids@[i as int]@);
            assert(views(quoted@) =~= before.push(qv));
            assert(views(ids@).take(i + 1) =~= views(ids@).take(i as int).push(ids@[i as int]@));
        }
        i = i + 1;
        assert(views(quoted@) =~= views(ids@).take(i as int).map_values(
            |id: Seq<char>| "'"@ + spec_escape(id) + "'"@,
        ));
    }
    assert(views(ids@).take(ids.len() as int) =~= views(ids@));
    let mut r = owned("DELETE FROM \"");
    r.append(table);
    r.append("\" WHERE \"Id\" IN (");
    let list = join(&quoted, ",");
    r.append(list.as_str());
    r.append(");\n");
    r
}

pub fn delete_rollback(batches: &Vec<(String, Vec<String>)>) -> (r: String)
    ensures
        r@ == spec_delete_rollback(batches_view(batches@)),
{
    let ghost bv = batches_view(batches@);
    let mut r = owned("BEGIN;\n");
    let mut i: usize = batches.len();
    proof {
        assert(bv.take(bv.len() as int) =~= bv);
    }
    while i > 0
        invariant
            i <= batches.len(),
            bv == batches_view(batches@),
            r@ + delete_lines(bv.take(i as int)) == "BEGIN;\n"@ + delete_lines(bv),
        decreases i,
    {
        let ghost before = r@;
        let (table, ids) = (&batches[i - 1].0, &batches[i - 1].1);
        proof {
            assert(bv.take(i as int).drop_last() =~= bv.take(i - 1));
            assert(bv.take(i as int).last() == (table@, views(ids@)));
        }
        if ids.len() > 0 {
            let line = delete_line_of(table.as_str(), ids);
            r.append(line.as_str());
        }
        i = i - 1;
        assert(r@ + delete_lines(bv.take(i as int)) =~= "BEGIN;\n"@ + delete_lines(bv));
    }
    r.append("COMMIT;\n");
    proof {
        assert(bv.take(0) =~= Seq::<(Seq<char>, Seq<Seq<char>>)>::empty());
    }
    r
}

// ------------------------------------------------------------- row cleaning

/// A field of an OData row, as cleaning reads it: a string, another scalar
/// (number, boolean or null: copied as it is), or an object or array (a
/// navigation property).
#[derive(Clone, Debug, PartialEq, Eq)]
pub enum FieldValue {
    Text(String),
    Scalar,
    Structured,
}

pub enum FieldValueView {
    Text(Seq<char>),
    Scalar,
    Structured,
}

impl View for FieldValue {
    type V = FieldValueView;

    open spec fn view(&self) -> FieldValueView {
        match self {
            FieldValue::Text(t) => FieldValueView::Text(t@),
            FieldValue::Scalar => FieldValueView::Scalar,
            FieldValue::Structured => FieldValueView::Structured,
        }
    }
}

pub open spec fn fields_view(row: Seq<(String, FieldValue)>) -> Seq<(Seq<char>, FieldValueView)> {
    row.map_values(|f: (String, FieldValue)| (f.0@, f.1@))
}

/// The audit columns Creatio fills itself on insert.
pub open spec fn is_audit_column(key: Seq<char>) -> bool {
    key == "CreatedById"@ || key == "ModifiedById"@ || key == "CreatedOn"@ || key == "ModifiedOn"@
        || key == "ProcessListeners"@
}

fn audit_column(key: &str) -> (b: bool)
    ensures
        b == is_audit_column(key@),
{
    str_eq(key, "CreatedById") || str_eq(key, "ModifiedById") || str_eq(key, "CreatedOn") || str_eq(key, "ModifiedOn")
        || str_eq(key, "ProcessListeners")
}

/// What one field becomes in the row posted to the target: dropped when it
/// is an OData annotation, an audit column, listed in `extra_drop`, an object
/// or array, or (other than `Id`) the nil Guid; a text equal to the source
/// Supervisor (ignoring case) becomes the target Supervisor when both are
/// given; anything else is kept as it is.
pub open spec fn cleaned_field(key: Seq<char>, value: FieldValueView, source_supervisor: Option<Seq<char>>, target_supervisor: Option<Seq<char>>, extra_drop: Seq<Seq<char>>) -> Option<(Seq<char>, FieldValueView)> {
    if contains_sub(key, "@odata"@) || is_audit_column(key) || extra_drop.contains(key) {
        None
    } else {
        match value {
            FieldValueView::Structured => None,
            FieldValueView::Scalar => Some((key, value)),
            FieldValueView::Text(v) => if key != "Id"@ && eq_ignore_case(v, zero_guid()) {
                None
            } else {
                match (source_supervisor, target_supervisor) {
                    (Some(src), Some(tgt)) => if eq_ignore_case(v, src) {
                        Some((key, FieldValueView::Text(tgt)))
                    } else {
                        Some((key, value))
                    },
                    _ => Some((key, value)),
                }
            },
        }
    }
}

pub open spec fn spec_clean_row(row: Seq<(Seq<char>, FieldValueView)>, source_supervisor: Option<Seq<char>>, target_supervisor: Option<Seq<char>>, extra_drop: Seq<Seq<char>>) -> Seq<(Seq<char>, FieldValueView)>
    decreases row.len(),
{
    if row.len() == 0 {
        seq![]
    } else {
        let rest = spec_clean_row(row.drop_last(), source_supervisor, target_supervisor, extra_drop);
        match cleaned_field(row.last().0, row.last().1, source_supervisor, target_supervisor, extra_drop) {
            Some(f) => rest.push(f),
            None => rest,
        }
    }
}

/// The row posted to the target never carries an OData annotation, a
/// column Creatio fills itself (`CreatedById`, `ModifiedById`, `CreatedOn`,
/// `ModifiedOn`, `ProcessListeners`), a column asked to be dropped, or an
/// object or array value; every field it carries is a field of the source
/// row under the same name.
pub proof fn lemma_cleaned_row_drops_managed_fields(
    row: Seq<(Seq<char>, FieldValueView)>,
    source_supervisor: Option<Seq<char>>,
    target_supervisor: Option<Seq<char>>,
    extra_drop: Seq<Seq<char>>,
)
    ensures
        forall|k: int|
            0 <= k < spec_clean_row(row, source_supervisor, target_supervisor, extra_drop).len() ==> {
                let f = #[trigger] spec_clean_row(row, source_supervisor, target_supervisor, extra_drop)[k];
                &&& !contains_sub(f.0, "@odata"@)
                &&& f.0 != "CreatedById"@ && f.0 != "ModifiedById"@ && f.0 != "CreatedOn"@ && f.0 != "ModifiedOn"@
                    && f.0 != "ProcessListeners"@
                &&& !extra_drop.contains(f.0)
                &&& f.1 !is Structured
                &&& exists|w: int| 0 <= w < row.len() && (#[trigger] row[w]).0 == f.0
            },
    decreases row.len(),
{
    if row.len() > 0 {
        let d = row.drop_last();
        lemma_cleaned_row_drops_managed_fields(d, source_supervisor, target_supervisor, extra_drop);
        let r = spec_clean_row(row, source_supervisor, target_supervisor, extra_drop);
        let rd = spec_clean_row(d, source_supervisor, target_supervisor, extra_drop);
        assert forall|k: int| 0 <= k < r.len() implies {
            let f = #[trigger] r[k];
            &&& !contains_sub(f.0, "@odata"@)
            &&& f.0 != "CreatedById"@ && f.0 != "ModifiedById"@ && f.0 != "CreatedOn"@ && f.0 != "ModifiedOn"@
                && f.0 != "ProcessListeners"@
            &&& !extra_drop.contains(f.0)
            &&& f.1 !is Structured
            &&& exists|w: int| 0 <= w < row.len() && (#[trigger] row[w]).0 == f.0
        } by {
            if k < rd.len() {
                assert(r[k] == rd[k]);
                let w = choose|w: int| 0 <= w < d.len() && (#[trigger] d[w]).0 == rd[k].0;
                assert(row[w] == d[w]);
            } else {
                assert(row[row.len() - 1] == row.last());
            }
        }
    }
}

pub open spec fn opt_str_view(o: Option<&str>) -> Option<Seq<char>> {
    match o {
        Some(s) => Some(s@),
        None => None,
    }
}

fn listed(list: &Vec<String>, key: &str) -> (b: bool)
    ensures
        b == views(list@).contains(key@),
{
    let mut i: usize = 0;
    while i < list.len()
        invariant
            i <= list.len(),
            forall|k: int| 0 <= k < i ==> views(list@)[k] != key@,
        decreases list.len() - i,
    {
        if str_eq(list[i].as_str(), key) {
            proof {
                assert(views(list@)[i as int] == key@);
            }
            return true;
        }
        i = i + 1;
    }
    proof {
        if views(list@).contains(key@) {
            let w = choose|w: int| 0 <= w < views(list@).len() && views(list@)[w] == key@;
            assert(views(list@)[w] != key@);
        }
    }
    false
}

fn clean_field(key: &String, value: &FieldValue, source_supervisor: Option<&str>, target_supervisor: Option<&str>, extra_drop: &Vec<String>) -> (r: Option<(String, FieldValue)>)
    ensures
        match r {
            Some(f) => cleaned_field(key@, value@, opt_str_view(source_supervisor), opt_str_view(target_supervisor), views(extra_drop@)) == Some((f.0@, f.1@)),
            None => cleaned_field(key@, value@, opt_str_view(source_supervisor), opt_str_view(target_supervisor), views(extra_drop@)) is None,
        },
{
    if contains(key.as_str(), "@odata") || audit_column(key.as_str()) || listed(extra_drop, key.as_str()) {
        return None;
    }
    match value {
        FieldValue::Structured => None,
        FieldValue::Scalar => Some((key.clone(), FieldValue::Scalar)),
        FieldValue::Text(v) => {
            if !str_eq(key.as_str(), "Id") && eq_ignore_ascii_case(v.as_str(), "00000000-0000-0000-0000-000000000000") {
                return None;
            }
            match (source_supervisor, target_supervisor) {
                (Some(src), Some(tgt)) => {
                    if eq_ignore_ascii_case(v.as_str(), src) {
                        Some((key.clone(), FieldValue::Text(owned(tgt))))
                    } else {
                        Some((key.clone(), FieldValue::Text(v.clone())))
                    }
                },
                _ => Some((key.clone(), FieldValue::Text(v.clone()))),
            }
        },
    }
}

/// A source row made ready to post to the target: annotations, audit
/// columns, the `extra_drop` columns, navigation objects and nil references
/// are dropped, and the source Supervisor is remapped to the target's; the
/// other fields keep their order.
pub fn clean_row(row: &Vec<(String, FieldValue)>, source_supervisor: Option<&str>, target_supervisor: Option<&str>, extra_drop: &Vec<String>) -> (out: Vec<(String, FieldValue)>)
    ensures
        fields_view(out@) == spec_clean_row(
            fields_view(row@),
            opt_str_view(source_supervisor),
            opt_str_view(target_supervisor),
            views(extra_drop@),
        ),
{
    let ghost rv = fields_view(row@);
    let ghost sv = opt_str_view(source_supervisor);
    let ghost tv = opt_str_view(target_supervisor);
    let mut out: Vec<(String, FieldValue)> = Vec::new();
    let mut i: usize = 0;
    while i < row.len()
        invariant
            i <= row.len(),
            rv == fields_view(row@),
            sv == opt_str_view(source_supervisor),
            tv == opt_str_view(target_supervisor),
            fields_view(out@) == spec_clean_row(rv.take(i as int), sv, tv, views(extra_drop@)),
        decreases row.len() - i,
    {
        proof {
            assert(rv.take(i + 1).drop_last() =~= rv.take(i as int));
            assert(rv.take(i + 1).last() == (row@[i as int].0@, row@[i as int].1@));
        }
        match clean_field(&row[i].0, &row[i].1, source_supervisor, target_supervisor, extra_drop) {
            Some(f) => {
                let ghost before = out@;
                let ghost fv = (f.0@, f.1@);
                out.push(f);
                assert(fields_view(out@) =~= fields_view(before).push(fv));
            },
            None => {},
        }
        i = i + 1;
    }
    assert(rv.take(row.len() as int) =~= rv);
    out
}

// ------------------------------------------------- flow repoint rollback

/// `n` occurs in `h` at `i`.
pub open spec fn occurs_at(h: Seq<char>, n: Seq<char>, i: int) -> bool {
    0 <= i && i + n.len() <= h.len() && h.subrange(i, i + n.len()) == n
}

/// `str::rfind`: the position of the last occurrence of `n` in `h`.
fn rfind(h: &Vec<char>, n: &Vec<char>) -> (r: Option<usize>)
    ensures
        match r {
            Some(i) => occurs_at(h@, n@, i as int) && forall|j: int| i < j ==> !occurs_at(h@, n@, j),
            None => forall|j: int| !occurs_at(h@, n@, j),
        },
{
    if n.len() > h.len() {
        return None;
    }
    let mut at: usize = h.len() - n.len();
    loop
        invariant
            n.len() <= h.len(),
            at <= h.len() - n.len(),
            forall|j: int| at < j ==> !occurs_at(h@, n@, j),
        decreases at,
    {
        let mut k: usize = 0;
        let mut same = true;
        while k < n.len()
            invariant
                at + n.len() <= h.len(),
                k <= n.len(),
                same == forall|q: int| 0 <= q < k ==> h@[at + q] == n@[q],
            decreases n.len() - k,
        {
            if h[at + k] != n[k] {
                same = false;
            }
            k = k + 1;
        }
        if same {
            assert(h@.subrange(at as int, at + n.len()) =~= n@);
            return Some(at);
        }
        proof {
            let q = choose|q: int| 0 <= q < n.len() && h@[at + q] != n@[q];
            assert(h@.subrange(at as int, at + n.len())[q] != n@[q]);
        }
        if at == 0 {
            return None;
        }
        at = at - 1;
    }
}

/// The target's flow schema before the migration, for the campaign `key`
/// (its Id in lower case): the last target row with that Id, its schema
/// when present and not the nil Guid.
pub open spec fn previous_schema(previous: Seq<(Seq<char>, Option<Seq<char>>)>, key: Seq<char>) -> Option<Seq<char>>
    decreases previous.len(),
{
    if previous.len() == 0 {
        None
    } else if ascii_lower_seq(previous.last().0) == key {
        match previous.last().1 {
            Some(u) => if eq_ignore_case(u, zero_guid()) {
                None
            } else {
                Some(u)
            },
            None => None,
        }
    } else {
        previous_schema(previous.drop_last(), key)
    }
}

pub open spec fn repoint_line(campaign: Seq<char>, previous: Seq<(Seq<char>, Option<Seq<char>>)>) -> Seq<char> {
    "UPDATE \"Campaign\" SET \"CampaignSchemaUId\" = "@ + spec_sql_guid(
        previous_schema(previous, ascii_lower_seq(campaign)),
    ) + " WHERE \"Id\" = '"@ + spec_escape(campaign) + "';\n"@
}

pub open spec fn repoint_lines(campaigns: Seq<Seq<char>>, previous: Seq<(Seq<char>, Option<Seq<char>>)>) -> Seq<char>
    decreases campaigns.len(),
{
    if campaigns.len() == 0 {
        seq![]
    } else {
        repoint_lines(campaigns.drop_last(), previous) + repoint_line(campaigns.last(), previous)
    }
}

/// The position updates go to: before the last `COMMIT;\n`, else the end.
pub open spec fn repoint_at(sql: Seq<char>) -> int {
    if exists|j: int| occurs_at(sql, "COMMIT;\n"@, j) {
        choose|j: int| occurs_at(sql, "COMMIT;\n"@, j) && forall|k: int| j < k ==> !occurs_at(sql, "COMMIT;\n"@, k)
    } else {
        sql.len() as int
    }
}

pub open spec fn previous_view(v: Seq<(String, Option<String>)>) -> Seq<(Seq<char>, Option<Seq<char>>)> {
    v.map_values(|p: (String, Option<String>)| (p.0@, match p.1 {
        Some(u) => Some(u@),
        None => None,
    }))
}

fn previous_schema_of(previous: &Vec<(String, Option<String>)>, key: &str) -> (r: Option<String>)
    ensures
        match r {
            Some(u) => previous_schema(previous_view(previous@), key@) == Some(u@),
            None => previous_schema(previous_view(previous@), key@) is None,
        },
{
    let ghost pv = previous_view(previous@);
    let mut i: usize = previous.len();
    proof {
        assert(pv.take(pv.len() as int) =~= pv);
    }
    while i > 0
        invariant
            i <= previous.len(),
            pv == previous_view(previous@),
            previous_schema(pv, key@) == previous_schema(pv.take(i as int), key@),
        decreases i,
    {
        proof {
            assert(pv.take(i as int).drop_last() =~= pv.take(i - 1));
            assert(pv.take(i as int).last() == pv[i - 1]);
        }
        let lower = to_ascii_lower(previous[i - 1].0.as_str());
        if str_eq(lower.as_str(), key) {
            return match &previous[i - 1].1 {
                Some(u) => if eq_ignore_ascii_case(u.as_str(), "00000000-0000-0000-0000-000000000000") {
                    None
                } else {
                    Some(u.clone())
                },
                None => None,
            };
        }
        i = i - 1;
    }
    None
}

/// Extend the rollback SQL of a flow migration: before its last `COMMIT;`
/// (or at its end), one `UPDATE` per migrated campaign puts back the flow
/// schema the target campaign pointed to before (`NULL` when it had none).
/// `previous` holds the target's campaigns: each Id with its schema.
pub fn flow_repoint_rollback(sql: &str, campaigns: &Vec<String>, previous: &Vec<(String, Option<String>)>) -> (r: String)
    ensures
        r@ == sql@.take(repoint_at(sql@)) + repoint_lines(views(campaigns@), previous_view(previous@)) + sql@.skip(
            repoint_at(sql@),
        ),
{
    let ghost cv = views(campaigns@);
    let ghost pv = previous_view(previous@);
    let mut updates = String::new();
    let mut i: usize = 0;
    proof {
        assert(cv.take(0) =~= Seq::<Seq<char>>::empty());
    }
    while i < campaigns.len()
        invariant
            i <= campaigns.len(),
            cv == views(campaigns@),
            pv == previous_view(previous@),
            updates@ == repoint_lines(cv.take(i as int), pv),
        decreases campaigns.len() - i,
    {
        proof {
            assert(cv.take(i + 1).drop_last() =~= cv.take(i as int));
            assert(cv.take(i + 1).last() == campaigns@[i as int]@);
        }
        let id = campaigns[i].as_str();
        let key = to_ascii_lower(id);
        let old = previous_schema_of(previous, key.as_str());
        let guid = match &old {
            Some(u) => sql_guid(Some(u.as_str())),
            None => sql_guid(None),
        };
        updates.append("UPDATE \"Campaign\" SET \"CampaignSchemaUId\" = ");
        updates.append(guid.as_str());
        updates.append(" WHERE \"Id\" = '");
        let e = escape_literal(id);
        updates.append(e.as_str());
        updates.append("';\n");
        i = i + 1;
    }
    assert(cv.take(campaigns.len() as int) =~= cv);
    let text = chars_of(sql);
    let marker = chars_of("COMMIT;\n");
    let found = rfind(&text, &marker);
    let at = match found {
        Some(k) => k,
        None => text.len(),
    };
    proof {
        match found {
            Some(k) => {
                assert(occurs_at(sql@, "COMMIT;\n"@, k as int));
                let j = choose|j: int|
                    occurs_at(sql@, "COMMIT;\n"@, j) && forall|q: int| j < q ==> !occurs_at(sql@, "COMMIT;\n"@, q);
                assert(j == k as int);
            },
            None => {},
        }
        assert(text@.subrange(0, at as int) =~= sql@.take(at as int));
        assert(text@.subrange(at as int, text@.len() as int) =~= sql@.skip(at as int));
    }
    let head = string_of_range(&text, 0, at);
    let tail = string_of_range(&text, at, text.len());
    let mut r = head;
    r.append(updates.as_str());
    r.append(tail.as_str());
    r
}

// ----------------------------------------------------------------- analysis

/// The notes of an entity's gap line: unnamed campaign elements can only be
/// copied through SQL.
pub open spec fn spec_gap_notes(entity: Seq<char>, empty_names: nat) -> Seq<Seq<char>> {
    if entity == "CampaignItem"@ && empty_names > 0 {
        seq![crate::text::spec_decimal(empty_names) + " empty-name rows require SQL"@]
    } else {
        seq![]
    }
}

/// The gap line of one entity, from the `Id` of each source and target row
/// (`None` for a row without one) and the number of source rows with an
/// empty `Name`: the row counts, how many source ids the target lacks
/// (ignoring case), and the notes.
pub fn entity_gap(entity: &str, source: &Vec<Option<String>>, target: &Vec<Option<String>>, empty_names: usize) -> (g: ContentGap)
    ensures
        g.entity@ == entity@,
        g.source_count == source.len(),
        g.target_count == target.len(),
        g.missing_count == lower_ids(source@).difference(lower_ids(target@)).len(),
        views(g.notes@) == spec_gap_notes(entity@, empty_names as nat),
{
    let missing = missing_ids(source, target);
    proof {
        let v = views(missing@);
        assert forall|i: int, j: int| 0 <= i < v.len() && 0 <= j < v.len() && i != j implies v[i] != v[j] by {
            if i < j {
                assert(seq_lt(v[i], v[j]));
            } else {
                assert(seq_lt(v[j], v[i]));
            }
            crate::text::lemma_seq_lt_irreflexive(v[i]);
        }
        assert(v.no_duplicates());
        v.unique_seq_to_set();
    }
    let mut notes: Vec<String> = Vec::new();
    if str_eq(entity, "CampaignItem") && empty_names > 0 {
        let mut note = crate::text::decimal_usize(empty_names);
        note.append(" empty-name rows require SQL");
        notes.push(note);
        assert(views(notes@) =~= spec_gap_notes(entity@, empty_names as nat));
    } else {
        assert(views(notes@) =~= spec_gap_notes(entity@, empty_names as nat));
    }
    ContentGap {
        entity: owned(entity),
        source_count: source.len(),
        target_count: target.len(),
        missing_count: missing.len(),
        notes,
    }
}

/// The campaigns whose flow schema the target lacks (compared ignoring
/// case): their names, in order. A campaign without a schema is not listed.
pub open spec fn spec_broken_flows(campaigns: Seq<(Seq<char>, Option<Seq<char>>)>, target: Set<Seq<char>>) -> Seq<Seq<char>>
    decreases campaigns.len(),
{
    if campaigns.len() == 0 {
        seq![]
    } else {
        let rest = spec_broken_flows(campaigns.drop_last(), target);
        match campaigns.last().1 {
            Some(u) => if target.contains(ascii_lower_seq(u)) {
                rest
            } else {
                rest.push(campaigns.last().0)
            },
            None => rest,
        }
    }
}

fn has_lower_id(ids: &Vec<Option<String>>, id: &str) -> (b: bool)
    ensures
        b == lower_ids(ids@).contains(ascii_lower_seq(id@)),
{
    let key = to_ascii_lower(id);
    let mut k: usize = 0;
    while k < ids.len()
        invariant
            k <= ids.len(),
            key@ == ascii_lower_seq(id@),
            forall|q: int| 0 <= q < k && ids@[q] is Some ==> ascii_lower_seq(#[trigger] ids@[q].unwrap()@) != key@,
        decreases ids.len() - k,
    {
        match &ids[k] {
            Some(t) => {
                let lower = to_ascii_lower(t.as_str());
                if str_eq(lower.as_str(), key.as_str()) {
                    proof {
                        assert(ids@[k as int] is Some && key@ == ascii_lower_seq(ids@[k as int].unwrap()@));
                    }
                    return true;
                }
            },
            None => {},
        }
        k = k + 1;
    }
    proof {
        if lower_ids(ids@).contains(key@) {
            let w = choose|w: int| 0 <= w < ids@.len() && ids@[w] is Some && key@ == ascii_lower_seq(#[trigger] ids@[w].unwrap()@);
            assert(ascii_lower_seq(ids@[w].unwrap()@) != key@);
        }
    }
    false
}

/// The names of the campaigns (name and flow schema `UId`) whose flow schema
/// is not among the target's schema `UId`s.
pub fn broken_flows(campaigns: &Vec<(String, Option<String>)>, target: &Vec<Option<String>>) -> (names: Vec<String>)
    ensures
        views(names@) == spec_broken_flows(previous_view(campaigns@), lower_ids(target@)),
{
    let ghost cv = previous_view(campaigns@);
    let mut names: Vec<String> = Vec::new();
    let mut i: usize = 0;
    while i < campaigns.len()
        invariant
            i <= campaigns.len(),
            cv == previous_view(campaigns@),
            views(names@) == spec_broken_flows(cv.take(i as int), lower_ids(target@)),
        decreases campaigns.len() - i,
    {
        proof {
            assert(cv.take(i + 1).drop_last() =~= cv.take(i as int));
            assert(cv.take(i + 1).last() == cv[i as int]);
        }
        match &campaigns[i].1 {
            Some(u) => {
                if !has_lower_id(target, u.as_str()) {
                    let ghost before = views(names@);
                    let n = campaigns[i].0.clone();
                    names.push(n);
                    assert(views(names@) =~= before.push(cv[i as int].0));
                }
            },
            None => {},
        }
        i = i + 1;
    }
    assert(cv.take(campaigns.len() as int) =~= cv);
    names
}

/// Once the missing rows are copied (the target then holds the source rows
/// too), a re-run finds nothing missing: the migration is idempotent.
pub proof fn lemma_rerun_copies_nothing(source: Seq<Option<String>>, target: Seq<Option<String>>)
    ensures
        lower_ids(source).difference(lower_ids(target + source)) == Set::<Seq<char>>::empty(),
{
    assert forall|x: Seq<char>| lower_ids(source).contains(x) implies lower_ids(target + source).contains(x) by {
        let k = choose|k: int| 0 <= k < source.len() && source[k] is Some && x == ascii_lower_seq(#[trigger] source[k].unwrap()@);
        assert((target + source)[target.len() + k] == source[k]);
    }
    assert(lower_ids(source).difference(lower_ids(target + source)) =~= Set::<Seq<char>>::empty());
}

// ------------------------------------------------------------ OData rows

/// A text member of an OData row.
pub open spec fn row_text(row: JsonValue, key: Seq<char>) -> Option<Seq<char>> {
    spec_as_str(spec_get(row, key))
}

/// A row's `Id`; empty when it has none.
pub open spec fn spec_row_id(row: JsonValue) -> Seq<char> {
    text_or_empty(spec_get(row, "Id"@))
}

/// A row's `Name`, else its `DisplayName`; empty when neither is text.
pub open spec fn spec_row_name(row: JsonValue) -> Seq<char> {
    text_or_empty(spec_get_either(row, "Name"@, "DisplayName"@))
}

/// The values of a row's members, in order; none for a value that is not
/// an object.
pub open spec fn member_values(row: JsonValue) -> Seq<JsonValue> {
    match row {
        JsonValue::Object(fields) => fields@.map_values(|m: (String, JsonValue)| m.1),
        _ => Seq::empty(),
    }
}

/// How the row cleaning sees a member's value.
pub open spec fn field_kind(v: JsonValue) -> FieldValueView {
    match v {
        JsonValue::Str(s) => FieldValueView::Text(s@),
        JsonValue::Object(_) | JsonValue::Array(_) => FieldValueView::Structured,
        _ => FieldValueView::Scalar,
    }
}

pub fn row_id(row: &JsonValue) -> (r: String)
    ensures
        r@ == spec_row_id(*row),
{
    text_of(get(row, "Id"))
}

pub fn row_name(row: &JsonValue) -> (r: String)
    ensures
        r@ == spec_row_name(*row),
{
    text_of(get_either(row, "Name", "DisplayName"))
}

/// The `Id` of each row, when it has a text one.
pub fn row_ids(rows: &Vec<JsonValue>) -> (r: Vec<Option<String>>)
    ensures
        r.len() == rows.len(),
        forall|k: int| 0 <= k < rows.len() ==> opt_text(#[trigger] r@[k]) == row_text(rows@[k], "Id"@),
{
    let mut out: Vec<Option<String>> = Vec::new();
    let mut i: usize = 0;
    while i < rows.len()
        invariant
            i <= rows.len(),
            out.len() == i,
            forall|k: int| 0 <= k < i ==> opt_text(#[trigger] out@[k]) == row_text(rows@[k], "Id"@),
        decreases rows.len() - i,
    {
        out.push(as_text(get(&rows[i], "Id")));
        i = i + 1;
    }
    out
}

/// Whether each row's `Name` is empty (or not text).
pub fn row_empty_names(rows: &Vec<JsonValue>) -> (r: Vec<bool>)
    ensures
        r.len() == rows.len(),
        forall|k: int| 0 <= k < rows.len() ==> #[trigger] r@[k] == (text_or_empty(spec_get(rows@[k], "Name"@)).len() == 0),
{
    let mut out: Vec<bool> = Vec::new();
    let mut i: usize = 0;
    while i < rows.len()
        invariant
            i <= rows.len(),
            out.len() == i,
            forall|k: int| 0 <= k < i ==> #[trigger] out@[k] == (text_or_empty(spec_get(rows@[k], "Name"@)).len() == 0),
        decreases rows.len() - i,
    {
        let name = text_of(get(&rows[i], "Name"));
        out.push(name.as_str().unicode_len() == 0);
        i = i + 1;
    }
    out
}

/// The texts of a row's members, in order.
pub fn row_texts(row: &JsonValue) -> (r: Vec<String>)
    ensures
        views(r@) == spec_texts(member_values(*row)),
{
    match row {
        JsonValue::Object(fields) => {
            let mut out: Vec<String> = Vec::new();
            let mut i: usize = 0;
            proof {
                assert(member_values(*row).take(0) =~= Seq::<JsonValue>::empty());
                assert(views(out@) =~= Seq::<Seq<char>>::empty());
            }
            while i < fields.len()
                invariant
                    i <= fields.len(),
                    member_values(*row) == fields@.map_values(|m: (String, JsonValue)| m.1),
                    views(out@) == spec_texts(member_values(*row).take(i as int)),
                decreases fields.len() - i,
            {
                let ghost mv = member_values(*row);
                proof {
                    assert(mv.take(i + 1).drop_last() =~= mv.take(i as int));
                    assert(mv.take(i + 1).last() == fields@[i as int].1);
                }
                match &fields[i].1 {
                    JsonValue::Str(t) => {
                        let ghost before = out@;
                        out.push(t.clone());
                        proof {
                            assert(views(out@) =~= views(before).push(t@));
                        }
                    },
                    _ => {},
                }
                i = i + 1;
            }
            proof {
                assert(member_values(*row).take(fields.len() as int) =~= member_values(*row));
            }
            out
        },
        _ => {
            proof {
                assert(spec_texts(member_values(*row)) =~= Seq::<Seq<char>>::empty());
            }
            Vec::new()
        },
    }
}

/// Each row's id and member texts, for the image scan.
pub fn scanned_rows(rows: &Vec<JsonValue>) -> (r: Vec<ScannedRow>)
    ensures
        r.len() == rows.len(),
        forall|k: int|
            0 <= k < rows.len() ==> (#[trigger] r@[k]).id@ == spec_row_id(rows@[k]) && views(r@[k].texts@)
                == spec_texts(member_values(rows@[k])),
{
    let mut out: Vec<ScannedRow> = Vec::new();
    let mut i: usize = 0;
    while i < rows.len()
        invariant
            i <= rows.len(),
            out.len() == i,
            forall|k: int|
                0 <= k < i ==> (#[trigger] out@[k]).id@ == spec_row_id(rows@[k]) && views(out@[k].texts@)
                    == spec_texts(member_values(rows@[k])),
        decreases rows.len() - i,
    {
        out.push(ScannedRow { id: row_id(&rows[i]), texts: row_texts(&rows[i]) });
        i = i + 1;
    }
    out
}

fn field_value_of(v: &JsonValue) -> (r: FieldValue)
    ensures
        r@ == field_kind(*v),
{
    match v {
        JsonValue::Str(t) => FieldValue::Text(t.clone()),
        JsonValue::Object(_) => FieldValue::Structured,
        JsonValue::Array(_) => FieldValue::Structured,
        _ => FieldValue::Scalar,
    }
}

/// A row's members as the row cleaning reads them; none for a value that is
/// not an object.
pub fn row_fields(row: &JsonValue) -> (r: Vec<(String, FieldValue)>)
    ensures
        r.len() == member_values(*row).len(),
        forall|k: int|
            0 <= k < r.len() ==> (#[trigger] r@[k]).1@ == field_kind(member_values(*row)[k]) && (match *row {
                JsonValue::Object(fields) => r@[k].0@ == fields@[k].0@,
                _ => false,
            }),
{
    let mut out: Vec<(String, FieldValue)> = Vec::new();
    match row {
        JsonValue::Object(fields) => {
            let mut i: usize = 0;
            while i < fields.len()
                invariant
                    i <= fields.len(),
                    out.len() == i,
                    *row == JsonValue::Object(*fields),
                    forall|k: int|
                        0 <= k < i ==> (#[trigger] out@[k]).1@ == field_kind(fields@[k].1) && out@[k].0@ == fields@[k].0@,
                decreases fields.len() - i,
            {
                out.push((fields[i].0.clone(), field_value_of(&fields[i].1)));
                i = i + 1;
            }
        },
        _ => {},
    }
    out
}

/// A campaign flow schema as its `SysSchema` row gives it (absent texts read
/// as empty).
pub fn flow_schema_of(row: &JsonValue) -> (f: FlowSchema)
    ensures
        f.id@ == text_or_empty(spec_get(*row, "Id"@)),
        f.uid@ == text_or_empty(spec_get(*row, "UId"@)),
        f.name@ == text_or_empty(spec_get(*row, "Name"@)),
        f.caption@ == text_or_empty(spec_get(*row, "Caption"@)),
        f.sys_package_id@ == text_or_empty(spec_get(*row, "SysPackageId"@)),
        f.description@ == text_or_empty(spec_get(*row, "Description"@)),
        f.checksum@ == text_or_empty(spec_get(*row, "Checksum"@)),
        f.is_net_standard == spec_as_bool(spec_get(*row, "IsNetStandard"@)),
{
    FlowSchema {
        id: text_of(get(row, "Id")),
        uid: text_of(get(row, "UId")),
        name: text_of(get(row, "Name")),
        caption: text_of(get(row, "Caption")),
        sys_package_id: text_of(get(row, "SysPackageId")),
        description: text_of(get(row, "Description")),
        checksum: text_of(get(row, "Checksum")),
        is_net_standard: as_bool(get(row, "IsNetStandard")),
    }
}

/// A campaign element as its `CampaignItem` row gives it.
pub fn campaign_item_of(row: &JsonValue) -> (c: CampaignItemRow)
    ensures
        c.id@ == spec_row_id(*row),
        opt_text(c.campaign_id) == row_text(*row, "CampaignId"@),
        c.name@ == text_or_empty(spec_get(*row, "Name"@)),
        c.is_deleted == spec_as_bool(spec_get(*row, "IsDeleted"@)),
        c.element_type@ == text_or_empty(spec_get(*row, "CampaignElementType"@)),
        opt_text(c.record_id) == row_text(*row, "RecordId"@),
        opt_text(c.sys_schema_uid) == row_text(*row, "SysSchemaUId"@),
{
    CampaignItemRow {
        id: row_id(row),
        campaign_id: as_text(get(row, "CampaignId")),
        name: text_of(get(row, "Name")),
        is_deleted: as_bool(get(row, "IsDeleted")),
        element_type: text_of(get(row, "CampaignElementType")),
        record_id: as_text(get(row, "RecordId")),
        sys_schema_uid: as_text(get(row, "SysSchemaUId")),
    }
}

// ------------------------------------------------------------- migration

/// The entities of a row migration in dependency order; at least one.
pub fn content_order(selected: &Vec<String>) -> (r: Result<Vec<String>, String>)
    ensures
        match r {
            Ok(order) => (forall|k: int| 0 <= k < selected.len() ==> base_entities().contains(#[trigger] selected@[k]@))
                && views(order@) == order_of(views(selected@)) && order@.len() > 0,
            Err(e) => (exists|k: int|
                0 <= k < selected.len() && !base_entities().contains(#[trigger] selected@[k]@) && e@
                    == "Unsupported marketing content entity: "@ + selected@[k]@) || ((forall|k: int|
                0 <= k < selected.len() ==> base_entities().contains(#[trigger] selected@[k]@)) && order_of(
                views(selected@),
            ).len() == 0 && e@ == "Select at least one content entity."@),
        },
{
    let order = dependency_order(selected)?;
    if order.len() == 0 {
        return Err(owned("Select at least one content entity."));
    }
    Ok(order)
}

/// The `Id` of a row as text: empty when it has none.
pub open spec fn id_text(id: Option<String>) -> Seq<char> {
    match id {
        Some(s) => s@,
        None => seq![],
    }
}

/// A source row the target lacks: its id (in lower case) is among the
/// missing ones.
pub open spec fn is_pending(source: Seq<Option<String>>, target: Seq<Option<String>>, i: int) -> bool {
    lower_ids(source).difference(lower_ids(target)).contains(ascii_lower_seq(id_text(source[i])))
}

/// How a copy proceeds over the first `n` source rows: the rows to post over
/// OData, the rows (with an empty name, when asked) to insert through SQL,
/// and how many rows the target already has.
pub open spec fn plan_upto(source: Seq<Option<String>>, target: Seq<Option<String>>, empty_name: Seq<bool>, sql_empty_names: bool, n: int) -> (Seq<usize>, Seq<usize>, nat)
    decreases n,
{
    if n <= 0 {
        (seq![], seq![], 0)
    } else {
        let (post, sql, skipped) = plan_upto(source, target, empty_name, sql_empty_names, n - 1);
        let i = n - 1;
        if !is_pending(source, target, i) {
            (post, sql, skipped + 1)
        } else if sql_empty_names && empty_name[i] {
            (post, sql.push(i as usize), skipped)
        } else {
            (post.push(i as usize), sql, skipped)
        }
    }
}

/// The rows of one entity copy: positions of the source rows to post and to
/// insert through SQL, in order, and the number skipped.
#[derive(Clone, Debug, PartialEq, Eq)]
pub struct CopyPlan {
    pub post: Vec<usize>,
    pub sql: Vec<usize>,
    pub skipped: usize,
}

/// Plan the copy of one entity from the `Id` of each source and target row
/// and whether each source row's name is empty: the rows the target lacks
/// (ids compared ignoring ASCII case) are posted, or, with
/// `sql_empty_names`, inserted through SQL when their name is empty; the
/// others are skipped.
pub fn copy_plan(source: &Vec<Option<String>>, target: &Vec<Option<String>>, empty_name: &Vec<bool>, sql_empty_names: bool) -> (p: CopyPlan)
    requires
        empty_name.len() == source.len(),
    ensures
        (p.post@, p.sql@, p.skipped as nat) == plan_upto(source@, target@, empty_name@, sql_empty_names, source.len() as int),
{
    let missing = missing_ids(source, target);
    let mut post: Vec<usize> = Vec::new();
    let mut sql: Vec<usize> = Vec::new();
    let mut skipped: usize = 0;
    let mut i: usize = 0;
    while i < source.len()
        invariant
            i <= source.len(),
            empty_name.len() == source.len(),
            views(missing@).to_set() == lower_ids(source@).difference(lower_ids(target@)),
            (post@, sql@, skipped as nat) == plan_upto(source@, target@, empty_name@, sql_empty_names, i as int),
            skipped <= i,
        decreases source.len() - i,
    {
        let key = match &source[i] {
            Some(id) => to_ascii_lower(id.as_str()),
            None => String::new(),
        };
        proof {
            assert(key@ == ascii_lower_seq(id_text(source@[i as int])));
        }
        let found = crate::text::position(&missing, key.as_str());
        proof {
            crate::text::lemma_position_found(views(missing@), key@);
            assert(views(missing@).contains(key@) == views(missing@).to_set().contains(key@));
        }
        if found.is_none() {
            skipped = skipped + 1;
        } else if sql_empty_names && empty_name[i] {
            sql.push(i);
        } else {
            post.push(i);
        }
        i = i + 1;
    }
    CopyPlan { post, sql, skipped }
}

/// A campaign runs a flow: its schema `UId` is set and not the nil Guid.
pub open spec fn spec_has_flow(uid: Option<Seq<char>>) -> bool {
    match uid {
        Some(u) => u.len() > 0 && !eq_ignore_case(u, zero_guid()),
        None => false,
    }
}

pub fn has_flow(uid: Option<&str>) -> (b: bool)
    ensures
        b == spec_has_flow(opt_str_view(uid)),
{
    match uid {
        Some(u) => u.unicode_len() > 0 && !eq_ignore_ascii_case(u, "00000000-0000-0000-0000-000000000000"),
        None => false,
    }
}

/// The positions of the `ids` the target's `existing` ids lack (compared
/// ignoring ASCII case), in order.
pub open spec fn absent_upto(ids: Seq<Seq<char>>, existing: Seq<Seq<char>>, n: int) -> Seq<usize>
    decreases n,
{
    if n <= 0 {
        seq![]
    } else {
        let rest = absent_upto(ids, existing, n - 1);
        if existing.map_values(|e: Seq<char>| ascii_lower_seq(e)).contains(ascii_lower_seq(ids[n - 1])) {
            rest
        } else {
            rest.push((n - 1) as usize)
        }
    }
}

pub fn absent_ids(ids: &Vec<String>, existing: &Vec<String>) -> (out: Vec<usize>)
    ensures
        out@ == absent_upto(views(ids@), views(existing@), ids.len() as int),
{
    let ghost ev = views(existing@);
    let mut lowered: Vec<String> = Vec::new();
    let mut j: usize = 0;
    while j < existing.len()
        invariant
            j <= existing.len(),
            ev == views(existing@),
            views(lowered@) == ev.take(j as int).map_values(|e: Seq<char>| ascii_lower_seq(e)),
        decreases existing.len() - j,
    {
        let ghost before = views(lowered@);
        let l = to_ascii_lower(existing[j].as_str());
        let ghost lv = l@;
        lowered.push(l);
        proof {
            assert(views(lowered@) =~= before.push(lv));
            assert(ev.take(j + 1) =~= ev.take(j as int).push(ev[j as int]));
            assert(ev.take(j + 1).map_values(|e: Seq<char>| ascii_lower_seq(e)) =~= ev.take(j as int).map_values(
                |e: Seq<char>| ascii_lower_seq(e),
            ).push(ascii_lower_seq(ev[j as int])));
        }
        j = j + 1;
    }
    assert(ev.take(existing.len() as int) =~= ev);
    let mut out: Vec<usize> = Vec::new();
    let mut i: usize = 0;
    while i < ids.len()
        invariant
            i <= ids.len(),
            views(lowered@) == views(existing@).map_values(|e: Seq<char>| ascii_lower_seq(e)),
            out@ == absent_upto(views(ids@), views(existing@), i as int),
        decreases ids.len() - i,
    {
        let key = to_ascii_lower(ids[i].as_str());
        let found = crate::text::position(&lowered, key.as_str());
        proof {
            crate::text::lemma_position_found(views(lowered@), key@);
            assert(views(ids@)[i as int] == ids@[i as int]@);
        }
        if found.is_none() {
            out.push(i);
        }
        i = i + 1;
    }
    out
}

/// The error when a flow's `MetaData` did not arrive whole.
pub open spec fn spec_metadata_mismatch(schema_id: Seq<char>, source_len: nat, target_len: nat) -> Option<Seq<char>> {
    if source_len == target_len {
        None
    } else {
        Some(
            "Flow "@ + schema_id + " MetaData length differs after insert ("@ + spec_decimal(source_len) + " vs "@
                + spec_decimal(target_len) + " bytes)."@,
        )
    }
}

pub fn metadata_mismatch(schema_id: &str, source_len: usize, target_len: usize) -> (r: Option<String>)
    ensures
        match r {
            Some(e) => spec_metadata_mismatch(schema_id@, source_len as nat, target_len as nat) == Some(e@),
            None => spec_metadata_mismatch(schema_id@, source_len as nat, target_len as nat) is None,
        },
{
    if source_len == target_len {
        return None;
    }
    let mut e = owned("Flow ");
    e.append(schema_id);
    e.append(" MetaData length differs after insert (");
    let a = crate::text::decimal_usize(source_len);
    e.append(a.as_str());
    e.append(" vs ");
    let b = crate::text::decimal_usize(target_len);
    e.append(b.as_str());
    e.append(" bytes).");
    Some(e)
}

/// The error of a finalization step (`clear-redis-db`, `restart-web-app`)
/// that failed: the command and the first eight lines of its output.
pub open spec fn spec_finalize_failure(command: Seq<char>, output: Seq<char>) -> Seq<char> {
    let ls = crate::text::spec_lines(output);
    command + " failed: "@ + spec_join(
        if ls.len() > 8 {
            ls.take(8)
        } else {
            ls
        },
        " "@,
    )
}

pub fn finalize_failure(command: &str, output: &str) -> (r: String)
    ensures
        r@ == spec_finalize_failure(command@, output@),
{
    let mut ls = crate::text::lines(output);
    let ghost all = views(ls@);
    if ls.len() > 8 {
        ls.truncate(8);
        assert(views(ls@) =~= all.take(8));
    }
    let mut r = owned(command);
    r.append(" failed: ");
    let j = join(&ls, " ");
    r.append(j.as_str());
    r
}

/// The entities a gap analysis compares, in order.
pub open spec fn spec_analysis_entities() -> Seq<Seq<char>> {
    seq![
        "BfEmailTemplate"@,
        "DCTemplate"@,
        "DCReplica"@,
        "Campaign"@,
        "BulkEmail"@,
        "CampaignVersion"@,
        "CampaignItem"@,
        "SysLocalizableValue"@,
    ]
}

pub fn analysis_entities() -> (v: Vec<String>)
    ensures
        views(v@) == spec_analysis_entities(),
{
    let v = vec![
        owned("BfEmailTemplate"),
        owned("DCTemplate"),
        owned("DCReplica"),
        owned("Campaign"),
        owned("BulkEmail"),
        owned("CampaignVersion"),
        owned("CampaignItem"),
        owned("SysLocalizableValue"),
    ];
    assert(views(v@) =~= spec_analysis_entities());
    v
}

/// The entities whose rows can hold references to images stored on the
/// source.
pub open spec fn spec_scans_images(entity: Seq<char>) -> bool {
    entity == "BfEmailTemplate"@ || entity == "DCTemplate"@ || entity == "DCReplica"@ || entity == "BulkEmail"@
}

pub fn scans_images(entity: &str) -> (b: bool)
    ensures
        b == spec_scans_images(entity@),
{
    str_eq(entity, "BfEmailTemplate") || str_eq(entity, "DCTemplate") || str_eq(entity, "DCReplica") || str_eq(
        entity,
        "BulkEmail",
    )
}

} // verus!
