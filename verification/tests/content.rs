use creatio_devhub::content::{
    analysis_entities, scans_images, absent_ids, content_order, copy_plan, finalize_failure, has_flow, metadata_mismatch, CopyPlan, broken_flows, entity_gap, flow_repoint_rollback, clean_row, FieldValue, bool_sql, campaign_item_sql, check_pair, delete_rollback, dependency_order, flow_insert_sql, hex,
    local_image_hits, missing_ids, sql_guid, CampaignItemRow, FlowSchema, ScannedRow, campaign_items_script,
    flow_schemas_script, row_drop_fields, finalize_step, finalize_target, next_skip,
    campaign_item_of, flow_schema_of, row_empty_names, row_fields, row_id, row_ids, row_name, scanned_rows,
};
use creatio_devhub::json::JsonValue;

fn owned(values: &[&str]) -> Vec<String> {
    values.iter().map(|v| v.to_string()).collect()
}

#[test]
fn dependency_order_is_canonical() {
    let got = dependency_order(&owned(&["BulkEmail", "Campaign", "BfEmailTemplate"])).unwrap();
    assert_eq!(got, ["BfEmailTemplate", "Campaign", "BulkEmail"]);
}

#[test]
fn dependency_order_rejects_unknown() {
    assert!(dependency_order(&owned(&["SysSchema"])).is_err());
    assert_eq!(
        dependency_order(&owned(&["Campaign", "SysSchema"])),
        Err("Unsupported marketing content entity: SysSchema".to_string())
    );
}

#[test]
fn hex_is_exact() {
    assert_eq!(hex(&[0, 1, 15, 16, 255]), "00010f10ff");
}

#[test]
fn gap_diff_is_case_insensitive() {
    let a = vec![Some("ABC".to_string()), Some("DEF".to_string())];
    let b = vec![Some("abc".to_string())];
    assert_eq!(missing_ids(&a, &b), vec!["def".to_string()]);
}

#[test]
fn missing_ids_are_sorted_and_unique() {
    let a = vec![Some("b".to_string()), None, Some("A".to_string()), Some("B".to_string())];
    assert_eq!(missing_ids(&a, &vec![]), vec!["a".to_string(), "b".to_string()]);
}

#[test]
fn flow_sql_escapes_quotes_unicode_and_hex() {
    let s = FlowSchema {
        id: "i".into(),
        uid: "u".into(),
        name: "O'Brien — flow".into(),
        caption: "It's — live".into(),
        sys_package_id: "p".into(),
        description: "d's".into(),
        checksum: "c".into(),
        is_net_standard: Some(true),
    };
    let sql = flow_insert_sql(&s, b"{}", &[0xff], "sup");
    assert!(sql.contains("O''Brien — flow"));
    assert!(sql.contains("It''s — live"));
    assert!(sql.contains("decode('7b7d','hex')"));
    assert!(sql.contains("decode('ff','hex')"));
}

#[test]
fn local_image_scan_finds_known_patterns() {
    let rows = vec![ScannedRow { id: "1".into(), texts: owned(&["1", "/0/rest/ImageService/GetFile"]) }];
    assert_eq!(local_image_hits("BulkEmail", &rows), ["BulkEmail: 1"]);
    let clean = vec![ScannedRow { id: "2".into(), texts: owned(&["plain text"]) }];
    assert!(local_image_hits("BulkEmail", &clean).is_empty());
}

#[test]
fn campaign_item_sql_preserves_empty_name_and_escapes() {
    let rows = vec![CampaignItemRow {
        id: "i".into(),
        campaign_id: None,
        name: "".into(),
        is_deleted: Some(false),
        element_type: "it's".into(),
        record_id: None,
        sys_schema_uid: None,
    }];
    let sql = campaign_item_sql(&rows, "sup");
    assert!(sql.contains("'it''s'"));
    assert!(sql.contains("VALUES ('i',NULL,''"));
    assert!(sql.contains("ON CONFLICT"));
}

#[test]
fn nil_and_empty_guids_are_null() {
    assert_eq!(sql_guid(Some("00000000-0000-0000-0000-000000000000")), "NULL");
    assert_eq!(sql_guid(Some("")), "NULL");
    assert_eq!(sql_guid(None), "NULL");
    assert_eq!(sql_guid(Some("a'b")), "'a''b'");
    assert_eq!(bool_sql(Some(true)), "true");
    assert_eq!(bool_sql(None), "false");
}

#[test]
fn the_rollback_deletes_batches_in_reverse() {
    let batches = vec![("A".to_string(), owned(&["1", "2"])), ("B".to_string(), owned(&[])), ("C".to_string(), owned(&["x'y"]))];
    assert_eq!(
        delete_rollback(&batches),
        "BEGIN;\nDELETE FROM \"C\" WHERE \"Id\" IN ('x''y');\nDELETE FROM \"A\" WHERE \"Id\" IN ('1','2');\nCOMMIT;\n"
    );
}

#[test]
fn content_needs_two_different_environments() {
    assert!(check_pair("dev", "pre").is_ok());
    assert_eq!(check_pair("dev", "dev"), Err("Choose two different environments.".to_string()));
    assert_eq!(check_pair(" ", "pre"), Err("Choose two different environments.".to_string()));
}

fn text(key: &str, value: &str) -> (String, FieldValue) {
    (key.to_string(), FieldValue::Text(value.to_string()))
}

#[test]
fn cleaning_drops_audit_zero_annotations_objects_and_remaps() {
    let row = vec![
        text("CreatedOn", "x"),
        text("EmptyId", "00000000-0000-0000-0000-000000000000"),
        text("Id", "1"),
        text("Name", "ok"),
        ("Nav".to_string(), FieldValue::Structured),
        text("OwnerId", "SRC"),
        text("x@odata.mediaReadLink", "x"),
    ];
    let clean = clean_row(&row, Some("src"), Some("TARGET"), &vec![]);
    assert_eq!(clean, vec![text("Id", "1"), text("Name", "ok"), text("OwnerId", "TARGET")]);
}

#[test]
fn campaign_extra_column_is_dropped() {
    let clean = clean_row(&vec![text("Id", "1"), text("CampaignSchemaUId", "u")], None, None, &owned(&["CampaignSchemaUId"]));
    assert!(clean.iter().all(|(k, _)| k != "CampaignSchemaUId"));
    assert_eq!(clean, vec![text("Id", "1")]);
}

#[test]
fn a_nil_id_is_kept_and_scalars_pass_through() {
    let row = vec![
        text("Id", "00000000-0000-0000-0000-000000000000"),
        ("IsDeleted".to_string(), FieldValue::Scalar),
        ("Lines".to_string(), FieldValue::Structured),
        text("ModifiedById", "m"),
        text("OwnerId", "SRC"),
    ];
    let clean = clean_row(&row, Some("src"), None, &vec![]);
    assert_eq!(
        clean,
        vec![
            text("Id", "00000000-0000-0000-0000-000000000000"),
            ("IsDeleted".to_string(), FieldValue::Scalar),
            text("OwnerId", "SRC"),
        ]
    );
}

#[test]
fn flow_rollback_repoints_campaigns_before_the_commit() {
    let sql = "BEGIN;\nDELETE FROM \"X\" WHERE \"Id\" IN ('a');\nCOMMIT;\n";
    let previous = vec![
        ("C1".to_string(), Some("u-old".to_string())),
        ("c2".to_string(), Some("00000000-0000-0000-0000-000000000000".to_string())),
    ];
    let out = flow_repoint_rollback(sql, &owned(&["c1", "C2", "c'3"]), &previous);
    assert_eq!(
        out,
        "BEGIN;\nDELETE FROM \"X\" WHERE \"Id\" IN ('a');\n\
UPDATE \"Campaign\" SET \"CampaignSchemaUId\" = 'u-old' WHERE \"Id\" = 'c1';\n\
UPDATE \"Campaign\" SET \"CampaignSchemaUId\" = NULL WHERE \"Id\" = 'C2';\n\
UPDATE \"Campaign\" SET \"CampaignSchemaUId\" = NULL WHERE \"Id\" = 'c''3';\n\
COMMIT;\n"
    );
    assert_eq!(
        flow_repoint_rollback("no marker", &owned(&["x"]), &vec![]),
        "no markerUPDATE \"Campaign\" SET \"CampaignSchemaUId\" = NULL WHERE \"Id\" = 'x';\n"
    );
}

fn some_ids(values: &[&str]) -> Vec<Option<String>> {
    values.iter().map(|v| Some(v.to_string())).collect()
}

#[test]
fn entity_gaps_count_missing_ids_once_ignoring_case() {
    let mut source = some_ids(&["ABC", "abc", "DEF", "GHI"]);
    source.push(None);
    let target = some_ids(&["abc", "xyz"]);
    let gap = entity_gap("BulkEmail", &source, &target, 3);
    assert_eq!(gap.entity, "BulkEmail");
    assert_eq!(gap.source_count, 5);
    assert_eq!(gap.target_count, 2);
    assert_eq!(gap.missing_count, 2);
    assert!(gap.notes.is_empty());
    let items = entity_gap("CampaignItem", &source, &target, 3);
    assert_eq!(items.notes, vec!["3 empty-name rows require SQL"]);
    assert!(entity_gap("CampaignItem", &source, &target, 0).notes.is_empty());
}

#[test]
fn flows_missing_on_the_target_are_broken() {
    let campaigns = vec![
        ("Spring".to_string(), Some("U1".to_string())),
        ("Summer".to_string(), Some("u2".to_string())),
        ("Draft".to_string(), None),
    ];
    let target = some_ids(&["u1"]);
    assert_eq!(broken_flows(&campaigns, &target), vec!["Summer"]);
    assert_eq!(broken_flows(&campaigns, &vec![]), vec!["Spring", "Summer"]);
}

#[test]
fn a_rerun_after_copying_finds_nothing_missing() {
    let source = some_ids(&["ABC", "def"]);
    let mut target = some_ids(&["xyz"]);
    assert_eq!(missing_ids(&source, &target), vec!["abc", "def"]);
    target.extend(source.clone());
    assert!(missing_ids(&source, &target).is_empty());
}

#[test]
fn a_row_migration_needs_a_supported_entity() {
    assert_eq!(content_order(&owned(&["Campaign", "BfEmailTemplate"])), Ok(owned(&["BfEmailTemplate", "Campaign"])));
    assert_eq!(content_order(&vec![]), Err("Select at least one content entity.".to_string()));
    assert_eq!(content_order(&owned(&["SysSchema"])), Err("Unsupported marketing content entity: SysSchema".to_string()));
}

#[test]
fn copies_post_missing_rows_and_route_unnamed_ones_to_sql() {
    let source = some_ids(&["A", "b", "C", "d"]);
    let target = some_ids(&["a"]);
    let empty = vec![false, true, false, false];
    assert_eq!(copy_plan(&source, &target, &empty, true), CopyPlan { post: vec![2, 3], sql: vec![1], skipped: 1 });
    assert_eq!(copy_plan(&source, &target, &empty, false), CopyPlan { post: vec![1, 2, 3], sql: vec![], skipped: 1 });
}

#[test]
fn flows_and_schemas_are_matched_ignoring_case() {
    assert!(has_flow(Some("u1")));
    assert!(!has_flow(Some("")));
    assert!(!has_flow(Some("00000000-0000-0000-0000-000000000000")));
    assert!(!has_flow(None));
    assert_eq!(absent_ids(&owned(&["S1", "s2", "S3"]), &owned(&["s1", "S3"])), vec![1]);
    assert_eq!(metadata_mismatch("S1", 10, 10), None);
    assert_eq!(
        metadata_mismatch("S1", 10, 7),
        Some("Flow S1 MetaData length differs after insert (10 vs 7 bytes).".to_string())
    );
    assert_eq!(finalize_failure("restart-web-app", "a\nb\nc\nd\ne\nf\ng\nh\ni\n"), "restart-web-app failed: a b c d e f g h");
}

#[test]
fn the_analysis_covers_every_content_entity() {
    let all = analysis_entities();
    assert_eq!(all.len(), 8);
    assert_eq!(all[7], "SysLocalizableValue");
    assert!(scans_images("BulkEmail"));
    assert!(!scans_images("Campaign"));
}

#[test]
fn scripts_wrap_their_inserts_in_one_transaction() {
    assert_eq!(flow_schemas_script(&owned(&["INSERT a;", "INSERT b;"])), "BEGIN;\nINSERT a;\nINSERT b;\nCOMMIT;\n");
    assert_eq!(flow_schemas_script(&vec![]), "BEGIN;\nCOMMIT;\n");
    let rows = vec![CampaignItemRow {
        id: "i".into(),
        campaign_id: None,
        name: "".into(),
        is_deleted: None,
        element_type: "t".into(),
        record_id: None,
        sys_schema_uid: None,
    }];
    let script = campaign_items_script(&rows, "sup");
    assert!(script.starts_with("BEGIN;\nINSERT INTO"));
    assert!(script.ends_with("DO NOTHING;\nCOMMIT;"));
}

#[test]
fn only_a_campaign_drops_its_flow_link() {
    assert_eq!(row_drop_fields("Campaign"), vec!["CampaignSchemaUId"]);
    assert!(row_drop_fields("BulkEmail").is_empty());
}

#[test]
fn finalization_needs_a_target_and_stops_on_a_failed_step() {
    assert_eq!(finalize_target("  "), Err("Choose a target environment.".to_string()));
    assert_eq!(finalize_target("pre"), Ok(()));
    assert_eq!(finalize_step("clear-redis-db", 0, "ok"), Ok(()));
    assert_eq!(finalize_step("restart-web-app", 1, "boom\nmore"), Err("restart-web-app failed: boom more".to_string()));
    assert_eq!(
        finalize_step("restart-web-app", 0, "[ERR] - (500) Internal Server Error"),
        Err("restart-web-app failed: [ERR] - (500) Internal Server Error".to_string())
    );
}

#[test]
fn odata_reads_page_until_a_short_page() {
    assert_eq!(next_skip(0, 100), Some(100));
    assert_eq!(next_skip(200, 100), Some(300));
    assert_eq!(next_skip(300, 42), None);
    assert_eq!(next_skip(0, 0), None);
}

fn json_of(value: serde_json::Value) -> JsonValue {
    match value {
        serde_json::Value::Null => JsonValue::Null,
        serde_json::Value::Bool(b) => JsonValue::Bool(b),
        serde_json::Value::Number(n) => JsonValue::Number(n.to_string()),
        serde_json::Value::String(s) => JsonValue::Str(s),
        serde_json::Value::Array(items) => JsonValue::Array(items.into_iter().map(json_of).collect()),
        serde_json::Value::Object(members) => {
            JsonValue::Object(members.into_iter().map(|(k, v)| (k, json_of(v))).collect())
        }
    }
}

fn row(raw: &str) -> JsonValue {
    json_of(serde_json::from_str(raw).unwrap())
}

#[test]
fn odata_rows_are_read_by_id_and_name() {
    let a = row(r#"{"Id":"a1","DisplayName":"Shown","Count":3}"#);
    let b = row(r#"{"Id":7,"Name":"Named","DisplayName":"Other","Image":"/0/rest/ImageService/x"}"#);
    assert_eq!(row_id(&a), "a1");
    assert_eq!(row_name(&a), "Shown");
    assert_eq!(row_id(&b), "");
    assert_eq!(row_name(&b), "Named");
    let rows = vec![a, b];
    assert_eq!(row_ids(&rows), vec![Some("a1".to_string()), None]);
    assert_eq!(row_empty_names(&rows), vec![true, false]);
    let scanned = scanned_rows(&rows);
    assert_eq!(scanned[1].texts, vec!["Other".to_string(), "/0/rest/ImageService/x".to_string(), "Named".to_string()]);
}

#[test]
fn odata_row_fields_are_classified_for_cleaning() {
    let fields = row_fields(&row(r#"{"A":"x","B":1,"C":{"d":1},"D":[1],"E":null}"#));
    assert_eq!(
        fields,
        vec![
            ("A".to_string(), FieldValue::Text("x".to_string())),
            ("B".to_string(), FieldValue::Scalar),
            ("C".to_string(), FieldValue::Structured),
            ("D".to_string(), FieldValue::Structured),
            ("E".to_string(), FieldValue::Scalar),
        ]
    );
    assert!(row_fields(&row("[1]")).is_empty());
}

#[test]
fn flow_schema_and_campaign_item_rows_are_read() {
    let f = flow_schema_of(&row(r#"{"Id":"s1","UId":"u1","Name":"Flow","IsNetStandard":true}"#));
    assert_eq!(f.id, "s1");
    assert_eq!(f.caption, "");
    assert_eq!(f.is_net_standard, Some(true));
    let c = campaign_item_of(&row(r#"{"Id":"i1","CampaignId":"c1","IsDeleted":false,"RecordId":null}"#));
    assert_eq!(c.campaign_id.as_deref(), Some("c1"));
    assert_eq!(c.is_deleted, Some(false));
    assert_eq!(c.record_id, None);
    assert_eq!(c.name, "");
}
