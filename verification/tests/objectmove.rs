use creatio_devhub::objectmove::{
    checked_table, columns_from_result, columns_sql, count_sql, dependencies_from_result, dependencies_sql,
    list_objects_sql, objects_from_result, parse_i64, row_count, ObjectColumn, ObjectDependency, ObjectInfo,
};

fn owned(values: &[&str]) -> Vec<String> {
    values.iter().map(|v| v.to_string()).collect()
}

#[test]
fn list_objects_sql_escapes_the_filter_and_scopes_to_entity_schemas() {
    let sql = list_objects_sql("Lead");
    assert!(sql.contains("ILIKE '%Lead%'"));
    assert!(sql.contains("'EntitySchemaManager'"));
    assert!(sql.contains("LIMIT 300"));
    assert!(list_objects_sql("O'Brien").contains("ILIKE '%O''Brien%'"));
}

#[test]
fn dependencies_sql_reads_foreign_keys_for_the_table() {
    let sql = dependencies_sql("Lead");
    assert!(sql.contains("FOREIGN KEY"));
    assert!(sql.contains("tc.table_name = 'Lead'"));
}

#[test]
fn columns_sql_orders_by_position() {
    let sql = columns_sql("Contact");
    assert!(sql.contains("table_name = 'Contact'"));
    assert!(sql.contains("ORDER BY ordinal_position"));
}

#[test]
fn object_results_are_read_by_column() {
    let objects = objects_from_result(&owned(&["Package", "Table"]), &vec![owned(&["Base", "Lead"]), owned(&["X", ""])]).unwrap();
    assert_eq!(objects, vec![ObjectInfo { table: "Lead".into(), package: "Base".into() }]);
    assert_eq!(
        objects_from_result(&owned(&["Table"]), &vec![]),
        Err("The object search returned an unexpected shape.".to_string())
    );
    let columns = columns_from_result(
        &owned(&["Column", "Type", "Nullable"]),
        &vec![owned(&["Id", "uuid", "NO"]), owned(&["Name", "text", "yes"]), owned(&["", "x", "YES"])],
    )
    .unwrap();
    assert_eq!(
        columns,
        vec![
            ObjectColumn { name: "Id".into(), data_type: "uuid".into(), nullable: false },
            ObjectColumn { name: "Name".into(), data_type: "text".into(), nullable: true },
        ]
    );
    let deps = dependencies_from_result(
        "Lead",
        &owned(&["Column", "RefTable"]),
        &vec![owned(&["OwnerId", "Contact"]), owned(&["Id", "Lead"]), owned(&["X", ""])],
    )
    .unwrap();
    assert_eq!(deps, vec![ObjectDependency { column: "OwnerId".into(), references_table: "Contact".into() }]);
}

#[test]
fn row_counts_parse_like_i64() {
    assert_eq!(row_count(&owned(&["Count"]), &vec![owned(&[" 42 "])]), Ok(42));
    assert_eq!(row_count(&owned(&["Count"]), &vec![]), Ok(0));
    assert_eq!(row_count(&owned(&["Count"]), &vec![owned(&["x"])]), Ok(0));
    assert_eq!(row_count(&owned(&["N"]), &vec![]), Err("No count returned.".to_string()));
    assert_eq!(parse_i64("-9223372036854775808"), Some(i64::MIN));
    assert_eq!(parse_i64("+7"), Some(7));
    assert_eq!(parse_i64("-+7"), None);
    assert_eq!(parse_i64("9223372036854775808"), None);
}

#[test]
fn unsafe_tables_are_refused_before_any_query() {
    assert_eq!(checked_table(" Lead "), Ok("Lead".to_string()));
    assert_eq!(checked_table("Lead; DROP"), Err("Refusing an unsafe table name: Lead; DROP".to_string()));
    assert_eq!(count_sql("Lead"), "SELECT COUNT(*)::text AS \"Count\" FROM \"Lead\"");
}
