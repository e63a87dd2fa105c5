use creatio_devhub::refdata::{
    compare_envs, forward_preview, migration_envs, require_tables, migration_outcome, build_snapshot, build_snapshot_at, build_delete_sql, build_upsert_sql, capture_sql, dedupe_by_table, diff_snapshots, enumeration_sql,
    escape_literal, forward_sql, is_safe_identifier, lock_order, plan_infos, quoted, registry_infos, rollback_block,
    rows_from_result, safe_env, select_table_sql, DiffReport, LookupInfo, LookupRow, LookupSnapshot,
    LookupTable, TablePlan,
};

fn row(id: &str, name: &str, description: Option<&str>) -> LookupRow {
    LookupRow { id: id.to_string(), name: name.to_string(), description: description.map(String::from) }
}

fn snapshot(env: &str, tables: &[(&str, &str, &[LookupRow])]) -> LookupSnapshot {
    LookupSnapshot::new(
        env.to_string(),
        1,
        tables
            .iter()
            .map(|(table, title, rows)| {
                (table.to_string(), LookupTable { title: title.to_string(), rows: rows.to_vec() })
            })
            .collect(),
    )
}

fn count(report: &DiffReport, category: &str) -> Option<usize> {
    report.counts.iter().find(|(name, _)| name == category).map(|(_, n)| *n)
}

fn ids(values: &[&str]) -> Vec<String> {
    values.iter().map(|v| v.to_string()).collect()
}

fn info(name: &str, table: &str, package: &str, has_description: bool) -> LookupInfo {
    LookupInfo { name: name.into(), table: table.into(), package: package.into(), has_description }
}

#[test]
fn identifier_guard_rejects_anything_that_could_carry_sql() {
    assert!(is_safe_identifier("CasePriority"));
    assert!(is_safe_identifier("UsrMy_Lookup1"));
    assert!(!is_safe_identifier(""));
    assert!(!is_safe_identifier("Case Priority"));
    assert!(!is_safe_identifier("Case\";DROP"));
    assert!(!is_safe_identifier("Case'--"));
}

#[test]
fn enumeration_excludes_tables_without_a_name_column() {
    let sql = enumeration_sql();
    assert!(sql.contains("WHERE EXISTS"));
    assert!(sql.contains("c.column_name = 'Name'"));
}

#[test]
fn dedupe_by_table_keeps_the_first_entry() {
    let infos = vec![
        info("Lead type", "LeadType", "Base", true),
        info("Lead type (again)", "LeadType", "Other", true),
        info("Flag", "UsrFlag", "Custom", false),
    ];
    let deduped = dedupe_by_table(infos);
    assert_eq!(deduped.len(), 2);
    assert_eq!(deduped[0].name, "Lead type");
    assert_eq!(deduped[1].table, "UsrFlag");
}

#[test]
fn capture_sql_unions_only_safe_tables() {
    let infos = vec![
        info("Case priority", "CasePriority", "Base", true),
        info("Bad", "Bad Table", "X", false),
        info("Flag", "UsrFlag", "Custom", false),
    ];
    let sql = capture_sql(&infos);
    assert!(sql.contains("FROM \"CasePriority\""));
    assert!(sql.contains("'CasePriority' AS \"__lk\""));
    assert!(sql.contains("CAST(NULL AS text) AS \"Description\" FROM \"UsrFlag\""));
    assert!(!sql.contains("Bad Table"));
    assert_eq!(sql.matches("UNION ALL").count(), 1);
}

#[test]
fn upsert_is_idempotent_and_keyed_on_id() {
    let rows = vec![row("a1", "High", Some("Urgent")), row("a2", "Low", None)];
    let sql = build_upsert_sql("CasePriority", true, &rows);
    assert!(sql.starts_with("INSERT INTO \"CasePriority\" (\"Id\", \"Name\", \"Description\") VALUES"));
    assert!(sql.contains("('a1', 'High', 'Urgent')"));
    assert!(sql.contains("('a2', 'Low', NULL)"));
    assert!(sql.contains(
        "ON CONFLICT (\"Id\") DO UPDATE SET \"Name\" = EXCLUDED.\"Name\", \"Description\" = EXCLUDED.\"Description\";"
    ));
}

#[test]
fn upsert_without_description_omits_the_column() {
    let rows = vec![row("a1", "Yes", None)];
    let sql = build_upsert_sql("UsrFlag", false, &rows);
    assert!(sql.contains("(\"Id\", \"Name\") VALUES"));
    assert!(sql.contains("('a1', 'Yes')"));
    assert!(!sql.contains("Description"));
}

#[test]
fn upsert_escapes_quotes_in_values() {
    let rows = vec![row("id1", "O'Brien", Some("it's fine"))];
    let sql = build_upsert_sql("UsrName", true, &rows);
    assert!(sql.contains("('id1', 'O''Brien', 'it''s fine')"));
}

#[test]
fn upsert_of_nothing_is_empty() {
    assert!(build_upsert_sql("CasePriority", true, &[]).is_empty());
    assert!(build_upsert_sql("Bad Table", true, &[row("a", "b", None)]).is_empty());
}

#[test]
fn diff_flags_changed_added_and_removed_values() {
    let source = snapshot(
        "dev",
        &[("CasePriority", "Case priority", &[row("a1", "High", None), row("a2", "Low", None)])],
    );
    let target = snapshot(
        "pre",
        &[("CasePriority", "Case priority", &[row("a1", "Critical", None), row("a3", "Trivial", None)])],
    );
    let report = diff_snapshots(&source, &target);
    assert_eq!(report.rows.len(), 1);
    let lookup = &report.rows[0];
    assert_eq!(lookup.category, "lookup");
    assert_eq!(lookup.key, "Case priority");
    assert_eq!(lookup.status, "different");
    assert_eq!(count(&report, "lookup"), Some(1));

    assert_eq!(lookup.detail.len(), 3);
    let find = |id: &str| lookup.detail.iter().find(|r| r.key == id).expect("value row");
    assert_eq!(find("a1").status, "different");
    assert_eq!(find("a1").source.as_deref(), Some("High"));
    assert_eq!(find("a1").target.as_deref(), Some("Critical"));
    assert_eq!(find("a2").status, "missingTarget");
    assert_eq!(find("a3").status, "missingSource");
}

#[test]
fn identical_lookups_report_same_with_no_detail() {
    let rows = [row("a1", "High", Some("x"))];
    let source = snapshot("dev", &[("CasePriority", "Case priority", &rows)]);
    let target = snapshot("pre", &[("CasePriority", "Case priority", &rows)]);
    let report = diff_snapshots(&source, &target);
    assert_eq!(report.rows[0].status, "same");
    assert!(report.rows[0].detail.is_empty());
    assert!(report.counts.is_empty());
}

#[test]
fn a_lookup_present_on_one_side_only_is_flagged() {
    let source = snapshot("dev", &[("UsrOnlyDev", "Only dev", &[row("a1", "X", None)])]);
    let target = snapshot("pre", &[]);
    let report = diff_snapshots(&source, &target);
    assert_eq!(report.rows[0].status, "missingTarget");
    assert_eq!(report.rows[0].source.as_deref(), Some("1 values"));
    assert_eq!(report.rows[0].target, None);
}

#[test]
fn delete_sql_lists_ids_and_guards_unsafe_tables() {
    assert_eq!(
        build_delete_sql("UsrFlag", &ids(&["a1", "a2"])),
        "DELETE FROM \"UsrFlag\" WHERE \"Id\" IN ('a1', 'a2');"
    );
    assert!(build_delete_sql("UsrFlag", &ids(&[])).is_empty());
    assert!(build_delete_sql("Bad Table", &ids(&["a1"])).is_empty());
    assert_eq!(build_delete_sql("T", &ids(&["a'b"])), "DELETE FROM \"T\" WHERE \"Id\" IN ('a''b');");
}

#[test]
fn forward_sql_upserts_each_planned_table() {
    let plans = vec![
        TablePlan {
            info: info("Case priority", "CasePriority", "Base", true),
            source_rows: vec![row("a1", "High", Some("Urgent"))],
        },
        TablePlan { info: info("Flag", "UsrFlag", "Custom", false), source_rows: vec![row("b1", "Yes", None)] },
    ];
    let sql = forward_sql(&plans);
    assert!(sql.contains("-- Case priority (1 rows)"));
    assert!(sql.contains("INSERT INTO \"CasePriority\""));
    assert!(sql.contains("-- Flag (1 rows)"));
    assert!(sql.contains("INSERT INTO \"UsrFlag\""));
}

#[test]
fn description_only_change_still_reads_as_different() {
    let source = snapshot("dev", &[("T", "T", &[row("a1", "Same", Some("old"))])]);
    let target = snapshot("pre", &[("T", "T", &[row("a1", "Same", Some("new"))])]);
    let report = diff_snapshots(&source, &target);
    assert_eq!(report.rows[0].status, "different");
    assert_eq!(report.rows[0].detail.len(), 1);
    assert_eq!(report.rows[0].detail[0].status, "different");
}

#[test]
fn escaped_literals_double_every_quote() {
    assert_eq!(escape_literal("O'Brien's"), "O''Brien''s");
    assert_eq!(escape_literal("plain"), "plain");
}

#[test]
fn select_table_sql_reads_id_name_and_description() {
    let with = select_table_sql("CasePriority", true);
    assert!(with.contains("\"Description\""));
    assert!(with.contains("FROM \"CasePriority\""));
    let without = select_table_sql("UsrFlag", false);
    assert!(without.contains("CAST(NULL AS text)"));
}

#[test]
fn snapshots_sort_tables_and_keep_the_last_duplicate() {
    let s = LookupSnapshot::new(
        "dev".into(),
        5,
        vec![
            ("Zeta".into(), LookupTable { title: "z".into(), rows: vec![] }),
            ("Alpha".into(), LookupTable { title: "first".into(), rows: vec![] }),
            ("Alpha".into(), LookupTable { title: "second".into(), rows: vec![] }),
        ],
    );
    let names: Vec<&str> = s.lookups().iter().map(|(name, _)| name.as_str()).collect();
    assert_eq!(names, vec!["Alpha", "Zeta"]);
    assert_eq!(s.lookups()[0].1.title, "second");
    assert_eq!(s.env(), "dev");
    assert_eq!(s.captured_at(), 5);
}

#[test]
fn diff_rows_follow_table_order_and_fall_back_to_the_table_name() {
    let source = snapshot("dev", &[("B", "", &[]), ("A", "Alpha", &[])]);
    let target = snapshot("pre", &[("C", "", &[row("x", "X", None)])]);
    let report = diff_snapshots(&source, &target);
    let keys: Vec<&str> = report.rows.iter().map(|r| r.key.as_str()).collect();
    assert_eq!(keys, vec!["Alpha", "B", "C"]);
    assert_eq!(report.rows[2].status, "missingSource");
    assert_eq!(report.rows[2].target.as_deref(), Some("1 values"));
    assert_eq!(count(&report, "lookup"), Some(3));
    assert_eq!(report.source_env, "dev");
    assert_eq!(report.target_env, "pre");
}

#[test]
fn rows_are_read_by_column_and_rows_without_an_id_are_dropped() {
    let columns = ids(&["Name", "Id", "Description"]);
    let data = vec![ids(&["High", " a1 ", "Urgent"]), ids(&["Blank", "  ", "x"]), ids(&["Low", "a2", ""])];
    let rows = rows_from_result(&columns, &data);
    assert_eq!(rows, vec![row("a1", "High", Some("Urgent")), row("a2", "Low", None)]);
    assert!(rows_from_result(&ids(&["Id"]), &data).is_empty());
}

#[test]
fn the_registry_needs_name_and_table_columns() {
    let columns = ids(&["Name", "Table", "Package", "HasDescription"]);
    let data = vec![
        ids(&["Lead type", "LeadType", "Base", "1"]),
        ids(&["Again", "LeadType", "Other", "0"]),
        ids(&["No table", "", "X", "1"]),
        ids(&["Flag", "UsrFlag", "Custom", "0"]),
    ];
    let infos = registry_infos(&columns, &data).unwrap();
    assert_eq!(infos, vec![info("Lead type", "LeadType", "Base", true), info("Flag", "UsrFlag", "Custom", false)]);
    assert_eq!(
        registry_infos(&ids(&["Name"]), &data),
        Err("The lookup registry query returned an unexpected shape.".to_string())
    );
}

#[test]
fn migration_plans_fail_closed() {
    let registry = vec![info("Case priority", "CasePriority", "Base", true)];
    assert_eq!(plan_infos("dev", &registry, &ids(&[])), Err("Select at least one lookup to migrate.".to_string()));
    assert_eq!(
        plan_infos("dev", &registry, &ids(&["Bad Table"])),
        Err("Refusing to migrate an unsafe table name: Bad Table".to_string())
    );
    assert_eq!(
        plan_infos("dev", &registry, &ids(&["UsrOther"])),
        Err("UsrOther is not a lookup in dev.".to_string())
    );
    assert_eq!(plan_infos("dev", &registry, &ids(&["CasePriority"])).unwrap(), registry);
}

#[test]
fn rollback_restores_existing_rows_and_deletes_new_ones() {
    let plan = TablePlan {
        info: info("Case priority", "CasePriority", "Base", true),
        source_rows: vec![row("a1", "High", None), row("a9", "New", None)],
    };
    let current = vec![row("a1", "Old high", Some("was"))];
    let sql = rollback_block(&plan, &current);
    assert!(sql.starts_with("-- rollback Case priority (restore 1 / remove 1)\n"));
    assert!(sql.contains("('a1', 'Old high', 'was')"));
    assert!(sql.contains("DELETE FROM \"CasePriority\" WHERE \"Id\" IN ('a9');"));
    let nothing = TablePlan { info: info("Bad", "Bad Table", "X", false), source_rows: vec![row("a", "b", None)] };
    assert!(rollback_block(&nothing, &[]).is_empty());
}

#[test]
fn locks_are_taken_in_name_order() {
    assert_eq!(lock_order("pre", "dev"), ("dev".to_string(), "pre".to_string()));
    assert_eq!(lock_order("dev", "pre"), ("dev".to_string(), "pre".to_string()));
}

#[test]
fn snapshot_file_names_are_safe() {
    assert_eq!(safe_env("dev/834 x"), Ok("dev_834_x".to_string()));
    assert_eq!(safe_env(""), Err("Select an environment first.".to_string()));
}

#[test]
fn snapshots_are_seeded_by_the_registry_and_grouped_by_table() {
    let infos = vec![
        info("Case priority", "CasePriority", "Base", true),
        info("Flag", "UsrFlag", "Custom", false),
        info("Flag (renamed)", "UsrFlag", "Custom", false),
        info("Empty", "UsrEmpty", "Custom", false),
    ];
    let columns = ids(&["__lk", "Id", "Name", "Description"]);
    let data = vec![
        ids(&["CasePriority", " a1 ", "High", "Urgent"]),
        ids(&["UsrFlag", "f1", "Yes", ""]),
        ids(&["Unregistered", "u1", "Lost", ""]),
        ids(&["CasePriority", "  ", "No id", ""]),
        ids(&["CasePriority", "a2", "Low"]),
    ];
    let s = build_snapshot_at("dev", &infos, &columns, &data, 77);
    assert_eq!(s.env(), "dev");
    assert_eq!(s.captured_at(), 77);
    let tables: Vec<&str> = s.lookups().iter().map(|(t, _)| t.as_str()).collect();
    assert_eq!(tables, vec!["CasePriority", "UsrEmpty", "UsrFlag"]);
    let case = &s.lookups()[0].1;
    assert_eq!(case.title, "Case priority");
    assert_eq!(case.rows, vec![row("a1", "High", Some("Urgent")), row("a2", "Low", None)]);
    assert!(s.lookups()[1].1.rows.is_empty());
    assert_eq!(s.lookups()[2].1.title, "Flag (renamed)");
    assert_eq!(s.lookups()[2].1.rows, vec![row("f1", "Yes", None)]);

    let shapeless = build_snapshot("dev", &infos, &ids(&["Id", "Name"]), &data);
    assert_eq!(shapeless.lookups().len(), 3);
    assert!(shapeless.lookups().iter().all(|(_, t)| t.rows.is_empty()));
}

#[test]
fn a_rejected_migration_is_reported_and_never_exits_zero() {
    let out = "[INF] - starting\n\n   \n[ERR] - relation \"x\" does not exist\n";
    let (lines, code) = migration_outcome(0, out, false, 3, 1, "pre");
    assert_eq!(code, 1);
    assert_eq!(lines[0], "[INF] - starting");
    assert_eq!(lines[1], "[ERR] - relation \"x\" does not exist");
    assert!(lines[2].starts_with("Migration failed: "));
    assert!(lines[3].starts_with("Nothing was committed"));
    assert_eq!(lines.len(), 4);
    let (skipped, code) = migration_outcome(5, "", true, 3, 1, "pre");
    assert_eq!(code, 5);
    assert_eq!(skipped.len(), 1);
}

#[test]
fn a_clean_migration_reports_its_counts() {
    let (lines, code) = migration_outcome(0, "done\n", false, 12, 2, "pre");
    assert_eq!(code, 0);
    assert_eq!(lines, vec!["done".to_string(), "✓ Migrated 12 row(s) across 2 lookup(s) to pre.".to_string()]);
}

#[test]
fn migration_requests_are_checked() {
    assert_eq!(migration_envs(" dev ", "pre"), Ok(("dev".to_string(), "pre".to_string())));
    assert_eq!(migration_envs("dev", " dev "), Err("Choose a different target environment.".to_string()));
    assert_eq!(require_tables(0), Err("Select at least one lookup to migrate.".to_string()));
    assert_eq!(require_tables(2), Ok(()));
    assert_eq!(forward_preview(String::new()), Err("The selected lookups have no rows to migrate.".to_string()));
    assert_eq!(forward_preview("-- x".to_string()), Ok("-- x".to_string()));
    assert_eq!(compare_envs("dev ", "dev"), Err("Choose two different environments to compare.".to_string()));
    assert_eq!(compare_envs("dev", "pre"), Ok(()));
}

#[test]
fn a_quoted_value_ends_at_its_own_closing_quote() {
    assert_eq!(quoted("it's"), "'it''s'");
    assert_eq!(quoted("'"), "''''");
    assert_eq!(quoted(""), "''");
}

#[test]
fn a_rollback_undoes_an_update_and_an_insert() {
    let plan = TablePlan {
        info: LookupInfo {
            name: "Tier".to_string(),
            table: "Tier".to_string(),
            package: "Custom".to_string(),
            has_description: false,
        },
        source_rows: vec![row("a", "new", None), row("b", "added", None)],
    };
    let current = vec![row("a", "old", None), row("c", "other", None)];
    let sql = rollback_block(&plan, &current);
    assert!(sql.starts_with("-- rollback Tier (restore 1 / remove 1)\n"));
    assert!(sql.contains("('a', 'old')"));
    assert!(!sql.contains("'other'"));
    assert!(sql.contains("DELETE FROM \"Tier\" WHERE \"Id\" IN ('b');"));
}
