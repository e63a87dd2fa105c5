use creatio_devhub::applications::{
    app_descriptor, app_packages_sql, parse_applications_json, applications_from_rows, apply_descriptor, deploy_args, deploy_note, deploy_outcome, descriptor_sql,
    empty_details, extras_from_result, merge_app_info, require_app_code, sql_literal, AppDescriptor,
    ApplicationInfo, ApplicationPage,
};
use creatio_devhub::json::JsonValue;
use creatio_devhub::sql::SqlResult;

const APP_INFO: &str = r#"[WAR] - clio 8.1.0.87 is available. Run 'dotnet tool update clio -g' to update.
[INF] - {
  "PackageUId": "2ffe3cd2-6221-4d3b-948c-54fc3ed0dda5",
  "PackageName": "QntCreatioERD",
  "Entities": [],
  "Pages": [
    {"schema-name":"QntERDDiagramPage","uId":"8c51dae3","packageName":"QntCreatioERD","parentSchemaName":"PageWithAreaFreedomTemplate"},
    {"schema-name":"SystemDesigner","uId":"172b5440","packageName":"QntCreatioERD","parentSchemaName":"SystemDesigner"}
  ],
  "ApplicationId": "b5d1bbea-a974-449c-9fa4-33efdeb4f28e",
  "ApplicationName": "Creatio ERD",
  "ApplicationCode": "QntCreatioERD",
  "ApplicationVersion": "1.0.0",
  "SchemaNamePrefix": "Qnt"
}"#;

fn json_of(value: serde_json::Value) -> JsonValue {
    match value {
        serde_json::Value::Null => JsonValue::Null,
        serde_json::Value::Bool(b) => JsonValue::Bool(b),
        serde_json::Value::Number(n) => JsonValue::Number(n.to_string()),
        serde_json::Value::String(s) => JsonValue::Str(s),
        serde_json::Value::Array(items) => JsonValue::Array(items.into_iter().map(json_of).collect()),
        serde_json::Value::Object(members) => {
            JsonValue::Object(members.into_iter().map(|(k, v)| (k, json_of(v))).collect())
        }
    }
}

fn first_json(raw: &str) -> Option<Result<JsonValue, String>> {
    serde_json::Deserializer::from_str(raw)
        .into_iter::<serde_json::Value>()
        .next()
        .map(|item| item.map(json_of).map_err(|error| error.to_string()))
}

fn read_descriptor(output: &str) -> Option<AppDescriptor> {
    let start = output.find('{')?;
    let value: serde_json::Value = serde_json::from_str(&output[start..]).ok()?;
    Some(app_descriptor(&json_of(value)))
}

#[test]
fn reads_the_descriptor_clio_prints_after_its_log_prefix() {
    let mut details = empty_details(String::new());
    merge_app_info(&mut details, APP_INFO, read_descriptor(APP_INFO));
    assert_eq!(details.name, "Creatio ERD");
    assert_eq!(details.version, "1.0.0");
    assert_eq!(details.schema_name_prefix, "Qnt");
    assert_eq!(details.pages.len(), 2);
    assert_eq!(details.pages[1].schema_name, "SystemDesigner");
    assert_eq!(details.pages[0].parent_schema_name, "PageWithAreaFreedomTemplate");
    assert!(details.notes.is_empty());
}

#[test]
fn unreadable_descriptor_becomes_a_note_not_a_failure() {
    let mut details = empty_details(String::new());
    let output = "[INF] - not json at all";
    merge_app_info(&mut details, output, read_descriptor(output));
    assert_eq!(details.notes.len(), 1);
    assert!(details.pages.is_empty());
}

#[test]
fn columns_are_read_by_name_and_tolerate_absence() {
    let columns = vec!["Code".to_string(), "Maintainer".to_string()];
    let row = vec!["QntCreatioERD".to_string(), "Customer".to_string()];
    assert_eq!(creatio_devhub::applications::column(&columns, &row, "Maintainer"), "Customer");
    assert_eq!(creatio_devhub::applications::column(&columns, &row, "code"), "QntCreatioERD");
    assert_eq!(creatio_devhub::applications::column(&columns, &row, "InstallDate"), "");
}

#[test]
fn application_codes_cannot_break_out_of_the_sql_literal() {
    assert_eq!(sql_literal("O'Brien"), "O''Brien");
    assert!(descriptor_sql("O'Brien").ends_with("WHERE a.\"Code\" = 'O''Brien'"));
    assert!(app_packages_sql("X").contains("WHERE a.\"Code\" = 'X'"));
}

#[test]
fn the_listing_drops_codeless_rows_and_sorts_by_name() {
    let app = |name: &str, code: &str, description: Option<&str>| ApplicationInfo {
        id: "1".into(),
        name: name.into(),
        code: code.into(),
        version: "1.0".into(),
        description: description.map(String::from),
    };
    let out = applications_from_rows(vec![app("zeta", "Z", Some("")), app("none", "", None), app("Alpha", "A", Some("x"))]);
    assert_eq!(out, vec![app("Alpha", "A", Some("x")), app("zeta", "Z", None)]);
}

#[test]
fn extras_need_a_code_and_count_packages() {
    let result = SqlResult {
        columns: vec!["Code".into(), "Maintainer".into(), "PackageCount".into()],
        rows: vec![vec!["A".into(), "M".into(), "3".into()], vec!["".into(), "M".into(), "1".into()], vec!["B".into(), "N".into(), "x".into()]],
        row_count: 3,
        truncated: false,
        statement: false,
        messages: vec![],
    };
    let extras = extras_from_result(&result);
    assert_eq!(extras.len(), 2);
    assert_eq!(extras[0].package_count, 3);
    assert_eq!(extras[1].package_count, 0);
    assert_eq!(extras[1].created_on, "");
}

#[test]
fn the_descriptor_row_fills_only_missing_names() {
    let mut details = empty_details("A".into());
    details.name = "From clio".into();
    let columns = vec!["Name".to_string(), "Version".to_string(), "Maintainer".to_string()];
    let row = vec!["From SQL".to_string(), "2.0".to_string(), "Me".to_string()];
    apply_descriptor(&mut details, &columns, &row);
    assert_eq!(details.name, "From clio");
    assert_eq!(details.version, "2.0");
    assert_eq!(details.maintainer, "Me");
    assert_eq!(details.help_link, "");
}

#[test]
fn deployment_checks_the_code() {
    assert_eq!(require_app_code(" -x"), Err("Invalid application code.".to_string()));
    assert_eq!(require_app_code(" Twk "), Ok("Twk".to_string()));
    assert_eq!(deploy_args("Twk", "dev", "pre"), vec!["deploy-application", "Twk", "-e", "dev", "-d", "pre"]);
}

#[test]
fn an_application_deployment_reports_its_outcome() {
    assert!(deploy_note("App", "dev", "pre").starts_with("Deploying application App from dev to pre. This clio operation"));
    assert_eq!(deploy_outcome(Ok(0), "App", "dev", "pre"), (vec!["✓ App deployed from dev to pre.".to_string()], 0));
    assert_eq!(deploy_outcome(Ok(5), "App", "dev", "pre"), (vec![], 5));
    assert_eq!(deploy_outcome(Err("no clio".to_string()), "App", "dev", "pre"), (vec!["no clio".to_string()], 1));
}

#[test]
fn parses_application_array_and_trailing_warning() {
    let raw = r#"[
      {"Id":"1","Name":"Thoughtworks Core","Code":"TwkCore","Version":"1.0.2","Description":null},
      {"Id":"2","Name":"Thoughtworks Reporting","Code":"TwkReporting","Version":"1.0.0","Description":"Reports"}
    ]
    [WAR] - a newer clio is available"#;
    assert_eq!(
        parse_applications_json(first_json(raw)).unwrap(),
        vec![
            ApplicationInfo {
                id: "1".into(),
                name: "Thoughtworks Core".into(),
                code: "TwkCore".into(),
                version: "1.0.2".into(),
                description: None
            },
            ApplicationInfo {
                id: "2".into(),
                name: "Thoughtworks Reporting".into(),
                code: "TwkReporting".into(),
                version: "1.0.0".into(),
                description: Some("Reports".into())
            }
        ]
    );
}

#[test]
fn application_json_in_a_data_envelope_with_camel_case_keys() {
    let raw = r#"{"data":[{"id":"9","name":"zeta","code":"Z"},{"Id":"3","Name":"Alpha","Code":"A","Version":1}]}"#;
    let apps = parse_applications_json(first_json(raw)).unwrap();
    assert_eq!(apps.len(), 2);
    assert_eq!(apps[0].code, "A");
    assert_eq!(apps[0].version, "");
    assert_eq!(apps[1].id, "9");
    assert_eq!(apps[1].name, "zeta");
}

#[test]
fn application_json_failures_are_explained() {
    assert_eq!(parse_applications_json(first_json("   ")), Err("clio returned no application JSON.".to_string()));
    let invalid = parse_applications_json(first_json("[WAR] - nothing")).unwrap_err();
    assert!(invalid.starts_with("Invalid clio application JSON: "));
    assert_eq!(parse_applications_json(first_json(r#"{"ok":true}"#)), Err("clio application JSON has no data array.".to_string()));
}
