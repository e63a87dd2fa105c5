use creatio_devhub::sql::{select_outcome, 
    database_error, emits_only_notices, friendly_error, is_failure, parse_csv, returns_rows,
};

#[test]
fn extracts_clean_clio_error_messages() {
    let output = "[INF] Starting\n[ERR] First failure\n[ERR] Second failure\n";
    assert_eq!(friendly_error(output), "First failure Second failure");
}

#[test]
fn a_statement_without_a_result_set_is_not_a_failure() {
    let out = "[WAR] - clio 8.1.0.87 is available. Run 'dotnet tool update clio -g' to update.\n\
               UPDATE \"SysPackage\" SET \"Maintainer\" = 'Customer' WHERE \"Name\" = 'QntCreatioERD';\n\
               \n\
               Done\n";
    assert!(!is_failure(0, out));
}

#[test]
fn errors_are_still_failures_whatever_the_exit_code() {
    assert!(is_failure(1, "something went wrong"));
    assert!(is_failure(0, "[ERR] - relation \"foo\" does not exist"));
}

const REJECTED_QUERY: &str = "[WAR] - clio 8.1.0.87 is available. Run 'dotnet tool update clio -g' to update.\n\
    SELECT s.\"Name\", a.\"Name\" AS app\n\
    FROM \"SysSchema\" s\n\
    \n\
    42703: column p.SysInstalledAppId does not exist\n\
    \n\
    POSITION: 186\n\
    Done\n";

#[test]
fn a_rejected_query_is_a_failure_despite_exit_zero_and_no_err_marker() {
    assert!(is_failure(0, REJECTED_QUERY));
}

#[test]
fn the_reported_error_is_the_database_message_not_the_echoed_sql() {
    assert_eq!(friendly_error(REJECTED_QUERY), "42703: column p.SysInstalledAppId does not exist POSITION: 186");
}

#[test]
fn a_rejected_statement_is_a_failure_too() {
    let out = "UPDATE \"NoSuchTableHere\" SET \"X\" = 1 WHERE 1 = 0;\n\
               \n\
               42P01: relation \"NoSuchTableHere\" does not exist\n\
               \n\
               POSITION: 8\n\
               Done\n";
    assert!(is_failure(0, out));
}

#[test]
fn a_successful_statement_is_never_mistaken_for_an_error() {
    let out = "[WAR] - clio 8.1.0.87 is available.\n\
               UPDATE \"SysPackage\" SET \"Maintainer\" = 'Customer' WHERE \"Name\" = 'QntCreatioERD';\n\
               \n\
               Done\n";
    assert!(!is_failure(0, out));
    assert_eq!(database_error(out), None);
}

#[test]
fn queries_are_told_apart_from_statements() {
    assert!(returns_rows("SELECT 1"));
    assert!(returns_rows("  \n select \"Name\" from \"SysPackage\""));
    assert!(returns_rows("WITH x AS (SELECT 1) SELECT * FROM x"));
    assert!(returns_rows("(SELECT 1)"));
    assert!(!returns_rows("UPDATE \"SysPackage\" SET \"IsChanged\" = TRUE"));
    assert!(!returns_rows("DO $$ BEGIN END $$;"));
    assert!(!returns_rows("insert into \"X\" values (1)"));
}

#[test]
fn notice_only_blocks_are_recognized() {
    assert!(emits_only_notices("DO $$ BEGIN RAISE NOTICE 'x'; END $$;"));
    assert!(emits_only_notices("do\n$$ begin raise notice 'x'; end $$;"));
    assert!(emits_only_notices("DO$$BEGIN END$$;"));
    assert!(emits_only_notices("SELECT 1;\nRAISE NOTICE 'hi';"));
}

#[test]
fn ordinary_sql_is_not_notice_only() {
    assert!(!emits_only_notices("SELECT * FROM \"Contact\""));
    assert!(!emits_only_notices("UPDATE \"Contact\" SET \"Name\" = 'x'"));
    assert!(!emits_only_notices("DOMAIN something"));
}

#[test]
fn clio_chatter_is_stripped_from_the_fallback_message() {
    let out = "[WAR] - clio 8.1.0.87 is available. Run 'dotnet tool update clio -g' to update.\n\
               [INF] - connecting\n\
               syntax error at or near \"SELCT\"\n";
    assert_eq!(friendly_error(out), "syntax error at or near \"SELCT\"");
}

#[test]
fn parses_semicolon_delimited_results() {
    let bytes = b"Id;Name;Notes\r\n1;Alice;\"Contains; semicolon\"\r\n2;Bob;\r\n";
    let result = parse_csv(bytes).expect("parse SQL result fixture");
    assert_eq!(result.columns, vec!["Id", "Name", "Notes"]);
    assert_eq!(result.rows, vec![vec!["1", "Alice", "Contains; semicolon"], vec!["2", "Bob", ""]]);
    assert_eq!(result.row_count, 2);
    assert!(!result.truncated);
}

#[test]
fn uncapped_selects_read_the_whole_file() {
    let bytes = b"Id;Name\r\n1;Alice\r\n2;\"Bob; Jr\"\r\n";
    let (columns, rows) = select_outcome(0, "[INF] done", Some(&bytes[..])).unwrap();
    assert_eq!(columns, vec!["Id", "Name"]);
    assert_eq!(rows, vec![vec!["1".to_string(), "Alice".to_string()], vec!["2".to_string(), "Bob; Jr".to_string()]]);
    assert_eq!(select_outcome(0, "", None), Ok((vec![], vec![])));
    assert!(select_outcome(1, "[ERR] - boom", Some(&bytes[..])).is_err());
}
