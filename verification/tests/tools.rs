use creatio_devhub::tools::{search_dirs, search_plan, Probe,
    candidates, expand_env, not_found, override_for, parse_reg_path, resolve, searched_locations,
    well_known_dirs, ToolCache, ToolEnv,
};

fn no_env() -> ToolEnv {
    ToolEnv { home: None, program_files: None, program_files_x86: None, local: None, program_data: None }
}

fn folders(program: &str, env: &ToolEnv) -> Vec<String> {
    well_known_dirs(program, env)
        .into_iter()
        .map(|(base, tail)| if tail.is_empty() { base } else { format!("{base}\\{tail}") })
        .collect()
}

#[test]
fn candidates_cover_shims_on_windows() {
    let names = candidates("gh", true, false, None);
    assert!(names.contains(&"gh".to_string()));
    assert!(names.contains(&"gh.cmd".to_string()));
    assert!(names.contains(&"gh.exe".to_string()));
    assert_eq!(candidates("gh", false, false, None), vec!["gh".to_string()]);
}

#[test]
fn candidates_respect_an_explicit_extension() {
    assert_eq!(candidates("gh.exe", true, true, None), vec!["gh.exe".to_string()]);
}

#[test]
fn unknown_tools_still_fall_back_to_the_bare_name() {
    assert_eq!(resolve("definitely-not-a-real-tool", None), "definitely-not-a-real-tool");
    assert_eq!(resolve("gh", Some("/usr/bin/gh".to_string())), "/usr/bin/gh");
}

#[test]
fn searched_locations_start_with_path() {
    let searched = searched_locations(&folders("gh", &no_env()));
    assert_eq!(searched[0], "PATH");
    assert!(searched.len() > 1);
}

#[test]
fn parses_the_path_value_out_of_reg_output() {
    let vars = vec![("DEVHUB_TEST_HOME".to_string(), "C:\\Users\\test".to_string())];
    let out = "\r\nHKEY_CURRENT_USER\\Environment\r\n    Temp    REG_SZ    C:\\tmp\r\n    Path    REG_EXPAND_SZ    C:\\Program Files\\GitHub CLI\\;%DEVHUB_TEST_HOME%\\.dotnet\\tools;\r\n";
    let dirs = parse_reg_path(out, &vars);
    assert_eq!(dirs, vec!["C:\\Program Files\\GitHub CLI\\".to_string(), "C:\\Users\\test\\.dotnet\\tools".to_string()]);
}

#[test]
fn expand_env_substitutes_known_vars_only() {
    let vars = vec![("DEVHUB_TEST_VAR".to_string(), "C:\\tools".to_string())];
    assert_eq!(expand_env("%DEVHUB_TEST_VAR%\\bin", &vars), "C:\\tools\\bin");
    assert_eq!(expand_env("%DEVHUB_NOT_SET%\\bin", &vars), "%DEVHUB_NOT_SET%\\bin");
    assert_eq!(expand_env("C:\\plain", &vars), "C:\\plain");
    assert_eq!(expand_env("50% off", &vars), "50% off");
}

#[test]
fn well_known_folders_follow_the_tool() {
    let env = ToolEnv {
        home: Some("H".into()),
        program_files: Some("PF".into()),
        program_files_x86: None,
        local: Some("L".into()),
        program_data: None,
    };
    let dirs = folders("git", &env);
    assert_eq!(dirs[0], "PF\\Git\\cmd");
    assert_eq!(dirs[1], "L\\Programs\\Git\\cmd");
    assert!(dirs.contains(&"H\\scoop\\shims".to_string()));
    assert_eq!(dirs.last().map(String::as_str), Some("/usr/bin"));
    assert_eq!(folders("unknown", &no_env()).len(), 3);
}

#[test]
fn the_not_found_message_lists_where_we_looked() {
    let searched = vec!["PATH".to_string(), "/usr/bin".to_string()];
    assert_eq!(
        not_found("gh", &searched),
        "Could not find gh. Searched: PATH, /usr/bin. If it is installed somewhere else, set its path in Settings."
    );
}

#[test]
fn the_cache_remembers_hits_and_misses_until_cleared() {
    let mut cache = ToolCache::new();
    assert_eq!(cache.locate("gh"), None);
    cache.remember("gh".into(), Some("/usr/bin/gh".into()));
    cache.remember("clio".into(), None);
    assert_eq!(cache.locate("gh"), Some(Some("/usr/bin/gh".to_string())));
    assert_eq!(cache.locate("clio"), Some(None));
    cache.clear_cache();
    assert_eq!(cache.locate("gh"), None);
}

#[test]
fn overrides_must_name_a_file() {
    assert_eq!(override_for("  ", false), Ok(None));
    assert_eq!(override_for(" /x/gh ", true), Ok(Some("/x/gh".to_string())));
    assert_eq!(override_for("/nope", false), Err("No file at /nope.".to_string()));
}

#[test]
fn the_live_path_adds_only_new_folders() {
    let inherited = vec!["C:\\a".to_string(), "C:\\b".to_string()];
    let live = vec!["C:\\b".to_string(), "C:\\c".to_string(), "C:\\c".to_string()];
    assert_eq!(search_dirs(inherited, &live), vec!["C:\\a", "C:\\b", "C:\\c"]);
    assert_eq!(search_dirs(vec![], &vec![]), Vec::<String>::new());
}

#[test]
fn a_found_tool_stays_found_until_the_cache_is_cleared() {
    let mut cache = ToolCache::new();
    assert_eq!(cache.settle("git".to_string(), Some("/usr/bin/git".to_string())), Some("/usr/bin/git".to_string()));
    assert_eq!(cache.settle("git".to_string(), None), Some("/usr/bin/git".to_string()));
    assert_eq!(cache.settle("gh".to_string(), None), None);
    assert_eq!(cache.locate("git"), Some(Some("/usr/bin/git".to_string())));
    assert_eq!(cache.locate("gh"), Some(None));
    cache.clear_cache();
    assert_eq!(cache.locate("git"), None);
}

#[test]
fn a_tool_is_looked_for_pin_first_then_path_then_known_folders() {
    let s = |v: &str| v.to_string();
    let plan = search_plan(Some(s("/opt/git")), &vec![s("/a"), s("/b")], &vec![s("/k")], &vec![s("git.exe"), s("git")]);
    assert_eq!(
        plan,
        vec![
            Probe::File(s("/opt/git")),
            Probe::InDir(s("/a"), s("git.exe")),
            Probe::InDir(s("/a"), s("git")),
            Probe::InDir(s("/b"), s("git.exe")),
            Probe::InDir(s("/b"), s("git")),
            Probe::InDir(s("/k"), s("git.exe")),
            Probe::InDir(s("/k"), s("git")),
        ]
    );
    assert_eq!(search_plan(None, &vec![], &vec![s("/k")], &vec![s("gh")]), vec![Probe::InDir(s("/k"), s("gh"))]);
}
