use creatio_devhub::diagnostics::failure_despite_zero_exit;
use creatio_devhub::jobs::{
    clio_job_phase, display_command, is_finished_status, scrub, secret_values, JobInfo, JobState, JobStore,
    MAX_HISTORY,
};

fn sample_job(id: &str, status: &str) -> JobInfo {
    JobInfo {
        id: id.to_string(),
        kind: "test".to_string(),
        env: Some("env1".to_string()),
        display_command: "clio test".to_string(),
        status: status.to_string(),
        phase: "running clio command".to_string(),
        cancellable: false,
        cancel_requested: false,
        started_at: 1,
        finished_at: if status == "succeeded" { Some(2) } else { None },
        exit_code: if status == "succeeded" { Some(0) } else { None },
        diagnosis: None,
        quiet: false,
    }
}

fn args(items: &[&str]) -> Vec<String> {
    items.iter().map(|s| s.to_string()).collect()
}

#[test]
fn restored_history_marks_orphaned_jobs_interrupted() {
    let loaded = JobStore::restore(vec![sample_job("j-running", "running"), sample_job("j-done", "succeeded")]);
    assert_eq!(loaded.len(), 2);
    let orphan = loaded.iter().find(|j| j.id == "j-running").unwrap();
    assert_eq!(orphan.status, "failed");
    assert!(orphan.phase.contains("interrupted"));
    assert_eq!(orphan.finished_at, Some(1));
    assert!(!orphan.cancellable);
    let done = loaded.iter().find(|j| j.id == "j-done").unwrap();
    assert_eq!(done, &sample_job("j-done", "succeeded"));
}

#[test]
fn restoring_twice_is_restoring_once() {
    let once = JobStore::restore(vec![sample_job("a", "queued"), sample_job("b", "cancelled")]);
    let twice = JobStore::restore(once.clone());
    assert_eq!(once, twice);
    assert!(once.iter().all(|j| is_finished_status(&j.status)));
}

#[test]
fn history_is_capped_and_the_rest_is_pruned() {
    let jobs: Vec<JobInfo> = (0..MAX_HISTORY + 5).map(|i| sample_job(&format!("j{i}"), "succeeded")).collect();
    let (keep, pruned) = JobStore::pruned(&jobs);
    assert_eq!(keep, MAX_HISTORY);
    assert_eq!(pruned.len(), 5);
    assert_eq!(pruned[0], format!("j{}", MAX_HISTORY));
    assert!(pruned.contains(&format!("j{}", MAX_HISTORY + 1)));
    assert!(!pruned.contains(&"j0".to_string()));

    let few = vec![sample_job("x", "succeeded")];
    assert_eq!(JobStore::pruned(&few), (1, vec![]));
}

#[test]
fn secrets_are_masked_in_the_displayed_command() {
    let a = args(&["push-pkg", "X", "-e", "dev", "-p", "hunter2", "--ClientSecret", "abc"]);
    assert_eq!(display_command("clio", &a), "clio push-pkg X -e dev -p ••• --ClientSecret •••");
    assert_eq!(secret_values(&a), vec!["hunter2", "abc"]);
    // a masked value is never itself read as a flag
    let b = args(&["-p", "-p", "x"]);
    assert_eq!(display_command("clio", &b), "clio -p ••• x");
    assert_eq!(secret_values(&b), vec!["-p"]);
    assert_eq!(display_command("git", &vec![]), "git");
}

#[test]
fn scrubbing_replaces_every_secret_occurrence() {
    let secrets = vec!["hunter2".to_string(), String::new()];
    assert_eq!(scrub("login hunter2 / hunter2 ok", &secrets), "login ••• / ••• ok");
    assert_eq!(scrub("nothing here", &secrets), "nothing here");
}

#[test]
fn only_read_only_clio_commands_can_be_stopped() {
    assert_eq!(clio_job_phase("install-gate"), ("installing cliogate", false));
    assert_eq!(clio_job_phase("ping-app"), ("running clio command", true));
    assert_eq!(clio_job_phase("push-pkg"), ("running clio command", false));
}

#[test]
fn a_job_runs_and_succeeds() {
    let mut s = JobState::new();
    let id = s.create_job_at("deploy", Some("dev".to_string()), "clio push-pkg".to_string(), false, 42);
    assert_eq!(id, "42-deploy");
    assert_eq!(s.jobs()[0].status, "queued");
    assert_eq!(s.jobs()[0].phase, "waiting");
    assert!(s.mark_running_phase(&id, "pushing", false, 43));
    assert_eq!(s.jobs()[0].status, "running");
    s.log(&id, "line one".to_string());
    s.log(&id, "line two".to_string());
    assert_eq!(s.job_log(&id), Some(vec!["line one".to_string(), "line two".to_string()]));
    s.finish(&id, Some(0), 50);
    let j = &s.jobs()[0];
    assert_eq!(j.status, "succeeded");
    assert_eq!(j.phase, "completed");
    assert_eq!(j.finished_at, Some(50));
    assert_eq!(j.exit_code, Some(0));
    assert!(j.diagnosis.is_none());
}

#[test]
fn a_failed_exit_is_explained_by_the_log_tail() {
    let mut s = JobState::new();
    let id = s.create_job_at("deploy", None, "clio".to_string(), false, 1);
    s.mark_running_phase(&id, "pushing", false, 2);
    s.log(&id, "[ERR] - Could not load file or assembly 'X'. The system cannot find the file specified.".to_string());
    s.finish(&id, Some(1), 3);
    let j = &s.jobs()[0];
    assert_eq!(j.status, "failed");
    assert_eq!(j.diagnosis.as_ref().unwrap().code, "clio-damaged");
}

#[test]
fn a_zero_exit_with_a_server_error_is_failed_and_noted() {
    let mut s = JobState::new();
    let id = s.create_job_at("deploy", None, "clio".to_string(), false, 1);
    s.log(&id, "[ERR] - The remote server returned an error: (500) Internal Server Error.".to_string());
    s.finish(&id, Some(0), 2);
    let j = &s.jobs()[0];
    assert_eq!(j.status, "failed");
    assert_eq!(j.phase, "failed");
    assert_eq!(j.exit_code, Some(0));
    assert_eq!(j.diagnosis.as_ref().unwrap().code, "creatio-server-error");
    let log = s.job_log(&id).unwrap();
    assert_eq!(log.len(), 2);
    assert!(log[1].starts_with("[DevHub] The tool exited 0"));
}

#[test]
fn a_bare_500_in_a_clean_log_is_not_a_server_error() {
    let mut s = JobState::new();
    let id = s.create_job_at("deploy", None, "clio".to_string(), false, 1);
    s.log(&id, "Installed 500 rows of version 8.0.500".to_string());
    s.finish(&id, Some(0), 2);
    assert_eq!(s.jobs()[0].status, "succeeded");
    assert_eq!(s.job_log(&id).unwrap().len(), 1);
    assert!(failure_despite_zero_exit(&["HTTP 500".to_string()]).is_some());
    assert!(failure_despite_zero_exit(&["all good".to_string()]).is_none());
}

#[test]
fn a_queued_job_is_cancelled_at_once() {
    let mut s = JobState::new();
    let id = s.create_job_at("deploy", None, "clio".to_string(), false, 1);
    assert_eq!(s.cancel_job(&id, 5), Ok(None));
    let j = &s.jobs()[0];
    assert_eq!(j.status, "cancelled");
    assert_eq!(j.phase, "cancelled before start");
    assert_eq!(j.finished_at, Some(5));
    // a job cancelled before it started never runs
    assert!(!s.mark_running_phase(&id, "pushing", true, 6));
    assert_eq!(s.jobs()[0].status, "cancelled");
    assert_eq!(s.cancel_job(&id, 7), Err("This job has already finished.".to_string()));
}

#[test]
fn a_running_job_is_stopped_through_its_process() {
    let mut s = JobState::new();
    let id = s.create_job_at("ping-app", None, "clio ping".to_string(), false, 1);
    assert!(s.mark_running_phase(&id, "pinging", true, 2));
    s.track_process(id.clone(), 4242);
    assert_eq!(s.cancel_job(&id, 3), Ok(Some(4242)));
    assert_eq!(s.jobs()[0].status, "cancelling");
    assert_eq!(s.jobs()[0].phase, "stopping pinging");
    assert!(s.is_cancel_requested(&id));
    assert!(!s.set_phase(&id, "next", true));
    s.finish(&id, Some(1), 9);
    assert_eq!(s.jobs()[0].status, "cancelled");
}

#[test]
fn cancel_refusals_say_why() {
    let mut s = JobState::new();
    assert_eq!(s.cancel_job("nope", 1), Err("Job not found.".to_string()));
    let id = s.create_job_at("deploy", None, "clio".to_string(), false, 1);
    s.mark_running_phase(&id, "pushing", false, 2);
    assert_eq!(
        s.cancel_job(&id, 3),
        Err("This job cannot be stopped safely during the 'pushing' phase.".to_string())
    );
}

#[test]
fn clearing_history_keeps_active_jobs() {
    let mut s = JobState::new();
    let a = s.create_job_at("a", None, "x".to_string(), false, 1);
    let b = s.create_job_at("b", None, "x".to_string(), true, 2);
    s.log(&a, "done".to_string());
    s.finish(&a, Some(0), 3);
    let removed = s.clear_job_history();
    assert_eq!(removed, vec![a.clone()]);
    assert_eq!(s.jobs().len(), 1);
    assert_eq!(s.jobs()[0].id, b);
    assert!(s.jobs()[0].quiet);
    assert_eq!(s.job_log(&a), None);
}

#[test]
fn environment_locks_are_keyed_by_name() {
    let mut s = JobState::new();
    assert_eq!(s.env_lock(Some("dev")), "dev");
    assert_eq!(s.env_lock(None), "_global");
    assert_eq!(s.env_lock(Some("dev")), "dev");
}

#[test]
fn loaded_history_follows_this_run() {
    let mut s = JobState::new();
    let id = s.create_job_at("now", None, "x".to_string(), false, 9);
    s.init_persistence(vec![sample_job("old", "running")]);
    assert_eq!(s.jobs().len(), 2);
    assert_eq!(s.jobs()[0].id, id);
    assert_eq!(s.jobs()[1].status, "failed");
}

#[test]
fn an_exited_process_is_no_longer_stopped() {
    let mut s = JobState::new();
    let id = s.create_job_at("ping-app", None, "clio ping".to_string(), false, 1);
    assert!(s.mark_running_phase(&id, "pinging", true, 2));
    s.track_process(id.clone(), 77);
    s.forget_process(&id);
    assert_eq!(s.cancel_job(&id, 3), Ok(None));
}

#[test]
fn scrubbing_leaves_no_secret_behind() {
    let secrets = vec!["bca".to_string(), "abc".to_string(), String::new()];
    let out = scrub("abcabc-abc", &secrets);
    assert_eq!(out, "a•••bc-•••");
    assert!(!out.contains("bca"));
    assert!(!out.contains("abc"));
}

#[test]
fn an_unsafe_phase_cannot_be_stopped() {
    let mut s = JobState::new();
    let id = s.create_job_at("deploy", None, "clio".to_string(), false, 1);
    assert!(s.mark_running_phase(&id, "downloading", true, 2));
    assert!(s.set_phase(&id, "installing", false));
    assert_eq!(
        s.cancel_job(&id, 3),
        Err("This job cannot be stopped safely during the 'installing' phase.".to_string())
    );
    assert_eq!(s.jobs()[0].status, "running");
}
