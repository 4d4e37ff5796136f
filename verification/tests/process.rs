use nsis_tauri_utils::process::{select_processes, select_standalone_processes, ProcessEntry};
use nsis_tauri_utils::process_tasks::{
    next_action, termination_succeeded, Action, Task, TerminationOutcome, ERROR_ACCESS_DENIED,
    ERROR_INVALID_PARAMETER,
};

fn entry(pid: u32, name: &str) -> ProcessEntry {
    ProcessEntry { pid, exe_name: name.to_string() }
}

fn snapshot() -> Vec<ProcessEntry> {
    vec![
        entry(0, "[System Process]"),
        entry(4, "System"),
        entry(100, "explorer.exe"),
        entry(200, "App.exe"),
        entry(300, "EXPLORER.EXE"),
        entry(400, "app.exe"),
    ]
}

#[test]
fn selection_ignores_case() {
    assert_eq!(select_processes(&snapshot(), "Explorer.exe", None), vec![100, 300]);
    assert_eq!(select_processes(&snapshot(), "APP.EXE", None), vec![200, 400]);
}

#[test]
fn selection_skips_the_installer_itself() {
    assert_eq!(select_processes(&snapshot(), "app.exe", Some(400)), vec![200]);
    assert_eq!(select_processes(&snapshot(), "app.exe", Some(7)), vec![200, 400]);
}

#[test]
fn selection_covers_every_row() {
    assert_eq!(select_processes(&snapshot(), "[system process]", None), vec![0]);
    assert_eq!(select_processes(&vec![entry(9, "setup.exe")], "SETUP.exe", Some(1)), vec![9]);
    assert!(select_processes(&Vec::new(), "app.exe", None).is_empty());
}

#[test]
fn selection_of_unknown_name_is_empty() {
    assert!(select_processes(&snapshot(), "something_that_doesnt_exist.exe", None).is_empty());
}

#[test]
fn find_answers_by_presence() {
    assert_eq!(next_action(Task::Find, &vec![5], &vec![]), Action::Finish(0));
    assert_eq!(next_action(Task::Find, &vec![], &vec![]), Action::Finish(1));
}

#[test]
fn kill_with_nothing_found_answers_two() {
    assert_eq!(next_action(Task::Kill, &vec![], &vec![]), Action::Finish(2));
    assert_eq!(next_action(Task::KillCurrentUser, &vec![], &vec![]), Action::Finish(2));
    assert_eq!(next_action(Task::StandaloneKill, &vec![], &vec![]), Action::Finish(1));
}

#[test]
fn kill_terminates_every_match_in_order() {
    let pids = vec![10, 20, 30];
    assert_eq!(next_action(Task::Kill, &pids, &vec![]), Action::Terminate(10));
    assert_eq!(next_action(Task::Kill, &pids, &vec![true]), Action::Terminate(20));
    assert_eq!(next_action(Task::Kill, &pids, &vec![true, true]), Action::Terminate(30));
    assert_eq!(next_action(Task::Kill, &pids, &vec![true, true, true]), Action::Finish(0));
}

#[test]
fn a_failed_kill_does_not_stop_the_others() {
    let pids = vec![10, 20, 30];
    assert_eq!(next_action(Task::Kill, &pids, &vec![false]), Action::Terminate(20));
    assert_eq!(next_action(Task::Kill, &pids, &vec![true, false]), Action::Terminate(30));
    assert_eq!(next_action(Task::Kill, &pids, &vec![true, false, true]), Action::Finish(1));
    assert_eq!(next_action(Task::Kill, &pids, &vec![false, false, false]), Action::Finish(1));
}

#[test]
fn standalone_kill_stops_at_first_failure() {
    let pids = vec![10, 20, 30];
    let t = Task::StandaloneKill;
    assert_eq!(next_action(t, &pids, &vec![]), Action::Terminate(10));
    assert_eq!(next_action(t, &pids, &vec![true]), Action::Terminate(20));
    assert_eq!(next_action(t, &pids, &vec![false]), Action::Finish(1));
    assert_eq!(next_action(t, &pids, &vec![true, false]), Action::Finish(1));
    assert_eq!(next_action(t, &pids, &vec![true, true, true]), Action::Finish(0));
}

#[test]
fn standalone_selection_skips_the_first_row() {
    assert!(select_standalone_processes(&snapshot(), "[system process]").is_empty());
    assert_eq!(select_standalone_processes(&snapshot(), "explorer.EXE"), vec![100, 300]);
    assert!(select_standalone_processes(&Vec::new(), "app.exe").is_empty());
}

#[test]
fn find_process() {
    let processes = select_processes(&snapshot(), "explorer.exe", Some(4));
    assert!(!processes.is_empty());
}

#[test]
fn lib_find_process() {
    let processes = select_standalone_processes(&snapshot(), "explorer.exe");
    assert!(!processes.is_empty());
}

#[test]
fn kill_process() {
    let processes = select_processes(&snapshot(), "something_that_doesnt_exist.exe", Some(4));
    // Nothing is asked to be terminated, so no termination can fail.
    assert_eq!(next_action(Task::Kill, &processes, &vec![]), Action::Finish(2));
}

#[test]
fn lib_kill_process() {
    let processes = select_standalone_processes(&snapshot(), "something_that_doesnt_exist.exe");
    assert_eq!(next_action(Task::StandaloneKill, &processes, &vec![]), Action::Finish(1));
}

#[test]
fn kill_current_user_checks_owner_before_terminating() {
    let pids = vec![10, 20];
    let t = Task::KillCurrentUser;
    assert_eq!(next_action(t, &pids, &vec![]), Action::LookupUser);
    assert_eq!(next_action(t, &pids, &vec![true]), Action::CheckOwner(10));
    assert_eq!(next_action(t, &pids, &vec![true, false]), Action::CheckOwner(20));
    assert_eq!(next_action(t, &pids, &vec![true, false, true]), Action::Terminate(20));
    assert_eq!(next_action(t, &pids, &vec![true, false, true, true]), Action::Finish(0));
    assert_eq!(next_action(t, &pids, &vec![true, true, false]), Action::CheckOwner(20));
    assert_eq!(next_action(t, &pids, &vec![true, true, false, true]), Action::Terminate(20));
    assert_eq!(next_action(t, &pids, &vec![true, true, false, true, true]), Action::Finish(1));
    assert_eq!(next_action(t, &pids, &vec![true, true, false, false]), Action::Finish(1));
    assert_eq!(next_action(t, &pids, &vec![true, true, true, false]), Action::Finish(0));
    assert_eq!(next_action(t, &pids, &vec![true, false, false]), Action::Finish(0));
}

#[test]
fn kill_current_user_without_user_id_kills_all() {
    let pids = vec![10, 20];
    let t = Task::KillCurrentUser;
    assert_eq!(next_action(t, &pids, &vec![false]), Action::Terminate(10));
    assert_eq!(next_action(t, &pids, &vec![false, true]), Action::Terminate(20));
    assert_eq!(next_action(t, &pids, &vec![false, true, true]), Action::Finish(0));
}

#[test]
fn find_current_user() {
    let pids = vec![10, 20];
    let t = Task::FindCurrentUser;
    assert_eq!(next_action(t, &pids, &vec![]), Action::LookupUser);
    assert_eq!(next_action(t, &pids, &vec![true]), Action::CheckOwner(10));
    assert_eq!(next_action(t, &pids, &vec![true, false, true]), Action::Finish(0));
    assert_eq!(next_action(t, &pids, &vec![true, false, false]), Action::Finish(1));
    assert_eq!(next_action(t, &pids, &vec![false]), Action::Finish(0));
    assert_eq!(next_action(t, &vec![], &vec![false]), Action::Finish(1));
    assert_eq!(next_action(t, &vec![], &vec![true]), Action::Finish(1));
}

#[test]
fn a_process_that_already_exited_counts_as_killed() {
    assert!(termination_succeeded(TerminationOutcome::Terminated));
    assert!(termination_succeeded(TerminationOutcome::OpenFailed(ERROR_INVALID_PARAMETER)));
    assert!(!termination_succeeded(TerminationOutcome::OpenFailed(ERROR_ACCESS_DENIED)));
    assert!(termination_succeeded(TerminationOutcome::TerminateFailed(ERROR_ACCESS_DENIED)));
    assert!(!termination_succeeded(TerminationOutcome::TerminateFailed(ERROR_INVALID_PARAMETER)));
}
