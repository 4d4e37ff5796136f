use nsis_tauri_utils::launch::{
    command_line, next_launch_action, privilege_previous_state, shell_execute_succeeded, token_elevated,
    LaunchAction, LaunchEvent, PrivilegeAdjustment, ERROR_ELEVATION_REQUIRED,
    ERROR_NOT_ALL_ASSIGNED,
};
use nsis_tauri_utils::launch::LaunchEvent::{Created, Done, Privilege, ShellExecuted};

#[test]
fn command_line_quotes_the_program() {
    assert_eq!(command_line("cmd", "/c timeout 3"), "\"cmd\" /c timeout 3");
    assert_eq!(
        command_line("C:\\dir space\\cmdout.exe", ""),
        "\"C:\\dir space\\cmdout.exe\""
    );
}

#[test]
fn shell_execute_success_threshold() {
    assert!(shell_execute_succeeded(33));
    assert!(!shell_execute_succeeded(32));
    assert!(!shell_execute_succeeded(0));
}

#[test]
fn previous_privilege_state() {
    let ok = |count, attrs| PrivilegeAdjustment {
        adjusted: true,
        last_error: 0,
        previous_count: count,
        previous_attributes: attrs,
    };
    assert_eq!(privilege_previous_state(&ok(1, 2), true), Some(true));
    assert_eq!(privilege_previous_state(&ok(1, 0), true), Some(false));
    assert_eq!(privilege_previous_state(&ok(0, 0), true), Some(true));
    assert_eq!(privilege_previous_state(&ok(0, 0), false), Some(false));
    let failed = PrivilegeAdjustment { adjusted: false, ..ok(1, 2) };
    assert_eq!(privilege_previous_state(&failed, true), None);
    let partial = PrivilegeAdjustment { last_error: ERROR_NOT_ALL_ASSIGNED, ..ok(1, 2) };
    assert_eq!(privilege_previous_state(&partial, true), None);
}

fn finish(launched: bool, restore: Option<bool>) -> LaunchAction {
    LaunchAction::Finish { launched, restore_privilege: restore }
}

#[test]
fn unelevated_installer_launches_directly() {
    let mut ev = vec![];
    assert_eq!(next_launch_action(&ev), LaunchAction::CheckElevation);
    ev.push(LaunchEvent::Done(false));
    assert_eq!(next_launch_action(&ev), LaunchAction::ShellExecute);
    ev.push(LaunchEvent::ShellExecuted(42));
    assert_eq!(next_launch_action(&ev), finish(true, None));
    ev[1] = LaunchEvent::ShellExecuted(2);
    assert_eq!(next_launch_action(&ev), finish(false, None));
}

#[test]
fn elevated_installer_uses_the_shell_token() {
    let mut ev = vec![Done(true)];
    let expected = [
        LaunchAction::FindShellWindow,
        LaunchAction::GetShellProcessId,
        LaunchAction::OpenShellProcess,
        LaunchAction::EnableImpersonation,
    ];
    for step in expected {
        assert_eq!(next_launch_action(&ev), step);
        if step == LaunchAction::EnableImpersonation {
            ev.push(Privilege(Some(false)));
        } else {
            ev.push(Done(true));
        }
    }
    assert_eq!(next_launch_action(&ev), LaunchAction::OpenShellToken);
    ev.push(Done(true));
    assert_eq!(next_launch_action(&ev), LaunchAction::DuplicateToken);
    ev.push(Done(true));
    assert_eq!(next_launch_action(&ev), LaunchAction::CreateProcess);
    let mut ok = ev.clone();
    ok.push(Created(None));
    assert_eq!(next_launch_action(&ok), finish(true, Some(false)));
    let mut fallback = ev.clone();
    fallback.push(Created(Some(ERROR_ELEVATION_REQUIRED)));
    assert_eq!(next_launch_action(&fallback), LaunchAction::ShellExecute);
    fallback.push(ShellExecuted(100));
    assert_eq!(next_launch_action(&fallback), finish(true, Some(false)));
    let mut failed = ev.clone();
    failed.push(Created(Some(5)));
    assert_eq!(next_launch_action(&failed), finish(false, Some(false)));
}

#[test]
fn failures_before_the_privilege_touch_nothing() {
    assert_eq!(next_launch_action(&vec![Done(true), Done(false)]), finish(false, None));
    assert_eq!(
        next_launch_action(&vec![Done(true), Done(true), Done(true), Done(true), Privilege(None)]),
        finish(false, None)
    );
    assert_eq!(
        next_launch_action(&vec![
            Done(true),
            Done(true),
            Done(true),
            Done(true),
            Privilege(Some(true)),
            Done(false)
        ]),
        finish(false, Some(true))
    );
}

#[test]
fn elevation_needs_an_open_token_a_successful_query_and_the_flag() {
    assert!(token_elevated(true, true, 1));
    assert!(!token_elevated(true, true, 0));
    assert!(!token_elevated(true, false, 1));
    assert!(!token_elevated(false, false, 0));
}
