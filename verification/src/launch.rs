use vstd::prelude::*;
use crate::strings::push_char;

verus! {

/// Windows error code `ERROR_ELEVATION_REQUIRED`.
pub const ERROR_ELEVATION_REQUIRED: u32 = 740;

/// Windows error code `ERROR_NOT_ALL_ASSIGNED`.
pub const ERROR_NOT_ALL_ASSIGNED: u32 = 1300;

/// The attribute bit `SE_PRIVILEGE_ENABLED` of a token privilege.
pub const SE_PRIVILEGE_ENABLED: u32 = 2;

/// The command line of a launched program: the program in double quotes,
/// then, if there are arguments, a space and the arguments.
pub open spec fn command_line_text(program: Seq<char>, arguments: Seq<char>) -> Seq<char> {
    let quoted = seq!['"'] + program + seq!['"'];
    if arguments.len() == 0 {
        quoted
    } else {
        quoted + seq![' '] + arguments
    }
}

/// Builds the command line for launching `program` with `arguments`; the
/// quotes keep a program path with spaces in one piece.
pub fn command_line(program: &str, arguments: &str) -> (r: String)
    ensures
        r@ == command_line_text(program@, arguments@),
{
    let mut line = String::new();
    push_char(&mut line, '"');
    line.append(program);
    push_char(&mut line, '"');
    if !arguments.is_empty() {
        push_char(&mut line, ' ');
        line.append(arguments);
    }
    line
}

/// `ShellExecuteW` reports success with a value greater than 32.
pub open spec fn shell_execute_ok(code: isize) -> bool {
    code > 32
}

/// Whether a value returned by `ShellExecuteW` means the program started.
pub fn shell_execute_succeeded(code: isize) -> (r: bool)
    ensures
        r == shell_execute_ok(code),
{
    code > 32
}

/// Whether a process runs elevated, from its token: the token could be
/// opened, its elevation could be read, and the elevation flag is set.
pub fn token_elevated(token_opened: bool, query_succeeded: bool, token_is_elevated: u32) -> (r: bool)
    ensures
        r == (token_opened && query_succeeded && token_is_elevated != 0),
{
    token_opened && query_succeeded && token_is_elevated != 0
}

/// What `AdjustTokenPrivileges` reported when a privilege was set to
/// `enable`.
pub struct PrivilegeAdjustment {
    /// The call returned success.
    pub adjusted: bool,
    /// The thread's last error after a successful call.
    pub last_error: u32,
    /// The number of privileges in the previous state that it returned.
    pub previous_count: u32,
    /// The attributes of the first privilege of that previous state.
    pub previous_attributes: u32,
}

/// Whether the privilege was enabled before it was set to `enable`, or
/// `None` when the change failed: the call failed, or not every privilege
/// was assigned. A previous state without an entry means the privilege
/// already was as requested.
pub open spec fn previous_privilege(adj: PrivilegeAdjustment, enable: bool) -> Option<bool> {
    if !adj.adjusted || adj.last_error == ERROR_NOT_ALL_ASSIGNED {
        None
    } else if adj.previous_count == 1 {
        Some(adj.previous_attributes & SE_PRIVILEGE_ENABLED != 0)
    } else {
        Some(enable)
    }
}

/// Reads the outcome of setting a privilege: whether it was enabled
/// before, or `None` when it could not be set.
pub fn privilege_previous_state(adj: &PrivilegeAdjustment, enable: bool) -> (r: Option<bool>)
    ensures
        r == previous_privilege(*adj, enable),
{
    if !adj.adjusted || adj.last_error == ERROR_NOT_ALL_ASSIGNED {
        None
    } else if adj.previous_count == 1 {
        Some(adj.previous_attributes & SE_PRIVILEGE_ENABLED != 0)
    } else {
        Some(enable)
    }
}

/// What came of a step of launching a program as the desktop user.
#[derive(PartialEq, Eq, Structural, Clone, Copy, Debug)]
pub enum LaunchEvent {
    /// The step succeeded or failed (for `CheckElevation`: the installer
    /// runs elevated or not).
    Done(bool),
    /// Enabling the impersonation privilege: whether it was enabled before,
    /// or `None` when it could not be enabled.
    Privilege(Option<bool>),
    /// `CreateProcessWithTokenW`: `None` on success, else the error code.
    Created(Option<u32>),
    /// The value that `ShellExecuteW` returned.
    ShellExecuted(isize),
}

/// The next step of launching a program as the desktop user.
#[derive(PartialEq, Eq, Structural, Clone, Copy, Debug)]
pub enum LaunchAction {
    /// Is the installer elevated?
    CheckElevation,
    /// Find the desktop shell's window.
    FindShellWindow,
    /// Get the id of the process that owns that window.
    GetShellProcessId,
    /// Open that process.
    OpenShellProcess,
    /// Enable the impersonation privilege of the installer.
    EnableImpersonation,
    /// Open the shell process's token.
    OpenShellToken,
    /// Duplicate it into a primary token.
    DuplicateToken,
    /// Start the program with that token.
    CreateProcess,
    /// Start the program through `ShellExecuteW`.
    ShellExecute,
    /// Stop: `launched` is the answer; `restore_privilege`, when present,
    /// is the state that the impersonation privilege must be set back to.
    Finish { launched: bool, restore_privilege: Option<bool> },
}

/// The step reported success.
pub open spec fn succeeded(e: LaunchEvent) -> bool {
    e == LaunchEvent::Done(true)
}

/// `ShellExecuteW` started the program.
pub open spec fn shell_launched(e: LaunchEvent) -> bool {
    e matches LaunchEvent::ShellExecuted(code) && shell_execute_ok(code)
}

/// The steps after the impersonation privilege was enabled; `prev` is the
/// state it had before, restored on every way out.
pub open spec fn launch_with_token(ev: Seq<LaunchEvent>, prev: bool) -> LaunchAction {
    let restore = Some(prev);
    if ev.len() == 5 {
        LaunchAction::OpenShellToken
    } else if !succeeded(ev[5]) {
        LaunchAction::Finish { launched: false, restore_privilege: restore }
    } else if ev.len() == 6 {
        LaunchAction::DuplicateToken
    } else if !succeeded(ev[6]) {
        LaunchAction::Finish { launched: false, restore_privilege: restore }
    } else if ev.len() == 7 {
        LaunchAction::CreateProcess
    } else if ev[7] == LaunchEvent::Created(None) {
        LaunchAction::Finish { launched: true, restore_privilege: restore }
    } else if ev[7] == LaunchEvent::Created(Some(ERROR_ELEVATION_REQUIRED)) {
        if ev.len() == 8 {
            LaunchAction::ShellExecute
        } else {
            LaunchAction::Finish { launched: shell_launched(ev[8]), restore_privilege: restore }
        }
    } else {
        LaunchAction::Finish { launched: false, restore_privilege: restore }
    }
}

/// The next step of launching a program as the desktop user, given what
/// came of the steps so far. A non-elevated installer starts the program
/// directly through `ShellExecuteW`; an elevated one starts it with a copy
/// of the desktop shell's token, and falls back to `ShellExecuteW` when
/// the program needs elevation.
pub open spec fn launch_step(ev: Seq<LaunchEvent>) -> LaunchAction {
    let fail = LaunchAction::Finish { launched: false, restore_privilege: None };
    if ev.len() == 0 {
        LaunchAction::CheckElevation
    } else if !succeeded(ev[0]) {
        if ev.len() == 1 {
            LaunchAction::ShellExecute
        } else {
            LaunchAction::Finish { launched: shell_launched(ev[1]), restore_privilege: None }
        }
    } else if ev.len() == 1 {
        LaunchAction::FindShellWindow
    } else if !succeeded(ev[1]) {
        fail
    } else if ev.len() == 2 {
        LaunchAction::GetShellProcessId
    } else if !succeeded(ev[2]) {
        fail
    } else if ev.len() == 3 {
        LaunchAction::OpenShellProcess
    } else if !succeeded(ev[3]) {
        fail
    } else if ev.len() == 4 {
        LaunchAction::EnableImpersonation
    } else {
        match ev[4] {
            LaunchEvent::Privilege(Some(prev)) => launch_with_token(ev, prev),
            _ => fail,
        }
    }
}

fn is_success(e: LaunchEvent) -> (r: bool)
    ensures
        r == succeeded(e),
{
    match e {
        LaunchEvent::Done(b) => b,
        _ => false,
    }
}

fn shell_result(e: LaunchEvent) -> (r: bool)
    ensures
        r == shell_launched(e),
{
    match e {
        LaunchEvent::ShellExecuted(code) => shell_execute_succeeded(code),
        _ => false,
    }
}

fn next_with_token(ev: &Vec<LaunchEvent>, prev: bool) -> (r: LaunchAction)
    requires
        ev@.len() >= 5,
    ensures
        r == launch_with_token(ev@, prev),
{
    let restore = Some(prev);
    let n = ev.len();
    if n == 5 {
        LaunchAction::OpenShellToken
    } else if !is_success(ev[5]) {
        LaunchAction::Finish { launched: false, restore_privilege: restore }
    } else if n == 6 {
        LaunchAction::DuplicateToken
    } else if !is_success(ev[6]) {
        LaunchAction::Finish { launched: false, restore_privilege: restore }
    } else if n == 7 {
        LaunchAction::CreateProcess
    } else {
        match ev[7] {
            LaunchEvent::Created(None) => LaunchAction::Finish {
                launched: true,
                restore_privilege: restore,
            },
            LaunchEvent::Created(Some(e)) if e == ERROR_ELEVATION_REQUIRED => {
                if n == 8 {
                    LaunchAction::ShellExecute
                } else {
                    LaunchAction::Finish { launched: shell_result(ev[8]), restore_privilege: restore }
                }
            },
            _ => LaunchAction::Finish { launched: false, restore_privilege: restore },
        }
    }
}

/// Decides the next step of launching a program as the desktop user from
/// what came of the steps taken so far, in order.
pub fn next_launch_action(ev: &Vec<LaunchEvent>) -> (r: LaunchAction)
    ensures
        r == launch_step(ev@),
{
    let fail = LaunchAction::Finish { launched: false, restore_privilege: None };
    let n = ev.len();
    if n == 0 {
        LaunchAction::CheckElevation
    } else if !is_success(ev[0]) {
        if n == 1 {
            LaunchAction::ShellExecute
        } else {
            LaunchAction::Finish { launched: shell_result(ev[1]), restore_privilege: None }
        }
    } else if n == 1 {
        LaunchAction::FindShellWindow
    } else if !is_success(ev[1]) {
        fail
    } else if n == 2 {
        LaunchAction::GetShellProcessId
    } else if !is_success(ev[2]) {
        fail
    } else if n == 3 {
        LaunchAction::OpenShellProcess
    } else if !is_success(ev[3]) {
        fail
    } else if n == 4 {
        LaunchAction::EnableImpersonation
    } else {
        match ev[4] {
            LaunchEvent::Privilege(Some(prev)) => next_with_token(ev, prev),
            _ => fail,
        }
    }
}

/// The state of the impersonation privilege before the launch enabled it,
/// when it did.
pub open spec fn enabled_privilege(ev: Seq<LaunchEvent>) -> Option<bool> {
    if ev.len() > 4 && succeeded(ev[0]) && succeeded(ev[1]) && succeeded(ev[2]) && succeeded(
        ev[3],
    ) && ev[4] is Privilege {
        ev[4]->Privilege_0
    } else {
        None
    }
}

/// Once the impersonation privilege has been enabled, every way out of the
/// launch sets it back to the state it had before; before that, none
/// touches it.
pub proof fn law_privilege_restored(ev: Seq<LaunchEvent>)
    requires
        launch_step(ev) is Finish,
    ensures
        launch_step(ev)->restore_privilege == enabled_privilege(ev),
{
}

/// A launch is reported as successful only when `CreateProcessWithTokenW`
/// or `ShellExecuteW` reported that the program started.
pub proof fn law_launch_reported_only_on_success(ev: Seq<LaunchEvent>)
    requires
        launch_step(ev) is Finish,
        launch_step(ev)->launched,
    ensures
        exists|i: int|
            0 <= i < ev.len() && (#[trigger] ev[i] == LaunchEvent::Created(None) || shell_launched(
                ev[i],
            )),
{
    if !succeeded(ev[0]) {
        assert(shell_launched(ev[1]));
    } else if ev[7] != LaunchEvent::Created(None) {
        assert(shell_launched(ev[8]));
    }
}

/// `ShellExecuteW` is used only when the installer is not elevated, or
/// when starting the program with the shell's token failed because the
/// program needs elevation.
pub proof fn law_shell_fallback(ev: Seq<LaunchEvent>)
    requires
        launch_step(ev) == LaunchAction::ShellExecute,
    ensures
        ev.len() == 1 && !succeeded(ev[0]) || ev.len() == 8 && ev[7] == LaunchEvent::Created(
            Some(ERROR_ELEVATION_REQUIRED),
        ),
{
}

/// The first `n` steps all succeeded.
pub open spec fn steps_succeeded(ev: Seq<LaunchEvent>, n: int) -> bool {
    forall|k: int| 0 <= k < n ==> #[trigger] succeeded(ev[k])
}

/// A non-elevated installer starts the program through `ShellExecuteW`
/// right away, and reports what it returned.
pub proof fn law_unelevated_launches_directly(ev: Seq<LaunchEvent>, code: isize)
    requires
        ev.len() >= 1,
        !succeeded(ev[0]),
    ensures
        ev.len() == 1 ==> launch_step(ev) == LaunchAction::ShellExecute,
        ev.len() >= 2 && ev[1] == LaunchEvent::ShellExecuted(code) ==> launch_step(ev) == (
        LaunchAction::Finish { launched: code > 32, restore_privilege: None }),
{
}

/// An elevated installer goes through the shell window, its process id and
/// its process, in this order, as long as each step succeeds; a failure
/// there ends the launch unlaunched, with the privilege untouched.
pub proof fn law_elevated_first_steps(ev: Seq<LaunchEvent>)
    requires
        1 <= ev.len() <= 4,
        steps_succeeded(ev, ev.len() - 1),
        succeeded(ev[0]),
    ensures
        succeeded(ev[ev.len() - 1]) && ev.len() == 1 ==> launch_step(ev) == LaunchAction::FindShellWindow,
        succeeded(ev[ev.len() - 1]) && ev.len() == 2 ==> launch_step(ev) == LaunchAction::GetShellProcessId,
        succeeded(ev[ev.len() - 1]) && ev.len() == 3 ==> launch_step(ev) == LaunchAction::OpenShellProcess,
        succeeded(ev[ev.len() - 1]) && ev.len() == 4 ==> launch_step(ev) == LaunchAction::EnableImpersonation,
        !succeeded(ev[ev.len() - 1]) ==> launch_step(ev) == (LaunchAction::Finish {
            launched: false,
            restore_privilege: None,
        }),
{
    if ev.len() >= 2 {
        assert(succeeded(ev[1]) || ev.len() == 2);
    }
    if ev.len() >= 3 {
        assert(succeeded(ev[1]));
        assert(succeeded(ev[2]) || ev.len() == 3);
    }
    if ev.len() == 4 {
        assert(succeeded(ev[2]));
    }
}

/// Once the impersonation privilege is enabled, whatever state it had
/// before, the launch goes on with the shell's token: it opens the token,
/// duplicates it and starts the program with it, as long as each step
/// succeeds; a successful start is reported as launched, and the privilege
/// is set back to its earlier state.
pub proof fn law_token_launch_proceeds(ev: Seq<LaunchEvent>, prev: bool)
    requires
        5 <= ev.len() <= 8,
        steps_succeeded(ev, 4),
        ev[4] == LaunchEvent::Privilege(Some(prev)),
        forall|k: int| 5 <= k < ev.len() - 1 ==> #[trigger] succeeded(ev[k]),
    ensures
        ev.len() == 5 ==> launch_step(ev) == LaunchAction::OpenShellToken,
        ev.len() == 6 && succeeded(ev[5]) ==> launch_step(ev) == LaunchAction::DuplicateToken,
        ev.len() == 7 && succeeded(ev[6]) ==> launch_step(ev) == LaunchAction::CreateProcess,
        ev.len() == 8 && ev[7] == LaunchEvent::Created(None) ==> launch_step(ev) == (
        LaunchAction::Finish { launched: true, restore_privilege: Some(prev) }),
        ev.len() == 8 && ev[7] == LaunchEvent::Created(Some(ERROR_ELEVATION_REQUIRED))
            ==> launch_step(ev) == LaunchAction::ShellExecute,
{
    assert(succeeded(ev[0]) && succeeded(ev[1]) && succeeded(ev[2]) && succeeded(ev[3]));
    if ev.len() >= 7 {
        assert(succeeded(ev[5]));
    }
    if ev.len() == 8 {
        assert(succeeded(ev[6]));
    }
}

/// When the shell's token needs elevation, `ShellExecuteW` decides the
/// answer, and the privilege is still set back.
pub proof fn law_elevation_fallback_result(ev: Seq<LaunchEvent>, prev: bool, code: isize)
    requires
        ev.len() >= 9,
        steps_succeeded(ev, 4),
        ev[4] == LaunchEvent::Privilege(Some(prev)),
        succeeded(ev[5]),
        succeeded(ev[6]),
        ev[7] == LaunchEvent::Created(Some(ERROR_ELEVATION_REQUIRED)),
        ev[8] == LaunchEvent::ShellExecuted(code),
    ensures
        launch_step(ev) == (LaunchAction::Finish { launched: code > 32, restore_privilege: Some(prev) }),
{
    assert(succeeded(ev[0]) && succeeded(ev[1]) && succeeded(ev[2]) && succeeded(ev[3]));
}

/// The command line is the program between double quotes, then, only when
/// there are arguments, one space and the arguments unchanged.
pub proof fn law_command_line_layout(program: Seq<char>, arguments: Seq<char>)
    ensures
        command_line_text(program, arguments)[0] == '"',
        command_line_text(program, arguments).subrange(1, program.len() + 1 as int) == program,
        command_line_text(program, arguments)[program.len() + 1 as int] == '"',
        arguments.len() == 0 ==> command_line_text(program, arguments).len() == program.len() + 2,
        arguments.len() > 0 ==> command_line_text(program, arguments)[program.len() + 2 as int] == ' '
            && command_line_text(program, arguments).skip(program.len() + 3 as int) == arguments,
{
    let t = command_line_text(program, arguments);
    assert(t.subrange(1, program.len() + 1 as int) =~= program);
    if arguments.len() > 0 {
        assert(t.skip(program.len() + 3 as int) =~= arguments);
    }
}

/// A privilege change that failed gives no previous state; otherwise the
/// previous state is the enabled bit of the single privilege reported, or,
/// when none was reported, the state that was asked for.
pub proof fn law_previous_privilege(adj: PrivilegeAdjustment, enable: bool)
    ensures
        !adj.adjusted ==> previous_privilege(adj, enable) is None,
        adj.last_error == ERROR_NOT_ALL_ASSIGNED ==> previous_privilege(adj, enable) is None,
        adj.adjusted && adj.last_error != ERROR_NOT_ALL_ASSIGNED && adj.previous_count == 1
            ==> previous_privilege(adj, enable) == Some(adj.previous_attributes & 2 != 0),
        adj.adjusted && adj.last_error != ERROR_NOT_ALL_ASSIGNED && adj.previous_count != 1
            ==> previous_privilege(adj, enable) == Some(enable),
{
}

} // verus!
