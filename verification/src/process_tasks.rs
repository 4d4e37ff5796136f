use vstd::prelude::*;

verus! {

/// The process functions of the plugin.
#[derive(PartialEq, Eq, Structural, Clone, Copy, Debug)]
pub enum Task {
    /// `FindProcess`: is a matching process running?
    Find,
    /// `FindProcessCurrentUser`: is a matching process of the current user
    /// running?
    FindCurrentUser,
    /// `KillProcess`: terminate every matching process.
    Kill,
    /// `KillProcessCurrentUser`: terminate every matching process of the
    /// current user.
    KillCurrentUser,
    /// `KillProcess` of the standalone `nsis-process` plugin, which answers
    /// 1 (not 2) when no process matches and stops at the first failed
    /// termination.
    StandaloneKill,
}

/// What the plugin does next. Each of `LookupUser`, `CheckOwner` and
/// `Terminate` is answered by one `bool` that the caller appends to the
/// answers so far: whether the current user's id could be read, whether
/// the process belongs to the current user, whether the termination
/// succeeded.
#[derive(PartialEq, Eq, Structural, Clone, Copy, Debug)]
pub enum Action {
    LookupUser,
    CheckOwner(u32),
    Terminate(u32),
    /// Push this code on the NSIS stack; the task is over.
    Finish(i32),
}

/// The first `n` answers are all successes.
pub open spec fn all_succeeded(answers: Seq<bool>, n: int) -> bool {
    forall|i: int| 0 <= i < n ==> #[trigger] answers[i]
}

/// Terminate every one of the processes `pids`, in order, with `answers`
/// the results of the terminations so far; then 0 if all succeeded, 1 if
/// any failed. A failure does not stop the others from being terminated.
pub open spec fn kill_all(pids: Seq<u32>, answers: Seq<bool>) -> Action {
    if answers.len() < pids.len() {
        Action::Terminate(pids[answers.len() as int])
    } else if all_succeeded(answers, pids.len() as int) {
        Action::Finish(0)
    } else {
        Action::Finish(1)
    }
}

/// The number of terminations of `pids` that `answers` can have answered.
pub open spec fn answered(pids: Seq<u32>, answers: Seq<bool>) -> int {
    if answers.len() < pids.len() {
        answers.len() as int
    } else {
        pids.len() as int
    }
}

/// Terminate the processes `pids` one after another, with `answers` the
/// results so far, stopping at the first failure: 1 then, 0 once all
/// succeeded.
pub open spec fn kill_until_failure(pids: Seq<u32>, answers: Seq<bool>) -> Action {
    if !all_succeeded(answers, answered(pids, answers)) {
        Action::Finish(1)
    } else if answers.len() < pids.len() {
        Action::Terminate(pids[answers.len() as int])
    } else {
        Action::Finish(0)
    }
}

/// Terminate those of `pids` that belong to the current user: for each
/// process ask its owner, and terminate it when it is the user's; once all
/// are examined, 0 if every termination succeeded, 1 if any failed
/// (`failed` tells whether one already did).
pub open spec fn kill_owned(pids: Seq<u32>, answers: Seq<bool>, failed: bool) -> Action
    decreases pids.len(),
{
    if pids.len() == 0 {
        Action::Finish(if failed { 1 } else { 0 })
    } else if answers.len() == 0 {
        Action::CheckOwner(pids[0])
    } else if !answers[0] {
        kill_owned(pids.drop_first(), answers.drop_first(), failed)
    } else if answers.len() == 1 {
        Action::Terminate(pids[0])
    } else {
        kill_owned(pids.drop_first(), answers.skip(2), failed || !answers[1])
    }
}

/// Look for a process of the current user among `pids`: 0 at the first
/// one that belongs to the user, 1 when none does.
pub open spec fn find_owned(pids: Seq<u32>, answers: Seq<bool>) -> Action
    decreases pids.len(),
{
    if pids.len() == 0 {
        Action::Finish(1)
    } else if answers.len() == 0 {
        Action::CheckOwner(pids[0])
    } else if answers[0] {
        Action::Finish(0)
    } else {
        find_owned(pids.drop_first(), answers.drop_first())
    }
}

/// The next step of `task` on the matching processes `pids`, given the
/// answers to the steps taken so far.
pub open spec fn task_step(task: Task, pids: Seq<u32>, answers: Seq<bool>) -> Action {
    match task {
        Task::Find => Action::Finish(if pids.len() > 0 { 0 } else { 1 }),
        Task::FindCurrentUser => if answers.len() == 0 {
            Action::LookupUser
        } else if answers[0] {
            find_owned(pids, answers.drop_first())
        } else {
            // without the user's id, any matching process counts
            Action::Finish(if pids.len() > 0 { 0 } else { 1 })
        },
        Task::Kill => if pids.len() == 0 {
            Action::Finish(2)
        } else {
            kill_all(pids, answers)
        },
        Task::KillCurrentUser => if pids.len() == 0 {
            Action::Finish(2)
        } else if answers.len() == 0 {
            Action::LookupUser
        } else if answers[0] {
            kill_owned(pids, answers.drop_first(), false)
        } else {
            kill_all(pids, answers.drop_first())
        },
        Task::StandaloneKill => if pids.len() == 0 {
            Action::Finish(1)
        } else {
            kill_until_failure(pids, answers)
        },
    }
}

fn run_kill_all(pids: &Vec<u32>, answers: &Vec<bool>, start: usize) -> (r: Action)
    requires
        start <= answers@.len(),
    ensures
        r == kill_all(pids@, answers@.skip(start as int)),
{
    let ghost rest = answers@.skip(start as int);
    let given = answers.len() - start;
    if given < pids.len() {
        return Action::Terminate(pids[given]);
    }
    let n = pids.len();
    let mut i: usize = 0;
    while i < n
        invariant
            n == pids@.len(),
            n <= rest.len(),
            start + n <= answers.len(),
            rest == answers@.skip(start as int),
            start <= answers@.len(),
            i <= n,
            all_succeeded(rest, i as int),
        decreases n - i,
    {
        assert(rest[i as int] == answers@[start + i]);
        if !answers[start + i] {
            assert(!all_succeeded(rest, n as int));
            return Action::Finish(1);
        }
        i += 1;
    }
    Action::Finish(0)
}

fn run_kill_until_failure(pids: &Vec<u32>, answers: &Vec<bool>) -> (r: Action)
    ensures
        r == kill_until_failure(pids@, answers@),
{
    let m = if answers.len() < pids.len() {
        answers.len()
    } else {
        pids.len()
    };
    let mut i: usize = 0;
    while i < m
        invariant
            m == answered(pids@, answers@),
            m <= answers@.len(),
            i <= m,
            all_succeeded(answers@, i as int),
        decreases m - i,
    {
        if !answers[i] {
            return Action::Finish(1);
        }
        i += 1;
    }
    if answers.len() < pids.len() {
        Action::Terminate(pids[answers.len()])
    } else {
        Action::Finish(0)
    }
}

fn run_kill_owned(pids: &Vec<u32>, answers: &Vec<bool>, start: usize) -> (r: Action)
    requires
        start <= answers@.len(),
    ensures
        r == kill_owned(pids@, answers@.skip(start as int), false),
{
    let mut i: usize = 0;
    let mut j: usize = start;
    let mut failed = false;
    assert(pids@.skip(0) =~= pids@);
    while i < pids.len()
        invariant
            i <= pids@.len(),
            start <= j <= answers@.len(),
            kill_owned(pids@, answers@.skip(start as int), false) == kill_owned(
                pids@.skip(i as int),
                answers@.skip(j as int),
                failed,
            ),
        decreases pids@.len() - i,
    {
        assert(pids@.skip(i as int)[0] == pids@[i as int]);
        assert(pids@.skip(i as int).drop_first() =~= pids@.skip(i + 1));
        if j == answers.len() {
            return Action::CheckOwner(pids[i]);
        }
        assert(answers@.skip(j as int)[0] == answers@[j as int]);
        if !answers[j] {
            assert(answers@.skip(j as int).drop_first() =~= answers@.skip(j + 1));
            i += 1;
            j += 1;
        } else {
            if j + 1 == answers.len() {
                return Action::Terminate(pids[i]);
            }
            assert(answers@.skip(j as int)[1] == answers@[j + 1]);
            assert(answers@.skip(j as int).skip(2) =~= answers@.skip(j + 2));
            failed = failed || !answers[j + 1];
            i += 1;
            j += 2;
        }
    }
    assert(pids@.skip(i as int) =~= Seq::<u32>::empty());
    if failed {
        Action::Finish(1)
    } else {
        Action::Finish(0)
    }
}

fn run_find_owned(pids: &Vec<u32>, answers: &Vec<bool>, start: usize) -> (r: Action)
    requires
        start <= answers@.len(),
    ensures
        r == find_owned(pids@, answers@.skip(start as int)),
{
    let mut i: usize = 0;
    let mut j: usize = start;
    assert(pids@.skip(0) =~= pids@);
    while i < pids.len()
        invariant
            i <= pids@.len(),
            start <= j <= answers@.len(),
            find_owned(pids@, answers@.skip(start as int)) == find_owned(
                pids@.skip(i as int),
                answers@.skip(j as int),
            ),
        decreases pids@.len() - i,
    {
        assert(pids@.skip(i as int)[0] == pids@[i as int]);
        if j == answers.len() {
            return Action::CheckOwner(pids[i]);
        }
        assert(answers@.skip(j as int)[0] == answers@[j as int]);
        if answers[j] {
            return Action::Finish(0);
        }
        assert(pids@.skip(i as int).drop_first() =~= pids@.skip(i + 1));
        assert(answers@.skip(j as int).drop_first() =~= answers@.skip(j + 1));
        i += 1;
        j += 1;
    }
    Action::Finish(1)
}

/// The next step of `task` on the matching processes `pids`, given the
/// answers to the steps taken so far (in the order the steps were taken).
pub fn next_action(task: Task, pids: &Vec<u32>, answers: &Vec<bool>) -> (r: Action)
    ensures
        r == task_step(task, pids@, answers@),
{
    proof {
        assert(answers@.skip(0) =~= answers@);
        if answers@.len() > 0 {
            assert(answers@.skip(1) =~= answers@.drop_first());
        }
    }
    let found: i32 = if pids.len() > 0 { 0 } else { 1 };
    match task {
        Task::Find => Action::Finish(found),
        Task::FindCurrentUser => {
            if answers.len() == 0 {
                Action::LookupUser
            } else if answers[0] {
                run_find_owned(pids, answers, 1)
            } else {
                Action::Finish(found)
            }
        },
        Task::Kill => {
            if pids.len() == 0 {
                Action::Finish(2)
            } else {
                run_kill_all(pids, answers, 0)
            }
        },
        Task::KillCurrentUser => {
            if pids.len() == 0 {
                Action::Finish(2)
            } else if answers.len() == 0 {
                Action::LookupUser
            } else if answers[0] {
                run_kill_owned(pids, answers, 1)
            } else {
                run_kill_all(pids, answers, 1)
            }
        },
        Task::StandaloneKill => {
            if pids.len() == 0 {
                Action::Finish(1)
            } else {
                run_kill_until_failure(pids, answers)
            }
        },
    }
}

proof fn lemma_owned_never_two(pids: Seq<u32>, answers: Seq<bool>, failed: bool)
    ensures
        kill_owned(pids, answers, failed) != Action::Finish(2),
    decreases pids.len(),
{
    if pids.len() > 0 && answers.len() > 0 {
        lemma_owned_never_two(pids.drop_first(), answers.drop_first(), failed);
        if answers.len() >= 2 {
            lemma_owned_never_two(pids.drop_first(), answers.skip(2), failed || !answers[1]);
        }
    }
}

/// `KillProcess` and `KillProcessCurrentUser` answer 2 exactly when no
/// process matched, whatever happens afterwards.
pub proof fn law_two_means_none_found(task: Task, pids: Seq<u32>, answers: Seq<bool>)
    requires
        task == Task::Kill || task == Task::KillCurrentUser,
    ensures
        (task_step(task, pids, answers) == Action::Finish(2)) <==> pids.len() == 0,
{
    if answers.len() > 0 {
        lemma_owned_never_two(pids, answers.drop_first(), false);
    }
}

proof fn lemma_owned_targets_listed(pids: Seq<u32>, answers: Seq<bool>, failed: bool, p: u32)
    ensures
        kill_owned(pids, answers, failed) == Action::Terminate(p) ==> pids.contains(p),
        kill_owned(pids, answers, failed) == Action::CheckOwner(p) ==> pids.contains(p),
    decreases pids.len(),
{
    if pids.len() > 0 {
        assert(pids.contains(pids[0]));
        if answers.len() > 0 {
            lemma_owned_targets_listed(pids.drop_first(), answers.drop_first(), failed, p);
            if answers.len() >= 2 {
                lemma_owned_targets_listed(
                    pids.drop_first(),
                    answers.skip(2),
                    failed || !answers[1],
                    p,
                );
            }
            assert(forall|q: u32| pids.drop_first().contains(q) ==> pids.contains(q));
        }
    }
}

proof fn lemma_find_targets_listed(pids: Seq<u32>, answers: Seq<bool>, p: u32)
    ensures
        find_owned(pids, answers) == Action::CheckOwner(p) ==> pids.contains(p),
        !(find_owned(pids, answers) is Terminate),
    decreases pids.len(),
{
    if pids.len() > 0 {
        assert(pids.contains(pids[0]));
        if answers.len() > 0 {
            lemma_find_targets_listed(pids.drop_first(), answers.drop_first(), p);
            assert(forall|q: u32| pids.drop_first().contains(q) ==> pids.contains(q));
        }
    }
}

/// Only matching processes are ever terminated or asked about.
pub proof fn law_only_listed_processes(task: Task, pids: Seq<u32>, answers: Seq<bool>, p: u32)
    ensures
        task_step(task, pids, answers) == Action::Terminate(p) ==> pids.contains(p),
        task_step(task, pids, answers) == Action::CheckOwner(p) ==> pids.contains(p),
{
    if answers.len() < pids.len() {
        assert(pids.contains(pids[answers.len() as int]));
    }
    if answers.len() > 0 {
        lemma_owned_targets_listed(pids, answers.drop_first(), false, p);
        lemma_find_targets_listed(pids, answers.drop_first(), p);
        if answers.len() - 1 < pids.len() {
            assert(pids.contains(pids[answers.len() - 1]));
        }
    }
}

/// `KillProcess` asks to terminate every matching process, one after
/// another in order, whatever came of the terminations before.
pub proof fn law_every_match_terminated(task: Task, pids: Seq<u32>, answers: Seq<bool>, i: int)
    requires
        task == Task::Kill,
        0 <= i < pids.len(),
        i <= answers.len(),
    ensures
        task_step(task, pids, answers.take(i)) == Action::Terminate(pids[i]),
{
}

/// Once every matching process has had its termination answered,
/// `KillProcess` answers 0 when all of them succeeded and 1 when any
/// failed.
pub proof fn law_kill_result(task: Task, pids: Seq<u32>, answers: Seq<bool>)
    requires
        task == Task::Kill,
        0 < pids.len() <= answers.len(),
    ensures
        task_step(task, pids, answers) == Action::Finish(0) <==> (forall|i: int|
            0 <= i < pids.len() ==> #[trigger] answers[i]),
        task_step(task, pids, answers) == Action::Finish(1) <==> (exists|i: int|
            0 <= i < pids.len() && !#[trigger] answers[i]),
{
}

/// The standalone `KillProcess` asks to terminate the matching processes
/// in order for as long as every termination so far succeeded.
pub proof fn law_standalone_terminates_in_order(pids: Seq<u32>, answers: Seq<bool>, i: int)
    requires
        0 <= i < pids.len(),
        i <= answers.len(),
        all_succeeded(answers, i),
    ensures
        task_step(Task::StandaloneKill, pids, answers.take(i)) == Action::Terminate(pids[i]),
{
    assert(all_succeeded(answers.take(i), answered(pids, answers.take(i))));
}

proof fn lemma_first_failure(answers: Seq<bool>, n: int)
    requires
        0 <= n <= answers.len(),
        !all_succeeded(answers, n),
    ensures
        exists|i: int| 0 <= i < n && !answers[i] && #[trigger] all_succeeded(answers, i),
    decreases n,
{
    if all_succeeded(answers, n - 1) {
        assert(!answers[n - 1] && all_succeeded(answers, n - 1));
    } else {
        lemma_first_failure(answers, n - 1);
    }
}

/// The standalone `KillProcess` answers 0 only when every matching process
/// was terminated successfully; when it answers 1 after finding processes,
/// it stopped at a termination that failed, and every one before it had
/// succeeded.
pub proof fn law_standalone_result(pids: Seq<u32>, answers: Seq<bool>)
    requires
        pids.len() > 0,
        task_step(Task::StandaloneKill, pids, answers) is Finish,
    ensures
        task_step(Task::StandaloneKill, pids, answers) == Action::Finish(0) ==> answers.len()
            >= pids.len() && all_succeeded(answers, pids.len() as int),
        task_step(Task::StandaloneKill, pids, answers) == Action::Finish(1) ==> exists|i: int|
            0 <= i < pids.len() && i < answers.len() && !answers[i] && #[trigger] all_succeeded(
                answers,
                i,
            ) && task_step(Task::StandaloneKill, pids, answers.take(i)) == Action::Terminate(
                pids[i],
            ),
{
    if task_step(Task::StandaloneKill, pids, answers) == Action::Finish(1) {
        lemma_first_failure(answers, answered(pids, answers));
        let i = choose|i: int|
            0 <= i < answered(pids, answers) && !answers[i] && #[trigger] all_succeeded(answers, i);
        law_standalone_terminates_in_order(pids, answers, i);
    }
}

proof fn lemma_owned_checks_first(pids: Seq<u32>, answers: Seq<bool>, failed: bool, p: u32)
    requires
        kill_owned(pids, answers, failed) == Action::Terminate(p),
    ensures
        answers.len() >= 1,
        answers.last(),
        kill_owned(pids, answers.drop_last(), failed) == Action::CheckOwner(p),
    decreases pids.len(),
{
    if !answers[0] {
        lemma_owned_checks_first(pids.drop_first(), answers.drop_first(), failed, p);
        assert(answers.drop_last().drop_first() =~= answers.drop_first().drop_last());
    } else if answers.len() == 1 {
        assert(answers.drop_last() =~= Seq::<bool>::empty());
    } else {
        lemma_owned_checks_first(pids.drop_first(), answers.skip(2), failed || !answers[1], p);
        assert(answers.drop_last().skip(2) =~= answers.skip(2).drop_last());
    }
}

/// With the current user known, `KillProcessCurrentUser` terminates a
/// process only right after it found that the process belongs to the user.
pub proof fn law_terminate_only_owned(pids: Seq<u32>, answers: Seq<bool>, p: u32)
    requires
        answers.len() > 0,
        answers[0],
        task_step(Task::KillCurrentUser, pids, answers) == Action::Terminate(p),
    ensures
        answers.len() >= 2,
        answers.last(),
        task_step(Task::KillCurrentUser, pids, answers.drop_last()) == Action::CheckOwner(p),
{
    lemma_owned_checks_first(pids, answers.drop_first(), false, p);
    assert(answers.drop_first().drop_last() =~= answers.drop_last().drop_first());
}

proof fn lemma_owned_examines_all(pids: Seq<u32>, answers: Seq<bool>, failed: bool)
    requires
        kill_owned(pids, answers, failed) is Finish,
    ensures
        answers.len() >= pids.len(),
    decreases pids.len(),
{
    if pids.len() > 0 {
        if !answers[0] {
            lemma_owned_examines_all(pids.drop_first(), answers.drop_first(), failed);
        } else {
            lemma_owned_examines_all(pids.drop_first(), answers.skip(2), failed || !answers[1]);
        }
    }
}

/// With the current user known, `KillProcessCurrentUser` finishes only
/// after every matching process was examined: a failed termination does
/// not stop it.
pub proof fn law_owned_all_examined(pids: Seq<u32>, answers: Seq<bool>)
    requires
        answers.len() > 0,
        answers[0],
        task_step(Task::KillCurrentUser, pids, answers) is Finish,
    ensures
        answers.len() - 1 >= pids.len(),
{
    if pids.len() > 0 {
        lemma_owned_examines_all(pids, answers.drop_first(), false);
    }
}

/// A termination that `kill_owned` asked for and that failed.
pub open spec fn owned_failure_at(pids: Seq<u32>, answers: Seq<bool>, failed: bool, i: int) -> bool {
    &&& 0 <= i < answers.len()
    &&& kill_owned(pids, answers.take(i), failed) is Terminate
    &&& !answers[i]
}

proof fn lemma_owned_result(pids: Seq<u32>, answers: Seq<bool>, failed: bool, c: i32)
    requires
        kill_owned(pids, answers, failed) == Action::Finish(c),
    ensures
        (c == 1) <==> (failed || exists|i: int| #[trigger] owned_failure_at(pids, answers, failed, i)),
        c == 0 || c == 1,
    decreases pids.len(),
{
    if pids.len() == 0 {
        assert forall|i: int| !#[trigger] owned_failure_at(pids, answers, failed, i) by {
            if 0 <= i < answers.len() {
                assert(kill_owned(pids, answers.take(i), failed) is Finish);
            }
        }
    } else if !answers[0] {
        let t = answers.drop_first();
        lemma_owned_result(pids.drop_first(), t, failed, c);
        assert forall|i: int| #[trigger] owned_failure_at(pids, answers, failed, i) <==> (1 <= i
            && owned_failure_at(pids.drop_first(), t, failed, i - 1)) by {
            if 1 <= i < answers.len() {
                assert(answers.take(i).drop_first() =~= t.take(i - 1));
                assert(answers.take(i)[0] == answers[0]);
            }
            if i == 0 {
                assert(answers.take(0).len() == 0);
            }
        }
        if exists|k: int| #[trigger] owned_failure_at(pids.drop_first(), t, failed, k) {
            let k = choose|k: int| #[trigger] owned_failure_at(pids.drop_first(), t, failed, k);
            assert(owned_failure_at(pids, answers, failed, k + 1));
        }
    } else {
        let t = answers.skip(2);
        let f2 = failed || !answers[1];
        lemma_owned_result(pids.drop_first(), t, f2, c);
        assert forall|i: int| #[trigger] owned_failure_at(pids, answers, failed, i) <==> (i == 1
            && !answers[1] || 2 <= i && owned_failure_at(pids.drop_first(), t, f2, i - 2)) by {
            if 2 <= i < answers.len() {
                assert(answers.take(i).skip(2) =~= t.take(i - 2));
                assert(answers.take(i)[0] == answers[0]);
                assert(answers.take(i)[1] == answers[1]);
            }
            if i == 1 {
                assert(answers.take(1)[0] == answers[0]);
            }
            if i == 0 {
                assert(answers.take(0).len() == 0);
            }
        }
        if !answers[1] {
            assert(owned_failure_at(pids, answers, failed, 1));
        }
        if exists|k: int| #[trigger] owned_failure_at(pids.drop_first(), t, f2, k) {
            let k = choose|k: int| #[trigger] owned_failure_at(pids.drop_first(), t, f2, k);
            assert(owned_failure_at(pids, answers, failed, k + 2));
        }
    }
}

/// With the current user known, `KillProcessCurrentUser` answers 1 exactly
/// when one of the terminations it asked for failed, and 0 otherwise.
pub proof fn law_owned_result(pids: Seq<u32>, answers: Seq<bool>, c: i32)
    requires
        pids.len() > 0,
        answers.len() > 0,
        answers[0],
        task_step(Task::KillCurrentUser, pids, answers) == Action::Finish(c),
    ensures
        c == 0 || c == 1,
        (c == 1) <==> exists|i: int|
            1 <= i < answers.len() && !answers[i] && #[trigger] task_step(
                Task::KillCurrentUser,
                pids,
                answers.take(i),
            ) is Terminate,
{
    let t = answers.drop_first();
    lemma_owned_result(pids, t, false, c);
    assert forall|i: int| 1 <= i < answers.len() implies (#[trigger] task_step(
        Task::KillCurrentUser,
        pids,
        answers.take(i),
    ) is Terminate && !answers[i]) == owned_failure_at(pids, t, false, i - 1) by {
        assert(answers.take(i).drop_first() =~= t.take(i - 1));
        assert(answers.take(i)[0] == answers[0]);
    }
    if c == 1 {
        let k = choose|k: int| #[trigger] owned_failure_at(pids, t, false, k);
        assert(task_step(Task::KillCurrentUser, pids, answers.take(k + 1)) is Terminate);
    }
}

/// When the current user's id cannot be read, the current-user variants
/// fall back to the plain ones: `FindProcessCurrentUser` answers as
/// `FindProcess`, and `KillProcessCurrentUser` proceeds as `KillProcess`
/// does with the answers that follow.
pub proof fn law_unknown_user_falls_back(pids: Seq<u32>, answers: Seq<bool>)
    requires
        answers.len() > 0,
        !answers[0],
    ensures
        task_step(Task::FindCurrentUser, pids, answers) == task_step(Task::Find, pids, answers),
        task_step(Task::KillCurrentUser, pids, answers) == task_step(
            Task::Kill,
            pids,
            answers.drop_first(),
        ),
{
}

proof fn lemma_find_yes_finishes(pids: Seq<u32>, answers: Seq<bool>, p: u32)
    requires
        find_owned(pids, answers) == Action::CheckOwner(p),
    ensures
        find_owned(pids, answers.push(true)) == Action::Finish(0),
        pids.contains(p),
    decreases pids.len(),
{
    assert(pids.contains(pids[0]));
    if answers.len() > 0 {
        lemma_find_yes_finishes(pids.drop_first(), answers.drop_first(), p);
        assert(answers.push(true).drop_first() =~= answers.drop_first().push(true));
        assert(forall|q: u32| pids.drop_first().contains(q) ==> pids.contains(q));
    }
}

/// With the current user known, `FindProcessCurrentUser` answers 0 as soon
/// as one matching process is found to belong to the user, whichever it is.
pub proof fn law_find_owned_stops_at_yes(pids: Seq<u32>, answers: Seq<bool>, p: u32)
    requires
        answers.len() > 0,
        answers[0],
        task_step(Task::FindCurrentUser, pids, answers) == Action::CheckOwner(p),
    ensures
        task_step(Task::FindCurrentUser, pids, answers.push(true)) == Action::Finish(0),
        pids.contains(p),
{
    lemma_find_yes_finishes(pids, answers.drop_first(), p);
    assert(answers.push(true).drop_first() =~= answers.drop_first().push(true));
}

proof fn lemma_find_no_means_none(pids: Seq<u32>, answers: Seq<bool>, i: int)
    requires
        find_owned(pids, answers) == Action::Finish(1),
        0 <= i < answers.len(),
        find_owned(pids, answers.take(i)) is CheckOwner,
    ensures
        !answers[i],
    decreases pids.len(),
{
    if i > 0 {
        assert(answers.take(i)[0] == answers[0]);
        assert(answers.take(i).drop_first() =~= answers.drop_first().take(i - 1));
        lemma_find_no_means_none(pids.drop_first(), answers.drop_first(), i - 1);
    }
}

proof fn lemma_find_examines_all(pids: Seq<u32>, answers: Seq<bool>)
    requires
        find_owned(pids, answers) == Action::Finish(1),
    ensures
        answers.len() >= pids.len(),
    decreases pids.len(),
{
    if pids.len() > 0 {
        lemma_find_examines_all(pids.drop_first(), answers.drop_first());
    }
}

/// With the current user known, `FindProcessCurrentUser` answers 1 only
/// when it asked about every matching process and each was found not to
/// belong to the user.
pub proof fn law_find_owned_no_means_none(pids: Seq<u32>, answers: Seq<bool>)
    requires
        answers.len() > 0,
        answers[0],
        task_step(Task::FindCurrentUser, pids, answers) == Action::Finish(1),
    ensures
        answers.len() - 1 >= pids.len(),
        forall|i: int|
            1 <= i < answers.len() && #[trigger] task_step(
                Task::FindCurrentUser,
                pids,
                answers.take(i),
            ) is CheckOwner ==> !answers[i],
{
    let t = answers.drop_first();
    lemma_find_examines_all(pids, t);
    assert forall|i: int|
        1 <= i < answers.len() && #[trigger] task_step(
            Task::FindCurrentUser,
            pids,
            answers.take(i),
        ) is CheckOwner implies !answers[i] by {
        assert(answers.take(i)[0] == answers[0]);
        assert(answers.take(i).drop_first() =~= t.take(i - 1));
        lemma_find_no_means_none(pids, t, i - 1);
    }
}

/// Windows error code `ERROR_ACCESS_DENIED`.
pub const ERROR_ACCESS_DENIED: u32 = 5;

/// Windows error code `ERROR_INVALID_PARAMETER`.
pub const ERROR_INVALID_PARAMETER: u32 = 87;

/// How an attempt to terminate a process went.
#[derive(PartialEq, Eq, Structural, Clone, Copy, Debug)]
pub enum TerminationOutcome {
    /// `OpenProcess` gave no handle; the error code that followed.
    OpenFailed(u32),
    /// `TerminateProcess` failed; the error code that followed.
    TerminateFailed(u32),
    /// The process was terminated.
    Terminated,
}

/// Whether the attempt counts as a successful kill: the process was
/// terminated, or it had already exited, which shows as
/// `ERROR_INVALID_PARAMETER` when opening it or as `ERROR_ACCESS_DENIED`
/// when it exits between opening and terminating.
pub open spec fn counts_as_killed(outcome: TerminationOutcome) -> bool {
    match outcome {
        TerminationOutcome::OpenFailed(e) => e == ERROR_INVALID_PARAMETER,
        TerminationOutcome::TerminateFailed(e) => e == ERROR_ACCESS_DENIED,
        TerminationOutcome::Terminated => true,
    }
}

/// Decides whether an attempt to terminate a process succeeded.
pub fn termination_succeeded(outcome: TerminationOutcome) -> (r: bool)
    ensures
        r == counts_as_killed(outcome),
{
    match outcome {
        TerminationOutcome::OpenFailed(e) => e == ERROR_INVALID_PARAMETER,
        TerminationOutcome::TerminateFailed(e) => e == ERROR_ACCESS_DENIED,
        TerminationOutcome::Terminated => true,
    }
}

/// A termination counts as done when the process was terminated, or when
/// it had already exited: opening it failed with `ERROR_INVALID_PARAMETER`
/// (87), or terminating it failed with `ERROR_ACCESS_DENIED` (5). Any other
/// failure counts as not killed.
pub proof fn law_already_exited_counts(e: u32)
    ensures
        counts_as_killed(TerminationOutcome::Terminated),
        counts_as_killed(TerminationOutcome::OpenFailed(e)) <==> e == 87,
        counts_as_killed(TerminationOutcome::TerminateFailed(e)) <==> e == 5,
{
}

} // verus!
