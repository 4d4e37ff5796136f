use vstd::prelude::*;

verus! {

/// One row of a process snapshot: the process id and the name of its
/// executable file.
pub struct ProcessEntry {
    pub pid: u32,
    pub exe_name: String,
}

/// What `str::to_lowercase` returns for a text.
pub uninterp spec fn lowercase(s: Seq<char>) -> Seq<char>;

/// Lowercases a text with `str::to_lowercase`. Claimed: the result is
/// `lowercase` of the argument.
#[verifier::external_body]
fn to_lowercase(s: &str) -> (r: String)
    ensures
        r@ == lowercase(s@),
{
    s.to_lowercase()
}

/// The entry names a process that the plugin looks for: its executable name
/// equals `name` case-insensitively, and it is not the process `own_pid`
/// (the installer itself) when one is given.
pub open spec fn is_selected(entry: ProcessEntry, name: Seq<char>, own_pid: Option<u32>) -> bool {
    &&& own_pid != Some(entry.pid)
    &&& lowercase(entry.exe_name@) == lowercase(name)
}

/// The ids of the selected entries of `entries`, in snapshot order.
pub open spec fn selected_pids(entries: Seq<ProcessEntry>, name: Seq<char>, own_pid: Option<u32>) -> Seq<u32>
    decreases entries.len(),
{
    if entries.len() == 0 {
        Seq::empty()
    } else {
        let rest = selected_pids(entries.drop_last(), name, own_pid);
        if is_selected(entries.last(), name, own_pid) {
            rest.push(entries.last().pid)
        } else {
            rest
        }
    }
}

/// The ids selected from the rows of `snapshot` from `start` on.
fn select_from(snapshot: &Vec<ProcessEntry>, name: &str, own_pid: Option<u32>, start: usize) -> (r: Vec<u32>)
    requires
        start <= snapshot@.len(),
    ensures
        r@ == selected_pids(snapshot@.skip(start as int), name@, own_pid),
{
    let n = snapshot.len();
    let mut out: Vec<u32> = Vec::new();
    let wanted = to_lowercase(name);
    let mut i: usize = start;
    assert(snapshot@.subrange(start as int, start as int) =~= Seq::<ProcessEntry>::empty());
    while i < n
        invariant
            n == snapshot@.len(),
            start <= i <= n,
            wanted@ == lowercase(name@),
            out@ == selected_pids(snapshot@.subrange(start as int, i as int), name@, own_pid),
        decreases n - i,
    {
        let entry = &snapshot[i];
        let lowered = to_lowercase(entry.exe_name.as_str());
        let skip_own = match own_pid {
            Some(p) => p == entry.pid,
            None => false,
        };
        let ghost prefix = snapshot@.subrange(start as int, i + 1);
        assert(prefix.drop_last() =~= snapshot@.subrange(start as int, i as int));
        assert(prefix.last() == snapshot@[i as int]);
        if !skip_own && lowered == wanted {
            out.push(entry.pid);
        }
        i += 1;
    }
    assert(snapshot@.subrange(start as int, n as int) =~= snapshot@.skip(start as int));
    out
}

/// The ids of the processes in `snapshot` whose executable is called `name`,
/// compared case-insensitively, leaving out the process `own_pid` (the
/// installer itself), in snapshot order.
pub fn select_processes(snapshot: &Vec<ProcessEntry>, name: &str, own_pid: Option<u32>) -> (r: Vec<u32>)
    ensures
        r@ == selected_pids(snapshot@, name@, own_pid),
{
    assert(snapshot@.skip(0) =~= snapshot@);
    select_from(snapshot, name, own_pid, 0)
}

/// The ids that the standalone `nsis-process` plugin collects: it never
/// compares the first row of the snapshot (the one its enumeration starts
/// from), and of the others takes those whose name matches, in order.
pub open spec fn standalone_matches(snapshot: Seq<ProcessEntry>, name: Seq<char>) -> Seq<u32> {
    if snapshot.len() == 0 {
        Seq::empty()
    } else {
        selected_pids(snapshot.skip(1), name, None)
    }
}

/// The ids of the processes that the standalone `nsis-process` plugin finds
/// in `snapshot` for `name`.
pub fn select_standalone_processes(snapshot: &Vec<ProcessEntry>, name: &str) -> (r: Vec<u32>)
    ensures
        r@ == standalone_matches(snapshot@, name@),
{
    if snapshot.len() == 0 {
        Vec::new()
    } else {
        select_from(snapshot, name, None, 1)
    }
}

/// Case does not matter: two names with the same lowercase form select the
/// same processes from any snapshot.
pub proof fn law_case_insensitive_selection(
    snapshot: Seq<ProcessEntry>,
    name1: Seq<char>,
    name2: Seq<char>,
    own_pid: Option<u32>,
)
    requires
        lowercase(name1) == lowercase(name2),
    ensures
        selected_pids(snapshot, name1, own_pid) == selected_pids(snapshot, name2, own_pid),
    decreases snapshot.len(),
{
    if snapshot.len() > 0 {
        law_case_insensitive_selection(snapshot.drop_last(), name1, name2, own_pid);
    }
}

/// The installer never selects itself, and every selected id belongs to a
/// row of the snapshot whose name matches.
pub proof fn law_selection_sound(snapshot: Seq<ProcessEntry>, name: Seq<char>, own_pid: u32, k: int)
    requires
        0 <= k < selected_pids(snapshot, name, Some(own_pid)).len(),
    ensures
        selected_pids(snapshot, name, Some(own_pid))[k] != own_pid,
        exists|j: int|
            0 <= j < snapshot.len() && #[trigger] snapshot[j].pid == selected_pids(
                snapshot,
                name,
                Some(own_pid),
            )[k] && is_selected(snapshot[j], name, Some(own_pid)),
    decreases snapshot.len(),
{
    let rest = selected_pids(snapshot.drop_last(), name, Some(own_pid));
    if k < rest.len() {
        law_selection_sound(snapshot.drop_last(), name, own_pid, k);
        let j = choose|j: int|
            0 <= j < snapshot.drop_last().len() && #[trigger] snapshot.drop_last()[j].pid == rest[k]
                && is_selected(snapshot.drop_last()[j], name, Some(own_pid));
        assert(snapshot[j] == snapshot.drop_last()[j]);
    } else {
        assert(snapshot[snapshot.len() - 1] == snapshot.last());
    }
}

/// Every running process with the name is found: each row of the snapshot
/// that matches the name, and is not the installer, has its id selected.
pub proof fn law_selection_complete(snapshot: Seq<ProcessEntry>, name: Seq<char>, own_pid: Option<u32>, j: int)
    requires
        0 <= j < snapshot.len(),
        is_selected(snapshot[j], name, own_pid),
    ensures
        selected_pids(snapshot, name, own_pid).contains(snapshot[j].pid),
    decreases snapshot.len(),
{
    let rest = selected_pids(snapshot.drop_last(), name, own_pid);
    if j < snapshot.len() - 1 {
        assert(snapshot.drop_last()[j] == snapshot[j]);
        law_selection_complete(snapshot.drop_last(), name, own_pid, j);
        let k = choose|k: int| 0 <= k < rest.len() && rest[k] == snapshot[j].pid;
        assert(selected_pids(snapshot, name, own_pid)[k] == snapshot[j].pid);
    } else {
        assert(snapshot.last() == snapshot[j]);
        assert(selected_pids(snapshot, name, own_pid)[rest.len() as int] == snapshot[j].pid);
    }
}

} // verus!
