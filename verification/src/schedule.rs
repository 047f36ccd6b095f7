//! The copy plan: which queued tasks actually copy.
//!
//! The walk accumulates `(source path, destination directory)` pairs; the
//! copy phase then executes them. A task whose destination file — the
//! source's base name inside the destination directory — already exists is
//! dropped silently, never overwritten; and of several queued tasks aiming
//! at the same destination file, only the first is copied. The plan is
//! computed here, sequentially and verified, before any parallel copying
//! runs.

use vstd::prelude::*;

use crate::classify::Destination;
use crate::scan::basename;
use crate::scan::basename_spec;

verus! {

/// One queued copy: a source file, and the destination directory its
/// classification chose. The copied file keeps the source's base name.
#[derive(Clone, Debug)]
pub struct CopyTask {
    pub src: Vec<u8>,
    pub dest: Destination,
}

/// The destination file a task aims at: its directory paired with the
/// source's base name. Two tasks with equal targets would write the same
/// file.
pub open spec fn target_of(t: CopyTask) -> (Destination, Seq<u8>) {
    (t.dest, basename_spec(t.src@))
}

/// Whether task `i` of the batch is executed, given for each task whether
/// its destination file already existed before the copy phase. Task `i`
/// copies exactly when its own destination file is absent and every earlier
/// task with the same target was blocked the same way — that is, when it is
/// the first task free to write its target. Equal-target tasks see the same
/// file, so of those with an absent target only the first runs.
pub open spec fn executed_at(tasks: Seq<CopyTask>, pre: Seq<bool>, i: int) -> bool {
    &&& !pre[i]
    &&& forall|j: int| 0 <= j < i && #[trigger] target_of(tasks[j]) == target_of(tasks[i]) ==> pre[j]
}

/// Byte-string equality.
fn bytes_eq(a: &[u8], b: &[u8]) -> (r: bool)
    ensures
        r == (a@ == b@),
{
    if a.len() != b.len() {
        return false;
    }
    let mut i: usize = 0;
    while i < a.len()
        invariant
            a@.len() == b@.len(),
            0 <= i <= a@.len(),
            forall|k: int| 0 <= k < i ==> a@[k] == b@[k],
        decreases a@.len() - i,
    {
        if a[i] != b[i] {
            return false;
        }
        i = i + 1;
    }
    proof {
        assert(a@ =~= b@);
    }
    true
}

/// Computes the copy plan for a batch: `r[i]` says whether task `i` is
/// executed, given in `preexisting[i]` whether task `i`'s destination file
/// already existed. Dropped tasks are dropped silently: a task is executed
/// exactly when its destination file is absent and no earlier task aims at
/// the same absent destination file.
pub fn plan_copies(tasks: &Vec<CopyTask>, preexisting: &Vec<bool>) -> (r: Vec<bool>)
    requires
        tasks@.len() == preexisting@.len(),
    ensures
        r@.len() == tasks@.len(),
        forall|i: int| 0 <= i < tasks@.len() ==> r@[i] == executed_at(tasks@, preexisting@, i),
{
    let n = tasks.len();
    // Base names up front, one per task.
    let mut names: Vec<Vec<u8>> = Vec::new();
    let mut t: usize = 0;
    while t < n
        invariant
            n == tasks@.len(),
            0 <= t <= n,
            names@.len() == t,
            forall|k: int| 0 <= k < t ==> names@[k]@ == basename_spec(tasks@[k].src@),
        decreases n - t,
    {
        names.push(basename(tasks[t].src.as_slice()));
        t = t + 1;
    }
    let mut plan: Vec<bool> = Vec::new();
    let mut i: usize = 0;
    while i < n
        invariant
            n == tasks@.len() == preexisting@.len() == names@.len(),
            0 <= i <= n,
            plan@.len() == i,
            forall|k: int| 0 <= k < names@.len() ==> names@[k]@ == basename_spec(tasks@[k].src@),
            forall|k: int| 0 <= k < i ==> plan@[k] == executed_at(tasks@, preexisting@, k),
        decreases n - i,
    {
        let mut run = !preexisting[i];
        if run {
            let mut j: usize = 0;
            while j < i
                invariant_except_break
                    n == tasks@.len() == preexisting@.len() == names@.len(),
                    0 <= j <= i < n,
                    forall|k: int|
                        0 <= k < names@.len() ==> names@[k]@ == basename_spec(tasks@[k].src@),
                    run == (forall|k: int|
                        0 <= k < j && #[trigger] target_of(tasks@[k]) == target_of(tasks@[i as int])
                            ==> preexisting@[k]),
                ensures
                    run == (forall|k: int|
                        0 <= k < i && #[trigger] target_of(tasks@[k]) == target_of(tasks@[i as int])
                            ==> preexisting@[k]),
                decreases i - j,
            {
                let same_dest = tasks[j].dest == tasks[i].dest;
                let same_name = bytes_eq(names[j].as_slice(), names[i].as_slice());
                if same_dest && same_name && !preexisting[j] {
                    proof {
                        assert(target_of(tasks@[j as int]) == target_of(tasks@[i as int]));
                    }
                    run = false;
                    break ;
                }
                proof {
                    if !(same_dest && same_name) {
                        assert(target_of(tasks@[j as int]) != target_of(tasks@[i as int]));
                    }
                }
                j = j + 1;
            }
        }
        proof {
            assert(run == executed_at(tasks@, preexisting@, i as int));
        }
        plan.push(run);
        i = i + 1;
    }
    plan
}

/// Of two queued tasks aiming at the same destination file, never both
/// copy: whichever way the batch and the preexisting files look, at most
/// the first of the two is executed.
pub proof fn lemma_same_target_copied_once(
    tasks: Seq<CopyTask>,
    pre: Seq<bool>,
    i: int,
    j: int,
)
    requires
        pre.len() == tasks.len(),
        0 <= i < j < tasks.len(),
        target_of(tasks[i]) == target_of(tasks[j]),
    ensures
        !(executed_at(tasks, pre, i) && executed_at(tasks, pre, j)),
{
}

/// Among the tasks sharing one target, if any sees its destination file
/// absent, the earliest such task is executed.
proof fn lemma_first_free_task_executes(tasks: Seq<CopyTask>, pre: Seq<bool>, i: int)
    requires
        pre.len() == tasks.len(),
        0 <= i < tasks.len(),
        !pre[i],
    ensures
        exists|j: int|
            0 <= j <= i && #[trigger] target_of(tasks[j]) == target_of(tasks[i]) && executed_at(
                tasks,
                pre,
                j,
            ),
    decreases i,
{
    if executed_at(tasks, pre, i) {
        assert(target_of(tasks[i]) == target_of(tasks[i]) && executed_at(tasks, pre, i));
    } else {
        let j = choose|j: int|
            0 <= j < i && #[trigger] target_of(tasks[j]) == target_of(tasks[i]) && !pre[j];
        lemma_first_free_task_executes(tasks, pre, j);
    }
}

/// Idempotence of the copy phase: running the same batch again, against a
/// filesystem to which the first run added exactly the files it copied,
/// copies nothing — every previously copied file is seen as existing and
/// its task is dropped, not duplicated.
pub proof fn lemma_second_run_copies_nothing(
    tasks: Seq<CopyTask>,
    pre1: Seq<bool>,
    pre2: Seq<bool>,
    i: int,
)
    requires
        pre1.len() == tasks.len(),
        pre2.len() == tasks.len(),
        0 <= i < tasks.len(),
        // After the first run, a task's destination file exists iff it
        // existed before or some task aiming at it was executed.
        forall|k: int|
            0 <= k < tasks.len() ==> (pre2[k] <==> (pre1[k] || exists|j: int|
                0 <= j < tasks.len() && #[trigger] target_of(tasks[j]) == target_of(tasks[k])
                    && executed_at(tasks, pre1, j))),
    ensures
        !executed_at(tasks, pre2, i),
{
    if !pre2[i] {
        assert(!pre1[i]);
        lemma_first_free_task_executes(tasks, pre1, i);
        assert(pre2[i]);
    }
}

} // verus!
