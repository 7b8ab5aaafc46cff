//! The task list as it is persisted: an ordered list of task configurations
//! with the operations the daemon performs on it under its lock. Each
//! operation is a read-modify-write of the whole list, so a save replaces a
//! task in place, a delete drops it, and a pid update touches nothing but
//! the pids of one task.

use vstd::prelude::*;
use crate::task::{TaskConfig, TaskId};

verus! {

/// The position of the first configuration with identifier `id`, or -1.
pub open spec fn first_index(s: Seq<TaskConfig>, id: u128) -> int
    decreases s.len(),
{
    if s.len() == 0 {
        -1
    } else if s[0].id.0 == id {
        0
    } else {
        let r = first_index(s.drop_first(), id);
        if r < 0 {
            -1
        } else {
            r + 1
        }
    }
}

/// The configuration with identifier `id`: the first one, when several share it.
pub open spec fn find_spec(s: Seq<TaskConfig>, id: u128) -> Option<TaskConfig> {
    let i = first_index(s, id);
    if i < 0 {
        None
    } else {
        Some(s[i])
    }
}

/// The list after saving `c`: it replaces the first configuration with its
/// identifier, or is appended when there is none.
pub open spec fn saved(s: Seq<TaskConfig>, c: TaskConfig) -> Seq<TaskConfig> {
    let i = first_index(s, c.id.0);
    if i < 0 {
        s.push(c)
    } else {
        s.update(i, c)
    }
}

/// Whether a configuration does not have identifier `id`.
pub open spec fn other_than(id: u128) -> spec_fn(TaskConfig) -> bool {
    |t: TaskConfig| t.id.0 != id
}

/// The list after deleting `id`: every configuration with that identifier
/// is dropped, the others keep their order.
pub open spec fn deleted(s: Seq<TaskConfig>, id: u128) -> Seq<TaskConfig> {
    s.filter(other_than(id))
}

/// A configuration with its pids replaced by `pids`.
pub open spec fn with_pids(c: TaskConfig, pids: Vec<u32>) -> TaskConfig {
    TaskConfig { pids, ..c }
}

/// The list with the pids of the task `id` replaced by `pids`.
pub open spec fn pids_replaced(s: Seq<TaskConfig>, id: u128, pids: Vec<u32>) -> Seq<TaskConfig> {
    let i = first_index(s, id);
    s.update(i, with_pids(s[i], pids))
}

proof fn lemma_first_index_bounds(s: Seq<TaskConfig>, id: u128)
    ensures
        -1 <= first_index(s, id) < s.len(),
        first_index(s, id) >= 0 ==> s[first_index(s, id)].id.0 == id,
        first_index(s, id) >= 0 ==> forall|j: int| 0 <= j < first_index(s, id) ==> s[j].id.0 != id,
        first_index(s, id) < 0 ==> forall|j: int| 0 <= j < s.len() ==> s[j].id.0 != id,
    decreases s.len(),
{
    if s.len() > 0 {
        lemma_first_index_bounds(s.drop_first(), id);
        if s[0].id.0 != id {
            assert forall|j: int| 1 <= j < s.len() implies s[j] == s.drop_first()[j - 1] by {}
        }
    }
}

proof fn lemma_first_index_is(s: Seq<TaskConfig>, id: u128, i: int)
    requires
        0 <= i < s.len(),
        s[i].id.0 == id,
        forall|j: int| 0 <= j < i ==> s[j].id.0 != id,
    ensures
        first_index(s, id) == i,
    decreases s.len(),
{
    if i > 0 {
        assert forall|j: int| 0 <= j < i - 1 implies s.drop_first()[j].id.0 != id by {
            assert(s.drop_first()[j] == s[j + 1]);
        }
        lemma_first_index_is(s.drop_first(), id, i - 1);
    }
}

proof fn lemma_first_index_none(s: Seq<TaskConfig>, id: u128)
    requires
        forall|j: int| 0 <= j < s.len() ==> s[j].id.0 != id,
    ensures
        first_index(s, id) == -1,
    decreases s.len(),
{
    if s.len() > 0 {
        assert forall|j: int| 0 <= j < s.len() - 1 implies s.drop_first()[j].id.0 != id by {
            assert(s.drop_first()[j] == s[j + 1]);
        }
        lemma_first_index_none(s.drop_first(), id);
    }
}

/// Why a store operation could not be done.
#[derive(Debug, Clone, Copy, PartialEq, Eq, Structural)]
pub enum StoreError {
    /// No task has the identifier.
    NotFound,
}

/// The persisted task list.
#[derive(Debug, Clone)]
pub struct TaskStore {
    pub tasks: Vec<TaskConfig>,
}

impl TaskStore {
    /// An empty task list, as a missing file reads.
    pub fn new() -> (s: Self)
        ensures
            s.tasks@ == Seq::<TaskConfig>::empty(),
    {
        TaskStore { tasks: Vec::new() }
    }

    /// The position of the task with identifier `id`.
    pub fn position(&self, id: &TaskId) -> (r: Option<usize>)
        ensures
            match r {
                Some(i) => i == first_index(self.tasks@, id.0) && i < self.tasks@.len(),
                None => first_index(self.tasks@, id.0) == -1,
            },
    {
        let mut i: usize = 0;
        while i < self.tasks.len()
            invariant
                i <= self.tasks@.len(),
                forall|j: int| 0 <= j < i ==> self.tasks@[j].id.0 != id.0,
            decreases self.tasks.len() - i,
        {
            if self.tasks[i].id.0 == id.0 {
                proof {
                    lemma_first_index_is(self.tasks@, id.0, i as int);
                }
                return Some(i);
            }
            i = i + 1;
        }
        proof {
            lemma_first_index_none(self.tasks@, id.0);
        }
        None
    }

    /// The task with identifier `id`, if the list has one.
    pub fn find_by_id(&self, id: &TaskId) -> (r: Option<&TaskConfig>)
        ensures
            match r {
                Some(c) => find_spec(self.tasks@, id.0) == Some(*c),
                None => find_spec(self.tasks@, id.0) is None,
            },
    {
        match self.position(id) {
            Some(i) => Some(&self.tasks[i]),
            None => None,
        }
    }

    /// Saves a task: it replaces the stored task with the same identifier, or
    /// is appended when there is none.
    pub fn save(&mut self, config: TaskConfig)
        ensures
            final(self).tasks@ == saved(old(self).tasks@, config),
    {
        match self.position(&config.id) {
            Some(i) => {
                self.tasks.set(i, config);
            },
            None => {
                self.tasks.push(config);
            },
        }
    }

    /// Deletes every task with identifier `id`; the others keep their order.
    pub fn delete(&mut self, id: &TaskId)
        ensures
            final(self).tasks@ == deleted(old(self).tasks@, id.0),
    {
        let mut rest: Vec<TaskConfig> = Vec::new();
        std::mem::swap(&mut rest, &mut self.tasks);
        let ghost all = rest@;
        let ghost n = all.len();
        let mut kept: Vec<TaskConfig> = Vec::new();
        assert(rest@ =~= all.skip(0));
        while rest.len() > 0
            invariant
                n == all.len(),
                rest@.len() <= n,
                rest@ =~= all.skip(n - rest@.len()),
                kept@ == all.take(n - rest@.len()).filter(other_than(id.0)),
            decreases rest.len(),
        {
            let ghost k = n - rest@.len();
            let t = rest.remove(0);
            proof {
                reveal(Seq::filter);
                assert(t == all[k]);
                assert(all.take(k + 1).drop_last() =~= all.take(k));
                assert(all.take(k + 1).last() == all[k]);
                assert(rest@ =~= all.skip(k + 1));
            }
            if t.id.0 != id.0 {
                kept.push(t);
            }
        }
        proof {
            assert(all.take(n as int) =~= all);
        }
        self.tasks = kept;
    }

    /// Replaces the pids of the task with identifier `id` by what `mutate`
    /// makes of them, touching nothing else; fails when no task has it.
    pub fn update_pids<F: FnOnce(Vec<u32>) -> Vec<u32>>(&mut self, id: &TaskId, mutate: F) -> (r: Result<(), StoreError>)
        requires
            forall|p: Vec<u32>| mutate.requires((p,)),
        ensures
            first_index(old(self).tasks@, id.0) < 0 ==> r == Err::<(), StoreError>(StoreError::NotFound)
                && final(self).tasks@ == old(self).tasks@,
            first_index(old(self).tasks@, id.0) >= 0 ==> r is Ok && exists|new_pids: Vec<u32>|
                #[trigger] mutate.ensures((old(self).tasks@[first_index(old(self).tasks@, id.0)].pids,), new_pids)
                    && final(self).tasks@ == pids_replaced(old(self).tasks@, id.0, new_pids),
    {
        match self.position(id) {
            None => Err(StoreError::NotFound),
            Some(i) => {
                let mut config = self.tasks.remove(i);
                let mut old_pids: Vec<u32> = Vec::new();
                std::mem::swap(&mut old_pids, &mut config.pids);
                let new_pids = mutate(old_pids);
                config.pids = new_pids;
                self.tasks.insert(i, config);
                Ok(())
            },
        }
    }
}

/// Whether a pid differs from `pid`.
pub open spec fn not_pid(pid: u32) -> spec_fn(u32) -> bool {
    |p: u32| p != pid
}

/// The pid list with every occurrence of `pid` removed, the others in order
/// (what is left once the process `pid` has exited).
pub fn pids_without(pids: &Vec<u32>, pid: u32) -> (r: Vec<u32>)
    ensures
        r@ == pids@.filter(not_pid(pid)),
{
    let mut out: Vec<u32> = Vec::new();
    let mut i: usize = 0;
    while i < pids.len()
        invariant
            i <= pids@.len(),
            out@ == pids@.take(i as int).filter(not_pid(pid)),
        decreases pids.len() - i,
    {
        proof {
            reveal(Seq::filter);
            assert(pids@.take(i as int + 1).drop_last() =~= pids@.take(i as int));
            assert(pids@.take(i as int + 1).last() == pids@[i as int]);
        }
        if pids[i] != pid {
            out.push(pids[i]);
        }
        i = i + 1;
    }
    assert(pids@.take(pids@.len() as int) =~= pids@);
    out
}

/// Whether the pid list holds `pid`.
pub fn owns_pid(pids: &Vec<u32>, pid: u32) -> (r: bool)
    ensures
        r == pids@.contains(pid),
{
    let mut i: usize = 0;
    while i < pids.len()
        invariant
            i <= pids@.len(),
            forall|j: int| 0 <= j < i ==> pids@[j] != pid,
        decreases pids.len() - i,
    {
        if pids[i] == pid {
            return true;
        }
        i = i + 1;
    }
    false
}

/// What was saved is what is read back.
pub proof fn lemma_find_after_save(s: Seq<TaskConfig>, c: TaskConfig)
    ensures
        find_spec(saved(s, c), c.id.0) == Some(c),
{
    lemma_first_index_bounds(s, c.id.0);
    let i = first_index(s, c.id.0);
    let t = saved(s, c);
    if i < 0 {
        lemma_first_index_is(t, c.id.0, s.len() as int);
    } else {
        lemma_first_index_is(t, c.id.0, i);
    }
}

/// Saving a task leaves what is read for any other identifier unchanged.
pub proof fn lemma_save_keeps_others(s: Seq<TaskConfig>, c: TaskConfig, id: u128)
    requires
        id != c.id.0,
    ensures
        find_spec(saved(s, c), id) == find_spec(s, id),
{
    lemma_first_index_bounds(s, c.id.0);
    lemma_first_index_bounds(s, id);
    let t = saved(s, c);
    let j = first_index(s, id);
    if j >= 0 {
        lemma_first_index_is(t, id, j);
    } else {
        lemma_first_index_none(t, id);
    }
}

/// After a delete nothing is found under the deleted identifier, and every
/// other identifier reads as before.
pub proof fn lemma_delete_removes(s: Seq<TaskConfig>, id: u128, other: u128)
    requires
        other != id,
    ensures
        find_spec(deleted(s, id), id) is None,
        find_spec(deleted(s, id), other) == find_spec(s, other),
    decreases s.len(),
{
    let d = deleted(s, id);
    lemma_first_index_bounds(d, id);
    if first_index(d, id) >= 0 {
        let k = first_index(d, id);
        s.lemma_filter_pred(other_than(id), k);
    }
    if s.len() > 0 {
        lemma_delete_removes(s.drop_last(), id, other);
        assert(s.drop_last().filter(other_than(id)) == deleted(s.drop_last(), id));
        lemma_find_prefix_extend(s.drop_last(), s.last(), other, id);
        assert(s.drop_last().push(s.last()) =~= s);
    }
}

proof fn lemma_find_prefix_extend(p: Seq<TaskConfig>, x: TaskConfig, other: u128, id: u128)
    requires
        other != id,
        find_spec(deleted(p, id), other) == find_spec(p, other),
    ensures
        find_spec(deleted(p.push(x), id), other) == find_spec(p.push(x), other),
{
    let s = p.push(x);
    assert(s.drop_last() =~= p);
    let dp = deleted(p, id);
    let ds = deleted(s, id);
    reveal(Seq::filter);
    lemma_first_index_bounds(p, other);
    lemma_first_index_bounds(dp, other);
    if x.id.0 != id {
        assert(ds =~= dp.push(x));
    } else {
        assert(ds =~= dp);
    }
    let i = first_index(p, other);
    let j = first_index(dp, other);
    if i >= 0 {
        lemma_first_index_is(s, other, i);
        assert(j >= 0);
        if x.id.0 != id {
            lemma_first_index_is(ds, other, j);
        }
    } else {
        assert(j < 0);
        if x.id.0 == other {
            lemma_first_index_is(s, other, p.len() as int);
            lemma_first_index_is(ds, other, dp.len() as int);
        } else {
            lemma_first_index_none(s, other);
            if x.id.0 != id {
                lemma_first_index_none(ds, other);
            }
        }
    }
}

} // verus!
