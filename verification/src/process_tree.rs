//! The tree of processes descended from a task's root process.
//!
//! A task's tracked pid may be an idle launcher (a shell, `uv run`, an
//! elevation stub) while the real work runs in its children, so resource
//! usage is summed over the root and every process descended from it.
//! The process table is given as `(pid, parent pid)` pairs.

use vstd::prelude::*;
use vstd::set_lib::lemma_len_subset;
use vstd::seq_lib::seq_to_set_is_finite;

verus! {

/// Whether the table lists `c` as a child of `p`.
pub open spec fn is_child_of(procs: Seq<(u32, Option<u32>)>, c: u32, p: u32) -> bool {
    exists|i: int| 0 <= i < procs.len() && #[trigger] procs[i] == (c, Some(p))
}

/// Whether `chain` is a line of descent in the table: each pid after the
/// first is a child of the one before it.
pub open spec fn is_descent(procs: Seq<(u32, Option<u32>)>, chain: Seq<u32>) -> bool {
    &&& chain.len() > 0
    &&& forall|i: int| 0 <= i < chain.len() - 1 ==> #[trigger] is_child_of(procs, chain[i + 1], chain[i])
}

/// Whether `p` is `root` or one of its descendants.
pub open spec fn in_subtree(procs: Seq<(u32, Option<u32>)>, root: u32, p: u32) -> bool {
    exists|chain: Seq<u32>| #[trigger] is_descent(procs, chain) && chain[0] == root && chain.last() == p
}

/// The pids a subtree can hold: the root and every pid of the table.
pub open spec fn candidates(procs: Seq<(u32, Option<u32>)>, root: u32) -> Seq<u32> {
    seq![root] + procs.map_values(|e: (u32, Option<u32>)| e.0)
}

proof fn lemma_unique_subset_len(v: Seq<u32>, cands: Seq<u32>)
    requires
        v.no_duplicates(),
        forall|x: u32| v.contains(x) ==> cands.contains(x),
    ensures
        v.len() <= cands.len(),
{
    broadcast use seq_to_set_is_finite;
    v.unique_seq_to_set();
    cands.lemma_cardinality_of_set();
    assert(v.to_set().subset_of(cands.to_set()));
    lemma_len_subset(v.to_set(), cands.to_set());
}

/// A set of pids that holds `root` and, with each pid, all its children,
/// holds every pid at the end of a line of descent from the root.
proof fn lemma_closed_holds_descent(procs: Seq<(u32, Option<u32>)>, root: u32, v: Seq<u32>, chain: Seq<u32>)
    requires
        v.contains(root),
        forall|q: u32, c: u32| v.contains(q) && #[trigger] is_child_of(procs, c, q) ==> v.contains(c),
        is_descent(procs, chain),
        chain[0] == root,
    ensures
        v.contains(chain.last()),
    decreases chain.len(),
{
    if chain.len() > 1 {
        let prefix = chain.drop_last();
        assert forall|i: int| 0 <= i < prefix.len() - 1 implies #[trigger] is_child_of(procs, prefix[i + 1], prefix[i]) by {
            assert(is_child_of(procs, chain[i + 1], chain[i]));
        }
        lemma_closed_holds_descent(procs, root, v, prefix);
        let i = chain.len() - 2;
        assert(is_child_of(procs, chain[i + 1], chain[i]));
        assert(prefix.last() == chain[i]);
    }
}

/// A line of descent extended by a child of its last pid is a line of descent.
proof fn lemma_descent_push(procs: Seq<(u32, Option<u32>)>, chain: Seq<u32>, c: u32)
    requires
        is_descent(procs, chain),
        is_child_of(procs, c, chain.last()),
    ensures
        is_descent(procs, chain.push(c)),
        chain.push(c)[0] == chain[0],
        chain.push(c).last() == c,
{
    let ext = chain.push(c);
    assert forall|i: int| 0 <= i < ext.len() - 1 implies #[trigger] is_child_of(procs, ext[i + 1], ext[i]) by {
        if i < chain.len() - 1 {
            assert(is_child_of(procs, chain[i + 1], chain[i]));
        }
    }
}

/// Whether `v` already holds `x`.
fn holds(v: &Vec<u32>, x: u32) -> (r: bool)
    ensures
        r == v@.contains(x),
{
    let mut i: usize = 0;
    while i < v.len()
        invariant
            i <= v@.len(),
            forall|j: int| 0 <= j < i ==> v@[j] != x,
        decreases v.len() - i,
    {
        if v[i] == x {
            return true;
        }
        i = i + 1;
    }
    false
}

/// The pids of `root` and of every process descended from it, each once, in
/// breadth-first order from the root. A pid-reuse cycle in the table cannot
/// make the walk loop: each pid is visited at most once.
pub fn subtree_pids(procs: &Vec<(u32, Option<u32>)>, root: u32) -> (r: Vec<u32>)
    ensures
        r@.no_duplicates(),
        r@.len() > 0 && r@[0] == root,
        forall|p: u32| r@.contains(p) <==> in_subtree(procs@, root, p),
{
    let ghost table = procs@;
    let ghost cands = candidates(table, root);
    let mut visited: Vec<u32> = Vec::new();
    visited.push(root);
    let mut qi: usize = 0;
    proof {
        assert(is_descent(table, seq![root]));
        assert(in_subtree(table, root, root));
        assert(cands[0] == root);
    }
    while qi < visited.len()
        invariant
            table == procs@,
            cands == candidates(table, root),
            qi <= visited@.len(),
            0 < visited@.len() <= table.len() + 1,
            visited@[0] == root,
            visited@.no_duplicates(),
            forall|x: u32| visited@.contains(x) ==> cands.contains(x),
            forall|x: u32| visited@.contains(x) ==> in_subtree(table, root, x),
            forall|j: int, c: u32|
                0 <= j < qi && #[trigger] is_child_of(table, c, visited@[j]) ==> visited@.contains(c),
        decreases table.len() + 1 - qi,
    {
        let p = visited[qi];
        let ghost before_scan = visited@;
        let mut k: usize = 0;
        while k < procs.len()
            invariant
                table == procs@,
                cands == candidates(table, root),
                k <= table.len(),
                qi < visited@.len(),
                visited@[qi as int] == p,
                visited@.len() <= table.len() + 1,
                visited@[0] == root,
                visited@.no_duplicates(),
                before_scan.is_prefix_of(visited@),
                forall|x: u32| visited@.contains(x) ==> cands.contains(x),
                forall|x: u32| visited@.contains(x) ==> in_subtree(table, root, x),
                forall|i: int| 0 <= i < k && (#[trigger] table[i]).1 == Some(p) ==> visited@.contains(table[i].0),
                forall|j: int, c: u32|
                    0 <= j < qi && #[trigger] is_child_of(table, c, visited@[j]) ==> visited@.contains(c),
            decreases table.len() - k,
        {
            let (c, parent) = procs[k];
            if parent == Some(p) && !holds(&visited, c) {
                proof {
                    assert(table[k as int] == (c, Some(p)));
                    assert(is_child_of(table, c, p));
                    assert(visited@.contains(p));
                    let chain = choose|chain: Seq<u32>| #[trigger] is_descent(table, chain) && chain[0] == root && chain.last() == p;
                    lemma_descent_push(table, chain, c);
                    assert(in_subtree(table, root, c));
                    assert(cands[k as int + 1] == c);
                    assert(cands.contains(c));
                }
                let ghost old_visited = visited@;
                visited.push(c);
                proof {
                    assert forall|x: u32| old_visited.contains(x) implies visited@.contains(x) by {
                        let j = choose|j: int| 0 <= j < old_visited.len() && old_visited[j] == x;
                        assert(visited@[j] == x);
                    }
                    assert forall|x: u32| visited@.contains(x) implies cands.contains(x) by {
                        if x != c {
                            assert(old_visited.contains(x));
                        }
                    }
                    assert forall|x: u32| visited@.contains(x) implies in_subtree(table, root, x) by {
                        if x != c {
                            assert(old_visited.contains(x));
                        }
                    }
                    assert(visited@.no_duplicates());
                    lemma_unique_subset_len(visited@, cands);
                    assert forall|i: int| 0 <= i < k + 1 && (#[trigger] table[i]).1 == Some(p) implies visited@.contains(table[i].0) by {
                        if i < k {
                            assert(old_visited.contains(table[i].0));
                        } else {
                            assert(visited@[visited@.len() - 1] == c);
                        }
                    }
                    assert forall|j: int, c2: u32|
                        0 <= j < qi && #[trigger] is_child_of(table, c2, visited@[j]) implies visited@.contains(c2) by {
                        assert(visited@[j] == old_visited[j]);
                        assert(old_visited.contains(c2));
                    }
                }
            } else {
                proof {
                    if parent == Some(p) {
                        assert(table[k as int] == (c, Some(p)));
                    }
                }
            }
            k = k + 1;
        }
        proof {
            assert forall|j: int, c: u32|
                0 <= j < qi + 1 && #[trigger] is_child_of(table, c, visited@[j]) implies visited@.contains(c) by {
                if j == qi {
                    let i = choose|i: int| 0 <= i < table.len() && #[trigger] table[i] == (c, Some(p));
                    assert(table[i].1 == Some(p));
                }
            }
        }
        qi = qi + 1;
    }
    proof {
        assert forall|q: u32, c: u32| visited@.contains(q) && #[trigger] is_child_of(table, c, q) implies visited@.contains(c) by {
            let j = choose|j: int| 0 <= j < visited@.len() && visited@[j] == q;
            assert(is_child_of(table, c, visited@[j]));
        }
        assert(visited@.contains(root)) by {
            assert(visited@[0] == root);
        }
        assert forall|p: u32| in_subtree(table, root, p) implies visited@.contains(p) by {
            let chain = choose|chain: Seq<u32>| #[trigger] is_descent(table, chain) && chain[0] == root && chain.last() == p;
            lemma_closed_holds_descent(table, root, visited@, chain);
        }
    }
    visited
}

/// A process found in a task's subtree is, by the same rule, a descendant:
/// a child of a subtree member belongs to the subtree.
pub proof fn lemma_subtree_closed_under_children(procs: Seq<(u32, Option<u32>)>, root: u32, p: u32, c: u32)
    requires
        in_subtree(procs, root, p),
        is_child_of(procs, c, p),
    ensures
        in_subtree(procs, root, c),
{
    let chain = choose|chain: Seq<u32>| #[trigger] is_descent(procs, chain) && chain[0] == root && chain.last() == p;
    lemma_descent_push(procs, chain, c);
}

} // verus!
