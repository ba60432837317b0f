//! Reachability and absorption analysis on a transition-weight table.
//!
//! The table induces a directed graph: one node per state index, and an
//! edge from `i` to `j` exactly where row `i` gives `j` positive weight.
//! Queries run a breadth-first traversal from a start node; the traversal
//! is proved to visit precisely the reachable nodes.

use vstd::prelude::*;

verus! {

/// The view of a transition-weight table: one row of weights per state.
pub open spec fn table_view(t: Vec<Vec<u64>>) -> Seq<Seq<u64>> {
    Seq::new(t@.len() as nat, |i: int| t@[i]@)
}

/// Every row is exactly as long as the table is tall.
pub open spec fn is_square(m: Seq<Seq<u64>>) -> bool {
    forall|i: int| 0 <= i < m.len() ==> (#[trigger] m[i]).len() == m.len()
}

/// There is a directed edge from `i` to `j` iff row `i` gives `j` positive
/// weight.
pub open spec fn edge(m: Seq<Seq<u64>>, i: int, j: int) -> bool {
    &&& 0 <= i < m.len()
    &&& 0 <= j < m[i].len()
    &&& m[i][j] > 0
}

/// `p` is a walk through the graph of `m` from `from` to `to`.
pub open spec fn is_path(m: Seq<Seq<u64>>, p: Seq<int>, from: int, to: int) -> bool {
    &&& p.len() >= 1
    &&& p[0] == from
    &&& p[p.len() - 1] == to
    &&& forall|k: int| 0 <= k < p.len() - 1 ==> edge(m, p[k], #[trigger] p[k + 1])
}

/// `to` can be reached from `from` by some walk, the walk of no steps
/// included.
pub open spec fn reachable(m: Seq<Seq<u64>>, from: int, to: int) -> bool {
    exists|p: Seq<int>| is_path(m, p, from, to)
}

/// An absorbing index: its row gives itself positive weight and every
/// other index weight zero.
pub open spec fn is_absorbing(m: Seq<Seq<u64>>, i: int) -> bool {
    &&& 0 <= i < m.len()
    &&& i < m[i].len()
    &&& m[i][i] > 0
    &&& forall|j: int| 0 <= j < m[i].len() && j != i ==> m[i][j] == 0
}

/// A state trivially reaches itself via the walk of no steps.
pub proof fn lemma_reachable_self(m: Seq<Seq<u64>>, i: int)
    ensures
        reachable(m, i, i),
{
    assert(is_path(m, seq![i], i, i));
}

/// Following one edge extends reachability.
pub proof fn lemma_reachable_step(m: Seq<Seq<u64>>, from: int, i: int, j: int)
    requires
        reachable(m, from, i),
        edge(m, i, j),
    ensures
        reachable(m, from, j),
{
    let p = choose|p: Seq<int>| is_path(m, p, from, i);
    let q = p.push(j);
    assert(q[q.len() - 1] == j);
    assert forall|k: int| 0 <= k < q.len() - 1 implies edge(m, q[k], #[trigger] q[k + 1]) by {
        if k < p.len() - 1 {
            assert(edge(m, p[k], p[k + 1]));
        } else {
            assert(q[k] == p[p.len() - 1]);
        }
    }
    assert(is_path(m, q, from, j));
}

/// On a square table, whatever is reachable from an in-range node is
/// itself in range or the start node.
pub proof fn lemma_reachable_in_range(m: Seq<Seq<u64>>, from: int, to: int)
    requires
        is_square(m),
        reachable(m, from, to),
        to != from,
    ensures
        0 <= to < m.len(),
{
    let p = choose|p: Seq<int>| is_path(m, p, from, to);
    if p.len() == 1 {
        assert(to == from);
    } else {
        let k = p.len() - 2;
        assert(edge(m, p[k], p[k + 1]));
    }
}

/// An absorbing state reaches nothing but itself: every walk out of it
/// only ever stands still.
pub proof fn lemma_absorbing_reaches_only_itself(m: Seq<Seq<u64>>, i: int, j: int)
    requires
        is_absorbing(m, i),
        reachable(m, i, j),
    ensures
        j == i,
{
    let p = choose|p: Seq<int>| is_path(m, p, i, j);
    lemma_path_from_absorbing(m, p, i, j);
}

proof fn lemma_path_from_absorbing(m: Seq<Seq<u64>>, p: Seq<int>, i: int, j: int)
    requires
        is_absorbing(m, i),
        is_path(m, p, i, j),
    ensures
        j == i,
    decreases p.len(),
{
    if p.len() > 1 {
        let k: int = 0;
        assert(edge(m, p[k], p[k + 1]));
        assert(p[1] == i);
        assert(is_path(m, p.drop_first(), i, j));
        lemma_path_from_absorbing(m, p.drop_first(), i, j);
    }
}

/// A visited marking that no edge leaves.
pub open spec fn closed_under_edges(m: Seq<Seq<u64>>, vis: Seq<bool>) -> bool {
    forall|i: int, j: int|
        0 <= i < vis.len() && vis[i] && #[trigger] edge(m, i, j) && 0 <= j < vis.len() ==> vis[j]
}

/// A walk that starts inside a closed marking cannot leave it.
pub proof fn lemma_closed_path(m: Seq<Seq<u64>>, vis: Seq<bool>, p: Seq<int>, from: int, to: int)
    requires
        is_square(m),
        m.len() == vis.len(),
        closed_under_edges(m, vis),
        is_path(m, p, from, to),
        0 <= from < vis.len(),
        vis[from],
    ensures
        to == from || (0 <= to < vis.len() && vis[to]),
    decreases p.len(),
{
    if p.len() > 1 {
        let prev = p[p.len() - 2];
        assert(is_path(m, p.drop_last(), from, prev));
        lemma_closed_path(m, vis, p.drop_last(), from, prev);
        let k = p.len() - 2;
        assert(edge(m, p[k], p[k + 1]));
        assert(edge(m, prev, to));
    }
}

/// How many entries of a marking are set.
pub open spec fn count_true(s: Seq<bool>) -> int
    decreases s.len(),
{
    if s.len() == 0 {
        0
    } else {
        (if s[0] {
            1int
        } else {
            0int
        }) + count_true(s.drop_first())
    }
}

proof fn lemma_count_true_zero(s: Seq<bool>)
    requires
        forall|t: int| 0 <= t < s.len() ==> !s[t],
    ensures
        count_true(s) == 0,
    decreases s.len(),
{
    if s.len() > 0 {
        lemma_count_true_zero(s.drop_first());
    }
}

proof fn lemma_count_true_le_len(s: Seq<bool>)
    ensures
        0 <= count_true(s) <= s.len(),
    decreases s.len(),
{
    if s.len() > 0 {
        lemma_count_true_le_len(s.drop_first());
    }
}

proof fn lemma_count_true_set(s: Seq<bool>, i: int)
    requires
        0 <= i < s.len(),
        !s[i],
    ensures
        count_true(s.update(i, true)) == count_true(s) + 1,
    decreases s.len(),
{
    if i == 0 {
        assert(s.update(0, true).drop_first() =~= s.drop_first());
    } else {
        assert(s.update(i, true).drop_first() =~= s.drop_first().update(i - 1, true));
        lemma_count_true_set(s.drop_first(), i - 1);
    }
}

/// Breadth-first traversal: marks exactly the indices reachable from
/// `start` in the graph of the table.
#[verifier::loop_isolation(false)]
pub fn bfs_visited(matrix: &Vec<Vec<u64>>, start: usize) -> (r: Vec<bool>)
    requires
        start < matrix@.len(),
        is_square(table_view(*matrix)),
    ensures
        r@.len() == matrix@.len(),
        forall|t: int| 0 <= t < r@.len() ==> (r@[t] <==> reachable(table_view(*matrix), start as int, t)),
{
    let ghost m = table_view(*matrix);
    let n = matrix.len();
    let mut visited: Vec<bool> = Vec::new();
    while visited.len() < n
        invariant
            visited@.len() <= n,
            forall|t: int| 0 <= t < visited@.len() ==> !visited@[t],
        decreases n - visited@.len(),
    {
        visited.push(false);
    }
    let mut queue: Vec<usize> = Vec::new();
    proof {
        lemma_count_true_zero(visited@);
        lemma_count_true_set(visited@, start as int);
    }
    visited[start] = true;
    queue.push(start);
    proof {
        lemma_reachable_self(m, start as int);
        assert(queue@[0] == start);
        assert forall|t: int| 0 <= t < n && visited@[t] implies queue@.contains(t as usize) by {
            assert(t == start as int);
            assert(queue@[0] == t as usize);
        }
    }
    let mut head: usize = 0;
    while head < queue.len()
        invariant
            visited@.len() == n,
            m == table_view(*matrix),
            m.len() == n,
            head <= queue@.len(),
            count_true(visited@) == queue@.len(),
            queue@.len() <= n,
            visited@[start as int],
            forall|k: int|
                0 <= k < queue@.len() ==> (#[trigger] queue@[k]) < n && visited@[queue@[k] as int],
            forall|t: int| 0 <= t < n && visited@[t] ==> queue@.contains(t as usize),
            forall|t: int| 0 <= t < n && visited@[t] ==> reachable(m, start as int, t),
            forall|k: int, j: int|
                0 <= k < head && #[trigger] edge(m, queue@[k] as int, j) ==> 0 <= j < n
                    && visited@[j],
        decreases n - head,
    {
        let node = queue[head];
        head = head + 1;
        let mut j: usize = 0;
        while j < n
            invariant
                visited@.len() == n,
                head <= queue@.len(),
                count_true(visited@) == queue@.len(),
                queue@.len() <= n,
                j <= n,
                node == queue@[head - 1],
                visited@[start as int],
                forall|k: int|
                    0 <= k < queue@.len() ==> (#[trigger] queue@[k]) < n && visited@[queue@[k] as int],
                forall|t: int| 0 <= t < n && visited@[t] ==> queue@.contains(t as usize),
                forall|t: int| 0 <= t < n && visited@[t] ==> reachable(m, start as int, t),
                forall|k: int, jj: int|
                    0 <= k < head - 1 && #[trigger] edge(m, queue@[k] as int, jj) ==> 0 <= jj < n
                        && visited@[jj],
                forall|jj: int| #[trigger]
                    edge(m, node as int, jj) && jj < j ==> 0 <= jj < n && visited@[jj],
            decreases n - j,
        {
            assert(node < n);
            assert(m[node as int].len() == n);
            assert(m[node as int] == matrix@[node as int]@);
            if matrix[node][j] > 0 && !visited[j] {
                let ghost q0 = queue@;
                let ghost v0 = visited@;
                proof {
                    lemma_count_true_set(visited@, j as int);
                    lemma_reachable_step(m, start as int, node as int, j as int);
                }
                visited[j] = true;
                queue.push(j);
                proof {
                    lemma_count_true_le_len(visited@);
                    assert forall|t: int| 0 <= t < n && visited@[t] implies queue@.contains(
                        t as usize,
                    ) by {
                        if t != j {
                            assert(v0[t]);
                            assert(q0.contains(t as usize));
                            let k = choose|k: int| 0 <= k < q0.len() && q0[k] == t as usize;
                            assert(queue@[k] == t as usize);
                        } else {
                            assert(queue@[queue@.len() - 1] == t as usize);
                        }
                    }
                }
            }
            j = j + 1;
        }
    }
    proof {
        assert forall|t: int|
            0 <= t < n && reachable(m, start as int, t) implies visited@[t] by {
            assert(closed_under_edges(m, visited@)) by {
                assert forall|i: int, jj: int|
                    0 <= i < n && visited@[i] && #[trigger] edge(m, i, jj) && 0 <= jj
                        < n implies visited@[jj] by {
                    assert(queue@.contains(i as usize));
                    let k = choose|k: int| 0 <= k < queue@.len() && queue@[k] == i as usize;
                    assert(edge(m, queue@[k] as int, jj));
                }
            }
            let p = choose|p: Seq<int>| is_path(m, p, start as int, t);
            lemma_closed_path(m, visited@, p, start as int, t);
        }
    }
    visited
}

/// Whether `target` is reachable from `start` in the graph of the table.
pub fn bfs_reach(matrix: &Vec<Vec<u64>>, start: usize, target: usize) -> (r: bool)
    requires
        start < matrix@.len(),
        is_square(table_view(*matrix)),
    ensures
        r == reachable(table_view(*matrix), start as int, target as int),
{
    let visited = bfs_visited(matrix, start);
    if target < visited.len() {
        visited[target]
    } else {
        proof {
            if reachable(table_view(*matrix), start as int, target as int) {
                lemma_reachable_in_range(table_view(*matrix), start as int, target as int);
            }
        }
        false
    }
}

} // verus!
