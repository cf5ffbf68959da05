//! Breadth-first traversal of a graph given by adjacency lists.
//!
//! A node is a number below the number of rows. Row `i` lists the edges out
//! of node `i` in their order; an edge leads to a node or, where its target
//! is not in the graph, nowhere.
use vstd::prelude::*;
use crate::table::distinct;

verus! {

/// Every element of `order` is below `n`.
pub open spec fn in_range(order: Seq<usize>, n: nat) -> bool {
    forall|j: int| 0 <= j < order.len() ==> (#[trigger] order[j]) < n
}

/// Every edge of `row` leads to a node below `n` or nowhere.
pub open spec fn row_ok(row: Seq<Option<usize>>, n: nat) -> bool {
    forall|q: int| 0 <= q < row.len() && (#[trigger] row[q]).is_some() ==> row[q].unwrap() < n
}

/// Every edge of the graph leads to a node of the graph or nowhere.
pub open spec fn graph_ok(adj: Seq<Vec<Option<usize>>>) -> bool {
    forall|i: int| 0 <= i < adj.len() ==> row_ok(#[trigger] adj[i]@, adj.len())
}

/// The order of edges: by the position of the node that they leave, then by
/// their place in its row.
pub open spec fn lex_lt(a: (int, int), b: (int, int)) -> bool {
    a.0 < b.0 || (a.0 == b.0 && a.1 < b.1)
}

/// Whether `x` is among the first `j` nodes of `order`.
pub open spec fn among(order: Seq<usize>, x: usize, j: int) -> bool {
    exists|m: int| 0 <= m < j && m < order.len() && #[trigger] order[m] == x
}

/// Where `(a, b)` is an edge out of a node of `order`, it leads to one of
/// the first `j` nodes of `order`, or nowhere.
pub open spec fn leads_back(
    adj: Seq<Vec<Option<usize>>>,
    order: Seq<usize>,
    a: int,
    b: int,
    j: int,
) -> bool {
    0 <= a < order.len() && 0 <= b < adj[order[a] as int]@.len() ==> (match adj[order[a] as int]@[b] {
        Some(x) => among(order, x, j),
        None => true,
    })
}

/// Every edge before `bound` leads to one of the first `j` nodes of `order`,
/// or nowhere.
pub open spec fn settled_before(
    adj: Seq<Vec<Option<usize>>>,
    order: Seq<usize>,
    bound: (int, int),
    j: int,
) -> bool {
    forall|a: int, b: int| lex_lt((a, b), bound) ==> #[trigger] leads_back(adj, order, a, b, j)
}

/// The node at position `j` was found through the edge `parents[j]`: the
/// edge leaves an earlier node and leads to it, and every edge before it
/// leads to a node before it, or nowhere.
pub open spec fn found_by(
    adj: Seq<Vec<Option<usize>>>,
    order: Seq<usize>,
    parents: Seq<(int, int)>,
    j: int,
) -> bool {
    &&& 0 <= parents[j].0 < j
    &&& 0 <= parents[j].1 < adj[order[parents[j].0] as int]@.len()
    &&& adj[order[parents[j].0] as int]@[parents[j].1] == Some(order[j])
    &&& settled_before(adj, order, parents[j], j)
}

/// `parents` tells how `order` was discovered: each node but the first
/// through the first edge that leads to it, and the nodes in the order of
/// these edges.
pub open spec fn is_discovery(
    adj: Seq<Vec<Option<usize>>>,
    order: Seq<usize>,
    parents: Seq<(int, int)>,
) -> bool {
    &&& parents.len() == order.len()
    &&& forall|j: int| 1 <= j < order.len() ==> #[trigger] found_by(adj, order, parents, j)
    &&& forall|j: int, k: int|
        1 <= j < k < order.len() ==> lex_lt(#[trigger] parents[j], #[trigger] parents[k])
}

/// `order` is the breadth-first traversal from `start`: it begins there,
/// names nodes of the graph and none twice, every edge out of its nodes
/// leads back into it or nowhere, and it was discovered edge by edge.
pub open spec fn is_traversal(adj: Seq<Vec<Option<usize>>>, start: usize, order: Seq<usize>) -> bool {
    &&& order.len() > 0
    &&& order[0] == start
    &&& in_range(order, adj.len())
    &&& distinct(order)
    &&& settled_before(adj, order, (order.len() as int, 0int), order.len() as int)
    &&& exists|parents: Seq<(int, int)>| is_discovery(adj, order, parents)
}

/// `seen` marks exactly the nodes of `order`.
pub open spec fn marks(seen: Seq<bool>, order: Seq<usize>) -> bool {
    forall|t: int| 0 <= t < seen.len() ==> (#[trigger] seen[t]) == order.contains(t as usize)
}

/// Every edge that was found so far comes before `bound`.
pub open spec fn found_before(parents: Seq<(int, int)>, bound: (int, int)) -> bool {
    forall|j: int| 1 <= j < parents.len() ==> lex_lt(#[trigger] parents[j], bound)
}

/// Distinct numbers below `n` are at most `n`.
pub proof fn lemma_bounded_distinct(s: Seq<usize>, n: nat)
    requires
        in_range(s, n),
        distinct(s),
    ensures
        s.len() <= n,
    decreases n,
{
    if n == 0 {
        if s.len() > 0 {
            assert(s[0] < 0);
        }
    } else if exists|p: int| 0 <= p < s.len() && s[p] == n - 1 {
        let p = choose|p: int| 0 <= p < s.len() && s[p] == n - 1;
        let r = s.remove(p);
        assert forall|j: int| 0 <= j < r.len() implies (#[trigger] r[j]) < n - 1 by {
            if j < p {
                assert(r[j] == s[j]);
                assert(s[j] != s[p]);
            } else {
                assert(r[j] == s[j + 1]);
                assert(s[p] != s[j + 1]);
            }
        }
        assert forall|a: int, b: int| 0 <= a < b < r.len() implies r[a] != r[b] by {
            let a2 = if a < p { a } else { a + 1 };
            let b2 = if b < p { b } else { b + 1 };
            assert(r[a] == s[a2] && r[b] == s[b2]);
        }
        lemma_bounded_distinct(r, (n - 1) as nat);
    } else {
        assert forall|j: int| 0 <= j < s.len() implies (#[trigger] s[j]) < n - 1 by {
            assert(s[j] != n - 1);
        }
        lemma_bounded_distinct(s, (n - 1) as nat);
    }
}

/// What held of an edge out of an old node holds when a node is appended,
/// and for any later position.
proof fn lemma_leads_back_kept(
    adj: Seq<Vec<Option<usize>>>,
    order: Seq<usize>,
    t: usize,
    a: int,
    b: int,
    j: int,
    later: int,
)
    requires
        leads_back(adj, order, a, b, j),
        a < order.len(),
        j <= later,
    ensures
        leads_back(adj, order.push(t), a, b, later),
        leads_back(adj, order, a, b, later),
{
    let next = order.push(t);
    if 0 <= a && 0 <= b < adj[order[a] as int]@.len() {
        assert(next[a] == order[a]);
        match adj[order[a] as int]@[b] {
            Some(x) => {
                let m = choose|m: int| 0 <= m < j && m < order.len() && #[trigger] order[m] == x;
                assert(next[m] == x);
            },
            None => {},
        }
    }
}

/// What was settled before a bound within the old nodes stays settled when
/// a node is appended, and for any later position.
proof fn lemma_settled_kept(
    adj: Seq<Vec<Option<usize>>>,
    order: Seq<usize>,
    t: usize,
    bound: (int, int),
    j: int,
    later: int,
)
    requires
        settled_before(adj, order, bound, j),
        bound.0 < order.len(),
        j <= later,
    ensures
        settled_before(adj, order.push(t), bound, later),
        settled_before(adj, order, bound, later),
{
    assert forall|a: int, b: int| lex_lt((a, b), bound) implies #[trigger] leads_back(
        adj,
        order.push(t),
        a,
        b,
        later,
    ) by {
        assert(leads_back(adj, order, a, b, j));
        lemma_leads_back_kept(adj, order, t, a, b, j, later);
    }
    assert forall|a: int, b: int| lex_lt((a, b), bound) implies #[trigger] leads_back(
        adj,
        order,
        a,
        b,
        later,
    ) by {
        assert(leads_back(adj, order, a, b, j));
        lemma_leads_back_kept(adj, order, t, a, b, j, later);
    }
}

/// The frontier moves over an edge that leads into `order` or nowhere.
proof fn lemma_pass(
    adj: Seq<Vec<Option<usize>>>,
    order: Seq<usize>,
    parents: Seq<(int, int)>,
    head: int,
    k: int,
)
    requires
        0 <= head < order.len(),
        0 <= k < adj[order[head] as int]@.len(),
        leads_back(adj, order, head, k, order.len() as int),
        settled_before(adj, order, (head, k), order.len() as int),
        found_before(parents, (head, k)),
    ensures
        settled_before(adj, order, (head, k + 1), order.len() as int),
        found_before(parents, (head, k + 1)),
{
    assert forall|a: int, b: int| lex_lt((a, b), (head, k + 1)) implies #[trigger] leads_back(
        adj,
        order,
        a,
        b,
        order.len() as int,
    ) by {
        if !(a == head && b == k) {
            assert(lex_lt((a, b), (head, k)));
        }
    }
    assert forall|j: int| 1 <= j < parents.len() implies lex_lt(
        #[trigger] parents[j],
        (head, k + 1),
    ) by {
        assert(lex_lt(parents[j], (head, k)));
    }
}

/// The frontier moves from the end of a row to the start of the next.
proof fn lemma_next_row(
    adj: Seq<Vec<Option<usize>>>,
    order: Seq<usize>,
    parents: Seq<(int, int)>,
    head: int,
)
    requires
        0 <= head < order.len(),
        settled_before(
            adj,
            order,
            (head, adj[order[head] as int]@.len() as int),
            order.len() as int,
        ),
        found_before(parents, (head, adj[order[head] as int]@.len() as int)),
    ensures
        settled_before(adj, order, (head + 1, 0int), order.len() as int),
        found_before(parents, (head + 1, 0int)),
{
    let m = adj[order[head] as int]@.len() as int;
    assert forall|a: int, b: int| lex_lt((a, b), (head + 1, 0int)) implies #[trigger] leads_back(
        adj,
        order,
        a,
        b,
        order.len() as int,
    ) by {
        if a == head && b >= m {
        } else if a == head + 1 {
            assert(b < 0);
        } else {
            assert(lex_lt((a, b), (head, m)));
        }
    }
    assert forall|j: int| 1 <= j < parents.len() implies lex_lt(
        #[trigger] parents[j],
        (head + 1, 0int),
    ) by {
        assert(lex_lt(parents[j], (head, m)));
    }
}

/// What the traversal keeps when it appends a node `t` that it found
/// through the edge `(head, k)` and had not seen.
proof fn lemma_push(
    adj: Seq<Vec<Option<usize>>>,
    order: Seq<usize>,
    seen: Seq<bool>,
    parents: Seq<(int, int)>,
    head: int,
    k: int,
    t: usize,
)
    requires
        adj.len() <= usize::MAX,
        seen.len() == adj.len(),
        in_range(order, adj.len()),
        0 <= head < order.len(),
        0 <= k < adj[order[head] as int]@.len(),
        adj[order[head] as int]@[k] == Some(t),
        t < adj.len(),
        !seen[t as int],
        distinct(order),
        marks(seen, order),
        is_discovery(adj, order, parents),
        settled_before(adj, order, (head, k), order.len() as int),
        found_before(parents, (head, k)),
    ensures
        in_range(order.push(t), adj.len()),
        distinct(order.push(t)),
        marks(seen.update(t as int, true), order.push(t)),
        is_discovery(adj, order.push(t), parents.push((head, k))),
        settled_before(adj, order.push(t), (head, k + 1), order.push(t).len() as int),
        found_before(parents.push((head, k)), (head, k + 1)),
        order.push(t).len() <= adj.len(),
{
    let next = order.push(t);
    let more = parents.push((head, k));
    let len = order.len() as int;
    assert(!order.contains(t));
    assert(next[len] == t);
    assert forall|a: int, b: int| 0 <= a < b < next.len() implies next[a] != next[b] by {
        if b == len {
            assert(order.contains(next[a]));
        }
    }
    assert forall|x: int| 0 <= x < seen.len() implies (#[trigger] seen.update(t as int, true)[x])
        == next.contains(x as usize) by {
        assert(x as usize as int == x);
        if order.contains(x as usize) {
            let p = order.index_of(x as usize);
            assert(next[p] == x as usize);
        }
        if x != t as int && next.contains(x as usize) {
            let p = next.index_of(x as usize);
            assert(next[p] == x as usize);
            assert(p != len);
            assert(order[p] == x as usize);
        }
    }
    assert forall|j: int| 1 <= j < next.len() implies #[trigger] found_by(adj, next, more, j) by {
        if j < len {
            assert(found_by(adj, order, parents, j));
            assert(more[j] == parents[j]);
            assert(next[parents[j].0] == order[parents[j].0]);
            assert(next[j] == order[j]);
            lemma_settled_kept(adj, order, t, parents[j], j, j);
        } else {
            assert(more[j] == (head, k));
            assert(next[head] == order[head]);
            lemma_settled_kept(adj, order, t, (head, k), len, len);
        }
    }
    assert forall|j: int, i: int| 1 <= j < i < next.len() implies lex_lt(
        #[trigger] more[j],
        #[trigger] more[i],
    ) by {
        assert(more[j] == parents[j]);
        if i < len {
            assert(more[i] == parents[i]);
        } else {
            assert(lex_lt(parents[j], (head, k)));
        }
    }
    lemma_settled_kept(adj, order, t, (head, k), len, len + 1);
    assert forall|a: int, b: int| lex_lt((a, b), (head, k + 1)) implies #[trigger] leads_back(
        adj,
        next,
        a,
        b,
        len + 1,
    ) by {
        if a == head && b == k {
            assert(next[head] == order[head]);
            assert(among(next, t, len + 1));
        } else {
            assert(lex_lt((a, b), (head, k)));
        }
    }
    assert forall|j: int| 1 <= j < more.len() implies lex_lt(#[trigger] more[j], (head, k + 1)) by {
        if j < len {
            assert(more[j] == parents[j]);
            assert(lex_lt(parents[j], (head, k)));
        }
    }
    lemma_bounded_distinct(next, adj.len());
}

/// The nodes reached from `start`, breadth first, each once, in the order of
/// discovery.
pub fn traverse(adj: &Vec<Vec<Option<usize>>>, start: usize) -> (order: Vec<usize>)
    requires
        start < adj@.len(),
        graph_ok(adj@),
    ensures
        is_traversal(adj@, start, order@),
{
    let n = adj.len();
    let mut seen: Vec<bool> = Vec::new();
    let mut f: usize = 0;
    while f < n
        invariant
            f <= n,
            seen@.len() == f,
            forall|j: int| 0 <= j < f ==> !seen@[j],
        decreases n - f,
    {
        seen.push(false);
        f += 1;
    }
    seen.set(start, true);
    let mut order: Vec<usize> = Vec::new();
    order.push(start);
    let ghost mut parents: Seq<(int, int)> = seq![(0int, 0int)];
    proof {
        assert(order@[0] == start);
        assert forall|t: int| 0 <= t < seen@.len() implies (#[trigger] seen@[t]) == order@.contains(
            t as usize,
        ) by {
            if order@.contains(t as usize) {
                let p = order@.index_of(t as usize);
                assert(order@[p] == start);
            }
        }
        lemma_bounded_distinct(order@, n as nat);
    }
    let mut head: usize = 0;
    while head < order.len()
        invariant
            n == adj@.len(),
            graph_ok(adj@),
            seen@.len() == n,
            head <= order@.len() <= n,
            order@.len() > 0,
            order@[0] == start,
            in_range(order@, n as nat),
            distinct(order@),
            marks(seen@, order@),
            is_discovery(adj@, order@, parents),
            settled_before(adj@, order@, (head as int, 0int), order@.len() as int),
            found_before(parents, (head as int, 0int)),
        decreases n - head,
    {
        let at = order[head];
        let m = adj[at].len();
        let mut k: usize = 0;
        while k < m
            invariant
                n == adj@.len(),
                graph_ok(adj@),
                seen@.len() == n,
                head < order@.len() <= n,
                order@.len() > 0,
                order@[0] == start,
                order@[head as int] == at,
                at < n,
                m == adj@[at as int]@.len(),
                k <= m,
                in_range(order@, n as nat),
                distinct(order@),
                marks(seen@, order@),
                is_discovery(adj@, order@, parents),
                settled_before(adj@, order@, (head as int, k as int), order@.len() as int),
                found_before(parents, (head as int, k as int)),
            decreases m - k,
        {
            assert(row_ok(adj@[at as int]@, n as nat));
            match adj[at][k] {
                Some(t) => {
                    assert(t < n);
                    if !seen[t] {
                        proof {
                            lemma_push(adj@, order@, seen@, parents, head as int, k as int, t);
                            parents = parents.push((head as int, k as int));
                        }
                        seen.set(t, true);
                        order.push(t);
                    } else {
                        proof {
                            assert(order@.contains(t));
                            let p = order@.index_of(t);
                            assert(order@[p] == t);
                            assert(among(order@, t, order@.len() as int));
                            lemma_pass(adj@, order@, parents, head as int, k as int);
                        }
                    }
                },
                None => {
                    proof {
                        lemma_pass(adj@, order@, parents, head as int, k as int);
                    }
                },
            }
            k += 1;
        }
        proof {
            lemma_next_row(adj@, order@, parents, head as int);
        }
        head += 1;
    }
    order
}

} // verus!
