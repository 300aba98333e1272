//! Depth-first search over adjacency lists: which nodes the roots reach, and
//! whether a walk from a root comes back to a node it has passed.

use vstd::prelude::*;

verus! {

/// Every target of every list is a node.
pub open spec fn adjacency_wf(adj: Seq<Seq<usize>>) -> bool {
    forall|a: int, j: int|
        0 <= a < adj.len() && 0 <= j < adj[a].len() ==> (#[trigger] adj[a][j]) < adj.len()
}

/// There is an edge from `a` to `b`.
pub open spec fn has_edge(adj: Seq<Seq<usize>>, a: int, b: int) -> bool {
    0 <= a < adj.len() && exists|j: int| 0 <= j < adj[a].len() && #[trigger] adj[a][j] == b
}

/// `p` is a walk: one node or more, each joined to the next by an edge.
pub open spec fn is_walk(adj: Seq<Seq<usize>>, p: Seq<int>) -> bool {
    &&& p.len() >= 1
    &&& 0 <= p[0] < adj.len()
    &&& forall|i: int| 0 <= i < p.len() - 1 ==> has_edge(adj, #[trigger] p[i], p[i + 1])
}

/// Some node stands twice in `p`.
pub open spec fn has_repeat(p: Seq<int>) -> bool {
    exists|i: int, j: int| 0 <= i < j < p.len() && p[i] == p[j]
}

/// A walk from a root ends at `v`.
pub open spec fn reaches(adj: Seq<Seq<usize>>, roots: Set<int>, v: int) -> bool {
    exists|p: Seq<int>| is_walk(adj, p) && roots.contains(p[0]) && #[trigger] p.last() == v
}

/// A walk from a root ends at `t` and has passed `t` before.
pub open spec fn returns_to(adj: Seq<Seq<usize>>, roots: Set<int>, t: int) -> bool {
    exists|p: Seq<int>|
        is_walk(adj, p) && roots.contains(p[0]) && #[trigger] p.last() == t && exists|i: int|
            0 <= i < p.len() - 1 && p[i] == t
}

/// A walk from a root passes some node twice.
pub open spec fn cyclic_from(adj: Seq<Seq<usize>>, roots: Set<int>) -> bool {
    exists|p: Seq<int>| is_walk(adj, p) && roots.contains(p[0]) && #[trigger] has_repeat(p)
}

/// The lists as sequences.
pub open spec fn rows_of(adj: Seq<Vec<usize>>) -> Seq<Seq<usize>> {
    Seq::new(adj.len(), |a: int| adj[a]@)
}

pub const WHITE: u8 = 0;

pub const GREY: u8 = 1;

pub const BLACK: u8 = 2;

/// The progress of a search: a colour and a finishing number for each node.
pub struct Search {
    /// `WHITE` for a node not yet met, `GREY` for one on the current walk,
    /// `BLACK` for one that is finished.
    pub color: Vec<u8>,
    /// For a finished node, its place in `order`.
    pub rank: Vec<usize>,
    /// The finished nodes, in the order in which they were finished.
    pub order: Vec<usize>,
}

/// Number of white entries.
pub open spec fn whites(color: Seq<u8>) -> nat
    decreases color.len(),
{
    if color.len() == 0 {
        0
    } else {
        whites(color.drop_last()) + if color.last() == WHITE {
            1nat
        } else {
            0nat
        }
    }
}

proof fn lemma_whites_update(color: Seq<u8>, i: int, c: u8)
    requires
        0 <= i < color.len(),
        color[i] == WHITE,
        c != WHITE,
    ensures
        whites(color.update(i, c)) + 1 == whites(color),
    decreases color.len(),
{
    let updated = color.update(i, c);
    if i == color.len() - 1 {
        assert(updated.drop_last() == color.drop_last());
    } else {
        assert(updated.drop_last() == color.drop_last().update(i, c));
        lemma_whites_update(color.drop_last(), i, c);
    }
}

proof fn lemma_whites_shrink(before: Seq<u8>, after: Seq<u8>)
    requires
        before.len() == after.len(),
        forall|i: int| 0 <= i < before.len() && before[i] != WHITE ==> after[i] != WHITE,
    ensures
        whites(after) <= whites(before),
    decreases before.len(),
{
    if before.len() > 0 {
        lemma_whites_shrink(before.drop_last(), after.drop_last());
    }
}

impl Search {
    /// What holds of a search between two steps.
    pub open spec fn inv(&self, adj: Seq<Seq<usize>>, roots: Set<int>) -> bool {
        &&& self.color@.len() == adj.len()
        &&& self.rank@.len() == adj.len()
        &&& forall|v: int| 0 <= v < adj.len() ==> #[trigger] self.color@[v] <= BLACK
        &&& forall|v: int|
            0 <= v < adj.len() && #[trigger] self.color@[v] != WHITE ==> reaches(adj, roots, v)
        &&& forall|v: int|
            0 <= v < adj.len() && #[trigger] self.color@[v] == BLACK ==> self.rank@[v]
                < self.order@.len()
        &&& forall|v: int, j: int|
            0 <= v < adj.len() && self.color@[v] == BLACK && 0 <= j < adj[v].len() ==> {
                let t = #[trigger] adj[v][j] as int;
                self.color@[t] == BLACK && self.rank@[t] < self.rank@[v]
            }
    }

    /// A search that has met no node.
    pub fn new(n: usize) -> (r: Search)
        ensures
            r.color@.len() == n,
            r.rank@.len() == n,
            r.order@.len() == 0,
            forall|v: int| 0 <= v < n ==> r.color@[v] == WHITE,
    {
        let mut color: Vec<u8> = Vec::new();
        let mut rank: Vec<usize> = Vec::new();
        let mut i: usize = 0;
        while i < n
            invariant
                i <= n,
                color@.len() == i,
                rank@.len() == i,
                forall|v: int| 0 <= v < i ==> color@[v] == WHITE,
            decreases n - i,
        {
            color.push(WHITE);
            rank.push(0);
            i += 1;
        }
        Search { color, rank, order: Vec::new() }
    }

    /// Walks on from the white node `v`, which a walk `path` from a root ends
    /// at. Returns a node that the walk came back to, or `None` once `v` and
    /// all that it reaches is finished.
    pub fn visit(&mut self, adj: &Vec<Vec<usize>>, v: usize, Ghost(roots): Ghost<Set<int>>, Ghost(path): Ghost<Seq<int>>) -> (r: Option<usize>)
        requires
            adjacency_wf(rows_of(adj@)),
            old(self).inv(rows_of(adj@), roots),
            v < adj.len(),
            old(self).color@[v as int] == WHITE,
            is_walk(rows_of(adj@), path),
            roots.contains(path[0]),
            path.last() == v,
            forall|x: int|
                0 <= x < adj.len() && #[trigger] old(self).color@[x] == GREY ==> path.contains(x),
        ensures
            match r {
                Some(t) => t < adj.len() && returns_to(rows_of(adj@), roots, t as int),
                None => {
                    &&& final(self).inv(rows_of(adj@), roots)
                    &&& final(self).color@[v as int] == BLACK
                    &&& final(self).order@.len() >= old(self).order@.len()
                    &&& forall|x: int|
                        0 <= x < adj.len() ==> (#[trigger] old(self).color@[x] == GREY
                            <==> final(self).color@[x] == GREY)
                    &&& forall|x: int|
                        0 <= x < adj.len() && #[trigger] old(self).color@[x] == BLACK
                            ==> final(self).color@[x] == BLACK
                            && final(self).rank@[x] == old(self).rank@[x]
                },
            },
        decreases whites(old(self).color@),
    {
        proof {
            lemma_whites_update(self.color@, v as int, GREY);
        }
        self.color.set(v, GREY);
        let ghost entered = self.color@;
        let ghost ranks = self.rank@;
        let count = adj[v].len();
        assert(rows_of(adj@)[v as int] == adj@[v as int]@);
        let mut j: usize = 0;
        while j < count
            invariant
                j <= count,
                count == rows_of(adj@)[v as int].len(),
                v < adj.len(),
                adjacency_wf(rows_of(adj@)),
                self.inv(rows_of(adj@), roots),
                is_walk(rows_of(adj@), path),
                roots.contains(path[0]),
                path.last() == v,
                entered.len() == adj.len(),
                old(self).color@.len() == adj.len(),
                old(self).rank@.len() == adj.len(),
                entered == old(self).color@.update(v as int, GREY),
                self.order@.len() >= old(self).order@.len(),
                whites(self.color@) <= whites(entered),
                whites(entered) + 1 == whites(old(self).color@),
                forall|x: int|
                    0 <= x < adj.len() ==> (#[trigger] entered[x] == GREY <==> self.color@[x]
                        == GREY),
                forall|x: int|
                    0 <= x < adj.len() && #[trigger] entered[x] == BLACK ==> self.color@[x]
                        == BLACK && self.rank@[x] == old(self).rank@[x],
                forall|x: int|
                    0 <= x < adj.len() && #[trigger] self.color@[x] == GREY ==> path.contains(x),
                forall|k: int| 0 <= k < j ==> self.color@[(#[trigger] rows_of(adj@)[v as int][k]) as int] == BLACK,
            decreases count - j,
        {
            let t = adj[v][j];
            assert(rows_of(adj@)[v as int] == adj@[v as int]@);
            assert(t == rows_of(adj@)[v as int][j as int]);
            assert(has_edge(rows_of(adj@), v as int, t as int));
            let ghost longer = path.push(t as int);
            proof {
                assert forall|i: int| 0 <= i < longer.len() - 1 implies has_edge(
                    rows_of(adj@),
                    #[trigger] longer[i],
                    longer[i + 1],
                ) by {
                    if i < path.len() - 1 {
                        assert(longer[i] == path[i]);
                        assert(longer[i + 1] == path[i + 1]);
                    }
                }
                assert(is_walk(rows_of(adj@), longer));
            }
            if self.color[t] == GREY {
                proof {
                    assert(path.contains(t as int));
                    let i = choose|i: int| 0 <= i < path.len() && path[i] == t as int;
                    assert(longer[i] == t as int);
                    assert(longer.last() == t as int);
                }
                return Some(t);
            }
            if self.color[t] == WHITE {
                let ghost before = self.color@;
                proof {
                    assert forall|x: int|
                        0 <= x < adj.len() && #[trigger] self.color@[x] == GREY implies longer.contains(
                        x,
                    ) by {
                        let i = choose|i: int| 0 <= i < path.len() && path[i] == x;
                        assert(longer[i] == x);
                    }
                }
                let ghost ranks_before = self.rank@;
                let found = self.visit(adj, t, Ghost(roots), Ghost(longer));
                if found.is_some() {
                    return found;
                }
                proof {
                    assert forall|x: int| 0 <= x < adj.len() implies (before[x] == GREY
                        <==> self.color@[x] == GREY) && (before[x] == BLACK ==> self.color@[x]
                        == BLACK && self.rank@[x] == ranks_before[x]) && (before[x] != WHITE
                        ==> self.color@[x] != WHITE) by {
                        if before[x] == GREY {
                        } else if before[x] == BLACK {
                        }
                    }
                    lemma_whites_shrink(before, self.color@);
                    assert forall|x: int|
                        0 <= x < adj.len() && #[trigger] self.color@[x] == GREY implies path.contains(
                        x,
                    ) by {
                        assert(before[x] == GREY);
                    }
                    assert forall|k: int| 0 <= k < j + 1 implies self.color@[(
                    #[trigger] rows_of(adj@)[v as int][k]) as int] == BLACK by {
                        let u = rows_of(adj@)[v as int][k] as int;
                        if k < j {
                            assert(before[u] == BLACK);
                        }
                    }
                }
            }
            j += 1;
        }
        let ghost walked = *self;
        let place = self.order.len();
        self.order.push(v);
        self.rank.set(v, place);
        self.color.set(v, BLACK);
        proof {
            assert(walked.color@[v as int] == GREY) by {
                assert(entered[v as int] == GREY);
            }
            assert(reaches(rows_of(adj@), roots, v as int));
            assert forall|x: int|
                0 <= x < adj.len() && #[trigger] self.color@[x] != WHITE implies reaches(
                rows_of(adj@),
                roots,
                x,
            ) by {
                if x != v {
                    assert(walked.color@[x] != WHITE);
                }
            }
            assert forall|x: int| 0 <= x < adj.len() implies (#[trigger] old(self).color@[x]
                == GREY <==> self.color@[x] == GREY) by {
                if x != v {
                    assert(entered[x] == old(self).color@[x]);
                    assert(self.color@[x] == walked.color@[x]);
                }
            }
            assert forall|x: int|
                0 <= x < adj.len() && #[trigger] old(self).color@[x] == BLACK implies self.color@[x]
                == BLACK && self.rank@[x] == old(self).rank@[x] by {
                assert(x != v);
                assert(entered[x] == BLACK);
            }
            assert forall|u: int, j: int|
                0 <= u < adj.len() && self.color@[u] == BLACK && 0 <= j < rows_of(adj@)[u].len() implies {
                let t = #[trigger] rows_of(adj@)[u][j] as int;
                self.color@[t] == BLACK && self.rank@[t] < self.rank@[u]
            } by {
                let t = rows_of(adj@)[u][j] as int;
                if u == v {
                    assert(walked.color@[t] == BLACK);
                    assert(walked.rank@[t] < walked.order@.len());
                } else {
                    assert(walked.color@[u] == BLACK);
                    assert(walked.color@[t] == BLACK);
                }
            }
        }
        None
    }
}

/// A walk that comes back to a node passes that node twice.
pub proof fn lemma_returns_cyclic(adj: Seq<Seq<usize>>, roots: Set<int>, t: int)
    requires
        returns_to(adj, roots, t),
    ensures
        cyclic_from(adj, roots),
{
    let p = choose|p: Seq<int>|
        is_walk(adj, p) && roots.contains(p[0]) && #[trigger] p.last() == t && exists|i: int|
            0 <= i < p.len() - 1 && p[i] == t;
    let i = choose|i: int| 0 <= i < p.len() - 1 && p[i] == t;
    assert(p[i] == p[p.len() - 1]);
    assert(has_repeat(p));
}

/// Where every root is finished, a node is finished exactly if a root reaches it.
pub proof fn lemma_finished_reached(search: Search, adj: Seq<Seq<usize>>, roots: Set<int>, v: int)
    requires
        adjacency_wf(adj),
        search.inv(adj, roots),
        forall|r: int| roots.contains(r) ==> 0 <= r < adj.len() && search.color@[r] == BLACK,
        0 <= v < adj.len(),
    ensures
        search.color@[v] == BLACK <==> reaches(adj, roots, v),
{
    if reaches(adj, roots, v) {
        let p = choose|p: Seq<int>| is_walk(adj, p) && roots.contains(p[0]) && #[trigger] p.last() == v;
        lemma_walk_finished(search, adj, roots, p, p.len() - 1);
    }
    if search.color@[v] == BLACK {
        assert(search.color@[v] != WHITE);
    }
}

/// Along a walk from a finished node every node is finished, and a later node
/// was finished before an earlier one.
proof fn lemma_walk_finished(search: Search, adj: Seq<Seq<usize>>, roots: Set<int>, p: Seq<int>, i: int)
    requires
        adjacency_wf(adj),
        search.inv(adj, roots),
        is_walk(adj, p),
        search.color@[p[0]] == BLACK,
        0 <= i < p.len(),
    ensures
        0 <= p[i] < adj.len(),
        search.color@[p[i]] == BLACK,
        forall|k: int| 0 <= k < i ==> search.rank@[p[i]] < search.rank@[#[trigger] p[k]],
    decreases i,
{
    if i > 0 {
        lemma_walk_finished(search, adj, roots, p, i - 1);
        assert(has_edge(adj, p[i - 1], p[i - 1 + 1]));
        let j = choose|j: int| 0 <= j < adj[p[i - 1]].len() && #[trigger] adj[p[i - 1]][j] == p[i];
        assert(adj[p[i - 1]][j] as int == p[i]);
    }
}

/// Where every root is finished, no walk from a root passes a node twice.
pub proof fn lemma_finished_acyclic(search: Search, adj: Seq<Seq<usize>>, roots: Set<int>)
    requires
        adjacency_wf(adj),
        search.inv(adj, roots),
        forall|r: int| roots.contains(r) ==> 0 <= r < adj.len() && search.color@[r] == BLACK,
    ensures
        !cyclic_from(adj, roots),
{
    if cyclic_from(adj, roots) {
        let p = choose|p: Seq<int>| is_walk(adj, p) && roots.contains(p[0]) && #[trigger] has_repeat(p);
        let (i, j) = choose|i: int, j: int| 0 <= i < j < p.len() && p[i] == p[j];
        lemma_walk_finished(search, adj, roots, p, j);
        assert(search.rank@[p[j]] < search.rank@[p[i]]);
    }
}

} // verus!
