//! From a workflow document to the graph that runs.

use vstd::prelude::*;
use crate::schema::node::NodeSchema;
use crate::schema::workflow::WorkflowSchema;
use crate::text::str_eq;
use crate::workflow::graph::{
    Graph, GraphNode, incoming, is_ranking, row_sources, sources, string_views, lemma_no_incoming,
    lemma_sources_len, lemma_sources_member,
};
use crate::workflow::search::{
    adjacency_wf, cyclic_from, has_edge, is_walk, reaches, returns_to, rows_of, Search, BLACK,
    GREY, WHITE,
    lemma_finished_acyclic, lemma_finished_reached, lemma_returns_cyclic,
};

verus! {

/// Why a workflow document is no graph.
#[derive(Debug)]
pub enum BuildError {
    /// No node is a `Start`.
    MissingStart,
    /// A connection names a node that the document does not hold.
    MissingNode(String),
    /// A walk from a `Start` comes back to this node.
    CycleDetected(String),
    /// A connection leads to this node, which is a `Start`.
    StartInInEdge(String),
}

/// The mathematical value of a [`BuildError`].
pub enum BuildFault {
    MissingStart,
    MissingNode(Seq<char>),
    CycleDetected(Seq<char>),
    StartInInEdge(Seq<char>),
}

impl View for BuildError {
    type V = BuildFault;

    open spec fn view(&self) -> BuildFault {
        match self {
            BuildError::MissingStart => BuildFault::MissingStart,
            BuildError::MissingNode(id) => BuildFault::MissingNode(id@),
            BuildError::CycleDetected(id) => BuildFault::CycleDetected(id@),
            BuildError::StartInInEdge(id) => BuildFault::StartInInEdge(id@),
        }
    }
}

impl BuildError {
    /// The error as a sentence.
    pub fn message(&self) -> (r: String)
        ensures
            r@ == match self@ {
                BuildFault::MissingStart => "workflow missing Start node"@,
                BuildFault::MissingNode(id) => "connection references missing node '"@ + id
                    + "'"@,
                BuildFault::CycleDetected(id) => "workflow contains a cycle at node '"@ + id
                    + "'"@,
                BuildFault::StartInInEdge(id) =>
                    "The [Start] node cannot be used as the next node in the connection."@,
            },
    {
        let mut r = String::new();
        match self {
            BuildError::MissingStart => {
                r.push_str("workflow missing Start node");
            },
            BuildError::MissingNode(id) => {
                r.push_str("connection references missing node '");
                r.push_str(id.as_str());
                r.push_str("'");
            },
            BuildError::CycleDetected(id) => {
                r.push_str("workflow contains a cycle at node '");
                r.push_str(id.as_str());
                r.push_str("'");
            },
            BuildError::StartInInEdge(_) => {
                r.push_str("The [Start] node cannot be used as the next node in the connection.");
            },
        }
        assert(r@ =~= match self@ {
            BuildFault::MissingStart => "workflow missing Start node"@,
            BuildFault::MissingNode(id) => "connection references missing node '"@ + id + "'"@,
            BuildFault::CycleDetected(id) => "workflow contains a cycle at node '"@ + id + "'"@,
            BuildFault::StartInInEdge(id) =>
                "The [Start] node cannot be used as the next node in the connection."@,
        });
        r
    }
}

/// Whether the node is a root of its workflow.
pub open spec fn is_start(node: NodeSchema) -> bool {
    node.action_type@ == "Start"@
}

impl WorkflowSchema {
    /// No two nodes share an id.
    pub open spec fn distinct_ids(&self) -> bool {
        forall|i: int, j: int|
            0 <= i < j < self.nodes@.len() ==> self.nodes@[i].node_id@ != self.nodes@[j].node_id@
    }

    /// Some node has this id.
    pub open spec fn has_id(&self, id: Seq<char>) -> bool {
        exists|i: int| 0 <= i < self.nodes@.len() && #[trigger] self.nodes@[i].node_id@ == id
    }

    /// The index of the node with this id.
    pub open spec fn index_of(&self, id: Seq<char>) -> int {
        choose|i: int| 0 <= i < self.nodes@.len() && #[trigger] self.nodes@[i].node_id@ == id
    }

    /// The node with this id is a `Start`.
    pub open spec fn is_start_id(&self, id: Seq<char>) -> bool {
        self.has_id(id) && is_start(self.nodes@[self.index_of(id)])
    }

    /// Some node is a `Start`.
    pub open spec fn has_start(&self) -> bool {
        exists|i: int| 0 <= i < self.nodes@.len() && is_start(#[trigger] self.nodes@[i])
    }

    /// What is wrong with connection `k`, if anything: it leads to a `Start`,
    /// or its source is missing, or its target is.
    pub open spec fn connection_fault(&self, k: int) -> Option<BuildFault> {
        let c = self.connections@[k];
        if self.is_start_id(c.to@) {
            Some(BuildFault::StartInInEdge(c.to@))
        } else if !self.has_id(c.from@) {
            Some(BuildFault::MissingNode(c.from@))
        } else if !self.has_id(c.to@) {
            Some(BuildFault::MissingNode(c.to@))
        } else {
            None
        }
    }

    /// The fault of the first faulty connection among the first `k`.
    pub open spec fn fault_before(&self, k: nat) -> Option<BuildFault>
        decreases k,
    {
        if k == 0 || k > self.connections@.len() {
            None
        } else {
            match self.fault_before((k - 1) as nat) {
                Some(f) => Some(f),
                None => self.connection_fault(k - 1),
            }
        }
    }

    /// The fault of the first faulty connection.
    pub open spec fn first_fault(&self) -> Option<BuildFault> {
        self.fault_before(self.connections@.len())
    }

    /// The indices of the `Start` nodes among the first `i` nodes, in order.
    pub open spec fn start_indices(&self, i: nat) -> Seq<usize>
        decreases i,
    {
        if i == 0 || i > self.nodes@.len() {
            Seq::empty()
        } else if is_start(self.nodes@[i - 1]) {
            self.start_indices((i - 1) as nat).push((i - 1) as usize)
        } else {
            self.start_indices((i - 1) as nat)
        }
    }

    /// The `Start` nodes as a set of indices.
    pub open spec fn roots(&self) -> Set<int> {
        Set::new(|i: int| 0 <= i < self.nodes@.len() && is_start(self.nodes@[i]))
    }

    /// Each connection as the indices of its two ends.
    pub open spec fn endpoints(&self) -> Seq<(usize, usize)> {
        Seq::new(
            self.connections@.len(),
            |k: int|
                (
                    self.index_of(self.connections@[k].from@) as usize,
                    self.index_of(self.connections@[k].to@) as usize,
                ),
        )
    }

    /// The successors of every node, in the order of the connections.
    pub open spec fn adjacency(&self) -> Seq<Seq<usize>> {
        Seq::new(
            self.nodes@.len(),
            |a: int| targets(self.endpoints(), a, self.connections@.len()),
        )
    }

    /// Whether the document is no workflow: a connection is faulty, or no node
    /// is a `Start`, or a walk from a `Start` passes some node twice.
    pub open spec fn malformed(&self) -> bool {
        ||| self.first_fault() is Some
        ||| !self.has_start()
        ||| cyclic_from(self.adjacency(), self.roots())
    }

    /// The successors that the graph keeps for each node: those of a node that a
    /// `Start` reaches, none for any other node.
    pub open spec fn live_rows(&self) -> Seq<Seq<usize>> {
        Seq::new(
            self.nodes@.len(),
            |a: int|
                if reaches(self.adjacency(), self.roots(), a) {
                    self.adjacency()[a]
                } else {
                    Seq::empty()
                },
        )
    }

    /// Whether no two nodes share an id.
    pub fn has_distinct_ids(&self) -> (r: bool)
        ensures
            r == self.distinct_ids(),
    {
        let n = self.nodes.len();
        let mut j: usize = 0;
        while j < n
            invariant
                j <= n,
                n == self.nodes@.len(),
                forall|a: int, b: int|
                    0 <= a < b < j ==> self.nodes@[a].node_id@ != self.nodes@[b].node_id@,
            decreases n - j,
        {
            let mut i: usize = 0;
            while i < j
                invariant
                    i <= j < n,
                    n == self.nodes@.len(),
                    forall|a: int| 0 <= a < i ==> self.nodes@[a].node_id@ != self.nodes@[j as int].node_id@,
                decreases j - i,
            {
                if str_eq(self.nodes[i].node_id.as_str(), self.nodes[j].node_id.as_str()) {
                    return false;
                }
                i += 1;
            }
            j += 1;
        }
        true
    }
}

/// The ends of the connections that leave node `a`, among the first `k`
/// connections and in their order.
pub open spec fn targets(ends: Seq<(usize, usize)>, a: int, k: nat) -> Seq<usize>
    decreases k,
{
    if k == 0 || k > ends.len() {
        Seq::empty()
    } else if ends[k - 1].0 == a {
        targets(ends, a, (k - 1) as nat).push(ends[k - 1].1)
    } else {
        targets(ends, a, (k - 1) as nat)
    }
}

/// Index of the first node with the given id.
pub fn find_node(nodes: &Vec<NodeSchema>, id: &str) -> (r: Option<usize>)
    ensures
        match r {
            Some(i) => i < nodes@.len() && nodes@[i as int].node_id@ == id@,
            None => forall|j: int| 0 <= j < nodes@.len() ==> nodes@[j].node_id@ != id@,
        },
{
    let mut i: usize = 0;
    while i < nodes.len()
        invariant
            i <= nodes@.len(),
            forall|j: int| 0 <= j < i ==> nodes@[j].node_id@ != id@,
        decreases nodes@.len() - i,
    {
        if str_eq(nodes[i].node_id.as_str(), id) {
            return Some(i);
        }
        i += 1;
    }
    None
}

proof fn lemma_index_of(w: WorkflowSchema, i: int)
    requires
        w.distinct_ids(),
        0 <= i < w.nodes@.len(),
    ensures
        w.has_id(w.nodes@[i].node_id@),
        w.index_of(w.nodes@[i].node_id@) == i,
{
    let id = w.nodes@[i].node_id@;
    assert(w.nodes@[i].node_id@ == id);
    let j = w.index_of(id);
    if j < i {
        assert(w.nodes@[j].node_id@ != w.nodes@[i].node_id@);
    } else if i < j {
        assert(w.nodes@[i].node_id@ != w.nodes@[j].node_id@);
    }
}

proof fn lemma_fault_stays(w: WorkflowSchema, k: nat, m: nat)
    requires
        k <= m <= w.connections@.len(),
        w.fault_before(k) is Some,
    ensures
        w.fault_before(m) == w.fault_before(k),
    decreases m - k,
{
    if k < m {
        lemma_fault_stays(w, k, (m - 1) as nat);
    }
}

/// Checks the connections in order and names the ends of each by index.
fn resolve_connections(w: &WorkflowSchema) -> (r: Result<Vec<(usize, usize)>, BuildError>)
    requires
        w.distinct_ids(),
    ensures
        match r {
            Ok(ends) => w.first_fault() is None && ends@ == w.endpoints() && forall|k: int|
                0 <= k < ends@.len() ==> (#[trigger] ends@[k]).0 < w.nodes@.len() && ends@[k].1
                    < w.nodes@.len(),
            Err(e) => w.first_fault() == Some(e@),
        },
{
    let m = w.connections.len();
    let mut ends: Vec<(usize, usize)> = Vec::new();
    let mut k: usize = 0;
    while k < m
        invariant
            k <= m,
            m == w.connections@.len(),
            w.distinct_ids(),
            w.fault_before(k as nat) is None,
            ends@.len() == k,
            forall|j: int| 0 <= j < k ==> #[trigger] ends@[j] == w.endpoints()[j],
            forall|j: int|
                0 <= j < k ==> (#[trigger] ends@[j]).0 < w.nodes@.len() && ends@[j].1
                    < w.nodes@.len(),
        decreases m - k,
    {
        let c = &w.connections[k];
        let to = find_node(&w.nodes, c.to.as_str());
        proof {
            if let Some(t) = to {
                lemma_index_of(*w, t as int);
            }
        }
        if let Some(t) = to {
            if str_eq(w.nodes[t].action_type.as_str(), "Start") {
                proof {
                    lemma_fault_stays(*w, (k + 1) as nat, m as nat);
                }
                return Err(BuildError::StartInInEdge(c.to.clone()));
            }
        }
        let from = find_node(&w.nodes, c.from.as_str());
        let f = match from {
            Some(f) => f,
            None => {
                proof {
                    lemma_fault_stays(*w, (k + 1) as nat, m as nat);
                }
                return Err(BuildError::MissingNode(c.from.clone()));
            },
        };
        let t = match to {
            Some(t) => t,
            None => {
                proof {
                    lemma_index_of(*w, f as int);
                    lemma_fault_stays(*w, (k + 1) as nat, m as nat);
                }
                return Err(BuildError::MissingNode(c.to.clone()));
            },
        };
        proof {
            lemma_index_of(*w, f as int);
            lemma_index_of(*w, t as int);
        }
        ends.push((f, t));
        k += 1;
    }
    assert(ends@ =~= w.endpoints());
    Ok(ends)
}

/// The indices of the `Start` nodes, in order.
fn collect_starts(w: &WorkflowSchema) -> (r: Vec<usize>)
    ensures
        r@ == w.start_indices(w.nodes@.len()),
{
    let n = w.nodes.len();
    let mut starts: Vec<usize> = Vec::new();
    let mut i: usize = 0;
    while i < n
        invariant
            i <= n,
            n == w.nodes@.len(),
            starts@ == w.start_indices(i as nat),
        decreases n - i,
    {
        if str_eq(w.nodes[i].action_type.as_str(), "Start") {
            starts.push(i);
        }
        i += 1;
    }
    starts
}

/// The successor lists of `n` nodes joined by the edges `ends`.
fn build_rows(n: usize, ends: &Vec<(usize, usize)>) -> (r: Vec<Vec<usize>>)
    ensures
        r@.len() == n,
        forall|a: int| 0 <= a < n ==> (#[trigger] r@[a])@ == targets(ends@, a, ends@.len()),
{
    let m = ends.len();
    let mut rows: Vec<Vec<usize>> = Vec::new();
    let mut a: usize = 0;
    while a < n
        invariant
            a <= n,
            m == ends@.len(),
            rows@.len() == a,
            forall|x: int| 0 <= x < a ==> (#[trigger] rows@[x])@ == targets(ends@, x, ends@.len()),
        decreases n - a,
    {
        let mut row: Vec<usize> = Vec::new();
        let mut k: usize = 0;
        while k < m
            invariant
                k <= m,
                m == ends@.len(),
                row@ == targets(ends@, a as int, k as nat),
            decreases m - k,
        {
            if ends[k].0 == a {
                row.push(ends[k].1);
            }
            k += 1;
        }
        rows.push(row);
        a += 1;
    }
    rows
}

/// A copy of a list of indices.
fn copy_row(row: &Vec<usize>) -> (r: Vec<usize>)
    ensures
        r@ == row@,
{
    let mut r: Vec<usize> = Vec::new();
    let mut j: usize = 0;
    while j < row.len()
        invariant
            j <= row@.len(),
            r@ == row@.take(j as int),
        decreases row@.len() - j,
    {
        r.push(row[j]);
        assert(row@.take(j + 1) == row@.take(j as int).push(row@[j as int]));
        j += 1;
    }
    assert(row@.take(row@.len() as int) == row@);
    r
}

/// The ids of the sources of the edges that lead to `b`.
fn collect_sources(nodes: &Vec<NodeSchema>, live: &Vec<Vec<usize>>, b: usize) -> (r: Vec<String>)
    requires
        nodes@.len() == live@.len(),
    ensures
        string_views(r@) == sources(rows_of(live@), schema_ids(nodes@), b as int, nodes@.len()),
{
    let n = nodes.len();
    let ghost rows = rows_of(live@);
    let ghost ids = schema_ids(nodes@);
    let mut out: Vec<String> = Vec::new();
    let mut a: usize = 0;
    assert(string_views(out@) =~= sources(rows, ids, b as int, 0));
    while a < n
        invariant
            a <= n,
            n == nodes@.len(),
            n == live@.len(),
            rows == rows_of(live@),
            ids == schema_ids(nodes@),
            string_views(out@) == sources(rows, ids, b as int, a as nat),
        decreases n - a,
    {
        let ghost done = string_views(out@);
        let row = &live[a];
        assert(rows[a as int] == row@);
        assert(ids[a as int] == nodes@[a as int].node_id@);
        let mut j: usize = 0;
        assert(string_views(out@) =~= done + row_sources(row@, ids[a as int], b as int, 0));
        while j < row.len()
            invariant
                j <= row@.len(),
                a < n,
                n == nodes@.len(),
                ids[a as int] == nodes@[a as int].node_id@,
                string_views(out@) == done + row_sources(row@, ids[a as int], b as int, j as nat),
            decreases row@.len() - j,
        {
            if row[j] == b {
                let ghost before = string_views(out@);
                out.push(nodes[a].node_id.clone());
                assert(string_views(out@) =~= before.push(ids[a as int]));
                assert(string_views(out@) =~= done + row_sources(
                    row@,
                    ids[a as int],
                    b as int,
                    (j + 1) as nat,
                ));
            }
            j += 1;
        }
        a += 1;
    }
    out
}

/// The ids of a list of schema nodes.
pub open spec fn schema_ids(nodes: Seq<NodeSchema>) -> Seq<Seq<char>> {
    Seq::new(nodes.len(), |i: int| nodes[i].node_id@)
}

/// One graph node for each schema node, with the successors and predecessors
/// that are handed in for it.
fn assemble(nodes: Vec<NodeSchema>, live: Vec<Vec<usize>>, prevs: Vec<Vec<String>>) -> (r: Vec<
    GraphNode,
>)
    requires
        nodes@.len() == live@.len(),
        nodes@.len() == prevs@.len(),
    ensures
        r@.len() == nodes@.len(),
        forall|i: int|
            0 <= i < r@.len() ==> {
                let g = #[trigger] r@[i];
                &&& g.node_id@ == nodes@[i].node_id@
                &&& g.node_context == nodes@[i]
                &&& g.next == live@[i]
                &&& g.prev == prevs@[i]
                &&& g.wait_count == prevs@[i]@.len()
            },
{
    let ghost n = nodes@.len();
    let mut nodes = nodes;
    let mut live = live;
    let mut prevs = prevs;
    let ghost all_nodes = nodes@;
    let ghost all_live = live@;
    let ghost all_prevs = prevs@;
    let mut reversed: Vec<GraphNode> = Vec::new();
    while nodes.len() > 0
        invariant
            nodes@.len() == live@.len(),
            nodes@.len() == prevs@.len(),
            nodes@.len() + reversed@.len() == n,
            all_nodes.len() == n,
            all_live.len() == n,
            all_prevs.len() == n,
            nodes@ == all_nodes.take(nodes@.len() as int),
            live@ == all_live.take(nodes@.len() as int),
            prevs@ == all_prevs.take(nodes@.len() as int),
            forall|i: int|
                0 <= i < reversed@.len() ==> {
                    let g = #[trigger] reversed@[i];
                    &&& g.node_id@ == all_nodes[n - 1 - i].node_id@
                    &&& g.node_context == all_nodes[n - 1 - i]
                    &&& g.next == all_live[n - 1 - i]
                    &&& g.prev == all_prevs[n - 1 - i]
                    &&& g.wait_count == all_prevs[n - 1 - i]@.len()
                },
        decreases nodes@.len(),
    {
        let node = nodes.pop().unwrap();
        let next = live.pop().unwrap();
        let prev = prevs.pop().unwrap();
        let wait_count = prev.len();
        reversed.push(
            GraphNode { node_id: node.node_id.clone(), node_context: node, next, prev, wait_count },
        );
    }
    let mut out: Vec<GraphNode> = Vec::new();
    let ghost all_reversed = reversed@;
    while reversed.len() > 0
        invariant
            reversed@.len() + out@.len() == n,
            all_reversed.len() == n,
            reversed@ == all_reversed.take(reversed@.len() as int),
            forall|i: int| 0 <= i < out@.len() ==> #[trigger] out@[i] == all_reversed[n - 1 - i],
        decreases reversed@.len(),
    {
        let g = reversed.pop().unwrap();
        out.push(g);
    }
    out
}

/// Turns a workflow document into a graph.
#[derive(Default)]
pub struct Builder {
    pub workflow: WorkflowSchema,
}

/// What the error of a failed build says of the document.
pub open spec fn fault_fits(w: WorkflowSchema, e: BuildFault) -> bool {
    match w.first_fault() {
        Some(f) => e == f,
        None => if !w.has_start() {
            e == BuildFault::MissingStart
        } else {
            e matches BuildFault::CycleDetected(id) && w.has_id(id) && returns_to(
                w.adjacency(),
                w.roots(),
                w.index_of(id),
            )
        },
    }
}

/// What the graph of a successful build holds of the document: its nodes in
/// their order, its `Start` nodes as roots, and the successors of each node that
/// a `Start` reaches.
pub open spec fn built_from(g: Graph, w: WorkflowSchema) -> bool {
    &&& g.nodes@.len() == w.nodes@.len()
    &&& forall|i: int|
        0 <= i < g.nodes@.len() ==> (#[trigger] g.nodes@[i]).node_id@ == w.nodes@[i].node_id@
            && g.nodes@[i].node_context == w.nodes@[i]
    &&& g.starts@ == w.start_indices(w.nodes@.len())
    &&& g.rows() == w.live_rows()
}

proof fn lemma_start_indices(w: WorkflowSchema, i: nat)
    requires
        i <= w.nodes@.len(),
    ensures
        forall|j: int|
            0 <= j < w.start_indices(i).len() ==> (#[trigger] w.start_indices(i)[j]) < i
                && is_start(w.nodes@[w.start_indices(i)[j] as int]),
        forall|x: int|
            0 <= x < i && is_start(#[trigger] w.nodes@[x]) ==> exists|j: int|
                0 <= j < w.start_indices(i).len() && w.start_indices(i)[j] == x,
    decreases i,
{
    if i > 0 {
        lemma_start_indices(w, (i - 1) as nat);
        let shorter = w.start_indices((i - 1) as nat);
        let full = w.start_indices(i);
        assert forall|x: int| 0 <= x < i && is_start(#[trigger] w.nodes@[x]) implies exists|j: int|
            0 <= j < full.len() && full[j] == x by {
            if x < i - 1 {
                let j = choose|j: int| 0 <= j < shorter.len() && shorter[j] == x;
                assert(full[j] == x);
            } else {
                assert(w.nodes@.len() == w.nodes.len());
                assert(full == shorter.push((i - 1) as usize));
                assert(full[full.len() - 1] == x);
            }
        }
    }
}

proof fn lemma_targets_in_range(ends: Seq<(usize, usize)>, a: int, k: nat, n: int)
    requires
        k <= ends.len(),
        forall|j: int| 0 <= j < ends.len() ==> (#[trigger] ends[j]).1 < n,
    ensures
        forall|j: int|
            0 <= j < targets(ends, a, k).len() ==> (#[trigger] targets(ends, a, k)[j]) < n,
    decreases k,
{
    if k > 0 {
        lemma_targets_in_range(ends, a, (k - 1) as nat, n);
        let shorter = targets(ends, a, (k - 1) as nat);
        assert forall|j: int| 0 <= j < targets(ends, a, k).len() implies (#[trigger] targets(
            ends,
            a,
            k,
        )[j]) < n by {
            if j < shorter.len() {
                assert(targets(ends, a, k)[j] == shorter[j]);
            } else {
                assert(targets(ends, a, k)[j] == ends[k - 1].1);
            }
        }
    }
}

/// Searches from every root in turn. Returns the finished search, or a node
/// that a walk from a root comes back to.
fn search_from(rows: &Vec<Vec<usize>>, starts: &Vec<usize>, Ghost(roots): Ghost<Set<int>>) -> (r:
    Result<Search, usize>)
    requires
        adjacency_wf(rows_of(rows@)),
        forall|j: int|
            0 <= j < starts@.len() ==> (#[trigger] starts@[j]) < rows@.len() && roots.contains(
                starts@[j] as int,
            ),
        forall|x: int|
            roots.contains(x) ==> exists|j: int| 0 <= j < starts@.len() && starts@[j] == x,
    ensures
        match r {
            Ok(search) => {
                &&& search.inv(rows_of(rows@), roots)
                &&& forall|x: int|
                    roots.contains(x) ==> 0 <= x < rows@.len() && search.color@[x] == BLACK
            },
            Err(t) => t < rows@.len() && returns_to(rows_of(rows@), roots, t as int),
        },
{
    let n = rows.len();
    let ghost adj = rows_of(rows@);
    let mut search = Search::new(n);
    let mut i: usize = 0;
    while i < starts.len()
        invariant
            i <= starts@.len(),
            rows@.len() == n,
            adj == rows_of(rows@),
            adjacency_wf(adj),
            search.inv(adj, roots),
            forall|x: int| 0 <= x < n ==> #[trigger] search.color@[x] != GREY,
            forall|j: int| 0 <= j < i ==> search.color@[(#[trigger] starts@[j]) as int] == BLACK,
            forall|j: int|
                0 <= j < starts@.len() ==> (#[trigger] starts@[j]) < rows@.len()
                    && roots.contains(starts@[j] as int),
        decreases starts@.len() - i,
    {
        let s = starts[i];
        if search.color[s] == WHITE {
            let ghost path = seq![s as int];
            let ghost before = search;
            match search.visit(rows, s, Ghost(roots), Ghost(path)) {
                Some(t) => {
                    return Err(t);
                },
                None => {
                    proof {
                        assert forall|x: int| 0 <= x < n implies #[trigger] search.color@[x]
                            != GREY by {
                            assert(before.color@[x] != GREY);
                        }
                        assert forall|j: int| 0 <= j < i + 1 implies search.color@[(
                        #[trigger] starts@[j]) as int] == BLACK by {
                            if j < i {
                                assert(before.color@[starts@[j] as int] == BLACK);
                            }
                        }
                    }
                },
            }
        } else {
            assert(search.color@[s as int] <= BLACK);
        }
        i += 1;
    }
    proof {
        assert forall|x: int| roots.contains(x) implies 0 <= x < rows@.len() && search.color@[x]
            == BLACK by {
            let j = choose|j: int| 0 <= j < starts@.len() && starts@[j] == x;
            assert(search.color@[starts@[j] as int] == BLACK);
        }
    }
    Ok(search)
}

/// The successor lists with those of the unfinished nodes emptied.
fn keep_finished(rows: &Vec<Vec<usize>>, search: &Search) -> (live: Vec<Vec<usize>>)
    requires
        search.color@.len() == rows@.len(),
    ensures
        live@.len() == rows@.len(),
        forall|a: int|
            0 <= a < rows@.len() ==> (#[trigger] live@[a])@ == (if search.color@[a] == BLACK {
                rows@[a]@
            } else {
                Seq::empty()
            }),
{
    let n = rows.len();
    let mut live: Vec<Vec<usize>> = Vec::new();
    let mut a: usize = 0;
    while a < n
        invariant
            a <= n,
            n == rows@.len(),
            search.color@.len() == n,
            live@.len() == a,
            forall|x: int|
                0 <= x < a ==> (#[trigger] live@[x])@ == (if search.color@[x] == BLACK {
                    rows@[x]@
                } else {
                    Seq::empty()
                }),
        decreases n - a,
    {
        if search.color[a] == BLACK {
            live.push(copy_row(&rows[a]));
        } else {
            live.push(Vec::new());
        }
        a += 1;
    }
    live
}

/// For every node, the ids of the sources of the edges that lead to it.
fn collect_all_sources(nodes: &Vec<NodeSchema>, live: &Vec<Vec<usize>>) -> (prevs: Vec<
    Vec<String>,
>)
    requires
        nodes@.len() == live@.len(),
    ensures
        prevs@.len() == nodes@.len(),
        forall|b: int|
            0 <= b < nodes@.len() ==> string_views((#[trigger] prevs@[b])@) == sources(
                rows_of(live@),
                schema_ids(nodes@),
                b,
                nodes@.len(),
            ),
{
    let n = nodes.len();
    let mut prevs: Vec<Vec<String>> = Vec::new();
    let mut b: usize = 0;
    while b < n
        invariant
            b <= n,
            n == nodes@.len(),
            n == live@.len(),
            prevs@.len() == b,
            forall|x: int|
                0 <= x < b ==> string_views((#[trigger] prevs@[x])@) == sources(
                    rows_of(live@),
                    schema_ids(nodes@),
                    x,
                    n as nat,
                ),
        decreases n - b,
    {
        prevs.push(collect_sources(nodes, live, b));
        b += 1;
    }
    prevs
}

/// A walk from a root along the edges is a walk along the edges that are kept.
proof fn lemma_live_walk(g: Graph, search: Search, adj: Seq<Seq<usize>>, roots: Set<int>, p: Seq<int>)
    requires
        adjacency_wf(adj),
        search.inv(adj, roots),
        forall|r: int| roots.contains(r) ==> 0 <= r < adj.len() && search.color@[r] == BLACK,
        g.nodes@.len() == adj.len(),
        forall|a: int|
            0 <= a < adj.len() ==> (#[trigger] g.nodes@[a]).next@ == (if search.color@[a]
                == BLACK {
                adj[a]
            } else {
                Seq::empty()
            }),
        is_walk(adj, p),
        roots.contains(p[0]),
    ensures
        is_walk(g.rows(), p),
{
    assert forall|i: int| 0 <= i < p.len() - 1 implies has_edge(
        g.rows(),
        #[trigger] p[i],
        p[i + 1],
    ) by {
        let shorter = p.take(i + 1);
        assert(is_walk(adj, shorter)) by {
            assert forall|k: int| 0 <= k < shorter.len() - 1 implies has_edge(
                adj,
                #[trigger] shorter[k],
                shorter[k + 1],
            ) by {
                assert(has_edge(adj, p[k], p[k + 1]));
            }
        }
        assert(shorter.last() == p[i]);
        assert(reaches(adj, roots, p[i]));
        assert(has_edge(adj, p[i], p[i + 1]));
        lemma_finished_reached(search, adj, roots, p[i]);
        assert(g.rows()[p[i]] == g.nodes@[p[i]].next@);
        let j = choose|j: int| 0 <= j < adj[p[i]].len() && #[trigger] adj[p[i]][j] == p[i + 1];
        assert(g.rows()[p[i]][j] == p[i + 1]);
    }
}

/// A graph whose successor lists hold only edges that a finished search has
/// walked is one that can be run.
proof fn lemma_built_wf(g: Graph, search: Search, adj: Seq<Seq<usize>>, roots: Set<int>)
    requires
        adjacency_wf(adj),
        search.inv(adj, roots),
        g.nodes@.len() == adj.len(),
        forall|a: int|
            0 <= a < adj.len() ==> (#[trigger] g.nodes@[a]).next@ == (if search.color@[a]
                == BLACK {
                adj[a]
            } else {
                Seq::empty()
            }),
        forall|b: int|
            0 <= b < adj.len() ==> string_views((#[trigger] g.nodes@[b]).prev@) == sources(
                g.rows(),
                g.ids(),
                b,
                adj.len(),
            ) && g.nodes@[b].wait_count == g.nodes@[b].prev@.len(),
        forall|i: int|
            0 <= i < g.starts@.len() ==> #[trigger] g.starts@[i] < adj.len() && roots.contains(
                g.starts@[i] as int,
            ),
        forall|a: int, j: int|
            0 <= a < adj.len() && 0 <= j < adj[a].len() ==> !roots.contains(
                (#[trigger] adj[a][j]) as int,
            ),
        forall|r: int| roots.contains(r) ==> 0 <= r < adj.len() && search.color@[r] == BLACK,
        g.roots() == roots,
        forall|i: int, j: int|
            0 <= i < j < g.nodes@.len() ==> g.nodes@[i].node_id@ != g.nodes@[j].node_id@,
    ensures
        g.wf(),
{
    let n = adj.len();
    assert forall|a: int| 0 <= a < g.nodes@.len() && (#[trigger] g.rows()[a]).len() > 0 implies reaches(
        g.rows(),
        g.roots(),
        a,
    ) by {
        assert(g.rows()[a] == g.nodes@[a].next@);
        assert(search.color@[a] == BLACK);
        lemma_finished_reached(search, adj, roots, a);
        let p = choose|p: Seq<int>|
            is_walk(adj, p) && roots.contains(p[0]) && #[trigger] p.last() == a;
        lemma_live_walk(g, search, adj, roots, p);
    }
    assert forall|i: int| 0 <= i < g.starts@.len() implies g.nodes@[(
    #[trigger] g.starts@[i]) as int].wait_count == 0 by {
        let r = g.starts@[i] as int;
        assert forall|x: int, k: int|
            0 <= x < g.rows().len() && 0 <= k < g.rows()[x].len() implies #[trigger] g.rows()[x][k]
            != r by {
            assert(g.rows()[x] == g.nodes@[x].next@);
            assert(adj[x][k] == g.rows()[x][k]);
        }
        lemma_no_incoming(g.rows(), r, n);
        lemma_sources_len(g.rows(), g.ids(), r, n);
        assert(string_views(g.nodes@[r].prev@).len() == g.nodes@[r].prev@.len());
    }
    let rank = Seq::new(n, |x: int| search.rank@[x] as int);
    assert forall|x: int, j: int| 0 <= x < g.rows().len() && 0 <= j < g.rows()[x].len() implies (
    #[trigger] g.rows()[x][j]) < g.rows().len() && rank[g.rows()[x][j] as int] < rank[x] by {
        assert(g.rows()[x] == g.nodes@[x].next@);
        assert(adj[x][j] == g.rows()[x][j]);
    }
    assert(is_ranking(g.rows(), rank));
    assert forall|x: int| 0 <= x < g.nodes@.len() implies (#[trigger] g.nodes@[x]).wait_count
        == incoming(g.rows(), x, g.nodes@.len()) by {
        lemma_sources_len(g.rows(), g.ids(), x, n);
        assert(string_views(g.nodes@[x].prev@).len() == g.nodes@[x].prev@.len());
    }
}

impl Builder {
    pub fn new(workflow: WorkflowSchema) -> (r: Builder)
        ensures
            r.workflow == workflow,
    {
        Builder { workflow }
    }

    /// Builds the graph of the workflow, or says what is wrong with the
    /// document: the fault of its first faulty connection; else that it has no
    /// `Start`; else a node that a walk from a `Start` comes back to.
    pub fn build(self) -> (r: Result<Graph, BuildError>)
        requires
            self.workflow.distinct_ids(),
        ensures
            match r {
                Ok(g) => !self.workflow.malformed() && g.wf() && built_from(g, self.workflow),
                Err(e) => self.workflow.malformed() && fault_fits(self.workflow, e@),
            },
    {
        let ghost w = self.workflow;
        let n = self.workflow.nodes.len();
        let ends = match resolve_connections(&self.workflow) {
            Ok(ends) => ends,
            Err(e) => {
                return Err(e);
            },
        };
        let starts = collect_starts(&self.workflow);
        proof {
            lemma_start_indices(w, n as nat);
        }
        if starts.len() == 0 {
            return Err(BuildError::MissingStart);
        }
        let rows = build_rows(n, &ends);
        let ghost adj = rows_of(rows@);
        let ghost roots = w.roots();
        proof {
            assert(adj =~= w.adjacency());
            assert(w.has_start()) by {
                assert(is_start(w.nodes@[starts@[0] as int]));
            }
            assert forall|a: int, j: int| 0 <= a < adj.len() && 0 <= j < adj[a].len() implies (
            #[trigger] adj[a][j]) < adj.len() by {
                lemma_targets_in_range(ends@, a, ends@.len(), n as int);
            }
        }
        let search = match search_from(&rows, &starts, Ghost(roots)) {
            Ok(search) => search,
            Err(t) => {
                proof {
                    lemma_returns_cyclic(adj, roots, t as int);
                    lemma_index_of(w, t as int);
                }
                return Err(BuildError::CycleDetected(self.workflow.nodes[t].node_id.clone()));
            },
        };
        proof {
            lemma_finished_acyclic(search, adj, roots);
        }
        let live = keep_finished(&rows, &search);
        proof {
            assert forall|a: int| 0 <= a < n implies (#[trigger] live@[a])@ == w.live_rows()[a] by {
                lemma_finished_reached(search, adj, roots, a);
            }
            assert(rows_of(live@) =~= w.live_rows());
        }
        let prevs = collect_all_sources(&self.workflow.nodes, &live);
        let nodes = assemble(self.workflow.nodes, live, prevs);
        let g = Graph { nodes, starts };
        proof {
            assert(g.rows() =~= w.live_rows());
            assert(g.ids() =~= schema_ids(w.nodes@));
            assert(g.roots() =~= roots) by {
                assert forall|r: int| g.roots().contains(r) <==> roots.contains(r) by {
                    if g.roots().contains(r) {
                        let i = choose|i: int| 0 <= i < g.starts@.len() && g.starts@[i] == r;
                        assert(is_start(w.nodes@[g.starts@[i] as int]));
                    }
                    if roots.contains(r) {
                        assert(is_start(w.nodes@[r]));
                    }
                }
            }
            assert forall|a: int, j: int|
                0 <= a < adj.len() && 0 <= j < adj[a].len() implies !roots.contains(
                (#[trigger] adj[a][j]) as int,
            ) by {
                lemma_target_no_start(w, a, j);
            }
            lemma_built_wf(g, search, adj, roots);
        }
        Ok(g)
    }
}

proof fn lemma_targets_member(ends: Seq<(usize, usize)>, a: int, k: nat, t: int)
    requires
        k <= ends.len(),
    ensures
        (exists|j: int| 0 <= j < targets(ends, a, k).len() && #[trigger] targets(ends, a, k)[j] == t)
            <==> (exists|c: int| 0 <= c < k && (#[trigger] ends[c]).0 == a && ends[c].1 == t),
    decreases k,
{
    if k > 0 {
        lemma_targets_member(ends, a, (k - 1) as nat, t);
        let shorter = targets(ends, a, (k - 1) as nat);
        let full = targets(ends, a, k);
        if ends[k - 1].0 == a {
            assert(full == shorter.push(ends[k - 1].1));
            if exists|j: int| 0 <= j < full.len() && #[trigger] full[j] == t {
                let j = choose|j: int| 0 <= j < full.len() && #[trigger] full[j] == t;
                if j < shorter.len() {
                    assert(shorter[j] == t);
                } else {
                    assert(ends[k - 1].0 == a && ends[k - 1].1 == t);
                }
            }
            if exists|c: int| 0 <= c < k && (#[trigger] ends[c]).0 == a && ends[c].1 == t {
                let c = choose|c: int| 0 <= c < k && (#[trigger] ends[c]).0 == a && ends[c].1 == t;
                if c < k - 1 {
                    let j = choose|j: int| 0 <= j < shorter.len() && #[trigger] shorter[j] == t;
                    assert(full[j] == t);
                } else {
                    assert(full[full.len() - 1] == t);
                }
            }
        } else {
            if exists|c: int| 0 <= c < k && (#[trigger] ends[c]).0 == a && ends[c].1 == t {
                let c = choose|c: int| 0 <= c < k && (#[trigger] ends[c]).0 == a && ends[c].1 == t;
                assert(c < k - 1);
            }
        }
    }
}

/// In a document without a faulty connection no edge leads to a `Start`.
proof fn lemma_target_no_start(w: WorkflowSchema, a: int, j: int)
    requires
        w.distinct_ids(),
        w.first_fault() is None,
        0 <= a < w.nodes@.len(),
        0 <= j < w.adjacency()[a].len(),
    ensures
        !w.roots().contains(w.adjacency()[a][j] as int),
{
    let m = w.connections@.len();
    let ends = w.endpoints();
    let t = w.adjacency()[a][j];
    assert(w.adjacency()[a] == targets(ends, a, m));
    lemma_targets_member(ends, a, m, t as int);
    let c = choose|c: int| 0 <= c < m && (#[trigger] ends[c]).0 == a && ends[c].1 == t as int;
    lemma_endpoints(w, c);
    lemma_no_fault(w, m, c);
    lemma_index_of(w, t as int);
}

impl WorkflowSchema {
    /// The ids of the nodes from which a connection leads to node `b`.
    pub open spec fn source_ids(&self, b: int) -> Set<Seq<char>> {
        Set::new(
            |id: Seq<char>|
                exists|k: int|
                    0 <= k < self.connections@.len() && (#[trigger] self.connections@[k]).from@
                        == id && self.connections@[k].to@ == self.nodes@[b].node_id@,
        )
    }

    /// A `Start` reaches the source of every connection.
    pub open spec fn sources_reached(&self) -> bool {
        forall|k: int|
            0 <= k < self.connections@.len() ==> reaches(
                self.adjacency(),
                self.roots(),
                self.index_of((#[trigger] self.connections@[k]).from@),
            )
    }
}

proof fn lemma_endpoints(w: WorkflowSchema, k: int)
    requires
        w.distinct_ids(),
        w.first_fault() is None,
        0 <= k < w.connections@.len(),
    ensures
        0 <= w.endpoints()[k].0 < w.nodes@.len(),
        0 <= w.endpoints()[k].1 < w.nodes@.len(),
        w.nodes@[w.endpoints()[k].0 as int].node_id@ == w.connections@[k].from@,
        w.nodes@[w.endpoints()[k].1 as int].node_id@ == w.connections@[k].to@,
{
    lemma_no_fault(w, w.connections@.len(), k);
    assert(w.nodes@.len() == w.nodes.len());
    let f = w.index_of(w.connections@[k].from@);
    let t = w.index_of(w.connections@[k].to@);
    assert(0 <= f < w.nodes@.len());
    assert(0 <= t < w.nodes@.len());
}

proof fn lemma_recorded_is_source(g: Graph, w: WorkflowSchema, b: int, x: Seq<char>)
    requires
        w.distinct_ids(),
        w.first_fault() is None,
        built_from(g, w),
        0 <= b < w.nodes@.len(),
        sources(g.rows(), g.ids(), b, w.nodes@.len()).contains(x),
    ensures
        w.source_ids(b).contains(x),
{
    let n = w.nodes@.len();
    let m = w.connections@.len();
    let ends = w.endpoints();
    assert(g.ids() =~= schema_ids(w.nodes@));
    lemma_sources_member(g.rows(), g.ids(), b, n, x);
    let (s, i) = choose|s: int, i: int|
        0 <= s < n && 0 <= i < g.rows()[s].len() && #[trigger] g.rows()[s][i] == b && g.ids()[s]
            == x;
    assert(g.rows()[s] == w.live_rows()[s]);
    assert(w.live_rows()[s] == targets(ends, s, m));
    lemma_targets_member(ends, s, m, b);
    let c = choose|c: int| 0 <= c < m && (#[trigger] ends[c]).0 == s && ends[c].1 == b;
    lemma_endpoints(w, c);
    assert(w.connections@[c].from@ == x);
}

proof fn lemma_source_is_recorded(g: Graph, w: WorkflowSchema, b: int, x: Seq<char>)
    requires
        w.distinct_ids(),
        w.first_fault() is None,
        w.sources_reached(),
        built_from(g, w),
        0 <= b < w.nodes@.len(),
        w.source_ids(b).contains(x),
    ensures
        sources(g.rows(), g.ids(), b, w.nodes@.len()).contains(x),
{
    let n = w.nodes@.len();
    let m = w.connections@.len();
    let ends = w.endpoints();
    assert(g.ids() =~= schema_ids(w.nodes@));
    let k = choose|k: int|
        0 <= k < m && (#[trigger] w.connections@[k]).from@ == x && w.connections@[k].to@
            == w.nodes@[b].node_id@;
    lemma_endpoints(w, k);
    let s = ends[k].0 as int;
    lemma_index_of(w, b);
    lemma_index_of(w, s);
    assert(ends[k].1 == b);
    lemma_targets_member(ends, s, m, b);
    assert(reaches(w.adjacency(), w.roots(), w.index_of(w.connections@[k].from@)));
    assert(w.live_rows()[s] == targets(ends, s, m));
    let j = choose|j: int|
        0 <= j < targets(ends, s, m).len() && #[trigger] targets(ends, s, m)[j] == b;
    assert(g.rows()[s][j] == b);
    assert(g.ids()[s] == x);
    lemma_sources_member(g.rows(), g.ids(), b, n, x);
}

/// Fan-in: in the graph built from a document in which a `Start` reaches the
/// source of every connection, the distinct predecessors that a node records
/// are the nodes from which a connection leads to it. So their number is the
/// in-degree of the node.
pub proof fn lemma_fan_in(g: Graph, w: WorkflowSchema, b: int)
    requires
        w.distinct_ids(),
        w.first_fault() is None,
        w.sources_reached(),
        g.wf(),
        built_from(g, w),
        0 <= b < w.nodes@.len(),
    ensures
        string_views(g.nodes@[b].prev@).to_set() == w.source_ids(b),
        string_views(g.nodes@[b].prev@).to_set().len() == w.source_ids(b).len(),
        g.nodes@[b].wait_count == g.nodes@[b].prev@.len(),
{
    let n = w.nodes@.len();
    let recorded = string_views(g.nodes@[b].prev@);
    assert(g.ids() =~= schema_ids(w.nodes@));
    assert(recorded == sources(g.rows(), g.ids(), b, n));
    assert forall|x: Seq<char>| recorded.to_set().contains(x) <==> w.source_ids(b).contains(
        x,
    ) by {
        if recorded.contains(x) {
            lemma_recorded_is_source(g, w, b, x);
        }
        if w.source_ids(b).contains(x) {
            lemma_source_is_recorded(g, w, b, x);
        }
    }
    assert(recorded.to_set() =~= w.source_ids(b));
    lemma_sources_len(g.rows(), g.ids(), b, n);
    assert(recorded.len() == g.nodes@[b].prev@.len());
}

proof fn lemma_no_fault(w: WorkflowSchema, m: nat, k: int)
    requires
        m <= w.connections@.len(),
        w.fault_before(m) is None,
        0 <= k < m,
    ensures
        w.connection_fault(k) is None,
        w.has_id(w.connections@[k].from@),
        w.has_id(w.connections@[k].to@),
    decreases m,
{
    if k < m - 1 {
        lemma_no_fault(w, (m - 1) as nat, k);
    }
}

/// The graph is determined by the document: two graphs that were built from
/// one document have the same roots and, node by node, the same ids, the same
/// successors, the same predecessors and the same counts.
pub proof fn lemma_graph_determined(g: Graph, h: Graph, w: WorkflowSchema)
    requires
        g.wf(),
        h.wf(),
        built_from(g, w),
        built_from(h, w),
    ensures
        g.starts@ == h.starts@,
        g.nodes@.len() == h.nodes@.len(),
        forall|i: int|
            0 <= i < g.nodes@.len() ==> {
                let a = #[trigger] g.nodes@[i];
                let b = h.nodes@[i];
                &&& a.node_id@ == b.node_id@
                &&& a.node_context == b.node_context
                &&& a.next@ == b.next@
                &&& string_views(a.prev@) == string_views(b.prev@)
                &&& a.wait_count == b.wait_count
            },
{
    assert(g.ids() =~= h.ids());
    assert forall|i: int| 0 <= i < g.nodes@.len() implies {
        let a = #[trigger] g.nodes@[i];
        let b = h.nodes@[i];
        &&& a.node_id@ == b.node_id@
        &&& a.node_context == b.node_context
        &&& a.next@ == b.next@
        &&& string_views(a.prev@) == string_views(b.prev@)
        &&& a.wait_count == b.wait_count
    } by {
        assert(g.rows()[i] == g.nodes@[i].next@);
        assert(h.rows()[i] == h.nodes@[i].next@);
    }
}

} // verus!
