//! The graph that a workflow runs on: one node per schema node, held in the
//! order of the document and named by its index there.

use vstd::prelude::*;
use crate::json::{JsonValue, JsonView};
use crate::register::bus::NodeRegisterBus;
use crate::schema::node::NodeSchema;
use crate::text::str_eq;
use crate::store::entries_view;
use crate::types::field::{fields_view, SchemaField};
use crate::types::node::NodeDefine;
use crate::workflow::search::{adjacency_wf, has_edge, is_walk, reaches};

verus! {

/// One node of a graph.
#[derive(Debug)]
pub struct GraphNode {
    pub node_id: String,
    pub node_context: NodeSchema,
    /// The nodes that follow this one, by index, one entry for each connection.
    pub next: Vec<usize>,
    /// The ids of the nodes that this one follows, one entry for each connection.
    pub prev: Vec<String>,
    /// How many predecessors must finish before this node may run.
    pub wait_count: usize,
}

/// A validated workflow.
#[derive(Debug)]
pub struct Graph {
    pub nodes: Vec<GraphNode>,
    /// The roots, by index.
    pub starts: Vec<usize>,
}

/// How often `b` stands among the first `j` entries of `row`.
pub open spec fn occurrences(row: Seq<usize>, b: int, j: nat) -> nat
    decreases j,
{
    if j == 0 || j > row.len() {
        0
    } else {
        occurrences(row, b, (j - 1) as nat) + if row[j - 1] == b {
            1nat
        } else {
            0nat
        }
    }
}

/// How many edges lead to `b` from the first `a` nodes.
pub open spec fn incoming(rows: Seq<Seq<usize>>, b: int, a: nat) -> nat
    decreases a,
{
    if a == 0 || a > rows.len() {
        0
    } else {
        incoming(rows, b, (a - 1) as nat) + occurrences(rows[a - 1], b, rows[a - 1].len())
    }
}

/// `id` once for each time that `b` stands among the first `j` entries of `row`.
pub open spec fn row_sources(row: Seq<usize>, id: Seq<char>, b: int, j: nat) -> Seq<Seq<char>>
    decreases j,
{
    if j == 0 || j > row.len() {
        Seq::empty()
    } else if row[j - 1] == b {
        row_sources(row, id, b, (j - 1) as nat).push(id)
    } else {
        row_sources(row, id, b, (j - 1) as nat)
    }
}

/// The ids of the sources of the edges that lead to `b` from the first `a`
/// nodes: node by node, and within a node edge by edge.
pub open spec fn sources(rows: Seq<Seq<usize>>, ids: Seq<Seq<char>>, b: int, a: nat) -> Seq<
    Seq<char>,
>
    decreases a,
{
    if a == 0 || a > rows.len() || a > ids.len() {
        Seq::empty()
    } else {
        sources(rows, ids, b, (a - 1) as nat) + row_sources(
            rows[a - 1],
            ids[a - 1],
            b,
            rows[a - 1].len(),
        )
    }
}

/// The views of a list of strings.
pub open spec fn string_views(v: Seq<String>) -> Seq<Seq<char>> {
    Seq::new(v.len(), |i: int| v[i]@)
}

/// A numbering of the nodes in which every edge leads to a smaller number.
pub open spec fn is_ranking(rows: Seq<Seq<usize>>, rank: Seq<int>) -> bool {
    &&& rank.len() == rows.len()
    &&& forall|a: int, j: int|
        0 <= a < rows.len() && 0 <= j < rows[a].len() ==> rank[(#[trigger] rows[a][j]) as int]
            < rank[a]
}

pub proof fn lemma_row_sources_len(row: Seq<usize>, id: Seq<char>, b: int, j: nat)
    requires
        j <= row.len(),
    ensures
        row_sources(row, id, b, j).len() == occurrences(row, b, j),
    decreases j,
{
    if j > 0 {
        lemma_row_sources_len(row, id, b, (j - 1) as nat);
    }
}

/// There are as many source ids as incoming edges.
pub proof fn lemma_sources_len(rows: Seq<Seq<usize>>, ids: Seq<Seq<char>>, b: int, a: nat)
    requires
        a <= rows.len(),
        rows.len() == ids.len(),
    ensures
        sources(rows, ids, b, a).len() == incoming(rows, b, a),
    decreases a,
{
    if a > 0 {
        lemma_sources_len(rows, ids, b, (a - 1) as nat);
        lemma_row_sources_len(rows[a - 1], ids[a - 1], b, rows[a - 1].len());
    }
}

pub proof fn lemma_row_sources_member(row: Seq<usize>, id: Seq<char>, b: int, j: nat, x: Seq<char>)
    requires
        j <= row.len(),
    ensures
        row_sources(row, id, b, j).contains(x) <==> (x == id && exists|i: int|
            0 <= i < j && #[trigger] row[i] == b),
    decreases j,
{
    if j > 0 {
        lemma_row_sources_member(row, id, b, (j - 1) as nat, x);
        let shorter = row_sources(row, id, b, (j - 1) as nat);
        let full = row_sources(row, id, b, j);
        if row[j - 1] == b {
            assert(full == shorter.push(id));
            if full.contains(x) {
                let i = choose|i: int| 0 <= i < full.len() && full[i] == x;
                if i < shorter.len() {
                    assert(shorter[i] == x);
                }
            }
            if x == id {
                assert(full[full.len() - 1] == x);
            }
        } else {
            if x == id && exists|i: int| 0 <= i < j && #[trigger] row[i] == b {
                let i = choose|i: int| 0 <= i < j && #[trigger] row[i] == b;
                assert(i < j - 1);
            }
        }
    }
}

/// An id stands among the sources of a node exactly if it is the id of a node
/// from which an edge leads there.
pub proof fn lemma_sources_member(
    rows: Seq<Seq<usize>>,
    ids: Seq<Seq<char>>,
    b: int,
    a: nat,
    x: Seq<char>,
)
    requires
        a <= rows.len(),
        rows.len() == ids.len(),
    ensures
        sources(rows, ids, b, a).contains(x) <==> exists|s: int, i: int|
            0 <= s < a && 0 <= i < rows[s].len() && #[trigger] rows[s][i] == b && ids[s] == x,
    decreases a,
{
    if a > 0 {
        lemma_sources_member(rows, ids, b, (a - 1) as nat, x);
        let row = rows[a - 1];
        lemma_row_sources_member(row, ids[a - 1], b, row.len(), x);
        let shorter = sources(rows, ids, b, (a - 1) as nat);
        let last = row_sources(row, ids[a - 1], b, row.len());
        let full = sources(rows, ids, b, a);
        assert(full == shorter + last);
        if full.contains(x) {
            let i = choose|i: int| 0 <= i < full.len() && full[i] == x;
            if i < shorter.len() {
                assert(shorter[i] == x);
                assert(shorter.contains(x));
            } else {
                assert(last[i - shorter.len()] == x);
                assert(last.contains(x));
                let j = choose|j: int| 0 <= j < row.len() && #[trigger] row[j] == b;
                assert(rows[a - 1][j] == b);
            }
        }
        if exists|s: int, i: int|
            0 <= s < a && 0 <= i < rows[s].len() && #[trigger] rows[s][i] == b && ids[s] == x {
            let (s, i) = choose|s: int, i: int|
                0 <= s < a && 0 <= i < rows[s].len() && #[trigger] rows[s][i] == b && ids[s] == x;
            if s < a - 1 {
                assert(shorter.contains(x));
                let k = choose|k: int| 0 <= k < shorter.len() && shorter[k] == x;
                assert(full[k] == x);
            } else {
                assert(row[i] == b);
                assert(last.contains(x));
                let k = choose|k: int| 0 <= k < last.len() && last[k] == x;
                assert(full[shorter.len() + k] == x);
            }
        }
    }
}

/// A node to which no edge of a row leads does not occur in it.
pub proof fn lemma_no_occurrence(row: Seq<usize>, b: int, j: nat)
    requires
        j <= row.len(),
        forall|i: int| 0 <= i < row.len() ==> #[trigger] row[i] != b,
    ensures
        occurrences(row, b, j) == 0,
    decreases j,
{
    if j > 0 {
        lemma_no_occurrence(row, b, (j - 1) as nat);
    }
}

/// A node to which no edge leads has no incoming edge.
pub proof fn lemma_no_incoming(rows: Seq<Seq<usize>>, b: int, a: nat)
    requires
        a <= rows.len(),
        forall|x: int, i: int|
            0 <= x < rows.len() && 0 <= i < rows[x].len() ==> #[trigger] rows[x][i] != b,
    ensures
        incoming(rows, b, a) == 0,
    decreases a,
{
    if a > 0 {
        lemma_no_incoming(rows, b, (a - 1) as nat);
        lemma_no_occurrence(rows[a - 1], b, rows[a - 1].len());
    }
}

impl Graph {
    /// The successor lists of the nodes.
    pub open spec fn rows(&self) -> Seq<Seq<usize>> {
        Seq::new(self.nodes@.len(), |a: int| self.nodes@[a].next@)
    }

    /// The ids of the nodes.
    pub open spec fn ids(&self) -> Seq<Seq<char>> {
        Seq::new(self.nodes@.len(), |a: int| self.nodes@[a].node_id@)
    }

    /// The roots as a set of indices.
    pub open spec fn roots(&self) -> Set<int> {
        Set::new(|r: int| exists|i: int| 0 <= i < self.starts@.len() && self.starts@[i] == r)
    }

    /// Whether the graph is one that can be run: no two nodes share an id,
    /// edges and roots name nodes,
    /// each node waits for as many predecessors as edges lead to it and lists
    /// their ids, a root waits for none, only nodes that a root reaches have
    /// successors, and no walk along the edges comes back to where it was.
    pub open spec fn wf(&self) -> bool {
        &&& adjacency_wf(self.rows())
        &&& forall|i: int| 0 <= i < self.starts@.len() ==> #[trigger] self.starts@[i] < self.nodes@.len()
        &&& forall|b: int|
            0 <= b < self.nodes@.len() ==> (#[trigger] self.nodes@[b]).wait_count == incoming(
                self.rows(),
                b,
                self.nodes@.len(),
            )
        &&& forall|b: int|
            0 <= b < self.nodes@.len() ==> string_views((#[trigger] self.nodes@[b]).prev@)
                == sources(self.rows(), self.ids(), b, self.nodes@.len())
        &&& forall|i: int|
            0 <= i < self.starts@.len() ==> self.nodes@[(#[trigger] self.starts@[i]) as int].wait_count
                == 0
        &&& forall|i: int, j: int|
            0 <= i < j < self.nodes@.len() ==> self.nodes@[i].node_id@ != self.nodes@[j].node_id@
        &&& forall|a: int|
            0 <= a < self.nodes@.len() && (#[trigger] self.rows()[a]).len() > 0 ==> reaches(
                self.rows(),
                self.roots(),
                a,
            )
        &&& exists|rank: Seq<int>| is_ranking(self.rows(), rank)
    }

    /// A graph of the given nodes and roots.
    pub fn new(nodes: Vec<GraphNode>, starts: Vec<usize>) -> (g: Graph)
        ensures
            g.nodes == nodes,
            g.starts == starts,
    {
        Graph { nodes, starts }
    }

    /// Index of the node with the given id.
    pub fn find(&self, id: &str) -> (r: Option<usize>)
        ensures
            match r {
                Some(i) => i < self.nodes@.len() && self.nodes@[i as int].node_id@ == id@
                    && forall|j: int| 0 <= j < i ==> self.nodes@[j].node_id@ != id@,
                None => forall|j: int|
                    0 <= j < self.nodes@.len() ==> self.nodes@[j].node_id@ != id@,
            },
    {
        let mut i: usize = 0;
        while i < self.nodes.len()
            invariant
                i <= self.nodes@.len(),
                forall|j: int| 0 <= j < i ==> self.nodes@[j].node_id@ != id@,
            decreases self.nodes@.len() - i,
        {
            if crate::text::str_eq(self.nodes[i].node_id.as_str(), id) {
                return Some(i);
            }
            i += 1;
        }
        None
    }
}

/// How many of the first `k` nodes have a rank above `r`.
pub open spec fn above(rank: Seq<int>, r: int, k: nat) -> nat
    decreases k,
{
    if k == 0 || k > rank.len() {
        0
    } else {
        above(rank, r, (k - 1) as nat) + if rank[k - 1] > r {
            1nat
        } else {
            0nat
        }
    }
}

proof fn lemma_above_fewer(rank: Seq<int>, high: int, low: int, k: nat)
    requires
        k <= rank.len(),
        low <= high,
    ensures
        above(rank, high, k) <= above(rank, low, k),
    decreases k,
{
    if k > 0 {
        lemma_above_fewer(rank, high, low, (k - 1) as nat);
    }
}

proof fn lemma_above_less(rank: Seq<int>, a: int, low: int, k: nat)
    requires
        k <= rank.len(),
        0 <= a < k,
        low < rank[a],
    ensures
        above(rank, rank[a], k) < above(rank, low, k),
    decreases k,
{
    if a < k - 1 {
        lemma_above_less(rank, a, low, (k - 1) as nat);
    } else {
        lemma_above_fewer(rank, rank[a], low, (k - 1) as nat);
    }
}

/// The outputs that one node kind declares, under the name of a node.
pub struct NamedOutputs {
    pub name: String,
    pub fields: Vec<SchemaField>,
}

/// Some entry has this name.
pub open spec fn has_name(all: Seq<NamedOutputs>, name: Seq<char>) -> bool {
    exists|i: int| 0 <= i < all.len() && (#[trigger] all[i]).name@ == name
}

/// No two entries have the same name.
pub open spec fn distinct_names(all: Seq<NamedOutputs>) -> bool {
    forall|i: int, j: int| 0 <= i < j < all.len() ==> all[i].name@ != all[j].name@
}

/// The index of the first entry from `from` on that has this name; the length
/// of the list where none has.
pub open spec fn place_of(all: Seq<NamedOutputs>, name: Seq<char>, from: int) -> int
    decreases all.len() - from,
{
    if from < 0 || from >= all.len() {
        all.len() as int
    } else if all[from].name@ == name {
        from
    } else {
        place_of(all, name, from + 1)
    }
}

/// The list with the outputs under their name: in place of the first entry of
/// that name, at the end where there is none.
pub open spec fn placed(all: Seq<NamedOutputs>, outputs: NamedOutputs) -> Seq<NamedOutputs> {
    if place_of(all, outputs.name@, 0) < all.len() {
        all.update(place_of(all, outputs.name@, 0), outputs)
    } else {
        all.push(outputs)
    }
}

proof fn lemma_place_of(all: Seq<NamedOutputs>, name: Seq<char>, from: int)
    requires
        0 <= from <= all.len(),
    ensures
        from <= place_of(all, name, from) <= all.len(),
        place_of(all, name, from) < all.len() ==> all[place_of(all, name, from)].name@ == name,
        forall|j: int| from <= j < place_of(all, name, from) ==> (#[trigger] all[j]).name@ != name,
    decreases all.len() - from,
{
    if from < all.len() && all[from].name@ != name {
        lemma_place_of(all, name, from + 1);
    }
}

/// What placing keeps: the names that were there are there, the new entry is
/// there, every entry is the new one or one that was there, and names that
/// were distinct are distinct.
pub proof fn lemma_placed(all: Seq<NamedOutputs>, outputs: NamedOutputs)
    ensures
        placed(all, outputs).len() >= 1,
        has_name(placed(all, outputs), outputs.name@),
        forall|name: Seq<char>| has_name(all, name) ==> has_name(placed(all, outputs), name),
        forall|i: int|
            0 <= i < placed(all, outputs).len() ==> (#[trigger] placed(all, outputs)[i]) == outputs
                || (i < all.len() && placed(all, outputs)[i] == all[i]),
        distinct_names(all) ==> distinct_names(placed(all, outputs)),
{
    let after = placed(all, outputs);
    let at = place_of(all, outputs.name@, 0);
    lemma_place_of(all, outputs.name@, 0);
    assert(after[at].name@ == outputs.name@);
    assert forall|name: Seq<char>| has_name(all, name) implies has_name(after, name) by {
        let i = choose|i: int| 0 <= i < all.len() && (#[trigger] all[i]).name@ == name;
        assert(after[i].name@ == name);
    }
    if distinct_names(all) {
        assert forall|i: int, j: int| 0 <= i < j < after.len() implies after[i].name@
            != after[j].name@ by {
            if at < all.len() {
                assert(after[i].name@ == all[i].name@);
                assert(after[j].name@ == all[j].name@);
            } else if j == all.len() {
                assert(all[i].name@ != outputs.name@);
            }
        }
    }
}

/// Puts the outputs under their name, in place of what was there under it.
fn put_outputs(all: &mut Vec<NamedOutputs>, outputs: NamedOutputs)
    ensures
        final(all)@ == placed(old(all)@, outputs),
{
    let mut i: usize = 0;
    while i < all.len()
        invariant
            i <= all@.len(),
            all@ == old(all)@,
            place_of(all@, outputs.name@, 0) == place_of(all@, outputs.name@, i as int),
        decreases all@.len() - i,
    {
        if str_eq(all[i].name.as_str(), outputs.name.as_str()) {
            all.set(i, outputs);
            return ;
        }
        i += 1;
    }
    all.push(outputs);
}

/// A walk of one edge or more leads from `a` to `b`.
pub open spec fn leads(rows: Seq<Seq<usize>>, a: int, b: int) -> bool {
    exists|p: Seq<int>| is_walk(rows, p) && p.len() >= 2 && p[0] == a && #[trigger] p.last() == b
}

/// An edge is a walk.
pub proof fn lemma_edge_leads(rows: Seq<Seq<usize>>, a: int, b: int)
    requires
        has_edge(rows, a, b),
    ensures
        leads(rows, a, b),
{
    let p = seq![a, b];
    assert(is_walk(rows, p));
    assert(p.last() == b);
}

/// A walk goes on along an edge.
pub proof fn lemma_leads_on(rows: Seq<Seq<usize>>, a: int, m: int, b: int)
    requires
        leads(rows, a, m),
        has_edge(rows, m, b),
    ensures
        leads(rows, a, b),
{
    let p = choose|p: Seq<int>|
        is_walk(rows, p) && p.len() >= 2 && p[0] == a && #[trigger] p.last() == m;
    let q = p.push(b);
    assert forall|i: int| 0 <= i < q.len() - 1 implies has_edge(rows, #[trigger] q[i], q[i + 1]) by {
        if i < p.len() - 1 {
            assert(has_edge(rows, p[i], p[i + 1]));
        }
    }
    assert(is_walk(rows, q));
    assert(q.last() == b);
}

/// A walk ends with an edge, before which it is at its beginning or has come
/// there by a walk.
pub proof fn lemma_leads_last(rows: Seq<Seq<usize>>, a: int, b: int) -> (m: int)
    requires
        leads(rows, a, b),
    ensures
        has_edge(rows, m, b),
        m == a || leads(rows, a, m),
{
    let p = choose|p: Seq<int>|
        is_walk(rows, p) && p.len() >= 2 && p[0] == a && #[trigger] p.last() == b;
    let m = p[p.len() - 2];
    assert(has_edge(rows, p[p.len() - 2], p[p.len() - 2 + 1]));
    if p.len() > 2 {
        let q = p.drop_last();
        assert forall|i: int| 0 <= i < q.len() - 1 implies has_edge(rows, #[trigger] q[i], q[i + 1]) by {
            assert(has_edge(rows, p[i], p[i + 1]));
        }
        assert(is_walk(rows, q));
        assert(q.last() == m);
    }
    m
}

/// The inputs of a node as a map; none are an empty list.
pub open spec fn inputs_view(input: Option<Vec<(String, JsonValue)>>) -> Map<Seq<char>, JsonView> {
    match input {
        Some(v) => entries_view(v@),
        None => entries_view(Seq::empty()),
    }
}

impl Graph {
    /// A numbering of the nodes in which every edge leads to a smaller number.
    pub open spec fn ranking(&self) -> Seq<int> {
        choose|rank: Seq<int>| is_ranking(self.rows(), rank)
    }

    /// The node kind of every node before node `node` is registered.
    pub open spec fn predecessors_known<D, F>(&self, bus: &NodeRegisterBus<D, F>, node: int) -> bool {
        forall|a: int, j: int|
            0 <= a < self.nodes@.len() && 0 <= j < self.rows()[a].len() && #[trigger] self.rows()[a][j]
                == node ==> bus.has_node(self.nodes@[a].node_context.action_type@)
    }

    /// The name of node `a`.
    pub open spec fn name_of(&self, a: int) -> Seq<char> {
        self.nodes@[a].node_context.metadata.name@
    }

    /// The kind of node `a` is registered.
    pub open spec fn known<D, F>(&self, bus: &NodeRegisterBus<D, F>, a: int) -> bool {
        bus.has_node(self.nodes@[a].node_context.action_type@)
    }

    /// Whether `o` holds the outputs of node `a`: under the name of the node,
    /// what the kind of the node declares for the inputs of the node.
    pub open spec fn outputs_of<D: NodeDefine, F>(
        &self,
        bus: &NodeRegisterBus<D, F>,
        a: int,
        o: NamedOutputs,
    ) -> bool {
        &&& 0 <= a < self.nodes@.len()
        &&& o.name@ == self.name_of(a)
        &&& self.known(bus, a)
        &&& bus.node_of(self.nodes@[a].node_context.action_type@).declares(
            inputs_view(self.nodes@[a].node_context.input_data),
            fields_view(o.fields@),
        )
    }

    /// Whether `o` holds the outputs of a node that leads to node `node`, over
    /// any number of edges.
    pub open spec fn comes_before<D: NodeDefine, F>(
        &self,
        bus: &NodeRegisterBus<D, F>,
        node: int,
        o: NamedOutputs,
    ) -> bool {
        exists|a: int| leads(self.rows(), a, node) && #[trigger] self.outputs_of(bus, a, o)
    }

    /// Whether `all` holds the outputs of the nodes that lead to node `node`:
    /// no name twice; every entry the outputs of a node that leads there, over
    /// any number of edges; an entry under the name of every node right before
    /// the node; and, where the kinds of all the nodes that lead there are
    /// registered, an entry under the name of each of them.
    pub open spec fn gathered_before<D: NodeDefine, F>(
        &self,
        bus: &NodeRegisterBus<D, F>,
        node: int,
        all: Seq<NamedOutputs>,
    ) -> bool {
        &&& distinct_names(all)
        &&& forall|i: int| 0 <= i < all.len() ==> self.comes_before(bus, node, #[trigger] all[i])
        &&& forall|a: int| #[trigger]
            has_edge(self.rows(), a, node) ==> has_name(all, self.name_of(a))
        &&& self.all_known_before(bus, node) ==> forall|a: int| #[trigger]
            leads(self.rows(), a, node) ==> has_name(all, self.name_of(a))
    }

    /// The kinds of all the nodes that lead to node `node` are registered.
    pub open spec fn all_known_before<D, F>(&self, bus: &NodeRegisterBus<D, F>, node: int) -> bool {
        forall|a: int| #[trigger] leads(self.rows(), a, node) ==> self.known(bus, a)
    }

    /// The outputs of all the nodes that lead to the node with this id, over
    /// any number of edges, each under the name of its node. Nothing where no
    /// node has this id.
    ///
    /// An error where the kind of a node right before the node is not
    /// registered. Further back, a node whose kind is not registered is left
    /// out, with the nodes that are met on the same walk behind it.
    pub fn node_params_from_ctx<D: NodeDefine, F>(&self, id: &str, bus: &NodeRegisterBus<D, F>) -> (r:
        Result<Vec<NamedOutputs>, String>)
        requires
            self.wf(),
        ensures
            (forall|i: int| 0 <= i < self.nodes@.len() ==> self.nodes@[i].node_id@ != id@) ==> (
            r matches Ok(all) && all@.len() == 0),
            forall|i: int|
                0 <= i < self.nodes@.len() && self.nodes@[i].node_id@ == id@ ==> (r is Ok
                    <==> self.predecessors_known(bus, i)) && (r matches Ok(all)
                    ==> self.gathered_before(bus, i, all@)),
    {
        match self.find(id) {
            None => Ok(Vec::new()),
            Some(i) => {
                proof {
                    assert forall|k: int|
                        0 <= k < self.nodes@.len() && self.nodes@[k].node_id@ == id@ implies k
                        == i by {
                        if k < i {
                        } else if i < k {
                            assert(self.nodes@[i as int].node_id@ != self.nodes@[k].node_id@);
                        }
                    }
                }
                get_prev_node_outputs(self, bus, i)
            },
        }
    }
}

/// The outputs of all the nodes that lead to node `node`, over any number of
/// edges, each under the name of its node.
pub fn get_prev_node_outputs<D: NodeDefine, F>(
    graph: &Graph,
    bus: &NodeRegisterBus<D, F>,
    node: usize,
) -> (r: Result<Vec<NamedOutputs>, String>)
    requires
        graph.wf(),
        node < graph.nodes@.len(),
    ensures
        r is Ok <==> graph.predecessors_known(bus, node as int),
        r matches Ok(all) ==> (all@.len() == 0 <==> graph.nodes@[node as int].prev@.len() == 0),
        r matches Ok(all) ==> graph.gathered_before(bus, node as int, all@),
    decreases above(graph.ranking(), graph.ranking()[node as int], graph.nodes@.len()),
{
    let ghost n = graph.nodes@.len();
    let ghost rank = graph.ranking();
    let ghost rows = graph.rows();
    let ghost ids = graph.ids();
    let ghost all_known = graph.all_known_before(bus, node as int);
    let prev = &graph.nodes[node].prev;
    let mut params: Vec<NamedOutputs> = Vec::new();
    let mut k: usize = 0;
    proof {
        assert(is_ranking(rows, rank));
        lemma_sources_len(rows, ids, node as int, n);
    }
    while k < prev.len()
        invariant
            k <= prev@.len(),
            graph.wf(),
            node < graph.nodes@.len(),
            n == graph.nodes@.len(),
            rank == graph.ranking(),
            rows == graph.rows(),
            ids == graph.ids(),
            all_known == graph.all_known_before(bus, node as int),
            is_ranking(rows, rank),
            prev == &graph.nodes@[node as int].prev,
            string_views(prev@) == sources(rows, ids, node as int, n),
            k > 0 ==> params@.len() > 0,
            k == 0 ==> params@.len() == 0,
            forall|x: int|
                0 <= x < k ==> bus.has_node(
                    graph.nodes@[source_of(*graph, #[trigger] prev@[x]@)].node_context.action_type@,
                ),
            distinct_names(params@),
            forall|i: int|
                0 <= i < params@.len() ==> graph.comes_before(bus, node as int, #[trigger] params@[i]),
            forall|x: int|
                0 <= x < k ==> has_name(
                    params@,
                    graph.name_of(source_of(*graph, #[trigger] prev@[x]@)),
                ),
            all_known ==> forall|x: int, b: int|
                0 <= x < k && #[trigger] leads(rows, b, source_of(*graph, #[trigger] prev@[x]@))
                    ==> has_name(params@, graph.name_of(b)),
        decreases prev@.len() - k,
    {
        let ghost id = prev@[k as int]@;
        proof {
            assert(string_views(prev@)[k as int] == id);
            assert(sources(rows, ids, node as int, n).contains(id));
            lemma_sources_member(rows, ids, node as int, n, id);
            let (s, i) = choose|s: int, i: int|
                0 <= s < n && 0 <= i < rows[s].len() && #[trigger] rows[s][i] == node && ids[s]
                    == id;
            assert(graph.nodes@[s].node_id@ == id);
            lemma_source_of(*graph, s);
            assert(rank[rows[s][i] as int] < rank[s]);
            lemma_above_less(rank, s, rank[node as int], n);
            assert(has_edge(rows, s, node as int));
        }
        let a = match graph.find(prev[k].as_str()) {
            Some(a) => a,
            None => {
                // Cannot happen: what a node records as a predecessor is the id of
                // a node.
                proof {
                    assert(false);
                }
                let mut message = String::new();
                message.push_str("connection references missing node '");
                message.push_str(prev[k].as_str());
                message.push_str("'");
                return Err(message);
            },
        };
        assert(a == source_of(*graph, id));
        assert(has_edge(rows, a as int, node as int));
        let schema = &graph.nodes[a].node_context;
        let define = match bus.load_node(schema.action_type.as_str()) {
            Some(define) => define,
            None => {
                let mut message = String::new();
                message.push_str("Node ");
                message.push_str(schema.action_type.as_str());
                message.push_str(" not found");
                proof {
                    let (s, i) = choose|s: int, i: int|
                        0 <= s < n && 0 <= i < rows[s].len() && #[trigger] rows[s][i] == node
                            && ids[s] == id;
                    lemma_source_of(*graph, s);
                    assert(!graph.predecessors_known(bus, node as int));
                }
                return Err(message);
            },
        };
        let fields = match &schema.input_data {
            Some(input) => define.output_schema(input),
            None => {
                let input: Vec<(String, JsonValue)> = Vec::new();
                define.output_schema(&input)
            },
        };
        let own = NamedOutputs { name: schema.metadata.name.clone(), fields };
        let ghost at_first = params@;
        proof {
            lemma_edge_leads(rows, a as int, node as int);
            assert(graph.outputs_of(bus, a as int, own));
            lemma_placed(at_first, own);
        }
        put_outputs(&mut params, own);
        let ghost with_own = params@;
        proof {
            assert forall|i: int| 0 <= i < with_own.len() implies graph.comes_before(
                bus,
                node as int,
                #[trigger] with_own[i],
            ) by {
                if with_own[i] == own {
                    assert(leads(rows, a as int, node as int) && graph.outputs_of(
                        bus,
                        a as int,
                        with_own[i],
                    ));
                } else {
                    assert(with_own[i] == at_first[i]);
                }
            }
        }
        let found = get_prev_node_outputs(graph, bus, a);
        let ghost known_here = found is Ok;
        let ghost brought: Seq<NamedOutputs> = match &found {
            Ok(f) => f@,
            Err(_) => Seq::empty(),
        };
        if let Ok(mut further) = found {
            let ghost mut moved: nat = 0;
            while further.len() > 0
                invariant
                    params@.len() > 0,
                    moved <= brought.len(),
                    further@ == brought.skip(moved as int),
                    graph.gathered_before(bus, a as int, brought),
                    has_edge(rows, a as int, node as int),
                    rows == graph.rows(),
                    distinct_names(params@),
                    forall|i: int|
                        0 <= i < params@.len() ==> graph.comes_before(
                            bus,
                            node as int,
                            #[trigger] params@[i],
                        ),
                    forall|name: Seq<char>| has_name(with_own, name) ==> has_name(params@, name),
                    forall|j: int|
                        0 <= j < moved ==> has_name(params@, (#[trigger] brought[j]).name@),
                decreases further@.len(),
            {
                let ghost so_far = params@;
                let outputs = further.remove(0);
                proof {
                    assert(outputs == brought[moved as int]);
                    assert(further@ =~= brought.skip(moved as int + 1));
                    lemma_placed(so_far, outputs);
                    assert(graph.comes_before(bus, a as int, brought[moved as int]));
                    let b = choose|b: int|
                        leads(rows, b, a as int) && #[trigger] graph.outputs_of(
                            bus,
                            b,
                            brought[moved as int],
                        );
                    lemma_leads_on(rows, b, a as int, node as int);
                    assert forall|i: int|
                        0 <= i < placed(so_far, outputs).len() implies graph.comes_before(
                        bus,
                        node as int,
                        #[trigger] placed(so_far, outputs)[i],
                    ) by {
                        if placed(so_far, outputs)[i] == outputs {
                            assert(leads(rows, b, node as int) && graph.outputs_of(
                                bus,
                                b,
                                placed(so_far, outputs)[i],
                            ));
                        } else {
                            assert(placed(so_far, outputs)[i] == so_far[i]);
                        }
                    }
                    moved = moved + 1;
                }
                put_outputs(&mut params, outputs);
            }
        }
        proof {
            // The names of the nodes seen so far are still there.
            assert forall|x: int| 0 <= x < k + 1 implies has_name(
                params@,
                graph.name_of(source_of(*graph, #[trigger] prev@[x]@)),
            ) by {
                if x < k {
                    assert(has_name(at_first, graph.name_of(source_of(*graph, prev@[x]@))));
                }
            }
            if all_known {
                assert(graph.all_known_before(bus, node as int));
                assert forall|c: int, j: int|
                    0 <= c < n && 0 <= j < rows[c].len() && #[trigger] rows[c][j]
                        == a implies graph.known(bus, c) by {
                    assert(has_edge(rows, c, a as int));
                    lemma_edge_leads(rows, c, a as int);
                    lemma_leads_on(rows, c, a as int, node as int);
                }
                assert(graph.predecessors_known(bus, a as int));
                assert(known_here);
                assert forall|b: int| #[trigger] leads(rows, b, a as int) implies graph.known(
                    bus,
                    b,
                ) by {
                    lemma_leads_on(rows, b, a as int, node as int);
                }
                assert(graph.all_known_before(bus, a as int));
                assert forall|x: int, b: int|
                    0 <= x < k + 1 && #[trigger] leads(
                        rows,
                        b,
                        source_of(*graph, #[trigger] prev@[x]@),
                    ) implies has_name(params@, graph.name_of(b)) by {
                    if x < k {
                        assert(has_name(at_first, graph.name_of(b)));
                    } else {
                        assert(has_name(brought, graph.name_of(b)));
                        let j = choose|j: int|
                            0 <= j < brought.len() && (#[trigger] brought[j]).name@
                                == graph.name_of(b);
                        assert(has_name(params@, brought[j].name@));
                    }
                }
            }
        }
        k += 1;
    }
    proof {
        assert forall|a: int, j: int|
            0 <= a < n && 0 <= j < rows[a].len() && #[trigger] rows[a][j] == node implies bus.has_node(
            graph.nodes@[a].node_context.action_type@,
        ) by {
            let id = ids[a];
            lemma_sources_member(rows, ids, node as int, n, id);
            assert(string_views(prev@).contains(id));
            let x = choose|x: int| 0 <= x < string_views(prev@).len() && string_views(prev@)[x] == id;
            assert(prev@[x]@ == id);
            lemma_source_of(*graph, a);
        }
        assert forall|a: int| #[trigger] has_edge(rows, a, node as int) implies has_name(
            params@,
            graph.name_of(a),
        ) by {
            lemma_direct_listed(*graph, a, node as int);
            let x = choose|x: int|
                0 <= x < prev@.len() && source_of(*graph, (#[trigger] prev@[x])@) == a;
            assert(has_name(params@, graph.name_of(source_of(*graph, prev@[x]@))));
        }
        if all_known {
            assert forall|b: int| #[trigger] leads(rows, b, node as int) implies has_name(
                params@,
                graph.name_of(b),
            ) by {
                let m = lemma_leads_last(rows, b, node as int);
                lemma_direct_listed(*graph, m, node as int);
                let x = choose|x: int|
                    0 <= x < prev@.len() && source_of(*graph, (#[trigger] prev@[x])@) == m;
                if m == b {
                    assert(has_name(params@, graph.name_of(source_of(*graph, prev@[x]@))));
                } else {
                    assert(leads(rows, b, source_of(*graph, prev@[x]@)));
                }
            }
        }
    }
    Ok(params)
}

/// A node right before another is one of those that the other lists as its
/// predecessors.
proof fn lemma_direct_listed(g: Graph, a: int, node: int)
    requires
        g.wf(),
        0 <= node < g.nodes@.len(),
        has_edge(g.rows(), a, node),
    ensures
        exists|x: int|
            0 <= x < g.nodes@[node].prev@.len() && source_of(g, (#[trigger] g.nodes@[node].prev@[x])@)
                == a,
{
    let rows = g.rows();
    let ids = g.ids();
    let n = g.nodes@.len();
    let prev = g.nodes@[node].prev@;
    let id = ids[a];
    lemma_sources_member(rows, ids, node, n, id);
    assert(string_views(prev).contains(id));
    let x = choose|x: int| 0 <= x < string_views(prev).len() && string_views(prev)[x] == id;
    assert(prev[x]@ == id);
    lemma_source_of(g, a);
}

/// The index of the node with this id.
pub open spec fn source_of(g: Graph, id: Seq<char>) -> int {
    choose|a: int| 0 <= a < g.nodes@.len() && g.nodes@[a].node_id@ == id
}

proof fn lemma_source_of(g: Graph, a: int)
    requires
        g.wf(),
        0 <= a < g.nodes@.len(),
    ensures
        source_of(g, g.nodes@[a].node_id@) == a,
{
    let c = source_of(g, g.nodes@[a].node_id@);
    if c < a {
        assert(g.nodes@[c].node_id@ != g.nodes@[a].node_id@);
    } else if a < c {
        assert(g.nodes@[a].node_id@ != g.nodes@[c].node_id@);
    }
}

} // verus!
