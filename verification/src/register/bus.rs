//! The registry of node kinds and of the factories of their runners, each kept
//! by action type. A later registration under a key replaces an earlier one.

use vstd::prelude::*;
use crate::json::{JsonValue, JsonView};
use crate::node::data_aggregator::node::DataAggregatorNode;
use crate::node::image_match::node::ImageMatchNode;
use crate::node::keyboard::node::KeyboardNode;
use crate::node::mouse_click::node::MouseClickNode;
use crate::node::mouse_move::node::MouseMoveNode;
use crate::node::start::node::StartNode;
use crate::node::time_wait::node::TimeWaitNode;
use crate::text::str_eq;
use crate::store::entries_view;
use crate::types::field::{fields_view, FieldView, SchemaField};
use crate::types::node::{i18n_option_view, I18nValue, I18nView, NodeDefine, NodeRunnerFactory};

verus! {

/// Some entry has this key.
pub open spec fn has_key<T>(entries: Seq<(String, T)>, key: Seq<char>) -> bool {
    exists|i: int| 0 <= i < entries.len() && #[trigger] entries[i].0@ == key
}

/// `i` is the index of the last entry with this key.
pub open spec fn is_last<T>(entries: Seq<(String, T)>, key: Seq<char>, i: int) -> bool {
    &&& 0 <= i < entries.len()
    &&& entries[i].0@ == key
    &&& forall|j: int| i < j < entries.len() ==> #[trigger] entries[j].0@ != key
}

/// The value of the last entry with this key.
pub open spec fn value_of<T>(entries: Seq<(String, T)>, key: Seq<char>) -> T {
    entries[choose|i: int| is_last(entries, key, i)].1
}

proof fn lemma_last_unique<T>(entries: Seq<(String, T)>, key: Seq<char>, i: int)
    requires
        is_last(entries, key, i),
    ensures
        has_key(entries, key),
        value_of(entries, key) == entries[i].1,
{
    let c = choose|c: int| is_last(entries, key, c);
    if c < i {
        assert(entries[i].0@ != key);
    } else if i < c {
        assert(entries[c].0@ != key);
    }
}

/// Index of the last entry with this key.
fn find_key<T>(entries: &Vec<(String, T)>, key: &str) -> (r: Option<usize>)
    ensures
        match r {
            Some(i) => is_last(entries@, key@, i as int) && has_key(entries@, key@)
                && value_of(entries@, key@) == entries@[i as int].1,
            None => !has_key(entries@, key@),
        },
{
    let mut i: usize = entries.len();
    while i > 0
        invariant
            i <= entries@.len(),
            forall|j: int| i <= j < entries@.len() ==> #[trigger] entries@[j].0@ != key@,
        decreases i,
    {
        i -= 1;
        if str_eq(entries[i].0.as_str(), key) {
            proof {
                lemma_last_unique(entries@, key@, i as int);
            }
            return Some(i);
        }
    }
    None
}

/// Puts `value` under `key`, in place of what was there.
fn put_key<T>(entries: &mut Vec<(String, T)>, key: String, value: T)
    ensures
        forall|k: Seq<char>|
            has_key(final(entries)@, k) == (has_key(old(entries)@, k) || k == key@),
        value_of(final(entries)@, key@) == value,
        forall|k: Seq<char>|
            k != key@ && has_key(old(entries)@, k) ==> value_of(final(entries)@, k) == value_of(
                old(entries)@,
                k,
            ),
{
    let ghost before = entries@;
    let ghost name = key@;
    match find_key(entries, key.as_str()) {
        Some(i) => {
            entries.set(i, (key, value));
            proof {
                let after = entries@;
                assert(is_last(after, name, i as int));
                lemma_last_unique(after, name, i as int);
                assert forall|k: Seq<char>| has_key(after, k) == (has_key(before, k) || k
                    == name) by {
                    if has_key(after, k) {
                        let j = choose|j: int| 0 <= j < after.len() && #[trigger] after[j].0@ == k;
                        if j != i {
                            assert(before[j].0@ == k);
                        }
                    }
                    if has_key(before, k) {
                        let j = choose|j: int| 0 <= j < before.len() && #[trigger] before[j].0@ == k;
                        assert(after[j].0@ == k);
                    }
                }
                assert forall|k: Seq<char>| k != name && has_key(before, k) implies value_of(
                    after,
                    k,
                ) == value_of(before, k) by {
                    lemma_has_last(before, k);
                    let j = choose|j: int| is_last(before, k, j);
                    lemma_last_unique(before, k, j);
                    assert(after[j] == before[j]);
                    assert(is_last(after, k, j)) by {
                        assert forall|x: int| j < x < after.len() implies #[trigger] after[x].0@
                            != k by {
                            if x != i {
                                assert(after[x] == before[x]);
                            }
                        }
                    }
                    lemma_last_unique(after, k, j);
                }
            }
        },
        None => {
            entries.push((key, value));
            proof {
                let after = entries@;
                let i = before.len() as int;
                assert(is_last(after, name, i));
                lemma_last_unique(after, name, i);
                assert forall|k: Seq<char>| has_key(after, k) == (has_key(before, k) || k
                    == name) by {
                    if has_key(after, k) {
                        let j = choose|j: int| 0 <= j < after.len() && #[trigger] after[j].0@ == k;
                        if j != i {
                            assert(before[j].0@ == k);
                        }
                    }
                    if has_key(before, k) {
                        let j = choose|j: int| 0 <= j < before.len() && #[trigger] before[j].0@ == k;
                        assert(after[j].0@ == k);
                    }
                }
                assert forall|k: Seq<char>| k != name && has_key(before, k) implies value_of(
                    after,
                    k,
                ) == value_of(before, k) by {
                    lemma_has_last(before, k);
                    let j = choose|j: int| is_last(before, k, j);
                    lemma_last_unique(before, k, j);
                    assert(after[j] == before[j]);
                    assert(is_last(after, k, j)) by {
                        assert forall|x: int| j < x < after.len() implies #[trigger] after[x].0@
                            != k by {
                            if x != i {
                                assert(after[x] == before[x]);
                            }
                        }
                    }
                    lemma_last_unique(after, k, j);
                }
            }
        },
    }
}

/// The keys of the first `n` entries that are the last of their key, in order.
pub open spec fn last_keys<T>(entries: Seq<(String, T)>, n: nat) -> Seq<Seq<char>>
    decreases n,
{
    if n == 0 || n > entries.len() {
        Seq::empty()
    } else if is_last(entries, entries[n - 1].0@, n - 1) {
        last_keys(entries, (n - 1) as nat).push(entries[n - 1].0@)
    } else {
        last_keys(entries, (n - 1) as nat)
    }
}

/// Each of the keys is the key of an entry among the first `n` that is the
/// last of its key, and none stands among them twice.
proof fn lemma_last_keys<T>(entries: Seq<(String, T)>, n: nat)
    requires
        n <= entries.len(),
    ensures
        last_keys(entries, n).no_duplicates(),
        forall|k: Seq<char>|
            last_keys(entries, n).contains(k) ==> exists|j: int|
                0 <= j < n && is_last(entries, k, j),
        forall|k: Seq<char>| last_keys(entries, n).contains(k) ==> has_key(entries, k),
    decreases n,
{
    if n > 0 {
        lemma_last_keys(entries, (n - 1) as nat);
        let rest = last_keys(entries, (n - 1) as nat);
        let key = entries[n - 1].0@;
        if is_last(entries, key, n - 1) {
            if rest.contains(key) {
                let j = choose|j: int| 0 <= j < n - 1 && is_last(entries, key, j);
                assert(entries[n - 1].0@ != key);
            }
            assert forall|k: Seq<char>| rest.push(key).contains(k) implies exists|j: int|
                0 <= j < n && is_last(entries, k, j) by {
                let x = choose|x: int| 0 <= x < rest.push(key).len() && rest.push(key)[x] == k;
                if x < rest.len() {
                    assert(rest[x] == k);
                    assert(rest.contains(k));
                    let j = choose|j: int| 0 <= j < n - 1 && is_last(entries, k, j);
                    assert(0 <= j < n && is_last(entries, k, j));
                } else {
                    assert(is_last(entries, k, n - 1));
                }
            }
            assert forall|a: int, b: int|
                0 <= a < rest.push(key).len() && 0 <= b < rest.push(key).len() && a
                    != b implies rest.push(key)[a] != rest.push(key)[b] by {
                if a < rest.len() && b < rest.len() {
                } else if a < rest.len() {
                    assert(rest.contains(rest[a]));
                } else {
                    assert(rest.contains(rest[b]));
                }
            }
        }
        assert forall|k: Seq<char>| last_keys(entries, n).contains(k) implies has_key(
            entries,
            k,
        ) by {
            let j = choose|j: int| 0 <= j < n && is_last(entries, k, j);
            assert(entries[j].0@ == k);
        }
    }
}

/// The key of an entry that is the last of its key is among the keys of the
/// entries up to it.
proof fn lemma_last_keys_hold<T>(entries: Seq<(String, T)>, n: nat, j: int)
    requires
        n <= entries.len(),
        0 <= j < n,
        is_last(entries, entries[j].0@, j),
    ensures
        last_keys(entries, n).contains(entries[j].0@),
    decreases n,
{
    let rest = last_keys(entries, (n - 1) as nat);
    if j == n - 1 {
        assert(rest.push(entries[j].0@)[rest.len() as int] == entries[j].0@);
    } else {
        lemma_last_keys_hold(entries, (n - 1) as nat, j);
        let x = choose|x: int| 0 <= x < rest.len() && rest[x] == entries[j].0@;
        if is_last(entries, entries[n - 1].0@, n - 1) {
            assert(rest.push(entries[n - 1].0@)[x] == entries[j].0@);
        }
    }
}

proof fn lemma_has_last<T>(entries: Seq<(String, T)>, key: Seq<char>)
    requires
        has_key(entries, key),
    ensures
        exists|i: int| is_last(entries, key, i),
    decreases entries.len(),
{
    let n = entries.len() as int;
    if entries[n - 1].0@ == key {
        assert(is_last(entries, key, n - 1));
    } else {
        let shorter = entries.drop_last();
        let j = choose|j: int| 0 <= j < entries.len() && #[trigger] entries[j].0@ == key;
        assert(shorter[j].0@ == key);
        lemma_has_last(shorter, key);
        let i = choose|i: int| is_last(shorter, key, i);
        assert(is_last(entries, key, i)) by {
            assert forall|x: int| i < x < entries.len() implies #[trigger] entries[x].0@ != key by {
                if x < n - 1 {
                    assert(shorter[x].0@ != key);
                }
            }
        }
    }
}

/// Node kinds and runner factories by action type.
pub struct NodeRegisterBus<D, F> {
    nodes: Vec<(String, D)>,
    runner_factories: Vec<(String, F)>,
}

impl<D, F> NodeRegisterBus<D, F> {
    /// A node kind is registered under this action type.
    pub closed spec fn has_node(&self, action_type: Seq<char>) -> bool {
        has_key(self.nodes@, action_type)
    }

    /// The node kind that is registered under this action type.
    pub closed spec fn node_of(&self, action_type: Seq<char>) -> D {
        value_of(self.nodes@, action_type)
    }

    /// A runner factory is registered under this action type.
    pub closed spec fn has_runner(&self, action_type: Seq<char>) -> bool {
        has_key(self.runner_factories@, action_type)
    }

    /// The runner factory that is registered under this action type.
    pub closed spec fn runner_of(&self, action_type: Seq<char>) -> F {
        value_of(self.runner_factories@, action_type)
    }

    /// An empty registry.
    pub fn new() -> (r: Self)
        ensures
            forall|k: Seq<char>| !r.has_node(k) && !r.has_runner(k),
    {
        Self { nodes: Vec::new(), runner_factories: Vec::new() }
    }

    /// Registers a runner factory under an action type.
    pub fn register_runner(&mut self, action_type: String, factory: F)
        ensures
            forall|k: Seq<char>|
                #![trigger final(self).has_runner(k)]
                final(self).has_runner(k) == (old(self).has_runner(k) || k == action_type@),
            final(self).runner_of(action_type@) == factory,
            forall|k: Seq<char>|
                #![trigger final(self).runner_of(k)]
                k != action_type@ && old(self).has_runner(k) ==> final(self).runner_of(k) == old(
                    self,
                ).runner_of(k),
            forall|k: Seq<char>|
                #![trigger final(self).has_node(k)]
                final(self).has_node(k) == old(self).has_node(k),
            forall|k: Seq<char>|
                #![trigger final(self).node_of(k)]
                final(self).node_of(k) == old(self).node_of(k),
    {
        put_key(&mut self.runner_factories, action_type, factory);
    }

    /// Registers a node kind under an action type.
    pub fn register_node(&mut self, action_type: String, node: D)
        ensures
            forall|k: Seq<char>|
                #![trigger final(self).has_node(k)]
                final(self).has_node(k) == (old(self).has_node(k) || k == action_type@),
            final(self).node_of(action_type@) == node,
            forall|k: Seq<char>|
                #![trigger final(self).node_of(k)]
                k != action_type@ && old(self).has_node(k) ==> final(self).node_of(k) == old(
                    self,
                ).node_of(k),
            forall|k: Seq<char>|
                #![trigger final(self).has_runner(k)]
                final(self).has_runner(k) == old(self).has_runner(k),
            forall|k: Seq<char>|
                #![trigger final(self).runner_of(k)]
                final(self).runner_of(k) == old(self).runner_of(k),
    {
        put_key(&mut self.nodes, action_type, node);
    }

    /// The node kind is registered under some action type.
    pub closed spec fn lists(&self, node: D) -> bool {
        exists|k: Seq<char>| has_key(self.nodes@, k) && #[trigger] value_of(self.nodes@, k) == node
    }

    /// A node kind is listed exactly if it is registered under some action type.
    pub proof fn lemma_lists(&self, node: D)
        ensures
            self.lists(node) <==> exists|k: Seq<char>|
                self.has_node(k) && #[trigger] self.node_of(k) == node,
    {
        if self.lists(node) {
            let k = choose|k: Seq<char>|
                has_key(self.nodes@, k) && #[trigger] value_of(self.nodes@, k) == node;
            assert(self.has_node(k) && self.node_of(k) == node);
        }
        if exists|k: Seq<char>| self.has_node(k) && #[trigger] self.node_of(k) == node {
            let k = choose|k: Seq<char>| self.has_node(k) && #[trigger] self.node_of(k) == node;
            assert(has_key(self.nodes@, k) && value_of(self.nodes@, k) == node);
        }
    }

    /// The action types under which a node kind is registered, each once, in
    /// the order in which the kinds are listed.
    pub closed spec fn kinds(&self) -> Seq<Seq<char>> {
        last_keys(self.nodes@, self.nodes@.len())
    }

    /// An action type is among the kinds exactly if a node kind is registered
    /// under it, and no action type is among them twice.
    pub proof fn lemma_kinds(&self)
        ensures
            self.kinds().no_duplicates(),
            forall|k: Seq<char>| self.kinds().contains(k) <==> self.has_node(k),
    {
        lemma_last_keys(self.nodes@, self.nodes@.len());
        assert forall|k: Seq<char>| self.has_node(k) implies self.kinds().contains(k) by {
            lemma_has_last(self.nodes@, k);
            let j = choose|j: int| is_last(self.nodes@, k, j);
            lemma_last_keys_hold(self.nodes@, self.nodes@.len(), j);
        }
    }

    /// The node kinds that are registered: one entry for each action type under
    /// which a kind is registered, which is the kind that is registered there.
    pub fn list_nodes(&self) -> (r: Vec<&D>)
        ensures
            r@.len() == self.kinds().len(),
            forall|i: int| 0 <= i < r@.len() ==> *(#[trigger] r@[i]) == self.node_of(self.kinds()[i]),
            forall|i: int| 0 <= i < r@.len() ==> self.lists(*(#[trigger] r@[i])),
            forall|k: Seq<char>|
                self.has_node(k) ==> exists|i: int|
                    0 <= i < r@.len() && *(#[trigger] r@[i]) == self.node_of(k),
    {
        let mut res: Vec<&D> = Vec::new();
        let n = self.nodes.len();
        let mut i: usize = 0;
        while i < n
            invariant
                i <= n,
                n == self.nodes@.len(),
                res@.len() == last_keys(self.nodes@, i as nat).len(),
                forall|x: int|
                    0 <= x < res@.len() ==> *(#[trigger] res@[x]) == value_of(
                        self.nodes@,
                        last_keys(self.nodes@, i as nat)[x],
                    ),
            decreases n - i,
        {
            let found = find_key(&self.nodes, self.nodes[i].0.as_str());
            let ghost before = res@;
            if let Some(last) = found {
                if last == i {
                    res.push(&self.nodes[i].1);
                }
            }
            proof {
                let key = self.nodes@[i as int].0@;
                let j = found->0 as int;
                if j != i {
                    assert(!is_last(self.nodes@, key, i as int));
                }
                assert forall|x: int| 0 <= x < res@.len() implies *(#[trigger] res@[x])
                    == value_of(self.nodes@, last_keys(self.nodes@, (i + 1) as nat)[x]) by {
                    if x < before.len() {
                        assert(res@[x] == before[x]);
                    }
                }
            }
            i += 1;
        }
        proof {
            self.lemma_kinds();
            assert forall|x: int| 0 <= x < res@.len() implies self.lists(*(#[trigger] res@[x])) by {
                let k = self.kinds()[x];
                assert(self.kinds().contains(k));
                assert(self.has_node(k));
                assert(*res@[x] == value_of(self.nodes@, last_keys(self.nodes@, n as nat)[x]));
                assert(has_key(self.nodes@, k) && value_of(self.nodes@, k) == *res@[x]);
            }
            assert forall|k: Seq<char>| self.has_node(k) implies exists|x: int|
                0 <= x < res@.len() && *(#[trigger] res@[x]) == self.node_of(k) by {
                assert(self.kinds().contains(k));
                let x = choose|x: int| 0 <= x < self.kinds().len() && self.kinds()[x] == k;
                assert(*res@[x] == self.node_of(k));
            }
        }
        res
    }

    /// The node kind that is registered under an action type.
    pub fn load_node(&self, action_type: &str) -> (r: Option<&D>)
        ensures
            match r {
                Some(d) => self.has_node(action_type@) && *d == self.node_of(action_type@),
                None => !self.has_node(action_type@),
            },
    {
        match find_key(&self.nodes, action_type) {
            Some(i) => Some(&self.nodes[i].1),
            None => None,
        }
    }

    /// The runner factory that is registered under an action type.
    pub fn load_runner_factory(&self, key: &str) -> (r: Option<&F>)
        ensures
            match r {
                Some(f) => self.has_runner(key@) && *f == self.runner_of(key@),
                None => !self.has_runner(key@),
            },
    {
        match find_key(&self.runner_factories, key) {
            Some(i) => Some(&self.runner_factories[i].1),
            None => None,
        }
    }

    /// Whether a node kind and a runner factory are registered under `key`.
    pub fn is_registered(&self, key: &str) -> (r: bool)
        ensures
            r == (self.has_node(key@) && self.has_runner(key@)),
    {
        self.load_node(key).is_some() && self.load_runner_factory(key).is_some()
    }
}

impl<D: NodeDefine, F> NodeRegisterBus<D, F> {
    /// Registers a node kind and the factory of its runners, both under the
    /// action type that the node kind gives itself.
    pub fn register(&mut self, node: D, factory: F) -> (key: String)
        ensures
            node.names(key@),
            forall|k: Seq<char>| final(self).has_node(k) == (old(self).has_node(k) || k == key@),
            forall|k: Seq<char>|
                final(self).has_runner(k) == (old(self).has_runner(k) || k == key@),
            final(self).node_of(key@) == node,
            final(self).runner_of(key@) == factory,
            forall|k: Seq<char>|
                k != key@ && old(self).has_node(k) ==> final(self).node_of(k) == old(self).node_of(
                    k,
                ),
            forall|k: Seq<char>|
                k != key@ && old(self).has_runner(k) ==> final(self).runner_of(k) == old(
                    self,
                ).runner_of(k),
    {
        let key = node.action_type();
        put_key(&mut self.nodes, key.clone(), node);
        put_key(&mut self.runner_factories, key.clone(), factory);
        key
    }
}

impl<D, F: NodeRunnerFactory> NodeRegisterBus<D, F> {
    /// A new runner of the node kind that is registered under `key`, made by
    /// the factory that is registered there; none where no factory is.
    pub fn create_runner(&self, key: &str) -> (r: Option<F::Runner>)
        ensures
            match r {
                Some(runner) => self.has_runner(key@) && self.runner_of(key@).makes(runner),
                None => !self.has_runner(key@),
            },
    {
        match self.load_runner_factory(key) {
            Some(factory) => Some(factory.create()),
            None => None,
        }
    }
}

/// One of the node kinds that the engine brings along.
pub enum BuiltinNode {
    Start(StartNode),
    MouseMove(MouseMoveNode),
    MouseClick(MouseClickNode),
    Keyboard(KeyboardNode),
    ImageMatch(ImageMatchNode),
    TimeWait(TimeWaitNode),
    DataAggregator(DataAggregatorNode),
}

impl BuiltinNode {
    /// The action type of the node kind.
    pub open spec fn action_type_text(&self) -> Seq<char> {
        match self {
            BuiltinNode::Start(_) => "Start"@,
            BuiltinNode::MouseMove(_) => "MouseMove"@,
            BuiltinNode::MouseClick(_) => "MouseClick"@,
            BuiltinNode::Keyboard(_) => "KeyBoard"@,
            BuiltinNode::ImageMatch(_) => "ImageMatch"@,
            BuiltinNode::TimeWait(_) => "TimeWait"@,
            BuiltinNode::DataAggregator(_) => "DataAggregator"@,
        }
    }

    /// The name of the node kind.
    pub open spec fn name_text(&self) -> I18nView {
        match self {
            BuiltinNode::Start(_) => crate::node::start::node::name_text(),
            BuiltinNode::MouseMove(_) => crate::node::mouse_move::node::name_text(),
            BuiltinNode::MouseClick(_) => crate::node::mouse_click::node::name_text(),
            BuiltinNode::Keyboard(_) => crate::node::keyboard::node::name_text(),
            BuiltinNode::ImageMatch(_) => crate::node::image_match::node::name_text(),
            BuiltinNode::TimeWait(_) => crate::node::time_wait::node::name_text(),
            BuiltinNode::DataAggregator(_) => crate::node::data_aggregator::node::name_text(),
        }
    }

    /// The icon of the node kind.
    pub open spec fn icon_text(&self) -> Seq<char> {
        match self {
            BuiltinNode::Start(_) => crate::node::start::node::ICON@,
            BuiltinNode::MouseMove(_) => crate::node::mouse_move::node::ICON@,
            BuiltinNode::MouseClick(_) => crate::node::mouse_click::node::ICON@,
            BuiltinNode::Keyboard(_) => crate::node::keyboard::node::ICON@,
            BuiltinNode::ImageMatch(_) => crate::node::image_match::node::ICON@,
            BuiltinNode::TimeWait(_) => crate::node::time_wait::node::ICON@,
            BuiltinNode::DataAggregator(_) => crate::node::data_aggregator::node::ICON@,
        }
    }

    /// The category of the node kind.
    pub open spec fn category_text(&self) -> Option<I18nView> {
        match self {
            BuiltinNode::Start(_) => crate::node::start::node::category_text(),
            BuiltinNode::MouseMove(_) => crate::node::mouse_move::node::category_text(),
            BuiltinNode::MouseClick(_) => crate::node::mouse_click::node::category_text(),
            BuiltinNode::Keyboard(_) => crate::node::keyboard::node::category_text(),
            BuiltinNode::ImageMatch(_) => crate::node::image_match::node::category_text(),
            BuiltinNode::TimeWait(_) => crate::node::time_wait::node::category_text(),
            BuiltinNode::DataAggregator(_) => crate::node::data_aggregator::node::category_text(),
        }
    }

    /// The description of the node kind.
    pub open spec fn description_text(&self) -> Option<I18nView> {
        match self {
            BuiltinNode::Start(_) => crate::node::start::node::description_text(),
            BuiltinNode::MouseMove(_) => crate::node::mouse_move::node::description_text(),
            BuiltinNode::MouseClick(_) => crate::node::mouse_click::node::description_text(),
            BuiltinNode::Keyboard(_) => crate::node::keyboard::node::description_text(),
            BuiltinNode::ImageMatch(_) => crate::node::image_match::node::description_text(),
            BuiltinNode::TimeWait(_) => crate::node::time_wait::node::description_text(),
            BuiltinNode::DataAggregator(_) => crate::node::data_aggregator::node::description_text(),
        }
    }

    /// The inputs of a node of this kind.
    pub open spec fn input_fields(&self) -> Seq<FieldView> {
        match self {
            BuiltinNode::Start(_) => crate::node::start::node::input_fields(),
            BuiltinNode::MouseMove(_) => crate::node::mouse_move::node::input_fields(),
            BuiltinNode::MouseClick(_) => crate::node::mouse_click::node::input_fields(),
            BuiltinNode::Keyboard(_) => crate::node::keyboard::node::input_fields(),
            BuiltinNode::ImageMatch(_) => crate::node::image_match::node::input_fields(),
            BuiltinNode::TimeWait(_) => crate::node::time_wait::node::input_fields(),
            BuiltinNode::DataAggregator(_) => crate::node::data_aggregator::node::input_fields(),
        }
    }

    /// The outputs of a node of this kind whose inputs are `input`.
    pub open spec fn output_fields(&self, input: Map<Seq<char>, JsonView>) -> Seq<FieldView> {
        match self {
            BuiltinNode::Start(_) => crate::node::start::node::output_fields(input),
            BuiltinNode::MouseMove(_) => crate::node::mouse_move::node::output_fields(),
            BuiltinNode::MouseClick(_) => crate::node::mouse_click::node::output_fields(),
            BuiltinNode::Keyboard(_) => crate::node::keyboard::node::output_fields(),
            BuiltinNode::ImageMatch(_) => crate::node::image_match::node::output_fields(),
            BuiltinNode::TimeWait(_) => crate::node::time_wait::node::output_fields(),
            BuiltinNode::DataAggregator(_) => crate::node::data_aggregator::node::output_fields(),
        }
    }
}

impl NodeDefine for BuiltinNode {
    /// The action type of the kind.
    open spec fn names(&self, action_type: Seq<char>) -> bool {
        action_type == self.action_type_text()
    }

    /// The outputs of a node of this kind whose inputs are `input`.
    open spec fn declares(&self, input: Map<Seq<char>, JsonView>, fields: Seq<FieldView>) -> bool {
        fields == self.output_fields(input)
    }

    fn action_type(&self) -> (r: String)
        ensures
            r@ == self.action_type_text(),
    {
        match self {
            BuiltinNode::Start(n) => n.action_type(),
            BuiltinNode::MouseMove(n) => n.action_type(),
            BuiltinNode::MouseClick(n) => n.action_type(),
            BuiltinNode::Keyboard(n) => n.action_type(),
            BuiltinNode::ImageMatch(n) => n.action_type(),
            BuiltinNode::TimeWait(n) => n.action_type(),
            BuiltinNode::DataAggregator(n) => n.action_type(),
        }
    }

    fn name(&self) -> (r: I18nValue)
        ensures
            r@ == self.name_text(),
    {
        match self {
            BuiltinNode::Start(n) => n.name(),
            BuiltinNode::MouseMove(n) => n.name(),
            BuiltinNode::MouseClick(n) => n.name(),
            BuiltinNode::Keyboard(n) => n.name(),
            BuiltinNode::ImageMatch(n) => n.name(),
            BuiltinNode::TimeWait(n) => n.name(),
            BuiltinNode::DataAggregator(n) => n.name(),
        }
    }

    fn icon(&self) -> (r: String)
        ensures
            r@ == self.icon_text(),
    {
        match self {
            BuiltinNode::Start(n) => n.icon(),
            BuiltinNode::MouseMove(n) => n.icon(),
            BuiltinNode::MouseClick(n) => n.icon(),
            BuiltinNode::Keyboard(n) => n.icon(),
            BuiltinNode::ImageMatch(n) => n.icon(),
            BuiltinNode::TimeWait(n) => n.icon(),
            BuiltinNode::DataAggregator(n) => n.icon(),
        }
    }

    fn category(&self) -> (r: Option<I18nValue>)
        ensures
            i18n_option_view(r) == self.category_text(),
    {
        match self {
            BuiltinNode::Start(n) => n.category(),
            BuiltinNode::MouseMove(n) => n.category(),
            BuiltinNode::MouseClick(n) => n.category(),
            BuiltinNode::Keyboard(n) => n.category(),
            BuiltinNode::ImageMatch(n) => n.category(),
            BuiltinNode::TimeWait(n) => n.category(),
            BuiltinNode::DataAggregator(n) => n.category(),
        }
    }

    fn description(&self) -> (r: Option<I18nValue>)
        ensures
            i18n_option_view(r) == self.description_text(),
    {
        match self {
            BuiltinNode::Start(n) => n.description(),
            BuiltinNode::MouseMove(n) => n.description(),
            BuiltinNode::MouseClick(n) => n.description(),
            BuiltinNode::Keyboard(n) => n.description(),
            BuiltinNode::ImageMatch(n) => n.description(),
            BuiltinNode::TimeWait(n) => n.description(),
            BuiltinNode::DataAggregator(n) => n.description(),
        }
    }

    fn output_schema(&self, input: &Vec<(String, JsonValue)>) -> (r: Vec<SchemaField>)
        ensures
            fields_view(r@) == self.output_fields(entries_view(input@)),
    {
        match self {
            BuiltinNode::Start(n) => n.output_schema(input),
            BuiltinNode::MouseMove(n) => n.output_schema(input),
            BuiltinNode::MouseClick(n) => n.output_schema(input),
            BuiltinNode::Keyboard(n) => n.output_schema(input),
            BuiltinNode::ImageMatch(n) => n.output_schema(input),
            BuiltinNode::TimeWait(n) => n.output_schema(input),
            BuiltinNode::DataAggregator(n) => n.output_schema(input),
        }
    }

    fn input_schema(&self) -> (r: Vec<SchemaField>)
        ensures
            fields_view(r@) == self.input_fields(),
    {
        match self {
            BuiltinNode::Start(n) => n.input_schema(),
            BuiltinNode::MouseMove(n) => n.input_schema(),
            BuiltinNode::MouseClick(n) => n.input_schema(),
            BuiltinNode::Keyboard(n) => n.input_schema(),
            BuiltinNode::ImageMatch(n) => n.input_schema(),
            BuiltinNode::TimeWait(n) => n.input_schema(),
            BuiltinNode::DataAggregator(n) => n.input_schema(),
        }
    }
}

/// The runner factories of the node kinds that the engine brings along, one
/// for each kind.
pub struct InternalFactories<F> {
    pub start: F,
    pub mouse_move: F,
    pub mouse_click: F,
    pub keyboard: F,
    pub image_match: F,
    pub time_wait: F,
    pub data_aggregator: F,
}

/// Whether the engine brings a node kind along for this action type.
pub open spec fn is_internal(action_type: Seq<char>) -> bool {
    action_type == "Start"@ || action_type == "MouseMove"@ || action_type == "MouseClick"@
        || action_type == "KeyBoard"@ || action_type == "ImageMatch"@ || action_type
        == "TimeWait"@ || action_type == "DataAggregator"@
}

/// The action types of the node kinds that the engine brings along differ.
proof fn lemma_internal_names()
    ensures
        "Start"@.len() == 5,
        "MouseMove"@.len() == 9,
        "MouseClick"@.len() == 10,
        "KeyBoard"@.len() == 8,
        "ImageMatch"@.len() == 10,
        "TimeWait"@.len() == 8,
        "DataAggregator"@.len() == 14,
        "MouseClick"@[0] == 'M',
        "ImageMatch"@[0] == 'I',
        "KeyBoard"@[0] == 'K',
        "TimeWait"@[0] == 'T',
{
    reveal_strlit("Start");
    reveal_strlit("MouseMove");
    reveal_strlit("MouseClick");
    reveal_strlit("KeyBoard");
    reveal_strlit("ImageMatch");
    reveal_strlit("TimeWait");
    reveal_strlit("DataAggregator");
}

impl<F> NodeRegisterBus<BuiltinNode, F> {
    /// The same registry with the node kinds that the engine brings along, each
    /// under its action type and with the factory that is given for it.
    pub fn with_internal_nodes(self, factories: InternalFactories<F>) -> (r: Self)
        ensures
            forall|k: Seq<char>| r.has_node(k) == (self.has_node(k) || is_internal(k)),
            forall|k: Seq<char>| r.has_runner(k) == (self.has_runner(k) || is_internal(k)),
            forall|k: Seq<char>|
                !is_internal(k) && self.has_node(k) ==> r.node_of(k) == self.node_of(k),
            forall|k: Seq<char>|
                !is_internal(k) && self.has_runner(k) ==> r.runner_of(k) == self.runner_of(k),
            r.runner_of("Start"@) == factories.start,
            r.runner_of("MouseMove"@) == factories.mouse_move,
            r.runner_of("MouseClick"@) == factories.mouse_click,
            r.runner_of("KeyBoard"@) == factories.keyboard,
            r.runner_of("ImageMatch"@) == factories.image_match,
            r.runner_of("TimeWait"@) == factories.time_wait,
            r.runner_of("DataAggregator"@) == factories.data_aggregator,
    {
        proof {
            lemma_internal_names();
        }
        let mut bus = self;
        bus.register_node("Start".to_owned(), BuiltinNode::Start(StartNode::new()));
        bus.register_runner("Start".to_owned(), factories.start);
        bus.register_node("MouseMove".to_owned(), BuiltinNode::MouseMove(MouseMoveNode::new()));
        bus.register_runner("MouseMove".to_owned(), factories.mouse_move);
        assert(bus.has_runner("Start"@) && bus.runner_of("Start"@) == factories.start);
        bus.register_node("MouseClick".to_owned(), BuiltinNode::MouseClick(MouseClickNode::new()));
        bus.register_runner("MouseClick".to_owned(), factories.mouse_click);
        assert(bus.has_runner("Start"@) && bus.runner_of("Start"@) == factories.start);
        assert(bus.has_runner("MouseMove"@) && bus.runner_of("MouseMove"@)
            == factories.mouse_move);
        bus.register_node("KeyBoard".to_owned(), BuiltinNode::Keyboard(KeyboardNode::new()));
        bus.register_runner("KeyBoard".to_owned(), factories.keyboard);
        assert(bus.has_runner("Start"@) && bus.runner_of("Start"@) == factories.start);
        assert(bus.has_runner("MouseMove"@) && bus.runner_of("MouseMove"@)
            == factories.mouse_move);
        assert(bus.has_runner("MouseClick"@) && bus.runner_of("MouseClick"@)
            == factories.mouse_click);
        bus.register_node("ImageMatch".to_owned(), BuiltinNode::ImageMatch(ImageMatchNode::new()));
        bus.register_runner("ImageMatch".to_owned(), factories.image_match);
        assert(bus.has_runner("Start"@) && bus.runner_of("Start"@) == factories.start);
        assert(bus.has_runner("MouseMove"@) && bus.runner_of("MouseMove"@)
            == factories.mouse_move);
        assert(bus.has_runner("MouseClick"@) && bus.runner_of("MouseClick"@)
            == factories.mouse_click);
        assert(bus.has_runner("KeyBoard"@) && bus.runner_of("KeyBoard"@) == factories.keyboard);
        bus.register_node("TimeWait".to_owned(), BuiltinNode::TimeWait(TimeWaitNode::new()));
        bus.register_runner("TimeWait".to_owned(), factories.time_wait);
        assert(bus.has_runner("Start"@) && bus.runner_of("Start"@) == factories.start);
        assert(bus.has_runner("MouseMove"@) && bus.runner_of("MouseMove"@)
            == factories.mouse_move);
        assert(bus.has_runner("MouseClick"@) && bus.runner_of("MouseClick"@)
            == factories.mouse_click);
        assert(bus.has_runner("KeyBoard"@) && bus.runner_of("KeyBoard"@) == factories.keyboard);
        assert(bus.has_runner("ImageMatch"@) && bus.runner_of("ImageMatch"@)
            == factories.image_match);
        let ghost six = bus;
        bus.register_node(
            "DataAggregator".to_owned(),
            BuiltinNode::DataAggregator(DataAggregatorNode::new()),
        );
        bus.register_runner("DataAggregator".to_owned(), factories.data_aggregator);
        assert(bus.has_runner("Start"@) && bus.runner_of("Start"@) == factories.start);
        assert(bus.has_runner("MouseMove"@) && bus.runner_of("MouseMove"@)
            == factories.mouse_move);
        assert(bus.has_runner("MouseClick"@) && bus.runner_of("MouseClick"@)
            == factories.mouse_click);
        assert(bus.has_runner("KeyBoard"@) && bus.runner_of("KeyBoard"@) == factories.keyboard);
        assert(bus.has_runner("ImageMatch"@) && bus.runner_of("ImageMatch"@)
            == factories.image_match);
        assert(bus.has_runner("TimeWait"@) && bus.runner_of("TimeWait"@) == factories.time_wait);
        bus
    }
}

} // verus!
