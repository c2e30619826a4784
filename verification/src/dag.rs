//! An append-only store of nodes with dense integer ids, forward input
//! edges and derived reverse usage edges. A node may be consumed by many
//! users (shared sub-plans), and can only list inputs created before it,
//! so no cycle can be built.

use vstd::prelude::*;

verus! {

pub type NodeId = usize;

/// The node store. Ids are insertion indices; nodes are never removed.
#[derive(Debug)]
pub struct Dag<Node> {
    nodes: Vec<Node>,
    usages: Vec<Vec<NodeId>>,
    inputs: Vec<Vec<NodeId>>,
}

impl<Node> Dag<Node> {
    pub closed spec fn spec_nodes(self) -> Seq<Node> {
        self.nodes@
    }

    /// The ordered input list of each node.
    pub closed spec fn spec_inputs(self) -> Seq<Seq<NodeId>> {
        self.inputs@.map_values(|v: Vec<NodeId>| v@)
    }

    /// The set of nodes that consume node `id`.
    pub closed spec fn usage_set(self, id: int) -> Set<NodeId> {
        self.usages@[id]@.to_set()
    }

    pub closed spec fn spec_len(self) -> nat {
        self.nodes@.len()
    }

    /// Every id is wired consistently: input lists point backwards in
    /// creation order, and `usages` is exactly the reverse of `inputs`.
    /// Every constructor and mutator of the store preserves this.
    pub closed spec fn wf(self) -> bool {
        &&& self.usages@.len() == self.nodes@.len()
        &&& self.inputs@.len() == self.nodes@.len()
        &&& forall|b: int, k: int|
            0 <= b < self.spec_len() && 0 <= k < self.spec_inputs()[b].len()
            ==> #[trigger] self.spec_inputs()[b][k] < b
        &&& forall|b: int, k: int|
            0 <= b < self.spec_len() && 0 <= k < self.spec_inputs()[b].len()
            ==> self.usage_set(#[trigger] self.spec_inputs()[b][k] as int).contains(b as NodeId)
        &&& forall|a: int, b: NodeId|
            0 <= a < self.spec_len() && #[trigger] self.usage_set(a).contains(b)
            ==> b < self.spec_len() && self.spec_inputs()[b as int].contains(a as NodeId)
    }

    pub fn new() -> (d: Self)
        ensures
            d.wf(),
            d.spec_len() == 0,
    {
        Self { nodes: Vec::new(), usages: Vec::new(), inputs: Vec::new() }
    }

    /// The number of nodes inserted so far.
    pub fn len(&self) -> (n: usize)
        ensures
            n == self.spec_len(),
    {
        self.nodes.len()
    }

    /// Ids are only ever produced by `new_node`, so an out-of-range id is
    /// a programming error, ruled out here rather than absorbed.
    pub fn get_node(&self, id: NodeId) -> (n: &Node)
        requires
            self.wf(),
            id < self.spec_len(),
        ensures
            *n == self.spec_nodes()[id as int],
    {
        &self.nodes[id]
    }

    /// Appends a node with no inputs and no usages yet; its id is the
    /// insertion index.
    pub fn new_node(&mut self, node: Node) -> (id: NodeId)
        requires
            old(self).wf(),
        ensures
            final(self).wf(),
            id == old(self).spec_len(),
            final(self).spec_len() == old(self).spec_len() + 1,
            final(self).spec_nodes() == old(self).spec_nodes().push(node),
            final(self).spec_inputs() == old(self).spec_inputs().push(Seq::<NodeId>::empty()),
            forall|a: int| 0 <= a < old(self).spec_len()
                ==> #[trigger] final(self).usage_set(a) == old(self).usage_set(a),
            final(self).usage_set(id as int) == Set::<NodeId>::empty(),
    {
        let ghost pre = *self;
        self.nodes.push(node);
        self.usages.push(Vec::new());
        self.inputs.push(Vec::new());
        proof {
            let post = *self;
            let id = pre.spec_len() as int;
            assert(post.spec_inputs() =~~= pre.spec_inputs().push(Seq::<NodeId>::empty()));
            assert(post.usage_set(id) =~= Set::<NodeId>::empty());
            assert forall|a: int| 0 <= a < pre.spec_len()
                implies #[trigger] post.usage_set(a) == pre.usage_set(a) by {
                assert(post.usages@[a] == pre.usages@[a]);
            }
            assert forall|b: int, k: int|
                0 <= b < post.spec_len() && 0 <= k < post.spec_inputs()[b].len()
                implies post.usage_set(#[trigger] post.spec_inputs()[b][k] as int)
                    .contains(b as NodeId) by {
                assert(b < id);
                assert(post.spec_inputs()[b] == pre.spec_inputs()[b]);
                let v = pre.spec_inputs()[b][k];
                assert(pre.usage_set(v as int).contains(b as NodeId));
                assert(post.usage_set(v as int) == pre.usage_set(v as int));
            }
            assert forall|a: int, b: NodeId|
                0 <= a < post.spec_len() && #[trigger] post.usage_set(a).contains(b)
                implies b < post.spec_len()
                    && post.spec_inputs()[b as int].contains(a as NodeId) by {
                assert(a < id);
                assert(post.usage_set(a) == pre.usage_set(a));
                assert(b < pre.spec_len());
                assert(post.spec_inputs()[b as int] == pre.spec_inputs()[b as int]);
            }
        }
        self.nodes.len() - 1
    }

    /// Records `input` as the next input of `node` and `node` as a user
    /// of `input`. A node may only consume nodes created before it.
    pub fn add_input(&mut self, node: NodeId, input: NodeId)
        requires
            old(self).wf(),
            input < node,
            node < old(self).spec_len(),
        ensures
            final(self).wf(),
            final(self).spec_len() == old(self).spec_len(),
            final(self).spec_nodes() == old(self).spec_nodes(),
            final(self).spec_inputs() == old(self).spec_inputs().update(
                node as int,
                old(self).spec_inputs()[node as int].push(input),
            ),
            final(self).usage_set(input as int)
                == old(self).usage_set(input as int).insert(node),
            forall|a: int| 0 <= a < final(self).spec_len() && a != input
                ==> #[trigger] final(self).usage_set(a) == old(self).usage_set(a),
    {
        let ghost pre = *self;
        let mut new_inputs = copy_ids(&self.inputs[node]);
        new_inputs.push(input);
        vstd::std_specs::core::index_set(&mut self.inputs, node, new_inputs);
        if !contains_id(&self.usages[input], node) {
            let mut new_usages = copy_ids(&self.usages[input]);
            new_usages.push(node);
            vstd::std_specs::core::index_set(&mut self.usages, input, new_usages);
        }
        proof {
            let post = *self;
            assert(post.spec_inputs() =~~= pre.spec_inputs().update(
                node as int,
                pre.spec_inputs()[node as int].push(input),
            ));
            if pre.usage_set(input as int).contains(node) {
                assert(post.usages@[input as int] == pre.usages@[input as int]);
                assert(post.usage_set(input as int)
                    =~= pre.usage_set(input as int).insert(node));
            } else {
                assert(post.usages@[input as int]@
                    == pre.usages@[input as int]@.push(node));
                lemma_push_to_set(pre.usages@[input as int]@, node);
            }
            assert forall|a: int| 0 <= a < post.spec_len() && a != input
                implies #[trigger] post.usage_set(a) == pre.usage_set(a) by {
                assert(post.usages@[a] == pre.usages@[a]);
            }
            assert forall|b: int, k: int|
                0 <= b < post.spec_len() && 0 <= k < post.spec_inputs()[b].len()
                implies #[trigger] post.spec_inputs()[b][k] < b by {
                if b != node {
                    assert(post.spec_inputs()[b] == pre.spec_inputs()[b]);
                }
            }
            assert forall|b: int, k: int|
                0 <= b < post.spec_len() && 0 <= k < post.spec_inputs()[b].len()
                implies post.usage_set(#[trigger] post.spec_inputs()[b][k] as int)
                    .contains(b as NodeId) by {
                let v = post.spec_inputs()[b][k];
                if b != node {
                    assert(post.spec_inputs()[b] == pre.spec_inputs()[b]);
                    assert(pre.usage_set(v as int).contains(b as NodeId));
                } else {
                    if k < pre.spec_inputs()[b].len() {
                        assert(pre.spec_inputs()[b][k] == v);
                        assert(pre.usage_set(v as int).contains(b as NodeId));
                    } else {
                        assert(v == input);
                        assert(post.usage_set(input as int).contains(node));
                    }
                }
                if v != input {
                    assert(post.usage_set(v as int) == pre.usage_set(v as int));
                } else {
                    assert(post.usage_set(v as int) == pre.usage_set(v as int).insert(node));
                }
            }
            assert forall|a: int, b: NodeId|
                0 <= a < post.spec_len() && #[trigger] post.usage_set(a).contains(b)
                implies b < post.spec_len()
                    && post.spec_inputs()[b as int].contains(a as NodeId) by {
                let came_from_pre = if a != input {
                    true
                } else {
                    b != node
                };
                if came_from_pre {
                    assert(pre.usage_set(a).contains(b));
                    assert(b < pre.spec_len());
                    if b != node {
                        assert(post.spec_inputs()[b as int] == pre.spec_inputs()[b as int]);
                    } else {
                        lemma_push_contains(pre.spec_inputs()[b as int], input, a as NodeId);
                    }
                } else {
                    assert(post.spec_inputs()[node as int][pre.spec_inputs()[node as int].len() as int]
                        == input);
                }
            }
        }
    }

    /// The input ids of `node`, in the order they were added.
    pub fn get_inputs(&self, node: NodeId) -> (r: &Vec<NodeId>)
        requires
            self.wf(),
            node < self.spec_len(),
        ensures
            r@ == self.spec_inputs()[node as int],
    {
        &self.inputs[node]
    }

    /// The ids of the nodes that consume `node`.
    pub fn get_usages(&self, node: NodeId) -> (r: &Vec<NodeId>)
        requires
            self.wf(),
            node < self.spec_len(),
        ensures
            r@.to_set() == self.usage_set(node as int),
    {
        &self.usages[node]
    }
}

/// A well-formed store keeps one input list and one usage set per
/// node, and every input edge points to an earlier node.
pub proof fn lemma_wf_shape<Node>(d: Dag<Node>)
    requires
        d.wf(),
    ensures
        d.spec_nodes().len() == d.spec_len(),
        d.spec_inputs().len() == d.spec_len(),
        forall|b: int, k: int|
            0 <= b < d.spec_len() && 0 <= k < d.spec_inputs()[b].len()
            ==> #[trigger] d.spec_inputs()[b][k] < b,
{
}

/// The usage edges invert the input edges: whenever node `b` lists node
/// `a` among its inputs, `a`'s usage set contains `b`.
pub proof fn lemma_usage_invariant<Node>(d: Dag<Node>, a: NodeId, b: NodeId)
    requires
        d.wf(),
        b < d.spec_len(),
        d.spec_inputs()[b as int].contains(a),
    ensures
        a < d.spec_len(),
        d.usage_set(a as int).contains(b),
{
    let k = choose|k: int| 0 <= k < d.spec_inputs()[b as int].len()
        && d.spec_inputs()[b as int][k] == a;
    assert(d.spec_inputs()[b as int][k] < b);
}

/// Appending one element to a sequence adds exactly it to the set of
/// elements.
proof fn lemma_push_to_set(s: Seq<NodeId>, x: NodeId)
    ensures
        s.push(x).to_set() == s.to_set().insert(x),
{
    assert forall|y: NodeId| s.push(x).to_set().contains(y)
        implies s.to_set().insert(x).contains(y) by {
        let k = choose|k: int| 0 <= k < s.push(x).len() && s.push(x)[k] == y;
        if k < s.len() {
            assert(s[k] == y);
        }
    }
    assert forall|y: NodeId| s.to_set().insert(x).contains(y)
        implies s.push(x).to_set().contains(y) by {
        if y == x {
            assert(s.push(x)[s.len() as int] == y);
        } else {
            let k = choose|k: int| 0 <= k < s.len() && s[k] == y;
            assert(s.push(x)[k] == y);
        }
    }
    assert(s.push(x).to_set() =~= s.to_set().insert(x));
}

/// A pushed sequence holds exactly the old elements and the new one.
proof fn lemma_push_contains(s: Seq<NodeId>, x: NodeId, y: NodeId)
    ensures
        s.push(x).contains(y) <==> (y == x || s.contains(y)),
{
    if s.push(x).contains(y) {
        let k = choose|k: int| 0 <= k < s.push(x).len() && s.push(x)[k] == y;
        if k < s.len() {
            assert(s[k] == y);
        }
    }
    if y == x {
        assert(s.push(x)[s.len() as int] == y);
    } else if s.contains(y) {
        let k = choose|k: int| 0 <= k < s.len() && s[k] == y;
        assert(s.push(x)[k] == y);
    }
}

fn copy_ids(v: &Vec<NodeId>) -> (r: Vec<NodeId>)
    ensures
        r@ == v@,
{
    let mut r: Vec<NodeId> = Vec::new();
    let n = v.len();
    for i in 0..n
        invariant
            n == v@.len(),
            r@ == v@.subrange(0, i as int),
    {
        r.push(v[i]);
        proof {
            assert(r@ =~= v@.subrange(0, i + 1 as int));
        }
    }
    proof {
        assert(v@.subrange(0, v@.len() as int) =~= v@);
    }
    r
}

fn contains_id(v: &Vec<NodeId>, x: NodeId) -> (r: bool)
    ensures
        r == v@.contains(x),
{
    let n = v.len();
    for i in 0..n
        invariant
            n == v@.len(),
            forall|j: int| 0 <= j < i ==> v@[j] != x,
    {
        if v[i] == x {
            return true;
        }
    }
    false
}

} // verus!
