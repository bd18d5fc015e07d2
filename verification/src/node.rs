//! Handles, operation tags and the mathematical model of a graph.
//!
//! The model of a graph is the sequence of its records in order of creation. A
//! handle names a record by its position; since a record's operands are chosen
//! among the records that exist when it is made, every operand of a record
//! stands before it, and the graph has no cycle.

use vstd::prelude::*;
use crate::scalar::{spec_optional_eq, spec_scalar_eq};

verus! {

/// How a derived node's scalar was computed from its operands.
#[derive(Clone, Copy, PartialEq, Eq, Debug, Structural)]
pub enum Operation {
    Add,
    Mul,
}

impl Operation {
    /// The sign that stands for the operation in a node's text.
    pub open spec fn spec_symbol(self) -> Seq<char> {
        match self {
            Operation::Add => "+"@,
            Operation::Mul => "*"@,
        }
    }

    pub fn symbol(self) -> (s: &'static str)
        ensures
            s@ == self.spec_symbol(),
    {
        match self {
            Operation::Add => "+",
            Operation::Mul => "*",
        }
    }
}

/// A handle to one record of a graph.
///
/// A handle is a position and nothing else: copies of a handle name the same
/// record, and `==` on handles asks whether they name the same record. Whether
/// two records carry equal numbers is a question for the graph that holds them.
#[derive(Clone, Copy, PartialEq, Eq, Debug, Structural)]
pub struct Value {
    pub id: usize,
}

/// What one record holds.
pub struct NodeView {
    /// Bit pattern of the scalar.
    pub data: u32,
    /// Bit pattern of the gradient, once one has been accumulated.
    pub grad: Option<u32>,
    /// The operand set, in order of insertion; absent on a leaf.
    pub prev: Option<Seq<Value>>,
    /// The operation that produced `data`; absent on a leaf.
    pub op: Option<Operation>,
    /// The name given to the node, if any.
    pub label: Option<Seq<char>>,
}

impl NodeView {
    /// A record as it is when a leaf is made.
    pub open spec fn leaf(data: u32) -> NodeView {
        NodeView { data, grad: None, prev: None, op: None, label: None }
    }

    /// A record as it is when a derived node is made.
    pub open spec fn derived(data: u32, set: Seq<Value>, op: Operation) -> NodeView {
        NodeView { data, grad: None, prev: Some(set), op: Some(op), label: None }
    }

    /// Equality of records: equal scalars and equal gradients, compared as
    /// numbers. Labels, operands and operations play no part.
    pub open spec fn equals(self, other: NodeView) -> bool {
        spec_scalar_eq(self.data, other.data) && spec_optional_eq(self.grad, other.grad)
    }

    /// The two words by which a record is hashed: the scalar's pattern, then
    /// the gradient's, or that of zero where there is no gradient.
    pub open spec fn hash_key(self) -> (u32, u32) {
        (
            self.data,
            match self.grad {
                Some(g) => g,
                None => 0u32,
            },
        )
    }

    /// The label as text; the empty text where there is none.
    pub open spec fn label_text(self) -> Seq<char> {
        match self.label {
            Some(l) => l,
            None => Seq::empty(),
        }
    }

    /// Whether the record has no operand set and no operation.
    pub open spec fn is_leaf(self) -> bool {
        self.prev is None && self.op is None
    }

    /// Whether the record has both an operand set and an operation.
    pub open spec fn is_derived(self) -> bool {
        self.prev is Some && self.op is Some
    }
}

/// The model of a graph: its records in order of creation.
pub struct GraphView {
    pub nodes: Seq<NodeView>,
}

impl GraphView {
    /// The graph without records.
    pub open spec fn empty() -> GraphView {
        GraphView { nodes: Seq::empty() }
    }

    pub open spec fn len(self) -> nat {
        self.nodes.len()
    }

    /// Whether the handle names a record of this graph.
    pub open spec fn contains(self, v: Value) -> bool {
        v.id < self.nodes.len()
    }

    /// Whether every handle of the sequence names a record of this graph.
    pub open spec fn contains_all(self, list: Seq<Value>) -> bool {
        forall|i: int| 0 <= i < list.len() ==> self.contains(#[trigger] list[i])
    }

    /// The record that the handle names.
    pub open spec fn node(self, v: Value) -> NodeView
        recommends
            self.contains(v),
    {
        self.nodes[v.id as int]
    }

    /// Equality of the records behind two handles.
    pub open spec fn equal(self, a: Value, b: Value) -> bool
        recommends
            self.contains(a),
            self.contains(b),
    {
        self.node(a).equals(self.node(b))
    }

    /// Whether some member of `set` is equal to `v`.
    pub open spec fn holds_equal(self, set: Seq<Value>, v: Value) -> bool {
        exists|k: int| 0 <= k < set.len() && #[trigger] self.equal(set[k], v)
    }

    /// Whether no member of `set` is equal to another one.
    pub open spec fn distinct(self, set: Seq<Value>) -> bool {
        forall|j: int, k: int| 0 <= j < k < set.len() ==> !#[trigger] self.equal(set[j], set[k])
    }

    /// `set` after the insertion of `v`: unchanged where a member equal to `v`
    /// is present, and with `v` at its end otherwise.
    pub open spec fn insert(self, set: Seq<Value>, v: Value) -> Seq<Value> {
        if self.holds_equal(set, v) {
            set
        } else {
            set.push(v)
        }
    }

    /// The operand set made of a list of handles: each handle is inserted in
    /// turn, from the first to the last, into a set that starts empty.
    pub open spec fn collect(self, list: Seq<Value>) -> Seq<Value>
        decreases list.len(),
    {
        if list.len() == 0 {
            Seq::empty()
        } else {
            self.insert(self.collect(list.drop_last()), list.last())
        }
    }

    /// The handle that the next record to be made will get.
    pub open spec fn next(self) -> Value {
        Value { id: self.nodes.len() as usize }
    }

    /// The graph with one more record.
    pub open spec fn with_node(self, n: NodeView) -> GraphView {
        GraphView { nodes: self.nodes.push(n) }
    }

    /// The graph after a leaf with the given scalar was made.
    pub open spec fn with_leaf(self, data: u32) -> GraphView {
        self.with_node(NodeView::leaf(data))
    }

    /// The graph after a derived node was made from a scalar, a list of
    /// operands and an operation.
    pub open spec fn with_derived(self, data: u32, operands: Seq<Value>, op: Operation) -> GraphView {
        self.with_node(NodeView::derived(data, self.collect(operands), op))
    }

    /// The graph after `v` was given the label `label`.
    pub open spec fn with_label(self, v: Value, label: Seq<char>) -> GraphView
        recommends
            self.contains(v),
    {
        GraphView {
            nodes: self.nodes.update(
                v.id as int,
                NodeView { label: Some(label), ..self.nodes[v.id as int] },
            ),
        }
    }

    /// Whether the record at position `i` is well formed: it has an operand
    /// set exactly when it has an operation, each of its operands was made
    /// before it, and no two members of its operand set are equal.
    pub open spec fn node_wf(self, i: int) -> bool
        recommends
            0 <= i < self.nodes.len(),
    {
        let n = self.nodes[i];
        &&& n.prev is Some <==> n.op is Some
        &&& n.prev matches Some(set) ==> {
            &&& forall|k: int| 0 <= k < set.len() ==> (#[trigger] set[k]).id < i
            &&& self.distinct(set)
        }
    }

    /// Whether the graph is well formed: every record is, and a handle can
    /// hold each position.
    pub open spec fn wf(self) -> bool {
        &&& self.nodes.len() <= usize::MAX
        &&& forall|i: int| 0 <= i < self.nodes.len() ==> #[trigger] self.node_wf(i)
    }

    /// Whether the graph has room for one more record.
    pub open spec fn has_room(self) -> bool {
        self.nodes.len() < usize::MAX
    }
}

impl GraphView {
    /// Equality of two handles' records looks at their scalars and gradients
    /// only, so it is the same in any two graphs that agree on those.
    pub proof fn lemma_equal_agrees(self, other: GraphView, a: Value, b: Value)
        requires
            self.contains(a),
            self.contains(b),
            other.contains(a),
            other.contains(b),
            self.node(a).data == other.node(a).data,
            self.node(a).grad == other.node(a).grad,
            self.node(b).data == other.node(b).data,
            self.node(b).grad == other.node(b).grad,
        ensures
            self.equal(a, b) == other.equal(a, b),
    {
    }

    /// A record that was well formed stays so in a graph that keeps, at every
    /// position up to it, the scalars, gradients, operand sets and operations.
    pub proof fn lemma_node_wf_agrees(self, other: GraphView, i: int)
        requires
            0 <= i < self.len(),
            i < other.len(),
            self.node_wf(i),
            forall|j: int|
                0 <= j <= i ==> {
                    &&& (#[trigger] other.nodes[j]).data == self.nodes[j].data
                    &&& other.nodes[j].grad == self.nodes[j].grad
                    &&& other.nodes[j].prev == self.nodes[j].prev
                    &&& other.nodes[j].op == self.nodes[j].op
                },
        ensures
            other.node_wf(i),
    {
        if let Some(set) = self.nodes[i].prev {
            assert forall|j: int, k: int| 0 <= j < k < set.len() implies !#[trigger] other.equal(
                set[j],
                set[k],
            ) by {
                assert(set[j].id < i && set[k].id < i);
                assert(!self.equal(set[j], set[k]));
                self.lemma_equal_agrees(other, set[j], set[k]);
            }
        }
    }

    /// Making a leaf keeps the graph well formed.
    pub proof fn lemma_with_leaf_wf(self, data: u32)
        requires
            self.wf(),
            self.has_room(),
        ensures
            self.with_leaf(data).wf(),
    {
        let after = self.with_leaf(data);
        assert forall|i: int| 0 <= i < after.len() implies #[trigger] after.node_wf(i) by {
            if i < self.len() {
                assert(self.node_wf(i));
                self.lemma_node_wf_agrees(after, i);
            }
        }
    }

    /// What the operand set made of a list holds: handles of the list only, no
    /// two of them equal, and for each handle of the list either the handle
    /// itself or a member equal to it.
    pub proof fn lemma_collect(self, list: Seq<Value>)
        requires
            self.contains_all(list),
        ensures
            self.contains_all(self.collect(list)),
            self.distinct(self.collect(list)),
            self.collect(list).len() <= list.len(),
            forall|k: int|
                0 <= k < self.collect(list).len() ==> list.contains(
                    #[trigger] self.collect(list)[k],
                ),
            forall|i: int|
                0 <= i < list.len() ==> self.collect(list).contains(#[trigger] list[i])
                    || self.holds_equal(self.collect(list), list[i]),
        decreases list.len(),
    {
        if list.len() > 0 {
            let front = list.drop_last();
            let v = list.last();
            let before = self.collect(front);
            let after = self.collect(list);
            assert(self.contains_all(front)) by {
                assert forall|i: int| 0 <= i < front.len() implies self.contains(
                    #[trigger] front[i],
                ) by {
                    assert(front[i] == list[i]);
                }
            }
            self.lemma_collect(front);
            assert(after == self.insert(before, v));
            assert(forall|k: int| 0 <= k < before.len() ==> after[k] == before[k]);
            assert forall|k: int| 0 <= k < after.len() implies list.contains(
                #[trigger] after[k],
            ) && self.contains(after[k]) by {
                if k < before.len() {
                    assert(front.contains(before[k]));
                    let i = choose|i: int| 0 <= i < front.len() && front[i] == before[k];
                    assert(list[i] == before[k]);
                } else {
                    assert(after[k] == v);
                    assert(list[list.len() - 1] == v);
                }
            }
            assert forall|j: int, k: int| 0 <= j < k < after.len() implies !#[trigger] self.equal(
                after[j],
                after[k],
            ) by {
                if k < before.len() {
                    assert(!self.equal(before[j], before[k]));
                } else {
                    assert(!self.holds_equal(before, v));
                    assert(!self.equal(before[j], v));
                }
            }
            assert forall|i: int| 0 <= i < list.len() implies after.contains(#[trigger] list[i])
                || self.holds_equal(after, list[i]) by {
                if i < front.len() {
                    assert(list[i] == front[i]);
                    if before.contains(front[i]) {
                        let k = choose|k: int| 0 <= k < before.len() && before[k] == front[i];
                        assert(after[k] == list[i]);
                    } else {
                        assert(self.holds_equal(before, front[i]));
                        let k = choose|k: int|
                            0 <= k < before.len() && #[trigger] self.equal(before[k], front[i]);
                        assert(self.equal(after[k], list[i]));
                    }
                } else {
                    if self.holds_equal(before, v) {
                        assert(after == before);
                    } else {
                        assert(after[before.len() as int] == v);
                    }
                }
            }
        }
    }

    /// Making a derived node from handles of the graph keeps it well formed.
    pub proof fn lemma_with_derived_wf(self, data: u32, operands: Seq<Value>, op: Operation)
        requires
            self.wf(),
            self.has_room(),
            self.contains_all(operands),
        ensures
            self.with_derived(data, operands, op).wf(),
    {
        let after = self.with_derived(data, operands, op);
        let set = self.collect(operands);
        self.lemma_collect(operands);
        assert forall|i: int| 0 <= i < after.len() implies #[trigger] after.node_wf(i) by {
            if i < self.len() {
                assert(self.node_wf(i));
                self.lemma_node_wf_agrees(after, i);
            } else {
                assert forall|j: int, k: int| 0 <= j < k < set.len() implies !#[trigger] after.equal(
                    set[j],
                    set[k],
                ) by {
                    assert(self.contains(set[j]) && self.contains(set[k]));
                    assert(!self.equal(set[j], set[k]));
                    self.lemma_equal_agrees(after, set[j], set[k]);
                }
                assert forall|k: int| 0 <= k < set.len() implies (#[trigger] set[k]).id < i by {
                    assert(self.contains(set[k]));
                }
            }
        }
    }

    /// Labelling a node keeps the graph well formed.
    pub proof fn lemma_with_label_wf(self, v: Value, label: Seq<char>)
        requires
            self.wf(),
            self.contains(v),
        ensures
            self.with_label(v, label).wf(),
    {
        let after = self.with_label(v, label);
        assert forall|i: int| 0 <= i < after.len() implies #[trigger] after.node_wf(i) by {
            assert(self.node_wf(i));
            self.lemma_node_wf_agrees(after, i);
        }
    }
}

} // verus!
