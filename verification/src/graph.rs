//! The arena that holds a graph's records.

use vstd::prelude::*;
use crate::node::{GraphView, NodeView, Operation, Value};
use crate::scalar::{optional_eq, scalar_eq};

verus! {

/// One record of the arena.
struct ValueInternal {
    data: u32,
    grad: Option<u32>,
    prev: Option<Vec<Value>>,
    op: Option<Operation>,
    label: Option<String>,
}

impl ValueInternal {
    spec fn model(self) -> NodeView {
        NodeView {
            data: self.data,
            grad: self.grad,
            prev: match self.prev {
                Some(set) => Some(set@),
                None => None,
            },
            op: self.op,
            label: match self.label {
                Some(l) => Some(l@),
                None => None,
            },
        }
    }
}

/// An expression graph: the records of its nodes, in order of creation.
pub struct Graph {
    nodes: Vec<ValueInternal>,
}

impl View for Graph {
    type V = GraphView;

    closed spec fn view(&self) -> GraphView {
        GraphView { nodes: Seq::new(self.nodes@.len(), |i: int| self.nodes@[i].model()) }
    }
}

impl Graph {
    /// Whether the graph's records are well formed. Every graph that this
    /// module hands out is.
    pub open spec fn wf(&self) -> bool {
        self@.wf()
    }

    /// A graph without nodes.
    pub fn new() -> (g: Graph)
        ensures
            g.wf(),
            g@ == GraphView::empty(),
    {
        let g = Graph { nodes: Vec::new() };
        assert(g@.nodes =~= Seq::<NodeView>::empty());
        g
    }

    /// The number of nodes.
    pub fn len(&self) -> (n: usize)
        ensures
            n == self@.len(),
    {
        self.nodes.len()
    }

    /// Whether the handle names a node of this graph.
    pub fn contains(&self, v: Value) -> (r: bool)
        ensures
            r == self@.contains(v),
    {
        v.id < self.nodes.len()
    }

    /// Makes a leaf: a node that holds `data` and nothing else.
    pub fn leaf(&mut self, data: u32) -> (v: Value)
        requires
            old(self).wf(),
        ensures
            final(self).wf(),
            final(self)@ == old(self)@.with_leaf(data),
            v == old(self)@.next(),
            final(self)@.contains(v),
            final(self)@.node(v) == NodeView::leaf(data),
            forall|w: Value| old(self)@.contains(w) ==> final(self)@.node(w) == old(self)@.node(w),
    {
        let id: usize = self.nodes.len();
        self.nodes.push(ValueInternal { data, grad: None, prev: None, op: None, label: None });
        proof {
            assert(self.nodes.len() == self.nodes@.len());
            assert(self@.nodes =~= old(self)@.with_leaf(data).nodes);
            old(self)@.lemma_with_leaf_wf(data);
        }
        Value { id }
    }

    /// Whether two nodes are equal: whether they hold equal scalars and equal
    /// gradients. The two handles may well name different nodes.
    pub fn equal(&self, a: Value, b: Value) -> (r: bool)
        requires
            self@.contains(a),
            self@.contains(b),
        ensures
            r == self@.equal(a, b),
    {
        let x = &self.nodes[a.id];
        let y = &self.nodes[b.id];
        scalar_eq(x.data, y.data) && optional_eq(x.grad, y.grad)
    }

    /// The two words by which a node is hashed.
    pub fn hash_key(&self, v: Value) -> (key: (u32, u32))
        requires
            self@.contains(v),
        ensures
            key == self@.node(v).hash_key(),
    {
        let x = &self.nodes[v.id];
        let grad: u32 = match x.grad {
            Some(g) => g,
            None => 0,
        };
        (x.data, grad)
    }

    /// Whether `set` has a member equal to `v`.
    fn holds_equal(&self, set: &Vec<Value>, v: Value) -> (r: bool)
        requires
            self@.contains_all(set@),
            self@.contains(v),
        ensures
            r == self@.holds_equal(set@, v),
    {
        let mut k: usize = 0;
        while k < set.len()
            invariant
                k <= set.len(),
                self@.contains_all(set@),
                self@.contains(v),
                forall|j: int| 0 <= j < k ==> !#[trigger] self@.equal(set@[j], v),
            decreases set.len() - k,
        {
            if self.equal(set[k], v) {
                return true;
            }
            k += 1;
        }
        false
    }

    /// The operand set made of a list of handles.
    fn collect(&self, operands: &Vec<Value>) -> (set: Vec<Value>)
        requires
            self@.contains_all(operands@),
        ensures
            set@ == self@.collect(operands@),
    {
        let mut set: Vec<Value> = Vec::new();
        let mut i: usize = 0;
        while i < operands.len()
            invariant
                i <= operands.len(),
                self@.contains_all(operands@),
                self@.contains_all(set@),
                set@ == self@.collect(operands@.take(i as int)),
            decreases operands.len() - i,
        {
            let v = operands[i];
            if !self.holds_equal(&set, v) {
                set.push(v);
            }
            proof {
                let upto = operands@.take(i + 1);
                assert(upto.drop_last() =~= operands@.take(i as int));
                assert(upto.last() == v);
            }
            i += 1;
        }
        proof {
            assert(operands@.take(operands.len() as int) =~= operands@);
        }
        set
    }

    /// Makes a derived node that holds `data`, the set made of `operands`, and
    /// `op`. The scalar is taken as given: it is for the caller to compute it
    /// from the operands as `op` says.
    pub fn derived(&mut self, data: u32, operands: &Vec<Value>, op: Operation) -> (v: Value)
        requires
            old(self).wf(),
            old(self)@.contains_all(operands@),
        ensures
            final(self).wf(),
            final(self)@ == old(self)@.with_derived(data, operands@, op),
            v == old(self)@.next(),
            final(self)@.contains(v),
            final(self)@.node(v) == NodeView::derived(data, old(self)@.collect(operands@), op),
            forall|w: Value| old(self)@.contains(w) ==> final(self)@.node(w) == old(self)@.node(w),
    {
        let set = self.collect(operands);
        let id: usize = self.nodes.len();
        self.nodes.push(ValueInternal { data, grad: None, prev: Some(set), op: Some(op), label: None });
        proof {
            assert(self.nodes.len() == self.nodes@.len());
            assert(self@.nodes =~= old(self)@.with_derived(data, operands@, op).nodes);
            old(self)@.lemma_with_derived_wf(data, operands@, op);
        }
        Value { id }
    }

    /// Makes the node for the result of a binary operation on `a` and `b`,
    /// in that order; `data` is the scalar that the operation gives on theirs.
    pub fn apply(&mut self, op: Operation, a: Value, b: Value, data: u32) -> (v: Value)
        requires
            old(self).wf(),
            old(self)@.contains(a),
            old(self)@.contains(b),
        ensures
            final(self).wf(),
            final(self)@ == old(self)@.with_derived(data, seq![a, b], op),
            v == old(self)@.next(),
            final(self)@.contains(v),
            final(self)@.node(v) == NodeView::derived(data, old(self)@.collect(seq![a, b]), op),
            forall|w: Value| old(self)@.contains(w) ==> final(self)@.node(w) == old(self)@.node(w),
    {
        let mut operands: Vec<Value> = Vec::new();
        operands.push(a);
        operands.push(b);
        assert(operands@ =~= seq![a, b]);
        self.derived(data, &operands, op)
    }

    /// Gives the node the label `label`, in place of any label it had, and
    /// hands the handle back. The label is the node's: it is read through
    /// every handle to it, and where the node stands among another node's
    /// operands.
    pub fn with_label(&mut self, v: Value, label: &str) -> (r: Value)
        requires
            old(self).wf(),
            old(self)@.contains(v),
        ensures
            final(self).wf(),
            final(self)@ == old(self)@.with_label(v, label@),
            r == v,
            final(self)@.node(v) == (NodeView { label: Some(label@), ..old(self)@.node(v) }),
            forall|w: Value|
                old(self)@.contains(w) && w != v ==> final(self)@.node(w) == old(self)@.node(w),
            forall|w: Value| final(self)@.contains(w) == old(self)@.contains(w),
    {
        self.nodes[v.id].label = Some(label.to_owned());
        proof {
            assert(self@.nodes =~= old(self)@.with_label(v, label@).nodes);
            old(self)@.lemma_with_label_wf(v, label@);
        }
        v
    }

    /// The bit pattern of the node's scalar.
    pub fn data(&self, v: Value) -> (data: u32)
        requires
            self@.contains(v),
        ensures
            data == self@.node(v).data,
    {
        self.nodes[v.id].data
    }

    /// The bit pattern of the node's gradient, if it has one.
    pub fn grad(&self, v: Value) -> (grad: Option<u32>)
        requires
            self@.contains(v),
        ensures
            grad == self@.node(v).grad,
    {
        self.nodes[v.id].grad
    }

    /// The operation that produced the node; `None` on a leaf.
    pub fn op(&self, v: Value) -> (op: Option<Operation>)
        requires
            self@.contains(v),
        ensures
            op == self@.node(v).op,
    {
        self.nodes[v.id].op
    }

    /// The node's operand set, in order of insertion; `None` on a leaf.
    pub fn prev(&self, v: Value) -> (prev: Option<&Vec<Value>>)
        requires
            self@.contains(v),
        ensures
            (prev is Some) == (self@.node(v).prev is Some),
            prev matches Some(set) ==> self@.node(v).prev == Some(set@),
    {
        self.nodes[v.id].prev.as_ref()
    }

    /// The node's label, if it has one.
    pub fn label(&self, v: Value) -> (label: Option<&String>)
        requires
            self@.contains(v),
        ensures
            (label is Some) == (self@.node(v).label is Some),
            label matches Some(l) ==> self@.node(v).label == Some(l@),
    {
        self.nodes[v.id].label.as_ref()
    }
}

} // verus!
