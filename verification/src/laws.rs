//! What holds of every graph, stated over the model and proved.

use vstd::prelude::*;
use crate::node::{GraphView, NodeView, Operation, Value};
use crate::scalar::{spec_is_nan, spec_is_zero, spec_scalar_eq};

verus! {

/// Equality of numbers is symmetric.
pub proof fn scalar_eq_symmetric(a: u32, b: u32)
    ensures
        spec_scalar_eq(a, b) == spec_scalar_eq(b, a),
{
}

/// Equality of numbers is transitive.
pub proof fn scalar_eq_transitive(a: u32, b: u32, c: u32)
    requires
        spec_scalar_eq(a, b),
        spec_scalar_eq(b, c),
    ensures
        spec_scalar_eq(a, c),
{
}

/// A number equals itself exactly when it is not a NaN.
pub proof fn scalar_eq_reflexive_but_for_nan(a: u32)
    ensures
        spec_scalar_eq(a, a) == !spec_is_nan(a),
{
}

/// A new leaf holds the scalar it was made from and nothing else: no gradient,
/// no operands, no operation, no label. The nodes that were there are as they
/// were.
pub proof fn leaf_holds_its_scalar_only(g: GraphView, data: u32)
    requires
        g.has_room(),
    ensures
        g.with_leaf(data).contains(g.next()),
        g.with_leaf(data).node(g.next()).data == data,
        g.with_leaf(data).node(g.next()).grad is None,
        g.with_leaf(data).node(g.next()).prev is None,
        g.with_leaf(data).node(g.next()).op is None,
        g.with_leaf(data).node(g.next()).label is None,
        forall|v: Value| g.contains(v) ==> g.with_leaf(data).node(v) == g.node(v),
{
}

/// A new derived node holds the scalar, the operation and the set made of the
/// operands it was made from, and neither gradient nor label. The nodes that
/// were there, the operands among them, are as they were.
pub proof fn derived_holds_what_it_was_given(
    g: GraphView,
    data: u32,
    operands: Seq<Value>,
    op: Operation,
)
    requires
        g.has_room(),
    ensures
        g.with_derived(data, operands, op).contains(g.next()),
        g.with_derived(data, operands, op).node(g.next()).data == data,
        g.with_derived(data, operands, op).node(g.next()).op == Some(op),
        g.with_derived(data, operands, op).node(g.next()).prev == Some(g.collect(operands)),
        g.with_derived(data, operands, op).node(g.next()).grad is None,
        g.with_derived(data, operands, op).node(g.next()).label is None,
        forall|v: Value|
            g.contains(v) ==> g.with_derived(data, operands, op).node(v) == g.node(v),
{
}

/// In a well-formed graph a node is a leaf or a derived node: it has an operand
/// set and an operation, or neither.
pub proof fn leaf_or_derived(g: GraphView, v: Value)
    requires
        g.wf(),
        g.contains(v),
    ensures
        g.node(v).is_leaf() != g.node(v).is_derived(),
{
    assert(g.node_wf(v.id as int));
}

/// In a well-formed graph every operand of a node was made before the node, so
/// no chain of operands leads from a node back to itself.
pub proof fn operands_come_first(g: GraphView, v: Value, k: int)
    requires
        g.wf(),
        g.contains(v),
        g.node(v).prev is Some,
        0 <= k < g.node(v).prev->0.len(),
    ensures
        g.node(v).prev->0[k].id < v.id,
        g.contains(g.node(v).prev->0[k]),
{
    assert(g.node_wf(v.id as int));
}

/// In a well-formed graph no two members of an operand set are equal.
pub proof fn operands_are_distinct(g: GraphView, v: Value, j: int, k: int)
    requires
        g.wf(),
        g.contains(v),
        g.node(v).prev is Some,
        0 <= j < k < g.node(v).prev->0.len(),
    ensures
        !g.equal(g.node(v).prev->0[j], g.node(v).prev->0[k]),
{
    assert(g.node_wf(v.id as int));
}

/// A label written through a copy of a handle is read through the handle, and
/// one written through the handle is read through the copy: both name the same
/// record.
pub proof fn label_is_shared_by_copies(g: GraphView, handle: Value, copy: Value, name: Seq<char>)
    requires
        g.contains(handle),
        copy == handle,
    ensures
        g.with_label(copy, name).node(handle).label == Some(name),
        g.with_label(handle, name).node(copy).label == Some(name),
{
}

/// Labelling changes the label of the one node and nothing else: not its
/// scalar, gradient, operands or operation, and no other node.
pub proof fn label_changes_the_label_only(g: GraphView, v: Value, name: Seq<char>)
    requires
        g.contains(v),
    ensures
        g.with_label(v, name).len() == g.len(),
        g.with_label(v, name).node(v) == (NodeView { label: Some(name), ..g.node(v) }),
        forall|w: Value| g.contains(w) && w != v ==> g.with_label(v, name).node(w) == g.node(w),
{
}

/// Of two labels given to a node one after the other only the second is in
/// effect: the graph, and with it the text of each of its nodes, is as if the
/// first had never been given.
pub proof fn last_label_wins(g: GraphView, v: Value, first: Seq<char>, second: Seq<char>)
    requires
        g.contains(v),
    ensures
        g.with_label(v, first).with_label(v, second) == g.with_label(v, second),
        g.with_label(v, first).with_label(v, second).node(v).label == Some(second),
        forall|w: Value, data_text: Seq<char>, grad_text: Seq<char>|
            g.with_label(v, first).with_label(v, second).rendering(w, data_text, grad_text)
                == g.with_label(v, second).rendering(w, data_text, grad_text),
{
    assert(g.with_label(v, first).with_label(v, second).nodes =~= g.with_label(v, second).nodes);
}

/// Whether two nodes are equal, and how each is hashed, does not depend on any
/// label.
pub proof fn labels_play_no_part(g: GraphView, v: Value, name: Seq<char>, a: Value, b: Value)
    requires
        g.contains(v),
        g.contains(a),
        g.contains(b),
    ensures
        g.with_label(v, name).equal(a, b) == g.equal(a, b),
        g.with_label(v, name).node(a).hash_key() == g.node(a).hash_key(),
{
}

/// Two nodes that hold the same scalar, not a NaN, and no gradient are equal
/// and are hashed alike, whatever their labels, their operands and their
/// operations are.
pub proof fn same_scalar_equal_and_hashed_alike(g: GraphView, a: Value, b: Value)
    requires
        g.contains(a),
        g.contains(b),
        g.node(a).data == g.node(b).data,
        !spec_is_nan(g.node(a).data),
        g.node(a).grad is None,
        g.node(b).grad is None,
    ensures
        g.equal(a, b),
        g.node(a).hash_key() == g.node(b).hash_key(),
{
}

/// Equal nodes are hashed alike unless a zero is involved: the two zeros are
/// equal as numbers and differ in their sign bit, which the hash key holds.
pub proof fn equal_nodes_hashed_alike_but_for_zeros(g: GraphView, a: Value, b: Value)
    requires
        g.contains(a),
        g.contains(b),
        g.equal(a, b),
        !spec_is_zero(g.node(a).data),
        g.node(a).grad matches Some(x) ==> !spec_is_zero(x),
    ensures
        g.node(a).hash_key() == g.node(b).hash_key(),
{
}

/// Two leaves made one after the other from the same scalar, not a NaN, and
/// then labelled differently are equal and are hashed alike.
pub proof fn twin_leaves_are_equal(g: GraphView, data: u32, first: Seq<char>, second: Seq<char>)
    requires
        !spec_is_nan(data),
        g.has_room(),
        g.with_leaf(data).has_room(),
    ensures
        ({
            let a = g.next();
            let b = g.with_leaf(data).next();
            let twins = g.with_leaf(data).with_leaf(data).with_label(a, first).with_label(
                b,
                second,
            );
            &&& a != b
            &&& twins.equal(a, b)
            &&& twins.node(a).hash_key() == twins.node(b).hash_key()
            &&& twins.collect(seq![a, b]) == seq![a]
        }),
{
    let a = g.next();
    let b = g.with_leaf(data).next();
    let twins = g.with_leaf(data).with_leaf(data).with_label(a, first).with_label(b, second);
    assert(twins.equal(a, b));
    equal_operands_collapse(twins, a, b);
}

/// Of two equal operands only the first enters the operand set.
pub proof fn equal_operands_collapse(g: GraphView, a: Value, b: Value)
    requires
        g.equal(a, b),
    ensures
        g.collect(seq![a, b]) == seq![a],
{
    let both = seq![a, b];
    let one = both.drop_last();
    assert(one =~= seq![a]);
    assert(one.drop_last() =~= Seq::<Value>::empty());
    assert(g.collect(one.drop_last()) =~= Seq::<Value>::empty());
    assert(!g.holds_equal(Seq::<Value>::empty(), a));
    assert(g.collect(one) =~= seq![a]);
    assert(g.equal(seq![a][0], b));
    assert(g.holds_equal(seq![a], both.last()));
}

/// Of two operands that are not equal both enter the operand set, in their
/// order. A node that holds a NaN is not equal to itself, so it enters twice
/// where it is both operands.
pub proof fn unequal_operands_both_stay(g: GraphView, a: Value, b: Value)
    requires
        !g.equal(a, b),
    ensures
        g.collect(seq![a, b]) == seq![a, b],
{
    let both = seq![a, b];
    let one = both.drop_last();
    assert(one =~= seq![a]);
    assert(one.drop_last() =~= Seq::<Value>::empty());
    assert(g.collect(one.drop_last()) =~= Seq::<Value>::empty());
    assert(!g.holds_equal(Seq::<Value>::empty(), a));
    assert(g.collect(one) =~= seq![a]);
    assert(!g.holds_equal(seq![a], b)) by {
        if g.holds_equal(seq![a], b) {
            let k = choose|k: int| 0 <= k < seq![a].len() && #[trigger] g.equal(seq![a][k], b);
            assert(seq![a][k] == a);
        }
    }
    assert(g.collect(both) =~= seq![a, b]);
}

} // verus!
