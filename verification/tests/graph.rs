use scalar_graph::graph::Graph;
use scalar_graph::node::{Operation, Value};

fn bits(x: f32) -> u32 {
    x.to_bits()
}

#[test]
fn new_graph_is_empty() {
    let g = Graph::new();
    assert_eq!(g.len(), 0);
    assert!(!g.contains(Value { id: 0 }));
}

#[test]
fn leaf_holds_value_and_nothing_else() {
    let mut g = Graph::new();
    let v = g.leaf(bits(2.5));
    assert_eq!(g.len(), 1);
    assert!(g.contains(v));
    assert_eq!(g.data(v), bits(2.5));
    assert_eq!(f32::from_bits(g.data(v)), 2.5);
    assert_eq!(g.grad(v), None);
    assert_eq!(g.prev(v), None);
    assert_eq!(g.op(v), None);
    assert_eq!(g.label(v), None);
}

#[test]
fn leaves_get_consecutive_handles() {
    let mut g = Graph::new();
    let a = g.leaf(bits(1.0));
    let b = g.leaf(bits(1.0));
    let c = g.leaf(bits(7.0));
    assert_eq!(a, Value { id: 0 });
    assert_eq!(b, Value { id: 1 });
    assert_eq!(c, Value { id: 2 });
    assert_ne!(a, b);
    assert!(!g.contains(Value { id: 3 }));
}

#[test]
fn add_node_holds_sum_and_operands() {
    let mut g = Graph::new();
    let a = g.leaf(bits(1.5));
    let b = g.leaf(bits(2.25));
    let sum = f32::from_bits(g.data(a)) + f32::from_bits(g.data(b));
    let s = g.apply(Operation::Add, a, b, sum.to_bits());
    assert_eq!(f32::from_bits(g.data(s)), 3.75);
    assert_eq!(g.op(s), Some(Operation::Add));
    assert_eq!(g.prev(s), Some(&vec![a, b]));
    assert_eq!(g.grad(s), None);
    assert_eq!(g.label(s), None);
}

#[test]
fn mul_node_holds_product_and_operands() {
    let mut g = Graph::new();
    let a = g.leaf(bits(2.0));
    let b = g.leaf(bits(-3.0));
    let product = f32::from_bits(g.data(a)) * f32::from_bits(g.data(b));
    let p = g.apply(Operation::Mul, a, b, product.to_bits());
    assert_eq!(f32::from_bits(g.data(p)), -6.0);
    assert_eq!(g.op(p), Some(Operation::Mul));
    assert_eq!(g.prev(p), Some(&vec![a, b]));
}

#[test]
fn operation_leaves_operands_untouched() {
    let mut g = Graph::new();
    let a = g.leaf(bits(2.0));
    let b = g.leaf(bits(-3.0));
    g.with_label(a, "a");
    let p = g.apply(Operation::Mul, a, b, bits(-6.0));
    assert_eq!(g.data(a), bits(2.0));
    assert_eq!(g.data(b), bits(-3.0));
    assert_eq!(g.prev(a), None);
    assert_eq!(g.op(b), None);
    assert_eq!(g.label(a).map(|l| l.as_str()), Some("a"));
    assert_eq!(g.label(b), None);
    assert_eq!(p, Value { id: 2 });
    assert_eq!(g.len(), 3);
}

#[test]
fn derived_trusts_the_given_scalar() {
    let mut g = Graph::new();
    let a = g.leaf(bits(2.0));
    let b = g.leaf(bits(3.0));
    let n = g.derived(bits(100.0), &vec![a, b], Operation::Add);
    assert_eq!(g.data(n), bits(100.0));
}

#[test]
fn derived_takes_any_number_of_operands() {
    let mut g = Graph::new();
    let a = g.leaf(bits(1.0));
    let b = g.leaf(bits(2.0));
    let c = g.leaf(bits(3.0));
    let none = g.derived(bits(0.0), &vec![], Operation::Add);
    assert_eq!(g.prev(none), Some(&vec![]));
    assert_eq!(g.op(none), Some(Operation::Add));
    let three = g.derived(bits(6.0), &vec![c, a, b], Operation::Mul);
    assert_eq!(g.prev(three), Some(&vec![c, a, b]));
}

#[test]
fn operands_are_older_than_their_node() {
    let mut g = Graph::new();
    let a = g.leaf(bits(2.0));
    let b = g.leaf(bits(-3.0));
    let c = g.leaf(bits(10.0));
    let e = g.apply(Operation::Mul, a, b, bits(-6.0));
    let f = g.apply(Operation::Add, e, c, bits(4.0));
    for n in [e, f] {
        for o in g.prev(n).unwrap() {
            assert!(o.id < n.id);
        }
    }
}

#[test]
fn label_is_shared_between_copies() {
    let mut g = Graph::new();
    let handle = g.leaf(bits(2.0));
    let copy = handle.clone();
    assert_eq!(copy, handle);
    g.with_label(copy, "through the copy");
    assert_eq!(g.label(handle).map(|l| l.as_str()), Some("through the copy"));
    g.with_label(handle, "through the handle");
    assert_eq!(g.label(copy).map(|l| l.as_str()), Some("through the handle"));
    assert_eq!(g.len(), 1);
}

#[test]
fn with_label_returns_the_same_handle() {
    let mut g = Graph::new();
    let a = g.leaf(bits(2.0));
    let b = g.leaf(bits(5.0));
    let r = g.with_label(b, "b");
    assert_eq!(r, b);
    assert_eq!(g.label(a), None);
    assert_eq!(g.data(b), bits(5.0));
}

#[test]
fn second_label_replaces_first() {
    let mut g = Graph::new();
    let a = g.leaf(bits(2.0));
    g.with_label(a, "first");
    g.with_label(a, "second");
    assert_eq!(g.label(a).map(|l| l.as_str()), Some("second"));
    assert_eq!(g.render(a, "2", ""), "(second | data: 2)");
}

#[test]
fn equal_leaves_compare_equal_and_hash_alike() {
    let mut g = Graph::new();
    let x = g.leaf(bits(2.0));
    let y = g.leaf(bits(2.0));
    g.with_label(x, "x");
    g.with_label(y, "y");
    assert_ne!(x, y);
    assert!(g.equal(x, y));
    assert!(g.equal(y, x));
    assert_eq!(g.hash_key(x), g.hash_key(y));
    assert_eq!(g.hash_key(x), (0x4000_0000, 0));
}

#[test]
fn equal_operands_collapse_into_one() {
    let mut g = Graph::new();
    let x = g.leaf(bits(2.0));
    let y = g.leaf(bits(2.0));
    g.with_label(x, "x");
    g.with_label(y, "y");
    let s = g.apply(Operation::Add, x, y, bits(4.0));
    assert_eq!(g.prev(s), Some(&vec![x]));
    let t = g.apply(Operation::Add, y, x, bits(4.0));
    assert_eq!(g.prev(t), Some(&vec![y]));
}

#[test]
fn same_node_twice_is_one_operand() {
    let mut g = Graph::new();
    let x = g.leaf(bits(3.0));
    let sq = g.apply(Operation::Mul, x, x, bits(9.0));
    assert_eq!(g.prev(sq), Some(&vec![x]));
}

#[test]
fn unequal_leaves_differ() {
    let mut g = Graph::new();
    let x = g.leaf(bits(2.0));
    let y = g.leaf(bits(2.5));
    assert!(!g.equal(x, y));
    assert_ne!(g.hash_key(x), g.hash_key(y));
}

#[test]
fn derived_and_leaf_with_same_scalar_are_equal() {
    let mut g = Graph::new();
    let a = g.leaf(bits(2.0));
    let b = g.leaf(bits(3.0));
    let six = g.leaf(bits(6.0));
    let p = g.apply(Operation::Mul, a, b, bits(6.0));
    assert!(g.equal(p, six));
    assert_eq!(g.hash_key(p), g.hash_key(six));
    let q = g.apply(Operation::Add, six, p, bits(12.0));
    assert_eq!(g.prev(q), Some(&vec![six]));
}

#[test]
fn the_two_zeros_are_equal_but_hash_apart() {
    let mut g = Graph::new();
    let plus = g.leaf(bits(0.0));
    let minus = g.leaf(bits(-0.0));
    assert!(g.equal(plus, minus));
    assert_eq!(g.hash_key(plus), (0, 0));
    assert_eq!(g.hash_key(minus), (0x8000_0000, 0));
    let s = g.apply(Operation::Add, plus, minus, bits(0.0));
    assert_eq!(g.prev(s), Some(&vec![plus]));
}

#[test]
fn nan_is_equal_to_nothing() {
    let mut g = Graph::new();
    let n = g.leaf(f32::NAN.to_bits());
    let m = g.leaf(f32::NAN.to_bits());
    assert!(!g.equal(n, n));
    assert!(!g.equal(n, m));
    assert_eq!(g.hash_key(n), g.hash_key(m));
    let s = g.apply(Operation::Add, n, n, f32::NAN.to_bits());
    assert_eq!(g.prev(s), Some(&vec![n, n]));
}

#[test]
fn dedup_keeps_first_of_each_group() {
    let mut g = Graph::new();
    let a = g.leaf(bits(1.0));
    let b = g.leaf(bits(2.0));
    let c = g.leaf(bits(1.0));
    let d = g.leaf(bits(3.0));
    let e = g.leaf(bits(2.0));
    let n = g.derived(bits(9.0), &vec![a, b, c, d, e, a], Operation::Add);
    assert_eq!(g.prev(n), Some(&vec![a, b, d]));
}

#[test]
fn foreign_handle_is_not_contained() {
    let mut small = Graph::new();
    let mut large = Graph::new();
    small.leaf(bits(1.0));
    large.leaf(bits(1.0));
    let far = large.leaf(bits(2.0));
    assert!(large.contains(far));
    assert!(!small.contains(far));
}

#[test]
fn operation_symbols() {
    assert_eq!(Operation::Add.symbol(), "+");
    assert_eq!(Operation::Mul.symbol(), "*");
}
