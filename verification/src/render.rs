//! The text of a node.
//!
//! A node is written between brackets as its label, its scalar, its gradient
//! where it has one, and, where it has operands, the sign of its operation and
//! the labels of its operands:
//!
//! ```text
//! (e | data: -6 | prev: * a b)
//! ```
//!
//! The graph holds bit patterns, not decimal numbers, so the caller supplies the
//! decimal text of the scalar and of the gradient.

use vstd::prelude::*;
use crate::graph::Graph;
use crate::node::{GraphView, Operation, Value};

verus! {

/// The text made of a node's parts: the label, the scalar, and the gradient and
/// operand sections where there are any.
pub open spec fn spec_compose(
    label: Seq<char>,
    data_text: Seq<char>,
    grad_text: Option<Seq<char>>,
    prev_text: Option<Seq<char>>,
) -> Seq<char> {
    let grad_section = match grad_text {
        Some(g) => " | grad: "@ + g,
        None => Seq::empty(),
    };
    let prev_section = match prev_text {
        Some(p) => " | prev: "@ + p,
        None => Seq::empty(),
    };
    "("@ + label + " | data: "@ + data_text + grad_section + prev_section + ")"@
}

/// The operand section's text: the sign of the operation, a space, and the
/// operands' labels.
pub open spec fn spec_operand_text(op: Option<Operation>, labels: Seq<char>) -> Seq<char> {
    let sign = match op {
        Some(o) => o.spec_symbol(),
        None => Seq::empty(),
    };
    sign + " "@ + labels
}

impl GraphView {
    /// The labels of the nodes of `set`, in order, with one space between
    /// neighbours. A node without a label counts as one with the empty label.
    pub open spec fn joined_labels(self, set: Seq<Value>) -> Seq<char>
        decreases set.len(),
    {
        if set.len() == 0 {
            Seq::empty()
        } else if set.len() == 1 {
            self.node(set[0]).label_text()
        } else {
            self.joined_labels(set.drop_last()) + " "@ + self.node(set.last()).label_text()
        }
    }

    /// The text of the operand section of `v`, if its text has one: a node
    /// has the section exactly when its operand set has a member.
    pub open spec fn operand_section(self, v: Value) -> Option<Seq<char>> {
        match self.node(v).prev {
            Some(set) if set.len() > 0 => Some(
                spec_operand_text(self.node(v).op, self.joined_labels(set)),
            ),
            _ => None,
        }
    }

    /// The text of the node `v`, given the decimal text of its scalar and of
    /// its gradient. The latter is used only where the node has a gradient.
    pub open spec fn rendering(
        self,
        v: Value,
        data_text: Seq<char>,
        grad_text: Seq<char>,
    ) -> Seq<char> {
        spec_compose(
            self.node(v).label_text(),
            data_text,
            match self.node(v).grad {
                Some(_) => Some(grad_text),
                None => None,
            },
            self.operand_section(v),
        )
    }
}

/// Writes a node's text from its parts.
pub fn compose(
    label: &str,
    data_text: &str,
    grad_text: Option<&str>,
    prev_text: Option<&str>,
) -> (out: String)
    ensures
        out@ == spec_compose(
            label@,
            data_text@,
            match grad_text {
                Some(g) => Some(g@),
                None => None,
            },
            match prev_text {
                Some(p) => Some(p@),
                None => None,
            },
        ),
{
    let mut out = String::from_str("(");
    out.append(label);
    out.append(" | data: ");
    out.append(data_text);
    let mut grad_section = String::new();
    if let Some(g) = grad_text {
        grad_section.append(" | grad: ");
        grad_section.append(g);
        assert(grad_section@ =~= " | grad: "@ + g@);
    }
    out.append(grad_section.as_str());
    let mut prev_section = String::new();
    if let Some(p) = prev_text {
        prev_section.append(" | prev: ");
        prev_section.append(p);
        assert(prev_section@ =~= " | prev: "@ + p@);
    }
    out.append(prev_section.as_str());
    out.append(")");
    out
}

impl Graph {
    /// The labels of the nodes of `set`, joined by single spaces.
    fn joined_labels(&self, set: &Vec<Value>) -> (text: String)
        requires
            self@.contains_all(set@),
        ensures
            text@ == self@.joined_labels(set@),
    {
        let mut text = String::new();
        let mut k: usize = 0;
        while k < set.len()
            invariant
                k <= set.len(),
                self@.contains_all(set@),
                text@ == self@.joined_labels(set@.take(k as int)),
            decreases set.len() - k,
        {
            let ghost before = text@;
            if k > 0 {
                text.append(" ");
            }
            if let Some(l) = self.label(set[k]) {
                text.append(l.as_str());
            }
            proof {
                let upto = set@.take(k + 1);
                assert(upto.drop_last() =~= set@.take(k as int));
                assert(upto.last() == set@[k as int]);
                assert(upto[0] == set@[0]);
                let l = self@.node(set@[k as int]).label_text();
                if k == 0 {
                    assert(before =~= Seq::<char>::empty());
                    assert(text@ =~= l);
                } else {
                    assert(text@ =~= before + " "@ + l);
                }
            }
            k += 1;
        }
        proof {
            assert(set@.take(set.len() as int) =~= set@);
        }
        text
    }

    /// The text of the node `v`. `data_text` is the decimal text of its
    /// scalar; `grad_text` is that of its gradient, and is left unread where
    /// the node has none.
    pub fn render(&self, v: Value, data_text: &str, grad_text: &str) -> (out: String)
        requires
            self.wf(),
            self@.contains(v),
        ensures
            out@ == self@.rendering(v, data_text@, grad_text@),
    {
        let label: &str = match self.label(v) {
            Some(l) => l.as_str(),
            None => "",
        };
        proof {
            reveal_strlit("");
            assert(label@ =~= self@.node(v).label_text());
        }
        let grad: Option<&str> = match self.grad(v) {
            Some(_) => Some(grad_text),
            None => None,
        };
        let mut operand_text = String::new();
        let mut shown: bool = false;
        if let Some(set) = self.prev(v) {
            if set.len() > 0 {
                proof {
                    assert(self@.node_wf(v.id as int));
                    assert(self@.contains_all(set@));
                }
                if let Some(o) = self.op(v) {
                    operand_text.append(o.symbol());
                }
                operand_text.append(" ");
                let labels = self.joined_labels(set);
                operand_text.append(labels.as_str());
                shown = true;
                assert(operand_text@ =~= spec_operand_text(
                    self@.node(v).op,
                    self@.joined_labels(set@),
                ));
            }
        }
        let prev: Option<&str> = if shown {
            Some(operand_text.as_str())
        } else {
            None
        };
        compose(label, data_text, grad, prev)
    }
}

} // verus!
