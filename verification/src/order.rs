//! Ordering of nodes for priority-queue use: by weight only, inverted.

use vstd::prelude::*;

use crate::node::Node;
use std::cmp::Ordering;
use vstd::std_specs::cmp::PartialEqSpec;
use vstd::std_specs::cmp::PartialOrdSpec;

verus! {

impl PartialEq for Node {
    /// Two nodes are equal exactly when their weights are equal; datum and
    /// subtree shape are ignored.
    fn eq(&self, other: &Node) -> (r: bool) {
        self.weight == other.weight
    }
}

impl vstd::std_specs::cmp::PartialEqSpecImpl for Node {
    open spec fn obeys_eq_spec() -> bool {
        true
    }

    open spec fn eq_spec(&self, other: &Node) -> bool {
        self.weight == other.weight
    }
}

impl PartialOrd for Node {
    /// Nodes are totally ordered by weight alone, and the order is inverted:
    /// the node with the smaller weight is the greater one. Dropped into a
    /// binary max-heap, this makes `pop` return the minimum-weight node, the
    /// access pattern Huffman-tree construction needs.
    fn partial_cmp(&self, other: &Node) -> (r: Option<Ordering>) {
        if other.weight < self.weight {
            Some(Ordering::Less)
        } else if other.weight == self.weight {
            Some(Ordering::Equal)
        } else {
            Some(Ordering::Greater)
        }
    }
}

impl vstd::std_specs::cmp::PartialOrdSpecImpl for Node {
    open spec fn obeys_partial_cmp_spec() -> bool {
        true
    }

    open spec fn partial_cmp_spec(&self, other: &Node) -> Option<Ordering> {
        if other.weight < self.weight {
            Some(Ordering::Less)
        } else if other.weight == self.weight {
            Some(Ordering::Equal)
        } else {
            Some(Ordering::Greater)
        }
    }
}

/// Order inversion: a node of strictly smaller weight compares as the
/// greater one, so heap-max corresponds to min-weight.
pub proof fn lemma_order_inversion(a: Node, b: Node)
    requires
        a.weight < b.weight,
    ensures
        a.partial_cmp_spec(&b) == Some(Ordering::Greater),
        b.partial_cmp_spec(&a) == Some(Ordering::Less),
        !a.eq_spec(&b),
{
}

} // verus!
