//! The weighted tree node: construction, linking, and the two depth-first
//! traversals that recover bit-paths.

use vstd::prelude::*;

use crate::code_table::CodeTable;
use vstd::string::StringExecFns;

verus! {

/// A node of a Huffman-style prefix-code tree.
///
/// `weight` is the aggregate weight of the whole subtree rooted here: the
/// weight the node was created with, plus the weight of each child at the
/// moment it was linked. `data` is the payload datum, present by convention
/// only on leaves. Each child subtree is exclusively owned by its parent.
pub struct Node {
    pub weight: u64,
    pub data: Option<char>,
    pub left: Option<Box<Node>>,
    pub right: Option<Box<Node>>,
}

impl Node {
    /// The node that `new` builds: the given weight and datum, no children.
    pub open spec fn new_spec(weight: u64, data: Option<char>) -> Node {
        Node { weight, data, left: None, right: None }
    }

    /// The node that `link_left` leaves behind: the child's weight added in,
    /// the child owned in the left slot, everything else unchanged.
    pub open spec fn link_left_spec(self, link: Node) -> Node {
        Node {
            weight: (self.weight + link.weight) as u64,
            data: self.data,
            left: Some(Box::new(link)),
            right: self.right,
        }
    }

    /// The node that `link_right` leaves behind, symmetric to `link_left_spec`.
    pub open spec fn link_right_spec(self, link: Node) -> Node {
        Node {
            weight: (self.weight + link.weight) as u64,
            data: self.data,
            left: self.left,
            right: Some(Box::new(link)),
        }
    }

    /// Constructs a childless node with the given weight and optional datum.
    pub fn new(weight: u64, data: Option<char>) -> (node: Node)
        ensures
            node == Node::new_spec(weight, data),
    {
        Node { weight, data, left: None, right: None }
    }

    /// Returns the current aggregate weight. No side effects.
    pub fn get_weight(&self) -> (w: u64)
        ensures
            w == self.weight,
    {
        self.weight
    }

    /// Transfers ownership of `link` into the left slot and adds its weight
    /// into this node's weight. Any previously linked left child is dropped
    /// without its weight being subtracted first: callers must link each side
    /// at most once.
    pub fn link_left(&mut self, link: Node)
        requires
            old(self).weight + link.weight <= u64::MAX,
        ensures
            *final(self) == old(self).link_left_spec(link),
    {
        self.weight = self.weight + link.weight;
        self.left = Some(Box::new(link));
    }

    /// Transfers ownership of `link` into the right slot and adds its weight
    /// into this node's weight, under the same contract as `link_left`.
    pub fn link_right(&mut self, link: Node)
        requires
            old(self).weight + link.weight <= u64::MAX,
        ensures
            *final(self) == old(self).link_right_spec(link),
    {
        self.weight = self.weight + link.weight;
        self.right = Some(Box::new(link));
    }

    /// Borrowed, read-only access to the left child, absent if unlinked.
    pub fn get_left(&self) -> (r: Option<&Node>)
        ensures
            r is Some <==> self.left is Some,
            r is Some ==> *r->0 == *self.left->0,
    {
        if let Some(b) = &self.left {
            Some(&**b)
        } else {
            None
        }
    }

    /// Borrowed, read-only access to the right child, absent if unlinked.
    pub fn get_right(&self) -> (r: Option<&Node>)
        ensures
            r is Some <==> self.right is Some,
            r is Some ==> *r->0 == *self.right->0,
    {
        if let Some(b) = &self.right {
            Some(&**b)
        } else {
            None
        }
    }

    /// What `find_path` returns on the subtree `n`: a depth-first,
    /// left-before-right search for the first datum-bearing node whose datum
    /// equals `find`. A node that carries a datum is terminal: when its datum
    /// does not match, its children are never explored. The accumulated
    /// `path` grows by `lsym` on each left descent and `rsym` on each right
    /// descent; a match at an empty accumulated path yields `lsym` as a
    /// one-symbol fallback.
    pub open spec fn find_path_spec(
        n: Node,
        find: char,
        lsym: Seq<char>,
        rsym: Seq<char>,
        path: Seq<char>,
    ) -> Option<Seq<char>>
        decreases n,
    {
        match n.data {
            Some(d) => if d == find {
                if path.len() == 0 {
                    Some(lsym)
                } else {
                    Some(path)
                }
            } else {
                None
            },
            None => {
                let lres = match n.left {
                    Some(l) => Self::find_path_spec(*l, find, lsym, rsym, path + lsym),
                    None => None,
                };
                match lres {
                    Some(p) => Some(p),
                    None => match n.right {
                        Some(r) => Self::find_path_spec(*r, find, lsym, rsym, path + rsym),
                        None => None,
                    },
                }
            },
        }
    }

    /// Depth-first search for the first leaf whose datum equals `find`,
    /// returning the concatenation of `path_char.0` / `path_char.1` chosen at
    /// each descent from `node` to that leaf, or absence when no datum in the
    /// subtree matches.
    pub fn find_path(node: &Node, find: &char, path_char: (&str, &str)) -> (r: Option<String>)
        ensures
            match r {
                Some(s) => Self::find_path_spec(
                    *node,
                    *find,
                    path_char.0@,
                    path_char.1@,
                    Seq::<char>::empty(),
                ) == Some(s@),
                None => Self::find_path_spec(
                    *node,
                    *find,
                    path_char.0@,
                    path_char.1@,
                    Seq::<char>::empty(),
                ) is None,
            },
    {
        find_path_recurse(node, find, path_char, String::new())
    }

    /// The table that `walk` leaves behind when started on the subtree `n`
    /// with the accumulated path `path` and the table `m`: every
    /// datum-bearing node, visited depth-first and left before right, maps
    /// its datum to its accumulated path — `['0']` exactly when that path is
    /// empty — with a later visit overwriting an earlier entry under the same
    /// datum. Unlike `find_path_spec`, a datum-bearing node's children are
    /// still visited.
    pub open spec fn walk_spec(n: Node, path: Seq<char>, m: Map<char, Seq<char>>) -> Map<
        char,
        Seq<char>,
    >
        decreases n,
    {
        let m0 = match n.data {
            Some(d) => if path.len() == 0 {
                m.insert(d, seq!['0'])
            } else {
                m.insert(d, path)
            },
            None => m,
        };
        let m1 = match n.left {
            Some(l) => Self::walk_spec(*l, path.push('0'), m0),
            None => m0,
        };
        match n.right {
            Some(r) => Self::walk_spec(*r, path.push('1'), m1),
            None => m1,
        }
    }

    /// Depth-first traversal that records, for every datum in the subtree,
    /// the bit-path from the start of the walk to the node carrying it,
    /// using `"0"` for left descents, `"1"` for right descents, and `"0"`
    /// alone for a datum found at an empty accumulated path. Existing
    /// entries of `map` under unrelated data are kept.
    pub fn walk(&self, path: String, map: &mut CodeTable)
        requires
            old(map).wf(),
        ensures
            final(map).wf(),
            final(map)@ == Self::walk_spec(*self, path@, old(map)@),
        decreases *self,
    {
        if let Some(data) = self.data {
            if path.as_str().is_empty() {
                let zero = String::from_str("0");
                proof {
                    reveal_strlit("0");
                    assert(zero@ =~= seq!['0']);
                }
                map.insert(data, zero);
            } else {
                map.insert(data, path.clone());
            }
        }
        if let Some(left_node) = self.get_left() {
            let left_path = path.clone().concat("0");
            proof {
                reveal_strlit("0");
                assert(left_path@ =~= path@.push('0'));
            }
            left_node.walk(left_path, map);
        }
        if let Some(right_node) = self.get_right() {
            let right_path = path.clone().concat("1");
            proof {
                reveal_strlit("1");
                assert(right_path@ =~= path@.push('1'));
            }
            right_node.walk(right_path, map);
        }
    }
}

/// The recursive step behind `Node::find_path`, carrying the accumulated
/// path from the root down.
fn find_path_recurse(node: &Node, find: &char, path_char: (&str, &str), path: String) -> (r:
    Option<String>)
    ensures
        match r {
            Some(s) => Node::find_path_spec(*node, *find, path_char.0@, path_char.1@, path@)
                == Some(s@),
            None => Node::find_path_spec(*node, *find, path_char.0@, path_char.1@, path@) is None,
        },
    decreases *node,
{
    let left = path_char.0;
    let right = path_char.1;

    if let Some(data) = node.data {
        if data == *find {
            if path.as_str().is_empty() {
                return Some(left.to_owned());
            }
            return Some(path);
        }
        return None;
    }

    if let Some(left_node) = node.get_left() {
        let left_path = find_path_recurse(left_node, find, path_char, path.clone().concat(left));
        if let Some(p) = left_path {
            return Some(p);
        }
    }

    if let Some(right_node) = node.get_right() {
        let right_path = find_path_recurse(right_node, find, path_char, path.clone().concat(right));
        if let Some(p) = right_path {
            return Some(p);
        }
    }

    None
}

/// Weight aggregation on linking: a node made with weight `w1` that links a
/// fresh node of weight `w2` on its left ends with weight `w1 + w2`, while
/// the linked child keeps its own weight `w2`.
pub proof fn lemma_link_weight_aggregation(w1: u64, d1: Option<char>, w2: u64, d2: Option<char>)
    requires
        w1 + w2 <= u64::MAX,
    ensures
        Node::new_spec(w1, d1).link_left_spec(Node::new_spec(w2, d2)).weight == w1 + w2,
        Node::new_spec(w1, d1).link_left_spec(Node::new_spec(w2, d2)).left is Some,
        (*Node::new_spec(w1, d1).link_left_spec(Node::new_spec(w2, d2)).left->0).weight == w2,
{
}

/// Inspection is idempotent: `get_weight` takes the node by shared reference,
/// so it cannot mutate it, and any two of its results on the same node are
/// equal.
pub proof fn lemma_get_weight_idempotent(n: &Node, w1: u64, w2: u64)
    requires
        call_ensures(Node::get_weight, (n,), w1),
        call_ensures(Node::get_weight, (n,), w2),
    ensures
        w1 == w2,
{
}

/// Inspection is idempotent: `get_left` takes the node by shared reference,
/// so it cannot mutate it, and any two of its results on the same node agree
/// on whether a left child is present and on which node it is.
pub proof fn lemma_get_left_idempotent<'a>(n: &'a Node, r1: Option<&'a Node>, r2: Option<
    &'a Node,
>)
    requires
        call_ensures(Node::get_left, (n,), r1),
        call_ensures(Node::get_left, (n,), r2),
    ensures
        r1 is Some <==> r2 is Some,
        r1 is Some ==> *r1->0 == *r2->0,
{
}

/// Inspection is idempotent: `get_right` takes the node by shared reference,
/// so it cannot mutate it, and any two of its results on the same node agree
/// on whether a right child is present and on which node it is.
pub proof fn lemma_get_right_idempotent<'a>(n: &'a Node, r1: Option<&'a Node>, r2: Option<
    &'a Node,
>)
    requires
        call_ensures(Node::get_right, (n,), r1),
        call_ensures(Node::get_right, (n,), r2),
    ensures
        r1 is Some <==> r2 is Some,
        r1 is Some ==> *r1->0 == *r2->0,
{
}

} // verus!
