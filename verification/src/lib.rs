//! Weighted binary tree nodes for building Huffman-style prefix-code trees.
//!
//! A [`Node`] carries an aggregate weight and an optional payload datum, with
//! two exclusively owned optional children. Linking a child adds its weight
//! into the parent; nodes order inversely by weight so that a max-heap pops
//! the lightest node first; `find_path` recovers the bit-path of a single
//! datum and `walk` fills a [`CodeTable`] with the path of every datum.

pub mod code_table;
pub mod node;
pub mod order;

pub use code_table::CodeTable;
pub use node::Node;
