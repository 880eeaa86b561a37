use branchrs::CodeTable;
use branchrs::Node;

#[test]
fn test_get_weight() {
    let root_node = Node::new(10, Some('a'));
    assert_eq!(root_node.get_weight(), 10);
}

#[test]
fn test_node_creation() {
    let root_node = Node::new(10, Some('c'));

    assert_eq!(root_node.get_weight(), 10);
    assert_eq!(root_node.data, Some('c'));
}

#[test]
fn test_link_left() {
    let mut root_node = Node::new(10, Some('a'));
    let left_node = Node::new(20, Some('b'));

    root_node.link_left(left_node);

    let left_weight = root_node.get_left().unwrap().get_weight();
    let root_weight = root_node.get_weight();

    let left_data = root_node.get_left().unwrap().data;

    assert_eq!(left_weight, 20);
    assert_eq!(root_weight, 30);
    assert_eq!(left_data, Some('b'));
}

#[test]
fn test_link_right() {
    let mut root_node = Node::new(40, Some('c'));
    let right_node = Node::new(50, Some('d'));

    root_node.link_right(right_node);

    let right_weight = root_node.get_right().unwrap().get_weight();
    let root_weight = root_node.get_weight();

    let right_data = root_node.get_right().unwrap().data;

    assert_eq!(right_weight, 50);
    assert_eq!(root_weight, 90);
    assert_eq!(right_data, Some('d'));
}

fn canonical_tree() -> Node {
    let mut root_node = Node::new(0, None);
    let mut left = Node::new(1, None);
    let mut right = Node::new(2, None);

    let left_child1 = Node::new(3, Some('a'));
    let left_child2 = Node::new(4, Some('b'));

    let right_child1 = Node::new(5, Some('c'));
    let right_child2 = Node::new(6, Some('d'));

    left.link_left(left_child1);
    left.link_right(left_child2);

    right.link_left(right_child1);
    right.link_right(right_child2);

    root_node.link_left(left);
    root_node.link_right(right);

    root_node
}

#[test]
fn test_find_path() {
    let root_node = canonical_tree();

    assert_eq!(root_node.get_weight(), 21);

    let left = root_node.get_left().unwrap();
    let right = root_node.get_right().unwrap();
    assert_eq!(left.get_weight(), 8);
    assert_eq!(right.get_weight(), 13);

    let left_c1 = left.get_left().unwrap();
    let left_c2 = left.get_right().unwrap();
    let right_c1 = right.get_left().unwrap();
    let right_c2 = right.get_right().unwrap();
    assert_eq!(left_c1.get_weight(), 3);
    assert_eq!(left_c2.get_weight(), 4);
    assert_eq!(right_c1.get_weight(), 5);
    assert_eq!(right_c2.get_weight(), 6);

    let path = Node::find_path(&root_node, &'a', ("0", "1")).unwrap();
    assert_eq!(path, "00");

    let path = Node::find_path(&root_node, &'b', ("0", "1")).unwrap();
    assert_eq!(path, "01");

    let path = Node::find_path(&root_node, &'c', ("0", "1")).unwrap();
    assert_eq!(path, "10");

    let path = Node::find_path(&root_node, &'d', ("0", "1")).unwrap();
    assert_eq!(path, "11");

    let no_path = Node::find_path(&root_node, &'e', ("0", "1"));
    assert_eq!(no_path, None);
}

#[test]
fn test_walk() {
    let root_node = canonical_tree();

    let mut key_map = CodeTable::new();

    root_node.walk(String::from(""), &mut key_map);

    assert_eq!(*key_map.get('a').unwrap(), "00");
    assert_eq!(*key_map.get('b').unwrap(), "01");
    assert_eq!(*key_map.get('c').unwrap(), "10");
    assert_eq!(*key_map.get('d').unwrap(), "11");
}

#[test]
fn test_walk_exact_entries() {
    let root_node = canonical_tree();

    let mut key_map = CodeTable::new();
    root_node.walk(String::from(""), &mut key_map);

    // The internal nodes carry no datum, so exactly the four leaves
    // contribute an entry.
    assert_eq!(key_map.len(), 4);
    assert!(key_map.get('e').is_none());
}

#[test]
fn test_walk_single_node_fallback() {
    // A lone datum-bearing node walked from the empty path maps its datum
    // to the one-symbol fallback "0".
    let root_node = Node::new(7, Some('z'));

    let mut key_map = CodeTable::new();
    root_node.walk(String::from(""), &mut key_map);

    assert_eq!(key_map.len(), 1);
    assert_eq!(*key_map.get('z').unwrap(), "0");
}

#[test]
fn test_walk_descends_through_datum() {
    // Unlike find_path, walk keeps descending below a datum-bearing node.
    let mut root_node = Node::new(1, Some('p'));
    root_node.link_left(Node::new(2, Some('q')));

    let mut key_map = CodeTable::new();
    root_node.walk(String::from(""), &mut key_map);

    assert_eq!(key_map.len(), 2);
    assert_eq!(*key_map.get('p').unwrap(), "0");
    assert_eq!(*key_map.get('q').unwrap(), "0");
}

#[test]
fn test_walk_keeps_unrelated_entries() {
    let root_node = Node::new(3, Some('a'));

    let mut key_map = CodeTable::new();
    let other = Node::new(4, Some('x'));
    other.walk(String::from("111"), &mut key_map);

    root_node.walk(String::from(""), &mut key_map);

    assert_eq!(key_map.len(), 2);
    assert_eq!(*key_map.get('x').unwrap(), "111");
    assert_eq!(*key_map.get('a').unwrap(), "0");
}

#[test]
fn test_find_path_root_fallback() {
    // A match at the root itself returns the left symbol, not "".
    let root_node = Node::new(5, Some('m'));

    let path = Node::find_path(&root_node, &'m', ("0", "1")).unwrap();
    assert_eq!(path, "0");
}

#[test]
fn test_find_path_blocked_descent() {
    // A datum-bearing node is terminal for the search: a non-matching datum
    // hides everything below it.
    let mut root_node = Node::new(1, Some('p'));
    root_node.link_left(Node::new(2, Some('q')));

    let no_path = Node::find_path(&root_node, &'q', ("0", "1"));
    assert_eq!(no_path, None);
}

#[test]
fn test_find_path_custom_symbols() {
    let root_node = canonical_tree();

    let path = Node::find_path(&root_node, &'c', ("L", "R")).unwrap();
    assert_eq!(path, "RL");
}

#[test]
fn test_getters_idempotent() {
    let mut root_node = Node::new(10, Some('a'));
    root_node.link_left(Node::new(20, Some('b')));

    assert_eq!(root_node.get_weight(), root_node.get_weight());
    assert_eq!(
        root_node.get_left().unwrap().get_weight(),
        root_node.get_left().unwrap().get_weight()
    );
    assert!(root_node.get_right().is_none());
    assert!(root_node.get_right().is_none());
    assert_eq!(root_node.get_weight(), 30);
}
