use r3::tiler::{Leaf, Node, NodeChildren, NodeParent, Tree};

fn leaves_i32(values: &[i32]) -> Vec<Leaf<i32>> {
    values.iter().map(|v| Leaf::new(*v)).collect()
}

#[test]
fn tiler_it_works() {
    let tree: Tree<i32, i32> = Tree::with_root(Node::leaves_of(None, leaves_i32(&[0, 1, 2])));
    assert_eq!(
        tree.to_string(),
        "Root\n └─Leaves\n    ├─Leaf(0)\n    ├─Leaf(1)\n    └─Leaf(2)\n"
    );

    let mut tree: Tree<i32, i32> = Tree::with_root(Node::branch(None));
    Node::append_child(&mut tree, 0, Node::leaves_of(None, leaves_i32(&[0, 1])));
    Node::append_child(&mut tree, 0, Node::leaves_of(None, leaves_i32(&[2])));
    Node::append_child(&mut tree, 0, Node::leaves_of(None, leaves_i32(&[3, 4, 5])));
    assert_eq!(
        tree.to_string(),
        concat_lines(&[
            "Root",
            " └─Branch",
            "    ├─Leaves",
            "    │  ├─Leaf(0)",
            "    │  └─Leaf(1)",
            "    ├─Leaves",
            "    │  └─Leaf(2)",
            "    └─Leaves",
            "       ├─Leaf(3)",
            "       ├─Leaf(4)",
            "       └─Leaf(5)",
        ])
    );

    let mut tree: Tree<i32, i32> = Tree::with_root(Node::branch(None));
    let first = Node::append_child(&mut tree, 0, Node::branch(None)).unwrap();
    Node::append_child(&mut tree, first, Node::leaves_of(None, leaves_i32(&[0, 1, 2])));
    Node::append_child(&mut tree, 0, Node::leaves_of(None, leaves_i32(&[3, 4])));
    let third = Node::append_child(&mut tree, 0, Node::branch(None)).unwrap();
    Node::append_child(&mut tree, third, Node::leaves_of(None, leaves_i32(&[5, 6])));
    assert_eq!(
        tree.to_string(),
        concat_lines(&[
            "Root",
            " └─Branch",
            "    ├─Branch",
            "    │  └─Leaves",
            "    │     ├─Leaf(0)",
            "    │     ├─Leaf(1)",
            "    │     └─Leaf(2)",
            "    ├─Leaves",
            "    │  ├─Leaf(3)",
            "    │  └─Leaf(4)",
            "    └─Branch",
            "       └─Leaves",
            "          ├─Leaf(5)",
            "          └─Leaf(6)",
        ])
    );
}

fn concat_lines(lines: &[&str]) -> String {
    let mut text = String::new();
    for line in lines {
        text.push_str(line);
        text.push('\n');
    }
    text
}

#[test]
fn append_branch() {
    let mut tree: Tree<i32, i32> = Tree::with_root(Node::branch(Some(42)));
    Node::append_branch(&mut tree, 0, Some(1729));
    assert_eq!(Node::to_string(&tree, 0), "Branch(42)\n └─Branch(1729)\n");
    let root = tree.node(0).unwrap();
    let child = tree.node(root.children.as_branch().unwrap()[0]).unwrap();
    assert_eq!(Some(1729), child.inner);
    assert_eq!(Some(42), tree.node(child.parent.as_node().unwrap()).unwrap().inner);

    let mut tree: Tree<i32, i32> =
        Tree::with_root(Node::leaves_of(Some(42), leaves_i32(&[1, 2, 3])));
    Node::append_branch(&mut tree, 0, Some(1729));
    assert_eq!(
        Node::to_string(&tree, 0),
        concat_lines(&[
            "Branch",
            " ├─Leaves(42)",
            " │  ├─Leaf(1)",
            " │  ├─Leaf(2)",
            " │  └─Leaf(3)",
            " └─Branch(1729)",
        ])
    );
}

#[test]
fn mod_leaves_no_children() {
    let mut tree: Tree<i32, i32> = Tree::with_root(Node::branch(None));
    Node::append_child(&mut tree, 0, Node::leaves(None));
    Node::append_child(&mut tree, 0, Node::leaves(None));

    let mut s = String::new();
    assert!(Node::write_tree(&mut s, &tree, 0, None));
    assert_eq!(s, "Branch\n ├─Leaves\n └─Leaves\n");
}

#[test]
fn mod_to_string() {
    let tree: Tree<char, i32> = Tree::with_root(Node::leaves_of(Some('a'), leaves_i32(&[0, 1, 2])));

    let mut s = String::new();
    Node::write_tree(&mut s, &tree, 0, None);
    assert_eq!(s, "Leaves(a)\n ├─Leaf(0)\n ├─Leaf(1)\n └─Leaf(2)\n");

    let mut s = String::new();
    Node::write_tree(&mut s, &tree, 0, Some("RootNode"));
    assert_eq!(
        s,
        "RootNode\n └─Leaves(a)\n    ├─Leaf(0)\n    ├─Leaf(1)\n    └─Leaf(2)\n"
    );
}

#[test]
fn mod_it_works() {
    let tree: Tree<char, i32> = Tree::with_root(Node::leaves_of(Some('a'), leaves_i32(&[0, 1, 2])));
    assert_eq!(
        tree.to_string(),
        "Root\n └─Leaves(a)\n    ├─Leaf(0)\n    ├─Leaf(1)\n    └─Leaf(2)\n"
    );

    let mut tree: Tree<char, i32> = Tree::with_root(Node::branch(Some('a')));
    Node::append_child(&mut tree, 0, Node::leaves_of(Some('b'), leaves_i32(&[0, 1])));
    Node::append_child(&mut tree, 0, Node::leaves_of(Some('c'), leaves_i32(&[2])));
    Node::append_child(&mut tree, 0, Node::leaves_of(Some('d'), leaves_i32(&[3, 4, 5])));
    assert_eq!(
        tree.to_string(),
        concat_lines(&[
            "Root",
            " └─Branch(a)",
            "    ├─Leaves(b)",
            "    │  ├─Leaf(0)",
            "    │  └─Leaf(1)",
            "    ├─Leaves(c)",
            "    │  └─Leaf(2)",
            "    └─Leaves(d)",
            "       ├─Leaf(3)",
            "       ├─Leaf(4)",
            "       └─Leaf(5)",
        ])
    );

    let mut tree: Tree<char, i32> = Tree::with_root(Node::branch(Some('a')));
    let b = Node::append_child(&mut tree, 0, Node::branch(Some('b'))).unwrap();
    Node::append_child(&mut tree, b, Node::leaves_of(Some('c'), leaves_i32(&[0, 1, 2])));
    Node::append_child(&mut tree, 0, Node::leaves_of(Some('d'), leaves_i32(&[3, 4])));
    let e = Node::append_child(&mut tree, 0, Node::branch(Some('e'))).unwrap();
    Node::append_child(&mut tree, e, Node::leaves_of(Some('f'), leaves_i32(&[5, 6])));
    assert_eq!(
        tree.to_string(),
        concat_lines(&[
            "Root",
            " └─Branch(a)",
            "    ├─Branch(b)",
            "    │  └─Leaves(c)",
            "    │     ├─Leaf(0)",
            "    │     ├─Leaf(1)",
            "    │     └─Leaf(2)",
            "    ├─Leaves(d)",
            "    │  ├─Leaf(3)",
            "    │  └─Leaf(4)",
            "    └─Branch(e)",
            "       └─Leaves(f)",
            "          ├─Leaf(5)",
            "          └─Leaf(6)",
        ])
    );
}

#[test]
fn append_child() {
    let mut tree: Tree<usize, usize> = Tree::with_root(Node::branch(Some(42)));
    Node::append_child(&mut tree, 0, Node::branch(Some(1729)));
    assert_eq!(Node::to_string(&tree, 0), "Branch(42)\n └─Branch(1729)\n");

    let leaves = |values: &[usize]| values.iter().map(|v| Leaf::new(*v)).collect::<Vec<_>>();
    let mut tree: Tree<usize, usize> =
        Tree::with_root(Node::leaves_of(Some(42), leaves(&[1, 2, 3])));
    Node::append_child(&mut tree, 0, Node::leaves_of(Some(1729), leaves(&[4, 5, 6])));
    assert_eq!(
        Node::to_string(&tree, 0),
        concat_lines(&[
            "Branch",
            " ├─Leaves(42)",
            " │  ├─Leaf(1)",
            " │  ├─Leaf(2)",
            " │  └─Leaf(3)",
            " └─Leaves(1729)",
            "    ├─Leaf(4)",
            "    ├─Leaf(5)",
            "    └─Leaf(6)",
        ])
    );
}

#[test]
fn node_leaves_no_children() {
    let mut tree: Tree<char, char> = Tree::with_root(Node::branch(None));
    Node::append_child(&mut tree, 0, Node::leaves(None));
    Node::append_child(&mut tree, 0, Node::leaves(None));

    let mut s = String::new();
    Node::write_tree(&mut s, &tree, 0, None);
    assert_eq!(s, "Branch\n ├─Leaves\n └─Leaves\n");
}

#[test]
fn node_to_string() {
    let tree: Tree<char, i32> = Tree::with_root(Node::leaves_of(Some('a'), leaves_i32(&[0, 1, 2])));

    let mut s = String::new();
    Node::write_tree(&mut s, &tree, 0, None);
    assert_eq!(s, "Leaves(a)\n ├─Leaf(0)\n ├─Leaf(1)\n └─Leaf(2)\n");

    let mut s = String::new();
    Node::write_tree(&mut s, &tree, 0, Some("RootNode"));
    assert_eq!(
        s,
        "RootNode\n └─Leaves(a)\n    ├─Leaf(0)\n    ├─Leaf(1)\n    └─Leaf(2)\n"
    );
}

#[test]
fn a_new_tree_is_a_root_without_leaves() {
    let tree: Tree<i32, i32> = Tree::new();
    assert_eq!(tree.len(), 1);
    let root = tree.node(0).unwrap();
    assert!(root.is_root());
    assert_eq!(root.inner, None);
    assert_eq!(root.parent, NodeParent::Root(0));
    assert_eq!(root.parent.as_root(), Some(0));
    assert_eq!(root.parent.as_node(), None);
    assert_eq!(root.children.as_leaves().unwrap().len(), 0);
    assert!(root.children.as_branch().is_none());
    assert_eq!(tree.to_string(), "Root\n └─Leaves\n");
}

#[test]
fn appending_below_leaves_moves_them_into_a_first_child() {
    let mut tree: Tree<i32, i32> = Tree::with_root(Node::leaves_of(Some(7), leaves_i32(&[1])));
    let new = Node::append_child(&mut tree, 0, Node::leaves(Some(8)));
    assert_eq!(new, Some(2));
    assert_eq!(tree.len(), 3);
    let root = tree.node(0).unwrap();
    assert!(root.is_root());
    assert_eq!(root.inner, None);
    assert_eq!(root.children.as_branch().unwrap(), &vec![1, 2]);
    let moved = tree.node(1).unwrap();
    assert!(!moved.is_root());
    assert_eq!(moved.inner, Some(7));
    assert_eq!(moved.parent, NodeParent::Node(0));
    assert!(matches!(&moved.children, NodeChildren::Leaves(held) if held.len() == 1 && held[0].0 == 1));
    let added = tree.node(2).unwrap();
    assert_eq!(added.inner, Some(8));
    assert_eq!(added.parent.as_node(), Some(0));
}

#[test]
fn appending_below_a_missing_node_changes_nothing() {
    let mut tree: Tree<i32, i32> = Tree::new();
    assert_eq!(Node::append_branch(&mut tree, 1, Some(3)), None);
    assert_eq!(tree.len(), 1);
    assert!(tree.node(1).is_none());
    let mut s = String::from("kept");
    assert!(!Node::write_tree(&mut s, &tree, 5, Some("Title")));
    assert_eq!(s, "kept");
    assert_eq!(Node::to_string(&tree, 5), "");
}

#[test]
fn negative_and_large_labels() {
    let tree: Tree<i32, u32> = Tree::with_root(Node::leaves_of(
        Some(i32::MIN),
        vec![Leaf::new(0), Leaf::new(10), Leaf::new(u32::MAX)],
    ));
    assert_eq!(
        Node::to_string(&tree, 0),
        "Leaves(-2147483648)\n ├─Leaf(0)\n ├─Leaf(10)\n └─Leaf(4294967295)\n"
    );
}
