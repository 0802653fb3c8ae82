use breakers::util::Node;

fn leaf(kind: &str, text: &str, field: Option<&str>) -> Node {
    let mut node = Node::new(kind, text);
    node.field = field.map(|f| f.to_string());
    node
}

fn family() -> Node {
    let mut parent = Node::new("chord", "Bm7M9/F");
    parent.children = vec![
        leaf("note", "B", Some("root")),
        leaf("mode", "m", Some("mode")),
        leaf("augmentation", "7", Some("augm")),
        leaf("augmentation", "M9", Some("augm")),
        leaf("/", "/", None),
        leaf("note", "F", Some("bass")),
    ];
    parent
}

#[test]
fn a_new_node_is_bare() {
    let node = Node::new("grid", "grid a { }");
    assert_eq!(node.kind, "grid");
    assert_eq!(node.text, "grid a { }");
    assert!(node.field.is_none());
    assert!(node.children.is_empty());
    assert!(node.is_kind("grid"));
    assert!(!node.is_kind("grid "));
    assert!(!node.is_kind(""));
}

#[test]
fn children_by_position() {
    let parent = family();
    assert_eq!(parent.child(0).unwrap().text, "B");
    assert_eq!(parent.child(4).unwrap().kind, "/");
    assert_eq!(parent.child(5).unwrap().text, "F");
    assert!(parent.child(6).is_none());
    assert!(parent.child(usize::MAX).is_none());
    assert!(Node::new("x", "x").child(0).is_none());
}

#[test]
fn the_first_child_in_a_field() {
    let parent = family();
    assert_eq!(parent.child_by_field_name("root").unwrap().text, "B");
    assert_eq!(parent.child_by_field_name("augm").unwrap().text, "7");
    assert_eq!(parent.child_by_field_name("bass").unwrap().text, "F");
    assert!(parent.child_by_field_name("oct").is_none());
    assert!(parent.child_by_field_name("").is_none());
    assert!(parent.child_by_field_name("Root").is_none());
}

#[test]
fn all_children_in_a_field_in_order() {
    let parent = family();
    let augs: Vec<&str> = parent
        .children_by_field_name("augm")
        .iter()
        .map(|n| n.text.as_str())
        .collect();
    assert_eq!(augs, vec!["7", "M9"]);
    assert_eq!(parent.children_by_field_name("root").len(), 1);
    assert!(parent.children_by_field_name("token").is_empty());
    assert!(Node::new("x", "x").children_by_field_name("augm").is_empty());
}
