//! The syntax tree of a score, as the sequencer reads it, and the trait of
//! the types that are read from one of its nodes.

use crate::text::str_eq;
use vstd::prelude::*;

verus! {

/// A node of a score's syntax tree.
///
/// Each node has a kind tag, the source text it spans, the name of the field
/// under which it hangs in its parent (if any), and its children in source
/// order. Punctuation and keywords are children too, so positions count them.
#[derive(Debug)]
pub struct Node {
    pub kind: String,
    pub text: String,
    pub field: Option<String>,
    pub children: Vec<Node>,
}

/// Whether a node hangs under the field `name`.
pub open spec fn in_field(node: Node, name: Seq<char>) -> bool {
    node.field matches Some(f) && f@ == name
}

/// The position of the first node among `nodes` that hangs under the field
/// `name`, or `nodes.len()` if there is none.
pub open spec fn first_in_field(nodes: Seq<Node>, name: Seq<char>) -> int
    decreases nodes.len(),
{
    if nodes.len() == 0 {
        0
    } else if in_field(nodes[0], name) {
        0
    } else {
        1 + first_in_field(nodes.drop_first(), name)
    }
}

/// The nodes among `nodes` that hang under the field `name`, in order.
pub open spec fn all_in_field(nodes: Seq<Node>, name: Seq<char>) -> Seq<Node>
    decreases nodes.len(),
{
    if nodes.len() == 0 {
        Seq::empty()
    } else if in_field(nodes.last(), name) {
        all_in_field(nodes.drop_last(), name).push(nodes.last())
    } else {
        all_in_field(nodes.drop_last(), name)
    }
}

/// `first_in_field` is the least position of a node in the field.
pub proof fn lemma_first_in_field(nodes: Seq<Node>, name: Seq<char>)
    ensures
        0 <= first_in_field(nodes, name) <= nodes.len(),
        first_in_field(nodes, name) < nodes.len() ==> in_field(
            nodes[first_in_field(nodes, name)],
            name,
        ),
        forall|j: int|
            0 <= j < first_in_field(nodes, name) ==> !in_field(#[trigger] nodes[j], name),
    decreases nodes.len(),
{
    if nodes.len() > 0 && !in_field(nodes[0], name) {
        let rest = nodes.drop_first();
        lemma_first_in_field(rest, name);
        assert forall|j: int| 0 <= j < first_in_field(nodes, name) implies !in_field(
            #[trigger] nodes[j],
            name,
        ) by {
            if j > 0 {
                assert(nodes[j] == rest[j - 1]);
            }
        }
    }
}

impl Node {
    /// The child that hangs under the field `name`: the first one, if there
    /// are several.
    pub open spec fn field_child(&self, name: Seq<char>) -> Option<Node> {
        let i = first_in_field(self.children@, name);
        if i < self.children@.len() {
            Some(self.children@[i])
        } else {
            None
        }
    }

    /// The children that hang under the field `name`, in source order.
    pub open spec fn field_children(&self, name: Seq<char>) -> Seq<Node> {
        all_in_field(self.children@, name)
    }

    /// The child at position `i`, if there is one.
    pub open spec fn nth_child(&self, i: int) -> Option<Node> {
        if 0 <= i < self.children@.len() {
            Some(self.children@[i])
        } else {
            None
        }
    }

    /// A node with the given kind and text, no field and no children.
    pub fn new(kind: &str, text: &str) -> (node: Node)
        ensures
            node.kind@ == kind@,
            node.text@ == text@,
            node.field is None,
            node.children@.len() == 0,
    {
        Node { kind: kind.to_owned(), text: text.to_owned(), field: None, children: Vec::new() }
    }

    /// Whether the node's kind tag is `kind`.
    pub fn is_kind(&self, kind: &str) -> (yes: bool)
        ensures
            yes == (self.kind@ == kind@),
    {
        str_eq(self.kind.as_str(), kind)
    }

    /// The child at position `i`, if there is one.
    pub fn child(&self, i: usize) -> (found: Option<&Node>)
        ensures
            match found {
                Some(c) => self.nth_child(i as int) == Some(*c),
                None => self.nth_child(i as int) is None,
            },
    {
        if i < self.children.len() {
            Some(&self.children[i])
        } else {
            None
        }
    }

    /// The first child that hangs under the field `name`, if there is one.
    pub fn child_by_field_name(&self, name: &str) -> (found: Option<&Node>)
        ensures
            match found {
                Some(c) => self.field_child(name@) == Some(*c),
                None => self.field_child(name@) is None,
            },
    {
        proof {
            lemma_first_in_field(self.children@, name@);
        }
        let mut i: usize = 0;
        while i < self.children.len()
            invariant
                i <= self.children.len(),
                i <= first_in_field(self.children@, name@) <= self.children@.len(),
                first_in_field(self.children@, name@) < self.children@.len() ==> in_field(
                    self.children@[first_in_field(self.children@, name@)],
                    name@,
                ),
            decreases self.children.len() - i,
        {
            let hit = match &self.children[i].field {
                Some(f) => str_eq(f.as_str(), name),
                None => false,
            };
            if hit {
                proof {
                    lemma_first_in_field(self.children@, name@);
                }
                return Some(&self.children[i]);
            }
            proof {
                lemma_first_in_field(self.children@, name@);
            }
            i += 1;
        }
        None
    }

    /// The children that hang under the field `name`, in source order.
    pub fn children_by_field_name(&self, name: &str) -> (found: Vec<&Node>)
        ensures
            found@.len() == self.field_children(name@).len(),
            forall|j: int|
                0 <= j < found@.len() ==> *#[trigger] found@[j] == self.field_children(name@)[j],
    {
        let mut found: Vec<&Node> = Vec::new();
        let mut i: usize = 0;
        while i < self.children.len()
            invariant
                i <= self.children.len(),
                found@.len() == all_in_field(self.children@.take(i as int), name@).len(),
                forall|j: int|
                    0 <= j < found@.len() ==> *#[trigger] found@[j] == all_in_field(
                        self.children@.take(i as int),
                        name@,
                    )[j],
            decreases self.children.len() - i,
        {
            proof {
                assert(self.children@.take(i + 1).drop_last() =~= self.children@.take(i as int));
                assert(self.children@.take(i + 1).last() == self.children@[i as int]);
            }
            let hit = match &self.children[i].field {
                Some(f) => str_eq(f.as_str(), name),
                None => false,
            };
            if hit {
                found.push(&self.children[i]);
            }
            i += 1;
        }
        assert(self.children@.take(i as int) =~= self.children@);
        found
    }
}

/// A value that is read from a node of the syntax tree.
pub trait FromNode: Sized {
    /// Reads the value, or gives `None` where the node does not hold one.
    fn from_node(node: &Node) -> Option<Self>;
}

} // verus!
