//! A plain binary tree with optional children.
use vstd::prelude::*;

verus! {

/// A binary-tree node carrying a value and optional children.
#[derive(Debug)]
pub struct Node<T> {
    pub val: T,
    pub l: Option<Box<Node<T>>>,
    pub r: Option<Box<Node<T>>>,
}

/// A binary tree, as its root node.
pub struct Tree<T> {
    pub root: Node<T>,
}

impl<T> Node<T> {
    /// A node without children.
    pub fn leaf(val: T) -> (n: Node<T>)
        ensures
            n.val == val,
            n.l is None,
            n.r is None,
    {
        Node { val, l: None, r: None }
    }

    /// Whether this node has no children.
    pub fn is_leaf(&self) -> (r: bool)
        ensures
            r == (self.l is None && self.r is None),
    {
        self.l.is_none() && self.r.is_none()
    }

    /// The number of nodes in this subtree.
    pub open spec fn spec_size(&self) -> nat
        decreases *self,
    {
        1 + (match self.l {
            Some(l) => l.spec_size(),
            None => 0,
        }) + (match self.r {
            Some(r) => r.spec_size(),
            None => 0,
        })
    }
}

} // verus!
