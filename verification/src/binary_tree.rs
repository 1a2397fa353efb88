//! An unbalanced binary search tree of integers.
//!
//! Duplicates are ignored: an insert that meets an equal element at any
//! node stops there. The contract speaks of the set of elements the tree
//! holds, and the search order — everything left of a node below it,
//! everything right of it above — is the tree's well-formedness
//! invariant, established by the constructor and preserved by insertion.

use vstd::prelude::*;

verus! {

/// A node of the tree; a subtree is absent or a boxed node.
pub struct BinaryTree {
    elem: i64,
    left: Option<Box<BinaryTree>>,
    right: Option<Box<BinaryTree>>,
}

/// The elements a possibly absent subtree holds.
pub open spec fn opt_elems(tree: Option<Box<BinaryTree>>) -> Set<i64>
    decreases tree,
{
    match tree {
        None => Set::empty(),
        Some(node) => node.elems(),
    }
}

/// Whether a possibly absent subtree is well formed.
pub open spec fn opt_wf(tree: Option<Box<BinaryTree>>) -> bool
    decreases tree,
{
    match tree {
        None => true,
        Some(node) => node.wf(),
    }
}

impl BinaryTree {
    /// The set of elements the tree holds.
    pub closed spec fn elems(&self) -> Set<i64>
        decreases self,
    {
        opt_elems(self.left).union(opt_elems(self.right)).insert(self.elem)
    }

    /// The search-order invariant: smaller elements left, greater right,
    /// recursively.
    pub closed spec fn wf(&self) -> bool
        decreases self,
    {
        &&& (forall|x: i64| opt_elems(self.left).contains(x) ==> x < self.elem)
        &&& (forall|x: i64| opt_elems(self.right).contains(x) ==> x > self.elem)
        &&& opt_wf(self.left)
        &&& opt_wf(self.right)
    }

    /// A tree of one element.
    pub fn new(elem: i64) -> (r: Self)
        ensures
            r.wf(),
            r.elems() == Set::empty().insert(elem),
    {
        let r = BinaryTree { elem, left: None, right: None };
        proof {
            assert(r.elems() =~= Set::empty().insert(elem));
        }
        r
    }

    /// Insert `new_elem`, keeping the search order; an element already
    /// present is left alone.
    pub fn insert(&mut self, new_elem: i64)
        requires
            old(self).wf(),
        ensures
            final(self).wf(),
            final(self).elems() == old(self).elems().insert(new_elem),
        decreases *old(self),
    {
        if self.elem == new_elem {
            proof {
                assert(self.elems() =~= old(self).elems().insert(new_elem));
            }
            return ;
        }
        if new_elem < self.elem {
            Self::insert_into(&mut self.left, new_elem);
            proof {
                assert(self.elems() =~= old(self).elems().insert(new_elem));
            }
        } else {
            Self::insert_into(&mut self.right, new_elem);
            proof {
                assert(self.elems() =~= old(self).elems().insert(new_elem));
            }
        }
    }

    /// Whether the tree holds `x`, found along the search order.
    pub fn contains(&self, x: i64) -> (r: bool)
        requires
            self.wf(),
        ensures
            r == self.elems().contains(x),
        decreases self,
    {
        if self.elem == x {
            true
        } else if x < self.elem {
            proof {
                assert(!opt_elems(self.right).contains(x));
            }
            match &self.left {
                None => false,
                Some(subnode) => subnode.contains(x),
            }
        } else {
            proof {
                assert(!opt_elems(self.left).contains(x));
            }
            match &self.right {
                None => false,
                Some(subnode) => subnode.contains(x),
            }
        }
    }

    /// Insert into a possibly absent subtree, growing a leaf if need be.
    fn insert_into(node: &mut Option<Box<BinaryTree>>, new_elem: i64)
        requires
            opt_wf(*old(node)),
        ensures
            opt_wf(*final(node)),
            opt_elems(*final(node)) == opt_elems(*old(node)).insert(new_elem),
        decreases *old(node),
    {
        match node.take() {
            None => {
                *node = Some(Box::new(BinaryTree { elem: new_elem, left: None, right: None }));
                proof {
                    assert(opt_elems(*node) =~= opt_elems(*old(node)).insert(new_elem));
                }
            },
            Some(mut subnode) => {
                (&mut *subnode).insert(new_elem);
                *node = Some(subnode);
                proof {
                    assert(opt_elems(*node) =~= opt_elems(*old(node)).insert(new_elem));
                }
            },
        }
    }
}

} // verus!
