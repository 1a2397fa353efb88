//! A singly linked list with positional insertion and removal.
//!
//! `push` appends at the tail and `pop` removes the tail. `insert_at`
//! and `remove_at` address elements by position, with two quirks of the
//! walking cursor they are built on: inserting at position `0` appends
//! at the tail (the cursor starts past its goal and walks to the end),
//! and removing at position `0` removes the tail. Every contract below
//! states the exact sequence the list holds afterwards.

use vstd::prelude::*;

verus! {

/// A list is empty, or a node followed by the rest.
#[derive(Debug)]
pub enum LinkedList<T> {
    Empty,
    More(Box<Node<T>>),
}

/// One element and the list after it.
#[derive(Debug)]
pub struct Node<T> {
    elem: T,
    next: LinkedList<T>,
}

impl<T> LinkedList<T> {
    /// The elements the list holds, front first.
    pub closed spec fn elems(&self) -> Seq<T>
        decreases self,
    {
        match self {
            LinkedList::Empty => Seq::empty(),
            LinkedList::More(node) => seq![node.elem] + node.next.elems(),
        }
    }
}

impl<T> View for LinkedList<T> {
    type V = Seq<T>;

    open spec fn view(&self) -> Seq<T> {
        self.elems()
    }
}

impl<T: Clone> Default for LinkedList<T> {
    fn default() -> (r: Self)
        ensures
            r@ == Seq::<T>::empty(),
    {
        Self::Empty
    }
}

impl<T: Copy> LinkedList<T> {
    /// An empty list.
    pub fn new() -> (r: Self)
        ensures
            r@ == Seq::<T>::empty(),
    {
        Self::Empty
    }

    /// A list of one element.
    fn new_with_elem(elem: T) -> (r: Self)
        ensures
            r@ == seq![elem],
    {
        Self::new_with_elem_and_next(elem, LinkedList::Empty)
    }

    /// `elem` followed by `next`.
    fn new_with_elem_and_next(elem: T, next: LinkedList<T>) -> (r: Self)
        ensures
            r@ == seq![elem] + next@,
    {
        Self::More(Box::new(Node { elem, next }))
    }

    /// How many elements the list holds.
    pub fn len(&self) -> (n: usize)
        requires
            self@.len() <= usize::MAX,
        ensures
            n == self@.len(),
        decreases self,
    {
        match self {
            LinkedList::Empty => 0,
            LinkedList::More(node) => 1 + node.next.len(),
        }
    }

    /// Append `elem` at the tail.
    pub fn push(&mut self, elem: T)
        ensures
            final(self)@ == old(self)@.push(elem),
        decreases *old(self),
    {
        let mut taken = LinkedList::Empty;
        core::mem::swap(self, &mut taken);
        match taken {
            LinkedList::Empty => {
                *self = Self::new_with_elem(elem);
                proof {
                    assert(self@ =~= old(self)@.push(elem));
                }
            },
            LinkedList::More(mut node) => {
                node.next.push(elem);
                *self = LinkedList::More(node);
                proof {
                    assert(self@ =~= old(self)@.push(elem));
                }
            },
        }
    }

    /// Remove and return the tail element; `None` on an empty list.
    pub fn pop(&mut self) -> (r: Option<T>)
        ensures
            old(self)@.len() == 0 ==> r is None && final(self)@ == old(self)@,
            old(self)@.len() > 0 ==> r == Some(old(self)@.last()) && final(self)@ == old(
                self,
            )@.drop_last(),
        decreases *old(self),
    {
        let mut taken = LinkedList::Empty;
        core::mem::swap(self, &mut taken);
        match taken {
            LinkedList::Empty => None,
            LinkedList::More(mut node) => {
                if node.is_last() {
                    proof {
                        assert(old(self)@ =~= seq![node.elem]);
                        assert(self@ =~= old(self)@.drop_last());
                    }
                    Some(node.elem)
                } else {
                    let r = node.next.pop();
                    *self = LinkedList::More(node);
                    proof {
                        assert(self@ =~= old(self)@.drop_last());
                        assert(old(self)@.last() == old(self)@[old(self)@.len() - 1]);
                    }
                    r
                }
            },
        }
    }

    /// Walk `position - current` nodes and insert `elem` there; a cursor
    /// already past its goal (`current >= position`) walks to the end and
    /// appends. Returns false — leaving the list unchanged — exactly when
    /// the list is too short to reach the position.
    fn priv_insert_at(&mut self, elem: T, position: usize, current: usize) -> (r: bool)
        requires
            current + old(self)@.len() <= usize::MAX,
        ensures
            position <= current ==> r && final(self)@ == old(self)@.push(elem),
            position > current && position - current <= old(self)@.len() ==> r && final(self)@
                == old(self)@.insert(position - current, elem),
            position > current && position - current > old(self)@.len() ==> !r && final(self)@
                == old(self)@,
        decreases *old(self),
    {
        let mut taken = LinkedList::Empty;
        core::mem::swap(self, &mut taken);
        match taken {
            LinkedList::Empty => {
                if current < position {
                    false
                } else {
                    *self = Self::new_with_elem(elem);
                    proof {
                        assert(self@ =~= old(self)@.push(elem));
                    }
                    true
                }
            },
            LinkedList::More(mut node) => {
                if current + 1 == position {
                    let mut tail = LinkedList::Empty;
                    core::mem::swap(&mut node.next, &mut tail);
                    node.next = Self::new_with_elem_and_next(elem, tail);
                    *self = LinkedList::More(node);
                    proof {
                        assert(self@ =~= old(self)@.insert(1, elem));
                    }
                    true
                } else {
                    let r = node.next.priv_insert_at(elem, position, current + 1);
                    *self = LinkedList::More(node);
                    proof {
                        if position <= current {
                            assert(self@ =~= old(self)@.push(elem));
                        } else if position - current <= old(self)@.len() {
                            assert(self@ =~= old(self)@.insert(position - current, elem));
                        }
                    }
                    r
                }
            },
        }
    }

    /// Remove the element `position - current` nodes ahead; a cursor
    /// standing on its goal (`current == position`) removes the tail, as
    /// [`Self::pop`] does. `None` — leaving the list unchanged — when no
    /// such element exists.
    fn priv_remove_at(&mut self, position: usize, current: usize) -> (r: Option<T>)
        requires
            current > position ==> current + old(self)@.len() <= usize::MAX,
        ensures
            current > position ==> r is None && final(self)@ == old(self)@,
            current == position && old(self)@.len() == 0 ==> r is None && final(self)@ == old(
                self,
            )@,
            current == position && old(self)@.len() > 0 ==> r == Some(old(self)@.last())
                && final(self)@ == old(self)@.drop_last(),
            current < position && position - current < old(self)@.len() ==> r == Some(
                old(self)@[position - current],
            ) && final(self)@ == old(self)@.remove(position - current),
            current < position && position - current >= old(self)@.len() ==> r is None && final(self)@ == old(self)@,
        decreases *old(self),
    {
        let mut taken = LinkedList::Empty;
        core::mem::swap(self, &mut taken);
        match taken {
            LinkedList::Empty => None,
            LinkedList::More(mut node) => {
                if current == position {
                    *self = LinkedList::More(node);
                    self.pop()
                } else if current + 1 == position {
                    let ghost head0 = node.elem;
                    proof {
                        assert(old(self)@ =~= seq![head0] + node.next@);
                    }
                    let ghost tail0 = node.next@;
                    let mut tail = LinkedList::Empty;
                    core::mem::swap(&mut node.next, &mut tail);
                    match tail {
                        LinkedList::More(mut next_node) => {
                            let removed = next_node.elem;
                            proof {
                                assert(tail0 =~= seq![removed] + next_node.next@);
                            }
                            let ghost rest0 = next_node.next@;
                            let mut rest = LinkedList::Empty;
                            core::mem::swap(&mut next_node.next, &mut rest);
                            node.next = rest;
                            *self = LinkedList::More(node);
                            proof {
                                assert(self@ =~= seq![head0] + rest0);
                                assert(old(self)@ =~= seq![head0] + (seq![removed] + rest0));
                                assert(self@ =~= old(self)@.remove(1));
                            }
                            Some(removed)
                        },
                        LinkedList::Empty => {
                            node.next = LinkedList::Empty;
                            *self = LinkedList::More(node);
                            proof {
                                assert(self@ =~= old(self)@);
                            }
                            None
                        },
                    }
                } else {
                    let r = node.next.priv_remove_at(position, current + 1);
                    *self = LinkedList::More(node);
                    proof {
                        if current < position && position - current < old(self)@.len() {
                            assert(self@ =~= old(self)@.remove(position - current));
                        } else {
                            assert(self@ =~= old(self)@);
                        }
                    }
                    r
                }
            },
        }
    }

    /// Insert `elem` so that it ends up at index `position` — except for
    /// position `0`, which appends at the tail (the walking cursor starts
    /// past a zero goal). False, and no change, when `position` exceeds
    /// the length.
    pub fn insert_at(&mut self, elem: T, position: usize) -> (r: bool)
        requires
            old(self)@.len() <= usize::MAX,
        ensures
            position == 0 ==> r && final(self)@ == old(self)@.push(elem),
            0 < position <= old(self)@.len() ==> r && final(self)@ == old(self)@.insert(
                position as int,
                elem,
            ),
            position > old(self)@.len() ==> !r && final(self)@ == old(self)@,
    {
        self.priv_insert_at(elem, position, 0)
    }

    /// Remove and return the element at index `position` — except for
    /// position `0`, which removes the tail (the walking cursor starts on
    /// a zero goal). `None`, and no change, when `position` is out of
    /// bounds.
    pub fn remove_at(&mut self, position: usize) -> (r: Option<T>)
        ensures
            position == 0 && old(self)@.len() == 0 ==> r is None && final(self)@ == old(self)@,
            position == 0 && old(self)@.len() > 0 ==> r == Some(old(self)@.last()) && final(self)@ == old(self)@.drop_last(),
            0 < position < old(self)@.len() ==> r == Some(old(self)@[position as int]) && final(self)@ == old(self)@.remove(position as int),
            position >= old(self)@.len() && position > 0 ==> r is None && final(self)@ == old(
                self,
            )@,
    {
        self.priv_remove_at(position, 0)
    }

    /// A borrowing cursor over the list, yielding `(index, element)`
    /// pairs front to back.
    pub fn iter<'a>(&'a self) -> (r: LinkedListIterator<'a, T>)
        ensures
            r.remaining() == self@,
            r.pos() == 0,
    {
        LinkedListIterator { current: self, position: 0 }
    }
}

impl<T: Clone> Node<T> {
    /// Whether this node is the tail.
    fn is_last(&self) -> (r: bool)
        ensures
            r == (self.next@.len() == 0),
    {
        matches!(self.next, LinkedList::Empty)
    }
}

/// A cursor over a borrowed [`LinkedList`], counting positions from where
/// it started.
pub struct LinkedListIterator<'a, T: Clone> {
    current: &'a LinkedList<T>,
    position: usize,
}

impl<'a, T: Copy> LinkedListIterator<'a, T> {
    /// The elements not yet yielded, front first.
    pub closed spec fn remaining(&self) -> Seq<T> {
        self.current@
    }

    /// The index the next yielded element gets.
    pub closed spec fn pos(&self) -> usize {
        self.position
    }

    /// Yield the next `(index, element)` pair, or `None` past the end.
    pub fn next(&mut self) -> (r: Option<(usize, T)>)
        requires
            old(self).pos() < usize::MAX,
        ensures
            old(self).remaining().len() > 0 ==> r == Some(
                (old(self).pos(), old(self).remaining()[0]),
            ) && final(self).remaining() == old(self).remaining().drop_first() && final(self).pos()
                == old(self).pos() + 1,
            old(self).remaining().len() == 0 ==> r is None && final(self).remaining() == old(
                self,
            ).remaining() && final(self).pos() == old(self).pos(),
    {
        match self.current {
            LinkedList::Empty => None,
            LinkedList::More(node) => {
                self.current = &node.next;
                self.position = self.position + 1;
                proof {
                    assert(self.remaining() =~= old(self).remaining().drop_first());
                }
                Some((self.position - 1, node.elem))
            },
        }
    }
}

} // verus!
