//! A stack-shaped singly linked list: push and pop at the front, with a
//! held size. Its abstract value (`@`) is the sequence of its values,
//! front first.

use vstd::prelude::*;
use crate::list_node::{node_seq, Link, ListNode};

verus! {

pub struct LinkList<T> {
    head: Link<T>,
    size: usize,
}

/// A read-only walk over a list's values, front to back.
pub struct Iter<'a, T> {
    next: Option<&'a ListNode<T>>,
}

impl<T> View for LinkList<T> {
    type V = Seq<T>;

    closed spec fn view(&self) -> Seq<T> {
        node_seq(self.head)
    }
}

impl<T> LinkList<T> {
    /// The held size agrees with the values.
    pub closed spec fn wf(&self) -> bool {
        self.size == node_seq(self.head).len()
    }

    pub fn new() -> (l: Self)
        ensures
            l@ == Seq::<T>::empty(),
            l.wf(),
    {
        let l = LinkList { head: None, size: 0 };
        proof {
            assert(l@ =~= Seq::<T>::empty());
        }
        l
    }

    /// Puts a value at the front.
    pub fn push(&mut self, val: T)
        requires
            old(self).wf(),
            old(self)@.len() < usize::MAX,
        ensures
            final(self).wf(),
            final(self)@ == seq![val] + old(self)@,
    {
        self.size = self.size + 1;
        let old_head = self.head.take();
        self.head = Some(Box::new(ListNode { val, next: old_head }));
    }

    /// Takes the front value, if there is one.
    pub fn pop(&mut self) -> (r: Option<T>)
        requires
            old(self).wf(),
        ensures
            final(self).wf(),
            old(self)@.len() == 0 ==> r is None && final(self)@ == old(self)@,
            old(self)@.len() > 0 ==> (r matches Some(v) && v == old(self)@[0] && final(self)@
                == old(self)@.skip(1)),
    {
        match self.head.take() {
            None => None,
            Some(node) => {
                self.size = self.size - 1;
                let n = *node;
                self.head = n.next;
                proof {
                    assert(old(self)@.skip(1) =~= node_seq(self.head));
                }
                Some(n.val)
            },
        }
    }

    /// The front value, if there is one.
    pub fn peek(&self) -> (r: Option<&T>)
        ensures
            self@.len() == 0 ==> r is None,
            self@.len() > 0 ==> (r matches Some(v) && *v == self@[0]),
    {
        match &self.head {
            None => None,
            Some(node) => Some(&node.val),
        }
    }

    /// The front value, if there is one, open to change.
    pub fn peek_mut(&mut self) -> (r: Option<&mut T>)
        requires
            old(self).wf(),
        ensures
            old(self)@.len() == 0 ==> r is None && final(self)@ == old(self)@ && final(self).wf(),
            old(self)@.len() > 0 ==> (r matches Some(v) && *v == old(self)@[0] && final(self)@
                == seq![*final(v)] + old(self)@.skip(1) && final(self).wf()),
    {
        match &mut self.head {
            None => None,
            Some(node) => {
                proof {
                    assert(node_seq(old(self).head) =~= seq![node.val] + node_seq(node.next));
                }
                Some(&mut node.val)
            },
        }
    }

    /// A walk over the values, front to back.
    pub fn iter<'a>(&'a self) -> (it: Iter<'a, T>)
        ensures
            it@ == self@,
    {
        Iter {
            next: match &self.head {
                Some(b) => Some(&**b),
                None => None,
            },
        }
    }

    /// Whether the list holds no value.
    pub fn empty(&self) -> (b: bool)
        ensures
            b == (self@.len() == 0),
    {
        self.head.is_none()
    }

    /// How many values the list holds.
    pub fn len(&self) -> (n: usize)
        requires
            self.wf(),
        ensures
            n == self@.len(),
    {
        self.size
    }

    /// The list holding the given values, pushed in order: the last lands
    /// at the front.
    pub fn from(value: Vec<T>) -> (l: Self)
        requires
            value@.len() < usize::MAX,
        ensures
            l.wf(),
            l@ == value@.reverse(),
    {
        let ghost whole = value@;
        let mut link: LinkList<T> = LinkList::new();
        let mut rest = value;
        while rest.len() > 0
            invariant
                link.wf(),
                whole == link@.reverse() + rest@,
                whole.len() < usize::MAX,
            decreases rest.len(),
        {
            let ghost before = rest@;
            let ghost acc = link@;
            let v = rest.remove(0);
            proof {
                assert(acc.len() <= whole.len());
            }
            link.push(v);
            proof {
                assert((seq![v] + acc).reverse() =~= acc.reverse().push(v));
                assert((seq![v] + acc).reverse() + rest@ =~= acc.reverse() + before);
            }
        }
        proof {
            assert(whole =~= link@.reverse());
            assert(link@ =~= whole.reverse());
        }
        link
    }

    /// Takes the front value: the list is its own draining iterator.
    pub fn next(&mut self) -> (r: Option<T>)
        requires
            old(self).wf(),
        ensures
            final(self).wf(),
            old(self)@.len() == 0 ==> r is None && final(self)@ == old(self)@,
            old(self)@.len() > 0 ==> (r matches Some(v) && v == old(self)@[0] && final(self)@
                == old(self)@.skip(1)),
    {
        self.pop()
    }
}

impl<'a, T> View for Iter<'a, T> {
    type V = Seq<T>;

    closed spec fn view(&self) -> Seq<T> {
        match self.next {
            None => Seq::empty(),
            Some(n) => seq![n.val] + node_seq(n.next),
        }
    }
}

impl<'a, T> Iter<'a, T> {
    /// The next value of the walk, if one is left.
    pub fn next(&mut self) -> (r: Option<&'a T>)
        ensures
            old(self)@.len() == 0 ==> r is None && final(self)@ == old(self)@,
            old(self)@.len() > 0 ==> (r matches Some(v) && *v == old(self)@[0] && final(self)@
                == old(self)@.skip(1)),
    {
        match self.next {
            None => None,
            Some(node) => {
                self.next = match &node.next {
                    Some(b) => Some(&**b),
                    None => None,
                };
                proof {
                    assert(old(self)@.skip(1) =~= final(self)@);
                }
                Some(&node.val)
            },
        }
    }
}

} // verus!
