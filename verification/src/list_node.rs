//! A singly linked list node: a value and an exclusively owned tail. A
//! list is an `Option`al boxed head node; its mathematical model is the
//! sequence of its values, [`node_seq`].

use vstd::prelude::*;

verus! {

pub type Link<T> = Option<Box<ListNode<T>>>;

#[derive(Debug, PartialEq)]
pub struct ListNode<T> {
    pub val: T,
    pub next: Link<T>,
}

/// The values of a list, front first.
pub open spec fn node_seq<T>(n: Link<T>) -> Seq<T>
    decreases n,
{
    match n {
        None => Seq::empty(),
        Some(b) => seq![b.val] + node_seq(b.next),
    }
}

impl<T> ListNode<T> {
    #[inline]
    pub fn new(val: T) -> (n: Self)
        ensures
            n.val == val,
            n.next is None,
    {
        ListNode { val, next: None }
    }

    /// The list holding the given values in order.
    pub fn from_list(list: Vec<T>) -> (r: Link<T>)
        ensures
            node_seq(r) == list@,
    {
        let ghost whole = list@;
        let mut rest = list;
        let mut acc: Link<T> = None;
        proof {
            assert(node_seq(acc) =~= Seq::<T>::empty());
            assert(whole + Seq::<T>::empty() =~= whole);
        }
        while rest.len() > 0
            invariant
                rest@ + node_seq(acc) == whole,
            decreases rest.len(),
        {
            let ghost before = rest@;
            let v = match rest.pop() {
                Some(v) => v,
                None => {
                    return acc;
                },
            };
            acc = Some(Box::new(ListNode { val: v, next: acc }));
            proof {
                assert(node_seq(acc) =~= seq![v] + node_seq(acc->Some_0.next));
                assert(rest@ + node_seq(acc) =~= before + node_seq(acc->Some_0.next));
            }
        }
        proof {
            assert(rest@ + node_seq(acc) =~= node_seq(acc));
        }
        acc
    }
}

} // verus!
