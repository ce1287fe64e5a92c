//! List reversal drills that read a list into a vector of its values in
//! reverse order: once with a loop, once recursively.

use vstd::prelude::*;
use crate::list_node::{node_seq, Link, ListNode};

verus! {

/// The values of the list, last first, gathered by a loop.
pub fn reverse_list(head: Link<i32>) -> (r: Vec<i32>)
    ensures
        r@ == node_seq(head).reverse(),
{
    let ghost whole = node_seq(head);
    let mut list: Vec<i32> = Vec::new();
    let mut cur = head;
    proof {
        assert(Seq::<i32>::empty().reverse() + whole =~= whole);
    }
    while cur.is_some()
        invariant
            whole == list@.reverse() + node_seq(cur),
        decreases node_seq(cur).len(),
    {
        let ghost acc = list@;
        let ghost remaining = node_seq(cur);
        let node = match cur {
            Some(n) => n,
            None => {
                return list;
            },
        };
        let n = *node;
        list.insert(0, n.val);
        cur = n.next;
        proof {
            assert(list@ =~= seq![n.val] + acc);
            assert((seq![n.val] + acc).reverse() =~= acc.reverse().push(n.val));
            assert(acc.reverse().push(n.val) + node_seq(cur) =~= acc.reverse() + remaining);
        }
    }
    proof {
        assert(whole =~= list@.reverse());
        assert(list@ =~= whole.reverse());
    }
    list
}

/// Appends the values of the node's list to the vector, last first.
fn recursive(node: Box<ListNode<i32>>, list: &mut Vec<i32>)
    ensures
        final(list)@ == old(list)@ + node_seq(Some(node)).reverse(),
    decreases node,
{
    let n = *node;
    let ghost rest = node_seq(n.next);
    match n.next {
        Some(next) => {
            recursive(next, list);
        },
        None => {},
    }
    list.push(n.val);
    proof {
        assert((seq![n.val] + rest).reverse() =~= rest.reverse().push(n.val));
        assert(final(list)@ =~= old(list)@ + (seq![n.val] + rest).reverse());
    }
}

/// The values of the list, last first, gathered recursively.
pub fn reverse_list_by_recursive(head: Link<i32>) -> (r: Vec<i32>)
    ensures
        r@ == node_seq(head).reverse(),
{
    match head {
        Some(h) => {
            let mut list: Vec<i32> = Vec::new();
            proof {
                assert(node_seq(Some(h)).reverse() =~= Seq::<i32>::empty() + node_seq(
                    Some(h),
                ).reverse());
            }
            recursive(h, &mut list);
            list
        },
        None => {
            let list: Vec<i32> = Vec::new();
            proof {
                assert(list@ =~= node_seq(head).reverse());
            }
            list
        },
    }
}

} // verus!
