//! Pointer-manipulation drills over the linked list: in-place reversal,
//! reversal into a vector, deletion by value, the nth node from the end,
//! and an ordered merge.

use vstd::prelude::*;
use vstd::seq_lib::group_seq_lib_default;
use crate::list_node::{node_seq, Link, ListNode};

verus! {

/// Reverses the list in place: the nodes themselves are relinked.
pub fn reverse(head: Link<i32>) -> (r: Link<i32>)
    ensures
        node_seq(r) == node_seq(head).reverse(),
{
    let ghost whole = node_seq(head);
    let mut cur = head;
    let mut prev: Link<i32> = None;
    proof {
        assert(node_seq(prev).reverse() + whole =~= whole);
    }
    while cur.is_some()
        invariant
            whole == node_seq(prev).reverse() + node_seq(cur),
        decreases node_seq(cur).len(),
    {
        let ghost acc = node_seq(prev);
        let ghost remaining = node_seq(cur);
        let node = match cur {
            Some(n) => n,
            None => {
                return prev;
            },
        };
        let mut temp = *node;
        cur = temp.next;
        temp.next = prev;
        let ghost v = temp.val;
        prev = Some(Box::new(temp));
        proof {
            assert(node_seq(prev) =~= seq![v] + acc);
            assert((seq![v] + acc).reverse() =~= acc.reverse().push(v));
            assert((seq![v] + acc).reverse() + node_seq(cur) =~= acc.reverse() + remaining);
        }
    }
    proof {
        assert(whole =~= node_seq(prev).reverse());
        assert(node_seq(prev) =~= whole.reverse());
    }
    prev
}

/// The values of the list, last first, gathered by a loop.
pub fn reverse_list(head: Link<i32>) -> (r: Vec<i32>)
    ensures
        r@ == node_seq(head).reverse(),
{
    crate::common::reverse_list(head)
}

/// The values of the list, last first, gathered recursively.
pub fn reverse_list_by_recursive(head: Link<i32>) -> (r: Vec<i32>)
    ensures
        r@ == node_seq(head).reverse(),
{
    crate::common::reverse_list_by_recursive(head)
}

/// Removes every node holding the given value.
pub fn delete_node(head: Link<i32>, val: i32) -> (r: Link<i32>)
    ensures
        node_seq(r) == node_seq(head).filter(|x: i32| x != val),
    decreases head,
{
    broadcast use group_seq_lib_default;

    match head {
        None => {
            proof {
                assert(node_seq(head).filter(|x: i32| x != val) =~= Seq::<i32>::empty());
            }
            None
        },
        Some(node) => {
            let n = *node;
            let ghost rest = node_seq(n.next);
            let tail = delete_node(n.next, val);
            proof {
                Seq::<i32>::filter_distributes_over_add(seq![n.val], rest, |x: i32| x != val);
                assert(seq![n.val].filter(|x: i32| x != val) =~= if n.val != val {
                    seq![n.val]
                } else {
                    Seq::<i32>::empty()
                }) by {
                    reveal_with_fuel(Seq::filter, 2);
                    assert(seq![n.val].drop_last() =~= Seq::<i32>::empty());
                }
            }
            if n.val == val {
                proof {
                    assert(Seq::<i32>::empty() + rest.filter(|x: i32| x != val) =~= rest.filter(
                        |x: i32| x != val,
                    ));
                }
                tail
            } else {
                let r = Some(Box::new(ListNode { val: n.val, next: tail }));
                proof {
                    assert(node_seq(r) =~= seq![n.val] + rest.filter(|x: i32| x != val));
                }
                r
            }
        },
    }
}

/// How many nodes the list holds.
fn list_len(head: &Link<i32>) -> (n: usize)
    requires
        node_seq(*head).len() <= usize::MAX,
    ensures
        n == node_seq(*head).len(),
    decreases node_seq(*head).len(),
{
    match head {
        None => 0,
        Some(node) => {
            let rest = list_len(&node.next);
            rest + 1
        },
    }
}

/// Drops the first `k` nodes.
fn skip_nodes(head: Link<i32>, k: usize) -> (r: Link<i32>)
    requires
        k <= node_seq(head).len(),
    ensures
        node_seq(r) == node_seq(head).skip(k as int),
    decreases k,
{
    if k == 0 {
        proof {
            assert(node_seq(head).skip(0) =~= node_seq(head));
        }
        head
    } else {
        let node = match head {
            Some(n) => n,
            None => {
                return None;
            },
        };
        let n = *node;
        let r = skip_nodes(n.next, k - 1);
        proof {
            assert(node_seq(n.next).skip(k - 1) =~= node_seq(Some(node)).skip(k as int));
        }
        r
    }
}

/// The suffix of the list starting at the node `cnt` places from its end:
/// the whole list for `cnt` equal to the length, down to nothing (`None`)
/// for `cnt` zero or larger than the length.
pub fn find_nth_from_end(head: Link<i32>, cnt: usize) -> (r: Link<i32>)
    requires
        node_seq(head).len() <= usize::MAX,
    ensures
        1 <= cnt <= node_seq(head).len() ==> node_seq(r) == node_seq(head).skip(
            node_seq(head).len() - cnt,
        ),
        !(1 <= cnt <= node_seq(head).len()) ==> r is None,
{
    let length = list_len(&head);
    if cnt < 1 || cnt > length {
        return None;
    }
    skip_nodes(head, length - cnt)
}

/// The same suffix, by a different bound rule: a `cnt` beyond the length
/// yields the whole list rather than nothing.
pub fn find_nth_from_end_v2(head: Link<i32>, cnt: usize) -> (r: Link<i32>)
    requires
        node_seq(head).len() <= usize::MAX,
    ensures
        node_seq(r) == node_seq(head).skip(
            if cnt <= node_seq(head).len() {
                node_seq(head).len() - cnt
            } else {
                0
            },
        ),
{
    let length = list_len(&head);
    let k = if cnt <= length {
        length - cnt
    } else {
        0
    };
    skip_nodes(head, k)
}

/// The interleaving of two lists that takes the smaller front value first
/// and both at once when they are equal; once one side runs out, the other
/// follows whole. On sorted inputs this is the sorted merge.
pub open spec fn merge_seq(a: Seq<i32>, b: Seq<i32>) -> Seq<i32>
    decreases a.len() + b.len(),
{
    if a.len() == 0 {
        b
    } else if b.len() == 0 {
        a
    } else if a[0] < b[0] {
        seq![a[0]] + merge_seq(a.skip(1), b)
    } else if a[0] > b[0] {
        seq![b[0]] + merge_seq(a, b.skip(1))
    } else {
        seq![a[0], b[0]] + merge_seq(a.skip(1), b.skip(1))
    }
}

/// Merges two lists, by [`merge_seq`].
pub fn merge(l1: Link<i32>, l2: Link<i32>) -> (r: Link<i32>)
    ensures
        node_seq(r) == merge_seq(node_seq(l1), node_seq(l2)),
    decreases node_seq(l1).len() + node_seq(l2).len(),
{
    match (l1, l2) {
        (None, l2) => l2,
        (l1, None) => l1,
        (Some(n1), Some(n2)) => {
            let a = *n1;
            let b = *n2;
            let ghost arest = node_seq(a.next);
            let ghost brest = node_seq(b.next);
            proof {
                assert((seq![a.val] + arest).skip(1) =~= arest);
                assert((seq![b.val] + brest).skip(1) =~= brest);
            }
            if a.val < b.val {
                let tail = merge(a.next, Some(Box::new(b)));
                let r = Some(Box::new(ListNode { val: a.val, next: tail }));
                proof {
                    assert(node_seq(r) =~= seq![a.val] + node_seq(r->Some_0.next));
                }
                r
            } else if a.val > b.val {
                let tail = merge(Some(Box::new(a)), b.next);
                let r = Some(Box::new(ListNode { val: b.val, next: tail }));
                proof {
                    assert(node_seq(r) =~= seq![b.val] + node_seq(r->Some_0.next));
                }
                r
            } else {
                let tail = merge(a.next, b.next);
                let second = Some(Box::new(ListNode { val: b.val, next: tail }));
                let ghost second_seq = node_seq(second);
                let r = Some(Box::new(ListNode { val: a.val, next: second }));
                proof {
                    assert(second_seq =~= seq![b.val] + merge_seq(arest, brest));
                    assert(node_seq(r) =~= seq![a.val] + second_seq);
                    assert(seq![a.val] + (seq![b.val] + merge_seq(arest, brest)) =~= seq![
                        a.val,
                        b.val,
                    ] + merge_seq(arest, brest));
                }
                r
            }
        },
    }
}

} // verus!
