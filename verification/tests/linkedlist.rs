use arithmetics::common;
use arithmetics::linklist::LinkList;
use arithmetics::list_node::ListNode;
use arithmetics::opt;

#[test]
fn common_test_reverse_list_by_recursive() {
    let linkedlist = ListNode::from_list(vec![1, 2, 3]);

    assert_eq!(common::reverse_list_by_recursive(linkedlist), vec![3, 2, 1]);
}

#[test]
fn common_test_reverse_list() {
    let linkedlist = ListNode::from_list(vec![1, 2, 3]);

    assert_eq!(common::reverse_list(linkedlist), vec![3, 2, 1]);
}

#[test]
fn from_list() {
    let mut linked = Box::new(ListNode::new(1));
    linked.next = Some(Box::new(ListNode::new(2)));
    assert_eq!(ListNode::from_list(vec![1, 2]), Some(linked));
}

#[test]
fn list_node_test_reverse_list() {}

#[test]
fn test_new() {
    let link: LinkList<i32> = LinkList::new();
    assert!(link.empty());
}

#[test]
fn test_link_from() {
    let mut link = LinkList::from(vec![1, 2]);
    assert_eq!(link.pop(), Some(2));
    assert_eq!(link.pop(), Some(1));
    assert_eq!(link.pop(), None);
}

#[test]
fn test_push() {
    let mut link = LinkList::new();
    link.push(1);
    link.push(2);
    link.push(3);

    let mut link2 = LinkList::from(vec![1, 2, 3]);
    for _ in 0..4 {
        assert_eq!(link.pop(), link2.pop());
    }
}

#[test]
fn test_pop() {
    let mut link = LinkList::new();
    link.push(1);
    link.push(2);
    link.push(3);
    link.pop();
    let mut link2 = LinkList::from(vec![1, 2]);
    for _ in 0..3 {
        assert_eq!(link.pop(), link2.pop());
    }
}

#[test]
fn test_len() {
    let mut link = LinkList::from(vec![1, 2, 3]);
    assert_eq!(link.len(), 3);

    link.pop();
    assert_eq!(link.len(), 2);

    link.pop();
    assert_eq!(link.len(), 1);

    link.pop();
    assert_eq!(link.len(), 0);

    link.pop();
    assert_eq!(link.len(), 0);

    link.push(1);
    assert_eq!(link.len(), 1);
}

#[test]
fn test_peek() {
    let mut link = LinkList::from(vec![1, 2, 3]);
    assert_eq!(link.peek(), Some(&3));

    link.pop();
    assert_eq!(link.peek(), Some(&2));

    link.pop();
    assert_eq!(link.peek(), Some(&1));

    link.pop();
    assert_eq!(link.peek(), None);
}

#[test]
fn test_peek_mut() {
    let mut link = LinkList::from(vec![1, 2, 3]);
    {
        let top = link.peek_mut();
        if let Some(top_val) = top {
            *top_val = *top_val + 1;
        }
        assert_eq!(link.peek(), Some(&4));
    }
    {
        let top2 = link.peek_mut();
        if let Some(top_val) = top2 {
            *top_val = *top_val * 2;
        }
        assert_eq!(link.peek(), Some(&8));
    }
}

#[test]
fn test_link_iterator() {
    let mut link = LinkList::from(vec![1, 2, 3]);
    let mut val = 3;
    while let Some(item) = link.next() {
        assert_eq!(val, item);
        val -= 1;
    }
}

#[test]
fn test_link_iter() {
    let link = LinkList::from(vec![1, 2, 3]);

    let mut val = 3;
    let mut iter = link.iter();
    while let Some(item) = iter.next() {
        assert_eq!(&val, item);
        val -= 1;
    }
}

#[test]
fn opt_test_reverse_list_by_recursive() {
    let linkedlist = ListNode::from_list(vec![1, 2, 3]);

    assert_eq!(opt::reverse_list_by_recursive(linkedlist), vec![3, 2, 1]);
}

#[test]
fn opt_test_reverse_list() {
    let linkedlist = ListNode::from_list(vec![1, 2, 3]);

    assert_eq!(opt::reverse_list(linkedlist), vec![3, 2, 1]);
}

#[test]
fn test_delete_node() {
    let linkedlist = ListNode::from_list(vec![1, 2, 3]);
    assert_eq!(opt::delete_node(linkedlist, 2), ListNode::from_list(vec![1, 3]));
}

#[test]
fn test_reverse() {
    let linkedlist = ListNode::from_list(vec![1, 2, 3]);

    assert_eq!(opt::reverse(linkedlist), ListNode::from_list(vec![3, 2, 1]));
}

#[test]
fn test_find_nth_from_end() {
    let linkedlist = ListNode::from_list(vec![1, 2, 3, 4]);
    assert_eq!(
        opt::find_nth_from_end(linkedlist, 2),
        ListNode::from_list(vec![3, 4])
    );
}

#[test]
fn test_find_nth_from_end_v2() {
    let linkedlist = ListNode::from_list(vec![1, 2, 3, 4]);
    assert_eq!(
        opt::find_nth_from_end_v2(linkedlist, 2),
        ListNode::from_list(vec![3, 4])
    );
}

#[test]
fn test_merge() {
    assert_eq!(
        opt::merge(
            ListNode::from_list(vec![1, 2]),
            ListNode::from_list(vec![3])
        ),
        ListNode::from_list(vec![1, 2, 3])
    );
}

#[test]
fn test_merge_equal_values() {
    assert_eq!(
        opt::merge(
            ListNode::from_list(vec![1, 2]),
            ListNode::from_list(vec![2, 3])
        ),
        ListNode::from_list(vec![1, 2, 2, 3])
    );
}

#[test]
fn test_find_nth_from_end_out_of_range() {
    let linkedlist = ListNode::from_list(vec![1, 2]);
    assert_eq!(opt::find_nth_from_end(linkedlist, 0), None);
    let linkedlist = ListNode::from_list(vec![1, 2]);
    assert_eq!(opt::find_nth_from_end(linkedlist, 3), None);
    // The two-pointer variant hands the whole list back for a count beyond
    // its length.
    let linkedlist = ListNode::from_list(vec![1, 2]);
    assert_eq!(
        opt::find_nth_from_end_v2(linkedlist, 3),
        ListNode::from_list(vec![1, 2])
    );
}

#[test]
fn test_delete_node_all_and_none() {
    let linkedlist = ListNode::from_list(vec![2, 2, 2]);
    assert_eq!(opt::delete_node(linkedlist, 2), None);
    let linkedlist = ListNode::from_list(vec![1, 3]);
    assert_eq!(opt::delete_node(linkedlist, 2), ListNode::from_list(vec![1, 3]));
}

#[test]
fn test_reverse_empty() {
    assert_eq!(opt::reverse(None), None);
    assert_eq!(common::reverse_list(None), Vec::<i32>::new());
    assert_eq!(common::reverse_list_by_recursive(None), Vec::<i32>::new());
}
