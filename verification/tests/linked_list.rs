use critical_section::CriticalSection;
use nostd_async::interrupt::free;
use nostd_async::linked_list::LinkedList;
use nostd_async::non_null::NonNull;

type Node = NonNull<u32>;

fn same(a: Node, b: Node) -> bool {
    a.as_ptr() == b.as_ptr()
}

fn assert_is_valid(list: &LinkedList<u32>) {
    free(|cs| {
        if let Some(first) = list.first(cs) {
            let last = list.last(cs).expect("List has a last node");
            assert!(list.previous(cs, first).is_none());
            assert!(list.next(cs, last).is_none());

            let mut current_node = first;

            loop {
                if let Some(previous) = list.previous(cs, current_node) {
                    let previous_next = list.next(cs, previous).expect("Node has next node");
                    assert!(same(current_node, previous_next));
                }

                if let Some(next) = list.next(cs, current_node) {
                    let next_previous = list.previous(cs, next).expect("Node has previous node");
                    assert!(same(current_node, next_previous));

                    current_node = next;
                    continue;
                }

                assert!(same(current_node, last));
                break;
            }
        } else {
            assert!(list.last(cs).is_none());
        }
    })
}

fn is_empty(list: &LinkedList<u32>) -> bool {
    free(|cs| list.first(cs).is_none())
}

fn contains(list: &LinkedList<u32>, node: Node, cs: CriticalSection) -> bool {
    if let Some(first) = list.first(cs) {
        let mut current_node = first;

        loop {
            if same(current_node, node) {
                return true;
            }

            if let Some(next_node) = list.next(cs, current_node) {
                current_node = next_node;
            } else {
                return false;
            }
        }
    } else {
        false
    }
}

fn queue(list: &LinkedList<u32>, cs: CriticalSection) -> Vec<usize> {
    let mut order = Vec::new();
    let mut current = list.first(cs);
    while let Some(node) = current {
        order.push(node.as_ptr());
        current = list.next(cs, node);
    }
    order
}

#[test]
fn empty_list_is_valid() {
    let list = LinkedList::<u32>::default();
    assert_is_valid(&list);
    assert!(is_empty(&list));
}

#[test]
fn singleton_insert_front_is_valid() {
    free(|cs| {
        let mut list = LinkedList::default();

        let node = list.register(0);
        list.insert_front(cs, node);

        assert_is_valid(&list);
        assert!(contains(&list, node, cs));
    });
}

#[test]
fn singleton_insert_back_is_valid() {
    free(|cs| {
        let mut list = LinkedList::default();

        let node = list.register(0);
        list.insert_back(cs, node);

        assert_is_valid(&list);
        assert!(contains(&list, node, cs));
    });
}

#[test]
fn list_a_b_is_valid() {
    free(|cs| {
        let mut list = LinkedList::default();

        let node_a = list.register(0);
        let node_b = list.register(1);

        list.insert_back(cs, node_a);
        list.insert_back(cs, node_b);

        assert_is_valid(&list);
        assert!(contains(&list, node_a, cs));
        assert!(contains(&list, node_b, cs));

        assert!(list.next(cs, node_a).is_some());
        assert!(same(list.next(cs, node_a).unwrap(), node_b));
    });
}

#[test]
fn list_b_a_is_valid() {
    free(|cs| {
        let mut list = LinkedList::default();

        let node_a = list.register(0);
        let node_b = list.register(1);

        list.insert_front(cs, node_a);
        list.insert_front(cs, node_b);

        assert_is_valid(&list);
        assert!(contains(&list, node_a, cs));
        assert!(contains(&list, node_b, cs));

        assert!(list.next(cs, node_b).is_some());
        assert!(same(list.next(cs, node_b).unwrap(), node_a));
    });
}

fn run_triple_test(remove_order: [usize; 3]) {
    free(|cs| {
        let mut list = LinkedList::default();

        let nodes = [list.register(0), list.register(1), list.register(2)];

        for node in nodes.iter() {
            list.insert_back(cs, *node);
        }

        for node in nodes.iter() {
            assert!(contains(&list, *node, cs));
        }

        list.remove(cs, nodes[remove_order[0]]);

        assert!(!contains(&list, nodes[remove_order[0]], cs));
        assert!(contains(&list, nodes[remove_order[1]], cs));
        assert!(contains(&list, nodes[remove_order[2]], cs));

        assert!(!list.is_in_queue(cs, nodes[remove_order[0]]));
        assert!(list.is_in_queue(cs, nodes[remove_order[1]]));
        assert!(list.is_in_queue(cs, nodes[remove_order[2]]));

        list.remove(cs, nodes[remove_order[1]]);

        assert!(!contains(&list, nodes[remove_order[0]], cs));
        assert!(!contains(&list, nodes[remove_order[1]], cs));
        assert!(contains(&list, nodes[remove_order[2]], cs));

        assert!(!list.is_in_queue(cs, nodes[remove_order[0]]));
        assert!(!list.is_in_queue(cs, nodes[remove_order[1]]));
        assert!(list.is_in_queue(cs, nodes[remove_order[2]]));

        list.remove(cs, nodes[remove_order[2]]);

        assert!(!contains(&list, nodes[remove_order[0]], cs));
        assert!(!contains(&list, nodes[remove_order[1]], cs));
        assert!(!contains(&list, nodes[remove_order[2]], cs));

        assert!(!list.is_in_queue(cs, nodes[remove_order[0]]));
        assert!(!list.is_in_queue(cs, nodes[remove_order[1]]));
        assert!(!list.is_in_queue(cs, nodes[remove_order[2]]));
    });
}

#[test]
fn triple_list_is_valid_012() {
    run_triple_test([0, 1, 2]);
}

#[test]
fn triple_list_is_valid_021() {
    run_triple_test([0, 2, 1]);
}

#[test]
fn triple_list_is_valid_102() {
    run_triple_test([1, 0, 2]);
}

#[test]
fn triple_list_is_valid_120() {
    run_triple_test([1, 2, 0]);
}

#[test]
fn triple_list_is_valid_201() {
    run_triple_test([2, 0, 1]);
}

#[test]
fn triple_list_is_valid_210() {
    run_triple_test([2, 1, 0]);
}

#[test]
fn insert_is_a_no_op_for_a_queued_item() {
    free(|cs| {
        let mut list = LinkedList::new();
        let a = list.register(0);
        let b = list.register(1);

        list.insert_back(cs, a);
        list.insert_back(cs, b);
        list.insert_back(cs, a);
        list.insert_front(cs, b);

        assert_eq!(queue(&list, cs), vec![0, 1]);
        assert_is_valid(&list);
    });
}

#[test]
fn remove_is_a_no_op_for_an_item_that_is_not_queued() {
    free(|cs| {
        let mut list = LinkedList::new();
        let a = list.register(0);
        let b = list.register(1);

        list.remove(cs, a);
        assert!(is_empty(&list));

        list.insert_back(cs, a);
        list.remove(cs, b);
        list.remove(cs, b);

        assert_eq!(queue(&list, cs), vec![0]);
        assert_is_valid(&list);
    });
}

#[test]
fn removing_the_only_item_empties_the_list() {
    free(|cs| {
        let mut list = LinkedList::new();
        let a = list.register(0);

        list.insert_front(cs, a);
        list.remove(cs, a);

        assert!(is_empty(&list));
        assert!(list.last(cs).is_none());
        assert!(list.previous(cs, a).is_none());
        assert!(list.next(cs, a).is_none());
        assert!(!list.is_in_queue(cs, a));
    });
}

#[test]
fn removing_from_the_middle_joins_the_neighbours() {
    free(|cs| {
        let mut list = LinkedList::new();
        let a = list.register(0);
        let b = list.register(1);
        let c = list.register(2);
        list.insert_back(cs, a);
        list.insert_back(cs, b);
        list.insert_back(cs, c);

        list.remove(cs, b);

        assert_eq!(queue(&list, cs), vec![0, 2]);
        assert!(same(list.next(cs, a).unwrap(), c));
        assert!(same(list.previous(cs, c).unwrap(), a));
        assert!(list.previous(cs, b).is_none());
        assert!(list.next(cs, b).is_none());
    });
}

#[test]
fn pop_first_takes_items_in_queue_order() {
    free(|cs| {
        let mut list = LinkedList::new();
        let a = list.register(10);
        let b = list.register(20);
        let c = list.register(30);
        list.insert_back(cs, b);
        list.insert_back(cs, c);
        list.insert_front(cs, a);

        assert_eq!(list.pop_first(cs).map(|n| n.as_ptr()), Some(0));
        assert_is_valid(&list);
        assert_eq!(list.pop_first(cs).map(|n| n.as_ptr()), Some(1));
        assert_eq!(list.pop_first(cs).map(|n| n.as_ptr()), Some(2));
        assert!(list.pop_first(cs).is_none());
        assert!(is_empty(&list));
    });
}

#[test]
fn with_first_sees_the_value_of_the_first_item() {
    free(|cs| {
        let mut list = LinkedList::new();
        assert_eq!(list.with_first(cs, |value: &u32| *value + 1), None);

        let a = list.register(10);
        let b = list.register(20);
        list.insert_back(cs, b);
        assert_eq!(list.with_first(cs, |value: &u32| *value + 1), Some(21));

        list.insert_front(cs, a);
        assert_eq!(list.with_first(cs, |value: &u32| *value + 1), Some(11));
    });
}

#[test]
fn values_are_kept_and_can_be_changed_in_place() {
    free(|cs| {
        let mut list = LinkedList::new();
        let a = list.register(10);
        let b = list.register(20);
        assert_eq!(list.slots(), 2);
        list.insert_back(cs, a);
        list.insert_back(cs, b);

        *list.get_mut(a) = 11;
        list.remove(cs, a);

        assert_eq!(*list.get(a), 11);
        assert_eq!(*list.get(b), 20);
        assert_eq!(queue(&list, cs), vec![1]);
    });
}

#[test]
fn links_stay_valid_through_any_run_of_operations() {
    free(|cs| {
        let mut list = LinkedList::new();
        let nodes: Vec<Node> = (0..7).map(|i| list.register(i)).collect();
        let mut model: Vec<usize> = Vec::new();

        // A fixed pseudo-random run of insert_front, insert_back and remove.
        let mut state: u32 = 0x2545_f491;
        for _ in 0..2000 {
            state ^= state << 13;
            state ^= state >> 17;
            state ^= state << 5;
            let node = (state >> 8) as usize % nodes.len();
            match (state >> 4) % 3 {
                0 => {
                    list.insert_front(cs, nodes[node]);
                    if !model.contains(&node) {
                        model.insert(0, node);
                    }
                }
                1 => {
                    list.insert_back(cs, nodes[node]);
                    if !model.contains(&node) {
                        model.push(node);
                    }
                }
                _ => {
                    list.remove(cs, nodes[node]);
                    model.retain(|queued| *queued != node);
                }
            }

            assert_is_valid(&list);
            assert_eq!(queue(&list, cs), model);
            for (index, queued) in nodes.iter().enumerate() {
                assert_eq!(list.is_in_queue(cs, *queued), model.contains(&index));
            }
        }
    });
}
