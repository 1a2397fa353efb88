use channels::linked_list::LinkedList;

fn collect_pairs(list: &LinkedList<i32>) -> Vec<(usize, i32)> {
    let mut elems = Vec::new();
    let mut it = list.iter();
    while let Some(elem) = it.next() {
        elems.push(elem);
    }
    elems
}

#[test]
fn can_create() {
    let list = LinkedList::<i32>::new();

    assert_eq!(list.len(), 0);
}

#[test]
fn can_push_elements() {
    let mut list = LinkedList::<i32>::new();
    list.push(5);
    list.push(10);
    list.push(15);

    assert_eq!(list.len(), 3);
}

#[test]
fn can_pop_elements() {
    let mut list = LinkedList::<i32>::new();
    list.push(5);
    list.push(10);
    list.push(15);

    assert_eq!(list.pop(), Some(15));
    assert_eq!(list.pop(), Some(10));
    assert_eq!(list.pop(), Some(5));
    assert_eq!(list.pop(), None);
}

#[test]
fn popping_all_elements_empties_the_list() {
    let mut list = LinkedList::<i32>::new();
    list.push(5);
    list.push(10);
    list.push(15);

    let _ = list.pop();
    let _ = list.pop();
    let _ = list.pop();

    assert_eq!(list.len(), 0);
}

#[test]
fn can_iterate_elements() {
    let mut list = LinkedList::<i32>::new();
    list.push(5);
    list.push(10);
    list.push(15);

    let elems = collect_pairs(&list);

    assert_eq!(elems.iter().len(), 3);
    assert_eq!(elems[0], (0, 5));
    assert_eq!(elems[1], (1, 10));
    assert_eq!(elems[2], (2, 15));
}

#[test]
fn can_insert_at() {
    let mut list = LinkedList::<i32>::new();
    list.push(5);
    list.push(10);
    list.push(15);
    list.push(20);

    list.insert_at(12, 2);

    assert_eq!(list.len(), 5);

    let elems = collect_pairs(&list);

    assert_eq!(elems[0], (0, 5));
    assert_eq!(elems[1], (1, 10));
    assert_eq!(elems[2], (2, 12));
    assert_eq!(elems[3], (3, 15));
    assert_eq!(elems[4], (4, 20));
}

#[test]
fn can_insert_at_last_position() {
    let mut list = LinkedList::<i32>::new();
    list.push(5);
    list.push(10);
    list.push(15);
    list.push(20);

    list.insert_at(12, 4);

    assert_eq!(list.len(), 5);

    let elems = collect_pairs(&list);

    assert_eq!(elems[0], (0, 5));
    assert_eq!(elems[1], (1, 10));
    assert_eq!(elems[2], (2, 15));
    assert_eq!(elems[3], (3, 20));
    assert_eq!(elems[4], (4, 12));
}

#[test]
fn can_insert_at_0_on_empty_list() {
    let mut list = LinkedList::<i32>::new();

    list.insert_at(12, 0);

    assert_eq!(list.len(), 1);

    let elems = collect_pairs(&list);

    assert_eq!(elems[0], (0, 12));
}

#[test]
fn cannot_insert_at_out_of_bound_on_empty_list() {
    let mut list = LinkedList::<i32>::new();

    let succeeded = list.insert_at(12, 1);

    assert_eq!(list.len(), 0);
    assert!(!succeeded);
}

#[test]
fn cannot_insert_at_out_of_bound_on_non_empty_list() {
    let mut list = LinkedList::<i32>::new();
    list.push(5);

    let succeeded = list.insert_at(12, 2);

    assert_eq!(list.len(), 1);
    assert!(!succeeded);
}

#[test]
fn can_remove_at() {
    let mut list = LinkedList::<i32>::new();
    list.push(5);
    list.push(10);
    list.push(12);
    list.push(15);
    list.push(20);

    let removed = list.remove_at(2);

    assert_eq!(list.len(), 4);
    assert_eq!(removed.unwrap(), 12);

    let elems = collect_pairs(&list);

    assert_eq!(elems[0], (0, 5));
    assert_eq!(elems[1], (1, 10));
    assert_eq!(elems[2], (2, 15));
    assert_eq!(elems[3], (3, 20));
}

#[test]
fn can_remove_at_last_position() {
    let mut list = LinkedList::<i32>::new();
    list.push(5);
    list.push(10);
    list.push(12);
    list.push(15);
    list.push(20);

    let removed = list.remove_at(4);

    assert_eq!(list.len(), 4);
    assert_eq!(removed.unwrap(), 20);

    let elems = collect_pairs(&list);

    assert_eq!(elems[0], (0, 5));
    assert_eq!(elems[1], (1, 10));
    assert_eq!(elems[2], (2, 12));
    assert_eq!(elems[3], (3, 15));
}

#[test]
fn can_remove_at_0_on_list_with_one_element() {
    let mut list = LinkedList::<i32>::new();
    list.push(5);

    let removed = list.remove_at(0);

    assert_eq!(list.len(), 0);
    assert_eq!(removed.unwrap(), 5);
}

#[test]
fn cannot_remove_at_out_of_bound_on_empty_list() {
    let mut list = LinkedList::<i32>::new();

    let succeeded = list.remove_at(1);

    assert!(succeeded.is_none());
}

#[test]
fn cannot_remove_at_out_of_bound_on_non_empty_list() {
    let mut list = LinkedList::<i32>::new();
    list.push(5);

    let succeeded = list.remove_at(2);

    assert_eq!(list.len(), 1);
    assert!(succeeded.is_none());
}
