use ashuffle::list::{
    list, list_at, list_free, list_init, list_node_at, list_node_extract, list_pop, list_pop_push,
    list_push, node_from,
};

fn make(items: &[u32]) -> list<u32> {
    let mut l = list_init();
    for &x in items {
        list_push(&mut l, node_from(x));
    }
    l
}

fn contents(l: &list<u32>) -> Vec<u32> {
    let mut out = Vec::new();
    let mut i = 0;
    while let Some(x) = list_at(l, i) {
        out.push(*x);
        i += 1;
    }
    out
}

#[test]
fn push_keeps_order_and_length() {
    let l = make(&[3, 1, 4, 1, 5]);
    assert_eq!(l.length(), 5);
    assert_eq!(contents(&l), vec![3, 1, 4, 1, 5]);
}

#[test]
fn at_out_of_range_is_none() {
    let l = make(&[7, 8]);
    assert_eq!(list_at(&l, 1), Some(&8));
    assert_eq!(list_at(&l, 2), None);
    let empty: list<u32> = list_init();
    assert_eq!(list_at(&empty, 0), None);
}

#[test]
fn node_at_gives_rest_of_chain() {
    let l = make(&[10, 20, 30]);
    let n = list_node_at(&l, 1).unwrap();
    assert_eq!(n.data, 20);
    assert_eq!(n.next.as_ref().unwrap().data, 30);
    assert!(n.next.as_ref().unwrap().next.is_none());
    assert!(list_node_at(&l, 3).is_none());
}

#[test]
fn extract_unlinks_node() {
    let mut l = make(&[1, 2, 3]);
    let n = list_node_extract(&mut l, 1).unwrap();
    assert_eq!(n.data, 2);
    assert!(n.next.is_none());
    assert_eq!(contents(&l), vec![1, 3]);
    assert_eq!(l.length(), 2);
    assert!(list_node_extract(&mut l, 2).is_none());
    assert_eq!(contents(&l), vec![1, 3]);
}

#[test]
fn extract_first_and_last() {
    let mut l = make(&[1, 2, 3]);
    assert_eq!(list_node_extract(&mut l, 0).unwrap().data, 1);
    assert_eq!(list_node_extract(&mut l, 1).unwrap().data, 3);
    assert_eq!(contents(&l), vec![2]);
}

#[test]
fn pop_push_moves_item_to_end() {
    let mut from = make(&[1, 2, 3]);
    let mut to = make(&[9]);
    assert_eq!(list_pop_push(&mut from, &mut to, 2), 0);
    assert_eq!(contents(&from), vec![1, 2]);
    assert_eq!(contents(&to), vec![9, 3]);
    assert_eq!(list_pop_push(&mut from, &mut to, 5), -1);
    assert_eq!(contents(&from), vec![1, 2]);
    assert_eq!(contents(&to), vec![9, 3]);
}

#[test]
fn pop_removes_item() {
    let mut l = make(&[4, 5, 6]);
    assert_eq!(list_pop(&mut l, 0), 0);
    assert_eq!(contents(&l), vec![5, 6]);
    assert_eq!(list_pop(&mut l, 2), -1);
    assert_eq!(contents(&l), vec![5, 6]);
}

#[test]
fn free_empties_list() {
    let mut l = make(&[1, 2]);
    list_free(&mut l);
    assert_eq!(l.length(), 0);
    assert_eq!(list_at(&l, 0), None);
    list_push(&mut l, node_from(3));
    assert_eq!(contents(&l), vec![3]);
}
