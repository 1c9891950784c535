use vacancies::generic_container::GenericContainer;

#[test]
fn new_len_and_push_back() {
    let mut c = GenericContainer::new(vec![1, 2, 3]);
    assert_eq!(c.len(), 3);
    c.push_back(4);
    assert_eq!(c.len(), 4);
    assert_eq!(c.items(), &vec![1, 2, 3, 4]);
}

#[test]
fn delete_by_number_counts_from_one() {
    let mut c = GenericContainer::new(vec!['a', 'b', 'c']);
    assert_eq!(c.delete_by_number(2), Ok('b'));
    assert_eq!(c.items(), &vec!['a', 'c']);
    assert_eq!(c.delete_by_number(1), Ok('a'));
    assert_eq!(c.items(), &vec!['c']);
}

#[test]
fn delete_by_number_refuses_zero_and_past_the_end() {
    let mut c = GenericContainer::new(vec!['a', 'b']);
    assert_eq!(c.delete_by_number(0), Err(()));
    assert_eq!(c.delete_by_number(3), Err(()));
    assert_eq!(c.items(), &vec!['a', 'b']);
    assert_eq!(c.delete_by_number(2), Ok('b'));
}

#[test]
fn push_then_delete_last_restores() {
    let mut c = GenericContainer::new(vec![10, 20]);
    let before = c.items().clone();
    c.push_back(30);
    assert_eq!(c.delete_by_number(before.len() + 1), Ok(30));
    assert_eq!(c.items(), &before);
}

#[test]
fn next_takes_items_from_the_front() {
    let mut c = GenericContainer::new(vec![1, 2]);
    assert_eq!(c.next(), Some(1));
    assert_eq!(c.next(), Some(2));
    assert_eq!(c.next(), None);
    assert_eq!(c.len(), 0);
    assert_eq!(c.into_items(), Vec::<i32>::new());
}

#[test]
fn len_counts_the_items_next_yields() {
    for items in [vec![], vec![7], vec![1, 2, 3, 4]].iter() {
        let c = GenericContainer::new(items.clone());
        let mut copy = c.clone();
        let mut yielded = Vec::new();
        while let Some(x) = copy.next() {
            yielded.push(x);
        }
        assert_eq!(yielded.len(), c.len());
        assert_eq!(&yielded, items);
        assert_eq!(c.items(), items);
    }
}
