use veloren_logic::sentinel::DeletedEntities;

#[test]
fn deleted_entities_are_grouped_by_region() {
    let mut d = DeletedEntities::new();
    d.record_deleted_entity(5, (0, 0));
    d.record_deleted_entity(6, (0, 0));
    d.record_deleted_entity(7, (1, -1));
    assert_eq!(d.get_deleted_in_region((0, 0)), Some(&vec![5, 6]));
    assert_eq!(d.get_deleted_in_region((2, 2)), None);
    assert_eq!(d.take_deleted_in_region((0, 0)), Some(vec![5, 6]));
    assert_eq!(d.take_deleted_in_region((0, 0)), None);
    let mut rest = d.take_remaining_deleted();
    rest.sort();
    assert_eq!(rest, vec![((1, -1), vec![7])]);
    assert!(d.take_remaining_deleted().is_empty());
}

#[test]
fn take_remaining_lists_each_region_once() {
    let mut d = DeletedEntities::new();
    for i in 0..10u64 {
        d.record_deleted_entity(i, ((i % 3) as i32, 0));
    }
    let mut rest = d.take_remaining_deleted();
    rest.sort();
    assert_eq!(rest, vec![((0, 0), vec![0, 3, 6, 9]), ((1, 0), vec![1, 4, 7]), ((2, 0), vec![2, 5, 8])]);
}
