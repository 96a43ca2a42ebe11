use sound_garden::migration::{migration_sources, MIGRATION_INDEX_SIZE};

#[test]
fn ops_take_state_from_old_ops_with_the_same_id() {
    let sources = migration_sources(&[5, 7, 9], &[9, 5, 3]);
    assert_eq!(sources, vec![Some(1), None, Some(0)]);
}

#[test]
fn nothing_migrates_from_or_into_an_empty_program() {
    assert_eq!(migration_sources(&[1, 2], &[]), vec![None, None]);
    assert_eq!(migration_sources(&[], &[1, 2]), Vec::<Option<usize>>::new());
}

#[test]
fn ops_past_the_index_are_found_by_scanning() {
    let previous: Vec<u64> = (0..(MIGRATION_INDEX_SIZE as u64 + 10)).collect();
    let target = MIGRATION_INDEX_SIZE as u64 + 3;
    let sources = migration_sources(&[target, 2], &previous);
    assert_eq!(sources, vec![Some(MIGRATION_INDEX_SIZE + 3), Some(2)]);
}

#[test]
fn past_the_index_the_first_matching_op_is_taken() {
    let mut previous: Vec<u64> = (1000..(1000 + MIGRATION_INDEX_SIZE as u64)).collect();
    previous.extend([7, 8, 7]);
    let sources = migration_sources(&[7], &previous);
    assert_eq!(sources, vec![Some(MIGRATION_INDEX_SIZE)]);
}

#[test]
fn a_duplicated_id_in_the_index_gives_one_of_its_positions() {
    let sources = migration_sources(&[4], &[4, 1, 4]);
    assert!(sources == vec![Some(0)] || sources == vec![Some(2)]);
}

#[test]
fn reloading_a_program_onto_itself_gives_each_op_its_own_state() {
    let ids: Vec<u64> = (0..300).map(|i| (i * 7919) % 1000 + 1).collect();
    let sources = migration_sources(&ids, &ids);
    for (k, source) in sources.iter().enumerate() {
        assert_eq!(*source, Some(k));
    }
}
