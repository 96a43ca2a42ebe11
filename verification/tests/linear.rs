use std::collections::HashSet;
use sound_garden::linear::linearize;

#[test]
fn linearize_follows_a_chain() {
    let gone = HashSet::new();
    assert_eq!(linearize(&[3, 1, 2], &[(1, 2), (2, 3)], &gone), vec![1, 2, 3]);
}

#[test]
fn linearize_leaves_out_gone_nodes_but_walks_through_them() {
    let gone: HashSet<u64> = [2].into_iter().collect();
    assert_eq!(linearize(&[1, 2, 3], &[(1, 2), (2, 3)], &gone), vec![1, 3]);
}

#[test]
fn linearize_waits_for_every_incoming_edge() {
    let gone = HashSet::new();
    let order = linearize(&[4, 3, 2, 1], &[(1, 2), (1, 3), (2, 4), (3, 4)], &gone);
    assert_eq!(order, vec![1, 2, 3, 4]);
}

#[test]
fn linearize_keeps_the_given_order_of_sources() {
    let gone = HashSet::new();
    assert_eq!(linearize(&[5, 7, 6], &[], &gone), vec![5, 7, 6]);
}

#[test]
fn linearize_never_reaches_a_cycle() {
    let gone = HashSet::new();
    assert_eq!(linearize(&[1, 2, 3], &[(2, 3), (3, 2)], &gone), vec![1]);
}
