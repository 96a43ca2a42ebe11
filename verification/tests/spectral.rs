use rand::rngs::SmallRng;
use rand::SeedableRng;
use sound_garden::spectral::{identity_permutation, place_bins, shuffle_block, shuffle_blocks, shuffle_permutation};

fn seeded_rng(seed: u64) -> SmallRng {
    SmallRng::seed_from_u64(seed)
}

fn is_permutation(p: &[usize]) -> bool {
    let mut seen = vec![false; p.len()];
    for &x in p {
        if x >= p.len() || seen[x] {
            return false;
        }
        seen[x] = true;
    }
    true
}

#[test]
fn blocks_run_over_the_bins_between_dc_and_nyquist() {
    assert_eq!(shuffle_blocks(10, 4), vec![(1, 5), (5, 9), (9, 10)]);
    assert_eq!(shuffle_blocks(10, 0), vec![(1, 10)]);
    assert_eq!(shuffle_blocks(1, 3), Vec::<(usize, usize)>::new());
    assert_eq!(shuffle_blocks(5, usize::MAX), vec![(1, 5)]);
}

#[test]
fn spectral_shuffle_locality_limits_bin_motion() {
    // A window of 2048 samples has 1025 bins; at full amount every bin of a
    // block of 8 is selected, and bin 100 stays within 8 bins of itself.
    let len = 1025;
    let blocks = shuffle_blocks(len - 1, 8);
    let selected: Vec<usize> = blocks.iter().map(|(s, e)| e - s).collect();
    let mut rng = seeded_rng(7);
    let p = shuffle_permutation(len, 8, &selected, &mut rng);
    assert!(p[100].abs_diff(100) <= 8, "bin 100 went to {}", p[100]);
    assert!(is_permutation(&p));
    for (start, end) in blocks {
        for i in start..end {
            assert!(start <= p[i] && p[i] < end);
        }
    }
    assert_eq!(p[0], 0);
    assert_eq!(p[len - 1], len - 1);
}

#[test]
fn spectral_shuffle_is_seeded_and_stable() {
    let len = 65;
    let selected = vec![40];
    let a = shuffle_permutation(len, 0, &selected, &mut seeded_rng(3));
    let b = shuffle_permutation(len, 0, &selected, &mut seeded_rng(3));
    assert_eq!(a, b);
    assert!(is_permutation(&a));
}

#[test]
fn selecting_fewer_than_two_bins_moves_none() {
    let mut p = identity_permutation(8);
    shuffle_block(&mut p, 1, 7, 1, &mut seeded_rng(1));
    assert_eq!(p, identity_permutation(8));
    let p = shuffle_permutation(8, 2, &[0, 1, 0], &mut seeded_rng(1));
    assert_eq!(p, (0..8).collect::<Vec<_>>());
}

#[test]
fn at_most_the_selected_bins_of_each_block_move() {
    let len = 65;
    let blocks = shuffle_blocks(len - 1, 8);
    let selected: Vec<usize> = blocks.iter().enumerate().map(|(b, &(s, e))| (b % 3) * (e - s) / 2).collect();
    for seed in 0..20 {
        let p = shuffle_permutation(len, 8, &selected, &mut seeded_rng(seed));
        for (b, &(start, end)) in blocks.iter().enumerate() {
            let moved = (start..end).filter(|&i| p[i] != i).count();
            assert!(moved <= selected[b], "block {} moved {} of {}", b, moved, selected[b]);
        }
    }
}

#[test]
fn place_bins_sends_each_source_to_its_destination() {
    let mut p = identity_permutation(8);
    place_bins(&mut p, &[2, 5, 3], &[5, 3, 2]);
    assert_eq!(p, vec![0, 1, 5, 2, 4, 3, 6, 7]);
}
