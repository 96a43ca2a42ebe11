use sound_garden::reverb::{is_prime, next_prime};

#[test]
fn small_numbers_are_classified() {
    let primes: Vec<usize> = (0..30).filter(|&n| is_prime(n)).collect();
    assert_eq!(primes, vec![2, 3, 5, 7, 11, 13, 17, 19, 23, 29]);
}

#[test]
fn squares_of_primes_are_not_prime() {
    assert!(!is_prime(9));
    assert!(!is_prime(25));
    assert!(!is_prime(3023 * 3023));
    assert!(is_prime(3023));
}

#[test]
fn base_delay_lengths_are_their_own_next_prime() {
    for delay in [1117usize, 1361, 1423, 1619, 1931, 2269, 2633, 3023] {
        assert_eq!(next_prime(delay), Some(delay));
    }
}

#[test]
fn next_prime_rounds_up_and_starts_at_two() {
    assert_eq!(next_prime(0), Some(2));
    assert_eq!(next_prime(1), Some(2));
    assert_eq!(next_prime(1216), Some(1217));
    assert_eq!(next_prime(1482), Some(1483));
}
