use guessing_game::random::generate;

#[test]
fn generate_stays_in_range() {
    for _ in 0..1000 {
        let n = generate(1, 100);
        assert!(1 <= n && n <= 100);
    }
}

#[test]
fn generate_degenerate_range_is_fixed() {
    assert_eq!(generate(5, 5), 5);
}

#[test]
fn generate_draws_more_than_one_value() {
    let first = generate(1, 100);
    let varied = (0..1000).any(|_| generate(1, 100) != first);
    assert!(varied);
}
