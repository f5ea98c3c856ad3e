use pico_games::rand::Rand;

/// The fixed seed must reproduce the closed-form recurrence values
/// computed independently: state' = (state * 1103515245 + 12345) mod 2^32,
/// output = (state' / 65536) mod 32768.
#[test]
fn fixed_seed_matches_recurrence() {
    let mut r = Rand::new(25023540);
    assert_eq!(r.next(), 19827);
    assert_eq!(r.next(), 21255);
    assert_eq!(r.next(), 14901);
}

#[test]
fn state_follows_recurrence() {
    let mut r = Rand::new(25023540);
    r.next();
    assert_eq!(r.state, 1299407453);
    r.next();
    assert_eq!(r.state, 3540477906);
}

#[test]
fn same_seed_same_sequence() {
    let mut a = Rand::new(77);
    let mut b = Rand::new(77);
    for _ in 0..100 {
        assert_eq!(a.next(), b.next());
    }
}

#[test]
fn output_stays_in_range() {
    let mut r = Rand::new(u32::MAX);
    for _ in 0..1000 {
        assert!(r.next() < 32768);
    }
}

#[test]
fn zero_seed_first_value() {
    let mut r = Rand::new(0);
    // state becomes 12345; 12345 / 65536 == 0
    assert_eq!(r.next(), 0);
    assert_eq!(r.state, 12345);
}
