use pico_canvas::rng::Rng;

const ACE1_OUTPUTS: [u32; 8] = [
    2785821647, 3770886741, 884005553, 3543876866, 3371188527, 3664636389, 2373858285, 729119724,
];

#[test]
fn seed_is_kept_until_first_draw() {
    let rng = Rng::new(0xACE1);
    assert_eq!(rng.0, 0xACE1);
}

#[test]
fn first_outputs_for_known_seed() {
    let mut rng = Rng::new(0xACE1);
    for expected in ACE1_OUTPUTS {
        assert_eq!(rng.next(), expected);
    }
}

#[test]
fn output_is_the_new_state() {
    let mut rng = Rng::new(1);
    let value = rng.next();
    assert_eq!(value, 270369);
    assert_eq!(rng.0, 270369);
    assert_eq!(rng.next(), 67634689);
}

#[test]
fn same_seed_gives_same_run() {
    let mut first = Rng::new(0xDEADBEEF);
    let mut second = Rng::new(0xDEADBEEF);
    for _ in 0..1000 {
        assert_eq!(first.next(), second.next());
    }
}

#[test]
fn take_draws_in_order() {
    let mut rng = Rng::new(0xACE1);
    let values = rng.take(8);
    assert_eq!(values, ACE1_OUTPUTS.to_vec());
    assert_eq!(rng.0, ACE1_OUTPUTS[7]);
    assert_eq!(rng.take(0), Vec::<u32>::new());
    assert_eq!(rng.0, ACE1_OUTPUTS[7]);
}

#[test]
fn nonzero_seed_never_reaches_zero() {
    let mut rng = Rng::new(1);
    for _ in 0..100_000 {
        assert_ne!(rng.next(), 0);
    }
}

#[test]
fn zero_state_is_a_fixed_point() {
    let mut rng = Rng(0);
    for _ in 0..10 {
        assert_eq!(rng.next(), 0);
    }
}

#[test]
fn different_states_lead_to_different_states() {
    let mut seen = std::collections::HashSet::new();
    let mut rng = Rng::new(0xACE1);
    for _ in 0..100_000 {
        assert!(seen.insert(rng.next()));
    }
}
