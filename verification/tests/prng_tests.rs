use raydrone::prng::{seed_state, xorshift32};

#[test]
fn xorshift32_known_values() {
    let mut s = 0x1234_5678u32;
    assert_eq!(xorshift32(&mut s), 0x8798_5aa5);
    assert_eq!(s, 0x8798_5aa5);
    assert_eq!(xorshift32(&mut s), 0x155b_24a3);
    assert_eq!(xorshift32(&mut s), 0x4820_f4c4);
    let mut one = 1u32;
    assert_eq!(xorshift32(&mut one), 270369);
}

#[test]
fn xorshift32_zero_stays_zero() {
    let mut z = 0u32;
    assert_eq!(xorshift32(&mut z), 0);
    assert_eq!(z, 0);
}

#[test]
fn seeded_stream_never_reaches_zero() {
    let mut s = seed_state(7);
    for _ in 0..100_000 {
        assert_ne!(xorshift32(&mut s), 0);
    }
}

#[test]
fn seed_zero_becomes_one() {
    assert_eq!(seed_state(0), 1);
    assert_eq!(seed_state(1), 1);
    assert_eq!(seed_state(0xdead_beef), 0xdead_beef);
}

#[test]
fn rng01_is_deterministic_and_in_range() {
    let mut a = 0x1234_5678u32;
    let mut b = 0x1234_5678u32;
    for _ in 0..1000 {
        let x = (xorshift32(&mut a) as f32) * (1.0 / 4_294_967_296.0);
        let y = (xorshift32(&mut b) as f32) * (1.0 / 4_294_967_296.0);
        assert_eq!(x, y); // same seed → same stream
        assert!((0.0..1.0).contains(&x));
    }
}
