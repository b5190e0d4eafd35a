use dsp_core::rng::XorShift32;

fn reference_step(x: u32) -> u32 {
    let mut x = x;
    x ^= x << 13;
    x ^= x >> 17;
    x ^= x << 5;
    x
}

#[test]
fn rng_zero_seed_is_replaced() {
    let mut a = XorShift32::new(0);
    let mut b = XorShift32::new(0xDEAD_BEEF);
    for _ in 0..100 {
        assert_eq!(a.next_u32(), b.next_u32());
    }
}

#[test]
fn rng_matches_xorshift32() {
    let mut r = XorShift32::new(1);
    assert_eq!(r.next_u32(), 270369);
    assert_eq!(r.next_u32(), reference_step(270369));
    let mut s = XorShift32::new(0x1234_5678);
    let mut x = 0x1234_5678u32;
    for _ in 0..1000 {
        x = reference_step(x);
        assert_eq!(s.next_u32(), x);
    }
}

#[test]
fn rng_never_yields_zero() {
    for seed in [0u32, 1, 2, 0x8000_0000, u32::MAX] {
        let mut r = XorShift32::new(seed);
        for _ in 0..10_000 {
            assert_ne!(r.next_u32(), 0);
        }
    }
}

#[test]
fn rng_same_seed_same_sequence() {
    let mut a = XorShift32::new(42);
    let mut b = XorShift32::new(42);
    for _ in 0..256 {
        assert_eq!(a.next_u32(), b.next_u32());
    }
}
