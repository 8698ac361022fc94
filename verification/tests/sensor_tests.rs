use ironpath::sensors::{BatterySensor, PositionSensor, SimpleRng};

#[test]
fn generator_follows_the_linear_congruence() {
    let mut rng = SimpleRng::new(0);
    assert_eq!(rng.next_bits(), 704440937934064);
    assert_eq!(rng.next_bits(), 916020997953357);
    assert_eq!(rng.next_bits(), 5452267780427344);
}

#[test]
fn battery_sensor_noise_is_seeded() {
    let mut sensor = BatterySensor::new(0xBA77_E9);
    assert_eq!(sensor.next_noise_bits(), 8726744302487813);
    assert_eq!(sensor.next_noise_bits(), 3894922572903456);
    assert_eq!(sensor.next_noise_bits(), 2794502728403477);
}

#[test]
fn position_sensor_noise_is_seeded() {
    let mut sensor = PositionSensor::new(0x9051_710);
    assert_eq!(sensor.next_noise_bits(), 2908285886267823);
    assert_eq!(sensor.next_noise_bits(), 8019989884017735);
    assert_eq!(sensor.next_noise_bits(), 8393229647095682);
}

#[test]
fn equal_seeds_give_equal_noise() {
    let mut a = SimpleRng::new(0xA11C_E55);
    let mut b = SimpleRng::new(0xA11C_E55);
    for _ in 0..1000 {
        let x = a.next_bits();
        assert_eq!(x, b.next_bits());
        assert!(x < (1u64 << 53));
    }
}

#[test]
fn draws_stay_below_two_to_the_fifty_three() {
    let mut rng = SimpleRng::new(u64::MAX);
    for _ in 0..10_000 {
        assert!(rng.next_bits() < (1u64 << 53));
    }
}

#[test]
fn kth_draw_is_kth_state_from_the_seed() {
    let seed = 0xA11C_E55u64;
    let mut rng = SimpleRng::new(seed);
    let mut state = seed;
    for _ in 0..50 {
        state = state
            .wrapping_mul(6364136223846793005)
            .wrapping_add(1442695040888963407);
        assert_eq!(rng.next_bits(), state >> 11);
    }
}
