//! The noise field itself is floating-point and lives outside the verified
//! core; these tests pin down the contract the core relies on when it takes
//! samples as plain inputs: sampling is a pure function of the point and the
//! generator's parameters.

use noise::{NoiseFn, Perlin, RidgedMulti, Seedable};
use stellar::fixp::SCALE;
use stellar::mesh::{remap_sample, REMAP_HIGH, REMAP_LOW};

#[test]
fn sampling_is_deterministic_per_instance() {
    let field = RidgedMulti::<Perlin>::new(RidgedMulti::<Perlin>::DEFAULT_SEED);
    let points = [
        [0.0f64, 0.0, 0.0],
        [1.5, -2.25, 3.75],
        [50_000.0, -40_000.0, 12_345.0],
        [-0.001, 0.002, -0.003],
    ];
    for p in points.iter() {
        let first = field.get(*p);
        let second = field.get(*p);
        assert_eq!(first.to_bits(), second.to_bits());
    }
}

#[test]
fn sampling_is_deterministic_across_instances() {
    let one = RidgedMulti::<Perlin>::new(7);
    let two = RidgedMulti::<Perlin>::new(7);
    assert_eq!(one.seed(), two.seed());
    let p = [12.5f64, -8.25, 0.125];
    assert_eq!(one.get(p).to_bits(), two.get(p).to_bits());
}

#[test]
fn remapped_samples_stay_in_band() {
    // The raw range of the generator is only roughly [-1, 1]; the remap
    // clamps whatever comes out into the displacement band.
    let field = RidgedMulti::<Perlin>::new(RidgedMulti::<Perlin>::DEFAULT_SEED);
    let mut t = -3.0f64;
    while t <= 3.0 {
        let raw = field.get([t, 2.0 * t, -0.5 * t]);
        let fixed = (raw * SCALE as f64) as i64;
        let remapped = remap_sample(fixed);
        assert!(REMAP_LOW <= remapped && remapped <= REMAP_HIGH);
        t += 0.125;
    }
}
