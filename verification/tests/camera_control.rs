use stellar::camera::{
    camera_tick, classify_cursor, initial_state, pan_angles, pan_deltas, CameraConfig, KeyInput,
    Region, RotationInputs,
};
use stellar::quat::{compose_normalized, identity, normalize, rotate, unit_check, QuatFx};
use stellar::vec3::Vec3Fx;

fn identity_rotations() -> RotationInputs {
    RotationInputs { yaw: identity(), pitch: identity(), roll_q: identity(), roll_e: identity() }
}

/// A near-unit axis quaternion from a half-angle in radians, rounded to
/// thousandths, the way the host would build one with real trigonometry.
fn quat_about_z(angle: f64) -> QuatFx {
    let half = angle / 2.0;
    QuatFx {
        w: (half.cos() * 1000.0).round() as i64,
        x: 0,
        y: 0,
        z: (half.sin() * 1000.0).round() as i64,
    }
}

fn quat_about_y(angle: f64) -> QuatFx {
    let half = angle / 2.0;
    QuatFx {
        w: (half.cos() * 1000.0).round() as i64,
        x: 0,
        y: (half.sin() * 1000.0).round() as i64,
        z: 0,
    }
}

fn quat_about_x(angle: f64) -> QuatFx {
    let half = angle / 2.0;
    QuatFx {
        w: (half.cos() * 1000.0).round() as i64,
        x: (half.sin() * 1000.0).round() as i64,
        y: 0,
        z: 0,
    }
}

#[test]
fn default_config_matches_stock_tuning() {
    let c = CameraConfig::default();
    assert_eq!(c.pan, 100_000);
    assert_eq!(c.margin, 550);
    assert_eq!(c.rotation, 8_000_000);
    assert_eq!((c.w, c.a, c.s, c.d), (10_000, 10_000, 10_000, 10_000));
    assert_eq!((c.z, c.x), (5_100, 5_100));
    assert_eq!((c.q, c.e), (10, 10));
    assert_eq!(c.camera_start, Vec3Fx { x: 0, y: 0, z: 100_000_000 });
}

#[test]
fn initial_state_is_identity_at_start() {
    let c = CameraConfig::default();
    let s = initial_state(&c);
    assert_eq!(s.position, c.camera_start);
    assert_eq!(s.orientation, QuatFx { w: 1000, x: 0, y: 0, z: 0 });
    assert_eq!(s.momentum, Vec3Fx { x: 0, y: 0, z: 0 });
}

#[test]
fn classification_covers_all_nine_regions() {
    // margin 0.55, so the lower threshold is 0.45.
    let m = 550;
    assert_eq!(classify_cursor(951, 951, m), Region::UpperRight);
    assert_eq!(classify_cursor(100, 100, m), Region::LowerLeft);
    assert_eq!(classify_cursor(951, 100, m), Region::LowerRight);
    assert_eq!(classify_cursor(100, 951, m), Region::UpperLeft);
    assert_eq!(classify_cursor(951, 500, m), Region::Right);
    assert_eq!(classify_cursor(100, 500, m), Region::Left);
    assert_eq!(classify_cursor(500, 951, m), Region::Upper);
    assert_eq!(classify_cursor(500, 100, m), Region::Lower);
    assert_eq!(classify_cursor(500, 500, m), Region::Center);
    // Exact thresholds are not past the margin: still the center.
    assert_eq!(classify_cursor(550, 450, m), Region::Center);
}

#[test]
fn classification_is_total_on_a_grid() {
    // Every point of a coarse grid over the window falls in some region,
    // and the corner regions take precedence over edges.
    let m = 550;
    let mut step_x: i64 = 0;
    while step_x <= 1000 {
        let mut step_y: i64 = 0;
        while step_y <= 1000 {
            let r = classify_cursor(step_x, step_y, m);
            if step_x > 550 && step_y > 550 {
                assert_eq!(r, Region::UpperRight);
            }
            if step_x < 450 && step_y < 450 {
                assert_eq!(r, Region::LowerLeft);
            }
            step_y += 25;
        }
        step_x += 25;
    }
}

#[test]
fn corners_take_precedence_when_margins_overlap() {
    // With a margin below one half the corner conditions overlap: a point
    // past 0.3 on both axes but below 0.7 satisfies the raw upper-right and
    // lower-left conditions at once. First match wins: the corner checked
    // first claims it.
    let m = 300;
    // Satisfies both the upper-right and lower-left raw conditions.
    assert_eq!(classify_cursor(400, 400, m), Region::UpperRight);
    // Satisfies both the lower-left and lower-right raw conditions.
    assert_eq!(classify_cursor(400, 200, m), Region::LowerLeft);
    assert_eq!(classify_cursor(200, 200, m), Region::LowerLeft);
    // Only the later corners match these.
    assert_eq!(classify_cursor(800, 200, m), Region::LowerRight);
    assert_eq!(classify_cursor(200, 800, m), Region::UpperLeft);
}

#[test]
fn edge_cursor_pans_one_axis() {
    let c = CameraConfig::default();
    assert_eq!(pan_deltas(951, 500, &c), (-40_100, 0));
    assert_eq!(pan_deltas(100, 500, &c), (35_000, 0));
    assert_eq!(pan_deltas(500, 951, &c), (0, -40_100));
}

#[test]
fn corner_cursor_pans_both_axes() {
    // Cursor at (0.95, 0.95) with margin 0.55: the upper-right corner.
    let c = CameraConfig::default();
    assert_eq!(classify_cursor(950, 950, c.margin), Region::UpperRight);
    let d = pan_deltas(950, 950, &c);
    // pan * overshoot = 100 * 0.4 = 40 on both axes, negated.
    assert_eq!(d, (-40_000, -40_000));
    let angles = pan_angles(950, 950, &c).expect("corner cursor pans");
    // Delta over rotation sensitivity: -40 / 8000 = -0.005 rad.
    assert_eq!(angles, (-5, 5));
    assert_ne!(angles.0, 0);
    assert_ne!(angles.1, 0);
}

#[test]
fn center_cursor_pans_nothing() {
    let c = CameraConfig::default();
    assert_eq!(pan_deltas(500, 500, &c), (0, 0));
    assert!(pan_angles(500, 500, &c).is_none());
}

#[test]
fn thrust_builds_momentum_that_never_decays() {
    // Holding Z for one second with a thrust speed of 5.0 adds momentum of
    // magnitude 5.0 along the local forward axis.
    let config = CameraConfig {
        pan: 100_000,
        margin: 550,
        rotation: 8_000_000,
        w: 10_000,
        a: 10_000,
        s: 10_000,
        d: 10_000,
        z: 5_000,
        x: 5_000,
        q: 10,
        e: 10,
        camera_start: Vec3Fx { x: 0, y: 0, z: 100_000_000 },
    };
    let state0 = initial_state(&config);
    let mut keys = KeyInput::none();
    keys.z = true;
    let rot = identity_rotations();
    let state1 = camera_tick(&state0, &keys, 500, 500, 1000, &config, &rot);
    assert_eq!(state1.momentum, Vec3Fx { x: 0, y: 0, z: -5000 });
    // The impulse is applied to the position in the same tick.
    assert_eq!(state1.position, Vec3Fx { x: 0, y: 0, z: 99_995_000 });

    // A tick with no keys held still applies the momentum, undiminished.
    let none = KeyInput::none();
    let state2 = camera_tick(&state1, &none, 500, 500, 1000, &config, &rot);
    assert_eq!(state2.momentum, Vec3Fx { x: 0, y: 0, z: -5000 });
    assert_eq!(state2.position, Vec3Fx { x: 0, y: 0, z: 99_990_000 });

    // And again: the momentum is never auto-decayed.
    let state3 = camera_tick(&state2, &none, 500, 500, 1000, &config, &rot);
    assert_eq!(state3.momentum, Vec3Fx { x: 0, y: 0, z: -5000 });
    assert_eq!(state3.position, Vec3Fx { x: 0, y: 0, z: 99_985_000 });
}

#[test]
fn translation_moves_along_local_axes() {
    let config = CameraConfig::default();
    let state0 = initial_state(&config);
    let mut keys = KeyInput::none();
    keys.w = true;
    let rot = identity_rotations();
    // dt = 1.0 s at speed 10.0 along the local up axis.
    let state1 = camera_tick(&state0, &keys, 500, 500, 1000, &config, &rot);
    assert_eq!(state1.position, Vec3Fx { x: 0, y: 10_000, z: 100_000_000 });
    assert_eq!(state1.orientation, state0.orientation);
}

#[test]
fn roll_composes_exactly() {
    let config = CameraConfig::default();
    let state0 = initial_state(&config);
    let mut keys = KeyInput::none();
    keys.q = true;
    let mut rot = identity_rotations();
    rot.roll_q = quat_about_z(0.01);
    assert_eq!(rot.roll_q, QuatFx { w: 1000, x: 0, y: 0, z: 5 });
    assert!(unit_check(&rot.roll_q));
    let state1 = camera_tick(&state0, &keys, 500, 500, 16, &config, &rot);
    // Identity composed with the roll increment is the increment itself.
    assert_eq!(state1.orientation, QuatFx { w: 1000, x: 0, y: 0, z: 5 });
}

#[test]
fn orientation_stays_unit_through_long_sequences() {
    let config = CameraConfig::default();
    let mut state = initial_state(&config);
    let none = KeyInput::none();
    let mut roll_keys = KeyInput::none();
    roll_keys.q = true;
    let mut counter_keys = KeyInput::none();
    counter_keys.e = true;

    for step in 0..240 {
        // Alternate rolls with corner pans, rebuilding the trigonometric
        // inputs each tick as the host loop would.
        let (cursor, keys) = match step % 4 {
            0 => ((950i64, 950i64), roll_keys),
            1 => ((30i64, 40i64), none),
            2 => ((985i64, 20i64), counter_keys),
            _ => ((500i64, 500i64), roll_keys),
        };
        let rot = match pan_angles(cursor.0, cursor.1, &config) {
            Some((yaw, pitch)) => RotationInputs {
                yaw: quat_about_y(yaw as f64 / 1000.0),
                pitch: quat_about_x(pitch as f64 / 1000.0),
                roll_q: quat_about_z(config.q as f64 / 1000.0),
                roll_e: quat_about_z(-(config.e as f64) / 1000.0),
            },
            None => RotationInputs {
                yaw: identity(),
                pitch: identity(),
                roll_q: quat_about_z(config.q as f64 / 1000.0),
                roll_e: quat_about_z(-(config.e as f64) / 1000.0),
            },
        };
        assert!(unit_check(&rot.yaw));
        assert!(unit_check(&rot.pitch));
        assert!(unit_check(&rot.roll_q));
        assert!(unit_check(&rot.roll_e));
        state = camera_tick(&state, &keys, cursor.0, cursor.1, 16, &config, &rot);
        // The orientation stays a unit quaternion within tolerance after
        // every composition.
        assert!(unit_check(&state.orientation));
        let q = state.orientation;
        let norm_sq = q.w * q.w + q.x * q.x + q.y * q.y + q.z * q.z;
        assert!((norm_sq - 1_000_000).abs() <= 10_000);
    }
}

#[test]
fn unit_band_edges() {
    assert!(!unit_check(&QuatFx { w: 994, x: 0, y: 0, z: 0 }));
    assert!(unit_check(&QuatFx { w: 995, x: 0, y: 0, z: 0 }));
    assert!(unit_check(&QuatFx { w: 1004, x: 0, y: 0, z: 0 }));
    assert!(!unit_check(&QuatFx { w: 1005, x: 0, y: 0, z: 0 }));
    assert!(!unit_check(&QuatFx { w: 0, x: 0, y: 0, z: 0 }));
    assert!(!unit_check(&QuatFx { w: i64::MAX, x: i64::MIN, y: 0, z: 1 }));
}

#[test]
fn normalize_rescales_to_unit() {
    let q = QuatFx { w: 2000, x: 0, y: 0, z: 0 };
    assert_eq!(normalize(&q), QuatFx { w: 1000, x: 0, y: 0, z: 0 });
    let r = normalize(&QuatFx { w: 900, x: 900, y: 900, z: 900 });
    // norm^2 = 3_240_000, its integer root is 1800.
    assert_eq!(r, QuatFx { w: 500, x: 500, y: 500, z: 500 });
    assert!(unit_check(&r));
}

#[test]
fn compose_identity_is_neutral() {
    let id = identity();
    assert_eq!(compose_normalized(&id, &id), id);
    let roll = QuatFx { w: 1000, x: 0, y: 0, z: 5 };
    assert_eq!(compose_normalized(&id, &roll), roll);
}

#[test]
fn rotate_quarter_turn_about_up() {
    // A 90-degree yaw sends the forward axis to the right axis, up to
    // fixed-point truncation.
    let q = quat_about_y(core::f64::consts::FRAC_PI_2);
    assert_eq!(q, QuatFx { w: 707, x: 0, y: 707, z: 0 });
    let r = rotate(&q, Vec3Fx { x: 0, y: 0, z: 1_000_000 });
    assert_eq!(r, Vec3Fx { x: 999_698, y: 0, z: 302 });
}

#[test]
fn rotate_by_identity_is_exact() {
    let v = Vec3Fx { x: 12345, y: -67890, z: 424242 };
    assert_eq!(rotate(&identity(), v), v);
}
