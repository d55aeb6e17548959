//! The free-fly camera controller.
//!
//! Once per frame the controller folds four independent effects into the
//! camera state: key translations along the local right and up axes, roll
//! about the local forward axis, thrust impulses that accumulate as
//! momentum along the local forward axis (and, once gained, are applied to
//! the position every tick without ever decaying), and an edge-pan look
//! driven by how far the cursor sits past a margin towards the window
//! edges.
//!
//! Rotation quaternions need real trigonometry, which the host evaluates:
//! the controller computes the pan angles, the host turns angles into
//! near-unit quaternions and hands them back as [`RotationInputs`], and the
//! controller composes and renormalizes them. Translation and thrust read
//! the orientation as it stood at the start of the tick; the pan and roll
//! compositions produce the orientation the next tick sees.

use crate::fixp::{div_trunc, sat_add_spec, tdiv, SCALE};
use crate::quat::{compose_q, is_unit, lemma_compose_unit, QuatFx};
use crate::vec3::{sat_sub_spec, Vec3Fx};
use vstd::prelude::*;

verus! {

/// Largest cursor coordinate magnitude a tick accepts; the window maps to
/// [0, `SCALE`], and far out-of-range coordinates are still treated as
/// directional input, not clamped.
pub const CURSOR_LIMIT: i64 = 1_000_000;

/// Largest frame duration a tick accepts, in thousandths of a second.
pub const DT_LIMIT: i64 = 1_000_000;

/// Largest pan speed, axis speed, or roll increment a well-formed
/// configuration may carry.
pub const SPEED_LIMIT: i64 = 1_000_000;

/// The tunables of the controller, fixed at startup: pan speed, edge-margin
/// fraction, rotation sensitivity, per-axis move speeds, the two roll
/// increments, and the starting position.
#[derive(Clone, Copy)]
pub struct CameraConfig {
    pub pan: i64,
    pub margin: i64,
    pub rotation: i64,
    pub w: i64,
    pub a: i64,
    pub s: i64,
    pub d: i64,
    pub z: i64,
    pub x: i64,
    pub q: i64,
    pub e: i64,
    pub camera_start: Vec3Fx,
}

impl CameraConfig {
    /// Machine-level bounds under which no tick computation overflows.
    pub open spec fn wf(self) -> bool {
        &&& 0 < self.pan <= SPEED_LIMIT
        &&& 0 <= self.margin <= SCALE
        &&& 0 < self.rotation
        &&& 0 <= self.w <= SPEED_LIMIT
        &&& 0 <= self.a <= SPEED_LIMIT
        &&& 0 <= self.s <= SPEED_LIMIT
        &&& 0 <= self.d <= SPEED_LIMIT
        &&& 0 <= self.z <= SPEED_LIMIT
        &&& 0 <= self.x <= SPEED_LIMIT
        &&& 0 <= self.q <= SPEED_LIMIT
        &&& 0 <= self.e <= SPEED_LIMIT
    }
}

impl Default for CameraConfig {
    /// The demo's stock tuning: a pan speed of 100, a margin fraction of
    /// 0.55, a rotation sensitivity of 8000, translation speeds of 10,
    /// thrust speeds of 5.1, roll increments of 0.01 radians, and a start
    /// far out on the forward axis.
    fn default() -> (c: Self)
        ensures
            c.wf(),
            c.pan == 100_000,
            c.margin == 550,
            c.rotation == 8_000_000,
            c.w == 10_000 && c.a == 10_000 && c.s == 10_000 && c.d == 10_000,
            c.z == 5_100 && c.x == 5_100,
            c.q == 10 && c.e == 10,
            c.camera_start == (Vec3Fx { x: 0, y: 0, z: 100_000_000 }),
    {
        CameraConfig {
            pan: 100_000,
            margin: 550,
            rotation: 8_000_000,
            w: 10_000,
            a: 10_000,
            s: 10_000,
            d: 10_000,
            z: 5_100,
            x: 5_100,
            q: 10,
            e: 10,
            camera_start: Vec3Fx { x: 0, y: 0, z: 100_000_000 },
        }
    }
}

/// Which keys are held during one tick.
#[derive(Clone, Copy, PartialEq, Eq, Structural, Debug)]
pub struct KeyInput {
    pub w: bool,
    pub a: bool,
    pub s: bool,
    pub d: bool,
    pub z: bool,
    pub x: bool,
    pub q: bool,
    pub e: bool,
}

impl KeyInput {
    /// No key held.
    pub fn none() -> (k: KeyInput)
        ensures
            k == (KeyInput {
                w: false,
                a: false,
                s: false,
                d: false,
                z: false,
                x: false,
                q: false,
                e: false,
            }),
    {
        KeyInput { w: false, a: false, s: false, d: false, z: false, x: false, q: false, e: false }
    }
}

/// The rotation quaternions of one tick, evaluated by the host with real
/// trigonometry: yaw and pitch built from the pan angles, and the two fixed
/// roll increments built from the config angles.
#[derive(Clone, Copy)]
pub struct RotationInputs {
    pub yaw: QuatFx,
    pub pitch: QuatFx,
    pub roll_q: QuatFx,
    pub roll_e: QuatFx,
}

impl RotationInputs {
    /// All four rotations are near-unit quaternions.
    pub open spec fn wf(self) -> bool {
        &&& is_unit(self.yaw)
        &&& is_unit(self.pitch)
        &&& is_unit(self.roll_q)
        &&& is_unit(self.roll_e)
    }
}

/// The camera's state: position, orientation as a near-unit quaternion, and
/// the accumulated momentum vector.
#[derive(Clone, Copy, PartialEq, Eq, Structural, Debug)]
pub struct CameraState {
    pub position: Vec3Fx,
    pub orientation: QuatFx,
    pub momentum: Vec3Fx,
}

impl CameraState {
    /// A well-formed state keeps its orientation in the unit band.
    pub open spec fn wf(self) -> bool {
        is_unit(self.orientation)
    }
}

/// The state at startup: the configured start position, the identity
/// orientation, and no momentum.
pub fn initial_state(config: &CameraConfig) -> (s: CameraState)
    ensures
        s.position == config.camera_start,
        s.orientation == (QuatFx { w: SCALE, x: 0, y: 0, z: 0 }),
        s.momentum == (Vec3Fx { x: 0, y: 0, z: 0 }),
        s.wf(),
{
    CameraState {
        position: config.camera_start,
        orientation: crate::quat::identity(),
        momentum: Vec3Fx { x: 0, y: 0, z: 0 },
    }
}

/// The nine edge-pan regions of the window: four corners, four edges, and
/// the inert center.
#[derive(Clone, Copy, PartialEq, Eq, Structural, Debug)]
pub enum Region {
    UpperRight,
    LowerLeft,
    LowerRight,
    UpperLeft,
    Right,
    Left,
    Upper,
    Lower,
    Center,
}

/// First-match classification of a cursor position: the corner conditions
/// are checked before the edge conditions, and the edge conditions before
/// the center. `margin` is the upper threshold; its mirror `SCALE - margin`
/// is the lower one.
pub open spec fn region_spec(x: int, y: int, margin: int) -> Region {
    let neg = SCALE - margin;
    if x > margin && y > margin {
        Region::UpperRight
    } else if x < neg && y < neg {
        Region::LowerLeft
    } else if x > margin && y < neg {
        Region::LowerRight
    } else if x < neg && y > margin {
        Region::UpperLeft
    } else if x > margin {
        Region::Right
    } else if x < neg {
        Region::Left
    } else if y > margin {
        Region::Upper
    } else if y < neg {
        Region::Lower
    } else {
        Region::Center
    }
}

/// Classify a cursor position into its edge-pan region.
pub fn classify_cursor(x: i64, y: i64, margin: i64) -> (r: Region)
    requires
        0 <= margin <= SCALE,
    ensures
        r == region_spec(x as int, y as int, margin as int),
{
    let neg = SCALE - margin;
    if x > margin && y > margin {
        Region::UpperRight
    } else if x < neg && y < neg {
        Region::LowerLeft
    } else if x > margin && y < neg {
        Region::LowerRight
    } else if x < neg && y > margin {
        Region::UpperLeft
    } else if x > margin {
        Region::Right
    } else if x < neg {
        Region::Left
    } else if y > margin {
        Region::Upper
    } else if y < neg {
        Region::Lower
    } else {
        Region::Center
    }
}

/// The effective, mutually exclusive condition of each region once the
/// first-match precedence is applied: a corner claims a point before any
/// later corner or edge, an edge before the center.
pub open spec fn region_holds(r: Region, x: int, y: int, margin: int) -> bool {
    let neg = SCALE - margin;
    let ur = x > margin && y > margin;
    let ll = x < neg && y < neg;
    let lr = x > margin && y < neg;
    let ul = x < neg && y > margin;
    let corner = ur || ll || lr || ul;
    match r {
        Region::UpperRight => ur,
        Region::LowerLeft => !ur && ll,
        Region::LowerRight => !ur && !ll && lr,
        Region::UpperLeft => !ur && !ll && !lr && ul,
        Region::Right => !corner && x > margin,
        Region::Left => !corner && !(x > margin) && x < neg,
        Region::Upper => !corner && !(x > margin) && !(x < neg) && y > margin,
        Region::Lower => !corner && !(x > margin) && !(x < neg) && !(y > margin) && y < neg,
        Region::Center => !corner && !(x > margin) && !(x < neg) && !(y > margin) && !(y < neg),
    }
}

/// The region classification is a total function onto exactly one of the
/// nine regions: every cursor position satisfies the effective condition of
/// the region it is classified into, and of no other region.
pub proof fn lemma_region_partition(x: int, y: int, margin: int)
    ensures
        region_holds(region_spec(x, y, margin), x, y, margin),
        forall|r1: Region, r2: Region|
            region_holds(r1, x, y, margin) && region_holds(r2, x, y, margin) ==> r1 == r2,
{
}

/// The pan delta contributed by one axis: the pan speed times the cursor's
/// overshoot past the threshold, scaled back to thousandths and negated.
pub open spec fn pan_term(pan: int, coord: int, threshold: int) -> int {
    -tdiv(pan * (coord - threshold), SCALE as int)
}

/// The pan deltas of both axes, by region: corners pan both axes, edges one
/// axis, the center none.
pub open spec fn pan_deltas_spec(x: int, y: int, c: CameraConfig) -> (int, int) {
    let m = c.margin as int;
    let neg = SCALE - m;
    let p = c.pan as int;
    match region_spec(x, y, m) {
        Region::UpperRight => (pan_term(p, x, m), pan_term(p, y, m)),
        Region::LowerLeft => (pan_term(p, x, neg), pan_term(p, y, neg)),
        Region::LowerRight => (pan_term(p, x, m), pan_term(p, y, neg)),
        Region::UpperLeft => (pan_term(p, x, neg), pan_term(p, y, m)),
        Region::Right => (pan_term(p, x, m), 0),
        Region::Left => (pan_term(p, x, neg), 0),
        Region::Upper => (0, pan_term(p, y, m)),
        Region::Lower => (0, pan_term(p, y, neg)),
        Region::Center => (0, 0),
    }
}

/// Compute one pan term.
fn pan_term_exec(pan: i64, coord: i64, threshold: i64) -> (r: i64)
    requires
        0 < pan <= SPEED_LIMIT,
        -CURSOR_LIMIT <= coord <= CURSOR_LIMIT,
        -SCALE <= threshold <= SCALE,
    ensures
        r == pan_term(pan as int, coord as int, threshold as int),
        -1_001_001_000 <= r <= 1_001_001_000,
{
    proof {
        lemma_pan_product_fits(pan as int, coord as int, threshold as int);
        crate::fixp::lemma_tdiv_mag(
            pan * (coord - threshold),
            SCALE as int,
            1_001_001_000_000,
        );
    }
    -div_trunc(pan * (coord - threshold), SCALE)
}

/// A pan delta scaled to thousandths stays inside `i64`.
proof fn lemma_delta_scale_fits(d: int)
    requires
        -1_001_001_000 <= d <= 1_001_001_000,
    ensures
        -1_001_001_000_000 <= d * 1000 <= 1_001_001_000_000,
        -1_001_001_000_000 <= -d * 1000 <= 1_001_001_000_000,
{
    assert(-1_001_001_000_000 <= d * 1000 <= 1_001_001_000_000 && -1_001_001_000_000 <= -d * 1000
        <= 1_001_001_000_000) by (nonlinear_arith)
        requires
            -1_001_001_000 <= d <= 1_001_001_000,
    ;
}

/// The pan product stays inside `i64` for bounded inputs.
proof fn lemma_pan_product_fits(pan: int, coord: int, threshold: int)
    requires
        0 < pan <= 1_000_000,
        -1_000_000 <= coord <= 1_000_000,
        -1000 <= threshold <= 1000,
    ensures
        -1_001_001_000_000 <= pan * (coord - threshold) <= 1_001_001_000_000,
{
    assert(-1_001_001_000_000 <= pan * (coord - threshold) <= 1_001_001_000_000)
        by (nonlinear_arith)
        requires
            0 < pan <= 1_000_000,
            -1_001_000 <= coord - threshold <= 1_001_000,
    ;
}

/// Compute the pan deltas of both axes for a cursor position.
pub fn pan_deltas(x: i64, y: i64, config: &CameraConfig) -> (d: (i64, i64))
    requires
        config.wf(),
        -CURSOR_LIMIT <= x <= CURSOR_LIMIT,
        -CURSOR_LIMIT <= y <= CURSOR_LIMIT,
    ensures
        (d.0 as int, d.1 as int) == pan_deltas_spec(x as int, y as int, *config),
        -1_001_001_000 <= d.0 <= 1_001_001_000,
        -1_001_001_000 <= d.1 <= 1_001_001_000,
{
    let m = config.margin;
    let neg = SCALE - m;
    match classify_cursor(x, y, m) {
        Region::UpperRight => (pan_term_exec(config.pan, x, m), pan_term_exec(config.pan, y, m)),
        Region::LowerLeft => (
            pan_term_exec(config.pan, x, neg),
            pan_term_exec(config.pan, y, neg),
        ),
        Region::LowerRight => (
            pan_term_exec(config.pan, x, m),
            pan_term_exec(config.pan, y, neg),
        ),
        Region::UpperLeft => (
            pan_term_exec(config.pan, x, neg),
            pan_term_exec(config.pan, y, m),
        ),
        Region::Right => (pan_term_exec(config.pan, x, m), 0),
        Region::Left => (pan_term_exec(config.pan, x, neg), 0),
        Region::Upper => (0, pan_term_exec(config.pan, y, m)),
        Region::Lower => (0, pan_term_exec(config.pan, y, neg)),
        Region::Center => (0, 0),
    }
}

/// The yaw and pitch angles of one tick's edge pan, in thousandths of a
/// radian: the x pan delta over the rotation sensitivity drives the yaw
/// about the local up axis, and the negated y delta the pitch about the
/// local right axis.
pub open spec fn pan_angles_spec(x: int, y: int, c: CameraConfig) -> (int, int) {
    let d = pan_deltas_spec(x, y, c);
    (tdiv(d.0 * (SCALE as int), c.rotation as int), tdiv(-d.1 * (SCALE as int), c.rotation as int))
}

/// Compute the yaw and pitch pan angles, or `None` when the cursor rests in
/// the center region and the tick leaves the orientation alone.
pub fn pan_angles(x: i64, y: i64, config: &CameraConfig) -> (r: Option<(i64, i64)>)
    requires
        config.wf(),
        -CURSOR_LIMIT <= x <= CURSOR_LIMIT,
        -CURSOR_LIMIT <= y <= CURSOR_LIMIT,
    ensures
        match r {
            Some(ang) => !(region_spec(x as int, y as int, config.margin as int) is Center) && (
            ang.0 as int,
            ang.1 as int,
            ) == pan_angles_spec(x as int, y as int, *config),
            None => region_spec(x as int, y as int, config.margin as int) is Center,
        },
{
    let region = classify_cursor(x, y, config.margin);
    if let Region::Center = region {
        None
    } else {
        let d = pan_deltas(x, y, config);
        proof {
            lemma_delta_scale_fits(d.0 as int);
            lemma_delta_scale_fits(d.1 as int);
            crate::fixp::lemma_tdiv_mag(
                (d.0 as int) * (SCALE as int),
                config.rotation as int,
                1_001_001_000_000,
            );
            crate::fixp::lemma_tdiv_mag(
                (-d.1 as int) * (SCALE as int),
                config.rotation as int,
                1_001_001_000_000,
            );
        }
        let yaw = div_trunc(d.0 * SCALE, config.rotation);
        let pitch = div_trunc(-d.1 * SCALE, config.rotation);
        Some((yaw, pitch))
    }
}

/// The per-tick travel along one local axis: the frame duration times the
/// axis speed, scaled back to thousandths.
pub open spec fn axis_travel(dt: int, speed: int) -> int {
    tdiv(dt * speed, SCALE as int)
}

/// The travel as a vector along the local up axis (the W and S keys).
pub open spec fn axis_up(dt: int, speed: int) -> Vec3Fx {
    Vec3Fx { x: 0, y: axis_travel(dt, speed) as i64, z: 0 }
}

/// The travel as a vector along the local right axis (the A and D keys).
pub open spec fn axis_right(dt: int, speed: int) -> Vec3Fx {
    Vec3Fx { x: axis_travel(dt, speed) as i64, y: 0, z: 0 }
}

/// The travel as a vector along the local forward axis (the Z and X keys).
pub open spec fn axis_forward(dt: int, speed: int) -> Vec3Fx {
    Vec3Fx { x: 0, y: 0, z: axis_travel(dt, speed) as i64 }
}

/// A vector rotated by a quaternion, as a vector value.
pub open spec fn rotate_vec(q: QuatFx, v: Vec3Fx) -> Vec3Fx {
    Vec3Fx {
        x: crate::quat::rotate_x(q, v) as i64,
        y: crate::quat::rotate_y(q, v) as i64,
        z: crate::quat::rotate_z(q, v) as i64,
    }
}

/// Componentwise saturating vector addition, as a value.
pub open spec fn vadd(a: Vec3Fx, b: Vec3Fx) -> Vec3Fx {
    Vec3Fx {
        x: sat_add_spec(a.x as int, b.x as int) as i64,
        y: sat_add_spec(a.y as int, b.y as int) as i64,
        z: sat_add_spec(a.z as int, b.z as int) as i64,
    }
}

/// Componentwise saturating vector subtraction, as a value.
pub open spec fn vsub(a: Vec3Fx, b: Vec3Fx) -> Vec3Fx {
    Vec3Fx {
        x: sat_sub_spec(a.x as int, b.x as int) as i64,
        y: sat_sub_spec(a.y as int, b.y as int) as i64,
        z: sat_sub_spec(a.z as int, b.z as int) as i64,
    }
}

/// The orientation after one tick: outside the center region the edge pan
/// composes the yaw and then the pitch rotation, each renormalized; the Q
/// and E keys then compose the two roll increments likewise.
pub open spec fn tick_orientation(
    state: CameraState,
    keys: KeyInput,
    x: int,
    y: int,
    rot: RotationInputs,
    margin: int,
) -> QuatFx {
    let o0 = state.orientation;
    let o1 = if region_spec(x, y, margin) is Center {
        o0
    } else {
        compose_q(compose_q(o0, rot.yaw), rot.pitch)
    };
    let o2 = if keys.q {
        compose_q(o1, rot.roll_q)
    } else {
        o1
    };
    if keys.e {
        compose_q(o2, rot.roll_e)
    } else {
        o2
    }
}

/// The momentum after one tick: the Z key subtracts, and the X key adds, a
/// thrust impulse along the local forward axis. With neither key held the
/// momentum is exactly the old one — it never decays.
pub open spec fn tick_momentum(
    state: CameraState,
    keys: KeyInput,
    dt: int,
    config: CameraConfig,
) -> Vec3Fx {
    let o0 = state.orientation;
    let m1 = if keys.z {
        vsub(state.momentum, rotate_vec(o0, axis_forward(dt, config.z as int)))
    } else {
        state.momentum
    };
    if keys.x {
        vadd(m1, rotate_vec(o0, axis_forward(dt, config.x as int)))
    } else {
        m1
    }
}

/// The position after one tick: each held translation key moves along the
/// rotated local axis, and the tick's momentum is applied unconditionally
/// at the end — also when no key at all is held.
pub open spec fn tick_position(
    state: CameraState,
    keys: KeyInput,
    dt: int,
    config: CameraConfig,
) -> Vec3Fx {
    let o0 = state.orientation;
    let p1 = if keys.w {
        vadd(state.position, rotate_vec(o0, axis_up(dt, config.w as int)))
    } else {
        state.position
    };
    let p2 = if keys.a {
        vsub(p1, rotate_vec(o0, axis_right(dt, config.a as int)))
    } else {
        p1
    };
    let p3 = if keys.s {
        vsub(p2, rotate_vec(o0, axis_up(dt, config.s as int)))
    } else {
        p2
    };
    let p4 = if keys.d {
        vadd(p3, rotate_vec(o0, axis_right(dt, config.d as int)))
    } else {
        p3
    };
    vadd(p4, tick_momentum(state, keys, dt, config))
}

/// Compute the per-tick travel along one local axis.
fn axis_travel_exec(dt: i64, speed: i64) -> (r: i64)
    requires
        0 <= dt <= DT_LIMIT,
        0 <= speed <= SPEED_LIMIT,
    ensures
        r == axis_travel(dt as int, speed as int),
        0 <= r <= 1_000_000_000_000,
{
    proof {
        lemma_travel_product_fits(dt as int, speed as int);
        crate::fixp::lemma_tdiv_mag(dt * speed, SCALE as int, 1_000_000_000_000);
        crate::fixp::lemma_tdiv_trunc(dt * speed, SCALE as int);
    }
    div_trunc(dt * speed, SCALE)
}

/// The travel product stays inside `i64` for bounded inputs.
proof fn lemma_travel_product_fits(dt: int, speed: int)
    requires
        0 <= dt <= 1_000_000,
        0 <= speed <= 1_000_000,
    ensures
        0 <= dt * speed <= 1_000_000_000_000,
{
    assert(0 <= dt * speed <= 1_000_000_000_000) by (nonlinear_arith)
        requires
            0 <= dt <= 1_000_000,
            0 <= speed <= 1_000_000,
    ;
}

/// Advance the camera by one frame. The four effects accumulate: key
/// translations and thrust read the orientation the tick started with, the
/// edge pan and the roll keys compose their rotations onto it, and the
/// tick's momentum is added to the position whether or not any key is held.
pub fn camera_tick(
    state: &CameraState,
    keys: &KeyInput,
    cursor_x: i64,
    cursor_y: i64,
    dt: i64,
    config: &CameraConfig,
    rot: &RotationInputs,
) -> (next: CameraState)
    requires
        state.wf(),
        config.wf(),
        rot.wf(),
        0 <= dt <= DT_LIMIT,
        -CURSOR_LIMIT <= cursor_x <= CURSOR_LIMIT,
        -CURSOR_LIMIT <= cursor_y <= CURSOR_LIMIT,
    ensures
        next.orientation == tick_orientation(
            *state,
            *keys,
            cursor_x as int,
            cursor_y as int,
            *rot,
            config.margin as int,
        ),
        next.momentum == tick_momentum(*state, *keys, dt as int, *config),
        next.position == tick_position(*state, *keys, dt as int, *config),
        next.wf(),
        !keys.z && !keys.x ==> next.momentum == state.momentum,
{
    let o0 = state.orientation;
    let mut position = state.position;
    if keys.w {
        position = position.sat_add(crate::quat::rotate(&o0, axis_up_exec(dt, config.w)));
    }
    if keys.a {
        position = position.sat_sub(crate::quat::rotate(&o0, axis_right_exec(dt, config.a)));
    }
    if keys.s {
        position = position.sat_sub(crate::quat::rotate(&o0, axis_up_exec(dt, config.s)));
    }
    if keys.d {
        position = position.sat_add(crate::quat::rotate(&o0, axis_right_exec(dt, config.d)));
    }
    let mut momentum = state.momentum;
    if keys.z {
        momentum = momentum.sat_sub(crate::quat::rotate(&o0, axis_forward_exec(dt, config.z)));
    }
    if keys.x {
        momentum = momentum.sat_add(crate::quat::rotate(&o0, axis_forward_exec(dt, config.x)));
    }
    let mut orientation = o0;
    let region = classify_cursor(cursor_x, cursor_y, config.margin);
    match region {
        Region::Center => {
        },
        _ => {
            orientation = crate::quat::compose_normalized(&orientation, &rot.yaw);
            orientation = crate::quat::compose_normalized(&orientation, &rot.pitch);
        },
    }
    if keys.q {
        orientation = crate::quat::compose_normalized(&orientation, &rot.roll_q);
    }
    if keys.e {
        orientation = crate::quat::compose_normalized(&orientation, &rot.roll_e);
    }
    position = position.sat_add(momentum);
    CameraState { position, orientation, momentum }
}

/// The up-axis travel vector.
fn axis_up_exec(dt: i64, speed: i64) -> (r: Vec3Fx)
    requires
        0 <= dt <= DT_LIMIT,
        0 <= speed <= SPEED_LIMIT,
    ensures
        r == axis_up(dt as int, speed as int),
        r.bounded(crate::quat::ROT_VEC_LIMIT as int),
{
    Vec3Fx { x: 0, y: axis_travel_exec(dt, speed), z: 0 }
}

/// The right-axis travel vector.
fn axis_right_exec(dt: i64, speed: i64) -> (r: Vec3Fx)
    requires
        0 <= dt <= DT_LIMIT,
        0 <= speed <= SPEED_LIMIT,
    ensures
        r == axis_right(dt as int, speed as int),
        r.bounded(crate::quat::ROT_VEC_LIMIT as int),
{
    Vec3Fx { x: axis_travel_exec(dt, speed), y: 0, z: 0 }
}

/// The forward-axis travel vector.
fn axis_forward_exec(dt: i64, speed: i64) -> (r: Vec3Fx)
    requires
        0 <= dt <= DT_LIMIT,
        0 <= speed <= SPEED_LIMIT,
    ensures
        r == axis_forward(dt as int, speed as int),
        r.bounded(crate::quat::ROT_VEC_LIMIT as int),
{
    Vec3Fx { x: 0, y: 0, z: axis_travel_exec(dt, speed) }
}

/// Whatever keys, cursor position, and per-tick rotations drive it, one
/// tick keeps the orientation a unit quaternion within the fixed-point
/// tolerance; since this holds of every well-formed state, it holds, by
/// induction, after any sequence of roll and pan operations.
pub proof fn lemma_tick_keeps_orientation_unit(
    state: CameraState,
    keys: KeyInput,
    x: int,
    y: int,
    rot: RotationInputs,
    margin: int,
)
    requires
        state.wf(),
        rot.wf(),
    ensures
        is_unit(tick_orientation(state, keys, x, y, rot, margin)),
{
    let o0 = state.orientation;
    let o1 = if region_spec(x, y, margin) is Center {
        o0
    } else {
        compose_q(compose_q(o0, rot.yaw), rot.pitch)
    };
    if !(region_spec(x, y, margin) is Center) {
        lemma_compose_unit(o0, rot.yaw);
        lemma_compose_unit(compose_q(o0, rot.yaw), rot.pitch);
    }
    let o2 = if keys.q {
        compose_q(o1, rot.roll_q)
    } else {
        o1
    };
    if keys.q {
        lemma_compose_unit(o1, rot.roll_q);
    }
    if keys.e {
        lemma_compose_unit(o2, rot.roll_e);
    }
}

} // verus!

