//! Noise-driven mesh deformation and vertex coloring.
//!
//! Each vertex of a sphere-like base mesh is pushed along the ray from the
//! origin through it: the raw noise sample at the vertex is shifted into
//! positive range and clamped to the displacement band, and the position is
//! scaled by the result. The displaced positions are exact integer products,
//! so they are expressed in thousandths of the input unit.
//!
//! Two color passes exist, as the demo has two looks: a wrapped-neighbor
//! pass that darkens each channel by a stored ridge value of the vertex and
//! its two index neighbors (with wraparound at both ends), and a distance
//! banding pass that picks one of two fixed colors depending on whether the
//! displaced vertex lies beyond a threshold radius. A mesh whose attribute
//! layout has no color slot is left alone: the color pass is skipped, not an
//! error.

use crate::fixp::{div_trunc, sat_add, sat_add_spec, tdiv, SCALE};
use crate::vec3::{sat_sub_exec, sat_sub_spec, Vec3Fx, COORD_LIMIT};
use vstd::prelude::*;

verus! {

/// Lower edge of the displacement band: half a unit.
pub const REMAP_LOW: i64 = 500;

/// Upper edge of the displacement band: eight tenths of a unit.
pub const REMAP_HIGH: i64 = 800;

/// Largest coordinate magnitude of a base-mesh vertex, so that scaling by
/// the displacement band stays inside `i64`.
pub const POS_LIMIT: i64 = 1_000_000_000_000_000;

/// Color level of the distance bands: half intensity.
pub const BAND_LEVEL: i64 = 500;

/// An RGBA color; each channel is a fixed-point value in thousandths.
#[derive(Clone, Copy, PartialEq, Eq, Structural, Debug)]
pub struct ColorFx {
    pub r: i64,
    pub g: i64,
    pub b: i64,
    pub a: i64,
}

/// Which of the two procedural surfaces is being built: the planet body or
/// the translucent atmosphere shell around it.
#[derive(Clone, Copy, PartialEq, Eq, Structural, Debug)]
pub enum MeshVariant {
    Planet,
    Atmosphere,
}

/// A mesh as the rendering collaborator hands it over: a position buffer
/// and, when the vertex layout has one, a color buffer of equal length.
pub struct MeshBuffers {
    pub positions: Vec<Vec3Fx>,
    pub colors: Option<Vec<ColorFx>>,
}

/// A raw noise sample shifted into positive range and clamped to the
/// displacement band.
pub open spec fn remap_spec(n: int) -> int {
    if n + SCALE < REMAP_LOW {
        REMAP_LOW as int
    } else if n + SCALE > REMAP_HIGH {
        REMAP_HIGH as int
    } else {
        n + SCALE
    }
}

/// Remap a raw noise sample for displacement: shift by one unit, then clamp
/// to [`REMAP_LOW`, `REMAP_HIGH`]. Total over every sample value.
pub fn remap_sample(n: i64) -> (r: i64)
    ensures
        r == remap_spec(n as int),
        REMAP_LOW <= r <= REMAP_HIGH,
{
    if n < REMAP_LOW - SCALE {
        REMAP_LOW
    } else if n > REMAP_HIGH - SCALE {
        REMAP_HIGH
    } else {
        n + SCALE
    }
}

/// The remapped displacement factor lies in the band whatever the raw
/// sample was.
pub proof fn lemma_remap_in_band(n: int)
    ensures
        REMAP_LOW <= remap_spec(n) <= REMAP_HIGH,
{
}

/// The stored ridge value of the planet surface: half the raw sample plus
/// one unit (clipped to the `i64` range, which real samples never reach).
pub open spec fn ridge_planet_spec(n: int) -> int {
    sat_add_spec(tdiv(n, 2), SCALE as int)
}

/// The stored ridge value of the atmosphere shell: the raw sample plus one
/// unit, halved.
pub open spec fn ridge_atmosphere_spec(n: int) -> int {
    tdiv(sat_add_spec(n, SCALE as int), 2)
}

/// The stored ridge value of one raw sample under the given variant.
pub open spec fn ridge_spec(n: int, variant: MeshVariant) -> int {
    match variant {
        MeshVariant::Planet => ridge_planet_spec(n),
        MeshVariant::Atmosphere => ridge_atmosphere_spec(n),
    }
}

/// Compute the stored ridge value of one raw sample.
pub fn ridge_value(n: i64, variant: MeshVariant) -> (r: i64)
    ensures
        r == ridge_spec(n as int, variant),
{
    match variant {
        MeshVariant::Planet => sat_add(div_trunc(n, 2), SCALE),
        MeshVariant::Atmosphere => div_trunc(sat_add(n, SCALE), 2),
    }
}

/// The stored ridge values of a whole sample buffer.
pub fn ridge_values(samples: &Vec<i64>, variant: MeshVariant) -> (out: Vec<i64>)
    ensures
        out@.len() == samples@.len(),
        forall|j: int|
            0 <= j < samples@.len() ==> out@[j] == ridge_spec(samples@[j] as int, variant),
{
    let mut out: Vec<i64> = Vec::new();
    let mut i: usize = 0;
    while i < samples.len()
        invariant
            i <= samples@.len(),
            out@.len() == i,
            forall|j: int|
                0 <= j < i ==> out@[j] == ridge_spec(samples@[j] as int, variant),
        decreases samples@.len() - i,
    {
        let v = ridge_value(samples[i], variant);
        out.push(v);
        i = i + 1;
    }
    out
}

/// One vertex pushed along its ray from the origin: the exact product of
/// each coordinate with the displacement factor. The result is in
/// thousandths of the input unit.
pub fn displace_vertex(p: Vec3Fx, factor: i64) -> (r: Vec3Fx)
    requires
        p.bounded(POS_LIMIT as int),
        0 < factor <= SCALE,
    ensures
        r.x == p.x * factor,
        r.y == p.y * factor,
        r.z == p.z * factor,
{
    proof {
        lemma_scale_fits(p.x as int, factor as int);
        lemma_scale_fits(p.y as int, factor as int);
        lemma_scale_fits(p.z as int, factor as int);
    }
    p.scale(factor)
}

/// A bounded coordinate times a factor of at most `SCALE` fits in `i64`.
proof fn lemma_scale_fits(c: int, k: int)
    requires
        -1_000_000_000_000_000 <= c <= 1_000_000_000_000_000,
        0 < k <= 1000,
    ensures
        i64::MIN <= c * k <= i64::MAX,
{
    assert(-1_000_000_000_000_000_000 <= c * k <= 1_000_000_000_000_000_000) by (nonlinear_arith)
        requires
            -1_000_000_000_000_000 <= c <= 1_000_000_000_000_000,
            0 < k <= 1000,
    ;
}

/// `d` is `p` displaced by the remapped sample `n`: the exact product of
/// each coordinate with the displacement factor.
pub open spec fn displaced_ok(p: Vec3Fx, n: int, d: Vec3Fx) -> bool {
    let k = remap_spec(n);
    d.x == p.x * k && d.y == p.y * k && d.z == p.z * k
}

/// Displace every vertex of the position buffer by its remapped sample.
/// All noise fixed to one constant scales the whole mesh uniformly.
pub fn deform_positions(positions: &Vec<Vec3Fx>, samples: &Vec<i64>) -> (out: Vec<Vec3Fx>)
    requires
        samples@.len() == positions@.len(),
        forall|j: int| 0 <= j < positions@.len() ==> positions@[j].bounded(POS_LIMIT as int),
    ensures
        out@.len() == positions@.len(),
        forall|j: int|
            0 <= j < positions@.len() ==> #[trigger] displaced_ok(
                positions@[j],
                samples@[j] as int,
                out@[j],
            ),
{
    let mut out: Vec<Vec3Fx> = Vec::new();
    let mut i: usize = 0;
    while i < positions.len()
        invariant
            samples@.len() == positions@.len(),
            forall|j: int| 0 <= j < positions@.len() ==> positions@[j].bounded(POS_LIMIT as int),
            i <= positions@.len(),
            out@.len() == i,
            forall|j: int|
                0 <= j < i ==> #[trigger] displaced_ok(positions@[j], samples@[j] as int, out@[j]),
        decreases positions@.len() - i,
    {
        let factor = remap_sample(samples[i]);
        let v = displace_vertex(positions[i], factor);
        out.push(v);
        i = i + 1;
    }
    out
}

/// Displacement preserves the direction from the origin: the displaced
/// vertex is the original scaled by a positive factor, so its normalized
/// direction is unchanged — the cross product with the original vanishes and
/// the dot product is positive for every nonzero vertex.
pub proof fn lemma_displacement_preserves_direction(p: Vec3Fx, n: int, d: Vec3Fx)
    requires
        displaced_ok(p, n, d),
        !(p.x == 0 && p.y == 0 && p.z == 0),
    ensures
        d.cross(p) == (0int, 0int, 0int),
        d.dot(p) > 0,
{
    let k = remap_spec(n);
    lemma_remap_in_band(n);
    assert((p.y * k) * p.z - (p.z * k) * p.y == 0) by (nonlinear_arith);
    assert((p.z * k) * p.x - (p.x * k) * p.z == 0) by (nonlinear_arith);
    assert((p.x * k) * p.y - (p.y * k) * p.x == 0) by (nonlinear_arith);
    assert((p.x * k) * p.x + (p.y * k) * p.y + (p.z * k) * p.z > 0) by (nonlinear_arith)
        requires
            k >= 500,
            !(p.x == 0 && p.y == 0 && p.z == 0),
    ;
}

/// A displaced vertex of a bounded base mesh stays within the coordinate
/// limit of the exact squared-distance computation.
pub proof fn lemma_displaced_bounded(p: Vec3Fx, n: int, d: Vec3Fx)
    requires
        displaced_ok(p, n, d),
        p.bounded(POS_LIMIT as int),
    ensures
        d.bounded(COORD_LIMIT as int),
{
    lemma_remap_in_band(n);
    let k = remap_spec(n);
    assert(d.bounded(1_000_000_000_000_000_000)) by (nonlinear_arith)
        requires
            d.x == p.x * k && d.y == p.y * k && d.z == p.z * k,
            -1_000_000_000_000_000 <= p.x <= 1_000_000_000_000_000,
            -1_000_000_000_000_000 <= p.y <= 1_000_000_000_000_000,
            -1_000_000_000_000_000 <= p.z <= 1_000_000_000_000_000,
            0 < k <= 1000,
    ;
}

/// The squared distance of every vertex from the origin.
pub fn distances_sq(positions: &Vec<Vec3Fx>) -> (out: Vec<i128>)
    requires
        forall|j: int| 0 <= j < positions@.len() ==> positions@[j].bounded(COORD_LIMIT as int),
    ensures
        out@.len() == positions@.len(),
        forall|j: int| 0 <= j < positions@.len() ==> out@[j] == positions@[j].norm_sq(),
{
    let mut out: Vec<i128> = Vec::new();
    let mut i: usize = 0;
    while i < positions.len()
        invariant
            forall|j: int| 0 <= j < positions@.len() ==> positions@[j].bounded(COORD_LIMIT as int),
            i <= positions@.len(),
            out@.len() == i,
            forall|j: int| 0 <= j < i ==> out@[j] == positions@[j].norm_sq(),
        decreases positions@.len() - i,
    {
        let d = positions[i].norm_sq_exec();
        out.push(d);
        i = i + 1;
    }
    out
}

/// The index before `i` in a buffer of length `n`, wrapping at the front.
pub open spec fn wrap_prev(i: int, n: int) -> int {
    if i == 0 {
        n - 1
    } else {
        i - 1
    }
}

/// The index after `i` in a buffer of length `n`, wrapping at the back.
pub open spec fn wrap_next(i: int, n: int) -> int {
    if i + 1 == n {
        0
    } else {
        i + 1
    }
}

/// The wraparound at the buffer ends: the first vertex reads its previous
/// neighbor from the last index, and the last vertex reads its next
/// neighbor from the first index.
pub proof fn lemma_wrap_ends(n: int)
    requires
        n >= 1,
    ensures
        wrap_prev(0, n) == n - 1,
        wrap_next(n - 1, n) == 0,
        wrap_next(0, n) == if n == 1 {
            0int
        } else {
            1int
        },
{
}

/// The wrapped-neighbor color pass: each channel is one unit minus a stored
/// ridge value — red from the previous vertex (wrapping to the last at the
/// front), green from the vertex itself, blue from the next vertex
/// (wrapping to the first at the back). The planet keeps the alpha channel;
/// the atmosphere shell replaces it with the wrapped-previous ridge value,
/// which fades the shell.
/// `c` is the wrapped-neighbor color of vertex `j`: channels one unit minus
/// the stored ridge values of the previous, own, and next index (wrapping at
/// both ends), alpha kept for the planet and taken from the wrapped-previous
/// ridge value for the atmosphere shell.
pub open spec fn wrapped_color_ok(
    stored: Seq<i64>,
    colors: Seq<ColorFx>,
    variant: MeshVariant,
    j: int,
    c: ColorFx,
) -> bool {
    let n = colors.len() as int;
    &&& c.r == sat_sub_spec(SCALE as int, stored[wrap_prev(j, n)] as int)
    &&& c.g == sat_sub_spec(SCALE as int, stored[j] as int)
    &&& c.b == sat_sub_spec(SCALE as int, stored[wrap_next(j, n)] as int)
    &&& c.a == (if variant is Atmosphere {
        stored[wrap_prev(j, n)] as int
    } else {
        colors[j].a as int
    })
}

pub fn wrap_colors(stored: &Vec<i64>, colors: &Vec<ColorFx>, variant: MeshVariant) -> (out: Vec<
    ColorFx,
>)
    requires
        stored@.len() == colors@.len(),
    ensures
        out@.len() == colors@.len(),
        forall|j: int|
            0 <= j < colors@.len() ==> #[trigger] wrapped_color_ok(
                stored@,
                colors@,
                variant,
                j,
                out@[j],
            ),
{
    let n = colors.len();
    let mut out: Vec<ColorFx> = Vec::new();
    let mut i: usize = 0;
    while i < n
        invariant
            stored@.len() == colors@.len(),
            n == colors@.len(),
            i <= n,
            out@.len() == i,
            forall|j: int|
                0 <= j < i ==> #[trigger] wrapped_color_ok(stored@, colors@, variant, j, out@[j]),
        decreases n - i,
    {
        let prev: usize = if i == 0 {
            n - 1
        } else {
            i - 1
        };
        let next: usize = if i + 1 == n {
            0
        } else {
            i + 1
        };
        let alpha = match variant {
            MeshVariant::Planet => colors[i].a,
            MeshVariant::Atmosphere => stored[prev],
        };
        let c = ColorFx {
            r: sat_sub_exec(SCALE, stored[prev]),
            g: sat_sub_exec(SCALE, stored[i]),
            b: sat_sub_exec(SCALE, stored[next]),
            a: alpha,
        };
        out.push(c);
        i = i + 1;
    }
    out
}

/// `c` is the distance-band color for a vertex with squared distance `d`
/// and previous alpha `a`: the high band (green) beyond the threshold, the
/// low band (blue) otherwise, alpha kept.
pub open spec fn banded_color_ok(d: int, a: int, threshold: int, c: ColorFx) -> bool {
    let high = d > threshold * threshold;
    &&& c.r == 0
    &&& c.g == (if high {
        BAND_LEVEL as int
    } else {
        0int
    })
    &&& c.b == (if high {
        0int
    } else {
        BAND_LEVEL as int
    })
    &&& c.a == a
}

/// The distance-banding color pass: a vertex farther from the origin than
/// the threshold (compared on squared distances, which agrees with the
/// distances themselves) is colored the high band (green); any other vertex
/// the low band (blue). Alpha is kept.
pub fn band_colors(dist_sq: &Vec<i128>, colors: &Vec<ColorFx>, threshold: i64) -> (out: Vec<
    ColorFx,
>)
    requires
        dist_sq@.len() == colors@.len(),
        threshold >= 0,
    ensures
        out@.len() == colors@.len(),
        forall|j: int|
            0 <= j < colors@.len() ==> #[trigger] banded_color_ok(
                dist_sq@[j] as int,
                colors@[j].a as int,
                threshold as int,
                out@[j],
            ),
{
    proof {
        lemma_threshold_sq_fits(threshold as int);
    }
    let t2 = (threshold as i128) * (threshold as i128);
    let mut out: Vec<ColorFx> = Vec::new();
    let mut i: usize = 0;
    while i < colors.len()
        invariant
            dist_sq@.len() == colors@.len(),
            threshold >= 0,
            t2 == (threshold as int) * (threshold as int),
            i <= colors@.len(),
            out@.len() == i,
            forall|j: int|
                0 <= j < i ==> #[trigger] banded_color_ok(
                    dist_sq@[j] as int,
                    colors@[j].a as int,
                    threshold as int,
                    out@[j],
                ),
        decreases colors@.len() - i,
    {
        let c = if dist_sq[i] > t2 {
            ColorFx { r: 0, g: BAND_LEVEL, b: 0, a: colors[i].a }
        } else {
            ColorFx { r: 0, g: 0, b: BAND_LEVEL, a: colors[i].a }
        };
        out.push(c);
        i = i + 1;
    }
    out
}

/// The stored ridge values of a sample buffer, as a sequence.
pub open spec fn ridge_seq(samples: Seq<i64>, variant: MeshVariant) -> Seq<i64> {
    samples.map(|j: int, n: i64| ridge_spec(n as int, variant) as i64)
}

/// A stored ridge value fits in `i64`.
proof fn lemma_ridge_fits(n: int, variant: MeshVariant)
    requires
        i64::MIN <= n <= i64::MAX,
    ensures
        i64::MIN <= ridge_spec(n, variant) <= i64::MAX,
{
    match variant {
        MeshVariant::Planet => {
        },
        MeshVariant::Atmosphere => {
            crate::fixp::lemma_tdiv_mag(
                sat_add_spec(n, SCALE as int),
                2,
                0x7FFF_FFFF_FFFF_FFFF,
            );
        },
    }
}

/// Deform a mesh and color it with the wrapped-neighbor pass. A mesh whose
/// vertex layout carries no color buffer of matching length keeps its color
/// attribute untouched: the color pass is skipped, not an error.
pub fn deform_mesh_wrapped(mesh: MeshBuffers, samples: &Vec<i64>, variant: MeshVariant) -> (out:
    MeshBuffers)
    requires
        samples@.len() == mesh.positions@.len(),
        forall|j: int|
            0 <= j < mesh.positions@.len() ==> mesh.positions@[j].bounded(POS_LIMIT as int),
    ensures
        out.positions@.len() == mesh.positions@.len(),
        forall|j: int|
            0 <= j < mesh.positions@.len() ==> #[trigger] displaced_ok(
                mesh.positions@[j],
                samples@[j] as int,
                out.positions@[j],
            ),
        match mesh.colors {
            Some(cin) => {
                if cin@.len() == mesh.positions@.len() {
                    match out.colors {
                        Some(cout) => cout@.len() == cin@.len() && forall|j: int|
                            0 <= j < cin@.len() ==> #[trigger] wrapped_color_ok(
                                ridge_seq(samples@, variant),
                                cin@,
                                variant,
                                j,
                                cout@[j],
                            ),
                        None => false,
                    }
                } else {
                    out.colors == mesh.colors
                }
            },
            None => out.colors is None,
        },
{
    let displaced = deform_positions(&mesh.positions, samples);
    let colors = match mesh.colors {
        Some(cin) => {
            if cin.len() == samples.len() {
                let stored = ridge_values(samples, variant);
                proof {
                    assert forall|j: int| 0 <= j < samples@.len() implies stored@[j] == ridge_seq(
                        samples@,
                        variant,
                    )[j] by {
                        lemma_ridge_fits(samples@[j] as int, variant);
                    }
                    assert(stored@ =~= ridge_seq(samples@, variant));
                }
                Some(wrap_colors(&stored, &cin, variant))
            } else {
                Some(cin)
            }
        },
        None => None,
    };
    MeshBuffers { positions: displaced, colors }
}

/// Deform a mesh and color it with the distance-banding pass against the
/// given threshold radius (in thousandths of the input unit, like the
/// displaced positions). As with the wrapped pass, a missing or mismatched
/// color buffer is skipped silently.
pub fn deform_mesh_banded(mesh: MeshBuffers, samples: &Vec<i64>, threshold: i64) -> (out:
    MeshBuffers)
    requires
        samples@.len() == mesh.positions@.len(),
        threshold >= 0,
        forall|j: int|
            0 <= j < mesh.positions@.len() ==> mesh.positions@[j].bounded(POS_LIMIT as int),
    ensures
        out.positions@.len() == mesh.positions@.len(),
        forall|j: int|
            0 <= j < mesh.positions@.len() ==> #[trigger] displaced_ok(
                mesh.positions@[j],
                samples@[j] as int,
                out.positions@[j],
            ),
        match mesh.colors {
            Some(cin) => {
                if cin@.len() == mesh.positions@.len() {
                    match out.colors {
                        Some(cout) => cout@.len() == cin@.len() && forall|j: int|
                            0 <= j < cin@.len() ==> #[trigger] banded_color_ok(
                                out.positions@[j].norm_sq(),
                                cin@[j].a as int,
                                threshold as int,
                                cout@[j],
                            ),
                        None => false,
                    }
                } else {
                    out.colors == mesh.colors
                }
            },
            None => out.colors is None,
        },
{
    let displaced = deform_positions(&mesh.positions, samples);
    proof {
        assert forall|j: int| 0 <= j < displaced@.len() implies displaced@[j].bounded(
            COORD_LIMIT as int,
        ) by {
            lemma_displaced_bounded(mesh.positions@[j], samples@[j] as int, displaced@[j]);
        }
    }
    let colors = match mesh.colors {
        Some(cin) => {
            if cin.len() == samples.len() {
                let dist = distances_sq(&displaced);
                let banded = band_colors(&dist, &cin, threshold);
                proof {
                    assert forall|j: int| 0 <= j < cin@.len() implies #[trigger] banded_color_ok(
                        displaced@[j].norm_sq(),
                        cin@[j].a as int,
                        threshold as int,
                        banded@[j],
                    ) by {
                        assert(banded_color_ok(
                            dist@[j] as int,
                            cin@[j].a as int,
                            threshold as int,
                            banded@[j],
                        ));
                    }
                }
                Some(banded)
            } else {
                Some(cin)
            }
        },
        None => None,
    };
    MeshBuffers { positions: displaced, colors }
}

/// The square of an `i64` threshold fits in `i128`.
proof fn lemma_threshold_sq_fits(t: int)
    requires
        0 <= t <= i64::MAX,
    ensures
        0 <= t * t <= i128::MAX,
{
    assert(0 <= t * t <= 0x7FFF_FFFF_FFFF_FFFF * 0x7FFF_FFFF_FFFF_FFFF) by (nonlinear_arith)
        requires
            0 <= t <= 0x7FFF_FFFF_FFFF_FFFF,
    ;
}

} // verus!
