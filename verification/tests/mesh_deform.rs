use stellar::fixp::SCALE;
use stellar::mesh::{
    band_colors, deform_mesh_banded, deform_mesh_wrapped, deform_positions, distances_sq,
    remap_sample, ridge_value, ridge_values, wrap_colors, ColorFx, MeshBuffers, MeshVariant,
    REMAP_HIGH, REMAP_LOW,
};
use stellar::vec3::Vec3Fx;

fn v(x: i64, y: i64, z: i64) -> Vec3Fx {
    Vec3Fx { x, y, z }
}

fn c(r: i64, g: i64, b: i64, a: i64) -> ColorFx {
    ColorFx { r, g, b, a }
}

#[test]
fn remap_shifts_then_clamps() {
    // -0.35 + 1.0 = 0.65, inside the band.
    assert_eq!(remap_sample(-350), 650);
    // -1.0 + 1.0 = 0.0, clamped up to 0.5.
    assert_eq!(remap_sample(-1000), 500);
    // 0.0 + 1.0 = 1.0, clamped down to 0.8.
    assert_eq!(remap_sample(0), 800);
    // Exact band edges.
    assert_eq!(remap_sample(-500), 500);
    assert_eq!(remap_sample(-200), 800);
    assert_eq!(remap_sample(-499), 501);
    assert_eq!(remap_sample(-201), 799);
}

#[test]
fn remap_stays_in_band_for_any_raw_sample() {
    let extremes = [i64::MIN, -1_000_000, -1001, -1000, -1, 0, 1, 999, 1000, i64::MAX];
    for &n in extremes.iter() {
        let r = remap_sample(n);
        assert!(REMAP_LOW <= r && r <= REMAP_HIGH);
    }
}

#[test]
fn constant_noise_scales_uniformly() {
    // All noise fixed to 0.65 after remap: every vertex scaled by 0.65.
    let positions = vec![v(1000, 2000, 3000), v(-4000, 0, 50_000_000), v(7, -9, 11)];
    let samples = vec![-350i64, -350, -350];
    let out = deform_positions(&positions, &samples);
    assert_eq!(out.len(), 3);
    for (p, d) in positions.iter().zip(out.iter()) {
        assert_eq!(d.x, p.x * 650);
        assert_eq!(d.y, p.y * 650);
        assert_eq!(d.z, p.z * 650);
    }
}

#[test]
fn displacement_keeps_direction_from_origin() {
    let positions = vec![v(3000, 4000, 5000), v(-70, 20, -10)];
    let samples = vec![-350i64, -100];
    let out = deform_positions(&positions, &samples);
    for (p, d) in positions.iter().zip(out.iter()) {
        // Collinear with the original: the cross product vanishes.
        assert_eq!(d.y as i128 * p.z as i128 - d.z as i128 * p.y as i128, 0);
        assert_eq!(d.z as i128 * p.x as i128 - d.x as i128 * p.z as i128, 0);
        assert_eq!(d.x as i128 * p.y as i128 - d.y as i128 * p.x as i128, 0);
        // Same side of the origin: the dot product is positive.
        let dot = d.x as i128 * p.x as i128 + d.y as i128 * p.y as i128 + d.z as i128 * p.z as i128;
        assert!(dot > 0);
    }
}

#[test]
fn ridge_values_planet_and_atmosphere() {
    // Planet: n / 2 + 1, with truncation toward zero.
    assert_eq!(ridge_value(-351, MeshVariant::Planet), -175 + 1000);
    assert_eq!(ridge_value(351, MeshVariant::Planet), 175 + 1000);
    assert_eq!(ridge_value(0, MeshVariant::Planet), 1000);
    // Atmosphere: (n + 1) / 2.
    assert_eq!(ridge_value(-351, MeshVariant::Atmosphere), 324);
    assert_eq!(ridge_value(351, MeshVariant::Atmosphere), 675);
    assert_eq!(ridge_value(-1000, MeshVariant::Atmosphere), 0);

    let all = ridge_values(&vec![-351, 351], MeshVariant::Planet);
    assert_eq!(all, vec![825, 1175]);
}

#[test]
fn wrap_colors_wraps_at_both_ends() {
    let stored = vec![100i64, 200, 300];
    let base = vec![c(0, 0, 0, 10), c(0, 0, 0, 20), c(0, 0, 0, 30)];
    let out = wrap_colors(&stored, &base, MeshVariant::Planet);
    // Vertex 0 reads its previous neighbor from the last index.
    assert_eq!(out[0].r, SCALE - stored[2]);
    assert_eq!(out[0].g, SCALE - stored[0]);
    assert_eq!(out[0].b, SCALE - stored[1]);
    assert_eq!(out[0].a, 10);
    // The middle vertex reads plain neighbors.
    assert_eq!(out[1].r, SCALE - stored[0]);
    assert_eq!(out[1].g, SCALE - stored[1]);
    assert_eq!(out[1].b, SCALE - stored[2]);
    // The last vertex reads its next neighbor from the first index.
    assert_eq!(out[2].r, SCALE - stored[1]);
    assert_eq!(out[2].g, SCALE - stored[2]);
    assert_eq!(out[2].b, SCALE - stored[0]);
    assert_eq!(out[2].a, 30);
}

#[test]
fn wrap_colors_atmosphere_fades_alpha() {
    let stored = vec![100i64, 200, 300];
    let base = vec![c(0, 0, 0, 10), c(0, 0, 0, 20), c(0, 0, 0, 30)];
    let out = wrap_colors(&stored, &base, MeshVariant::Atmosphere);
    // Alpha comes from the wrapped-previous ridge value.
    assert_eq!(out[0].a, 300);
    assert_eq!(out[1].a, 100);
    assert_eq!(out[2].a, 200);
}

#[test]
fn wrap_colors_single_vertex_wraps_to_itself() {
    let stored = vec![250i64];
    let base = vec![c(0, 0, 0, 7)];
    let out = wrap_colors(&stored, &base, MeshVariant::Planet);
    assert_eq!(out[0].r, 750);
    assert_eq!(out[0].g, 750);
    assert_eq!(out[0].b, 750);
    assert_eq!(out[0].a, 7);
}

#[test]
fn band_colors_split_on_threshold() {
    let base = vec![c(9, 9, 9, 1), c(9, 9, 9, 2)];
    // Threshold 5: squared distances 26 and 25 fall on either side.
    let dist = vec![26i128, 25];
    let out = band_colors(&dist, &base, 5);
    assert_eq!(out[0], c(0, 500, 0, 1));
    assert_eq!(out[1], c(0, 0, 500, 2));
}

#[test]
fn distances_sq_are_exact() {
    let positions = vec![v(3, 4, 0), v(-1000, 2000, -2000)];
    let d = distances_sq(&positions);
    assert_eq!(d, vec![25i128, 9_000_000]);
}

#[test]
fn banded_deform_end_to_end() {
    // Two vertices at radius 5 and 3 (in thousandths), constant sample
    // 0.65 after remap; displaced radii are 3250 and 1950 sub-units.
    let mesh = MeshBuffers {
        positions: vec![v(0, 0, 5), v(3, 0, 0)],
        colors: Some(vec![c(9, 9, 9, 1), c(9, 9, 9, 2)]),
    };
    let samples = vec![-350i64, -350];
    let out = deform_mesh_banded(mesh, &samples, 3000);
    assert_eq!(out.positions[0], v(0, 0, 3250));
    assert_eq!(out.positions[1], v(1950, 0, 0));
    let colors = out.colors.expect("color slot present");
    // 3250 > 3000: high band; 1950 <= 3000: low band.
    assert_eq!(colors[0], c(0, 500, 0, 1));
    assert_eq!(colors[1], c(0, 0, 500, 2));
}

#[test]
fn deform_skips_missing_color_slot() {
    let mesh = MeshBuffers { positions: vec![v(1, 2, 3)], colors: None };
    let samples = vec![0i64];
    let out = deform_mesh_banded(mesh, &samples, 10);
    assert_eq!(out.positions[0], v(800, 1600, 2400));
    assert!(out.colors.is_none());

    let mesh2 = MeshBuffers { positions: vec![v(1, 2, 3)], colors: None };
    let out2 = deform_mesh_wrapped(mesh2, &samples, MeshVariant::Planet);
    assert_eq!(out2.positions[0], v(800, 1600, 2400));
    assert!(out2.colors.is_none());
}

#[test]
fn deform_keeps_mismatched_color_slot() {
    // A color buffer of the wrong length is not touched.
    let mesh = MeshBuffers { positions: vec![v(1, 2, 3)], colors: Some(vec![c(1, 2, 3, 4), c(5, 6, 7, 8)]) };
    let samples = vec![0i64];
    let out = deform_mesh_banded(mesh, &samples, 10);
    assert_eq!(out.colors, Some(vec![c(1, 2, 3, 4), c(5, 6, 7, 8)]));
}

#[test]
fn wrapped_deform_end_to_end() {
    let mesh = MeshBuffers {
        positions: vec![v(0, 0, 5), v(3, 0, 0)],
        colors: Some(vec![c(9, 9, 9, 1), c(9, 9, 9, 2)]),
    };
    let samples = vec![-351i64, 351];
    let out = deform_mesh_wrapped(mesh, &samples, MeshVariant::Planet);
    // Stored ridge values: 825 and 1175.
    let colors = out.colors.expect("color slot present");
    assert_eq!(colors[0], c(1000 - 1175, 1000 - 825, 1000 - 1175, 1));
    assert_eq!(colors[1], c(1000 - 825, 1000 - 1175, 1000 - 825, 2));
}
