use std::cmp::Ordering;

use raytracer::cube_map::{face_cell, get_strongest_direction, StrongestDirection};
use raytracer::float_bits::{f_le, f_lt, magnitude_of, strictly_positive, total_le};
use raytracer::illumination::{illumination_step, nearest_collision, IllumStep};

fn sample_values() -> Vec<f64> {
    vec![
        0.0,
        -0.0,
        1.0,
        -1.0,
        0.5,
        -0.5,
        1.5e-300,
        -1.5e-300,
        f64::MIN_POSITIVE / 4.0,
        f64::MAX,
        f64::MIN,
        f64::INFINITY,
        f64::NEG_INFINITY,
        f64::NAN,
        -f64::NAN,
        255.0,
        1e-5,
    ]
}

#[test]
fn total_le_matches_total_cmp() {
    let vals = sample_values();
    for &a in &vals {
        for &b in &vals {
            let expected = a.total_cmp(&b) != Ordering::Greater;
            assert_eq!(
                total_le(a.to_bits(), b.to_bits()),
                expected,
                "total order of {a} and {b}"
            );
        }
    }
}

#[test]
fn ordered_comparisons_match_the_hardware() {
    let vals = sample_values();
    for &a in &vals {
        for &b in &vals {
            assert_eq!(f_lt(a.to_bits(), b.to_bits()), a < b, "{a} < {b}");
            assert_eq!(f_le(a.to_bits(), b.to_bits()), a <= b, "{a} <= {b}");
        }
    }
}

#[test]
fn magnitude_clears_the_sign() {
    for &a in &sample_values() {
        assert_eq!(magnitude_of(a.to_bits()), a.abs().to_bits(), "magnitude of {a}");
    }
}

#[test]
fn strictly_positive_matches_comparison_with_zero() {
    for &a in &sample_values() {
        assert_eq!(strictly_positive(a.to_bits()), a > 0.0, "sign of {a}");
    }
}

fn direction_of(x: f64, y: f64, z: f64) -> StrongestDirection {
    get_strongest_direction(x.to_bits(), y.to_bits(), z.to_bits())
}

#[test]
fn canonical_axes_pick_their_faces() {
    assert_eq!(direction_of(1.0, 0.0, 0.0), StrongestDirection::Front);
    assert_eq!(direction_of(-1.0, 0.0, 0.0), StrongestDirection::Back);
    assert_eq!(direction_of(0.0, 1.0, 0.0), StrongestDirection::Top);
    assert_eq!(direction_of(0.0, -1.0, 0.0), StrongestDirection::Bottom);
    assert_eq!(direction_of(0.0, 0.0, 1.0), StrongestDirection::Right);
    assert_eq!(direction_of(0.0, 0.0, -1.0), StrongestDirection::Left);
}

#[test]
fn dominant_axis_ties_prefer_the_later_component() {
    assert_eq!(direction_of(1.0, 1.0, 1.0), StrongestDirection::Right);
    assert_eq!(direction_of(1.0, 1.0, 0.5), StrongestDirection::Top);
    assert_eq!(direction_of(2.0, -3.0, 0.0), StrongestDirection::Bottom);
    assert_eq!(direction_of(-2.0, 1.0, 1.5), StrongestDirection::Back);
}

/// For each canonical direction, the sample the renderer's perspective
/// mapping computes lands inside that face's cell of the 4x3 atlas grid.
#[test]
fn canonical_directions_sample_inside_their_cells() {
    let side: u32 = 64;
    let cases = [
        (1.0, 0.0, 0.0),
        (-1.0, 0.0, 0.0),
        (0.0, 1.0, 0.0),
        (0.0, -1.0, 0.0),
        (0.0, 0.0, 1.0),
        (0.0, 0.0, -1.0),
    ];
    for (x, y, z) in cases {
        let face = direction_of(x, y, z);
        let s = side as f64;
        let (px, py): (u32, u32) = match face {
            StrongestDirection::Front => {
                let sd = (x / x, y / x, z / x);
                ((1.5 * s - s * -sd.2 / 2.0) as u32, (1.5 * s + s * -sd.1 / 2.0) as u32)
            }
            StrongestDirection::Back => {
                let sd = (x / -x, y / -x, z / -x);
                ((3.5 * s + s * -sd.2 / 2.0) as u32, (1.5 * s + s * -sd.1 / 2.0) as u32)
            }
            StrongestDirection::Top => {
                let sd = (x / y, y / y, z / y);
                ((1.5 * s + s * sd.2 / 2.0) as u32, (0.5 * s + s * sd.0 / 2.0) as u32)
            }
            StrongestDirection::Bottom => {
                let sd = (x / -y, y / -y, z / -y);
                ((1.5 * s + s * sd.2 / 2.0) as u32, (2.5 * s + s * -sd.0 / 2.0) as u32 - 1)
            }
            StrongestDirection::Right => {
                let sd = (x / z, y / z, z / z);
                ((2.5 * s + s * -sd.0 / 2.0) as u32, (1.5 * s + s * -sd.1 / 2.0) as u32)
            }
            StrongestDirection::Left => {
                let sd = (x / -z, y / -z, z / -z);
                ((0.5 * s + s * sd.0 / 2.0) as u32, (1.5 * s + s * -sd.1 / 2.0) as u32)
            }
        };
        let (col, row) = face_cell(face);
        let x_range = (col as u32 * side, (col as u32 + 1) * side);
        let y_range = (row as u32 * side, (row as u32 + 1) * side);
        assert!(
            px >= x_range.0 && px < x_range.1,
            "x sample {px} for {face:?} outside column range {x_range:?}"
        );
        assert!(
            py >= y_range.0 && py < y_range.1,
            "y sample {py} for {face:?} outside row range {y_range:?}"
        );
    }
}

#[test]
fn the_six_faces_use_six_distinct_cells() {
    let faces = [
        StrongestDirection::Front,
        StrongestDirection::Back,
        StrongestDirection::Top,
        StrongestDirection::Bottom,
        StrongestDirection::Right,
        StrongestDirection::Left,
    ];
    for (i, &a) in faces.iter().enumerate() {
        let (ca, ra) = face_cell(a);
        assert!(ca < 4 && ra < 3);
        for &b in faces.iter().skip(i + 1) {
            assert_ne!(face_cell(a), face_cell(b));
        }
    }
}

#[test]
fn exhausted_budget_is_absorbed() {
    assert_eq!(illumination_step(0, true, false, true), IllumStep::Absorbed);
    assert_eq!(illumination_step(0, false, true, false), IllumStep::Absorbed);
}

#[test]
fn miss_without_environment_is_black() {
    assert_eq!(illumination_step(10, false, false, false), IllumStep::Absorbed);
    assert_eq!(illumination_step(10, false, true, false), IllumStep::Absorbed);
}

#[test]
fn miss_with_environment_samples_it() {
    assert_eq!(illumination_step(10, false, false, true), IllumStep::Environment);
}

#[test]
fn hits_pass_through_or_reflect() {
    assert_eq!(illumination_step(10, true, true, false), IllumStep::PassThrough);
    assert_eq!(illumination_step(10, true, false, true), IllumStep::Reflected);
    assert_eq!(illumination_step(1, true, false, false), IllumStep::Reflected);
}

#[test]
fn nearest_collision_picks_the_minimum_distance() {
    let distances: Vec<u64> = vec![5.0f64, 2.5, 7.0, 2.6].iter().map(|d| d.to_bits()).collect();
    assert_eq!(nearest_collision(&distances), Some(1));
    assert_eq!(nearest_collision(&Vec::new()), None);
}

#[test]
fn nearest_collision_ties_go_to_the_first() {
    let distances: Vec<u64> = vec![2.0f64, 1.0, 1.0, 3.0].iter().map(|d| d.to_bits()).collect();
    // the first of several equally near hits wins, as a fold keeping the
    // strictly nearer candidate does
    let v: Vec<(f64, usize)> = vec![(2.0, 0), (1.0, 1), (1.0, 2), (3.0, 3)];
    let expected = v.iter().min_by(|a, b| a.0.total_cmp(&b.0)).unwrap().1;
    assert_eq!(nearest_collision(&distances), Some(expected));
    assert_eq!(nearest_collision(&distances), Some(1));
}
