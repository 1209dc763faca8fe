//! Face selection and atlas layout of the environment texture.
//!
//! The environment texture is a cross-shaped atlas of six square faces laid
//! out on a 4x3 grid of cells, each cell as wide as one face. An escaping ray
//! picks the face of its dominant axis: the component of greatest magnitude,
//! the later of `x`, `y`, `z` winning ties, with the sign of that component
//! choosing between the two faces of the axis. The convention used here:
//! - `x` dominant: `Front` when `x > 0`, else `Back`;
//! - `y` dominant: `Top` when `y > 0`, else `Bottom`;
//! - `z` dominant: `Right` when `z > 0`, else `Left`.
//!
//! Directions come in as binary64 bit patterns; magnitude comparison and the
//! sign test are exact functions of the bits (see `float_bits`).

use crate::float_bits::{
    is_strictly_positive, magnitude, magnitude_of, strictly_positive,
};
use vstd::prelude::*;

verus! {

/// The dominant axis and sign of an escaping ray, naming the atlas face it
/// samples.
#[derive(Clone, Copy, Debug, PartialEq, Eq, Structural)]
pub enum StrongestDirection {
    Front,
    Back,
    Top,
    Bottom,
    Right,
    Left,
}

/// Face selected for a direction given as three binary64 bit patterns. The
/// component of greatest magnitude dominates, the later component winning
/// ties; its sign picks the face.
pub open spec fn spec_strongest_direction(x: u64, y: u64, z: u64) -> StrongestDirection {
    if magnitude(z) >= magnitude(x) && magnitude(z) >= magnitude(y) {
        if is_strictly_positive(z) {
            StrongestDirection::Right
        } else {
            StrongestDirection::Left
        }
    } else if magnitude(y) >= magnitude(x) {
        if is_strictly_positive(y) {
            StrongestDirection::Top
        } else {
            StrongestDirection::Bottom
        }
    } else {
        if is_strictly_positive(x) {
            StrongestDirection::Front
        } else {
            StrongestDirection::Back
        }
    }
}

/// Face selected for a direction given as three binary64 bit patterns.
pub fn get_strongest_direction(x: u64, y: u64, z: u64) -> (d: StrongestDirection)
    ensures
        d == spec_strongest_direction(x, y, z),
{
    let mx = magnitude_of(x);
    let my = magnitude_of(y);
    let mz = magnitude_of(z);
    if mz >= mx && mz >= my {
        if strictly_positive(z) {
            StrongestDirection::Right
        } else {
            StrongestDirection::Left
        }
    } else if my >= mx {
        if strictly_positive(y) {
            StrongestDirection::Top
        } else {
            StrongestDirection::Bottom
        }
    } else {
        if strictly_positive(x) {
            StrongestDirection::Front
        } else {
            StrongestDirection::Back
        }
    }
}

/// Cell of a face in the 4x3 atlas grid, as (column, row). The cross layout:
/// `Top`, `Front` and `Bottom` stack in column 1; `Left`, `Front`, `Right`
/// and `Back` run along row 1.
pub open spec fn spec_face_cell(d: StrongestDirection) -> (int, int) {
    match d {
        StrongestDirection::Front => (1, 1),
        StrongestDirection::Back => (3, 1),
        StrongestDirection::Top => (1, 0),
        StrongestDirection::Bottom => (1, 2),
        StrongestDirection::Right => (2, 1),
        StrongestDirection::Left => (0, 1),
    }
}

/// Cell of a face in the 4x3 atlas grid, as (column, row).
pub fn face_cell(d: StrongestDirection) -> (c: (usize, usize))
    ensures
        c.0 == spec_face_cell(d).0,
        c.1 == spec_face_cell(d).1,
        c.0 < 4,
        c.1 < 3,
{
    match d {
        StrongestDirection::Front => (1, 1),
        StrongestDirection::Back => (3, 1),
        StrongestDirection::Top => (1, 0),
        StrongestDirection::Bottom => (1, 2),
        StrongestDirection::Right => (2, 1),
        StrongestDirection::Left => (0, 1),
    }
}

/// The six faces occupy six distinct cells of the atlas grid.
pub proof fn lemma_face_cells_distinct(a: StrongestDirection, b: StrongestDirection)
    requires
        a != b,
    ensures
        spec_face_cell(a) != spec_face_cell(b),
{
}

/// The six canonical axis-aligned directions select the six faces.
/// `0x3FF0_0000_0000_0000` is the bit pattern of one, `0xBFF0_0000_0000_0000`
/// that of minus one, `0` that of zero.
pub proof fn lemma_canonical_axes_faces()
    ensures
        spec_strongest_direction(0x3FF0_0000_0000_0000, 0, 0) == StrongestDirection::Front,
        spec_strongest_direction(0xBFF0_0000_0000_0000, 0, 0) == StrongestDirection::Back,
        spec_strongest_direction(0, 0x3FF0_0000_0000_0000, 0) == StrongestDirection::Top,
        spec_strongest_direction(0, 0xBFF0_0000_0000_0000, 0) == StrongestDirection::Bottom,
        spec_strongest_direction(0, 0, 0x3FF0_0000_0000_0000) == StrongestDirection::Right,
        spec_strongest_direction(0, 0, 0xBFF0_0000_0000_0000) == StrongestDirection::Left,
{
}

} // verus!
