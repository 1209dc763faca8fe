//! The exact core of a triangle-mesh raytracer.
//!
//! A renderer around this library casts one ray per pixel and follows
//! mirror bounces until a travel budget runs out or the ray escapes to an
//! environment texture; the arithmetic of that chase is floating point and
//! stays with the renderer. Everything the renderer decides, orders or
//! parses is exact, and lives here, verified:
//!
//! - `reader`, `model`, `numeral`, `text`: the scene and material text
//!   formats, parsed and validated down to the grammar of each numeric
//!   token, with errors naming their line;
//! - `float_bits`: classification and ordering of binary64 values by their
//!   bit patterns — the ordered comparisons every geometric branch takes,
//!   and the total order used to rank hits and channels;
//! - `illumination`: the nearest-hit choice and the per-bounce decision;
//! - `cube_map`: the dominant-axis face selection and the atlas layout of
//!   the environment texture;
//! - `chunks`: the column partition the worker pool schedules by, and the
//!   snapshot cadence;
//! - `buffer`: the shared frame of accumulated radiance;
//! - `arith`: integer square roots.

pub mod arith;
pub mod buffer;
pub mod chunks;
pub mod cube_map;
pub mod float_bits;
pub mod illumination;
pub mod model;
pub mod numeral;
pub mod reader;
pub mod text;
