//! Deterministic identicon derivation: a username is hashed, and the digest
//! drives a color, a mirrored grid pattern, pixel coordinates, and finally a
//! small square canvas ready to be encoded as an image file.

pub mod canvas;
pub mod cli;
pub mod hashing;
pub mod identicon;
pub mod image_builder;

use vstd::prelude::*;

verus! {

/// Number of cells in the (mirrored) grid row.
pub const SQUARES: u8 = 10;

/// Width and height of the square canvas, in pixels.
pub const SIZE: u8 = 20;

} // verus!
