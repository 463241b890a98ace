//! Exact reconstruction of the convex solids of Quake-engine level files.
//!
//! The crate reads the Valve 220 text format, derives the supporting plane of
//! every brush face, and rebuilds each face polygon by intersecting planes.
//! All arithmetic is done on exact rational numbers, so the geometric
//! contracts hold without rounding error.
//!
//! - [`number`]: naturals, integers and rationals of unbounded size.
//! - [`vector`] and [`algebra`]: vectors of rationals, and identities of
//!   their products.
//! - [`parsing`]: the grammar of the level format and its parser.
//! - [`data`]: the parsed level, and the planes of its brushes.
//! - [`loader`]: the polygons of the brushes, wound, textured and
//!   triangulated.
//! - [`fgd`], [`game_config`] and [`editor`]: entity definitions, game
//!   configurations, and the bookkeeping of a level editor.

pub mod algebra;
pub mod data;
pub mod editor;
pub mod fgd;
pub mod game_config;
pub mod loader;
pub mod number;
pub mod parsing;
pub mod vector;

use crate::number::rational::{quotient, Rational};
use vstd::prelude::*;

verus! {

/// The usual tolerance of plane tests, in level units: one thousandth.
pub open spec fn epsilon_value() -> real {
    quotient(1, 1000)
}

/// The usual tolerance of plane tests, in level units: one thousandth. It
/// serves both to tell whether three planes meet in a point and to tell
/// whether a point lies in a solid.
pub fn epsilon() -> (e: Rational)
    ensures
        e@ == epsilon_value(),
{
    Rational::from_ratio(1, 1000).unwrap()
}

} // verus!
