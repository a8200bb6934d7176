//! Reconstruction of a document page's character-level glyph stream into
//! text-block regions, a vector-markup overlay string, and a set of raster
//! images at several fixed scales.

use vstd::prelude::*;

pub mod block;
pub mod markup;
pub mod numfmt;
pub mod payload;
pub mod props;
pub mod raster;
pub mod glyph;

verus! {

/// Largest coordinate magnitude the library accepts, in page units.
/// Keeping every coordinate within this bound keeps all derived
/// arithmetic (normalization, baseline offsets, gap measurements)
/// well inside the range of `i64`.
pub const COORD_LIMIT: i64 = 1_000_000_000;

/// Horizontal slack, in page units, added to a glyph's width when
/// deciding whether it is close enough to extend the open block.
pub const MERGE_SLACK: i64 = 5;

} // verus!
