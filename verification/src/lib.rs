//! A verified core for a font-comparison tool: it supplies files and
//! fonts to an external document compiler, schedules one compilation per
//! font variant, and assembles the rendered pages into one collection
//! document.
use vstd::prelude::*;

pub mod errors;
pub mod files;
pub mod fonts;
pub mod assemble;
pub mod schedule;
pub mod text;
pub mod world;

verus! {

/// Converts a pixel count at the given resolution into millipoints
/// (thousandths of a typographic point), using `points = pixels / ppi * 72`.
pub fn pixels_to_millipoints(pixels: u32, ppi: u32) -> (r: u64)
    requires
        ppi > 0,
    ensures
        r == (pixels as int) * 72000 / (ppi as int),
{
    (pixels as u64) * 72000 / (ppi as u64)
}

} // verus!
