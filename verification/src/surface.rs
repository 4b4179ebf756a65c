//! The size a drawable surface is first asked to have.

use vstd::prelude::*;

verus! {

/// The width, in pixels, of a surface for which no width was asked.
pub const DEFAULT_WIDTH: u32 = 1920;

/// The height, in pixels, of a surface for which no height was asked.
pub const DEFAULT_HEIGHT: u32 = 1080;

/// The size to open a surface with: the requested width and height, each
/// replaced by its default where zero was requested.
pub fn initial_size(requested_width: u32, requested_height: u32) -> (size: (u32, u32))
    ensures
        size.0 == if requested_width != 0 { requested_width } else { DEFAULT_WIDTH },
        size.1 == if requested_height != 0 { requested_height } else { DEFAULT_HEIGHT },
{
    let width: u32 = if requested_width != 0 {
        requested_width
    } else {
        DEFAULT_WIDTH
    };
    let height: u32 = if requested_height != 0 {
        requested_height
    } else {
        DEFAULT_HEIGHT
    };
    (width, height)
}

} // verus!
