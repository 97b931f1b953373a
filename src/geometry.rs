//! Geometry of the center crop that turns cover art into a square.
use vstd::prelude::*;

verus! {

/// Horizontal offset that centers a `height`-wide window in a row of
/// `width` pixels. Defined for images at least as wide as they are tall.
pub fn find_offset_to_center(width: u32, height: u32) -> (r: u32)
    requires
        height <= width,
    ensures
        r == width / 2 - height / 2,
        r + height <= width,
{
    (width / 2) - (height / 2)
}

/// A square window of an image: its top-left corner and its side.
#[derive(Clone, Copy, Debug, PartialEq, Eq, Structural)]
pub struct CropRegion {
    pub x: u32,
    pub y: u32,
    pub side: u32,
}

/// The centered square of a `width` x `height` image, as a spec value.
/// A wide image keeps its full height and is cut at the sides; a tall one
/// keeps its full width and is cut at the top and bottom.
pub open spec fn center_square_of(width: u32, height: u32) -> Option<CropRegion> {
    if width == height {
        None
    } else if width > height {
        Some(CropRegion { x: (width / 2 - height / 2) as u32, y: 0, side: height })
    } else {
        Some(CropRegion { x: 0, y: (height / 2 - width / 2) as u32, side: width })
    }
}

/// The window to crop for a square cover; `None` when the image is already
/// square and there is nothing to do.
pub fn center_square(width: u32, height: u32) -> (r: Option<CropRegion>)
    ensures
        r == center_square_of(width, height),
        r matches Some(c) ==> c.x + c.side <= width && c.y + c.side <= height,
{
    if width == height {
        None
    } else if width > height {
        Some(CropRegion { x: find_offset_to_center(width, height), y: 0, side: height })
    } else {
        Some(CropRegion { x: 0, y: find_offset_to_center(height, width), side: width })
    }
}

} // verus!
