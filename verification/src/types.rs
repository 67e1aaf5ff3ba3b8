use vstd::prelude::*;

verus! {

/// Class id the detector reserves for the board marker; ids `0..=11` are the
/// twelve piece kinds, anything else is noise.
pub const BOARD_CLASS_ID: u32 = 12;

/// Fractional quantities (confidences, thresholds, padding fractions) are
/// fixed-point thousandths: `700` means 0.7.
pub const FRACTION_UNIT: u32 = 1000;

/// One detector output row in the detector's fixed input space: a corner box
/// (left/top/right/bottom), a confidence in thousandths, and a class id.
#[derive(Clone, Copy, PartialEq, Eq, Structural, Debug)]
pub struct RawBox {
    pub left: u32,
    pub top: u32,
    pub right: u32,
    pub bottom: u32,
    pub confidence: u32,
    pub class_id: u32,
}

/// A box in original-image pixel space, top-left anchored.
#[derive(Clone, Copy, PartialEq, Eq, Structural, Debug)]
pub struct PixelBox {
    pub x: u32,
    pub y: u32,
    pub width: u32,
    pub height: u32,
}

/// A detected object in original-image coordinates: its box plus the
/// confidence and class id carried over from the raw row.
#[derive(Clone, Copy, PartialEq, Eq, Structural, Debug)]
pub struct Detection {
    pub bbox: PixelBox,
    pub confidence: u32,
    pub class_id: u32,
}

impl Detection {
    /// A piece detection, as opposed to the board marker or an unknown class.
    pub open spec fn is_piece(self) -> bool {
        self.class_id < BOARD_CLASS_ID
    }
}

/// Whether detection runs once on the full image or adds a crop-and-reprocess
/// pass for small or distant boards.
#[derive(Clone, Copy, PartialEq, Eq, Structural, Debug)]
pub enum DetectionLevel {
    Basic,
    Refined,
}

/// The side whose point of view the image shows; decides how the grid is
/// mirrored.
#[derive(Clone, Copy, PartialEq, Eq, Structural, Debug)]
pub enum Pov {
    /// White's point of view.
    W,
    /// Black's point of view.
    B,
}

/// The board marker's box: it defines the grid that the position encoder and
/// the square-to-point mapper share.
#[derive(Clone, Copy, PartialEq, Eq, Structural, Debug)]
pub struct BoardFrame {
    pub origin_x: u32,
    pub origin_y: u32,
    pub width: u32,
    pub height: u32,
}

impl BoardFrame {
    /// The side length of one grid cell: the mean of the frame's sides,
    /// divided into eight.
    pub open spec fn spec_cell_size(self) -> int {
        ((self.width + self.height) / 2) / 8
    }

    pub fn cell_size(&self) -> (c: u32)
        ensures
            c == self.spec_cell_size(),
    {
        let sum: u64 = self.width as u64 + self.height as u64;
        ((sum / 2) / 8) as u32
    }
}

} // verus!
