//! The resolved look of the report.
use vstd::prelude::*;
use crate::grid::Color;

verus! {

/// Colors, spacing and box settings of one render.
pub struct Theme {
    /// Color of the readout labels.
    pub key_color: Color,
    /// Color of the separator between label and value.
    pub separator_color: Color,
    /// Glyphs drawn between label and value.
    pub separator: Vec<char>,
    /// Columns between the ascii block and the readout block.
    pub padding: u16,
    /// Columns on each side of the separator.
    pub spacing: u16,
    /// Whether a border is drawn round the readouts.
    pub box_visible: bool,
    /// Title set into the top of the border.
    pub box_title: Vec<char>,
    /// Columns between the border and the readouts.
    pub horizontal_margin: u16,
    /// Rows between the border and the readouts.
    pub vertical_margin: u16,
    /// Whether the ascii block is left out.
    pub ascii_hidden: bool,
}

} // verus!
