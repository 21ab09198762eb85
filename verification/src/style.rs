//! Plain value types the surrounding renderer keys its work by.

use vstd::prelude::*;

verus! {

/// Pen color of a draw batch. The renderer accumulates triangles per
/// color and uploads one batch per variant; the concrete channel values
/// belong to the rendering layer.
#[derive(Hash, PartialEq, Eq, Structural, PartialOrd, Ord, Debug, Clone, Copy)]
pub enum Color {
    White,
    Yellow,
    PaleBlue,
}

/// Horizontal anchoring of a laid-out piece of text.
#[derive(Hash, PartialEq, Eq, Structural, Debug, Clone, Copy)]
pub enum Align {
    Left,
    Center,
    Right,
}

} // verus!
