//! The parts of color handling that need no floating point, verified: the text form of colors,
//! the weight-count rule of weighted color averages, and in-order evaluation of colormaps.
use vstd::prelude::*;

pub mod color_funcs;
pub mod colormap;
pub mod hex_code;

verus! {

} // verus!
