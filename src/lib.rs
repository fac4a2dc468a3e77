//! Text layout for small pixel displays: tokenizing, word wrapping, horizontal and vertical
//! alignment, and placement of lines inside a box.
use vstd::prelude::*;

pub mod alignment;
pub mod parser;
pub mod rendering;
pub mod style;
pub mod text_box;

verus! {

} // verus!
