//! Layout of lines: cursor geometry, whitespace widths and the per-line element parser.
use vstd::prelude::*;

pub mod cursor;
pub mod justify;
pub mod line;
pub mod line_iter;
pub mod space_config;

verus! {

} // verus!
