//! Horizontal alignment policies.
use vstd::prelude::*;

verus! {

/// Where a line is placed horizontally, and how its spaces are treated.
#[derive(Copy, Clone, Debug, PartialEq, Eq, Structural)]
pub enum HorizontalAlignment {
    /// Lines start at the left edge.
    Left,
    /// Lines end at the right edge.
    Right,
    /// Lines are centered.
    Center,
    /// Lines fill the whole width, except for the last line of a paragraph.
    Justified,
}

impl HorizontalAlignment {
    /// Whether whitespace before the first word of a line is rendered.
    pub open spec fn starting_spaces_spec(self) -> bool {
        self is Left
    }

    /// Whether whitespace that ends a line is rendered.
    pub open spec fn ending_spaces_spec(self) -> bool {
        self is Left || self is Justified
    }

    /// Whether whitespace before the first word of a line is rendered.
    pub fn starting_spaces(self) -> (r: bool)
        ensures
            r == self.starting_spaces_spec(),
    {
        match self {
            HorizontalAlignment::Left => true,
            _ => false,
        }
    }

    /// Whether whitespace that ends a line is rendered.
    pub fn ending_spaces(self) -> (r: bool)
        ensures
            r == self.ending_spaces_spec(),
    {
        match self {
            HorizontalAlignment::Left => true,
            HorizontalAlignment::Justified => true,
            _ => false,
        }
    }
}

} // verus!
