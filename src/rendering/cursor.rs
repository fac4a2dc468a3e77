//! Pen position inside a line and inside the text box.
use vstd::prelude::*;

verus! {

/// The horizontal pen position inside one line.
#[derive(Copy, Clone, Debug, PartialEq, Eq, Structural)]
pub struct LineCursor {
    /// The width of the line, in pixels.
    pub width: u32,
    /// The pen's offset from the line's left edge, in pixels.
    pub position: u32,
    /// The distance between tab stops, in pixels.
    pub tab_width: u32,
}

impl LineCursor {
    pub open spec fn wf(&self) -> bool {
        self.position <= self.width
    }

    pub open spec fn space_spec(&self) -> int {
        self.width - self.position
    }

    /// The distance from the pen to the next tab stop, before clamping to the line.
    pub open spec fn tab_distance(&self) -> int {
        if self.tab_width == 0 {
            0
        } else {
            self.tab_width - (self.position % self.tab_width)
        }
    }

    /// Creates a cursor at the start of a line.
    pub fn new(width: u32, tab_width: u32) -> (c: LineCursor)
        ensures
            c.wf(),
            c == (LineCursor { width, position: 0, tab_width }),
    {
        LineCursor { width, position: 0, tab_width }
    }

    /// The room left on the line.
    pub fn space(&self) -> (r: u32)
        requires
            self.wf(),
        ensures
            r == self.space_spec(),
    {
        self.width - self.position
    }

    /// The width of the line.
    pub fn line_width(&self) -> (r: u32)
        ensures
            r == self.width,
    {
        self.width
    }

    /// Whether `width` pixels still fit on the line.
    pub fn fits_in_line(&self, width: u64) -> (r: bool)
        requires
            self.wf(),
        ensures
            r == (width <= self.space_spec()),
    {
        width <= (self.width - self.position) as u64
    }

    /// Whether `a + b` pixels still fit on the line.
    pub fn pair_fits_in_line(&self, a: u64, b: u64) -> (r: bool)
        requires
            self.wf(),
        ensures
            r == (a + b <= self.space_spec()),
    {
        let space = (self.width - self.position) as u64;
        a <= space && b <= space - a
    }

    /// Moves the pen right by `by` pixels if they fit; otherwise returns the room left and
    /// leaves the pen where it is.
    pub fn advance(&mut self, by: u64) -> (r: Result<u32, u32>)
        requires
            old(self).wf(),
        ensures
            final(self).wf(),
            final(self).width == old(self).width,
            final(self).tab_width == old(self).tab_width,
            by <= old(self).space_spec() ==> r == Ok::<u32, u32>(by as u32) && final(self).position
                == old(self).position + by,
            by > old(self).space_spec() ==> r == Err::<u32, u32>(old(self).space_spec() as u32)
                && final(self).position == old(self).position,
    {
        let space = self.width - self.position;
        if by <= space as u64 {
            self.position = self.position + by as u32;
            Ok(by as u32)
        } else {
            Err(space)
        }
    }

    /// Moves the pen right by `by` pixels, which the caller knows to fit.
    pub fn advance_unchecked(&mut self, by: u64)
        requires
            old(self).wf(),
            by <= old(self).space_spec(),
        ensures
            final(self).wf(),
            final(self).width == old(self).width,
            final(self).tab_width == old(self).tab_width,
            final(self).position == old(self).position + by,
    {
        self.position = self.position + by as u32;
    }

    /// Moves the pen left by `by` pixels; returns false, without moving, when that would
    /// cross the line's left edge.
    pub fn rewind(&mut self, by: u64) -> (r: bool)
        requires
            old(self).wf(),
        ensures
            final(self).wf(),
            final(self).width == old(self).width,
            final(self).tab_width == old(self).tab_width,
            r == (by <= old(self).position),
            r ==> final(self).position == old(self).position - by,
            !r ==> final(self).position == old(self).position,
    {
        if by <= self.position as u64 {
            self.position = self.position - by as u32;
            true
        } else {
            false
        }
    }

    /// Moves the pen to the line's left edge.
    pub fn carriage_return(&mut self)
        ensures
            final(self).wf(),
            final(self).width == old(self).width,
            final(self).tab_width == old(self).tab_width,
            final(self).position == 0,
    {
        self.position = 0;
    }

    /// The distance to the next tab stop, clamped to the room left on the line.
    pub fn next_tab_width(&self) -> (r: u32)
        requires
            self.wf(),
        ensures
            r == if self.tab_distance() <= self.space_spec() {
                self.tab_distance()
            } else {
                self.space_spec()
            },
    {
        let distance = if self.tab_width == 0 {
            0
        } else {
            self.tab_width - (self.position % self.tab_width)
        };
        let space = self.width - self.position;
        if distance <= space {
            distance
        } else {
            space
        }
    }
}

/// The pen position inside the text box: which line, and where lines start.
#[derive(Copy, Clone, Debug, PartialEq, Eq, Structural)]
pub struct Cursor {
    /// Left edge of the box.
    pub left: i32,
    /// Top edge of the box.
    pub top: i32,
    /// Width of the box, in pixels.
    pub width: u32,
    /// Height of the box, in pixels.
    pub height: u32,
    /// Top edge of the current line.
    pub y: i32,
    /// Height of a line of text.
    pub line_height: u32,
    /// Extra pixels between two lines.
    pub line_spacing: u32,
    /// Distance between tab stops.
    pub tab_width: u32,
}

impl Cursor {
    pub open spec fn bottom_spec(&self) -> int {
        self.top + self.height
    }

    /// Creates a cursor at the top of a box.
    pub fn new(
        left: i32,
        top: i32,
        width: u32,
        height: u32,
        line_height: u32,
        line_spacing: u32,
        tab_width: u32,
    ) -> (c: Cursor)
        ensures
            c == (Cursor { left, top, width, height, y: top, line_height, line_spacing, tab_width }),
    {
        Cursor { left, top, width, height, y: top, line_height, line_spacing, tab_width }
    }

    /// A line cursor at the start of the current line.
    pub fn line(&self) -> (c: LineCursor)
        ensures
            c.wf(),
            c == (LineCursor { width: self.width, position: 0, tab_width: self.tab_width }),
    {
        LineCursor::new(self.width, self.tab_width)
    }

    /// The width of a line.
    pub fn line_width(&self) -> (r: u32)
        ensures
            r == self.width,
    {
        self.width
    }

    /// Steps down to the next line. Returns false, without moving, where the next line would
    /// start beyond what `i32` holds.
    pub fn new_line(&mut self) -> (r: bool)
        ensures
            *final(self) == (Cursor { y: final(self).y, ..*old(self) }),
            r ==> final(self).y == old(self).y + old(self).line_height + old(self).line_spacing,
            !r ==> final(self).y == old(self).y,
    {
        let step = self.line_height as i64 + self.line_spacing as i64;
        let next = self.y as i64 + step;
        if next <= i32::MAX as i64 {
            self.y = next as i32;
            true
        } else {
            false
        }
    }

    /// Whether the current line starts inside the box.
    pub fn in_display_area(&self) -> (r: bool)
        ensures
            r == (self.top <= self.y + self.line_height && self.y < self.bottom_spec()),
    {
        (self.top as i64) <= (self.y as i64) + (self.line_height as i64) && (self.y as i64) < (
        self.top as i64) + (self.height as i64)
    }
}

} // verus!
