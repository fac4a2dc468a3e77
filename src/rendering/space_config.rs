//! How wide the rendered whitespace is.
use vstd::prelude::*;

verus! {

/// Width of the whitespace of a line. Every space is `space_width` pixels wide; the first
/// `space_count` spaces that are consumed get one extra pixel, so that a justified line can
/// spread an integer remainder.
#[derive(Copy, Clone, Debug, PartialEq, Eq, Structural)]
pub struct JustifiedSpaceConfig {
    /// The width of a whitespace character.
    pub space_width: u32,
    /// How many of the next spaces are one pixel wider. Decreases as spaces are consumed.
    pub space_count: u32,
}

/// The width of `n` spaces under a configuration.
pub open spec fn spaces_width(space_width: int, extra: int, n: int) -> int {
    n * space_width + if extra < n {
        extra
    } else {
        n
    }
}

impl JustifiedSpaceConfig {
    pub open spec fn peek_spec(&self, n: int) -> int {
        spaces_width(self.space_width as int, self.space_count as int, n)
    }

    /// Spaces of `space_width` pixels, the first `extra_pixel_count` of them one pixel wider.
    pub fn new(space_width: u32, extra_pixel_count: u32) -> (c: JustifiedSpaceConfig)
        ensures
            c == (JustifiedSpaceConfig { space_width, space_count: extra_pixel_count }),
    {
        JustifiedSpaceConfig { space_width, space_count: extra_pixel_count }
    }

    /// Spaces that all have the same width.
    pub fn uniform(space_width: u32) -> (c: JustifiedSpaceConfig)
        ensures
            c == (JustifiedSpaceConfig { space_width, space_count: 0 }),
    {
        JustifiedSpaceConfig { space_width, space_count: 0 }
    }

    /// The width of the next `n` spaces, without consuming them.
    pub fn peek_next_width(&self, n: u32) -> (r: u64)
        ensures
            r == self.peek_spec(n as int),
    {
        proof {
            lemma_spaces_width_bound(self.space_width as int, self.space_count as int, n as int);
        }
        let extra = if self.space_count < n {
            self.space_count
        } else {
            n
        };
        (n as u64) * (self.space_width as u64) + extra as u64
    }

    /// The width of the next `n` spaces, which are consumed.
    pub fn consume(&mut self, n: u32) -> (r: u64)
        ensures
            r == old(self).peek_spec(n as int),
            final(self).space_width == old(self).space_width,
            final(self).space_count == if old(self).space_count < n {
                0
            } else {
                old(self).space_count - n
            },
    {
        let r = self.peek_next_width(n);
        if self.space_count < n {
            self.space_count = 0;
        } else {
            self.space_count = self.space_count - n;
        }
        r
    }
}

pub proof fn lemma_spaces_width_bound(w: int, e: int, n: int)
    requires
        0 <= w <= u32::MAX,
        0 <= e,
        0 <= n <= u32::MAX,
    ensures
        0 <= spaces_width(w, e, n) <= u32::MAX * u32::MAX + u32::MAX,
        n * w <= u32::MAX * u32::MAX,
{
    assert(n * w <= u32::MAX * u32::MAX) by (nonlinear_arith)
        requires
            0 <= w <= u32::MAX,
            0 <= n <= u32::MAX,
    ;
}

/// Consuming `a` spaces and then `b` more takes as many pixels as consuming `a + b` spaces at
/// once.
pub proof fn lemma_consume_split(config: JustifiedSpaceConfig, a: int, b: int)
    requires
        0 <= a,
        0 <= b,
    ensures
        config.peek_spec(a) + spaces_width(
            config.space_width as int,
            if config.space_count < a {
                0
            } else {
                config.space_count - a
            },
            b,
        ) == config.peek_spec(a + b),
{
    assert((a + b) * config.space_width == a * config.space_width + b * config.space_width)
        by (nonlinear_arith);
}

/// Justification is exact: when the slack of a line is spread over `count` spaces as
/// `slack / count` pixels each, with one extra pixel for the first `slack % count` of them,
/// the spaces of the line take the whole slack, however they are grouped.
pub proof fn lemma_justified_spaces_fill_slack(slack: u32, count: u32)
    requires
        count > 0,
    ensures
        spaces_width((slack / count) as int, (slack % count) as int, count as int) == slack,
{
    assert(slack % count < count);
    assert(count * (slack / count) + slack % count == slack) by (nonlinear_arith)
        requires
            count > 0,
    ;
    assert(count as int * (slack / count) as int == (count * (slack / count)) as int)
        by (nonlinear_arith)
        requires
            count > 0,
    ;
}

} // verus!
