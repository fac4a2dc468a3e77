//! Placing a measured line: shifting it by the alignment's offset, and stretching the spaces of a
//! justified line so that it fills the width.
use vstd::prelude::*;

use crate::rendering::line::space_stats;
use crate::rendering::line_iter::{element_width, placed_chain, PlacedElement, RenderElement};
use crate::rendering::space_config::{
    lemma_consume_split,
    lemma_justified_spaces_fill_slack,
    spaces_width,
    JustifiedSpaceConfig,
};

verus! {

/// Elements that end the run of spaces before them: printed characters and tabs.
pub open spec fn is_content(e: RenderElement) -> bool {
    match e {
        RenderElement::Space(_, n) => n == 0,
        RenderElement::PrintedCharacters(_, _) => true,
        RenderElement::PrintedGlyph(_) => true,
        _ => false,
    }
}

/// The index of the last printed element or tab, or -1.
pub open spec fn last_content(es: Seq<PlacedElement>) -> int
    decreases es.len(),
{
    if es.len() == 0 {
        -1
    } else if is_content(es.last().element) {
        es.len() - 1
    } else {
        last_content(es.drop_last())
    }
}

/// The configuration after `n` spaces were consumed.
pub open spec fn config_after(config: JustifiedSpaceConfig, n: int) -> JustifiedSpaceConfig {
    JustifiedSpaceConfig {
        space_width: config.space_width,
        space_count: if config.space_count < n {
            0
        } else {
            (config.space_count - n) as u32
        },
    }
}

/// A width, cut to the room left before `line_width` when the pen is at `x`.
pub open spec fn clamp_width(x: int, w: int, line_width: int) -> int {
    if w <= line_width - x {
        w
    } else {
        line_width - x
    }
}

/// One element of a stretched line, at pen position `x` with the spaces of `config` still to
/// come: the element drawn, its width, and the configuration after it. Spaces before the last
/// printed element take the stretched widths; spaces after it are not drawn.
pub open spec fn stretch_element(
    e: RenderElement,
    i: int,
    last: int,
    x: int,
    config: JustifiedSpaceConfig,
    line_width: int,
    char_width: int,
) -> (RenderElement, int, JustifiedSpaceConfig) {
    match e {
        RenderElement::Space(w, n) => if n > 0 {
            if i < last {
                let wc = clamp_width(x, config.peek_spec(n as int), line_width);
                (RenderElement::Space(wc as u32, n), wc, config_after(config, n as int))
            } else {
                (RenderElement::Space(0, n), 0, config)
            }
        } else {
            (e, clamp_width(x, w as int, line_width), config)
        },
        _ => (e, clamp_width(x, element_width(e, char_width), line_width), config),
    }
}

/// A measured line with its spaces stretched by `config`, from the left edge: the elements, where
/// the pen ends, and the configuration left.
pub open spec fn stretched(
    es: Seq<PlacedElement>,
    last: int,
    config: JustifiedSpaceConfig,
    line_width: int,
    char_width: int,
) -> (Seq<PlacedElement>, int, JustifiedSpaceConfig)
    decreases es.len(),
{
    if es.len() == 0 {
        (Seq::empty(), 0, config)
    } else {
        let prev = stretched(es.drop_last(), last, config, line_width, char_width);
        let st = stretch_element(
            es.last().element,
            es.len() - 1,
            last,
            prev.1,
            prev.2,
            line_width,
            char_width,
        );
        (prev.0.push(PlacedElement { x: prev.1 as u32, element: st.0 }), prev.1 + st.1, st.2)
    }
}

/// A measured line moved right by `left`.
pub open spec fn shifted(es: Seq<PlacedElement>, left: int) -> Seq<PlacedElement> {
    es.map(|i: int, p: PlacedElement| PlacedElement { x: (p.x + left) as u32, element: p.element })
}

/// Where the pen of a stretched prefix `p` of a line ends, for a prefix that ends at `end` when
/// measured. Before the last printed element every space takes its stretched width; after it,
/// none is drawn.
pub open spec fn stretch_target(
    p: Seq<PlacedElement>,
    last: int,
    config: JustifiedSpaceConfig,
    end: int,
) -> int {
    let st = space_stats(p);
    if p.len() <= last {
        end - (st.0 + st.2) + config.peek_spec(st.1 + st.3)
    } else {
        end - (st.0 + st.2) + config.peek_spec(st.1)
    }
}

pub proof fn lemma_chain_drop_last(es: Seq<PlacedElement>, start: int, end: int, char_width: int)
    requires
        placed_chain(es, start, end, char_width),
        es.len() > 0,
    ensures
        placed_chain(es.drop_last(), start, es.last().x as int, char_width),
{
    let init = es.drop_last();
    if init.len() > 0 {
        assert(init.last() == es[es.len() - 2]);
        assert(es[es.len() - 2].x + element_width(es[es.len() - 2].element, char_width) == es[es.len()
            - 1].x);
        assert forall|i: int| 0 <= i < init.len() - 1 implies #[trigger] init[i].x + element_width(
            init[i].element,
            char_width,
        ) == init[i + 1].x by {
            assert(init[i] == es[i]);
            assert(init[i + 1] == es[i + 1]);
        }
    }
}

pub proof fn lemma_last_content_bound(p: Seq<PlacedElement>)
    ensures
        -1 <= last_content(p) < p.len(),
    decreases p.len(),
{
    if p.len() > 0 {
        lemma_last_content_bound(p.drop_last());
    }
}

pub proof fn lemma_space_stats_nonneg(p: Seq<PlacedElement>)
    ensures
        space_stats(p).0 >= 0 && space_stats(p).1 >= 0 && space_stats(p).2 >= 0 && space_stats(
            p,
        ).3 >= 0,
    decreases p.len(),
{
    if p.len() > 0 {
        lemma_space_stats_nonneg(p.drop_last());
    }
}

proof fn lemma_spaces_width_nonneg(w: int, e: int, n: int)
    requires
        0 <= w,
        0 <= e,
        0 <= n,
    ensures
        spaces_width(w, e, n) >= 0,
{
    assert(n * w >= 0) by (nonlinear_arith)
        requires
            0 <= w,
            0 <= n,
    ;
}

/// Stretching a measured line: the pen ends at `stretch_target`, every element starts within the
/// line, and the spaces drawn before the last printed element take the first spaces of `config`.
#[verifier::rlimit(100)]
#[verifier::spinoff_prover]
pub proof fn lemma_stretched(
    p: Seq<PlacedElement>,
    last: int,
    config: JustifiedSpaceConfig,
    line_width: int,
    char_width: int,
    end: int,
)
    requires
        placed_chain(p, 0, end, char_width),
        forall|i: int|
            0 <= i < p.len() ==> !(#[trigger] p[i].element is MoveCursor) && element_width(
                p[i].element,
                char_width,
            ) >= 0,
        last >= p.len() || last == last_content(p),
        stretch_target(p, last, config, end) <= line_width,
        line_width <= u32::MAX,
    ensures
        ({
            let r = stretched(p, last, config, line_width, char_width);
            let st = space_stats(p);
            &&& 0 <= stretch_target(p, last, config, end)
            &&& r.1 == stretch_target(p, last, config, end)
            &&& r.2 == config_after(config, if p.len() <= last { st.1 + st.3 } else { st.1 })
            &&& r.0.len() == p.len()
            &&& placed_chain(r.0, 0, r.1, char_width)
            &&& forall|i: int| 0 <= i < r.0.len() ==> #[trigger] r.0[i].x <= r.1
            &&& space_stats(r.0).0 == config.peek_spec(st.1)
            &&& space_stats(r.0).1 == st.1
            &&& (p.len() <= last ==> space_stats(r.0).2 == config.peek_spec(st.1 + st.3)
                - config.peek_spec(st.1))
            &&& (p.len() > last ==> space_stats(r.0).2 == 0)
            &&& space_stats(r.0).3 == st.3
            &&& st.0 >= 0 && st.1 >= 0 && st.2 >= 0 && st.3 >= 0
        }),
    decreases p.len(),
{
    let sw = config.space_width as int;
    let sc0 = config.space_count as int;
    if p.len() == 0 {
        assert(0 * sw == 0);
        assert(config.peek_spec(0) == 0);
        assert(config_after(config, 0) == config);
    } else {
        let prev = p.drop_last();
        let e = p.last().element;
        let xp = p.last().x as int;
        let n1 = p.len() - 1;
        lemma_chain_drop_last(p, 0, end, char_width);
        assert forall|i: int| 0 <= i < prev.len() implies !(#[trigger] prev[i].element is MoveCursor)
            && element_width(prev[i].element, char_width) >= 0 by {
            assert(prev[i] == p[i]);
        }
        assert(!(p[n1].element is MoveCursor) && element_width(p[n1].element, char_width) >= 0);
        assert(p[n1] == p.last());
        let w = element_width(e, char_width);
        assert(end == xp + w);
        let s = space_stats(prev);
        lemma_space_stats_nonneg(prev);
        lemma_space_stats_nonneg(p);
        // the target of the prefix before the last element
        let tprev = stretch_target(prev, last, config, xp);
        let tp = stretch_target(p, last, config, end);
        lemma_spaces_width_nonneg(sw, sc0, s.1);
        lemma_spaces_width_nonneg(sw, sc0, s.1 + s.3);
        lemma_consume_split(config, s.1, s.3);
        // the target only grows with the last element
        if n1 < last {
            match e {
                RenderElement::Space(ws, k) => {
                    if k > 0 {
                        lemma_consume_split(config, s.1 + s.3, k as int);
                        lemma_consume_split(config, s.1, s.3 + k);
                        lemma_spaces_width_nonneg(
                            sw,
                            config_after(config, s.1 + s.3).space_count as int,
                            k as int,
                        );
                        assert(tp == tprev + spaces_width(
                            sw,
                            config_after(config, s.1 + s.3).space_count as int,
                            k as int,
                        ));
                    } else {
                        assert(tp == tprev + w);
                    }
                },
                RenderElement::PrintedCharacters(_, _) => {
                    assert(tp == tprev + w);
                },
                RenderElement::PrintedGlyph(_) => {
                    assert(tp == tprev + w);
                },
                _ => {
                    assert(tp == tprev);
                },
            }
        } else if n1 == last {
            lemma_last_content_bound(prev);
            assert(is_content(e));
            assert(tp == tprev + w);
        } else {
            assert(last == last_content(prev));
            assert(!is_content(e));
            assert(tp == tprev);
        }
        assert(last >= prev.len() || last == last_content(prev));
        lemma_stretched(prev, last, config, line_width, char_width, xp);
        let rp = stretched(prev, last, config, line_width, char_width);
        let stp = stretch_element(e, n1, last, rp.1, rp.2, line_width, char_width);
        let r = stretched(p, last, config, line_width, char_width);
        assert(r.0 == rp.0.push(PlacedElement { x: rp.1 as u32, element: stp.0 }));
        assert(r.0.drop_last() == rp.0);
        // the element's width in the stretched line
        assert(element_width(stp.0, char_width) == stp.1);
        assert(r.1 == tp);
        assert(placed_chain(r.0, 0, r.1, char_width)) by {
            assert forall|i: int| 0 <= i < r.0.len() - 1 implies #[trigger] r.0[i].x + element_width(
                r.0[i].element,
                char_width,
            ) == r.0[i + 1].x by {
                if i < rp.0.len() - 1 {
                    assert(r.0[i] == rp.0[i]);
                    assert(r.0[i + 1] == rp.0[i + 1]);
                } else {
                    assert(r.0[i] == rp.0.last());
                }
            }
        }
        assert forall|i: int| 0 <= i < r.0.len() implies #[trigger] r.0[i].x <= r.1 by {
            if i < rp.0.len() {
                assert(r.0[i] == rp.0[i]);
            }
        }
    }
}

/// A line without cursor movements only moves right: every element starts at or before the end.
pub proof fn lemma_no_moves_within(es: Seq<PlacedElement>, start: int, end: int, char_width: int)
    requires
        placed_chain(es, start, end, char_width),
        forall|i: int|
            0 <= i < es.len() ==> !(#[trigger] es[i].element is MoveCursor) && element_width(
                es[i].element,
                char_width,
            ) >= 0,
    ensures
        forall|i: int| 0 <= i < es.len() ==> #[trigger] es[i].x <= end,
        start <= end,
    decreases es.len(),
{
    if es.len() > 0 {
        let prev = es.drop_last();
        lemma_chain_drop_last(es, start, end, char_width);
        assert(es[es.len() - 1] == es.last());
        assert forall|i: int| 0 <= i < prev.len() implies !(#[trigger] prev[i].element is MoveCursor)
            && element_width(prev[i].element, char_width) >= 0 by {
            assert(prev[i] == es[i]);
        }
        lemma_no_moves_within(prev, start, es.last().x as int, char_width);
        assert forall|i: int| 0 <= i < es.len() implies #[trigger] es[i].x <= end by {
            if i < prev.len() {
                assert(prev[i] == es[i]);
            }
        }
    }
}

/// Justification is exact: a measured line without cursor movements, with `count > 0` spaces
/// between words taking `space_width` pixels, `trailing` pixels of spaces after its last word,
/// and content `end - trailing - space_width` no wider than the line, stretched by the
/// justified configuration of its slack, ends exactly at the right edge; its spaces between words
/// take exactly the slack, every element starts within the line, and no space is drawn after the
/// last word.
pub proof fn lemma_justified_line_fills(
    es: Seq<PlacedElement>,
    config: JustifiedSpaceConfig,
    line_width: int,
    char_width: int,
    end: int,
)
    requires
        placed_chain(es, 0, end, char_width),
        forall|i: int|
            0 <= i < es.len() ==> !(#[trigger] es[i].element is MoveCursor) && element_width(
                es[i].element,
                char_width,
            ) >= 0,
        0 < space_stats(es).1 <= u32::MAX,
        0 <= end - space_stats(es).2 - space_stats(es).0 <= line_width <= u32::MAX,
        ({
            let slack = line_width - (end - space_stats(es).2 - space_stats(es).0);
            config == (JustifiedSpaceConfig {
                space_width: (slack / space_stats(es).1) as u32,
                space_count: (slack % space_stats(es).1) as u32,
            })
        }),
    ensures
        ({
            let r = stretched(es, last_content(es), config, line_width, char_width);
            &&& r.1 == line_width
            &&& r.0.len() == es.len()
            &&& placed_chain(r.0, 0, line_width, char_width)
            &&& forall|i: int| 0 <= i < r.0.len() ==> #[trigger] r.0[i].x <= line_width
            &&& space_stats(r.0).0 == line_width - (end - space_stats(es).2 - space_stats(es).0)
            &&& space_stats(r.0).1 == space_stats(es).1
            &&& space_stats(r.0).2 == 0
        }),
{
    let st = space_stats(es);
    lemma_last_content_counts(es);
    lemma_last_content_bound(es);
    let slack = line_width - (end - st.2 - st.0);
    lemma_justified_spaces_fill_slack(slack as u32, st.1 as u32);
    assert(config.peek_spec(st.1) == slack);
    lemma_stretched(es, last_content(es), config, line_width, char_width, end);
}

/// Spaces are counted between words only once a printed element or tab follows them.
pub proof fn lemma_last_content_counts(p: Seq<PlacedElement>)
    ensures
        last_content(p) == -1 ==> space_stats(p).1 == 0,
    decreases p.len(),
{
    if p.len() > 0 {
        lemma_last_content_counts(p.drop_last());
    }
}

/// Moving a line right keeps its elements one after another.
pub proof fn lemma_shifted_chain(
    es: Seq<PlacedElement>,
    left: int,
    end: int,
    bound: int,
    char_width: int,
)
    requires
        placed_chain(es, 0, end, char_width),
        forall|i: int| 0 <= i < es.len() ==> #[trigger] es[i].x <= bound,
        0 <= left,
        left + bound <= u32::MAX,
    ensures
        placed_chain(shifted(es, left), left, left + end, char_width),
        shifted(es, left).len() == es.len(),
        forall|i: int|
            0 <= i < es.len() ==> #[trigger] shifted(es, left)[i].x == es[i].x + left
                && shifted(es, left)[i].element == es[i].element,
{
    let sh = shifted(es, left);
    assert forall|i: int| 0 <= i < es.len() implies #[trigger] sh[i].x == es[i].x + left
        && sh[i].element == es[i].element by {
        assert(es[i].x <= bound);
    }
    if es.len() > 0 {
        assert(sh.last() == sh[es.len() - 1]);
        assert(es.last() == es[es.len() - 1]);
    }
    assert forall|i: int| 0 <= i < sh.len() - 1 implies #[trigger] sh[i].x + element_width(
        sh[i].element,
        char_width,
    ) == sh[i + 1].x by {
        assert(es[i].x + element_width(es[i].element, char_width) == es[i + 1].x);
        assert(sh[i + 1].x == es[i + 1].x + left);
    }
}

/// Stretching changes the widths of spaces only.
pub proof fn lemma_stretched_elements(
    es: Seq<PlacedElement>,
    last: int,
    config: JustifiedSpaceConfig,
    line_width: int,
    char_width: int,
)
    ensures
        ({
            let r = stretched(es, last, config, line_width, char_width);
            &&& r.0.len() == es.len()
            &&& forall|i: int|
                0 <= i < es.len() ==> #[trigger] r.0[i].element == es[i].element || (
                r.0[i].element is Space && es[i].element is Space)
        }),
    decreases es.len(),
{
    if es.len() > 0 {
        let prev = es.drop_last();
        lemma_stretched_elements(prev, last, config, line_width, char_width);
        let rp = stretched(prev, last, config, line_width, char_width);
        let r = stretched(es, last, config, line_width, char_width);
        assert forall|i: int| 0 <= i < es.len() implies #[trigger] r.0[i].element == es[i].element
            || (r.0[i].element is Space && es[i].element is Space) by {
            if i < prev.len() {
                assert(r.0[i] == rp.0[i]);
                assert(prev[i] == es[i]);
            } else {
                assert(es[i] == es.last());
            }
        }
    }
}

/// The index of the last printed element or tab, if any.
pub fn last_content_index(es: &Vec<PlacedElement>) -> (r: Option<usize>)
    ensures
        match r {
            Some(i) => i as int == last_content(es@),
            None => last_content(es@) == -1,
        },
{
    let mut k = es.len();
    assert(es@.subrange(0, es@.len() as int) == es@);
    while k > 0
        invariant
            k <= es@.len(),
            last_content(es@) == last_content(es@.subrange(0, k as int)),
        decreases k,
    {
        let content = match es[k - 1].element {
            RenderElement::Space(_, n) => n == 0,
            RenderElement::PrintedCharacters(_, _) => true,
            RenderElement::PrintedGlyph(_) => true,
            _ => false,
        };
        let ghost sub = es@.subrange(0, k as int);
        assert(sub.last() == es@[k - 1]);
        assert(sub.drop_last() == es@.subrange(0, k - 1));
        if content {
            return Some(k - 1);
        }
        k = k - 1;
    }
    assert(es@.subrange(0, 0) == Seq::<PlacedElement>::empty());
    assert(es@.subrange(0, es@.len() as int) == es@);
    None
}

/// Stretches a measured line (no cursor movements) from the left edge.
pub fn stretch_line(
    es: &Vec<PlacedElement>,
    last: Option<usize>,
    config: JustifiedSpaceConfig,
    line_width: u32,
    char_width: u32,
) -> (r: (Vec<PlacedElement>, u32))
    requires
        forall|i: int|
            0 <= i < es@.len() ==> !(#[trigger] es@[i].element is MoveCursor) && element_width(
                es@[i].element,
                char_width as int,
            ) >= 0,
    ensures
        ({
            let l = match last {
                Some(i) => i as int,
                None => -1,
            };
            let s = stretched(es@, l, config, line_width as int, char_width as int);
            r.0@ == s.0 && r.1 as int == s.1
        }),
{
    let ghost l = match last {
        Some(i) => i as int,
        None => -1int,
    };
    let mut out: Vec<PlacedElement> = Vec::new();
    let mut x: u32 = 0;
    let mut cfg = config;
    let mut i: usize = 0;
    while i < es.len()
        invariant
            i <= es@.len(),
            x <= line_width,
            l == match last {
                Some(k) => k as int,
                None => -1int,
            },
            forall|j: int|
                0 <= j < es@.len() ==> !(#[trigger] es@[j].element is MoveCursor) && element_width(
                    es@[j].element,
                    char_width as int,
                ) >= 0,
            ({
                let s = stretched(es@.subrange(0, i as int), l, config, line_width as int, char_width as int);
                out@ == s.0 && x as int == s.1 && cfg == s.2
            }),
        decreases es@.len() - i,
    {
        let ghost sub = es@.subrange(0, (i + 1) as int);
        assert(sub.drop_last() == es@.subrange(0, i as int));
        assert(sub.last() == es@[i as int]);
        assert(!(es@[i as int].element is MoveCursor) && element_width(es@[i as int].element, char_width as int) >= 0);
        let room = (line_width - x) as u64;
        let e = es[i].element;
        let before_last = match last {
            Some(k) => i < k,
            None => false,
        };
        let (drawn, width): (RenderElement, u64) = match e {
            RenderElement::Space(w, n) => {
                if n > 0 {
                    if before_last {
                        let w2 = cfg.peek_next_width(n);
                        let wc = if w2 <= room {
                            w2
                        } else {
                            room
                        };
                        cfg.consume(n);
                        (RenderElement::Space(wc as u32, n), wc)
                    } else {
                        (RenderElement::Space(0, n), 0)
                    }
                } else {
                    (e, if (w as u64) <= room {
                        w as u64
                    } else {
                        room
                    })
                }
            },
            RenderElement::PrintedCharacters(a, b) => {
                let w: u128 = if b >= a {
                    let d: u128 = (b - a) as u128;
                    let c: u128 = char_width as u128;
                    proof {
                        assert(d * c <= 0xffff_ffff_ffff_ffff * 0xffff_ffffu128) by (nonlinear_arith)
                            requires
                                d <= 0xffff_ffff_ffff_ffff,
                                c <= 0xffff_ffff,
                        ;
                    }
                    d * c
                } else {
                    0
                };
                proof {
                    if b < a {
                        let v = (b - a) * (char_width as int);
                        assert(v == 0) by (nonlinear_arith)
                            requires
                                b < a,
                                char_width >= 0,
                                v == (b - a) * (char_width as int),
                                v >= 0,
                        ;
                    }
                }
                (e, if w <= room as u128 {
                    w as u64
                } else {
                    room
                })
            },
            RenderElement::PrintedGlyph(_) => (e, if (char_width as u64) <= room {
                char_width as u64
            } else {
                room
            }),
            _ => (e, 0),
        };
        out.push(PlacedElement { x, element: drawn });
        x = x + width as u32;
        i = i + 1;
    }
    assert(es@.subrange(0, es@.len() as int) == es@);
    (out, x)
}

/// Moves a measured line right by `left`.
pub fn shift_line(es: &Vec<PlacedElement>, left: u32, bound: u32) -> (r: Vec<PlacedElement>)
    requires
        forall|i: int| 0 <= i < es@.len() ==> #[trigger] es@[i].x <= bound,
        left + bound <= u32::MAX,
    ensures
        r@ == shifted(es@, left as int),
{
    let mut out: Vec<PlacedElement> = Vec::new();
    let mut i: usize = 0;
    while i < es.len()
        invariant
            i <= es@.len(),
            forall|j: int| 0 <= j < es@.len() ==> #[trigger] es@[j].x <= bound,
            left + bound <= u32::MAX,
            out@.len() == i,
            forall|j: int|
                0 <= j < i ==> #[trigger] out@[j] == (PlacedElement {
                    x: (es@[j].x + left) as u32,
                    element: es@[j].element,
                }),
        decreases es@.len() - i,
    {
        assert(es@[i as int].x <= bound);
        out.push(PlacedElement { x: es[i].x + left, element: es[i].element });
        i = i + 1;
    }
    assert(out@ == shifted(es@, left as int));
    out
}

} // verus!
