//! The compositor: an ordered widget list plus the current viewport.
//!
//! A frame is drawn in two passes. The prepare pass lets every layer
//! rebuild its per-frame cache from the samples the caller evaluated. The
//! scan pass walks every terminal cell, maps it to graph space, queries the
//! layers front to back and takes the first character offered, blank where
//! none is; each row is closed with a newline. The assembled buffer is a
//! pure function of the widget list, the viewport and the surface size.

use crate::coords::{
    fits_i64, scale_by_exp, scale_i64_checked, scale_neg_i64_checked, spec_screen_center,
    spec_to_graph, spec_to_terminal,
};
use crate::widgets::{layer_char, prepared, Axes, Coord, GraphFunction, GraphSample, Layer};
use vstd::arithmetic::power2::lemma2_to64;
use vstd::prelude::*;

verus! {

/// How many layers of the list are function layers; each consumes one
/// sample column set per frame.
pub open spec fn fn_count(ws: Seq<Layer>) -> nat
    decreases ws.len(),
{
    if ws.len() == 0 {
        0
    } else {
        fn_count(ws.drop_last()) + (if ws.last() is Function {
            1nat
        } else {
            0nat
        })
    }
}

proof fn lemma_fn_count_step(ws: Seq<Layer>, i: int)
    requires
        0 <= i < ws.len(),
    ensures
        fn_count(ws.take(i + 1)) == fn_count(ws.take(i)) + (if ws[i] is Function {
            1nat
        } else {
            0nat
        }),
{
    assert(ws.take(i + 1).drop_last() =~= ws.take(i));
    assert(ws.take(i + 1).last() == ws[i]);
}

proof fn lemma_fn_count_prefix(ws: Seq<Layer>, i: int)
    requires
        0 <= i <= ws.len(),
    ensures
        fn_count(ws.take(i)) <= fn_count(ws),
        i < ws.len() && ws[i] is Function ==> fn_count(ws.take(i)) < fn_count(ws),
    decreases ws.len() - i,
{
    if i == ws.len() {
        assert(ws.take(i) =~= ws);
    } else {
        lemma_fn_count_step(ws, i);
        lemma_fn_count_prefix(ws, i + 1);
    }
}

/// The character the frame shows at a cell: the first layer, front to
/// back, that draws there decides; blank when none does.
pub open spec fn first_char(ws: Seq<Layer>, g: (int, int), t: (int, int)) -> Option<char>
    decreases ws.len(),
{
    if ws.len() == 0 {
        None
    } else {
        match layer_char(ws[0], g, t) {
            Some(c) => Some(c),
            None => first_char(ws.skip(1), g, t),
        }
    }
}

proof fn lemma_first_char_skip(ws: Seq<Layer>, g: (int, int), t: (int, int), i: int)
    requires
        0 <= i <= ws.len(),
        forall|k: int| 0 <= k < i ==> #[trigger] layer_char(ws[k], g, t) is None,
    ensures
        first_char(ws, g, t) == first_char(ws.skip(i), g, t),
    decreases i,
{
    if i == 0 {
        assert(ws.skip(0) =~= ws);
    } else {
        assert(layer_char(ws[0], g, t) is None);
        assert forall|k: int| 0 <= k < i - 1 implies #[trigger] layer_char(
            ws.skip(1)[k],
            g,
            t,
        ) is None by {
            assert(ws.skip(1)[k] == ws[k + 1]);
        }
        lemma_first_char_skip(ws.skip(1), g, t, i - 1);
        assert(ws.skip(1).skip(i - 1) =~= ws.skip(i));
    }
}

/// Priority ordering: the first layer, front to back, that draws at a cell
/// decides its character; every layer behind it is shadowed there. In
/// particular, when two function layers' cached rows agree at a column,
/// the cell shows the marker of the one earlier in the widget order.
pub proof fn lemma_priority(ws: Seq<Layer>, g: (int, int), t: (int, int), i: int, c: char)
    requires
        0 <= i < ws.len(),
        layer_char(ws[i], g, t) == Some(c),
        forall|k: int| 0 <= k < i ==> #[trigger] layer_char(ws[k], g, t) is None,
    ensures
        first_char(ws, g, t) == Some(c),
{
    lemma_first_char_skip(ws, g, t, i);
    assert(ws.skip(i)[0] == ws[i]);
}

proof fn lemma_first_char_none(ws: Seq<Layer>, g: (int, int), t: (int, int))
    requires
        forall|k: int| 0 <= k < ws.len() ==> #[trigger] layer_char(ws[k], g, t) is None,
    ensures
        first_char(ws, g, t) is None,
{
    lemma_first_char_skip(ws, g, t, ws.len() as int);
}

/// One layer of the frame after the prepare pass: an axes layer passes
/// through unchanged, a function layer keeps its marker and caches the
/// rows of its sample column set.
pub open spec fn layer_prepared(
    before: Layer,
    after: Layer,
    samples: Seq<GraphSample>,
    cy: int,
    n: int,
) -> bool {
    match before {
        Layer::Axes(_) => after == before,
        Layer::Function(f) => match after {
            Layer::Function(f2) => f2.line_char == f.line_char && prepared(f2, samples, cy, n),
            Layer::Axes(_) => false,
        },
    }
}

/// The whole widget list after the prepare pass: layer for layer, with the
/// function layers consuming the sample column sets in order.
pub open spec fn layers_prepared(
    before: Seq<Layer>,
    after: Seq<Layer>,
    samples: Seq<Seq<GraphSample>>,
    cy: int,
    n: int,
) -> bool {
    &&& after.len() == before.len()
    &&& forall|i: int|
        0 <= i < before.len() ==> #[trigger] layer_prepared(
            before[i],
            after[i],
            samples[fn_count(before.take(i)) as int],
            cy,
            n,
        )
}

/// The character a frame cell shows, by both of its coordinate forms.
pub open spec fn cell_char(ws: Seq<Layer>, c: (int, int), n: int, x: int, y: int) -> char {
    match first_char(ws, spec_to_graph((x, y), c, n), (x, y)) {
        Some(ch) => ch,
        None => ' ',
    }
}

/// The character at a flat buffer index of a frame of width `w`: rows of
/// `w` cells, each closed by a newline.
pub open spec fn frame_char(ws: Seq<Layer>, c: (int, int), n: int, w: int, idx: int) -> char {
    let y = idx / (w + 1);
    let x = idx % (w + 1);
    if x == w {
        '\n'
    } else {
        cell_char(ws, c, n, x, y)
    }
}

/// `buf` is exactly the frame the widget list paints on a `w` by `h`
/// surface with screen center `c` and scale exponent `n`.
pub open spec fn rendered(
    ws: Seq<Layer>,
    c: (int, int),
    n: int,
    w: int,
    h: int,
    buf: Seq<char>,
) -> bool {
    &&& 0 <= w && 0 <= h
    &&& buf.len() == h * (w + 1)
    &&& forall|idx: int| 0 <= idx < buf.len() ==> buf[idx] == frame_char(ws, c, n, w, idx)
}

/// Reading one cell out of a rendered buffer: the flat index of column `x`
/// in row `y` holds that cell's character.
pub proof fn lemma_rendered_cell(
    ws: Seq<Layer>,
    c: (int, int),
    n: int,
    w: int,
    h: int,
    buf: Seq<char>,
    x: int,
    y: int,
)
    requires
        rendered(ws, c, n, w, h, buf),
        0 <= x < w,
        0 <= y < h,
    ensures
        buf[y * (w + 1) + x] == cell_char(ws, c, n, x, y),
{
    let idx = y * (w + 1) + x;
    assert(0 <= y * (w + 1) + x && y * (w + 1) + x < h * (w + 1)) by (nonlinear_arith)
        requires
            0 <= x < w,
            0 <= y < h,
    ;
    vstd::arithmetic::div_mod::lemma_fundamental_div_mod_converse(idx, w + 1, y, x);
}

/// A graph holding only axes paints exactly the axes: each cell shows what
/// the axes answer for the cell's graph coordinate, blank where they
/// answer nothing. With the default center, the origin marker stands on
/// the one cell mapping to graph (0,0), the vertical glyph on the cells of
/// the graph column x = 0 and the horizontal glyph on those of the graph
/// row y = 0.
pub proof fn lemma_axes_only_frame(a: Axes, c: (int, int), n: int, x: int, y: int)
    ensures
        cell_char(seq![Layer::Axes(a)], c, n, x, y) == (match crate::widgets::axes_char(
            (a.center.0 as int, a.center.1 as int),
            spec_to_graph((x, y), c, n),
        ) {
            Some(ch) => ch,
            None => ' ',
        }),
{
    let ws = seq![Layer::Axes(a)];
    assert(ws.len() == 1);
    assert(ws[0] == Layer::Axes(a));
    assert(ws.skip(1).len() == 0);
    assert(first_char(ws.skip(1), spec_to_graph((x, y), c, n), (x, y)) is None);
}

/// Sampling determinism: the frame is a function of the widget list, the
/// viewport and the surface size alone, so two renders of an unchanged
/// graph produce identical buffers.
pub proof fn lemma_render_deterministic(
    ws: Seq<Layer>,
    c: (int, int),
    n: int,
    w: int,
    h: int,
    b1: Seq<char>,
    b2: Seq<char>,
)
    requires
        rendered(ws, c, n, w, h, b1),
        rendered(ws, c, n, w, h, b2),
    ensures
        b1 == b2,
{
    assert(b1 =~= b2);
}

/// The ranges of surface size, offset and scale within which a frame's
/// coordinate arithmetic stays inside `i64`; machine limits force these
/// bounds, and they leave every realistic terminal and viewport in range.
pub open spec fn view_ok(size: (usize, usize), offset: (int, int), scale: int) -> bool {
    &&& size.0 <= 65536 && size.1 <= 65536
    &&& -1000000000 <= offset.0 <= 1000000000
    &&& -1000000000 <= offset.1 <= 1000000000
    &&& -31 <= scale <= 127
}

/// The graph: an ordered list of drawable layers (front first) and the
/// current viewport, an offset from the surface's middle plus a zoom
/// exponent.
pub struct TerminalGraph {
    pub widgets: Vec<Layer>,
    pub screen_offset: Coord,
    pub screen_scale: i8,
}

impl TerminalGraph {
    /// A graph holding nothing but axes through the origin, centered, at
    /// unit scale.
    pub fn default_axes() -> (g: TerminalGraph)
        ensures
            g.widgets@ =~= seq![(Layer::Axes(Axes { center: (0i64, 0i64) }))],
            g.screen_offset == (0i64, 0i64),
            g.screen_scale == 0,
    {
        let mut widgets: Vec<Layer> = Vec::new();
        widgets.push(Layer::Axes(Axes::default()));
        TerminalGraph { widgets, screen_offset: (0, 0), screen_scale: 0 }
    }

    /// Move the viewport; takes effect on the next draw.
    pub fn set_offset(&mut self, offset: Coord)
        ensures
            final(self).screen_offset == offset,
            final(self).screen_scale == old(self).screen_scale,
            final(self).widgets == old(self).widgets,
    {
        self.screen_offset = offset
    }

    /// Set the zoom exponent; each step up halves the graph range a cell
    /// spans. Takes effect on the next draw.
    pub fn set_scale(&mut self, scale: i8)
        ensures
            final(self).screen_scale == scale,
            final(self).screen_offset == old(self).screen_offset,
            final(self).widgets == old(self).widgets,
    {
        self.screen_scale = scale
    }

    /// The screen center in terminal space: the middle of the surface
    /// displaced by the offset (x with, y against terminal +y).
    pub fn get_screen_center(size: &(usize, usize), offset: &Coord) -> (c: Coord)
        requires
            size.0 as int <= i64::MAX,
            size.1 as int <= i64::MAX,
            fits_i64((size.0 as int) / 2 + offset.0 as int),
            fits_i64((size.1 as int) / 2 - offset.1 as int),
        ensures
            (c.0 as int, c.1 as int) == spec_screen_center(
                *size,
                (offset.0 as int, offset.1 as int),
            ),
    {
        (((size.0 / 2) as i64) + offset.0, ((size.1 / 2) as i64) - offset.1)
    }

    /// A terminal cell's graph coordinate, for a screen center (in
    /// terminal space) and the viewport's scale exponent.
    pub fn terminal_space_to_graph_space(terminal_space: &Coord, center: &Coord, scale: i8) -> (g:
        Coord)
        requires
            fits_i64(terminal_space.0 as int - center.0 as int),
            fits_i64(terminal_space.1 as int - center.1 as int),
            fits_i64(scale_by_exp(terminal_space.0 as int - center.0 as int, -(scale as int))),
            -i64::MAX <= scale_by_exp(terminal_space.1 as int - center.1 as int, -(scale as int))
                <= i64::MAX,
        ensures
            (g.0 as int, g.1 as int) == spec_to_graph(
                (terminal_space.0 as int, terminal_space.1 as int),
                (center.0 as int, center.1 as int),
                scale as int,
            ),
    {
        let dx = terminal_space.0 - center.0;
        let dy = terminal_space.1 - center.1;
        let e: i32 = -(scale as i32);
        let gx = scale_i64_checked(dx, e).unwrap();
        let sy = scale_i64_checked(dy, e).unwrap();
        (gx, -sy)
    }

    /// A graph coordinate's terminal cell: the inverse mapping, up to the
    /// truncation `lemma_round_trip` bounds.
    pub fn graph_space_to_terminal_space(graph_space: &Coord, center: &Coord, scale: i8) -> (t:
        Coord)
        requires
            fits_i64(scale_by_exp(graph_space.0 as int, scale as int)),
            fits_i64(scale_by_exp(graph_space.0 as int, scale as int) + center.0 as int),
            fits_i64(scale_by_exp(-(graph_space.1 as int), scale as int)),
            fits_i64(scale_by_exp(-(graph_space.1 as int), scale as int) + center.1 as int),
        ensures
            (t.0 as int, t.1 as int) == spec_to_terminal(
                (graph_space.0 as int, graph_space.1 as int),
                (center.0 as int, center.1 as int),
                scale as int,
            ),
    {
        let e: i32 = scale as i32;
        let sx = scale_i64_checked(graph_space.0, e).unwrap();
        let sy = scale_neg_i64_checked(graph_space.1, e).unwrap();
        (sx + center.0, sy + center.1)
    }

    /// Insert a fresh function layer at the front of the priority order,
    /// with the given marker or the default `#`; the caller evaluates the
    /// function itself and hands `draw` its samples.
    pub fn add_graph(&mut self, line_char: Option<char>)
        ensures
            final(self).screen_offset == old(self).screen_offset,
            final(self).screen_scale == old(self).screen_scale,
            final(self).widgets@ =~= old(self).widgets@.insert(
                0,
                (Layer::Function(GraphFunction {
                    line_char: match line_char {
                        Some(c) => c,
                        None => '#',
                    },
                    values: Option::None,
                })),
            ),
    {
        let mut graph_widg = GraphFunction::new();
        graph_widg.set_char(
            match line_char {
                Some(c) => c,
                None => '#',
            },
        );
        self.widgets.insert(0, Layer::Function(graph_widg));
    }

    /// The first character any layer offers for a cell, front to back.
    #[verifier::loop_isolation(false)]
    pub fn char_at(&self, coord: Coord, terminal_coord: Coord) -> (r: Option<char>)
        ensures
            r == first_char(
                self.widgets@,
                (coord.0 as int, coord.1 as int),
                (terminal_coord.0 as int, terminal_coord.1 as int),
            ),
    {
        let ghost gg = (coord.0 as int, coord.1 as int);
        let ghost tt = (terminal_coord.0 as int, terminal_coord.1 as int);
        let mut i: usize = 0;
        while i < self.widgets.len()
            invariant
                i <= self.widgets@.len(),
                forall|k: int| 0 <= k < i ==> #[trigger] layer_char(self.widgets@[k], gg, tt) is None,
            decreases self.widgets@.len() - i,
        {
            let w = &self.widgets[i];
            let r = match w {
                Layer::Axes(a) => {
                    let rr = a.char_at(coord, terminal_coord);
                    proof {
                        assert(self.widgets@[i as int] == Layer::Axes(*a));
                        assert(rr == layer_char(self.widgets@[i as int], gg, tt));
                    }
                    rr
                },
                Layer::Function(f) => {
                    let rr = f.char_at(coord, terminal_coord);
                    proof {
                        assert(self.widgets@[i as int] == Layer::Function(*f));
                        assert(rr == layer_char(self.widgets@[i as int], gg, tt));
                    }
                    rr
                },
            };
            proof {
                assert(r == layer_char(self.widgets@[i as int], gg, tt));
            }
            if let Some(c) = r {
                proof {
                    lemma_priority(self.widgets@, gg, tt, i as int, c);
                }
                return Some(c);
            }
            i = i + 1;
        }
        proof {
            lemma_first_char_none(self.widgets@, gg, tt);
        }
        None
    }

    /// The graph-space x each terminal column maps to under the current
    /// viewport: the positions a plotted function is to be evaluated at
    /// before the next draw.
    pub fn column_graph_xs(&self, size: (usize, usize)) -> (xs: Vec<i64>)
        requires
            view_ok(
                size,
                (self.screen_offset.0 as int, self.screen_offset.1 as int),
                self.screen_scale as int,
            ),
        ensures
            xs@.len() == size.0,
            forall|i: int|
                0 <= i < size.0 ==> #[trigger] xs@[i] as int == spec_to_graph(
                    (i, 0),
                    spec_screen_center(
                        size,
                        (self.screen_offset.0 as int, self.screen_offset.1 as int),
                    ),
                    self.screen_scale as int,
                ).0,
    {
        let center = TerminalGraph::get_screen_center(&size, &self.screen_offset);
        let mut xs: Vec<i64> = Vec::new();
        let mut i: usize = 0;
        while i < size.0
            invariant
                i <= size.0,
                xs@.len() == i,
                view_ok(
                    size,
                    (self.screen_offset.0 as int, self.screen_offset.1 as int),
                    self.screen_scale as int,
                ),
                (center.0 as int, center.1 as int) == spec_screen_center(
                    size,
                    (self.screen_offset.0 as int, self.screen_offset.1 as int),
                ),
                forall|k: int|
                    0 <= k < i ==> #[trigger] xs@[k] as int == spec_to_graph(
                        (k, 0),
                        spec_screen_center(
                            size,
                            (self.screen_offset.0 as int, self.screen_offset.1 as int),
                        ),
                        self.screen_scale as int,
                    ).0,
            decreases size.0 - i,
        {
            proof {
                lemma2_to64();
                crate::coords::lemma_scale_bound(
                    i as int - center.0 as int,
                    -(self.screen_scale as int),
                    0x80000000,
                    31,
                );
                crate::coords::lemma_scale_bound(
                    0 - center.1 as int,
                    -(self.screen_scale as int),
                    0x80000000,
                    31,
                );
            }
            let g = TerminalGraph::terminal_space_to_graph_space(
                &(i as i64, 0),
                &center,
                self.screen_scale,
            );
            xs.push(g.0);
            i = i + 1;
        }
        xs
    }

    /// Render one frame: rebuild every function layer's cache from its
    /// sample column set (front to back, one set per function layer), then
    /// scan every cell row by row, query the layers in priority order and
    /// assemble the frame buffer, rows closed by newlines. A zero-sized
    /// surface renders as an empty buffer.
    #[verifier::loop_isolation(false)]
    pub fn draw(&mut self, size: (usize, usize), samples: &Vec<Vec<GraphSample>>) -> (buf: Vec<
        char,
    >)
        requires
            view_ok(
                size,
                (old(self).screen_offset.0 as int, old(self).screen_offset.1 as int),
                old(self).screen_scale as int,
            ),
            samples@.len() == fn_count(old(self).widgets@),
            forall|k: int| 0 <= k < samples@.len() ==> (#[trigger] samples@[k])@.len() == size.0,
        ensures
            final(self).screen_offset == old(self).screen_offset,
            final(self).screen_scale == old(self).screen_scale,
            layers_prepared(
                old(self).widgets@,
                final(self).widgets@,
                samples@.map_values(|v: Vec<GraphSample>| v@),
                spec_screen_center(
                    size,
                    (old(self).screen_offset.0 as int, old(self).screen_offset.1 as int),
                ).1,
                old(self).screen_scale as int,
            ),
            rendered(
                final(self).widgets@,
                spec_screen_center(
                    size,
                    (old(self).screen_offset.0 as int, old(self).screen_offset.1 as int),
                ),
                old(self).screen_scale as int,
                size.0 as int,
                size.1 as int,
                buf@,
            ),
    {
        let ghost orig = *self;
        let ghost svs = samples@.map_values(|v: Vec<GraphSample>| v@);
        let ghost cc = spec_screen_center(
            size,
            (self.screen_offset.0 as int, self.screen_offset.1 as int),
        );
        let ghost n = self.screen_scale as int;

        // Prepare pass: every function layer caches the rows of its
        // sample column set; axes pass through unchanged.
        let slen = samples.len();
        let total = self.widgets.len();
        let mut prepared_ws: Vec<Layer> = Vec::new();
        let mut j: usize = 0;
        let mut i: usize = 0;
        while i < total
            invariant
                i <= total,
                self.widgets@ == orig.widgets@.skip(i as int),
                self.screen_offset == orig.screen_offset,
                self.screen_scale == orig.screen_scale,
                prepared_ws@.len() == i as int,
                j == fn_count(orig.widgets@.take(i as int)),
                forall|k: int|
                    0 <= k < i ==> #[trigger] layer_prepared(
                        orig.widgets@[k],
                        prepared_ws@[k],
                        svs[fn_count(orig.widgets@.take(k)) as int],
                        cc.1,
                        n,
                    ),
            decreases total - i,
        {
            proof {
                lemma_fn_count_step(orig.widgets@, i as int);
                lemma_fn_count_prefix(orig.widgets@, i as int);
                assert(orig.widgets@.skip(i as int)[0] == orig.widgets@[i as int]);
                assert(orig.widgets@.skip(i as int).remove(0) =~= orig.widgets@.skip(
                    i as int + 1,
                ));
            }
            let w = self.widgets.remove(0);
            match w {
                Layer::Axes(a) => {
                    prepared_ws.push(Layer::Axes(a));
                },
                Layer::Function(mut f) => {
                    f.pre_draw(&size, self.screen_scale, &self.screen_offset, &samples[j]);
                    proof {
                        assert(svs[j as int] == samples@[j as int]@);
                    }
                    prepared_ws.push(Layer::Function(f));
                    proof {
                        assert(j < slen);
                    }
                    j = j + 1;
                },
            }
            i = i + 1;
        }
        self.widgets = prepared_ws;
        proof {
            assert(orig.widgets@.take(total as int) =~= orig.widgets@);
        }

        // Scan pass: one character per cell, front-most layer first,
        // blank where no layer draws, a newline after each row.
        let ghost pws = self.widgets@;
        let scale = self.screen_scale;
        let center = TerminalGraph::get_screen_center(&size, &self.screen_offset);
        let w = size.0;
        let h = size.1;
        let mut buf: Vec<char> = Vec::new();
        let mut y: usize = 0;
        while y < h
            invariant
                y <= h,
                buf@.len() == y as int * (w as int + 1),
                forall|idx: int|
                    0 <= idx < buf@.len() ==> buf@[idx] == frame_char(pws, cc, n, w as int, idx),
            decreases h - y,
        {
            let mut x: usize = 0;
            while x < w
                invariant
                    x <= w,
                    buf@.len() == y as int * (w as int + 1) + x as int,
                    forall|idx: int|
                        0 <= idx < buf@.len() ==> buf@[idx] == frame_char(
                            pws,
                            cc,
                            n,
                            w as int,
                            idx,
                        ),
                decreases w - x,
            {
                proof {
                    lemma2_to64();
                    crate::coords::lemma_scale_bound(x as int - cc.0, -n, 0x80000000, 31);
                    crate::coords::lemma_scale_bound(y as int - cc.1, -n, 0x80000000, 31);
                }
                let coordinate = Self::terminal_space_to_graph_space(
                    &(x as i64, y as i64),
                    &center,
                    scale,
                );
                let r = self.char_at(coordinate, (x as i64, y as i64));
                let ch = match r {
                    Some(c) => c,
                    None => ' ',
                };
                proof {
                    let idx = y as int * (w as int + 1) + x as int;
                    assert(0 <= y as int * (w as int + 1)) by (nonlinear_arith)
                        requires
                            0 <= y as int,
                            0 <= w as int,
                    ;
                    vstd::arithmetic::div_mod::lemma_fundamental_div_mod_converse(
                        idx,
                        w as int + 1,
                        y as int,
                        x as int,
                    );
                    assert(ch == frame_char(pws, cc, n, w as int, idx));
                }
                buf.push(ch);
                x = x + 1;
            }
            buf.push('\n');
            proof {
                let idx = y as int * (w as int + 1) + w as int;
                vstd::arithmetic::div_mod::lemma_fundamental_div_mod_converse(
                    idx,
                    w as int + 1,
                    y as int,
                    w as int,
                );
                assert((y as int + 1) * (w as int + 1) == y as int * (w as int + 1) + (w as int
                    + 1)) by (nonlinear_arith);
            }
            y = y + 1;
        }
        buf
    }
}

} // verus!
