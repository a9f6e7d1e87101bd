//! The drawable layers: axes and sampled function curves.
//!
//! A layer answers, for one cell at a time, which character it draws there,
//! or nothing to let the layers behind it show through. An `Axes` layer
//! marks the lines through its graph-space center. A `GraphFunction` layer
//! holds one cached terminal row per terminal column, rebuilt each frame
//! from the samples the caller evaluated, and draws its marker where the
//! queried cell's row equals the cached row of its column.

use crate::coords::{fits_i64, scale_by_exp, spec_screen_center};
use crate::terminal_graph::TerminalGraph;
use vstd::prelude::*;

verus! {

/// A pair of cell coordinates, in terminal or in graph space.
pub type Coord = (i64, i64);

/// One evaluation of a plotted function at a column: the graph-space y
/// value truncated toward zero, or the off-surface sentinel where the
/// evaluation was not finite (not a number, or infinite).
#[derive(Clone, Copy, PartialEq, Eq, Structural, Debug)]
pub enum GraphSample {
    OffSurface,
    Value(i64),
}

/// A cached terminal row for one column: the row the curve passes through,
/// or off-surface, which matches no cell and so draws nothing.
#[derive(Clone, Copy, PartialEq, Eq, Structural, Debug)]
pub enum RowSample {
    OffSurface,
    Row(i64),
}

/// The character the axes draw at a graph coordinate: the origin marker at
/// the center itself, the vertical glyph on the center's column, the
/// horizontal glyph on the center's row, nothing elsewhere.
pub open spec fn axes_char(center: (int, int), coord: (int, int)) -> Option<char> {
    if coord.0 == center.0 && coord.1 == center.1 {
        Some('+')
    } else if coord.0 == center.0 {
        Some('|')
    } else if coord.1 == center.1 {
        Some('-')
    } else {
        None
    }
}

/// A layer marking the graph origin's horizontal and vertical lines and
/// their intersection, by exact match in graph-space coordinates.
pub struct Axes {
    pub center: Coord,
}

impl Axes {
    /// Axes centered on the graph origin.
    pub fn default() -> (a: Axes)
        ensures
            a.center == (0i64, 0i64),
    {
        Axes { center: (0, 0) }
    }

    /// Axes centered on an arbitrary graph coordinate.
    pub fn with_center(center: Coord) -> (a: Axes)
        ensures
            a.center == center,
    {
        Axes { center }
    }

    /// The per-frame precompute step; the axes keep no frame state.
    pub fn pre_draw(&mut self, _size: &(usize, usize), _scale: i8, _offset: &Coord)
        ensures
            *final(self) == *old(self),
    {
    }

    /// Which character the axes draw at a graph coordinate.
    pub fn char_at(&self, coord: Coord, _terminal_coord: Coord) -> (r: Option<char>)
        ensures
            r == axes_char(
                (self.center.0 as int, self.center.1 as int),
                (coord.0 as int, coord.1 as int),
            ),
    {
        match ((self.center.0 == coord.0), (self.center.1 == coord.1)) {
            (false, false) => None,
            (true, false) => Some('|'),
            (false, true) => Some('-'),
            (true, true) => Some('+'),
        }
    }
}

/// Axis symmetry of the default axes: the origin marker stands exactly at
/// graph (0,0), the vertical glyph along the whole graph column x = 0, the
/// horizontal glyph along the whole graph row y = 0, and nothing anywhere
/// else.
pub proof fn lemma_axes_symmetry(g: (int, int))
    ensures
        g == (0int, 0int) ==> axes_char((0, 0), g) == Some('+'),
        g.0 == 0 && g.1 != 0 ==> axes_char((0, 0), g) == Some('|'),
        g.0 != 0 && g.1 == 0 ==> axes_char((0, 0), g) == Some('-'),
        g.0 != 0 && g.1 != 0 ==> axes_char((0, 0), g) is None,
{
}

/// The cached row a sample turns into: scale the negated graph y (terminal
/// +y points down) back to terminal rows and displace it by the center's
/// row. A sentinel sample, or a row beyond what an `i64` holds — which lies
/// far off any surface — caches as off-surface and draws nothing.
pub open spec fn row_of_sample(s: GraphSample, cy: int, n: int) -> RowSample {
    match s {
        GraphSample::OffSurface => RowSample::OffSurface,
        GraphSample::Value(y) => {
            let sy = scale_by_exp(-(y as int), n);
            if fits_i64(sy) && fits_i64(sy + cy) {
                RowSample::Row((sy + cy) as i64)
            } else {
                RowSample::OffSurface
            }
        },
    }
}

/// The view of a function layer's cache: the cached rows, or nothing
/// before the first frame.
pub open spec fn cache_view(values: Option<Vec<RowSample>>) -> Option<Seq<RowSample>> {
    match values {
        Option::None => Option::None,
        Option::Some(v) => Option::Some(v@),
    }
}

/// A function layer's cache holds exactly one row per sampled column, each
/// the image of its column's sample under `row_of_sample`.
pub open spec fn prepared(g: GraphFunction, samples: Seq<GraphSample>, cy: int, n: int) -> bool {
    match cache_view(g.values) {
        Option::Some(rows) => rows.len() == samples.len() && (forall|j: int|
            0 <= j < samples.len() ==> rows[j] == row_of_sample(samples[j], cy, n)),
        Option::None => false,
    }
}

/// The character a function layer draws at a terminal coordinate: its
/// marker where the cached row of the cell's column is the cell's row,
/// nothing elsewhere, and nothing at columns outside the cached range.
pub open spec fn function_char(
    line_char: char,
    cache: Option<Seq<RowSample>>,
    t: (int, int),
) -> Option<char> {
    match cache {
        Option::None => Option::None,
        Option::Some(rows) => {
            if 0 <= t.0 < rows.len() {
                match rows[t.0] {
                    RowSample::Row(y) => if y == t.1 {
                        Some(line_char)
                    } else {
                        None
                    },
                    RowSample::OffSurface => None,
                }
            } else {
                None
            }
        },
    }
}

/// A layer that samples a real function once per terminal column and draws
/// a marker character at the resulting row.
pub struct GraphFunction {
    pub line_char: char,
    pub values: Option<Vec<RowSample>>,
}

impl GraphFunction {
    /// A fresh function layer with the default marker and no frame cache
    /// yet; the caller evaluates its function and hands the samples to
    /// `pre_draw`.
    pub fn new() -> (g: GraphFunction)
        ensures
            g.line_char == '#',
            g.values is None,
    {
        GraphFunction { line_char: '#', values: None }
    }

    /// Choose the marker character the layer draws with.
    pub fn set_char(&mut self, c: char)
        ensures
            final(self).line_char == c,
            final(self).values == old(self).values,
    {
        self.line_char = c
    }

    /// Rebuild the per-frame cache: for each column, turn that column's
    /// sample into the terminal row the curve passes through there.
    pub fn pre_draw(
        &mut self,
        size: &(usize, usize),
        scale: i8,
        offset: &Coord,
        samples: &Vec<GraphSample>,
    )
        requires
            size.0 as int <= i64::MAX,
            size.1 as int <= i64::MAX,
            fits_i64((size.0 as int) / 2 + offset.0),
            fits_i64((size.1 as int) / 2 - offset.1),
        ensures
            final(self).line_char == old(self).line_char,
            prepared(
                *final(self),
                samples@,
                spec_screen_center(*size, (offset.0 as int, offset.1 as int)).1,
                scale as int,
            ),
    {
        let center = TerminalGraph::get_screen_center(size, offset);
        let cy = center.1;
        let mut rows: Vec<RowSample> = Vec::new();
        let mut i: usize = 0;
        while i < samples.len()
            invariant
                i <= samples@.len(),
                rows@.len() == i,
                cy as int == spec_screen_center(*size, (offset.0 as int, offset.1 as int)).1,
                forall|j: int|
                    0 <= j < i ==> rows@[j] == row_of_sample(samples@[j], cy as int, scale as int),
            decreases samples@.len() - i,
        {
            let r = match samples[i] {
                GraphSample::OffSurface => RowSample::OffSurface,
                GraphSample::Value(y) => {
                    match crate::coords::scale_neg_i64_checked(y, scale as i32) {
                        Option::None => RowSample::OffSurface,
                        Option::Some(sy) => {
                            let row: i128 = sy as i128 + cy as i128;
                            if i64::MIN as i128 <= row && row <= i64::MAX as i128 {
                                RowSample::Row(row as i64)
                            } else {
                                RowSample::OffSurface
                            }
                        },
                    }
                },
            };
            rows.push(r);
            i = i + 1;
        }
        self.values = Some(rows);
    }

    /// Which character the layer draws at a terminal coordinate.
    pub fn char_at(&self, _coord: Coord, terminal_coord: Coord) -> (r: Option<char>)
        ensures
            r == function_char(
                self.line_char,
                cache_view(self.values),
                (terminal_coord.0 as int, terminal_coord.1 as int),
            ),
    {
        match &self.values {
            Option::None => Option::None,
            Option::Some(rows) => {
                let xi = terminal_coord.0;
                if xi >= 0 && (xi as u64) < (rows.len() as u64) {
                    match rows[xi as usize] {
                        RowSample::Row(y) => if y == terminal_coord.1 {
                            Some(self.line_char)
                        } else {
                            None
                        },
                        RowSample::OffSurface => None,
                    }
                } else {
                    None
                }
            },
        }
    }
}

/// Sentinel handling: a column whose sample is the off-surface sentinel
/// draws no character at any row of that column.
pub proof fn lemma_sentinel_blank(
    g: GraphFunction,
    samples: Seq<GraphSample>,
    cy: int,
    n: int,
    x: int,
    y: int,
)
    requires
        prepared(g, samples, cy, n),
        0 <= x < samples.len(),
        samples[x] == GraphSample::OffSurface,
    ensures
        function_char(g.line_char, cache_view(g.values), (x, y)) is None,
{
}

/// One drawable layer of the graph: the closed set of widget shapes the
/// compositor composes, queried front to back.
pub enum Layer {
    Axes(Axes),
    Function(GraphFunction),
}

/// The character a layer draws at a cell, given both coordinate forms of
/// the cell (graph space for the axes, terminal space for a curve).
pub open spec fn layer_char(l: Layer, g: (int, int), t: (int, int)) -> Option<char> {
    match l {
        Layer::Axes(a) => axes_char((a.center.0 as int, a.center.1 as int), g),
        Layer::Function(f) => function_char(f.line_char, cache_view(f.values), t),
    }
}

} // verus!
