//! Outlines as lists of quadratic curves.
//!
//! A font gives an outline as moves, lines, quadratic and cubic segments
//! in whole design units. Every segment becomes one quadratic curve. So
//! that the midpoint of a line and the control point that stands for a cubic
//! are exact, a curve's points are counted in quarters of a design unit.

use vstd::prelude::*;

verus! {

/// Parts of a design unit in which the points of a curve are counted.
pub const CURVE_SCALE: i64 = 4;

/// A point of an outline.
#[derive(Clone, Copy, Debug, PartialEq, Eq, Structural)]
pub struct Point {
    pub x: i64,
    pub y: i64,
}

/// One step of an outline as a font gives it, in whole design units.
#[derive(Clone, Copy, Debug, PartialEq, Eq, Structural)]
pub enum OutlineOp {
    /// Start a contour at a point.
    MoveTo(i32, i32),
    /// A straight segment to a point.
    LineTo(i32, i32),
    /// A quadratic segment: control point, end point.
    QuadTo(i32, i32, i32, i32),
    /// A cubic segment: two control points, end point.
    CurveTo(i32, i32, i32, i32, i32, i32),
    /// End the contour.
    Close,
}

/// A quadratic curve, its points in quarters of a design unit.
#[derive(Clone, Copy, Debug, PartialEq, Eq, Structural)]
pub struct GlyphCurve {
    pub start: Point,
    pub control: Point,
    pub end: Point,
}

/// The point `(x, y)` of design units, in quarters.
pub open spec fn spec_quarters(x: int, y: int) -> Point {
    Point { x: (4 * x) as i64, y: (4 * y) as i64 }
}

/// The curve for a straight segment from `from` to `(x, y)`: its control
/// point is the midpoint.
pub open spec fn spec_line(from: (i32, i32), x: i32, y: i32) -> GlyphCurve {
    GlyphCurve {
        start: spec_quarters(from.0 as int, from.1 as int),
        control: Point { x: (2 * from.0 + 2 * x) as i64, y: (2 * from.1 + 2 * y) as i64 },
        end: spec_quarters(x as int, y as int),
    }
}

/// The curve for a quadratic segment from `from` over `(x1, y1)` to
/// `(x, y)`: the segment itself.
pub open spec fn spec_quad(from: (i32, i32), x1: i32, y1: i32, x: i32, y: i32) -> GlyphCurve {
    GlyphCurve {
        start: spec_quarters(from.0 as int, from.1 as int),
        control: spec_quarters(x1 as int, y1 as int),
        end: spec_quarters(x as int, y as int),
    }
}

/// The curve for a cubic segment from `from` over `(x1, y1)` and
/// `(x2, y2)` to `(x, y)`: the quadratic with the same ends whose control
/// point is `-1/4 a + 3/4 b + 3/4 c - 1/4 d`, for the cubic's points `a`,
/// `b`, `c` and `d` in their order.
pub open spec fn spec_cubic(
    from: (i32, i32),
    x1: i32,
    y1: i32,
    x2: i32,
    y2: i32,
    x: i32,
    y: i32,
) -> GlyphCurve {
    GlyphCurve {
        start: spec_quarters(from.0 as int, from.1 as int),
        control: Point {
            x: (-from.0 + 3 * x1 + 3 * x2 - x) as i64,
            y: (-from.1 + 3 * y1 + 3 * y2 - y) as i64,
        },
        end: spec_quarters(x as int, y as int),
    }
}

/// The state of a builder: the curves so far and the current position.
pub struct OutlineState {
    pub curves: Seq<GlyphCurve>,
    pub position: (i32, i32),
}

/// The state after one step.
pub open spec fn spec_step(state: OutlineState, op: OutlineOp) -> OutlineState {
    match op {
        OutlineOp::MoveTo(x, y) => OutlineState { curves: state.curves, position: (x, y) },
        OutlineOp::LineTo(x, y) => OutlineState {
            curves: state.curves.push(spec_line(state.position, x, y)),
            position: (x, y),
        },
        OutlineOp::QuadTo(x1, y1, x, y) => OutlineState {
            curves: state.curves.push(spec_quad(state.position, x1, y1, x, y)),
            position: (x, y),
        },
        OutlineOp::CurveTo(x1, y1, x2, y2, x, y) => OutlineState {
            curves: state.curves.push(spec_cubic(state.position, x1, y1, x2, y2, x, y)),
            position: (x, y),
        },
        OutlineOp::Close => OutlineState { curves: state.curves, position: (0, 0) },
    }
}

/// The state after the steps `ops`, taken from `state` on.
pub open spec fn spec_run(state: OutlineState, ops: Seq<OutlineOp>) -> OutlineState
    decreases ops.len(),
{
    if ops.len() == 0 {
        state
    } else {
        spec_step(spec_run(state, ops.drop_last()), ops.last())
    }
}

/// The curves of the outline `ops`.
pub open spec fn spec_extract(ops: Seq<OutlineOp>) -> Seq<GlyphCurve> {
    spec_run(OutlineState { curves: Seq::empty(), position: (0, 0) }, ops).curves
}

/// Collects the curves of an outline, step by step.
pub struct GlyphBuilder {
    lines: Vec<GlyphCurve>,
    current_pos: (i32, i32),
}

/// The point `(x, y)` of design units, in quarters.
fn quarters(x: i32, y: i32) -> (p: Point)
    ensures
        p == spec_quarters(x as int, y as int),
{
    Point { x: 4 * (x as i64), y: 4 * (y as i64) }
}

impl GlyphBuilder {
    /// The curves so far and the current position.
    pub closed spec fn view(&self) -> OutlineState {
        OutlineState { curves: self.lines@, position: self.current_pos }
    }

    /// A builder without curves, at the origin.
    pub fn new() -> (builder: GlyphBuilder)
        ensures
            builder@ == (OutlineState { curves: Seq::empty(), position: (0, 0) }),
    {
        GlyphBuilder { lines: Vec::new(), current_pos: (0, 0) }
    }

    /// Moves to `(x, y)` without a curve.
    pub fn move_to(&mut self, x: i32, y: i32)
        ensures
            final(self)@ == spec_step(old(self)@, OutlineOp::MoveTo(x, y)),
    {
        self.current_pos = (x, y);
    }

    /// Adds a straight segment to `(x, y)` as a curve through its midpoint.
    pub fn line_to(&mut self, x: i32, y: i32)
        ensures
            final(self)@ == spec_step(old(self)@, OutlineOp::LineTo(x, y)),
    {
        let from = self.current_pos;
        let control = Point {
            x: 2 * (from.0 as i64) + 2 * (x as i64),
            y: 2 * (from.1 as i64) + 2 * (y as i64),
        };
        self.lines.push(
            GlyphCurve { start: quarters(from.0, from.1), control, end: quarters(x, y) },
        );
        self.move_to(x, y);
    }

    /// Adds a quadratic segment over `(x1, y1)` to `(x, y)` as it is.
    pub fn quad_to(&mut self, x1: i32, y1: i32, x: i32, y: i32)
        ensures
            final(self)@ == spec_step(old(self)@, OutlineOp::QuadTo(x1, y1, x, y)),
    {
        let from = self.current_pos;
        self.lines.push(
            GlyphCurve {
                start: quarters(from.0, from.1),
                control: quarters(x1, y1),
                end: quarters(x, y),
            },
        );
        self.move_to(x, y);
    }

    /// Adds a cubic segment over `(x1, y1)` and `(x2, y2)` to `(x, y)` as
    /// the one quadratic curve that stands for it. For a strongly bent cubic
    /// the curve is an approximation only.
    pub fn curve_to(&mut self, x1: i32, y1: i32, x2: i32, y2: i32, x: i32, y: i32)
        ensures
            final(self)@ == spec_step(old(self)@, OutlineOp::CurveTo(x1, y1, x2, y2, x, y)),
    {
        let from = self.current_pos;
        let control = Point {
            x: 3 * (x1 as i64) + 3 * (x2 as i64) - (from.0 as i64) - (x as i64),
            y: 3 * (y1 as i64) + 3 * (y2 as i64) - (from.1 as i64) - (y as i64),
        };
        self.lines.push(
            GlyphCurve { start: quarters(from.0, from.1), control, end: quarters(x, y) },
        );
        self.move_to(x, y);
    }

    /// Ends the contour: the position returns to the origin.
    pub fn close(&mut self)
        ensures
            final(self)@ == spec_step(old(self)@, OutlineOp::Close),
    {
        self.current_pos = (0, 0);
    }

    /// Takes one step of an outline.
    pub fn apply(&mut self, op: OutlineOp)
        ensures
            final(self)@ == spec_step(old(self)@, op),
    {
        match op {
            OutlineOp::MoveTo(x, y) => self.move_to(x, y),
            OutlineOp::LineTo(x, y) => self.line_to(x, y),
            OutlineOp::QuadTo(x1, y1, x, y) => self.quad_to(x1, y1, x, y),
            OutlineOp::CurveTo(x1, y1, x2, y2, x, y) => self.curve_to(x1, y1, x2, y2, x, y),
            OutlineOp::Close => self.close(),
        }
    }

    /// The curves collected, in the order of their segments.
    pub fn finalize(self) -> (curves: Vec<GlyphCurve>)
        ensures
            curves@ == self@.curves,
    {
        self.lines
    }
}

impl Default for GlyphBuilder {
    /// A builder without curves, at the origin.
    fn default() -> (builder: GlyphBuilder)
        ensures
            builder@ == (OutlineState { curves: Seq::empty(), position: (0, 0) }),
    {
        GlyphBuilder::new()
    }
}

/// Turns an outline into its list of curves: one for each line, quadratic
/// and cubic segment, in their order.
pub fn extract_outline(ops: &[OutlineOp]) -> (curves: Vec<GlyphCurve>)
    ensures
        curves@ == spec_extract(ops@),
{
    let mut builder = GlyphBuilder::new();
    let mut index: usize = 0;
    assert(ops@.take(0) =~= Seq::<OutlineOp>::empty());
    while index < ops.len()
        invariant
            0 <= index <= ops@.len(),
            builder@ == spec_run(
                OutlineState { curves: Seq::empty(), position: (0, 0) },
                ops@.take(index as int),
            ),
        decreases ops@.len() - index,
    {
        builder.apply(ops[index]);
        proof {
            let next = ops@.take(index + 1);
            assert(next.drop_last() =~= ops@.take(index as int));
            assert(next.last() == ops@[index as int]);
        }
        index = index + 1;
    }
    assert(ops@.take(index as int) =~= ops@);
    builder.finalize()
}

/// One curve per segment: an outline yields as many curves as it has
/// lines, quadratic and cubic segments.
pub open spec fn spec_segments(ops: Seq<OutlineOp>) -> nat
    decreases ops.len(),
{
    if ops.len() == 0 {
        0
    } else {
        spec_segments(ops.drop_last()) + match ops.last() {
            OutlineOp::LineTo(_, _) => 1nat,
            OutlineOp::QuadTo(_, _, _, _) => 1nat,
            OutlineOp::CurveTo(_, _, _, _, _, _) => 1nat,
            _ => 0nat,
        }
    }
}

/// An outline yields one curve for each of its segments.
pub proof fn lemma_curve_count(ops: Seq<OutlineOp>)
    ensures
        spec_extract(ops).len() == spec_segments(ops),
    decreases ops.len(),
{
    if ops.len() > 0 {
        lemma_curve_count(ops.drop_last());
    }
}

/// The control point of a line's curve is the midpoint of its ends, and
/// the curve starts and ends where the line does.
pub proof fn lemma_line_control_is_midpoint(from: (i32, i32), x: i32, y: i32)
    ensures
        2 * spec_line(from, x, y).control.x == spec_line(from, x, y).start.x + spec_line(
            from,
            x,
            y,
        ).end.x,
        2 * spec_line(from, x, y).control.y == spec_line(from, x, y).start.y + spec_line(
            from,
            x,
            y,
        ).end.y,
        spec_line(from, x, y).start.x == CURVE_SCALE * from.0,
        spec_line(from, x, y).start.y == CURVE_SCALE * from.1,
        spec_line(from, x, y).end.x == CURVE_SCALE * x,
        spec_line(from, x, y).end.y == CURVE_SCALE * y,
{
}

/// A cubic that is a quadratic in disguise comes out as that quadratic:
/// where the cubic from `a` to `d` has the control points `b = a + 2/3 (q -
/// a)` and `c = d + 2/3 (q - d)`, the curve's control point is `q`.
pub proof fn lemma_cubic_of_quadratic(a: int, q: int, d: int, b: int, c: int)
    requires
        3 * b == a + 2 * q,
        3 * c == d + 2 * q,
    ensures
        -a + 3 * b + 3 * c - d == CURVE_SCALE * q,
{
}

} // verus!
