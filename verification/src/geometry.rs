//! Integer geometry for the canvas: points, the world/screen transform,
//! node rectangles, port placement, cubic bezier evaluation and a
//! point-to-segment distance test.
//!
//! All coordinates are integers. World positions and the pan offset are
//! kept within `COORD_LIMIT`; derived screen points (ports, bezier control
//! points, curve samples) then stay within `GEOM_LIMIT`, which keeps every
//! intermediate product of the distance tests inside `i128`.

use vstd::arithmetic::div_mod::{
    lemma_div_is_ordered, lemma_div_multiples_vanish, lemma_hoist_over_denominator,
    lemma_div_pos_is_pos,
};
use vstd::prelude::*;

verus! {

/// Largest magnitude of a stored world coordinate or pan-offset component.
pub const COORD_LIMIT: i64 = 100_000;

/// Largest magnitude of any derived screen-space coordinate (port centers,
/// bezier control points and samples). Derived points of in-range inputs
/// stay well inside this bound.
pub const GEOM_LIMIT: i64 = 500_000;

/// Largest node extent on either axis.
pub const SIZE_LIMIT: i64 = 10_000;

/// Default node extent.
pub const NODE_WIDTH: i64 = 180;
pub const NODE_HEIGHT: i64 = 130;

/// Height of a node's header strip (the drag handle).
pub const HEADER_HEIGHT: i64 = 28;

/// Radius around a port center within which a pointer acquires the port.
pub const PORT_HIT_RADIUS: i64 = 10;

/// How far a port center sits outside the node border.
pub const PORT_OUTSET: i64 = 8;

/// Lower bound on the horizontal span used for curve control points.
pub const MIN_CURVE_SPAN: i64 = 60;

/// Curvature factor 45/100 applied to the horizontal span.
pub const CURVE_FACTOR_NUM: i64 = 45;
pub const CURVE_FACTOR_DEN: i64 = 100;

/// Number of uniform parameter steps when a curve is sampled as a polyline.
pub const BEZIER_SAMPLES: i64 = 24;

/// Largest accepted distance threshold for curve hit-testing.
pub const THRESHOLD_LIMIT: i64 = 10_000;

/// A point or displacement with integer coordinates. Depending on context
/// it lives in world space (stored node positions) or screen space
/// (pointer input, drawing); the two differ by the pan offset.
#[derive(Clone, Copy, Debug, PartialEq, Eq, Structural)]
pub struct Point {
    pub x: i64,
    pub y: i64,
}

/// Which side of a node a port sits on. Links run from an `Output` port
/// to an `Input` port.
#[derive(Clone, Copy, Debug, PartialEq, Eq, Structural)]
pub enum PortKind {
    Input,
    Output,
}

/// The point lies within the stored-coordinate range.
pub open spec fn in_world_range(p: Point) -> bool {
    -COORD_LIMIT <= p.x <= COORD_LIMIT && -COORD_LIMIT <= p.y <= COORD_LIMIT
}

/// The point lies within the derived screen-coordinate range.
pub open spec fn in_geom_range(p: Point) -> bool {
    -GEOM_LIMIT <= p.x <= GEOM_LIMIT && -GEOM_LIMIT <= p.y <= GEOM_LIMIT
}

/// A valid node extent: positive and bounded on both axes.
pub open spec fn valid_size(s: Point) -> bool {
    1 <= s.x <= SIZE_LIMIT && 1 <= s.y <= SIZE_LIMIT
}

/// Clamp an integer into the stored-coordinate range.
pub open spec fn spec_clamp_coord(v: int) -> i64 {
    if v < -COORD_LIMIT {
        (-COORD_LIMIT) as i64
    } else if v > COORD_LIMIT {
        COORD_LIMIT as i64
    } else {
        v as i64
    }
}

/// Componentwise `p + d`, clamped into the stored-coordinate range.
pub open spec fn spec_clamped_add(p: Point, d: Point) -> Point {
    Point { x: spec_clamp_coord(p.x + d.x), y: spec_clamp_coord(p.y + d.y) }
}

/// Move a point by a displacement, clamping each coordinate into the
/// stored range. Used for node drags and canvas pans so that positions
/// never leave the canvas's finite extent.
pub fn clamped_add(p: Point, d: Point) -> (r: Point)
    requires
        in_world_range(p),
        -COORD_LIMIT <= d.x <= COORD_LIMIT,
        -COORD_LIMIT <= d.y <= COORD_LIMIT,
    ensures
        r == spec_clamped_add(p, d),
        in_world_range(r),
{
    let sx: i64 = p.x + d.x;
    let sy: i64 = p.y + d.y;
    let x: i64 = if sx < -COORD_LIMIT {
        -COORD_LIMIT
    } else if sx > COORD_LIMIT {
        COORD_LIMIT
    } else {
        sx
    };
    let y: i64 = if sy < -COORD_LIMIT {
        -COORD_LIMIT
    } else if sy > COORD_LIMIT {
        COORD_LIMIT
    } else {
        sy
    };
    Point { x, y }
}

/// Screen position of a world point under the current pan offset:
/// `screen = world + pan`.
pub fn world_to_screen(p: Point, pan: Point) -> (r: Point)
    requires
        in_world_range(p),
        in_world_range(pan),
    ensures
        r.x == p.x + pan.x,
        r.y == p.y + pan.y,
        in_geom_range(r),
{
    Point { x: p.x + pan.x, y: p.y + pan.y }
}

/// World position of a screen point under the current pan offset:
/// `world = screen - pan`.
pub fn screen_to_world(p: Point, pan: Point) -> (r: Point)
    requires
        in_geom_range(p),
        in_world_range(pan),
    ensures
        r.x == p.x - pan.x,
        r.y == p.y - pan.y,
{
    Point { x: p.x - pan.x, y: p.y - pan.y }
}

/// The screen rectangle of a node at world position `pos` with extent
/// `size` contains screen point `p` (borders inclusive).
pub open spec fn spec_rect_contains(pos: Point, size: Point, pan: Point, p: Point) -> bool {
    pos.x + pan.x <= p.x <= pos.x + pan.x + size.x && pos.y + pan.y <= p.y <= pos.y + pan.y
        + size.y
}

/// The header strip (top `HEADER_HEIGHT` of the node's screen rectangle)
/// contains screen point `p` (borders inclusive).
pub open spec fn spec_header_contains(pos: Point, size: Point, pan: Point, p: Point) -> bool {
    pos.x + pan.x <= p.x <= pos.x + pan.x + size.x && pos.y + pan.y <= p.y <= pos.y + pan.y
        + HEADER_HEIGHT
}

/// Screen position of a node's port: the vertical center of the node's
/// left (`Input`) or right (`Output`) edge, pushed `PORT_OUTSET` outward.
pub open spec fn spec_port_pos(pos: Point, size: Point, pan: Point, kind: PortKind) -> (int, int) {
    match kind {
        PortKind::Input => (pos.x + pan.x - PORT_OUTSET, pos.y + pan.y + size.y / 2),
        PortKind::Output => (pos.x + pan.x + size.x + PORT_OUTSET, pos.y + pan.y + size.y / 2),
    }
}

/// Euclidean distance between `(px, py)` and `(qx, qy)` is at most `r`,
/// stated on squares so that everything stays integral.
pub open spec fn spec_within_dist(px: int, py: int, qx: int, qy: int, r: int) -> bool {
    (px - qx) * (px - qx) + (py - qy) * (py - qy) <= r * r
}

/// Largest magnitude of a port-center coordinate: world position plus pan
/// plus node extent plus the outset.
pub const PORT_LIMIT: i64 = 220_000;

/// The point lies within the port-coordinate range.
pub open spec fn in_port_range(p: Point) -> bool {
    -PORT_LIMIT <= p.x <= PORT_LIMIT && -PORT_LIMIT <= p.y <= PORT_LIMIT
}

pub open spec fn spec_abs(v: int) -> int {
    if v < 0 {
        -v
    } else {
        v
    }
}

/// Horizontal reach of a link's control points: 45/100 of the horizontal
/// span between the endpoints, the span floored at `MIN_CURVE_SPAN` so
/// that even a vertical link keeps the flowchart S-shape.
pub open spec fn spec_curvature(fx: int, tx: int) -> int {
    let span = spec_abs(tx - fx);
    let m = if span < MIN_CURVE_SPAN {
        MIN_CURVE_SPAN as int
    } else {
        span
    };
    (m * CURVE_FACTOR_NUM) / (CURVE_FACTOR_DEN as int)
}

pub fn curvature(fx: i64, tx: i64) -> (r: i64)
    requires
        -PORT_LIMIT <= fx <= PORT_LIMIT,
        -PORT_LIMIT <= tx <= PORT_LIMIT,
    ensures
        r == spec_curvature(fx as int, tx as int),
        (MIN_CURVE_SPAN * CURVE_FACTOR_NUM) as int / (CURVE_FACTOR_DEN as int) <= r <= 2
            * PORT_LIMIT,
{
    let diff: i64 = tx - fx;
    let span: i64 = if diff < 0 {
        -diff
    } else {
        diff
    };
    let m: i64 = if span < MIN_CURVE_SPAN {
        MIN_CURVE_SPAN
    } else {
        span
    };
    let scaled: u64 = (m as u64) * (CURVE_FACTOR_NUM as u64);
    let q: u64 = scaled / (CURVE_FACTOR_DEN as u64);
    proof {
        assert(m * CURVE_FACTOR_NUM <= 2 * PORT_LIMIT * CURVE_FACTOR_DEN) by (nonlinear_arith)
            requires
                MIN_CURVE_SPAN <= m <= 2 * PORT_LIMIT,
        ;
        lemma_div_is_ordered(
            m * CURVE_FACTOR_NUM,
            2 * PORT_LIMIT * CURVE_FACTOR_DEN,
            CURVE_FACTOR_DEN as int,
        );
        lemma_div_multiples_vanish(2 * PORT_LIMIT, CURVE_FACTOR_DEN as int);
        lemma_div_pos_is_pos(m * CURVE_FACTOR_NUM, CURVE_FACTOR_DEN as int);
        lemma_div_is_ordered(
            MIN_CURVE_SPAN * CURVE_FACTOR_NUM,
            m * CURVE_FACTOR_NUM,
            CURVE_FACTOR_DEN as int,
        );
    }
    q as i64
}

/// Control points of the link curve between endpoints `from` and `to`:
/// each control point extends horizontally outward from its endpoint by
/// the curvature, regardless of vertical offset.
pub open spec fn spec_control_points(from: Point, to: Point) -> ((int, int), (int, int)) {
    let c = spec_curvature(from.x as int, to.x as int);
    ((from.x + c, from.y as int), (to.x - c, to.y as int))
}

pub fn control_points(from: Point, to: Point) -> (r: (Point, Point))
    requires
        in_port_range(from),
        in_port_range(to),
    ensures
        (((r.0.x as int, r.0.y as int), (r.1.x as int, r.1.y as int)) == spec_control_points(
            from,
            to,
        )),
        in_geom_range(r.0),
        in_geom_range(r.1),
{
    let c = curvature(from.x, to.x);
    (Point { x: from.x + c, y: from.y }, Point { x: to.x - c, y: to.y })
}

/// Weighted Bernstein numerator of a cubic bezier coordinate at parameter
/// `i / n`: dividing it by `n^3` gives the curve coordinate.
pub open spec fn spec_bezier_num(a: int, b: int, c: int, d: int, i: int, n: int) -> int {
    let u = n - i;
    u * u * u * a + 3 * u * u * i * b + 3 * u * i * i * c + i * i * i * d
}

/// One coordinate of the cubic bezier with control coordinates
/// `a, b, c, d` at parameter `t = i / n`, rounded down to an integer.
pub open spec fn spec_bezier_coord(a: int, b: int, c: int, d: int, i: int, n: int) -> int {
    spec_bezier_num(a, b, c, d, i, n) / (n * n * n)
}

/// The cubic bezier through `p0 .. p3` at parameter `t = i / n`.
pub open spec fn spec_bezier_point(p0: Point, p1: Point, p2: Point, p3: Point, i: int, n: int) -> (
    int,
    int,
) {
    (
        spec_bezier_coord(p0.x as int, p1.x as int, p2.x as int, p3.x as int, i, n),
        spec_bezier_coord(p0.y as int, p1.y as int, p2.y as int, p3.y as int, i, n),
    )
}

/// One bezier coordinate, evaluated exactly (up to the rounding the spec
/// states). The coordinates are shifted into nonnegative range first so
/// that the division is a plain unsigned one.
fn bezier_coord(a: i64, b: i64, c: i64, d: i64, i: i64, n: i64) -> (r: i64)
    requires
        1 <= n <= 1000,
        0 <= i <= n,
        -GEOM_LIMIT <= a <= GEOM_LIMIT,
        -GEOM_LIMIT <= b <= GEOM_LIMIT,
        -GEOM_LIMIT <= c <= GEOM_LIMIT,
        -GEOM_LIMIT <= d <= GEOM_LIMIT,
    ensures
        r == spec_bezier_coord(a as int, b as int, c as int, d as int, i as int, n as int),
        -GEOM_LIMIT <= r <= GEOM_LIMIT,
{
    let u: u64 = (n - i) as u64;
    let iu: u64 = i as u64;
    let nu: u64 = n as u64;
    let sa: u64 = (a + GEOM_LIMIT) as u64;
    let sb: u64 = (b + GEOM_LIMIT) as u64;
    let sc: u64 = (c + GEOM_LIMIT) as u64;
    let sd: u64 = (d + GEOM_LIMIT) as u64;
    proof {
        assert(u * u <= 1000000 && u * u * u <= 1000000000 && u * u * iu <= 1000000000 && u * iu
            <= 1000000 && u * iu * iu <= 1000000000 && iu * iu <= 1000000 && iu * iu * iu
            <= 1000000000 && nu * nu <= 1000000 && nu * nu * nu <= 1000000000) by (nonlinear_arith)
            requires
                0 <= u <= 1000,
                0 <= iu <= 1000,
                0 <= nu <= 1000,
        ;
    }
    let t0: u64 = u * u * u;
    let t1: u64 = u * u * iu;
    let t2: u64 = u * iu * iu;
    let t3: u64 = iu * iu * iu;
    proof {
        assert(t0 * sa <= 1000000000000000000 && 3 * t1 * sb <= 3000000000000000000 && 3 * t2 * sc
            <= 3000000000000000000 && t3 * sd <= 1000000000000000000) by (nonlinear_arith)
            requires
                0 <= t0 <= 1000000000,
                0 <= t1 <= 1000000000,
                0 <= t2 <= 1000000000,
                0 <= t3 <= 1000000000,
                0 <= sa <= 1000000,
                0 <= sb <= 1000000,
                0 <= sc <= 1000000,
                0 <= sd <= 1000000,
        ;
    }
    let num: u64 = t0 * sa + 3 * t1 * sb + 3 * t2 * sc + t3 * sd;
    let n3: u64 = nu * nu * nu;
    proof {
        let ii = i as int;
        let ni = n as int;
        let ui = ni - ii;
        let l = GEOM_LIMIT as int;
        let n3i = ni * ni * ni;
        let spec_num = spec_bezier_num(a as int, b as int, c as int, d as int, ii, ni);
        assert(spec_num == ui * ui * ui * (a as int) + 3 * ui * ui * ii * (b as int) + 3 * ui * ii
            * ii * (c as int) + ii * ii * ii * (d as int));
        // The Bernstein weights sum to n^3.
        assert(t0 + 3 * t1 + 3 * t2 + t3 == n3i) by (nonlinear_arith)
            requires
                t0 == ui * ui * ui,
                t1 == ui * ui * ii,
                t2 == ui * ii * ii,
                t3 == ii * ii * ii,
                ui == ni - ii,
                n3i == ni * ni * ni,
        ;
        // Restate the spec numerator over the weight atoms.
        assert(spec_num == t0 * (a as int) + 3 * t1 * (b as int) + 3 * t2 * (c as int) + t3 * (
        d as int)) by (nonlinear_arith)
            requires
                spec_num == ui * ui * ui * (a as int) + 3 * ui * ui * ii * (b as int) + 3 * ui * ii
                    * ii * (c as int) + ii * ii * ii * (d as int),
                t0 == ui * ui * ui,
                t1 == ui * ui * ii,
                t2 == ui * ii * ii,
                t3 == ii * ii * ii,
        ;
        // The shift by GEOM_LIMIT adds exactly GEOM_LIMIT * n^3 to the
        // Bernstein numerator, since the weights sum to n^3.
        assert(t0 * sa == t0 * (a as int) + t0 * l) by (nonlinear_arith)
            requires
                sa == a + l,
        ;
        assert(3 * t1 * sb == 3 * t1 * (b as int) + 3 * t1 * l) by (nonlinear_arith)
            requires
                sb == b + l,
        ;
        assert(3 * t2 * sc == 3 * t2 * (c as int) + 3 * t2 * l) by (nonlinear_arith)
            requires
                sc == c + l,
        ;
        assert(t3 * sd == t3 * (d as int) + t3 * l) by (nonlinear_arith)
            requires
                sd == d + l,
        ;
        assert(l * n3i == t0 * l + 3 * t1 * l + 3 * t2 * l + t3 * l) by (nonlinear_arith)
            requires
                n3i == t0 + 3 * t1 + 3 * t2 + t3,
        ;
        assert(num as int == spec_num + l * n3i);
        assert(n3 == n3i && 1 <= n3i <= 1000000000) by (nonlinear_arith)
            requires
                n3 == nu * nu * nu,
                nu == ni,
                n3i == ni * ni * ni,
                1 <= ni <= 1000,
        ;
        assert(num as int <= n3i * (2 * l)) by (nonlinear_arith)
            requires
                num as int == t0 * sa + 3 * t1 * sb + 3 * t2 * sc + t3 * sd,
                t0 + 3 * t1 + 3 * t2 + t3 == n3i,
                0 <= t0,
                0 <= t1,
                0 <= t2,
                0 <= t3,
                0 <= sa <= 2 * l,
                0 <= sb <= 2 * l,
                0 <= sc <= 2 * l,
                0 <= sd <= 2 * l,
        ;
    }
    let q: u64 = num / n3;
    proof {
        let ii = i as int;
        let ni = n as int;
        let l = GEOM_LIMIT as int;
        let n3i = ni * ni * ni;
        let spec_num = spec_bezier_num(a as int, b as int, c as int, d as int, ii, ni);
        // Unsigned division on the shifted numerator is the floor division
        // the spec states, shifted back by GEOM_LIMIT.
        lemma_hoist_over_denominator(spec_num, l, n3i as nat);
        assert(q == spec_num / n3i + l);
        assert((n3i * (2 * l)) / n3i == 2 * l) by {
            lemma_div_multiples_vanish(2 * l, n3i);
        }
        lemma_div_is_ordered(num as int, n3i * (2 * l), n3i);
        lemma_div_pos_is_pos(num as int, n3i);
        assert(0 <= q <= 2 * l);
    }
    (q as i64) - GEOM_LIMIT
}

/// The cubic bezier through `p0 .. p3` at parameter `t = i / n`.
pub fn bezier_point(p0: Point, p1: Point, p2: Point, p3: Point, i: i64, n: i64) -> (r: Point)
    requires
        1 <= n <= 1000,
        0 <= i <= n,
        in_geom_range(p0),
        in_geom_range(p1),
        in_geom_range(p2),
        in_geom_range(p3),
    ensures
        (r.x as int, r.y as int) == spec_bezier_point(p0, p1, p2, p3, i as int, n as int),
        in_geom_range(r),
{
    Point {
        x: bezier_coord(p0.x, p1.x, p2.x, p3.x, i, n),
        y: bezier_coord(p0.y, p1.y, p2.y, p3.y, i, n),
    }
}

/// Evaluating the cubic bezier at `t = 0` yields `p0` exactly, and at
/// `t = 1` (that is, `i = n`) yields `p3` exactly, whatever the control
/// points: the rounding in the evaluation divides an exact multiple.
pub proof fn lemma_bezier_endpoints(p0: Point, p1: Point, p2: Point, p3: Point, n: int)
    requires
        1 <= n,
    ensures
        spec_bezier_point(p0, p1, p2, p3, 0, n) == (p0.x as int, p0.y as int),
        spec_bezier_point(p0, p1, p2, p3, n, n) == (p3.x as int, p3.y as int),
{
    let n3 = n * n * n;
    assert(n3 >= 1) by (nonlinear_arith)
        requires
            n >= 1,
            n3 == n * n * n,
    ;
    lemma_bezier_num_ends(p0.x as int, p1.x as int, p2.x as int, p3.x as int, n);
    lemma_bezier_num_ends(p0.y as int, p1.y as int, p2.y as int, p3.y as int, n);
    lemma_div_multiples_vanish(p0.x as int, n3);
    lemma_div_multiples_vanish(p0.y as int, n3);
    lemma_div_multiples_vanish(p3.x as int, n3);
    lemma_div_multiples_vanish(p3.y as int, n3);
}

pub open spec fn spec_clamp_between(v: int, lo: int, hi: int) -> int {
    if v < lo {
        lo
    } else if v > hi {
        hi
    } else {
        v
    }
}

/// The distance from point `p` to the segment `a`-`b` is at most `thr`.
/// The closest point of the segment is `a + (t / len2) * (b - a)` with
/// `t` the scalar projection of `p - a` onto `b - a`, clamped to the
/// segment; the comparison below is that distance squared, multiplied
/// through by `len2 * len2` so that everything stays integral. A
/// zero-length segment falls back to the point-to-point distance.
pub open spec fn spec_seg_within(
    px: int,
    py: int,
    ax: int,
    ay: int,
    bx: int,
    by: int,
    thr: int,
) -> bool {
    let abx = bx - ax;
    let aby = by - ay;
    let apx = px - ax;
    let apy = py - ay;
    let len2 = abx * abx + aby * aby;
    if len2 == 0 {
        apx * apx + apy * apy <= thr * thr
    } else {
        let t = spec_clamp_between(apx * abx + apy * aby, 0, len2);
        let nx = apx * len2 - t * abx;
        let ny = apy * len2 - t * aby;
        nx * nx + ny * ny <= (thr * thr) * (len2 * len2)
    }
}

/// Decide `spec_seg_within`: is `p` within distance `thr` of the segment
/// `a`-`b`?
pub fn seg_within(p: Point, a: Point, b: Point, thr: i64) -> (r: bool)
    requires
        in_geom_range(p),
        in_geom_range(a),
        in_geom_range(b),
        0 <= thr <= THRESHOLD_LIMIT,
    ensures
        r == spec_seg_within(
            p.x as int,
            p.y as int,
            a.x as int,
            a.y as int,
            b.x as int,
            b.y as int,
            thr as int,
        ),
{
    let abx: i128 = (b.x as i128) - (a.x as i128);
    let aby: i128 = (b.y as i128) - (a.y as i128);
    let apx: i128 = (p.x as i128) - (a.x as i128);
    let apy: i128 = (p.y as i128) - (a.y as i128);
    proof {
        assert((thr as i128) * (thr as i128) <= 100000000 && (thr as i128) * (thr as i128) >= 0)
            by (nonlinear_arith)
            requires
                0 <= thr as i128 <= 10000,
        ;
    }
    let thr2: i128 = (thr as i128) * (thr as i128);
    proof {
        assert(abx * abx <= 1000000000000 && abx * abx >= 0 && aby * aby <= 1000000000000 && aby
            * aby >= 0 && apx * apx <= 1000000000000 && apx * apx >= 0 && apy * apy
            <= 1000000000000 && apy * apy >= 0 && apx * abx <= 1000000000000 && apx * abx
            >= -1000000000000 && apy * aby <= 1000000000000 && apy * aby >= -1000000000000)
            by (nonlinear_arith)
            requires
                -1000000 <= abx <= 1000000,
                -1000000 <= aby <= 1000000,
                -1000000 <= apx <= 1000000,
                -1000000 <= apy <= 1000000,
        ;
    }
    let len2: i128 = abx * abx + aby * aby;
    if len2 == 0 {
        apx * apx + apy * apy <= thr2
    } else {
        let dot: i128 = apx * abx + apy * aby;
        let t: i128 = if dot < 0 {
            0
        } else if dot > len2 {
            len2
        } else {
            dot
        };
        proof {
            assert(apx * len2 <= 2000000000000000000 && apx * len2 >= -2000000000000000000 && t
                * abx <= 2000000000000000000 && t * abx >= -2000000000000000000 && apy * len2
                <= 2000000000000000000 && apy * len2 >= -2000000000000000000 && t * aby
                <= 2000000000000000000 && t * aby >= -2000000000000000000) by (nonlinear_arith)
                requires
                    -1000000 <= apx <= 1000000,
                    -1000000 <= apy <= 1000000,
                    -1000000 <= abx <= 1000000,
                    -1000000 <= aby <= 1000000,
                    0 <= len2 <= 2000000000000,
                    0 <= t <= len2,
            ;
        }
        let nx: i128 = apx * len2 - t * abx;
        let ny: i128 = apy * len2 - t * aby;
        proof {
            let big: int = 4000000000000000000;
            assert(nx * nx >= 0 && nx * nx <= big * big && ny * ny >= 0 && ny * ny <= big * big)
                by (nonlinear_arith)
                requires
                    -big <= nx <= big,
                    -big <= ny <= big,
            ;
            assert(len2 * len2 >= 0 && len2 * len2 <= 4000000000000000000000000 && thr2 * (len2
                * len2) >= 0 && thr2 * (len2 * len2) <= 400000000000000000000000000000000)
                by (nonlinear_arith)
                requires
                    0 <= len2 <= 2000000000000,
                    0 <= thr2 <= 100000000,
            ;
        }
        nx * nx + ny * ny <= thr2 * (len2 * len2)
    }
}

/// At parameter 0 the Bernstein numerator is `n^3` times the first
/// control coordinate; at parameter `n` it is `n^3` times the last.
proof fn lemma_bezier_num_ends(a: int, b: int, c: int, d: int, n: int)
    ensures
        spec_bezier_num(a, b, c, d, 0, n) == (n * n * n) * a,
        spec_bezier_num(a, b, c, d, n, n) == (n * n * n) * d,
{
    assert(spec_bezier_num(a, b, c, d, 0, n) == (n - 0) * (n - 0) * (n - 0) * a + 3 * (n - 0) * (n
        - 0) * 0 * b + 3 * (n - 0) * 0 * 0 * c + 0 * 0 * 0 * d);
    assert((n - 0) * (n - 0) * (n - 0) * a + 3 * (n - 0) * (n - 0) * 0 * b + 3 * (n - 0) * 0 * 0
        * c + 0 * 0 * 0 * d == (n * n * n) * a) by (nonlinear_arith);
    assert(spec_bezier_num(a, b, c, d, n, n) == (n - n) * (n - n) * (n - n) * a + 3 * (n - n) * (n
        - n) * n * b + 3 * (n - n) * n * n * c + n * n * n * d);
    assert((n - n) * (n - n) * (n - n) * a + 3 * (n - n) * (n - n) * n * b + 3 * (n - n) * n * n
        * c + n * n * n * d == (n * n * n) * d) by (nonlinear_arith);
}

} // verus!
