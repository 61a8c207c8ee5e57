//! What rounding does to the shape of what is turned.
//!
//! Turning a point rounds twice for each coordinate, and the matrix of a
//! turn lies on the unit circle only but for its own rounding. The lemmas
//! of this file bound what follows from that: for the distance between two
//! points that are carried along one rotation, for a point and for a
//! rectangle that are turned there and back, and for the inverse of a turn.
use crate::fixed::{floor_sqrt, lemma_floor_sqrt_exists, lemma_mul_rounding, magnitude, Fixed};
use crate::fixed::{MIN_RAW, ONE_RAW};
use crate::geometry::{distance_spec, lemma_rotation_matrix_of_negated_angle};
use crate::geometry::{rotation_matrix_spec, Point, Rotation};
use crate::linear_algebra::{Matrix, Vector2D};
use crate::car::lemma_half_value;
use crate::rect::{half_spec, Rect};
use crate::rounding::{lemma_mul_below, lemma_mul_commutes, lemma_mul_error};
use crate::rounding::lemma_mul_negated;
use crate::rounding::lemma_product_of_nearly_equal;
use crate::rounding::{lemma_quotient_by_nearly_one, lemma_square_below};
use crate::trig::{lemma_sin_cos_on_unit_circle, lemma_sin_cos_range};
use vstd::prelude::*;

verus! {

/// The largest raw coordinate, in magnitude, for which the lemmas of this
/// file hold: `2^58`, some 67 000 km.
pub const REACH: i64 = 0x400_0000_0000_0000;

/// Both coordinates of the point are within `REACH`.
pub open spec fn in_reach(p: Point) -> bool {
    &&& -REACH <= p.x@ <= REACH
    &&& -REACH <= p.y@ <= REACH
}

/// The matrix is that of a turn, but for rounding: it has the shape
/// ```text
/// | c  -s |
/// | s   c |
/// ```
/// with `c` and `s` between minus one and one, and `c^2 + s^2` differs from
/// the square of one by at most two raw units of one.
pub open spec fn is_turn(m: Matrix) -> bool {
    &&& m.m22 == m.m11
    &&& m.m12@ == -m.m21@
    &&& -ONE_RAW <= m.m11@ <= ONE_RAW
    &&& -ONE_RAW <= m.m21@ <= ONE_RAW
    &&& -2 * ONE_RAW <= m.m11@ * m.m11@ + m.m21@ * m.m21@ - ONE_RAW * ONE_RAW <= 2 * ONE_RAW
}

/// The square of the distance between two points, in squared raw units,
/// exactly.
pub open spec fn squared_distance(p: Point, q: Point) -> int {
    (p.x@ - q.x@) * (p.x@ - q.x@) + (p.y@ - q.y@) * (p.y@ - q.y@)
}

/// The sum of the magnitudes of the two coordinate differences of two
/// points, in raw units.
pub open spec fn taxicab_distance(p: Point, q: Point) -> int {
    magnitude(p.x@ - q.x@) + magnitude(p.y@ - q.y@)
}

/// The points `p_new` and `q_new` are nearly as far from each other as `p` and
/// `q`: the square of their distance differs by at most the `2^-31`-th part
/// of the square of the distance of `p` and `q`, and eight raw units for
/// each raw unit of the coordinate differences of `p` and `q`.
pub open spec fn nearly_as_far(p: Point, q: Point, p_new: Point, q_new: Point) -> bool {
    ONE_RAW * magnitude(squared_distance(p_new, q_new) - squared_distance(p, q)) <= 2 * squared_distance(
        p,
        q,
    ) + 8 * ONE_RAW * (taxicab_distance(p, q) + 1)
}

/// The matrix of every angle is that of a turn, but for rounding.
pub proof fn lemma_rotation_matrix_is_turn(angle: Fixed)
    ensures
        is_turn(rotation_matrix_spec(angle)),
{
    lemma_sin_cos_range(angle);
    lemma_sin_cos_on_unit_circle(angle);
}

/// How a vector turns: each coordinate of the turned vector, times `2^32`,
/// differs from the exact one by at most `2^32`, that is by at most one raw
/// unit. The turned vector is no longer than the two coordinates together.
pub proof fn lemma_turned_vector(m: Matrix, v: Vector2D, bound: int)
    requires
        is_turn(m),
        0 <= bound <= 8 * REACH,
        -bound <= v.x@ <= bound,
        -bound <= v.y@ <= bound,
    ensures
        ({
            let t = m.mul_vec_spec(v);
            let c = m.m11@;
            let s = m.m21@;
            &&& -ONE_RAW <= ONE_RAW * t.x@ - (c * v.x@ - s * v.y@) <= ONE_RAW
            &&& -ONE_RAW <= ONE_RAW * t.y@ - (s * v.x@ + c * v.y@) <= ONE_RAW
            &&& t.x@ == m.m11.mul_spec(v.x)@ + m.m12.mul_spec(v.y)@
            &&& t.y@ == m.m21.mul_spec(v.x)@ + m.m22.mul_spec(v.y)@
            &&& -2 * bound <= t.x@ <= 2 * bound
            &&& -2 * bound <= t.y@ <= 2 * bound
        }),
{
    lemma_mul_error(m.m11, v.x);
    lemma_mul_error(m.m12, v.y);
    lemma_mul_error(m.m21, v.x);
    lemma_mul_error(m.m22, v.y);
    let c = m.m11@;
    let s = m.m21@;
    assert(m.m12@ * v.y@ == -(s * v.y@)) by (nonlinear_arith)
        requires
            m.m12@ == -s,
    ;
    assert(m.m22@ == c);
}

/// The algebra of a turn with rounding. Let `(ax, ay)` be `(wx, wy)` turned
/// by `(c, s) / k`, each coordinate up to two units: then the squared length
/// of `(ax, ay)` differs from that of `(wx, wy)` by at most its `2 / k`-th
/// part and eight units for each unit of `|wx| + |wy| + 1`.
pub proof fn lemma_square_defect(k: int, c: int, s: int, wx: int, wy: int, ax: int, ay: int)
    requires
        0 < k,
        -k <= c <= k,
        -k <= s <= k,
        -2 * k <= c * c + s * s - k * k <= 2 * k,
        -2 * k <= k * ax - (c * wx - s * wy) <= 2 * k,
        -2 * k <= k * ay - (s * wx + c * wy) <= 2 * k,
    ensures
        k * magnitude(ax * ax + ay * ay - (wx * wx + wy * wy)) <= 2 * (wx * wx + wy * wy) + 8 * k
            * (magnitude(wx) + magnitude(wy) + 1),
{
    let a = c * wx;
    let b = s * wy;
    let e = s * wx;
    let f = c * wy;
    let u = a - b;
    let v = e + f;
    let rx = k * ax - u;
    let ry = k * ay - v;
    let w = wx * wx + wy * wy;
    let n = magnitude(wx) + magnitude(wy);
    let big_a = ax * ax + ay * ay;
    let delta = c * c + s * s - k * k;
    // the exact turn keeps the squared length, times c^2 + s^2
    assert(a * b == e * f) by (nonlinear_arith)
        requires
            a == c * wx,
            b == s * wy,
            e == s * wx,
            f == c * wy,
    ;
    assert(u * u == a * a - 2 * (a * b) + b * b) by (nonlinear_arith)
        requires
            u == a - b,
    ;
    assert(v * v == e * e + 2 * (e * f) + f * f) by (nonlinear_arith)
        requires
            v == e + f,
    ;
    assert(a * a == (c * c) * (wx * wx)) by (nonlinear_arith)
        requires
            a == c * wx,
    ;
    assert(b * b == (s * s) * (wy * wy)) by (nonlinear_arith)
        requires
            b == s * wy,
    ;
    assert(e * e == (s * s) * (wx * wx)) by (nonlinear_arith)
        requires
            e == s * wx,
    ;
    assert(f * f == (c * c) * (wy * wy)) by (nonlinear_arith)
        requires
            f == c * wy,
    ;
    let cc = c * c;
    let ss = s * s;
    let xx = wx * wx;
    let yy = wy * wy;
    assert(cc * xx + ss * yy + ss * xx + cc * yy == (cc + ss) * (xx + yy)) by (nonlinear_arith);
    assert(u * u + v * v == (cc + ss) * w);
    assert((cc + ss) * w == (k * k) * w + delta * w) by (nonlinear_arith)
        requires
            delta == cc + ss - k * k,
    ;
    // the rounded turn
    let kax = k * ax;
    let kay = k * ay;
    assert(kax * kax == u * u + 2 * (u * rx) + rx * rx) by (nonlinear_arith)
        requires
            kax == u + rx,
    ;
    assert(kay * kay == v * v + 2 * (v * ry) + ry * ry) by (nonlinear_arith)
        requires
            kay == v + ry,
    ;
    assert(kax * kax == (k * k) * (ax * ax)) by (nonlinear_arith)
        requires
            kax == k * ax,
    ;
    assert(kay * kay == (k * k) * (ay * ay)) by (nonlinear_arith)
        requires
            kay == k * ay,
    ;
    let kk = k * k;
    assert(kk * (ax * ax) + kk * (ay * ay) == kk * big_a) by (nonlinear_arith)
        requires
            big_a == ax * ax + ay * ay,
    ;
    assert(kk * big_a - kk * w == kk * (big_a - w)) by (nonlinear_arith);
    let d = big_a - w;
    assert(kk * d == delta * w + 2 * (u * rx) + 2 * (v * ry) + rx * rx + ry * ry);
    // bounds
    assert(0 <= xx && 0 <= yy) by (nonlinear_arith)
        requires
            xx == wx * wx,
            yy == wy * wy,
    ;
    let kw = k * w;
    let kkn = kk * n;
    let dw = delta * w;
    let urx = u * rx;
    let vry = v * ry;
    let rxx = rx * rx;
    let ryy = ry * ry;
    assert(-2 * kw <= dw <= 2 * kw) by (nonlinear_arith)
        requires
            -2 * k <= delta <= 2 * k,
            0 <= w,
            kw == k * w,
            dw == delta * w,
    ;
    assert(-(k * magnitude(wx)) <= a <= k * magnitude(wx)) by (nonlinear_arith)
        requires
            a == c * wx,
            -k <= c <= k,
            0 < k,
    ;
    assert(-(k * magnitude(wy)) <= b <= k * magnitude(wy)) by (nonlinear_arith)
        requires
            b == s * wy,
            -k <= s <= k,
            0 < k,
    ;
    assert(-(k * magnitude(wx)) <= e <= k * magnitude(wx)) by (nonlinear_arith)
        requires
            e == s * wx,
            -k <= s <= k,
            0 < k,
    ;
    assert(-(k * magnitude(wy)) <= f <= k * magnitude(wy)) by (nonlinear_arith)
        requires
            f == c * wy,
            -k <= c <= k,
            0 < k,
    ;
    let kn = k * n;
    assert(k * magnitude(wx) + k * magnitude(wy) == kn) by (nonlinear_arith)
        requires
            n == magnitude(wx) + magnitude(wy),
            kn == k * n,
    ;
    assert(-kn <= u <= kn);
    assert(-kn <= v <= kn);
    assert(0 <= kn) by (nonlinear_arith)
        requires
            kn == k * n,
            0 < k,
            0 <= n,
    ;
    assert(-2 * kkn <= urx <= 2 * kkn) by (nonlinear_arith)
        requires
            -kn <= u <= kn,
            -2 * k <= rx <= 2 * k,
            0 < k,
            0 <= kn,
            kn == k * n,
            kkn == (k * k) * n,
            urx == u * rx,
    ;
    assert(-2 * kkn <= vry <= 2 * kkn) by (nonlinear_arith)
        requires
            -kn <= v <= kn,
            -2 * k <= ry <= 2 * k,
            0 < k,
            0 <= kn,
            kn == k * n,
            kkn == (k * k) * n,
            vry == v * ry,
    ;
    assert(0 <= rxx <= 4 * kk) by (nonlinear_arith)
        requires
            -2 * k <= rx <= 2 * k,
            kk == k * k,
            rxx == rx * rx,
    ;
    assert(0 <= ryy <= 4 * kk) by (nonlinear_arith)
        requires
            -2 * k <= ry <= 2 * k,
            kk == k * k,
            ryy == ry * ry,
    ;
    let bound = 2 * w + 8 * k * (n + 1);
    let kbound = k * bound;
    assert(kbound == 2 * kw + 8 * kkn + 8 * kk) by (nonlinear_arith)
        requires
            bound == 2 * w + 8 * k * (n + 1),
            kbound == k * bound,
            kk == k * k,
            kw == k * w,
            kkn == (k * k) * n,
    ;
    let kkd = kk * d;
    assert(kkd == dw + 2 * urx + 2 * vry + rxx + ryy);
    assert(-kbound <= kkd <= kbound);
    assert(kkd == k * (k * d)) by (nonlinear_arith)
        requires
            kkd == (k * k) * d,
    ;
    let kd = k * d;
    assert(-bound <= kd <= bound) by (nonlinear_arith)
        requires
            -kbound <= k * kd <= kbound,
            kbound == k * bound,
            0 < k,
    ;
    assert(k * magnitude(d) == magnitude(kd)) by (nonlinear_arith)
        requires
            kd == k * d,
            0 < k,
            magnitude(d) == d || magnitude(d) == -d,
            magnitude(d) >= 0,
            magnitude(kd) == kd || magnitude(kd) == -kd,
            magnitude(kd) >= 0,
    ;
}

/// Where a point comes to lie when it is turned, in raw units: the pivot
/// plus the turned displacement, nothing saturated.
pub proof fn lemma_rotated_point(p: Point, rotation: Rotation)
    requires
        is_turn(rotation.rotation_matrix),
        in_reach(p),
        in_reach(rotation.origin),
    ensures
        ({
            let v = p.sub_spec(rotation.origin);
            let t = rotation.rotation_matrix.mul_vec_spec(v);
            let r = p.rotate_spec(rotation);
            &&& v.x@ == p.x@ - rotation.origin.x@
            &&& v.y@ == p.y@ - rotation.origin.y@
            &&& r.x@ == rotation.origin.x@ + t.x@
            &&& r.y@ == rotation.origin.y@ + t.y@
            &&& -5 * REACH <= r.x@ <= 5 * REACH
            &&& -5 * REACH <= r.y@ <= 5 * REACH
        }),
{
    let v = p.sub_spec(rotation.origin);
    lemma_turned_vector(rotation.rotation_matrix, v, 2 * REACH);
}

/// Two points that are carried along one rotation nearly keep their
/// distance: its square changes by at most its `2^-31`-th part and eight
/// raw units for each raw unit of the points' coordinate differences.
///
/// For two points 3 m apart this bounds the change of their distance by
/// some 2 nm. The rotation's matrix must be that of a turn but for rounding,
/// as the matrix of every angle is; the points and the pivot must be within
/// `REACH`.
pub proof fn lemma_turn_nearly_keeps_distance(p: Point, q: Point, rotation: Rotation)
    requires
        is_turn(rotation.rotation_matrix),
        in_reach(p),
        in_reach(q),
        in_reach(rotation.origin),
    ensures
        nearly_as_far(p, q, p.rotate_spec(rotation), q.rotate_spec(rotation)),
{
    let m = rotation.rotation_matrix;
    let o = rotation.origin;
    let k = ONE_RAW as int;
    let c = m.m11@;
    let s = m.m21@;
    let vp = p.sub_spec(o);
    let vq = q.sub_spec(o);
    let tp = m.mul_vec_spec(vp);
    let tq = m.mul_vec_spec(vq);
    lemma_rotated_point(p, rotation);
    lemma_rotated_point(q, rotation);
    lemma_turned_vector(m, vp, 2 * REACH);
    lemma_turned_vector(m, vq, 2 * REACH);
    let wx = p.x@ - q.x@;
    let wy = p.y@ - q.y@;
    let ax = p.rotate_spec(rotation).x@ - q.rotate_spec(rotation).x@;
    let ay = p.rotate_spec(rotation).y@ - q.rotate_spec(rotation).y@;
    assert(ax == tp.x@ - tq.x@);
    assert(ay == tp.y@ - tq.y@);
    assert(c * vp.x@ - c * vq.x@ == c * wx) by (nonlinear_arith)
        requires
            wx == vp.x@ - vq.x@,
    ;
    assert(s * vp.y@ - s * vq.y@ == s * wy) by (nonlinear_arith)
        requires
            wy == vp.y@ - vq.y@,
    ;
    assert(s * vp.x@ - s * vq.x@ == s * wx) by (nonlinear_arith)
        requires
            wx == vp.x@ - vq.x@,
    ;
    assert(c * vp.y@ - c * vq.y@ == c * wy) by (nonlinear_arith)
        requires
            wy == vp.y@ - vq.y@,
    ;
    assert(k * ax == k * tp.x@ - k * tq.x@) by (nonlinear_arith)
        requires
            ax == tp.x@ - tq.x@,
    ;
    assert(k * ay == k * tp.y@ - k * tq.y@) by (nonlinear_arith)
        requires
            ay == tp.y@ - tq.y@,
    ;
    lemma_square_defect(k, c, s, wx, wy, ax, ay);
}

/// Two turns, one after the other, are a turn but for rounding: their
/// product has the shape of a turn, and the squares of its first column add
/// up to the square of one but for twenty-one raw units of one, where those
/// of a single turn miss it by at most two.
pub proof fn lemma_product_of_turns(m: Matrix, n: Matrix)
    requires
        is_turn(m),
        is_turn(n),
    ensures
        m.mul_spec(n).m22 == m.mul_spec(n).m11,
        m.mul_spec(n).m12@ == -m.mul_spec(n).m21@,
        -21 * ONE_RAW <= m.mul_spec(n).m11@ * m.mul_spec(n).m11@ + m.mul_spec(n).m21@ * m.mul_spec(
            n,
        ).m21@ - ONE_RAW * ONE_RAW <= 21 * ONE_RAW,
{
    let k = ONE_RAW as int;
    let p = m.mul_spec(n);
    // the shape
    lemma_mul_negated(m.m21, n.m21, m.m12, n.m12);
    lemma_mul_negated(m.m11, n.m21, m.m11.neg_spec(), n.m12);
    lemma_mul_negated(m.m21, n.m11, m.m12, n.m11.neg_spec());
    assert(m.m21.mul_spec(n.m12)@ == m.m12.mul_spec(n.m21)@);
    assert(m.m11.mul_spec(n.m12)@ == -m.m11.mul_spec(n.m21)@);
    assert(m.m12.mul_spec(n.m11)@ == -m.m21.mul_spec(n.m11)@);
    lemma_mul_error(m.m11, n.m11);
    lemma_mul_error(m.m12, n.m21);
    lemma_mul_error(m.m21, n.m11);
    lemma_mul_error(m.m22, n.m21);
    lemma_mul_error(m.m11, n.m12);
    lemma_mul_error(m.m12, n.m22);
    assert(p.m22 == p.m11);
    assert(p.m12@ == -p.m21@);
    // the first column is the first column of `n`, turned by `m`
    let v = Vector2D { x: n.m11, y: n.m21 };
    lemma_turned_vector(m, v, k);
    assert(m.mul_vec_spec(v) == Vector2D { x: p.m11, y: p.m21 });
    let c = m.m11@;
    let s = m.m21@;
    let wx = n.m11@;
    let wy = n.m21@;
    let ax = p.m11@;
    let ay = p.m21@;
    lemma_square_defect(k, c, s, wx, wy, ax, ay);
    let w = wx * wx + wy * wy;
    let a = ax * ax + ay * ay;
    let e = magnitude(a - w);
    assert(k * e <= 2 * (k * k + 2 * k) + 8 * k * (2 * k + 1)) by (nonlinear_arith)
        requires
            k * e <= 2 * w + 8 * k * (magnitude(wx) + magnitude(wy) + 1),
            w <= k * k + 2 * k,
            0 <= magnitude(wx) <= k,
            0 <= magnitude(wy) <= k,
            0 < k,
    ;
    assert(e <= 18 * k + 12) by (nonlinear_arith)
        requires
            k * e <= 2 * (k * k + 2 * k) + 8 * k * (2 * k + 1),
            0 < k,
    ;
}

/// The transposed matrix of a turn is a turn: the turn back.
pub proof fn lemma_transposed_turn(m: Matrix)
    requires
        is_turn(m),
    ensures
        is_turn(m.transpose_spec()),
{
    let s = m.m21@;
    assert((-s) * (-s) == s * s) by (nonlinear_arith);
}

/// The algebra of turning there and back with rounding. Let `(tx, ty)` be
/// `(vx, vy)` turned by `(c, s) / k`, and `bx` the first coordinate of
/// `(tx, ty)` turned by `(c, -s) / k`, each up to one unit: then `bx`
/// differs from `vx` by at most its `2 / k`-th part and three units. With
/// `s` negated and the coordinates exchanged the same holds of the second
/// coordinate.
pub proof fn lemma_there_and_back(k: int, c: int, s: int, vx: int, vy: int, tx: int, ty: int, bx: int)
    requires
        0 < k,
        -k <= c <= k,
        -k <= s <= k,
        -2 * k <= c * c + s * s - k * k <= 2 * k,
        -k <= k * tx - (c * vx - s * vy) <= k,
        -k <= k * ty - (s * vx + c * vy) <= k,
        -k <= k * bx - (c * tx + s * ty) <= k,
    ensures
        k * magnitude(bx - vx) <= 2 * magnitude(vx) + 3 * k,
{
    let r1 = k * tx - (c * vx - s * vy);
    let r2 = k * ty - (s * vx + c * vy);
    let r3 = k * bx - (c * tx + s * ty);
    let delta = c * c + s * s - k * k;
    let kk = k * k;
    let ktx = k * tx;
    let kty = k * ty;
    // k^2 bx = c (k tx) + s (k ty) + k r3
    let kbx = k * bx;
    let ctx = c * tx;
    let sty = s * ty;
    assert(kbx == ctx + sty + r3);
    assert(k * kbx == k * ctx + k * sty + k * r3) by (nonlinear_arith)
        requires
            kbx == ctx + sty + r3,
    ;
    assert(k * ctx == c * ktx) by (nonlinear_arith)
        requires
            ctx == c * tx,
            ktx == k * tx,
    ;
    assert(k * sty == s * kty) by (nonlinear_arith)
        requires
            sty == s * ty,
            kty == k * ty,
    ;
    assert(k * (k * bx) == c * ktx + s * kty + k * r3);
    assert(c * ktx == (c * c) * vx - (c * s) * vy + c * r1) by (nonlinear_arith)
        requires
            ktx == c * vx - s * vy + r1,
    ;
    assert(s * kty == (s * s) * vx + (c * s) * vy + s * r2) by (nonlinear_arith)
        requires
            kty == s * vx + c * vy + r2,
    ;
    assert((c * c) * vx + (s * s) * vx == kk * vx + delta * vx) by (nonlinear_arith)
        requires
            delta == c * c + s * s - k * k,
            kk == k * k,
    ;
    let d = bx - vx;
    assert(k * (k * bx) - kk * vx == kk * d) by (nonlinear_arith)
        requires
            d == bx - vx,
            kk == k * k,
    ;
    let dv = delta * vx;
    let cr = c * r1;
    let sr = s * r2;
    let kr = k * r3;
    let kkd = kk * d;
    assert(kkd == dv + cr + sr + kr);
    let kv = k * magnitude(vx);
    assert(-2 * kv <= dv <= 2 * kv) by (nonlinear_arith)
        requires
            -2 * k <= delta <= 2 * k,
            dv == delta * vx,
            kv == k * magnitude(vx),
            magnitude(vx) == vx || magnitude(vx) == -vx,
            magnitude(vx) >= 0,
            0 < k,
    ;
    assert(-kk <= cr <= kk) by (nonlinear_arith)
        requires
            -k <= c <= k,
            -k <= r1 <= k,
            cr == c * r1,
            kk == k * k,
    ;
    assert(-kk <= sr <= kk) by (nonlinear_arith)
        requires
            -k <= s <= k,
            -k <= r2 <= k,
            sr == s * r2,
            kk == k * k,
    ;
    assert(-kk <= kr <= kk) by (nonlinear_arith)
        requires
            -k <= r3 <= k,
            kr == k * r3,
            kk == k * k,
            0 < k,
    ;
    let bound = 2 * magnitude(vx) + 3 * k;
    let kbound = k * bound;
    assert(kbound == 2 * kv + 3 * kk) by (nonlinear_arith)
        requires
            bound == 2 * magnitude(vx) + 3 * k,
            kbound == k * bound,
            kv == k * magnitude(vx),
            kk == k * k,
    ;
    assert(-kbound <= kkd <= kbound);
    let kd = k * d;
    assert(kkd == k * kd) by (nonlinear_arith)
        requires
            kkd == (k * k) * d,
            kd == k * d,
    ;
    assert(-bound <= kd <= bound) by (nonlinear_arith)
        requires
            -kbound <= k * kd <= kbound,
            kbound == k * bound,
            0 < k,
    ;
    assert(k * magnitude(d) == magnitude(kd)) by (nonlinear_arith)
        requires
            kd == k * d,
            0 < k,
            magnitude(d) == d || magnitude(d) == -d,
            magnitude(d) >= 0,
            magnitude(kd) == kd || magnitude(kd) == -kd,
            magnitude(kd) >= 0,
    ;
}

/// A point that is turned about a pivot and turned back returns to where it
/// was, nearly: each coordinate differs from its old value by at most the
/// `2^-31`-th part of its distance from the pivot and three raw units.
///
/// The turn back is the rotation about the same pivot by the transposed
/// matrix, which is the matrix of the negated angle. The first rotation's
/// matrix must be that of a turn but for rounding, as the matrix of every
/// angle is; the point and the pivot must be within `REACH`.
pub proof fn lemma_turn_there_and_back(p: Point, rotation: Rotation)
    requires
        is_turn(rotation.rotation_matrix),
        in_reach(p),
        in_reach(rotation.origin),
    ensures
        ({
            let back = Rotation {
                rotation_matrix: rotation.rotation_matrix.transpose_spec(),
                origin: rotation.origin,
            };
            let r = p.rotate_spec(rotation).rotate_spec(back);
            &&& ONE_RAW * magnitude(r.x@ - p.x@) <= 2 * magnitude(p.x@ - rotation.origin.x@) + 3
                * ONE_RAW
            &&& ONE_RAW * magnitude(r.y@ - p.y@) <= 2 * magnitude(p.y@ - rotation.origin.y@) + 3
                * ONE_RAW
        }),
{
    let m = rotation.rotation_matrix;
    let o = rotation.origin;
    let mt = m.transpose_spec();
    let back = Rotation { rotation_matrix: mt, origin: o };
    let k = ONE_RAW as int;
    let c = m.m11@;
    let s = m.m21@;
    let v = p.sub_spec(o);
    let t = m.mul_vec_spec(v);
    let p_out = p.rotate_spec(rotation);
    lemma_transposed_turn(m);
    lemma_turned_vector(m, v, 2 * REACH);
    assert(p_out.x@ == o.x@ + t.x@);
    assert(p_out.y@ == o.y@ + t.y@);
    let v_out = p_out.sub_spec(o);
    assert(v_out == t);
    lemma_turned_vector(mt, t, 4 * REACH);
    let b = mt.mul_vec_spec(t);
    let r = p_out.rotate_spec(back);
    assert(r.x@ == o.x@ + b.x@);
    assert(r.y@ == o.y@ + b.y@);
    assert(mt.m11@ == c);
    assert(mt.m21@ == -s);
    assert((-s) * t.y@ == -(s * t.y@)) by (nonlinear_arith);
    assert((-s) * t.x@ == -(s * t.x@)) by (nonlinear_arith);
    lemma_there_and_back(k, c, s, v.x@, v.y@, t.x@, t.y@, b.x@);
    // the second coordinate: the same algebra for the turn the other way
    assert((-s) * (-s) == s * s) by (nonlinear_arith);
    assert((-s) * v.x@ == -(s * v.x@)) by (nonlinear_arith);
    assert((-s) * v.y@ == -(s * v.y@)) by (nonlinear_arith);
    lemma_there_and_back(k, c, -s, v.y@, v.x@, t.y@, t.x@, b.y@);
}

/// `after` has nearly returned to `before`: it differs from it by at most
/// its `2^-31`-th part and three raw units.
pub open spec fn nearly_back(after: int, before: int) -> bool {
    ONE_RAW * magnitude(after - before) <= 2 * magnitude(before) + 3 * ONE_RAW
}

/// A vector that is turned and turned back by the transposed matrix nearly
/// returns, coordinate by coordinate.
pub proof fn lemma_vector_there_and_back(m: Matrix, v: Vector2D)
    requires
        is_turn(m),
        -2 * REACH <= v.x@ <= 2 * REACH,
        -2 * REACH <= v.y@ <= 2 * REACH,
    ensures
        nearly_back(m.transpose_spec().mul_vec_spec(m.mul_vec_spec(v)).x@, v.x@),
        nearly_back(m.transpose_spec().mul_vec_spec(m.mul_vec_spec(v)).y@, v.y@),
{
    let mt = m.transpose_spec();
    let k = ONE_RAW as int;
    let c = m.m11@;
    let s = m.m21@;
    let t = m.mul_vec_spec(v);
    lemma_transposed_turn(m);
    lemma_turned_vector(m, v, 2 * REACH);
    lemma_turned_vector(mt, t, 4 * REACH);
    let b = mt.mul_vec_spec(t);
    assert(mt.m11@ == c);
    assert(mt.m21@ == -s);
    assert((-s) * t.y@ == -(s * t.y@)) by (nonlinear_arith);
    assert((-s) * t.x@ == -(s * t.x@)) by (nonlinear_arith);
    lemma_there_and_back(k, c, s, v.x@, v.y@, t.x@, t.y@, b.x@);
    assert((-s) * (-s) == s * s) by (nonlinear_arith);
    assert((-s) * v.x@ == -(s * v.x@)) by (nonlinear_arith);
    assert((-s) * v.y@ == -(s * v.y@)) by (nonlinear_arith);
    lemma_there_and_back(k, c, -s, v.y@, v.x@, t.y@, t.x@, b.y@);
}

/// A rectangle that is carried along a rotation and back nearly returns:
/// its centre as `lemma_turn_there_and_back` says, and every entry of its
/// orientation to within its `2^-31`-th part and three raw units. Its
/// extents and what it is painted with stay as they are.
///
/// The turn back is the rotation about the same pivot by the transposed
/// matrix, which is the matrix of the negated angle. The centre and the
/// pivot must be within `REACH`, the entries of the orientation within twice
/// `REACH`.
pub proof fn lemma_rect_there_and_back(rect: Rect, rotation: Rotation)
    requires
        is_turn(rotation.rotation_matrix),
        in_reach(rect.origin),
        in_reach(rotation.origin),
        -2 * REACH <= rect.rotation_matrix.m11@ <= 2 * REACH,
        -2 * REACH <= rect.rotation_matrix.m12@ <= 2 * REACH,
        -2 * REACH <= rect.rotation_matrix.m21@ <= 2 * REACH,
        -2 * REACH <= rect.rotation_matrix.m22@ <= 2 * REACH,
    ensures
        ({
            let back = Rotation {
                rotation_matrix: rotation.rotation_matrix.transpose_spec(),
                origin: rotation.origin,
            };
            let r = rect.rotate_spec(rotation).rotate_spec(back);
            &&& nearly_back(r.origin.x@ - rotation.origin.x@, rect.origin.x@ - rotation.origin.x@)
            &&& nearly_back(r.origin.y@ - rotation.origin.y@, rect.origin.y@ - rotation.origin.y@)
            &&& nearly_back(r.rotation_matrix.m11@, rect.rotation_matrix.m11@)
            &&& nearly_back(r.rotation_matrix.m12@, rect.rotation_matrix.m12@)
            &&& nearly_back(r.rotation_matrix.m21@, rect.rotation_matrix.m21@)
            &&& nearly_back(r.rotation_matrix.m22@, rect.rotation_matrix.m22@)
            &&& r.width == rect.width
            &&& r.height == rect.height
            &&& r.source == rect.source
        }),
{
    let m = rotation.rotation_matrix;
    let mt = m.transpose_spec();
    let o = rotation.origin;
    let back = Rotation { rotation_matrix: mt, origin: o };
    let r = rect.rotate_spec(rotation).rotate_spec(back);
    lemma_turn_there_and_back(rect.origin, rotation);
    assert(r.origin == rect.origin.rotate_spec(rotation).rotate_spec(back));
    let before = rect.rotation_matrix;
    let first = Vector2D { x: before.m11, y: before.m21 };
    let second = Vector2D { x: before.m12, y: before.m22 };
    lemma_vector_there_and_back(m, first);
    lemma_vector_there_and_back(m, second);
    let there = m.mul_spec(before);
    assert(m.mul_vec_spec(first) == Vector2D { x: there.m11, y: there.m21 });
    assert(m.mul_vec_spec(second) == Vector2D { x: there.m12, y: there.m22 });
    let again = mt.mul_spec(there);
    assert(r.rotation_matrix == again);
    assert(mt.mul_vec_spec(m.mul_vec_spec(first)) == Vector2D { x: again.m11, y: again.m21 });
    assert(mt.mul_vec_spec(m.mul_vec_spec(second)) == Vector2D { x: again.m12, y: again.m22 });
}

/// Two products with the same second factor differ by little where the
/// first factors do: `2^32` times the difference of the raw products differs
/// from the difference of the first factors times the second by at most
/// `2^32`. Neither product is saturated where the factors' product is at
/// most `2^94` in magnitude.
pub proof fn lemma_products_of_nearly_equal(a: Fixed, b: Fixed, x: Fixed)
    requires
        magnitude(a@) * magnitude(x@) <= 0x4000_0000_0000_0000_0000_0000,
        magnitude(b@) * magnitude(x@) <= 0x4000_0000_0000_0000_0000_0000,
    ensures
        -ONE_RAW <= ONE_RAW * (a.mul_spec(x)@ - b.mul_spec(x)@) - (a@ - b@) * x@ <= ONE_RAW,
{
    lemma_mul_rounding(a, x);
    lemma_mul_rounding(b, x);
    let k = ONE_RAW as int;
    let p = a.mul_spec(x)@;
    let q = b.mul_spec(x)@;
    assert(k * (p - q) == k * p - k * q) by (nonlinear_arith);
    assert((a@ - b@) * x@ == a@ * x@ - b@ * x@) by (nonlinear_arith);
}

/// One coordinate of a corner before and after a round trip. Let the
/// centre's coordinate `o` have moved to `o2`, by at most `eo`, and the two
/// entries `m` and `n` of the orientation to `m2` and `n2`, by at most 7
/// each; let `a` and `b` be the half extents, with their signs. Then the
/// corner's coordinate has moved by at most `eo + 7 (|a| + |b|) / 2^32 + 2`.
pub proof fn lemma_corner_coordinate(
    o: int,
    o2: int,
    eo: int,
    m: Fixed,
    m2: Fixed,
    n: Fixed,
    n2: Fixed,
    a: Fixed,
    b: Fixed,
)
    requires
        magnitude(o2 - o) <= eo,
        magnitude(m2@ - m@) <= 7,
        magnitude(n2@ - n@) <= 7,
        magnitude(m@) <= 2 * ONE_RAW,
        magnitude(n@) <= 2 * ONE_RAW,
        magnitude(a@) <= REACH,
        magnitude(b@) <= REACH,
    ensures
        ONE_RAW * magnitude(
            (o2 + m2.mul_spec(a)@ + n2.mul_spec(b)@) - (o + m.mul_spec(a)@ + n.mul_spec(b)@),
        ) <= ONE_RAW * eo + 7 * (magnitude(a@) + magnitude(b@)) + 2 * ONE_RAW,
{
    let k = ONE_RAW as int;
    assert(magnitude(m@) * magnitude(a@) <= (2 * k + 7) * REACH) by (nonlinear_arith)
        requires
            0 <= magnitude(m@) <= 2 * k + 7,
            0 <= magnitude(a@) <= REACH,
    ;
    assert(magnitude(m2@) * magnitude(a@) <= (2 * k + 7) * REACH) by (nonlinear_arith)
        requires
            0 <= magnitude(m2@) <= 2 * k + 7,
            0 <= magnitude(a@) <= REACH,
    ;
    assert(magnitude(n@) * magnitude(b@) <= (2 * k + 7) * REACH) by (nonlinear_arith)
        requires
            0 <= magnitude(n@) <= 2 * k + 7,
            0 <= magnitude(b@) <= REACH,
    ;
    assert(magnitude(n2@) * magnitude(b@) <= (2 * k + 7) * REACH) by (nonlinear_arith)
        requires
            0 <= magnitude(n2@) <= 2 * k + 7,
            0 <= magnitude(b@) <= REACH,
    ;
    lemma_products_of_nearly_equal(m2, m, a);
    lemma_products_of_nearly_equal(n2, n, b);
    let dm = m2.mul_spec(a)@ - m.mul_spec(a)@;
    let dn = n2.mul_spec(b)@ - n.mul_spec(b)@;
    let ea = (m2@ - m@) * a@;
    let eb = (n2@ - n@) * b@;
    assert(-7 * magnitude(a@) <= ea <= 7 * magnitude(a@)) by (nonlinear_arith)
        requires
            ea == (m2@ - m@) * a@,
            -7 <= m2@ - m@ <= 7,
            magnitude(a@) == a@ || magnitude(a@) == -a@,
            magnitude(a@) >= 0,
    ;
    assert(-7 * magnitude(b@) <= eb <= 7 * magnitude(b@)) by (nonlinear_arith)
        requires
            eb == (n2@ - n@) * b@,
            -7 <= n2@ - n@ <= 7,
            magnitude(b@) == b@ || magnitude(b@) == -b@,
            magnitude(b@) >= 0,
    ;
    let total = (o2 - o) + dm + dn;
    assert(k * total == k * (o2 - o) + k * dm + k * dn) by (nonlinear_arith)
        requires
            total == (o2 - o) + dm + dn,
    ;
    assert(-(k * eo) <= k * (o2 - o) <= k * eo) by (nonlinear_arith)
        requires
            -eo <= o2 - o <= eo,
            0 < k,
    ;
    let bound = k * eo + 7 * (magnitude(a@) + magnitude(b@)) + 2 * k;
    let kt = k * total;
    assert(-bound <= kt <= bound);
    assert(k * magnitude(total) == magnitude(kt)) by (nonlinear_arith)
        requires
            kt == k * total,
            0 < k,
            magnitude(total) == total || magnitude(total) == -total,
            magnitude(total) >= 0,
            magnitude(kt) == kt || magnitude(kt) == -kt,
            magnitude(kt) >= 0,
    ;
}

/// Where a corner of a rectangle lies, in raw units: at the centre plus
/// the orientation times the half extents, nothing saturated. The centre
/// must be within twice `REACH`, the entries of the orientation within two
/// and seven raw units, the extents not negative and at most `REACH`.
pub proof fn lemma_corner(rect: Rect, left: bool, top: bool)
    requires
        -2 * REACH <= rect.origin.x@ <= 2 * REACH,
        -2 * REACH <= rect.origin.y@ <= 2 * REACH,
        magnitude(rect.rotation_matrix.m11@) <= 2 * ONE_RAW + 7,
        magnitude(rect.rotation_matrix.m12@) <= 2 * ONE_RAW + 7,
        magnitude(rect.rotation_matrix.m21@) <= 2 * ONE_RAW + 7,
        magnitude(rect.rotation_matrix.m22@) <= 2 * ONE_RAW + 7,
        0 <= rect.width@ <= REACH,
        0 <= rect.height@ <= REACH,
    ensures
        ({
            let m = rect.rotation_matrix;
            let a = corner_offset(rect.width, left);
            let b = corner_offset(rect.height, !top);
            &&& rect.corner_spec(left, top).x@ == rect.origin.x@ + m.m11.mul_spec(a)@
                + m.m12.mul_spec(b)@
            &&& rect.corner_spec(left, top).y@ == rect.origin.y@ + m.m21.mul_spec(a)@
                + m.m22.mul_spec(b)@
            &&& magnitude(a@) <= REACH
            &&& magnitude(b@) <= REACH
        }),
{
    let m = rect.rotation_matrix;
    let k = ONE_RAW as int;
    let a = corner_offset(rect.width, left);
    let b = corner_offset(rect.height, !top);
    lemma_half_value(rect.width);
    lemma_half_value(rect.height);
    let hw = half_spec(rect.width);
    let hh = half_spec(rect.height);
    assert(0 <= hw@ <= REACH);
    assert(0 <= hh@ <= REACH);
    let x = if left {
        rect.origin.x.sub_spec(hw)
    } else {
        rect.origin.x.add_spec(hw)
    };
    let y = if top {
        rect.origin.y.add_spec(hh)
    } else {
        rect.origin.y.sub_spec(hh)
    };
    let v = (Point { x, y }).sub_spec(rect.origin);
    assert(v.x == a);
    assert(v.y == b);
    lemma_bounded_product(m.m11, a);
    lemma_bounded_product(m.m12, b);
    lemma_bounded_product(m.m21, a);
    lemma_bounded_product(m.m22, b);
}

/// How far a corner lies from the centre along one side of the upright
/// rectangle: half the extent, to the left or downwards where `negative`
/// holds.
pub open spec fn corner_offset(extent: Fixed, negative: bool) -> Fixed {
    if negative {
        half_spec(extent).neg_spec()
    } else {
        half_spec(extent)
    }
}

/// The product of an orientation's entry and a half extent is at most three
/// times `REACH` in magnitude.
pub proof fn lemma_bounded_product(m: Fixed, a: Fixed)
    requires
        magnitude(m@) <= 2 * ONE_RAW + 7,
        magnitude(a@) <= REACH,
    ensures
        magnitude(m.mul_spec(a)@) <= 3 * REACH,
{
    let k = ONE_RAW as int;
    assert(magnitude(m@) * magnitude(a@) <= (2 * k + 7) * REACH) by (nonlinear_arith)
        requires
            0 <= magnitude(m@) <= 2 * k + 7,
            0 <= magnitude(a@) <= REACH,
    ;
    lemma_mul_rounding(m, a);
    lemma_mul_below(m, a);
}

/// A corner of a rectangle that is carried along a rotation and back
/// nearly returns: each coordinate differs from its old value by at most
/// the `2^-31`-th part of the centre's distance from the pivot, seven raw
/// units for each `2^32` raw units of the half extents, and five raw units.
///
/// The turn back is the rotation about the same pivot by the transposed
/// matrix, which is the matrix of the negated angle. The centre and the
/// pivot must be within `REACH`, the entries of the orientation within two,
/// the extents not negative and at most `REACH`.
pub proof fn lemma_corner_there_and_back(rect: Rect, rotation: Rotation, left: bool, top: bool)
    requires
        is_turn(rotation.rotation_matrix),
        in_reach(rect.origin),
        in_reach(rotation.origin),
        magnitude(rect.rotation_matrix.m11@) <= 2 * ONE_RAW,
        magnitude(rect.rotation_matrix.m12@) <= 2 * ONE_RAW,
        magnitude(rect.rotation_matrix.m21@) <= 2 * ONE_RAW,
        magnitude(rect.rotation_matrix.m22@) <= 2 * ONE_RAW,
        0 <= rect.width@ <= REACH,
        0 <= rect.height@ <= REACH,
    ensures
        ({
            let back = Rotation {
                rotation_matrix: rotation.rotation_matrix.transpose_spec(),
                origin: rotation.origin,
            };
            let r = rect.rotate_spec(rotation).rotate_spec(back);
            let half_extents = half_spec(rect.width)@ + half_spec(rect.height)@;
            &&& ONE_RAW * magnitude(
                r.corner_spec(left, top).x@ - rect.corner_spec(left, top).x@,
            ) <= 2 * magnitude(rect.origin.x@ - rotation.origin.x@) + 7 * half_extents + 5
                * ONE_RAW
            &&& ONE_RAW * magnitude(
                r.corner_spec(left, top).y@ - rect.corner_spec(left, top).y@,
            ) <= 2 * magnitude(rect.origin.y@ - rotation.origin.y@) + 7 * half_extents + 5
                * ONE_RAW
        }),
{
    let k = ONE_RAW as int;
    let back = Rotation {
        rotation_matrix: rotation.rotation_matrix.transpose_spec(),
        origin: rotation.origin,
    };
    let r = rect.rotate_spec(rotation).rotate_spec(back);
    let m = rect.rotation_matrix;
    let n = r.rotation_matrix;
    lemma_rect_there_and_back(rect, rotation);
    lemma_half_value(rect.width);
    lemma_half_value(rect.height);
    let a = corner_offset(rect.width, left);
    let b = corner_offset(rect.height, !top);
    let dx = rect.origin.x@ - rotation.origin.x@;
    let dy = rect.origin.y@ - rotation.origin.y@;
    let ex = (2 * magnitude(dx) + 3 * k) / k;
    let ey = (2 * magnitude(dy) + 3 * k) / k;
    let mx = magnitude(r.origin.x@ - rect.origin.x@);
    let my = magnitude(r.origin.y@ - rect.origin.y@);
    assert(mx <= ex && k * ex <= 2 * magnitude(dx) + 3 * k) by (nonlinear_arith)
        requires
            k * mx <= 2 * magnitude(dx) + 3 * k,
            ex == (2 * magnitude(dx) + 3 * k) / k,
            0 <= magnitude(dx),
            k == 0x1_0000_0000,
    ;
    assert(my <= ey && k * ey <= 2 * magnitude(dy) + 3 * k) by (nonlinear_arith)
        requires
            k * my <= 2 * magnitude(dy) + 3 * k,
            ey == (2 * magnitude(dy) + 3 * k) / k,
            0 <= magnitude(dy),
            k == 0x1_0000_0000,
    ;
    lemma_entry_nearly_back(n.m11@, m.m11@);
    lemma_entry_nearly_back(n.m12@, m.m12@);
    lemma_entry_nearly_back(n.m21@, m.m21@);
    lemma_entry_nearly_back(n.m22@, m.m22@);
    lemma_corner(rect, left, top);
    lemma_corner(r, left, top);
    lemma_corner_coordinate(rect.origin.x@, r.origin.x@, ex, m.m11, n.m11, m.m12, n.m12, a, b);
    lemma_corner_coordinate(rect.origin.y@, r.origin.y@, ey, m.m21, n.m21, m.m22, n.m22, a, b);
    assert(magnitude(a@) == half_spec(rect.width)@);
    assert(magnitude(b@) == half_spec(rect.height)@);
}

/// An entry of at most two in magnitude that has nearly returned has
/// returned to within seven raw units.
pub proof fn lemma_entry_nearly_back(after: int, before: int)
    requires
        nearly_back(after, before),
        magnitude(before) <= 2 * ONE_RAW,
    ensures
        magnitude(after - before) <= 7,
{
    let k = ONE_RAW as int;
    let e = magnitude(after - before);
    assert(e <= 7) by (nonlinear_arith)
        requires
            k * e <= 7 * k,
            0 < k,
    ;
}

/// Turning a point by an angle and then by the negated angle about the same
/// pivot returns it to where it was, nearly: see
/// `lemma_turn_there_and_back`. (The smallest value has no negation.)
pub proof fn lemma_turn_by_negated_angle(p: Point, angle: Fixed, origin: Point)
    requires
        angle.raw > MIN_RAW,
        in_reach(p),
        in_reach(origin),
    ensures
        ({
            let r = p.rotate_spec(Rotation::new_spec(angle, origin)).rotate_spec(
                Rotation::new_spec(angle.neg_spec(), origin),
            );
            &&& ONE_RAW * magnitude(r.x@ - p.x@) <= 2 * magnitude(p.x@ - origin.x@) + 3 * ONE_RAW
            &&& ONE_RAW * magnitude(r.y@ - p.y@) <= 2 * magnitude(p.y@ - origin.y@) + 3 * ONE_RAW
        }),
{
    lemma_rotation_matrix_is_turn(angle);
    lemma_rotation_matrix_of_negated_angle(angle);
    lemma_turn_there_and_back(p, Rotation::new_spec(angle, origin));
}

/// Every entry of `m` differs from the entry of `n` in its place by at most
/// `tolerance` raw units.
pub open spec fn close_to(m: Matrix, n: Matrix, tolerance: int) -> bool {
    &&& magnitude(m.m11@ - n.m11@) <= tolerance
    &&& magnitude(m.m12@ - n.m12@) <= tolerance
    &&& magnitude(m.m21@ - n.m21@) <= tolerance
    &&& magnitude(m.m22@ - n.m22@) <= tolerance
}

/// The matrix of a turn can be inverted, and its inverse is the turn back
/// but for rounding. Its determinant lies within three raw units of one, so
/// that it is not zero; every entry of its inverse lies within three raw
/// units of the transposed matrix; and every entry of the product of the
/// matrix and its inverse lies within ten raw units of the identity.
pub proof fn lemma_inverse_of_turn(m: Matrix)
    requires
        is_turn(m),
    ensures
        ONE_RAW - 3 <= m.det_spec()@ <= ONE_RAW + 3,
        close_to(m.inverse_spec(), m.transpose_spec(), 3),
        close_to(m.mul_spec(m.inverse_spec()), Matrix::eye_spec(), 10),
{
    let k = ONE_RAW as int;
    let c = m.m11@;
    let s = m.m21@;
    let det = m.det_spec();
    // the determinant
    lemma_mul_error(m.m11, m.m22);
    lemma_mul_error(m.m12, m.m21);
    let a1 = m.m11.mul_spec(m.m22)@;
    let a2 = m.m12.mul_spec(m.m21)@;
    assert(m.m12@ * m.m21@ == -(s * s)) by (nonlinear_arith)
        requires
            m.m12@ == -s,
            m.m21@ == s,
    ;
    assert(det@ == a1 - a2);
    assert(k * det@ == k * a1 - k * a2) by (nonlinear_arith)
        requires
            det@ == a1 - a2,
    ;
    assert(-3 * k <= k * det@ - k * k <= 3 * k);
    assert(k - 3 <= det@ <= k + 3) by (nonlinear_arith)
        requires
            -3 * k <= k * det@ - k * k <= 3 * k,
            0 < k,
    ;
    // the inverse
    let inv = m.inverse_spec();
    lemma_quotient_by_nearly_one(m.m22, det);
    lemma_quotient_by_nearly_one(m.m12.neg_spec(), det);
    lemma_quotient_by_nearly_one(m.m21.neg_spec(), det);
    lemma_quotient_by_nearly_one(m.m11, det);
    assert(close_to(inv, m.transpose_spec(), 3));
    // the product
    lemma_product_of_nearly_equal(m.m11, inv.m11, c, 3);
    lemma_product_of_nearly_equal(m.m12, inv.m21, -s, 3);
    lemma_product_of_nearly_equal(m.m11, inv.m12, s, 3);
    lemma_product_of_nearly_equal(m.m12, inv.m22, c, 3);
    lemma_product_of_nearly_equal(m.m21, inv.m11, c, 3);
    lemma_product_of_nearly_equal(m.m22, inv.m21, -s, 3);
    lemma_product_of_nearly_equal(m.m21, inv.m12, s, 3);
    lemma_product_of_nearly_equal(m.m22, inv.m22, c, 3);
    let cc = c * c;
    let ss = s * s;
    let cs = c * s;
    assert((-s) * (-s) == ss) by (nonlinear_arith)
        requires
            ss == s * s,
    ;
    assert((-s) * c == -cs) by (nonlinear_arith)
        requires
            cs == c * s,
    ;
    assert(c * (-s) == -cs) by (nonlinear_arith)
        requires
            cs == c * s,
    ;
    assert(s * c == cs) by (nonlinear_arith)
        requires
            cs == c * s,
    ;
    let p = m.mul_spec(inv);
    let p11 = m.m11.mul_spec(inv.m11)@ + m.m12.mul_spec(inv.m21)@;
    let p12 = m.m11.mul_spec(inv.m12)@ + m.m12.mul_spec(inv.m22)@;
    let p21 = m.m21.mul_spec(inv.m11)@ + m.m22.mul_spec(inv.m21)@;
    let p22 = m.m21.mul_spec(inv.m12)@ + m.m22.mul_spec(inv.m22)@;
    assert(p.m11@ == p11);
    assert(p.m12@ == p12);
    assert(p.m21@ == p21);
    assert(p.m22@ == p22);
    assert(k * p11 == k * m.m11.mul_spec(inv.m11)@ + k * m.m12.mul_spec(inv.m21)@)
        by (nonlinear_arith)
        requires
            p11 == m.m11.mul_spec(inv.m11)@ + m.m12.mul_spec(inv.m21)@,
    ;
    assert(k * p12 == k * m.m11.mul_spec(inv.m12)@ + k * m.m12.mul_spec(inv.m22)@)
        by (nonlinear_arith)
        requires
            p12 == m.m11.mul_spec(inv.m12)@ + m.m12.mul_spec(inv.m22)@,
    ;
    assert(k * p21 == k * m.m21.mul_spec(inv.m11)@ + k * m.m22.mul_spec(inv.m21)@)
        by (nonlinear_arith)
        requires
            p21 == m.m21.mul_spec(inv.m11)@ + m.m22.mul_spec(inv.m21)@,
    ;
    assert(k * p22 == k * m.m21.mul_spec(inv.m12)@ + k * m.m22.mul_spec(inv.m22)@)
        by (nonlinear_arith)
        requires
            p22 == m.m21.mul_spec(inv.m12)@ + m.m22.mul_spec(inv.m22)@,
    ;
    assert(-10 * k <= k * p11 - k * k <= 10 * k);
    assert(-10 * k <= k * p12 <= 10 * k);
    assert(-10 * k <= k * p21 <= 10 * k);
    assert(-10 * k <= k * p22 - k * k <= 10 * k);
    assert(-10 <= p11 - k <= 10) by (nonlinear_arith)
        requires
            -10 * k <= k * p11 - k * k <= 10 * k,
            0 < k,
    ;
    assert(-10 <= p12 <= 10) by (nonlinear_arith)
        requires
            -10 * k <= k * p12 <= 10 * k,
            0 < k,
    ;
    assert(-10 <= p21 <= 10) by (nonlinear_arith)
        requires
            -10 * k <= k * p21 <= 10 * k,
            0 < k,
    ;
    assert(-10 <= p22 - k <= 10) by (nonlinear_arith)
        requires
            -10 * k <= k * p22 - k * k <= 10 * k,
            0 < k,
    ;
}

/// The product of the inverse of a turn and the turn, in this order, lies
/// within ten raw units of the identity, every entry, as the product in the
/// other order does.
pub proof fn lemma_inverse_times_turn(m: Matrix)
    requires
        is_turn(m),
    ensures
        close_to(m.inverse_spec().mul_spec(m), Matrix::eye_spec(), 10),
{
    let k = ONE_RAW as int;
    let c = m.m11@;
    let s = m.m21@;
    let inv = m.inverse_spec();
    lemma_inverse_of_turn(m);
    lemma_mul_commutes(inv.m11, m.m11);
    lemma_mul_commutes(inv.m12, m.m21);
    lemma_mul_commutes(inv.m11, m.m12);
    lemma_mul_commutes(inv.m12, m.m22);
    lemma_mul_commutes(inv.m21, m.m11);
    lemma_mul_commutes(inv.m22, m.m21);
    lemma_mul_commutes(inv.m21, m.m12);
    lemma_mul_commutes(inv.m22, m.m22);
    lemma_product_of_nearly_equal(m.m11, inv.m11, c, 3);
    lemma_product_of_nearly_equal(m.m21, inv.m12, s, 3);
    lemma_product_of_nearly_equal(m.m12, inv.m11, c, 3);
    lemma_product_of_nearly_equal(m.m22, inv.m12, s, 3);
    lemma_product_of_nearly_equal(m.m11, inv.m21, -s, 3);
    lemma_product_of_nearly_equal(m.m21, inv.m22, c, 3);
    lemma_product_of_nearly_equal(m.m12, inv.m21, -s, 3);
    lemma_product_of_nearly_equal(m.m22, inv.m22, c, 3);
    let ss = s * s;
    let cs = c * s;
    assert((-s) * (-s) == ss) by (nonlinear_arith)
        requires
            ss == s * s,
    ;
    assert((-s) * c == -cs) by (nonlinear_arith)
        requires
            cs == c * s,
    ;
    assert(c * (-s) == -cs) by (nonlinear_arith)
        requires
            cs == c * s,
    ;
    assert(s * c == cs) by (nonlinear_arith)
        requires
            cs == c * s,
    ;
    let q = inv.mul_spec(m);
    let a11 = m.m11.mul_spec(inv.m11)@;
    let a12 = m.m21.mul_spec(inv.m12)@;
    let b11 = m.m12.mul_spec(inv.m11)@;
    let b12 = m.m22.mul_spec(inv.m12)@;
    let c11 = m.m11.mul_spec(inv.m21)@;
    let c12 = m.m21.mul_spec(inv.m22)@;
    let d11 = m.m12.mul_spec(inv.m21)@;
    let d12 = m.m22.mul_spec(inv.m22)@;
    let q11 = a11 + a12;
    let q12 = b11 + b12;
    let q21 = c11 + c12;
    let q22 = d11 + d12;
    assert(q.m11@ == q11);
    assert(q.m12@ == q12);
    assert(q.m21@ == q21);
    assert(q.m22@ == q22);
    assert(k * q11 == k * a11 + k * a12) by (nonlinear_arith)
        requires
            q11 == a11 + a12,
    ;
    assert(k * q12 == k * b11 + k * b12) by (nonlinear_arith)
        requires
            q12 == b11 + b12,
    ;
    assert(k * q21 == k * c11 + k * c12) by (nonlinear_arith)
        requires
            q21 == c11 + c12,
    ;
    assert(k * q22 == k * d11 + k * d12) by (nonlinear_arith)
        requires
            q22 == d11 + d12,
    ;
    assert(-10 * k <= k * q11 - k * k <= 10 * k);
    assert(-10 * k <= k * q12 <= 10 * k);
    assert(-10 * k <= k * q21 <= 10 * k);
    assert(-10 * k <= k * q22 - k * k <= 10 * k);
    assert(-10 <= q11 - k <= 10) by (nonlinear_arith)
        requires
            -10 * k <= k * q11 - k * k <= 10 * k,
            0 < k,
    ;
    assert(-10 <= q12 <= 10) by (nonlinear_arith)
        requires
            -10 * k <= k * q12 <= 10 * k,
            0 < k,
    ;
    assert(-10 <= q21 <= 10) by (nonlinear_arith)
        requires
            -10 * k <= k * q21 <= 10 * k,
            0 < k,
    ;
    assert(-10 <= q22 - k <= 10) by (nonlinear_arith)
        requires
            -10 * k <= k * q22 - k * k <= 10 * k,
            0 < k,
    ;
}

/// The inverse of the matrix of an angle is the matrix of the negated
/// angle, every entry to within three raw units; and the product of the
/// matrix and its inverse, in either order, is the identity, every entry to
/// within ten raw units. (The smallest value has no negation.)
pub proof fn lemma_inverse_of_rotation_matrix(angle: Fixed)
    requires
        angle.raw > MIN_RAW,
    ensures
        rotation_matrix_spec(angle).det_spec()@ != 0,
        close_to(
            rotation_matrix_spec(angle).inverse_spec(),
            rotation_matrix_spec(angle.neg_spec()),
            3,
        ),
        close_to(
            rotation_matrix_spec(angle).mul_spec(rotation_matrix_spec(angle).inverse_spec()),
            Matrix::eye_spec(),
            10,
        ),
        close_to(
            rotation_matrix_spec(angle).inverse_spec().mul_spec(rotation_matrix_spec(angle)),
            Matrix::eye_spec(),
            10,
        ),
{
    lemma_rotation_matrix_is_turn(angle);
    lemma_inverse_times_turn(rotation_matrix_spec(angle));
    lemma_rotation_matrix_of_negated_angle(angle);
    lemma_inverse_of_turn(rotation_matrix_spec(angle));
}

/// The largest raw coordinate difference, in magnitude, for which the
/// distance of two points is bounded here: `2^46`, some 16 km.
pub const FAR: i64 = 0x4000_0000_0000;

/// Two points differ by at most `FAR` in each coordinate.
pub open spec fn within_far(p: Point, q: Point) -> bool {
    &&& -FAR <= p.x@ - q.x@ <= FAR
    &&& -FAR <= p.y@ - q.y@ <= FAR
}

/// The distance of two points is the root of their squared distance but
/// for rounding: the raw distance `d` is not negative, and the squared
/// distance lies between `d^2 - 2^32` and `(d + 1)^2 + 2^32`.
pub proof fn lemma_distance_squared(p: Point, q: Point)
    requires
        within_far(p, q),
    ensures
        0 <= distance_spec(p, q)@,
        distance_spec(p, q)@ * distance_spec(p, q)@ <= squared_distance(p, q) + ONE_RAW,
        squared_distance(p, q) - ONE_RAW < (distance_spec(p, q)@ + 1) * (distance_spec(p, q)@ + 1),
{
    reveal(Fixed::sqrt_spec);
    let k = ONE_RAW as int;
    let a = p.sub_spec(q);
    let wx = p.x@ - q.x@;
    let wy = p.y@ - q.y@;
    assert(a.x@ == wx && a.y@ == wy);
    assert(magnitude(wx) * magnitude(wx) <= 0x4000_0000_0000 * 0x4000_0000_0000)
        by (nonlinear_arith)
        requires
            0 <= magnitude(wx) <= 0x4000_0000_0000,
    ;
    assert(magnitude(wy) * magnitude(wy) <= 0x4000_0000_0000 * 0x4000_0000_0000)
        by (nonlinear_arith)
        requires
            0 <= magnitude(wy) <= 0x4000_0000_0000,
    ;
    assert(wx * wx == magnitude(wx) * magnitude(wx)) by (nonlinear_arith)
        requires
            magnitude(wx) == wx || magnitude(wx) == -wx,
    ;
    assert(wy * wy == magnitude(wy) * magnitude(wy)) by (nonlinear_arith)
        requires
            magnitude(wy) == wy || magnitude(wy) == -wy,
    ;
    lemma_mul_rounding(a.x, a.x);
    lemma_mul_rounding(a.y, a.y);
    let mx = a.x.mul_spec(a.x)@;
    let my = a.y.mul_spec(a.y)@;
    assert(k * mx <= 0x4000_0000_0000 * 0x4000_0000_0000 + 0x8000_0000);
    assert(k * my <= 0x4000_0000_0000 * 0x4000_0000_0000 + 0x8000_0000);
    assert(mx <= 0x1000_0000_0000_0000) by (nonlinear_arith)
        requires
            k * mx <= 0x4000_0000_0000 * 0x4000_0000_0000 + 0x8000_0000,
            k == 0x1_0000_0000,
    ;
    assert(my <= 0x1000_0000_0000_0000) by (nonlinear_arith)
        requires
            k * my <= 0x4000_0000_0000 * 0x4000_0000_0000 + 0x8000_0000,
            k == 0x1_0000_0000,
    ;
    let sum = a.x.mul_spec(a.x).add_spec(a.y.mul_spec(a.y));
    assert(sum@ == mx + my);
    let w = squared_distance(p, q);
    assert(w == wx * wx + wy * wy);
    assert(k * sum@ == k * mx + k * my) by (nonlinear_arith)
        requires
            sum@ == mx + my,
    ;
    assert(-k <= k * sum@ - w <= k);
    let d = distance_spec(p, q)@;
    assert(0 <= wx * wx && 0 <= wy * wy) by (nonlinear_arith);
    if sum@ > 0 {
        let n = sum@ * k;
        assert(n == k * sum@) by (nonlinear_arith)
            requires
                n == sum@ * k,
        ;
        assert(0 <= n);
        lemma_floor_sqrt_exists(n);
        let r = floor_sqrt(n);
        assert(r < 0x1_0000_0000_0000) by (nonlinear_arith)
            requires
                0 <= r,
                r * r <= n,
                n <= 0x2000_0000_0000_0000 * 0x1_0000_0000,
        ;
        assert(d == r);
        assert(d * d <= n && n < (d + 1) * (d + 1));
    } else {
        assert(mx >= 0 && my >= 0);
        assert(sum@ == 0);
        assert(k * sum@ == 0);
        assert(d == 0);
        assert(d * d == 0 && (d + 1) * (d + 1) == 1) by (nonlinear_arith)
            requires
                d == 0,
        ;
    }
}

/// By how many raw units the distance of two points between one and
/// sixteen metres apart can change when they are carried along one rotation:
/// some 6 nm.
pub const DISTANCE_TOLERANCE: i64 = 27;

/// The arithmetic that leads from squared distances to distances. Let `l`
/// and `l2` be the roots of `w` and `w2`, each but for `k` under the root
/// and rounded down, with `l` between `k` and `16 k`, and let `w2` differ
/// from `w` by less than `48 l + 153`: then `l2` differs from `l` by at
/// most 27.
pub proof fn lemma_roots_of_nearly_equal(k: int, l: int, l2: int, w: int, w2: int)
    requires
        k == ONE_RAW,
        k <= l <= 16 * k,
        0 <= l2,
        l * l <= w + k,
        w - k < (l + 1) * (l + 1),
        l2 * l2 <= w2 + k,
        w2 - k < (l2 + 1) * (l2 + 1),
        -(48 * l + 153) < w2 - w < 48 * l + 153,
    ensures
        -27 <= l2 - l <= 27,
{
    if l2 >= l + 27 {
        assert(l2 * l2 >= (l + 27) * (l + 27)) by (nonlinear_arith)
            requires
                l2 >= l + 27,
                l >= 0,
        ;
        assert((l + 27) * (l + 27) == (l + 1) * (l + 1) + 52 * l + 728) by (nonlinear_arith);
    }
    if l2 <= l - 28 {
        assert((l2 + 1) * (l2 + 1) <= (l - 27) * (l - 27)) by (nonlinear_arith)
            requires
                0 <= l2 + 1 <= l - 27,
        ;
        assert((l - 27) * (l - 27) == l * l - 54 * l + 729) by (nonlinear_arith);
    }
}

/// Two points that are nearly as far from each other as two others, which
/// are between one and sixteen metres apart, are as far from each other as
/// those others to within `DISTANCE_TOLERANCE` raw units.
pub proof fn lemma_nearly_as_far_in_distance(p: Point, q: Point, p_new: Point, q_new: Point)
    requires
        nearly_as_far(p, q, p_new, q_new),
        within_far(p, q),
        ONE_RAW <= distance_spec(p, q)@ <= 16 * ONE_RAW,
    ensures
        magnitude(distance_spec(p_new, q_new)@ - distance_spec(p, q)@) <= DISTANCE_TOLERANCE,
        within_far(p_new, q_new),
{
    let k = ONE_RAW as int;
    let l = distance_spec(p, q)@;
    let w = squared_distance(p, q);
    let w2 = squared_distance(p_new, q_new);
    let wx = p.x@ - q.x@;
    let wy = p.y@ - q.y@;
    let n = taxicab_distance(p, q);
    lemma_distance_squared(p, q);
    // the coordinate differences are at most l + 1
    assert((l + 2) * (l + 2) == (l + 1) * (l + 1) + 2 * l + 3) by (nonlinear_arith);
    assert(w < (l + 2) * (l + 2));
    assert(0 <= wx * wx && 0 <= wy * wy) by (nonlinear_arith);
    lemma_square_below(wx, l + 2);
    lemma_square_below(wy, l + 2);
    assert(n <= 2 * l + 2);
    // so the squared distances differ by less than 48 l + 153
    let e = magnitude(w2 - w);
    assert((l + 2) * (l + 2) <= (16 * k + 2) * (l + 2)) by (nonlinear_arith)
        requires
            0 <= l + 2 <= 16 * k + 2,
    ;
    assert((16 * k + 2) * (l + 2) == k * (16 * l + 32) + 2 * l + 4) by (nonlinear_arith);
    assert(8 * k * (n + 1) <= k * (16 * l + 24)) by (nonlinear_arith)
        requires
            0 <= n + 1 <= 2 * l + 3,
            0 < k,
    ;
    assert(k * e < k * (48 * l + 153)) by (nonlinear_arith)
        requires
            k * e <= 2 * w + 8 * k * (n + 1),
            w < k * (16 * l + 32) + 2 * l + 4,
            8 * k * (n + 1) <= k * (16 * l + 24),
            2 * (2 * l + 4) <= 65 * k,
            0 < k,
    ;
    assert(e < 48 * l + 153) by (nonlinear_arith)
        requires
            k * e < k * (48 * l + 153),
            0 < k,
    ;
    // the second pair is not far apart either
    let vx = p_new.x@ - q_new.x@;
    let vy = p_new.y@ - q_new.y@;
    assert(0 <= vx * vx && 0 <= vy * vy) by (nonlinear_arith);
    assert(w2 < 0x4000_0000_0000 * 0x4000_0000_0000) by (nonlinear_arith)
        requires
            w2 < w + 48 * l + 153,
            w < k * (16 * l + 32) + 2 * l + 4,
            0 <= l <= 16 * k,
            k == 0x1_0000_0000,
    ;
    lemma_square_below(vx, 0x4000_0000_0000);
    lemma_square_below(vy, 0x4000_0000_0000);
    assert(within_far(p_new, q_new));
    lemma_distance_squared(p_new, q_new);
    lemma_roots_of_nearly_equal(k, l, distance_spec(p_new, q_new)@, w, w2);
}

} // verus!
