//! The occlusion decision: is an object hidden by the central body, as seen
//! from a viewpoint?
//!
//! The decision compares lengths along the line of sight. Each comparison is
//! stated here between integers, without a square root: a length enters by
//! its square, scaled by the squared distance from the viewer to the object.

use crate::frame::{dot, minus, norm2, ScenePoint, Vec3, COORD_LIMIT};
use vstd::prelude::*;

verus! {

/// The object lies strictly inside the body.
pub open spec fn inside_body(object: Vec3, center: Vec3, radius: int) -> bool {
    norm2(minus(object, center)) < radius * radius
}

/// With `d` the vector from the viewer to the object, `w` the vector from
/// the viewer to the centre, `l2 = d·d` and `a = w·d`: the discriminant
/// `a² - (w·w - r²)·l2`. Divided by `l2`, it is `r²` minus the squared
/// distance from the centre to the line of sight; the line meets the body's
/// inside exactly where it is positive.
pub open spec fn discriminant(viewer: Vec3, object: Vec3, center: Vec3, radius: int) -> int {
    let d = minus(object, viewer);
    let w = minus(center, viewer);
    dot(w, d) * dot(w, d) - (norm2(w) - radius * radius) * norm2(d)
}

/// The object lies behind the body on the line of sight. With `t = a / √l2`
/// the place on the line that is closest to the centre and
/// `t_exit = t + √(discriminant / l2)` the place where the line leaves the
/// body:
/// - the line passes the centre at less than the radius,
/// - `t_exit > 0`: the line leaves the body in front of the viewer,
/// - `√l2 > t_exit`: the object is farther than that.
///
/// For a viewer and an object outside the body this says that the straight
/// line of sight between them passes through the body:
/// `lemma_behind_iff_sight_line_crosses`.
pub open spec fn behind_body(viewer: Vec3, object: Vec3, center: Vec3, radius: int) -> bool {
    let d = minus(object, viewer);
    let w = minus(center, viewer);
    let l2 = norm2(d);
    let a = dot(w, d);
    let disc = discriminant(viewer, object, center, radius);
    &&& l2 > 0
    &&& disc > 0
    &&& (a > 0 || norm2(w) < radius * radius)
    &&& l2 - a > 0
    &&& (l2 - a) * (l2 - a) > disc
}

/// The far-side rule. With `w` the vector from the viewer to the centre and
/// `e` the vector from the centre to the object: the cosine of the angle
/// between `w` and `e` is below -1/5, and viewer and object are both farther
/// from the centre than 6/5 of the radius.
pub open spec fn far_side(viewer: Vec3, object: Vec3, center: Vec3, radius: int) -> bool {
    let w = minus(center, viewer);
    let e = minus(object, center);
    let p = dot(w, e);
    &&& p < 0
    &&& 25 * (p * p) > norm2(w) * norm2(e)
    &&& 25 * norm2(w) > 36 * (radius * radius)
    &&& 25 * norm2(e) > 36 * (radius * radius)
}

/// Whether the object is hidden: it is inside the body, or behind it on the
/// line of sight, or on the far side.
pub open spec fn occluded(viewer: Vec3, object: Vec3, center: Vec3, radius: int) -> bool {
    inside_body(object, center, radius) || behind_body(viewer, object, center, radius) || far_side(
        viewer,
        object,
        center,
        radius,
    )
}

/// The difference of two points.
struct Delta {
    x: i64,
    y: i64,
    z: i64,
}

impl Delta {
    spec fn wf(self) -> bool {
        &&& -2 * COORD_LIMIT <= self.x <= 2 * COORD_LIMIT
        &&& -2 * COORD_LIMIT <= self.y <= 2 * COORD_LIMIT
        &&& -2 * COORD_LIMIT <= self.z <= 2 * COORD_LIMIT
    }

    spec fn view(self) -> Vec3 {
        Vec3 { x: self.x as int, y: self.y as int, z: self.z as int }
    }
}

/// Bound of a scalar product of two differences: 3 * 2^58.
spec fn dot_bound() -> int {
    3 * 0x400_0000_0000_0000int
}

proof fn lemma_product_bound(x: int, y: int, bx: int, by: int)
    requires
        -bx <= x <= bx,
        -by <= y <= by,
    ensures
        -(bx * by) <= x * y <= bx * by,
{
    assert(-(bx * by) <= x * y <= bx * by) by (nonlinear_arith)
        requires
            -bx <= x <= bx,
            -by <= y <= by,
    ;
}

fn delta(a: &ScenePoint, b: &ScenePoint) -> (out: Delta)
    ensures
        out.wf(),
        out@ == minus(a@, b@),
{
    Delta { x: a.x() - b.x(), y: a.y() - b.y(), z: a.z() - b.z() }
}

fn dot_of(a: &Delta, b: &Delta) -> (out: i128)
    requires
        a.wf(),
        b.wf(),
    ensures
        out == dot(a@, b@),
        -dot_bound() <= out <= dot_bound(),
{
    proof {
        let lim = 0x2000_0000int;
        lemma_product_bound(a.x as int, b.x as int, lim, lim);
        lemma_product_bound(a.y as int, b.y as int, lim, lim);
        lemma_product_bound(a.z as int, b.z as int, lim, lim);
        assert(0x2000_0000int * 0x2000_0000int == 0x400_0000_0000_0000int);
    }
    (a.x as i128) * (b.x as i128) + (a.y as i128) * (b.y as i128) + (a.z as i128) * (b.z as i128)
}

/// The product of two numbers of at most 62 bits.
fn times(x: i128, y: i128) -> (out: i128)
    requires
        -0x4000_0000_0000_0000 <= x <= 0x4000_0000_0000_0000,
        -0x4000_0000_0000_0000 <= y <= 0x4000_0000_0000_0000,
    ensures
        out == x * y,
        -0x1000_0000_0000_0000_0000_0000_0000_0000 <= out <= 0x1000_0000_0000_0000_0000_0000_0000_0000,
{
    proof {
        lemma_product_bound(x as int, y as int, 0x4000_0000_0000_0000, 0x4000_0000_0000_0000);
        assert(0x4000_0000_0000_0000int * 0x4000_0000_0000_0000int
            == 0x1000_0000_0000_0000_0000_0000_0000_0000int);
    }
    x * y
}

/// Whether the object at `object_pos` is hidden by the body of radius
/// `body_radius` around `body_center`, as seen from `viewer_pos`.
pub fn is_occluded(
    viewer_pos: ScenePoint,
    object_pos: ScenePoint,
    body_center: ScenePoint,
    body_radius: u32,
) -> (hidden: bool)
    ensures
        hidden == occluded(viewer_pos@, object_pos@, body_center@, body_radius as int),
{
    let e = delta(&object_pos, &body_center);
    let w = delta(&body_center, &viewer_pos);
    let d = delta(&object_pos, &viewer_pos);
    proof {
        lemma_product_bound(body_radius as int, body_radius as int, 0x1_0000_0000, 0x1_0000_0000);
        assert(0x1_0000_0000int * 0x1_0000_0000int == 0x1_0000_0000_0000_0000int);
    }
    let r2: i128 = (body_radius as i128) * (body_radius as i128);
    let e2 = dot_of(&e, &e);
    if e2 < r2 {
        return true;
    }
    let w2 = dot_of(&w, &w);
    let l2 = dot_of(&d, &d);
    let a = dot_of(&w, &d);
    let disc: i128 = times(a, a) - times(w2 - r2, l2);
    if l2 > 0 && disc > 0 && (a > 0 || w2 < r2) && l2 - a > 0 && times(l2 - a, l2 - a) > disc {
        return true;
    }
    let p = dot_of(&w, &e);
    proof {
        lemma_product_bound(p as int, p as int, dot_bound(), dot_bound());
        assert(dot_bound() * dot_bound() == 0x90_0000_0000_0000_0000_0000_0000_0000int);
    }
    p < 0 && 25 * times(p, p) > times(w2, e2) && 25 * w2 > 36 * r2 && 25 * e2 > 36 * r2
}

/// `k` times `u`.
pub open spec fn scaled(k: int, u: Vec3) -> Vec3 {
    Vec3 { x: k * u.x, y: k * u.y, z: k * u.z }
}

/// `a + b`, component by component.
pub open spec fn plus(a: Vec3, b: Vec3) -> Vec3 {
    Vec3 { x: a.x + b.x, y: a.y + b.y, z: a.z + b.z }
}

/// The scalar product of two multiples of one vector.
pub proof fn lemma_dot_scaled(j: int, k: int, u: Vec3)
    ensures
        dot(scaled(j, u), scaled(k, u)) == j * k * norm2(u),
{
    let c = j * k;
    assert((j * u.x) * (k * u.x) == c * (u.x * u.x)) by (nonlinear_arith)
        requires
            c == j * k,
    ;
    assert((j * u.y) * (k * u.y) == c * (u.y * u.y)) by (nonlinear_arith)
        requires
            c == j * k,
    ;
    assert((j * u.z) * (k * u.z) == c * (u.z * u.z)) by (nonlinear_arith)
        requires
            c == j * k,
    ;
    assert(c * (u.x * u.x) + c * (u.y * u.y) + c * (u.z * u.z) == c * (u.x * u.x + u.y * u.y
        + u.z * u.z)) by (nonlinear_arith);
}

/// An object straight behind the body is hidden: with the viewer `n` steps
/// `u` from the centre to one side and the object `m` steps to the other,
/// outside a body of positive radius, the object is behind the body on the
/// line of sight.
pub proof fn lemma_opposite_is_hidden(center: Vec3, u: Vec3, n: int, m: int, radius: int)
    requires
        radius > 0,
        n > 0,
        m > 0,
        m * m * norm2(u) > radius * radius,
    ensures
        behind_body(plus(center, scaled(n, u)), minus(center, scaled(m, u)), center, radius),
        occluded(plus(center, scaled(n, u)), minus(center, scaled(m, u)), center, radius),
{
    let viewer = plus(center, scaled(n, u));
    let object = minus(center, scaled(m, u));
    let d = minus(object, viewer);
    let w = minus(center, viewer);
    let uu = norm2(u);
    let r2 = radius * radius;
    assert(d == scaled(-(m + n), u)) by {
        assert(-(m * u.x) - n * u.x == (-(m + n)) * u.x) by (nonlinear_arith);
        assert(-(m * u.y) - n * u.y == (-(m + n)) * u.y) by (nonlinear_arith);
        assert(-(m * u.z) - n * u.z == (-(m + n)) * u.z) by (nonlinear_arith);
    }
    assert(w == scaled(-n, u)) by {
        assert(-(n * u.x) == (-n) * u.x) by (nonlinear_arith);
        assert(-(n * u.y) == (-n) * u.y) by (nonlinear_arith);
        assert(-(n * u.z) == (-n) * u.z) by (nonlinear_arith);
    }
    lemma_dot_scaled(-(m + n), -(m + n), u);
    lemma_dot_scaled(-n, -(m + n), u);
    lemma_dot_scaled(-n, -n, u);
    let l2 = norm2(d);
    let a = dot(w, d);
    let w2 = norm2(w);
    let s = m + n;
    assert(l2 == s * s * uu) by (nonlinear_arith)
        requires
            l2 == (-(m + n)) * (-(m + n)) * uu,
            s == m + n,
    ;
    assert(a == n * s * uu) by (nonlinear_arith)
        requires
            a == (-n) * (-(m + n)) * uu,
            s == m + n,
    ;
    assert(w2 == n * n * uu) by (nonlinear_arith)
        requires
            w2 == (-n) * (-n) * uu,
    ;
    assert(uu > 0) by (nonlinear_arith)
        requires
            m * m * uu > r2,
            r2 == radius * radius,
    ;
    let disc = discriminant(viewer, object, center, radius);
    assert(disc == r2 * (s * s * uu)) by (nonlinear_arith)
        requires
            disc == a * a - (w2 - r2) * l2,
            l2 == s * s * uu,
            a == n * s * uu,
            w2 == n * n * uu,
    ;
    assert(r2 > 0) by (nonlinear_arith)
        requires
            radius > 0,
            r2 == radius * radius,
    ;
    assert(s * s * uu > 0) by (nonlinear_arith)
        requires
            s > 0,
            uu > 0,
    ;
    assert(disc > 0) by (nonlinear_arith)
        requires
            disc == r2 * (s * s * uu),
            r2 > 0,
            s * s * uu > 0,
    ;
    assert(a > 0) by (nonlinear_arith)
        requires
            a == n * s * uu,
            n > 0,
            s > 0,
            uu > 0,
    ;
    assert(l2 - a == m * (s * uu)) by (nonlinear_arith)
        requires
            l2 == s * s * uu,
            a == n * s * uu,
            s == m + n,
    ;
    assert(s * uu > 0) by (nonlinear_arith)
        requires
            s > 0,
            uu > 0,
    ;
    assert(l2 - a > 0) by (nonlinear_arith)
        requires
            l2 - a == m * (s * uu),
            m > 0,
            s * uu > 0,
    ;
    assert((l2 - a) * (l2 - a) - disc == (m * m * uu - r2) * (s * s * uu)) by (nonlinear_arith)
        requires
            l2 - a == m * (s * uu),
            disc == r2 * (s * s * uu),
    ;
    assert((m * m * uu - r2) * (s * s * uu) > 0) by (nonlinear_arith)
        requires
            m * m * uu - r2 > 0,
            s * s * uu > 0,
    ;
}

/// An object on the viewer's side of the body, on the line through viewer
/// and centre, is never behind the body. With the viewer `n` steps `u` from
/// the centre, not inside the body, and the object `m` steps to the same
/// side, the object is hidden exactly if it is inside the body or the
/// far-side rule applies, which it does as soon as both are farther from the
/// centre than 6/5 of the radius.
pub proof fn lemma_same_side(center: Vec3, u: Vec3, n: int, m: int, radius: int)
    requires
        radius >= 0,
        n > 0,
        m > 0,
        norm2(u) > 0,
        n * n * norm2(u) >= radius * radius,
    ensures
        !behind_body(plus(center, scaled(n, u)), plus(center, scaled(m, u)), center, radius),
        occluded(plus(center, scaled(n, u)), plus(center, scaled(m, u)), center, radius) <==> (m
            * m * norm2(u) < radius * radius || (25 * (n * n * norm2(u)) > 36 * (radius * radius)
            && 25 * (m * m * norm2(u)) > 36 * (radius * radius))),
{
    let viewer = plus(center, scaled(n, u));
    let object = plus(center, scaled(m, u));
    let d = minus(object, viewer);
    let w = minus(center, viewer);
    let e = minus(object, center);
    let uu = norm2(u);
    let r2 = radius * radius;
    let k = m - n;
    assert(d == scaled(k, u)) by {
        assert(m * u.x - n * u.x == (m - n) * u.x) by (nonlinear_arith);
        assert(m * u.y - n * u.y == (m - n) * u.y) by (nonlinear_arith);
        assert(m * u.z - n * u.z == (m - n) * u.z) by (nonlinear_arith);
    }
    assert(w == scaled(-n, u)) by {
        assert(-(n * u.x) == (-n) * u.x) by (nonlinear_arith);
        assert(-(n * u.y) == (-n) * u.y) by (nonlinear_arith);
        assert(-(n * u.z) == (-n) * u.z) by (nonlinear_arith);
    }
    assert(e == scaled(m, u));
    lemma_dot_scaled(k, k, u);
    lemma_dot_scaled(-n, k, u);
    lemma_dot_scaled(-n, -n, u);
    lemma_dot_scaled(-n, m, u);
    lemma_dot_scaled(m, m, u);
    let l2 = norm2(d);
    let a = dot(w, d);
    let w2 = norm2(w);
    let e2 = norm2(e);
    let p = dot(w, e);
    assert(w2 == n * n * uu) by (nonlinear_arith)
        requires
            w2 == (-n) * (-n) * uu,
    ;
    // not behind the body
    if k > 0 {
        assert(a < 0) by (nonlinear_arith)
            requires
                a == (-n) * k * uu,
                n > 0,
                k > 0,
                uu > 0,
        ;
    } else if k < 0 {
        assert(l2 - a == m * (k * uu)) by (nonlinear_arith)
            requires
                l2 == k * k * uu,
                a == (-n) * k * uu,
                k == m - n,
        ;
        assert(k * uu < 0) by (nonlinear_arith)
            requires
                k < 0,
                uu > 0,
        ;
        assert(m * (k * uu) < 0) by (nonlinear_arith)
            requires
                m > 0,
                k * uu < 0,
        ;
    } else {
        assert(l2 == 0) by (nonlinear_arith)
            requires
                l2 == k * k * uu,
                k == 0,
        ;
    }
    // the far-side rule
    let q = n * m * uu;
    assert(q > 0) by (nonlinear_arith)
        requires
            q == n * m * uu,
            n > 0,
            m > 0,
            uu > 0,
    ;
    assert(p == -q) by (nonlinear_arith)
        requires
            p == (-n) * m * uu,
            q == n * m * uu,
    ;
    assert(p * p == q * q) by (nonlinear_arith)
        requires
            p == -q,
    ;
    assert(w2 * e2 == q * q) by (nonlinear_arith)
        requires
            w2 == n * n * uu,
            e2 == m * m * uu,
            q == n * m * uu,
    ;
    assert(q * q > 0) by (nonlinear_arith)
        requires
            q > 0,
    ;
    assert(e2 == m * m * uu);
}

/// The point `p/q` of the way from the viewer to the object lies strictly
/// between the two and strictly inside the body. With `d` and `w` the
/// vectors from the viewer to the object and to the centre, `q` times the
/// vector from the centre to that point is `p·d - q·w`.
pub open spec fn crossing_at(
    viewer: Vec3,
    object: Vec3,
    center: Vec3,
    radius: int,
    p: int,
    q: int,
) -> bool {
    let d = minus(object, viewer);
    let w = minus(center, viewer);
    0 < p < q && norm2(minus(scaled(p, d), scaled(q, w))) < q * q * (radius * radius)
}

/// The straight line of sight from the viewer to the object passes through
/// the inside of the body.
pub open spec fn sight_line_crosses(viewer: Vec3, object: Vec3, center: Vec3, radius: int) -> bool {
    exists|p: int, q: int| crossing_at(viewer, object, center, radius, p, q)
}

/// `(u - v)² = u² - 2uv + v²`.
proof fn lemma_binomial(u: int, v: int)
    ensures
        (u - v) * (u - v) == u * u - 2 * (u * v) + v * v,
{
    assert((u - v) * (u - v) == u * u - 2 * (u * v) + v * v) by (nonlinear_arith);
}

/// `(a·b)·(c·d) = (a·c)·(b·d)`.
proof fn lemma_mul_pairs(a: int, b: int, c: int, d: int)
    ensures
        (a * b) * (c * d) == (a * c) * (b * d),
{
    assert((a * b) * (c * d) == (a * c) * (b * d)) by (nonlinear_arith);
}

/// The square of `p·x - q·y`.
proof fn lemma_square_combination(p: int, q: int, x: int, y: int)
    ensures
        (p * x - q * y) * (p * x - q * y) == (p * p) * (x * x) - 2 * ((p * q) * (y * x)) + (q * q)
            * (y * y),
{
    lemma_binomial(p * x, q * y);
    lemma_mul_pairs(p, x, p, x);
    lemma_mul_pairs(p, x, q, y);
    lemma_mul_pairs(q, y, q, y);
    assert(x * y == y * x) by (nonlinear_arith);
}

/// The squared length of `p·d - q·w`.
pub proof fn lemma_norm2_combination(p: int, q: int, d: Vec3, w: Vec3)
    ensures
        norm2(minus(scaled(p, d), scaled(q, w))) == p * p * norm2(d) - 2 * (p * q) * dot(w, d) + q
            * q * norm2(w),
{
    let pp = p * p;
    let pq = p * q;
    let qq = q * q;
    lemma_square_combination(p, q, d.x, w.x);
    lemma_square_combination(p, q, d.y, w.y);
    lemma_square_combination(p, q, d.z, w.z);
    assert(pp * (d.x * d.x) + pp * (d.y * d.y) + pp * (d.z * d.z) == pp * norm2(d))
        by (nonlinear_arith)
        requires
            norm2(d) == d.x * d.x + d.y * d.y + d.z * d.z,
    ;
    assert(qq * (w.x * w.x) + qq * (w.y * w.y) + qq * (w.z * w.z) == qq * norm2(w))
        by (nonlinear_arith)
        requires
            norm2(w) == w.x * w.x + w.y * w.y + w.z * w.z,
    ;
    assert(pq * (w.x * d.x) + pq * (w.y * d.y) + pq * (w.z * d.z) == pq * dot(w, d))
        by (nonlinear_arith)
        requires
            dot(w, d) == w.x * d.x + w.y * d.y + w.z * d.z,
    ;
    assert(2 * pq * dot(w, d) == 2 * (pq * dot(w, d))) by (nonlinear_arith);
}

/// A vector of length zero is the zero vector.
pub proof fn lemma_norm2_zero(d: Vec3)
    requires
        norm2(d) == 0,
    ensures
        d.x == 0 && d.y == 0 && d.z == 0,
{
    assert(d.x * d.x >= 0 && (d.x != 0 ==> d.x * d.x > 0)) by (nonlinear_arith);
    assert(d.y * d.y >= 0 && (d.y != 0 ==> d.y * d.y > 0)) by (nonlinear_arith);
    assert(d.z * d.z >= 0 && (d.z != 0 ==> d.z * d.z > 0)) by (nonlinear_arith);
}

/// What the test on the line of sight means. For a viewer that is not inside
/// the body and an object outside it, the object is behind the body exactly
/// if the straight line of sight from the viewer to the object passes
/// through the inside of the body.
pub proof fn lemma_behind_iff_sight_line_crosses(
    viewer: Vec3,
    object: Vec3,
    center: Vec3,
    radius: int,
)
    requires
        radius >= 0,
        norm2(minus(center, viewer)) >= radius * radius,
        norm2(minus(object, center)) > radius * radius,
    ensures
        behind_body(viewer, object, center, radius) <==> sight_line_crosses(
            viewer,
            object,
            center,
            radius,
        ),
{
    let d = minus(object, viewer);
    let w = minus(center, viewer);
    let e = minus(object, center);
    let l2 = norm2(d);
    let a = dot(w, d);
    let w2 = norm2(w);
    let e2 = norm2(e);
    let r2 = radius * radius;
    let disc = discriminant(viewer, object, center, radius);
    assert(disc == a * a - (w2 - r2) * l2);
    // e = d - w, so |e|^2 = |d|^2 - 2 w.d + |w|^2
    assert(e2 == l2 - 2 * a + w2) by {
        assert(e == minus(scaled(1, d), scaled(1, w)));
        lemma_norm2_combination(1, 1, d, w);
    }
    assert(l2 >= 0) by (nonlinear_arith)
        requires
            l2 == d.x * d.x + d.y * d.y + d.z * d.z,
    ;
    // (l2 - a)^2 - disc = l2 (|e|^2 - r^2)
    assert((l2 - a) * (l2 - a) - disc == l2 * (e2 - r2)) by (nonlinear_arith)
        requires
            disc == a * a - (w2 - r2) * l2,
            e2 == l2 - 2 * a + w2,
    ;
    if behind_body(viewer, object, center, radius) {
        // the point of the line that is closest to the centre is the witness
        lemma_norm2_combination(a, l2, d, w);
        let n = norm2(minus(scaled(a, d), scaled(l2, w)));
        assert(a > 0);
        assert(n == l2 * (l2 * w2 - a * a)) by (nonlinear_arith)
            requires
                n == a * a * l2 - 2 * (a * l2) * a + l2 * l2 * w2,
        ;
        assert(l2 * w2 - a * a < l2 * r2) by (nonlinear_arith)
            requires
                disc > 0,
                disc == a * a - (w2 - r2) * l2,
        ;
        assert(n < l2 * l2 * r2) by (nonlinear_arith)
            requires
                n == l2 * (l2 * w2 - a * a),
                l2 * w2 - a * a < l2 * r2,
                l2 > 0,
        ;
        assert(crossing_at(viewer, object, center, radius, a, l2));
    }
    if sight_line_crosses(viewer, object, center, radius) {
        let (p, q) = choose|p: int, q: int| crossing_at(viewer, object, center, radius, p, q);
        assert(crossing_at(viewer, object, center, radius, p, q));
        lemma_norm2_combination(p, q, d, w);
        let n = norm2(minus(scaled(p, d), scaled(q, w)));
        let pp = p * p;
        let pq = p * q;
        let qq = q * q;
        assert(n == pp * l2 - 2 * pq * a + qq * w2);
        assert(n < qq * r2);
        assert(pp > 0 && pq > 0 && qq > 0) by (nonlinear_arith)
            requires
                0 < p < q,
                pp == p * p,
                pq == p * q,
                qq == q * q,
        ;
        assert(qq * w2 >= qq * r2) by (nonlinear_arith)
            requires
                qq > 0,
                w2 >= r2,
        ;
        // the viewer is not at the object
        if l2 == 0 {
            lemma_norm2_zero(d);
            assert(a == 0) by (nonlinear_arith)
                requires
                    a == w.x * d.x + w.y * d.y + w.z * d.z,
                    d.x == 0 && d.y == 0 && d.z == 0,
            ;
            assert(pp * l2 == 0 && 2 * pq * a == 0) by (nonlinear_arith)
                requires
                    l2 == 0,
                    a == 0,
            ;
            assert(false);
        }
        assert(l2 > 0);
        // the centre lies ahead of the viewer
        if a <= 0 {
            assert(pp * l2 >= 0 && 2 * pq * a <= 0) by (nonlinear_arith)
                requires
                    pp > 0,
                    pq > 0,
                    l2 > 0,
                    a <= 0,
            ;
            assert(false);
        }
        assert(a > 0);
        // and ahead of the object, seen from the object
        let t = q - p;
        let tt = t * t;
        let qt = q * t;
        assert(n == qq * e2 - 2 * qt * (l2 - a) + tt * l2) by (nonlinear_arith)
            requires
                n == pp * l2 - 2 * pq * a + qq * w2,
                e2 == l2 - 2 * a + w2,
                pp == p * p,
                pq == p * q,
                qq == q * q,
                t == q - p,
                tt == t * t,
                qt == q * t,
        ;
        if l2 - a <= 0 {
            assert(tt * l2 >= 0 && 2 * qt * (l2 - a) <= 0 && qq * e2 > qq * r2) by (nonlinear_arith)
                requires
                    tt == t * t,
                    qt == q * t,
                    t > 0,
                    q > 0,
                    qq > 0,
                    l2 > 0,
                    l2 - a <= 0,
                    e2 > r2,
            ;
            assert(false);
        }
        assert(l2 - a > 0);
        // the line meets the inside of the body
        let m = l2 * p - a * q;
        assert(l2 * n == m * m + qq * (l2 * w2 - a * a)) by {
            lemma_binomial(l2 * p, a * q);
            lemma_mul_pairs(l2, p, l2, p);
            lemma_mul_pairs(l2, p, a, q);
            lemma_mul_pairs(a, q, a, q);
            assert(l2 * n == l2 * (pp * l2) - l2 * (2 * pq * a) + l2 * (qq * w2))
                by (nonlinear_arith)
                requires
                    n == pp * l2 - 2 * pq * a + qq * w2,
            ;
            assert(l2 * (pp * l2) == (l2 * l2) * pp) by (nonlinear_arith);
            assert(l2 * (2 * pq * a) == 2 * ((l2 * a) * pq)) by (nonlinear_arith);
            assert(l2 * (qq * w2) == qq * (l2 * w2)) by (nonlinear_arith);
            assert(qq * (l2 * w2 - a * a) == qq * (l2 * w2) - (a * a) * qq) by (nonlinear_arith);
        }
        assert(m * m >= 0) by (nonlinear_arith);
        assert(l2 * n < l2 * (qq * r2)) by (nonlinear_arith)
            requires
                n < qq * r2,
                l2 > 0,
        ;
        assert(qq * (l2 * w2 - a * a) < qq * (l2 * r2)) by (nonlinear_arith)
            requires
                l2 * n == m * m + qq * (l2 * w2 - a * a),
                m * m >= 0,
                l2 * n < l2 * (qq * r2),
        ;
        assert(l2 * w2 - a * a < l2 * r2) by (nonlinear_arith)
            requires
                qq * (l2 * w2 - a * a) < qq * (l2 * r2),
                qq > 0,
        ;
        assert(disc > 0) by (nonlinear_arith)
            requires
                l2 * w2 - a * a < l2 * r2,
                disc == a * a - (w2 - r2) * l2,
        ;
        // the object lies beyond the place where the line leaves the body
        assert(l2 * (e2 - r2) > 0) by (nonlinear_arith)
            requires
                l2 > 0,
                e2 > r2,
        ;
        assert(behind_body(viewer, object, center, radius));
    }
}

} // verus!
