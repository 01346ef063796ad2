//! Two-dimensional integer vectors and their mathematical model.
use vstd::prelude::*;
use crate::fixed::{
    SCALE, div_trunc, ceil_sqrt, is_ceil_sqrt, isqrt_ceil, div_toward_zero, lemma_ceil_sqrt_bounds,
};

verus! {

/// A mathematical 2D vector: the model of [`Vec2`].
pub type P2 = (int, int);

/// Largest component magnitude accepted by the vector operations, so that squared
/// lengths fit in 128 bits.
pub const COMPONENT_LIMIT: i64 = 0x4000_0000_0000_0000;

pub open spec fn abs(a: int) -> int {
    if a >= 0 {
        a
    } else {
        -a
    }
}

pub open spec fn vadd(a: P2, b: P2) -> P2 {
    (a.0 + b.0, a.1 + b.1)
}

pub open spec fn vsub(a: P2, b: P2) -> P2 {
    (a.0 - b.0, a.1 - b.1)
}

pub open spec fn dot(a: P2, b: P2) -> int {
    a.0 * b.0 + a.1 * b.1
}

pub open spec fn len_sq(a: P2) -> int {
    a.0 * a.0 + a.1 * a.1
}

/// Both components lie in `[-b, b]`.
pub open spec fn within(a: P2, b: int) -> bool {
    -b <= a.0 <= b && -b <= a.1 <= b
}

/// `a * num / den`, each component rounded toward zero.
pub open spec fn scaled(a: P2, num: int, den: int) -> P2 {
    (div_trunc(a.0 * num, den), div_trunc(a.1 * num, den))
}

/// `a` multiplied by `SCALE` when it is shorter than `SCALE`, so that the
/// division in [`unit`] always works on a vector at least `SCALE` long.
pub open spec fn lifted(a: P2) -> P2 {
    if len_sq(a) < SCALE * SCALE {
        (a.0 * SCALE, a.1 * SCALE)
    } else {
        a
    }
}

/// The direction of `a` as a vector of length `SCALE`, or the zero vector when
/// `a` is zero. Each component is rounded toward zero after dividing by the
/// rounded-up length, so the length lies in `[SCALE - 3, SCALE]`
/// ([`lemma_unit_length`]).
pub open spec fn unit(a: P2) -> P2 {
    if len_sq(a) == 0 {
        (0, 0)
    } else {
        scaled(lifted(a), SCALE as int, ceil_sqrt(len_sq(lifted(a))))
    }
}

/// `a` itself when its length is at most `max`; otherwise `a` shortened to length
/// `max` (up to rounding toward zero).
pub open spec fn clamped(a: P2, max: int) -> P2 {
    if len_sq(a) <= max * max {
        a
    } else {
        scaled(a, max, ceil_sqrt(len_sq(a)))
    }
}

/// Truncating division never grows a magnitude past `|a| / b`, and is odd.
pub proof fn lemma_div_trunc(a: int, b: int)
    requires
        b > 0,
    ensures
        abs(div_trunc(a, b)) * b <= abs(a),
        abs(a) < (abs(div_trunc(a, b)) + 1) * b,
        abs(div_trunc(a, b)) <= abs(a),
        div_trunc(-a, b) == -div_trunc(a, b),
        a >= 0 ==> div_trunc(a, b) >= 0,
        a <= 0 ==> div_trunc(a, b) <= 0,
{
    let n = abs(a);
    assert((n / b) * b <= n) by (nonlinear_arith)
        requires
            b > 0,
            n >= 0,
    ;
    assert(n < (n / b + 1) * b) by (nonlinear_arith)
        requires
            b > 0,
            n >= 0,
    ;
    assert(n / b <= n) by (nonlinear_arith)
        requires
            b > 0,
            n >= 0,
    ;
    assert(n / b >= 0) by (nonlinear_arith)
        requires
            b > 0,
            n >= 0,
    ;
    if a == 0 {
        assert(0int / b == 0);
    }
}

/// Scaling `(x, y)` by `m / l`, where `l` is at least the length of `(x, y)`,
/// gives a vector no longer than `m`.
pub proof fn lemma_scaled_within(a: P2, m: int, l: int)
    requires
        m >= 0,
        l > 0,
        len_sq(a) <= l * l,
    ensures
        len_sq(scaled(a, m, l)) <= m * m,
        within(scaled(a, m, l), m),
{
    let q = scaled(a, m, l);
    lemma_div_trunc(a.0 * m, l);
    lemma_div_trunc(a.1 * m, l);
    let qx = abs(q.0);
    let qy = abs(q.1);
    let ax = abs(a.0);
    let ay = abs(a.1);
    assert(abs(a.0 * m) == ax * m) by (nonlinear_arith)
        requires
            ax == abs(a.0),
            m >= 0,
    ;
    assert(abs(a.1 * m) == ay * m) by (nonlinear_arith)
        requires
            ay == abs(a.1),
            m >= 0,
    ;
    assert(qx * qx == q.0 * q.0) by (nonlinear_arith)
        requires
            qx == abs(q.0),
    ;
    assert(qy * qy == q.1 * q.1) by (nonlinear_arith)
        requires
            qy == abs(q.1),
    ;
    assert(ax * ax + ay * ay == len_sq(a)) by (nonlinear_arith)
        requires
            ax == abs(a.0),
            ay == abs(a.1),
    ;
    assert(qx * qx * (l * l) + qy * qy * (l * l) <= (ax * ax + ay * ay) * (m * m))
        by (nonlinear_arith)
        requires
            0 <= qx * l <= ax * m,
            0 <= qy * l <= ay * m,
            qx >= 0,
            qy >= 0,
            l > 0,
    ;
    assert((qx * qx + qy * qy) <= m * m) by (nonlinear_arith)
        requires
            qx * qx * (l * l) + qy * qy * (l * l) <= (ax * ax + ay * ay) * (m * m),
            ax * ax + ay * ay <= l * l,
            l > 0,
            m >= 0,
    ;
    assert(qx <= m && qy <= m) by (nonlinear_arith)
        requires
            qx * qx + qy * qy <= m * m,
            qx >= 0,
            qy >= 0,
            m >= 0,
    ;
}

/// Scaling a vector with components in `[-b, b]` by `num / den` gives components
/// in `[-(b * num / den), b * num / den]`.
pub proof fn lemma_scaled_bound(a: P2, b: int, num: int, den: int)
    requires
        within(a, b),
        b >= 0,
        num >= 0,
        den > 0,
    ensures
        within(scaled(a, num, den), b * num / den),
{
    lemma_div_trunc(a.0 * num, den);
    lemma_div_trunc(a.1 * num, den);
    let qx = abs(div_trunc(a.0 * num, den));
    let qy = abs(div_trunc(a.1 * num, den));
    assert(abs(a.0 * num) <= b * num && abs(a.1 * num) <= b * num) by (nonlinear_arith)
        requires
            -b <= a.0 <= b,
            -b <= a.1 <= b,
            num >= 0,
    ;
    assert(qx <= b * num / den) by (nonlinear_arith)
        requires
            qx * den <= b * num,
            qx >= 0,
            den > 0,
    ;
    assert(qy <= b * num / den) by (nonlinear_arith)
        requires
            qy * den <= b * num,
            qy >= 0,
            den > 0,
    ;
}

/// A vector whose squared length is at most `m * m` has components in `[-m, m]`.
pub proof fn lemma_short_within(a: P2, m: int)
    requires
        m >= 0,
        len_sq(a) <= m * m,
    ensures
        within(a, m),
{
    assert(within(a, m)) by (nonlinear_arith)
        requires
            a.0 * a.0 + a.1 * a.1 <= m * m,
            m >= 0,
    ;
}

/// The vector that [`unit`] divides is at least `SCALE` long, and fits the
/// vector operations when `a` does.
pub proof fn lemma_lifted(a: P2)
    requires
        len_sq(a) > 0,
    ensures
        len_sq(lifted(a)) >= SCALE * SCALE,
        within(a, COMPONENT_LIMIT as int) ==> within(lifted(a), COMPONENT_LIMIT as int),
        lifted((-a.0, -a.1)) == ((-lifted(a).0) as int, (-lifted(a).1) as int),
{
    let s = SCALE as int;
    let e = (-a.0, -a.1);
    assert(len_sq(e) == len_sq(a)) by (nonlinear_arith)
        requires
            e.0 == -a.0,
            e.1 == -a.1,
    ;
    assert(e.0 * s == -(a.0 * s) && e.1 * s == -(a.1 * s)) by (nonlinear_arith)
        requires
            e.0 == -a.0,
            e.1 == -a.1,
    ;
    if len_sq(a) < s * s {
        lemma_short_within(a, s);
        assert(len_sq(lifted(a)) == s * s * len_sq(a)) by (nonlinear_arith)
            requires
                lifted(a) == (a.0 * s, a.1 * s),
        ;
        assert(s * s * len_sq(a) >= s * s) by (nonlinear_arith)
            requires
                len_sq(a) >= 1,
        ;
    }
}

/// A direction vector: length at most `SCALE`, and at least `SCALE - 3` unless
/// zero.
pub proof fn lemma_unit_length(a: P2)
    ensures
        len_sq(unit(a)) <= SCALE * SCALE,
        within(unit(a), SCALE as int),
        len_sq(a) == 0 ==> unit(a) == (0int, 0int),
        len_sq(a) > 0 ==> len_sq(unit(a)) >= (SCALE - 3) * (SCALE - 3),
{
    lemma_len_sq_zero(a);
    if len_sq(a) != 0 {
        lemma_lifted(a);
        let b = lifted(a);
        let n = len_sq(b);
        let l = ceil_sqrt(n);
        lemma_ceil_sqrt_exists(n);
        assert(is_ceil_sqrt(n, l));
        assert(n <= n * n) by (nonlinear_arith)
            requires
                n >= 1,
        ;
        lemma_ceil_sqrt_bounds(n, l, n);
        lemma_scaled_within(b, SCALE as int, l);
        lemma_scaled_long(b, l);
    } else {
        lemma_len_sq_zero((0int, 0int));
    }
}

/// Dividing a vector at least `SCALE` long by its rounded-up length and rounding
/// toward zero loses less than 3 of the `SCALE` units of length.
pub proof fn lemma_scaled_long(b: P2, l: int)
    requires
        len_sq(b) >= SCALE * SCALE,
        is_ceil_sqrt(len_sq(b), l),
    ensures
        len_sq(scaled(b, SCALE as int, l)) >= (SCALE - 3) * (SCALE - 3),
{
    let s = SCALE as int;
    let n = len_sq(b);
    assert(l >= s) by (nonlinear_arith)
        requires
            n <= l * l,
            n >= s * s,
            l >= 0,
            s > 0,
    ;
    let q = scaled(b, s, l);
    lemma_div_trunc(b.0 * s, l);
    lemma_div_trunc(b.1 * s, l);
    let u = abs(q.0);
    let w = abs(q.1);
    let x = abs(b.0 * s);
    let y = abs(b.1 * s);
    assert(x * x + y * y == n * (s * s)) by (nonlinear_arith)
        requires
            x == abs(b.0 * s),
            y == abs(b.1 * s),
            n == b.0 * b.0 + b.1 * b.1,
    ;
    assert(((u + 1) * (u + 1) + (w + 1) * (w + 1)) * (l * l) > x * x + y * y)
        by (nonlinear_arith)
        requires
            (u + 1) * l > x,
            (w + 1) * l > y,
            x >= 0,
            y >= 0,
            u >= 0,
            w >= 0,
            l > 0,
    ;
    assert((l - 1) * (l - 1) * (s * s) >= (s - 1) * (s - 1) * (l * l)) by (nonlinear_arith)
        requires
            l >= s,
            s >= 1,
    ;
    assert(n * (s * s) >= (l - 1) * (l - 1) * (s * s)) by (nonlinear_arith)
        requires
            (l - 1) * (l - 1) < n,
    ;
    assert((u + 1) * (u + 1) + (w + 1) * (w + 1) > (s - 1) * (s - 1)) by (nonlinear_arith)
        requires
            ((u + 1) * (u + 1) + (w + 1) * (w + 1)) * (l * l) > (s - 1) * (s - 1) * (l * l),
            l > 0,
    ;
    let m = s - 3;
    if u * u + w * w < m * m {
        assert(2 * (u + w) < 3 * m) by (nonlinear_arith)
            requires
                u * u + w * w < m * m,
                u >= 0,
                w >= 0,
                m > 0,
        ;
        assert((u + 1) * (u + 1) + (w + 1) * (w + 1) < (m + 2) * (m + 2)) by (nonlinear_arith)
            requires
                u * u + w * w < m * m,
                2 * (u + w) < 3 * m,
                m > 0,
        ;
    }
    assert(u * u == q.0 * q.0 && w * w == q.1 * q.1) by (nonlinear_arith)
        requires
            u == abs(q.0),
            w == abs(q.1),
    ;
}

/// Every natural number has a rounded-up square root.
pub proof fn lemma_ceil_sqrt_exists(n: int)
    requires
        n >= 0,
    ensures
        exists|r: int| #[trigger] is_ceil_sqrt(n, r),
    decreases n,
{
    if n == 0 {
        assert(is_ceil_sqrt(0, 0));
    } else {
        let m = n - 1;
        lemma_ceil_sqrt_exists(m);
        let r = choose|r: int| #[trigger] is_ceil_sqrt(m, r);
        if n <= r * r {
            assert(r > 0) by (nonlinear_arith)
                requires
                    n <= r * r,
                    n >= 1,
                    r >= 0,
            ;
            assert(is_ceil_sqrt(n, r));
        } else {
            assert(n == r * r + 1);
            assert(r * r < n);
            assert(n <= (r + 1) * (r + 1)) by (nonlinear_arith)
                requires
                    n == r * r + 1,
                    r >= 0,
            ;
            assert(is_ceil_sqrt(n, r + 1));
        }
    }
}

/// A 2D vector of fixed-point integers.
#[derive(Clone, Copy, Debug, PartialEq, Eq, Structural)]
pub struct Vec2 {
    pub x: i64,
    pub y: i64,
}

impl View for Vec2 {
    type V = P2;

    open spec fn view(&self) -> P2 {
        (self.x as int, self.y as int)
    }
}

impl Vec2 {
    pub open spec fn new_spec(x: i64, y: i64) -> Vec2 {
        Vec2 { x, y }
    }

    #[verifier::when_used_as_spec(new_spec)]
    pub fn new(x: i64, y: i64) -> (r: Vec2)
        ensures
            r@ == (x as int, y as int),
            r == Vec2::new_spec(x, y),
    {
        Vec2 { x, y }
    }

    pub fn zero() -> (r: Vec2)
        ensures
            r@ == (0int, 0int),
    {
        Vec2 { x: 0, y: 0 }
    }

    pub fn is_zero(&self) -> (r: bool)
        ensures
            r == (self@ == (0int, 0int)),
            r == (len_sq(self@) == 0),
    {
        proof {
            lemma_len_sq_zero(self@);
        }
        self.x == 0 && self.y == 0
    }

    pub fn plus(&self, o: &Vec2) -> (r: Vec2)
        requires
            i64::MIN <= self.x + o.x <= i64::MAX,
            i64::MIN <= self.y + o.y <= i64::MAX,
        ensures
            r@ == vadd(self@, o@),
    {
        Vec2 { x: self.x + o.x, y: self.y + o.y }
    }

    pub fn minus(&self, o: &Vec2) -> (r: Vec2)
        requires
            i64::MIN <= self.x - o.x <= i64::MAX,
            i64::MIN <= self.y - o.y <= i64::MAX,
        ensures
            r@ == vsub(self@, o@),
    {
        Vec2 { x: self.x - o.x, y: self.y - o.y }
    }

    /// Squared length, exact.
    pub fn length_squared(&self) -> (r: u128)
        requires
            within(self@, COMPONENT_LIMIT as int),
        ensures
            r == len_sq(self@),
            r <= 0x2000_0000_0000_0000_0000_0000_0000_0000,
    {
        let x = self.x as i128;
        let y = self.y as i128;
        assert(x * x <= 0x1000_0000_0000_0000_0000_0000_0000_0000 && y * y
            <= 0x1000_0000_0000_0000_0000_0000_0000_0000 && x * x >= 0 && y * y >= 0)
            by (nonlinear_arith)
            requires
                -0x4000_0000_0000_0000 <= x <= 0x4000_0000_0000_0000,
                -0x4000_0000_0000_0000 <= y <= 0x4000_0000_0000_0000,
        ;
        (x * x + y * y) as u128
    }

    /// `self * num / den`, each component rounded toward zero.
    pub fn scale(&self, num: i64, den: i64) -> (r: Vec2)
        requires
            den > 0,
            within(scaled(self@, num as int, den as int), i64::MAX as int),
        ensures
            r@ == scaled(self@, num as int, den as int),
    {
        proof {
            lemma_product_fits(self.x, num);
            lemma_product_fits(self.y, num);
        }
        let x = self.x as i128 * num as i128;
        let y = self.y as i128 * num as i128;
        let qx = div_toward_zero(x, den as i128);
        let qy = div_toward_zero(y, den as i128);
        Vec2 { x: qx as i64, y: qy as i64 }
    }

    /// The direction of `self` at length `SCALE`, or zero for the zero vector.
    pub fn normalize_or_zero(&self) -> (r: Vec2)
        requires
            within(self@, COMPONENT_LIMIT as int),
        ensures
            r@ == unit(self@),
            len_sq(r@) <= SCALE * SCALE,
            within(r@, SCALE as int),
            len_sq(self@) > 0 ==> len_sq(r@) >= (SCALE - 3) * (SCALE - 3),
            (r@ == (0int, 0int)) == (len_sq(self@) == 0),
            r@ == (0int, 0int) || len_sq(r@) >= (SCALE - 3) * (SCALE - 3),
    {
        let n = self.length_squared();
        proof {
            lemma_unit_length(self@);
            lemma_len_sq_zero(unit(self@));
            lemma_len_sq_zero(self@);
        }
        if n == 0 {
            return Vec2::zero();
        }
        proof {
            lemma_lifted(self@);
            if n < 1_000_000 {
                lemma_short_within(self@, SCALE as int);
            }
        }
        let b = if n < 1_000_000 {
            Vec2 { x: self.x * SCALE, y: self.y * SCALE }
        } else {
            *self
        };
        let nb = b.length_squared();
        let l = isqrt_ceil(nb);
        proof {
            lemma_ceil_sqrt_bounds(nb as int, l as int, 0x6000_0000_0000_0000);
            lemma_scaled_within(b@, SCALE as int, l as int);
        }
        b.scale(SCALE, l as i64)
    }

    /// `self` when its length is at most `max`, otherwise `self` shortened to `max`.
    pub fn clamp_length_max(&self, max: i64) -> (r: Vec2)
        requires
            within(self@, COMPONENT_LIMIT as int),
            max >= 0,
        ensures
            r@ == clamped(self@, max as int),
            len_sq(r@) <= max * max,
            within(r@, max as int),
    {
        let n = self.length_squared();
        let m = max as u128;
        assert(m * m <= 0x4000_0000_0000_0000_0000_0000_0000_0000) by (nonlinear_arith)
            requires
                m <= 0x7fff_ffff_ffff_ffff,
        ;
        if n <= m * m {
            proof {
                lemma_short_within(self@, max as int);
            }
            return *self;
        }
        let l = isqrt_ceil(n);
        proof {
            lemma_ceil_sqrt_bounds(n as int, l as int, 0x6000_0000_0000_0000);
            lemma_scaled_within(self@, max as int, l as int);
        }
        self.scale(max, l as i64)
    }
}

proof fn lemma_product_fits(a: i64, b: i64)
    ensures
        -0x4000_0000_0000_0000_0000_0000_0000_0000 <= a * b <= 0x4000_0000_0000_0000_0000_0000_0000_0000,
{
    assert(-0x4000_0000_0000_0000_0000_0000_0000_0000 <= a * b <= 0x4000_0000_0000_0000_0000_0000_0000_0000)
        by (nonlinear_arith)
        requires
            i64::MIN <= a <= i64::MAX,
            i64::MIN <= b <= i64::MAX,
    ;
}

/// A vector with components in `[-b, b]` has squared length at most `2 * b * b`.
pub proof fn lemma_len_sq_bound(a: P2, b: int)
    requires
        within(a, b),
    ensures
        0 <= len_sq(a) <= 2 * b * b,
{
    assert(0 <= a.0 * a.0 + a.1 * a.1 <= 2 * b * b) by (nonlinear_arith)
        requires
            -b <= a.0 <= b,
            -b <= a.1 <= b,
    ;
}

pub proof fn lemma_len_sq_zero(a: P2)
    ensures
        (len_sq(a) == 0) == (a == (0int, 0int)),
        len_sq(a) >= 0,
{
    assert((a.0 * a.0 + a.1 * a.1 == 0) == (a.0 == 0 && a.1 == 0) && a.0 * a.0 + a.1 * a.1 >= 0)
        by (nonlinear_arith)
    ;
}

} // verus!
