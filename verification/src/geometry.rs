//! Planar vectors in fixed-point milli-pixels, and the one primitive every
//! force computation goes through: rescaling a vector to a target length.
//!
//! `scale_to_len(v, t)` returns `v` normalized and scaled to magnitude `t`,
//! computed exactly as `v * t / |v|` with a high-precision integer square
//! root. Its contract pins the result down to the exact integers produced,
//! and additionally bounds the resulting magnitude to within a few
//! milli-pixels of `t` - the facts the speed clamp and the steering bound
//! rest on.

use vstd::prelude::*;

use crate::conf;
use crate::math::{
    div_tz, isqrt_ceil_u128, isqrt_u128, lemma_abs_le_of_sq, lemma_sqrt_ceil, sqrt_ceil,
    sqrt_floor,
};

verus! {

/// Fixed-point precision of normalization: magnitudes are computed to one
/// part in 2^32 before dividing, so a rescaled vector's length is within a
/// couple of units of the target even for tiny inputs.
pub const NORM_SCALE: u64 = 4_294_967_296;

/// Components this large never overflow any intermediate product of the
/// passes (2^30).
pub const COORD_BOUND: i64 = 1_073_741_824;

/// Largest target length `scale_to_len` accepts (2^19); all configured
/// speeds and forces lie far below it.
pub const LEN_BOUND: i64 = 524_288;

/// Components this large never overflow a squared distance (2^29); positions
/// on the map lie far below it.
pub const POS_BOUND: i64 = 536_870_912;

/// A planar vector; the game plays in 2D, so no third axis is carried.
#[derive(Clone, Copy, PartialEq, Eq, Structural, Debug)]
pub struct Vec2 {
    pub x: i64,
    pub y: i64,
}

pub open spec fn abs_i(a: int) -> nat {
    if a >= 0 {
        a as nat
    } else {
        (-a) as nat
    }
}

pub open spec fn sgn_i(a: int) -> int {
    if a > 0 {
        1
    } else if a == 0 {
        0
    } else {
        -1
    }
}

impl Vec2 {
    /// Squared Euclidean magnitude.
    pub open spec fn mag_sq(self) -> int {
        self.x * self.x + self.y * self.y
    }

    /// Both components within `[-b, b]`.
    pub open spec fn in_range(self, b: int) -> bool {
        -b <= self.x <= b && -b <= self.y <= b
    }

    /// A position on the toroidal play field.
    pub open spec fn in_map(self) -> bool {
        0 <= self.x < conf::MAP_SIZE && 0 <= self.y < conf::MAP_SIZE
    }

    pub open spec fn is_zero_spec(self) -> bool {
        self.x == 0 && self.y == 0
    }

    pub fn new(x: i64, y: i64) -> (r: Vec2)
        ensures
            r == (Vec2 { x, y }),
    {
        Vec2 { x, y }
    }

    pub fn zero() -> (r: Vec2)
        ensures
            r == (Vec2 { x: 0, y: 0 }),
    {
        Vec2 { x: 0, y: 0 }
    }

    /// We don't care about z as we play in 2D.
    pub fn is_zero(&self) -> (r: bool)
        ensures
            r <==> self.is_zero_spec(),
    {
        self.x == 0 && self.y == 0
    }

    pub fn add(self, other: Vec2) -> (r: Vec2)
        requires
            i64::MIN <= self.x + other.x <= i64::MAX,
            i64::MIN <= self.y + other.y <= i64::MAX,
        ensures
            r.x == self.x + other.x,
            r.y == self.y + other.y,
    {
        Vec2 { x: self.x + other.x, y: self.y + other.y }
    }

    pub fn sub(self, other: Vec2) -> (r: Vec2)
        requires
            i64::MIN <= self.x - other.x <= i64::MAX,
            i64::MIN <= self.y - other.y <= i64::MAX,
        ensures
            r.x == self.x - other.x,
            r.y == self.y - other.y,
    {
        Vec2 { x: self.x - other.x, y: self.y - other.y }
    }

    /// A new vector perpendicular to this one, turned clockwise.
    pub fn perpendicular(self) -> (r: Vec2)
        requires
            self.x > i64::MIN,
        ensures
            r.x == self.y,
            r.y == -self.x,
    {
        Vec2 { x: self.y, y: -self.x }
    }

    /// A random position somewhere on the map: raw random draws folded into
    /// `[0, MAP_SIZE)` with a modulo.
    pub fn random() -> (r: Vec2)
        ensures
            r.in_map(),
    {
        let raw_x = rand::random::<u64>();
        let raw_y = rand::random::<u64>();
        let x = (raw_x % (conf::MAP_SIZE as u64)) as i64;
        let y = (raw_y % (conf::MAP_SIZE as u64)) as i64;
        Vec2 { x, y }
    }

    /// Squared planar distance to `other`.
    pub open spec fn dist_sq(self, other: Vec2) -> int {
        (self.x - other.x) * (self.x - other.x) + (self.y - other.y) * (self.y - other.y)
    }

    /// Exact squared magnitude; the comparisons of every radius check use it.
    pub fn mag_sq_i64(self) -> (r: i64)
        requires
            self.in_range(COORD_BOUND as int),
        ensures
            r == self.mag_sq(),
    {
        proof {
            assert(0 <= self.x * self.x <= COORD_BOUND * COORD_BOUND && 0 <= self.y * self.y
                <= COORD_BOUND * COORD_BOUND) by (nonlinear_arith)
                requires
                    -COORD_BOUND <= self.x <= COORD_BOUND,
                    -COORD_BOUND <= self.y <= COORD_BOUND,
            ;
        }
        self.x * self.x + self.y * self.y
    }

    /// Exact squared planar distance to `other`.
    pub fn dist_sq_i64(self, other: Vec2) -> (r: i64)
        requires
            self.in_range(POS_BOUND as int),
            other.in_range(POS_BOUND as int),
        ensures
            r == self.dist_sq(other),
            r >= 0,
    {
        let dx = self.x - other.x;
        let dy = self.y - other.y;
        proof {
            assert(0 <= dx * dx <= (2 * POS_BOUND) * (2 * POS_BOUND) && 0 <= dy * dy <= (2
                * POS_BOUND) * (2 * POS_BOUND)) by (nonlinear_arith)
                requires
                    -2 * POS_BOUND <= dx <= 2 * POS_BOUND,
                    -2 * POS_BOUND <= dy <= 2 * POS_BOUND,
            ;
        }
        dx * dx + dy * dy
    }

    /// Calculates Euclidean distance in the plane, rounded down to whole
    /// milli-pixels.
    pub fn distance2(self, other: Vec2) -> (r: i64)
        requires
            self.in_range(POS_BOUND as int),
            other.in_range(POS_BOUND as int),
        ensures
            r == sqrt_floor(self.dist_sq(other) as nat),
            r * r <= self.dist_sq(other),
            self.dist_sq(other) < (r + 1) * (r + 1),
            0 <= r <= 4 * POS_BOUND,
    {
        let d2 = self.dist_sq_i64(other);
        let r128 = isqrt_u128(d2 as u128);
        proof {
            crate::math::lemma_sqrt_floor(d2 as nat);
            assert(d2 <= (4 * POS_BOUND as int) * (4 * POS_BOUND as int)) by (nonlinear_arith)
                requires
                    d2 == (self.x - other.x) * (self.x - other.x) + (self.y - other.y) * (self.y
                        - other.y),
                    -POS_BOUND <= self.x <= POS_BOUND,
                    -POS_BOUND <= self.y <= POS_BOUND,
                    -POS_BOUND <= other.x <= POS_BOUND,
                    -POS_BOUND <= other.y <= POS_BOUND,
                    POS_BOUND == 536_870_912i64,
            ;
            lemma_abs_le_of_sq(sqrt_floor(d2 as nat) as int, 4 * POS_BOUND as int);
        }
        r128 as i64
    }
}

/// Relies on rand::random: a fresh value of the asked-for type from the
/// thread-local generator. Nothing can be promised of a random value, so
/// this carries no `ensures`; whatever needs a bounded value folds the raw
/// one into range itself.
pub assume_specification<T>[ rand::random::<T> ]() -> (r: T)
    where
        rand::distributions::Standard: rand::distributions::Distribution<T>,
;

/// Componentwise difference; exact whenever the components stay in range.
pub open spec fn vsub(a: Vec2, b: Vec2) -> Vec2 {
    Vec2 { x: (a.x - b.x) as i64, y: (a.y - b.y) as i64 }
}

/// Absolute value into the unsigned world.
pub fn abs_i64(a: i64) -> (r: u64)
    requires
        a > i64::MIN,
    ensures
        r == abs_i(a as int),
{
    if a < 0 {
        (-a) as u64
    } else {
        a as u64
    }
}

/// The denominator a rescaled component is divided by: the magnitude of `v`,
/// scaled up by `NORM_SCALE` and rounded up.
pub open spec fn norm_denom(v: Vec2) -> nat {
    sqrt_ceil((v.mag_sq() * NORM_SCALE * NORM_SCALE) as nat)
}

/// One rescaled component: `c * t / |v|`, truncated toward zero.
pub open spec fn scale_coord(c: int, t: int, m: nat) -> int {
    sgn_i(c) * ((abs_i(c) as int) * (abs_i(t) as int) * (NORM_SCALE as int) / (m as int))
}

pub open spec fn scale_spec(v: Vec2, t: int) -> Vec2 {
    if v.is_zero_spec() {
        v
    } else {
        Vec2 {
            x: scale_coord(v.x as int, t, norm_denom(v)) as i64,
            y: scale_coord(v.y as int, t, norm_denom(v)) as i64,
        }
    }
}

/// The arithmetic core of `scale_to_len`: dividing the scaled-up components
/// by the rounded-up scaled magnitude lands within a few units of the target
/// length `t`, and never above it.
proof fn lemma_scale_bounds(xa: int, ya: int, t: int, k: int, s: int, m: int, ax: int, ay: int)
    requires
        xa >= 0,
        ya >= 0,
        t >= 1,
        k >= 1,
        s == xa * xa + ya * ya,
        s >= 1,
        s * (k * k) <= m * m,
        (m - 1) * (m - 1) < s * (k * k),
        m >= 1,
        m >= k,
        2 * (t * t) <= 128 * k,
        ax == xa * (t * k) / m,
        ay == ya * (t * k) / m,
    ensures
        0 <= ax <= t,
        0 <= ay <= t,
        ax * ax + ay * ay <= t * t,
        ax * ax + ay * ay >= t * t - 4 * t - 128,
{
    let p = t * k;
    let u = xa * p;
    let w = ya * p;
    assert(p >= 1 && u >= 0 && w >= 0) by (nonlinear_arith)
        requires
            xa >= 0,
            ya >= 0,
            t >= 1,
            k >= 1,
            p == t * k,
            u == xa * p,
            w == ya * p,
    ;
    vstd::arithmetic::div_mod::lemma_fundamental_div_mod(u, m);
    vstd::arithmetic::div_mod::lemma_fundamental_div_mod(w, m);
    assert(ax * m == u - u % m) by (nonlinear_arith)
        requires
            u == m * ax + u % m,
    ;
    assert(ay * m == w - w % m) by (nonlinear_arith)
        requires
            w == m * ay + w % m,
    ;
    vstd::arithmetic::div_mod::lemma_div_pos_is_pos(u, m);
    vstd::arithmetic::div_mod::lemma_div_pos_is_pos(w, m);
    assert(ax >= 0 && ay >= 0);
    // The squared numerators sum to the squared magnitude, scaled.
    assert(u * u == (xa * xa) * (p * p) && w * w == (ya * ya) * (p * p)) by (nonlinear_arith)
        requires
            u == xa * p,
            w == ya * p,
    ;
    assert(u * u + w * w == s * (p * p)) by (nonlinear_arith)
        requires
            u * u == (xa * xa) * (p * p),
            w * w == (ya * ya) * (p * p),
            s == xa * xa + ya * ya,
    ;
    assert(p * p == (t * t) * (k * k)) by (nonlinear_arith)
        requires
            p == t * k,
    ;
    assert(s * (p * p) == (t * t) * (s * (k * k))) by (nonlinear_arith)
        requires
            p * p == (t * t) * (k * k),
    ;
    assert((t * t) * (s * (k * k)) <= (t * t) * (m * m)) by (nonlinear_arith)
        requires
            s * (k * k) <= m * m,
            t >= 1,
    ;
    // Upper bound.
    assert((ax * ax) * (m * m) <= u * u && (ay * ay) * (m * m) <= w * w) by (nonlinear_arith)
        requires
            0 <= ax * m <= u,
            0 <= ay * m <= w,
    ;
    assert((ax * ax + ay * ay) * (m * m) == (ax * ax) * (m * m) + (ay * ay) * (m * m))
        by (nonlinear_arith);
    assert((ax * ax + ay * ay) * (m * m) <= (t * t) * (m * m));
    assert(ax * ax + ay * ay <= t * t) by (nonlinear_arith)
        requires
            (ax * ax + ay * ay) * (m * m) <= (t * t) * (m * m),
            m >= 1,
    ;
    assert(ax * ax <= t * t && ay * ay <= t * t) by (nonlinear_arith)
        requires
            ax * ax + ay * ay <= t * t,
    ;
    lemma_abs_le_of_sq(ax, t);
    lemma_abs_le_of_sq(ay, t);
    // Lower bound: each truncated component loses less than one denominator.
    assert((ax * ax) * (m * m) >= (u - m) * (u - m) - m * m) by (nonlinear_arith)
        requires
            ax * m >= u - m,
            ax * m >= 0,
            u >= 0,
            m >= 1,
    ;
    assert((ay * ay) * (m * m) >= (w - m) * (w - m) - m * m) by (nonlinear_arith)
        requires
            ay * m >= w - m,
            ay * m >= 0,
            w >= 0,
            m >= 1,
    ;
    assert((u + w) * (u + w) <= 2 * (u * u + w * w)) by (nonlinear_arith);
    assert(u + w <= 2 * (t * m)) by (nonlinear_arith)
        requires
            (u + w) * (u + w) <= 2 * ((t * t) * (m * m)),
            u + w >= 0,
            t >= 1,
            m >= 1,
    ;
    assert((u - m) * (u - m) + (w - m) * (w - m) - 2 * (m * m) == u * u + w * w - 2 * (m * (u + w)))
        by (nonlinear_arith);
    assert(m * (u + w) <= m * (2 * (t * m))) by (nonlinear_arith)
        requires
            u + w <= 2 * (t * m),
            m >= 1,
    ;
    assert(m * (2 * (t * m)) == 2 * (t * (m * m))) by (nonlinear_arith);
    assert((t * t) * (s * (k * k)) >= (t * t) * ((m - 1) * (m - 1)) + 1) by (nonlinear_arith)
        requires
            s * (k * k) >= (m - 1) * (m - 1) + 1,
            t >= 1,
    ;
    assert((t * t) * ((m - 1) * (m - 1)) == (t * t) * (m * m) - 2 * ((t * t) * m) + t * t)
        by (nonlinear_arith);
    assert((ax * ax + ay * ay) * (m * m) >= (t * t) * (m * m) - 2 * ((t * t) * m) - 4 * (t * (m
        * m)));
    assert(ax * ax + ay * ay >= t * t - 4 * t - 128) by (nonlinear_arith)
        requires
            (ax * ax + ay * ay) * (m * m) >= (t * t) * (m * m) - 2 * ((t * t) * m) - 4 * (t * (m
                * m)),
            ax * ax + ay * ay <= t * t,
            2 * (t * t) <= 128 * k,
            m >= k,
            k >= 1,
            t >= 1,
            m >= 1,
    ;
}

/// Rescales `v` to length `t`: the direction of `v` is kept, the magnitude
/// becomes `t` up to a rounding error of a few milli-pixels, never above.
/// A zero vector stays zero instead of dividing by a zero length.
pub fn scale_to_len(v: Vec2, t: i64) -> (r: Vec2)
    requires
        v.in_range(COORD_BOUND as int),
        1 <= t <= LEN_BOUND,
    ensures
        r == scale_spec(v, t as int),
        r.in_range(t as int),
        r.mag_sq() <= t * t,
        !v.is_zero_spec() ==> r.mag_sq() >= t * t - 4 * t - 128,
        r.x * v.x >= 0,
        r.y * v.y >= 0,
{
    if v.x == 0 && v.y == 0 {
        proof {
            assert(v.mag_sq() == 0);
            assert(t * t >= 1) by (nonlinear_arith)
                requires
                    t >= 1,
            ;
        }
        return v;
    }
    let xa = abs_i64(v.x) as u128;
    let ya = abs_i64(v.y) as u128;
    proof {
        assert((xa as int) * (xa as int) == v.x * v.x && (xa as int) * (xa as int) <= COORD_BOUND
            * COORD_BOUND) by (nonlinear_arith)
            requires
                v.x >= 0 ==> xa as int == v.x as int,
                v.x < 0 ==> xa as int == -(v.x as int),
                -COORD_BOUND <= v.x <= COORD_BOUND,
        ;
        assert((ya as int) * (ya as int) == v.y * v.y && (ya as int) * (ya as int) <= COORD_BOUND
            * COORD_BOUND) by (nonlinear_arith)
            requires
                v.y >= 0 ==> ya as int == v.y as int,
                v.y < 0 ==> ya as int == -(v.y as int),
                -COORD_BOUND <= v.y <= COORD_BOUND,
        ;
        assert(xa >= 1 || ya >= 1);
        assert((xa as int) * (xa as int) + (ya as int) * (ya as int) >= 1) by (nonlinear_arith)
            requires
                xa >= 0,
                ya >= 0,
                xa >= 1 || ya >= 1,
        ;
    }
    let s = xa * xa + ya * ya;
    let k = NORM_SCALE as u128;
    proof {
        assert((s as int) * (k as int) * (k as int) <= 0x2000_0000_0000_0000_0000_0000_0000_0000int)
            by (nonlinear_arith)
            requires
                0 <= s <= 2 * (COORD_BOUND as int) * (COORD_BOUND as int),
                k == NORM_SCALE,
                COORD_BOUND == 1_073_741_824i64,
                NORM_SCALE == 4_294_967_296u64,
        ;
        assert((s as int) * (k as int) * (k as int) >= 1) by (nonlinear_arith)
            requires
                s >= 1,
                k >= 1,
        ;
    }
    let m = isqrt_ceil_u128(s * k * k);
    proof {
        lemma_sqrt_ceil((s * k * k) as nat);
        assert(m >= 1);
        assert((m as int) * (m as int) >= (s as int) * (k as int) * (k as int) >= (k as int) * (
        k as int)) by (nonlinear_arith)
            requires
                (s * k * k) as int <= (m as int) * (m as int),
                s >= 1,
                k >= 1,
                m >= 0,
        ;
        assert(m >= k) by {
            if (m as int) < k as int {
                assert((m as int) * (m as int) < (k as int) * (k as int)) by (nonlinear_arith)
                    requires
                        0 <= m < (k as int),
                ;
            }
        }
    }
    proof {
        assert((xa as int) * (t as int) * (k as int) <= 0x4000_0000int * 0x80_000int
            * 0x1_0000_0000int && (ya as int) * (t as int) * (k as int) <= 0x4000_0000int
            * 0x80_000int * 0x1_0000_0000int) by (nonlinear_arith)
            requires
                0 <= xa <= 0x4000_0000int,
                0 <= ya <= 0x4000_0000int,
                1 <= t <= 0x80_000int,
                k == 0x1_0000_0000int,
        ;
    }
    let ux = xa * (t as u128) * k;
    let uy = ya * (t as u128) * k;
    let ax = ux / m;
    let ay = uy / m;
    proof {
        assert((xa as int) * (t as int) * (k as int) == (xa as int) * ((t as int) * (k as int))
            && (ya as int) * (t as int) * (k as int) == (ya as int) * ((t as int) * (k as int)))
            by (nonlinear_arith);
        assert((s as int) * (k as int) * (k as int) == (s as int) * ((k as int) * (k as int)))
            by (nonlinear_arith);
        assert(2 * ((t as int) * (t as int)) <= 128 * (k as int)) by (nonlinear_arith)
            requires
                1 <= t <= 0x80_000int,
                k == 0x1_0000_0000int,
        ;
        lemma_scale_bounds(
            xa as int,
            ya as int,
            t as int,
            k as int,
            s as int,
            m as int,
            ax as int,
            ay as int,
        );
        assert((-(ax as int)) * (-(ax as int)) == (ax as int) * (ax as int) && (-(ay as int)) * (-(
        ay as int)) == (ay as int) * (ay as int)) by (nonlinear_arith);
    }
    let rx: i64 = if v.x < 0 {
        -(ax as i64)
    } else {
        ax as i64
    };
    let ry: i64 = if v.y < 0 {
        -(ay as i64)
    } else {
        ay as i64
    };
    proof {
        assert(rx * v.x >= 0 && ry * v.y >= 0) by (nonlinear_arith)
            requires
                v.x < 0 ==> rx <= 0,
                v.x >= 0 ==> rx >= 0,
                v.y < 0 ==> ry <= 0,
                v.y >= 0 ==> ry >= 0,
        ;
        // The computed components are exactly the specified ones.
        assert(v.mag_sq() == s as int);
        assert(v.mag_sq() * NORM_SCALE * NORM_SCALE == (s as int) * (k as int) * (k as int));
        assert(norm_denom(v) == m as nat);
        assert(abs_i(v.x as int) == xa as nat && abs_i(v.y as int) == ya as nat);
        assert(abs_i(t as int) == t as nat);
        assert((abs_i(v.x as int) as int) * (abs_i(t as int) as int) * (NORM_SCALE as int)
            == ux as int);
        assert((abs_i(v.y as int) as int) * (abs_i(t as int) as int) * (NORM_SCALE as int)
            == uy as int);
        assert(scale_coord(v.x as int, t as int, norm_denom(v)) == sgn_i(v.x as int) * (ax as int));
        assert(scale_coord(v.y as int, t as int, norm_denom(v)) == sgn_i(v.y as int) * (ay as int));
        if v.x < 0 {
            assert(sgn_i(v.x as int) * (ax as int) == -(ax as int)) by (nonlinear_arith)
                requires
                    sgn_i(v.x as int) == -1,
            ;
        } else {
            assert(sgn_i(v.x as int) * (ax as int) == if v.x == 0 {
                0int
            } else {
                ax as int
            });
            if v.x == 0 {
                assert(ax == 0) by {
                    assert(xa == 0);
                    vstd::arithmetic::div_mod::lemma_div_of0(m as int);
                }
            }
        }
        if v.y < 0 {
            assert(sgn_i(v.y as int) * (ay as int) == -(ay as int)) by (nonlinear_arith)
                requires
                    sgn_i(v.y as int) == -1,
            ;
        } else {
            assert(sgn_i(v.y as int) * (ay as int) == if v.y == 0 {
                0int
            } else {
                ay as int
            }) by (nonlinear_arith)
                requires
                    v.y >= 0,
                    sgn_i(v.y as int) == if v.y == 0 {
                        0int
                    } else {
                        1int
                    },
            ;
            if v.y == 0 {
                assert(ay == 0) by {
                    assert(ya == 0);
                    vstd::arithmetic::div_mod::lemma_div_of0(m as int);
                }
            }
        }
        assert(rx as int == scale_coord(v.x as int, t as int, norm_denom(v)));
        assert(ry as int == scale_coord(v.y as int, t as int, norm_denom(v)));
    }
    Vec2 { x: rx, y: ry }
}

/// Keeps `v` as it is while its magnitude is within `bound`, and rescales it
/// down to `bound` otherwise.
pub open spec fn clamp_mag_spec(v: Vec2, bound: int) -> Vec2 {
    if v.mag_sq() <= bound * bound {
        v
    } else {
        scale_spec(v, bound)
    }
}

/// Clamps the magnitude of `v` to at most `bound`, keeping its direction.
pub fn clamp_mag(v: Vec2, bound: i64) -> (r: Vec2)
    requires
        v.in_range(COORD_BOUND as int),
        1 <= bound <= LEN_BOUND,
    ensures
        r == clamp_mag_spec(v, bound as int),
        r.mag_sq() <= bound * bound,
        v.mag_sq() <= bound * bound ==> r == v,
{
    let m2 = v.mag_sq_i64();
    proof {
        assert(bound * bound <= LEN_BOUND * LEN_BOUND) by (nonlinear_arith)
            requires
                1 <= bound <= LEN_BOUND,
        ;
    }
    if m2 <= bound * bound {
        v
    } else {
        scale_to_len(v, bound)
    }
}

} // verus!
