//! Fixed-point vectors in the plane and in space, and the rotation that the
//! movement state carries for its host.

use vstd::prelude::*;
use crate::fixed::{
    ceil_sqrt, floor_sqrt, in_reach, isqrt, isqrt_wide_ceil, lemma_ceil_sqrt_bounds,
    lemma_floor_sqrt_bounds,
    lemma_floor_sqrt_monotone,
    lemma_scale_toward_zero, lemma_square_monotone, magnitude, scale, scale_toward_zero, LIMIT,
    REACH, UNIT,
};

verus! {

/// A vector in the ground plane.
#[derive(Clone, Copy, Debug, PartialEq, Eq, Structural)]
pub struct Vec2 {
    pub x: i64,
    pub y: i64,
}

/// A vector in space; `y` points up.
#[derive(Clone, Copy, Debug, PartialEq, Eq, Structural)]
pub struct Vec3 {
    pub x: i64,
    pub y: i64,
    pub z: i64,
}

/// A rotation as its four quaternion components. The movement rules store
/// rotations and hand them back; they never compute with one.
#[derive(Clone, Copy, Debug, PartialEq, Eq, Structural)]
pub struct Quat {
    pub x: i64,
    pub y: i64,
    pub z: i64,
    pub w: i64,
}

/// The plane vector with the given components.
pub open spec fn vec2(x: int, y: int) -> Vec2 {
    Vec2 { x: x as i64, y: y as i64 }
}

/// The space vector with the given components.
pub open spec fn vec3(x: int, y: int, z: int) -> Vec3 {
    Vec3 { x: x as i64, y: y as i64, z: z as i64 }
}

impl Quat {
    /// The rotation that turns nothing.
    pub open spec fn identity() -> Quat {
        Quat { x: 0, y: 0, z: 0, w: UNIT }
    }

    /// The rotation that turns nothing.
    pub fn new_identity() -> (r: Quat)
        ensures
            r == Quat::identity(),
    {
        Quat { x: 0, y: 0, z: 0, w: UNIT }
    }
}

impl Vec2 {
    /// The zero vector.
    pub open spec fn zero() -> Vec2 {
        Vec2 { x: 0, y: 0 }
    }

    /// Both components within `bound` of zero.
    pub open spec fn within(self, bound: int) -> bool {
        magnitude(self.x as int) <= bound && magnitude(self.y as int) <= bound
    }

    /// Both components can be stored.
    pub open spec fn wf(self) -> bool {
        self.within(LIMIT as int)
    }

    /// The squared length.
    pub open spec fn norm_sq(self) -> int {
        self.x * self.x + self.y * self.y
    }

    /// The length, rounded down to whole steps.
    pub open spec fn length(self) -> int {
        floor_sqrt(self.norm_sq() as nat) as int
    }

    /// The length, rounded up to whole steps.
    pub open spec fn length_up(self) -> int {
        ceil_sqrt(self.norm_sq() as nat) as int
    }

    /// The inner product with `other`.
    pub open spec fn dot(self, other: Vec2) -> int {
        self.x * other.x + self.y * other.y
    }

    /// Each component times `num / den`, rounded toward zero.
    pub open spec fn scaled(self, num: int, den: int) -> Vec2 {
        vec2(scale_toward_zero(self.x as int, num, den), scale_toward_zero(self.y as int, num, den))
    }

    /// The length in thousandths of a step, rounded up.
    pub open spec fn fine_length_up(self) -> int {
        ceil_sqrt((self.norm_sq() * (UNIT * UNIT)) as nat) as int
    }

    /// The vector of the same direction and of length `UNIT`, with each
    /// component rounded toward zero; the zero vector stays zero.
    pub open spec fn normalized(self) -> Vec2 {
        if self.norm_sq() == 0 {
            Vec2::zero()
        } else {
            self.scaled(UNIT * UNIT, self.fine_length_up())
        }
    }

    /// The vector shortened to length `max` where it is longer.
    pub open spec fn clamped_length(self, max: int) -> Vec2 {
        if self.norm_sq() > max * max { self.scaled(max, self.length_up()) } else { self }
    }

    /// A direction: not zero, and no longer than one unit.
    pub open spec fn is_direction(self) -> bool {
        self.within(UNIT as int) && 0 < self.norm_sq() <= UNIT * UNIT
    }

    /// `self` keeps the sign of every component of `before` and lengthens
    /// none.
    pub open spec fn shrinks(self, before: Vec2) -> bool {
        &&& magnitude(self.x as int) <= magnitude(before.x as int)
        &&& magnitude(self.y as int) <= magnitude(before.y as int)
        &&& (before.x >= 0 ==> self.x >= 0)
        &&& (before.x <= 0 ==> self.x <= 0)
        &&& (before.y >= 0 ==> self.y >= 0)
        &&& (before.y <= 0 ==> self.y <= 0)
    }

    /// Whether both components are within `bound` of zero.
    pub fn fits(&self, bound: i64) -> (r: bool)
        requires
            0 <= bound,
        ensures
            r == self.within(bound as int),
    {
        -bound <= self.x && self.x <= bound && -bound <= self.y && self.y <= bound
    }

    /// Whether the vector is a direction.
    pub fn points(&self) -> (r: bool)
        ensures
            r == self.is_direction(),
    {
        if self.fits(UNIT) {
            let n = self.squared_length();
            0 < n && n <= (UNIT * UNIT) as u64
        } else {
            false
        }
    }

    /// The zero vector.
    pub fn new_zero() -> (r: Vec2)
        ensures
            r == Vec2::zero(),
    {
        Vec2 { x: 0, y: 0 }
    }

    /// Whether both components are zero.
    pub fn is_zero(&self) -> (r: bool)
        ensures
            r == (self.norm_sq() == 0),
            r == (*self == Vec2::zero()),
    {
        proof {
            lemma_norm_sq_zero(self.x as int, self.y as int);
        }
        self.x == 0 && self.y == 0
    }

    /// The squared length.
    pub fn squared_length(&self) -> (r: u64)
        requires
            self.within(REACH as int),
        ensures
            r == self.norm_sq(),
            r <= 2 * REACH * REACH,
    {
        proof {
            lemma_square_in_reach(self.x as int);
            lemma_square_in_reach(self.y as int);
        }
        let xx: i64 = self.x * self.x;
        let yy: i64 = self.y * self.y;
        (xx + yy) as u64
    }

    /// The length, rounded down.
    pub fn floor_length(&self) -> (r: u64)
        requires
            self.within(REACH as int),
        ensures
            r == self.length(),
            magnitude(self.x as int) <= r,
            magnitude(self.y as int) <= r,
            r <= 2 * REACH,
            (r == 0) == (self.norm_sq() == 0),
    {
        let n = self.squared_length();
        let r = isqrt(n);
        proof {
            lemma_length_covers(self.x as int, self.y as int);
            lemma_floor_sqrt_bounds(n as nat);
            if r > 2 * REACH {
                lemma_square_monotone(2 * REACH + 1, r as int);
            }
            if r == 0 {
                assert((r + 1) * (r + 1) == 1) by (nonlinear_arith)
                    requires
                        r == 0,
                ;
            }
        }
        r
    }

    /// The length, rounded up.
    pub fn ceil_length(&self) -> (r: u64)
        requires
            self.within(REACH as int),
        ensures
            r == self.length_up(),
            self.length() <= r <= self.length() + 1,
            self.norm_sq() <= r * r,
            magnitude(self.x as int) <= r,
            magnitude(self.y as int) <= r,
            r <= 2 * REACH + 1,
            (r == 0) == (self.norm_sq() == 0),
    {
        let f = self.floor_length();
        proof {
            lemma_ceil_sqrt_bounds(self.norm_sq() as nat);
        }
        let n = self.squared_length();
        assert(f * f <= 4 * REACH * REACH) by (nonlinear_arith)
            requires
                0 <= f <= 2 * REACH,
        ;
        if f * f == n { f } else { f + 1 }
    }

    /// The inner product with `other`.
    pub fn inner(&self, other: &Vec2) -> (r: i64)
        requires
            self.within(REACH as int),
            other.within(REACH as int),
        ensures
            r == self.dot(*other),
            -2 * REACH * REACH <= r <= 2 * REACH * REACH,
    {
        proof {
            lemma_product_in_reach(self.x as int, other.x as int);
            lemma_product_in_reach(self.y as int, other.y as int);
        }
        self.x * other.x + self.y * other.y
    }

    /// Each component times `num / den`, rounded toward zero.
    pub fn scale(&self, num: u64, den: u64) -> (r: Vec2)
        requires
            self.within(REACH as int),
            0 < den,
            num <= den || (in_reach(scale_toward_zero(self.x as int, num as int, den as int))
                && in_reach(scale_toward_zero(self.y as int, num as int, den as int))),
        ensures
            r == self.scaled(num as int, den as int),
            r.x == scale_toward_zero(self.x as int, num as int, den as int),
            r.y == scale_toward_zero(self.y as int, num as int, den as int),
            num <= den ==> r.shrinks(*self),
    {
        proof {
            lemma_scale_toward_zero(self.x as int, num as int, den as int);
            lemma_scale_toward_zero(self.y as int, num as int, den as int);
        }
        Vec2 { x: scale(self.x, num, den), y: scale(self.y, num, den) }
    }

    /// The unit vector along `self`, or zero for the zero vector.
    pub fn normalize_or_zero(&self) -> (r: Vec2)
        requires
            self.within(REACH as int),
        ensures
            r == self.normalized(),
            r.norm_sq() <= UNIT * UNIT,
            r.within(UNIT as int),
            self.norm_sq() != 0 ==> r.is_direction(),
    {
        let n = self.squared_length();
        if n == 0 {
            proof {
                lemma_norm_bounds_components(0, 0, UNIT as int);
            }
            Vec2 { x: 0, y: 0 }
        } else {
            assert(n * (UNIT * UNIT) <= 2 * REACH * REACH * 1_000_000) by (nonlinear_arith)
                requires
                    n <= 2 * REACH * REACH,
                    UNIT == 1000,
            ;
            let fine: u128 = (n as u128) * ((UNIT * UNIT) as u128);
            let len: u128 = isqrt_wide_ceil(fine);
            proof {
                lemma_normalized(*self);
                lemma_ceil_sqrt_bounds(fine as nat);
                if len > 0xffff_ffff_ffff {
                    lemma_square_monotone(0xffff_ffff_ffff, len - 1);
                    assert(0xffff_ffff_ffff * 0xffff_ffff_ffff > 2 * REACH * REACH * 1_000_000)
                        by (nonlinear_arith);
                }
            }
            let r = Vec2 {
                x: scale(self.x, (UNIT * UNIT) as u64, len as u64),
                y: scale(self.y, (UNIT * UNIT) as u64, len as u64),
            };
            proof {
                lemma_norm_bounds_components(r.x as int, r.y as int, UNIT as int);
            }
            r
        }
    }

    /// The vector shortened to length `max` where it is longer.
    pub fn clamp_length(&self, max: i64) -> (r: Vec2)
        requires
            self.within(REACH as int),
            0 <= max <= LIMIT,
        ensures
            r == self.clamped_length(max as int),
            r.norm_sq() <= max * max,
            r.shrinks(*self),
            r.within(max as int),
    {
        let n = self.squared_length();
        assert(max * max <= LIMIT * LIMIT) by (nonlinear_arith)
            requires
                0 <= max <= LIMIT,
        ;
        let cap: u64 = (max * max) as u64;
        if n > cap {
            let len = self.ceil_length();
            proof {
                if len < max {
                    lemma_square_monotone(len as int, max as int);
                }
                lemma_scaled_norm(*self, max as int, len as int);
            }
            let r = self.scale(max as u64, len);
            proof {
                lemma_norm_bounds_components(r.x as int, r.y as int, max as int);
            }
            r
        } else {
            proof {
                lemma_norm_bounds_components(self.x as int, self.y as int, max as int);
            }
            *self
        }
    }
}

impl Vec3 {
    /// The direction of the ground when nothing has turned it: straight
    /// down.
    pub open spec fn down() -> Vec3 {
        Vec3 { x: 0, y: (-UNIT) as i64, z: 0 }
    }

    /// All components within `bound` of zero.
    pub open spec fn within(self, bound: int) -> bool {
        &&& magnitude(self.x as int) <= bound
        &&& magnitude(self.y as int) <= bound
        &&& magnitude(self.z as int) <= bound
    }

    /// All components can be stored.
    pub open spec fn wf(self) -> bool {
        self.within(LIMIT as int)
    }

    /// The squared length.
    pub open spec fn norm_sq(self) -> int {
        self.x * self.x + self.y * self.y + self.z * self.z
    }

    /// A direction: not zero, and no longer than one unit.
    pub open spec fn is_direction(self) -> bool {
        self.within(UNIT as int) && 0 < self.norm_sq() <= UNIT * UNIT
    }

    /// The largest magnitude among the components.
    pub open spec fn largest(self) -> int {
        let a = magnitude(self.x as int);
        let b = magnitude(self.y as int);
        let c = magnitude(self.z as int);
        if a >= b && a >= c {
            a
        } else if b >= c {
            b
        } else {
            c
        }
    }

    /// Each component times `num / den`, rounded toward zero.
    pub open spec fn scaled(self, num: int, den: int) -> Vec3 {
        vec3(
            scale_toward_zero(self.x as int, num, den),
            scale_toward_zero(self.y as int, num, den),
            scale_toward_zero(self.z as int, num, den),
        )
    }

    /// Whether all components are within `bound` of zero.
    pub fn fits(&self, bound: i64) -> (r: bool)
        requires
            0 <= bound,
        ensures
            r == self.within(bound as int),
    {
        -bound <= self.x && self.x <= bound && -bound <= self.y && self.y <= bound && -bound
            <= self.z && self.z <= bound
    }

    /// Whether the vector is a direction.
    pub fn points(&self) -> (r: bool)
        ensures
            r == self.is_direction(),
    {
        if self.fits(UNIT) {
            proof {
                lemma_square_in_reach(self.x as int);
                lemma_square_in_reach(self.y as int);
                lemma_square_in_reach(self.z as int);
            }
            let n: i64 = self.x * self.x + self.y * self.y + self.z * self.z;
            0 < n && n <= UNIT * UNIT
        } else {
            false
        }
    }

    /// Straight down.
    pub fn new_down() -> (r: Vec3)
        ensures
            r == Vec3::down(),
            r.is_direction(),
    {
        let r = Vec3 { x: 0, y: -UNIT, z: 0 };
        assert(r.norm_sq() == UNIT * UNIT) by (nonlinear_arith)
            requires
                r.x == 0,
                r.y == -UNIT,
                r.z == 0,
                r.norm_sq() == r.x * r.x + r.y * r.y + r.z * r.z,
        ;
        r
    }

    /// Straight up.
    pub fn new_up() -> (r: Vec3)
        ensures
            r == (Vec3 { x: 0, y: UNIT, z: 0 }),
            r.is_direction(),
    {
        let r = Vec3 { x: 0, y: UNIT, z: 0 };
        assert(r.norm_sq() == UNIT * UNIT) by (nonlinear_arith)
            requires
                r.x == 0,
                r.y == UNIT,
                r.z == 0,
                r.norm_sq() == r.x * r.x + r.y * r.y + r.z * r.z,
        ;
        r
    }

    /// The level vector `(x, 0, z)` for a plane vector `(x, z)`.
    pub fn new_level(plane: &Vec2) -> (r: Vec3)
        ensures
            r == (Vec3 { x: plane.x, y: 0, z: plane.y }),
            r.norm_sq() == plane.norm_sq(),
            r.within(UNIT as int) == plane.within(UNIT as int),
            r.is_direction() == plane.is_direction(),
    {
        let r = Vec3 { x: plane.x, y: 0, z: plane.y };
        assert(r.norm_sq() == plane.norm_sq()) by (nonlinear_arith)
            requires
                r.x == plane.x,
                r.y == 0,
                r.z == plane.y,
                r.norm_sq() == r.x * r.x + r.y * r.y + r.z * r.z,
                plane.norm_sq() == plane.x * plane.x + plane.y * plane.y,
        ;
        r
    }

    /// Each component times `num / den`, rounded toward zero.
    pub fn scale(&self, num: u64, den: u64) -> (r: Vec3)
        requires
            self.within(REACH as int),
            0 < den,
            num <= den || (in_reach(scale_toward_zero(self.x as int, num as int, den as int))
                && in_reach(scale_toward_zero(self.y as int, num as int, den as int))
                && in_reach(scale_toward_zero(self.z as int, num as int, den as int))),
        ensures
            r == self.scaled(num as int, den as int),
            r.x == scale_toward_zero(self.x as int, num as int, den as int),
            r.y == scale_toward_zero(self.y as int, num as int, den as int),
            r.z == scale_toward_zero(self.z as int, num as int, den as int),
            r.within(REACH as int),
            num <= den ==> r.within(self.largest()),
    {
        proof {
            lemma_scale_toward_zero(self.x as int, num as int, den as int);
            lemma_scale_toward_zero(self.y as int, num as int, den as int);
            lemma_scale_toward_zero(self.z as int, num as int, den as int);
        }
        Vec3 { x: scale(self.x, num, den), y: scale(self.y, num, den), z: scale(self.z, num, den) }
    }
}

/// A sum of two squares is zero only where both numbers are.
pub proof fn lemma_norm_sq_zero(x: int, y: int)
    ensures
        (x * x + y * y == 0) == (x == 0 && y == 0),
        x * x + y * y >= 0,
{
    assert((x * x + y * y == 0) == (x == 0 && y == 0) && x * x + y * y >= 0) by (nonlinear_arith);
}

/// The square of a component within reach fits well inside 64 bits.
pub proof fn lemma_square_in_reach(c: int)
    requires
        in_reach(c),
    ensures
        0 <= c * c <= REACH * REACH,
{
    assert(0 <= c * c <= 1_500_000_000 * 1_500_000_000) by (nonlinear_arith)
        requires
            -1_500_000_000 <= c <= 1_500_000_000,
    ;
}

/// The product of two components within reach fits well inside 64 bits.
pub proof fn lemma_product_in_reach(a: int, b: int)
    requires
        in_reach(a),
        in_reach(b),
    ensures
        -(REACH * REACH) <= a * b <= REACH * REACH,
{
    assert(-(1_500_000_000 * 1_500_000_000) <= a * b <= 1_500_000_000 * 1_500_000_000)
        by (nonlinear_arith)
        requires
            -1_500_000_000 <= a <= 1_500_000_000,
            -1_500_000_000 <= b <= 1_500_000_000,
    ;
}

/// No component is longer than the vector, even with the length rounded
/// down.
pub proof fn lemma_length_covers(x: int, y: int)
    ensures
        magnitude(x) <= floor_sqrt((x * x + y * y) as nat),
        magnitude(y) <= floor_sqrt((x * x + y * y) as nat),
{
    lemma_norm_sq_zero(x, y);
    let n = (x * x + y * y) as nat;
    let r = floor_sqrt(n) as int;
    lemma_floor_sqrt_bounds(n);
    let mx = magnitude(x);
    let my = magnitude(y);
    assert(mx * mx == x * x && my * my == y * y) by (nonlinear_arith)
        requires
            mx == x || mx == -x,
            my == y || my == -y,
    ;
    assert(x * x <= n && y * y <= n) by (nonlinear_arith)
        requires
            n == x * x + y * y,
    ;
    if mx > r {
        lemma_square_monotone(r + 1, mx);
    }
    if my > r {
        lemma_square_monotone(r + 1, my);
    }
}

/// A vector whose squared length is at most `max` squared has no component
/// beyond `max`.
pub proof fn lemma_norm_bounds_components(x: int, y: int, max: int)
    requires
        0 <= max,
        x * x + y * y <= max * max,
    ensures
        magnitude(x) <= max,
        magnitude(y) <= max,
{
    let mx = magnitude(x);
    let my = magnitude(y);
    assert(mx * mx == x * x && my * my == y * y) by (nonlinear_arith)
        requires
            mx == x || mx == -x,
            my == y || my == -y,
    ;
    assert(x * x >= 0 && y * y >= 0) by (nonlinear_arith);
    if mx > max {
        lemma_square_monotone(max + 1, mx);
        assert((max + 1) * (max + 1) > max * max) by (nonlinear_arith)
            requires
                0 <= max,
        ;
    }
    if my > max {
        lemma_square_monotone(max + 1, my);
        assert((max + 1) * (max + 1) > max * max) by (nonlinear_arith)
            requires
                0 <= max,
        ;
    }
}

/// A normalized vector is a direction: it is not zero and no longer than
/// one unit. Its length in thousandths of a step is positive.
pub proof fn lemma_normalized(v: Vec2)
    requires
        v.norm_sq() != 0,
    ensures
        v.normalized().norm_sq() <= UNIT * UNIT,
        v.normalized().is_direction(),
        v.normalized().within(UNIT as int),
        0 < v.fine_length_up(),
        v.normalized().x == scale_toward_zero(v.x as int, UNIT * UNIT, v.fine_length_up()),
        v.normalized().y == scale_toward_zero(v.y as int, UNIT * UNIT, v.fine_length_up()),
{
    lemma_norm_of_magnitudes(v);
    let n = v.norm_sq();
    let k = n * (UNIT * UNIT);
    assert(k > 0) by (nonlinear_arith)
        requires
            n > 0,
            k == n * (UNIT * UNIT),
            UNIT == 1000,
    ;
    lemma_ceil_sqrt_bounds(k as nat);
    let den = v.fine_length_up();
    let num = UNIT * UNIT;
    lemma_scale_toward_zero(v.x as int, num, den);
    lemma_scale_toward_zero(v.y as int, num, den);
    let sx = scale_toward_zero(v.x as int, num, den);
    let sy = scale_toward_zero(v.y as int, num, den);
    let a = magnitude(sx);
    let b = magnitude(sy);
    let x = magnitude(v.x as int);
    let y = magnitude(v.y as int);
    lemma_ratio_squares(a, b, x, y, num, den);
    let s = a * a + b * b;
    let dd = den * den;
    assert(0 <= s) by (nonlinear_arith)
        requires
            s == a * a + b * b,
    ;
    assert(s * k <= s * dd) by (nonlinear_arith)
        requires
            0 <= s,
            k <= dd,
    ;
    assert(n * (num * num) == k * (UNIT * UNIT)) by (nonlinear_arith)
        requires
            k == n * (UNIT * UNIT),
            num == UNIT * UNIT,
    ;
    assert(s <= UNIT * UNIT) by (nonlinear_arith)
        requires
            s * k <= k * (UNIT * UNIT),
            0 < k,
    ;
    lemma_norm_bounds_components(a, b, UNIT as int);
    assert(magnitude(a) == a && magnitude(b) == b);
    let r = v.normalized();
    assert(r.x == sx && r.y == sy);
    assert(r.norm_sq() == s) by (nonlinear_arith)
        requires
            r.norm_sq() == r.x * r.x + r.y * r.y,
            a == r.x || a == -r.x,
            b == r.y || b == -r.y,
            s == a * a + b * b,
    ;
    // The longer component does not round to zero.
    let c = if x >= y { x } else { y };
    let top = if x >= y { a } else { b };
    assert(n <= 2 * (c * c) && c > 0) by (nonlinear_arith)
        requires
            n == x * x + y * y,
            n > 0,
            0 <= x <= c,
            0 <= y <= c,
    ;
    let reach = 2 * c * UNIT;
    assert(k <= reach * reach) by (nonlinear_arith)
        requires
            k == n * (UNIT * UNIT),
            n <= 2 * (c * c),
            reach == 2 * c * UNIT,
            UNIT == 1000,
    ;
    crate::fixed::lemma_ceil_sqrt_least(k as nat, reach);
    vstd::arithmetic::div_mod::lemma_fundamental_div_mod(c * num, den);
    vstd::arithmetic::div_mod::lemma_mod_bound(c * num, den);
    assert(top == (c * num) / den);
    assert(top > 0) by (nonlinear_arith)
        requires
            c * num == den * top + (c * num) % den,
            0 <= (c * num) % den < den,
            den <= 2 * c * UNIT,
            num == UNIT * UNIT,
            UNIT == 1000,
            c > 0,
            0 < den,
    ;
    assert(s > 0) by (nonlinear_arith)
        requires
            s == a * a + b * b,
            top == a || top == b,
            top > 0,
    ;
}

/// A component of at most one unit, times `num` thousandths, is at most
/// `num`.
pub proof fn lemma_unit_scale(c: int, num: int)
    requires
        0 <= num,
        magnitude(c) <= UNIT,
    ensures
        magnitude(scale_toward_zero(c, num, UNIT as int)) <= num,
{
    lemma_scale_toward_zero(c, num, UNIT as int);
    let m = magnitude(c);
    let q = (m * num) / (UNIT as int);
    assert(q <= num) by (nonlinear_arith)
        requires
            q * 1000 <= m * num,
            0 <= m <= 1000,
            0 <= num,
    ;
}

/// Scaling by `num / den` scales the squared length by no more than the
/// square of the ratio.
pub proof fn lemma_scaled_norm(v: Vec2, num: int, den: int)
    requires
        0 <= num,
        0 < den,
        v.norm_sq() <= den * den,
        v.within(REACH as int),
        num <= den,
    ensures
        v.scaled(num, den).norm_sq() <= num * num,
{
    lemma_scale_toward_zero(v.x as int, num, den);
    lemma_scale_toward_zero(v.y as int, num, den);
    let a = magnitude(scale_toward_zero(v.x as int, num, den));
    let b = magnitude(scale_toward_zero(v.y as int, num, den));
    let mx = magnitude(v.x as int);
    let my = magnitude(v.y as int);
    let r = v.scaled(num, den);
    assert(r.x == scale_toward_zero(v.x as int, num, den));
    assert(r.y == scale_toward_zero(v.y as int, num, den));
    assert(r.norm_sq() == a * a + b * b) by (nonlinear_arith)
        requires
            r.norm_sq() == r.x * r.x + r.y * r.y,
            a == r.x || a == -r.x,
            b == r.y || b == -r.y,
    ;
    assert(mx * mx + my * my == v.norm_sq()) by (nonlinear_arith)
        requires
            v.norm_sq() == v.x * v.x + v.y * v.y,
            mx == v.x || mx == -v.x,
            my == v.y || my == -v.y,
    ;
    lemma_ratio_squares(a, b, mx, my, num, den);
}

/// If `a * den <= x * num` and `b * den <= y * num`, then the squared
/// length of `(a, b)` is to that of `(x, y)` at most as `num` squared is to
/// `den` squared.
pub proof fn lemma_ratio_squares(a: int, b: int, x: int, y: int, num: int, den: int)
    requires
        0 <= a,
        0 <= b,
        0 <= x,
        0 <= y,
        0 <= num,
        0 < den,
        a * den <= x * num,
        b * den <= y * num,
    ensures
        (a * a + b * b) * (den * den) <= (x * x + y * y) * (num * num),
        x * x + y * y <= den * den ==> a * a + b * b <= num * num,
{
    assert(0 <= a * den && 0 <= b * den) by (nonlinear_arith)
        requires
            0 <= a,
            0 <= b,
            0 < den,
    ;
    assert((a * den) * (a * den) <= (x * num) * (x * num)) by (nonlinear_arith)
        requires
            0 <= a * den <= x * num,
    ;
    assert((b * den) * (b * den) <= (y * num) * (y * num)) by (nonlinear_arith)
        requires
            0 <= b * den <= y * num,
    ;
    let s = a * a + b * b;
    let n = x * x + y * y;
    let dd = den * den;
    let nn = num * num;
    assert((a * den) * (a * den) + (b * den) * (b * den) == s * dd) by (nonlinear_arith)
        requires
            s == a * a + b * b,
            dd == den * den,
    ;
    assert((x * num) * (x * num) + (y * num) * (y * num) == n * nn) by (nonlinear_arith)
        requires
            n == x * x + y * y,
            nn == num * num,
    ;
    assert(s * dd <= n * nn);
    if n <= dd {
        assert(0 <= nn) by (nonlinear_arith)
            requires
                nn == num * num,
        ;
        assert(n * nn <= dd * nn) by (nonlinear_arith)
            requires
                n <= dd,
                0 <= nn,
        ;
        assert(0 < dd) by (nonlinear_arith)
            requires
                0 < den,
                dd == den * den,
        ;
        assert(s <= nn) by (nonlinear_arith)
            requires
                s * dd <= dd * nn,
                0 < dd,
        ;
    }
}

/// A vector whose components can be stored is shorter than `REACH`, with
/// either rounding.
pub proof fn lemma_stored_length(v: Vec2)
    requires
        v.wf(),
    ensures
        0 <= v.length() <= v.length_up() < REACH,
        v.norm_sq() <= 2 * LIMIT * LIMIT,
{
    lemma_norm_of_magnitudes(v);
    let mx = magnitude(v.x as int);
    let my = magnitude(v.y as int);
    lemma_square_monotone(mx, LIMIT as int);
    lemma_square_monotone(my, LIMIT as int);
    let n = v.norm_sq() as nat;
    lemma_floor_sqrt_bounds(n);
    lemma_ceil_sqrt_bounds(n);
    if floor_sqrt(n) >= REACH - 1 {
        lemma_square_monotone(REACH - 1, floor_sqrt(n) as int);
    }
}

/// The inner product of two vectors is no larger than the product of
/// their lengths, rounded up.
pub proof fn lemma_dot_within_lengths(a: Vec2, b: Vec2)
    ensures
        magnitude(a.dot(b)) <= a.length_up() * b.length_up(),
{
    let d = magnitude(a.dot(b));
    let p = a.length_up();
    let q = b.length_up();
    lemma_norm_of_magnitudes(a);
    lemma_norm_of_magnitudes(b);
    lemma_ceil_sqrt_bounds(a.norm_sq() as nat);
    lemma_ceil_sqrt_bounds(b.norm_sq() as nat);
    let (ax, ay, bx, by) = (a.x as int, a.y as int, b.x as int, b.y as int);
    let u = ax * bx;
    let w = ay * by;
    let c1 = ax * by;
    let c2 = ay * bx;
    assert(u * w == c1 * c2) by (nonlinear_arith)
        requires
            u == ax * bx,
            w == ay * by,
            c1 == ax * by,
            c2 == ay * bx,
    ;
    assert(u * u == (ax * ax) * (bx * bx)) by (nonlinear_arith)
        requires
            u == ax * bx,
    ;
    assert(w * w == (ay * ay) * (by * by)) by (nonlinear_arith)
        requires
            w == ay * by,
    ;
    assert(c1 * c1 == (ax * ax) * (by * by)) by (nonlinear_arith)
        requires
            c1 == ax * by,
    ;
    assert(c2 * c2 == (ay * ay) * (bx * bx)) by (nonlinear_arith)
        requires
            c2 == ay * bx,
    ;
    let (sax, say, sbx, sby) = (ax * ax, ay * ay, bx * bx, by * by);
    assert((sax + say) * (sbx + sby) == sax * sbx + sax * sby + say * sbx + say * sby)
        by (nonlinear_arith);
    assert((u + w) * (u + w) == u * u + 2 * (u * w) + w * w) by (nonlinear_arith);
    assert((c1 - c2) * (c1 - c2) == c1 * c1 - 2 * (c1 * c2) + c2 * c2) by (nonlinear_arith);
    assert((c1 - c2) * (c1 - c2) >= 0) by (nonlinear_arith);
    assert((u + w) * (u + w) <= (sax + say) * (sbx + sby));
    assert(d * d == (u + w) * (u + w)) by (nonlinear_arith)
        requires
            d == u + w || d == -(u + w),
    ;
    let na = a.norm_sq();
    let nb = b.norm_sq();
    assert(d * d <= na * nb);
    assert(na * nb <= (p * p) * (q * q)) by (nonlinear_arith)
        requires
            0 <= na <= p * p,
            0 <= nb <= q * q,
    ;
    assert((p * p) * (q * q) == (p * q) * (p * q)) by (nonlinear_arith);
    assert(0 <= p * q) by (nonlinear_arith)
        requires
            0 <= p,
            0 <= q,
    ;
    if d > p * q {
        lemma_square_monotone(p * q + 1, d);
        assert((p * q + 1) * (p * q + 1) > (p * q) * (p * q)) by (nonlinear_arith)
            requires
                0 <= p * q,
        ;
    }
}

/// The squared length of a vector is that of its components' magnitudes.
pub proof fn lemma_norm_of_magnitudes(v: Vec2)
    ensures
        v.norm_sq() == magnitude(v.x as int) * magnitude(v.x as int) + magnitude(v.y as int)
            * magnitude(v.y as int),
        v.norm_sq() >= 0,
{
    let mx = magnitude(v.x as int);
    let my = magnitude(v.y as int);
    assert(v.norm_sq() == mx * mx + my * my && v.norm_sq() >= 0) by (nonlinear_arith)
        requires
            v.norm_sq() == v.x * v.x + v.y * v.y,
            mx == v.x || mx == -v.x,
            my == v.y || my == -v.y,
    ;
}

/// A vector that lengthens no component is no longer.
pub proof fn lemma_shrinks_norm(after: Vec2, before: Vec2)
    requires
        after.shrinks(before),
    ensures
        0 <= after.norm_sq() <= before.norm_sq(),
        after.length() <= before.length(),
{
    lemma_norm_of_magnitudes(after);
    lemma_norm_of_magnitudes(before);
    lemma_square_monotone(magnitude(after.x as int), magnitude(before.x as int));
    lemma_square_monotone(magnitude(after.y as int), magnitude(before.y as int));
    lemma_floor_sqrt_monotone(after.norm_sq() as nat, before.norm_sq() as nat);
}

} // verus!
