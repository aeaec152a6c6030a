//! 3-component rational vectors. The three numerators share one positive
//! denominator, so sums and dot products keep a single denominator and stay
//! inside `i128` under the stated bounds. A vector serves both as a point and
//! as a direction.

use vstd::prelude::*;

use crate::common::COORD_BOUND;
use crate::common::EPSILON_DEN;
use crate::common::EPSILON_NUM;
use crate::common::UNIT_SCALE;
use crate::ratio::lemma_mul_abs_bound;
use crate::ratio::Ratio;
use crate::ratio::RatioModel;

verus! {

/// Mathematical value of a `Vector3`: unbounded numerators over one
/// denominator; the vector denoted is (x/den, y/den, z/den).
pub ghost struct Vector3Model {
    pub x: int,
    pub y: int,
    pub z: int,
    pub den: int,
}

/// A 3-component rational vector; the components are x/den, y/den, z/den.
#[derive(Clone, Copy, Debug)]
pub struct Vector3 {
    pub x: i128,
    pub y: i128,
    pub z: i128,
    pub den: i128,
}

impl View for Vector3 {
    type V = Vector3Model;

    open spec fn view(&self) -> Vector3Model {
        Vector3Model {
            x: self.x as int,
            y: self.y as int,
            z: self.z as int,
            den: self.den as int,
        }
    }
}

/// Validity of a vector: the shared denominator is positive.
pub open spec fn v3_wf(v: Vector3Model) -> bool {
    v.den >= 1
}

/// Numerators and denominator stay within `b`.
pub open spec fn v3_bounded(v: Vector3Model, b: int) -> bool {
    -b <= v.x <= b && -b <= v.y <= b && -b <= v.z <= b && 1 <= v.den <= b
}

/// The zero vector, whatever its denominator.
pub open spec fn v3_is_zero(v: Vector3Model) -> bool {
    v.x == 0 && v.y == 0 && v.z == 0
}

/// Componentwise equality of the denoted vectors (denominators positive).
pub open spec fn v3_eq(a: Vector3Model, b: Vector3Model) -> bool {
    a.x * b.den == b.x * a.den && a.y * b.den == b.y * a.den && a.z * b.den == b.z * a.den
}

/// a - b as a vector over the product denominator.
pub open spec fn v3_minus(a: Vector3Model, b: Vector3Model) -> Vector3Model {
    Vector3Model {
        x: a.x * b.den - b.x * a.den,
        y: a.y * b.den - b.y * a.den,
        z: a.z * b.den - b.z * a.den,
        den: a.den * b.den,
    }
}

/// a + b as a vector over the product denominator.
pub open spec fn v3_plus(a: Vector3Model, b: Vector3Model) -> Vector3Model {
    Vector3Model {
        x: a.x * b.den + b.x * a.den,
        y: a.y * b.den + b.y * a.den,
        z: a.z * b.den + b.z * a.den,
        den: a.den * b.den,
    }
}

/// Dot product of a and b, a rational over the product denominator.
pub open spec fn v3_dot(a: Vector3Model, b: Vector3Model) -> RatioModel {
    RatioModel { num: a.x * b.x + a.y * b.y + a.z * b.z, den: a.den * b.den }
}

/// The scalar multiple t * v.
pub open spec fn v3_scaled(t: RatioModel, v: Vector3Model) -> Vector3Model {
    Vector3Model { x: t.num * v.x, y: t.num * v.y, z: t.num * v.z, den: t.den * v.den }
}

/// Numerator of the squared length: |v|^2 == norm_sq_num(v) / den^2.
pub open spec fn norm_sq_num(v: Vector3Model) -> int {
    v.x * v.x + v.y * v.y + v.z * v.z
}

/// The vector has unit length up to the tolerance EPSILON:
/// |(|v|^2) - 1| <= EPSILON, stated over the numerator norm_sq_num(v) and the
/// denominator den^2 without division.
pub open spec fn is_unit_spec(v: Vector3Model) -> bool {
    let s = norm_sq_num(v);
    let dd = v.den * v.den;
    EPSILON_DEN * (s - dd) <= EPSILON_NUM * dd && EPSILON_DEN * (dd - s) <= EPSILON_NUM * dd
}

impl Vector3 {
    /// Builds (x/den, y/den, z/den); the denominator must be positive.
    pub fn new(x: i128, y: i128, z: i128, den: i128) -> (r: Vector3)
        requires
            den >= 1,
        ensures
            r@ == (Vector3Model { x: x as int, y: y as int, z: z as int, den: den as int }),
    {
        Vector3 { x, y, z, den }
    }

    /// The zero vector (0, 0, 0).
    pub fn zero() -> (r: Vector3)
        ensures
            r@ == (Vector3Model { x: 0, y: 0, z: 0, den: 1 }),
    {
        Vector3 { x: 0, y: 0, z: 0, den: 1 }
    }

    /// The unit vector (0, 1, 0).
    pub fn up() -> (r: Vector3)
        ensures
            r@ == (Vector3Model { x: 0, y: 1, z: 0, den: 1 }),
    {
        Vector3 { x: 0, y: 1, z: 0, den: 1 }
    }

    /// Componentwise equality of the denoted vectors.
    pub fn same_value(&self, other: &Vector3) -> (r: bool)
        requires
            v3_bounded(self@, crate::common::T_BOUND as int),
            v3_bounded(other@, crate::common::T_BOUND as int),
        ensures
            r == v3_eq(self@, other@),
    {
        proof {
            let tb = crate::common::T_BOUND as int;
            lemma_mul_abs_bound(self.x as int, other.den as int, tb, tb);
            lemma_mul_abs_bound(other.x as int, self.den as int, tb, tb);
            lemma_mul_abs_bound(self.y as int, other.den as int, tb, tb);
            lemma_mul_abs_bound(other.y as int, self.den as int, tb, tb);
            lemma_mul_abs_bound(self.z as int, other.den as int, tb, tb);
            lemma_mul_abs_bound(other.z as int, self.den as int, tb, tb);
        }
        self.x * other.den == other.x * self.den && self.y * other.den == other.y * self.den
            && self.z * other.den == other.z * self.den
    }

    /// Vector difference self - other.
    pub fn minus(&self, other: &Vector3) -> (r: Vector3)
        requires
            v3_bounded(self@, UNIT_SCALE as int),
            v3_bounded(other@, UNIT_SCALE as int),
        ensures
            r@ == v3_minus(self@, other@),
    {
        proof {
            let ub = UNIT_SCALE as int;
            lemma_mul_abs_bound(self.x as int, other.den as int, ub, ub);
            lemma_mul_abs_bound(other.x as int, self.den as int, ub, ub);
            lemma_mul_abs_bound(self.y as int, other.den as int, ub, ub);
            lemma_mul_abs_bound(other.y as int, self.den as int, ub, ub);
            lemma_mul_abs_bound(self.z as int, other.den as int, ub, ub);
            lemma_mul_abs_bound(other.z as int, self.den as int, ub, ub);
            lemma_mul_abs_bound(self.den as int, other.den as int, ub, ub);
        }
        Vector3 {
            x: self.x * other.den - other.x * self.den,
            y: self.y * other.den - other.y * self.den,
            z: self.z * other.den - other.z * self.den,
            den: self.den * other.den,
        }
    }

    /// Vector sum self + other.
    pub fn plus(&self, other: &Vector3) -> (r: Vector3)
        requires
            v3_bounded(self@, UNIT_SCALE as int),
            v3_bounded(other@, UNIT_SCALE as int),
        ensures
            r@ == v3_plus(self@, other@),
    {
        proof {
            let ub = UNIT_SCALE as int;
            lemma_mul_abs_bound(self.x as int, other.den as int, ub, ub);
            lemma_mul_abs_bound(other.x as int, self.den as int, ub, ub);
            lemma_mul_abs_bound(self.y as int, other.den as int, ub, ub);
            lemma_mul_abs_bound(other.y as int, self.den as int, ub, ub);
            lemma_mul_abs_bound(self.z as int, other.den as int, ub, ub);
            lemma_mul_abs_bound(other.z as int, self.den as int, ub, ub);
            lemma_mul_abs_bound(self.den as int, other.den as int, ub, ub);
        }
        Vector3 {
            x: self.x * other.den + other.x * self.den,
            y: self.y * other.den + other.y * self.den,
            z: self.z * other.den + other.z * self.den,
            den: self.den * other.den,
        }
    }

    /// Dot product of self and other.
    pub fn dot(&self, other: &Vector3) -> (r: Ratio)
        requires
            v3_bounded(self@, UNIT_SCALE as int),
            v3_bounded(other@, UNIT_SCALE as int),
        ensures
            r@ == v3_dot(self@, other@),
    {
        proof {
            let ub = UNIT_SCALE as int;
            lemma_mul_abs_bound(self.x as int, other.x as int, ub, ub);
            lemma_mul_abs_bound(self.y as int, other.y as int, ub, ub);
            lemma_mul_abs_bound(self.z as int, other.z as int, ub, ub);
            lemma_mul_abs_bound(self.den as int, other.den as int, ub, ub);
        }
        Ratio {
            num: self.x * other.x + self.y * other.y + self.z * other.z,
            den: self.den * other.den,
        }
    }

    /// The scalar multiple t * self.
    pub fn scaled(&self, t: &Ratio) -> (r: Vector3)
        requires
            v3_bounded(self@, UNIT_SCALE as int),
            crate::ratio::ratio_bounded(t@, crate::common::T_BOUND as int),
        ensures
            r@ == v3_scaled(t@, self@),
    {
        proof {
            let ub = UNIT_SCALE as int;
            let tb = crate::common::T_BOUND as int;
            lemma_mul_abs_bound(t.num as int, self.x as int, tb, ub);
            lemma_mul_abs_bound(t.num as int, self.y as int, tb, ub);
            lemma_mul_abs_bound(t.num as int, self.z as int, tb, ub);
            lemma_mul_abs_bound(t.den as int, self.den as int, tb, ub);
        }
        Vector3 {
            x: t.num * self.x,
            y: t.num * self.y,
            z: t.num * self.z,
            den: t.den * self.den,
        }
    }

    /// Whether the vector is unit-length up to the tolerance EPSILON.
    pub fn is_normalized(&self) -> (r: bool)
        requires
            v3_bounded(self@, UNIT_SCALE as int),
        ensures
            r == is_unit_spec(self@),
    {
        proof {
            let ub = UNIT_SCALE as int;
            lemma_mul_abs_bound(self.x as int, self.x as int, ub, ub);
            lemma_mul_abs_bound(self.y as int, self.y as int, ub, ub);
            lemma_mul_abs_bound(self.z as int, self.z as int, ub, ub);
            lemma_mul_abs_bound(self.den as int, self.den as int, ub, ub);
        }
        let s: i128 = self.x * self.x + self.y * self.y + self.z * self.z;
        let dd: i128 = self.den * self.den;
        EPSILON_DEN * (s - dd) <= EPSILON_NUM * dd && EPSILON_DEN * (dd - s) <= EPSILON_NUM * dd
    }
    /// Returns the normalization of the vector: a vector of unit length (up
    /// to the tolerance EPSILON) pointing the same way, held over the fixed
    /// denominator UNIT_SCALE. The input must not be the zero vector.
    pub fn normalized(&self) -> (r: Vector3)
        requires
            v3_bounded(self@, COORD_BOUND as int),
            !v3_is_zero(self@),
        ensures
            r@.den == UNIT_SCALE as int,
            v3_bounded(r@, UNIT_SCALE as int),
            is_unit_spec(r@),
            exists|k: int| norm_approx(self@, r@, k),
    {
        proof {
            let cb = COORD_BOUND as int;
            lemma_mul_abs_bound(self.x as int, self.x as int, cb, cb);
            lemma_mul_abs_bound(self.y as int, self.y as int, cb, cb);
            lemma_mul_abs_bound(self.z as int, self.z as int, cb, cb);
            lemma_square_nonneg(self.x as int);
            lemma_square_nonneg(self.y as int);
            lemma_square_nonneg(self.z as int);
            if self.x != 0 {
                lemma_nonzero_square_pos(self.x as int);
            } else if self.y != 0 {
                lemma_nonzero_square_pos(self.y as int);
            } else {
                lemma_nonzero_square_pos(self.z as int);
            }
        }
        let s: i128 = self.x * self.x + self.y * self.y + self.z * self.z;
        proof {
            assert(UNIT_SCALE as int * UNIT_SCALE as int == 4294967296);
        }
        let s2: i128 = s * 4294967296;
        let k: i128 = isqrt(s2);
        proof {
            let q = UNIT_SCALE as int;
            let ki = k as int;
            // s * q^2 >= q^2, so k + 1 > q and hence k >= q.
            lemma_mul_mono_nonneg(1, s as int, q * q);
            lemma_sq_lt(q, ki + 1);
            // Each |component| * q <= k, since component^2 * q^2 <= s * q^2 < (k+1)^2.
            lemma_component_scale_bound(self.x as int, s as int, ki);
            lemma_component_scale_bound(self.y as int, s as int, ki);
            lemma_component_scale_bound(self.z as int, s as int, ki);
            // k <= 2^27 since k^2 <= s * q^2 < 2^54.
            lemma_sq_lt(ki, 134217728);
        }
        let nx: i128 = scaled_component(self.x, k);
        let ny: i128 = scaled_component(self.y, k);
        let nz: i128 = scaled_component(self.z, k);
        let r = Vector3 { x: nx, y: ny, z: nz, den: UNIT_SCALE };
        proof {
            assert(norm_approx(self@, r@, k as int));
            lemma_normalize_unit(self@, r@, k as int);
        }
        r
    }
}

/// The relation between a vector v and its computed normalization r: k is the
/// integer square root of norm_sq_num(v) * UNIT_SCALE^2, and each numerator of
/// r is v's numerator scaled by UNIT_SCALE^2 / k with an error below one part
/// in k.
pub open spec fn norm_approx(v: Vector3Model, r: Vector3Model, k: int) -> bool {
    let s = norm_sq_num(v);
    let q = UNIT_SCALE as int;
    &&& UNIT_SCALE <= k
    &&& k * k <= s * (q * q)
    &&& s * (q * q) < (k + 1) * (k + 1)
    &&& r.den == q
    &&& -q <= r.x <= q && -q <= r.y <= q && -q <= r.z <= q
    &&& -k < r.x * k - v.x * (q * q) < k
    &&& -k < r.y * k - v.y * (q * q) < k
    &&& -k < r.z * k - v.z * (q * q) < k
}

/// Sign of one component under normalization: the scaled numerator keeps the
/// sign of the input numerator, so the normalization points the same way.
proof fn lemma_component_sign(vx: int, rx: int, k: int)
    by (nonlinear_arith)
    requires
        -k < rx * k - vx * 4294967296 < k,
        0 < k < 134217728,
        -1024 <= vx <= 1024,
    ensures
        vx > 0 ==> rx > 0,
        vx == 0 ==> rx == 0,
        vx < 0 ==> rx < 0,
{
}

/// The normalization points the same way as its input: every component keeps
/// its sign, a zero component stays zero.
pub proof fn lemma_normalized_same_direction(v: Vector3Model, r: Vector3Model, k: int)
    requires
        v3_bounded(v, COORD_BOUND as int),
        norm_approx(v, r, k),
    ensures
        v.x > 0 ==> r.x > 0,
        v.x == 0 ==> r.x == 0,
        v.x < 0 ==> r.x < 0,
        v.y > 0 ==> r.y > 0,
        v.y == 0 ==> r.y == 0,
        v.y < 0 ==> r.y < 0,
        v.z > 0 ==> r.z > 0,
        v.z == 0 ==> r.z == 0,
        v.z < 0 ==> r.z < 0,
{
    let cb = COORD_BOUND as int;
    lemma_mul_abs_bound(v.x, v.x, cb, cb);
    lemma_mul_abs_bound(v.y, v.y, cb, cb);
    lemma_mul_abs_bound(v.z, v.z, cb, cb);
    // k^2 <= norm_sq_num(v) * UNIT_SCALE^2 < 2^54, so k < 2^27.
    assert(norm_sq_num(v) <= 3145728);
    assert(k * k <= norm_sq_num(v) * (UNIT_SCALE as int * UNIT_SCALE as int));
    assert(norm_sq_num(v) * 4294967296 < 18014398509481984);
    lemma_sq_lt(k, 134217728);
    lemma_component_sign(v.x, r.x, k);
    lemma_component_sign(v.y, r.y, k);
    lemma_component_sign(v.z, r.z, k);
}

/// What construction stores for a given normal or direction: the input
/// itself when it is already unit-length, else its normalization.
pub open spec fn construction_normal(input: Vector3Model, stored: Vector3Model) -> bool {
    if is_unit_spec(input) {
        stored == input
    } else {
        &&& stored.den == UNIT_SCALE as int
        &&& v3_bounded(stored, UNIT_SCALE as int)
        &&& is_unit_spec(stored)
        &&& exists|k: int| norm_approx(input, stored, k)
    }
}

/// Normalization is idempotent: a vector that is already unit-length is kept
/// exactly, so feeding a once-normalized vector through construction a second
/// time yields the very same vector.
pub proof fn lemma_normalization_idempotent(
    input: Vector3Model,
    once: Vector3Model,
    twice: Vector3Model,
)
    requires
        construction_normal(input, once),
        construction_normal(once, twice),
    ensures
        twice == once,
{
}

/// Truncated integer square root by binary search.
fn isqrt(n: i128) -> (r: i128)
    requires
        0 <= n < 18014398509481984,  // 2^54
    ensures
        0 <= r,
        r * r <= n,
        n < (r + 1) * (r + 1),
{
    let mut lo: i128 = 0;
    let mut hi: i128 = 134217728;  // 2^27
    while lo + 1 < hi
        invariant
            0 <= lo < hi <= 134217728,
            lo * lo <= n,
            n < hi * hi,
        decreases hi - lo,
    {
        let mid: i128 = lo + (hi - lo) / 2;
        proof {
            lemma_mul_abs_bound(mid as int, mid as int, 134217728, 134217728);
        }
        if mid * mid <= n {
            lo = mid;
        } else {
            hi = mid;
        }
    }
    lo
}

/// One numerator of a normalization: (c * UNIT_SCALE^2) / k, truncated toward
/// zero.
fn scaled_component(c: i128, k: i128) -> (r: i128)
    requires
        -COORD_BOUND <= c <= COORD_BOUND,
        UNIT_SCALE <= k <= 134217728,
        c * UNIT_SCALE <= k,
        -(c * UNIT_SCALE) <= k,
    ensures
        -UNIT_SCALE <= r <= UNIT_SCALE,
        -k < r * k - c * (UNIT_SCALE * UNIT_SCALE) < k,
{
    let a: i128 = if c < 0 {
        -c
    } else {
        c
    };
    proof {
        assert(UNIT_SCALE as int * UNIT_SCALE as int == 4294967296);
    }
    let num: i128 = a * 4294967296;
    let nu: u64 = num as u64;
    let ku: u64 = k as u64;
    let qu: u64 = nu / ku;
    proof {
        let ni = num as int;
        let ki = k as int;
        // a * UNIT_SCALE <= k gives num = a * UNIT_SCALE^2 <= k * UNIT_SCALE.
        lemma_mul_mono_nonneg(a as int * UNIT_SCALE as int, ki, UNIT_SCALE as int);
        assert((a as int * UNIT_SCALE as int) * UNIT_SCALE as int == ni) by (nonlinear_arith)
            requires
                ni == a as int * 4294967296,
                UNIT_SCALE as int == 65536,
        ;
        lemma_scaled_div(ni, ki, UNIT_SCALE as int);
        assert(nu as int == ni);
        assert(ku as int == ki);
        assert(qu as int == ni / ki);
    }
    let q: i128 = qu as i128;
    let r: i128 = if c < 0 {
        -q
    } else {
        q
    };
    proof {
        let ni = num as int;
        let ki = k as int;
        let qi = q as int;
        assert(qi == ni / ki);
        assert(qi * ki <= ni);
        assert(ni - qi * ki < ki);
        if c < 0 {
            assert(r as int * ki == -(qi * ki)) by (nonlinear_arith)
                requires
                    r as int == -qi,
            ;
            assert(c as int * (UNIT_SCALE as int * UNIT_SCALE as int) == -ni);
        } else {
            assert(r as int * ki == qi * ki) by (nonlinear_arith)
                requires
                    r as int == qi,
            ;
            assert(c as int * (UNIT_SCALE as int * UNIT_SCALE as int) == ni);
        }
    }
    r
}

/// Bounds for a truncated division of a nonnegative value: the quotient of
/// ni / ki stays at or below cap whenever ni <= cap * ki, and the remainder
/// is below ki.
proof fn lemma_scaled_div(ni: int, ki: int, cap: int)
    requires
        0 <= ni,
        0 < ki,
        0 <= cap,
        ni <= ki * cap,
    ensures
        0 <= ni / ki <= cap,
        (ni / ki) * ki <= ni,
        ni - (ni / ki) * ki < ki,
{
    vstd::arithmetic::div_mod::lemma_fundamental_div_mod(ni, ki);
    vstd::arithmetic::div_mod::lemma_mod_division_less_than_divisor(ni, ki);
    let q = ni / ki;
    let r = ni % ki;
    assert(q * ki == ki * q) by (nonlinear_arith);
    assert(q >= 0) by (nonlinear_arith)
        requires
            ki * q == ni - r,
            r < ki,
            0 <= ni,
            0 < ki,
    ;
    assert(q <= cap) by (nonlinear_arith)
        requires
            ki * q == ni - r,
            0 <= r,
            ni <= ki * cap,
            0 < ki,
    ;
}

/// a^2 is never negative.
pub proof fn lemma_square_nonneg(a: int)
    by (nonlinear_arith)
    ensures
        a * a >= 0,
{
}

/// A nonzero integer has a square of at least one.
pub proof fn lemma_nonzero_square_pos(a: int)
    by (nonlinear_arith)
    requires
        a != 0,
    ensures
        a * a >= 1,
{
}

/// Multiplying both sides of a <= b by a nonnegative c preserves the order.
pub proof fn lemma_mul_mono_nonneg(a: int, b: int, c: int)
    by (nonlinear_arith)
    requires
        a <= b,
        0 <= c,
    ensures
        a * c <= b * c,
{
}

/// Comparing squares of nonnegative numbers compares the numbers.
pub proof fn lemma_sq_lt(a: int, b: int)
    by (nonlinear_arith)
    requires
        0 <= a,
        0 <= b,
        a * a < b * b,
    ensures
        a < b,
{
}

/// A common positive factor can be cancelled from a product inequality.
pub proof fn lemma_cancel_mul_le(a: int, b: int, c: int)
    by (nonlinear_arith)
    requires
        a * c <= b * c,
        0 < c,
    ensures
        a <= b,
{
}

/// For a component c with c^2 <= s and k the integer square root of
/// s * UNIT_SCALE^2: |c| * UNIT_SCALE <= k.
proof fn lemma_component_scale_bound(c: int, s: int, k: int)
    by (nonlinear_arith)
    requires
        c * c <= s,
        0 <= k,
        s * (UNIT_SCALE as int * UNIT_SCALE as int) < (k + 1) * (k + 1),
    ensures
        c * UNIT_SCALE <= k,
        -(c * UNIT_SCALE) <= k,
{
}

/// The computed normalization has unit length up to the tolerance EPSILON.
proof fn lemma_normalize_unit(v: Vector3Model, r: Vector3Model, k: int)
    requires
        v3_bounded(v, COORD_BOUND as int),
        !v3_is_zero(v),
        norm_approx(v, r, k),
    ensures
        is_unit_spec(r),
{
    let q = UNIT_SCALE as int;
    let s = norm_sq_num(v);
    let ex = r.x * k - v.x * (q * q);
    let ey = r.y * k - v.y * (q * q);
    let ez = r.z * k - v.z * (q * q);
    // Expand each squared numerator of r * k.
    assert((r.x * k) * (r.x * k) == (v.x * (q * q)) * (v.x * (q * q)) + 2 * (q * q) * (v.x * ex)
        + ex * ex) by (nonlinear_arith)
        requires
            ex == r.x * k - v.x * (q * q),
    ;
    assert((r.y * k) * (r.y * k) == (v.y * (q * q)) * (v.y * (q * q)) + 2 * (q * q) * (v.y * ey)
        + ey * ey) by (nonlinear_arith)
        requires
            ey == r.y * k - v.y * (q * q),
    ;
    assert((r.z * k) * (r.z * k) == (v.z * (q * q)) * (v.z * (q * q)) + 2 * (q * q) * (v.z * ez)
        + ez * ez) by (nonlinear_arith)
        requires
            ez == r.z * k - v.z * (q * q),
    ;
    // Regroup: sum of squared numerators of r, times k^2.
    let sum = norm_sq_num(r);
    assert((r.x * r.x) * (k * k) == (r.x * k) * (r.x * k)) by (nonlinear_arith);
    assert((r.y * r.y) * (k * k) == (r.y * k) * (r.y * k)) by (nonlinear_arith);
    assert((r.z * r.z) * (k * k) == (r.z * k) * (r.z * k)) by (nonlinear_arith);
    assert(sum * (k * k) == (r.x * r.x) * (k * k) + (r.y * r.y) * (k * k) + (r.z * r.z) * (k
        * k)) by (nonlinear_arith)
        requires
            sum == r.x * r.x + r.y * r.y + r.z * r.z,
    ;
    assert(sum * (k * k) == (r.x * k) * (r.x * k) + (r.y * k) * (r.y * k) + (r.z * k) * (r.z
        * k));
    assert(s * ((q * q) * (q * q)) == (v.x * (q * q)) * (v.x * (q * q)) + (v.y * (q * q)) * (v.y
        * (q * q)) + (v.z * (q * q)) * (v.z * (q * q))) by (nonlinear_arith)
        requires
            s == v.x * v.x + v.y * v.y + v.z * v.z,
    ;
    assert(sum * (k * k) == s * ((q * q) * (q * q)) + 2 * (q * q) * (v.x * ex + v.y * ey + v.z
        * ez) + (ex * ex + ey * ey + ez * ez)) by (nonlinear_arith)
        requires
            sum * (k * k) == (r.x * k) * (r.x * k) + (r.y * k) * (r.y * k) + (r.z * k) * (r.z
                * k),
            s * ((q * q) * (q * q)) == (v.x * (q * q)) * (v.x * (q * q)) + (v.y * (q * q)) * (
            v.y * (q * q)) + (v.z * (q * q)) * (v.z * (q * q)),
            (r.x * k) * (r.x * k) == (v.x * (q * q)) * (v.x * (q * q)) + 2 * (q * q) * (v.x * ex)
                + ex * ex,
            (r.y * k) * (r.y * k) == (v.y * (q * q)) * (v.y * (q * q)) + 2 * (q * q) * (v.y * ey)
                + ey * ey,
            (r.z * k) * (r.z * k) == (v.z * (q * q)) * (v.z * (q * q)) + 2 * (q * q) * (v.z * ez)
                + ez * ez,
    ;
    // The square-root bracket gives 0 <= s*q^2 - k^2 <= 2*k.
    assert((k + 1) * (k + 1) == k * k + 2 * k + 1) by (nonlinear_arith);
    let d = s * (q * q) - k * k;
    assert(0 <= d <= 2 * k);
    // Each |v_i| * q <= k.
    lemma_square_nonneg(v.x);
    lemma_square_nonneg(v.y);
    lemma_square_nonneg(v.z);
    lemma_component_scale_bound(v.x, s, k);
    lemma_component_scale_bound(v.y, s, k);
    lemma_component_scale_bound(v.z, s, k);
    // Each cross term is bounded: q * |v_i * e_i| <= k * k.
    lemma_cross_term_bound(v.x, ex, k, q);
    lemma_cross_term_bound(v.y, ey, k, q);
    lemma_cross_term_bound(v.z, ez, k, q);
    let crs = v.x * ex + v.y * ey + v.z * ez;
    assert(-(k * k) <= q * (v.x * ex) <= k * k);
    assert(-(k * k) <= q * (v.y * ey) <= k * k);
    assert(-(k * k) <= q * (v.z * ez) <= k * k);
    assert(-3 * (k * k) <= q * crs <= 3 * (k * k)) by (nonlinear_arith)
        requires
            crs == v.x * ex + v.y * ey + v.z * ez,
            -(k * k) <= q * (v.x * ex) <= k * k,
            -(k * k) <= q * (v.y * ey) <= k * k,
            -(k * k) <= q * (v.z * ez) <= k * k,
    ;
    // Each squared error is below k^2.
    lemma_square_error_bound(ex, k);
    lemma_square_error_bound(ey, k);
    lemma_square_error_bound(ez, k);
    let errs = ex * ex + ey * ey + ez * ez;
    assert(0 <= errs <= 3 * (k * k));
    // Assemble the deviation of sum * k^2 from q^2 * k^2.
    let dev = sum * (k * k) - (q * q) * (k * k);
    assert(dev == (q * q) * d + 2 * (q * q) * crs + errs) by (nonlinear_arith)
        requires
            sum * (k * k) == s * ((q * q) * (q * q)) + 2 * (q * q) * crs + errs,
            d == s * (q * q) - k * k,
            dev == sum * (k * k) - (q * q) * (k * k),
    ;
    // Upper and lower bounds on the deviation.
    lemma_deviation_bounds(dev, d, crs, errs, k, q);
    // Cancel k^2: the deviation bounds carry over to sum - q^2 itself.
    assert(sum - q * q <= 8 * q + 3) by (nonlinear_arith)
        requires
            dev == sum * (k * k) - (q * q) * (k * k),
            dev <= (8 * q + 3) * (k * k),
            k >= 1,
    ;
    assert(q * q - sum <= 6 * q) by (nonlinear_arith)
        requires
            dev == sum * (k * k) - (q * q) * (k * k),
            -(6 * q) * (k * k) <= dev,
            k >= 1,
    ;
    // The tolerance follows: 1000 * (8q + 3) and 1000 * 6q both stay below q^2.
    assert(EPSILON_DEN as int * (sum - q * q) <= EPSILON_NUM as int * (q * q));
    assert(EPSILON_DEN as int * (q * q - sum) <= EPSILON_NUM as int * (q * q));
}

/// Bound on a cross term of the normalization error: with |c| * q <= k and
/// |e| < k, the product c * e scaled by q stays within k^2.
proof fn lemma_cross_term_bound(c: int, e: int, k: int, q: int)
    by (nonlinear_arith)
    requires
        c * q <= k,
        -(c * q) <= k,
        -k < e < k,
        0 < q,
        0 < k,
    ensures
        -(k * k) <= q * (c * e) <= k * k,
{
}

/// An error below k in magnitude has a square of at most k^2.
proof fn lemma_square_error_bound(e: int, k: int)
    by (nonlinear_arith)
    requires
        -k < e < k,
        0 < k,
    ensures
        0 <= e * e <= k * k,
{
}

/// Combines the three bounded summands of the deviation into one bracket.
proof fn lemma_deviation_bounds(dev: int, d: int, crs: int, errs: int, k: int, q: int)
    by (nonlinear_arith)
    requires
        dev == (q * q) * d + 2 * (q * q) * crs + errs,
        0 <= d <= 2 * k,
        -3 * (k * k) <= q * crs <= 3 * (k * k),
        0 <= errs <= 3 * (k * k),
        0 < q <= k,
    ensures
        -(6 * q) * (k * k) <= dev,
        dev <= (8 * q + 3) * (k * k),
{
}

} // verus!
