//! Shared numeric constants: the epsilon threshold for parametric distances,
//! the unit-length tolerance, and the representation bounds that keep every
//! intermediate product inside `i128`.

use vstd::prelude::*;

verus! {

/// EPSILON = EPSILON_NUM / EPSILON_DEN, the small positive threshold a
/// parametric distance must exceed before a primitive reports a hit. The same
/// ratio serves as the tolerance for the unit-length test on normals.
pub const EPSILON_NUM: i128 = 1;

/// Denominator of EPSILON; also the tolerance denominator for unit length.
pub const EPSILON_DEN: i128 = 1000;

/// Bound on the numerators and the denominator of scene input coordinates
/// (plane points, raw normals, ray origins, raw directions).
pub const COORD_BOUND: i128 = 1024;

/// Denominator given to normalized vectors; also the bound on their
/// numerators. A normalized component num/UNIT_SCALE lies in [-1, 1].
pub const UNIT_SCALE: i128 = 65536;

/// Bound on the numerator magnitude and the denominator of any parametric
/// distance a primitive reports, so that two of them can be compared by
/// cross-multiplication without overflow.
pub const T_BOUND: i128 = 1152921504606846976;

} // verus!
