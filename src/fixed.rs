use vstd::prelude::*;

verus! {

/// Number of fixed-point units in 1.0: every coordinate, colour channel and
/// matrix entry of the library is an `i64` counted in these units.
pub const ONE: i64 = 65536;

/// Largest magnitude a fixed-point coordinate may take.
pub const LIMIT: i64 = 1099511627776;

/// Absolute value.
pub open spec fn abs(v: int) -> int {
    if v < 0 {
        -v
    } else {
        v
    }
}

/// `v` lies in the representable coordinate range.
pub open spec fn in_range(v: int) -> bool {
    -LIMIT <= v <= LIMIT
}

/// `v` limited to the representable coordinate range.
pub open spec fn clamp_spec(v: int) -> int {
    if v < -LIMIT {
        -LIMIT as int
    } else if v > LIMIT {
        LIMIT as int
    } else {
        v
    }
}

/// Saturates `v` into the representable coordinate range.
pub fn saturate(v: i128) -> (r: i64)
    ensures
        r == clamp_spec(v as int),
{
    if v < -(LIMIT as i128) {
        -LIMIT
    } else if v > LIMIT as i128 {
        LIMIT
    } else {
        v as i64
    }
}

} // verus!

verus! {

/// The whole part of `c`, rounded down.
pub fn floor_units(c: i64) -> (r: i64)
    ensures
        r == (c as int) / (ONE as int),
{
    proof {
        let ci = c as int;
        assert(-abs(ci) <= ci / 65536 <= abs(ci)) by (nonlinear_arith);
    }
    match c.checked_div_euclid(ONE) {
        Some(q) => q,
        None => 0,
    }
}

/// The whole part of `c`, rounded up.
pub fn ceil_units(c: i64) -> (r: i64)
    requires
        in_range(c as int),
    ensures
        r == -((-(c as int)) / (ONE as int)),
{
    -floor_units(-c)
}

/// Whether `v` lies in the representable coordinate range.
pub fn is_in_range(v: i64) -> (r: bool)
    ensures
        r == in_range(v as int),
{
    -LIMIT <= v && v <= LIMIT
}

} // verus!
