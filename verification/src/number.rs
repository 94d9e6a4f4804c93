//! Numbers: IEEE-754 binary64 values, held by their bit patterns.
//!
//! Bit 63 is the sign and the low 63 bits are the magnitude. A magnitude
//! above that of infinity is a NaN. Among the other values the order is that
//! of the signed magnitudes, so that the two zeros are equal. Ordering,
//! equality and negation need no rounding and are computed here. The four
//! arithmetic operations round, and are supplied by the caller.

use vstd::prelude::*;

verus! {

/// The bit pattern whose only set bit is the sign.
pub const SIGN_BIT: u64 = 0x8000_0000_0000_0000;

/// The bit pattern of positive infinity: the largest magnitude that is not a NaN.
pub const INFINITY_BITS: u64 = 0x7ff0_0000_0000_0000;

/// One of the four rounding operations on two numbers.
#[derive(Clone, Copy, Debug, PartialEq, Eq, Structural)]
pub enum ArithOp {
    Add,
    Sub,
    Mul,
    Div,
}

/// One of the six comparisons of two numbers.
#[derive(Clone, Copy, Debug, PartialEq, Eq, Structural)]
pub enum Relation {
    Greater,
    GreaterEqual,
    Less,
    LessEqual,
    Equal,
    NotEqual,
}

/// Whether the sign bit is set.
pub open spec fn is_negative(bits: u64) -> bool {
    bits >= SIGN_BIT
}

/// The bit pattern without its sign bit.
pub open spec fn magnitude(bits: u64) -> int {
    if bits >= SIGN_BIT {
        bits - SIGN_BIT
    } else {
        bits as int
    }
}

/// Whether the bit pattern is a NaN.
pub open spec fn is_nan(bits: u64) -> bool {
    magnitude(bits) > INFINITY_BITS
}

/// The place of a number that is not a NaN in the order of all such
/// numbers: its magnitude, taken negative where the sign bit is set.
pub open spec fn rank(bits: u64) -> int {
    if is_negative(bits) {
        -magnitude(bits)
    } else {
        magnitude(bits)
    }
}

/// The bit pattern of the negated number: the same magnitude, the other sign.
pub open spec fn negated(bits: u64) -> u64 {
    if bits >= SIGN_BIT {
        (bits - SIGN_BIT) as u64
    } else {
        (bits + SIGN_BIT) as u64
    }
}

/// Whether the relation holds of `a` and `b`. Every relation but `NotEqual`
/// is false when either side is a NaN, and `NotEqual` is then true.
pub open spec fn holds(relation: Relation, a: u64, b: u64) -> bool {
    let ordered = !is_nan(a) && !is_nan(b);
    match relation {
        Relation::Greater => ordered && rank(a) > rank(b),
        Relation::GreaterEqual => ordered && rank(a) >= rank(b),
        Relation::Less => ordered && rank(a) < rank(b),
        Relation::LessEqual => ordered && rank(a) <= rank(b),
        Relation::Equal => ordered && rank(a) == rank(b),
        Relation::NotEqual => !(ordered && rank(a) == rank(b)),
    }
}

/// The number with the opposite sign. A NaN stays a NaN.
pub fn negate(bits: u64) -> (r: u64)
    ensures
        r == negated(bits),
{
    if bits >= SIGN_BIT {
        bits - SIGN_BIT
    } else {
        bits + SIGN_BIT
    }
}

/// Whether `bits` is a NaN.
pub fn nan(bits: u64) -> (r: bool)
    ensures
        r == is_nan(bits),
{
    if bits >= SIGN_BIT {
        bits - SIGN_BIT > INFINITY_BITS
    } else {
        bits > INFINITY_BITS
    }
}

/// Whether `a` comes strictly before `b`; false when either is a NaN.
fn before(a: u64, b: u64) -> (r: bool)
    ensures
        r == (!is_nan(a) && !is_nan(b) && rank(a) < rank(b)),
{
    if nan(a) || nan(b) {
        false
    } else if a >= SIGN_BIT {
        if b >= SIGN_BIT {
            b - SIGN_BIT < a - SIGN_BIT
        } else {
            a - SIGN_BIT > 0 || b > 0
        }
    } else {
        b < SIGN_BIT && a < b
    }
}

/// Whether `a` and `b` are the same number; false when either is a NaN.
fn same(a: u64, b: u64) -> (r: bool)
    ensures
        r == (!is_nan(a) && !is_nan(b) && rank(a) == rank(b)),
{
    if nan(a) || nan(b) {
        false
    } else {
        let zero_a = a == 0 || a == SIGN_BIT;
        let zero_b = b == 0 || b == SIGN_BIT;
        a == b || (zero_a && zero_b)
    }
}

/// Decides a comparison of two numbers.
pub fn compare(relation: Relation, a: u64, b: u64) -> (r: bool)
    ensures
        r == holds(relation, a, b),
{
    match relation {
        Relation::Greater => before(b, a),
        Relation::GreaterEqual => before(b, a) || same(a, b),
        Relation::Less => before(a, b),
        Relation::LessEqual => before(a, b) || same(a, b),
        Relation::Equal => same(a, b),
        Relation::NotEqual => !same(a, b),
    }
}

/// Negating twice gives the number back.
pub proof fn negate_twice(bits: u64)
    ensures
        negated(negated(bits)) == bits,
{
}

/// Negation turns the order around, and keeps a NaN a NaN.
pub proof fn negate_reverses(a: u64, b: u64)
    ensures
        is_nan(negated(a)) == is_nan(a),
        holds(Relation::Less, a, b) == holds(Relation::Greater, negated(a), negated(b)),
{
}

} // verus!
