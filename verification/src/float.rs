//! Floats are computed outside this library, by a unit that the caller names.
use vstd::prelude::*;

verus! {

/// How two floats stand to each other.
#[derive(Clone, Copy, Debug, PartialEq, Eq, Structural)]
pub enum Relation {
    Less,
    Equal,
    Greater,
}

/// Arithmetic on IEEE 754 doubles, each handed over and returned as its 64
/// bits. The library decides when a float is computed and from what; what comes
/// out is the unit's business, and nothing is assumed of it.
pub trait FloatUnit {
    /// The float that the decimal text writes, where it writes one.
    fn parse(text: &str) -> Option<u64>;

    /// The float nearest to the integer.
    fn from_int(i: i64) -> u64;

    fn add(a: u64, b: u64) -> u64;

    fn sub(a: u64, b: u64) -> u64;

    fn mul(a: u64, b: u64) -> u64;

    fn div(a: u64, b: u64) -> u64;

    fn rem(a: u64, b: u64) -> u64;

    fn pow(a: u64, b: u64) -> u64;

    fn neg(a: u64) -> u64;

    /// How `a` stands to `b` in the unit's total order of floats.
    fn compare(a: u64, b: u64) -> Relation;
}

} // verus!
