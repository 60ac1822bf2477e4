//! Planar coordinates are carried through the library as the bit
//! patterns of their 64-bit floating-point values.  The library's own
//! logic moves, swaps and compares these bit patterns as plain
//! integers; every operation on the numeric values themselves goes
//! through a trusted wrapper around the standard library or an
//! outside crate, whose result is named so that contracts stay exact.
//! The names treat each such computation as a function of its
//! operands' bit patterns, which holds of these operations except for
//! the payload bits of not-a-number results; no contract here claims a
//! particular payload.
use vstd::prelude::*;

verus! {

/// A bit pattern denotes a finite number: its exponent bits are not
/// all ones (which would make it an infinity or a not-a-number).
pub open spec fn is_finite_bits(b: u64) -> bool {
    (b >> 52) & 0x7ff != 0x7ff
}

/// Whether a bit pattern denotes a finite number.
pub fn finite_bits(b: u64) -> (r: bool)
    ensures
        r == is_finite_bits(b),
{
    (b >> 52) & 0x7ff != 0x7ff
}

/// A bit pattern denotes a number of moderate magnitude: its biased
/// exponent keeps the absolute value below 2^500.  Differences of such
/// values, and products of two such differences, then stay finite.  A
/// bounded value is in particular finite.
pub open spec fn is_bounded_bits(b: u64) -> bool {
    (b >> 52) & 0x7ff < 1523
}

/// Whether a bit pattern denotes a number of moderate magnitude.
pub fn bounded_bits(b: u64) -> (r: bool)
    ensures
        r == is_bounded_bits(b),
{
    (b >> 52) & 0x7ff < 1523
}

/// The bit pattern of the finite number a text denotes, or `None` when
/// the text is not a valid floating-point literal or denotes an
/// infinity or a not-a-number.  The result depends on the text alone.
pub uninterp spec fn float_bits_of(s: Seq<char>) -> Option<u64>;

/// Relies on str::parse for 64-bit floats and f64::is_finite:
/// deterministic in the text; non-finite values are rejected.
#[verifier::external_body]
pub fn parse_float_bits(s: &str) -> (r: Option<u64>)
    ensures
        r == float_bits_of(s@),
        r matches Some(b) ==> is_finite_bits(b),
{
    let v = match s.parse() {
        Ok(v) => v,
        Err(_) => {
            return None;
        },
    };
    let c: geo_types::Coord = geo_types::Coord { x: v, y: v };
    if c.x.is_finite() {
        Some(c.x.to_bits())
    } else {
        None
    }
}

/// The strict order of the two numbers the bit patterns denote.
/// The result depends on the arguments alone.
pub uninterp spec fn float_lt(a: u64, b: u64) -> bool;

/// Relies on the `<` comparison of 64-bit floats.
#[verifier::external_body]
pub fn lt_bits(a: u64, b: u64) -> (r: bool)
    ensures
        r == float_lt(a, b),
{
    let c: geo_types::Coord = geo_types::Coord { x: bytemuck::cast(a), y: bytemuck::cast(b) };
    c.x < c.y
}

/// The bit pattern of the number converted from radians to degrees.
/// The result depends on the argument alone.
pub uninterp spec fn degrees_of(b: u64) -> u64;

/// Relies on f64::to_degrees.
#[verifier::external_body]
pub fn degrees_bits(b: u64) -> (r: u64)
    ensures
        r == degrees_of(b),
{
    let c: geo_types::Coord = geo_types::Coord { x: bytemuck::cast(b), y: bytemuck::cast(b) };
    c.x.to_degrees().to_bits()
}

} // verus!
