use vstd::prelude::*;

verus! {

/// The key of the score given to a point that an ant may not choose.
///
/// Scores are real numbers, and the library ranks them by integer keys: a
/// larger score has a larger key. The key of a score that is zero or more is
/// the bit pattern of that score as a 64-bit binary floating-point number.
/// This is the key of the smallest positive normal number: above zero, so
/// that shares of a sum stay defined, and below every score that matters.
pub const MINUTE: i64 = 0x0010_0000_0000_0000;

} // verus!
