//! Constants and twist arithmetic for the second pairing group (G2) of the
//! MNT4-298 / MNT6-298 curve cycle, together with the cofactor machinery
//! that makes G2 points usable in a pairing.
//!
//! Field elements are modelled as five 64-bit little-endian limbs with a
//! mathematical value, the tower extensions as tuples of base-field
//! coefficients, and curve points in Jacobian coordinates.  Every operation
//! carries a contract that pins its result down as a function of those
//! mathematical values.

pub mod fe;
pub mod bits;
pub mod tower;
pub mod decimal;
pub mod curve2;
pub mod curve3;
pub mod mnt4_g2;
pub mod mnt6_g2;
