//! A rotation (Caesar) cipher over ASCII letters.
//!
//! Each ASCII letter of the input is rotated by a fixed shift within its
//! case's 26-letter alphabet; every other byte — punctuation, digits,
//! whitespace, and the bytes of multi-byte UTF-8 sequences — passes through
//! unchanged. Because the rotation maps single ASCII bytes to single ASCII
//! bytes and never touches a byte outside the letter ranges, the transform
//! preserves UTF-8 validity, and that invariant is proved here rather than
//! assumed.

pub mod cipher;
pub mod encoding;
pub mod shift;

pub use cipher::Caesar;
pub use cipher::Direction;
pub use cipher::InvalidShift;
