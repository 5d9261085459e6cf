//! Segmentation of valid UTF-8 byte sequences into per-character slices.
//!
//! The iterators here do not decode or validate: they read only the leading
//! byte of each character, take its byte length from a precomputed lookup
//! table, and split that many bytes off the front of the remaining view.
//! Two variants exist, differing only in table layout: [`CharSlices`] indexes
//! a 16-entry table by the high nibble of the leading byte, and
//! [`CharSlicesLarge`] indexes a 256-entry table by the full byte.
//!
//! Malformed input is handled by precondition, not at run time: the caller
//! guarantees valid UTF-8, and `next` and `count` carry that guarantee as
//! their `requires`. A stray continuation byte in the leading position (for
//! which the table records length 0) therefore never reaches the verified
//! code; no guard, error value or stall path exists for it.

pub mod compact;
pub mod large;
pub mod model;
pub mod tables;

pub use compact::CharSlices;
pub use compact::CharSlicesStrExt;
pub use large::CharSlicesLarge;
pub use large::CharSlicesLargeStrExt;
