//! Validation and generation of Israeli national identification numbers:
//! nine-digit codes whose final digit is a checksum of the preceding eight.
//!
//! The library parses decimal strings or integers into [`TZ`] values,
//! checks the checksum relation with [`validate`], renders a `TZ` back to
//! its nine-character decimal form with [`tz2str`], and enumerates every
//! valid code in a numeric range with [`generate`].

pub mod checksum;
pub mod digit;
pub mod generator;
pub mod laws;
pub mod numeric;
pub mod parse;
pub mod tz;

pub use digit::TZDigit;
pub use digit::TZError;
pub use checksum::validate;
pub use generator::generate;
pub use parse::int2tz;
pub use parse::str2tz;
pub use tz::MAX_TZ_RANGE;
pub use tz::TZ;
pub use tz::tz2str;
