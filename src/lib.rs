//! Validation and segment lookup for a monotone cubic curve built over
//! IEEE-754 double-precision samples, each double held by its bit pattern,
//! and the ASCII form of garbled accidental signs in chord text.

pub mod accidentals;
pub mod double;
pub mod samples;
pub mod segment;

pub use accidentals::accidental_to_ascii;
pub use double::Double;
pub use samples::{check_samples, CurveError};
pub use segment::{locate, Segment};
