//! What holds of the library as a whole.

pub mod decoding;
pub mod detection;
pub mod framing;
pub mod guarding;
pub mod identifying;
pub mod modelling;
pub mod reporting;
pub mod starting;
pub mod streaming;
pub mod wording;
