//! The estimate from this machine's limits, for callers that only need the
//! number of bytes available and not a command.
pub use crate::unix::available_argument_length;
