//! What can go wrong in a combine run.

use vstd::prelude::*;

verus! {

/// The kinds of failure. Each ends the run.
#[derive(Clone, Copy, Debug, PartialEq, Eq, Structural)]
pub enum OmError {
    /// An input image could not be read.
    Decode,
    /// An image is larger than the configured canvas.
    Capacity,
    /// An output could not be written.
    Io,
    /// An argument is not a valid number.
    Config,
    /// The descriptor format was asked for before it is defined.
    UnspecifiedFormat,
}

} // verus!
