//! Error taxonomy surfaced to callers of discovery and attribute access.

use vstd::prelude::*;

verus! {

/// What can go wrong while discovering a device or reaching an attribute.
#[derive(Clone, Copy, Debug, PartialEq, Eq, Structural)]
pub enum Ev3Error {
    /// Discovery found zero matching devices.
    NotFound,
    /// Discovery found more than one match where exactly one was required.
    MultipleMatches,
    /// A filesystem operation failed (missing directory, permission, read failure).
    Io,
    /// A directory entry or attribute value could not be interpreted as text.
    Decode,
    /// An impossible-state violation; a fatal programmer error.
    Internal,
}

/// Result type used throughout the crate.
pub type Ev3Result<T> = Result<T, Ev3Error>;

} // verus!
