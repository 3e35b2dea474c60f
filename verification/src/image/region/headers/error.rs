//! The errors of reading image file headers.

use vstd::prelude::*;

use crate::array_string::ArrayStringError;
use crate::wire::ReadError;

verus! {

/// The image file headers error.
#[derive(Clone, Copy, Debug, PartialEq, Eq, Structural)]
pub enum Error {
    /// An invalid signature was detected.
    InvalidSignature,
    /// An unsupported architecture was detected.
    UnsupportedArchitecture,
    /// An unsupported data directory count was detected.
    UnsupportedDataDirectoryCount(u32),
    /// An invalid section name was detected.
    InvalidSectionName(ArrayStringError),
    /// The input ended before a header.
    Decode(ReadError),
}

} // verus!
