//! The errors of reading and changing an image.

use vstd::prelude::*;

use crate::memory::sparse::SparseError;
use crate::memory::{Address, AddressSpace, SizeError, SpaceError};

verus! {

/// The error for a block that cannot be placed in an image.
#[derive(Clone, Copy, Debug, PartialEq, Eq)]
pub enum InsertError {
    /// The block lies outside the address space of the image, given second.
    OutOfBounds(AddressSpace, AddressSpace),
    /// No section holds the address, given relative to the image address.
    Unsupported(Address),
}

/// The image file error.
#[derive(Clone, Copy, Debug, PartialEq, Eq)]
pub enum Error {
    /// A problem was encountered with the image headers.
    Headers(crate::image::region::headers::Error),
    /// A problem was encountered with an image section.
    Section(crate::image::region::section::Error),
    /// A problem was encountered with a sparse region.
    Sparse(SparseError),
    /// A block could not be placed in the image.
    Insert(InsertError),
    /// The image size is not a valid size.
    Size(SizeError),
    /// The image does not fit the address space.
    Space(SpaceError),
}

/// The error for an image whose layout cannot be written to a file.
#[derive(Clone, Copy, Debug, PartialEq, Eq)]
pub enum EncodeError {
    /// The section headers and the sections do not fit together in file order.
    InvalidLayout,
}

} // verus!
