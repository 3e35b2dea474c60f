//! Regions of padding.

use vstd::prelude::*;

use crate::memory::{Address, AddressSpace, Size, SliceError};

verus! {

/// A region of padding.
///
/// This represents a region of bytes that has been identified as padding. This
/// may be found between sections, code, or data. Each region of padding has a
/// byte value to indicate what values have been analysed.
#[derive(Clone, Copy, Debug, PartialEq, Eq)]
pub struct Padding {
    size: Size,
    value: u8,
}

impl Padding {
    /// The number of bytes of padding.
    pub closed spec fn spec_size(self) -> u64 {
        self.size.spec_get()
    }

    /// The value of each byte of padding.
    pub closed spec fn spec_value(self) -> u8 {
        self.value
    }

    /// The bytes of the padding: its value, as many times as its size.
    pub open spec fn spec_encode(self) -> Seq<u8> {
        Seq::new(self.spec_size() as nat, |i: int| self.spec_value())
    }

    /// Constructs a new padding region.
    pub fn new(size: Size, value: u8) -> (padding: Padding)
        ensures
            padding.spec_size() == size.spec_get(),
            padding.spec_value() == value,
    {
        Padding { size, value }
    }

    /// Gets the padding value.
    pub fn value(&self) -> (value: u8)
        ensures
            value == self.spec_value(),
    {
        self.value
    }

    /// Gets the size of the padding.
    pub fn size(&self) -> (size: Size)
        ensures
            size.spec_get() == self.spec_size(),
            1 <= size.spec_get(),
    {
        let size = self.size;
        let _ = size.get();
        size
    }

    /// Gets the number of bytes that have been identified: all of them.
    pub fn identified(&self) -> (count: u64)
        ensures
            count == self.spec_size(),
    {
        self.size.get()
    }

    /// Gets the address space of the padding, which starts at address zero.
    pub fn address_space(&self) -> (space: AddressSpace)
        ensures
            space.spec_start() == 0,
            space.spec_size() == self.spec_size(),
    {
        let size = self.size;
        let _ = size.get();
        AddressSpace::new_valid(Address::new(0), size)
    }

    /// Takes the part of the padding within the given address space.
    ///
    /// The result has the size of that address space and the same value; an
    /// address space that is not within the padding is refused.
    pub fn slice(&self, address_space: AddressSpace) -> (sliced: Result<Padding, SliceError>)
        ensures
            address_space.spec_end() <= self.spec_size() ==> (sliced matches Ok(p) && p.spec_size()
                == address_space.spec_size() && p.spec_value() == self.spec_value()),
            address_space.spec_end() > self.spec_size() ==> (sliced matches Err(
                SliceError::OutOfBounds(inner, outer),
            ) && inner == address_space && outer.spec_start() == 0 && outer.spec_size()
                == self.spec_size()),
    {
        let region_address_space = self.address_space();
        if !region_address_space.includes(address_space) {
            return Err(SliceError::OutOfBounds(address_space, region_address_space));
        }
        Ok(Padding::new(address_space.size(), self.value()))
    }

    /// Appends the bytes of the padding.
    pub fn encode(&self, out: &mut Vec<u8>)
        ensures
            final(out)@ == old(out)@ + self.spec_encode(),
    {
        let ghost start = old(out)@;
        let count = self.size.get();
        let mut written: u64 = 0;
        while written < count
            invariant
                written <= count,
                count == self.spec_size(),
                out@ == start + Seq::new(written as nat, |i: int| self.spec_value()),
            decreases count - written,
        {
            out.push(self.value);
            written = written + 1;
            assert(out@ =~= start + Seq::new(written as nat, |i: int| self.spec_value()));
        }
    }
}

} // verus!
