//! Addresses, sizes and address spaces within a 32-bit address space.

pub mod cursor;
pub mod sparse;

use vstd::prelude::*;

verus! {

/// One past the last address of the 32-bit address space.
pub const ADDRESS_SPACE_END: u64 = 0x1_0000_0000;

/// An address within the 32-bit address space.
#[derive(Clone, Copy, Debug, PartialEq, Eq, Structural)]
pub struct Address(pub u32);

impl Address {
    /// The address as a number.
    pub open spec fn spec_value(self) -> u32 {
        self.0
    }

    /// Constructs a new address.
    pub fn new(value: u32) -> (address: Address)
        ensures
            address.spec_value() == value,
    {
        Address(value)
    }

    /// Gets the address as a number.
    pub fn value(&self) -> (value: u32)
        ensures
            value == self.spec_value(),
    {
        self.0
    }

    /// Adds an offset, or returns `None` when the sum leaves the address space.
    pub fn checked_add(self, offset: u32) -> (address: Option<Address>)
        ensures
            self.spec_value() + offset < ADDRESS_SPACE_END ==> address == Some(
                Address::new_spec((self.spec_value() + offset) as u32),
            ),
            self.spec_value() + offset >= ADDRESS_SPACE_END ==> address is None,
    {
        match self.0.checked_add(offset) {
            Some(value) => Some(Address(value)),
            None => None,
        }
    }

    /// Subtracts an offset, or returns `None` when the difference is below zero.
    pub fn checked_sub(self, offset: u32) -> (address: Option<Address>)
        ensures
            offset <= self.spec_value() ==> address == Some(
                Address::new_spec((self.spec_value() - offset) as u32),
            ),
            offset > self.spec_value() ==> address is None,
    {
        match self.0.checked_sub(offset) {
            Some(value) => Some(Address(value)),
            None => None,
        }
    }

    /// The address with the given value.
    pub open spec fn new_spec(value: u32) -> Address {
        Address(value)
    }

    /// Constructs the address space of the given size that starts at this address.
    pub fn to_space(self, size: Size) -> (space: Result<AddressSpace, SpaceError>)
        ensures
            self.spec_value() + size.spec_get() <= ADDRESS_SPACE_END ==> (space matches Ok(s) && s.spec_start()
                == self.spec_value() && s.spec_size() == size.spec_get()),
            self.spec_value() + size.spec_get() > ADDRESS_SPACE_END ==> space == Err::<
                AddressSpace,
                SpaceError,
            >(SpaceError::Overflow(self, size.spec_get())),
    {
        let length = size.get();
        if self.0 as u64 + length <= ADDRESS_SPACE_END {
            Ok(AddressSpace { address: self, size })
        } else {
            Err(SpaceError::Overflow(self, length))
        }
    }
}

/// A non-empty size that fits within the 32-bit address space.
#[derive(Clone, Copy, Debug, PartialEq, Eq)]
pub struct Size(u64);

impl Size {
    #[verifier::type_invariant]
    spec fn fits(self) -> bool {
        1 <= self.0 <= ADDRESS_SPACE_END
    }

    /// The size as a number.
    pub closed spec fn spec_get(self) -> u64 {
        self.0
    }

    /// Constructs a new size, or fails when it is empty or exceeds the address space.
    pub fn new(value: u64) -> (size: Result<Size, SizeError>)
        ensures
            1 <= value <= ADDRESS_SPACE_END ==> (size matches Ok(s) && s.spec_get() == value),
            !(1 <= value <= ADDRESS_SPACE_END) ==> size == Err::<Size, SizeError>(
                SizeError::Invalid(value),
            ),
    {
        if 1 <= value && value <= ADDRESS_SPACE_END {
            Ok(Size(value))
        } else {
            Err(SizeError::Invalid(value))
        }
    }

    /// Constructs a size that is known to be valid.
    pub fn new_valid(value: u64) -> (size: Size)
        requires
            1 <= value <= ADDRESS_SPACE_END,
        ensures
            size.spec_get() == value,
    {
        Size(value)
    }

    /// Gets the size as a number.
    pub fn get(&self) -> (value: u64)
        ensures
            value == self.spec_get(),
            1 <= value <= ADDRESS_SPACE_END,
    {
        proof {
            use_type_invariant(self);
        }
        self.0
    }
}

/// The error for a size that is empty or exceeds the address space.
#[derive(Clone, Copy, Debug, PartialEq, Eq)]
pub enum SizeError {
    /// The size is empty or exceeds the address space.
    Invalid(u64),
}

/// The error for an address space that would extend past the end of the address space.
#[derive(Clone, Copy, Debug, PartialEq, Eq)]
pub enum SpaceError {
    /// The address plus the size (given here) exceeds the address space.
    Overflow(Address, u64),
}

/// The error for slicing a region outside of its address space.
#[derive(Clone, Copy, Debug, PartialEq, Eq)]
pub enum SliceError {
    /// The requested address space is not within the region's address space.
    OutOfBounds(AddressSpace, AddressSpace),
}

/// A non-empty range of addresses within the 32-bit address space.
#[derive(Clone, Copy, Debug, PartialEq, Eq)]
pub struct AddressSpace {
    address: Address,
    size: Size,
}

impl AddressSpace {
    #[verifier::type_invariant]
    spec fn within(self) -> bool {
        self.address.spec_value() + self.size.spec_get() <= ADDRESS_SPACE_END
    }

    /// The first address in the range.
    pub closed spec fn spec_start(self) -> u32 {
        self.address.spec_value()
    }

    /// The number of addresses in the range.
    pub closed spec fn spec_size(self) -> u64 {
        self.size.spec_get()
    }

    /// One past the last address in the range.
    pub open spec fn spec_end(self) -> int {
        self.spec_start() + self.spec_size()
    }

    /// A range is determined by its first address and its size.
    pub proof fn lemma_same(a: AddressSpace, b: AddressSpace)
        requires
            a.spec_start() == b.spec_start(),
            a.spec_size() == b.spec_size(),
        ensures
            a == b,
    {
    }

    /// Gets the first address in the range.
    pub fn address(&self) -> (address: Address)
        ensures
            address.spec_value() == self.spec_start(),
    {
        self.address
    }

    /// Gets the number of addresses in the range.
    pub fn size(&self) -> (size: Size)
        ensures
            size.spec_get() == self.spec_size(),
            self.spec_end() <= ADDRESS_SPACE_END,
    {
        proof {
            use_type_invariant(self);
        }
        self.size
    }

    /// Constructs the address space of the given size at an address, known to fit.
    pub fn new_valid(address: Address, size: Size) -> (space: AddressSpace)
        requires
            address.spec_value() + size.spec_get() <= ADDRESS_SPACE_END,
        ensures
            space.spec_start() == address.spec_value(),
            space.spec_size() == size.spec_get(),
    {
        AddressSpace { address, size }
    }

    /// Checks whether the given range lies entirely within this one.
    pub fn includes(&self, other: AddressSpace) -> (included: bool)
        ensures
            included == (self.spec_start() <= other.spec_start() && other.spec_end()
                <= self.spec_end()),
    {
        proof {
            use_type_invariant(self);
            use_type_invariant(&other);
        }
        let end = self.address.0 as u64 + self.size.get();
        let other_end = other.address.0 as u64 + other.size.get();
        self.address.0 <= other.address.0 && other_end <= end
    }
}

/// Something that spans a non-empty range of addresses.
pub trait Extent {
    /// The value is one that the library builds.
    spec fn valid(&self) -> bool;

    /// The number of addresses it spans.
    spec fn spec_size(&self) -> nat;

    /// The number of its bytes whose meaning is known.
    spec fn spec_identified(&self) -> nat;

    /// A valid value spans at least one address and at most the whole
    /// address space, and no more of it is identified than it spans.
    proof fn lemma_bounds(&self)
        requires
            self.valid(),
        ensures
            1 <= self.spec_size() <= ADDRESS_SPACE_END,
            self.spec_identified() <= self.spec_size(),
    ;

    /// Gets the number of addresses it spans.
    fn size(&self) -> (size: Size)
        requires
            self.valid(),
        ensures
            size.spec_get() == self.spec_size(),
    ;

    /// Gets the number of its bytes whose meaning is known.
    fn identified(&self) -> (count: u64)
        requires
            self.valid(),
        ensures
            count == self.spec_identified(),
    ;
}

} // verus!
