//! The fields of a data directory entry.

use vstd::prelude::*;

use crate::memory::{Address, AddressSpace, Size};

verus! {

/// The number of fields.
pub const FIELD_COUNT: usize = 2;

/// A field in a data directory entry.
#[derive(Clone, Copy, Debug, PartialEq, Eq, Structural)]
pub enum Field {
    /// The `virtual_address` field.
    VirtualAddress,
    /// The `size` field.
    Size,
}

impl Field {
    /// The offset of the field from the start of the structure, in bytes.
    pub open spec fn spec_offset(self) -> u32 {
        match self {
            Field::VirtualAddress => 0,
            Field::Size => 4,
        }
    }

    /// The width of the field, in bytes.
    pub open spec fn spec_width(self) -> u32 {
        match self {
            Field::VirtualAddress => 4,
            Field::Size => 4,
        }
    }

    /// The place of the field in the layout, counting from zero.
    pub open spec fn spec_index(self) -> nat {
        match self {
            Field::VirtualAddress => 0,
            Field::Size => 1,
        }
    }

    /// The field at the given place in the layout.
    pub open spec fn spec_nth(i: nat) -> Field {
        if i == 0 {
            Field::VirtualAddress
        } else {
            Field::Size
        }
    }

    /// The name of the field.
    pub open spec fn spec_name(self) -> Seq<char> {
        match self {
            Field::VirtualAddress => "virtual_address"@,
            Field::Size => "size"@,
        }
    }

    /// Gets the address of the field within the structure.
    pub fn address(self) -> (address: Address)
        ensures
            address.spec_value() == self.spec_offset(),
    {
        Address::new(
            match self {
            Field::VirtualAddress => 0,
            Field::Size => 4,
            },
        )
    }

    /// Gets the size of the field.
    pub fn size(&self) -> (size: Size)
        ensures
            size.spec_get() == self.spec_width(),
    {
        let width: u64 = match self {
            Field::VirtualAddress => 4,
            Field::Size => 4,
        };
        Size::new_valid(width)
    }

    /// Gets the address space of the field within the structure.
    pub fn address_space(&self) -> (space: AddressSpace)
        ensures
            space.spec_start() == self.spec_offset(),
            space.spec_size() == self.spec_width(),
    {
        AddressSpace::new_valid(self.address(), self.size())
    }

    /// Gets the name of the field.
    pub fn name(self) -> (name: &'static str)
        ensures
            name@ == self.spec_name(),
    {
        match self {
            Field::VirtualAddress => "virtual_address",
            Field::Size => "size",
        }
    }

    /// The field that holds the byte at the given offset, if any.
    pub open spec fn spec_at(offset: u32) -> Option<Field> {
        if offset < 4 {
            Some(Field::VirtualAddress)
        } else if offset < 8 {
            Some(Field::Size)
        } else {
            None
        }
    }

    /// Gets the field that holds the byte at the given offset, if any.
    pub fn at(offset: u32) -> (field: Option<Field>)
        ensures
            field matches Some(f) ==> f.spec_offset() <= offset < f.spec_offset() + f.spec_width(),
            field is None <==> offset >= 8,
            field == Field::spec_at(offset),
    {
        if offset < 4 {
            return Some(Field::VirtualAddress);
        }
        if offset < 8 {
            return Some(Field::Size);
        }
        None
    }

    /// Gets all fields, in the order they are laid out.
    pub fn all() -> (fields: Vec<Field>)
        ensures
            fields@.len() == FIELD_COUNT,
            forall|i: int| 0 <= i < FIELD_COUNT ==> fields@[i] == Field::spec_nth(i as nat),
    {
        let fields = vec![Field::VirtualAddress, Field::Size];
        assert(fields@.len() == FIELD_COUNT);
        fields
    }
}

/// The fields follow each other without gaps or overlaps, from the start to the
/// end of the structure, each at its own place in the layout.
pub proof fn lemma_fields_tile()
    ensures
        Field::spec_nth(0).spec_offset() == 0,
        forall|i: nat| #![trigger Field::spec_nth(i)] i + 1 < FIELD_COUNT ==> Field::spec_nth(i + 1).spec_offset()
            == Field::spec_nth(i).spec_offset() + Field::spec_nth(i).spec_width(),
        Field::spec_nth((FIELD_COUNT - 1) as nat).spec_offset() + Field::spec_nth((FIELD_COUNT - 1) as nat).spec_width() == 8,
        forall|f: Field| #[trigger] f.spec_index() < FIELD_COUNT && Field::spec_nth(f.spec_index()) == f,
{
}

} // verus!
