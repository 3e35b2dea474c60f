//! The fields of a section header.

use vstd::prelude::*;

use crate::memory::cursor::Position;
use crate::memory::{Address, AddressSpace, Size};

verus! {

/// The number of fields.
pub const FIELD_COUNT: usize = 10;

/// A field in a section header.
#[derive(Clone, Copy, Debug, PartialEq, Eq, Structural)]
pub enum Field {
    /// The `name` field.
    Name,
    /// The `virtual_size` field.
    VirtualSize,
    /// The `virtual_address` field.
    VirtualAddress,
    /// The `size_of_raw_data` field.
    SizeOfRawData,
    /// The `pointer_to_raw_data` field.
    PointerToRawData,
    /// The `pointer_to_relocations` field.
    PointerToRelocations,
    /// The `pointer_to_linenumbers` field.
    PointerToLinenumbers,
    /// The `number_of_relocations` field.
    NumberOfRelocations,
    /// The `number_of_linenumbers` field.
    NumberOfLinenumbers,
    /// The `characteristics` field.
    Characteristics,
}

impl Field {
    /// The offset of the field from the start of the structure, in bytes.
    pub open spec fn spec_offset(self) -> u32 {
        match self {
            Field::Name => 0,
            Field::VirtualSize => 8,
            Field::VirtualAddress => 12,
            Field::SizeOfRawData => 16,
            Field::PointerToRawData => 20,
            Field::PointerToRelocations => 24,
            Field::PointerToLinenumbers => 28,
            Field::NumberOfRelocations => 32,
            Field::NumberOfLinenumbers => 34,
            Field::Characteristics => 36,
        }
    }

    /// The width of the field, in bytes.
    pub open spec fn spec_width(self) -> u32 {
        match self {
            Field::Name => 8,
            Field::VirtualSize => 4,
            Field::VirtualAddress => 4,
            Field::SizeOfRawData => 4,
            Field::PointerToRawData => 4,
            Field::PointerToRelocations => 4,
            Field::PointerToLinenumbers => 4,
            Field::NumberOfRelocations => 2,
            Field::NumberOfLinenumbers => 2,
            Field::Characteristics => 4,
        }
    }

    /// The place of the field in the layout, counting from zero.
    pub open spec fn spec_index(self) -> nat {
        match self {
            Field::Name => 0,
            Field::VirtualSize => 1,
            Field::VirtualAddress => 2,
            Field::SizeOfRawData => 3,
            Field::PointerToRawData => 4,
            Field::PointerToRelocations => 5,
            Field::PointerToLinenumbers => 6,
            Field::NumberOfRelocations => 7,
            Field::NumberOfLinenumbers => 8,
            Field::Characteristics => 9,
        }
    }

    /// The field at the given place in the layout.
    pub open spec fn spec_nth(i: nat) -> Field {
        if i == 0 {
            Field::Name
        } else 
        if i == 1 {
            Field::VirtualSize
        } else 
        if i == 2 {
            Field::VirtualAddress
        } else 
        if i == 3 {
            Field::SizeOfRawData
        } else 
        if i == 4 {
            Field::PointerToRawData
        } else 
        if i == 5 {
            Field::PointerToRelocations
        } else 
        if i == 6 {
            Field::PointerToLinenumbers
        } else 
        if i == 7 {
            Field::NumberOfRelocations
        } else 
        if i == 8 {
            Field::NumberOfLinenumbers
        } else {
            Field::Characteristics
        }
    }

    /// The name of the field.
    pub open spec fn spec_name(self) -> Seq<char> {
        match self {
            Field::Name => "name"@,
            Field::VirtualSize => "virtual_size"@,
            Field::VirtualAddress => "virtual_address"@,
            Field::SizeOfRawData => "size_of_raw_data"@,
            Field::PointerToRawData => "pointer_to_raw_data"@,
            Field::PointerToRelocations => "pointer_to_relocations"@,
            Field::PointerToLinenumbers => "pointer_to_linenumbers"@,
            Field::NumberOfRelocations => "number_of_relocations"@,
            Field::NumberOfLinenumbers => "number_of_linenumbers"@,
            Field::Characteristics => "characteristics"@,
        }
    }

    /// Gets the position of the field within the structure.
    pub fn position(self) -> (position: Position)
        ensures
            position.0 == self.spec_offset(),
    {
        Position::new(
            match self {
            Field::Name => 0,
            Field::VirtualSize => 8,
            Field::VirtualAddress => 12,
            Field::SizeOfRawData => 16,
            Field::PointerToRawData => 20,
            Field::PointerToRelocations => 24,
            Field::PointerToLinenumbers => 28,
            Field::NumberOfRelocations => 32,
            Field::NumberOfLinenumbers => 34,
            Field::Characteristics => 36,
            },
        )
    }

    /// Gets the size of the field.
    pub fn size(&self) -> (size: Size)
        ensures
            size.spec_get() == self.spec_width(),
    {
        let width: u64 = match self {
            Field::Name => 8,
            Field::VirtualSize => 4,
            Field::VirtualAddress => 4,
            Field::SizeOfRawData => 4,
            Field::PointerToRawData => 4,
            Field::PointerToRelocations => 4,
            Field::PointerToLinenumbers => 4,
            Field::NumberOfRelocations => 2,
            Field::NumberOfLinenumbers => 2,
            Field::Characteristics => 4,
        };
        Size::new_valid(width)
    }

    /// Gets the address space of the field within the structure.
    pub fn address_space(&self) -> (space: AddressSpace)
        ensures
            space.spec_start() == self.spec_offset(),
            space.spec_size() == self.spec_width(),
    {
        AddressSpace::new_valid(Address::new(self.position().get() as u32), self.size())
    }

    /// Gets the name of the field.
    pub fn name(self) -> (name: &'static str)
        ensures
            name@ == self.spec_name(),
    {
        match self {
            Field::Name => "name",
            Field::VirtualSize => "virtual_size",
            Field::VirtualAddress => "virtual_address",
            Field::SizeOfRawData => "size_of_raw_data",
            Field::PointerToRawData => "pointer_to_raw_data",
            Field::PointerToRelocations => "pointer_to_relocations",
            Field::PointerToLinenumbers => "pointer_to_linenumbers",
            Field::NumberOfRelocations => "number_of_relocations",
            Field::NumberOfLinenumbers => "number_of_linenumbers",
            Field::Characteristics => "characteristics",
        }
    }

    /// The field that holds the byte at the given offset, if any.
    pub open spec fn spec_at(offset: u32) -> Option<Field> {
        if offset < 8 {
            Some(Field::Name)
        } else if offset < 12 {
            Some(Field::VirtualSize)
        } else if offset < 16 {
            Some(Field::VirtualAddress)
        } else if offset < 20 {
            Some(Field::SizeOfRawData)
        } else if offset < 24 {
            Some(Field::PointerToRawData)
        } else if offset < 28 {
            Some(Field::PointerToRelocations)
        } else if offset < 32 {
            Some(Field::PointerToLinenumbers)
        } else if offset < 34 {
            Some(Field::NumberOfRelocations)
        } else if offset < 36 {
            Some(Field::NumberOfLinenumbers)
        } else if offset < 40 {
            Some(Field::Characteristics)
        } else {
            None
        }
    }

    /// Gets the field that holds the byte at the given offset, if any.
    pub fn at(offset: u32) -> (field: Option<Field>)
        ensures
            field matches Some(f) ==> f.spec_offset() <= offset < f.spec_offset() + f.spec_width(),
            field is None <==> offset >= 40,
            field == Field::spec_at(offset),
    {
        if offset < 8 {
            return Some(Field::Name);
        }
        if offset < 12 {
            return Some(Field::VirtualSize);
        }
        if offset < 16 {
            return Some(Field::VirtualAddress);
        }
        if offset < 20 {
            return Some(Field::SizeOfRawData);
        }
        if offset < 24 {
            return Some(Field::PointerToRawData);
        }
        if offset < 28 {
            return Some(Field::PointerToRelocations);
        }
        if offset < 32 {
            return Some(Field::PointerToLinenumbers);
        }
        if offset < 34 {
            return Some(Field::NumberOfRelocations);
        }
        if offset < 36 {
            return Some(Field::NumberOfLinenumbers);
        }
        if offset < 40 {
            return Some(Field::Characteristics);
        }
        None
    }

    /// Gets all fields, in the order they are laid out.
    pub fn all() -> (fields: Vec<Field>)
        ensures
            fields@.len() == FIELD_COUNT,
            forall|i: int| 0 <= i < FIELD_COUNT ==> fields@[i] == Field::spec_nth(i as nat),
    {
        let fields = vec![Field::Name, Field::VirtualSize, Field::VirtualAddress, Field::SizeOfRawData, Field::PointerToRawData, Field::PointerToRelocations, Field::PointerToLinenumbers, Field::NumberOfRelocations, Field::NumberOfLinenumbers, Field::Characteristics];
        assert(fields@.len() == FIELD_COUNT);
        fields
    }
}

/// The fields follow each other without gaps or overlaps, from the start to the
/// end of the structure, each at its own place in the layout.
pub proof fn lemma_fields_tile()
    ensures
        Field::spec_nth(0).spec_offset() == 0,
        forall|i: nat| #![trigger Field::spec_nth(i)] i + 1 < FIELD_COUNT ==> Field::spec_nth(i + 1).spec_offset()
            == Field::spec_nth(i).spec_offset() + Field::spec_nth(i).spec_width(),
        Field::spec_nth((FIELD_COUNT - 1) as nat).spec_offset() + Field::spec_nth((FIELD_COUNT - 1) as nat).spec_width() == 40,
        forall|f: Field| #[trigger] f.spec_index() < FIELD_COUNT && Field::spec_nth(f.spec_index()) == f,
{
}

} // verus!
