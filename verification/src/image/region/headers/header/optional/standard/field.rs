//! The fields of the standard fields of an Optional header.

use vstd::prelude::*;

use crate::memory::{Address, AddressSpace, Size};

verus! {

/// The number of fields.
pub const FIELD_COUNT: usize = 9;

/// A field in the standard fields of an Optional header.
#[derive(Clone, Copy, Debug, PartialEq, Eq, Structural)]
pub enum Field {
    /// The `magic` field.
    Magic,
    /// The `major_linker_version` field.
    MajorLinkerVersion,
    /// The `minor_linker_version` field.
    MinorLinkerVersion,
    /// The `size_of_code` field.
    SizeOfCode,
    /// The `size_of_initialized_data` field.
    SizeOfInitializedData,
    /// The `size_of_uninitialized_data` field.
    SizeOfUninitializedData,
    /// The `address_of_entry_point` field.
    AddressOfEntryPoint,
    /// The `base_of_code` field.
    BaseOfCode,
    /// The `base_of_data` field.
    BaseOfData,
}

impl Field {
    /// The offset of the field from the start of the structure, in bytes.
    pub open spec fn spec_offset(self) -> u32 {
        match self {
            Field::Magic => 0,
            Field::MajorLinkerVersion => 2,
            Field::MinorLinkerVersion => 3,
            Field::SizeOfCode => 4,
            Field::SizeOfInitializedData => 8,
            Field::SizeOfUninitializedData => 12,
            Field::AddressOfEntryPoint => 16,
            Field::BaseOfCode => 20,
            Field::BaseOfData => 24,
        }
    }

    /// The width of the field, in bytes.
    pub open spec fn spec_width(self) -> u32 {
        match self {
            Field::Magic => 2,
            Field::MajorLinkerVersion => 1,
            Field::MinorLinkerVersion => 1,
            Field::SizeOfCode => 4,
            Field::SizeOfInitializedData => 4,
            Field::SizeOfUninitializedData => 4,
            Field::AddressOfEntryPoint => 4,
            Field::BaseOfCode => 4,
            Field::BaseOfData => 4,
        }
    }

    /// The place of the field in the layout, counting from zero.
    pub open spec fn spec_index(self) -> nat {
        match self {
            Field::Magic => 0,
            Field::MajorLinkerVersion => 1,
            Field::MinorLinkerVersion => 2,
            Field::SizeOfCode => 3,
            Field::SizeOfInitializedData => 4,
            Field::SizeOfUninitializedData => 5,
            Field::AddressOfEntryPoint => 6,
            Field::BaseOfCode => 7,
            Field::BaseOfData => 8,
        }
    }

    /// The field at the given place in the layout.
    pub open spec fn spec_nth(i: nat) -> Field {
        if i == 0 {
            Field::Magic
        } else 
        if i == 1 {
            Field::MajorLinkerVersion
        } else 
        if i == 2 {
            Field::MinorLinkerVersion
        } else 
        if i == 3 {
            Field::SizeOfCode
        } else 
        if i == 4 {
            Field::SizeOfInitializedData
        } else 
        if i == 5 {
            Field::SizeOfUninitializedData
        } else 
        if i == 6 {
            Field::AddressOfEntryPoint
        } else 
        if i == 7 {
            Field::BaseOfCode
        } else {
            Field::BaseOfData
        }
    }

    /// The name of the field.
    pub open spec fn spec_name(self) -> Seq<char> {
        match self {
            Field::Magic => "magic"@,
            Field::MajorLinkerVersion => "major_linker_version"@,
            Field::MinorLinkerVersion => "minor_linker_version"@,
            Field::SizeOfCode => "size_of_code"@,
            Field::SizeOfInitializedData => "size_of_initialized_data"@,
            Field::SizeOfUninitializedData => "size_of_uninitialized_data"@,
            Field::AddressOfEntryPoint => "address_of_entry_point"@,
            Field::BaseOfCode => "base_of_code"@,
            Field::BaseOfData => "base_of_data"@,
        }
    }

    /// Gets the address of the field within the structure.
    pub fn address(self) -> (address: Address)
        ensures
            address.spec_value() == self.spec_offset(),
    {
        Address::new(
            match self {
            Field::Magic => 0,
            Field::MajorLinkerVersion => 2,
            Field::MinorLinkerVersion => 3,
            Field::SizeOfCode => 4,
            Field::SizeOfInitializedData => 8,
            Field::SizeOfUninitializedData => 12,
            Field::AddressOfEntryPoint => 16,
            Field::BaseOfCode => 20,
            Field::BaseOfData => 24,
            },
        )
    }

    /// Gets the size of the field.
    pub fn size(&self) -> (size: Size)
        ensures
            size.spec_get() == self.spec_width(),
    {
        let width: u64 = match self {
            Field::Magic => 2,
            Field::MajorLinkerVersion => 1,
            Field::MinorLinkerVersion => 1,
            Field::SizeOfCode => 4,
            Field::SizeOfInitializedData => 4,
            Field::SizeOfUninitializedData => 4,
            Field::AddressOfEntryPoint => 4,
            Field::BaseOfCode => 4,
            Field::BaseOfData => 4,
        };
        Size::new_valid(width)
    }

    /// Gets the address space of the field within the structure.
    pub fn address_space(&self) -> (space: AddressSpace)
        ensures
            space.spec_start() == self.spec_offset(),
            space.spec_size() == self.spec_width(),
    {
        AddressSpace::new_valid(self.address(), self.size())
    }

    /// Gets the name of the field.
    pub fn name(self) -> (name: &'static str)
        ensures
            name@ == self.spec_name(),
    {
        match self {
            Field::Magic => "magic",
            Field::MajorLinkerVersion => "major_linker_version",
            Field::MinorLinkerVersion => "minor_linker_version",
            Field::SizeOfCode => "size_of_code",
            Field::SizeOfInitializedData => "size_of_initialized_data",
            Field::SizeOfUninitializedData => "size_of_uninitialized_data",
            Field::AddressOfEntryPoint => "address_of_entry_point",
            Field::BaseOfCode => "base_of_code",
            Field::BaseOfData => "base_of_data",
        }
    }

    /// The field that holds the byte at the given offset, if any.
    pub open spec fn spec_at(offset: u32) -> Option<Field> {
        if offset < 2 {
            Some(Field::Magic)
        } else if offset < 3 {
            Some(Field::MajorLinkerVersion)
        } else if offset < 4 {
            Some(Field::MinorLinkerVersion)
        } else if offset < 8 {
            Some(Field::SizeOfCode)
        } else if offset < 12 {
            Some(Field::SizeOfInitializedData)
        } else if offset < 16 {
            Some(Field::SizeOfUninitializedData)
        } else if offset < 20 {
            Some(Field::AddressOfEntryPoint)
        } else if offset < 24 {
            Some(Field::BaseOfCode)
        } else if offset < 28 {
            Some(Field::BaseOfData)
        } else {
            None
        }
    }

    /// Gets the field that holds the byte at the given offset, if any.
    pub fn at(offset: u32) -> (field: Option<Field>)
        ensures
            field matches Some(f) ==> f.spec_offset() <= offset < f.spec_offset() + f.spec_width(),
            field is None <==> offset >= 28,
            field == Field::spec_at(offset),
    {
        if offset < 2 {
            return Some(Field::Magic);
        }
        if offset < 3 {
            return Some(Field::MajorLinkerVersion);
        }
        if offset < 4 {
            return Some(Field::MinorLinkerVersion);
        }
        if offset < 8 {
            return Some(Field::SizeOfCode);
        }
        if offset < 12 {
            return Some(Field::SizeOfInitializedData);
        }
        if offset < 16 {
            return Some(Field::SizeOfUninitializedData);
        }
        if offset < 20 {
            return Some(Field::AddressOfEntryPoint);
        }
        if offset < 24 {
            return Some(Field::BaseOfCode);
        }
        if offset < 28 {
            return Some(Field::BaseOfData);
        }
        None
    }

    /// Gets all fields, in the order they are laid out.
    pub fn all() -> (fields: Vec<Field>)
        ensures
            fields@.len() == FIELD_COUNT,
            forall|i: int| 0 <= i < FIELD_COUNT ==> fields@[i] == Field::spec_nth(i as nat),
    {
        let fields = vec![Field::Magic, Field::MajorLinkerVersion, Field::MinorLinkerVersion, Field::SizeOfCode, Field::SizeOfInitializedData, Field::SizeOfUninitializedData, Field::AddressOfEntryPoint, Field::BaseOfCode, Field::BaseOfData];
        assert(fields@.len() == FIELD_COUNT);
        fields
    }
}

/// The fields follow each other without gaps or overlaps, from the start to the
/// end of the structure, each at its own place in the layout.
pub proof fn lemma_fields_tile()
    ensures
        Field::spec_nth(0).spec_offset() == 0,
        forall|i: nat| #![trigger Field::spec_nth(i)] i + 1 < FIELD_COUNT ==> Field::spec_nth(i + 1).spec_offset()
            == Field::spec_nth(i).spec_offset() + Field::spec_nth(i).spec_width(),
        Field::spec_nth((FIELD_COUNT - 1) as nat).spec_offset() + Field::spec_nth((FIELD_COUNT - 1) as nat).spec_width() == 28,
        forall|f: Field| #[trigger] f.spec_index() < FIELD_COUNT && Field::spec_nth(f.spec_index()) == f,
{
}

} // verus!
