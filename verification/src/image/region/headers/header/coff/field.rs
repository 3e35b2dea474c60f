//! The fields of a COFF header.

use vstd::prelude::*;

use crate::memory::cursor::Position;
use crate::memory::{Address, AddressSpace, Size};

verus! {

/// The number of fields.
pub const FIELD_COUNT: usize = 7;

/// A field in a COFF header.
#[derive(Clone, Copy, Debug, PartialEq, Eq, Structural)]
pub enum Field {
    /// The `machine` field.
    Machine,
    /// The `number_of_sections` field.
    NumberOfSections,
    /// The `time_date_stamp` field.
    TimeDateStamp,
    /// The `pointer_to_symbol_table` field.
    PointerToSymbolTable,
    /// The `number_of_symbols` field.
    NumberOfSymbols,
    /// The `size_of_optional_header` field.
    SizeOfOptionalHeader,
    /// The `characteristics` field.
    Characteristics,
}

impl Field {
    /// The offset of the field from the start of the structure, in bytes.
    pub open spec fn spec_offset(self) -> u32 {
        match self {
            Field::Machine => 0,
            Field::NumberOfSections => 2,
            Field::TimeDateStamp => 4,
            Field::PointerToSymbolTable => 8,
            Field::NumberOfSymbols => 12,
            Field::SizeOfOptionalHeader => 16,
            Field::Characteristics => 18,
        }
    }

    /// The width of the field, in bytes.
    pub open spec fn spec_width(self) -> u32 {
        match self {
            Field::Machine => 2,
            Field::NumberOfSections => 2,
            Field::TimeDateStamp => 4,
            Field::PointerToSymbolTable => 4,
            Field::NumberOfSymbols => 4,
            Field::SizeOfOptionalHeader => 2,
            Field::Characteristics => 2,
        }
    }

    /// The place of the field in the layout, counting from zero.
    pub open spec fn spec_index(self) -> nat {
        match self {
            Field::Machine => 0,
            Field::NumberOfSections => 1,
            Field::TimeDateStamp => 2,
            Field::PointerToSymbolTable => 3,
            Field::NumberOfSymbols => 4,
            Field::SizeOfOptionalHeader => 5,
            Field::Characteristics => 6,
        }
    }

    /// The field at the given place in the layout.
    pub open spec fn spec_nth(i: nat) -> Field {
        if i == 0 {
            Field::Machine
        } else 
        if i == 1 {
            Field::NumberOfSections
        } else 
        if i == 2 {
            Field::TimeDateStamp
        } else 
        if i == 3 {
            Field::PointerToSymbolTable
        } else 
        if i == 4 {
            Field::NumberOfSymbols
        } else 
        if i == 5 {
            Field::SizeOfOptionalHeader
        } else {
            Field::Characteristics
        }
    }

    /// The name of the field.
    pub open spec fn spec_name(self) -> Seq<char> {
        match self {
            Field::Machine => "machine"@,
            Field::NumberOfSections => "number_of_sections"@,
            Field::TimeDateStamp => "time_date_stamp"@,
            Field::PointerToSymbolTable => "pointer_to_symbol_table"@,
            Field::NumberOfSymbols => "number_of_symbols"@,
            Field::SizeOfOptionalHeader => "size_of_optional_header"@,
            Field::Characteristics => "characteristics"@,
        }
    }

    /// Gets the position of the field within the structure.
    pub fn position(self) -> (position: Position)
        ensures
            position.0 == self.spec_offset(),
    {
        Position::new(
            match self {
            Field::Machine => 0,
            Field::NumberOfSections => 2,
            Field::TimeDateStamp => 4,
            Field::PointerToSymbolTable => 8,
            Field::NumberOfSymbols => 12,
            Field::SizeOfOptionalHeader => 16,
            Field::Characteristics => 18,
            },
        )
    }

    /// Gets the size of the field.
    pub fn size(&self) -> (size: Size)
        ensures
            size.spec_get() == self.spec_width(),
    {
        let width: u64 = match self {
            Field::Machine => 2,
            Field::NumberOfSections => 2,
            Field::TimeDateStamp => 4,
            Field::PointerToSymbolTable => 4,
            Field::NumberOfSymbols => 4,
            Field::SizeOfOptionalHeader => 2,
            Field::Characteristics => 2,
        };
        Size::new_valid(width)
    }

    /// Gets the address space of the field within the structure.
    pub fn address_space(&self) -> (space: AddressSpace)
        ensures
            space.spec_start() == self.spec_offset(),
            space.spec_size() == self.spec_width(),
    {
        AddressSpace::new_valid(Address::new(self.position().get() as u32), self.size())
    }

    /// Gets the name of the field.
    pub fn name(self) -> (name: &'static str)
        ensures
            name@ == self.spec_name(),
    {
        match self {
            Field::Machine => "machine",
            Field::NumberOfSections => "number_of_sections",
            Field::TimeDateStamp => "time_date_stamp",
            Field::PointerToSymbolTable => "pointer_to_symbol_table",
            Field::NumberOfSymbols => "number_of_symbols",
            Field::SizeOfOptionalHeader => "size_of_optional_header",
            Field::Characteristics => "characteristics",
        }
    }

    /// The field that holds the byte at the given offset, if any.
    pub open spec fn spec_at(offset: u32) -> Option<Field> {
        if offset < 2 {
            Some(Field::Machine)
        } else if offset < 4 {
            Some(Field::NumberOfSections)
        } else if offset < 8 {
            Some(Field::TimeDateStamp)
        } else if offset < 12 {
            Some(Field::PointerToSymbolTable)
        } else if offset < 16 {
            Some(Field::NumberOfSymbols)
        } else if offset < 18 {
            Some(Field::SizeOfOptionalHeader)
        } else if offset < 20 {
            Some(Field::Characteristics)
        } else {
            None
        }
    }

    /// Gets the field that holds the byte at the given offset, if any.
    pub fn at(offset: u32) -> (field: Option<Field>)
        ensures
            field matches Some(f) ==> f.spec_offset() <= offset < f.spec_offset() + f.spec_width(),
            field is None <==> offset >= 20,
            field == Field::spec_at(offset),
    {
        if offset < 2 {
            return Some(Field::Machine);
        }
        if offset < 4 {
            return Some(Field::NumberOfSections);
        }
        if offset < 8 {
            return Some(Field::TimeDateStamp);
        }
        if offset < 12 {
            return Some(Field::PointerToSymbolTable);
        }
        if offset < 16 {
            return Some(Field::NumberOfSymbols);
        }
        if offset < 18 {
            return Some(Field::SizeOfOptionalHeader);
        }
        if offset < 20 {
            return Some(Field::Characteristics);
        }
        None
    }

    /// Gets all fields, in the order they are laid out.
    pub fn all() -> (fields: Vec<Field>)
        ensures
            fields@.len() == FIELD_COUNT,
            forall|i: int| 0 <= i < FIELD_COUNT ==> fields@[i] == Field::spec_nth(i as nat),
    {
        let fields = vec![Field::Machine, Field::NumberOfSections, Field::TimeDateStamp, Field::PointerToSymbolTable, Field::NumberOfSymbols, Field::SizeOfOptionalHeader, Field::Characteristics];
        assert(fields@.len() == FIELD_COUNT);
        fields
    }
}

/// The fields follow each other without gaps or overlaps, from the start to the
/// end of the structure, each at its own place in the layout.
pub proof fn lemma_fields_tile()
    ensures
        Field::spec_nth(0).spec_offset() == 0,
        forall|i: nat| #![trigger Field::spec_nth(i)] i + 1 < FIELD_COUNT ==> Field::spec_nth(i + 1).spec_offset()
            == Field::spec_nth(i).spec_offset() + Field::spec_nth(i).spec_width(),
        Field::spec_nth((FIELD_COUNT - 1) as nat).spec_offset() + Field::spec_nth((FIELD_COUNT - 1) as nat).spec_width() == 20,
        forall|f: Field| #[trigger] f.spec_index() < FIELD_COUNT && Field::spec_nth(f.spec_index()) == f,
{
}

} // verus!
