//! The fields of a DOS header.

use vstd::prelude::*;

use crate::memory::{Address, AddressSpace, Size};

verus! {

/// The number of fields.
pub const FIELD_COUNT: usize = 19;

/// A field in a DOS header.
#[derive(Clone, Copy, Debug, PartialEq, Eq, Structural)]
pub enum Field {
    /// The `e_magic` field.
    Magic,
    /// The `e_cblp` field.
    BytesInLastPage,
    /// The `e_cp` field.
    Pages,
    /// The `e_crlc` field.
    Relocations,
    /// The `e_cparhdr` field.
    HeaderParagraphs,
    /// The `e_minalloc` field.
    MinimumAllocation,
    /// The `e_maxalloc` field.
    MaximumAllocation,
    /// The `e_ss` field.
    StackSegment,
    /// The `e_sp` field.
    StackPointer,
    /// The `e_csum` field.
    Checksum,
    /// The `e_ip` field.
    InstructionPointer,
    /// The `e_cs` field.
    CodeSegment,
    /// The `e_lfarlc` field.
    RelocationTableOffset,
    /// The `e_ovno` field.
    OverlayNumber,
    /// The `e_res` field.
    Reserved,
    /// The `e_oemid` field.
    OemId,
    /// The `e_oeminfo` field.
    OemInfo,
    /// The `e_res2` field.
    Reserved2,
    /// The `e_lfanew` field.
    PeHeadersOffset,
}

impl Field {
    /// The offset of the field from the start of the structure, in bytes.
    pub open spec fn spec_offset(self) -> u32 {
        match self {
            Field::Magic => 0,
            Field::BytesInLastPage => 2,
            Field::Pages => 4,
            Field::Relocations => 6,
            Field::HeaderParagraphs => 8,
            Field::MinimumAllocation => 10,
            Field::MaximumAllocation => 12,
            Field::StackSegment => 14,
            Field::StackPointer => 16,
            Field::Checksum => 18,
            Field::InstructionPointer => 20,
            Field::CodeSegment => 22,
            Field::RelocationTableOffset => 24,
            Field::OverlayNumber => 26,
            Field::Reserved => 28,
            Field::OemId => 36,
            Field::OemInfo => 38,
            Field::Reserved2 => 40,
            Field::PeHeadersOffset => 60,
        }
    }

    /// The width of the field, in bytes.
    pub open spec fn spec_width(self) -> u32 {
        match self {
            Field::Magic => 2,
            Field::BytesInLastPage => 2,
            Field::Pages => 2,
            Field::Relocations => 2,
            Field::HeaderParagraphs => 2,
            Field::MinimumAllocation => 2,
            Field::MaximumAllocation => 2,
            Field::StackSegment => 2,
            Field::StackPointer => 2,
            Field::Checksum => 2,
            Field::InstructionPointer => 2,
            Field::CodeSegment => 2,
            Field::RelocationTableOffset => 2,
            Field::OverlayNumber => 2,
            Field::Reserved => 8,
            Field::OemId => 2,
            Field::OemInfo => 2,
            Field::Reserved2 => 20,
            Field::PeHeadersOffset => 4,
        }
    }

    /// The place of the field in the layout, counting from zero.
    pub open spec fn spec_index(self) -> nat {
        match self {
            Field::Magic => 0,
            Field::BytesInLastPage => 1,
            Field::Pages => 2,
            Field::Relocations => 3,
            Field::HeaderParagraphs => 4,
            Field::MinimumAllocation => 5,
            Field::MaximumAllocation => 6,
            Field::StackSegment => 7,
            Field::StackPointer => 8,
            Field::Checksum => 9,
            Field::InstructionPointer => 10,
            Field::CodeSegment => 11,
            Field::RelocationTableOffset => 12,
            Field::OverlayNumber => 13,
            Field::Reserved => 14,
            Field::OemId => 15,
            Field::OemInfo => 16,
            Field::Reserved2 => 17,
            Field::PeHeadersOffset => 18,
        }
    }

    /// The field at the given place in the layout.
    pub open spec fn spec_nth(i: nat) -> Field {
        if i == 0 {
            Field::Magic
        } else 
        if i == 1 {
            Field::BytesInLastPage
        } else 
        if i == 2 {
            Field::Pages
        } else 
        if i == 3 {
            Field::Relocations
        } else 
        if i == 4 {
            Field::HeaderParagraphs
        } else 
        if i == 5 {
            Field::MinimumAllocation
        } else 
        if i == 6 {
            Field::MaximumAllocation
        } else 
        if i == 7 {
            Field::StackSegment
        } else 
        if i == 8 {
            Field::StackPointer
        } else 
        if i == 9 {
            Field::Checksum
        } else 
        if i == 10 {
            Field::InstructionPointer
        } else 
        if i == 11 {
            Field::CodeSegment
        } else 
        if i == 12 {
            Field::RelocationTableOffset
        } else 
        if i == 13 {
            Field::OverlayNumber
        } else 
        if i == 14 {
            Field::Reserved
        } else 
        if i == 15 {
            Field::OemId
        } else 
        if i == 16 {
            Field::OemInfo
        } else 
        if i == 17 {
            Field::Reserved2
        } else {
            Field::PeHeadersOffset
        }
    }

    /// The name of the field.
    pub open spec fn spec_name(self) -> Seq<char> {
        match self {
            Field::Magic => "e_magic"@,
            Field::BytesInLastPage => "e_cblp"@,
            Field::Pages => "e_cp"@,
            Field::Relocations => "e_crlc"@,
            Field::HeaderParagraphs => "e_cparhdr"@,
            Field::MinimumAllocation => "e_minalloc"@,
            Field::MaximumAllocation => "e_maxalloc"@,
            Field::StackSegment => "e_ss"@,
            Field::StackPointer => "e_sp"@,
            Field::Checksum => "e_csum"@,
            Field::InstructionPointer => "e_ip"@,
            Field::CodeSegment => "e_cs"@,
            Field::RelocationTableOffset => "e_lfarlc"@,
            Field::OverlayNumber => "e_ovno"@,
            Field::Reserved => "e_res"@,
            Field::OemId => "e_oemid"@,
            Field::OemInfo => "e_oeminfo"@,
            Field::Reserved2 => "e_res2"@,
            Field::PeHeadersOffset => "e_lfanew"@,
        }
    }

    /// Gets the address of the field within the structure.
    pub fn address(self) -> (address: Address)
        ensures
            address.spec_value() == self.spec_offset(),
    {
        Address::new(
            match self {
            Field::Magic => 0,
            Field::BytesInLastPage => 2,
            Field::Pages => 4,
            Field::Relocations => 6,
            Field::HeaderParagraphs => 8,
            Field::MinimumAllocation => 10,
            Field::MaximumAllocation => 12,
            Field::StackSegment => 14,
            Field::StackPointer => 16,
            Field::Checksum => 18,
            Field::InstructionPointer => 20,
            Field::CodeSegment => 22,
            Field::RelocationTableOffset => 24,
            Field::OverlayNumber => 26,
            Field::Reserved => 28,
            Field::OemId => 36,
            Field::OemInfo => 38,
            Field::Reserved2 => 40,
            Field::PeHeadersOffset => 60,
            },
        )
    }

    /// Gets the size of the field.
    pub fn size(&self) -> (size: Size)
        ensures
            size.spec_get() == self.spec_width(),
    {
        let width: u64 = match self {
            Field::Magic => 2,
            Field::BytesInLastPage => 2,
            Field::Pages => 2,
            Field::Relocations => 2,
            Field::HeaderParagraphs => 2,
            Field::MinimumAllocation => 2,
            Field::MaximumAllocation => 2,
            Field::StackSegment => 2,
            Field::StackPointer => 2,
            Field::Checksum => 2,
            Field::InstructionPointer => 2,
            Field::CodeSegment => 2,
            Field::RelocationTableOffset => 2,
            Field::OverlayNumber => 2,
            Field::Reserved => 8,
            Field::OemId => 2,
            Field::OemInfo => 2,
            Field::Reserved2 => 20,
            Field::PeHeadersOffset => 4,
        };
        Size::new_valid(width)
    }

    /// Gets the address space of the field within the structure.
    pub fn address_space(&self) -> (space: AddressSpace)
        ensures
            space.spec_start() == self.spec_offset(),
            space.spec_size() == self.spec_width(),
    {
        AddressSpace::new_valid(self.address(), self.size())
    }

    /// Gets the name of the field.
    pub fn name(self) -> (name: &'static str)
        ensures
            name@ == self.spec_name(),
    {
        match self {
            Field::Magic => "e_magic",
            Field::BytesInLastPage => "e_cblp",
            Field::Pages => "e_cp",
            Field::Relocations => "e_crlc",
            Field::HeaderParagraphs => "e_cparhdr",
            Field::MinimumAllocation => "e_minalloc",
            Field::MaximumAllocation => "e_maxalloc",
            Field::StackSegment => "e_ss",
            Field::StackPointer => "e_sp",
            Field::Checksum => "e_csum",
            Field::InstructionPointer => "e_ip",
            Field::CodeSegment => "e_cs",
            Field::RelocationTableOffset => "e_lfarlc",
            Field::OverlayNumber => "e_ovno",
            Field::Reserved => "e_res",
            Field::OemId => "e_oemid",
            Field::OemInfo => "e_oeminfo",
            Field::Reserved2 => "e_res2",
            Field::PeHeadersOffset => "e_lfanew",
        }
    }

    /// The field that holds the byte at the given offset, if any.
    pub open spec fn spec_at(offset: u32) -> Option<Field> {
        if offset < 2 {
            Some(Field::Magic)
        } else if offset < 4 {
            Some(Field::BytesInLastPage)
        } else if offset < 6 {
            Some(Field::Pages)
        } else if offset < 8 {
            Some(Field::Relocations)
        } else if offset < 10 {
            Some(Field::HeaderParagraphs)
        } else if offset < 12 {
            Some(Field::MinimumAllocation)
        } else if offset < 14 {
            Some(Field::MaximumAllocation)
        } else if offset < 16 {
            Some(Field::StackSegment)
        } else if offset < 18 {
            Some(Field::StackPointer)
        } else if offset < 20 {
            Some(Field::Checksum)
        } else if offset < 22 {
            Some(Field::InstructionPointer)
        } else if offset < 24 {
            Some(Field::CodeSegment)
        } else if offset < 26 {
            Some(Field::RelocationTableOffset)
        } else if offset < 28 {
            Some(Field::OverlayNumber)
        } else if offset < 36 {
            Some(Field::Reserved)
        } else if offset < 38 {
            Some(Field::OemId)
        } else if offset < 40 {
            Some(Field::OemInfo)
        } else if offset < 60 {
            Some(Field::Reserved2)
        } else if offset < 64 {
            Some(Field::PeHeadersOffset)
        } else {
            None
        }
    }

    /// Gets the field that holds the byte at the given offset, if any.
    pub fn at(offset: u32) -> (field: Option<Field>)
        ensures
            field matches Some(f) ==> f.spec_offset() <= offset < f.spec_offset() + f.spec_width(),
            field is None <==> offset >= 64,
            field == Field::spec_at(offset),
    {
        if offset < 2 {
            return Some(Field::Magic);
        }
        if offset < 4 {
            return Some(Field::BytesInLastPage);
        }
        if offset < 6 {
            return Some(Field::Pages);
        }
        if offset < 8 {
            return Some(Field::Relocations);
        }
        if offset < 10 {
            return Some(Field::HeaderParagraphs);
        }
        if offset < 12 {
            return Some(Field::MinimumAllocation);
        }
        if offset < 14 {
            return Some(Field::MaximumAllocation);
        }
        if offset < 16 {
            return Some(Field::StackSegment);
        }
        if offset < 18 {
            return Some(Field::StackPointer);
        }
        if offset < 20 {
            return Some(Field::Checksum);
        }
        if offset < 22 {
            return Some(Field::InstructionPointer);
        }
        if offset < 24 {
            return Some(Field::CodeSegment);
        }
        if offset < 26 {
            return Some(Field::RelocationTableOffset);
        }
        if offset < 28 {
            return Some(Field::OverlayNumber);
        }
        if offset < 36 {
            return Some(Field::Reserved);
        }
        if offset < 38 {
            return Some(Field::OemId);
        }
        if offset < 40 {
            return Some(Field::OemInfo);
        }
        if offset < 60 {
            return Some(Field::Reserved2);
        }
        if offset < 64 {
            return Some(Field::PeHeadersOffset);
        }
        None
    }

    /// Gets all fields, in the order they are laid out.
    pub fn all() -> (fields: Vec<Field>)
        ensures
            fields@.len() == FIELD_COUNT,
            forall|i: int| 0 <= i < FIELD_COUNT ==> fields@[i] == Field::spec_nth(i as nat),
    {
        let fields = vec![Field::Magic, Field::BytesInLastPage, Field::Pages, Field::Relocations, Field::HeaderParagraphs, Field::MinimumAllocation, Field::MaximumAllocation, Field::StackSegment, Field::StackPointer, Field::Checksum, Field::InstructionPointer, Field::CodeSegment, Field::RelocationTableOffset, Field::OverlayNumber, Field::Reserved, Field::OemId, Field::OemInfo, Field::Reserved2, Field::PeHeadersOffset];
        assert(fields@.len() == FIELD_COUNT);
        fields
    }
}

/// The fields follow each other without gaps or overlaps, from the start to the
/// end of the structure, each at its own place in the layout.
pub proof fn lemma_fields_tile()
    ensures
        Field::spec_nth(0).spec_offset() == 0,
        forall|i: nat| #![trigger Field::spec_nth(i)] i + 1 < FIELD_COUNT ==> Field::spec_nth(i + 1).spec_offset()
            == Field::spec_nth(i).spec_offset() + Field::spec_nth(i).spec_width(),
        Field::spec_nth((FIELD_COUNT - 1) as nat).spec_offset() + Field::spec_nth((FIELD_COUNT - 1) as nat).spec_width() == 64,
        forall|f: Field| #[trigger] f.spec_index() < FIELD_COUNT && Field::spec_nth(f.spec_index()) == f,
{
}

} // verus!
