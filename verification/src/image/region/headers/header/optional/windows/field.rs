//! The fields of the Windows-specific fields of an Optional header.

use vstd::prelude::*;

use crate::memory::{Address, AddressSpace, Size};

verus! {

/// The number of fields.
pub const FIELD_COUNT: usize = 21;

/// A field in the Windows-specific fields of an Optional header.
#[derive(Clone, Copy, Debug, PartialEq, Eq, Structural)]
pub enum Field {
    /// The `image_base` field.
    ImageBase,
    /// The `section_alignment` field.
    SectionAlignment,
    /// The `file_alignment` field.
    FileAlignment,
    /// The `major_operating_system_version` field.
    MajorOperatingSystemVersion,
    /// The `minor_operating_system_version` field.
    MinorOperatingSystemVersion,
    /// The `major_image_version` field.
    MajorImageVersion,
    /// The `minor_image_version` field.
    MinorImageVersion,
    /// The `major_subsystem_version` field.
    MajorSubsystemVersion,
    /// The `minor_subsystem_version` field.
    MinorSubsystemVersion,
    /// The `win32_version_value` field.
    Win32VersionValue,
    /// The `size_of_image` field.
    SizeOfImage,
    /// The `size_of_headers` field.
    SizeOfHeaders,
    /// The `check_sum` field.
    CheckSum,
    /// The `subsystem` field.
    Subsystem,
    /// The `dll_characteristics` field.
    DllCharacteristics,
    /// The `size_of_stack_reserve` field.
    SizeOfStackReserve,
    /// The `size_of_stack_commit` field.
    SizeOfStackCommit,
    /// The `size_of_heap_reserve` field.
    SizeOfHeapReserve,
    /// The `size_of_heap_commit` field.
    SizeOfHeapCommit,
    /// The `loader_flags` field.
    LoaderFlags,
    /// The `number_of_rva_and_sizes` field.
    NumberOfRvaAndSizes,
}

impl Field {
    /// The offset of the field from the start of the structure, in bytes.
    pub open spec fn spec_offset(self) -> u32 {
        match self {
            Field::ImageBase => 0,
            Field::SectionAlignment => 4,
            Field::FileAlignment => 8,
            Field::MajorOperatingSystemVersion => 12,
            Field::MinorOperatingSystemVersion => 14,
            Field::MajorImageVersion => 16,
            Field::MinorImageVersion => 18,
            Field::MajorSubsystemVersion => 20,
            Field::MinorSubsystemVersion => 22,
            Field::Win32VersionValue => 24,
            Field::SizeOfImage => 28,
            Field::SizeOfHeaders => 32,
            Field::CheckSum => 36,
            Field::Subsystem => 40,
            Field::DllCharacteristics => 42,
            Field::SizeOfStackReserve => 44,
            Field::SizeOfStackCommit => 48,
            Field::SizeOfHeapReserve => 52,
            Field::SizeOfHeapCommit => 56,
            Field::LoaderFlags => 60,
            Field::NumberOfRvaAndSizes => 64,
        }
    }

    /// The width of the field, in bytes.
    pub open spec fn spec_width(self) -> u32 {
        match self {
            Field::ImageBase => 4,
            Field::SectionAlignment => 4,
            Field::FileAlignment => 4,
            Field::MajorOperatingSystemVersion => 2,
            Field::MinorOperatingSystemVersion => 2,
            Field::MajorImageVersion => 2,
            Field::MinorImageVersion => 2,
            Field::MajorSubsystemVersion => 2,
            Field::MinorSubsystemVersion => 2,
            Field::Win32VersionValue => 4,
            Field::SizeOfImage => 4,
            Field::SizeOfHeaders => 4,
            Field::CheckSum => 4,
            Field::Subsystem => 2,
            Field::DllCharacteristics => 2,
            Field::SizeOfStackReserve => 4,
            Field::SizeOfStackCommit => 4,
            Field::SizeOfHeapReserve => 4,
            Field::SizeOfHeapCommit => 4,
            Field::LoaderFlags => 4,
            Field::NumberOfRvaAndSizes => 4,
        }
    }

    /// The place of the field in the layout, counting from zero.
    pub open spec fn spec_index(self) -> nat {
        match self {
            Field::ImageBase => 0,
            Field::SectionAlignment => 1,
            Field::FileAlignment => 2,
            Field::MajorOperatingSystemVersion => 3,
            Field::MinorOperatingSystemVersion => 4,
            Field::MajorImageVersion => 5,
            Field::MinorImageVersion => 6,
            Field::MajorSubsystemVersion => 7,
            Field::MinorSubsystemVersion => 8,
            Field::Win32VersionValue => 9,
            Field::SizeOfImage => 10,
            Field::SizeOfHeaders => 11,
            Field::CheckSum => 12,
            Field::Subsystem => 13,
            Field::DllCharacteristics => 14,
            Field::SizeOfStackReserve => 15,
            Field::SizeOfStackCommit => 16,
            Field::SizeOfHeapReserve => 17,
            Field::SizeOfHeapCommit => 18,
            Field::LoaderFlags => 19,
            Field::NumberOfRvaAndSizes => 20,
        }
    }

    /// The field at the given place in the layout.
    pub open spec fn spec_nth(i: nat) -> Field {
        if i == 0 {
            Field::ImageBase
        } else 
        if i == 1 {
            Field::SectionAlignment
        } else 
        if i == 2 {
            Field::FileAlignment
        } else 
        if i == 3 {
            Field::MajorOperatingSystemVersion
        } else 
        if i == 4 {
            Field::MinorOperatingSystemVersion
        } else 
        if i == 5 {
            Field::MajorImageVersion
        } else 
        if i == 6 {
            Field::MinorImageVersion
        } else 
        if i == 7 {
            Field::MajorSubsystemVersion
        } else 
        if i == 8 {
            Field::MinorSubsystemVersion
        } else 
        if i == 9 {
            Field::Win32VersionValue
        } else 
        if i == 10 {
            Field::SizeOfImage
        } else 
        if i == 11 {
            Field::SizeOfHeaders
        } else 
        if i == 12 {
            Field::CheckSum
        } else 
        if i == 13 {
            Field::Subsystem
        } else 
        if i == 14 {
            Field::DllCharacteristics
        } else 
        if i == 15 {
            Field::SizeOfStackReserve
        } else 
        if i == 16 {
            Field::SizeOfStackCommit
        } else 
        if i == 17 {
            Field::SizeOfHeapReserve
        } else 
        if i == 18 {
            Field::SizeOfHeapCommit
        } else 
        if i == 19 {
            Field::LoaderFlags
        } else {
            Field::NumberOfRvaAndSizes
        }
    }

    /// The name of the field.
    pub open spec fn spec_name(self) -> Seq<char> {
        match self {
            Field::ImageBase => "image_base"@,
            Field::SectionAlignment => "section_alignment"@,
            Field::FileAlignment => "file_alignment"@,
            Field::MajorOperatingSystemVersion => "major_operating_system_version"@,
            Field::MinorOperatingSystemVersion => "minor_operating_system_version"@,
            Field::MajorImageVersion => "major_image_version"@,
            Field::MinorImageVersion => "minor_image_version"@,
            Field::MajorSubsystemVersion => "major_subsystem_version"@,
            Field::MinorSubsystemVersion => "minor_subsystem_version"@,
            Field::Win32VersionValue => "win32_version_value"@,
            Field::SizeOfImage => "size_of_image"@,
            Field::SizeOfHeaders => "size_of_headers"@,
            Field::CheckSum => "check_sum"@,
            Field::Subsystem => "subsystem"@,
            Field::DllCharacteristics => "dll_characteristics"@,
            Field::SizeOfStackReserve => "size_of_stack_reserve"@,
            Field::SizeOfStackCommit => "size_of_stack_commit"@,
            Field::SizeOfHeapReserve => "size_of_heap_reserve"@,
            Field::SizeOfHeapCommit => "size_of_heap_commit"@,
            Field::LoaderFlags => "loader_flags"@,
            Field::NumberOfRvaAndSizes => "number_of_rva_and_sizes"@,
        }
    }

    /// Gets the address of the field within the structure.
    pub fn address(self) -> (address: Address)
        ensures
            address.spec_value() == self.spec_offset(),
    {
        Address::new(
            match self {
            Field::ImageBase => 0,
            Field::SectionAlignment => 4,
            Field::FileAlignment => 8,
            Field::MajorOperatingSystemVersion => 12,
            Field::MinorOperatingSystemVersion => 14,
            Field::MajorImageVersion => 16,
            Field::MinorImageVersion => 18,
            Field::MajorSubsystemVersion => 20,
            Field::MinorSubsystemVersion => 22,
            Field::Win32VersionValue => 24,
            Field::SizeOfImage => 28,
            Field::SizeOfHeaders => 32,
            Field::CheckSum => 36,
            Field::Subsystem => 40,
            Field::DllCharacteristics => 42,
            Field::SizeOfStackReserve => 44,
            Field::SizeOfStackCommit => 48,
            Field::SizeOfHeapReserve => 52,
            Field::SizeOfHeapCommit => 56,
            Field::LoaderFlags => 60,
            Field::NumberOfRvaAndSizes => 64,
            },
        )
    }

    /// Gets the size of the field.
    pub fn size(&self) -> (size: Size)
        ensures
            size.spec_get() == self.spec_width(),
    {
        let width: u64 = match self {
            Field::ImageBase => 4,
            Field::SectionAlignment => 4,
            Field::FileAlignment => 4,
            Field::MajorOperatingSystemVersion => 2,
            Field::MinorOperatingSystemVersion => 2,
            Field::MajorImageVersion => 2,
            Field::MinorImageVersion => 2,
            Field::MajorSubsystemVersion => 2,
            Field::MinorSubsystemVersion => 2,
            Field::Win32VersionValue => 4,
            Field::SizeOfImage => 4,
            Field::SizeOfHeaders => 4,
            Field::CheckSum => 4,
            Field::Subsystem => 2,
            Field::DllCharacteristics => 2,
            Field::SizeOfStackReserve => 4,
            Field::SizeOfStackCommit => 4,
            Field::SizeOfHeapReserve => 4,
            Field::SizeOfHeapCommit => 4,
            Field::LoaderFlags => 4,
            Field::NumberOfRvaAndSizes => 4,
        };
        Size::new_valid(width)
    }

    /// Gets the address space of the field within the structure.
    pub fn address_space(&self) -> (space: AddressSpace)
        ensures
            space.spec_start() == self.spec_offset(),
            space.spec_size() == self.spec_width(),
    {
        AddressSpace::new_valid(self.address(), self.size())
    }

    /// Gets the name of the field.
    pub fn name(self) -> (name: &'static str)
        ensures
            name@ == self.spec_name(),
    {
        match self {
            Field::ImageBase => "image_base",
            Field::SectionAlignment => "section_alignment",
            Field::FileAlignment => "file_alignment",
            Field::MajorOperatingSystemVersion => "major_operating_system_version",
            Field::MinorOperatingSystemVersion => "minor_operating_system_version",
            Field::MajorImageVersion => "major_image_version",
            Field::MinorImageVersion => "minor_image_version",
            Field::MajorSubsystemVersion => "major_subsystem_version",
            Field::MinorSubsystemVersion => "minor_subsystem_version",
            Field::Win32VersionValue => "win32_version_value",
            Field::SizeOfImage => "size_of_image",
            Field::SizeOfHeaders => "size_of_headers",
            Field::CheckSum => "check_sum",
            Field::Subsystem => "subsystem",
            Field::DllCharacteristics => "dll_characteristics",
            Field::SizeOfStackReserve => "size_of_stack_reserve",
            Field::SizeOfStackCommit => "size_of_stack_commit",
            Field::SizeOfHeapReserve => "size_of_heap_reserve",
            Field::SizeOfHeapCommit => "size_of_heap_commit",
            Field::LoaderFlags => "loader_flags",
            Field::NumberOfRvaAndSizes => "number_of_rva_and_sizes",
        }
    }

    /// The field that holds the byte at the given offset, if any.
    pub open spec fn spec_at(offset: u32) -> Option<Field> {
        if offset < 4 {
            Some(Field::ImageBase)
        } else if offset < 8 {
            Some(Field::SectionAlignment)
        } else if offset < 12 {
            Some(Field::FileAlignment)
        } else if offset < 14 {
            Some(Field::MajorOperatingSystemVersion)
        } else if offset < 16 {
            Some(Field::MinorOperatingSystemVersion)
        } else if offset < 18 {
            Some(Field::MajorImageVersion)
        } else if offset < 20 {
            Some(Field::MinorImageVersion)
        } else if offset < 22 {
            Some(Field::MajorSubsystemVersion)
        } else if offset < 24 {
            Some(Field::MinorSubsystemVersion)
        } else if offset < 28 {
            Some(Field::Win32VersionValue)
        } else if offset < 32 {
            Some(Field::SizeOfImage)
        } else if offset < 36 {
            Some(Field::SizeOfHeaders)
        } else if offset < 40 {
            Some(Field::CheckSum)
        } else if offset < 42 {
            Some(Field::Subsystem)
        } else if offset < 44 {
            Some(Field::DllCharacteristics)
        } else if offset < 48 {
            Some(Field::SizeOfStackReserve)
        } else if offset < 52 {
            Some(Field::SizeOfStackCommit)
        } else if offset < 56 {
            Some(Field::SizeOfHeapReserve)
        } else if offset < 60 {
            Some(Field::SizeOfHeapCommit)
        } else if offset < 64 {
            Some(Field::LoaderFlags)
        } else if offset < 68 {
            Some(Field::NumberOfRvaAndSizes)
        } else {
            None
        }
    }

    /// Gets the field that holds the byte at the given offset, if any.
    pub fn at(offset: u32) -> (field: Option<Field>)
        ensures
            field matches Some(f) ==> f.spec_offset() <= offset < f.spec_offset() + f.spec_width(),
            field is None <==> offset >= 68,
            field == Field::spec_at(offset),
    {
        if offset < 4 {
            return Some(Field::ImageBase);
        }
        if offset < 8 {
            return Some(Field::SectionAlignment);
        }
        if offset < 12 {
            return Some(Field::FileAlignment);
        }
        if offset < 14 {
            return Some(Field::MajorOperatingSystemVersion);
        }
        if offset < 16 {
            return Some(Field::MinorOperatingSystemVersion);
        }
        if offset < 18 {
            return Some(Field::MajorImageVersion);
        }
        if offset < 20 {
            return Some(Field::MinorImageVersion);
        }
        if offset < 22 {
            return Some(Field::MajorSubsystemVersion);
        }
        if offset < 24 {
            return Some(Field::MinorSubsystemVersion);
        }
        if offset < 28 {
            return Some(Field::Win32VersionValue);
        }
        if offset < 32 {
            return Some(Field::SizeOfImage);
        }
        if offset < 36 {
            return Some(Field::SizeOfHeaders);
        }
        if offset < 40 {
            return Some(Field::CheckSum);
        }
        if offset < 42 {
            return Some(Field::Subsystem);
        }
        if offset < 44 {
            return Some(Field::DllCharacteristics);
        }
        if offset < 48 {
            return Some(Field::SizeOfStackReserve);
        }
        if offset < 52 {
            return Some(Field::SizeOfStackCommit);
        }
        if offset < 56 {
            return Some(Field::SizeOfHeapReserve);
        }
        if offset < 60 {
            return Some(Field::SizeOfHeapCommit);
        }
        if offset < 64 {
            return Some(Field::LoaderFlags);
        }
        if offset < 68 {
            return Some(Field::NumberOfRvaAndSizes);
        }
        None
    }

    /// Gets all fields, in the order they are laid out.
    pub fn all() -> (fields: Vec<Field>)
        ensures
            fields@.len() == FIELD_COUNT,
            forall|i: int| 0 <= i < FIELD_COUNT ==> fields@[i] == Field::spec_nth(i as nat),
    {
        let fields = vec![Field::ImageBase, Field::SectionAlignment, Field::FileAlignment, Field::MajorOperatingSystemVersion, Field::MinorOperatingSystemVersion, Field::MajorImageVersion, Field::MinorImageVersion, Field::MajorSubsystemVersion, Field::MinorSubsystemVersion, Field::Win32VersionValue, Field::SizeOfImage, Field::SizeOfHeaders, Field::CheckSum, Field::Subsystem, Field::DllCharacteristics, Field::SizeOfStackReserve, Field::SizeOfStackCommit, Field::SizeOfHeapReserve, Field::SizeOfHeapCommit, Field::LoaderFlags, Field::NumberOfRvaAndSizes];
        assert(fields@.len() == FIELD_COUNT);
        fields
    }
}

/// The fields follow each other without gaps or overlaps, from the start to the
/// end of the structure, each at its own place in the layout.
pub proof fn lemma_fields_tile()
    ensures
        Field::spec_nth(0).spec_offset() == 0,
        forall|i: nat| #![trigger Field::spec_nth(i)] i + 1 < FIELD_COUNT ==> Field::spec_nth(i + 1).spec_offset()
            == Field::spec_nth(i).spec_offset() + Field::spec_nth(i).spec_width(),
        Field::spec_nth((FIELD_COUNT - 1) as nat).spec_offset() + Field::spec_nth((FIELD_COUNT - 1) as nat).spec_width() == 68,
        forall|f: Field| #[trigger] f.spec_index() < FIELD_COUNT && Field::spec_nth(f.spec_index()) == f,
{
}

} // verus!
