//! The Windows-specific fields of the Optional header.

pub mod cursor;
pub mod field;

use vstd::prelude::*;

use crate::image::region::headers::Error;
use crate::memory::Address;
use crate::wire::{
    encode_layout, fits_layout, layout_size, le_bytes, le_value, lemma_encode_layout_len,
    lemma_encode_read_layout, lemma_le_bytes_len, lemma_le_bytes_of_value, lemma_le_value_bound,
    lemma_le_value_of_bytes, lemma_read_encoded_layout, lemma_read_layout_fits,
    lemma_le_value_shift, lemma_read_layout_skip, lemma_read_layout_skip_at, lemma_width_bound,
    read_field, read_fields, read_layout, valid_widths, width_bound, write_field, write_fields,
    ReadError,
};

pub use self::field::Field;

verus! {

/// The size of the Windows-specific fields, in bytes.
pub const WINDOWS_FIELDS_SIZE: u64 = 68;

/// The Windows-specific fields of the Optional header.
///
/// The next 21 fields are an extension to the COFF optional header format. They
/// contain additional information that is required by the linker and loader in
/// Windows.
#[derive(Clone, Copy, Debug, PartialEq, Eq, Structural)]
pub struct WindowsFields {
    /// The preferred address of the image in memory.
    image_base: Address,
    /// The alignment of sections in memory.
    section_alignment: u32,
    /// The alignment of sections in the image file.
    file_alignment: u32,
    /// The major version number of the required operating system.
    major_operating_system_version: u16,
    /// The minor version number of the required operating system.
    minor_operating_system_version: u16,
    /// The major version number of the image.
    major_image_version: u16,
    /// The minor version number of the image.
    minor_image_version: u16,
    /// The major version number of the subsystem.
    major_subsystem_version: u16,
    /// The minor version number of the subsystem.
    minor_subsystem_version: u16,
    /// This member is reserved and must be 0.
    win32_version_value: u32,
    /// The size of the image, including all headers.
    size_of_image: u32,
    /// The combined size of the following items, rounded to a multiple of the
    /// file alignment.
    ///
    /// * PE Headers offset
    /// * PE Signature
    /// * Size of COFF header
    /// * Size of Optional header
    /// * Size of all section headers
    size_of_headers: u32,
    /// The image file checksum.
    check_sum: u32,
    /// The subsystem required to run the image.
    subsystem: u16,
    /// The DLL characteristics of the image.
    dll_characteristics: u16,
    /// The number of bytes to reserve for the stack.
    size_of_stack_reserve: u32,
    /// The number of bytes to commit for the stack.
    size_of_stack_commit: u32,
    /// The number of bytes to reserve for the local heap.
    size_of_heap_reserve: u32,
    /// The number of bytes to commit for the local heap.
    size_of_heap_commit: u32,
    /// This member is obsolete.
    loader_flags: u32,
    /// The number of data-directory entries in the remainder of the optional
    /// header.
    number_of_rva_and_sizes: u32,
}

impl WindowsFields {
    /// The widths of the fields, in bytes.
    pub open spec fn spec_widths() -> Seq<u8> {
        seq![4, 4, 4, 2, 2, 2, 2, 2, 2, 4, 4, 4, 4, 2, 2, 4, 4, 4, 4, 4, 4]
    }

    fn widths() -> (widths: Vec<u8>)
        ensures
            widths@ == Self::spec_widths(),
    {
        let widths = vec![4u8, 4, 4, 2, 2, 2, 2, 2, 2, 4, 4, 4, 4, 2, 2, 4, 4, 4, 4, 4, 4];
        assert(widths@ =~= Self::spec_widths());
        widths
    }

    /// The values of the fields, in file order.
    pub closed spec fn spec_values(self) -> Seq<u32> {
        seq![
            self.image_base.0,
            self.section_alignment,
            self.file_alignment,
            self.major_operating_system_version as u32,
            self.minor_operating_system_version as u32,
            self.major_image_version as u32,
            self.minor_image_version as u32,
            self.major_subsystem_version as u32,
            self.minor_subsystem_version as u32,
            self.win32_version_value,
            self.size_of_image,
            self.size_of_headers,
            self.check_sum,
            self.subsystem as u32,
            self.dll_characteristics as u32,
            self.size_of_stack_reserve,
            self.size_of_stack_commit,
            self.size_of_heap_reserve,
            self.size_of_heap_commit,
            self.loader_flags,
            self.number_of_rva_and_sizes
        ]
    }

    /// The structure with the given field values.
    pub closed spec fn from_values(v: Seq<u32>) -> WindowsFields {
        WindowsFields {
            image_base: Address(v[0]),
            section_alignment: v[1],
            file_alignment: v[2],
            major_operating_system_version: v[3] as u16,
            minor_operating_system_version: v[4] as u16,
            major_image_version: v[5] as u16,
            minor_image_version: v[6] as u16,
            major_subsystem_version: v[7] as u16,
            minor_subsystem_version: v[8] as u16,
            win32_version_value: v[9],
            size_of_image: v[10],
            size_of_headers: v[11],
            check_sum: v[12],
            subsystem: v[13] as u16,
            dll_characteristics: v[14] as u16,
            size_of_stack_reserve: v[15],
            size_of_stack_commit: v[16],
            size_of_heap_reserve: v[17],
            size_of_heap_commit: v[18],
            loader_flags: v[19],
            number_of_rva_and_sizes: v[20]
        }
    }

    /// The result of reading the structure from `s` at `pos`: its fields, one after the other.
    pub open spec fn spec_parse(s: Seq<u8>, pos: int) -> Result<WindowsFields, Error> {
        match read_layout(s, pos, Self::spec_widths()) {
            Ok(v) => Ok(Self::from_values(v)),
            Err(e) => Err(Error::Decode(e)),
        }
    }

    /// The bytes of the structure as it is laid out in the file.
    pub open spec fn spec_encode(self) -> Seq<u8> {
        encode_layout(self.spec_values(), Self::spec_widths())
    }

    /// The `image_base` field.
    pub closed spec fn spec_image_base(self) -> Address {
        self.image_base
    }

    /// The `section_alignment` field.
    pub closed spec fn spec_section_alignment(self) -> u32 {
        self.section_alignment
    }

    /// The `file_alignment` field.
    pub closed spec fn spec_file_alignment(self) -> u32 {
        self.file_alignment
    }

    /// The `major_operating_system_version` field.
    pub closed spec fn spec_major_operating_system_version(self) -> u16 {
        self.major_operating_system_version
    }

    /// The `minor_operating_system_version` field.
    pub closed spec fn spec_minor_operating_system_version(self) -> u16 {
        self.minor_operating_system_version
    }

    /// The `major_image_version` field.
    pub closed spec fn spec_major_image_version(self) -> u16 {
        self.major_image_version
    }

    /// The `minor_image_version` field.
    pub closed spec fn spec_minor_image_version(self) -> u16 {
        self.minor_image_version
    }

    /// The `major_subsystem_version` field.
    pub closed spec fn spec_major_subsystem_version(self) -> u16 {
        self.major_subsystem_version
    }

    /// The `minor_subsystem_version` field.
    pub closed spec fn spec_minor_subsystem_version(self) -> u16 {
        self.minor_subsystem_version
    }

    /// The `win32_version_value` field.
    pub closed spec fn spec_win32_version_value(self) -> u32 {
        self.win32_version_value
    }

    /// The `size_of_image` field.
    pub closed spec fn spec_size_of_image(self) -> u32 {
        self.size_of_image
    }

    /// The `size_of_headers` field.
    pub closed spec fn spec_size_of_headers(self) -> u32 {
        self.size_of_headers
    }

    /// The `check_sum` field.
    pub closed spec fn spec_check_sum(self) -> u32 {
        self.check_sum
    }

    /// The `subsystem` field.
    pub closed spec fn spec_subsystem(self) -> u16 {
        self.subsystem
    }

    /// The `dll_characteristics` field.
    pub closed spec fn spec_dll_characteristics(self) -> u16 {
        self.dll_characteristics
    }

    /// The `size_of_stack_reserve` field.
    pub closed spec fn spec_size_of_stack_reserve(self) -> u32 {
        self.size_of_stack_reserve
    }

    /// The `size_of_stack_commit` field.
    pub closed spec fn spec_size_of_stack_commit(self) -> u32 {
        self.size_of_stack_commit
    }

    /// The `size_of_heap_reserve` field.
    pub closed spec fn spec_size_of_heap_reserve(self) -> u32 {
        self.size_of_heap_reserve
    }

    /// The `size_of_heap_commit` field.
    pub closed spec fn spec_size_of_heap_commit(self) -> u32 {
        self.size_of_heap_commit
    }

    /// The `loader_flags` field.
    pub closed spec fn spec_loader_flags(self) -> u32 {
        self.loader_flags
    }

    /// The `number_of_rva_and_sizes` field.
    pub closed spec fn spec_number_of_rva_and_sizes(self) -> u32 {
        self.number_of_rva_and_sizes
    }

    /// Gets the preferred address of the image in memory.
    pub fn image_base(&self) -> (value: Address)
        ensures
            value == self.spec_image_base(),
    {
        self.image_base
    }

    /// Gets the size of the image in memory.
    pub fn size_of_image(&self) -> (value: u32)
        ensures
            value == self.spec_size_of_image(),
    {
        self.size_of_image
    }

    /// Gets the combined size of the headers in the image file.
    pub fn size_of_headers(&self) -> (value: u32)
        ensures
            value == self.spec_size_of_headers(),
    {
        self.size_of_headers
    }

    /// Gets the alignment of sections in memory.
    pub fn section_alignment(&self) -> (value: u32)
        ensures
            value == self.spec_section_alignment(),
    {
        self.section_alignment
    }

    /// Gets the number of data-directory entries in the remainder of the
    /// optional header.
    pub fn number_of_rva_and_sizes(&self) -> (value: u32)
        ensures
            value == self.spec_number_of_rva_and_sizes(),
    {
        self.number_of_rva_and_sizes
    }

    /// Reads the structure from the input at `pos`.
    pub fn parse(data: &[u8], pos: usize) -> (parsed: Result<WindowsFields, Error>)
        requires
            pos <= data.len(),
        ensures
            parsed == Self::spec_parse(data@, pos as int),
    {
        let values = match read_fields(data, pos, &Self::widths()) {
            Ok(values) => values,
            Err(e) => {
                return Err(Error::Decode(e));
            },
        };
        proof {
            lemma_read_layout_fits(data@, pos as int, Self::spec_widths());
            lemma_width_bound(1);
            lemma_width_bound(2);
            lemma_width_bound(4);
            assert forall|i: int| i == 3 || i == 4 || i == 5 || i == 6 || i == 7 || i == 8 || i == 13 || i == 14 implies values@[i] < 0x1_0000 by {
                assert(Self::spec_widths()[i] == 2);
            }
        }
        let parsed = WindowsFields {
            image_base: Address(values[0]),
            section_alignment: values[1],
            file_alignment: values[2],
            major_operating_system_version: values[3] as u16,
            minor_operating_system_version: values[4] as u16,
            major_image_version: values[5] as u16,
            minor_image_version: values[6] as u16,
            major_subsystem_version: values[7] as u16,
            minor_subsystem_version: values[8] as u16,
            win32_version_value: values[9],
            size_of_image: values[10],
            size_of_headers: values[11],
            check_sum: values[12],
            subsystem: values[13] as u16,
            dll_characteristics: values[14] as u16,
            size_of_stack_reserve: values[15],
            size_of_stack_commit: values[16],
            size_of_heap_reserve: values[17],
            size_of_heap_commit: values[18],
            loader_flags: values[19],
            number_of_rva_and_sizes: values[20]
        };
        assert(parsed == Self::from_values(values@));
        Ok(parsed)
    }

    /// Appends the bytes of the structure as it is laid out in the file.
    pub fn encode(&self, out: &mut Vec<u8>)
        ensures
            final(out)@ == old(out)@ + self.spec_encode(),
    {
        let ghost start = old(out)@;
        let values = vec![
            self.image_base.0,
            self.section_alignment,
            self.file_alignment,
            self.major_operating_system_version as u32,
            self.minor_operating_system_version as u32,
            self.major_image_version as u32,
            self.minor_image_version as u32,
            self.major_subsystem_version as u32,
            self.minor_subsystem_version as u32,
            self.win32_version_value,
            self.size_of_image,
            self.size_of_headers,
            self.check_sum,
            self.subsystem as u32,
            self.dll_characteristics as u32,
            self.size_of_stack_reserve,
            self.size_of_stack_commit,
            self.size_of_heap_reserve,
            self.size_of_heap_commit,
            self.loader_flags,
            self.number_of_rva_and_sizes
        ];
        assert(values@ =~= self.spec_values());
        write_fields(out, &values, &Self::widths());
        assert(out@ =~= start + self.spec_encode());
    }
}

/// The field values of a structure fit their widths, and rebuilding the structure
/// from its values gives it back.
proof fn lemma_values(h: WindowsFields)
    requires
    ensures
        fits_layout(h.spec_values(), WindowsFields::spec_widths()),
        WindowsFields::from_values(h.spec_values()) == h,
{
    lemma_width_bound(1);
    lemma_width_bound(2);
    lemma_width_bound(4);
    let v = h.spec_values();
    assert forall|i: int| 0 <= i < v.len() implies v[i] < width_bound(
        #[trigger] WindowsFields::spec_widths()[i] as nat,
    ) by {
        if i == 3 || i == 4 || i == 5 || i == 6 || i == 7 || i == 8 || i == 13 || i == 14 {
            assert(WindowsFields::spec_widths()[i] == 2);
        }
        if i == 0 || i == 1 || i == 2 || i == 9 || i == 10 || i == 11 || i == 12 || i == 15 || i == 16 || i == 17 || i == 18 || i == 19 || i == 20 {
            assert(WindowsFields::spec_widths()[i] == 4);
        }
    }
}

/// The values of a structure rebuilt from values that fit their widths are those values.
proof fn lemma_from_values(v: Seq<u32>)
    requires
        fits_layout(v, WindowsFields::spec_widths()),
    ensures
        WindowsFields::from_values(v).spec_values() == v,
        
{
    lemma_width_bound(1);
    lemma_width_bound(2);
    lemma_width_bound(4);
            assert forall|i: int| i == 3 || i == 4 || i == 5 || i == 6 || i == 7 || i == 8 || i == 13 || i == 14 implies v[i] < 0x1_0000 by {
                assert(WindowsFields::spec_widths()[i] == 2);
            }
    assert(WindowsFields::from_values(v).spec_values() =~= v);
}

/// The fields take 68 bytes.
proof fn lemma_layout_size()
    ensures
        layout_size(WindowsFields::spec_widths()) == 68,
        valid_widths(WindowsFields::spec_widths()),
{
    reveal_with_fuel(layout_size, 22);
}

/// The encoding of the structure is 68 bytes long.
pub proof fn lemma_encode_len(h: WindowsFields)
    ensures
        h.spec_encode().len() == 68,
{
    lemma_layout_size();
    lemma_encode_layout_len(h.spec_values(), WindowsFields::spec_widths());
}

/// Reading the encoding of the structure gives it back, whatever bytes follow it.
pub proof fn lemma_parse_encode(h: WindowsFields, rest: Seq<u8>)
    requires
    ensures
        WindowsFields::spec_parse(h.spec_encode() + rest, 0) == Ok::<WindowsFields, Error>(h),
{
    lemma_values(h);
    lemma_read_encoded_layout(h.spec_values(), WindowsFields::spec_widths(), rest);
}

/// Reading the structure after a prefix is reading it from what follows the prefix.
pub proof fn lemma_parse_skip(prefix: Seq<u8>, s: Seq<u8>, pos: int)
    requires
        0 <= pos,
    ensures
        WindowsFields::spec_parse(prefix + s, prefix.len() + pos) == WindowsFields::spec_parse(s, pos),
{
    lemma_read_layout_skip_at(prefix, s, pos, WindowsFields::spec_widths());
}

/// Encoding a structure that was read gives back the bytes it was read from.
pub proof fn lemma_encode_parse(s: Seq<u8>, pos: int)
    requires
        0 <= pos <= s.len(),
        WindowsFields::spec_parse(s, pos) is Ok,
    ensures
        pos + 68 <= s.len(),
        WindowsFields::spec_parse(s, pos)->Ok_0.spec_encode() == s.subrange(pos, pos + 68),
{
    let w = WindowsFields::spec_widths();
    lemma_layout_size();
    let v = read_layout(s, pos, w)->Ok_0;
    lemma_read_layout_fits(s, pos, w);
    lemma_from_values(v);
    lemma_encode_read_layout(s, pos, w);
}

/// Each field of the Windows fields of an Optional header read from `s` at `pos` holds the
/// little-endian value of the bytes at its offset.
pub proof fn lemma_parse_fields(s: Seq<u8>, pos: int)
    requires
        WindowsFields::spec_parse(s, pos) is Ok,
    ensures
        ({
            let h = WindowsFields::spec_parse(s, pos)->Ok_0;
            &&& h.spec_image_base().spec_value() == le_value(s, pos + 0, 4)
            &&& h.spec_section_alignment() == le_value(s, pos + 4, 4)
            &&& h.spec_file_alignment() == le_value(s, pos + 8, 4)
            &&& h.spec_major_operating_system_version() == le_value(s, pos + 12, 2)
            &&& h.spec_minor_operating_system_version() == le_value(s, pos + 14, 2)
            &&& h.spec_major_image_version() == le_value(s, pos + 16, 2)
            &&& h.spec_minor_image_version() == le_value(s, pos + 18, 2)
            &&& h.spec_major_subsystem_version() == le_value(s, pos + 20, 2)
            &&& h.spec_minor_subsystem_version() == le_value(s, pos + 22, 2)
            &&& h.spec_win32_version_value() == le_value(s, pos + 24, 4)
            &&& h.spec_size_of_image() == le_value(s, pos + 28, 4)
            &&& h.spec_size_of_headers() == le_value(s, pos + 32, 4)
            &&& h.spec_check_sum() == le_value(s, pos + 36, 4)
            &&& h.spec_subsystem() == le_value(s, pos + 40, 2)
            &&& h.spec_dll_characteristics() == le_value(s, pos + 42, 2)
            &&& h.spec_size_of_stack_reserve() == le_value(s, pos + 44, 4)
            &&& h.spec_size_of_stack_commit() == le_value(s, pos + 48, 4)
            &&& h.spec_size_of_heap_reserve() == le_value(s, pos + 52, 4)
            &&& h.spec_size_of_heap_commit() == le_value(s, pos + 56, 4)
            &&& h.spec_loader_flags() == le_value(s, pos + 60, 4)
            &&& h.spec_number_of_rva_and_sizes() == le_value(s, pos + 64, 4)
        }),
{
    let widths = WindowsFields::spec_widths();
    crate::wire::lemma_read_layout_fields(s, pos + 0, widths);
    reveal_with_fuel(crate::wire::prefix_size, 22);
    lemma_width_bound(2);
    lemma_width_bound(4);
}

} // verus!
