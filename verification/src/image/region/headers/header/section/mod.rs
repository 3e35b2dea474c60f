//! The Section header of an image file.

pub mod characteristics;
pub mod cursor;
pub mod field;

use vstd::prelude::*;

use crate::array_string::{lemma_parse_raw, ArrayString};
use crate::image::region::headers::Error;
use crate::memory::Address;
use crate::wire::{
    encode_layout, fits_layout, layout_size, lemma_encode_layout_len, lemma_encode_read_layout,
    lemma_read_encoded_layout, lemma_read_layout_fits, lemma_read_layout_skip, lemma_read_layout_skip_at,
    lemma_width_bound, read_fields, read_layout, valid_widths, width_bound, write_fields,
};

pub use self::characteristics::SectionCharacteristics;
pub use self::field::Field;

verus! {

/// The size of a section header, in bytes.
pub const SECTION_HEADER_SIZE: u64 = 40;

/// What a section header holds.
pub struct SectionHeaderView {
    /// All eight bytes of the name, padding included.
    pub name: Seq<u8>,
    /// The total size of the section when loaded into memory, in bytes.
    pub virtual_size: u32,
    /// The address of the section when loaded into memory, relative to the image base.
    pub virtual_address: Address,
    /// The size of the initialized data on disk, in bytes.
    pub size_of_raw_data: u32,
    /// A file pointer to the first page within the file.
    pub pointer_to_raw_data: u32,
    /// A file pointer to the beginning of the relocation entries for the section.
    pub pointer_to_relocations: u32,
    /// A file pointer to the beginning of the line-number entries for the section.
    pub pointer_to_linenumbers: u32,
    /// The number of relocation entries for the section.
    pub number_of_relocations: u16,
    /// The number of line-number entries for the section.
    pub number_of_linenumbers: u16,
    /// The flags of the section.
    pub characteristics: u32,
}

/// The widths of the fields that follow the name, in bytes.
pub open spec fn section_widths() -> Seq<u8> {
    seq![4, 4, 4, 4, 4, 4, 2, 2, 4]
}

/// The section header with the given name and values of the fields that follow it.
pub open spec fn section_from_values(name: Seq<u8>, v: Seq<u32>) -> SectionHeaderView {
    SectionHeaderView {
        name,
        virtual_size: v[0],
        virtual_address: Address(v[1]),
        size_of_raw_data: v[2],
        pointer_to_raw_data: v[3],
        pointer_to_relocations: v[4],
        pointer_to_linenumbers: v[5],
        number_of_relocations: v[6] as u16,
        number_of_linenumbers: v[7] as u16,
        characteristics: v[8],
    }
}

/// The values of the fields that follow the name, in file order.
pub open spec fn section_values(h: SectionHeaderView) -> Seq<u32> {
    seq![
        h.virtual_size,
        h.virtual_address.0,
        h.size_of_raw_data,
        h.pointer_to_raw_data,
        h.pointer_to_relocations,
        h.pointer_to_linenumbers,
        h.number_of_relocations as u32,
        h.number_of_linenumbers as u32,
        h.characteristics,
    ]
}

/// The result of reading a section header from `s` at `pos`: the name, then
/// the other fields one after the other.
pub open spec fn parse_section_header(s: Seq<u8>, pos: int) -> Result<SectionHeaderView, Error> {
    match ArrayString::<8>::spec_parse(s, pos) {
        Err(e) => Err(Error::InvalidSectionName(e)),
        Ok(name) => match read_layout(s, pos + 8, section_widths()) {
            Ok(v) => Ok(section_from_values(name, v)),
            Err(e) => Err(Error::Decode(e)),
        },
    }
}

/// The bytes of a section header as it is laid out in the file.
pub open spec fn encode_section_header(h: SectionHeaderView) -> Seq<u8> {
    h.name + encode_layout(section_values(h), section_widths())
}

/// An image file Section header.
#[derive(Clone, Copy, Debug, PartialEq, Eq)]
pub struct SectionHeader {
    /// The section name.
    ///
    /// This is an 8-byte, null-padded UTF-8 string. There is no terminating
    /// null character if the string is exactly eight characters long.
    name: ArrayString<8>,
    /// The total size of the section when loaded into memory, in bytes.
    ///
    /// If this value is greater than the size of raw data then the section is
    /// filled with zeroes.
    virtual_size: u32,
    /// The address of the section when loaded into memory, relative to the
    /// image base.
    virtual_address: Address,
    /// The size of the initialized data on disk, in bytes.
    ///
    /// This value must be a multiple of the file alignment. If this value is
    /// less than the virtual size then the remainder of the section is filled
    /// with zeroes. If the section contains only uninitialized data then this
    /// value is zero.
    size_of_raw_data: u32,
    /// A file pointer to the first page within the file.
    ///
    /// This value must be a multiple of the file alignment. If a section
    /// contains only uninitialized data then this value is zero.
    pointer_to_raw_data: u32,
    /// A file pointer to the beginning of the relocation entries for the
    /// section.
    ///
    /// If there are no relocations then this value is zero.
    pointer_to_relocations: u32,
    /// A file pointer to the beginning of the line-number entries for the
    /// section.
    ///
    /// If there are no COFF line numbers then this value is zero.
    pointer_to_linenumbers: u32,
    /// The number of relocation entries for the section.
    ///
    /// This value is zero for executable images.
    number_of_relocations: u16,
    /// The number of line-number entries for the section.
    number_of_linenumbers: u16,
    /// The characteristics of the section.
    characteristics: SectionCharacteristics,
}

impl View for SectionHeader {
    type V = SectionHeaderView;

    closed spec fn view(&self) -> SectionHeaderView {
        SectionHeaderView {
            name: self.name@,
            virtual_size: self.virtual_size,
            virtual_address: self.virtual_address,
            size_of_raw_data: self.size_of_raw_data,
            pointer_to_raw_data: self.pointer_to_raw_data,
            pointer_to_relocations: self.pointer_to_relocations,
            pointer_to_linenumbers: self.pointer_to_linenumbers,
            number_of_relocations: self.number_of_relocations,
            number_of_linenumbers: self.number_of_linenumbers,
            characteristics: self.characteristics.spec_bits(),
        }
    }
}

impl SectionHeader {
    /// The name is a valid string: eight bytes, valid UTF-8 before the first null byte.
    pub open spec fn wf(self) -> bool {
        ArrayString::<8>::valid_raw(self@.name)
    }

    fn widths() -> (widths: Vec<u8>)
        ensures
            widths@ == section_widths(),
    {
        let widths = vec![4u8, 4, 4, 4, 4, 4, 2, 2, 4];
        assert(widths@ =~= section_widths());
        widths
    }

    /// Gets the section name.
    pub fn name(&self) -> (name: &ArrayString<8>)
        ensures
            name@ == self@.name,
    {
        &self.name
    }

    /// Gets the address of the section.
    pub fn section_address(&self) -> (address: Address)
        ensures
            address == self@.virtual_address,
    {
        self.virtual_address
    }

    /// Gets the size of the section in memory.
    pub fn section_size(&self) -> (size: u64)
        ensures
            size == self@.virtual_size,
    {
        self.virtual_size as u64
    }

    /// Gets the file offset of the data.
    pub fn file_offset(&self) -> (offset: usize)
        ensures
            offset == self@.pointer_to_raw_data,
    {
        self.pointer_to_raw_data as usize
    }

    /// Gets the size of the data in the file.
    pub fn file_size(&self) -> (size: usize)
        ensures
            size == self@.size_of_raw_data,
    {
        self.size_of_raw_data as usize
    }

    /// Gets the section characteristics.
    pub fn characteristics(&self) -> (characteristics: SectionCharacteristics)
        ensures
            characteristics.spec_bits() == self@.characteristics,
    {
        self.characteristics
    }

    /// Reads a section header from the input at `pos`.
    pub fn parse(data: &[u8], pos: usize) -> (parsed: Result<SectionHeader, Error>)
        requires
            pos <= data.len(),
        ensures
            parsed matches Ok(h) ==> parse_section_header(data@, pos as int) == Ok::<
                SectionHeaderView,
                Error,
            >(h@) && h.wf(),
            parsed matches Err(e) ==> parse_section_header(data@, pos as int) == Err::<
                SectionHeaderView,
                Error,
            >(e),
    {
        let name = match ArrayString::<8>::parse(data, pos) {
            Ok(name) => name,
            Err(e) => {
                return Err(Error::InvalidSectionName(e));
            },
        };
        let values = match read_fields(data, pos + 8, &Self::widths()) {
            Ok(values) => values,
            Err(e) => {
                return Err(Error::Decode(e));
            },
        };
        proof {
            lemma_read_layout_fits(data@, pos + 8, section_widths());
            lemma_width_bound(2);
            assert(section_widths()[6] == 2);
            assert(section_widths()[7] == 2);
        }
        let header = SectionHeader {
            name,
            virtual_size: values[0],
            virtual_address: Address::new(values[1]),
            size_of_raw_data: values[2],
            pointer_to_raw_data: values[3],
            pointer_to_relocations: values[4],
            pointer_to_linenumbers: values[5],
            number_of_relocations: values[6] as u16,
            number_of_linenumbers: values[7] as u16,
            characteristics: SectionCharacteristics::new(values[8]),
        };
        assert(header@ == section_from_values(name@, values@));
        Ok(header)
    }

    /// Appends the bytes of the header as it is laid out in the file.
    pub fn encode(&self, out: &mut Vec<u8>)
        ensures
            final(out)@ == old(out)@ + encode_section_header(self@),
    {
        let ghost start = old(out)@;
        self.name.encode(out);
        let values = vec![
            self.virtual_size,
            self.virtual_address.value(),
            self.size_of_raw_data,
            self.pointer_to_raw_data,
            self.pointer_to_relocations,
            self.pointer_to_linenumbers,
            self.number_of_relocations as u32,
            self.number_of_linenumbers as u32,
            self.characteristics.bits(),
        ];
        assert(values@ =~= section_values(self@));
        write_fields(out, &values, &Self::widths());
        assert(out@ =~= start + encode_section_header(self@));
    }
}

/// The fields after the name take 32 bytes.
proof fn lemma_layout_size()
    ensures
        layout_size(section_widths()) == 32,
        valid_widths(section_widths()),
{
    reveal_with_fuel(layout_size, 10);
}

/// The name of a section header is eight bytes long.
pub proof fn lemma_name_len(h: SectionHeader)
    ensures
        h@.name.len() == 8,
{
    h.name.lemma_view_len();
}

/// The encoding of a section header with an eight-byte name is 40 bytes long.
pub proof fn lemma_encode_len(h: SectionHeaderView)
    requires
        h.name.len() == 8,
    ensures
        encode_section_header(h).len() == SECTION_HEADER_SIZE,
{
    lemma_layout_size();
    lemma_encode_layout_len(section_values(h), section_widths());
}

/// Reading the encoding of a section header gives it back, whatever bytes follow it.
pub proof fn lemma_parse_encode(h: SectionHeaderView, rest: Seq<u8>)
    requires
        ArrayString::<8>::valid_raw(h.name),
    ensures
        parse_section_header(encode_section_header(h) + rest, 0) == Ok::<SectionHeaderView, Error>(h),
{
    let w = section_widths();
    let body = encode_layout(section_values(h), w) + rest;
    lemma_width_bound(2);
    lemma_width_bound(4);
    assert(fits_layout(section_values(h), w)) by {
        assert forall|i: int| 0 <= i < 9 implies section_values(h)[i] < width_bound(
            #[trigger] w[i] as nat,
        ) by {
            if i == 6 || i == 7 {
                assert(w[i] == 2);
            } else {
                assert(w[i] == 4);
            }
        }
    }
    assert(encode_section_header(h) + rest =~= h.name + body);
    lemma_parse_raw::<8>(h.name, body);
    lemma_read_layout_skip(h.name, body, w);
    lemma_read_encoded_layout(section_values(h), w, rest);
}

/// Reading a section header after a prefix is reading it from what follows the prefix.
pub proof fn lemma_parse_skip(prefix: Seq<u8>, s: Seq<u8>, pos: int)
    requires
        0 <= pos,
    ensures
        parse_section_header(prefix + s, prefix.len() + pos) == parse_section_header(s, pos),
{
    lemma_read_layout_skip_at(prefix, s, pos + 8, section_widths());
    if s.len() - pos >= 8 {
        assert((prefix + s).subrange(prefix.len() + pos, prefix.len() + pos + 8) =~= s.subrange(pos, pos + 8));
    }
}

/// Encoding a section header that was read gives back the 40 bytes it was read from.
pub proof fn lemma_encode_parse(s: Seq<u8>, pos: int)
    requires
        0 <= pos <= s.len(),
        parse_section_header(s, pos) is Ok,
    ensures
        pos + SECTION_HEADER_SIZE <= s.len(),
        encode_section_header(parse_section_header(s, pos)->Ok_0) == s.subrange(
            pos,
            pos + SECTION_HEADER_SIZE,
        ),
        ArrayString::<8>::valid_raw(parse_section_header(s, pos)->Ok_0.name),
{
    let w = section_widths();
    lemma_layout_size();
    let v = read_layout(s, pos + 8, w)->Ok_0;
    lemma_read_layout_fits(s, pos + 8, w);
    lemma_encode_read_layout(s, pos + 8, w);
    lemma_width_bound(2);
    assert(w[6] == 2);
    assert(w[7] == 2);
    let h = parse_section_header(s, pos)->Ok_0;
    assert(section_values(h) =~= v);
    assert(s.subrange(pos, pos + 40) =~= s.subrange(pos, pos + 8) + s.subrange(pos + 8, pos + 40));
}

/// Each field after the name of a section header read from `s` at `pos`
/// holds the little-endian value of the bytes at its offset.
pub proof fn lemma_parse_fields(s: Seq<u8>, pos: int)
    requires
        parse_section_header(s, pos) is Ok,
    ensures
        ({
            let h = parse_section_header(s, pos)->Ok_0;
            &&& h.virtual_size == crate::wire::le_value(s, pos + 8, 4)
            &&& h.virtual_address.0 == crate::wire::le_value(s, pos + 12, 4)
            &&& h.size_of_raw_data == crate::wire::le_value(s, pos + 16, 4)
            &&& h.pointer_to_raw_data == crate::wire::le_value(s, pos + 20, 4)
            &&& h.pointer_to_relocations == crate::wire::le_value(s, pos + 24, 4)
            &&& h.pointer_to_linenumbers == crate::wire::le_value(s, pos + 28, 4)
            &&& h.number_of_relocations == crate::wire::le_value(s, pos + 32, 2)
            &&& h.number_of_linenumbers == crate::wire::le_value(s, pos + 34, 2)
            &&& h.characteristics == crate::wire::le_value(s, pos + 36, 4)
        }),
{
    crate::wire::lemma_read_layout_fields(s, pos + 8, section_widths());
    reveal_with_fuel(crate::wire::prefix_size, 10);
    lemma_width_bound(2);
}

} // verus!
