//! The COFF header of an image file.

pub mod cursor;
pub mod field;

use vstd::prelude::*;

use crate::image::region::headers::Error;
use crate::memory::Address;
use crate::wire::{
    encode_layout, fits_layout, layout_size, le_bytes, le_value, lemma_encode_layout_len,
    lemma_encode_read_layout, lemma_le_bytes_len, lemma_le_bytes_of_value, lemma_le_value_bound,
    lemma_le_value_of_bytes, lemma_read_encoded_layout, lemma_read_layout_fits,
    lemma_le_value_shift, lemma_read_layout_skip, lemma_read_layout_skip_at, lemma_width_bound,
    read_field, read_fields, read_layout, valid_widths, width_bound, write_field, write_fields,
    ReadError,
};

pub use self::field::Field;

verus! {

/// The signature of an x86 CPU.
pub const COFF_MACHINE_X86: u16 = 0x14c;

/// The size of the COFF header, in bytes.
pub const COFF_HEADER_SIZE: u64 = 20;

/// The image file COFF header.
#[derive(Clone, Copy, Debug, PartialEq, Eq, Structural)]
pub struct CoffHeader {
    /// The type of target machine.
    machine: u16,
    /// The number of sections.
    ///
    /// This indicates the size of the section table, which immediately follows
    /// the headers.
    number_of_sections: u16,
    /// The timestamp of when the image was created by the linker.
    time_date_stamp: u32,
    /// The file offset of the COFF symbol table.
    ///
    /// This is not relevant to image files.
    pointer_to_symbol_table: u32,
    /// The number of entries in the COFF symbol table.
    ///
    /// This is not relevant to image files.
    number_of_symbols: u32,
    /// The size of the optional header.
    size_of_optional_header: u16,
    /// The flags that indicate the attributes of the file.
    characteristics: u16,
}

impl CoffHeader {
    /// The widths of the fields that follow the machine type, in bytes.
    pub open spec fn spec_widths() -> Seq<u8> {
        seq![2, 4, 4, 4, 2, 2]
    }

    fn widths() -> (widths: Vec<u8>)
        ensures
            widths@ == Self::spec_widths(),
    {
        let widths = vec![2u8, 4, 4, 4, 2, 2];
        assert(widths@ =~= Self::spec_widths());
        widths
    }

    /// The values of the fields that follow the machine type, in file order.
    pub closed spec fn spec_values(self) -> Seq<u32> {
        seq![
            self.number_of_sections as u32,
            self.time_date_stamp,
            self.pointer_to_symbol_table,
            self.number_of_symbols,
            self.size_of_optional_header as u32,
            self.characteristics as u32
        ]
    }

    /// The structure with the given field values and the x86 machine type.
    pub closed spec fn from_values(v: Seq<u32>) -> CoffHeader {
        CoffHeader {
            machine: COFF_MACHINE_X86,
            number_of_sections: v[0] as u16,
            time_date_stamp: v[1],
            pointer_to_symbol_table: v[2],
            number_of_symbols: v[3],
            size_of_optional_header: v[4] as u16,
            characteristics: v[5] as u16
        }
    }

    /// The structure carries its signature.
    pub closed spec fn wf(self) -> bool {
        self.machine == COFF_MACHINE_X86
    }

    /// The result of reading the structure from `s` at `pos`.
    ///
    /// The signature is read first and must match; then the other fields are
    /// read one after the other.
    pub open spec fn spec_parse(s: Seq<u8>, pos: int) -> Result<CoffHeader, Error> {
        if s.len() - pos < 2 {
            Err(Error::Decode(ReadError { requested: 2, available: (s.len() - pos) as usize }))
        } else if le_value(s, pos, 2) != COFF_MACHINE_X86 {
            Err(Error::UnsupportedArchitecture)
        } else {
            match read_layout(s, pos + 2, Self::spec_widths()) {
                Ok(v) => Ok(Self::from_values(v)),
                Err(e) => Err(Error::Decode(e)),
            }
        }
    }

    /// The bytes of the structure as it is laid out in the file.
    pub open spec fn spec_encode(self) -> Seq<u8> {
        le_bytes(self.spec_signature() as nat, 2) + encode_layout(self.spec_values(), Self::spec_widths())
    }

    /// The signature field.
    pub closed spec fn spec_signature(self) -> u16 {
        self.machine
    }

    /// The `number_of_sections` field.
    pub closed spec fn spec_number_of_sections(self) -> u16 {
        self.number_of_sections
    }

    /// The `time_date_stamp` field.
    pub closed spec fn spec_time_date_stamp(self) -> u32 {
        self.time_date_stamp
    }

    /// The `pointer_to_symbol_table` field.
    pub closed spec fn spec_pointer_to_symbol_table(self) -> u32 {
        self.pointer_to_symbol_table
    }

    /// The `number_of_symbols` field.
    pub closed spec fn spec_number_of_symbols(self) -> u32 {
        self.number_of_symbols
    }

    /// The `size_of_optional_header` field.
    pub closed spec fn spec_size_of_optional_header(self) -> u16 {
        self.size_of_optional_header
    }

    /// The `characteristics` field.
    pub closed spec fn spec_characteristics(self) -> u16 {
        self.characteristics
    }

    /// Gets the number of sections.
    pub fn number_of_sections(&self) -> (value: usize)
        ensures
            value == self.spec_number_of_sections() as usize,
    {
        self.number_of_sections as usize
    }

    /// Reads the structure from the input at `pos`.
    pub fn parse(data: &[u8], pos: usize) -> (parsed: Result<CoffHeader, Error>)
        requires
            pos <= data.len(),
        ensures
            parsed == Self::spec_parse(data@, pos as int),
            parsed matches Ok(h) ==> h.wf(),
    {
        let signature = match read_field(data, pos, 2) {
            Ok(signature) => signature,
            Err(e) => {
                return Err(Error::Decode(e));
            },
        };
        proof {
            lemma_le_value_bound(data@, pos as int, 2);
            lemma_width_bound(2);
        }
        if signature != COFF_MACHINE_X86 as u32 {
            return Err(Error::UnsupportedArchitecture);
        }
        let values = match read_fields(data, pos + 2, &Self::widths()) {
            Ok(values) => values,
            Err(e) => {
                return Err(Error::Decode(e));
            },
        };
        proof {
            lemma_read_layout_fits(data@, pos + 2 as int, Self::spec_widths());
            lemma_width_bound(1);
            lemma_width_bound(2);
            lemma_width_bound(4);
            assert forall|i: int| i == 0 || i == 4 || i == 5 implies values@[i] < 0x1_0000 by {
                assert(Self::spec_widths()[i] == 2);
            }
        }
        let parsed = CoffHeader {
            machine: COFF_MACHINE_X86,
            number_of_sections: values[0] as u16,
            time_date_stamp: values[1],
            pointer_to_symbol_table: values[2],
            number_of_symbols: values[3],
            size_of_optional_header: values[4] as u16,
            characteristics: values[5] as u16
        };
        assert(parsed == Self::from_values(values@));
        Ok(parsed)
    }

    /// Appends the bytes of the structure as it is laid out in the file.
    pub fn encode(&self, out: &mut Vec<u8>)
        ensures
            final(out)@ == old(out)@ + self.spec_encode(),
    {
        let ghost start = old(out)@;
        write_field(out, self.machine as u32, 2);
        let values = vec![
            self.number_of_sections as u32,
            self.time_date_stamp,
            self.pointer_to_symbol_table,
            self.number_of_symbols,
            self.size_of_optional_header as u32,
            self.characteristics as u32
        ];
        assert(values@ =~= self.spec_values());
        write_fields(out, &values, &Self::widths());
        assert(out@ =~= start + self.spec_encode());
    }
}

/// The field values of a structure fit their widths, and rebuilding the structure
/// from its values gives it back.
proof fn lemma_values(h: CoffHeader)
    requires
        h.wf(),
    ensures
        fits_layout(h.spec_values(), CoffHeader::spec_widths()),
        CoffHeader::from_values(h.spec_values()) == h,
{
    lemma_width_bound(1);
    lemma_width_bound(2);
    lemma_width_bound(4);
    let v = h.spec_values();
    assert forall|i: int| 0 <= i < v.len() implies v[i] < width_bound(
        #[trigger] CoffHeader::spec_widths()[i] as nat,
    ) by {
        if i == 0 || i == 4 || i == 5 {
            assert(CoffHeader::spec_widths()[i] == 2);
        }
        if i == 1 || i == 2 || i == 3 {
            assert(CoffHeader::spec_widths()[i] == 4);
        }
    }
}

/// The values of a structure rebuilt from values that fit their widths are those values.
proof fn lemma_from_values(v: Seq<u32>)
    requires
        fits_layout(v, CoffHeader::spec_widths()),
    ensures
        CoffHeader::from_values(v).spec_values() == v,
        CoffHeader::from_values(v).wf(),
{
    lemma_width_bound(1);
    lemma_width_bound(2);
    lemma_width_bound(4);
            assert forall|i: int| i == 0 || i == 4 || i == 5 implies v[i] < 0x1_0000 by {
                assert(CoffHeader::spec_widths()[i] == 2);
            }
    assert(CoffHeader::from_values(v).spec_values() =~= v);
}

/// The fields that follow the machine type take 18 bytes.
proof fn lemma_layout_size()
    ensures
        layout_size(CoffHeader::spec_widths()) == 18,
        valid_widths(CoffHeader::spec_widths()),
{
    reveal_with_fuel(layout_size, 7);
}

/// The encoding of the structure is 20 bytes long.
pub proof fn lemma_encode_len(h: CoffHeader)
    ensures
        h.spec_encode().len() == 20,
{
    lemma_layout_size();
    lemma_le_bytes_len(h.spec_signature() as nat, 2);
    lemma_encode_layout_len(h.spec_values(), CoffHeader::spec_widths());
}

/// Reading the encoding of the structure gives it back, whatever bytes follow it.
pub proof fn lemma_parse_encode(h: CoffHeader, rest: Seq<u8>)
    requires
        h.wf(),
    ensures
        CoffHeader::spec_parse(h.spec_encode() + rest, 0) == Ok::<CoffHeader, Error>(h),
{
    let w = CoffHeader::spec_widths();
    let sig = le_bytes(COFF_MACHINE_X86 as nat, 2);
    let body = encode_layout(h.spec_values(), w) + rest;
    lemma_values(h);
    lemma_width_bound(2);
    lemma_le_bytes_len(COFF_MACHINE_X86 as nat, 2);
    assert(h.spec_encode() + rest =~= sig + body);
    lemma_le_value_of_bytes(COFF_MACHINE_X86 as nat, 2, body);
    lemma_read_layout_skip(sig, body, w);
    lemma_read_encoded_layout(h.spec_values(), w, rest);
}

/// Reading the structure after a prefix is reading it from what follows the prefix.
pub proof fn lemma_parse_skip(prefix: Seq<u8>, s: Seq<u8>, pos: int)
    requires
        0 <= pos,
    ensures
        CoffHeader::spec_parse(prefix + s, prefix.len() + pos) == CoffHeader::spec_parse(s, pos),
{
    lemma_read_layout_skip_at(prefix, s, pos + 2, CoffHeader::spec_widths());
    if s.len() - pos >= 2 {
        assert((prefix + s).subrange(prefix.len() + pos, prefix.len() + pos + 2) =~= s.subrange(pos, pos + 2));
        lemma_le_value_shift(prefix + s, s, prefix.len() + pos, pos, 2);
    }
}

/// Encoding a structure that was read gives back the bytes it was read from.
pub proof fn lemma_encode_parse(s: Seq<u8>, pos: int)
    requires
        0 <= pos <= s.len(),
        CoffHeader::spec_parse(s, pos) is Ok,
    ensures
        pos + 20 <= s.len(),
        CoffHeader::spec_parse(s, pos)->Ok_0.spec_encode() == s.subrange(pos, pos + 20),
{
    let w = CoffHeader::spec_widths();
    lemma_layout_size();
    let v = read_layout(s, pos + 2, w)->Ok_0;
    lemma_read_layout_fits(s, pos + 2, w);
    lemma_from_values(v);
    lemma_encode_read_layout(s, pos + 2, w);
    lemma_le_value_bound(s, pos, 2);
    lemma_width_bound(2);
    lemma_le_bytes_of_value(s, pos, 2);
    let h = CoffHeader::from_values(v);
    assert(h.spec_signature() as nat == le_value(s, pos, 2));
    assert(s.subrange(pos, pos + 20) =~= s.subrange(pos, pos + 2) + s.subrange(pos + 2, pos + 20));
}

/// Each field of a COFF header read from `s` at `pos` holds the
/// little-endian value of the bytes at its offset.
pub proof fn lemma_parse_fields(s: Seq<u8>, pos: int)
    requires
        CoffHeader::spec_parse(s, pos) is Ok,
    ensures
        ({
            let h = CoffHeader::spec_parse(s, pos)->Ok_0;
            &&& h.spec_signature() == le_value(s, pos, 2)
            &&& h.spec_number_of_sections() == le_value(s, pos + 2, 2)
            &&& h.spec_time_date_stamp() == le_value(s, pos + 4, 4)
            &&& h.spec_pointer_to_symbol_table() == le_value(s, pos + 8, 4)
            &&& h.spec_number_of_symbols() == le_value(s, pos + 12, 4)
            &&& h.spec_size_of_optional_header() == le_value(s, pos + 16, 2)
            &&& h.spec_characteristics() == le_value(s, pos + 18, 2)
        }),
{
    let widths = CoffHeader::spec_widths();
    crate::wire::lemma_read_layout_fields(s, pos + 2, widths);
    reveal_with_fuel(crate::wire::prefix_size, 7);
    lemma_width_bound(2);
    lemma_width_bound(4);
    lemma_le_value_bound(s, pos, 2);
}

} // verus!
