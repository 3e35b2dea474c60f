//! The standard fields of the Optional header.

pub mod cursor;
pub mod field;

use vstd::prelude::*;

use crate::image::region::headers::Error;
use crate::memory::Address;
use crate::wire::{
    encode_layout, fits_layout, layout_size, le_bytes, le_value, lemma_encode_layout_len,
    lemma_encode_read_layout, lemma_le_bytes_len, lemma_le_bytes_of_value, lemma_le_value_bound,
    lemma_le_value_of_bytes, lemma_read_encoded_layout, lemma_read_layout_fits,
    lemma_le_value_shift, lemma_read_layout_skip, lemma_read_layout_skip_at, lemma_width_bound,
    read_field, read_fields, read_layout, valid_widths, width_bound, write_field, write_fields,
    ReadError,
};

pub use self::field::Field;

verus! {

/// The signature of a 32-bit PE image file.
pub const PE32_SIGNATURE: u16 = 0x10b;

/// The size of the standard fields, in bytes.
pub const STANDARD_FIELDS_SIZE: u64 = 28;

/// The standard fields of the Optional header.
///
/// The first eight fields of the optional header are standard fields that are
/// defined for every implementation of COFF. These fields contain general
/// information that is useful for loading and running an executable file.
#[derive(Clone, Copy, Debug, PartialEq, Eq, Structural)]
pub struct StandardFields {
    /// The image file type.
    ///
    /// This indicates whether the image is 32-bit (PE32) or 64-bit (PE32+).
    magic: u16,
    /// The major version number of the linker.
    major_linker_version: u8,
    /// The minor version number of the linker.
    minor_linker_version: u8,
    /// The sum of the size of the code sections.
    size_of_code: u32,
    /// The sum of the size of the initialized data sections.
    size_of_initialized_data: u32,
    /// The sum of the size of the uninitialized data sections.
    size_of_uninitialized_data: u32,
    /// The address of the entry function, relative to the base address.
    address_of_entry_point: Address,
    /// The address of the code section, relative to the image base.
    base_of_code: u32,
    /// The address of the data section, relative to the image base.
    base_of_data: u32,
}

impl StandardFields {
    /// The widths of the fields that follow the image file type, in bytes.
    pub open spec fn spec_widths() -> Seq<u8> {
        seq![1, 1, 4, 4, 4, 4, 4, 4]
    }

    fn widths() -> (widths: Vec<u8>)
        ensures
            widths@ == Self::spec_widths(),
    {
        let widths = vec![1u8, 1, 4, 4, 4, 4, 4, 4];
        assert(widths@ =~= Self::spec_widths());
        widths
    }

    /// The values of the fields that follow the image file type, in file order.
    pub closed spec fn spec_values(self) -> Seq<u32> {
        seq![
            self.major_linker_version as u32,
            self.minor_linker_version as u32,
            self.size_of_code,
            self.size_of_initialized_data,
            self.size_of_uninitialized_data,
            self.address_of_entry_point.0,
            self.base_of_code,
            self.base_of_data
        ]
    }

    /// The structure with the given field values and the PE32 image file type.
    pub closed spec fn from_values(v: Seq<u32>) -> StandardFields {
        StandardFields {
            magic: PE32_SIGNATURE,
            major_linker_version: v[0] as u8,
            minor_linker_version: v[1] as u8,
            size_of_code: v[2],
            size_of_initialized_data: v[3],
            size_of_uninitialized_data: v[4],
            address_of_entry_point: Address(v[5]),
            base_of_code: v[6],
            base_of_data: v[7]
        }
    }

    /// The structure carries its signature.
    pub closed spec fn wf(self) -> bool {
        self.magic == PE32_SIGNATURE
    }

    /// The result of reading the structure from `s` at `pos`.
    ///
    /// The signature is read first and must match; then the other fields are
    /// read one after the other.
    pub open spec fn spec_parse(s: Seq<u8>, pos: int) -> Result<StandardFields, Error> {
        if s.len() - pos < 2 {
            Err(Error::Decode(ReadError { requested: 2, available: (s.len() - pos) as usize }))
        } else if le_value(s, pos, 2) != PE32_SIGNATURE {
            Err(Error::UnsupportedArchitecture)
        } else {
            match read_layout(s, pos + 2, Self::spec_widths()) {
                Ok(v) => Ok(Self::from_values(v)),
                Err(e) => Err(Error::Decode(e)),
            }
        }
    }

    /// The bytes of the structure as it is laid out in the file.
    pub open spec fn spec_encode(self) -> Seq<u8> {
        le_bytes(self.spec_signature() as nat, 2) + encode_layout(self.spec_values(), Self::spec_widths())
    }

    /// The signature field.
    pub closed spec fn spec_signature(self) -> u16 {
        self.magic
    }

    /// The `major_linker_version` field.
    pub closed spec fn spec_major_linker_version(self) -> u8 {
        self.major_linker_version
    }

    /// The `minor_linker_version` field.
    pub closed spec fn spec_minor_linker_version(self) -> u8 {
        self.minor_linker_version
    }

    /// The `size_of_code` field.
    pub closed spec fn spec_size_of_code(self) -> u32 {
        self.size_of_code
    }

    /// The `size_of_initialized_data` field.
    pub closed spec fn spec_size_of_initialized_data(self) -> u32 {
        self.size_of_initialized_data
    }

    /// The `size_of_uninitialized_data` field.
    pub closed spec fn spec_size_of_uninitialized_data(self) -> u32 {
        self.size_of_uninitialized_data
    }

    /// The `address_of_entry_point` field.
    pub closed spec fn spec_address_of_entry_point(self) -> Address {
        self.address_of_entry_point
    }

    /// The `base_of_code` field.
    pub closed spec fn spec_base_of_code(self) -> u32 {
        self.base_of_code
    }

    /// The `base_of_data` field.
    pub closed spec fn spec_base_of_data(self) -> u32 {
        self.base_of_data
    }

    /// Gets the address of the entry function, relative to the base address.
    pub fn address_of_entry_point(&self) -> (value: Address)
        ensures
            value == self.spec_address_of_entry_point(),
    {
        self.address_of_entry_point
    }

    /// Reads the structure from the input at `pos`.
    pub fn parse(data: &[u8], pos: usize) -> (parsed: Result<StandardFields, Error>)
        requires
            pos <= data.len(),
        ensures
            parsed == Self::spec_parse(data@, pos as int),
            parsed matches Ok(h) ==> h.wf(),
    {
        let signature = match read_field(data, pos, 2) {
            Ok(signature) => signature,
            Err(e) => {
                return Err(Error::Decode(e));
            },
        };
        proof {
            lemma_le_value_bound(data@, pos as int, 2);
            lemma_width_bound(2);
        }
        if signature != PE32_SIGNATURE as u32 {
            return Err(Error::UnsupportedArchitecture);
        }
        let values = match read_fields(data, pos + 2, &Self::widths()) {
            Ok(values) => values,
            Err(e) => {
                return Err(Error::Decode(e));
            },
        };
        proof {
            lemma_read_layout_fits(data@, pos + 2 as int, Self::spec_widths());
            lemma_width_bound(1);
            lemma_width_bound(2);
            lemma_width_bound(4);
            assert forall|i: int| i == 0 || i == 1 implies values@[i] < 0x100 by {
                assert(Self::spec_widths()[i] == 1);
            }
        }
        let parsed = StandardFields {
            magic: PE32_SIGNATURE,
            major_linker_version: values[0] as u8,
            minor_linker_version: values[1] as u8,
            size_of_code: values[2],
            size_of_initialized_data: values[3],
            size_of_uninitialized_data: values[4],
            address_of_entry_point: Address(values[5]),
            base_of_code: values[6],
            base_of_data: values[7]
        };
        assert(parsed == Self::from_values(values@));
        Ok(parsed)
    }

    /// Appends the bytes of the structure as it is laid out in the file.
    pub fn encode(&self, out: &mut Vec<u8>)
        ensures
            final(out)@ == old(out)@ + self.spec_encode(),
    {
        let ghost start = old(out)@;
        write_field(out, self.magic as u32, 2);
        let values = vec![
            self.major_linker_version as u32,
            self.minor_linker_version as u32,
            self.size_of_code,
            self.size_of_initialized_data,
            self.size_of_uninitialized_data,
            self.address_of_entry_point.0,
            self.base_of_code,
            self.base_of_data
        ];
        assert(values@ =~= self.spec_values());
        write_fields(out, &values, &Self::widths());
        assert(out@ =~= start + self.spec_encode());
    }
}

/// The field values of a structure fit their widths, and rebuilding the structure
/// from its values gives it back.
proof fn lemma_values(h: StandardFields)
    requires
        h.wf(),
    ensures
        fits_layout(h.spec_values(), StandardFields::spec_widths()),
        StandardFields::from_values(h.spec_values()) == h,
{
    lemma_width_bound(1);
    lemma_width_bound(2);
    lemma_width_bound(4);
    let v = h.spec_values();
    assert forall|i: int| 0 <= i < v.len() implies v[i] < width_bound(
        #[trigger] StandardFields::spec_widths()[i] as nat,
    ) by {
        if i == 0 || i == 1 {
            assert(StandardFields::spec_widths()[i] == 1);
        }
        if i == 2 || i == 3 || i == 4 || i == 5 || i == 6 || i == 7 {
            assert(StandardFields::spec_widths()[i] == 4);
        }
    }
}

/// The values of a structure rebuilt from values that fit their widths are those values.
proof fn lemma_from_values(v: Seq<u32>)
    requires
        fits_layout(v, StandardFields::spec_widths()),
    ensures
        StandardFields::from_values(v).spec_values() == v,
        StandardFields::from_values(v).wf(),
{
    lemma_width_bound(1);
    lemma_width_bound(2);
    lemma_width_bound(4);
            assert forall|i: int| i == 0 || i == 1 implies v[i] < 0x100 by {
                assert(StandardFields::spec_widths()[i] == 1);
            }
    assert(StandardFields::from_values(v).spec_values() =~= v);
}

/// The fields that follow the image file type take 26 bytes.
proof fn lemma_layout_size()
    ensures
        layout_size(StandardFields::spec_widths()) == 26,
        valid_widths(StandardFields::spec_widths()),
{
    reveal_with_fuel(layout_size, 9);
}

/// The encoding of the structure is 28 bytes long.
pub proof fn lemma_encode_len(h: StandardFields)
    ensures
        h.spec_encode().len() == 28,
{
    lemma_layout_size();
    lemma_le_bytes_len(h.spec_signature() as nat, 2);
    lemma_encode_layout_len(h.spec_values(), StandardFields::spec_widths());
}

/// Reading the encoding of the structure gives it back, whatever bytes follow it.
pub proof fn lemma_parse_encode(h: StandardFields, rest: Seq<u8>)
    requires
        h.wf(),
    ensures
        StandardFields::spec_parse(h.spec_encode() + rest, 0) == Ok::<StandardFields, Error>(h),
{
    let w = StandardFields::spec_widths();
    let sig = le_bytes(PE32_SIGNATURE as nat, 2);
    let body = encode_layout(h.spec_values(), w) + rest;
    lemma_values(h);
    lemma_width_bound(2);
    lemma_le_bytes_len(PE32_SIGNATURE as nat, 2);
    assert(h.spec_encode() + rest =~= sig + body);
    lemma_le_value_of_bytes(PE32_SIGNATURE as nat, 2, body);
    lemma_read_layout_skip(sig, body, w);
    lemma_read_encoded_layout(h.spec_values(), w, rest);
}

/// Reading the structure after a prefix is reading it from what follows the prefix.
pub proof fn lemma_parse_skip(prefix: Seq<u8>, s: Seq<u8>, pos: int)
    requires
        0 <= pos,
    ensures
        StandardFields::spec_parse(prefix + s, prefix.len() + pos) == StandardFields::spec_parse(s, pos),
{
    lemma_read_layout_skip_at(prefix, s, pos + 2, StandardFields::spec_widths());
    if s.len() - pos >= 2 {
        assert((prefix + s).subrange(prefix.len() + pos, prefix.len() + pos + 2) =~= s.subrange(pos, pos + 2));
        lemma_le_value_shift(prefix + s, s, prefix.len() + pos, pos, 2);
    }
}

/// Encoding a structure that was read gives back the bytes it was read from.
pub proof fn lemma_encode_parse(s: Seq<u8>, pos: int)
    requires
        0 <= pos <= s.len(),
        StandardFields::spec_parse(s, pos) is Ok,
    ensures
        pos + 28 <= s.len(),
        StandardFields::spec_parse(s, pos)->Ok_0.spec_encode() == s.subrange(pos, pos + 28),
{
    let w = StandardFields::spec_widths();
    lemma_layout_size();
    let v = read_layout(s, pos + 2, w)->Ok_0;
    lemma_read_layout_fits(s, pos + 2, w);
    lemma_from_values(v);
    lemma_encode_read_layout(s, pos + 2, w);
    lemma_le_value_bound(s, pos, 2);
    lemma_width_bound(2);
    lemma_le_bytes_of_value(s, pos, 2);
    let h = StandardFields::from_values(v);
    assert(h.spec_signature() as nat == le_value(s, pos, 2));
    assert(s.subrange(pos, pos + 28) =~= s.subrange(pos, pos + 2) + s.subrange(pos + 2, pos + 28));
}

/// Each field of the standard fields of an Optional header read from `s` at `pos` holds the
/// little-endian value of the bytes at its offset.
pub proof fn lemma_parse_fields(s: Seq<u8>, pos: int)
    requires
        StandardFields::spec_parse(s, pos) is Ok,
    ensures
        ({
            let h = StandardFields::spec_parse(s, pos)->Ok_0;
            &&& h.spec_signature() == le_value(s, pos, 2)
            &&& h.spec_major_linker_version() == le_value(s, pos + 2, 1)
            &&& h.spec_minor_linker_version() == le_value(s, pos + 3, 1)
            &&& h.spec_size_of_code() == le_value(s, pos + 4, 4)
            &&& h.spec_size_of_initialized_data() == le_value(s, pos + 8, 4)
            &&& h.spec_size_of_uninitialized_data() == le_value(s, pos + 12, 4)
            &&& h.spec_address_of_entry_point().spec_value() == le_value(s, pos + 16, 4)
            &&& h.spec_base_of_code() == le_value(s, pos + 20, 4)
            &&& h.spec_base_of_data() == le_value(s, pos + 24, 4)
        }),
{
    let widths = StandardFields::spec_widths();
    crate::wire::lemma_read_layout_fields(s, pos + 2, widths);
    reveal_with_fuel(crate::wire::prefix_size, 9);
    lemma_width_bound(1);
    lemma_width_bound(2);
    lemma_width_bound(4);
    lemma_le_value_bound(s, pos, 2);
}

} // verus!
