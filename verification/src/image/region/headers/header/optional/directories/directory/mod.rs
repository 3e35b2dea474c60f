//! A data directory entry within the Optional header.

pub mod cursor;
pub mod field;

use vstd::prelude::*;

use crate::image::region::headers::Error;
use crate::memory::{Address, Size};
use crate::wire::{
    encode_layout, fits_layout, layout_size, le_bytes, le_value, lemma_encode_layout_len,
    lemma_encode_read_layout, lemma_le_bytes_len, lemma_le_bytes_of_value, lemma_le_value_bound,
    lemma_le_value_of_bytes, lemma_read_encoded_layout, lemma_read_layout_fits,
    lemma_le_value_shift, lemma_read_layout_skip, lemma_read_layout_skip_at, lemma_width_bound,
    read_field, read_fields, read_layout, valid_widths, width_bound, write_field, write_fields,
    ReadError,
};

pub use self::field::Field;

verus! {

/// The size of a data directory entry, in bytes.
pub const DATA_DIRECTORY_SIZE: u64 = 8;

/// A data directory entry within the Optional header.
#[derive(Clone, Copy, Debug, PartialEq, Eq, Structural)]
pub struct DataDirectory {
    /// The relative virtual address of the table.
    virtual_address: Address,
    /// The size of the table, in bytes.
    size: u32,
}

impl DataDirectory {
    /// The widths of the fields, in bytes.
    pub open spec fn spec_widths() -> Seq<u8> {
        seq![4, 4]
    }

    fn widths() -> (widths: Vec<u8>)
        ensures
            widths@ == Self::spec_widths(),
    {
        let widths = vec![4u8, 4];
        assert(widths@ =~= Self::spec_widths());
        widths
    }

    /// The values of the fields, in file order.
    pub closed spec fn spec_values(self) -> Seq<u32> {
        seq![
            self.virtual_address.0,
            self.size
        ]
    }

    /// The structure with the given field values.
    pub closed spec fn from_values(v: Seq<u32>) -> DataDirectory {
        DataDirectory {
            virtual_address: Address(v[0]),
            size: v[1]
        }
    }

    /// The result of reading the structure from `s` at `pos`: its fields, one after the other.
    pub open spec fn spec_parse(s: Seq<u8>, pos: int) -> Result<DataDirectory, Error> {
        match read_layout(s, pos, Self::spec_widths()) {
            Ok(v) => Ok(Self::from_values(v)),
            Err(e) => Err(Error::Decode(e)),
        }
    }

    /// The bytes of the structure as it is laid out in the file.
    pub open spec fn spec_encode(self) -> Seq<u8> {
        encode_layout(self.spec_values(), Self::spec_widths())
    }

    /// The `virtual_address` field.
    pub closed spec fn spec_virtual_address(self) -> Address {
        self.virtual_address
    }

    /// The `size` field.
    pub closed spec fn spec_size(self) -> u32 {
        self.size
    }

    /// Gets the relative virtual address of the target.
    pub fn target_address(&self) -> (value: Address)
        ensures
            value == self.spec_virtual_address(),
    {
        self.virtual_address
    }

    /// Gets the size of the target, in bytes.
    pub fn target_size(&self) -> (value: u32)
        ensures
            value == self.spec_size(),
    {
        self.size
    }

    /// Reads the structure from the input at `pos`.
    pub fn parse(data: &[u8], pos: usize) -> (parsed: Result<DataDirectory, Error>)
        requires
            pos <= data.len(),
        ensures
            parsed == Self::spec_parse(data@, pos as int),
    {
        let values = match read_fields(data, pos, &Self::widths()) {
            Ok(values) => values,
            Err(e) => {
                return Err(Error::Decode(e));
            },
        };
        proof {
            lemma_read_layout_fits(data@, pos as int, Self::spec_widths());
            lemma_width_bound(1);
            lemma_width_bound(2);
            lemma_width_bound(4);
        }
        let parsed = DataDirectory {
            virtual_address: Address(values[0]),
            size: values[1]
        };
        assert(parsed == Self::from_values(values@));
        Ok(parsed)
    }

    /// Appends the bytes of the structure as it is laid out in the file.
    pub fn encode(&self, out: &mut Vec<u8>)
        ensures
            final(out)@ == old(out)@ + self.spec_encode(),
    {
        let ghost start = old(out)@;
        let values = vec![
            self.virtual_address.0,
            self.size
        ];
        assert(values@ =~= self.spec_values());
        write_fields(out, &values, &Self::widths());
        assert(out@ =~= start + self.spec_encode());
    }
}

impl DataDirectory {
    /// Constructs a new data directory.
    pub fn new(virtual_address: Address, size: u32) -> (directory: DataDirectory)
        ensures
            directory.spec_virtual_address() == virtual_address,
            directory.spec_size() == size,
    {
        DataDirectory { virtual_address, size }
    }

    /// Gets the number of bytes an entry takes in the header: eight.
    pub fn size(&self) -> (size: Size)
        ensures
            size.spec_get() == 8,
    {
        Size::new_valid(8)
    }
}

impl DataDirectory {
    /// The empty entry: no table, at address zero.
    pub closed spec fn empty() -> DataDirectory {
        DataDirectory { virtual_address: Address(0), size: 0 }
    }

    /// The empty entry names no table and has no size.
    pub proof fn lemma_empty()
        ensures
            DataDirectory::empty().spec_virtual_address().spec_value() == 0,
            DataDirectory::empty().spec_size() == 0,
    {
    }
}

impl Default for DataDirectory {
    /// The empty entry: no table, at address zero.
    fn default() -> (directory: DataDirectory)
        ensures
            directory == DataDirectory::empty(),
    {
        DataDirectory { virtual_address: Address::new(0), size: 0 }
    }
}

/// The field values of a structure fit their widths, and rebuilding the structure
/// from its values gives it back.
proof fn lemma_values(h: DataDirectory)
    requires
    ensures
        fits_layout(h.spec_values(), DataDirectory::spec_widths()),
        DataDirectory::from_values(h.spec_values()) == h,
{
    lemma_width_bound(1);
    lemma_width_bound(2);
    lemma_width_bound(4);
    let v = h.spec_values();
    assert forall|i: int| 0 <= i < v.len() implies v[i] < width_bound(
        #[trigger] DataDirectory::spec_widths()[i] as nat,
    ) by {
        if i == 0 || i == 1 {
            assert(DataDirectory::spec_widths()[i] == 4);
        }
    }
}

/// The values of a structure rebuilt from values that fit their widths are those values.
proof fn lemma_from_values(v: Seq<u32>)
    requires
        fits_layout(v, DataDirectory::spec_widths()),
    ensures
        DataDirectory::from_values(v).spec_values() == v,
        
{
    lemma_width_bound(1);
    lemma_width_bound(2);
    lemma_width_bound(4);
    assert(DataDirectory::from_values(v).spec_values() =~= v);
}

/// The fields take 8 bytes.
proof fn lemma_layout_size()
    ensures
        layout_size(DataDirectory::spec_widths()) == 8,
        valid_widths(DataDirectory::spec_widths()),
{
    reveal_with_fuel(layout_size, 3);
}

/// The encoding of the structure is 8 bytes long.
pub proof fn lemma_encode_len(h: DataDirectory)
    ensures
        h.spec_encode().len() == 8,
{
    lemma_layout_size();
    lemma_encode_layout_len(h.spec_values(), DataDirectory::spec_widths());
}

/// Reading the encoding of the structure gives it back, whatever bytes follow it.
pub proof fn lemma_parse_encode(h: DataDirectory, rest: Seq<u8>)
    requires
    ensures
        DataDirectory::spec_parse(h.spec_encode() + rest, 0) == Ok::<DataDirectory, Error>(h),
{
    lemma_values(h);
    lemma_read_encoded_layout(h.spec_values(), DataDirectory::spec_widths(), rest);
}

/// Reading the structure after a prefix is reading it from what follows the prefix.
pub proof fn lemma_parse_skip(prefix: Seq<u8>, s: Seq<u8>, pos: int)
    requires
        0 <= pos,
    ensures
        DataDirectory::spec_parse(prefix + s, prefix.len() + pos) == DataDirectory::spec_parse(s, pos),
{
    lemma_read_layout_skip_at(prefix, s, pos, DataDirectory::spec_widths());
}

/// Encoding a structure that was read gives back the bytes it was read from.
pub proof fn lemma_encode_parse(s: Seq<u8>, pos: int)
    requires
        0 <= pos <= s.len(),
        DataDirectory::spec_parse(s, pos) is Ok,
    ensures
        pos + 8 <= s.len(),
        DataDirectory::spec_parse(s, pos)->Ok_0.spec_encode() == s.subrange(pos, pos + 8),
{
    let w = DataDirectory::spec_widths();
    lemma_layout_size();
    let v = read_layout(s, pos, w)->Ok_0;
    lemma_read_layout_fits(s, pos, w);
    lemma_from_values(v);
    lemma_encode_read_layout(s, pos, w);
}

/// Each field of a data directory read from `s` at `pos` holds the
/// little-endian value of the bytes at its offset.
pub proof fn lemma_parse_fields(s: Seq<u8>, pos: int)
    requires
        DataDirectory::spec_parse(s, pos) is Ok,
    ensures
        ({
            let h = DataDirectory::spec_parse(s, pos)->Ok_0;
            &&& h.spec_virtual_address().spec_value() == le_value(s, pos + 0, 4)
            &&& h.spec_size() == le_value(s, pos + 4, 4)
        }),
{
    let widths = DataDirectory::spec_widths();
    crate::wire::lemma_read_layout_fields(s, pos + 0, widths);
    reveal_with_fuel(crate::wire::prefix_size, 3);
    lemma_width_bound(4);
}

} // verus!
