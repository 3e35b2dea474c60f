//! The DOS header of an image file.

pub mod cursor;
pub mod field;

use vstd::prelude::*;

use crate::image::region::headers::Error;
use crate::wire::{
    encode_layout, layout_size, le_bytes, le_value, lemma_encode_layout_len,
    lemma_encode_read_layout, lemma_le_bytes_len, lemma_le_bytes_of_value, lemma_le_value_bound,
    lemma_le_value_of_bytes, lemma_read_encoded_layout, lemma_read_layout_fits,
    lemma_le_value_shift, lemma_read_layout_skip, lemma_read_layout_skip_at, lemma_width_bound, read_field, read_fields, read_layout, valid_widths,
    fits_layout, width_bound, write_field, write_fields,
};


pub use self::field::Field;

verus! {

broadcast use vstd::array::group_array_axioms;

/// The signature indicating the start of the DOS headers.
pub const DOS_SIGNATURE: u16 = 0x5A4D;

/// The size of the DOS header, in bytes.
pub const DOS_HEADER_SIZE: u64 = 64;

/// The image file DOS header.
#[derive(Clone, Copy, Debug, PartialEq, Eq)]
pub struct DosHeader {
    /// The signature that identifies the file as a DOS-compatible executable.
    e_magic: u16,
    /// The number of bytes in the last page of the file.
    e_cblp: u16,
    /// The number of pages in the file.
    e_cp: u16,
    /// The number of relocation entries in the file.
    e_crlc: u16,
    /// The size of the header in 16-byte paragraphs.
    e_cparhdr: u16,
    /// The minimum number of paragraphs allocated to the program.
    e_minalloc: u16,
    /// The maximum number of paragraphs allocated to the program.
    e_maxalloc: u16,
    /// The initial stack segment value.
    e_ss: u16,
    /// The initial stack pointer value.
    e_sp: u16,
    /// The checksum.
    e_csum: u16,
    /// The initial instruction pointer.
    e_ip: u16,
    /// The initial code segment.
    e_cs: u16,
    /// The file address of the relocation table.
    e_lfarlc: u16,
    /// The overlay number.
    e_ovno: u16,
    /// An array reserved for future use.
    e_res: [u16; 4],
    /// The OEM identifier.
    e_oemid: u16,
    /// The OEM information.
    e_oeminfo: u16,
    /// An array reserved for future use.
    e_res2: [u16; 10],
    /// The file offset of the PE headers.
    e_lfanew: u32,
}

impl DosHeader {
    /// The widths of the fields that follow the signature.
    pub open spec fn spec_widths() -> Seq<u8> {
        seq![2, 2, 2, 2, 2, 2, 2, 2, 2, 2, 2, 2, 2, 2, 2, 2, 2, 2, 2, 2, 2, 2, 2, 2, 2, 2, 2, 2, 2, 4]
    }

    fn widths() -> (widths: Vec<u8>)
        ensures
            widths@ == Self::spec_widths(),
    {
        let widths = vec![2u8, 2, 2, 2, 2, 2, 2, 2, 2, 2, 2, 2, 2, 2, 2, 2, 2, 2, 2, 2, 2, 2, 2, 2, 2, 2, 2, 2, 2, 4];
        assert(widths@ =~= Self::spec_widths());
        widths
    }

    /// The values of the fields that follow the signature, in file order.
    pub closed spec fn spec_values(self) -> Seq<u32> {
        seq![
            self.e_cblp as u32,
            self.e_cp as u32,
            self.e_crlc as u32,
            self.e_cparhdr as u32,
            self.e_minalloc as u32,
            self.e_maxalloc as u32,
            self.e_ss as u32,
            self.e_sp as u32,
            self.e_csum as u32,
            self.e_ip as u32,
            self.e_cs as u32,
            self.e_lfarlc as u32,
            self.e_ovno as u32,
            self.e_res@[0] as u32,
            self.e_res@[1] as u32,
            self.e_res@[2] as u32,
            self.e_res@[3] as u32,
            self.e_oemid as u32,
            self.e_oeminfo as u32,
            self.e_res2@[0] as u32,
            self.e_res2@[1] as u32,
            self.e_res2@[2] as u32,
            self.e_res2@[3] as u32,
            self.e_res2@[4] as u32,
            self.e_res2@[5] as u32,
            self.e_res2@[6] as u32,
            self.e_res2@[7] as u32,
            self.e_res2@[8] as u32,
            self.e_res2@[9] as u32,
            self.e_lfanew
        ]
    }

    /// The header with the DOS signature and the given values of the other fields.
    pub closed spec fn from_values(v: Seq<u32>) -> DosHeader {
        DosHeader {
            e_magic: DOS_SIGNATURE,
            e_cblp: v[0] as u16,
            e_cp: v[1] as u16,
            e_crlc: v[2] as u16,
            e_cparhdr: v[3] as u16,
            e_minalloc: v[4] as u16,
            e_maxalloc: v[5] as u16,
            e_ss: v[6] as u16,
            e_sp: v[7] as u16,
            e_csum: v[8] as u16,
            e_ip: v[9] as u16,
            e_cs: v[10] as u16,
            e_lfarlc: v[11] as u16,
            e_ovno: v[12] as u16,
            e_res: [v[13] as u16, v[14] as u16, v[15] as u16, v[16] as u16],
            e_oemid: v[17] as u16,
            e_oeminfo: v[18] as u16,
            e_res2: [v[19] as u16, v[20] as u16, v[21] as u16, v[22] as u16, v[23] as u16, v[24] as u16, v[25] as u16, v[26] as u16, v[27] as u16, v[28] as u16],
            e_lfanew: v[29]
        }
    }

    /// The header carries the DOS signature.
    pub closed spec fn wf(self) -> bool {
        self.e_magic == DOS_SIGNATURE
    }

    /// The file offset of the PE headers.
    pub closed spec fn spec_pe_headers_offset(self) -> u32 {
        self.e_lfanew
    }

    /// The result of reading a DOS header from `s` at `pos`.
    ///
    /// The signature is read first and must be `MZ`; then the other fields are
    /// read one after the other.
    pub open spec fn spec_parse(s: Seq<u8>, pos: int) -> Result<DosHeader, Error> {
        if s.len() - pos < 2 {
            Err(Error::Decode(crate::wire::ReadError { requested: 2, available: (s.len() - pos) as usize }))
        } else if le_value(s, pos, 2) != DOS_SIGNATURE {
            Err(Error::InvalidSignature)
        } else {
            match read_layout(s, pos + 2, Self::spec_widths()) {
                Ok(v) => Ok(Self::from_values(v)),
                Err(e) => Err(Error::Decode(e)),
            }
        }
    }

    /// The bytes of the header as it is laid out in the file.
    pub open spec fn spec_encode(self) -> Seq<u8> {
        le_bytes(self.spec_magic() as nat, 2) + encode_layout(self.spec_values(), Self::spec_widths())
    }

    /// The signature field.
    pub closed spec fn spec_magic(self) -> u16 {
        self.e_magic
    }

    /// Gets the file offset of the PE headers.
    pub fn pe_headers_offset(&self) -> (offset: u32)
        ensures
            offset == self.spec_pe_headers_offset(),
    {
        self.e_lfanew
    }

    /// Reads a DOS header from the input at `pos`.
    pub fn parse(data: &[u8], pos: usize) -> (parsed: Result<DosHeader, Error>)
        requires
            pos <= data.len(),
        ensures
            parsed == Self::spec_parse(data@, pos as int),
            parsed matches Ok(h) ==> h.wf(),
    {
        let magic = match read_field(data, pos, 2) {
            Ok(magic) => magic,
            Err(e) => {
                return Err(Error::Decode(e));
            },
        };
        proof {
            lemma_le_value_bound(data@, pos as int, 2);
            lemma_width_bound(2);
        }
        if magic != DOS_SIGNATURE as u32 {
            return Err(Error::InvalidSignature);
        }
        let widths = Self::widths();
        let values = match read_fields(data, pos + 2, &widths) {
            Ok(values) => values,
            Err(e) => {
                return Err(Error::Decode(e));
            },
        };
        proof {
            lemma_read_layout_fits(data@, pos + 2, Self::spec_widths());
            lemma_width_bound(2);
            lemma_width_bound(4);
            assert forall|i: int| 0 <= i < 29 implies values@[i] < 0x1_0000 by {
                assert(Self::spec_widths()[i] == 2);
            }
        }
        let header = DosHeader {
            e_magic: DOS_SIGNATURE,
            e_cblp: values[0] as u16,
            e_cp: values[1] as u16,
            e_crlc: values[2] as u16,
            e_cparhdr: values[3] as u16,
            e_minalloc: values[4] as u16,
            e_maxalloc: values[5] as u16,
            e_ss: values[6] as u16,
            e_sp: values[7] as u16,
            e_csum: values[8] as u16,
            e_ip: values[9] as u16,
            e_cs: values[10] as u16,
            e_lfarlc: values[11] as u16,
            e_ovno: values[12] as u16,
            e_res: [values[13] as u16, values[14] as u16, values[15] as u16, values[16] as u16],
            e_oemid: values[17] as u16,
            e_oeminfo: values[18] as u16,
            e_res2: [values[19] as u16, values[20] as u16, values[21] as u16, values[22] as u16, values[23] as u16, values[24] as u16, values[25] as u16, values[26] as u16, values[27] as u16, values[28] as u16],
            e_lfanew: values[29]
        };
        assert(header == Self::from_values(values@));
        Ok(header)
    }

    /// Appends the bytes of the header as it is laid out in the file.
    pub fn encode(&self, out: &mut Vec<u8>)
        ensures
            final(out)@ == old(out)@ + self.spec_encode(),
    {
        let ghost start = old(out)@;
        write_field(out, self.e_magic as u32, 2);
        let values = vec![
            self.e_cblp as u32,
            self.e_cp as u32,
            self.e_crlc as u32,
            self.e_cparhdr as u32,
            self.e_minalloc as u32,
            self.e_maxalloc as u32,
            self.e_ss as u32,
            self.e_sp as u32,
            self.e_csum as u32,
            self.e_ip as u32,
            self.e_cs as u32,
            self.e_lfarlc as u32,
            self.e_ovno as u32,
            self.e_res[0] as u32,
            self.e_res[1] as u32,
            self.e_res[2] as u32,
            self.e_res[3] as u32,
            self.e_oemid as u32,
            self.e_oeminfo as u32,
            self.e_res2[0] as u32,
            self.e_res2[1] as u32,
            self.e_res2[2] as u32,
            self.e_res2[3] as u32,
            self.e_res2[4] as u32,
            self.e_res2[5] as u32,
            self.e_res2[6] as u32,
            self.e_res2[7] as u32,
            self.e_res2[8] as u32,
            self.e_res2[9] as u32,
            self.e_lfanew
        ];
        assert(values@ =~= self.spec_values());
        let widths = Self::widths();
        write_fields(out, &values, &widths);
        assert(out@ =~= start + self.spec_encode());
    }
}

/// The field values of a header fit their widths, and rebuilding a header from
/// its values gives back the header.
proof fn lemma_values(h: DosHeader)
    requires
        h.wf(),
    ensures
        fits_layout(h.spec_values(), DosHeader::spec_widths()),
        DosHeader::from_values(h.spec_values()) == h,
{
    lemma_width_bound(2);
    lemma_width_bound(4);
    let v = h.spec_values();
    assert forall|i: int| 0 <= i < v.len() implies v[i] < width_bound(
        #[trigger] DosHeader::spec_widths()[i] as nat,
    ) by {
        if i < 29 {
            assert(DosHeader::spec_widths()[i] == 2);
        } else {
            assert(DosHeader::spec_widths()[i] == 4);
        }
    }
    let g = DosHeader::from_values(v);
    assert(g.e_res =~= h.e_res);
    assert(g.e_res2 =~= h.e_res2);
}

/// The values of a header rebuilt from values that fit their widths are those values.
proof fn lemma_from_values(v: Seq<u32>)
    requires
        fits_layout(v, DosHeader::spec_widths()),
    ensures
        DosHeader::from_values(v).spec_values() == v,
        DosHeader::from_values(v).wf(),
{
    lemma_width_bound(2);
    assert forall|i: int| 0 <= i < 29 implies v[i] < 0x1_0000 by {
        assert(DosHeader::spec_widths()[i] == 2);
    }
    assert(DosHeader::from_values(v).spec_values() =~= v);
}

/// The layout of the fields after the signature is 62 bytes wide.
proof fn lemma_layout_size()
    ensures
        layout_size(DosHeader::spec_widths()) == 62,
        valid_widths(DosHeader::spec_widths()),
{
    reveal_with_fuel(layout_size, 31);
}

/// The encoding of a DOS header is 64 bytes long.
pub proof fn lemma_encode_len(h: DosHeader)
    ensures
        h.spec_encode().len() == DOS_HEADER_SIZE,
{
    lemma_layout_size();
    lemma_le_bytes_len(h.spec_magic() as nat, 2);
    lemma_encode_layout_len(h.spec_values(), DosHeader::spec_widths());
}

/// Reading the encoding of a DOS header gives back the header, whatever bytes follow it.
pub proof fn lemma_parse_encode(h: DosHeader, rest: Seq<u8>)
    requires
        h.wf(),
    ensures
        DosHeader::spec_parse(h.spec_encode() + rest, 0) == Ok::<DosHeader, Error>(h),
{
    let w = DosHeader::spec_widths();
    let magic = le_bytes(DOS_SIGNATURE as nat, 2);
    let body = encode_layout(h.spec_values(), w) + rest;
    lemma_values(h);
    lemma_width_bound(2);
    lemma_le_bytes_len(DOS_SIGNATURE as nat, 2);
    assert(h.spec_encode() + rest =~= magic + body);
    lemma_le_value_of_bytes(DOS_SIGNATURE as nat, 2, body);
    lemma_read_layout_skip(magic, body, w);
    lemma_read_encoded_layout(h.spec_values(), w, rest);
}

/// Reading a DOS header after a prefix is reading it from what follows the prefix.
pub proof fn lemma_parse_skip(prefix: Seq<u8>, s: Seq<u8>, pos: int)
    requires
        0 <= pos,
    ensures
        DosHeader::spec_parse(prefix + s, prefix.len() + pos) == DosHeader::spec_parse(s, pos),
{
    lemma_read_layout_skip_at(prefix, s, pos + 2, DosHeader::spec_widths());
    if s.len() - pos >= 2 {
        assert((prefix + s).subrange(prefix.len() + pos, prefix.len() + pos + 2) =~= s.subrange(pos, pos + 2));
        lemma_le_value_shift(prefix + s, s, prefix.len() + pos, pos, 2);
    }
}

/// Encoding a DOS header that was read gives back the 64 bytes it was read from.
pub proof fn lemma_encode_parse(s: Seq<u8>, pos: int)
    requires
        0 <= pos <= s.len(),
        DosHeader::spec_parse(s, pos) is Ok,
    ensures
        pos + DOS_HEADER_SIZE <= s.len(),
        DosHeader::spec_parse(s, pos)->Ok_0.spec_encode() == s.subrange(pos, pos + DOS_HEADER_SIZE),
{
    let w = DosHeader::spec_widths();
    lemma_layout_size();
    let v = read_layout(s, pos + 2, w)->Ok_0;
    lemma_read_layout_fits(s, pos + 2, w);
    lemma_from_values(v);
    lemma_encode_read_layout(s, pos + 2, w);
    lemma_le_value_bound(s, pos, 2);
    lemma_width_bound(2);
    lemma_le_bytes_of_value(s, pos, 2);
    let h = DosHeader::from_values(v);
    assert(h.spec_magic() as nat == le_value(s, pos, 2));
    assert(s.subrange(pos, pos + 64) =~= s.subrange(pos, pos + 2) + s.subrange(pos + 2, pos + 64));
}

/// Each field of a DOS header read from `s` at `pos` holds the
/// little-endian value of the bytes at its offset.
pub proof fn lemma_parse_fields(s: Seq<u8>, pos: int)
    requires
        DosHeader::spec_parse(s, pos) is Ok,
    ensures
        ({
            let h = DosHeader::spec_parse(s, pos)->Ok_0;
            &&& h.spec_magic() == le_value(s, pos, 2)
            &&& h.spec_pe_headers_offset() == le_value(s, pos + 60, 4)
        }),
{
    let widths = DosHeader::spec_widths();
    crate::wire::lemma_read_layout_fields(s, pos + 2, widths);
    reveal_with_fuel(crate::wire::prefix_size, 31);
    lemma_width_bound(2);
    lemma_width_bound(4);
    lemma_le_value_bound(s, pos, 2);
}

} // verus!
