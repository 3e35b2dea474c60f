//! The Optional header of an image file.

pub mod cursor;
pub mod directories;
pub mod standard;
pub mod windows;

use vstd::prelude::*;

use crate::image::region::headers::Error;
use crate::memory::{Address, Size, ADDRESS_SPACE_END};
use crate::wire::le_value;

use self::directories::directory::DataDirectory;
use self::directories::{encode_entries, DataDirectories, MAX_DATA_DIRECTORIES};
use self::standard::StandardFields;
use self::windows::WindowsFields;

verus! {

/// The offset of the Windows-specific fields within the Optional header.
pub const WINDOWS_OFFSET: u32 = 28;

/// The offset of the data directories within the Optional header.
pub const DIRECTORIES_OFFSET: u32 = 96;

/// What an Optional header holds: its standard fields, its Windows-specific
/// fields, and its data directory entries when it has any.
pub type OptionalHeaderView = (StandardFields, WindowsFields, Option<Seq<DataDirectory>>);

/// The result of reading an Optional header from `s` at `pos`.
///
/// The standard fields come first, then the Windows-specific fields, then as
/// many data directory entries as the Windows-specific fields announce: none,
/// or one to sixteen; any other count is refused.
pub open spec fn parse_optional(s: Seq<u8>, pos: int) -> Result<OptionalHeaderView, Error> {
    match StandardFields::spec_parse(s, pos) {
        Err(e) => Err(e),
        Ok(standard) => match WindowsFields::spec_parse(s, pos + WINDOWS_OFFSET) {
            Err(e) => Err(e),
            Ok(windows) => {
                let count = windows.spec_number_of_rva_and_sizes();
                if count == 0 {
                    Ok((standard, windows, None))
                } else if count <= MAX_DATA_DIRECTORIES {
                    match DataDirectories::spec_parse(s, pos + DIRECTORIES_OFFSET, count) {
                        Ok(entries) => Ok((standard, windows, Some(entries))),
                        Err(e) => Err(e),
                    }
                } else {
                    Err(Error::UnsupportedDataDirectoryCount(count))
                }
            },
        },
    }
}

/// The bytes of an Optional header as it is laid out in the file.
pub open spec fn encode_optional(v: OptionalHeaderView) -> Seq<u8> {
    v.0.spec_encode() + v.1.spec_encode() + match v.2 {
        Some(entries) => encode_entries(entries),
        None => seq![],
    }
}

/// The size of an Optional header, in bytes.
pub open spec fn optional_size(v: OptionalHeaderView) -> nat {
    DIRECTORIES_OFFSET as nat + match v.2 {
        Some(entries) => 8 * entries.len(),
        None => 0,
    }
}

/// The image file Optional header.
#[derive(Clone, Copy, Debug, PartialEq, Eq)]
pub struct OptionalHeader {
    /// The standard fields.
    standard: StandardFields,
    /// The Windows-specific fields.
    windows: WindowsFields,
    /// The data directories.
    data_directories: Option<DataDirectories>,
}

impl View for OptionalHeader {
    type V = OptionalHeaderView;

    closed spec fn view(&self) -> OptionalHeaderView {
        (
            self.standard,
            self.windows,
            match self.data_directories {
                Some(d) => Some(d.spec_entries()),
                None => None,
            },
        )
    }
}

impl OptionalHeader {
    /// The header is one that reading can give: its standard fields carry the
    /// PE32 signature and its data directories are as many as announced.
    pub closed spec fn wf(self) -> bool {
        &&& self.standard.wf()
        &&& match self.data_directories {
            None => self.windows.spec_number_of_rva_and_sizes() == 0,
            Some(d) => d.wf() && d.spec_count() == self.windows.spec_number_of_rva_and_sizes(),
        }
    }

    /// The data directories of the header.
    pub closed spec fn spec_data_directories(self) -> Option<DataDirectories> {
        self.data_directories
    }

    /// The base address of the image.
    pub open spec fn spec_image_address(self) -> Address {
        self@.1.spec_image_base()
    }

    /// The address of the entry point, relative to the image base.
    pub open spec fn spec_entry_offset(self) -> Address {
        self@.0.spec_address_of_entry_point()
    }

    /// Gets the standard fields.
    pub fn standard(&self) -> (standard: &StandardFields)
        ensures
            *standard == self@.0,
    {
        &self.standard
    }

    /// Gets the Windows-specific fields.
    pub fn windows(&self) -> (windows: &WindowsFields)
        ensures
            *windows == self@.1,
    {
        &self.windows
    }

    /// Gets the base address of the image.
    pub fn image_address(&self) -> (address: Address)
        ensures
            address == self.spec_image_address(),
    {
        self.windows.image_base()
    }

    /// Gets the total size of the image in memory.
    pub fn image_size(&self) -> (size: u32)
        ensures
            size == self@.1.spec_size_of_image(),
    {
        self.windows.size_of_image()
    }

    /// Gets the total size of the headers in memory.
    pub fn headers_size(&self) -> (size: u32)
        ensures
            size == self@.1.spec_size_of_headers(),
    {
        self.windows.size_of_headers()
    }

    /// Gets the section alignment.
    pub fn section_alignment(&self) -> (alignment: u32)
        ensures
            alignment == self@.1.spec_section_alignment(),
    {
        self.windows.section_alignment()
    }

    /// Gets the data directories.
    pub fn data_directories(&self) -> (directories: Option<&DataDirectories>)
        ensures
            directories is Some == self@.2 is Some,
            directories matches Some(d) ==> self.spec_data_directories() == Some(*d) && self@.2
                == Some(d.spec_entries()),
            directories is None ==> self.spec_data_directories() is None,
    {
        match &self.data_directories {
            Some(d) => Some(d),
            None => None,
        }
    }

    /// Gets the address of the entry point.
    pub fn entry_point(&self) -> (address: Address)
        requires
            self.spec_image_address().spec_value() + self.spec_entry_offset().spec_value()
                < ADDRESS_SPACE_END,
        ensures
            address.spec_value() == self.spec_image_address().spec_value()
                + self.spec_entry_offset().spec_value(),
    {
        let offset = self.standard.address_of_entry_point().value();
        match self.image_address().checked_add(offset) {
            Some(address) => address,
            None => {
                proof {
                    assert(false);
                }
                Address::new(0)
            },
        }
    }

    /// Gets the size of the header, in bytes.
    pub fn size(&self) -> (size: Size)
        ensures
            size.spec_get() == optional_size(self@),
    {
        match &self.data_directories {
            Some(d) => {
                let count = d.count();
                Size::new_valid(DIRECTORIES_OFFSET as u64 + 8 * count as u64)
            },
            None => Size::new_valid(DIRECTORIES_OFFSET as u64),
        }
    }

    /// Reads an Optional header from the input at `pos`.
    pub fn parse(data: &[u8], pos: usize) -> (parsed: Result<OptionalHeader, Error>)
        requires
            pos <= data.len(),
        ensures
            parsed matches Ok(h) ==> parse_optional(data@, pos as int) == Ok::<
                OptionalHeaderView,
                Error,
            >(h@) && h.wf(),
            parsed matches Err(e) ==> parse_optional(data@, pos as int) == Err::<
                OptionalHeaderView,
                Error,
            >(e),
    {
        let standard = match StandardFields::parse(data, pos) {
            Ok(standard) => standard,
            Err(e) => {
                return Err(e);
            },
        };
        proof {
            standard::lemma_encode_parse(data@, pos as int);
        }
        let windows = match WindowsFields::parse(data, pos + 28) {
            Ok(windows) => windows,
            Err(e) => {
                return Err(e);
            },
        };
        proof {
            windows::lemma_encode_parse(data@, pos + 28);
        }
        let count = windows.number_of_rva_and_sizes();
        let data_directories = if count == 0 {
            None
        } else if count <= MAX_DATA_DIRECTORIES {
            match DataDirectories::parse(data, pos + 96, count) {
                Ok(d) => Some(d),
                Err(e) => {
                    return Err(e);
                },
            }
        } else {
            return Err(Error::UnsupportedDataDirectoryCount(count));
        };
        Ok(OptionalHeader { standard, windows, data_directories })
    }

    /// Appends the bytes of the header as it is laid out in the file.
    pub fn encode(&self, out: &mut Vec<u8>)
        ensures
            final(out)@ == old(out)@ + encode_optional(self@),
    {
        let ghost start = old(out)@;
        self.standard.encode(out);
        self.windows.encode(out);
        match &self.data_directories {
            Some(d) => {
                d.encode(out);
            },
            None => {},
        }
        assert(out@ =~= start + encode_optional(self@));
    }
}

/// The encoding of an Optional header is as long as its size.
pub proof fn lemma_encode_len(v: OptionalHeaderView)
    ensures
        encode_optional(v).len() == optional_size(v),
{
    standard::lemma_encode_len(v.0);
    windows::lemma_encode_len(v.1);
    match v.2 {
        Some(entries) => {
            directories::lemma_parse_encode_entries(entries, seq![]);
        },
        None => {},
    }
}

/// Reading the encoding of an Optional header gives it back, whatever bytes follow it.
pub proof fn lemma_parse_encode(h: OptionalHeader, rest: Seq<u8>)
    requires
        h.wf(),
    ensures
        parse_optional(encode_optional(h@) + rest, 0) == Ok::<OptionalHeaderView, Error>(h@),
{
    let v = h@;
    let tail = match v.2 {
        Some(entries) => encode_entries(entries),
        None => seq![],
    };
    let s = encode_optional(v) + rest;
    standard::lemma_encode_len(v.0);
    windows::lemma_encode_len(v.1);
    assert(s =~= v.0.spec_encode() + (v.1.spec_encode() + tail + rest));
    standard::lemma_parse_encode(v.0, v.1.spec_encode() + tail + rest);
    assert(s =~= v.0.spec_encode() + v.1.spec_encode() + (tail + rest));
    windows::lemma_parse_encode(v.1, tail + rest);
    crate::wire::lemma_read_layout_skip(
        v.0.spec_encode(),
        v.1.spec_encode() + (tail + rest),
        WindowsFields::spec_widths(),
    );
    assert(v.0.spec_encode() + (v.1.spec_encode() + (tail + rest)) =~= s);
    match h.spec_data_directories() {
        Some(d) => {
            d.lemma_wf();
            directories::lemma_parse_encode_entries(d.spec_entries(), rest);
            let prefix = v.0.spec_encode() + v.1.spec_encode();
            assert(s =~= prefix + (tail + rest));
            directories::lemma_parse_entries_skip(prefix, tail + rest, 0, d.spec_count() as nat);
        },
        None => {},
    }
}

/// Reading an Optional header after a prefix is reading it from what follows the prefix.
pub proof fn lemma_parse_skip(prefix: Seq<u8>, s: Seq<u8>, pos: int)
    requires
        0 <= pos,
    ensures
        parse_optional(prefix + s, prefix.len() + pos) == parse_optional(s, pos),
{
    standard::lemma_parse_skip(prefix, s, pos);
    windows::lemma_parse_skip(prefix, s, pos + WINDOWS_OFFSET);
    match WindowsFields::spec_parse(s, pos + WINDOWS_OFFSET) {
        Ok(windows) => {
            directories::lemma_parse_entries_skip(
                prefix,
                s,
                pos + DIRECTORIES_OFFSET,
                windows.spec_number_of_rva_and_sizes() as nat,
            );
        },
        Err(_) => {},
    }
}

/// Encoding an Optional header that was read gives back the bytes it was read from.
pub proof fn lemma_encode_parse(s: Seq<u8>, pos: int)
    requires
        0 <= pos <= s.len(),
        parse_optional(s, pos) is Ok,
    ensures
        pos + optional_size(parse_optional(s, pos)->Ok_0) <= s.len(),
        encode_optional(parse_optional(s, pos)->Ok_0) == s.subrange(
            pos,
            pos + optional_size(parse_optional(s, pos)->Ok_0),
        ),
{
    let v = parse_optional(s, pos)->Ok_0;
    standard::lemma_encode_parse(s, pos);
    windows::lemma_encode_parse(s, pos + 28);
    match v.2 {
        Some(entries) => {
            let count = v.1.spec_number_of_rva_and_sizes();
            directories::lemma_encode_parse_entries(s, pos + 96, count as nat);
            assert(s.subrange(pos, pos + 96 + 8 * count) =~= s.subrange(pos, pos + 28)
                + s.subrange(pos + 28, pos + 96) + s.subrange(pos + 96, pos + 96 + 8 * count));
        },
        None => {
            assert(s.subrange(pos, pos + 96) =~= s.subrange(pos, pos + 28) + s.subrange(
                pos + 28,
                pos + 96,
            ));
        },
    }
}

/// Reading an Optional header from `s` at `pos` reads each part from its
/// place: the standard fields at `pos`, the Windows fields after them, and
/// as many data directories as the four bytes at `pos + 92` count, none for
/// a count of zero; the header then takes 96 bytes and eight for each
/// directory.
pub proof fn lemma_parse_parts(s: Seq<u8>, pos: int)
    requires
        parse_optional(s, pos) is Ok,
    ensures
        ({
            let v = parse_optional(s, pos)->Ok_0;
            let count = le_value(s, pos + 92, 4);
            &&& StandardFields::spec_parse(s, pos) == Ok::<StandardFields, Error>(v.0)
            &&& WindowsFields::spec_parse(s, pos + WINDOWS_OFFSET) == Ok::<WindowsFields, Error>(v.1)
            &&& v.1.spec_number_of_rva_and_sizes() == count
            &&& count <= MAX_DATA_DIRECTORIES
            &&& (v.2 is Some <==> count != 0)
            &&& v.2 matches Some(entries) ==> entries.len() == count
            &&& optional_size(v) == 96 + 8 * count
        }),
{
    windows::lemma_parse_fields(s, pos + WINDOWS_OFFSET);
    let v = parse_optional(s, pos)->Ok_0;
    let count = v.1.spec_number_of_rva_and_sizes();
    if count != 0 {
        directories::lemma_parse_entries_len(s, pos + DIRECTORIES_OFFSET, count as nat);
    }
}

} // verus!
