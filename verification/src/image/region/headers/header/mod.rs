//! The headers at the start of an image file.

pub mod coff;
pub mod cursor;
pub mod dos;
pub mod optional;
pub mod section;

use vstd::prelude::*;

use crate::image::region::headers::PE_SIGNATURE;
use crate::image::Padding;
use crate::wire::le_bytes;

pub use self::coff::CoffHeader;
pub use self::dos::DosHeader;
pub use self::optional::directories::directory::DataDirectory;
pub use self::optional::directories::DataDirectories;
pub use self::optional::{optional_size, OptionalHeader};
pub use self::section::{SectionCharacteristics, SectionHeader};

verus! {

/// The size of the PE signature, in bytes.
pub const SIGNATURE_SIZE: u64 = 4;

/// A header in a PE image file.
#[derive(Clone, Copy, Debug, PartialEq, Eq)]
pub enum Header {
    /// The DOS header.
    Dos(DosHeader),
    /// The PE signature.
    Signature,
    /// The COFF header.
    Coff(CoffHeader),
    /// The Optional header.
    Optional(OptionalHeader),
    /// A section header.
    Section(SectionHeader),
    /// The padding after the section headers.
    Padding(Padding),
}

impl Header {
    /// The size of the header, in bytes.
    pub open spec fn spec_size(self) -> nat {
        match self {
            Header::Dos(_) => 64,
            Header::Signature => 4,
            Header::Coff(_) => 20,
            Header::Optional(optional) => optional_size(optional@),
            Header::Section(_) => 40,
            Header::Padding(padding) => padding.spec_size() as nat,
        }
    }

    /// The bytes of the header as it is laid out in the file.
    pub open spec fn spec_encode(self) -> Seq<u8> {
        match self {
            Header::Dos(d) => d.spec_encode(),
            Header::Signature => le_bytes(PE_SIGNATURE as nat, 4),
            Header::Coff(c) => c.spec_encode(),
            Header::Optional(o) => optional::encode_optional(o@),
            Header::Section(s) => section::encode_section_header(s@),
            Header::Padding(p) => p.spec_encode(),
        }
    }

    /// Gets the header as a DOS header.
    pub fn as_dos(&self) -> (dos: Option<&DosHeader>)
        ensures
            dos is Some == self is Dos,
            dos matches Some(d) ==> *self == Header::Dos(*d),
    {
        match self {
            Header::Dos(dos) => Some(dos),
            _ => None,
        }
    }

    /// Gets the header as a COFF header.
    pub fn as_coff(&self) -> (coff: Option<&CoffHeader>)
        ensures
            coff is Some == self is Coff,
            coff matches Some(c) ==> *self == Header::Coff(*c),
    {
        match self {
            Header::Coff(coff) => Some(coff),
            _ => None,
        }
    }

    /// Gets the header as an Optional header.
    pub fn as_optional(&self) -> (optional: Option<&OptionalHeader>)
        ensures
            optional is Some == self is Optional,
            optional matches Some(o) ==> *self == Header::Optional(*o),
    {
        match self {
            Header::Optional(optional) => Some(optional),
            _ => None,
        }
    }

    /// Gets the header as a Section header.
    pub fn as_section(&self) -> (section: Option<&SectionHeader>)
        ensures
            section is Some == self is Section,
            section matches Some(s) ==> *self == Header::Section(*s),
    {
        match self {
            Header::Section(section) => Some(section),
            _ => None,
        }
    }

    /// Checks whether the header is a DOS header.
    pub fn is_dos(&self) -> (is_dos: bool)
        ensures
            is_dos == self is Dos,
    {
        matches!(self, Header::Dos(_))
    }

    /// Checks whether the header is a COFF header.
    pub fn is_coff(&self) -> (is_coff: bool)
        ensures
            is_coff == self is Coff,
    {
        matches!(self, Header::Coff(_))
    }

    /// Checks whether the header is the PE signature.
    pub fn is_signature(&self) -> (is_signature: bool)
        ensures
            is_signature == self is Signature,
    {
        matches!(self, Header::Signature)
    }

    /// Checks whether the header is an Optional header.
    pub fn is_optional(&self) -> (is_optional: bool)
        ensures
            is_optional == self is Optional,
    {
        matches!(self, Header::Optional(_))
    }

    /// Checks whether the header is a Section header.
    pub fn is_section(&self) -> (is_section: bool)
        ensures
            is_section == self is Section,
    {
        matches!(self, Header::Section(_))
    }

    /// Checks whether the header is padding.
    pub fn is_padding(&self) -> (is_padding: bool)
        ensures
            is_padding == self is Padding,
    {
        matches!(self, Header::Padding(_))
    }

    /// Gets the size of the header, in bytes.
    pub fn size(&self) -> (size: u64)
        ensures
            size == self.spec_size(),
    {
        match self {
            Header::Dos(_) => 64,
            Header::Signature => 4,
            Header::Coff(_) => 20,
            Header::Optional(optional) => optional.size().get(),
            Header::Section(_) => 40,
            Header::Padding(padding) => padding.size().get(),
        }
    }

    /// Gets the number of bytes that have been identified: all of them.
    pub fn identified(&self) -> (count: u64)
        ensures
            count == self.spec_size(),
    {
        self.size()
    }
}

} // verus!
