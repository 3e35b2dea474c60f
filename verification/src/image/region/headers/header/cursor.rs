//! A cursor over a single header.

use vstd::prelude::*;

use crate::image::region::headers::PE_SIGNATURE;
use crate::image::Padding;
use crate::memory::cursor::{all_within, views, Cursor, CursorError, Inspection, InspectionView, Position, SimpleCursor};
use crate::memory::{Address, AddressSpace, Size};
use crate::wire::{le_bytes, lemma_le_bytes_len, write_field};

use super::coff::cursor::{cursor_records as coff_records, CoffHeaderCursor};
use super::coff::field::Field as CoffField;
use super::dos::cursor::{cursor_records as dos_records, DosHeaderCursor};
use super::dos::field::Field as DosField;
use super::optional::cursor::{optional_part, optional_records, OptionalHeaderCursor};
use super::section::cursor::{cursor_records as section_records, SectionHeaderCursor};
use super::section::encode_section_header;
use super::section::field::Field as SectionField;
use super::Header;

verus! {

/// The start and the width of the part of a header that holds the byte at
/// `pos`: a field, or the whole of the signature or of the padding.
pub open spec fn header_part(h: Header, pos: nat) -> (nat, nat) {
    match h {
        Header::Dos(_) => {
            let f = DosField::spec_at(pos as u32)->Some_0;
            (f.spec_offset() as nat, f.spec_width() as nat)
        },
        Header::Signature => (0, 4),
        Header::Coff(_) => {
            let f = CoffField::spec_at(pos as u32)->Some_0;
            (f.spec_offset() as nat, f.spec_width() as nat)
        },
        Header::Optional(_) => optional_part(pos),
        Header::Section(_) => {
            let f = SectionField::spec_at(pos as u32)->Some_0;
            (f.spec_offset() as nat, f.spec_width() as nat)
        },
        Header::Padding(p) => (0, p.spec_size() as nat),
    }
}

/// What a cursor over the header `h` at `pos` shows: what the cursor over
/// its kind of header shows; the whole of the signature or of the padding
/// short of its end.
pub open spec fn header_records(h: Header, pos: nat) -> Seq<InspectionView> {
    match h {
        Header::Dos(d) => dos_records(pos, d.spec_encode()),
        Header::Coff(c) => coff_records(pos, c.spec_encode()),
        Header::Optional(o) => optional_records(o@, pos),
        Header::Section(sh) => section_records(pos, encode_section_header(sh@)),
        Header::Signature => if pos < 4 {
            seq![InspectionView { start: 0, size: 4, name: "Signature"@, bytes: h.spec_encode() }]
        } else {
            Seq::empty()
        },
        Header::Padding(p) => if pos < p.spec_size() {
            seq![InspectionView { start: 0, size: p.spec_size() as nat, name: "Padding"@, bytes: p.spec_encode() }]
        } else {
            Seq::empty()
        },
    }
}

/// A cursor over a single header.
#[derive(Clone, Copy, Debug)]
pub enum HeaderCursor<'a> {
    Dos(DosHeaderCursor<'a>),
    Signature(SimpleCursor),
    Coff(CoffHeaderCursor<'a>),
    Optional(OptionalHeaderCursor<'a>),
    Section(SectionHeaderCursor<'a>),
    Padding(&'a Padding, SimpleCursor),
}

impl<'a> HeaderCursor<'a> {
    /// The header the cursor is over.
    pub open spec fn spec_header(&self) -> Header {
        match self {
            HeaderCursor::Dos(c) => Header::Dos(c.spec_header()),
            HeaderCursor::Signature(_) => Header::Signature,
            HeaderCursor::Coff(c) => Header::Coff(c.spec_header()),
            HeaderCursor::Optional(c) => Header::Optional(c.spec_header()),
            HeaderCursor::Section(c) => Header::Section(c.spec_header()),
            HeaderCursor::Padding(p, _) => Header::Padding(**p),
        }
    }

    /// Setting the position keeps the header.
    pub proof fn lemma_header_at(&self, pos: nat)
        ensures
            self.spec_at(pos).spec_header() == self.spec_header(),
    {
        match self {
            HeaderCursor::Dos(c) => c.lemma_target_at(pos),
            HeaderCursor::Signature(_) => {},
            HeaderCursor::Coff(c) => c.lemma_target_at(pos),
            HeaderCursor::Optional(c) => c.lemma_target_at(pos),
            HeaderCursor::Section(c) => c.lemma_target_at(pos),
            HeaderCursor::Padding(_, _) => {},
        }
    }

    /// Constructs a new header cursor.
    pub fn new(header: &'a Header) -> (cursor: Self)
        requires
            header matches Header::Optional(o) ==> o.wf(),
        ensures
            cursor.inv(),
            cursor.spec_position() == 0,
            cursor.spec_header() == *header,
            cursor.spec_size() == header.spec_size(),
    {
        match header {
            Header::Dos(dos) => {
                proof {
                    DosHeaderCursor::lemma_new(dos);
                }
                HeaderCursor::Dos(dos.cursor())
            },
            Header::Signature => HeaderCursor::Signature(SimpleCursor::new(Size::new_valid(4))),
            Header::Coff(coff) => {
                proof {
                    CoffHeaderCursor::lemma_new(coff);
                }
                HeaderCursor::Coff(coff.cursor())
            },
            Header::Optional(optional) => {
                let cursor = optional.cursor();
                proof {
                    cursor.lemma_size();
                    cursor.lemma_size_is();
                }
                HeaderCursor::Optional(cursor)
            },
            Header::Section(section) => {
                proof {
                    SectionHeaderCursor::lemma_new(section);
                }
                HeaderCursor::Section(section.cursor())
            },
            Header::Padding(padding) => HeaderCursor::Padding(padding, padding.cursor()),
        }
    }

    /// Gets the header cursor as a DOS header cursor.
    pub fn as_dos(&self) -> (cursor: Option<&DosHeaderCursor<'a>>)
        ensures
            self matches HeaderCursor::Dos(c) ==> cursor == Some(c),
            !(self is Dos) ==> cursor is None,
    {
        match self {
            HeaderCursor::Dos(cursor) => Some(cursor),
            _ => None,
        }
    }

    /// Gets the header cursor as a signature cursor.
    pub fn as_signature(&self) -> (cursor: Option<&SimpleCursor>)
        ensures
            self matches HeaderCursor::Signature(c) ==> cursor == Some(c),
            !(self is Signature) ==> cursor is None,
    {
        match self {
            HeaderCursor::Signature(cursor) => Some(cursor),
            _ => None,
        }
    }

    /// Gets the header cursor as a COFF header cursor.
    pub fn as_coff(&self) -> (cursor: Option<&CoffHeaderCursor<'a>>)
        ensures
            self matches HeaderCursor::Coff(c) ==> cursor == Some(c),
            !(self is Coff) ==> cursor is None,
    {
        match self {
            HeaderCursor::Coff(cursor) => Some(cursor),
            _ => None,
        }
    }

    /// Gets the header cursor as an Optional header cursor.
    pub fn as_optional(&self) -> (cursor: Option<&OptionalHeaderCursor<'a>>)
        ensures
            self matches HeaderCursor::Optional(c) ==> cursor == Some(c),
            !(self is Optional) ==> cursor is None,
    {
        match self {
            HeaderCursor::Optional(cursor) => Some(cursor),
            _ => None,
        }
    }

    /// Gets the header cursor as a section header cursor.
    pub fn as_section(&self) -> (cursor: Option<&SectionHeaderCursor<'a>>)
        ensures
            self matches HeaderCursor::Section(c) ==> cursor == Some(c),
            !(self is Section) ==> cursor is None,
    {
        match self {
            HeaderCursor::Section(cursor) => Some(cursor),
            _ => None,
        }
    }

    /// Gets the header cursor as a padding cursor.
    pub fn as_padding(&self) -> (cursor: Option<&SimpleCursor>)
        ensures
            self matches HeaderCursor::Padding(_, c) ==> cursor == Some(c),
            !(self is Padding) ==> cursor is None,
    {
        match self {
            HeaderCursor::Padding(_, cursor) => Some(cursor),
            _ => None,
        }
    }

    /// Gets what this cursor shows: what the cursor over the kind of header
    /// it is shows; the whole of the signature or of the padding, short of
    /// its end.
    pub fn inspect(&self) -> (inspection: Vec<Inspection>)
        requires
            self.inv(),
        ensures
            views(inspection@) == header_records(self.spec_header(), self.spec_position()),
            all_within(views(inspection@), self.spec_size()),
    {
        match self {
            HeaderCursor::Dos(c) => c.inspect(),
            HeaderCursor::Signature(c) => {
                let mut records: Vec<Inspection> = Vec::new();
                if c.position().get() < 4 {
                    let mut bytes: Vec<u8> = Vec::new();
                    write_field(&mut bytes, PE_SIGNATURE, 4);
                    proof {
                        lemma_le_bytes_len(PE_SIGNATURE as nat, 4);
                        assert(bytes@ =~= le_bytes(PE_SIGNATURE as nat, 4));
                    }
                    let space = AddressSpace::new_valid(Address::new(0), Size::new_valid(4));
                    records.push(Inspection { space, name: "Signature", bytes });
                }
                proof {
                    assert(views(records@) =~= header_records(self.spec_header(), self.spec_position()));
                }
                records
            },
            HeaderCursor::Coff(c) => c.inspect(),
            HeaderCursor::Optional(c) => {
                proof {
                    c.lemma_size_is();
                }
                c.inspect()
            },
            HeaderCursor::Section(c) => c.inspect(),
            HeaderCursor::Padding(p, c) => {
                let mut records: Vec<Inspection> = Vec::new();
                if c.position().get() < p.size().get() {
                    records.push(p.inspect());
                }
                proof {
                    assert(views(records@) =~= header_records(self.spec_header(), self.spec_position()));
                }
                records
            },
        }
    }
}

impl Padding {
    /// Gets the whole of the padding as an inspection: where it lies, its
    /// name and its bytes.
    pub fn inspect(&self) -> (inspection: Inspection)
        ensures
            inspection@ == (InspectionView { start: 0, size: self.spec_size() as nat, name: "Padding"@, bytes: self.spec_encode() }),
    {
        let mut bytes: Vec<u8> = Vec::new();
        self.encode(&mut bytes);
        Inspection { space: self.address_space(), name: "Padding", bytes }
    }

    /// Gets a cursor at the start of the padding, taken as a whole.
    pub fn cursor(&self) -> (cursor: SimpleCursor)
        ensures
            cursor.inv(),
            cursor.spec_size() == self.spec_size(),
            cursor.spec_position() == 0,
    {
        SimpleCursor::new(self.size())
    }
}

impl<'a> Cursor for HeaderCursor<'a> {
    open spec fn inv(&self) -> bool {
        match self {
            HeaderCursor::Dos(c) => c.inv(),
            HeaderCursor::Signature(c) => c.inv() && c.spec_size() == 4,
            HeaderCursor::Coff(c) => c.inv(),
            HeaderCursor::Optional(c) => c.inv(),
            HeaderCursor::Section(c) => c.inv(),
            HeaderCursor::Padding(p, c) => c.inv() && c.spec_size() == p.spec_size(),
        }
    }

    open spec fn spec_size(&self) -> nat {
        match self {
            HeaderCursor::Dos(c) => c.spec_size(),
            HeaderCursor::Signature(c) => c.spec_size(),
            HeaderCursor::Coff(c) => c.spec_size(),
            HeaderCursor::Optional(c) => c.spec_size(),
            HeaderCursor::Section(c) => c.spec_size(),
            HeaderCursor::Padding(_, c) => c.spec_size(),
        }
    }

    open spec fn spec_position(&self) -> nat {
        match self {
            HeaderCursor::Dos(c) => c.spec_position(),
            HeaderCursor::Signature(c) => c.spec_position(),
            HeaderCursor::Coff(c) => c.spec_position(),
            HeaderCursor::Optional(c) => c.spec_position(),
            HeaderCursor::Section(c) => c.spec_position(),
            HeaderCursor::Padding(_, c) => c.spec_position(),
        }
    }

    open spec fn spec_at(&self, pos: nat) -> Self {
        match self {
            HeaderCursor::Dos(c) => HeaderCursor::Dos(c.spec_at(pos)),
            HeaderCursor::Signature(c) => HeaderCursor::Signature(c.spec_at(pos)),
            HeaderCursor::Coff(c) => HeaderCursor::Coff(c.spec_at(pos)),
            HeaderCursor::Optional(c) => HeaderCursor::Optional(c.spec_at(pos)),
            HeaderCursor::Section(c) => HeaderCursor::Section(c.spec_at(pos)),
            HeaderCursor::Padding(p, c) => HeaderCursor::Padding(*p, c.spec_at(pos)),
        }
    }

    open spec fn next_stop(&self, pos: nat) -> nat {
        match self {
            HeaderCursor::Dos(c) => c.next_stop(pos),
            HeaderCursor::Signature(c) => c.next_stop(pos),
            HeaderCursor::Coff(c) => c.next_stop(pos),
            HeaderCursor::Optional(c) => c.next_stop(pos),
            HeaderCursor::Section(c) => c.next_stop(pos),
            HeaderCursor::Padding(_, c) => c.next_stop(pos),
        }
    }

    open spec fn step_stop(&self, pos: nat) -> nat {
        match self {
            HeaderCursor::Dos(c) => c.step_stop(pos),
            HeaderCursor::Signature(c) => c.step_stop(pos),
            HeaderCursor::Coff(c) => c.step_stop(pos),
            HeaderCursor::Optional(c) => c.step_stop(pos),
            HeaderCursor::Section(c) => c.step_stop(pos),
            HeaderCursor::Padding(_, c) => c.step_stop(pos),
        }
    }

    proof fn lemma_size(&self) {
        match self {
            HeaderCursor::Dos(c) => c.lemma_size(),
            HeaderCursor::Signature(c) => c.lemma_size(),
            HeaderCursor::Coff(c) => c.lemma_size(),
            HeaderCursor::Optional(c) => c.lemma_size(),
            HeaderCursor::Section(c) => c.lemma_size(),
            HeaderCursor::Padding(_, c) => c.lemma_size(),
        }
    }

    proof fn lemma_at(&self, pos: nat, q: nat) {
        match self {
            HeaderCursor::Dos(c) => c.lemma_at(pos, q),
            HeaderCursor::Signature(c) => c.lemma_at(pos, q),
            HeaderCursor::Coff(c) => c.lemma_at(pos, q),
            HeaderCursor::Optional(c) => c.lemma_at(pos, q),
            HeaderCursor::Section(c) => c.lemma_at(pos, q),
            HeaderCursor::Padding(_, c) => c.lemma_at(pos, q),
        }
    }

    proof fn lemma_stops(&self, pos: nat) {
        match self {
            HeaderCursor::Dos(c) => c.lemma_stops(pos),
            HeaderCursor::Signature(c) => c.lemma_stops(pos),
            HeaderCursor::Coff(c) => c.lemma_stops(pos),
            HeaderCursor::Optional(c) => c.lemma_stops(pos),
            HeaderCursor::Section(c) => c.lemma_stops(pos),
            HeaderCursor::Padding(_, c) => c.lemma_stops(pos),
        }
    }

    fn position(&self) -> (position: Position) {
        match self {
            HeaderCursor::Dos(c) => c.position(),
            HeaderCursor::Signature(c) => c.position(),
            HeaderCursor::Coff(c) => c.position(),
            HeaderCursor::Optional(c) => c.position(),
            HeaderCursor::Section(c) => c.position(),
            HeaderCursor::Padding(_, c) => c.position(),
        }
    }

    fn seek(&mut self, position: Position) -> (result: Result<(), CursorError>) {
        match self {
            HeaderCursor::Dos(c) => c.seek(position),
            HeaderCursor::Signature(c) => c.seek(position),
            HeaderCursor::Coff(c) => c.seek(position),
            HeaderCursor::Optional(c) => c.seek(position),
            HeaderCursor::Section(c) => c.seek(position),
            HeaderCursor::Padding(_, c) => c.seek(position),
        }
    }

    fn next(&mut self) -> (result: Result<Option<Position>, CursorError>) {
        match self {
            HeaderCursor::Dos(c) => c.next(),
            HeaderCursor::Signature(c) => c.next(),
            HeaderCursor::Coff(c) => c.next(),
            HeaderCursor::Optional(c) => c.next(),
            HeaderCursor::Section(c) => c.next(),
            HeaderCursor::Padding(_, c) => c.next(),
        }
    }

    fn step(&mut self) -> (result: Result<Option<Position>, CursorError>) {
        match self {
            HeaderCursor::Dos(c) => c.step(),
            HeaderCursor::Signature(c) => c.step(),
            HeaderCursor::Coff(c) => c.step(),
            HeaderCursor::Optional(c) => c.step(),
            HeaderCursor::Section(c) => c.step(),
            HeaderCursor::Padding(_, c) => c.step(),
        }
    }
}

} // verus!
