//! A cursor over an Optional header.

use vstd::prelude::*;

use crate::memory::cursor::{
    all_within, lemma_shift_within, moved_to, shift_all, shifted, views, Cursor, CursorError, Inspection, InspectionView, Position,
};
use crate::memory::{Address, AddressSpace, Size};

use super::directories::cursor::{cursor_records as directories_records, DataDirectoriesCursor};
use super::directories::directory::field::Field as DirectoryField;
use super::directories::{encode_entries, lemma_encode_entries_len};
use super::standard::cursor::{
    cursor_records as standard_records, field_end as standard_end, StandardFieldsCursor,
};
use super::standard::field::Field as StandardField;
use super::windows::cursor::{cursor_records as windows_records, field_end as windows_end, WindowsFieldsCursor};
use super::windows::field::Field as WindowsField;
use super::{encode_optional, optional_size, OptionalHeader, OptionalHeaderView, DIRECTORIES_OFFSET, WINDOWS_OFFSET};

verus! {

/// Where moving goes from `pos` within an Optional header of `size` bytes:
/// to the start of the next of its parts (the standard fields, the Windows
/// fields, the data directories), or to its end.
pub open spec fn optional_next_stop(pos: nat, size: nat) -> nat {
    if pos < WINDOWS_OFFSET {
        WINDOWS_OFFSET as nat
    } else if pos < DIRECTORIES_OFFSET {
        DIRECTORIES_OFFSET as nat
    } else {
        size
    }
}

/// Where stepping goes from `pos` within an Optional header: to the end of
/// the field that holds it.
pub open spec fn optional_step_stop(pos: nat) -> nat {
    if pos < WINDOWS_OFFSET {
        standard_end(pos)
    } else if pos < DIRECTORIES_OFFSET {
        (WINDOWS_OFFSET + windows_end((pos - WINDOWS_OFFSET) as nat)) as nat
    } else {
        (pos - pos % 4 + 4) as nat
    }
}

/// The start and the width of the field that holds the byte at `pos` in an
/// Optional header.
pub open spec fn optional_part(pos: nat) -> (nat, nat) {
    if pos < WINDOWS_OFFSET {
        let f = StandardField::spec_at(pos as u32)->Some_0;
        (f.spec_offset() as nat, f.spec_width() as nat)
    } else if pos < DIRECTORIES_OFFSET {
        let f = WindowsField::spec_at((pos - WINDOWS_OFFSET) as u32)->Some_0;
        ((WINDOWS_OFFSET + f.spec_offset()) as nat, f.spec_width() as nat)
    } else {
        ((pos - pos % 4) as nat, 4)
    }
}

/// What a cursor over the Optional header `h` at `pos` shows: what the
/// cursor over the part there shows, placed within the header.
pub open spec fn optional_records(h: OptionalHeaderView, pos: nat) -> Seq<InspectionView> {
    if pos < WINDOWS_OFFSET {
        standard_records(pos, h.0.spec_encode())
    } else if pos < DIRECTORIES_OFFSET || h.2 is None {
        shifted(windows_records((pos - WINDOWS_OFFSET) as nat, h.1.spec_encode()), WINDOWS_OFFSET as nat)
    } else {
        shifted(directories_records(h.2->Some_0, (pos - DIRECTORIES_OFFSET) as nat), DIRECTORIES_OFFSET as nat)
    }
}

/// The inner cursor over the part of an Optional header it is at.
#[derive(Clone, Copy, Debug)]
enum FieldsCursor<'a> {
    Standard(StandardFieldsCursor<'a>),
    Windows(WindowsFieldsCursor<'a>),
    Directories(DataDirectoriesCursor<'a>),
}

impl<'a> FieldsCursor<'a> {
    /// The offset of the part within the Optional header.
    spec fn spec_offset(self) -> nat {
        match self {
            FieldsCursor::Standard(_) => 0,
            FieldsCursor::Windows(_) => WINDOWS_OFFSET as nat,
            FieldsCursor::Directories(_) => DIRECTORIES_OFFSET as nat,
        }
    }

    /// The position of the inner cursor within its part.
    spec fn spec_local(self) -> nat {
        match self {
            FieldsCursor::Standard(c) => c.spec_position(),
            FieldsCursor::Windows(c) => c.spec_position(),
            FieldsCursor::Directories(c) => c.spec_position(),
        }
    }

    /// The size of the part.
    spec fn spec_part_size(self) -> nat {
        match self {
            FieldsCursor::Standard(c) => c.spec_size(),
            FieldsCursor::Windows(c) => c.spec_size(),
            FieldsCursor::Directories(c) => c.spec_size(),
        }
    }

    /// Gets the offset of the cursor within the Optional header.
    fn offset(&self) -> (offset: u32)
        ensures
            offset == self.spec_offset(),
    {
        match self {
            FieldsCursor::Standard(_) => 0,
            FieldsCursor::Windows(_) => WINDOWS_OFFSET,
            FieldsCursor::Directories(_) => DIRECTORIES_OFFSET,
        }
    }
}

/// A cursor over an Optional header.
#[derive(Clone, Copy, Debug)]
pub struct OptionalHeaderCursor<'a> {
    header: &'a OptionalHeader,
    cursor: FieldsCursor<'a>,
}

impl<'a> OptionalHeaderCursor<'a> {
    /// The Optional header the cursor is over.
    pub closed spec fn spec_header(&self) -> OptionalHeader {
        *self.header
    }

    /// The cursor at the start of the given header.
    pub closed spec fn spec_new(header: &'a OptionalHeader) -> Self {
        OptionalHeaderCursor { header, cursor: FieldsCursor::Standard(StandardFieldsCursor::spec_new(&header.standard)) }
    }

    /// The inner cursor for the given position.
    closed spec fn component_at(&self, pos: nat) -> FieldsCursor<'a> {
        let size = optional_size(self.header@);
        if pos == size {
            match self.header.data_directories {
                Some(d) => FieldsCursor::Directories(
                    DataDirectoriesCursor::spec_new(&d).spec_at((pos - DIRECTORIES_OFFSET) as nat),
                ),
                None => FieldsCursor::Windows(
                    WindowsFieldsCursor::spec_new(&self.header.windows).spec_at((pos - WINDOWS_OFFSET) as nat),
                ),
            }
        } else if pos < WINDOWS_OFFSET {
            FieldsCursor::Standard(StandardFieldsCursor::spec_new(&self.header.standard).spec_at(pos))
        } else if pos < DIRECTORIES_OFFSET {
            FieldsCursor::Windows(
                WindowsFieldsCursor::spec_new(&self.header.windows).spec_at((pos - WINDOWS_OFFSET) as nat),
            )
        } else {
            FieldsCursor::Directories(
                DataDirectoriesCursor::spec_new(&self.header.data_directories->Some_0).spec_at(
                    (pos - DIRECTORIES_OFFSET) as nat,
                ),
            )
        }
    }

    /// The inner cursor is a consistent cursor over a part of the header.
    closed spec fn weak(&self) -> bool {
        &&& self.header.wf()
        &&& match self.cursor {
            FieldsCursor::Standard(c) => c.inv() && c.spec_fields() == self.header.standard,
            FieldsCursor::Windows(c) => c.inv() && c.spec_fields() == self.header.windows,
            FieldsCursor::Directories(c) => c.inv() && self.header.data_directories == Some(
                c.spec_directories(),
            ),
        }
    }

    /// What well-formedness of the header gives of its parts.
    proof fn lemma_header(&self)
        requires
            self.header.wf(),
        ensures
            optional_size(self.header@) >= DIRECTORIES_OFFSET,
            self.header.data_directories is None ==> optional_size(self.header@) == DIRECTORIES_OFFSET,
            self.header.data_directories matches Some(d) ==> 1 <= d.spec_count() <= 16 && optional_size(
                self.header@,
            ) == DIRECTORIES_OFFSET + 8 * d.spec_count(),
    {
        match self.header.data_directories {
            Some(d) => d.lemma_wf(),
            None => {},
        }
    }

    /// A new cursor over a well-formed header is consistent, at its start.
    pub proof fn lemma_new(header: &'a OptionalHeader)
        requires
            header.wf(),
        ensures
            Self::spec_new(header).inv(),
            Self::spec_new(header).spec_position() == 0,
            Self::spec_new(header).spec_header() == *header,
    {
        let cursor = Self::spec_new(header);
        StandardFieldsCursor::lemma_new(&header.standard);
        cursor.lemma_header();
        StandardFieldsCursor::spec_new(&header.standard).lemma_size();
    }

    /// Setting the position keeps the header.
    pub proof fn lemma_target_at(&self, pos: nat)
        ensures
            self.spec_at(pos).spec_header() == self.spec_header(),
    {
    }

    /// The cursor is over the whole of the header.
    pub proof fn lemma_size_is(&self)
        ensures
            self.spec_size() == optional_size(self.spec_header()@),
    {
    }

    /// Constructs a new Optional header cursor.
    pub fn new(header: &'a OptionalHeader) -> (cursor: Self)
        requires
            header.wf(),
        ensures
            cursor == Self::spec_new(header),
            cursor.inv(),
            cursor.spec_header() == *header,
            cursor.spec_position() == 0,
    {
        let cursor = OptionalHeaderCursor { header, cursor: FieldsCursor::Standard(header.standard.cursor()) };
        proof {
            StandardFieldsCursor::lemma_new(&header.standard);
            cursor.lemma_header();
            let c = StandardFieldsCursor::spec_new(&header.standard);
            c.lemma_size();
        }
        cursor
    }

    /// Gets the Optional header that this cursor is over.
    pub fn header(&self) -> (header: &'a OptionalHeader)
        ensures
            *header == self.spec_header(),
    {
        self.header
    }

    /// Gets the position of the inner cursor within its part.
    fn inner_position(&self) -> (position: Position)
        requires
            self.weak(),
        ensures
            position.0 == self.cursor.spec_local(),
    {
        match &self.cursor {
            FieldsCursor::Standard(c) => c.position(),
            FieldsCursor::Windows(c) => c.position(),
            FieldsCursor::Directories(c) => c.position(),
        }
    }

    /// The inner cursor at the start of the part that holds the given position.
    closed spec fn fresh_component(&self, pos: nat) -> FieldsCursor<'a> {
        if pos < WINDOWS_OFFSET {
            FieldsCursor::Standard(StandardFieldsCursor::spec_new(&self.header.standard))
        } else if pos < DIRECTORIES_OFFSET {
            FieldsCursor::Windows(WindowsFieldsCursor::spec_new(&self.header.windows))
        } else {
            FieldsCursor::Directories(DataDirectoriesCursor::spec_new(&self.header.data_directories->Some_0))
        }
    }

    /// The end of the part that holds the given position, or of the last part.
    closed spec fn component_end(&self, pos: nat) -> nat {
        if pos < WINDOWS_OFFSET {
            WINDOWS_OFFSET as nat
        } else if pos < DIRECTORIES_OFFSET {
            DIRECTORIES_OFFSET as nat
        } else {
            optional_size(self.header@)
        }
    }

    /// The inner cursor for a position is a consistent cursor over the part
    /// that holds it, at the position within the part.
    proof fn lemma_component(&self, pos: nat)
        requires
            self.header.wf(),
            pos <= optional_size(self.header@),
        ensures
            ({
                let c = self.component_at(pos);
                &&& c.spec_offset() + c.spec_local() == pos
                &&& (OptionalHeaderCursor { header: self.header, cursor: c }).weak()
                &&& c.spec_local() <= c.spec_part_size()
                &&& c.spec_part_size() <= 128
                &&& pos < optional_size(self.header@) ==> c == self.fresh_component(pos).spec_with_local(
                    (pos - c.spec_offset()) as nat,
                ) && c.spec_offset() + c.spec_part_size() == self.component_end(pos)
                    && c.spec_offset() == self.fresh_component(pos).spec_offset()
                    && self.fresh_component(pos).spec_local() == 0
            }),
    {
        self.lemma_header();
        let size = optional_size(self.header@);
        StandardFieldsCursor::lemma_new(&self.header.standard);
        WindowsFieldsCursor::lemma_new(&self.header.windows);
        if pos < WINDOWS_OFFSET {
            StandardFieldsCursor::spec_new(&self.header.standard).lemma_at(pos, 0);
            StandardFieldsCursor::spec_new(&self.header.standard).lemma_size();
        } else if pos < DIRECTORIES_OFFSET || (pos == size && self.header.data_directories is None) {
            WindowsFieldsCursor::spec_new(&self.header.windows).lemma_at((pos - WINDOWS_OFFSET) as nat, 0);
            WindowsFieldsCursor::spec_new(&self.header.windows).lemma_size();
        } else {
            let d = self.header.data_directories->Some_0;
            DataDirectoriesCursor::lemma_new(&d);
            DataDirectoriesCursor::spec_new(&d).lemma_at((pos - DIRECTORIES_OFFSET) as nat, 0);
            DataDirectoriesCursor::spec_new(&d).lemma_size();
            DataDirectoriesCursor::spec_new(&d).spec_at((pos - DIRECTORIES_OFFSET) as nat).lemma_size_is();
        }
    }

    /// Sets the inner cursor based on the given position.
    fn set_cursor(&mut self, position: Position)
        requires
            old(self).header.wf(),
            position.0 < optional_size(old(self).header@),
        ensures
            final(self).header == old(self).header,
            final(self).cursor == old(self).fresh_component(position.0 as nat),
    {
        proof {
            self.lemma_header();
        }
        let offset = position.get_addressable().unwrap();
        self.cursor = if offset < WINDOWS_OFFSET {
            FieldsCursor::Standard(self.header.standard.cursor())
        } else if offset < DIRECTORIES_OFFSET {
            FieldsCursor::Windows(self.header.windows.cursor())
        } else {
            let directories = self.header.data_directories.as_ref().unwrap();
            FieldsCursor::Directories(directories.cursor())
        };
    }

    /// Gets the size of the part the inner cursor is over.
    fn current_size(&self) -> (size: Size)
        requires
            self.weak(),
        ensures
            size.spec_get() == self.cursor.spec_part_size(),
    {
        match &self.cursor {
            FieldsCursor::Standard(_) => Size::new_valid(28),
            FieldsCursor::Windows(_) => Size::new_valid(68),
            FieldsCursor::Directories(c) => {
                proof {
                    c.lemma_size_is();
                }
                c.directories().size()
            },
        }
    }

    /// Sets the position of the inner cursor within its part.
    fn inner_seek(&mut self, position: Position) -> (result: Result<(), CursorError>)
        requires
            old(self).weak(),
            position.0 <= old(self).cursor.spec_part_size(),
        ensures
            result is Ok,
            final(self).header == old(self).header,
            final(self).cursor == old(self).cursor.spec_with_local(position.0 as nat),
    {
        match &mut self.cursor {
            FieldsCursor::Standard(c) => c.seek(position),
            FieldsCursor::Windows(c) => c.seek(position),
            FieldsCursor::Directories(c) => c.seek(position),
        }
    }

    /// Sets the position of the cursor, from any consistent inner cursor.
    fn seek_to(&mut self, position: Position) -> (result: Result<(), CursorError>)
        requires
            old(self).header.wf(),
        ensures
            position.0 <= optional_size(old(self).header@) ==> result is Ok && *final(self) == (
            OptionalHeaderCursor { header: old(self).header, cursor: old(self).component_at(position.0 as nat) }),
            position.0 > optional_size(old(self).header@) ==> result == Err::<(), CursorError>(
                CursorError::OutOfBounds(position, optional_size(old(self).header@) as u64),
            ) && *final(self) == *old(self),
    {
        proof {
            self.lemma_header();
        }
        let size = self.header.size();
        if position.get() > size.get() {
            return Err(CursorError::OutOfBounds(position, size.get()));
        }
        proof {
            self.lemma_component(position.0 as nat);
        }
        if position == Position::from_size(size) {
            self.cursor = match self.header.data_directories.as_ref() {
                Some(directories) => FieldsCursor::Directories(directories.cursor()),
                None => FieldsCursor::Windows(self.header.windows.cursor()),
            };
            proof {
                StandardFieldsCursor::lemma_new(&self.header.standard);
                WindowsFieldsCursor::lemma_new(&self.header.windows);
                match self.header.data_directories {
                    Some(d) => DataDirectoriesCursor::lemma_new(&d),
                    None => {},
                }
            }
            let size = self.current_size();
            return self.inner_seek(Position::from_size(size));
        }
        self.set_cursor(position);
        proof {
            StandardFieldsCursor::lemma_new(&self.header.standard);
            WindowsFieldsCursor::lemma_new(&self.header.windows);
            match self.header.data_directories {
                Some(d) => DataDirectoriesCursor::lemma_new(&d),
                None => {},
            }
        }
        let local = Position(position.get() - self.cursor.offset() as u64);
        self.inner_seek(local)
    }

    /// Moves to the start of the part after the one the inner cursor is over.
    fn next_part(&mut self) -> (result: Result<Option<Position>, CursorError>)
        requires
            old(self).header.wf(),
        ensures
            ({
                let target = match old(self).cursor {
                    FieldsCursor::Standard(_) => WINDOWS_OFFSET as nat,
                    FieldsCursor::Windows(_) => DIRECTORIES_OFFSET as nat,
                    FieldsCursor::Directories(_) => optional_size(old(self).header@),
                };
                &&& *final(self) == (OptionalHeaderCursor {
                    header: old(self).header,
                    cursor: old(self).component_at(target),
                })
                &&& result == Ok::<Option<Position>, CursorError>(
                    moved_to(target, optional_size(old(self).header@)),
                )
            }),
    {
        proof {
            self.lemma_header();
        }
        let size = self.header.size();
        let position = match &self.cursor {
            FieldsCursor::Standard(_) => Position::new(WINDOWS_OFFSET),
            FieldsCursor::Windows(_) => match self.header.data_directories.as_ref() {
                Some(_) => Position::new(DIRECTORIES_OFFSET),
                None => Position::from_size(size),
            },
            FieldsCursor::Directories(_) => Position::from_size(size),
        };
        match self.seek_to(position) {
            Ok(()) => {},
            Err(e) => {
                return Err(e);
            },
        }
        if position == Position::from_size(size) {
            Ok(None)
        } else {
            Ok(Some(position))
        }
    }

    /// Gets what this cursor shows: what the cursor over the part of the
    /// header it is at shows, placed within the header.
    pub fn inspect(&self) -> (inspection: Vec<Inspection>)
        requires
            self.inv(),
        ensures
            views(inspection@) == optional_records(self.spec_header()@, self.spec_position()),
            all_within(views(inspection@), self.spec_size()),
    {
        proof {
            self.lemma_header();
            self.lemma_component(self.spec_position());
        }
        let ghost v = self.header@;
        match &self.cursor {
            FieldsCursor::Standard(c) => c.inspect(),
            FieldsCursor::Windows(c) => {
                let records = c.inspect();
                proof {
                    lemma_shift_within(views(records@), 68, WINDOWS_OFFSET as nat);
                }
                shift_all(records, WINDOWS_OFFSET)
            },
            FieldsCursor::Directories(c) => {
                let records = c.inspect();
                proof {
                    let d = self.header.data_directories->Some_0;
                    d.lemma_wf();
                    assert(v.2 == Some(d.spec_entries()));
                    c.lemma_size_is();
                    lemma_shift_within(views(records@), c.spec_size(), DIRECTORIES_OFFSET as nat);
                }
                shift_all(records, DIRECTORIES_OFFSET)
            },
        }
    }
}

impl<'a> FieldsCursor<'a> {
    /// The same inner cursor, at the given position within its part.
    spec fn spec_with_local(self, pos: nat) -> FieldsCursor<'a> {
        match self {
            FieldsCursor::Standard(c) => FieldsCursor::Standard(c.spec_at(pos)),
            FieldsCursor::Windows(c) => FieldsCursor::Windows(c.spec_at(pos)),
            FieldsCursor::Directories(c) => FieldsCursor::Directories(c.spec_at(pos)),
        }
    }
}

impl OptionalHeader {
    /// Gets a cursor at the start of the header.
    pub fn cursor(&self) -> (cursor: OptionalHeaderCursor<'_>)
        requires
            self.wf(),
        ensures
            cursor == OptionalHeaderCursor::spec_new(self),
            cursor.inv(),
            cursor.spec_header() == *self,
            cursor.spec_position() == 0,
    {
        OptionalHeaderCursor::new(self)
    }

    /// Gets the whole of the header as an inspection: where it lies, its
    /// name and its bytes.
    pub fn inspect(&self) -> (inspection: Inspection)
        ensures
            inspection@ == (InspectionView {
                start: 0,
                size: optional_size(self@),
                name: "Optional Header"@,
                bytes: encode_optional(self@),
            }),
    {
        let mut bytes: Vec<u8> = Vec::new();
        self.encode(&mut bytes);
        proof {
            assert(bytes@ =~= encode_optional(self@));
        }
        let size = self.size();
        let _ = size.get();
        Inspection { space: AddressSpace::new_valid(Address::new(0), size), name: "Optional Header", bytes }
    }
}

impl<'a> Cursor for OptionalHeaderCursor<'a> {
    closed spec fn inv(&self) -> bool {
        &&& self.header.wf()
        &&& self.spec_position() <= optional_size(self.header@)
        &&& *self == self.spec_at(self.spec_position())
    }

    closed spec fn spec_size(&self) -> nat {
        optional_size(self.header@)
    }

    closed spec fn spec_position(&self) -> nat {
        self.cursor.spec_offset() + self.cursor.spec_local()
    }

    closed spec fn spec_at(&self, pos: nat) -> Self {
        OptionalHeaderCursor { header: self.header, cursor: self.component_at(pos) }
    }

    /// Moving goes to the start of the next part of the header.
    open spec fn next_stop(&self, pos: nat) -> nat {
        optional_next_stop(pos, self.spec_size())
    }

    /// Stepping goes to the end of the field.
    open spec fn step_stop(&self, pos: nat) -> nat {
        optional_step_stop(pos)
    }

    proof fn lemma_size(&self) {
        self.lemma_header();
    }

    proof fn lemma_at(&self, pos: nat, q: nat) {
        self.lemma_component(pos);
    }

    proof fn lemma_stops(&self, pos: nat) {
        self.lemma_header();
        let size = optional_size(self.header@);
        if pos >= DIRECTORIES_OFFSET {
            let k = self.header.data_directories->Some_0.spec_count() as int;
            assert(pos - pos % 4 + 4 <= size) by (nonlinear_arith)
                requires
                    96 <= pos < 96 + 8 * k,
                    size == 96 + 8 * k,
            {
                assert((pos - 96) % 4 == pos % 4);
                assert((8 * k) % 4 == 0);
            }
        }
    }

    fn position(&self) -> (position: Position) {
        proof {
            self.lemma_component(self.spec_position());
        }
        let offset = self.cursor.offset() as u64;
        let position = self.inner_position();
        match position.get_addressable() {
            Some(p) => Position(offset + p as u64),
            None => {
                proof {
                    assert(false);
                }
                Position(offset + self.current_size().get())
            },
        }
    }

    fn seek(&mut self, position: Position) -> (result: Result<(), CursorError>) {
        self.seek_to(position)
    }

    fn next(&mut self) -> (result: Result<Option<Position>, CursorError>) {
        proof {
            self.lemma_header();
            self.lemma_component(self.spec_position());
        }
        let size = self.header.size();
        if self.position() == Position::from_size(size) {
            return Ok(None);
        }
        self.next_part()
    }

    fn step(&mut self) -> (result: Result<Option<Position>, CursorError>) {
        proof {
            self.lemma_header();
            self.lemma_component(self.spec_position());
        }
        let size = self.header.size();
        if self.position() == Position::from_size(size) {
            return Ok(None);
        }
        let ghost pos = self.spec_position();
        let ghost local = self.cursor.spec_local();
        let offset = self.cursor.offset();
        proof {
            let h = *self.header;
            StandardFieldsCursor::lemma_new(&h.standard);
            WindowsFieldsCursor::lemma_new(&h.windows);
            assert((pos - 96) % 4 == pos % 4);
            match self.cursor {
                FieldsCursor::Standard(c) => {
                    let stop = standard_end(local);
                    StandardFieldsCursor::spec_new(&h.standard).lemma_at(local, stop);
                    if stop < 28 {
                        self.lemma_component(stop);
                    }
                },
                FieldsCursor::Windows(c) => {
                    let stop = windows_end(local);
                    WindowsFieldsCursor::spec_new(&h.windows).lemma_at(local, stop);
                    if stop < 68 {
                        self.lemma_component(28 + stop);
                    }
                },
                FieldsCursor::Directories(c) => {
                    let d = h.data_directories->Some_0;
                    DataDirectoriesCursor::lemma_new(&d);
                    let stop = (local - local % 4 + 4) as nat;
                    DataDirectoriesCursor::spec_new(&d).lemma_at(local, stop);
                    DataDirectoriesCursor::spec_new(&d).lemma_stops(local);
                    if 96 + stop < optional_size(h@) {
                        self.lemma_component(96 + stop);
                    }
                },
            }
        }
        let stepped = match &mut self.cursor {
            FieldsCursor::Standard(c) => c.step(),
            FieldsCursor::Windows(c) => c.step(),
            FieldsCursor::Directories(c) => c.step(),
        };
        match stepped {
            Ok(Some(p)) => Ok(Some(Position(offset as u64 + p.0))),
            Ok(None) => self.next_part(),
            Err(e) => Err(e),
        }
    }
}

} // verus!
