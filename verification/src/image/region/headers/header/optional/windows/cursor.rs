//! A cursor over the fields of the Windows fields of an Optional header.

use vstd::prelude::*;

use crate::memory::cursor::{all_within, copy_range, views, Cursor, CursorError, Inspection, InspectionView, Position};
use crate::memory::{Address, AddressSpace, Size};

use super::field::Field;
use super::WindowsFields;

verus! {

/// The size of the Windows fields of an Optional header, in bytes.
const SIZE: u64 = 68;

/// The end of the field that holds the byte at `pos`; the end of the
/// structure past its last field.
pub open spec fn field_end(pos: nat) -> nat {
    match Field::spec_at(pos as u32) {
        Some(f) => (f.spec_offset() + f.spec_width()) as nat,
        None => 68,
    }
}

/// The record of the field that holds the byte at `pos` of the bytes
/// `encoded`; none past the last field.
pub open spec fn field_records(pos: nat, encoded: Seq<u8>) -> Seq<InspectionView> {
    match Field::spec_at(pos as u32) {
        Some(f) => seq![InspectionView {
            start: f.spec_offset() as nat,
            size: f.spec_width() as nat,
            name: f.spec_name(),
            bytes: encoded.subrange(f.spec_offset() as int, f.spec_offset() + f.spec_width()),
        }],
        None => Seq::empty(),
    }
}

/// What a cursor at `pos` shows: the whole structure, then the field
/// there.
pub open spec fn cursor_records(pos: nat, encoded: Seq<u8>) -> Seq<InspectionView> {
    seq![InspectionView { start: 0, size: 68, name: "Windows Fields"@, bytes: encoded }] + field_records(pos, encoded)
}

/// A cursor over the fields of the Windows fields of an Optional header.
#[derive(Clone, Copy, Debug)]
pub struct WindowsFieldsCursor<'a> {
    fields: &'a WindowsFields,
    position: u64,
}

impl<'a> WindowsFieldsCursor<'a> {
    /// The cursor at the start of the given structure.
    pub closed spec fn spec_new(fields: &'a WindowsFields) -> Self {
        WindowsFieldsCursor { fields, position: 0 }
    }

    /// The structure the cursor is over.
    pub closed spec fn spec_fields(&self) -> WindowsFields {
        *self.fields
    }

    /// A new cursor is at the start of its structure.
    pub proof fn lemma_new(fields: &'a WindowsFields)
        ensures
            Self::spec_new(fields).inv(),
            Self::spec_new(fields).spec_position() == 0,
            Self::spec_new(fields).spec_fields() == *fields,
            forall|pos: nat| #[trigger] Self::spec_new(fields).spec_at(pos).spec_fields() == *fields,
    {
    }

    /// Setting the position keeps the structure.
    pub proof fn lemma_target_at(&self, pos: nat)
        ensures
            self.spec_at(pos).spec_fields() == self.spec_fields(),
    {
    }

    /// Constructs a new cursor at the start of the structure.
    pub fn new(fields: &'a WindowsFields) -> (cursor: Self)
        ensures
            cursor == Self::spec_new(fields),
    {
        WindowsFieldsCursor { fields, position: 0 }
    }

    /// Gets the structure that this cursor is over.
    pub fn fields(&self) -> (fields: &'a WindowsFields)
        ensures
            *fields == self.spec_fields(),
    {
        self.fields
    }

    /// Gets the field that this cursor is at.
    pub fn field(&self) -> (field: Option<Field>)
        requires
            self.inv(),
        ensures
            field == Field::spec_at(self.spec_position() as u32),
    {
        Field::at(self.position as u32)
    }

    /// Gets what this cursor shows: the whole structure, then the field it
    /// is at, where each lies in the structure, its name and its bytes.
    pub fn inspect(&self) -> (inspection: Vec<Inspection>)
        requires
            self.inv(),
        ensures
            views(inspection@) == cursor_records(self.spec_position(), self.spec_fields().spec_encode()),
            all_within(views(inspection@), 68),
    {
        let mut bytes: Vec<u8> = Vec::new();
        self.fields.encode(&mut bytes);
        proof {
            super::lemma_encode_len(*self.fields);
        }
        let mut records: Vec<Inspection> = Vec::new();
        match self.field() {
            Some(field) => {
                proof {
                    assert(field.spec_offset() + field.spec_width() <= SIZE);
                }
                let space = field.address_space();
                let start = space.address().value() as usize;
                let end = start + space.size().get() as usize;
                records.push(Inspection { space, name: field.name(), bytes: copy_range(bytes.as_slice(), start, end) });
            },
            None => {},
        }
        records.insert(0, self.fields.inspect());
        proof {
            assert(views(records@) =~= cursor_records(self.spec_position(), self.spec_fields().spec_encode()));
        }
        records
    }
}

impl WindowsFields {
    /// Gets the whole of the structure as an inspection: where it lies, its
    /// name and its bytes.
    pub fn inspect(&self) -> (inspection: Inspection)
        ensures
            inspection@ == (InspectionView { start: 0, size: 68, name: "Windows Fields"@, bytes: self.spec_encode() }),
    {
        let mut bytes: Vec<u8> = Vec::new();
        self.encode(&mut bytes);
        proof {
            super::lemma_encode_len(*self);
            assert(bytes@ =~= self.spec_encode());
        }
        let space = AddressSpace::new_valid(Address::new(0), Size::new_valid(SIZE));
        Inspection { space, name: "Windows Fields", bytes }
    }

    /// Gets a cursor at the start of the fields.
    pub fn cursor(&self) -> (cursor: WindowsFieldsCursor<'_>)
        ensures
            cursor == WindowsFieldsCursor::spec_new(self),
    {
        WindowsFieldsCursor::new(self)
    }
}

impl<'a> Cursor for WindowsFieldsCursor<'a> {
    closed spec fn inv(&self) -> bool {
        self.position <= SIZE
    }

    open spec fn spec_size(&self) -> nat {
        68
    }

    closed spec fn spec_position(&self) -> nat {
        self.position as nat
    }

    closed spec fn spec_at(&self, pos: nat) -> Self {
        WindowsFieldsCursor { fields: self.fields, position: pos as u64 }
    }

    /// Moving goes to the end of the field.
    open spec fn next_stop(&self, pos: nat) -> nat {
        field_end(pos)
    }

    /// Stepping goes to the end of the field.
    open spec fn step_stop(&self, pos: nat) -> nat {
        field_end(pos)
    }

    proof fn lemma_size(&self) {
    }

    proof fn lemma_at(&self, pos: nat, q: nat) {
    }

    proof fn lemma_stops(&self, pos: nat) {
    }

    fn position(&self) -> (position: Position) {
        Position(self.position)
    }

    fn seek(&mut self, position: Position) -> (result: Result<(), CursorError>) {
        if position.0 > SIZE {
            return Err(CursorError::OutOfBounds(position, SIZE));
        }
        self.position = position.0;
        Ok(())
    }

    fn next(&mut self) -> (result: Result<Option<Position>, CursorError>) {
        if self.position == SIZE {
            return Ok(None);
        }
        let field = Field::at(self.position as u32).unwrap();
        let space = field.address_space();
        let end = space.address().value() as u64 + space.size().get();
        self.position = end;
        if end == SIZE {
            Ok(None)
        } else {
            Ok(Some(Position(end)))
        }
    }

    fn step(&mut self) -> (result: Result<Option<Position>, CursorError>) {
        self.next()
    }
}

} // verus!
