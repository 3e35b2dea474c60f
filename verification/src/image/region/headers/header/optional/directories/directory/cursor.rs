//! A cursor over the fields of a data directory.

use vstd::prelude::*;

use crate::memory::cursor::{all_within, copy_range, views, Cursor, CursorError, Inspection, InspectionView, Position};
use crate::memory::{Address, AddressSpace, Size};

use super::field::Field;
use super::DataDirectory;

verus! {

/// The size of a data directory, in bytes.
const SIZE: u64 = 8;

/// The end of the field that holds the byte at `pos`; the end of the
/// structure past its last field.
pub open spec fn field_end(pos: nat) -> nat {
    match Field::spec_at(pos as u32) {
        Some(f) => (f.spec_offset() + f.spec_width()) as nat,
        None => 8,
    }
}

/// The record of the field that holds the byte at `pos` of the bytes
/// `encoded`; none past the last field.
pub open spec fn field_records(pos: nat, encoded: Seq<u8>) -> Seq<InspectionView> {
    match Field::spec_at(pos as u32) {
        Some(f) => seq![InspectionView {
            start: f.spec_offset() as nat,
            size: f.spec_width() as nat,
            name: f.spec_name(),
            bytes: encoded.subrange(f.spec_offset() as int, f.spec_offset() + f.spec_width()),
        }],
        None => Seq::empty(),
    }
}

/// What a cursor at `pos` shows: the field there.
pub open spec fn cursor_records(pos: nat, encoded: Seq<u8>) -> Seq<InspectionView> {
    field_records(pos, encoded)
}

/// A cursor over the fields of a data directory.
#[derive(Clone, Copy, Debug)]
pub struct DataDirectoryCursor<'a> {
    directory: &'a DataDirectory,
    position: u64,
}

impl<'a> DataDirectoryCursor<'a> {
    /// The cursor at the start of the given structure.
    pub closed spec fn spec_new(directory: &'a DataDirectory) -> Self {
        DataDirectoryCursor { directory, position: 0 }
    }

    /// The structure the cursor is over.
    pub closed spec fn spec_directory(&self) -> DataDirectory {
        *self.directory
    }

    /// A new cursor is at the start of its structure.
    pub proof fn lemma_new(directory: &'a DataDirectory)
        ensures
            Self::spec_new(directory).inv(),
            Self::spec_new(directory).spec_position() == 0,
            Self::spec_new(directory).spec_directory() == *directory,
            forall|pos: nat| #[trigger] Self::spec_new(directory).spec_at(pos).spec_directory() == *directory,
    {
    }

    /// Setting the position keeps the structure.
    pub proof fn lemma_target_at(&self, pos: nat)
        ensures
            self.spec_at(pos).spec_directory() == self.spec_directory(),
    {
    }

    /// Constructs a new cursor at the start of the structure.
    pub fn new(directory: &'a DataDirectory) -> (cursor: Self)
        ensures
            cursor == Self::spec_new(directory),
    {
        DataDirectoryCursor { directory, position: 0 }
    }

    /// Gets the structure that this cursor is over.
    pub fn directory(&self) -> (directory: &'a DataDirectory)
        ensures
            *directory == self.spec_directory(),
    {
        self.directory
    }

    /// Gets the field that this cursor is at.
    pub fn field(&self) -> (field: Option<Field>)
        requires
            self.inv(),
        ensures
            field == Field::spec_at(self.spec_position() as u32),
    {
        Field::at(self.position as u32)
    }

    /// Gets what this cursor shows: the field it is at, where it lies in the
    /// structure, its name and its bytes.
    pub fn inspect(&self) -> (inspection: Vec<Inspection>)
        requires
            self.inv(),
        ensures
            views(inspection@) == cursor_records(self.spec_position(), self.spec_directory().spec_encode()),
            all_within(views(inspection@), 8),
    {
        let mut bytes: Vec<u8> = Vec::new();
        self.directory.encode(&mut bytes);
        proof {
            super::lemma_encode_len(*self.directory);
        }
        let mut records: Vec<Inspection> = Vec::new();
        match self.field() {
            Some(field) => {
                proof {
                    assert(field.spec_offset() + field.spec_width() <= SIZE);
                }
                let space = field.address_space();
                let start = space.address().value() as usize;
                let end = start + space.size().get() as usize;
                records.push(Inspection { space, name: field.name(), bytes: copy_range(bytes.as_slice(), start, end) });
            },
            None => {},
        }
        proof {
            assert(views(records@) =~= cursor_records(self.spec_position(), self.spec_directory().spec_encode()));
        }
        records
    }
}

impl DataDirectory {
    /// Gets the whole of the structure as an inspection: where it lies, its
    /// name and its bytes.
    pub fn inspect(&self) -> (inspection: Inspection)
        ensures
            inspection@ == (InspectionView { start: 0, size: 8, name: "Data Directory"@, bytes: self.spec_encode() }),
    {
        let mut bytes: Vec<u8> = Vec::new();
        self.encode(&mut bytes);
        proof {
            super::lemma_encode_len(*self);
            assert(bytes@ =~= self.spec_encode());
        }
        let space = AddressSpace::new_valid(Address::new(0), Size::new_valid(SIZE));
        Inspection { space, name: "Data Directory", bytes }
    }

    /// Gets a cursor at the start of the fields.
    pub fn cursor(&self) -> (cursor: DataDirectoryCursor<'_>)
        ensures
            cursor == DataDirectoryCursor::spec_new(self),
    {
        DataDirectoryCursor::new(self)
    }
}

impl<'a> Cursor for DataDirectoryCursor<'a> {
    closed spec fn inv(&self) -> bool {
        self.position <= SIZE
    }

    open spec fn spec_size(&self) -> nat {
        8
    }

    closed spec fn spec_position(&self) -> nat {
        self.position as nat
    }

    closed spec fn spec_at(&self, pos: nat) -> Self {
        DataDirectoryCursor { directory: self.directory, position: pos as u64 }
    }

    /// Moving goes to the end of the field.
    open spec fn next_stop(&self, pos: nat) -> nat {
        field_end(pos)
    }

    /// Stepping goes to the end of the field.
    open spec fn step_stop(&self, pos: nat) -> nat {
        field_end(pos)
    }

    proof fn lemma_size(&self) {
    }

    proof fn lemma_at(&self, pos: nat, q: nat) {
    }

    proof fn lemma_stops(&self, pos: nat) {
    }

    fn position(&self) -> (position: Position) {
        Position(self.position)
    }

    fn seek(&mut self, position: Position) -> (result: Result<(), CursorError>) {
        if position.0 > SIZE {
            return Err(CursorError::OutOfBounds(position, SIZE));
        }
        self.position = position.0;
        Ok(())
    }

    fn next(&mut self) -> (result: Result<Option<Position>, CursorError>) {
        if self.position == SIZE {
            return Ok(None);
        }
        let field = Field::at(self.position as u32).unwrap();
        let space = field.address_space();
        let end = space.address().value() as u64 + space.size().get();
        self.position = end;
        if end == SIZE {
            Ok(None)
        } else {
            Ok(Some(Position(end)))
        }
    }

    fn step(&mut self) -> (result: Result<Option<Position>, CursorError>) {
        self.next()
    }
}

} // verus!
