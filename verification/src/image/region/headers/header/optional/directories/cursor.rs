//! A cursor over the data directories of an Optional header.

use vstd::prelude::*;

use crate::memory::cursor::{
    all_within, lemma_shift_within, shift_all, shifted, views, Cursor, CursorError, Inspection, InspectionView, Position,
};
use crate::memory::{Address, AddressSpace};

use super::directory::cursor::{field_records, DataDirectoryCursor};
use super::directory::field::Field;
use super::{encode_entries, DataDirectories, DataDirectory};

verus! {

/// What a cursor over the entries `entries` at `pos` shows: the whole
/// table, then the field of the entry there, placed among the entries.
pub open spec fn cursor_records(entries: Seq<DataDirectory>, pos: nat) -> Seq<InspectionView> {
    let table = InspectionView {
        start: 0,
        size: 8 * entries.len(),
        name: "Data Directories"@,
        bytes: encode_entries(entries),
    };
    if pos < 8 * entries.len() {
        let index = pos / 8;
        seq![table] + shifted(field_records(pos % 8, entries[index as int].spec_encode()), 8 * index)
    } else {
        seq![table]
    }
}

/// A cursor over the data directories of an Optional header: moving goes
/// from one entry to the next, stepping from one field of an entry to the
/// next.
#[derive(Clone, Copy, Debug)]
pub struct DataDirectoriesCursor<'a> {
    directories: &'a DataDirectories,
    position: u64,
}

impl<'a> DataDirectoriesCursor<'a> {
    /// The cursor at the start of the given entries.
    pub closed spec fn spec_new(directories: &'a DataDirectories) -> Self {
        DataDirectoriesCursor { directories, position: 0 }
    }

    /// The entries the cursor is over.
    pub closed spec fn spec_directories(&self) -> DataDirectories {
        *self.directories
    }

    /// A new cursor over valid entries is at their start.
    pub proof fn lemma_new(directories: &'a DataDirectories)
        requires
            1 <= directories.spec_count() <= 16,
        ensures
            Self::spec_new(directories).inv(),
            Self::spec_new(directories).spec_position() == 0,
            Self::spec_new(directories).spec_directories() == *directories,
            Self::spec_new(directories).spec_size() == 8 * directories.spec_count(),
            forall|pos: nat| #[trigger] Self::spec_new(directories).spec_at(pos).spec_directories() == *directories,
    {
    }

    /// The cursor is over eight bytes for each of one to sixteen entries.
    pub proof fn lemma_size_is(&self)
        requires
            self.inv(),
        ensures
            self.spec_size() == 8 * self.spec_directories().spec_count(),
            1 <= self.spec_directories().spec_count() <= 16,
    {
    }

    /// Constructs a new cursor at the start of the entries.
    pub fn new(directories: &'a DataDirectories) -> (cursor: Self)
        ensures
            cursor == Self::spec_new(directories),
            cursor.inv(),
    {
        let _ = directories.count();
        DataDirectoriesCursor { directories, position: 0 }
    }

    /// Gets the data directories that this cursor is over.
    pub fn directories(&self) -> (directories: &'a DataDirectories)
        ensures
            *directories == self.spec_directories(),
    {
        self.directories
    }

    /// Gets what this cursor shows: the whole table, then the field of the
    /// entry it is at, each where it lies among the entries, with its name
    /// and its bytes.
    pub fn inspect(&self) -> (inspection: Vec<Inspection>)
        requires
            self.inv(),
        ensures
            views(inspection@) == cursor_records(self.spec_directories().spec_entries(), self.spec_position()),
            all_within(views(inspection@), self.spec_size()),
    {
        let mut records: Vec<Inspection> = Vec::new();
        records.push(self.directories.inspect());
        let count = self.directories.count();
        if self.position == 8 * count as u64 {
            proof {
                assert(views(records@) =~= cursor_records(self.spec_directories().spec_entries(), self.spec_position()));
            }
            return records;
        }
        proof {
            self.lemma_stops(self.position as nat);
        }
        let index = (self.position / 8) as usize;
        let entry = self.directories.entry(index);
        let mut inner = DataDirectoryCursor::new(entry);
        proof {
            DataDirectoryCursor::lemma_new(entry);
            DataDirectoryCursor::spec_new(entry).lemma_at((self.position % 8) as nat, 0);
        }
        let _ = inner.seek(Position(self.position % 8));
        let fields = inner.inspect();
        proof {
            super::directory::lemma_encode_len(*entry);
            lemma_shift_within(views(fields@), 8, (8 * index) as nat);
        }
        let mut moved_fields = shift_all(fields, 8 * index as u32);
        records.append(&mut moved_fields);
        proof {
            assert(views(records@) =~= cursor_records(self.spec_directories().spec_entries(), self.spec_position()));
        }
        records
    }
}

impl DataDirectories {
    /// Gets the whole table as an inspection: where it lies, its name and
    /// its bytes.
    pub fn inspect(&self) -> (inspection: Inspection)
        ensures
            inspection@ == (InspectionView {
                start: 0,
                size: (8 * self.spec_count()) as nat,
                name: "Data Directories"@,
                bytes: self.spec_encode(),
            }),
    {
        let _ = self.count();
        let mut bytes: Vec<u8> = Vec::new();
        self.encode(&mut bytes);
        proof {
            assert(bytes@ =~= self.spec_encode());
        }
        Inspection { space: AddressSpace::new_valid(Address::new(0), self.size()), name: "Data Directories", bytes }
    }
}

impl DataDirectories {
    /// Gets a cursor at the start of the entries.
    pub fn cursor(&self) -> (cursor: DataDirectoriesCursor<'_>)
        ensures
            cursor == DataDirectoriesCursor::spec_new(self),
            cursor.inv(),
    {
        DataDirectoriesCursor::new(self)
    }
}

impl<'a> Cursor for DataDirectoriesCursor<'a> {
    closed spec fn inv(&self) -> bool {
        &&& 1 <= self.directories.spec_count() <= 16
        &&& self.position <= 8 * self.directories.spec_count()
    }

    closed spec fn spec_size(&self) -> nat {
        8 * self.directories.spec_count() as nat
    }

    closed spec fn spec_position(&self) -> nat {
        self.position as nat
    }

    closed spec fn spec_at(&self, pos: nat) -> Self {
        DataDirectoriesCursor { directories: self.directories, position: pos as u64 }
    }

    /// Moving goes to the end of the entry.
    open spec fn next_stop(&self, pos: nat) -> nat {
        (pos - pos % 8 + 8) as nat
    }

    /// Stepping goes to the end of the field of the entry.
    open spec fn step_stop(&self, pos: nat) -> nat {
        (pos - pos % 4 + 4) as nat
    }

    proof fn lemma_size(&self) {
    }

    proof fn lemma_at(&self, pos: nat, q: nat) {
    }

    proof fn lemma_stops(&self, pos: nat) {
        assert(pos % 8 == pos % 4 || pos % 8 == pos % 4 + 4);
        let k = self.directories.spec_count() as nat;
        assert((pos - pos % 8) % 8 == 0) by (nonlinear_arith);
        assert(pos - pos % 8 + 8 <= 8 * k) by (nonlinear_arith)
            requires
                pos < 8 * k,
                (pos - pos % 8) % 8 == 0,
                0 <= pos % 8 <= pos,
        ;
    }

    fn position(&self) -> (position: Position) {
        Position(self.position)
    }

    fn seek(&mut self, position: Position) -> (result: Result<(), CursorError>) {
        let size = 8 * self.directories.count() as u64;
        if position.0 > size {
            return Err(CursorError::OutOfBounds(position, size));
        }
        self.position = position.0;
        Ok(())
    }

    fn next(&mut self) -> (result: Result<Option<Position>, CursorError>) {
        let size = 8 * self.directories.count() as u64;
        if self.position == size {
            return Ok(None);
        }
        proof {
            self.lemma_stops(self.position as nat);
        }
        let stop = self.position - self.position % 8 + 8;
        self.position = stop;
        if stop == size {
            Ok(None)
        } else {
            Ok(Some(Position(stop)))
        }
    }

    fn step(&mut self) -> (result: Result<Option<Position>, CursorError>) {
        let size = 8 * self.directories.count() as u64;
        if self.position == size {
            return Ok(None);
        }
        proof {
            self.lemma_stops(self.position as nat);
        }
        let stop = self.position - self.position % 4 + 4;
        self.position = stop;
        if stop == size {
            Ok(None)
        } else {
            Ok(Some(Position(stop)))
        }
    }
}

} // verus!
