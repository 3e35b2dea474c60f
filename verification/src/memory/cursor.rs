//! Cursors: positions within a region that move from one part of it to the next.

use vstd::prelude::*;

use super::{Address, AddressSpace, Size, ADDRESS_SPACE_END};

verus! {

/// A position within a region, counted from its start.
#[derive(Clone, Copy, Debug, PartialEq, Eq, Structural)]
pub struct Position(pub u64);

impl Position {
    /// Constructs a position at the given offset.
    pub fn new(offset: u32) -> (position: Position)
        ensures
            position.0 == offset,
    {
        Position(offset as u64)
    }

    /// Constructs the position just past a region of the given size.
    pub fn from_size(size: Size) -> (position: Position)
        ensures
            position.0 == size.spec_get(),
            position.0 <= ADDRESS_SPACE_END,
    {
        Position(size.get())
    }

    /// Gets the offset of the position.
    pub fn get(&self) -> (offset: u64)
        ensures
            offset == self.0,
    {
        self.0
    }

    /// Gets the offset of the position as an address, where it is one.
    pub fn get_addressable(&self) -> (offset: Option<u32>)
        ensures
            self.0 < ADDRESS_SPACE_END ==> offset == Some(self.0 as u32),
            self.0 >= ADDRESS_SPACE_END ==> offset is None,
    {
        if self.0 < ADDRESS_SPACE_END {
            Some(self.0 as u32)
        } else {
            None
        }
    }

    /// Moves the position forward, or returns `None` past the end of the
    /// address space.
    pub fn checked_add(self, offset: u32) -> (position: Option<Position>)
        ensures
            self.0 + offset <= ADDRESS_SPACE_END ==> position == Some(Position((self.0 + offset) as u64)),
            self.0 + offset > ADDRESS_SPACE_END ==> position is None,
    {
        if self.0 <= ADDRESS_SPACE_END && offset as u64 <= ADDRESS_SPACE_END - self.0 {
            Some(Position(self.0 + offset as u64))
        } else {
            None
        }
    }
}

/// The cursor error.
#[derive(Clone, Copy, Debug, PartialEq, Eq)]
pub enum CursorError {
    /// The position lies past the end of the region, of the given size.
    OutOfBounds(Position, u64),
    /// Moving forward from the position by the offset leaves the address space.
    CannotAdvance(Position, u32),
}

/// The result of moving a cursor to `stop` within a region of `size` bytes:
/// the new position, or `None` at the end.
pub open spec fn moved_to(stop: nat, size: nat) -> Option<Position> {
    if stop == size {
        None
    } else {
        Some(Position(stop as u64))
    }
}

/// A cursor over a region: a position within it that can be set, moved
/// forward, moved to the start of the next part of the region, or stepped
/// to the start of the next smallest part.
pub trait Cursor: Sized {
    /// The cursor's state is consistent.
    spec fn inv(&self) -> bool;

    /// The size of the region the cursor is over.
    spec fn spec_size(&self) -> nat;

    /// The position of the cursor.
    spec fn spec_position(&self) -> nat;

    /// The cursor over the same region, at the given position.
    spec fn spec_at(&self, pos: nat) -> Self;

    /// Where moving to the next part goes from the given position.
    spec fn next_stop(&self, pos: nat) -> nat;

    /// Where stepping goes from the given position.
    spec fn step_stop(&self, pos: nat) -> nat;

    /// A consistent cursor is within its region, which fits the address space.
    proof fn lemma_size(&self)
        requires
            self.inv(),
        ensures
            self.spec_position() <= self.spec_size() <= ADDRESS_SPACE_END,
            *self == self.spec_at(self.spec_position()),
    ;

    /// Setting the position gives a consistent cursor over the same region.
    proof fn lemma_at(&self, pos: nat, q: nat)
        requires
            self.inv(),
            pos <= self.spec_size(),
        ensures
            self.spec_at(pos).inv(),
            self.spec_at(pos).spec_position() == pos,
            self.spec_at(pos).spec_size() == self.spec_size(),
            self.spec_at(pos).spec_at(q) == self.spec_at(q),
            self.spec_at(pos).next_stop(q) == self.next_stop(q),
            self.spec_at(pos).step_stop(q) == self.step_stop(q),
    ;

    /// Moving and stepping go forward, stepping no further than moving, and
    /// stay within the region.
    proof fn lemma_stops(&self, pos: nat)
        requires
            self.inv(),
            pos < self.spec_size(),
        ensures
            pos < self.step_stop(pos) <= self.next_stop(pos) <= self.spec_size(),
    ;

    /// Gets the position of the cursor.
    fn position(&self) -> (position: Position)
        requires
            self.inv(),
        ensures
            position.0 == self.spec_position(),
    ;

    /// Sets the position of the cursor, or fails when it lies past the end.
    fn seek(&mut self, position: Position) -> (result: Result<(), CursorError>)
        requires
            old(self).inv(),
        ensures
            position.0 <= old(self).spec_size() ==> result is Ok && *final(self) == old(self).spec_at(
                position.0 as nat,
            ),
            position.0 > old(self).spec_size() ==> result == Err::<(), CursorError>(
                CursorError::OutOfBounds(position, old(self).spec_size() as u64),
            ) && *final(self) == *old(self),
    ;

    /// Moves the cursor to the start of the next part of the region; gives
    /// the new position, or `None` when the cursor reaches the end.
    fn next(&mut self) -> (result: Result<Option<Position>, CursorError>)
        requires
            old(self).inv(),
        ensures
            old(self).spec_position() == old(self).spec_size() ==> result == Ok::<
                Option<Position>,
                CursorError,
            >(None) && *final(self) == *old(self),
            old(self).spec_position() < old(self).spec_size() ==> *final(self) == old(self).spec_at(
                old(self).next_stop(old(self).spec_position()),
            ) && result == Ok::<Option<Position>, CursorError>(
                moved_to(old(self).next_stop(old(self).spec_position()), old(self).spec_size()),
            ),
    ;

    /// Steps the cursor to the start of the next smallest part of the region;
    /// gives the new position, or `None` when the cursor reaches the end.
    fn step(&mut self) -> (result: Result<Option<Position>, CursorError>)
        requires
            old(self).inv(),
        ensures
            old(self).spec_position() == old(self).spec_size() ==> result == Ok::<
                Option<Position>,
                CursorError,
            >(None) && *final(self) == *old(self),
            old(self).spec_position() < old(self).spec_size() ==> *final(self) == old(self).spec_at(
                old(self).step_stop(old(self).spec_position()),
            ) && result == Ok::<Option<Position>, CursorError>(
                moved_to(old(self).step_stop(old(self).spec_position()), old(self).spec_size()),
            ),
    ;

    /// Moves the cursor forward by the given offset, or fails when that
    /// leaves the address space or the region.
    fn advance(&mut self, offset: u32) -> (result: Result<(), CursorError>)
        requires
            old(self).inv(),
        ensures
            old(self).spec_position() + offset > ADDRESS_SPACE_END ==> result == Err::<(), CursorError>(
                CursorError::CannotAdvance(Position(old(self).spec_position() as u64), offset),
            ) && *final(self) == *old(self),
            old(self).spec_position() + offset <= old(self).spec_size() ==> result is Ok && *final(self)
                == old(self).spec_at((old(self).spec_position() + offset) as nat),
            old(self).spec_size() < old(self).spec_position() + offset <= ADDRESS_SPACE_END ==> result
                == Err::<(), CursorError>(
                CursorError::OutOfBounds(
                    Position((old(self).spec_position() + offset) as u64),
                    old(self).spec_size() as u64,
                ),
            ) && *final(self) == *old(self),
    {
        proof {
            self.lemma_size();
        }
        let position = self.position();
        match position.checked_add(offset) {
            Some(target) => self.seek(target),
            None => Err(CursorError::CannotAdvance(position, offset)),
        }
    }
}

/// What a cursor shows of the part of a structure it is at: where the part
/// lies, its name, and its bytes.
#[derive(Debug)]
pub struct Inspection {
    /// The addresses of the part.
    pub space: AddressSpace,
    /// The name of the part.
    pub name: &'static str,
    /// The bytes of the part, as they are laid out.
    pub bytes: Vec<u8>,
}

/// What an inspection shows: the first address and the size of the part,
/// its name and its bytes.
#[verifier::ext_equal]
pub struct InspectionView {
    /// The first address of the part.
    pub start: nat,
    /// The number of addresses of the part.
    pub size: nat,
    /// The name of the part.
    pub name: Seq<char>,
    /// The bytes of the part.
    pub bytes: Seq<u8>,
}

impl View for Inspection {
    type V = InspectionView;

    open spec fn view(&self) -> InspectionView {
        InspectionView {
            start: self.space.spec_start() as nat,
            size: self.space.spec_size() as nat,
            name: self.name@,
            bytes: self.bytes@,
        }
    }
}

/// What each of a sequence of inspections shows.
pub open spec fn views(inspections: Seq<Inspection>) -> Seq<InspectionView> {
    inspections.map_values(|i: Inspection| i@)
}

/// A record moved up by `base` addresses.
pub open spec fn moved(record: InspectionView, base: nat) -> InspectionView {
    InspectionView { start: record.start + base, size: record.size, name: record.name, bytes: record.bytes }
}

/// Records moved up by `base` addresses.
pub open spec fn shifted(records: Seq<InspectionView>, base: nat) -> Seq<InspectionView> {
    records.map_values(|r: InspectionView| moved(r, base))
}

/// Every record, moved up by `base` addresses, still lies within the
/// address space.
pub open spec fn fits_at(records: Seq<InspectionView>, base: nat) -> bool {
    forall|k: int| 0 <= k < records.len() ==> base + #[trigger] records[k].start + records[k].size <= ADDRESS_SPACE_END
}

/// Every record ends within the first `size` addresses.
pub open spec fn all_within(records: Seq<InspectionView>, size: nat) -> bool {
    forall|k: int| 0 <= k < records.len() ==> #[trigger] records[k].start + records[k].size <= size
}

/// Records that end within `size` addresses fit when moved up by `base`,
/// where `base + size` does, and then end within `base + size` addresses.
pub proof fn lemma_shift_within(records: Seq<InspectionView>, size: nat, base: nat)
    requires
        all_within(records, size),
        base + size <= ADDRESS_SPACE_END,
    ensures
        fits_at(records, base),
        all_within(shifted(records, base), base + size),
{
    assert forall|k: int| 0 <= k < shifted(records, base).len() implies #[trigger] shifted(records, base)[k].start
        + shifted(records, base)[k].size <= base + size by {
        assert(records[k].start + records[k].size <= size);
    }
}

/// Moves every inspection up by `base` addresses, keeping their order.
pub fn shift_all(inspections: Vec<Inspection>, base: u32) -> (moved_inspections: Vec<Inspection>)
    requires
        fits_at(views(inspections@), base as nat),
    ensures
        views(moved_inspections@) == shifted(views(inspections@), base as nat),
{
    let ghost original = inspections@;
    let mut rest = inspections;
    let mut out: Vec<Inspection> = Vec::new();
    while rest.len() > 0
        invariant
            out@.len() + rest@.len() == original.len(),
            rest@ == original.subrange(out@.len() as int, original.len() as int),
            fits_at(views(original), base as nat),
            forall|k: int| 0 <= k < out@.len() ==> #[trigger] out@[k]@ == moved(original[k]@, base as nat),
        decreases rest.len(),
    {
        let ghost k = out@.len() as int;
        let first = rest.remove(0);
        assert(views(original)[k] == original[k]@);
        assert(base + views(original)[k].start + views(original)[k].size <= ADDRESS_SPACE_END);
        out.push(first.at(base));
        assert(rest@ =~= original.subrange(out@.len() as int, original.len() as int));
    }
    assert(views(out@) =~= shifted(views(original), base as nat));
    out
}

impl Inspection {
    /// The same inspection, with its addresses moved up by `base`.
    pub fn at(self, base: u32) -> (inspection: Inspection)
        requires
            base + self.space.spec_end() <= ADDRESS_SPACE_END,
        ensures
            inspection.space.spec_start() == base + self.space.spec_start(),
            inspection.space.spec_size() == self.space.spec_size(),
            inspection.name == self.name,
            inspection.bytes@ == self.bytes@,
            inspection@ == moved(self@, base as nat),
    {
        let start = self.space.address().value();
        let size = self.space.size();
        let _ = size.get();
        let space = AddressSpace::new_valid(Address::new(base + start), size);
        Inspection { space, name: self.name, bytes: self.bytes }
    }
}

/// Copies the bytes of `data` from `start` up to `end`.
pub fn copy_range(data: &[u8], start: usize, end: usize) -> (copied: Vec<u8>)
    requires
        start <= end <= data@.len(),
    ensures
        copied@ == data@.subrange(start as int, end as int),
{
    let mut copied: Vec<u8> = Vec::new();
    let mut i: usize = start;
    while i < end
        invariant
            start <= i <= end <= data@.len(),
            copied@ == data@.subrange(start as int, i as int),
        decreases end - i,
    {
        copied.push(data[i]);
        assert(data@.subrange(start as int, i + 1) =~= data@.subrange(start as int, i as int).push(data@[i as int]));
        i = i + 1;
    }
    copied
}

/// A cursor over a region taken as a whole: moving or stepping goes to its end.
#[derive(Clone, Copy, Debug)]
pub struct SimpleCursor {
    size: u64,
    position: u64,
}

impl SimpleCursor {
    /// Constructs a cursor at the start of a region of the given size.
    pub fn new(size: Size) -> (cursor: SimpleCursor)
        ensures
            cursor.inv(),
            cursor.spec_size() == size.spec_get(),
            cursor.spec_position() == 0,
    {
        SimpleCursor { size: size.get(), position: 0 }
    }

}

impl Cursor for SimpleCursor {
    closed spec fn inv(&self) -> bool {
        1 <= self.size <= ADDRESS_SPACE_END && self.position <= self.size
    }

    closed spec fn spec_size(&self) -> nat {
        self.size as nat
    }

    closed spec fn spec_position(&self) -> nat {
        self.position as nat
    }

    closed spec fn spec_at(&self, pos: nat) -> SimpleCursor {
        SimpleCursor { size: self.size, position: pos as u64 }
    }

    /// Moving goes to the end.
    open spec fn next_stop(&self, pos: nat) -> nat {
        self.spec_size()
    }

    /// Stepping goes to the end.
    open spec fn step_stop(&self, pos: nat) -> nat {
        self.spec_size()
    }

    proof fn lemma_size(&self) {
    }

    proof fn lemma_at(&self, pos: nat, q: nat) {
    }

    proof fn lemma_stops(&self, pos: nat) {
    }

    fn position(&self) -> (position: Position) {
        Position(self.position)
    }

    fn seek(&mut self, position: Position) -> (result: Result<(), CursorError>) {
        if position.0 > self.size {
            return Err(CursorError::OutOfBounds(position, self.size));
        }
        self.position = position.0;
        Ok(())
    }

    fn next(&mut self) -> (result: Result<Option<Position>, CursorError>) {
        if self.position == self.size {
            return Ok(None);
        }
        self.position = self.size;
        Ok(None)
    }

    fn step(&mut self) -> (result: Result<Option<Position>, CursorError>) {
        self.next()
    }
}

} // verus!
