//! A cursor over a section.

use vstd::prelude::*;

use crate::memory::cursor::{all_within, views, Cursor, CursorError, Inspection, InspectionView, Position};
use crate::memory::sparse::{entry_end, held, holds, lemma_at_holder, lemma_no_holder, lemma_stop_after, part_start, stop_after};
use crate::memory::{Address, AddressSpace, Extent, Size};

use super::{section_memory, Block, Section, SectionView};

verus! {

/// The start and the width of the part of a section that holds the byte at
/// `pos`: the block there, or the run of unidentified bytes from `pos` up to
/// the next block.
pub open spec fn section_part(v: SectionView, pos: nat) -> (nat, nat) {
    let start = part_start(v.blocks, pos as int) as nat;
    (start, (stop_after(v.blocks, pos as int, v.size) - start) as nat)
}

/// What a cursor over the section `v` at `pos` shows: the block there, or
/// the run of unidentified bytes from `pos` up to the next block; nothing
/// at its end.
pub open spec fn section_records(v: SectionView, pos: nat) -> Seq<InspectionView> {
    if pos >= v.size {
        Seq::empty()
    } else {
        let (start, width) = section_part(v, pos);
        seq![InspectionView {
            start,
            size: width,
            name: if held(v.blocks, pos as int) { "Block"@ } else { "Unidentified"@ },
            bytes: section_memory(v).subrange(start as int, (start + width) as int),
        }]
    }
}

/// Within a well-formed section, moving goes forward and stays within it.
pub proof fn lemma_section_stops(s: Section, pos: nat)
    requires
        s.wf(),
        pos < s@.size,
    ensures
        pos < stop_after(s@.blocks, pos as int, s@.size) <= s@.size,
{
    s.lemma_blocks();
    s.blocks_spec().lemma_wf();
    lemma_stop_after(s@.blocks, pos as int, s@.size);
}

/// A cursor over a section: moving goes from each identified block, and from
/// each run of bytes between them, to the next.
#[derive(Clone, Copy, Debug)]
pub struct SectionCursor<'a> {
    section: &'a Section,
    position: u64,
}

impl<'a> SectionCursor<'a> {
    /// The section the cursor is over.
    pub closed spec fn spec_section(&self) -> Section {
        *self.section
    }

    /// A consistent cursor is over a well-formed section.
    pub proof fn lemma_inv(&self)
        requires
            self.inv(),
        ensures
            self.spec_section().wf(),
    {
    }

    /// Setting the position keeps the section.
    pub proof fn lemma_section_at(&self, pos: nat)
        ensures
            self.spec_at(pos).spec_section() == self.spec_section(),
    {
    }

    /// Constructs a new cursor at the start of the section.
    pub fn new(section: &'a Section) -> (cursor: Self)
        requires
            section.wf(),
        ensures
            cursor.inv(),
            cursor.spec_position() == 0,
            cursor.spec_section() == *section,
    {
        SectionCursor { section, position: 0 }
    }

    /// Gets the section that this cursor is over.
    pub fn section(&self) -> (section: &'a Section)
        ensures
            *section == self.spec_section(),
    {
        self.section
    }

    /// Gets the block at the cursor position.
    pub fn block(&self) -> (block: Option<&'a Block>)
        requires
            self.inv(),
        ensures
            block matches Some(b) ==> exists|i: int|
                0 <= i < self.spec_section()@.blocks.len() && holds(
                    #[trigger] self.spec_section()@.blocks[i],
                    self.spec_position() as int,
                ) && *b == self.spec_section()@.blocks[i].2,
            block is None ==> forall|i: int|
                0 <= i < self.spec_section()@.blocks.len() ==> !holds(
                    #[trigger] self.spec_section()@.blocks[i],
                    self.spec_position() as int,
                ),
    {
        let blocks = self.section.blocks();
        if self.position >= self.section.size().get() {
            proof {
                blocks.lemma_wf();
            }
            return None;
        }
        match blocks.find(self.position as u32) {
            Some(i) => {
                let b = blocks.item_at(i);
                proof {
                    assert(holds(self.spec_section()@.blocks[i as int], self.position as int));
                }
                Some(b)
            },
            None => None,
        }
    }

    /// Gets the bytes whose meaning is not known from the cursor position up
    /// to the next block, where the cursor is not in a block.
    pub fn unidentified(&self) -> (space: Option<AddressSpace>)
        requires
            self.inv(),
        ensures
            self.spec_position() < self.spec_size() && (forall|i: int|
                0 <= i < self.spec_section()@.blocks.len() ==> !holds(
                    #[trigger] self.spec_section()@.blocks[i],
                    self.spec_position() as int,
                )) ==> (space matches Some(s) && s.spec_start() == self.spec_position() && s.spec_end()
                == self.next_stop(self.spec_position())),
            !(self.spec_position() < self.spec_size() && (forall|i: int|
                0 <= i < self.spec_section()@.blocks.len() ==> !holds(
                    #[trigger] self.spec_section()@.blocks[i],
                    self.spec_position() as int,
                ))) ==> space is None,
    {
        if self.position == self.section.size().get() {
            return None;
        }
        match self.block() {
            Some(_) => None,
            None => {
                let blocks = self.section.blocks();
                let stop = blocks.stop_after(self.position);
                proof {
                    blocks.lemma_wf();
                    lemma_stop_after(blocks.spec_entries(), self.position as int, blocks.spec_size());
                }
                Some(
                    AddressSpace::new_valid(
                        Address::new(self.position as u32),
                        Size::new_valid(stop - self.position),
                    ),
                )
            },
        }
    }

    /// Gets what this cursor shows: the block, or the run of unidentified
    /// bytes up to the next block, that it is at, where it lies, its name and
    /// its bytes.
    pub fn inspect(&self) -> (inspection: Vec<Inspection>)
        requires
            self.inv(),
        ensures
            views(inspection@) == section_records(self.spec_section()@, self.spec_position()),
            all_within(views(inspection@), self.spec_size()),
    {
        let mut records: Vec<Inspection> = Vec::new();
        let size = self.section.size().get();
        if self.position == size {
            proof {
                assert(views(records@) =~= section_records(self.spec_section()@, self.spec_position()));
            }
            return records;
        }
        let blocks = self.section.blocks();
        proof {
            blocks.lemma_wf();
            lemma_stop_after(blocks.spec_entries(), self.position as int, blocks.spec_size());
        }
        let stop = blocks.stop_after(self.position);
        let record = match blocks.find(self.position as u32) {
            Some(j) => {
                let start = blocks.address_at(j);
                proof {
                    let s = blocks.spec_entries();
                    lemma_at_holder(s, self.position as int, size as nat, j as int);
                }
                let bytes = self.section.memory_range(start as u64, stop);
                let space = AddressSpace::new_valid(Address::new(start), Size::new_valid(stop - start as u64));
                Inspection { space, name: "Block", bytes }
            },
            None => {
                proof {
                    lemma_no_holder(blocks.spec_entries(), self.position as int);
                }
                let bytes = self.section.memory_range(self.position, stop);
                let space = AddressSpace::new_valid(
                    Address::new(self.position as u32),
                    Size::new_valid(stop - self.position),
                );
                Inspection { space, name: "Unidentified", bytes }
            },
        };
        records.push(record);
        proof {
            assert(views(records@) =~= section_records(self.spec_section()@, self.spec_position()));
        }
        records
    }
}

impl Section {
    /// Gets a cursor at the start of the section.
    pub fn cursor(&self) -> (cursor: SectionCursor<'_>)
        requires
            self.wf(),
        ensures
            cursor.inv(),
            cursor.spec_position() == 0,
            cursor.spec_section() == *self,
    {
        SectionCursor::new(self)
    }
}

impl<'a> Cursor for SectionCursor<'a> {
    closed spec fn inv(&self) -> bool {
        self.section.wf() && self.position <= self.section@.size
    }

    open spec fn spec_size(&self) -> nat {
        self.spec_section()@.size
    }

    closed spec fn spec_position(&self) -> nat {
        self.position as nat
    }

    closed spec fn spec_at(&self, pos: nat) -> Self {
        SectionCursor { section: self.section, position: pos as u64 }
    }

    /// Moving goes to the end of the block, or to the start of the next block.
    open spec fn next_stop(&self, pos: nat) -> nat {
        stop_after(self.spec_section()@.blocks, pos as int, self.spec_section()@.size)
    }

    /// Stepping goes as moving does.
    open spec fn step_stop(&self, pos: nat) -> nat {
        stop_after(self.spec_section()@.blocks, pos as int, self.spec_section()@.size)
    }

    proof fn lemma_size(&self) {
        self.section.lemma_bounds();
    }

    proof fn lemma_at(&self, pos: nat, q: nat) {
    }

    proof fn lemma_stops(&self, pos: nat) {
        self.section.lemma_blocks();
        let blocks = self.section.blocks_spec();
        blocks.lemma_wf();
        lemma_stop_after(blocks.spec_entries(), pos as int, blocks.spec_size());
    }

    fn position(&self) -> (position: Position) {
        Position(self.position)
    }

    fn seek(&mut self, position: Position) -> (result: Result<(), CursorError>) {
        let size = self.section.size().get();
        if position.0 > size {
            return Err(CursorError::OutOfBounds(position, size));
        }
        self.position = position.0;
        Ok(())
    }

    fn next(&mut self) -> (result: Result<Option<Position>, CursorError>) {
        let size = self.section.size().get();
        if self.position == size {
            return Ok(None);
        }
        let blocks = self.section.blocks();
        proof {
            blocks.lemma_wf();
            lemma_stop_after(blocks.spec_entries(), self.position as int, blocks.spec_size());
        }
        let stop = blocks.stop_after(self.position);
        self.position = stop;
        if stop == size {
            Ok(None)
        } else {
            Ok(Some(Position(stop)))
        }
    }

    fn step(&mut self) -> (result: Result<Option<Position>, CursorError>) {
        self.next()
    }
}

} // verus!
