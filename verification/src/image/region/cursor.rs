//! A cursor over a mapped region of an image.

use vstd::prelude::*;

use crate::memory::cursor::{all_within, views, Cursor, CursorError, Inspection, InspectionView, Position};
use crate::memory::sparse::stop_after;
use crate::memory::Extent;

use super::headers::cursor::{
    headers_len, lemma_headers_len, lemma_headers_stops, headers_part, headers_records, segment_at, segment_size, segment_start, segment_step,
    HeadersCursor,
};
use super::headers::encode_headers;
use super::section::cursor::{lemma_section_stops, section_part, section_records, SectionCursor};
use super::section::section_memory;
use super::Region;

verus! {

/// The number of bytes a cursor over the region covers: the headers up to
/// the end of their padding, or the whole of a section.
pub open spec fn region_cursor_size(r: Region) -> nat {
    match r {
        Region::Headers(h) => headers_len(h@),
        Region::Section(s) => s@.size,
    }
}

/// The start and the width of the part of a region that holds the byte at `pos`.
pub open spec fn region_part(r: Region, pos: nat) -> (nat, nat) {
    match r {
        Region::Headers(h) => headers_part(h, pos),
        Region::Section(s) => section_part(s@, pos),
    }
}

/// What a cursor over the region `r` at `pos` shows: what the cursor over
/// its headers or its section shows.
pub open spec fn region_records(r: Region, pos: nat) -> Seq<InspectionView> {
    match r {
        Region::Headers(h) => headers_records(h, pos),
        Region::Section(s) => section_records(s@, pos),
    }
}

/// Where moving goes from `pos` within a region.
pub open spec fn region_next_stop(r: Region, pos: nat) -> nat {
    match r {
        Region::Headers(h) => segment_start(h@, segment_at(h@, pos)) + segment_size(h@, segment_at(h@, pos)),
        Region::Section(s) => stop_after(s@.blocks, pos as int, s@.size),
    }
}

/// Where stepping goes from `pos` within a region.
pub open spec fn region_step_stop(r: Region, pos: nat) -> nat {
    match r {
        Region::Headers(h) => segment_start(h@, segment_at(h@, pos)) + segment_step(
            h@,
            segment_at(h@, pos),
            (pos - segment_start(h@, segment_at(h@, pos))) as nat,
        ),
        Region::Section(s) => stop_after(s@.blocks, pos as int, s@.size),
    }
}

/// Within a valid region, stepping goes forward no further than moving,
/// which stays within what the cursor covers, which is within the region.
pub proof fn lemma_region_stops(r: Region, pos: nat)
    requires
        r.valid(),
        pos < region_cursor_size(r),
    ensures
        pos < region_step_stop(r, pos) <= region_next_stop(r, pos) <= region_cursor_size(r),
        region_cursor_size(r) <= r.spec_size(),
{
    match r {
        Region::Headers(h) => {
            lemma_headers_stops(h, pos);
            lemma_headers_len(h);
        },
        Region::Section(s) => lemma_section_stops(s, pos),
    }
}

/// A cursor over an image region.
#[derive(Clone, Copy, Debug)]
pub enum RegionCursor<'a> {
    Headers(HeadersCursor<'a>),
    Section(SectionCursor<'a>),
}

impl<'a> RegionCursor<'a> {
    /// The region the cursor is over.
    pub open spec fn spec_region(&self) -> Region {
        match self {
            RegionCursor::Headers(c) => Region::Headers(c.spec_headers()),
            RegionCursor::Section(c) => Region::Section(c.spec_section()),
        }
    }

    /// Constructs a new region cursor.
    pub fn new(region: &'a Region) -> (cursor: Self)
        requires
            region.valid(),
        ensures
            cursor.inv(),
            cursor.spec_position() == 0,
            cursor.spec_region() == *region,
            cursor.spec_size() == region_cursor_size(*region),
    {
        match region {
            Region::Headers(headers) => RegionCursor::Headers(HeadersCursor::new(headers)),
            Region::Section(section) => RegionCursor::Section(section.cursor()),
        }
    }

    /// Gets what this cursor shows: what the cursor over its headers or its
    /// section shows.
    pub fn inspect(&self) -> (inspection: Vec<Inspection>)
        requires
            self.inv(),
        ensures
            views(inspection@) == region_records(self.spec_region(), self.spec_position()),
            all_within(views(inspection@), self.spec_size()),
    {
        match self {
            RegionCursor::Headers(c) => c.inspect(),
            RegionCursor::Section(c) => c.inspect(),
        }
    }

    /// Gets the number of bytes the cursor covers.
    pub fn extent(&self) -> (size: u64)
        requires
            self.inv(),
        ensures
            size == self.spec_size(),
    {
        match self {
            RegionCursor::Headers(c) => {
                proof {
                    c.lemma_inv();
                }
                c.total()
            },
            RegionCursor::Section(c) => {
                proof {
                    c.lemma_inv();
                }
                c.section().size().get()
            },
        }
    }

    /// Setting the position keeps the region.
    pub proof fn lemma_region_at(&self, pos: nat)
        ensures
            self.spec_at(pos).spec_region() == self.spec_region(),
    {
        match self {
            RegionCursor::Headers(c) => c.lemma_headers_at(pos),
            RegionCursor::Section(c) => c.lemma_section_at(pos),
        }
    }
}

impl Region {
    /// Gets a cursor at the start of the region.
    pub fn cursor(&self) -> (cursor: RegionCursor<'_>)
        requires
            self.valid(),
        ensures
            cursor.inv(),
            cursor.spec_position() == 0,
            cursor.spec_region() == *self,
            cursor.spec_size() == region_cursor_size(*self),
    {
        RegionCursor::new(self)
    }
}

impl<'a> Cursor for RegionCursor<'a> {
    open spec fn inv(&self) -> bool {
        match self {
            RegionCursor::Headers(c) => c.inv(),
            RegionCursor::Section(c) => c.inv(),
        }
    }

    open spec fn spec_size(&self) -> nat {
        match self {
            RegionCursor::Headers(c) => c.spec_size(),
            RegionCursor::Section(c) => c.spec_size(),
        }
    }

    open spec fn spec_position(&self) -> nat {
        match self {
            RegionCursor::Headers(c) => c.spec_position(),
            RegionCursor::Section(c) => c.spec_position(),
        }
    }

    open spec fn spec_at(&self, pos: nat) -> Self {
        match self {
            RegionCursor::Headers(c) => RegionCursor::Headers(c.spec_at(pos)),
            RegionCursor::Section(c) => RegionCursor::Section(c.spec_at(pos)),
        }
    }

    open spec fn next_stop(&self, pos: nat) -> nat {
        match self {
            RegionCursor::Headers(c) => c.next_stop(pos),
            RegionCursor::Section(c) => c.next_stop(pos),
        }
    }

    open spec fn step_stop(&self, pos: nat) -> nat {
        match self {
            RegionCursor::Headers(c) => c.step_stop(pos),
            RegionCursor::Section(c) => c.step_stop(pos),
        }
    }

    proof fn lemma_size(&self) {
        match self {
            RegionCursor::Headers(c) => c.lemma_size(),
            RegionCursor::Section(c) => c.lemma_size(),
        }
    }

    proof fn lemma_at(&self, pos: nat, q: nat) {
        match self {
            RegionCursor::Headers(c) => c.lemma_at(pos, q),
            RegionCursor::Section(c) => c.lemma_at(pos, q),
        }
    }

    proof fn lemma_stops(&self, pos: nat) {
        match self {
            RegionCursor::Headers(c) => c.lemma_stops(pos),
            RegionCursor::Section(c) => c.lemma_stops(pos),
        }
    }

    fn position(&self) -> (position: Position) {
        match self {
            RegionCursor::Headers(c) => c.position(),
            RegionCursor::Section(c) => c.position(),
        }
    }

    fn seek(&mut self, position: Position) -> (result: Result<(), CursorError>) {
        match self {
            RegionCursor::Headers(c) => c.seek(position),
            RegionCursor::Section(c) => c.seek(position),
        }
    }

    fn next(&mut self) -> (result: Result<Option<Position>, CursorError>) {
        match self {
            RegionCursor::Headers(c) => c.next(),
            RegionCursor::Section(c) => c.next(),
        }
    }

    fn step(&mut self) -> (result: Result<Option<Position>, CursorError>) {
        match self {
            RegionCursor::Headers(c) => c.step(),
            RegionCursor::Section(c) => c.step(),
        }
    }
}

} // verus!
