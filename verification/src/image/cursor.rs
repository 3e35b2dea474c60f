//! A cursor over an image.

use vstd::prelude::*;

use crate::memory::cursor::{lemma_shift_within, shift_all, shifted, views, Cursor, CursorError, Inspection, Position};
use crate::memory::sparse::{entry_end, held, holder, holds, lemma_holder, lemma_stop_after, stop_after};
use crate::memory::{Address, AddressSpace, Extent, Size, ADDRESS_SPACE_END};

use super::region::cursor::{
    lemma_region_stops, region_cursor_size, region_next_stop, region_part, region_records,
    region_step_stop, RegionCursor,
};
use super::region::headers::cursor::{segment_at, HeadersCursor};
use super::region::headers::header::Header;
use super::region::headers::Headers;
use super::region::section::cursor::SectionCursor;
use super::region::section::{Block, Section};
use super::region::Region;
use super::Image;

verus! {

/// Where moving (or, with `step`, stepping) goes from `pos` within an image
/// of `total` bytes with the given regions: within the part of a region that
/// a cursor over it covers, as that cursor goes; in the rest of a region, to
/// its end; outside the regions, to the start of the next region or the end
/// of the image.
pub open spec fn image_stop(s: Seq<(u32, nat, Region)>, pos: nat, total: nat, step: bool) -> nat {
    if held(s, pos as int) {
        let e = s[holder(s, pos as int)];
        let local = (pos - e.0) as nat;
        if local < region_cursor_size(e.2) {
            (e.0 + if step {
                region_step_stop(e.2, local)
            } else {
                region_next_stop(e.2, local)
            }) as nat
        } else {
            entry_end(e) as nat
        }
    } else {
        stop_after(s, pos as int, total)
    }
}

/// Some region holds `pos` within the part that a cursor over it covers.
pub open spec fn covered(s: Seq<(u32, nat, Region)>, pos: nat) -> bool {
    held(s, pos as int) && pos - s[holder(s, pos as int)].0 < region_cursor_size(s[holder(s, pos as int)].2)
}

/// The region part at `pos` is one whose meaning is not known.
pub open spec fn region_unidentified(r: Region, local: nat) -> bool {
    match r {
        Region::Headers(h) => segment_at(h@, local) == 1,
        Region::Section(s) => !held(s@.blocks, local as int),
    }
}

/// A cursor over an image.
#[derive(Clone, Copy, Debug)]
pub struct ImageCursor<'a> {
    image: &'a Image,
    position: u64,
    relative: bool,
}

impl<'a> ImageCursor<'a> {
    /// The image the cursor is over.
    pub closed spec fn spec_image(&self) -> Image {
        *self.image
    }

    /// Whether addresses are relative to the image address.
    pub closed spec fn spec_relative(&self) -> bool {
        self.relative
    }

    /// The address that positions are counted from.
    pub open spec fn spec_base(&self) -> nat {
        if self.spec_relative() {
            0
        } else {
            self.spec_image().spec_address().spec_value() as nat
        }
    }

    /// The regions of the image.
    pub open spec fn spec_regions(&self) -> Seq<(u32, nat, Region)> {
        self.spec_image().spec_regions()
    }

    /// The region at the position, with its address and the position within it.
    pub open spec fn spec_at_region(&self) -> (u32, nat, Region) {
        self.spec_regions()[holder(self.spec_regions(), self.spec_position() as int)]
    }

    /// The position within the region at the position.
    pub open spec fn spec_local(&self) -> nat {
        (self.spec_position() - self.spec_at_region().0) as nat
    }

    /// Setting the position keeps the image and whether addresses are
    /// relative, and puts the cursor at that position.
    pub proof fn lemma_target_at(&self, pos: nat)
        ensures
            self.spec_at(pos).spec_image() == self.spec_image(),
            self.spec_at(pos).spec_relative() == self.spec_relative(),
            self.spec_at(pos).spec_base() == self.spec_base(),
            pos <= u64::MAX ==> self.spec_at(pos).spec_position() == pos,
    {
    }

    /// Constructs a new image cursor.
    pub fn new(image: &'a Image) -> (cursor: Self)
        requires
            image.wf(),
        ensures
            cursor.inv(),
            cursor.spec_position() == 0,
            cursor.spec_image() == *image,
            !cursor.spec_relative(),
    {
        ImageCursor { image, position: 0, relative: false }
    }

    /// Sets whether the cursor is relative to the image address.
    ///
    /// A relative address starts from `0x00000000` instead of the image base
    /// address and goes up to the image size. This does not affect the
    /// position of the cursor, which is always relative to the image base
    /// address.
    pub fn relative(self, relative: bool) -> (cursor: Self)
        ensures
            cursor.spec_image() == self.spec_image(),
            cursor.spec_position() == self.spec_position(),
            cursor.spec_relative() == relative,
            self.inv() ==> cursor.inv(),
    {
        ImageCursor { image: self.image, position: self.position, relative }
    }

    /// Gets the address of the current position in the image; `None` at the
    /// end of the 32-bit address space.
    pub fn address(&self) -> (address: Option<Address>)
        requires
            self.inv(),
        ensures
            self.spec_base() + self.spec_position() < ADDRESS_SPACE_END ==> address == Some(
                Address((self.spec_base() + self.spec_position()) as u32),
            ),
            self.spec_base() + self.spec_position() >= ADDRESS_SPACE_END ==> address is None,
    {
        let position = Position(self.position);
        if self.relative {
            match position.get_addressable() {
                Some(p) => Some(Address::new(p)),
                None => None,
            }
        } else {
            match position.get_addressable() {
                Some(p) => self.image.address().checked_add(p),
                None => None,
            }
        }
    }

    /// Seeks to the given address in the image.
    pub fn seek_address(&mut self, address: Address) -> (result: Result<(), CursorError>)
        requires
            old(self).inv(),
        ensures
            final(self).inv(),
            address.spec_value() < old(self).spec_base() ==> result == Err::<(), CursorError>(
                CursorError::OutOfBounds(Position(address.spec_value() as u64), old(self)@.size as u64),
            ) && *final(self) == *old(self),
            address.spec_value() >= old(self).spec_base() && address.spec_value() - old(self).spec_base()
                <= old(self)@.size ==> result is Ok && *final(self) == old(self).spec_at(
                (address.spec_value() - old(self).spec_base()) as nat,
            ),
            address.spec_value() >= old(self).spec_base() && address.spec_value() - old(self).spec_base()
                > old(self)@.size ==> result == Err::<(), CursorError>(
                CursorError::OutOfBounds(
                    Position((address.spec_value() - old(self).spec_base()) as u64),
                    old(self)@.size as u64,
                ),
            ) && *final(self) == *old(self),
            final(self).spec_image() == old(self).spec_image(),
            final(self).spec_relative() == old(self).spec_relative(),
            result is Ok ==> final(self).spec_base() + final(self).spec_position() == address.spec_value(),
    {
        proof {
            self.image.lemma_regions();
        }
        if self.relative {
            self.seek(Position::new(address.value()))
        } else {
            match address.checked_sub(self.image.address().value()) {
                Some(relative) => self.seek(Position::new(relative.value())),
                None => Err(CursorError::OutOfBounds(Position::new(address.value()), self.image.size().get())),
            }
        }
    }

    /// Finds the region at the cursor position, with its index, its address
    /// and the position within it.
    fn locate(&self) -> (found: Option<(usize, u32, u64)>)
        requires
            self.inv(),
        ensures
            found matches Some((i, a, l)) ==> held(self.spec_regions(), self.spec_position() as int) && i
                == holder(self.spec_regions(), self.spec_position() as int) && a == self.spec_at_region().0
                && l == self.spec_local() && i < self.spec_regions().len(),
            found is None ==> !held(self.spec_regions(), self.spec_position() as int),
    {
        proof {
            self.image.lemma_regions();
        }
        let regions = self.image.regions();
        if self.position >= self.image.size().get() {
            proof {
                let s = self.spec_regions();
                assert forall|j: int| 0 <= j < s.len() implies !holds(#[trigger] s[j], self.position as int) by {
                    assert(entry_end(s[j]) <= self@.size);
                }
            }
            return None;
        }
        match regions.find(self.position as u32) {
            Some(i) => {
                proof {
                    lemma_holder(self.spec_regions(), self.position as int, i as int);
                }
                let a = regions.address_at(i);
                Some((i, a, self.position - a as u64))
            },
            None => None,
        }
    }

    /// Gets the region at the cursor position.
    pub fn region(&self) -> (region: Option<&'a Region>)
        requires
            self.inv(),
        ensures
            region matches Some(r) ==> held(self.spec_regions(), self.spec_position() as int) && *r
                == self.spec_at_region().2,
            region is None ==> !held(self.spec_regions(), self.spec_position() as int),
    {
        match self.locate() {
            Some((i, _, _)) => Some(self.image.regions().item_at(i)),
            None => None,
        }
    }

    /// Gets the headers at the cursor position.
    pub fn headers(&self) -> (headers: Option<&'a Headers>)
        requires
            self.inv(),
        ensures
            headers matches Some(h) ==> held(self.spec_regions(), self.spec_position() as int)
                && self.spec_at_region().2 == Region::Headers(*h),
            headers is None ==> !(held(self.spec_regions(), self.spec_position() as int)
                && self.spec_at_region().2 is Headers),
    {
        match self.region() {
            Some(region) => region.as_headers(),
            None => None,
        }
    }

    /// Gets the section at the cursor position.
    pub fn section(&self) -> (section: Option<&'a Section>)
        requires
            self.inv(),
        ensures
            section matches Some(s) ==> held(self.spec_regions(), self.spec_position() as int)
                && self.spec_at_region().2 == Region::Section(*s),
            section is None ==> !(held(self.spec_regions(), self.spec_position() as int)
                && self.spec_at_region().2 is Section),
    {
        match self.region() {
            Some(region) => region.as_section(),
            None => None,
        }
    }

    /// Gets a cursor over the region at the cursor position, at the position
    /// within it, where that lies within what the region cursor covers.
    fn region_cursor(&self) -> (found: Option<(u32, RegionCursor<'a>)>)
        requires
            self.inv(),
        ensures
            found matches Some((a, c)) ==> covered(self.spec_regions(), self.spec_position()) && a
                == self.spec_at_region().0 && c.inv() && c.spec_region() == self.spec_at_region().2
                && c.spec_position() == self.spec_local() && c.spec_size() == region_cursor_size(
                self.spec_at_region().2,
            ),
            found is None ==> !covered(self.spec_regions(), self.spec_position()),
    {
        proof {
            self.image.lemma_regions();
        }
        match self.locate() {
            Some((i, a, local)) => {
                let region = self.image.regions().item_at(i);
                let mut cursor = region.cursor();
                let ghost c0 = cursor;
                if local < cursor.extent() {
                    let _ = cursor.seek(Position(local));
                    proof {
                        c0.lemma_at(local as nat, 0);
                        c0.lemma_region_at(local as nat);
                    }
                    Some((a, cursor))
                } else {
                    None
                }
            },
            None => None,
        }
    }

    /// Gets the header at the cursor position.
    pub fn header(&self) -> (header: Option<Header>)
        requires
            self.inv(),
        ensures
            header matches Some(h) ==> covered(self.spec_regions(), self.spec_position())
                && self.spec_at_region().2 is Headers && Some(h) == self.spec_at_region().2->Headers_0.spec_segment_header(
                segment_at(self.spec_at_region().2->Headers_0@, self.spec_local()),
            ),
            header is None ==> !(covered(self.spec_regions(), self.spec_position())
                && self.spec_at_region().2 is Headers && segment_at(
                self.spec_at_region().2->Headers_0@,
                self.spec_local(),
            ) != 1),
    {
        match self.region_cursor() {
            Some((_, RegionCursor::Headers(cursor))) => {
                proof {
                    cursor.spec_headers().lemma_segment_header(
                        segment_at(cursor.spec_headers()@, cursor.spec_position()),
                    );
                }
                cursor.header()
            },
            _ => None,
        }
    }

    /// Gets the block at the cursor position.
    pub fn block(&self) -> (block: Option<&'a Block>)
        requires
            self.inv(),
        ensures
            block matches Some(b) ==> covered(self.spec_regions(), self.spec_position())
                && self.spec_at_region().2 is Section && ({
                let blocks = self.spec_at_region().2->Section_0@.blocks;
                exists|j: int|
                    0 <= j < blocks.len() && holds(#[trigger] blocks[j], self.spec_local() as int)
                        && *b == blocks[j].2
            }),
            block is None ==> !(covered(self.spec_regions(), self.spec_position())
                && self.spec_at_region().2 is Section && held(
                self.spec_at_region().2->Section_0@.blocks,
                self.spec_local() as int,
            )),
    {
        match self.region_cursor() {
            Some((_, RegionCursor::Section(cursor))) => cursor.block(),
            _ => None,
        }
    }

    /// Gets the range of bytes at the cursor position whose meaning is not
    /// known: the stub of the headers, or the bytes of a section from the
    /// position up to its next block.
    pub fn unidentified(&self) -> (space: Option<AddressSpace>)
        requires
            self.inv(),
        ensures
            covered(self.spec_regions(), self.spec_position()) && region_unidentified(
                self.spec_at_region().2,
                self.spec_local(),
            ) ==> (space matches Some(sp) && sp.spec_start() == self.spec_at_region().0 + region_part(
                self.spec_at_region().2,
                self.spec_local(),
            ).0 && sp.spec_size() == region_part(self.spec_at_region().2, self.spec_local()).1),
            !(covered(self.spec_regions(), self.spec_position()) && region_unidentified(
                self.spec_at_region().2,
                self.spec_local(),
            )) ==> space is None,
    {
        proof {
            self.image.lemma_regions();
        }
        match self.region_cursor() {
            Some((a, RegionCursor::Headers(cursor))) => match cursor.unidentified() {
                Some(stub) => {
                    proof {
                        cursor.lemma_inv();
                        let h = cursor.spec_headers();
                        h.lemma_wf_size();
                        h.lemma_segment_header(1);
                        lemma_region_stops(self.spec_at_region().2, self.spec_local());
                    }
                    Some(
                        AddressSpace::new_valid(
                            Address::new(a + 64),
                            Size::new_valid(stub.len() as u64),
                        ),
                    )
                },
                None => None,
            },
            Some((a, RegionCursor::Section(cursor))) => match cursor.unidentified() {
                Some(space) => {
                    proof {
                        cursor.lemma_inv();
                        lemma_region_stops(self.spec_at_region().2, self.spec_local());
                        crate::memory::sparse::lemma_no_holder(
                            cursor.spec_section()@.blocks,
                            self.spec_local() as int,
                        );
                    }
                    Some(
                        AddressSpace::new_valid(
                            Address::new(a + space.address().value()),
                            space.size(),
                        ),
                    )
                },
                None => None,
            },
            None => None,
        }
    }

    /// Gets what this cursor shows: what the cursor over the region it is in
    /// shows, placed at the region's address; nothing outside the regions.
    pub fn inspect(&self) -> (inspection: Vec<Inspection>)
        requires
            self.inv(),
        ensures
            !covered(self.spec_regions(), self.spec_position()) ==> inspection@.len() == 0,
            covered(self.spec_regions(), self.spec_position()) ==> views(inspection@) == shifted(
                region_records(self.spec_at_region().2, self.spec_local()),
                (self.spec_base() + self.spec_at_region().0) as nat,
            ),
    {
        proof {
            self.image.lemma_regions();
        }
        match self.region_cursor() {
            Some((a, cursor)) => {
                let records = cursor.inspect();
                proof {
                    lemma_region_stops(self.spec_at_region().2, self.spec_local());
                    let s = self.spec_regions();
                    let j = holder(s, self.position as int);
                    assert(entry_end(s[j]) <= self@.size);
                }
                let base = if self.relative {
                    0
                } else {
                    self.image.address().value()
                };
                proof {
                    lemma_shift_within(views(records@), cursor.spec_size(), (base + a) as nat);
                }
                shift_all(records, base + a)
            },
            None => Vec::new(),
        }
    }
}

impl<'a> View for ImageCursor<'a> {
    type V = super::ImageView;

    /// The image the cursor is over.
    open spec fn view(&self) -> super::ImageView {
        self.spec_image()@
    }
}

impl Image {
    /// Gets a cursor at the start of the image.
    pub fn cursor(&self) -> (cursor: ImageCursor<'_>)
        requires
            self.wf(),
        ensures
            cursor.inv(),
            cursor.spec_position() == 0,
            cursor.spec_image() == *self,
            !cursor.spec_relative(),
    {
        ImageCursor::new(self)
    }
}

impl<'a> Cursor for ImageCursor<'a> {
    closed spec fn inv(&self) -> bool {
        self.image.wf() && self.position <= self.image@.size
    }

    open spec fn spec_size(&self) -> nat {
        self.spec_image()@.size
    }

    closed spec fn spec_position(&self) -> nat {
        self.position as nat
    }

    closed spec fn spec_at(&self, pos: nat) -> Self {
        ImageCursor { image: self.image, position: pos as u64, relative: self.relative }
    }

    /// Moving goes from one part of a region to the next, and from a region
    /// or a gap between regions to what follows it.
    open spec fn next_stop(&self, pos: nat) -> nat {
        image_stop(self.spec_regions(), pos, self.spec_size(), false)
    }

    /// Stepping goes from one field of a region to the next.
    open spec fn step_stop(&self, pos: nat) -> nat {
        image_stop(self.spec_regions(), pos, self.spec_size(), true)
    }

    proof fn lemma_size(&self) {
        self.image.lemma_regions();
    }

    proof fn lemma_at(&self, pos: nat, q: nat) {
    }

    proof fn lemma_stops(&self, pos: nat) {
        self.image.lemma_regions();
        let s = self.spec_regions();
        if held(s, pos as int) {
            let j = holder(s, pos as int);
            let e = s[j];
            let local = (pos - e.0) as nat;
            assert(entry_end(e) <= self@.size);
            if local < region_cursor_size(e.2) {
                lemma_region_stops(e.2, local);
            }
        } else {
            lemma_stop_after(s, pos as int, self@.size);
        }
    }

    fn position(&self) -> (position: Position) {
        Position(self.position)
    }

    fn seek(&mut self, position: Position) -> (result: Result<(), CursorError>) {
        let size = self.image.size().get();
        if position.0 > size {
            return Err(CursorError::OutOfBounds(position, size));
        }
        self.position = position.0;
        Ok(())
    }

    fn next(&mut self) -> (result: Result<Option<Position>, CursorError>) {
        self.go(false)
    }

    fn step(&mut self) -> (result: Result<Option<Position>, CursorError>) {
        self.go(true)
    }
}

impl<'a> ImageCursor<'a> {
    /// Moves the cursor as moving, or with `step` as stepping, goes.
    fn go(&mut self, step: bool) -> (result: Result<Option<Position>, CursorError>)
        requires
            old(self).inv(),
        ensures
            old(self).spec_position() == old(self).spec_size() ==> result == Ok::<
                Option<Position>,
                CursorError,
            >(None) && *final(self) == *old(self),
            old(self).spec_position() < old(self).spec_size() ==> *final(self) == old(self).spec_at(
                image_stop(old(self).spec_regions(), old(self).spec_position(), old(self).spec_size(), step),
            ) && result == Ok::<Option<Position>, CursorError>(
                crate::memory::cursor::moved_to(
                    image_stop(old(self).spec_regions(), old(self).spec_position(), old(self).spec_size(), step),
                    old(self).spec_size(),
                ),
            ),
    {
        proof {
            self.image.lemma_regions();
        }
        let size = self.image.size().get();
        if self.position == size {
            return Ok(None);
        }
        proof {
            self.lemma_stops(self.position as nat);
        }
        let stop = match self.locate() {
            Some((i, a, local)) => {
                let region = self.image.regions().item_at(i);
                let mut cursor = region.cursor();
                let ghost c0 = cursor;
                let extent = cursor.extent();
                if local < extent {
                    let _ = cursor.seek(Position(local));
                    proof {
                        c0.lemma_at(local as nat, local as nat);
                    }
                    let moved = if step {
                        cursor.step()
                    } else {
                        cursor.next()
                    };
                    match moved {
                        Ok(Some(p)) => a as u64 + p.0,
                        _ => a as u64 + extent,
                    }
                } else {
                    a as u64 + region.size().get()
                }
            },
            None => self.image.regions().stop_after(self.position),
        };
        self.position = stop;
        if stop == size {
            Ok(None)
        } else {
            Ok(Some(Position(stop)))
        }
    }
}

} // verus!
