//! The 32-bit Portable Executable (PE) image file.

pub mod cursor;
pub mod error;
pub mod padding;
pub mod region;

use vstd::prelude::*;

use crate::memory::sparse::{
    entry_end, holds, identified_sum, lemma_insert_map, lemma_rank_bound, map_entries, rank, spec_insert, Sparse,
};
use crate::memory::{Address, AddressSpace, Extent, Size, SizeError, SpaceError, ADDRESS_SPACE_END};
use crate::wire::ReadError;

use self::region::headers::header::section::SectionHeaderView;
use self::region::headers::{encode_headers, parse_headers, Headers, HeadersView};
use self::region::section::{decode_section, min, section_memory, zeros, Block, Section, SectionView};
use self::region::{Region, RegionView};

pub use self::error::{EncodeError, Error, InsertError};
pub use self::padding::Padding;

verus! {

/// What an image holds: its size in memory and its regions, in order of
/// their addresses relative to the image address.
pub struct ImageView {
    /// The number of bytes the image takes in memory.
    pub size: nat,
    /// The regions, each with its address, its size and what it holds.
    pub regions: Seq<(u32, nat, RegionView)>,
}

/// The view of a region.
pub open spec fn region_view(r: Region) -> RegionView {
    r@
}

/// The result of reading the sections that the headers describe, one after
/// the other from the input at `cursor`, where the file position `position`
/// has been reached, and of placing each in the regions of an image of
/// `total` bytes; `None` where a section starts before the end of the one
/// before it.
pub open spec fn decode_sections(
    s: Seq<u8>,
    headers: Seq<SectionHeaderView>,
    cursor: int,
    position: int,
    regions: Seq<(u32, nat, RegionView)>,
    total: nat,
) -> Option<Result<Seq<(u32, nat, RegionView)>, Error>>
    decreases headers.len(),
{
    if headers.len() == 0 {
        Some(Ok(regions))
    } else {
        let h = headers[0];
        let offset = h.pointer_to_raw_data as int;
        if offset < position {
            None
        } else if offset - position > s.len() - cursor {
            Some(
                Err(
                    Error::Section(
                        region::section::Error::Decode(
                            ReadError {
                                requested: (offset - position) as usize,
                                available: (s.len() - cursor) as usize,
                            },
                        ),
                    ),
                ),
            )
        } else {
            let at = cursor + (offset - position);
            match decode_section(s, at, h) {
                Err(e) => Some(Err(Error::Section(e))),
                Ok(section) => match spec_insert(
                    regions,
                    total,
                    h.virtual_address.0,
                    section.size,
                    RegionView::Section(section),
                ) {
                    Err(e) => Some(Err(Error::Sparse(e))),
                    Ok(r) => decode_sections(
                        s,
                        headers.drop_first(),
                        at + h.size_of_raw_data,
                        offset + h.size_of_raw_data,
                        r,
                        total,
                    ),
                },
            }
        }
    }
}

/// The result of reading an image from the input: its headers, then each
/// section at the file offset its header gives, placed at its address, and
/// the headers placed at the start; `None` where the headers cannot be read
/// on (see `parse_headers`) or a section starts before the end of the one
/// before it.
pub open spec fn decode_image(s: Seq<u8>) -> Option<Result<ImageView, Error>> {
    match parse_headers(s) {
        None => None,
        Some(Err(e)) => Some(Err(Error::Headers(e))),
        Some(Ok((hv, n))) => {
            let image_size = hv.optional.1.spec_size_of_image() as nat;
            let address = hv.optional.1.spec_image_base();
            if image_size == 0 {
                Some(Err(Error::Size(SizeError::Invalid(0))))
            } else if address.0 + image_size > ADDRESS_SPACE_END {
                Some(Err(Error::Space(SpaceError::Overflow(address, image_size as u64))))
            } else {
                let headers_size = hv.optional.1.spec_size_of_headers() as nat;
                match decode_sections(s, hv.sections, n as int, headers_size as int, seq![], image_size) {
                    None => None,
                    Some(Err(e)) => Some(Err(e)),
                    Some(Ok(regions)) => match spec_insert(
                        regions,
                        image_size,
                        0,
                        headers_size,
                        RegionView::Headers(hv),
                    ) {
                        Err(e) => Some(Err(Error::Sparse(e))),
                        Ok(r) => Some(Ok(ImageView { size: image_size, regions: r })),
                    },
                }
            }
        }
    }
}

/// The headers of an image: the first of its regions.
pub open spec fn image_headers(v: ImageView) -> HeadersView {
    v.regions[0].2->Headers_0
}

/// The sections of an image, in order of their addresses: the regions after
/// the first.
pub open spec fn image_sections(v: ImageView) -> Seq<SectionView> {
    v.regions.drop_first().map_values(|e: (u32, nat, RegionView)| e.2->Section_0)
}

/// The bytes of the sections in the file, from file position `position` on:
/// for each section header in turn, zeros up to its file offset, then as much
/// of the section in memory as its raw data size allows, then zeros up to
/// that size; `None` where a file offset lies before the position reached.
pub open spec fn encode_body(hs: Seq<SectionHeaderView>, ss: Seq<SectionView>, position: int) -> Option<Seq<u8>>
    decreases hs.len(),
{
    if hs.len() == 0 {
        Some(seq![])
    } else {
        let h = hs[0];
        let offset = h.pointer_to_raw_data as int;
        let file_size = h.size_of_raw_data as int;
        if offset < position {
            None
        } else {
            let kept = min(ss[0].size as int, file_size);
            match encode_body(hs.drop_first(), ss.drop_first(), offset + file_size) {
                None => None,
                Some(rest) => Some(
                    zeros((offset - position) as nat) + section_memory(ss[0]).take(kept) + zeros(
                        (file_size - kept) as nat,
                    ) + rest,
                ),
            }
        }
    }
}

/// The bytes of an image file: its headers, then its sections, paired in
/// order with the section headers; `None` where there are not as many
/// sections as section headers, or a section would start before the end of
/// the one before it.
pub open spec fn encode_image(v: ImageView) -> Option<Seq<u8>> {
    let hv = image_headers(v);
    let ss = image_sections(v);
    if hv.sections.len() != ss.len() {
        None
    } else {
        match encode_body(hv.sections, ss, hv.optional.1.spec_size_of_headers() as int) {
            None => None,
            Some(body) => Some(encode_headers(hv) + body),
        }
    }
}

/// The bytes that writing the sections from file position `position` on
/// appends before it stops: as `encode_body` gives them, up to the first
/// section header whose file offset lies before the position reached, where
/// writing stops; all of them where there is none.
pub open spec fn body_written(hs: Seq<SectionHeaderView>, ss: Seq<SectionView>, position: int) -> Seq<u8>
    decreases hs.len(),
{
    if hs.len() == 0 {
        seq![]
    } else {
        let h = hs[0];
        let offset = h.pointer_to_raw_data as int;
        let file_size = h.size_of_raw_data as int;
        if offset < position {
            seq![]
        } else {
            let kept = min(ss[0].size as int, file_size);
            zeros((offset - position) as nat) + section_memory(ss[0]).take(kept) + zeros((file_size - kept) as nat)
                + body_written(hs.drop_first(), ss.drop_first(), offset + file_size)
        }
    }
}

/// The bytes that writing an image file appends where it fails: nothing
/// where there are not as many sections as section headers; else the
/// headers, then the sections before the first one that would start before
/// the end of the one before it.
pub open spec fn encode_written(v: ImageView) -> Seq<u8> {
    let hv = image_headers(v);
    let ss = image_sections(v);
    if hv.sections.len() != ss.len() {
        seq![]
    } else {
        encode_headers(hv) + body_written(hv.sections, ss, hv.optional.1.spec_size_of_headers() as int)
    }
}

/// The number of identified bytes of a region.
pub open spec fn region_identified(r: RegionView) -> nat {
    match r {
        RegionView::Headers(hv) => region::headers::headers_identified(hv),
        RegionView::Section(sv) => identified_sum(sv.blocks),
    }
}

/// The number of identified bytes of the regions, together.
pub open spec fn regions_identified(s: Seq<(u32, nat, RegionView)>) -> nat
    decreases s.len(),
{
    if s.len() == 0 {
        0
    } else {
        regions_identified(s.drop_last()) + region_identified(s.last().2)
    }
}

/// The identified bytes of regions are those of their views.
proof fn lemma_regions_identified(s: Seq<(u32, nat, Region)>)
    ensures
        identified_sum(s) == regions_identified(map_entries(s, |r: Region| r@)),
    decreases s.len(),
{
    if s.len() > 0 {
        let f = |r: Region| r@;
        assert(map_entries(s, f).drop_last() =~= map_entries(s.drop_last(), f));
        lemma_regions_identified(s.drop_last());
    }
}

/// Replacing a region changes the identified bytes by the difference between
/// the new region and the old.
proof fn lemma_regions_identified_update(s: Seq<(u32, nat, RegionView)>, i: int, e: (u32, nat, RegionView))
    requires
        0 <= i < s.len(),
    ensures
        regions_identified(s.update(i, e)) + region_identified(s[i].2) == regions_identified(s) + region_identified(
            e.2,
        ),
    decreases s.len(),
{
    let t = s.update(i, e);
    if i == s.len() - 1 {
        assert(t.drop_last() =~= s.drop_last());
    } else {
        assert(t.drop_last() =~= s.drop_last().update(i, e));
        lemma_regions_identified_update(s.drop_last(), i, e);
    }
}

/// The result of placing a block at `relative`, an address relative to the
/// image address, in the `i`-th region of an image, which holds that address:
/// a section takes it at the offset of the address within it; headers take
/// no blocks.
pub open spec fn insert_block(v: ImageView, i: int, relative: int, block: Block) -> (Result<(), Error>, ImageView) {
    let e = v.regions[i];
    match e.2 {
        RegionView::Headers(_) => (Err(Error::Insert(InsertError::Unsupported(Address(relative as u32)))), v),
        RegionView::Section(sv) => match spec_insert(
            sv.blocks,
            sv.size,
            (relative - e.0) as u32,
            block.spec_size(),
            block,
        ) {
            Ok(blocks) => (
                Ok(()),
                ImageView {
                    size: v.size,
                    regions: v.regions.update(
                        i,
                        (
                            e.0,
                            e.1,
                            RegionView::Section(
                                SectionView { header: sv.header, size: sv.size, raw: sv.raw, blocks },
                            ),
                        ),
                    ),
                },
            ),
            Err(err) => (Err(Error::Section(region::section::Error::Blocks(err))), v),
        },
    }
}

/// The bytes from `a` up to `b` are zero.
pub open spec fn zero_between(s: Seq<u8>, a: int, b: int) -> bool {
    forall|i: int| a <= i < b ==> #[trigger] s[i] == 0
}

/// The sections that the headers describe are laid out in the file, from
/// file position `position` on, as encoding lays them out: each at an
/// address above that of the one before (above `last`), with zeros between
/// the raw data of one and that of the next, and zeros in its raw data past
/// its size in memory.
pub open spec fn sections_laid_out(s: Seq<u8>, hs: Seq<SectionHeaderView>, position: int, last: int) -> bool
    decreases hs.len(),
{
    if hs.len() == 0 {
        true
    } else {
        let h = hs[0];
        let offset = h.pointer_to_raw_data as int;
        let file_size = h.size_of_raw_data as int;
        &&& last < h.virtual_address.0
        &&& zero_between(s, position, offset)
        &&& zero_between(s, offset + min(file_size, h.virtual_size as int), offset + file_size)
        &&& sections_laid_out(s, hs.drop_first(), offset + file_size, h.virtual_address.0 as int)
    }
}

/// The file position past the raw data of the last of the sections, from
/// file position `position` on.
pub open spec fn sections_file_end(hs: Seq<SectionHeaderView>, position: int) -> int
    decreases hs.len(),
{
    if hs.len() == 0 {
        position
    } else {
        sections_file_end(hs.drop_first(), hs[0].pointer_to_raw_data + hs[0].size_of_raw_data)
    }
}

/// The file holds its headers up to the headers size, padded with zeros, and
/// its sections laid out as encoding lays them out.
pub open spec fn laid_out(s: Seq<u8>) -> bool {
    match parse_headers(s) {
        Some(Ok((hv, n))) => {
            &&& n == hv.optional.1.spec_size_of_headers()
            &&& zero_between(s, region::headers::sections_end(hv.dos, hv.optional, hv.sections.len()), n as int)
            &&& sections_laid_out(s, hv.sections, n as int, -1)
        },
        _ => false,
    }
}

/// The file position past the raw data of the last section of the file, or
/// past its headers.
pub open spec fn file_end(s: Seq<u8>) -> int {
    let (hv, n) = parse_headers(s)->Some_0->Ok_0;
    sections_file_end(hv.sections, n as int)
}

/// The sections that the headers describe, read one after the other from
/// file position `position` on, each at the file offset its header gives.
pub open spec fn section_views(s: Seq<u8>, hs: Seq<SectionHeaderView>, position: int) -> Seq<SectionView>
    decreases hs.len(),
{
    if hs.len() == 0 {
        seq![]
    } else {
        let h = hs[0];
        seq![decode_section(s, h.pointer_to_raw_data as int, h)->Ok_0] + section_views(
            s,
            hs.drop_first(),
            h.pointer_to_raw_data + h.size_of_raw_data,
        )
    }
}

/// Sections as the regions of an image, each at its address.
pub open spec fn section_regions(sections: Seq<SectionView>) -> Seq<(u32, nat, RegionView)> {
    sections.map_values(|sv: SectionView| (sv.header.virtual_address.0, sv.size, RegionView::Section(sv)))
}

/// Reading sections laid out as encoding lays them out places each after
/// the ones before, and encoding them gives back their bytes in the file.
proof fn lemma_sections_round_trip(
    s: Seq<u8>,
    hs: Seq<SectionHeaderView>,
    position: int,
    last: int,
    regions: Seq<(u32, nat, RegionView)>,
    total: nat,
)
    requires
        decode_sections(s, hs, position, position, regions, total) matches Some(Ok(_)),
        sections_laid_out(s, hs, position, last),
        forall|i: int| 0 <= i < regions.len() ==> (#[trigger] regions[i]).0 <= last,
        0 <= position <= s.len(),
    ensures
        decode_sections(s, hs, position, position, regions, total) == Some(
            Ok::<Seq<(u32, nat, RegionView)>, Error>(regions + section_regions(section_views(s, hs, position))),
        ),
        section_views(s, hs, position).len() == hs.len(),
        position <= sections_file_end(hs, position) <= s.len(),
        encode_body(hs, section_views(s, hs, position), position) == Some(
            s.subrange(position, sections_file_end(hs, position)),
        ),
    decreases hs.len(),
{
    let views = section_views(s, hs, position);
    if hs.len() == 0 {
        assert(regions + section_regions(views) =~= regions);
        assert(s.subrange(position, position) =~= Seq::<u8>::empty());
    } else {
        let h = hs[0];
        let offset = h.pointer_to_raw_data as int;
        let file_size = h.size_of_raw_data as int;
        let sv = decode_section(s, offset, h)->Ok_0;
        let e = (h.virtual_address.0, sv.size, RegionView::Section(sv));
        crate::memory::sparse::lemma_rank(regions, h.virtual_address.0 as int, regions.len() as int);
        let next = regions.push(e);
        assert(regions.insert(regions.len() as int, e) =~= next);
        assert forall|i: int| 0 <= i < next.len() implies (#[trigger] next[i]).0 <= h.virtual_address.0 by {
            if i < regions.len() {
                assert(next[i] == regions[i]);
            }
        }
        let rest = hs.drop_first();
        let end = offset + file_size;
        lemma_sections_round_trip(s, rest, end, h.virtual_address.0 as int, next, total);
        let rest_views = section_views(s, rest, end);
        assert(views == seq![sv] + rest_views);
        assert(views.drop_first() =~= rest_views);
        assert(section_regions(views) =~= seq![e] + section_regions(rest_views));
        assert(next + section_regions(rest_views) =~= regions + section_regions(views));
        let kept = min(sv.size as int, file_size);
        assert(sv.raw.len() == kept);
        assert(section_memory(sv).take(kept) =~= s.subrange(offset, offset + kept));
        let file_end = sections_file_end(rest, end);
        assert(zeros((offset - position) as nat) =~= s.subrange(position, offset));
        assert(zeros((file_size - kept) as nat) =~= s.subrange(offset + kept, end));
        assert(zeros((offset - position) as nat) + section_memory(sv).take(kept) + zeros((file_size - kept) as nat)
            + s.subrange(end, file_end) =~= s.subrange(position, file_end));
    }
}

/// The region is the section read for one of the section headers, placed at
/// the address that header gives.
pub open spec fn placed_section(e: (u32, nat, RegionView), headers: Seq<SectionHeaderView>) -> bool {
    exists|j: int|
        0 <= j < headers.len() && e.0 == headers[j].virtual_address.0 && e.2 is Section && (#[trigger] headers[j])
            == e.2->Section_0.header
}

/// Reading sections adds one region for each section header: the section
/// read for that header, at the address it gives.
proof fn lemma_decode_sections_count(
    s: Seq<u8>,
    headers: Seq<SectionHeaderView>,
    cursor: int,
    position: int,
    regions: Seq<(u32, nat, RegionView)>,
    total: nat,
)
    requires
        decode_sections(s, headers, cursor, position, regions, total) matches Some(Ok(_)),
    ensures
        decode_sections(s, headers, cursor, position, regions, total) matches Some(Ok(r)) && r.len()
            == regions.len() + headers.len() && forall|k: int|
            0 <= k < r.len() ==> regions.contains(#[trigger] r[k]) || placed_section(r[k], headers),
    decreases headers.len(),
{
    if headers.len() > 0 {
        let h = headers[0];
        let offset = h.pointer_to_raw_data as int;
        let at = cursor + (offset - position);
        let section = decode_section(s, at, h)->Ok_0;
        let entry = (h.virtual_address.0, section.size, RegionView::Section(section));
        let i = rank(regions, h.virtual_address.0 as int);
        lemma_rank_bound(regions, h.virtual_address.0 as int);
        let r = regions.insert(i as int, entry);
        let tail = headers.drop_first();
        lemma_decode_sections_count(s, tail, at + h.size_of_raw_data, offset + h.size_of_raw_data, r, total);
        let result = decode_sections(s, headers, cursor, position, regions, total)->Some_0->Ok_0;
        assert(placed_section(entry, headers)) by {
            assert(headers[0] == h);
        }
        assert forall|k: int| 0 <= k < result.len() implies regions.contains(#[trigger] result[k])
            || placed_section(result[k], headers) by {
            let x = result[k];
            if placed_section(x, tail) {
                let j = choose|j: int|
                    0 <= j < tail.len() && x.0 == tail[j].virtual_address.0 && x.2 is Section && (#[trigger] tail[j])
                        == x.2->Section_0.header;
                assert(headers[j + 1] == tail[j]);
            } else {
                assert(r.contains(x));
                let m = choose|m: int| 0 <= m < r.len() && r[m] == x;
                if m < i {
                    assert(r[m] == regions[m]);
                } else if m > i {
                    assert(r[m] == regions[m - 1]);
                }
            }
        }
    } else {
        let r = decode_sections(s, headers, cursor, position, regions, total)->Some_0->Ok_0;
        assert forall|k: int| 0 <= k < r.len() implies regions.contains(#[trigger] r[k]) || placed_section(
            r[k],
            headers,
        ) by {
            assert(regions[k] == r[k]);
        }
    }
}

/// Reading an image places the headers read from the start of the input at
/// address zero, as the first of its regions, and after them one section for
/// each section header: the section read for it, at the address it gives.
pub proof fn lemma_decode_layout(s: Seq<u8>)
    requires
        decode_image(s) matches Some(Ok(_)),
    ensures
        parse_headers(s) matches Some(Ok((hv, _))) && decode_image(s) matches Some(Ok(v)) && ({
            &&& image_headers(v) == hv
            &&& v.regions[0].0 == 0
            &&& v.regions.len() == hv.sections.len() + 1
            &&& image_sections(v).len() == hv.sections.len()
            &&& forall|k: int| 1 <= k < v.regions.len() ==> placed_section(#[trigger] v.regions[k], hv.sections)
        }),
{
    let (hv, n) = parse_headers(s)->Some_0->Ok_0;
    let image_size = hv.optional.1.spec_size_of_image() as nat;
    let headers_size = hv.optional.1.spec_size_of_headers() as nat;
    lemma_decode_sections_count(s, hv.sections, n as int, headers_size as int, seq![], image_size);
    let regions = decode_sections(s, hv.sections, n as int, headers_size as int, seq![], image_size)->Some_0->Ok_0;
    assert(rank(regions, 0) == 0);
    let v = decode_image(s)->Some_0->Ok_0;
    assert(v.regions == regions.insert(0, (0u32, headers_size, RegionView::Headers(hv))));
    assert forall|k: int| 1 <= k < v.regions.len() implies placed_section(#[trigger] v.regions[k], hv.sections) by {
        assert(v.regions[k] == regions[k - 1]);
    }
}

/// Encoding an image read from a file gives back the file up to the end of
/// the raw data of its last section, where the file is laid out as encoding
/// lays it out: its headers reach the headers size, padded with zeros; its
/// sections come in the order of their addresses; and the bytes between the
/// raw data of one section and that of the next, and the raw data past a
/// section's size in memory, are zero.
pub proof fn lemma_decode_encode(s: Seq<u8>)
    requires
        decode_image(s) matches Some(Ok(_)),
        laid_out(s),
    ensures
        decode_image(s) matches Some(Ok(v)) && file_end(s) <= s.len() && encode_image(v) == Some(
            s.take(file_end(s)),
        ),
{
    let (hv, n) = parse_headers(s)->Some_0->Ok_0;
    let total = hv.optional.1.spec_size_of_image() as nat;
    let headers_size = hv.optional.1.spec_size_of_headers() as nat;
    region::headers::lemma_parsed_len(s);
    region::headers::lemma_encode_parse(s);
    lemma_sections_round_trip(s, hv.sections, n as int, -1, seq![], total);
    let views = section_views(s, hv.sections, n as int);
    let regions = section_regions(views);
    assert(Seq::<(u32, nat, RegionView)>::empty() + regions =~= regions);
    let head = (0u32, headers_size, RegionView::Headers(hv));
    let r = regions.insert(rank(regions, 0) as int, head);
    assert(rank(regions, 0) == 0);
    let v = ImageView { size: total, regions: r };
    assert(decode_image(s) == Some(Ok::<ImageView, Error>(v)));
    assert(image_headers(v) == hv);
    assert(r.drop_first() =~= regions);
    assert(image_sections(v) =~= views);
    let end = sections_file_end(hv.sections, n as int);
    assert(encode_headers(hv) + s.subrange(n as int, end) =~= s.take(end));
}

/// The segments of an image from address `pos` on: each region, and before
/// it the gap since the one before, then the gap up to the end of the image;
/// each with its address, its size, and its region where it has one.
pub open spec fn segments_from(s: Seq<(u32, nat, Region)>, pos: nat, total: nat) -> Seq<(u32, nat, Option<Region>)>
    decreases s.len(),
{
    if s.len() == 0 {
        if pos < total {
            seq![(pos as u32, (total - pos) as nat, None)]
        } else {
            seq![]
        }
    } else {
        let e = s[0];
        let gap = if pos < e.0 {
            seq![(pos as u32, (e.0 - pos) as nat, None)]
        } else {
            seq![]
        };
        gap + seq![(e.0, e.1, Some(e.2))] + segments_from(s.drop_first(), (e.0 + e.1) as nat, total)
    }
}

/// A segment of an image: a region, or a gap between regions.
#[derive(Debug)]
pub enum Segment<'a> {
    Occupied(&'a Region),
    Unoccupied,
}

/// The segment holds what the spec entry says: its region, or none.
pub open spec fn segment_matches(segment: Segment, region: Option<Region>) -> bool {
    match segment {
        Segment::Occupied(r) => region == Some(*r),
        Segment::Unoccupied => region is None,
    }
}

/// A 32-bit Portable Executable (PE) image file analysis.
#[derive(Debug)]
pub struct Image {
    regions: Sparse<Region>,
}

impl View for Image {
    type V = ImageView;

    closed spec fn view(&self) -> ImageView {
        ImageView {
            size: self.regions.spec_size(),
            regions: map_entries(self.regions.spec_entries(), |r: Region| r@),
        }
    }
}

impl Image {
    /// The regions are valid and in order, the headers first, at the start of
    /// the image, then the sections; the image fits the address space.
    pub closed spec fn wf(&self) -> bool {
        let entries = self.regions.spec_entries();
        &&& self.regions.wf()
        &&& entries.len() >= 1
        &&& entries[0].0 == 0
        &&& entries[0].2 is Headers
        &&& forall|i: int| 1 <= i < entries.len() ==> (#[trigger] entries[i]).2 is Section
        &&& self.spec_address().0 + self.regions.spec_size() <= ADDRESS_SPACE_END
    }

    /// The address of the image: the image base that the headers give.
    pub closed spec fn spec_address(&self) -> Address {
        self.regions.spec_entries()[0].2->Headers_0@.optional.1.spec_image_base()
    }

    /// The regions, each with its address, its size and the region itself.
    pub closed spec fn spec_regions(&self) -> Seq<(u32, nat, Region)> {
        self.regions.spec_entries()
    }

    /// What well-formedness gives of the regions.
    pub proof fn lemma_regions(&self)
        requires
            self.wf(),
        ensures
            self@.regions == map_entries(self.spec_regions(), |r: Region| r@),
            crate::memory::sparse::within(self.spec_regions(), self@.size),
            crate::memory::sparse::disjoint(self.spec_regions()),
            crate::memory::sparse::disjoint(self@.regions),
            forall|i: int| 0 <= i < self.spec_regions().len() ==> (#[trigger] self.spec_regions()[i]).2.valid()
                && self.spec_regions()[i].1 == self.spec_regions()[i].2.spec_size(),
            self.spec_address().0 + self@.size <= ADDRESS_SPACE_END,
            1 <= self@.size <= ADDRESS_SPACE_END,
    {
        self.regions.lemma_wf();
        let s = self.spec_regions();
        let m = self@.regions;
        assert forall|i: int, j: int| 0 <= i < j < m.len() implies entry_end(#[trigger] m[i]) <= (#[trigger] m[j]).0 by {
            assert(entry_end(s[i]) <= s[j].0);
        }
    }

    /// Gets the segments of the image, in order: each region, and the gaps
    /// before, between and after them; each with its address and its size.
    pub fn segments(&self) -> (segments: Vec<(u32, u64, Segment<'_>)>)
        requires
            self.wf(),
        ensures
            segments@.len() == segments_from(self.spec_regions(), 0, self@.size).len(),
            forall|i: int|
                0 <= i < segments@.len() ==> {
                    let spec = segments_from(self.spec_regions(), 0, self@.size)[i];
                    &&& (#[trigger] segments@[i]).0 == spec.0
                    &&& segments@[i].1 == spec.1
                    &&& segment_matches(segments@[i].2, spec.2)
                },
    {
        proof {
            self.lemma_regions();
        }
        let ghost s = self.spec_regions();
        let ghost total = self@.size;
        let regions = &self.regions;
        let mut segments: Vec<(u32, u64, Segment<'_>)> = Vec::new();
        let ghost mut done: Seq<(u32, nat, Option<Region>)> = seq![];
        let mut pos: u64 = 0;
        let mut i: usize = 0;
        assert(s.skip(0) =~= s);
        while i < regions.len()
            invariant
                s == regions.spec_entries(),
                total == regions.spec_size(),
                regions.wf(),
                i <= s.len(),
                pos <= total,
                i < s.len() ==> pos <= s[i as int].0,
                i > 0 ==> pos == crate::memory::sparse::entry_end(s[i - 1]),
                crate::memory::sparse::within(s, total),
                crate::memory::sparse::disjoint(s),
                forall|j: int| 0 <= j < s.len() ==> (#[trigger] s[j]).2.valid() && s[j].1 == s[j].2.spec_size(),
                segments_from(s, 0, total) == done + segments_from(s.skip(i as int), pos as nat, total),
                segments@.len() == done.len(),
                forall|j: int|
                    0 <= j < segments@.len() ==> {
                        &&& (#[trigger] segments@[j]).0 == done[j].0
                        &&& segments@[j].1 == done[j].1
                        &&& segment_matches(segments@[j].2, done[j].2)
                    },
            decreases s.len() - i,
        {
            let start = regions.address_at(i);
            let region = regions.item_at(i);
            proof {
                s[i as int].2.lemma_bounds();
                assert(s.skip(i as int)[0] == s[i as int]);
                assert(s.skip(i as int).drop_first() =~= s.skip(i + 1));
            }
            let size = region.size().get();
            let ghost gap = if pos < start {
                seq![(pos as u32, (start - pos) as nat, None::<Region>)]
            } else {
                seq![]
            };
            if pos < start as u64 {
                segments.push((pos as u32, start as u64 - pos, Segment::Unoccupied));
            }
            segments.push((start, size, Segment::Occupied(region)));
            proof {
                let entry = (start, size as nat, Some(*region));
                assert(segments_from(s.skip(i as int), pos as nat, total) == gap + seq![entry] + segments_from(
                    s.skip(i + 1),
                    (start + size) as nat,
                    total,
                ));
                done = done + gap + seq![entry];
                assert(segments_from(s, 0, total) =~= done + segments_from(s.skip(i + 1), (start + size) as nat, total));
                if i + 1 < s.len() {
                    assert(crate::memory::sparse::entry_end(s[i as int]) <= s[i + 1].0);
                }
            }
            pos = start as u64 + size;
            i = i + 1;
        }
        let ghost last = if pos < total {
            seq![(pos as u32, (total - pos) as nat, None::<Region>)]
        } else {
            seq![]
        };
        proof {
            assert(s.skip(i as int) =~= Seq::<(u32, nat, Region)>::empty());
        }
        let total_size = self.regions.size().get();
        if pos < total_size {
            segments.push((pos as u32, total_size - pos, Segment::Unoccupied));
        }
        proof {
            done = done + last;
            assert(segments_from(s, 0, total) =~= done);
        }
        segments
    }

    /// Gets the regions of the image, in order of their addresses.
    pub fn regions(&self) -> (regions: &Sparse<Region>)
        ensures
            regions.spec_entries() == self.spec_regions(),
            self.wf() ==> regions.wf() && regions.spec_size() == self@.size,
    {
        &self.regions
    }

    /// The number of bytes of the image whose meaning is known.
    pub closed spec fn spec_identified(&self) -> nat {
        identified_sum(self.regions.spec_entries())
    }

    /// What well-formedness gives of the view.
    pub proof fn lemma_wf(&self)
        requires
            self.wf(),
        ensures
            self@.regions.len() >= 1,
            self@.regions[0].0 == 0,
            self@.regions[0].2 is Headers,
            forall|i: int| 1 <= i < self@.regions.len() ==> (#[trigger] self@.regions[i]).2 is Section,
            self.spec_address() == image_headers(self@).optional.1.spec_image_base(),
            self.spec_address().0 + self@.size <= ADDRESS_SPACE_END,
            1 <= self@.size,
    {
        self.regions.lemma_wf();
        let entries = self.regions.spec_entries();
        assert forall|i: int| 1 <= i < self@.regions.len() implies (#[trigger] self@.regions[i]).2 is Section by {
            assert(self@.regions[i].2 == entries[i].2@);
            assert(entries[i].2 is Section);
        }
    }

    /// Gets the mapped image headers.
    pub fn headers(&self) -> (headers: &Headers)
        requires
            self.wf(),
        ensures
            headers@ == image_headers(self@),
            headers.wf(),
    {
        proof {
            self.regions.lemma_wf();
        }
        self.regions.item_at(0).as_headers().unwrap()
    }

    /// Gets the sections, in order of their addresses.
    pub fn sections(&self) -> (sections: Vec<&Section>)
        requires
            self.wf(),
        ensures
            sections@.len() == image_sections(self@).len(),
            forall|j: int| 0 <= j < sections@.len() ==> (#[trigger] sections@[j])@ == image_sections(self@)[j]
                && sections@[j].wf(),
    {
        proof {
            self.regions.lemma_wf();
        }
        let ghost entries = self.regions.spec_entries();
        let mut sections: Vec<&Section> = Vec::new();
        let mut i: usize = 1;
        while i < self.regions.len()
            invariant
                self.wf(),
                entries == self.regions.spec_entries(),
                1 <= i <= entries.len(),
                forall|j: int| 0 <= j < entries.len() ==> (#[trigger] entries[j]).2.valid(),
                sections@.len() == i - 1,
                forall|j: int| 0 <= j < sections@.len() ==> (#[trigger] sections@[j])@ == image_sections(self@)[j]
                    && sections@[j].wf(),
            decreases entries.len() - i,
        {
            let section = self.regions.item_at(i).as_section().unwrap();
            sections.push(section);
            i = i + 1;
        }
        sections
    }

    /// Gets the virtual address of the image.
    pub fn address(&self) -> (address: Address)
        requires
            self.wf(),
        ensures
            address == self.spec_address(),
            address == image_headers(self@).optional.1.spec_image_base(),
    {
        proof {
            self.regions.lemma_wf();
        }
        self.headers().optional().image_address()
    }

    /// Gets the number of bytes the image takes in memory.
    pub fn size(&self) -> (size: Size)
        ensures
            size.spec_get() == self@.size,
    {
        self.regions.size()
    }

    /// Gets the range of addresses the image takes in memory.
    pub fn address_space(&self) -> (space: AddressSpace)
        requires
            self.wf(),
        ensures
            space.spec_start() == self.spec_address().spec_value(),
            space.spec_size() == self@.size,
    {
        let address = self.address();
        AddressSpace::new_valid(address, self.size())
    }

    /// Gets the number of bytes of the image whose meaning is known.
    pub fn identified(&self) -> (count: u64)
        requires
            self.wf(),
        ensures
            count == regions_identified(self@.regions),
    {
        proof {
            lemma_regions_identified(self.regions.spec_entries());
        }
        self.regions.identified()
    }

    /// Places a block at the given address, within the section that holds it.
    ///
    /// Fails where the address lies below the image address, where no section
    /// holds the address, and where the section cannot take the block.
    pub fn insert(&mut self, address: Address, block: Block) -> (result: Result<(), Error>)
        requires
            old(self).wf(),
        ensures
            final(self).wf(),
            final(self).spec_address() == old(self).spec_address(),
            address.spec_value() < old(self).spec_address().spec_value() ==> final(self)@ == old(self)@,
            address.spec_value() < old(self).spec_address().spec_value() && address.spec_value()
                + block.spec_size() > ADDRESS_SPACE_END ==> result == Err::<(), Error>(
                Error::Space(SpaceError::Overflow(address, block.spec_size() as u64)),
            ),
            address.spec_value() < old(self).spec_address().spec_value() && address.spec_value()
                + block.spec_size() <= ADDRESS_SPACE_END ==> (result matches Err(
                Error::Insert(InsertError::OutOfBounds(a, b)),
            ) && a.spec_start() == address.spec_value() && a.spec_size() == block.spec_size()
                && b.spec_start() == old(self).spec_address().spec_value() && b.spec_size() == old(self)@.size),
            address.spec_value() >= old(self).spec_address().spec_value() && (forall|i: int|
                0 <= i < old(self)@.regions.len() ==> !holds(
                    #[trigger] old(self)@.regions[i],
                    address.spec_value() - old(self).spec_address().spec_value(),
                )) ==> result == Err::<(), Error>(
                Error::Insert(
                    InsertError::Unsupported(
                        Address((address.spec_value() - old(self).spec_address().spec_value()) as u32),
                    ),
                ),
            ) && final(self)@ == old(self)@,
            forall|i: int|
                address.spec_value() >= old(self).spec_address().spec_value() && 0 <= i < old(self)@.regions.len()
                    && holds(
                    #[trigger] old(self)@.regions[i],
                    address.spec_value() - old(self).spec_address().spec_value(),
                ) ==> (result, final(self)@) == insert_block(
                    old(self)@,
                    i,
                    address.spec_value() - old(self).spec_address().spec_value(),
                    block,
                ),
            result is Ok ==> regions_identified(final(self)@.regions) == regions_identified(old(self)@.regions)
                + block.spec_size(),
            result is Err ==> final(self)@ == old(self)@,
    {
        proof {
            self.regions.lemma_wf();
            self.lemma_wf();
        }
        let ghost f = |r: Region| r@;
        let ghost entries = self.regions.spec_entries();
        let ghost v = self@;
        let block = block.checked();
        let base = self.address().value();
        if address.value() < base {
            let space = match address.to_space(block.size()) {
                Ok(space) => space,
                Err(e) => {
                    return Err(Error::Space(e));
                },
            };
            return Err(Error::Insert(InsertError::OutOfBounds(space, self.address_space())));
        }
        let relative = address.value() - base;
        let index = match self.regions.find(relative) {
            Some(index) => index,
            None => {
                proof {
                    assert forall|i: int| 0 <= i < v.regions.len() implies !holds(#[trigger] v.regions[i], relative as int) by {
                        assert(v.regions[i].0 == entries[i].0 && v.regions[i].1 == entries[i].1);
                    }
                }
                return Err(Error::Insert(InsertError::Unsupported(Address::new(relative))));
            },
        };
        proof {
            assert(v.regions[index as int].0 == entries[index as int].0 && v.regions[index as int].1 == entries[index as int].1);
            assert(holds(v.regions[index as int], relative as int));
            assert forall|i: int| 0 <= i < v.regions.len() && holds(#[trigger] v.regions[i], relative as int) implies i
                == index by {
                assert(v.regions[i].0 == entries[i].0 && v.regions[i].1 == entries[i].1);
                if i < index {
                    assert(crate::memory::sparse::entry_end(entries[i]) <= entries[index as int].0);
                } else if i > index {
                    assert(crate::memory::sparse::entry_end(entries[index as int]) <= entries[i].0);
                }
            }
        }
        if self.regions.item_at(index).is_headers() {
            return Err(Error::Insert(InsertError::Unsupported(Address::new(relative))));
        }
        let (start, region) = self.regions.remove(index);
        match region {
            Region::Section(mut section) => {
                let result = section.insert(Address::new(relative - start), block);
                let ghost after = section;
                let region = Region::section(section);
                proof {
                    if index > 0 {
                        assert(crate::memory::sparse::entry_end(entries[index - 1]) <= entries[index as int].0);
                    }
                    if index + 1 < entries.len() {
                        assert(crate::memory::sparse::entry_end(entries[index as int]) <= entries[index + 1].0);
                    }
                }
                self.regions.insert_at(index, start, region);
                proof {
                    let now = self.regions.spec_entries();
                    assert(now =~= entries.update(index as int, (start, entries[index as int].1, region)));
                    assert(map_entries(now, f) =~= v.regions.update(
                        index as int,
                        (start, entries[index as int].1, RegionView::Section(after@)),
                    ));
                    assert forall|j: int| 1 <= j < now.len() implies (#[trigger] now[j]).2 is Section by {
                        assert(now[j] == entries[j] || j == index);
                    }
                    if result is Err {
                        assert(after@ == entries[index as int].2->Section_0@);
                        assert(map_entries(now, f) =~= v.regions);
                    } else {
                        let old_section = entries[index as int].2->Section_0@;
                        let k = rank(old_section.blocks, (relative - start) as int) as int;
                        lemma_rank_bound(old_section.blocks, (relative - start) as int);
                        crate::memory::sparse::lemma_identified_sum_insert(
                            old_section.blocks,
                            k,
                            ((relative - start) as u32, block.spec_size(), block),
                        );
                        block.lemma_identified();
                        lemma_regions_identified_update(
                            v.regions,
                            index as int,
                            (start, entries[index as int].1, RegionView::Section(after@)),
                        );
                    }
                }
                match result {
                    Ok(()) => Ok(()),
                    Err(e) => Err(Error::Section(e)),
                }
            },
            Region::Headers(_) => {
                proof {
                    assert(false);
                }
                Err(Error::Insert(InsertError::Unsupported(Address::new(relative))))
            },
        }
    }

    /// Appends the bytes of the image file: the headers, then each section at
    /// the file offset its header gives (see [`encode_image`]). Where the
    /// sections do not fit the section headers it fails, having appended what
    /// it wrote up to there (see [`encode_written`]).
    #[verifier::rlimit(50)]
    pub fn encode(&self, out: &mut Vec<u8>) -> (result: Result<(), EncodeError>)
        requires
            self.wf(),
        ensures
            encode_image(self@) matches Some(bytes) ==> result is Ok && final(out)@ == old(out)@ + bytes,
            encode_image(self@) is None ==> result == Err::<(), EncodeError>(EncodeError::InvalidLayout)
                && final(out)@ == old(out)@ + encode_written(self@),
    {
        let headers = self.headers();
        let sections = self.sections();
        let header_list = headers.sections();
        let ghost hv = image_headers(self@);
        let ghost ss = image_sections(self@);
        let ghost hs = hv.sections;
        let ghost start = out@;
        assert(header_list@.map_values(|h: region::headers::SectionHeader| h@) == hs);
        if header_list.len() != sections.len() {
            assert(out@ =~= start + encode_written(self@));
            return Err(EncodeError::InvalidLayout);
        }
        headers.encode(out);
        let mut position: u64 = headers.size();
        assert(hs.skip(0) =~= hs);
        assert(ss.skip(0) =~= ss);
        let ghost mut written: Seq<u8> = encode_headers(hv);
        assert(out@ =~= start + written);
        let mut i: usize = 0;
        while i < header_list.len()
            invariant
                i <= header_list@.len(),
                header_list@.len() == hs.len(),
                sections@.len() == ss.len(),
                hs.len() == ss.len(),
                forall|j: int| 0 <= j < hs.len() ==> (#[trigger] header_list@[j])@ == hs[j],
                forall|j: int| 0 <= j < ss.len() ==> (#[trigger] sections@[j])@ == ss[j] && sections@[j].wf(),
                out@ == start + written,
                start == old(out)@,
                encode_image(self@) == match encode_body(hs.skip(i as int), ss.skip(i as int), position as int) {
                    None => None,
                    Some(rest) => Some(written + rest),
                },
                encode_written(self@) == written + body_written(hs.skip(i as int), ss.skip(i as int), position as int),
            decreases header_list.len() - i,
        {
            let h = &header_list[i];
            let section = sections[i];
            let ghost rest_h = hs.skip(i as int);
            let ghost rest_s = ss.skip(i as int);
            assert(rest_h[0] == h@ && rest_s[0] == section@);
            assert(rest_h.drop_first() =~= hs.skip(i as int + 1));
            assert(rest_s.drop_first() =~= ss.skip(i as int + 1));
            let offset = h.file_offset() as u64;
            let file_size = h.file_size() as u64;
            if offset < position {
                assert(body_written(rest_h, rest_s, position as int) =~= Seq::<u8>::empty());
                assert(written + Seq::<u8>::empty() =~= written);
                return Err(EncodeError::InvalidLayout);
            }
            let ghost before = out@;
            if offset > position {
                Padding::new(Size::new_valid(offset - position), 0).encode(out);
            }
            assert(out@ =~= before + zeros((offset - position) as nat));
            let section_size = section.size().get();
            let kept = if section_size <= file_size {
                section_size
            } else {
                file_size
            };
            section.encode_prefix(out, kept);
            let ghost middle = out@;
            if file_size > kept {
                Padding::new(Size::new_valid(file_size - kept), 0).encode(out);
            }
            assert(out@ =~= middle + zeros((file_size - kept) as nat));
            let ghost piece = zeros((offset - position) as nat) + section_memory(section@).take(kept as int) + zeros(
                (file_size - kept) as nat,
            );
            proof {
                assert(out@ =~= start + (written + piece));
                match encode_body(hs.skip(i as int + 1), ss.skip(i as int + 1), offset + file_size) {
                    None => {},
                    Some(rest) => {
                        assert(written + (piece + rest) =~= (written + piece) + rest);
                    },
                }
                assert(written + (piece + body_written(hs.skip(i as int + 1), ss.skip(i as int + 1), offset
                    + file_size)) =~= (written + piece) + body_written(
                    hs.skip(i as int + 1),
                    ss.skip(i as int + 1),
                    offset + file_size,
                ));
                written = written + piece;
            }
            position = offset + file_size;
            i = i + 1;
        }
        assert(hs.skip(i as int) =~= Seq::<SectionHeaderView>::empty());
        assert(written + Seq::<u8>::empty() =~= written);
        Ok(())
    }

    /// Reads an image from the input: its headers, then its sections, each
    /// placed at its address; `None` where the headers cannot be read on or a
    /// section starts in the file before the end of the one before it (see
    /// [`decode_image`]).
    #[verifier::rlimit(50)]
    #[verifier::loop_isolation(false)]
    pub fn decode_guarded(data: &[u8]) -> (decoded: Option<Result<Image, Error>>)
        ensures
            decoded is None <==> decode_image(data@) is None,
            decoded matches Some(Ok(image)) ==> image.wf() && decode_image(data@) == Some(
                Ok::<ImageView, Error>(image@),
            ),
            decoded matches Some(Err(e)) ==> decode_image(data@) == Some(Err::<ImageView, Error>(e)),
    {
        let (headers, n) = match Headers::parse_guarded(data) {
            None => {
                return None;
            },
            Some(Err(e)) => {
                return Some(Err(Error::Headers(e)));
            },
            Some(Ok(parsed)) => parsed,
        };
        let ghost hv = headers@;
        proof {
            headers.lemma_wf_size();
        }
        let image_size = match Size::new(headers.optional().image_size() as u64) {
            Ok(size) => size,
            Err(e) => {
                return Some(Err(Error::Size(e)));
            },
        };
        match headers.optional().image_address().to_space(image_size) {
            Ok(_) => {},
            Err(e) => {
                return Some(Err(Error::Space(e)));
            },
        }
        let ghost total = image_size.spec_get() as nat;
        let ghost f = |r: Region| r@;
        let mut regions: Sparse<Region> = Sparse::new(image_size);
        let mut position: u64 = headers.size();
        let mut cursor: usize = n;
        let sections = headers.sections();
        let ghost all = hv.sections;
        assert(sections@.map_values(|h: region::headers::SectionHeader| h@) == all);
        assert(map_entries(regions.spec_entries(), f) =~= Seq::<(u32, nat, RegionView)>::empty());
        assert(all.skip(0) =~= all);
        let mut i: usize = 0;
        while i < sections.len()
            invariant
                i <= sections@.len(),
                sections@.len() == all.len(),
                forall|j: int| 0 <= j < all.len() ==> (#[trigger] sections@[j])@ == all[j],
                forall|j: int| 0 <= j < sections@.len() ==> (#[trigger] sections@[j]).wf(),
                cursor <= data@.len(),
                regions.wf(),
                regions.spec_size() == total,
                forall|j: int| 0 <= j < regions.spec_entries().len() ==> (#[trigger] regions.spec_entries()[j]).2 is Section,
                decode_sections(data@, all, n as int, hv.optional.1.spec_size_of_headers() as int, seq![], total)
                    == decode_sections(data@, all.skip(i as int), cursor as int, position as int, map_entries(regions.spec_entries(), f), total),
            decreases sections.len() - i,
        {
            let h = &sections[i];
            let ghost rest = all.skip(i as int);
            assert(rest[0] == h@);
            assert(rest.drop_first() =~= all.skip(i as int + 1));
            let offset = h.file_offset() as u64;
            if offset < position {
                return None;
            }
            let skip = offset - position;
            if skip > (data.len() - cursor) as u64 {
                return Some(
                    Err(
                        Error::Section(
                            region::section::Error::Decode(
                                ReadError { requested: skip as usize, available: data.len() - cursor },
                            ),
                        ),
                    ),
                );
            }
            let at = cursor + skip as usize;
            let section = match Section::decode(data, at, h) {
                Ok(section) => section,
                Err(e) => {
                    return Some(Err(Error::Section(e)));
                },
            };
            let address = h.section_address().value();
            let ghost before = regions.spec_entries();
            let region = Region::section(section);
            proof {
                lemma_insert_map(before, total, address, region.spec_size(), region, f);
            }
            match regions.insert(address, region) {
                Ok(()) => {},
                Err(e) => {
                    return Some(Err(Error::Sparse(e)));
                },
            }
            proof {
                let k = rank(before, address as int) as int;
                lemma_rank_bound(before, address as int);
                let after = regions.spec_entries();
                assert forall|j: int| 0 <= j < after.len() implies (#[trigger] after[j]).2 is Section by {
                    if j < k {
                        assert(after[j] == before[j]);
                    } else if j > k {
                        assert(after[j] == before[j - 1]);
                    }
                }
            }
            cursor = at + h.file_size();
            position = offset + h.file_size() as u64;
            i = i + 1;
        }
        assert(all.skip(sections@.len() as int) =~= Seq::<SectionHeaderView>::empty());
        let ghost before = regions.spec_entries();
        let region = Region::headers(headers);
        proof {
            lemma_insert_map(before, total, 0, region.spec_size(), region, f);
        }
        match regions.insert(0, region) {
            Ok(()) => {},
            Err(e) => {
                return Some(Err(Error::Sparse(e)));
            },
        }
        let image = Image { regions };
        proof {
            let after = image.regions.spec_entries();
            assert(rank(before, 0) == 0);
            assert(after[0].2 == region);
            assert forall|j: int| 1 <= j < after.len() implies (#[trigger] after[j]).2 is Section by {
                assert(after[j] == before[j - 1]);
            }
        }
        Some(Ok(image))
    }

    /// Reads an image from the input, where the headers can be read on and
    /// the sections come in file order (see [`decode_image`]).
    pub fn decode(data: &[u8]) -> (decoded: Result<Image, Error>)
        requires
            decode_image(data@) is Some,
        ensures
            decoded matches Ok(image) ==> image.wf() && decode_image(data@) == Some(Ok::<ImageView, Error>(image@)),
            decoded matches Err(e) ==> decode_image(data@) == Some(Err::<ImageView, Error>(e)),
    {
        match Image::decode_guarded(data) {
            Some(decoded) => decoded,
            None => {
                proof {
                    assert(false);
                }
                Err(Error::Size(SizeError::Invalid(0)))
            },
        }
    }
}

} // verus!
