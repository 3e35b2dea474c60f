//! The sections of an image, as they are mapped into memory.

pub mod block;
pub mod cursor;

use vstd::prelude::*;

use crate::memory::sparse::{identified_sum, spec_insert, Sparse, SparseError};
use crate::memory::{Address, Extent, Size, SizeError, ADDRESS_SPACE_END};
use crate::wire::{try_copy_bytes, ReadError};

use super::headers::header::section::SectionHeaderView;
use super::headers::SectionHeader;

pub use self::block::Block;

verus! {

/// The image section error.
#[derive(Clone, Copy, Debug, PartialEq, Eq)]
pub enum Error {
    /// The section header gives the section no size in memory.
    Size(SizeError),
    /// The input ended before the raw data of the section.
    Decode(ReadError),
    /// A block could not be placed in the section.
    Blocks(SparseError),
}

/// What a section holds.
pub struct SectionView {
    /// The header that describes the section.
    pub header: SectionHeaderView,
    /// The number of bytes the section takes in memory.
    pub size: nat,
    /// The bytes of the section that come from the file; the rest of it is zero.
    pub raw: Seq<u8>,
    /// The identified blocks of the section, in order of their offsets.
    pub blocks: Seq<(u32, nat, Block)>,
}

/// The smaller of two numbers.
pub open spec fn min(a: int, b: int) -> int {
    if a <= b {
        a
    } else {
        b
    }
}

/// `count` zero bytes.
pub open spec fn zeros(count: nat) -> Seq<u8> {
    Seq::new(count, |i: int| 0u8)
}

/// The bytes of a section in memory: those from the file, then zeros.
pub open spec fn section_memory(v: SectionView) -> Seq<u8> {
    v.raw + zeros((v.size - v.raw.len()) as nat)
}

/// The result of reading the section that the header describes, from the
/// input at `pos`: the raw data that the header gives, of which as many
/// bytes as fit the section's size in memory are kept.
pub open spec fn decode_section(s: Seq<u8>, pos: int, h: SectionHeaderView) -> Result<SectionView, Error> {
    if h.virtual_size == 0 {
        Err(Error::Size(SizeError::Invalid(0)))
    } else if h.size_of_raw_data > s.len() - pos {
        Err(
            Error::Decode(
                ReadError { requested: h.size_of_raw_data as usize, available: (s.len() - pos) as usize },
            ),
        )
    } else {
        Ok(
            SectionView {
                header: h,
                size: h.virtual_size as nat,
                raw: s.subrange(pos, pos + min(h.size_of_raw_data as int, h.virtual_size as int)),
                blocks: seq![],
            },
        )
    }
}

/// Reading a section succeeds whenever it has a size in memory and the input
/// holds its raw data, whether that raw data is larger than its size in
/// memory (as where it is padded to the file alignment) or smaller. The
/// section is then placed as the header gives it, with no blocks, and reads
/// in memory as its raw data cut to its size in memory, or followed by zeros
/// up to it.
pub proof fn lemma_decode_section_ok(s: Seq<u8>, pos: int, h: SectionHeaderView)
    requires
        0 <= pos,
        h.virtual_size != 0,
        pos + h.size_of_raw_data <= s.len(),
    ensures
        decode_section(s, pos, h) matches Ok(v) && {
            &&& v.header == h
            &&& v.size == h.virtual_size
            &&& v.blocks.len() == 0
            &&& h.size_of_raw_data <= h.virtual_size ==> section_memory(v) == s.subrange(
                pos,
                pos + h.size_of_raw_data,
            ) + zeros((h.virtual_size - h.size_of_raw_data) as nat)
            &&& h.size_of_raw_data > h.virtual_size ==> section_memory(v) == s.subrange(pos, pos + h.virtual_size)
        },
{
    let v = decode_section(s, pos, h)->Ok_0;
    if h.size_of_raw_data > h.virtual_size {
        assert(section_memory(v) =~= s.subrange(pos, pos + h.virtual_size));
    }
}

/// A section of an image, as it is mapped into memory.
#[derive(Debug)]
pub struct Section {
    header: SectionHeader,
    size: Size,
    raw: Vec<u8>,
    blocks: Sparse<Block>,
}

impl View for Section {
    type V = SectionView;

    closed spec fn view(&self) -> SectionView {
        SectionView {
            header: self.header@,
            size: self.size.spec_get() as nat,
            raw: self.raw@,
            blocks: self.blocks.spec_entries(),
        }
    }
}

impl Section {
    /// The section is one that reading gives, with blocks placed in it.
    pub closed spec fn wf(&self) -> bool {
        &&& self.blocks.wf()
        &&& self.blocks.spec_size() == self.size.spec_get()
        &&& 1 <= self.size.spec_get() <= ADDRESS_SPACE_END
        &&& self.raw@.len() <= self.size.spec_get()
        &&& self.header.wf()
    }

    /// Reads the section that the header describes from the input at `pos`.
    pub fn decode(data: &[u8], pos: usize, header: &SectionHeader) -> (section: Result<Section, Error>)
        requires
            pos <= data.len(),
            header.wf(),
        ensures
            section matches Ok(s) ==> s.wf() && decode_section(data@, pos as int, header@) == Ok::<
                SectionView,
                Error,
            >(s@),
            section matches Err(e) ==> decode_section(data@, pos as int, header@) == Err::<SectionView, Error>(e),
    {
        let virtual_size = header.section_size();
        let size = match Size::new(virtual_size) {
            Ok(size) => size,
            Err(e) => {
                return Err(Error::Size(e));
            },
        };
        let file_size = header.file_size();
        if file_size > data.len() - pos {
            return Err(Error::Decode(ReadError { requested: file_size, available: data.len() - pos }));
        }
        let keep: usize = if (file_size as u64) <= virtual_size {
            file_size
        } else {
            virtual_size as usize
        };
        let raw = match try_copy_bytes(data, pos, keep) {
            Ok(raw) => raw,
            Err(e) => {
                return Err(Error::Decode(e));
            },
        };
        let blocks = Sparse::new(size);
        Ok(Section { header: *header, size, raw, blocks })
    }

    /// Gets the header that describes the section.
    pub fn header(&self) -> (header: &SectionHeader)
        ensures
            header@ == self@.header,
    {
        &self.header
    }

    /// Gets the bytes of the section that come from the file.
    pub fn raw(&self) -> (raw: &[u8])
        ensures
            raw@ == self@.raw,
    {
        self.raw.as_slice()
    }

    /// The identified blocks of the section.
    pub closed spec fn blocks_spec(&self) -> Sparse<Block> {
        self.blocks
    }

    /// A well-formed section spans at least one byte and at most the address
    /// space, and its raw data fits its size in memory, so that it reads in
    /// memory as its raw data followed by zeros up to its size.
    pub proof fn lemma_wf(&self)
        requires
            self.wf(),
        ensures
            1 <= self@.size <= ADDRESS_SPACE_END,
            self@.raw.len() <= self@.size,
            section_memory(self@).len() == self@.size,
            section_memory(self@).take(self@.raw.len() as int) == self@.raw,
    {
        assert(section_memory(self@).take(self@.raw.len() as int) =~= self@.raw);
    }

    /// What well-formedness gives of the blocks.
    pub proof fn lemma_blocks(&self)
        requires
            self.wf(),
        ensures
            self.blocks_spec().wf(),
            self.blocks_spec().spec_size() == self@.size,
            self.blocks_spec().spec_entries() == self@.blocks,
    {
    }

    /// Gets the identified blocks of the section, each with its offset, in
    /// order of offset.
    pub fn blocks(&self) -> (blocks: &Sparse<Block>)
        ensures
            blocks.spec_entries() == self@.blocks,
            self.wf() ==> blocks.wf() && blocks.spec_size() == self@.size,
    {
        &self.blocks
    }

    /// Places a block at the given offset within the section, or fails when it
    /// would reach past the end of the section or into another block.
    pub fn insert(&mut self, address: Address, block: Block) -> (result: Result<(), Error>)
        requires
            old(self).wf(),
        ensures
            final(self).wf(),
            final(self)@.header == old(self)@.header,
            final(self)@.size == old(self)@.size,
            final(self)@.raw == old(self)@.raw,
            match spec_insert(old(self)@.blocks, old(self)@.size, address.spec_value(), block.spec_size(), block) {
                Ok(blocks) => result is Ok && final(self)@.blocks == blocks,
                Err(e) => result == Err::<(), Error>(Error::Blocks(e)) && final(self)@.blocks == old(
                    self,
                )@.blocks,
            },
    {
        let block = block.checked();
        match self.blocks.insert(address.value(), block) {
            Ok(()) => Ok(()),
            Err(e) => Err(Error::Blocks(e)),
        }
    }

    /// Copies the bytes of the section in memory from `start` up to `end`.
    pub fn memory_range(&self, start: u64, end: u64) -> (bytes: Vec<u8>)
        requires
            self.wf(),
            start <= end <= self@.size,
        ensures
            bytes@ == section_memory(self@).subrange(start as int, end as int),
    {
        let mut bytes: Vec<u8> = Vec::new();
        let mut i: u64 = start;
        while i < end
            invariant
                start <= i <= end <= self@.size,
                self.raw@.len() <= self@.size,
                bytes@ == section_memory(self@).subrange(start as int, i as int),
            decreases end - i,
        {
            let byte = if i < self.raw.len() as u64 {
                self.raw[i as usize]
            } else {
                0u8
            };
            bytes.push(byte);
            proof {
                assert(section_memory(self@).subrange(start as int, i + 1) =~= section_memory(self@).subrange(
                    start as int,
                    i as int,
                ).push(byte));
            }
            i = i + 1;
        }
        bytes
    }

    /// Appends the first `count` bytes of the section in memory.
    pub fn encode_prefix(&self, out: &mut Vec<u8>, count: u64)
        requires
            self.wf(),
            count <= self@.size,
        ensures
            final(out)@ == old(out)@ + section_memory(self@).take(count as int),
    {
        let ghost start = out@;
        let mut i: u64 = 0;
        while i < count
            invariant
                i <= count,
                count <= self@.size,
                self.raw@.len() <= self@.size,
                out@ == start + section_memory(self@).take(i as int),
            decreases count - i,
        {
            let byte = if i < self.raw.len() as u64 {
                self.raw[i as usize]
            } else {
                0u8
            };
            out.push(byte);
            proof {
                assert(section_memory(self@).take(i as int + 1) =~= section_memory(self@).take(i as int).push(byte));
            }
            i = i + 1;
        }
    }

    /// Appends the bytes of the section in memory.
    pub fn encode(&self, out: &mut Vec<u8>)
        requires
            self.wf(),
        ensures
            final(out)@ == old(out)@ + section_memory(self@),
    {
        let size = self.size.get();
        self.encode_prefix(out, size);
        assert(section_memory(self@).take(size as int) =~= section_memory(self@));
    }
}

impl Extent for Section {
    open spec fn valid(&self) -> bool {
        self.wf()
    }

    open spec fn spec_size(&self) -> nat {
        self@.size
    }

    /// The bytes of the section that lie within its blocks are identified.
    open spec fn spec_identified(&self) -> nat {
        identified_sum(self@.blocks)
    }

    proof fn lemma_bounds(&self) {
        self.blocks.lemma_wf();
        crate::memory::sparse::lemma_identified_sum_within(self.blocks.spec_entries(), self.blocks.spec_size());
    }

    fn size(&self) -> (size: Size) {
        self.size
    }

    fn identified(&self) -> (count: u64) {
        self.blocks.identified()
    }
}

} // verus!
