//! The characteristics of an image section.

use vstd::prelude::*;

use crate::image::region::headers::Error;
use crate::wire::{le_value, read_field, ReadError};

verus! {

/// The section contains executable code.
pub const CNT_CODE: u32 = 0x00000020;

/// The section contains initialized data.
pub const CNT_INITIALIZED_DATA: u32 = 0x00000040;

/// The section contains uninitialized data.
pub const CNT_UNINITIALIZED_DATA: u32 = 0x00000080;

/// The section can be discarded as needed.
pub const MEM_DISCARDABLE: u32 = 0x02000000;

/// The section cannot be cached.
pub const MEM_NOT_CACHED: u32 = 0x04000000;

/// The section is not pageable.
pub const MEM_NOT_PAGED: u32 = 0x08000000;

/// The section can be shared in memory.
pub const MEM_SHARED: u32 = 0x10000000;

/// The section can be executed as code.
pub const MEM_EXECUTE: u32 = 0x20000000;

/// The section can be read.
pub const MEM_READ: u32 = 0x40000000;

/// The section can be written to.
pub const MEM_WRITE: u32 = 0x80000000;

/// The image file section characteristics: a set of flags.
#[derive(Clone, Copy, Debug, PartialEq, Eq, Hash, Structural)]
pub struct SectionCharacteristics(u32);

impl SectionCharacteristics {
    /// The flags as a number.
    pub closed spec fn spec_bits(self) -> u32 {
        self.0
    }

    /// Whether the given flag is set.
    pub open spec fn has(self, flag: u32) -> bool {
        self.spec_bits() & flag != 0
    }

    /// Constructs the characteristics with the given flags.
    pub fn new(bits: u32) -> (characteristics: SectionCharacteristics)
        ensures
            characteristics.spec_bits() == bits,
    {
        SectionCharacteristics(bits)
    }

    /// Reads the characteristics, a little-endian `u32`, from the input at `pos`.
    pub fn parse(data: &[u8], pos: usize) -> (parsed: Result<SectionCharacteristics, Error>)
        requires
            pos <= data.len(),
        ensures
            data.len() - pos >= 4 ==> (parsed matches Ok(c) && c.spec_bits() == le_value(data@, pos as int, 4)),
            data.len() - pos < 4 ==> parsed == Err::<SectionCharacteristics, Error>(
                Error::Decode(ReadError { requested: 4, available: (data.len() - pos) as usize }),
            ),
    {
        proof {
            if data.len() - pos >= 4 {
                crate::wire::lemma_le_value_bound(data@, pos as int, 4);
                crate::wire::lemma_width_bound(4);
            }
        }
        match read_field(data, pos, 4) {
            Ok(bits) => Ok(SectionCharacteristics(bits)),
            Err(e) => Err(Error::Decode(e)),
        }
    }

    /// Gets the flags as a number.
    pub fn bits(self) -> (bits: u32)
        ensures
            bits == self.spec_bits(),
    {
        self.0
    }

    /// Checks if the section is readable.
    pub fn read(self) -> (readable: bool)
        ensures
            readable == self.has(MEM_READ),
    {
        self.0 & MEM_READ != 0
    }

    /// Checks if the section is writable.
    pub fn write(self) -> (writable: bool)
        ensures
            writable == self.has(MEM_WRITE),
    {
        self.0 & MEM_WRITE != 0
    }

    /// Checks if the section is executable.
    pub fn execute(self) -> (executable: bool)
        ensures
            executable == self.has(MEM_EXECUTE),
    {
        self.0 & MEM_EXECUTE != 0
    }

    /// Checks if the section is shareable.
    pub fn share(self) -> (shareable: bool)
        ensures
            shareable == self.has(MEM_SHARED),
    {
        self.0 & MEM_SHARED != 0
    }

    /// Checks if the section is pageable: it is, unless marked as not pageable.
    pub fn page(self) -> (pageable: bool)
        ensures
            pageable == !self.has(MEM_NOT_PAGED),
    {
        self.0 & MEM_NOT_PAGED == 0
    }

    /// Checks if the section is cacheable: it is, unless marked as not cacheable.
    pub fn cache(self) -> (cacheable: bool)
        ensures
            cacheable == !self.has(MEM_NOT_CACHED),
    {
        self.0 & MEM_NOT_CACHED == 0
    }

    /// Checks if the section is discardable.
    pub fn discard(self) -> (discardable: bool)
        ensures
            discardable == self.has(MEM_DISCARDABLE),
    {
        self.0 & MEM_DISCARDABLE != 0
    }

    /// Checks if the section contains initialised data.
    pub fn initialised(self) -> (initialised: bool)
        ensures
            initialised == self.has(CNT_INITIALIZED_DATA),
    {
        self.0 & CNT_INITIALIZED_DATA != 0
    }

    /// Checks if the section contains uninitialised data.
    pub fn uninitialised(self) -> (uninitialised: bool)
        ensures
            uninitialised == self.has(CNT_UNINITIALIZED_DATA),
    {
        self.0 & CNT_UNINITIALIZED_DATA != 0
    }

    /// Checks if the section contains code.
    pub fn code(self) -> (code: bool)
        ensures
            code == self.has(CNT_CODE),
    {
        self.0 & CNT_CODE != 0
    }

    /// Gets the permissions as text: `r`, `w` and `x` for read, write and
    /// execute, each replaced by `-` when the section lacks it.
    pub fn permissions(self) -> (text: &'static str)
        ensures
            text@ == seq![
                if self.has(MEM_READ) { 'r' } else { '-' },
                if self.has(MEM_WRITE) { 'w' } else { '-' },
                if self.has(MEM_EXECUTE) { 'x' } else { '-' },
            ],
    {
        let r = self.read();
        let w = self.write();
        let x = self.execute();
        let text = if r {
            if w {
                if x { "rwx" } else { "rw-" }
            } else {
                if x { "r-x" } else { "r--" }
            }
        } else {
            if w {
                if x { "-wx" } else { "-w-" }
            } else {
                if x { "--x" } else { "---" }
            }
        };
        proof {
            reveal_strlit("rwx");
            reveal_strlit("rw-");
            reveal_strlit("r-x");
            reveal_strlit("r--");
            reveal_strlit("-wx");
            reveal_strlit("-w-");
            reveal_strlit("--x");
            reveal_strlit("---");
        }
        assert(text@ =~= seq![
            if self.has(MEM_READ) { 'r' } else { '-' },
            if self.has(MEM_WRITE) { 'w' } else { '-' },
            if self.has(MEM_EXECUTE) { 'x' } else { '-' },
        ]);
        text
    }
}

} // verus!
