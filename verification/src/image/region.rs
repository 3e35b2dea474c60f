//! The mapped regions of an image.

pub mod cursor;
pub mod headers;
pub mod section;

use vstd::prelude::*;

use crate::memory::{Extent, Size};

use self::headers::{headers_identified, Headers, HeadersView};
use self::section::{Section, SectionView};

verus! {

/// What a mapped region holds.
pub enum RegionView {
    Headers(HeadersView),
    Section(SectionView),
}

/// A mapped region in a PE image.
#[derive(Debug)]
pub enum Region {
    Headers(Headers),
    Section(Section),
}

impl View for Region {
    type V = RegionView;

    open spec fn view(&self) -> RegionView {
        match self {
            Region::Headers(h) => RegionView::Headers(h@),
            Region::Section(s) => RegionView::Section(s@),
        }
    }
}

impl Region {
    /// Constructs a new headers region.
    pub fn headers(headers: Headers) -> (region: Self)
        ensures
            region == Region::Headers(headers),
    {
        Region::Headers(headers)
    }

    /// Constructs a new section region.
    pub fn section(section: Section) -> (region: Self)
        ensures
            region == Region::Section(section),
    {
        Region::Section(section)
    }

    /// Gets the region as headers.
    pub fn as_headers(&self) -> (headers: Option<&Headers>)
        ensures
            self matches Region::Headers(h) ==> headers is Some && *headers->Some_0 == h,
            self is Section ==> headers is None,
    {
        match self {
            Region::Headers(h) => Some(h),
            Region::Section(_) => None,
        }
    }

    /// Gets the region as a section.
    pub fn as_section(&self) -> (section: Option<&Section>)
        ensures
            self matches Region::Section(s) ==> section is Some && *section->Some_0 == s,
            self is Headers ==> section is None,
    {
        match self {
            Region::Headers(_) => None,
            Region::Section(s) => Some(s),
        }
    }

    /// Checks whether this is a headers region.
    pub fn is_headers(&self) -> (is_headers: bool)
        ensures
            is_headers == self is Headers,
    {
        matches!(self, Region::Headers(_))
    }

    /// Checks whether this is a section region.
    pub fn is_section(&self) -> (is_section: bool)
        ensures
            is_section == self is Section,
    {
        matches!(self, Region::Section(_))
    }
}

impl Extent for Region {
    open spec fn valid(&self) -> bool {
        match self {
            Region::Headers(h) => h.wf(),
            Region::Section(s) => s.wf(),
        }
    }

    /// Headers take the headers size that the Optional header gives; a
    /// section, its size in memory.
    open spec fn spec_size(&self) -> nat {
        match self {
            Region::Headers(h) => h@.optional.1.spec_size_of_headers() as nat,
            Region::Section(s) => s@.size,
        }
    }

    open spec fn spec_identified(&self) -> nat {
        match self {
            Region::Headers(h) => headers_identified(h@),
            Region::Section(s) => s.spec_identified(),
        }
    }

    proof fn lemma_bounds(&self) {
        match self {
            Region::Headers(h) => h.lemma_wf_size(),
            Region::Section(s) => s.lemma_bounds(),
        }
    }

    fn size(&self) -> (size: Size) {
        match self {
            Region::Headers(h) => {
                proof {
                    h.lemma_wf_size();
                }
                Size::new_valid(h.size())
            },
            Region::Section(s) => s.size(),
        }
    }

    fn identified(&self) -> (count: u64) {
        match self {
            Region::Headers(h) => h.identified(),
            Region::Section(s) => s.identified(),
        }
    }
}

} // verus!
