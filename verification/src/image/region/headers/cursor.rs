//! A cursor over the headers of an image.

use vstd::prelude::*;

use crate::memory::cursor::{
    all_within, lemma_shift_within, moved_to, shift_all, shifted, views, Cursor, CursorError, Inspection,
    InspectionView, Position, SimpleCursor,
};
use crate::memory::{Address, AddressSpace, Size, ADDRESS_SPACE_END};
use crate::wire::lemma_le_bytes_len;

use super::header::coff::cursor::field_end as coff_end;
use super::header::cursor::{header_part, header_records, HeaderCursor};
use super::header::dos::cursor::field_end as dos_end;
use super::header::optional::cursor::{optional_step_stop, OptionalHeaderCursor};
use super::header::section::cursor::field_end as section_end;
use super::header::{optional_size, Header};
use super::{
    encode_headers, fill, lemma_encode_sections_len, sections_end,
    Headers, HeadersView,
};

verus! {

/// The offset of the PE headers in the headers.
pub open spec fn lfanew(v: HeadersView) -> nat {
    v.dos.spec_pe_headers_offset() as nat
}

/// The offset of the section headers in the headers.
pub open spec fn sections_start(v: HeadersView) -> nat {
    lfanew(v) + 24 + optional_size(v.optional)
}

/// The number of bytes the headers take: up to the end of the padding.
pub open spec fn headers_len(v: HeadersView) -> nat {
    sections_start(v) + 40 * v.sections.len() + v.padding
}

/// The index of the last part of the headers: the padding, or the last
/// section header, or the Optional header.
pub open spec fn last_segment(v: HeadersView) -> nat {
    if v.padding > 0 {
        5 + v.sections.len()
    } else {
        4 + v.sections.len()
    }
}

/// The index of the part of the headers that holds the byte at `pos`:
/// `0` the DOS header, `1` the stub, `2` the signature, `3` the COFF header,
/// `4` the Optional header, `5 + i` the `i`-th section header, and `5 + n`
/// (with `n` section headers) the padding; the last part at the end.
pub open spec fn segment_at(v: HeadersView, pos: nat) -> nat {
    if pos >= headers_len(v) {
        last_segment(v)
    } else if pos < 64 {
        0
    } else if pos < lfanew(v) {
        1
    } else if pos < lfanew(v) + 4 {
        2
    } else if pos < lfanew(v) + 24 {
        3
    } else if pos < sections_start(v) {
        4
    } else if pos < sections_start(v) + 40 * v.sections.len() {
        (5 + (pos - sections_start(v)) / 40) as nat
    } else {
        5 + v.sections.len()
    }
}

/// The offset of the `k`-th part of the headers.
pub open spec fn segment_start(v: HeadersView, k: nat) -> nat {
    if k == 0 {
        0
    } else if k == 1 {
        64
    } else if k == 2 {
        lfanew(v)
    } else if k == 3 {
        lfanew(v) + 4
    } else if k == 4 {
        lfanew(v) + 24
    } else {
        (sections_start(v) + 40 * (k - 5)) as nat
    }
}

/// The size of the `k`-th part of the headers.
pub open spec fn segment_size(v: HeadersView, k: nat) -> nat {
    if k == 0 {
        64
    } else if k == 1 {
        (lfanew(v) - 64) as nat
    } else if k == 2 {
        4
    } else if k == 3 {
        20
    } else if k == 4 {
        optional_size(v.optional)
    } else if k < 5 + v.sections.len() {
        40
    } else {
        v.padding
    }
}

/// Where stepping goes from `pos` within the `k`-th part of the headers: to
/// the end of the field of the header that holds it, or to the end of the
/// part when it has no fields.
pub open spec fn segment_step(v: HeadersView, k: nat, local: nat) -> nat {
    if k == 0 {
        dos_end(local)
    } else if k == 3 {
        coff_end(local)
    } else if k == 4 {
        optional_step_stop(local)
    } else if 5 <= k < 5 + v.sections.len() {
        section_end(local)
    } else {
        segment_size(v, k)
    }
}

impl Headers {
    /// The header of the `k`-th part of the headers (see [`segment_at`]);
    /// `None` for the stub.
    pub closed spec fn spec_segment_header(&self, k: nat) -> Option<Header> {
        if k == 0 {
            Some(Header::Dos(self.dos))
        } else if k == 1 {
            None
        } else if k == 2 {
            Some(Header::Signature)
        } else if k == 3 {
            Some(Header::Coff(self.coff))
        } else if k == 4 {
            Some(Header::Optional(self.optional))
        } else if k < 5 + self.sections@.len() {
            Some(Header::Section(self.sections@[k - 5]))
        } else {
            Some(Header::Padding(self.padding->Some_0))
        }
    }
}

impl Headers {
    /// Every part of the headers but the stub holds a header.
    pub proof fn lemma_segment_header(&self, k: nat)
        ensures
            (self.spec_segment_header(k) is None) == (k == 1),
    {
    }
}

/// The start and the width of the part of the headers that holds the byte
/// at `pos`: the field of the header there, the whole of a header without
/// fields, or the stub.
pub open spec fn headers_part(h: Headers, pos: nat) -> (nat, nat) {
    let v = h@;
    let k = segment_at(v, pos);
    let start = segment_start(v, k);
    match h.spec_segment_header(k) {
        None => (64, (lfanew(v) - 64) as nat),
        Some(header) => {
            let part = header_part(header, (pos - start) as nat);
            (start + part.0, part.1)
        },
    }
}

/// What a cursor over the headers `h` at `pos` shows: the stub as a whole,
/// or what the cursor over the header there shows, placed within the
/// headers; nothing at their end.
pub open spec fn headers_records(h: Headers, pos: nat) -> Seq<InspectionView> {
    let v = h@;
    let k = segment_at(v, pos);
    let start = segment_start(v, k);
    if pos >= headers_len(v) {
        Seq::empty()
    } else {
        match h.spec_segment_header(k) {
            None => seq![InspectionView { start: 64, size: (lfanew(v) - 64) as nat, name: "Unidentified"@, bytes: v.stub }],
            Some(header) => shifted(header_records(header, (pos - start) as nat), start),
        }
    }
}

/// Within well-formed headers, stepping goes forward no further than moving,
/// which stays within the headers, which take no more than the headers size.
pub proof fn lemma_headers_stops(h: Headers, pos: nat)
    requires
        h.wf(),
        pos < headers_len(h@),
    ensures
        ({
            let v = h@;
            let k = segment_at(v, pos);
            let start = segment_start(v, k);
            &&& pos < start + segment_step(v, k, (pos - start) as nat)
            &&& segment_step(v, k, (pos - start) as nat) <= segment_size(v, k)
            &&& start + segment_size(v, k) <= headers_len(v)
        }),
{
    let cursor = HeadersCursor { headers: &h, position: 0 };
    cursor.lemma_stops(pos);
    cursor.lemma_segment(pos);
    let v = h@;
    let k = segment_at(v, pos);
    cursor.lemma_part(k, (pos - segment_start(v, k)) as nat);
}

/// Well-formed headers take no more than the headers size.
pub proof fn lemma_headers_len(h: Headers)
    requires
        h.wf(),
    ensures
        headers_len(h@) <= h@.optional.1.spec_size_of_headers(),
{
    h.lemma_wf_size();
}

/// A cursor over the headers of an image: moving goes from one header to the
/// next, stepping from one field to the next.
#[derive(Clone, Copy, Debug)]
pub struct HeadersCursor<'a> {
    headers: &'a Headers,
    position: u64,
}

impl<'a> HeadersCursor<'a> {
    /// The headers the cursor is over.
    pub closed spec fn spec_headers(&self) -> Headers {
        *self.headers
    }

    /// The header of the `k`-th part of the headers; `None` for the stub.
    pub open spec fn segment_header(&self, k: nat) -> Option<Header> {
        self.spec_headers().spec_segment_header(k)
    }

    /// The parts of well-formed headers follow each other, each holding the
    /// positions that `segment_at` gives it.
    proof fn lemma_segment(&self, pos: nat)
        requires
            self.headers.wf(),
            pos <= headers_len(self.headers@),
        ensures
            ({
                let v = self.headers@;
                let k = segment_at(v, pos);
                &&& k <= last_segment(v)
                &&& segment_start(v, k) <= pos <= segment_start(v, k) + segment_size(v, k)
                &&& pos < headers_len(v) ==> pos < segment_start(v, k) + segment_size(v, k)
                &&& segment_start(v, k) + segment_size(v, k) <= headers_len(v)
                &&& headers_len(v) <= ADDRESS_SPACE_END
                &&& k == 1 ==> lfanew(v) > 64
                &&& k == last_segment(v) ==> segment_start(v, k) + segment_size(v, k) == headers_len(v)
                &&& k == 5 + v.sections.len() ==> v.padding > 0 && self.headers.padding is Some
                &&& segment_size(v, k) >= 1
            }),
    {
        self.headers.lemma_wf_size();
        let v = self.headers@;
        let n = v.sections.len();
        if pos >= sections_start(v) && pos < sections_start(v) + 40 * n {
            let i = (pos - sections_start(v)) / 40;
            assert(0 <= i < n) by (nonlinear_arith)
                requires
                    i == (pos - sections_start(v)) / 40,
                    sections_start(v) <= pos < sections_start(v) + 40 * n,
            ;
            assert(40 * i <= pos - sections_start(v) < 40 * i + 40) by (nonlinear_arith)
                requires
                    i == (pos - sections_start(v)) / 40,
                    sections_start(v) <= pos,
            ;
        }
        match self.headers.padding {
            Some(p) => {
                let _ = p;
            },
            None => {},
        }
    }

    /// Stepping within a part goes forward, to the end of the part of its
    /// header that holds the position.
    proof fn lemma_part(&self, k: nat, local: nat)
        requires
            self.headers.wf(),
            k <= last_segment(self.headers@),
            local < segment_size(self.headers@, k),
        ensures
            local < segment_step(self.headers@, k, local) <= segment_size(self.headers@, k),
            k != 1 ==> ({
                let part = header_part(self.segment_header(k)->Some_0, local);
                part.0 <= local && part.0 + part.1 == segment_step(self.headers@, k, local)
            }),
    {
        self.headers.lemma_wf_size();
        if k == 4 {
            let o = &self.headers.optional;
            OptionalHeaderCursor::lemma_new(o);
            OptionalHeaderCursor::spec_new(o).lemma_size_is();
            OptionalHeaderCursor::spec_new(o).lemma_stops(local);
        }
    }

    /// A consistent cursor is over well-formed headers.
    pub proof fn lemma_inv(&self)
        requires
            self.inv(),
        ensures
            self.spec_headers().wf(),
    {
    }

    /// Setting the position keeps the headers.
    pub proof fn lemma_headers_at(&self, pos: nat)
        ensures
            self.spec_at(pos).spec_headers() == self.spec_headers(),
    {
    }

    /// Constructs a new cursor at the start of the headers.
    pub fn new(headers: &'a Headers) -> (cursor: Self)
        requires
            headers.wf(),
        ensures
            cursor.inv(),
            cursor.spec_position() == 0,
            cursor.spec_headers() == *headers,
            cursor.spec_size() == headers_len(headers@),
    {
        HeadersCursor { headers, position: 0 }
    }

    /// Gets the headers that this cursor is over.
    pub fn headers(&self) -> (headers: &'a Headers)
        ensures
            *headers == self.spec_headers(),
    {
        self.headers
    }

    /// Gets the number of bytes the headers take, up to the end of their padding.
    pub fn total(&self) -> (total: u64)
        requires
            self.spec_headers().wf(),
        ensures
            total == headers_len(self.spec_headers()@),
    {
        proof {
            self.headers.lemma_wf_size();
        }
        let padding = match &self.headers.padding {
            Some(p) => p.size().get(),
            None => 0,
        };
        self.headers.dos.pe_headers_offset() as u64 + 24 + self.headers.optional.size().get() + 40
            * self.headers.sections.len() as u64 + padding
    }

    /// Gets the index of the part of the headers that holds the given position.
    fn segment(&self, pos: u64) -> (k: usize)
        requires
            self.headers.wf(),
            pos <= headers_len(self.headers@),
        ensures
            k == segment_at(self.headers@, pos as nat),
    {
        proof {
            self.lemma_segment(pos as nat);
        }
        let lfanew = self.headers.dos.pe_headers_offset() as u64;
        let start = lfanew + 24 + self.headers.optional.size().get();
        let n = self.headers.sections.len();
        if pos >= self.total() {
            match &self.headers.padding {
                Some(p) => {
                    let _ = p.size();
                    5 + n
                },
                None => 4 + n,
            }
        } else if pos < 64 {
            0
        } else if pos < lfanew {
            1
        } else if pos < lfanew + 4 {
            2
        } else if pos < lfanew + 24 {
            3
        } else if pos < start {
            4
        } else if pos < start + 40 * n as u64 {
            5 + ((pos - start) / 40) as usize
        } else {
            5 + n
        }
    }

    /// Gets the offset and the size of the `k`-th part of the headers.
    fn segment_bounds(&self, k: usize) -> (bounds: (u64, u64))
        requires
            self.headers.wf(),
            k <= last_segment(self.headers@),
        ensures
            bounds.0 == segment_start(self.headers@, k as nat),
            bounds.1 == segment_size(self.headers@, k as nat),
    {
        proof {
            self.headers.lemma_wf_size();
        }
        let lfanew = self.headers.dos.pe_headers_offset() as u64;
        let start = lfanew + 24 + self.headers.optional.size().get();
        let n = self.headers.sections.len();
        if k == 0 {
            (0, 64)
        } else if k == 1 {
            (64, lfanew - 64)
        } else if k == 2 {
            (lfanew, 4)
        } else if k == 3 {
            (lfanew + 4, 20)
        } else if k == 4 {
            (lfanew + 24, self.headers.optional.size().get())
        } else if k < 5 + n {
            (start + 40 * (k - 5) as u64, 40)
        } else {
            let padding = match &self.headers.padding {
                Some(p) => p.size().get(),
                None => 0,
            };
            (start + 40 * (k - 5) as u64, padding)
        }
    }

    /// Gets a cursor over the header of the `k`-th part, at its start.
    fn header_cursor(&self, k: usize) -> (cursor: HeaderCursor<'a>)
        requires
            self.headers.wf(),
            k <= last_segment(self.headers@),
            k != 1,
        ensures
            cursor.inv(),
            cursor.spec_position() == 0,
            Some(cursor.spec_header()) == self.segment_header(k as nat),
            cursor.spec_size() == segment_size(self.headers@, k as nat),
            forall|pos: nat| #[trigger] cursor.step_stop(pos) == segment_step(self.headers@, k as nat, pos),
    {
        proof {
            self.headers.lemma_wf_size();
        }
        let n = self.headers.sections.len();
        proof {
            super::header::dos::cursor::DosHeaderCursor::lemma_new(&self.headers.dos);
            super::header::coff::cursor::CoffHeaderCursor::lemma_new(&self.headers.coff);
            if 5 <= k < 5 + n {
                super::header::section::cursor::SectionHeaderCursor::lemma_new(&self.headers.sections@[k - 5]);
            }
        }
        if k == 0 {
            HeaderCursor::Dos(self.headers.dos.cursor())
        } else if k == 2 {
            HeaderCursor::Signature(SimpleCursor::new(Size::new_valid(4)))
        } else if k == 3 {
            HeaderCursor::Coff(self.headers.coff.cursor())
        } else if k == 4 {
            let cursor = self.headers.optional.cursor();
            proof {
                cursor.lemma_size_is();
            }
            HeaderCursor::Optional(cursor)
        } else if k < 5 + n {
            let section = &self.headers.sections[k - 5];
            HeaderCursor::Section(section.cursor())
        } else {
            let padding = self.headers.padding.as_ref().unwrap();
            HeaderCursor::Padding(padding, padding.cursor())
        }
    }
}

impl<'a> HeadersCursor<'a> {
    /// Gets the header at the cursor position; `None` in the stub.
    pub fn header(&self) -> (header: Option<Header>)
        requires
            self.inv(),
        ensures
            header == self.segment_header(segment_at(self.spec_headers()@, self.spec_position())),
    {
        proof {
            self.lemma_segment(self.position as nat);
        }
        let k = self.segment(self.position);
        let n = self.headers.sections.len();
        if k == 0 {
            Some(Header::Dos(self.headers.dos))
        } else if k == 1 {
            None
        } else if k == 2 {
            Some(Header::Signature)
        } else if k == 3 {
            Some(Header::Coff(self.headers.coff))
        } else if k == 4 {
            Some(Header::Optional(self.headers.optional))
        } else if k < 5 + n {
            Some(Header::Section(self.headers.sections[k - 5]))
        } else {
            Some(Header::Padding(*self.headers.padding.as_ref().unwrap()))
        }
    }

    /// Gets the stub at the cursor position, the bytes between the DOS header
    /// and the signature whose meaning is not known; `None` elsewhere.
    pub fn unidentified(&self) -> (stub: Option<&'a [u8]>)
        requires
            self.inv(),
        ensures
            segment_at(self.spec_headers()@, self.spec_position()) == 1 ==> (stub matches Some(s) && s@
                == self.spec_headers()@.stub),
            segment_at(self.spec_headers()@, self.spec_position()) != 1 ==> stub is None,
    {
        let k = self.segment(self.position);
        if k == 1 {
            Some(self.headers.stub.as_slice())
        } else {
            None
        }
    }

    /// Gets what this cursor shows: the stub as a whole, or what the cursor
    /// over the header it is in shows, placed within the headers.
    pub fn inspect(&self) -> (inspection: Vec<Inspection>)
        requires
            self.inv(),
        ensures
            views(inspection@) == headers_records(self.spec_headers(), self.spec_position()),
            all_within(views(inspection@), self.spec_size()),
    {
        proof {
            self.lemma_segment(self.position as nat);
        }
        let total = self.total();
        let mut records: Vec<Inspection> = Vec::new();
        if self.position == total {
            proof {
                assert(views(records@) =~= headers_records(self.spec_headers(), self.spec_position()));
            }
            return records;
        }
        let k = self.segment(self.position);
        let (start, size) = self.segment_bounds(k);
        if k == 1 {
            let bytes = crate::memory::cursor::copy_range(self.headers.stub.as_slice(), 0, self.headers.stub.len());
            proof {
                assert(self.headers@.stub.subrange(0, self.headers@.stub.len() as int) =~= self.headers@.stub);
            }
            let space = AddressSpace::new_valid(Address::new(64), Size::new_valid(size));
            records.push(Inspection { space, name: "Unidentified", bytes });
            proof {
                assert(views(records@) =~= headers_records(self.spec_headers(), self.spec_position()));
            }
            return records;
        }
        let mut cursor = self.header_cursor(k);
        let ghost c0 = cursor;
        let local = self.position - start;
        let _ = cursor.seek(Position(local));
        proof {
            c0.lemma_at(local as nat, 0);
            c0.lemma_header_at(local as nat);
        }
        let inner = cursor.inspect();
        proof {
            lemma_shift_within(views(inner@), size as nat, start as nat);
        }
        shift_all(inner, start as u32)
    }
}

impl<'a> Cursor for HeadersCursor<'a> {
    closed spec fn inv(&self) -> bool {
        self.headers.wf() && self.position <= headers_len(self.headers@)
    }

    open spec fn spec_size(&self) -> nat {
        headers_len(self.spec_headers()@)
    }

    closed spec fn spec_position(&self) -> nat {
        self.position as nat
    }

    closed spec fn spec_at(&self, pos: nat) -> Self {
        HeadersCursor { headers: self.headers, position: pos as u64 }
    }

    /// Moving goes to the start of the next header.
    open spec fn next_stop(&self, pos: nat) -> nat {
        let v = self.spec_headers()@;
        let k = segment_at(v, pos);
        segment_start(v, k) + segment_size(v, k)
    }

    /// Stepping goes to the end of the field of the header, or to the end of
    /// a header without fields.
    open spec fn step_stop(&self, pos: nat) -> nat {
        let v = self.spec_headers()@;
        let k = segment_at(v, pos);
        segment_start(v, k) + segment_step(v, k, (pos - segment_start(v, k)) as nat)
    }

    proof fn lemma_size(&self) {
        self.lemma_segment(self.position as nat);
    }

    proof fn lemma_at(&self, pos: nat, q: nat) {
    }

    proof fn lemma_stops(&self, pos: nat) {
        self.lemma_segment(pos);
        let v = self.headers@;
        let k = segment_at(v, pos);
        self.lemma_part(k, (pos - segment_start(v, k)) as nat);
    }

    fn position(&self) -> (position: Position) {
        Position(self.position)
    }

    fn seek(&mut self, position: Position) -> (result: Result<(), CursorError>) {
        let total = self.total();
        if position.0 > total {
            return Err(CursorError::OutOfBounds(position, total));
        }
        self.position = position.0;
        Ok(())
    }

    fn next(&mut self) -> (result: Result<Option<Position>, CursorError>) {
        let total = self.total();
        if self.position == total {
            return Ok(None);
        }
        proof {
            self.lemma_segment(self.position as nat);
        }
        let k = self.segment(self.position);
        let (start, size) = self.segment_bounds(k);
        let target = start + size;
        self.position = target;
        if target == total {
            Ok(None)
        } else {
            Ok(Some(Position(target)))
        }
    }

    fn step(&mut self) -> (result: Result<Option<Position>, CursorError>) {
        let total = self.total();
        if self.position == total {
            return Ok(None);
        }
        proof {
            self.lemma_segment(self.position as nat);
        }
        let k = self.segment(self.position);
        let (start, size) = self.segment_bounds(k);
        let ghost local = (self.position - start) as nat;
        proof {
            self.lemma_part(k as nat, local);
        }
        let target = if k == 1 {
            start + size
        } else {
            let mut cursor = self.header_cursor(k);
            let ghost c0 = cursor;
            let _ = cursor.seek(Position(self.position - start));
            proof {
                c0.lemma_at(local, local);
            }
            match cursor.step() {
                Ok(Some(p)) => start + p.0,
                _ => start + size,
            }
        };
        self.position = target;
        if target == total {
            Ok(None)
        } else {
            Ok(Some(Position(target)))
        }
    }
}

} // verus!
