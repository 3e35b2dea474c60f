//! The image file headers.

pub mod cursor;
pub mod error;
pub mod header;

use vstd::prelude::*;

use crate::array_string::ArrayString;
use crate::image::Padding;
use crate::memory::Size;
use crate::wire::{
    le_bytes, le_value, lemma_le_bytes_len, lemma_le_value_bound, lemma_width_bound, read_field,
    try_copy_bytes, write_field, ReadError,
};

use self::header::optional::{encode_optional, optional_size, parse_optional, OptionalHeaderView};
use self::header::section::{encode_section_header, parse_section_header, SectionHeaderView};

pub use self::error::Error;
pub use self::header::{
    CoffHeader, DataDirectories, DataDirectory, DosHeader, Header, OptionalHeader,
    SectionCharacteristics, SectionHeader,
};

verus! {

/// The signature indicating the start of the PE headers: `PE\0\0`.
pub const PE_SIGNATURE: u32 = 0x4550;

/// The result of reading `count` section headers from `s` at `pos`, one after the other.
pub open spec fn parse_sections(s: Seq<u8>, pos: int, count: nat) -> Result<Seq<SectionHeaderView>, Error>
    decreases count,
{
    if count == 0 {
        Ok(seq![])
    } else {
        match parse_section_header(s, pos) {
            Err(e) => Err(e),
            Ok(first) => match parse_sections(s, pos + 40, (count - 1) as nat) {
                Ok(rest) => Ok(seq![first] + rest),
                Err(e) => Err(e),
            },
        }
    }
}

/// The bytes of section headers, one after the other.
pub open spec fn encode_sections(sections: Seq<SectionHeaderView>) -> Seq<u8>
    decreases sections.len(),
{
    if sections.len() == 0 {
        seq![]
    } else {
        encode_section_header(sections[0]) + encode_sections(sections.drop_first())
    }
}

/// `count` bytes of the given value.
pub open spec fn fill(count: nat, value: u8) -> Seq<u8> {
    Seq::new(count, |i: int| value)
}

/// The bytes of the headers as they are laid out in the file.
pub open spec fn encode_headers(v: HeadersView) -> Seq<u8> {
    v.dos.spec_encode() + v.stub + le_bytes(PE_SIGNATURE as nat, 4) + v.coff.spec_encode()
        + encode_optional(v.optional) + encode_sections(v.sections) + fill(v.padding, v.padding_value)
}

/// Encoding one more section header appends its bytes.
pub proof fn lemma_encode_sections_push(sections: Seq<SectionHeaderView>, last: SectionHeaderView)
    ensures
        encode_sections(sections.push(last)) == encode_sections(sections) + encode_section_header(last),
    decreases sections.len(),
{
    if sections.len() == 0 {
        reveal_with_fuel(encode_sections, 2);
        assert(sections.push(last).drop_first() =~= seq![]);
        assert(encode_sections(sections.push(last)) =~= encode_section_header(last));
    } else {
        lemma_encode_sections_push(sections.drop_first(), last);
        assert(sections.push(last).drop_first() =~= sections.drop_first().push(last));
        assert(encode_sections(sections.push(last)) =~= encode_section_header(sections[0])
            + encode_sections(sections.drop_first().push(last)));
    }
}

/// What the headers of an image hold.
pub struct HeadersView {
    /// The DOS header.
    pub dos: DosHeader,
    /// The bytes between the DOS header and the PE signature.
    pub stub: Seq<u8>,
    /// The COFF header.
    pub coff: CoffHeader,
    /// The Optional header.
    pub optional: OptionalHeaderView,
    /// The section headers.
    pub sections: Seq<SectionHeaderView>,
    /// The number of bytes of padding after the section headers.
    pub padding: nat,
    /// The value of each byte of padding.
    pub padding_value: u8,
}

/// The bytes of section headers are forty apiece.
pub proof fn lemma_encode_sections_len(s: Seq<SectionHeaderView>)
    requires
        forall|j: int| 0 <= j < s.len() ==> (#[trigger] s[j]).name.len() == 8,
    ensures
        encode_sections(s).len() == 40 * s.len(),
    decreases s.len(),
{
    if s.len() > 0 {
        header::section::lemma_encode_len(s[0]);
        assert forall|j: int| 0 <= j < s.drop_first().len() implies (#[trigger] s.drop_first()[j]).name.len() == 8 by {
            assert(s.drop_first()[j] == s[j + 1]);
        }
        lemma_encode_sections_len(s.drop_first());
    }
}

/// The number of bytes of the headers whose meaning is known: all of them
/// but the stub.
pub open spec fn headers_identified(v: HeadersView) -> nat {
    (sections_end(v.dos, v.optional, v.sections.len()) - v.stub.len() + v.padding) as nat
}

/// The file offset just past the section headers.
pub open spec fn sections_end(dos: DosHeader, optional: OptionalHeaderView, count: nat) -> int {
    dos.spec_pe_headers_offset() + 24 + optional_size(optional) + 40 * count
}

/// The result of reading the headers at the start of `s`, with the number of
/// bytes they take; `None` where reading cannot go on because the numbers in
/// the headers contradict each other: a PE header offset that points into the
/// DOS header, or a headers size smaller than the headers that were read.
///
/// Reading goes through the DOS header, the bytes up to the PE header offset,
/// the PE signature, the COFF header, the Optional header and as many section
/// headers as the COFF header announces. After them, up to the headers size
/// given in the Optional header, come bytes of padding, as many as the input holds.
pub open spec fn parse_headers(s: Seq<u8>) -> Option<Result<(HeadersView, nat), Error>> {
    match DosHeader::spec_parse(s, 0) {
        Err(e) => Some(Err(e)),
        Ok(dos) => parse_after_dos(s, dos),
    }
}

/// Reading the headers on from the stub that follows the DOS header.
pub open spec fn parse_after_dos(s: Seq<u8>, dos: DosHeader) -> Option<Result<(HeadersView, nat), Error>> {
    let lfanew = dos.spec_pe_headers_offset() as int;
    if lfanew < 64 {
        None
    } else if lfanew - 64 > s.len() - 64 {
        Some(Err(Error::Decode(ReadError { requested: (lfanew - 64) as usize, available: (s.len() - 64) as usize })))
    } else if s.len() - lfanew < 4 {
        Some(Err(Error::Decode(ReadError { requested: 4, available: (s.len() - lfanew) as usize })))
    } else if le_value(s, lfanew, 4) != PE_SIGNATURE {
        Some(Err(Error::InvalidSignature))
    } else {
        match CoffHeader::spec_parse(s, lfanew + 4) {
            Err(e) => Some(Err(e)),
            Ok(coff) => parse_after_coff(s, dos, coff),
        }
    }
}

/// Reading the headers on from the Optional header.
pub open spec fn parse_after_coff(s: Seq<u8>, dos: DosHeader, coff: CoffHeader) -> Option<Result<(HeadersView, nat), Error>> {
    let lfanew = dos.spec_pe_headers_offset() as int;
    match parse_optional(s, lfanew + 24) {
        Err(e) => Some(Err(e)),
        Ok(optional) => {
            let count = coff.spec_number_of_sections() as nat;
            match parse_sections(s, lfanew + 24 + optional_size(optional), count) {
                Err(e) => Some(Err(e)),
                Ok(sections) => finish_headers(s, dos, coff, optional, sections),
            }
        },
    }
}

/// The headers once all of them have been read: the padding that follows
/// them, up to the headers size.
pub open spec fn finish_headers(
    s: Seq<u8>,
    dos: DosHeader,
    coff: CoffHeader,
    optional: OptionalHeaderView,
    sections: Seq<SectionHeaderView>,
) -> Option<Result<(HeadersView, nat), Error>> {
    let lfanew = dos.spec_pe_headers_offset() as int;
    let end = sections_end(dos, optional, coff.spec_number_of_sections() as nat);
    let headers_size = optional.1.spec_size_of_headers() as int;
    if headers_size < end {
        None
    } else {
        let padding = if s.len() - end < headers_size - end {
            s.len() - end
        } else {
            headers_size - end
        };
        Some(
            Ok(
                (
                    HeadersView {
                        dos,
                        stub: s.subrange(64, lfanew),
                        coff,
                        optional,
                        sections,
                        padding: padding as nat,
                        padding_value: 0,
                    },
                    (end + padding) as nat,
                ),
            ),
        )
    }
}

/// The 32-bit Portable Executable (PE) image file headers.
#[derive(Clone, Debug, PartialEq, Eq)]
pub struct Headers {
    dos: DosHeader,
    stub: Vec<u8>,
    coff: CoffHeader,
    optional: OptionalHeader,
    sections: Vec<SectionHeader>,
    padding: Option<Padding>,
}

impl View for Headers {
    type V = HeadersView;

    closed spec fn view(&self) -> HeadersView {
        HeadersView {
            dos: self.dos,
            stub: self.stub@,
            coff: self.coff,
            optional: self.optional@,
            sections: self.sections@.map_values(|h: SectionHeader| h@),
            padding: match self.padding {
                Some(p) => p.spec_size() as nat,
                None => 0,
            },
            padding_value: match self.padding {
                Some(p) => p.spec_value(),
                None => 0,
            },
        }
    }
}

impl Headers {
    /// The headers are ones that reading can give.
    pub closed spec fn wf(self) -> bool {
        &&& self.dos.wf()
        &&& self.dos.spec_pe_headers_offset() >= 64
        &&& self.stub@.len() == self.dos.spec_pe_headers_offset() - 64
        &&& self.coff.wf()
        &&& self.optional.wf()
        &&& self.sections@.len() == self.coff.spec_number_of_sections()
        &&& forall|i: int| 0 <= i < self.sections@.len() ==> (#[trigger] self.sections@[i]).wf()
        &&& self.padding matches Some(p) ==> p.spec_value() == 0
        &&& self@.optional.1.spec_size_of_headers() >= sections_end(
            self@.dos,
            self@.optional,
            self@.sections.len(),
        ) + self@.padding
    }

    /// Well-formed headers are no larger than the headers size, which is not
    /// zero, and more of them is identified than is not.
    /// Every byte that well-formed headers take is identified but those of
    /// the stub: the headers take the identified bytes and the stub.
    pub proof fn lemma_identified(self)
        requires
            self.wf(),
        ensures
            headers_identified(self@) + self@.stub.len() == self::cursor::headers_len(self@),
    {
        self.lemma_wf_size();
    }

    pub proof fn lemma_wf_size(self)
        requires
            self.wf(),
        ensures
            1 <= self@.optional.1.spec_size_of_headers(),
            headers_identified(self@) <= self@.optional.1.spec_size_of_headers(),
            sections_end(self@.dos, self@.optional, self@.sections.len()) + self@.padding
                <= self@.optional.1.spec_size_of_headers(),
            self@.stub.len() + 64 == self@.dos.spec_pe_headers_offset(),
            self@.sections.len() == self@.coff.spec_number_of_sections(),
    {
    }

    /// The headers fill the headers size that the Optional header gives: the
    /// padding reaches up to it.
    pub open spec fn complete(self) -> bool {
        self@.optional.1.spec_size_of_headers() == sections_end(
            self@.dos,
            self@.optional,
            self@.sections.len(),
        ) + self@.padding
    }

    /// Appends the bytes of the headers as they are laid out in the file.
    pub fn encode(&self, out: &mut Vec<u8>)
        ensures
            final(out)@ == old(out)@ + encode_headers(self@),
    {
        let ghost start = old(out)@;
        self.dos.encode(out);
        let mut i: usize = 0;
        let ghost after_dos = out@;
        while i < self.stub.len()
            invariant
                i <= self.stub@.len(),
                out@ == after_dos + self.stub@.take(i as int),
            decreases self.stub.len() - i,
        {
            out.push(self.stub[i]);
            i = i + 1;
            assert(out@ =~= after_dos + self.stub@.take(i as int));
        }
        assert(self.stub@.take(i as int) =~= self.stub@);
        write_field(out, PE_SIGNATURE, 4);
        self.coff.encode(out);
        self.optional.encode(out);
        let ghost after_optional = out@;
        let ghost views = self.sections@.map_values(|h: SectionHeader| h@);
        let mut j: usize = 0;
        assert(views.take(0) =~= seq![]);
        while j < self.sections.len()
            invariant
                j <= self.sections@.len(),
                views == self.sections@.map_values(|h: SectionHeader| h@),
                out@ == after_optional + encode_sections(views.take(j as int)),
            decreases self.sections.len() - j,
        {
            let ghost before = out@;
            self.sections[j].encode(out);
            proof {
                lemma_encode_sections_push(views.take(j as int), views[j as int]);
                assert(views.take(j + 1) =~= views.take(j as int).push(views[j as int]));
            }
            j = j + 1;
        }
        assert(views.take(j as int) =~= views);
        match &self.padding {
            Some(p) => {
                p.encode(out);
            },
            None => {},
        }
        proof {
            lemma_le_bytes_len(PE_SIGNATURE as nat, 4);
            match self.padding {
                Some(p) => {
                    assert(p.spec_encode() =~= fill(self@.padding, self@.padding_value));
                },
                None => {
                    assert(fill(0, 0) =~= seq![]);
                },
            }
        }
        assert(out@ =~= start + encode_headers(self@));
    }

    /// Gets the DOS header.
    pub fn dos(&self) -> (dos: &DosHeader)
        ensures
            *dos == self@.dos,
    {
        &self.dos
    }

    /// Gets the bytes between the DOS header and the PE signature.
    pub fn stub(&self) -> (stub: &[u8])
        ensures
            stub@ == self@.stub,
    {
        self.stub.as_slice()
    }

    /// Gets the COFF header.
    pub fn coff(&self) -> (coff: &CoffHeader)
        ensures
            *coff == self@.coff,
    {
        &self.coff
    }

    /// Gets the Optional header.
    pub fn optional(&self) -> (optional: &OptionalHeader)
        ensures
            optional@ == self@.optional,
    {
        &self.optional
    }

    /// Gets the section headers, in file order.
    pub fn sections(&self) -> (sections: &[SectionHeader])
        ensures
            sections@.map_values(|h: SectionHeader| h@) == self@.sections,
            self.wf() ==> forall|i: int| 0 <= i < sections@.len() ==> (#[trigger] sections@[i]).wf(),
    {
        self.sections.as_slice()
    }

    /// Gets the padding after the section headers, if there is any.
    pub fn padding(&self) -> (padding: Option<&Padding>)
        ensures
            padding is Some == (self@.padding > 0),
            padding matches Some(p) ==> p.spec_size() == self@.padding,
    {
        match &self.padding {
            Some(p) => {
                let _ = p.size();
                Some(p)
            },
            None => None,
        }
    }

    /// Gets the number of bytes of the headers whose meaning is known: all of
    /// them but the stub.
    pub fn identified(&self) -> (count: u64)
        requires
            self.wf(),
        ensures
            count == headers_identified(self@),
    {
        proof {
            self.lemma_wf_size();
        }
        let count = self.sections.len() as u64;
        let padding = match &self.padding {
            Some(p) => p.size().get(),
            None => 0,
        };
        88 + self.optional.size().get() + 40 * count + padding
    }

    /// Gets the size of the headers in memory, as the Optional header gives it.
    pub fn size(&self) -> (size: u64)
        ensures
            size == self@.optional.1.spec_size_of_headers(),
    {
        self.optional.headers_size() as u64
    }

    /// Reads the headers at the start of the input, with the number of bytes
    /// they take, or `None` where the numbers in the headers contradict each
    /// other so that reading cannot go on (see [`parse_headers`]).
    #[verifier::rlimit(50)]
    pub fn parse_guarded(data: &[u8]) -> (parsed: Option<Result<(Headers, usize), Error>>)
        ensures
            parsed is None <==> parse_headers(data@) is None,
            parsed matches Some(Ok((h, n))) ==> parse_headers(data@) == Some(
                Ok::<(HeadersView, nat), Error>((h@, n as nat)),
            ) && h.wf(),
            parsed matches Some(Err(e)) ==> parse_headers(data@) == Some(
                Err::<(HeadersView, nat), Error>(e),
            ),
    {
        let dos = match DosHeader::parse(data, 0) {
            Ok(dos) => dos,
            Err(e) => {
                return Some(Err(e));
            },
        };
        proof {
            header::dos::lemma_encode_parse(data@, 0);
        }
        let lfanew = dos.pe_headers_offset() as usize;
        if lfanew < 64 {
            return None;
        }
        let offset = lfanew - 64;
        if offset > data.len() - 64 {
            return Some(Err(Error::Decode(ReadError { requested: offset, available: data.len() - 64 })));
        }
        let stub = match try_copy_bytes(data, 64, offset) {
            Ok(stub) => stub,
            Err(e) => {
                return Some(Err(Error::Decode(e)));
            },
        };
        let signature = match read_field(data, lfanew, 4) {
            Ok(signature) => signature,
            Err(e) => {
                return Some(Err(Error::Decode(e)));
            },
        };
        proof {
            lemma_le_value_bound(data@, lfanew as int, 4);
            lemma_width_bound(4);
        }
        if signature != PE_SIGNATURE {
            return Some(Err(Error::InvalidSignature));
        }
        let coff = match CoffHeader::parse(data, lfanew + 4) {
            Ok(coff) => coff,
            Err(e) => {
                return Some(Err(e));
            },
        };
        proof {
            header::coff::lemma_encode_parse(data@, lfanew + 4);
        }
        let optional = match OptionalHeader::parse(data, lfanew + 24) {
            Ok(optional) => optional,
            Err(e) => {
                return Some(Err(e));
            },
        };
        proof {
            header::optional::lemma_encode_parse(data@, lfanew + 24);
        }
        let optional_length = optional.size().get() as usize;
        let count = coff.number_of_sections();
        let start = lfanew + 24 + optional_length;
        let mut sections: Vec<SectionHeader> = Vec::new();
        let mut p: usize = start;
        let mut i: usize = 0;
        assert(sections@.map_values(|h: SectionHeader| h@) =~= seq![]);
        #[verifier::loop_isolation(false)]
        while i < count
            invariant
                i <= count,
                start <= p <= data.len(),
                p == start + 40 * i,
                sections@.len() == i,
                forall|j: int| 0 <= j < i ==> (#[trigger] sections@[j]).wf(),
                parse_sections(data@, start as int, count as nat) == match parse_sections(
                    data@,
                    p as int,
                    (count - i) as nat,
                ) {
                    Ok(rest) => Ok(sections@.map_values(|h: SectionHeader| h@) + rest),
                    Err(e) => Err(e),
                },
            decreases count - i,
        {
            let section = match SectionHeader::parse(data, p) {
                Ok(section) => section,
                Err(e) => {
                    return Some(Err(e));
                },
            };
            proof {
                header::section::lemma_encode_parse(data@, p as int);
            }
            let ghost before = sections@.map_values(|h: SectionHeader| h@);
            sections.push(section);
            assert(sections@.map_values(|h: SectionHeader| h@) =~= before + seq![section@]);
            proof {
                match parse_sections(data@, p + 40, (count - i - 1) as nat) {
                    Ok(rest) => {
                        assert(before + (seq![section@] + rest) =~= sections@.map_values(
                            |h: SectionHeader| h@,
                        ) + rest);
                    },
                    Err(_) => {},
                }
            }
            p = p + 40;
            i = i + 1;
        }
        assert(sections@.map_values(|h: SectionHeader| h@) + seq![] =~= sections@.map_values(
            |h: SectionHeader| h@,
        ));
        let end = p;
        let headers_size = optional.headers_size() as usize;
        if headers_size < end {
            return None;
        }
        let available = data.len() - end;
        let wanted = headers_size - end;
        let padding_length = if available < wanted {
            available
        } else {
            wanted
        };
        let padding = if padding_length > 0 {
            Some(Padding::new(Size::new_valid(padding_length as u64), 0))
        } else {
            None
        };
        let headers = Headers { dos, stub, coff, optional, sections, padding };
        assert(headers@.sections == sections@.map_values(|h: SectionHeader| h@));
        Some(Ok((headers, end + padding_length)))
    }

    /// Reads the headers at the start of the input, with the number of bytes they take.
    pub fn parse(data: &[u8]) -> (parsed: Result<(Headers, usize), Error>)
        requires
            parse_headers(data@) is Some,
        ensures
            parsed matches Ok((h, n)) ==> parse_headers(data@) == Some(
                Ok::<(HeadersView, nat), Error>((h@, n as nat)),
            ) && h.wf(),
            parsed matches Err(e) ==> parse_headers(data@) == Some(
                Err::<(HeadersView, nat), Error>(e),
            ),
    {
        match Self::parse_guarded(data) {
            Some(parsed) => parsed,
            None => {
                proof {
                    assert(false);
                }
                Err(Error::InvalidSignature)
            },
        }
    }
}

/// Reading section headers after a prefix is reading them from what follows the prefix.
pub proof fn lemma_parse_sections_skip(prefix: Seq<u8>, s: Seq<u8>, pos: int, count: nat)
    requires
        0 <= pos,
    ensures
        parse_sections(prefix + s, prefix.len() + pos, count) == parse_sections(s, pos, count),
    decreases count,
{
    if count > 0 {
        header::section::lemma_parse_skip(prefix, s, pos);
        lemma_parse_sections_skip(prefix, s, pos + 40, (count - 1) as nat);
    }
}

/// Reading the encoding of section headers gives them back, whatever bytes follow them.
pub proof fn lemma_parse_encode_sections(sections: Seq<SectionHeaderView>, rest: Seq<u8>)
    requires
        forall|i: int| 0 <= i < sections.len() ==> ArrayString::<8>::valid_raw(#[trigger] sections[i].name),
    ensures
        parse_sections(encode_sections(sections) + rest, 0, sections.len()) == Ok::<Seq<SectionHeaderView>, Error>(sections),
        encode_sections(sections).len() == 40 * sections.len(),
    decreases sections.len(),
{
    if sections.len() > 0 {
        let first = sections[0];
        let tail = sections.drop_first();
        assert forall|i: int| 0 <= i < tail.len() implies ArrayString::<8>::valid_raw(#[trigger] tail[i].name) by {
            assert(tail[i] == sections[i + 1]);
        }
        assert(ArrayString::<8>::valid_raw(first.name));
        lemma_parse_encode_sections(tail, rest);
        header::section::lemma_encode_len(first);
        header::section::lemma_parse_encode(first, encode_sections(tail) + rest);
        assert(encode_sections(sections) + rest =~= encode_section_header(first) + (encode_sections(tail) + rest));
        lemma_parse_sections_skip(encode_section_header(first), encode_sections(tail) + rest, 0, tail.len());
        assert(seq![first] + tail =~= sections);
    } else {
        assert(sections =~= seq![]);
    }
}

/// Encoding section headers that were read gives back the bytes they were read from.
pub proof fn lemma_encode_parse_sections(s: Seq<u8>, pos: int, count: nat)
    requires
        0 <= pos <= s.len(),
        parse_sections(s, pos, count) is Ok,
    ensures
        pos + 40 * count <= s.len(),
        parse_sections(s, pos, count)->Ok_0.len() == count,
        encode_sections(parse_sections(s, pos, count)->Ok_0) == s.subrange(pos, pos + 40 * count),
        forall|i: int| 0 <= i < count ==> ArrayString::<8>::valid_raw(#[trigger] parse_sections(s, pos, count)->Ok_0[i].name),
    decreases count,
{
    if count > 0 {
        header::section::lemma_encode_parse(s, pos);
        lemma_encode_parse_sections(s, pos + 40, (count - 1) as nat);
        let sections = parse_sections(s, pos, count)->Ok_0;
        let tail = parse_sections(s, pos + 40, (count - 1) as nat)->Ok_0;
        assert(sections.drop_first() =~= tail);
        assert forall|i: int| 0 <= i < count implies ArrayString::<8>::valid_raw(#[trigger] sections[i].name) by {
            if i > 0 {
                assert(sections[i] == tail[i - 1]);
            }
        }
        assert(s.subrange(pos, pos + 40 * count) =~= s.subrange(pos, pos + 40) + s.subrange(pos + 40, pos + 40 * count));
    }
}

/// The pieces of encoded headers, from the DOS header on, followed by other bytes.
spec fn pieces(v: HeadersView, rest: Seq<u8>) -> Seq<Seq<u8>> {
    seq![
        v.dos.spec_encode(),
        v.stub,
        le_bytes(PE_SIGNATURE as nat, 4),
        v.coff.spec_encode(),
        encode_optional(v.optional),
        encode_sections(v.sections),
        fill(v.padding, v.padding_value) + rest,
    ]
}

/// The concatenation of the pieces from the `k`-th on.
spec fn join_from(p: Seq<Seq<u8>>, k: int) -> Seq<u8>
    decreases p.len() - k,
{
    if k >= p.len() || k < 0 {
        seq![]
    } else {
        p[k] + join_from(p, k + 1)
    }
}

/// The encoded headers followed by other bytes are the pieces after a prefix of them.
proof fn lemma_pieces(v: HeadersView, rest: Seq<u8>, k: int)
    requires
        0 <= k < 7,
    ensures
        encode_headers(v) + rest == join_from(pieces(v, rest), 0),
        join_from(pieces(v, rest), 0) == join_from(pieces(v, rest), 0).subrange(0, (join_from(pieces(v, rest), 0).len() - join_from(pieces(v, rest), k).len()) as int) + join_from(pieces(v, rest), k),
        join_from(pieces(v, rest), k) == pieces(v, rest)[k] + join_from(pieces(v, rest), k + 1),
{
    let p = pieces(v, rest);
    reveal_with_fuel(join_from, 8);
    assert(encode_headers(v) + rest =~= join_from(p, 0));
    let whole = join_from(p, 0);
    let tail = join_from(p, k);
    lemma_join_suffix(p, 0, k);
}

/// A later part of the concatenation is a suffix of an earlier part.
proof fn lemma_join_suffix(p: Seq<Seq<u8>>, j: int, k: int)
    requires
        0 <= j <= k <= p.len(),
    ensures
        join_from(p, j) == join_from(p, j).subrange(0, (join_from(p, j).len() - join_from(p, k).len()) as int) + join_from(p, k),
        join_from(p, j).len() >= join_from(p, k).len(),
    decreases k - j,
{
    if j < k {
        lemma_join_suffix(p, j + 1, k);
        let a = join_from(p, j);
        let b = join_from(p, j + 1);
        let c = join_from(p, k);
        assert(a == p[j] + b);
        assert(a =~= a.subrange(0, (a.len() - c.len()) as int) + c);
    } else {
        let a = join_from(p, j);
        assert(a =~= a.subrange(0, 0) + a);
    }
}

/// The length of the concatenation of the pieces before the `k`-th.
proof fn lemma_offsets(v: HeadersView, rest: Seq<u8>)
    requires
        v.stub.len() == v.dos.spec_pe_headers_offset() - 64,
        v.dos.spec_pe_headers_offset() >= 64,
    ensures
        join_from(pieces(v, rest), 0).len() - join_from(pieces(v, rest), 1).len() == 64,
        join_from(pieces(v, rest), 0).len() - join_from(pieces(v, rest), 2).len() == v.dos.spec_pe_headers_offset(),
        join_from(pieces(v, rest), 0).len() - join_from(pieces(v, rest), 3).len() == v.dos.spec_pe_headers_offset() + 4,
        join_from(pieces(v, rest), 0).len() - join_from(pieces(v, rest), 4).len() == v.dos.spec_pe_headers_offset() + 24,
        join_from(pieces(v, rest), 0).len() - join_from(pieces(v, rest), 5).len() == v.dos.spec_pe_headers_offset() + 24 + optional_size(v.optional),
{
    reveal_with_fuel(join_from, 8);
    header::dos::lemma_encode_len(v.dos);
    lemma_le_bytes_len(PE_SIGNATURE as nat, 4);
    header::coff::lemma_encode_len(v.coff);
    header::optional::lemma_encode_len(v.optional);
}

/// The end of reading headers whose pieces were all read back.
proof fn lemma_finish(v: HeadersView, e: Seq<u8>, n: nat)
    requires
        v.padding_value == 0,
        v.sections.len() == v.coff.spec_number_of_sections(),
        e.subrange(64, v.dos.spec_pe_headers_offset() as int) == v.stub,
        v.optional.1.spec_size_of_headers() == sections_end(v.dos, v.optional, v.sections.len()) + v.padding,
        e.len() >= n,
        n == sections_end(v.dos, v.optional, v.sections.len()) + v.padding,
    ensures
        finish_headers(e, v.dos, v.coff, v.optional, v.sections) == Some(
            Ok::<(HeadersView, nat), Error>((v, n)),
        ),
{
}

/// Reading goes on past the DOS header, the stub and the signature to the COFF header.
proof fn lemma_after_dos(e: Seq<u8>, dos: DosHeader, coff: CoffHeader, r: Option<Result<(HeadersView, nat), Error>>)
    requires
        DosHeader::spec_parse(e, 0) == Ok::<DosHeader, Error>(dos),
        dos.spec_pe_headers_offset() >= 64,
        dos.spec_pe_headers_offset() <= e.len(),
        e.len() - dos.spec_pe_headers_offset() >= 4,
        le_value(e, dos.spec_pe_headers_offset() as int, 4) == PE_SIGNATURE,
        CoffHeader::spec_parse(e, dos.spec_pe_headers_offset() + 4) == Ok::<CoffHeader, Error>(coff),
        parse_after_coff(e, dos, coff) == r,
    ensures
        parse_headers(e) == r,
{
}

/// Each piece of encoded headers is read back from where it stands.
spec fn pieces_read_back(v: HeadersView, rest: Seq<u8>) -> bool {
    let e = encode_headers(v) + rest;
    let lfanew = v.dos.spec_pe_headers_offset() as int;
    let count = v.coff.spec_number_of_sections() as nat;
    let start = lfanew + 24 + optional_size(v.optional);
    let end = sections_end(v.dos, v.optional, count);
    &&& DosHeader::spec_parse(e, 0) == Ok::<DosHeader, Error>(v.dos)
    &&& e.len() - lfanew >= 4
    &&& le_value(e, lfanew, 4) == PE_SIGNATURE
    &&& CoffHeader::spec_parse(e, lfanew + 4) == Ok::<CoffHeader, Error>(v.coff)
    &&& parse_optional(e, lfanew + 24) == Ok::<OptionalHeaderView, Error>(v.optional)
    &&& parse_sections(e, start, count) == Ok::<Seq<SectionHeaderView>, Error>(v.sections)
    &&& e.subrange(64, lfanew) == v.stub
    &&& e.len() == end + v.padding + rest.len()
    &&& encode_headers(v).len() == end + v.padding
}

/// The pieces of well-formed headers are read back from their encoding.
#[verifier::rlimit(100)]
proof fn lemma_pieces_read_back(h: Headers, rest: Seq<u8>)
    requires
        h.wf(),
    ensures
        pieces_read_back(h@, rest),
{
    let v = h@;
    let p = pieces(v, rest);
    let e = encode_headers(v) + rest;
    let lfanew = v.dos.spec_pe_headers_offset() as int;
    let count = v.coff.spec_number_of_sections() as nat;
    let start = lfanew + 24 + optional_size(v.optional);
    let end = sections_end(v.dos, v.optional, count);
    lemma_offsets(v, rest);
    assert(DosHeader::spec_parse(e, 0) == Ok::<DosHeader, Error>(v.dos)) by {
        lemma_pieces(v, rest, 0);
        header::dos::lemma_parse_encode(v.dos, join_from(p, 1));
    }
    assert(e.len() - lfanew >= 4 && le_value(e, lfanew, 4) == PE_SIGNATURE) by {
        lemma_pieces(v, rest, 2);
        lemma_width_bound(4);
        lemma_le_bytes_len(PE_SIGNATURE as nat, 4);
        crate::wire::lemma_le_value_of_bytes(PE_SIGNATURE as nat, 4, join_from(p, 3));
        assert(e.subrange(lfanew, lfanew + 4) =~= join_from(p, 2).subrange(0, 4));
        crate::wire::lemma_le_value_shift(e, join_from(p, 2), lfanew, 0, 4);
    }
    assert(CoffHeader::spec_parse(e, lfanew + 4) == Ok::<CoffHeader, Error>(v.coff)) by {
        lemma_pieces(v, rest, 3);
        header::coff::lemma_parse_skip(e.subrange(0, lfanew + 4), join_from(p, 3), 0);
        header::coff::lemma_parse_encode(v.coff, join_from(p, 4));
    }
    assert(parse_optional(e, lfanew + 24) == Ok::<OptionalHeaderView, Error>(v.optional)) by {
        lemma_pieces(v, rest, 4);
        header::optional::lemma_parse_skip(e.subrange(0, lfanew + 24), join_from(p, 4), 0);
        header::optional::lemma_parse_encode(h.optional, join_from(p, 5));
    }
    assert(parse_sections(e, start, count) == Ok::<Seq<SectionHeaderView>, Error>(v.sections)
        && encode_sections(v.sections).len() == 40 * count) by {
        assert forall|i: int| 0 <= i < v.sections.len() implies ArrayString::<8>::valid_raw(
            #[trigger] v.sections[i].name,
        ) by {
            assert(v.sections[i] == h.sections@[i]@);
            assert(h.sections@[i].wf());
        }
        lemma_parse_encode_sections(v.sections, join_from(p, 6));
        lemma_pieces(v, rest, 5);
        lemma_parse_sections_skip(e.subrange(0, start), join_from(p, 5), 0, count);
    }
    assert(e.subrange(64, lfanew) == v.stub) by {
        lemma_pieces(v, rest, 1);
        assert(e.subrange(64, lfanew) =~= v.stub);
    }
    assert(e.len() == end + v.padding + rest.len() && encode_headers(v).len() == end + v.padding) by {
        lemma_pieces(v, rest, 5);
        lemma_pieces(v, rest, 6);
    }
}

/// Reading the encoding of complete headers gives them back, with their whole
/// length, whatever bytes follow them.
pub proof fn lemma_parse_encode(h: Headers, rest: Seq<u8>)
    requires
        h.wf(),
        h.complete(),
    ensures
        parse_headers(encode_headers(h@) + rest) == Some(
            Ok::<(HeadersView, nat), Error>((h@, encode_headers(h@).len())),
        ),
{
    let v = h@;
    let e = encode_headers(v) + rest;
    lemma_pieces_read_back(h, rest);
    let n = encode_headers(v).len();
    lemma_finish(v, e, n);
    lemma_after_dos(e, v.dos, v.coff, parse_after_coff(e, v.dos, v.coff));
}

/// Headers that were read take the bytes up to the end of their padding,
/// which follows the section headers.
pub proof fn lemma_parsed_len(s: Seq<u8>)
    requires
        parse_headers(s) matches Some(Ok(_)),
    ensures
        parse_headers(s) matches Some(Ok((v, n))) && n == sections_end(v.dos, v.optional, v.sections.len())
            + v.padding && n <= s.len(),
{
    let dos = DosHeader::spec_parse(s, 0)->Ok_0;
    let lfanew = dos.spec_pe_headers_offset() as int;
    let coff = CoffHeader::spec_parse(s, lfanew + 4)->Ok_0;
    let optional = parse_optional(s, lfanew + 24)->Ok_0;
    let count = coff.spec_number_of_sections() as nat;
    let sections = parse_sections(s, lfanew + 24 + optional_size(optional), count)->Ok_0;
    assert(parse_headers(s) == finish_headers(s, dos, coff, optional, sections));
    header::optional::lemma_encode_parse(s, lfanew + 24);
    lemma_encode_parse_sections(s, lfanew + 24 + optional_size(optional), count);
}

/// Every byte of headers read from the input is identified but those of the
/// stub: the DOS header, the signature, the COFF header, the Optional header,
/// the section headers and the padding after them all count.
pub proof fn lemma_identified_parsed(s: Seq<u8>)
    requires
        parse_headers(s) matches Some(Ok(_)),
    ensures
        parse_headers(s) matches Some(Ok((v, n))) && headers_identified(v) + v.stub.len() == n
            && v.stub.len() == v.dos.spec_pe_headers_offset() - 64,
{
    lemma_parsed_len(s);
    let dos = DosHeader::spec_parse(s, 0)->Ok_0;
    let lfanew = dos.spec_pe_headers_offset() as int;
    let coff = CoffHeader::spec_parse(s, lfanew + 4)->Ok_0;
    let optional = parse_optional(s, lfanew + 24)->Ok_0;
    let count = coff.spec_number_of_sections() as nat;
    let sections = parse_sections(s, lfanew + 24 + optional_size(optional), count)->Ok_0;
    assert(parse_headers(s) == finish_headers(s, dos, coff, optional, sections));
}

/// Encoding headers that were read gives back the bytes they were read from,
/// when the bytes of their padding are zero.
pub proof fn lemma_encode_parse(s: Seq<u8>)
    requires
        parse_headers(s) matches Some(Ok((v, n))) && forall|i: int|
            n - v.padding <= i < n ==> #[trigger] s[i] == 0,
    ensures
        parse_headers(s) matches Some(Ok((v, n))) && n <= s.len() && encode_headers(v) == s.subrange(0, n as int),
{
    let v = parse_headers(s)->Some_0->Ok_0.0;
    let n = parse_headers(s)->Some_0->Ok_0.1;
    let lfanew = v.dos.spec_pe_headers_offset() as int;
    let count = v.coff.spec_number_of_sections() as nat;
    header::dos::lemma_encode_parse(s, 0);
    lemma_le_value_bound(s, lfanew, 4);
    lemma_width_bound(4);
    crate::wire::lemma_le_bytes_of_value(s, lfanew, 4);
    header::coff::lemma_encode_parse(s, lfanew + 4);
    header::optional::lemma_encode_parse(s, lfanew + 24);
    let start = lfanew + 24 + optional_size(v.optional);
    lemma_encode_parse_sections(s, start, count);
    let end = start + 40 * count;
    assert(fill(v.padding, v.padding_value) =~= s.subrange(end, n as int));
    assert(s.subrange(0, n as int) =~= s.subrange(0, 64) + s.subrange(64, lfanew) + s.subrange(lfanew, lfanew + 4)
        + s.subrange(lfanew + 4, lfanew + 24) + s.subrange(lfanew + 24, start) + s.subrange(start, end)
        + s.subrange(end, n as int));
}

} // verus!
