//! The data directories within the Optional header.

pub mod cursor;
pub mod directory;

use vstd::prelude::*;

use crate::image::region::headers::Error;
use crate::memory::Size;

use self::directory::DataDirectory;

verus! {

broadcast use vstd::array::group_array_axioms;

/// The maximum number of data directory entries.
pub const MAX_DATA_DIRECTORIES: u32 = 16;

/// The result of reading `count` data directory entries from `s` at `pos`, one after the other.
pub open spec fn parse_entries(s: Seq<u8>, pos: int, count: nat) -> Result<Seq<DataDirectory>, Error>
    decreases count,
{
    if count == 0 {
        Ok(seq![])
    } else {
        match DataDirectory::spec_parse(s, pos) {
            Err(e) => Err(e),
            Ok(first) => match parse_entries(s, pos + 8, (count - 1) as nat) {
                Ok(rest) => Ok(seq![first] + rest),
                Err(e) => Err(e),
            },
        }
    }
}

/// The bytes of data directory entries, one after the other.
pub open spec fn encode_entries(entries: Seq<DataDirectory>) -> Seq<u8>
    decreases entries.len(),
{
    if entries.len() == 0 {
        seq![]
    } else {
        entries[0].spec_encode() + encode_entries(entries.drop_first())
    }
}

/// The bytes of the entries are eight apiece.
pub proof fn lemma_encode_entries_len(entries: Seq<DataDirectory>)
    ensures
        encode_entries(entries).len() == 8 * entries.len(),
    decreases entries.len(),
{
    if entries.len() > 0 {
        directory::lemma_encode_len(entries[0]);
        lemma_encode_entries_len(entries.drop_first());
    }
}

/// The data directories within the Optional header.
///
/// The table has room for sixteen entries; those past the count are empty.
#[derive(Clone, Copy, Debug, PartialEq, Eq)]
pub struct DataDirectories {
    count: u32,
    table: [DataDirectory; 16],
}

impl DataDirectories {
    #[verifier::type_invariant]
    spec fn valid(self) -> bool {
        self.wf()
    }

    /// There are one to sixteen entries, and the rest of the table is empty.
    pub closed spec fn wf(self) -> bool {
        &&& 1 <= self.count <= MAX_DATA_DIRECTORIES
        &&& forall|i: int|
            self.count <= i < 16 ==> #[trigger] self.table@[i] == DataDirectory::empty()
    }

    /// A table with one to sixteen entries holds exactly that many.
    pub proof fn lemma_wf(self)
        requires
            self.wf(),
        ensures
            1 <= self.spec_count() <= MAX_DATA_DIRECTORIES,
            self.spec_entries().len() == self.spec_count(),
    {
    }

    /// The number of entries in the header.
    pub closed spec fn spec_count(self) -> u32 {
        self.count
    }

    /// The entries in the header, in file order.
    pub closed spec fn spec_entries(self) -> Seq<DataDirectory> {
        self.table@.take(self.count as int)
    }

    /// The entry at the given index when it names a table, that is, when its address is not zero.
    pub open spec fn spec_get(self, index: int) -> Option<DataDirectory> {
        if 0 <= index < self.spec_entries().len() && self.spec_entries()[index].spec_virtual_address().spec_value() != 0 {
            Some(self.spec_entries()[index])
        } else {
            None
        }
    }

    /// The result of reading `count` entries from `s` at `pos`.
    pub open spec fn spec_parse(s: Seq<u8>, pos: int, count: u32) -> Result<Seq<DataDirectory>, Error> {
        if count == 0 || count > MAX_DATA_DIRECTORIES {
            Err(Error::UnsupportedDataDirectoryCount(count))
        } else {
            parse_entries(s, pos, count as nat)
        }
    }

    /// The bytes of the entries in the header.
    pub open spec fn spec_encode(self) -> Seq<u8> {
        encode_entries(self.spec_entries())
    }

    /// Every table of entries has between one and sixteen of them.
    pub fn count(&self) -> (count: u32)
        ensures
            count == self.spec_count(),
            1 <= count <= MAX_DATA_DIRECTORIES,
            self.spec_entries().len() == count,
    {
        proof {
            use_type_invariant(self);
        }
        self.count
    }

    /// Reads `count` data directory entries from the input at `pos`.
    pub fn parse(data: &[u8], pos: usize, count: u32) -> (parsed: Result<DataDirectories, Error>)
        requires
            pos <= data.len(),
        ensures
            parsed matches Ok(d) ==> Self::spec_parse(data@, pos as int, count) == Ok::<
                Seq<DataDirectory>,
                Error,
            >(d.spec_entries()) && d.spec_count() == count && d.wf(),
            parsed matches Err(e) ==> Self::spec_parse(data@, pos as int, count) == Err::<
                Seq<DataDirectory>,
                Error,
            >(e),
    {
        if count == 0 || count > MAX_DATA_DIRECTORIES {
            return Err(Error::UnsupportedDataDirectoryCount(count));
        }
        let mut table = [DataDirectory::default();16];
        let mut i: u32 = 0;
        let mut p: usize = pos;
        assert(table@.take(0) =~= seq![]);
        while i < count
            invariant
                i <= count <= 16,
                pos <= p <= data.len(),
                p == pos + 8 * i,
                table@.len() == 16,
                forall|j: int| i <= j < 16 ==> #[trigger] table@[j] == DataDirectory::empty(),
                parse_entries(data@, pos as int, count as nat) == match parse_entries(
                    data@,
                    p as int,
                    (count - i) as nat,
                ) {
                    Ok(rest) => Ok(table@.take(i as int) + rest),
                    Err(e) => Err(e),
                },
            decreases count - i,
        {
            match DataDirectory::parse(data, p) {
                Ok(entry) => {
                    proof {
                        directory::lemma_encode_parse(data@, p as int);
                    }
                    let ghost before = table@;
                    table[i as usize] = entry;
                    assert(table@.take(i + 1) =~= before.take(i as int) + seq![entry]);
                    proof {
                        match parse_entries(data@, p + 8, (count - i - 1) as nat) {
                            Ok(rest) => {
                                assert(before.take(i as int) + (seq![entry] + rest) =~= table@.take(
                                    i + 1,
                                ) + rest);
                            },
                            Err(_) => {},
                        }
                    }
                    i = i + 1;
                    p = p + 8;
                },
                Err(e) => {
                    return Err(e);
                },
            }
        }
        assert(table@.take(i as int) + seq![] =~= table@.take(i as int));
        Ok(DataDirectories { count, table })
    }

    /// Gets the entry at the given index, whether it names a table or not.
    pub fn entry(&self, index: usize) -> (entry: &DataDirectory)
        requires
            index < self.spec_count(),
        ensures
            *entry == self.spec_entries()[index as int],
    {
        proof {
            use_type_invariant(self);
        }
        &self.table[index]
    }

    /// Gets the data directory at the given index, when it names a table.
    fn get(&self, index: usize) -> (entry: Option<&DataDirectory>)
        ensures
            entry is Some == self.spec_get(index as int) is Some,
            entry matches Some(d) ==> self.spec_get(index as int) == Some(*d),
    {
        proof {
            use_type_invariant(self);
            DataDirectory::lemma_empty();
        }
        if index < 16 {
            let entry = &self.table[index];
            if entry.target_address().value() != 0 {
                return Some(entry);
            }
        }
        None
    }

    /// Gets the export table data directory.
    pub fn export_table(&self) -> (entry: Option<&DataDirectory>)
        ensures
            entry is Some == self.spec_get(0) is Some,
            entry matches Some(d) ==> self.spec_get(0) == Some(*d),
    {
        self.get(0)
    }

    /// Gets the import table data directory.
    pub fn import_table(&self) -> (entry: Option<&DataDirectory>)
        ensures
            entry is Some == self.spec_get(1) is Some,
            entry matches Some(d) ==> self.spec_get(1) == Some(*d),
    {
        self.get(1)
    }

    /// Gets the resource table data directory.
    pub fn resource_table(&self) -> (entry: Option<&DataDirectory>)
        ensures
            entry is Some == self.spec_get(2) is Some,
            entry matches Some(d) ==> self.spec_get(2) == Some(*d),
    {
        self.get(2)
    }

    /// Gets the exception table data directory.
    pub fn exception_table(&self) -> (entry: Option<&DataDirectory>)
        ensures
            entry is Some == self.spec_get(3) is Some,
            entry matches Some(d) ==> self.spec_get(3) == Some(*d),
    {
        self.get(3)
    }

    /// Gets the certificate table data directory.
    pub fn certificate_table(&self) -> (entry: Option<&DataDirectory>)
        ensures
            entry is Some == self.spec_get(4) is Some,
            entry matches Some(d) ==> self.spec_get(4) == Some(*d),
    {
        self.get(4)
    }

    /// Gets the base relocation table data directory.
    pub fn base_relocation_table(&self) -> (entry: Option<&DataDirectory>)
        ensures
            entry is Some == self.spec_get(5) is Some,
            entry matches Some(d) ==> self.spec_get(5) == Some(*d),
    {
        self.get(5)
    }

    /// Gets the debug data directory.
    pub fn debug(&self) -> (entry: Option<&DataDirectory>)
        ensures
            entry is Some == self.spec_get(6) is Some,
            entry matches Some(d) ==> self.spec_get(6) == Some(*d),
    {
        self.get(6)
    }

    /// Gets the global pointer data directory.
    pub fn global_pointer(&self) -> (entry: Option<&DataDirectory>)
        ensures
            entry is Some == self.spec_get(8) is Some,
            entry matches Some(d) ==> self.spec_get(8) == Some(*d),
    {
        self.get(8)
    }

    /// Gets the thread local storage (TLS) table data directory.
    pub fn tls_table(&self) -> (entry: Option<&DataDirectory>)
        ensures
            entry is Some == self.spec_get(9) is Some,
            entry matches Some(d) ==> self.spec_get(9) == Some(*d),
    {
        self.get(9)
    }

    /// Gets the load configuration table data directory.
    pub fn load_config_table(&self) -> (entry: Option<&DataDirectory>)
        ensures
            entry is Some == self.spec_get(10) is Some,
            entry matches Some(d) ==> self.spec_get(10) == Some(*d),
    {
        self.get(10)
    }

    /// Gets the bound import table data directory.
    pub fn bound_import_table(&self) -> (entry: Option<&DataDirectory>)
        ensures
            entry is Some == self.spec_get(11) is Some,
            entry matches Some(d) ==> self.spec_get(11) == Some(*d),
    {
        self.get(11)
    }

    /// Gets the import address table data directory.
    pub fn import_address_table(&self) -> (entry: Option<&DataDirectory>)
        ensures
            entry is Some == self.spec_get(12) is Some,
            entry matches Some(d) ==> self.spec_get(12) == Some(*d),
    {
        self.get(12)
    }

    /// Gets the delay import descriptor data directory.
    pub fn delay_import_descriptor(&self) -> (entry: Option<&DataDirectory>)
        ensures
            entry is Some == self.spec_get(13) is Some,
            entry matches Some(d) ==> self.spec_get(13) == Some(*d),
    {
        self.get(13)
    }

    /// Gets the size of the entries in the header: eight bytes each.
    pub fn size(&self) -> (size: Size)
        ensures
            size.spec_get() == 8 * self.spec_count(),
    {
        proof {
            use_type_invariant(self);
        }
        Size::new_valid(8 * self.count as u64)
    }

    /// Appends the bytes of the entries in the header.
    pub fn encode(&self, out: &mut Vec<u8>)
        ensures
            final(out)@ == old(out)@ + self.spec_encode(),
    {
        proof {
            use_type_invariant(self);
        }
        let ghost start = old(out)@;
        let ghost entries = self.spec_entries();
        let mut i: u32 = 0;
        assert(entries.skip(0) =~= entries);
        while i < self.count
            invariant
                i <= self.count <= 16,
                entries == self.table@.take(self.count as int),
                start + encode_entries(entries) == out@ + encode_entries(entries.skip(i as int)),
            decreases self.count - i,
        {
            assert(entries.skip(i as int).drop_first() =~= entries.skip(i + 1));
            assert(entries.skip(i as int)[0] == self.table@[i as int]);
            let ghost before = out@;
            self.table[i as usize].encode(out);
            assert(before + encode_entries(entries.skip(i as int)) =~= out@ + encode_entries(
                entries.skip(i + 1),
            ));
            i = i + 1;
        }
        assert(out@ + encode_entries(entries.skip(i as int)) =~= out@);
    }
}

/// Reading entries gives as many as were asked for.
pub proof fn lemma_parse_entries_len(s: Seq<u8>, pos: int, count: nat)
    requires
        parse_entries(s, pos, count) is Ok,
    ensures
        parse_entries(s, pos, count)->Ok_0.len() == count,
    decreases count,
{
    if count > 0 {
        lemma_parse_entries_len(s, pos + 8, (count - 1) as nat);
    }
}

/// Reading entries after a prefix is reading them from what follows the prefix.
pub proof fn lemma_parse_entries_skip(prefix: Seq<u8>, s: Seq<u8>, offset: int, count: nat)
    requires
        0 <= offset,
    ensures
        parse_entries(prefix + s, prefix.len() + offset, count) == parse_entries(s, offset, count),
    decreases count,
{
    if count > 0 {
        crate::wire::lemma_read_layout_skip_at(prefix, s, offset, DataDirectory::spec_widths());
        lemma_parse_entries_skip(prefix, s, offset + 8, (count - 1) as nat);
    }
}

/// Reading the encoding of entries gives them back, whatever bytes follow them.
pub proof fn lemma_parse_encode_entries(entries: Seq<DataDirectory>, rest: Seq<u8>)
    ensures
        parse_entries(encode_entries(entries) + rest, 0, entries.len()) == Ok::<Seq<DataDirectory>, Error>(entries),
        encode_entries(entries).len() == 8 * entries.len(),
    decreases entries.len(),
{
    if entries.len() > 0 {
        let first = entries[0];
        let tail = entries.drop_first();
        lemma_parse_encode_entries(tail, rest);
        directory::lemma_encode_len(first);
        directory::lemma_parse_encode(first, encode_entries(tail) + rest);
        assert(encode_entries(entries) + rest =~= first.spec_encode() + (encode_entries(tail) + rest));
        lemma_parse_entries_skip(first.spec_encode(), encode_entries(tail) + rest, 0, tail.len());
        assert(seq![first] + tail =~= entries);
    } else {
        assert(entries =~= seq![]);
    }
}

/// Encoding entries that were read gives back the bytes they were read from.
pub proof fn lemma_encode_parse_entries(s: Seq<u8>, pos: int, count: nat)
    requires
        0 <= pos <= s.len(),
        parse_entries(s, pos, count) is Ok,
    ensures
        pos + 8 * count <= s.len(),
        parse_entries(s, pos, count)->Ok_0.len() == count,
        encode_entries(parse_entries(s, pos, count)->Ok_0) == s.subrange(pos, pos + 8 * count),
    decreases count,
{
    if count > 0 {
        directory::lemma_encode_parse(s, pos);
        lemma_encode_parse_entries(s, pos + 8, (count - 1) as nat);
        let entries = parse_entries(s, pos, count)->Ok_0;
        assert(entries.drop_first() =~= parse_entries(s, pos + 8, (count - 1) as nat)->Ok_0);
        assert(s.subrange(pos, pos + 8 * count) =~= s.subrange(pos, pos + 8) + s.subrange(pos + 8, pos + 8 * count));
    }
}

} // verus!
