//! A range of addresses in which some disjoint parts are occupied.

use vstd::prelude::*;

use super::{Extent, Size, ADDRESS_SPACE_END};

verus! {

/// One past the last address of an entry, given as its address, its size
/// and what occupies it.
pub open spec fn entry_end<V>(e: (u32, nat, V)) -> int {
    e.0 + e.1
}

/// The entries come in increasing order of address and none reaches into
/// the next.
pub open spec fn disjoint<V>(s: Seq<(u32, nat, V)>) -> bool {
    forall|i: int, j: int| #![trigger s[i], s[j]] 0 <= i < j < s.len() ==> entry_end(s[i]) <= s[j].0
}

/// Each entry is non-empty and lies within the first `total` addresses.
pub open spec fn within<V>(s: Seq<(u32, nat, V)>, total: nat) -> bool {
    forall|i: int| 0 <= i < s.len() ==> 1 <= (#[trigger] s[i]).1 && entry_end(s[i]) <= total
}

/// Some entry shares an address with the range of `size` addresses at `address`.
pub open spec fn overlapping<V>(s: Seq<(u32, nat, V)>, address: int, size: int) -> bool {
    exists|i: int| 0 <= i < s.len() && (#[trigger] s[i]).0 < address + size && address < entry_end(s[i])
}

/// The number of leading entries that start below `address`: where an entry
/// at `address` goes to keep the order.
pub open spec fn rank<V>(s: Seq<(u32, nat, V)>, address: int) -> nat
    decreases s.len(),
{
    if s.len() == 0 || s[0].0 >= address {
        0
    } else {
        1 + rank(s.drop_first(), address)
    }
}

/// The error for an entry that cannot be added.
#[derive(Clone, Copy, Debug, PartialEq, Eq)]
pub enum SparseError {
    /// The entry would reach past the end of the range.
    OutOfBounds { address: u32, size: u64 },
    /// The entry would share addresses with another one.
    Overlapping { address: u32, size: u64 },
}

/// The entries after adding one of `size` addresses at `address`, within a
/// range of `total` addresses.
pub open spec fn spec_insert<V>(
    s: Seq<(u32, nat, V)>,
    total: nat,
    address: u32,
    size: nat,
    value: V,
) -> Result<Seq<(u32, nat, V)>, SparseError> {
    if address + size > total {
        Err(SparseError::OutOfBounds { address, size: size as u64 })
    } else if overlapping(s, address as int, size as int) {
        Err(SparseError::Overlapping { address, size: size as u64 })
    } else {
        Ok(s.insert(rank(s, address as int) as int, (address, size, value)))
    }
}

/// The entries that hold `address`.
pub open spec fn holds<V>(e: (u32, nat, V), address: int) -> bool {
    e.0 <= address < entry_end(e)
}

/// Where moving forward from `pos` goes among entries within a range of
/// `total` addresses: to the end of the entry that holds it, or else to the
/// start of the next entry, or else to the end of the range.
pub open spec fn stop_after<V>(s: Seq<(u32, nat, V)>, pos: int, total: nat) -> nat
    decreases s.len(),
{
    if s.len() == 0 {
        total
    } else if s[0].0 > pos {
        s[0].0 as nat
    } else if pos < entry_end(s[0]) {
        entry_end(s[0]) as nat
    } else {
        stop_after(s.drop_first(), pos, total)
    }
}

/// The start of the entry that holds `pos`, or `pos` itself where none does.
pub open spec fn part_start<V>(s: Seq<(u32, nat, V)>, pos: int) -> int
    decreases s.len(),
{
    if s.len() == 0 {
        pos
    } else if s[0].0 > pos {
        pos
    } else if pos < entry_end(s[0]) {
        s[0].0 as int
    } else {
        part_start(s.drop_first(), pos)
    }
}

/// Some entry holds `pos`.
pub open spec fn held<V>(s: Seq<(u32, nat, V)>, pos: int) -> bool {
    exists|j: int| 0 <= j < s.len() && holds(#[trigger] s[j], pos)
}

/// The index of an entry that holds `pos`, where one does.
pub open spec fn holder<V>(s: Seq<(u32, nat, V)>, pos: int) -> int {
    choose|j: int| 0 <= j < s.len() && holds(#[trigger] s[j], pos)
}

/// Among disjoint entries, at most one holds a position.
pub proof fn lemma_holder<V>(s: Seq<(u32, nat, V)>, pos: int, i: int)
    requires
        disjoint(s),
        0 <= i < s.len(),
        holds(s[i], pos),
    ensures
        held(s, pos),
        holder(s, pos) == i,
{
    assert(holds(s[i], pos));
    let j = holder(s, pos);
    if j < i {
        assert(entry_end(s[j]) <= s[i].0);
    } else if j > i {
        assert(entry_end(s[i]) <= s[j].0);
    }
}

/// Among disjoint entries, moving forward from a position in an entry goes
/// to its end, and the part there starts with the entry.
pub proof fn lemma_at_holder<V>(s: Seq<(u32, nat, V)>, pos: int, total: nat, j: int)
    requires
        disjoint(s),
        within(s, total),
        0 <= j < s.len(),
        holds(s[j], pos),
    ensures
        stop_after(s, pos, total) == entry_end(s[j]),
        part_start(s, pos) == s[j].0,
    decreases j,
{
    if j > 0 {
        assert(entry_end(s[0]) <= s[j].0);
        let t = s.drop_first();
        assert(t[j - 1] == s[j]);
        assert forall|a: int, b: int| 0 <= a < b < t.len() implies entry_end(#[trigger] t[a]) <= (#[trigger] t[b]).0 by {
            assert(t[a] == s[a + 1] && t[b] == s[b + 1]);
        }
        assert forall|i: int| 0 <= i < t.len() implies 1 <= (#[trigger] t[i]).1 && entry_end(t[i]) <= total by {
            assert(t[i] == s[i + 1]);
        }
        lemma_at_holder(t, pos, total, j - 1);
    }
}

/// Where no entry holds a position, the part there starts at it.
pub proof fn lemma_no_holder<V>(s: Seq<(u32, nat, V)>, pos: int)
    requires
        forall|j: int| 0 <= j < s.len() ==> !holds(#[trigger] s[j], pos),
    ensures
        part_start(s, pos) == pos,
    decreases s.len(),
{
    if s.len() > 0 {
        let t = s.drop_first();
        assert forall|j: int| 0 <= j < t.len() implies !holds(#[trigger] t[j], pos) by {
            assert(t[j] == s[j + 1]);
        }
        assert(!holds(s[0], pos));
        lemma_no_holder(t, pos);
    }
}

/// Moving forward within the range goes forward and stays within it.
pub proof fn lemma_stop_after<V>(s: Seq<(u32, nat, V)>, pos: int, total: nat)
    requires
        within(s, total),
        0 <= pos < total,
    ensures
        pos < stop_after(s, pos, total) <= total,
    decreases s.len(),
{
    if s.len() > 0 {
        let t = s.drop_first();
        assert forall|i: int| 0 <= i < t.len() implies 1 <= (#[trigger] t[i]).1 && entry_end(t[i]) <= total by {
            assert(t[i] == s[i + 1]);
        }
        lemma_stop_after(t, pos, total);
    }
}

/// The number of identified bytes of the entries, together.
pub open spec fn identified_sum<T: Extent>(s: Seq<(u32, nat, T)>) -> nat
    decreases s.len(),
{
    if s.len() == 0 {
        0
    } else {
        identified_sum(s.drop_last()) + s.last().2.spec_identified()
    }
}

/// Adding an entry adds its identified bytes to those of the entries.
pub proof fn lemma_identified_sum_insert<T: Extent>(s: Seq<(u32, nat, T)>, k: int, e: (u32, nat, T))
    requires
        0 <= k <= s.len(),
    ensures
        identified_sum(s.insert(k, e)) == identified_sum(s) + e.2.spec_identified(),
    decreases s.len(),
{
    let t = s.insert(k, e);
    if k == s.len() {
        assert(t.drop_last() =~= s);
    } else {
        assert(t.drop_last() =~= s.drop_last().insert(k, e));
        assert(t.last() == s.last());
        lemma_identified_sum_insert(s.drop_last(), k, e);
    }
}

/// The rank of an address is the number of entries before the first that
/// starts at or after it.
pub proof fn lemma_rank<V>(s: Seq<(u32, nat, V)>, address: int, k: int)
    requires
        0 <= k <= s.len(),
        forall|j: int| 0 <= j < k ==> (#[trigger] s[j]).0 < address,
        k < s.len() ==> s[k].0 >= address,
    ensures
        rank(s, address) == k,
    decreases k,
{
    if k > 0 {
        let t = s.drop_first();
        assert forall|j: int| 0 <= j < k - 1 implies (#[trigger] t[j]).0 < address by {
            assert(t[j] == s[j + 1]);
        }
        if k - 1 < t.len() {
            assert(t[k - 1] == s[k]);
        }
        lemma_rank(t, address, k - 1);
    }
}

/// Adding an entry that overlaps nothing, where its address puts it, keeps
/// the entries in order and apart.
proof fn lemma_insert_disjoint<V>(s: Seq<(u32, nat, V)>, k: int, e: (u32, nat, V))
    requires
        disjoint(s),
        0 <= k <= s.len(),
        k > 0 ==> entry_end(s[k - 1]) <= e.0,
        k < s.len() ==> entry_end(e) <= s[k].0,
        forall|i: int| 0 <= i < s.len() ==> 1 <= (#[trigger] s[i]).1,
        1 <= e.1,
    ensures
        disjoint(s.insert(k, e)),
{
    let t = s.insert(k, e);
    assert forall|i: int, j: int| 0 <= i < j < t.len() implies entry_end(#[trigger] t[i]) <= (#[trigger] t[j]).0 by {
        if j < k {
            assert(t[i] == s[i] && t[j] == s[j]);
        } else if j == k {
            assert(t[i] == s[i]);
            if i < k - 1 {
                assert(entry_end(s[i]) <= s[k - 1].0);
            }
        } else if i > k {
            assert(t[i] == s[i - 1] && t[j] == s[j - 1]);
        } else if i == k {
            assert(t[j] == s[j - 1]);
            if j - 1 > k {
                assert(entry_end(s[k]) <= s[j - 1].0);
            }
        } else {
            assert(t[i] == s[i] && t[j] == s[j - 1]);
            assert(entry_end(s[i]) <= s[k - 1].0 || i == k - 1);
            if j - 1 > k {
                assert(entry_end(s[k]) <= s[j - 1].0);
            }
        }
    }
}

/// The identified bytes of disjoint entries within a range are no more than
/// the end of the last of them.
proof fn lemma_identified_sum_bound<T: Extent>(s: Seq<(u32, nat, T)>)
    requires
        disjoint(s),
        forall|i: int| 0 <= i < s.len() ==> (#[trigger] s[i]).2.spec_identified() <= s[i].1,
    ensures
        s.len() > 0 ==> identified_sum(s) <= entry_end(s.last()),
        s.len() == 0 ==> identified_sum(s) == 0,
    decreases s.len(),
{
    if s.len() > 0 {
        let t = s.drop_last();
        assert forall|i: int| 0 <= i < t.len() implies (#[trigger] t[i]).2.spec_identified() <= t[i].1 by {
            assert(t[i] == s[i]);
        }
        assert forall|i: int, j: int| 0 <= i < j < t.len() implies entry_end(#[trigger] t[i]) <= (#[trigger] t[j]).0 by {
            assert(t[i] == s[i] && t[j] == s[j]);
        }
        lemma_identified_sum_bound(t);
        if t.len() > 0 {
            assert(t.last() == s[s.len() - 2]);
            assert(entry_end(s[s.len() - 2]) <= s[s.len() - 1].0);
        }
    }
}

/// The entries with what occupies each of them mapped through `f`.
pub open spec fn map_entries<V, W>(s: Seq<(u32, nat, V)>, f: spec_fn(V) -> W) -> Seq<(u32, nat, W)> {
    s.map_values(|e: (u32, nat, V)| (e.0, e.1, f(e.2)))
}

/// The rank of an address depends on the addresses of the entries alone.
proof fn lemma_rank_map<V, W>(s: Seq<(u32, nat, V)>, address: int, f: spec_fn(V) -> W)
    ensures
        rank(map_entries(s, f), address) == rank(s, address),
    decreases s.len(),
{
    if s.len() > 0 {
        assert(map_entries(s, f).drop_first() =~= map_entries(s.drop_first(), f));
        lemma_rank_map(s.drop_first(), address, f);
    }
}

/// Adding an entry commutes with mapping what occupies the entries.
pub proof fn lemma_insert_map<V, W>(
    s: Seq<(u32, nat, V)>,
    total: nat,
    address: u32,
    size: nat,
    value: V,
    f: spec_fn(V) -> W,
)
    ensures
        spec_insert(map_entries(s, f), total, address, size, f(value)) == match spec_insert(
            s,
            total,
            address,
            size,
            value,
        ) {
            Ok(t) => Ok(map_entries(t, f)),
            Err(e) => Err(e),
        },
{
    let m = map_entries(s, f);
    assert(overlapping(m, address as int, size as int) == overlapping(s, address as int, size as int)) by {
        if overlapping(s, address as int, size as int) {
            let i = choose|i: int| 0 <= i < s.len() && (#[trigger] s[i]).0 < address + size && address < entry_end(s[i]);
            assert(m[i].0 == s[i].0 && m[i].1 == s[i].1);
        }
        if overlapping(m, address as int, size as int) {
            let i = choose|i: int| 0 <= i < m.len() && (#[trigger] m[i]).0 < address + size && address < entry_end(m[i]);
            assert(m[i].0 == s[i].0 && m[i].1 == s[i].1);
        }
    }
    lemma_rank_map(s, address as int, f);
    lemma_rank_bound(s, address as int);
    let k = rank(s, address as int) as int;
    assert(map_entries(s.insert(k, (address, size, value)), f) =~= m.insert(k, (address, size, f(value))));
}

/// The rank of an address is at most the number of entries.
pub proof fn lemma_rank_bound<V>(s: Seq<(u32, nat, V)>, address: int)
    ensures
        rank(s, address) <= s.len(),
    decreases s.len(),
{
    if s.len() > 0 {
        lemma_rank_bound(s.drop_first(), address);
    }
}

/// The entries before the rank of an address start before it; the entry at
/// the rank, if any, starts at or after it.
proof fn lemma_rank_split<V>(s: Seq<(u32, nat, V)>, address: int)
    ensures
        rank(s, address) <= s.len(),
        forall|j: int| 0 <= j < rank(s, address) ==> (#[trigger] s[j]).0 < address,
        rank(s, address) < s.len() ==> s[rank(s, address) as int].0 >= address,
    decreases s.len(),
{
    if s.len() > 0 && s[0].0 < address {
        let t = s.drop_first();
        lemma_rank_split(t, address);
        assert forall|j: int| 0 <= j < rank(s, address) implies (#[trigger] s[j]).0 < address by {
            if j > 0 {
                assert(s[j] == t[j - 1]);
            }
        }
        if rank(s, address) < s.len() {
            assert(s[rank(s, address) as int] == t[rank(t, address) as int]);
        }
    }
}

/// Within a range of `total` addresses holding entries in order and apart,
/// an entry of `size` addresses can be added at `address` exactly where it
/// ends within the range and shares no address with any entry. Adding it
/// then keeps one more entry, holds it, and keeps the entries within the
/// range, in order and apart.
pub proof fn lemma_insert_fits<V>(s: Seq<(u32, nat, V)>, total: nat, address: u32, size: nat, value: V)
    requires
        within(s, total),
        disjoint(s),
        1 <= size,
    ensures
        spec_insert(s, total, address, size, value) is Ok <==> (address + size <= total && forall|i: int|
            0 <= i < s.len() ==> entry_end(#[trigger] s[i]) <= address || address + size <= s[i].0),
        spec_insert(s, total, address, size, value) matches Ok(r) ==> {
            &&& r.len() == s.len() + 1
            &&& r.contains((address, size, value))
            &&& within(r, total)
            &&& disjoint(r)
        },
{
    let apart = forall|i: int| 0 <= i < s.len() ==> entry_end(#[trigger] s[i]) <= address || address + size <= s[i].0;
    if overlapping(s, address as int, size as int) {
        let i = choose|i: int| 0 <= i < s.len() && (#[trigger] s[i]).0 < address + size && address < entry_end(s[i]);
        assert(!apart);
    }
    if !overlapping(s, address as int, size as int) {
        assert forall|i: int| 0 <= i < s.len() implies entry_end(#[trigger] s[i]) <= address || address + size
            <= s[i].0 by {
            if !(entry_end(s[i]) <= address || address + size <= s[i].0) {
                assert(overlapping(s, address as int, size as int));
            }
        }
    }
    if address + size <= total && !overlapping(s, address as int, size as int) {
        let k = rank(s, address as int);
        lemma_rank_split(s, address as int);
        let e = (address, size, value);
        let r = s.insert(k as int, e);
        if k > 0 {
            assert(s[k - 1].0 < address);
            assert(entry_end(s[k - 1]) <= address || address + size <= s[k - 1].0);
        }
        if k < s.len() {
            assert(s[k as int].0 >= address);
            assert(1 <= s[k as int].1);
        }
        lemma_insert_disjoint(s, k as int, e);
        assert(r[k as int] == e);
        assert forall|i: int| 0 <= i < r.len() implies 1 <= (#[trigger] r[i]).1 && entry_end(r[i]) <= total by {
            if i < k {
                assert(r[i] == s[i]);
            } else if i > k {
                assert(r[i] == s[i - 1]);
            }
        }
    }
}

/// The identified bytes of valid, disjoint entries within a range are no
/// more than the range holds.
pub proof fn lemma_identified_sum_within<T: Extent>(s: Seq<(u32, nat, T)>, total: nat)
    requires
        within(s, total),
        disjoint(s),
        forall|i: int| 0 <= i < s.len() ==> (#[trigger] s[i]).2.valid() && s[i].1 == s[i].2.spec_size(),
    ensures
        identified_sum(s) <= total,
{
    assert forall|i: int| 0 <= i < s.len() implies (#[trigger] s[i]).2.spec_identified() <= s[i].1 by {
        s[i].2.lemma_bounds();
    }
    lemma_identified_sum_bound(s);
}

/// A range of addresses in which disjoint parts are occupied by items.
#[derive(Debug)]
pub struct Sparse<T> {
    size: Size,
    entries: Vec<(u32, T)>,
}

impl<T: Extent> Sparse<T> {
    /// The number of addresses in the range.
    pub closed spec fn spec_size(&self) -> nat {
        self.size.spec_get() as nat
    }

    /// The entries, in order of address: each with its address, its size and
    /// the item that occupies it.
    pub closed spec fn spec_entries(&self) -> Seq<(u32, nat, T)> {
        self.entries@.map_values(|e: (u32, T)| (e.0, e.1.spec_size(), e.1))
    }

    /// The entries are valid items, in order and apart, within the range.
    pub closed spec fn wf(&self) -> bool {
        &&& 1 <= self.spec_size() <= ADDRESS_SPACE_END
        &&& forall|i: int| 0 <= i < self.entries@.len() ==> (#[trigger] self.entries@[i]).1.valid()
        &&& within(self.spec_entries(), self.spec_size())
        &&& disjoint(self.spec_entries())
    }

    /// What the type invariant of `Size` gives of a well-formed range.
    pub proof fn lemma_wf(&self)
        requires
            self.wf(),
        ensures
            1 <= self.spec_size() <= ADDRESS_SPACE_END,
            within(self.spec_entries(), self.spec_size()),
            disjoint(self.spec_entries()),
            forall|i: int| 0 <= i < self.spec_entries().len() ==> (#[trigger] self.spec_entries()[i]).2.valid(),
            forall|i: int| 0 <= i < self.spec_entries().len() ==> (#[trigger] self.spec_entries()[i]).1 == self.spec_entries()[i].2.spec_size(),
    {
        assert forall|i: int| 0 <= i < self.spec_entries().len() implies (#[trigger] self.spec_entries()[i]).2.valid() by {
            assert(self.spec_entries()[i].2 == self.entries@[i].1);
        }
    }

    /// Constructs an empty range of the given size.
    pub fn new(size: Size) -> (sparse: Self)
        ensures
            sparse.wf(),
            sparse.spec_size() == size.spec_get(),
            sparse.spec_entries() == Seq::<(u32, nat, T)>::empty(),
    {
        let _ = size.get();
        let sparse = Sparse { size, entries: Vec::new() };
        assert(sparse.spec_entries() =~= Seq::<(u32, nat, T)>::empty());
        sparse
    }

    /// Gets the number of addresses in the range.
    pub fn size(&self) -> (size: Size)
        ensures
            size.spec_get() == self.spec_size(),
    {
        self.size
    }

    /// Gets the number of entries.
    pub fn len(&self) -> (len: usize)
        ensures
            len == self.spec_entries().len(),
    {
        self.entries.len()
    }

    /// Gets the address of the entry at the given index.
    pub fn address_at(&self, index: usize) -> (address: u32)
        requires
            index < self.spec_entries().len(),
        ensures
            address == self.spec_entries()[index as int].0,
    {
        self.entries[index].0
    }

    /// Gets the item of the entry at the given index.
    pub fn item_at(&self, index: usize) -> (item: &T)
        requires
            index < self.spec_entries().len(),
        ensures
            *item == self.spec_entries()[index as int].2,
    {
        &self.entries[index].1
    }

    /// Finds the entry that holds the given address.
    pub fn find(&self, address: u32) -> (index: Option<usize>)
        requires
            self.wf(),
        ensures
            index matches Some(i) ==> i < self.spec_entries().len() && holds(
                self.spec_entries()[i as int],
                address as int,
            ),
            index is None ==> forall|i: int|
                0 <= i < self.spec_entries().len() ==> !holds(#[trigger] self.spec_entries()[i], address as int),
    {
        let mut i: usize = 0;
        while i < self.entries.len()
            invariant
                self.wf(),
                i <= self.entries@.len(),
                forall|j: int| 0 <= j < i ==> !holds(#[trigger] self.spec_entries()[j], address as int),
            decreases self.entries.len() - i,
        {
            proof {
                self.entries@[i as int].1.lemma_bounds();
            }
            let start = self.entries[i].0;
            let size = self.entries[i].1.size().get();
            if start <= address && (address as u64) < start as u64 + size {
                return Some(i);
            }
            i = i + 1;
        }
        None
    }

    /// Gets where moving forward from the given position goes: to the end of
    /// the entry that holds it, or else to the start of the next entry, or
    /// else to the end of the range.
    pub fn stop_after(&self, pos: u64) -> (stop: u64)
        requires
            self.wf(),
            pos < self.spec_size(),
        ensures
            stop == stop_after(self.spec_entries(), pos as int, self.spec_size()),
    {
        proof {
            self.lemma_wf();
            lemma_stop_after(self.spec_entries(), pos as int, self.spec_size());
        }
        let ghost s = self.spec_entries();
        let mut i: usize = 0;
        assert(s.skip(0) =~= s);
        while i < self.entries.len()
            invariant
                self.wf(),
                s == self.spec_entries(),
                i <= s.len(),
                stop_after(s, pos as int, self.spec_size()) == stop_after(s.skip(i as int), pos as int, self.spec_size()),
            decreases self.entries.len() - i,
        {
            proof {
                self.entries@[i as int].1.lemma_bounds();
                assert(s.skip(i as int)[0] == s[i as int]);
                assert(s.skip(i as int).drop_first() =~= s.skip(i as int + 1));
            }
            let start = self.entries[i].0;
            if start as u64 > pos {
                return start as u64;
            }
            let end = start as u64 + self.entries[i].1.size().get();
            if pos < end {
                return end;
            }
            i = i + 1;
        }
        self.size.get()
    }

    /// Adds an item at the given address, or fails when it would reach past
    /// the end of the range or share addresses with another entry.
    pub fn insert(&mut self, address: u32, item: T) -> (result: Result<(), SparseError>)
        requires
            old(self).wf(),
            item.valid(),
        ensures
            final(self).wf(),
            final(self).spec_size() == old(self).spec_size(),
            match spec_insert(old(self).spec_entries(), old(self).spec_size(), address, item.spec_size(), item) {
                Ok(entries) => result is Ok && final(self).spec_entries() == entries,
                Err(e) => result == Err::<(), SparseError>(e) && final(self).spec_entries() == old(self).spec_entries(),
            },
    {
        proof {
            item.lemma_bounds();
            self.lemma_wf();
        }
        let ghost s = self.spec_entries();
        let size = item.size().get();
        let total = self.size.get();
        if address as u64 + size > total {
            return Err(SparseError::OutOfBounds { address, size });
        }
        let mut k: usize = 0;
        while k < self.entries.len() && self.entries[k].0 < address
            invariant
                s == self.spec_entries(),
                k <= s.len(),
                forall|j: int| 0 <= j < k ==> (#[trigger] s[j]).0 < address,
            decreases self.entries.len() - k,
        {
            k = k + 1;
        }
        proof {
            lemma_rank(s, address as int, k as int);
        }
        if k > 0 {
            proof {
                self.entries@[k - 1].1.lemma_bounds();
            }
            let before = self.entries[k - 1].0 as u64 + self.entries[k - 1].1.size().get();
            if before > address as u64 {
                assert(overlapping(s, address as int, size as int)) by {
                    assert(s[k - 1].0 < address + size && address < entry_end(s[k - 1]));
                }
                return Err(SparseError::Overlapping { address, size });
            }
        }
        if k < self.entries.len() {
            if (self.entries[k].0 as u64) < address as u64 + size {
                assert(overlapping(s, address as int, size as int)) by {
                    assert(s[k as int].0 < address + size && address < entry_end(s[k as int]));
                }
                return Err(SparseError::Overlapping { address, size });
            }
        }
        proof {
            assert(!overlapping(s, address as int, size as int)) by {
                assert forall|i: int| 0 <= i < s.len() implies !((#[trigger] s[i]).0 < address + size
                    && address < entry_end(s[i])) by {
                    if i < k - 1 {
                        assert(entry_end(s[i]) <= s[k - 1].0);
                    } else if i > k {
                        assert(entry_end(s[k as int]) <= s[i].0);
                    }
                }
            }
        }
        self.insert_at(k, address, item);
        Ok(())
    }

    /// Adds an item at the given address, at the given index, where it fits
    /// between its neighbours.
    pub fn insert_at(&mut self, index: usize, address: u32, item: T)
        requires
            old(self).wf(),
            item.valid(),
            index <= old(self).spec_entries().len(),
            address + item.spec_size() <= old(self).spec_size(),
            index > 0 ==> entry_end(old(self).spec_entries()[index - 1]) <= address,
            index < old(self).spec_entries().len() ==> address + item.spec_size()
                <= old(self).spec_entries()[index as int].0,
        ensures
            final(self).wf(),
            final(self).spec_size() == old(self).spec_size(),
            final(self).spec_entries() == old(self).spec_entries().insert(
                index as int,
                (address, item.spec_size(), item),
            ),
    {
        proof {
            item.lemma_bounds();
            self.lemma_wf();
        }
        let ghost s = self.spec_entries();
        let ghost e = (address, item.spec_size(), item);
        let ghost old_entries = self.entries@;
        self.entries.insert(index, (address, item));
        proof {
            let f = |e: (u32, T)| (e.0, e.1.spec_size(), e.1);
            assert(self.entries@.map_values(f) =~= s.insert(index as int, e));
            lemma_insert_disjoint(s, index as int, e);
            let t = self.spec_entries();
            assert forall|i: int| 0 <= i < self.entries@.len() implies (#[trigger] self.entries@[i]).1.valid() by {
                if i < index {
                    assert(self.entries@[i] == old_entries[i]);
                } else if i > index {
                    assert(self.entries@[i] == old_entries[i - 1]);
                }
            }
            assert forall|i: int| 0 <= i < t.len() implies 1 <= (#[trigger] t[i]).1 && entry_end(t[i])
                <= self.spec_size() by {
                if i < index {
                    assert(t[i] == s[i]);
                } else if i > index {
                    assert(t[i] == s[i - 1]);
                }
            }
        }
    }

    /// Takes out the entry at the given index, with its address.
    pub fn remove(&mut self, index: usize) -> (entry: (u32, T))
        requires
            old(self).wf(),
            index < old(self).spec_entries().len(),
        ensures
            final(self).wf(),
            final(self).spec_size() == old(self).spec_size(),
            final(self).spec_entries() == old(self).spec_entries().remove(index as int),
            entry.0 == old(self).spec_entries()[index as int].0,
            entry.1 == old(self).spec_entries()[index as int].2,
            entry.1.valid(),
    {
        let ghost s = self.spec_entries();
        let ghost old_entries = self.entries@;
        let entry = self.entries.remove(index);
        proof {
            let f = |e: (u32, T)| (e.0, e.1.spec_size(), e.1);
            assert(self.entries@.map_values(f) =~= s.remove(index as int));
            let t = self.spec_entries();
            assert forall|i: int| 0 <= i < self.entries@.len() implies (#[trigger] self.entries@[i]).1.valid() by {
                if i < index {
                    assert(self.entries@[i] == old_entries[i]);
                } else {
                    assert(self.entries@[i] == old_entries[i + 1]);
                }
            }
            assert forall|i: int| 0 <= i < t.len() implies 1 <= (#[trigger] t[i]).1 && entry_end(t[i])
                <= self.spec_size() by {
                if i < index {
                    assert(t[i] == s[i]);
                } else {
                    assert(t[i] == s[i + 1]);
                }
            }
            assert forall|i: int, j: int| 0 <= i < j < t.len() implies entry_end(#[trigger] t[i]) <= (#[trigger] t[j]).0 by {
                let i2 = if i < index { i } else { i + 1 };
                let j2 = if j < index { j } else { j + 1 };
                assert(t[i] == s[i2] && t[j] == s[j2]);
            }
        }
        entry
    }

    /// Gets the number of identified bytes of all the entries together.
    pub fn identified(&self) -> (count: u64)
        requires
            self.wf(),
        ensures
            count == identified_sum(self.spec_entries()),
    {
        proof {
            self.lemma_wf();
        }
        let ghost s = self.spec_entries();
        let mut count: u64 = 0;
        let mut i: usize = 0;
        while i < self.entries.len()
            invariant
                self.wf(),
                s == self.spec_entries(),
                i <= s.len(),
                count == identified_sum(s.take(i as int)),
                i > 0 ==> count <= entry_end(s[i - 1]),
                entry_end(s[i - 1]) <= self.spec_size() || i == 0,
                self.spec_size() <= ADDRESS_SPACE_END,
                within(s, self.spec_size()),
                disjoint(s),
                forall|j: int| 0 <= j < s.len() ==> (#[trigger] s[j]).2.valid(),
            decreases self.entries.len() - i,
        {
            proof {
                s[i as int].2.lemma_bounds();
                let t = s.take(i as int + 1);
                assert(t.drop_last() =~= s.take(i as int));
                assert forall|j: int| 0 <= j < t.len() implies (#[trigger] t[j]).2.spec_identified() <= t[j].1 by {
                    assert(t[j] == s[j]);
                    s[j].2.lemma_bounds();
                }
                assert forall|a: int, b: int| 0 <= a < b < t.len() implies entry_end(#[trigger] t[a]) <= (#[trigger] t[b]).0 by {
                    assert(t[a] == s[a] && t[b] == s[b]);
                }
                lemma_identified_sum_bound(t);
                assert(t.last() == s[i as int]);
            }
            let more = self.entries[i].1.identified();
            count = count + more;
            i = i + 1;
        }
        assert(s.take(s.len() as int) =~= s);
        count
    }
}

} // verus!
