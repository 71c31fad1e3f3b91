//! The address space: an ordered, guard-page-separated collection of
//! mappings from virtual address ranges to backing data sources.
//!
//! A mapping's data source is shared, reference-counted state (`Arc`): the
//! address space stores a handle and never inspects or calls the source
//! itself — it only authorizes an access and resolves it to the source and
//! the offset within it. Removal and lookup match a mapping's exact start
//! address, not containment in `[addr, addr + span)`: a deliberate,
//! documented choice of the structure.

use std::sync::Arc;

use vstd::prelude::*;
use vstd::string::StringExecFns;

use crate::flags::FlagBuilder;

verus! {

/// The hardware page size in bytes.
pub const PAGE_SIZE: u64 = 4096;

/// The maximum addressable virtual address: a 39-bit virtual address
/// space, so the top of the usable range is 2^38 - 1.
pub const VADDR_MAX: u64 = 0x3F_FFFF_FFFF;

/// One mapping: a shared handle to its backing data source, a byte
/// `offset` into that source, a `span` of bytes, the virtual start
/// address `addr`, and the permission flags that govern access.
#[verifier::reject_recursive_types(D)]
pub struct MapEntry<D> {
    pub source: Arc<D>,
    pub offset: u64,
    pub span: u64,
    pub addr: u64,
    pub flags: FlagBuilder,
}

impl<D> MapEntry<D> {
    #[must_use]
    pub fn new(source: Arc<D>, offset: u64, span: u64, addr: u64, flags: FlagBuilder) -> (r:
        MapEntry<D>)
        ensures
            r == (MapEntry { source, offset, span, addr, flags }),
    {
        MapEntry { source, offset, span, addr, flags }
    }
}

/// A mapping stays off virtual page 0 and below the address ceiling.
pub open spec fn entry_in_bounds<D>(m: MapEntry<D>) -> bool {
    &&& PAGE_SIZE <= m.addr
    &&& m.addr + m.span <= VADDR_MAX
}

/// Mappings are sorted by ascending start address, do not overlap, and
/// keep at least one guard page between a mapping's end and the start of
/// every later mapping.
pub open spec fn entries_separated<D>(s: Seq<MapEntry<D>>) -> bool {
    forall|i: int, j: int|
        0 <= i < j < s.len() ==> #[trigger] s[i].addr + s[i].span + PAGE_SIZE <= #[trigger] s[j].addr
}

/// The address-space invariant over its mapping list.
pub open spec fn entries_wf<D>(s: Seq<MapEntry<D>>) -> bool {
    &&& forall|i: int| 0 <= i < s.len() ==> entry_in_bounds(#[trigger] s[i])
    &&& entries_separated(s)
}

/// Some mapping starts exactly at `addr`.
pub open spec fn has_mapping_at<D>(s: Seq<MapEntry<D>>, addr: u64) -> bool {
    exists|i: int| 0 <= i < s.len() && #[trigger] s[i].addr == addr
}

/// The index of the mapping that starts at `addr` (unique when the
/// invariant holds).
pub open spec fn mapping_index<D>(s: Seq<MapEntry<D>>, addr: u64) -> int {
    choose|i: int| 0 <= i < s.len() && #[trigger] s[i].addr == addr
}

/// What an address-space operation can fail with.
#[derive(Clone, Copy, Debug, PartialEq, Eq, Structural)]
pub enum MapError {
    /// No gap of sufficient size exists below the address ceiling.
    OutOfSpace,
    /// A fixed-address request does not fit at the requested address.
    InsufficientSpaceAt,
    /// No mapping starts exactly at the given address.
    MappingNotFound,
    /// The requested access exceeds the mapping's granted flags.
    PermissionDenied,
}

/// Relies on `Arc::clone`: the clone is another handle to the same
/// allocation, so it carries the same value.
#[verifier::external_body]
fn clone_source<D>(source: &Arc<D>) -> (r: Arc<D>)
    ensures
        r == source,
{
    source.clone()
}

/// Two mappings of a well-formed list that start at the same address are
/// the same mapping: separation forces strictly ascending start addresses.
pub proof fn lemma_addr_unique<D>(s: Seq<MapEntry<D>>, i: int, j: int)
    requires
        entries_wf(s),
        0 <= i < s.len(),
        0 <= j < s.len(),
        s[i].addr == s[j].addr,
    ensures
        i == j,
{
}

/// The smallest page boundary at or above `x`.
pub open spec fn page_round_up(x: int) -> int {
    if x % (PAGE_SIZE as int) == 0 {
        x
    } else {
        (x / (PAGE_SIZE as int) + 1) * (PAGE_SIZE as int)
    }
}

proof fn lemma_page_round_up(x: int)
    requires
        0 <= x,
    ensures
        x <= page_round_up(x) <= x + PAGE_SIZE - 1,
{
    vstd::arithmetic::div_mod::lemma_fundamental_div_mod(x, PAGE_SIZE as int);
}

/// The cursor of the allocation walk over the mappings still ahead of it:
/// starting from `cursor`, stop at the first gap that holds `span` bytes
/// plus a guard page on each side, otherwise step to the end of the next
/// mapping, rounded up to a page boundary.
pub open spec fn cursor_after<D>(s: Seq<MapEntry<D>>, span: int, cursor: int) -> int
    decreases s.len(),
{
    if s.len() == 0 {
        cursor
    } else if s[0].addr - cursor > span + 2 * (PAGE_SIZE as int) {
        cursor
    } else {
        cursor_after(s.drop_first(), span, page_round_up(s[0].addr + s[0].span))
    }
}

/// Where the allocation walk for a `span`-byte mapping ends over the
/// mapping list `s`: the start of the lowest gap that fits it.
pub open spec fn alloc_cursor<D>(s: Seq<MapEntry<D>>, span: u64) -> int {
    cursor_after(s, span as int, PAGE_SIZE as int)
}

/// The address an allocating `add_mapping` call assigns: one guard page
/// past the chosen gap's start.
pub open spec fn alloc_addr<D>(s: Seq<MapEntry<D>>, span: u64) -> int {
    alloc_cursor(s, span) + PAGE_SIZE
}

/// Allocation succeeds iff the chosen gap, with `span` bytes and a guard
/// page on each side, still lies below the address ceiling.
pub open spec fn can_allocate<D>(s: Seq<MapEntry<D>>, span: u64) -> bool {
    alloc_cursor(s, span) + span + 2 * (PAGE_SIZE as int) < VADDR_MAX
}

/// A fixed-address request for `span` bytes at `start` fits: the start
/// lies past page zero, the region ends at or below the ceiling, every
/// mapping at or before `start` ends at least a guard page before it, and
/// every mapping past `start` begins more than the span plus two guard
/// pages after it.
pub open spec fn room_at<D>(s: Seq<MapEntry<D>>, start: u64, span: u64) -> bool {
    &&& PAGE_SIZE <= start
    &&& start + span <= VADDR_MAX
    &&& forall|i: int|
        0 <= i < s.len() && s[i].addr <= start ==> #[trigger] s[i].addr + s[i].span + PAGE_SIZE
            <= start
    &&& forall|i: int|
        0 <= i < s.len() && s[i].addr > start ==> start + span + 2 * (PAGE_SIZE as int)
            < #[trigger] s[i].addr
}

/// Inserting a mapping that keeps a guard page towards both of its
/// neighbours, at its sorted position, keeps the list well-formed.
proof fn lemma_wf_insert<D>(s: Seq<MapEntry<D>>, k: int, e: MapEntry<D>)
    requires
        entries_wf(s),
        0 <= k <= s.len(),
        entry_in_bounds(e),
        forall|i: int| 0 <= i < k ==> #[trigger] s[i].addr + s[i].span + PAGE_SIZE <= e.addr,
        forall|i: int| k <= i < s.len() ==> e.addr + e.span + PAGE_SIZE <= #[trigger] s[i].addr,
    ensures
        entries_wf(s.insert(k, e)),
{
    let t = s.insert(k, e);
    assert forall|i: int| 0 <= i < t.len() implies entry_in_bounds(#[trigger] t[i]) by {
        if i < k {
            assert(t[i] == s[i]);
        } else if i == k {
            assert(t[i] == e);
        } else {
            assert(t[i] == s[i - 1]);
        }
    }
    assert forall|i: int, j: int| 0 <= i < j < t.len() implies #[trigger] t[i].addr + t[i].span
        + PAGE_SIZE <= #[trigger] t[j].addr by {
        if i < k {
            assert(t[i] == s[i]);
        } else if i == k {
            assert(t[i] == e);
        } else {
            assert(t[i] == s[i - 1]);
        }
        if j < k {
            assert(t[j] == s[j]);
        } else if j == k {
            assert(t[j] == e);
        } else {
            assert(t[j] == s[j - 1]);
        }
        if i < k && j > k && j - 1 == i {
            assert(false);
        }
        if i == k && j > k {
            assert(e.addr + e.span + PAGE_SIZE <= s[j - 1].addr);
        }
    }
}

/// Removing any mapping keeps the list well-formed: separation between
/// the remaining mappings is untouched.
proof fn lemma_wf_remove<D>(s: Seq<MapEntry<D>>, k: int)
    requires
        entries_wf(s),
        0 <= k < s.len(),
    ensures
        entries_wf(s.remove(k)),
{
    let t = s.remove(k);
    assert forall|i: int, j: int| 0 <= i < j < t.len() implies #[trigger] t[i].addr + t[i].span
        + PAGE_SIZE <= #[trigger] t[j].addr by {
        let i0 = if i < k { i } else { i + 1 };
        let j0 = if j < k { j } else { j + 1 };
        assert(t[i] == s[i0]);
        assert(t[j] == s[j0]);
    }
    assert forall|i: int| 0 <= i < t.len() implies entry_in_bounds(#[trigger] t[i]) by {
        let i0 = if i < k { i } else { i + 1 };
        assert(t[i] == s[i0]);
    }
}

/// No mapping of a well-formed address space starts at address zero or
/// extends past the maximum virtual address.
pub proof fn lemma_mappings_bounded<D>(s: Seq<MapEntry<D>>, i: int)
    requires
        entries_wf(s),
        0 <= i < s.len(),
    ensures
        s[i].addr != 0,
        s[i].addr + s[i].span <= VADDR_MAX,
{
}

/// Adjacent mappings of a well-formed address space keep at least one
/// guard page between the end of the earlier one and the start of the
/// later one.
pub proof fn lemma_guard_separation<D>(s: Seq<MapEntry<D>>, i: int)
    requires
        entries_wf(s),
        0 <= i < s.len() - 1,
    ensures
        s[i].addr + s[i].span + PAGE_SIZE <= s[i + 1].addr,
{
}

/// A mapping of a well-formed address space is found by looking up its
/// own start address, and the lookup resolves to that mapping alone:
/// adding a mapping and then looking up the returned address with any
/// subset of the granted flags yields the source and offset it was added
/// with.
pub proof fn lemma_lookup_after_insert<D>(s: Seq<MapEntry<D>>, k: int)
    requires
        entries_wf(s),
        0 <= k < s.len(),
    ensures
        has_mapping_at(s, s[k].addr),
        mapping_index(s, s[k].addr) == k,
{
    assert(0 <= k < s.len() && s[k].addr == s[k].addr);
    lemma_addr_unique(s, k, mapping_index(s, s[k].addr));
}

/// Removing the mapping at a start address leaves no mapping at that
/// address, so removing the same address a second time fails with
/// not-found.
pub proof fn lemma_removed_addr_absent<D>(s: Seq<MapEntry<D>>, start: u64)
    requires
        entries_wf(s),
        has_mapping_at(s, start),
    ensures
        !has_mapping_at(s.remove(mapping_index(s, start)), start),
{
    let k = mapping_index(s, start);
    let t = s.remove(k);
    assert(0 <= k < s.len() && s[k].addr == start);
    assert forall|i: int| 0 <= i < t.len() implies #[trigger] t[i].addr != start by {
        let i0 = if i < k { i } else { i + 1 };
        assert(t[i] == s[i0]);
        if s[i0].addr == start {
            lemma_addr_unique(s, i0, k);
        }
    }
}

/// An address space: a diagnostic name and the ordered collection of
/// mappings in it.
#[verifier::reject_recursive_types(D)]
pub struct AddressSpace<D> {
    name: String,
    mappings: Vec<MapEntry<D>>,
}

impl<D> AddressSpace<D> {
    /// The mapping list, for contracts.
    pub closed spec fn entries(&self) -> Seq<MapEntry<D>> {
        self.mappings@
    }

    /// The diagnostic name, for contracts.
    pub closed spec fn spec_name(&self) -> Seq<char> {
        self.name@
    }

    /// The address-space invariant: see `entries_wf`.
    pub open spec fn wf(&self) -> bool {
        entries_wf(self.entries())
    }

    /// Create an empty, named address space.
    #[must_use]
    pub fn new(name: &str) -> (r: Self)
        ensures
            r.entries() == Seq::<MapEntry<D>>::empty(),
            r.spec_name() == name@,
            r.wf(),
    {
        AddressSpace { name: String::from_str(name), mappings: Vec::new() }
    }

    /// The diagnostic name this address space was created with.
    pub fn name(&self) -> (r: &str)
        ensures
            r@ == self.spec_name(),
    {
        self.name.as_str()
    }

    /// Look up the data source and offset within that source backing the
    /// mapping that starts exactly at `addr`, authorizing `access_type`
    /// against the mapping's granted flags first.
    ///
    /// The lookup is an exact start-address match, not containment in
    /// `[addr, addr + span)`.
    ///
    /// # Errors
    /// `MapError::MappingNotFound` iff no mapping starts at `addr`;
    /// `MapError::PermissionDenied` iff one does but `access_type` asks
    /// for an access mode the mapping does not grant.
    pub fn get_source_for_addr(&self, addr: u64, access_type: FlagBuilder) -> (r: Result<
        (Arc<D>, u64),
        MapError,
    >)
        requires
            self.wf(),
        ensures
            ({
                let s = self.entries();
                if has_mapping_at(s, addr) {
                    let m = s[mapping_index(s, addr)];
                    if m.flags.grants(access_type) {
                        r matches Ok(p) && p.0 == m.source && p.1 == m.offset
                    } else {
                        r == Err::<(Arc<D>, u64), MapError>(MapError::PermissionDenied)
                    }
                } else {
                    r == Err::<(Arc<D>, u64), MapError>(MapError::MappingNotFound)
                }
            }),
    {
        let ghost s = self.entries();
        let len = self.mappings.len();
        let mut idx: usize = 0;
        while idx < len
            invariant
                self.wf(),
                s == self.entries(),
                len == s.len(),
                0 <= idx <= len,
                forall|i: int| 0 <= i < idx ==> #[trigger] s[i].addr != addr,
            decreases len - idx,
        {
            let m = &self.mappings[idx];
            if m.addr == addr {
                proof {
                    assert(s[idx as int].addr == addr);
                    lemma_addr_unique(s, idx as int, mapping_index(s, addr));
                }
                if m.flags.check_access_perms(access_type) {
                    return Ok((clone_source(&m.source), m.offset));
                }
                return Err(MapError::PermissionDenied);
            }
            idx += 1;
        }
        Err(MapError::MappingNotFound)
    }

    /// Add a mapping of `span` bytes of `source`, starting at byte
    /// `offset` within it, at the lowest free virtual address.
    ///
    /// The walk starts one page past address zero and takes the first gap
    /// between existing mappings that holds the span plus a full guard
    /// page on each side; the assigned address is the gap's start plus
    /// the leading guard page. Flags are stored as given: their validity
    /// (`FlagBuilder::is_valid`) is advisory and not enforced here.
    ///
    /// # Errors
    /// `MapError::OutOfSpace` iff no fitting gap lies below `VADDR_MAX`;
    /// the address space is then unchanged.
    pub fn add_mapping(
        &mut self,
        source: Arc<D>,
        offset: u64,
        span: u64,
        flags: FlagBuilder,
    ) -> (r: Result<u64, MapError>)
        requires
            old(self).wf(),
        ensures
            final(self).wf(),
            final(self).spec_name() == old(self).spec_name(),
            ({
                let s = old(self).entries();
                if can_allocate(s, span) {
                    r matches Ok(addr) && addr == alloc_addr(s, span) && has_mapping_at(
                        final(self).entries(),
                        addr,
                    ) && final(self).entries()[mapping_index(final(self).entries(), addr)] == (
                    MapEntry { source, offset, span, addr, flags }) && (exists|k: int|
                        0 <= k <= s.len() && final(self).entries() == s.insert(
                            k,
                            (MapEntry { source, offset, span, addr, flags }),
                        ))
                } else {
                    r == Err::<u64, MapError>(MapError::OutOfSpace) && final(self).entries() == s
                }
            }),
    {
        let ghost s = self.entries();
        proof {
            assert(s.subrange(0, s.len() as int) =~= s);
        }
        let len = self.mappings.len();
        let mut addr_iter: u64 = PAGE_SIZE;
        let mut idx: usize = 0;
        let mut found = false;
        while idx < len && !found
            invariant
                self == old(self),
                self.wf(),
                s == self.entries(),
                len == s.len(),
                0 <= idx <= len,
                PAGE_SIZE <= addr_iter,
                addr_iter <= VADDR_MAX as int + PAGE_SIZE as int,
                forall|i: int| 0 <= i < idx ==> #[trigger] s[i].addr + s[i].span <= addr_iter,
                !found && idx < len ==> addr_iter <= s[idx as int].addr,
                !found ==> cursor_after(
                    s.subrange(idx as int, len as int),
                    span as int,
                    addr_iter as int,
                ) == alloc_cursor(s, span),
                found ==> idx < len && s[idx as int].addr - addr_iter > span + 2 * (
                PAGE_SIZE as int) && addr_iter == alloc_cursor(s, span),
            decreases len - idx + (if found { 0int } else { 1int }),
        {
            let ghost front = s.subrange(idx as int, len as int);
            proof {
                assert(front[0] == s[idx as int]);
                assert(front.drop_first() =~= s.subrange(idx as int + 1, len as int));
            }
            let m_addr = self.mappings[idx].addr;
            let m_span = self.mappings[idx].span;
            let gap = m_addr - addr_iter;
            if gap > span && gap - span > 2 * PAGE_SIZE {
                found = true;
            } else {
                let end = m_addr + m_span;
                proof {
                    lemma_page_round_up(end as int);
                    if idx as int + 1 < len {
                        assert(s[idx as int].addr + s[idx as int].span + PAGE_SIZE <= s[idx as int
                            + 1].addr);
                    }
                }
                addr_iter = if end % PAGE_SIZE != 0 {
                    (end / PAGE_SIZE + 1) * PAGE_SIZE
                } else {
                    end
                };
                idx += 1;
            }
        }
        if span <= VADDR_MAX && addr_iter + span + 2 * PAGE_SIZE < VADDR_MAX {
            let mapping_addr = addr_iter + PAGE_SIZE;
            let entry = MapEntry::new(source, offset, span, mapping_addr, flags);
            proof {
                if found {
                    assert forall|i: int| idx <= i < len implies entry.addr + entry.span
                        + PAGE_SIZE <= #[trigger] s[i].addr by {
                        if i > idx {
                            assert(s[idx as int].addr + s[idx as int].span + PAGE_SIZE <= s[i].addr);
                        }
                    }
                }
                lemma_wf_insert(s, idx as int, entry);
            }
            self.mappings.insert(idx, entry);
            proof {
                assert(0 <= idx as int <= s.len() && self.entries() == s.insert(
                    idx as int,
                    entry,
                ));
                assert(self.entries()[idx as int] == entry);
                lemma_lookup_after_insert(self.entries(), idx as int);
            }
            Ok(mapping_addr)
        } else {
            proof {
                if span > VADDR_MAX {
                    assert(alloc_cursor(s, span) >= PAGE_SIZE);
                }
            }
            Err(MapError::OutOfSpace)
        }
    }

    /// Add a mapping of `span` bytes of `source`, starting at byte
    /// `offset` within it, at the exact virtual address `start`.
    ///
    /// The request must leave page zero unused, end at or below
    /// `VADDR_MAX`, clear the first mapping past `start` by the span plus
    /// two guard pages, and start at least one guard page past the end of
    /// every mapping at or before it — the last check is a deliberate
    /// strengthening: a fixed-address request that would overlap or crowd
    /// a mapping starting at or before `start` is refused rather than
    /// accepted unchecked. A request into wholly unmapped space (no
    /// mapping past `start`) succeeds. Flag validity is advisory and not
    /// enforced here.
    ///
    /// # Errors
    /// `MapError::InsufficientSpaceAt` iff the request does not fit as
    /// described; the address space is then unchanged.
    pub fn add_mapping_at(
        &mut self,
        source: Arc<D>,
        offset: u64,
        span: u64,
        start: u64,
        flags: FlagBuilder,
    ) -> (r: Result<(), MapError>)
        requires
            old(self).wf(),
        ensures
            final(self).wf(),
            final(self).spec_name() == old(self).spec_name(),
            ({
                let s = old(self).entries();
                if room_at(s, start, span) {
                    r == Ok::<(), MapError>(()) && has_mapping_at(final(self).entries(), start)
                        && final(self).entries()[mapping_index(final(self).entries(), start)] == (
                    MapEntry { source, offset, span, addr: start, flags }) && (exists|k: int|
                        0 <= k <= s.len() && final(self).entries() == s.insert(
                            k,
                            (MapEntry { source, offset, span, addr: start, flags }),
                        ))
                } else {
                    r == Err::<(), MapError>(MapError::InsufficientSpaceAt)
                        && final(self).entries() == s
                }
            }),
    {
        let ghost s = self.entries();
        if start < PAGE_SIZE || start > VADDR_MAX || span > VADDR_MAX - start {
            return Err(MapError::InsufficientSpaceAt);
        }
        let len = self.mappings.len();
        let mut idx: usize = 0;
        while idx < len && self.mappings[idx].addr <= start
            invariant
                self == old(self),
                self.wf(),
                s == self.entries(),
                len == s.len(),
                0 <= idx <= len,
                forall|i: int| 0 <= i < idx ==> #[trigger] s[i].addr <= start,
            decreases len - idx,
        {
            idx += 1;
        }
        if idx > 0 {
            let p_addr = self.mappings[idx - 1].addr;
            let p_span = self.mappings[idx - 1].span;
            if p_addr + p_span + PAGE_SIZE > start {
                proof {
                    assert(s[idx - 1].addr <= start && !(s[idx - 1].addr + s[idx - 1].span
                        + PAGE_SIZE <= start));
                }
                return Err(MapError::InsufficientSpaceAt);
            }
        }
        if idx < len {
            let n_addr = self.mappings[idx].addr;
            if start + span + 2 * PAGE_SIZE >= n_addr {
                proof {
                    assert(s[idx as int].addr > start && !(start + span + 2 * (PAGE_SIZE as int)
                        < s[idx as int].addr));
                }
                return Err(MapError::InsufficientSpaceAt);
            }
        }
        let entry = MapEntry::new(source, offset, span, start, flags);
        proof {
            assert forall|i: int| 0 <= i < len && #[trigger] s[i].addr > start implies start + span
                + 2 * (PAGE_SIZE as int) < s[i].addr by {
                if i < idx {
                    assert(s[i].addr <= start);
                } else if i > idx {
                    assert(s[idx as int].addr + s[idx as int].span + PAGE_SIZE <= s[i].addr);
                }
            }
            assert forall|i: int| 0 <= i < len && #[trigger] s[i].addr <= start implies s[i].addr
                + s[i].span + PAGE_SIZE <= start by {
                if idx > 0 && i < idx - 1 {
                    assert(s[i].addr + s[i].span + PAGE_SIZE <= s[idx - 1].addr);
                }
                if i >= idx {
                    if i > idx {
                        assert(s[idx as int].addr + s[idx as int].span + PAGE_SIZE <= s[i].addr);
                    }
                    assert(s[i].addr > start);
                }
            }
            assert(room_at(s, start, span));
            assert forall|i: int| idx <= i < len implies entry.addr + entry.span + PAGE_SIZE
                <= #[trigger] s[i].addr by {
                assert(s[i].addr > start);
            }
            lemma_wf_insert(s, idx as int, entry);
        }
        self.mappings.insert(idx, entry);
        proof {
            assert(0 <= idx as int <= s.len() && self.entries() == s.insert(idx as int, entry));
            assert(self.entries()[idx as int] == entry);
            lemma_lookup_after_insert(self.entries(), idx as int);
        }
        Ok(())
    }

    /// Remove the mapping that starts exactly at `start`.
    ///
    /// The data-source handle is taken for symmetry with the call that
    /// created the mapping, but its identity is not compared against the
    /// stored mapping's source: the mapping is located by start address
    /// alone.
    ///
    /// # Errors
    /// `MapError::MappingNotFound` iff no mapping starts at `start`; the
    /// address space is then unchanged.
    pub fn remove_mapping(&mut self, _source: Arc<D>, start: u64) -> (r: Result<(), MapError>)
        requires
            old(self).wf(),
        ensures
            final(self).wf(),
            final(self).spec_name() == old(self).spec_name(),
            ({
                let s = old(self).entries();
                if has_mapping_at(s, start) {
                    r == Ok::<(), MapError>(()) && final(self).entries() == s.remove(
                        mapping_index(s, start),
                    )
                } else {
                    r == Err::<(), MapError>(MapError::MappingNotFound) && final(self).entries()
                        == s
                }
            }),
    {
        let ghost s = self.entries();
        let len = self.mappings.len();
        let mut idx: usize = 0;
        while idx < len
            invariant
                self == old(self),
                self.wf(),
                s == self.entries(),
                len == s.len(),
                0 <= idx <= len,
                forall|i: int| 0 <= i < idx ==> #[trigger] s[i].addr != start,
            decreases len - idx,
        {
            if self.mappings[idx].addr == start {
                proof {
                    assert(s[idx as int].addr == start);
                    lemma_addr_unique(s, idx as int, mapping_index(s, start));
                    lemma_wf_remove(s, idx as int);
                }
                self.mappings.remove(idx);
                return Ok(());
            }
            idx += 1;
        }
        Err(MapError::MappingNotFound)
    }
}

} // verus!
