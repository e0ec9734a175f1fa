//! Model of a task's address space.
//!
//! The page-table/frame-allocator machinery itself is an external
//! collaborator; what the task core needs from it is modelled here as plain
//! data: a finite map from virtual page numbers to page-table entries, plus
//! the heap-break pointer.  Removing a mapping clears the entry (the slot
//! survives with its valid bit clear, as a hardware page table leaves the
//! leaf entry in place), so a later lookup of an unmapped page can still see
//! an invalid entry.

use std::collections::HashMap;
use vstd::prelude::*;

use crate::PAGE_SIZE;

verus! {

broadcast use vstd::std_specs::hash::group_hash_axioms;

/// Readable permission bit of a page-table entry.
pub const MAP_PERM_R: u8 = 2;

/// Writable permission bit of a page-table entry.
pub const MAP_PERM_W: u8 = 4;

/// Executable permission bit of a page-table entry.
pub const MAP_PERM_X: u8 = 8;

/// User-accessible permission bit of a page-table entry.
pub const MAP_PERM_U: u8 = 16;

/// Virtual page number containing the byte address `va` (round down).
pub open spec fn vpn_floor(va: int) -> int {
    va / (PAGE_SIZE as int)
}

/// First virtual page number at or after the byte address `va` (round up).
pub open spec fn vpn_ceil(va: int) -> int {
    va / (PAGE_SIZE as int) + if va % (PAGE_SIZE as int) != 0 {
        1int
    } else {
        0int
    }
}

/// The first page number in `[vs, ve)` whose entry exists but is invalid —
/// the page that makes an unmap scan fail — or `ve` if there is none.
pub open spec fn first_invalid(m: Map<usize, PageTableEntry>, vs: int, ve: int) -> int
    decreases ve - vs,
{
    if vs >= ve {
        ve
    } else if m.contains_key(vs as usize) && !m[vs as usize].valid {
        vs
    } else {
        first_invalid(m, vs + 1, ve)
    }
}

/// An unmap scan that saw no invalid entry in `[vs, i)` fails at the same
/// page whether it starts at `vs` or at `i`.
pub proof fn lemma_first_invalid_step(m: Map<usize, PageTableEntry>, vs: int, ve: int, i: int)
    requires
        vs <= i <= ve,
        forall|u: int|
            vs <= u < i ==> !(#[trigger] m.contains_key(u as usize) && !m[u as usize].valid),
    ensures
        first_invalid(m, vs, ve) == first_invalid(m, i, ve),
    decreases i - vs,
{
    if vs < i {
        lemma_first_invalid_step(m, vs + 1, ve, i);
    }
}

/// State of an unmap scan over `[vs, ve)` that has processed the pages
/// below `v`: each processed page that had an entry now holds the cleared
/// entry, and every other page of the map is untouched.
pub open spec fn unmap_progress(
    m0: Map<usize, PageTableEntry>,
    m: Map<usize, PageTableEntry>,
    vs: int,
    v: int,
) -> bool {
    &&& forall|u: usize|
        vs <= u < v ==> ((#[trigger] m.contains_key(u)) == m0.contains_key(u) && (
        m0.contains_key(u) ==> m[u] == empty_pte()))
    &&& forall|u: usize|
        !(vs <= u < v) ==> ((#[trigger] m.contains_key(u)) == m0.contains_key(u) && (
        m0.contains_key(u) ==> m[u] == m0[u]))
}

/// No page of `[vs, ve)` is currently mapped in `m` (entries may exist but
/// must be invalid).
pub open spec fn range_unmapped(m: Map<usize, PageTableEntry>, vs: int, ve: int) -> bool {
    forall|u: usize| vs <= u < ve ==> !((#[trigger] m.contains_key(u)) && m[u].valid)
}

/// `m` is `m0` with exactly the pages of `[vs, ve)` freshly mapped with
/// permissions `perm`; every other page is untouched.
pub open spec fn mapped_region(
    m0: Map<usize, PageTableEntry>,
    m: Map<usize, PageTableEntry>,
    vs: int,
    ve: int,
    perm: u8,
) -> bool {
    &&& forall|u: usize|
        vs <= u < ve ==> ((#[trigger] m.contains_key(u)) && m[u] == (PageTableEntry {
            perm,
            valid: true,
        }))
    &&& forall|u: usize|
        !(vs <= u < ve) ==> ((#[trigger] m.contains_key(u)) == m0.contains_key(u) && (
        m0.contains_key(u) ==> m[u] == m0[u]))
}

/// Bundles the two facts of `mapped_region`.
proof fn lemma_mapped_region(
    m0: Map<usize, PageTableEntry>,
    m: Map<usize, PageTableEntry>,
    vs: int,
    ve: int,
    perm: u8,
)
    requires
        forall|u: usize|
            vs <= u < ve ==> ((#[trigger] m.contains_key(u)) && m[u] == (PageTableEntry {
                perm,
                valid: true,
            })),
        forall|u: usize|
            !(vs <= u < ve) ==> ((#[trigger] m.contains_key(u)) == m0.contains_key(u) && (
            m0.contains_key(u) ==> m[u] == m0[u])),
    ensures
        mapped_region(m0, m, vs, ve, perm),
{
}

/// Bundles the single fact of `range_unmapped`.
pub proof fn lemma_range_unmapped(m: Map<usize, PageTableEntry>, vs: int, ve: int)
    requires
        forall|u: usize| vs <= u < ve ==> !((#[trigger] m.contains_key(u)) && m[u].valid),
    ensures
        range_unmapped(m, vs, ve),
{
}

/// The two facts of an unmap scan's progress, bundled.
proof fn lemma_unmap_progress(
    m0: Map<usize, PageTableEntry>,
    m: Map<usize, PageTableEntry>,
    vs: int,
    v: int,
)
    requires
        forall|u: usize|
            vs <= u < v ==> ((#[trigger] m.contains_key(u)) == m0.contains_key(u) && (
            m0.contains_key(u) ==> m[u] == empty_pte())),
        forall|u: usize|
            !(vs <= u < v) ==> ((#[trigger] m.contains_key(u)) == m0.contains_key(u) && (
            m0.contains_key(u) ==> m[u] == m0[u])),
    ensures
        unmap_progress(m0, m, vs, v),
{
}

/// One page-table entry: permission bits plus the valid bit.
#[derive(Clone, Copy, PartialEq, Eq, Structural, Debug)]
pub struct PageTableEntry {
    /// Permission bits (`MAP_PERM_R` | `MAP_PERM_W` | `MAP_PERM_X` | `MAP_PERM_U`).
    pub perm: u8,
    /// Whether the entry currently maps a frame.
    pub valid: bool,
}

/// The cleared entry a removed mapping leaves behind.
pub open spec fn empty_pte() -> PageTableEntry {
    PageTableEntry { perm: 0, valid: false }
}

impl PageTableEntry {
    /// Whether the entry currently maps a frame.
    pub fn is_valid(&self) -> (b: bool)
        ensures
            b == self.valid,
    {
        self.valid
    }
}

/// A task's address space: its page table and heap-break pointer.
pub struct MemorySet {
    page_table: HashMap<usize, PageTableEntry>,
    heap_bottom: usize,
    brk: usize,
}

impl MemorySet {
    /// The page table as a map from virtual page number to entry.
    pub closed spec fn pages(&self) -> Map<usize, PageTableEntry> {
        self.page_table@
    }

    /// Lowest address the heap break may shrink to.
    pub closed spec fn spec_heap_bottom(&self) -> usize {
        self.heap_bottom
    }

    /// Current heap-break address.
    pub closed spec fn spec_brk(&self) -> usize {
        self.brk
    }

    /// The break never falls below the heap bottom and always fits in the
    /// signed word that the `sbrk` syscall returns it in.
    pub open spec fn wf(&self) -> bool {
        &&& self.spec_heap_bottom() <= self.spec_brk()
        &&& self.spec_brk() <= isize::MAX as usize
    }

    /// Whether `vpn` currently maps a frame.
    pub open spec fn valid_at(&self, vpn: usize) -> bool {
        self.pages().contains_key(vpn) && self.pages()[vpn].valid
    }

    /// A fresh address space with no mappings.
    pub fn new(heap_bottom: usize, brk: usize) -> (m: MemorySet)
        requires
            heap_bottom <= brk <= isize::MAX as usize,
        ensures
            m.wf(),
            m.pages() == Map::<usize, PageTableEntry>::empty(),
            m.spec_heap_bottom() == heap_bottom,
            m.spec_brk() == brk,
    {
        MemorySet { page_table: HashMap::new(), heap_bottom, brk }
    }

    /// Current heap-break address.
    pub fn program_brk(&self) -> (b: usize)
        ensures
            b == self.spec_brk(),
    {
        self.brk
    }

    /// Page-table lookup; never faults.
    pub fn translate(&self, vpn: usize) -> (r: Option<PageTableEntry>)
        ensures
            r == if self.pages().contains_key(vpn) {
                Some(self.pages()[vpn])
            } else {
                None::<PageTableEntry>
            },
    {
        match self.page_table.get(&vpn) {
            Some(pte) => Some(*pte),
            None => None,
        }
    }

    /// Clears the entry of one mapped page, leaving an invalid entry behind.
    pub fn erase_virt_map(&mut self, vpn: usize)
        requires
            old(self).pages().contains_key(vpn),
        ensures
            final(self).pages() == old(self).pages().insert(vpn, empty_pte()),
            final(self).spec_heap_bottom() == old(self).spec_heap_bottom(),
            final(self).spec_brk() == old(self).spec_brk(),
            final(self).wf() == old(self).wf(),
    {
        self.page_table.insert(vpn, PageTableEntry { perm: 0, valid: false });
    }

    /// Releases every frame the address space owns; afterwards no page has an
    /// entry at all.
    pub fn recycle_data_pages(&mut self)
        ensures
            final(self).pages() == Map::<usize, PageTableEntry>::empty(),
            final(self).spec_heap_bottom() == old(self).spec_heap_bottom(),
            final(self).spec_brk() == old(self).spec_brk(),
            final(self).wf() == old(self).wf(),
    {
        self.page_table = HashMap::new();
    }

    /// Maps every page of `[start_va, end_va)` with permissions `perm`,
    /// overwriting any invalid leftover entries.  The caller guarantees that
    /// no page of the range is currently mapped.
    pub fn insert_framed_area(&mut self, start_va: usize, end_va: usize, perm: u8)
        requires
            start_va <= end_va,
            range_unmapped(
                old(self).pages(),
                vpn_floor(start_va as int),
                vpn_ceil(end_va as int),
            ),
        ensures
            mapped_region(
                old(self).pages(),
                final(self).pages(),
                vpn_floor(start_va as int),
                vpn_ceil(end_va as int),
                perm,
            ),
            final(self).spec_heap_bottom() == old(self).spec_heap_bottom(),
            final(self).spec_brk() == old(self).spec_brk(),
            final(self).wf() == old(self).wf(),
    {
        proof {
            vstd::arithmetic::div_mod::lemma_div_is_ordered(
                end_va as int,
                usize::MAX as int,
                PAGE_SIZE as int,
            );
        }
        let ghost m0 = self.pages();
        let ghost hb0 = self.spec_heap_bottom();
        let ghost bk0 = self.spec_brk();
        let vs = start_va / PAGE_SIZE;
        let ve = if end_va % PAGE_SIZE != 0 {
            end_va / PAGE_SIZE + 1
        } else {
            end_va / PAGE_SIZE
        };
        let mut v = vs;
        while v < ve
            invariant
                m0 == old(self).pages(),
                hb0 == old(self).spec_heap_bottom(),
                bk0 == old(self).spec_brk(),
                vs == vpn_floor(start_va as int),
                ve as int == vpn_ceil(end_va as int),
                vs <= v <= ve,
                forall|u: usize|
                    vs <= u < v ==> #[trigger] self.pages().contains_key(u) && self.pages()[u]
                        == (PageTableEntry { perm, valid: true }),
                forall|u: usize|
                    !(vs <= u < v) ==> (#[trigger] self.pages().contains_key(u) == m0.contains_key(
                        u,
                    ) && (m0.contains_key(u) ==> self.pages()[u] == m0[u])),
                self.spec_heap_bottom() == hb0,
                self.spec_brk() == bk0,
            decreases ve - v,
        {
            let ghost prev = self.pages();
            self.page_table.insert(v, PageTableEntry { perm, valid: true });
            proof {
                assert(self.pages() == prev.insert(v, PageTableEntry { perm, valid: true }));
                assert forall|u: usize| vs <= u < v + 1 implies #[trigger] self
                    .pages().contains_key(u) && self.pages()[u] == (PageTableEntry {
                    perm,
                    valid: true,
                }) by {
                    if u < v {
                        assert(prev.contains_key(u) && prev[u] == (PageTableEntry {
                            perm,
                            valid: true,
                        }));
                    }
                }
                assert forall|u: usize| !(vs <= u < v + 1) implies ((#[trigger] self
                    .pages().contains_key(u)) == m0.contains_key(u) && (m0.contains_key(u)
                    ==> self.pages()[u] == m0[u])) by {
                    assert(prev.contains_key(u) == m0.contains_key(u));
                }
            }
            v = v + 1;
        }
        proof {
            lemma_mapped_region(
                m0,
                self.pages(),
                vpn_floor(start_va as int),
                vpn_ceil(end_va as int),
                perm,
            );
        }
    }

    /// Removes the mapping of every page of `[start_va, end_va)`, scanning
    /// in ascending page order.  A page with no entry at all is skipped; a
    /// page whose entry exists but is invalid stops the scan at once with
    /// `-1`, leaving the pages before it already cleared.  Returns `0` when
    /// the whole range was processed.
    pub fn unmap_area(&mut self, start_va: usize, end_va: usize) -> (r: isize)
        requires
            start_va <= end_va,
        ensures
            ({
                let vs = vpn_floor(start_va as int);
                let ve = vpn_ceil(end_va as int);
                let fi = first_invalid(old(self).pages(), vs, ve);
                &&& r == if fi == ve {
                    0isize
                } else {
                    -1isize
                }
                &&& unmap_progress(old(self).pages(), final(self).pages(), vs, fi)
            }),
            final(self).spec_heap_bottom() == old(self).spec_heap_bottom(),
            final(self).spec_brk() == old(self).spec_brk(),
            final(self).wf() == old(self).wf(),
    {
        proof {
            vstd::arithmetic::div_mod::lemma_div_is_ordered(
                end_va as int,
                usize::MAX as int,
                PAGE_SIZE as int,
            );
        }
        let ghost m0 = self.pages();
        let ghost hb0 = self.spec_heap_bottom();
        let ghost bk0 = self.spec_brk();
        let vs = start_va / PAGE_SIZE;
        let ve = if end_va % PAGE_SIZE != 0 {
            end_va / PAGE_SIZE + 1
        } else {
            end_va / PAGE_SIZE
        };
        let mut v = vs;
        while v < ve
            invariant
                m0 == old(self).pages(),
                hb0 == old(self).spec_heap_bottom(),
                bk0 == old(self).spec_brk(),
                vs == vpn_floor(start_va as int),
                ve as int == vpn_ceil(end_va as int),
                vs <= v <= ve,
                forall|u: int|
                    vs <= u < v ==> !(#[trigger] m0.contains_key(u as usize) && !m0[u as usize].valid),
                unmap_progress(m0, self.pages(), vs as int, v as int),
                self.spec_heap_bottom() == hb0,
                self.spec_brk() == bk0,
            decreases ve - v,
        {
            let entry = self.translate(v);
            let ghost prev = self.pages();
            proof {
                assert(self.pages().contains_key(v) == m0.contains_key(v));
                assert(m0.contains_key(v) ==> self.pages()[v] == m0[v]);
            }
            match entry {
                Some(pte) => {
                    if !pte.is_valid() {
                        proof {
                            lemma_first_invalid_step(m0, vs as int, ve as int, v as int);
                            assert(first_invalid(m0, v as int, ve as int) == v as int);
                        }
                        return -1;
                    }
                    self.erase_virt_map(v);
                },
                None => {},
            }
            proof {
                assert(!(m0.contains_key(v) && !m0[v].valid));
                assert forall|u: usize| vs <= u < v + 1 implies ((#[trigger] self
                    .pages().contains_key(u)) == m0.contains_key(u) && (m0.contains_key(u)
                    ==> self.pages()[u] == empty_pte())) by {
                    if u < v {
                        assert(prev.contains_key(u) == m0.contains_key(u));
                        assert(m0.contains_key(u) ==> prev[u] == empty_pte());
                    }
                }
                assert forall|u: usize| !(vs <= u < v + 1) implies ((#[trigger] self
                    .pages().contains_key(u)) == m0.contains_key(u) && (m0.contains_key(u)
                    ==> self.pages()[u] == m0[u])) by {
                    assert(prev.contains_key(u) == m0.contains_key(u));
                    assert(m0.contains_key(u) ==> prev[u] == m0[u]);
                }
                lemma_unmap_progress(m0, self.pages(), vs as int, v as int + 1);
            }
            v = v + 1;
        }
        proof {
            lemma_first_invalid_step(m0, vs as int, ve as int, ve as int);
        }
        0
    }

    /// Whether a break adjustment by `size` bytes is accepted: the new break
    /// may not fall below the heap bottom and must still fit in the signed
    /// word that reports it.
    pub open spec fn brk_accepts(&self, size: int) -> bool {
        &&& self.spec_heap_bottom() <= self.spec_brk() + size
        &&& self.spec_brk() + size <= isize::MAX as usize
    }

    /// Grows or shrinks the heap by `size` bytes, returning the previous
    /// break on success and `None` when the adjustment is rejected.
    pub fn change_program_brk(&mut self, size: i32) -> (r: Option<usize>)
        requires
            old(self).wf(),
        ensures
            final(self).wf(),
            final(self).pages() == old(self).pages(),
            final(self).spec_heap_bottom() == old(self).spec_heap_bottom(),
            old(self).brk_accepts(size as int) ==> {
                &&& r == Some(old(self).spec_brk())
                &&& final(self).spec_brk() == old(self).spec_brk() + size
            },
            !old(self).brk_accepts(size as int) ==> {
                &&& r == None::<usize>
                &&& final(self).spec_brk() == old(self).spec_brk()
            },
    {
        if size >= 0 {
            let grow = size as usize;
            if grow <= isize::MAX as usize - self.brk {
                let old_brk = self.brk;
                self.brk = self.brk + grow;
                Some(old_brk)
            } else {
                None
            }
        } else {
            let shrink = ((-(size as i64)) as usize);
            if self.brk >= shrink && self.brk - shrink >= self.heap_bottom {
                let old_brk = self.brk;
                self.brk = self.brk - shrink;
                Some(old_brk)
            } else {
                None
            }
        }
    }
}

} // verus!
