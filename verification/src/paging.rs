//! The identity mapping: address translation inside the mapped window, and
//! the page tables that make the window addressable.
//!
//! The kernel runs in one address space in which every physical address
//! below [`IDENTITY_WINDOW`] is mapped to the equal virtual address. The
//! tables are three levels of 512 entries: one top-level table, one table of
//! directory pointers, and 64 directories whose entries each map a 2 MiB
//! page.

use vstd::prelude::*;
use crate::address::{PhysicalAddress, VirtualAddress, PHYSICAL_LIMIT};

verus! {

pub const PAGE_SIZE_4K: u64 = 0x1000;

pub const PAGE_SIZE_2M: u64 = 0x20_0000;

pub const PAGE_SIZE_1G: u64 = 0x4000_0000;

/// Entries of one table of any level.
pub const TABLE_ENTRIES: usize = 512;

/// Number of page directories, each of which maps 1 GiB.
pub const PAGE_DIRECTORY_COUNT: usize = 64;

/// Size of the identity-mapped window: 64 GiB.
pub const IDENTITY_WINDOW: u64 = 0x10_0000_0000;

/// Flags of an entry that points to a lower table: present, writable.
pub const TABLE_FLAGS: u64 = 0x3;

/// Flags of an entry that maps a 2 MiB page: present, writable, huge.
pub const HUGE_PAGE_FLAGS: u64 = 0x83;

/// The virtual address at which the physical address `p` is mapped.
pub open spec fn physical_to_virtual(p: u64) -> Option<u64> {
    if p < IDENTITY_WINDOW {
        Some(p)
    } else {
        None
    }
}

/// The physical address that the virtual address `v` is mapped to.
pub open spec fn virtual_to_physical(v: u64) -> Option<u64> {
    if v < IDENTITY_WINDOW {
        Some(v)
    } else {
        None
    }
}

/// Translating a physical address of the window to its virtual address and
/// back gives the address again; outside the window neither direction has
/// a mapping.
pub proof fn lemma_identity_round_trip(p: u64)
    ensures
        p < IDENTITY_WINDOW ==> physical_to_virtual(p) == Some(p) && virtual_to_physical(
            physical_to_virtual(p).unwrap(),
        ) == Some(p),
        p >= IDENTITY_WINDOW ==> physical_to_virtual(p) is None && virtual_to_physical(p) is None,
{
}

/// The virtual address of a physical address, or `None` outside the
/// identity-mapped window.
pub fn as_virt_addr(addr: PhysicalAddress) -> (result: Option<VirtualAddress>)
    ensures
        match physical_to_virtual(addr@) {
            Some(v) => result matches Some(mapped) && mapped@ == v,
            None => result is None,
        },
{
    if addr.as_u64() < IDENTITY_WINDOW {
        Some(VirtualAddress::new(addr.as_u64()))
    } else {
        None
    }
}

/// The physical address of a virtual address, or `None` outside the
/// identity-mapped window.
pub fn as_phys_addr(addr: VirtualAddress) -> (result: Option<PhysicalAddress>)
    ensures
        match virtual_to_physical(addr@) {
            Some(p) => result matches Some(mapped) && mapped@ == p,
            None => result is None,
        },
{
    if addr.as_u64() < IDENTITY_WINDOW {
        Some(PhysicalAddress::new(addr.as_u64()))
    } else {
        None
    }
}

/// Entry `k` of the top-level table: entry 0 points to the table of
/// directory pointers at `pdp_address`, all others are absent.
pub open spec fn pml4_entry(pdp_address: u64, k: int) -> u64 {
    if k == 0 {
        pdp_address | TABLE_FLAGS
    } else {
        0
    }
}

/// Entry `i` of the table of directory pointers: the first 64 entries point
/// to the directories, which lie one after the other from
/// `directory_address` on; all others are absent.
pub open spec fn pdp_entry(directory_address: u64, i: int) -> u64 {
    if 0 <= i < PAGE_DIRECTORY_COUNT {
        ((directory_address + i * PAGE_SIZE_4K) as u64) | TABLE_FLAGS
    } else {
        0
    }
}

/// Entry `j` of directory `i`: a 2 MiB page at the physical address
/// `i * 1 GiB + j * 2 MiB`.
pub open spec fn directory_entry(i: int, j: int) -> u64 {
    ((i * PAGE_SIZE_1G + j * PAGE_SIZE_2M) as u64) | HUGE_PAGE_FLAGS
}

/// Where the tables lie in physical memory is acceptable: both addresses
/// are page-aligned physical addresses, and the 64 directories end below
/// the physical limit.
pub open spec fn placement_ok(pdp_address: u64, directory_address: u64) -> bool {
    &&& pdp_address < PHYSICAL_LIMIT
    &&& pdp_address % PAGE_SIZE_4K == 0
    &&& directory_address % PAGE_SIZE_4K == 0
    &&& directory_address + PAGE_DIRECTORY_COUNT * PAGE_SIZE_4K <= PHYSICAL_LIMIT
}

/// The three levels of page tables of the identity mapping.
pub struct PageTables {
    pml4: [u64; 512],
    pdp: [u64; 512],
    directories: [[u64; 512]; 64],
    pdp_address: u64,
    directory_address: u64,
}

impl PageTables {
    /// The top-level table.
    pub closed spec fn pml4_table(&self) -> Seq<u64> {
        self.pml4@
    }

    /// The table of directory pointers.
    pub closed spec fn pdp_table(&self) -> Seq<u64> {
        self.pdp@
    }

    /// Directory `i`.
    pub closed spec fn directory_table(&self, i: int) -> Seq<u64> {
        self.directories@[i]@
    }

    /// Physical address at which the table of directory pointers lies.
    pub closed spec fn pdp_address(&self) -> u64 {
        self.pdp_address
    }

    /// Physical address at which directory 0 lies.
    pub closed spec fn directory_address(&self) -> u64 {
        self.directory_address
    }

    /// Every entry of every level has the value the identity mapping asks
    /// for.
    pub open spec fn maps_identity(&self) -> bool {
        &&& placement_ok(self.pdp_address(), self.directory_address())
        &&& self.pml4_table().len() == TABLE_ENTRIES
        &&& self.pdp_table().len() == TABLE_ENTRIES
        &&& forall|k: int|
            0 <= k < TABLE_ENTRIES ==> #[trigger] self.pml4_table()[k] == pml4_entry(
                self.pdp_address(),
                k,
            )
        &&& forall|i: int|
            0 <= i < TABLE_ENTRIES ==> #[trigger] self.pdp_table()[i] == pdp_entry(
                self.directory_address(),
                i,
            )
        &&& forall|i: int|
            0 <= i < PAGE_DIRECTORY_COUNT ==> (#[trigger] self.directory_table(i)).len()
                == TABLE_ENTRIES
        &&& forall|i: int, j: int|
            0 <= i < PAGE_DIRECTORY_COUNT && 0 <= j < TABLE_ENTRIES
                ==> #[trigger] self.directory_table(i)[j] == directory_entry(i, j)
    }

    /// Builds the tables of the identity mapping, for a table of directory
    /// pointers that will lie at `pdp_address` and directories that will lie
    /// from `directory_address` on.
    pub fn new(pdp_address: PhysicalAddress, directory_address: PhysicalAddress) -> (tables:
        PageTables)
        requires
            placement_ok(pdp_address@, directory_address@),
        ensures
            tables.pdp_address() == pdp_address@,
            tables.directory_address() == directory_address@,
            tables.maps_identity(),
    {
        let pdp_base = pdp_address.as_u64();
        let directory_base = directory_address.as_u64();
        let mut pml4 = [0u64; 512];
        let mut pdp = [0u64; 512];
        let mut directories = [[0u64; 512]; 64];
        pml4[0] = pdp_base | TABLE_FLAGS;
        let mut i: usize = 0;
        while i < PAGE_DIRECTORY_COUNT
            invariant
                i <= PAGE_DIRECTORY_COUNT,
                placement_ok(pdp_base, directory_base),
                forall|k: int| 0 <= k < TABLE_ENTRIES ==> #[trigger] pdp@[k] == (if k < i {
                    pdp_entry(directory_base, k)
                } else {
                    0
                }),
                forall|a: int, b: int|
                    0 <= a < i && 0 <= b < TABLE_ENTRIES ==> #[trigger] directories@[a]@[b]
                        == directory_entry(a, b),
            decreases PAGE_DIRECTORY_COUNT - i,
        {
            pdp[i] = (directory_base + i as u64 * PAGE_SIZE_4K) | TABLE_FLAGS;
            let mut row = [0u64; 512];
            let mut j: usize = 0;
            while j < TABLE_ENTRIES
                invariant
                    i < PAGE_DIRECTORY_COUNT,
                    j <= TABLE_ENTRIES,
                    forall|b: int| 0 <= b < j ==> #[trigger] row@[b] == directory_entry(i as int, b),
                decreases TABLE_ENTRIES - j,
            {
                row[j] = (i as u64 * PAGE_SIZE_1G + j as u64 * PAGE_SIZE_2M) | HUGE_PAGE_FLAGS;
                j = j + 1;
            }
            directories[i] = row;
            i = i + 1;
        }
        PageTables { pml4, pdp, directories, pdp_address: pdp_base, directory_address: directory_base }
    }

    /// The top-level table, whose address goes into the page-table base
    /// register.
    pub fn pml4(&self) -> (table: &[u64; 512])
        ensures
            table@ == self.pml4_table(),
    {
        &self.pml4
    }

    /// The table of directory pointers.
    pub fn pdp(&self) -> (table: &[u64; 512])
        ensures
            table@ == self.pdp_table(),
    {
        &self.pdp
    }

    /// Directory `i`.
    pub fn directory(&self, i: usize) -> (table: &[u64; 512])
        requires
            i < PAGE_DIRECTORY_COUNT,
        ensures
            table@ == self.directory_table(i as int),
    {
        &self.directories[i]
    }
}

/// Bits 12 to 51 of an entry: the physical address of the table it points
/// to.
pub const TABLE_ADDRESS_MASK: u64 = 0x000f_ffff_ffff_f000;

/// Bits 21 to 51 of an entry: the physical address of the 2 MiB page it
/// maps.
pub const HUGE_PAGE_ADDRESS_MASK: u64 = 0x000f_ffff_ffe0_0000;

/// The entry is present.
pub open spec fn entry_present(entry: u64) -> bool {
    entry & 0x1 != 0
}

/// The entry maps a page itself instead of pointing to a lower table.
pub open spec fn entry_huge(entry: u64) -> bool {
    entry & 0x80 != 0
}

/// The index into the table of the given level that the virtual address
/// `v` selects: 9 bits from bit `shift` on.
pub open spec fn table_index(v: u64, shift: u64) -> int {
    ((v >> shift) & 0x1ff) as int
}

impl PageTables {
    /// The directory that an entry of the table of directory pointers leads
    /// to, if it leads to one of the 64 directories.
    pub open spec fn directory_of(&self, entry: u64) -> Option<int> {
        let target = entry & TABLE_ADDRESS_MASK;
        let offset = target - self.directory_address();
        if entry_present(entry) && !entry_huge(entry) && 0 <= offset < PAGE_DIRECTORY_COUNT
            * PAGE_SIZE_4K && offset % (PAGE_SIZE_4K as int) == 0 {
            Some(offset / (PAGE_SIZE_4K as int))
        } else {
            None
        }
    }

    /// The physical address that the processor reaches when it walks these
    /// tables for the virtual address `v`, or `None` where `v` is not
    /// canonical or the walk meets an entry that is absent or leads out of
    /// these tables.
    pub open spec fn walk(&self, v: u64) -> Option<u64> {
        let top = self.pml4_table()[table_index(v, 39)];
        if !crate::address::is_canonical(v) || !entry_present(top) || top & TABLE_ADDRESS_MASK
            != self.pdp_address() {
            None
        } else {
            match self.directory_of(self.pdp_table()[table_index(v, 30)]) {
                None => None,
                Some(d) => {
                    let entry = self.directory_table(d)[table_index(v, 21)];
                    if entry_present(entry) && entry_huge(entry) {
                        Some((entry & HUGE_PAGE_ADDRESS_MASK) | (v & 0x1f_ffff))
                    } else {
                        None
                    }
                },
            }
        }
    }

    /// The tables realise the identity mapping: walking them for a virtual
    /// address inside the window reaches the equal physical address, and
    /// for every other address the walk finds no mapping. So the walk agrees
    /// with `virtual_to_physical` everywhere.
    pub proof fn lemma_walk_is_identity(&self, v: u64)
        requires
            self.maps_identity(),
        ensures
            self.walk(v) == virtual_to_physical(v),
    {
        let pdp_address = self.pdp_address();
        let base = self.directory_address();
        let i4 = (v >> 39) & 0x1ff;
        let i3 = (v >> 30) & 0x1ff;
        let i2 = (v >> 21) & 0x1ff;
        assert(i4 < 512 && i3 < 512 && i2 < 512) by (bit_vector)
            requires
                i4 == (v >> 39) & 0x1ff,
                i3 == (v >> 30) & 0x1ff,
                i2 == (v >> 21) & 0x1ff,
        ;
        let top = self.pml4_table()[i4 as int];
        assert(top == pml4_entry(pdp_address, i4 as int));
        let second = self.pdp_table()[i3 as int];
        assert(second == pdp_entry(base, i3 as int));
        assert(!entry_present(0u64)) by (bit_vector);
        if v < IDENTITY_WINDOW {
            assert(i4 == 0 && i3 < 64 && v < 0x8000_0000_0000) by (bit_vector)
                requires
                    v < 0x10_0000_0000,
                    i4 == (v >> 39) & 0x1ff,
                    i3 == (v >> 30) & 0x1ff,
            ;
            assert((pdp_address | 0x3) & 0x1 != 0 && (pdp_address | 0x3) & 0x000f_ffff_ffff_f000
                == pdp_address) by (bit_vector)
                requires
                    pdp_address % 0x1000 == 0,
                    pdp_address < 0x10_0000_0000_0000,
            ;
            let target = (base + i3 * PAGE_SIZE_4K) as u64;
            assert(target == base + i3 * 0x1000);
            assert(target % 0x1000 == 0 && target < 0x10_0000_0000_0000) by (nonlinear_arith)
                requires
                    base % 0x1000 == 0,
                    target == base + i3 * 0x1000,
                    base + 64 * 0x1000 <= 0x10_0000_0000_0000,
                    i3 < 64,
            ;
            assert((target | 0x3) & 0x1 != 0 && (target | 0x3) & 0x80 == 0 && (target | 0x3)
                & 0x000f_ffff_ffff_f000 == target) by (bit_vector)
                requires
                    target % 0x1000 == 0,
                    target < 0x10_0000_0000_0000,
            ;
            assert((i3 * 0x1000) % 0x1000 == 0 && (i3 * 0x1000) / 0x1000 == i3) by (nonlinear_arith)
                requires
                    0 <= i3,
            ;
            assert(self.directory_of(second) == Some(i3 as int));
            let entry = self.directory_table(i3 as int)[i2 as int];
            assert(entry == directory_entry(i3 as int, i2 as int));
            let page = (i3 * PAGE_SIZE_1G + i2 * PAGE_SIZE_2M) as u64;
            assert(page == i3 * 0x4000_0000 + i2 * 0x20_0000);
            assert(page == (i3 << 30) | (i2 << 21)) by (bit_vector)
                requires
                    i3 < 64,
                    i2 < 512,
                    page == i3 * 0x4000_0000 + i2 * 0x20_0000,
            ;
            assert((page | 0x83) & 0x1 != 0 && (page | 0x83) & 0x80 != 0 && ((page | 0x83)
                & 0x000f_ffff_ffe0_0000) | (v & 0x1f_ffff) == v) by (bit_vector)
                requires
                    v < 0x10_0000_0000,
                    i3 == (v >> 30) & 0x1ff,
                    i2 == (v >> 21) & 0x1ff,
                    page == (i3 << 30) | (i2 << 21),
            ;
        } else if crate::address::is_canonical(v) {
            if i4 == 0 {
                assert(i3 >= 64) by (bit_vector)
                    requires
                        v >= 0x10_0000_0000,
                        v < 0x8000_0000_0000 || v >= 0xffff_8000_0000_0000,
                        i4 == (v >> 39) & 0x1ff,
                        i3 == (v >> 30) & 0x1ff,
                        i4 == 0,
                ;
                assert(second == 0);
                assert(self.directory_of(second) is None);
            }
        }
    }
}

} // verus!
