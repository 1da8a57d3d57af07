//! # Virtual and Physical Memory Addresses
//!
//! Newtypes over `u64` that keep physical and virtual addresses apart, page
//! types that carry their size in the type, and the x86-64 page sizes.

use core::marker::PhantomData;
use vstd::prelude::*;

verus! {

/// A memory address as it is used in pointers.
pub type MemoryAddress = u64;

/// 4 KiB in bytes.
pub const SIZE_4K: u64 = 0x1000;

/// 2 MiB in bytes.
pub const SIZE_2M: u64 = 0x20_0000;

/// 1 GiB in bytes.
pub const SIZE_1G: u64 = 0x4000_0000;

/// A page size known at the type level (4 KiB, 2 MiB or 1 GiB).
pub trait PageSize: Copy {
    /// The size of a page in bytes.
    spec fn size_spec() -> u64;

    /// The size of a page in bytes.
    fn size() -> (r: u64)
        ensures
            r == Self::size_spec(),
    ;

    /// A human-readable name of the size.
    fn as_str() -> &'static str;

    /// Every page size is one of the three x86-64 page sizes.
    proof fn lemma_size()
        ensures
            Self::size_spec() == SIZE_4K || Self::size_spec() == SIZE_2M || Self::size_spec()
                == SIZE_1G,
    ;
}

/// 4 KiB pages.
#[derive(Copy, Clone, Debug, PartialEq, Eq)]
pub struct Size4K;

/// 2 MiB pages.
#[derive(Copy, Clone, Debug, PartialEq, Eq)]
pub struct Size2M;

/// 1 GiB pages.
#[derive(Copy, Clone, Debug, PartialEq, Eq)]
pub struct Size1G;

impl Size4K {
    /// The size of a 4 KiB page in bytes.
    pub const SIZE: u64 = 0x1000;
}

impl Size2M {
    /// The size of a 2 MiB page in bytes.
    pub const SIZE: u64 = 0x20_0000;
}

impl Size1G {
    /// The size of a 1 GiB page in bytes.
    pub const SIZE: u64 = 0x4000_0000;
}

impl PageSize for Size4K {
    open spec fn size_spec() -> u64 {
        SIZE_4K
    }

    fn size() -> (r: u64) {
        SIZE_4K
    }

    fn as_str() -> &'static str {
        "4 KiB"
    }

    proof fn lemma_size() {
    }
}

impl PageSize for Size2M {
    open spec fn size_spec() -> u64 {
        SIZE_2M
    }

    fn size() -> (r: u64) {
        SIZE_2M
    }

    fn as_str() -> &'static str {
        "2 MiB"
    }

    proof fn lemma_size() {
    }
}

impl PageSize for Size1G {
    open spec fn size_spec() -> u64 {
        SIZE_1G
    }

    fn size() -> (r: u64) {
        SIZE_1G
    }

    fn as_str() -> &'static str {
        "1 GiB"
    }

    proof fn lemma_size() {
    }
}

/// The start of the page of size `size` that contains `a`.
pub open spec fn align_down(a: u64, size: u64) -> u64
    recommends
        size > 0,
{
    (a - a % size) as u64
}

/// Offset of an address inside a page of size `S`.
#[derive(Copy, Debug)]
pub struct PageOffset<S: PageSize> {
    pub offset: u64,
    pub size: PhantomData<S>,
}

impl<S: PageSize> Clone for PageOffset<S> {
    fn clone(&self) -> (r: Self)
        ensures
            r == *self,
    {
        *self
    }
}

impl<S: PageSize> Clone for PhysicalPage<S> {
    fn clone(&self) -> (r: Self)
        ensures
            r == *self,
    {
        *self
    }
}

impl<S: PageSize> Clone for VirtualPage<S> {
    fn clone(&self) -> (r: Self)
        ensures
            r == *self,
    {
        *self
    }
}

impl<S: PageSize> PageOffset<S> {
    /// The offset in bytes.
    pub fn as_u64(self) -> (r: u64)
        ensures
            r == self.offset,
    {
        self.offset
    }
}

/// A **physical** memory address (machine bus address).
///
/// No alignment guarantees by itself.
#[derive(Copy, Clone, Debug, PartialEq, Eq, Structural, PartialOrd, Ord)]
pub struct PhysicalAddress(pub u64);

/// A **virtual** memory address (process/kernel address space).
///
/// No alignment guarantees by itself.
#[derive(Copy, Clone, Debug, PartialEq, Eq, Structural, PartialOrd, Ord)]
pub struct VirtualAddress(pub u64);

impl PhysicalAddress {
    /// Wraps a raw address.
    pub fn new(a: u64) -> (r: Self)
        ensures
            r.0 == a,
    {
        PhysicalAddress(a)
    }

    /// The zero address.
    pub fn zero() -> (r: Self)
        ensures
            r.0 == 0,
    {
        PhysicalAddress(0)
    }

    /// The raw address.
    pub fn as_u64(self) -> (r: u64)
        ensures
            r == self.0,
    {
        self.0
    }

    /// Whether the address is a multiple of `align`.
    pub fn is_aligned_to(self, align: u64) -> (r: bool)
        requires
            align > 0,
        ensures
            r == (self.0 % align == 0),
    {
        self.0 % align == 0
    }

    /// The offset of the address inside its page of size `S`.
    pub fn offset<S: PageSize>(self) -> (r: PageOffset<S>)
        ensures
            r.offset == self.0 % S::size_spec(),
    {
        proof {
            S::lemma_size();
        }
        PageOffset { offset: self.0 % S::size(), size: PhantomData }
    }

    /// The page of size `S` that contains the address.
    pub fn page<S: PageSize>(self) -> (r: PhysicalPage<S>)
        ensures
            r.base.0 == align_down(self.0, S::size_spec()),
    {
        PhysicalPage::from_addr(self)
    }
}

impl VirtualAddress {
    /// Wraps a raw address.
    pub fn new(a: u64) -> (r: Self)
        ensures
            r.0 == a,
    {
        VirtualAddress(a)
    }

    /// The zero address.
    pub fn zero() -> (r: Self)
        ensures
            r.0 == 0,
    {
        VirtualAddress(0)
    }

    /// The raw address.
    pub fn as_u64(self) -> (r: u64)
        ensures
            r == self.0,
    {
        self.0
    }

    /// Whether the address is a multiple of `align`.
    pub fn is_aligned_to(self, align: u64) -> (r: bool)
        requires
            align > 0,
        ensures
            r == (self.0 % align == 0),
    {
        self.0 % align == 0
    }

    /// The offset of the address inside its page of size `S`.
    pub fn offset<S: PageSize>(self) -> (r: PageOffset<S>)
        ensures
            r.offset == self.0 % S::size_spec(),
    {
        proof {
            S::lemma_size();
        }
        PageOffset { offset: self.0 % S::size(), size: PhantomData }
    }

    /// The page of size `S` that contains the address.
    pub fn page<S: PageSize>(self) -> (r: VirtualPage<S>)
        ensures
            r.base.0 == align_down(self.0, S::size_spec()),
    {
        VirtualPage::from_addr(self)
    }
}

/// A physical page of size `S`; its base is a multiple of the size.
#[derive(Copy, Debug)]
pub struct PhysicalPage<S: PageSize> {
    pub base: PhysicalAddress,
    pub size: PhantomData<S>,
}

/// A virtual page of size `S`; its base is a multiple of the size.
#[derive(Copy, Debug)]
pub struct VirtualPage<S: PageSize> {
    pub base: VirtualAddress,
    pub size: PhantomData<S>,
}

impl<S: PageSize> PhysicalPage<S> {
    /// Well-formed: the base is aligned to the page size.
    pub open spec fn wf(self) -> bool {
        self.base.0 % S::size_spec() == 0
    }

    /// The page that contains `addr` (the address is aligned down).
    pub fn from_addr(addr: PhysicalAddress) -> (r: Self)
        ensures
            r.base.0 == align_down(addr.0, S::size_spec()),
            r.wf(),
    {
        proof {
            S::lemma_size();
            lemma_align_down(addr.0, S::size_spec());
        }
        let s = S::size();
        PhysicalPage { base: PhysicalAddress(addr.0 - addr.0 % s), size: PhantomData }
    }

    /// The first address of the page.
    pub fn base(self) -> (r: PhysicalAddress)
        ensures
            r == self.base,
    {
        self.base
    }

    /// The address at offset `off` inside this page.
    pub fn join(self, off: PageOffset<S>) -> (r: PhysicalAddress)
        requires
            self.base.0 + off.offset <= u64::MAX,
        ensures
            r.0 == self.base.0 + off.offset,
    {
        PhysicalAddress(self.base.0 + off.offset)
    }
}

impl<S: PageSize> VirtualPage<S> {
    /// Well-formed: the base is aligned to the page size.
    pub open spec fn wf(self) -> bool {
        self.base.0 % S::size_spec() == 0
    }

    /// The page that contains `addr` (the address is aligned down).
    pub fn from_addr(addr: VirtualAddress) -> (r: Self)
        ensures
            r.base.0 == align_down(addr.0, S::size_spec()),
            r.wf(),
    {
        proof {
            S::lemma_size();
            lemma_align_down(addr.0, S::size_spec());
        }
        let s = S::size();
        VirtualPage { base: VirtualAddress(addr.0 - addr.0 % s), size: PhantomData }
    }

    /// The first address of the page.
    pub fn base(self) -> (r: VirtualAddress)
        ensures
            r == self.base,
    {
        self.base
    }

    /// The address at offset `off` inside this page.
    pub fn join(self, off: PageOffset<S>) -> (r: VirtualAddress)
        requires
            self.base.0 + off.offset <= u64::MAX,
        ensures
            r.0 == self.base.0 + off.offset,
    {
        VirtualAddress(self.base.0 + off.offset)
    }
}

/// Aligning down yields a multiple of the size that is at most the address.
pub proof fn lemma_align_down(a: u64, size: u64)
    requires
        size > 0,
    ensures
        a % size <= a,
        align_down(a, size) % size == 0,
        align_down(a, size) <= a,
        a - align_down(a, size) < size,
{
    vstd::arithmetic::div_mod::lemma_fundamental_div_mod(a as int, size as int);
    vstd::arithmetic::mul::lemma_mul_nonnegative(size as int, (a / size) as int);
    vstd::arithmetic::div_mod::lemma_mod_multiples_basic((a / size) as int, size as int);
    assert(align_down(a, size) == size * (a / size));
    vstd::arithmetic::mul::lemma_mul_is_commutative(size as int, (a / size) as int);
}

/// The PML4 index of a virtual address (bits 47..39).
pub open spec fn l4_index(va: u64) -> u64 {
    (va >> 39) & 0x1ff
}

/// The PDPT index of a virtual address (bits 38..30).
pub open spec fn l3_index(va: u64) -> u64 {
    (va >> 30) & 0x1ff
}

/// The PD index of a virtual address (bits 29..21).
pub open spec fn l2_index(va: u64) -> u64 {
    (va >> 21) & 0x1ff
}

/// The PT index of a virtual address (bits 20..12).
pub open spec fn l1_index(va: u64) -> u64 {
    (va >> 12) & 0x1ff
}

/// Each of the four indices of a virtual address is below 512.
pub proof fn lemma_indices_bounded(va: u64)
    ensures
        l4_index(va) < 512,
        l3_index(va) < 512,
        l2_index(va) < 512,
        l1_index(va) < 512,
{
    crate::bitfield::lemma_shift_facts(va, 0, 0);
}

/// A virtual address below 2^48 is its four table indices and its 12-bit
/// page offset put together: `VA = [PML4:9] [PDPT:9] [PD:9] [PT:9]
/// [Offset:12]`.
pub proof fn lemma_va_decomposition(va: u64)
    by (bit_vector)
    requires
        va < 0x1_0000_0000_0000,
    ensures
        va == ((va >> 39) & 0x1ff) * 0x80_0000_0000 + ((va >> 30) & 0x1ff) * 0x4000_0000 + ((va
            >> 21) & 0x1ff) * 0x20_0000 + ((va >> 12) & 0x1ff) * 0x1000 + va % 0x1000,
{
}

/// Splitting an address into the page that holds it and the offset inside
/// that page, and joining the two again, gives the address back.
pub proof fn lemma_page_split_join<S: PageSize>(a: u64)
    ensures
        align_down(a, S::size_spec()) + a % S::size_spec() == a,
        a % S::size_spec() < S::size_spec(),
        align_down(a, S::size_spec()) % S::size_spec() == 0,
{
    S::lemma_size();
    lemma_align_down(a, S::size_spec());
}

/// Extracts the 9-bit index at bit `shift` of `va`.
pub fn index_bits(va: u64, shift: u64) -> (r: u16)
    requires
        shift == 12 || shift == 21 || shift == 30 || shift == 39,
    ensures
        r == (va >> shift) & 0x1ff,
        r < 512,
{
    proof {
        crate::bitfield::lemma_shift_facts(va, 0, shift);
    }
    ((va >> shift) & 0x1ff) as u16
}

/// A **physical** address in the raw form that the page-table index helpers
/// take apart.
#[derive(Copy, Clone, Debug, PartialEq, Eq, PartialOrd, Ord)]
pub struct PhysAddr(pub MemoryAddress);

/// A **virtual** address in the raw form that the page-table index helpers
/// take apart.
#[derive(Copy, Clone, Debug, PartialEq, Eq, PartialOrd, Ord)]
pub struct VirtAddr(pub MemoryAddress);

} // verus!
