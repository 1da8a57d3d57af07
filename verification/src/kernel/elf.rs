//! # ELF64 program-header view
//!
//! Checks the ELF header of an x86-64 executable (`ET_EXEC` or `ET_DYN`) and
//! reads its program headers in place, without allocating.

pub mod helpers;

use crate::addresses::{PhysicalAddress, VirtualAddress};
use vstd::prelude::*;

verus! {

/// Why an ELF image was refused.
#[derive(Debug, Copy, Clone, PartialEq, Eq, Structural)]
pub enum ElfErr {
    /// Shorter than the 64-byte ELF header.
    TooShort,
    /// The first four bytes are not `\x7FELF`.
    BadMagic,
    /// Not `ELFCLASS64`.
    BadClass,
    /// Not `x86-64`.
    BadMachine,
    /// A header field has a value this loader does not take.
    BadHeader,
    /// The program-header table does not lie inside the image.
    Oob,
    /// A program header is malformed.
    BadPh,
    /// A segment could not be mapped.
    MapFail,
}

/// The ELF64 file header fields this loader reads.
#[derive(Copy, Clone, Debug)]
pub struct Eh64 {
    pub e_type: u16,
    pub e_machine: u16,
    pub e_version: u32,
    pub e_entry: VirtualAddress,
    pub e_phoff: u64,
    pub e_shoff: u64,
    pub e_flags: u32,
    pub e_ehsize: u16,
    pub e_phentsize: u16,
    pub e_phnum: u16,
    pub e_shentsize: u16,
    pub e_shnum: u16,
    pub e_shstrndx: u16,
}

/// An ELF64 program header.
#[derive(Copy, Clone, Debug)]
pub struct Ph64 {
    pub p_type: u32,
    pub p_flags: PFlags,
    pub p_offset: u64,
    pub p_vaddr: VirtualAddress,
    pub p_paddr: PhysicalAddress,
    pub p_filesz: u64,
    pub p_memsz: u64,
    /// The alignment; a stored 0 (no requirement) reads as 1.
    pub p_align: u64,
}

/// `Elf64_Phdr.p_flags`: bit 0 = execute, bit 1 = write, bit 2 = read.
#[derive(Copy, Clone, Debug, PartialEq, Eq, Structural)]
pub struct PFlags(pub u32);

impl PFlags {
    /// The flags with the raw value `bits`.
    pub fn from_bits(bits: u32) -> Self
        returns
            PFlags(bits),
    {
        PFlags(bits)
    }

    /// The raw value.
    pub fn into_bits(self) -> u32
        returns
            self.0,
    {
        self.0
    }

    /// No flag set.
    pub fn new() -> Self
        returns
            PFlags(0),
    {
        PFlags(0)
    }

    /// The segment is executable (`PF_X`).
    #[verifier::allow_in_spec]
    pub fn execute(&self) -> bool
        returns
            self.0 & 1 != 0,
    {
        self.0 & 1 != 0
    }

    /// The segment is writable (`PF_W`).
    #[verifier::allow_in_spec]
    pub fn write(&self) -> bool
        returns
            self.0 & 2 != 0,
    {
        self.0 & 2 != 0
    }

    /// The segment is readable (`PF_R`).
    #[verifier::allow_in_spec]
    pub fn read(&self) -> bool
        returns
            self.0 & 4 != 0,
    {
        self.0 & 4 != 0
    }
}

/// `e_type` of a fixed-address executable.
pub const ET_EXEC: u16 = 2;

/// `e_type` of a position-independent executable.
pub const ET_DYN: u16 = 3;

/// `e_machine` of x86-64.
pub const EM_X86_64: u16 = 62;

/// `p_type` of a loadable segment.
pub const PT_LOAD: u32 = 1;

/// The size of an ELF64 program header.
pub const PH_SIZE: usize = 56;

/// The little-endian `u16` at `at`.
pub open spec fn le16_spec(s: Seq<u8>, at: int) -> u16 {
    (s[at] + 256 * s[at + 1]) as u16
}

/// The little-endian `u32` at `at`.
pub open spec fn le32_spec(s: Seq<u8>, at: int) -> u32 {
    (le16_spec(s, at) + 0x1_0000 * le16_spec(s, at + 2)) as u32
}

/// The little-endian `u64` at `at`.
pub open spec fn le64_spec(s: Seq<u8>, at: int) -> u64 {
    (le32_spec(s, at) + 0x1_0000_0000 * le32_spec(s, at + 4)) as u64
}

fn le16(x: &[u8], at: usize) -> (r: u16)
    requires
        at + 2 <= x.len(),
    ensures
        r == le16_spec(x@, at as int),
{
    x[at] as u16 + 256 * (x[at + 1] as u16)
}

fn le32(x: &[u8], at: usize) -> (r: u32)
    requires
        at + 4 <= x.len(),
    ensures
        r == le32_spec(x@, at as int),
{
    le16(x, at) as u32 + 0x1_0000 * (le16(x, at + 2) as u32)
}

fn le64(x: &[u8], at: usize) -> (r: u64)
    requires
        at + 8 <= x.len(),
    ensures
        r == le64_spec(x@, at as int),
{
    le32(x, at) as u64 + 0x1_0000_0000 * (le32(x, at + 4) as u64)
}

/// The ELF header fields stored in the first 64 bytes of `s`.
pub open spec fn parse_eh(s: Seq<u8>) -> Eh64 {
    Eh64 {
        e_type: le16_spec(s, 16),
        e_machine: le16_spec(s, 18),
        e_version: le32_spec(s, 20),
        e_entry: VirtualAddress(le64_spec(s, 24)),
        e_phoff: le64_spec(s, 32),
        e_shoff: le64_spec(s, 40),
        e_flags: le32_spec(s, 48),
        e_ehsize: le16_spec(s, 52),
        e_phentsize: le16_spec(s, 54),
        e_phnum: le16_spec(s, 56),
        e_shentsize: le16_spec(s, 58),
        e_shnum: le16_spec(s, 60),
        e_shstrndx: le16_spec(s, 62),
    }
}

/// The first four bytes are `\x7FELF`.
pub open spec fn has_magic(s: Seq<u8>) -> bool {
    s[0] == 0x7f && s[1] == 0x45 && s[2] == 0x4c && s[3] == 0x46
}

/// The outcome of checking the image `s`, in the order the checks are made:
/// length, magic, class, byte order, type, machine, version, header size,
/// program-header size, and the program-header table's bounds.
pub open spec fn elf_check(s: Seq<u8>) -> Result<Eh64, ElfErr> {
    if s.len() < 64 {
        Err(ElfErr::TooShort)
    } else if !has_magic(s) {
        Err(ElfErr::BadMagic)
    } else if s[4] != 2 {
        Err(ElfErr::BadClass)
    } else if s[5] != 1 {
        Err(ElfErr::BadHeader)
    } else {
        let eh = parse_eh(s);
        if !(eh.e_type == ET_EXEC || eh.e_type == ET_DYN) {
            Err(ElfErr::BadHeader)
        } else if eh.e_machine != EM_X86_64 {
            Err(ElfErr::BadMachine)
        } else if eh.e_version != 1 {
            Err(ElfErr::BadHeader)
        } else if eh.e_ehsize > s.len() {
            Err(ElfErr::BadHeader)
        } else if eh.e_phentsize != 56 {
            Err(ElfErr::BadHeader)
        } else if (eh.e_phoff as usize) + eh.e_phnum * 56 > s.len() {
            Err(ElfErr::Oob)
        } else {
            Ok(eh)
        }
    }
}

/// The program header stored at byte `p` of `s`.
pub open spec fn parse_ph(s: Seq<u8>, p: int) -> Ph64 {
    Ph64 {
        p_type: le32_spec(s, p),
        p_flags: PFlags(le32_spec(s, p + 4)),
        p_offset: le64_spec(s, p + 8),
        p_vaddr: VirtualAddress(le64_spec(s, p + 16)),
        p_paddr: PhysicalAddress(le64_spec(s, p + 24)),
        p_filesz: le64_spec(s, p + 32),
        p_memsz: le64_spec(s, p + 40),
        p_align: if le64_spec(s, p + 48) == 0 {
            1
        } else {
            le64_spec(s, p + 48)
        },
    }
}

/// The unsigned number whose little-endian bytes are `s[at]`, `s[at + 1]`.
pub open spec fn bytes2(s: Seq<u8>, at: int) -> int {
    s[at] + 0x100 * s[at + 1]
}

/// The unsigned number whose little-endian bytes are `s[at..at + 4]`.
pub open spec fn bytes4(s: Seq<u8>, at: int) -> int {
    s[at] + 0x100 * s[at + 1] + 0x1_0000 * s[at + 2] + 0x100_0000 * s[at + 3]
}

/// The unsigned number whose little-endian bytes are `s[at..at + 8]`.
pub open spec fn bytes8(s: Seq<u8>, at: int) -> int {
    s[at] + 0x100 * s[at + 1] + 0x1_0000 * s[at + 2] + 0x100_0000 * s[at + 3] + 0x1_0000_0000 * s[at
        + 4] + 0x100_0000_0000 * s[at + 5] + 0x1_0000_0000_0000 * s[at + 6] + 0x100_0000_0000_0000 * s[at
        + 7]
}

/// The little-endian readers give the numbers their bytes spell.
proof fn lemma_le_bytes(s: Seq<u8>, at: int)
    requires
        0 <= at,
        at + 8 <= s.len(),
    ensures
        le16_spec(s, at) == bytes2(s, at),
        le32_spec(s, at) == bytes4(s, at),
        le64_spec(s, at) == bytes8(s, at),
{
    let b0 = s[at] as int;
    let b1 = s[at + 1] as int;
    let b2 = s[at + 2] as int;
    let b3 = s[at + 3] as int;
    assert(le16_spec(s, at) == b0 + 0x100 * b1);
    assert(le16_spec(s, at + 2) == b2 + 0x100 * s[at + 3]);
    assert(le16_spec(s, at + 4) == s[at + 4] + 0x100 * s[at + 5]);
    assert(le16_spec(s, at + 6) == s[at + 6] + 0x100 * s[at + 7]);
    assert(le32_spec(s, at) == bytes4(s, at));
    assert(le32_spec(s, at + 4) == bytes4(s, at + 4));
}

/// The little-endian readers of the two narrower widths, where only 2 or 4
/// bytes are left.
proof fn lemma_le_bytes_short(s: Seq<u8>, at: int)
    requires
        0 <= at,
        at + 2 <= s.len(),
    ensures
        le16_spec(s, at) == bytes2(s, at),
        at + 4 <= s.len() ==> le32_spec(s, at) == bytes4(s, at),
{
    if at + 4 <= s.len() {
        assert(le16_spec(s, at + 2) == s[at + 2] + 0x100 * s[at + 3]);
    }
}

/// The program header at byte `p` holds the `Elf64_Phdr` fields at their
/// fixed offsets, little-endian: `p_type` at 0, `p_flags` at 4, `p_offset`
/// at 8, `p_vaddr` at 16, `p_paddr` at 24, `p_filesz` at 32, `p_memsz` at
/// 40 and `p_align` at 48 (a stored 0 read as 1).
pub proof fn lemma_ph_layout(s: Seq<u8>, p: int)
    requires
        0 <= p,
        p + 56 <= s.len(),
    ensures
        parse_ph(s, p).p_type == bytes4(s, p),
        parse_ph(s, p).p_flags.0 == bytes4(s, p + 4),
        parse_ph(s, p).p_offset == bytes8(s, p + 8),
        parse_ph(s, p).p_vaddr.0 == bytes8(s, p + 16),
        parse_ph(s, p).p_paddr.0 == bytes8(s, p + 24),
        parse_ph(s, p).p_filesz == bytes8(s, p + 32),
        parse_ph(s, p).p_memsz == bytes8(s, p + 40),
        parse_ph(s, p).p_align == if bytes8(s, p + 48) == 0 {
            1
        } else {
            bytes8(s, p + 48)
        },
{
    lemma_le_bytes(s, p);
    lemma_le_bytes(s, p + 4);
    lemma_le_bytes(s, p + 8);
    lemma_le_bytes(s, p + 16);
    lemma_le_bytes(s, p + 24);
    lemma_le_bytes(s, p + 32);
    lemma_le_bytes(s, p + 40);
    lemma_le_bytes(s, p + 48);
}

/// The ELF header holds the `Elf64_Ehdr` fields at their fixed offsets,
/// little-endian: `e_type` at 16, `e_machine` at 18, `e_version` at 20,
/// `e_entry` at 24, `e_phoff` at 32, `e_shoff` at 40, `e_flags` at 48,
/// `e_ehsize` at 52, `e_phentsize` at 54, `e_phnum` at 56, `e_shentsize`
/// at 58, `e_shnum` at 60 and `e_shstrndx` at 62.
pub proof fn lemma_eh_layout(s: Seq<u8>)
    requires
        s.len() >= 64,
    ensures
        parse_eh(s).e_type == bytes2(s, 16),
        parse_eh(s).e_machine == bytes2(s, 18),
        parse_eh(s).e_version == bytes4(s, 20),
        parse_eh(s).e_entry.0 == bytes8(s, 24),
        parse_eh(s).e_phoff == bytes8(s, 32),
        parse_eh(s).e_shoff == bytes8(s, 40),
        parse_eh(s).e_flags == bytes4(s, 48),
        parse_eh(s).e_ehsize == bytes2(s, 52),
        parse_eh(s).e_phentsize == bytes2(s, 54),
        parse_eh(s).e_phnum == bytes2(s, 56),
        parse_eh(s).e_shentsize == bytes2(s, 58),
        parse_eh(s).e_shnum == bytes2(s, 60),
        parse_eh(s).e_shstrndx == bytes2(s, 62),
{
    lemma_le_bytes(s, 16);
    lemma_le_bytes(s, 24);
    lemma_le_bytes(s, 32);
    lemma_le_bytes(s, 40);
    lemma_le_bytes(s, 48);
    lemma_le_bytes(s, 54);
    lemma_le_bytes_short(s, 62);
    lemma_le_bytes_short(s, 58);
    lemma_le_bytes_short(s, 60);
    lemma_le_bytes_short(s, 56);
}

/// An image passes the header checks exactly when it is at least 64 bytes
/// long and its bytes say: `\x7FELF`, class 2 (64-bit), data 1 (little
/// endian), type 2 or 3 (`ET_EXEC`, `ET_DYN`), machine 62 (x86-64),
/// version 1, a header size within the image, a program-header entry size
/// of 56, and a program-header table (`e_phnum` entries from `e_phoff`)
/// within the image; the header it yields is the one at the fixed offsets.
pub proof fn lemma_elf_check_accepts(s: Seq<u8>)
    ensures
        elf_check(s) is Ok <==> {
            &&& s.len() >= 64
            &&& s[0] == 0x7f && s[1] == 0x45 && s[2] == 0x4c && s[3] == 0x46
            &&& s[4] == 2
            &&& s[5] == 1
            &&& (bytes2(s, 16) == 2 || bytes2(s, 16) == 3)
            &&& bytes2(s, 18) == 62
            &&& bytes4(s, 20) == 1
            &&& bytes2(s, 52) <= s.len()
            &&& bytes2(s, 54) == 56
            &&& (bytes8(s, 32) as usize) + 56 * bytes2(s, 56) <= s.len()
        },
        elf_check(s) matches Ok(eh) ==> eh == parse_eh(s),
{
    if s.len() >= 64 {
        lemma_eh_layout(s);
    }
}

/// The program-header table of an image: `num` headers of `stride` bytes
/// from byte `off`.
#[derive(Copy, Clone)]
pub struct PhSlice<'a> {
    b: &'a [u8],
    off: usize,
    num: usize,
    stride: usize,
}

impl<'a> PhSlice<'a> {
    /// The table lies inside the image.
    pub closed spec fn wf(&self) -> bool {
        &&& self.stride == PH_SIZE
        &&& self.off + self.num * self.stride <= self.b@.len()
    }

    /// The number of headers.
    pub closed spec fn count(&self) -> nat {
        self.num as nat
    }

    /// Header `i`.
    pub closed spec fn at(&self, i: int) -> Ph64 {
        parse_ph(self.b@, self.off + i * self.stride)
    }

    /// Header `i`, or `None` past the end.
    pub fn get(&self, i: usize) -> (r: Option<Ph64>)
        requires
            self.wf(),
        ensures
            r == if i < self.count() {
                Some(self.at(i as int))
            } else {
                None
            },
    {
        if i >= self.num {
            return None;
        }
        let total = self.b.len();
        proof {
            assert(i * PH_SIZE + PH_SIZE <= self.num * PH_SIZE) by (nonlinear_arith)
                requires
                    i < self.num,
            ;
            assert(total == self.b@.len());
        }
        let p = self.off + i * self.stride;
        Some(
            Ph64 {
                p_type: le32(self.b, p),
                p_flags: PFlags::from_bits(le32(self.b, p + 4)),
                p_offset: le64(self.b, p + 8),
                p_vaddr: VirtualAddress::new(le64(self.b, p + 16)),
                p_paddr: PhysicalAddress::new(le64(self.b, p + 24)),
                p_filesz: le64(self.b, p + 32),
                p_memsz: le64(self.b, p + 40),
                p_align: {
                    let a = le64(self.b, p + 48);
                    if a == 0 {
                        1
                    } else {
                        a
                    }
                },
            },
        )
    }

    /// The number of headers.
    pub fn len(&self) -> (r: usize)
        ensures
            r == self.count(),
    {
        self.num
    }
}

/// A checked ELF image: its bytes, header and program-header table.
pub struct ElfView<'a> {
    bytes: &'a [u8],
    pub eh: Eh64,
    ph: PhSlice<'a>,
}

impl<'a> ElfView<'a> {
    /// The program-header table is the one the header describes.
    pub closed spec fn wf(&self) -> bool {
        &&& self.ph.wf()
        &&& self.ph.b@ == self.bytes@
        &&& self.ph.off == self.eh.e_phoff as usize
        &&& self.ph.num == self.eh.e_phnum
    }

    /// The ELF header.
    pub closed spec fn header(&self) -> Eh64 {
        self.eh
    }

    /// The bytes of the image.
    pub closed spec fn image(&self) -> Seq<u8> {
        self.bytes@
    }

    /// The program headers, in table order.
    pub closed spec fn headers(&self) -> Seq<Ph64> {
        Seq::new(self.ph.num as nat, |i: int| self.ph.at(i))
    }

    /// A well-formed view holds `e_phnum` program headers, header `i` read
    /// from the image at `e_phoff + 56 * i` (the offset as a `usize`).
    pub proof fn lemma_headers(&self)
        requires
            self.wf(),
        ensures
            self.headers().len() == self.header().e_phnum,
            forall|i: int|
                0 <= i < self.headers().len() ==> #[trigger] self.headers()[i] == parse_ph(
                    self.image(),
                    (self.header().e_phoff as usize) + i * PH_SIZE,
                ),
    {
        assert forall|i: int| 0 <= i < self.headers().len() implies #[trigger] self.headers()[i]
            == parse_ph(self.image(), (self.header().e_phoff as usize) + i * PH_SIZE) by {
            assert(self.headers()[i] == self.ph.at(i));
        }
    }

    /// Every program header of a well-formed view holds the bytes of the
    /// image at its place in the table (`e_phoff + 56 * i`) at the fixed
    /// `Elf64_Phdr` offsets, little-endian.
    pub proof fn lemma_header_bytes(&self)
        requires
            self.wf(),
        ensures
            forall|i: int|
                0 <= i < self.headers().len() ==> {
                    let p = (self.header().e_phoff as usize) + i * PH_SIZE;
                    let s = self.image();
                    let h = #[trigger] self.headers()[i];
                    &&& h.p_type == bytes4(s, p)
                    &&& h.p_flags.0 == bytes4(s, p + 4)
                    &&& h.p_offset == bytes8(s, p + 8)
                    &&& h.p_vaddr.0 == bytes8(s, p + 16)
                    &&& h.p_paddr.0 == bytes8(s, p + 24)
                    &&& h.p_filesz == bytes8(s, p + 32)
                    &&& h.p_memsz == bytes8(s, p + 40)
                    &&& h.p_align == if bytes8(s, p + 48) == 0 {
                        1
                    } else {
                        bytes8(s, p + 48)
                    }
                },
    {
        self.lemma_headers();
        assert forall|i: int| 0 <= i < self.headers().len() implies {
            let p = (self.header().e_phoff as usize) + i * PH_SIZE;
            let s = self.image();
            let h = #[trigger] self.headers()[i];
            &&& h.p_type == bytes4(s, p)
            &&& h.p_flags.0 == bytes4(s, p + 4)
            &&& h.p_offset == bytes8(s, p + 8)
            &&& h.p_vaddr.0 == bytes8(s, p + 16)
            &&& h.p_paddr.0 == bytes8(s, p + 24)
            &&& h.p_filesz == bytes8(s, p + 32)
            &&& h.p_memsz == bytes8(s, p + 40)
            &&& h.p_align == if bytes8(s, p + 48) == 0 {
                1
            } else {
                bytes8(s, p + 48)
            }
        } by {
            let p = (self.header().e_phoff as usize) + i * PH_SIZE;
            assert(i * PH_SIZE + PH_SIZE <= self.ph.num * PH_SIZE) by (nonlinear_arith)
                requires
                    i < self.ph.num,
            ;
            lemma_ph_layout(self.image(), p);
        }
    }

    /// The `PT_LOAD` program headers, in table order.
    pub open spec fn loads(&self) -> Seq<Ph64> {
        self.headers().filter(|ph: Ph64| ph.p_type == PT_LOAD)
    }

    /// The program headers, one at a time.
    pub fn iter_ph(&self) -> (r: PhIter<'a>)
        requires
            self.wf(),
        ensures
            r.wf(),
            r.rest() == self.headers(),
    {
        let it = PhIter { ps: self.ph, i: 0 };
        proof {
            assert(it.rest() =~= self.headers());
        }
        it
    }

    /// The `PT_LOAD` program headers, in table order.
    pub fn iter_pt_load(&self) -> (r: Vec<Ph64>)
        requires
            self.wf(),
        ensures
            r@ == self.loads(),
    {
        let mut out: Vec<Ph64> = Vec::new();
        let mut i: usize = 0;
        while i < self.ph.len()
            invariant
                self.wf(),
                i <= self.ph.count(),
                out@ == self.headers().take(i as int).filter(|ph: Ph64| ph.p_type == PT_LOAD),
            decreases self.ph.count() - i,
        {
            let ph = self.ph.get(i).unwrap();
            proof {
                let h = self.headers();
                assert(h.take(i + 1) =~= h.take(i as int).push(h[i as int]));
                h.take(i as int).lemma_filter_push(h[i as int], |ph: Ph64| ph.p_type == PT_LOAD);
            }
            if ph.p_type == PT_LOAD {
                out.push(ph);
            }
            i = i + 1;
        }
        proof {
            assert(self.headers().take(i as int) =~= self.headers());
        }
        out
    }

    /// Whether the image is position independent (`ET_DYN`).
    pub fn is_pie(&self) -> (r: bool)
        ensures
            r == (self.header().e_type == ET_DYN),
    {
        self.eh.e_type == ET_DYN
    }

    /// The entry point.
    pub fn entry(&self) -> (r: VirtualAddress)
        ensures
            r == self.header().e_entry,
    {
        self.eh.e_entry
    }
}

/// The program headers of a table, handed out one at a time.
pub struct PhIter<'a> {
    ps: PhSlice<'a>,
    i: usize,
}

impl<'a> PhIter<'a> {
    /// The table is in bounds and the position is in the table.
    pub closed spec fn wf(&self) -> bool {
        self.ps.wf() && self.i <= self.ps.num
    }

    /// The headers still to come.
    pub closed spec fn rest(&self) -> Seq<Ph64> {
        Seq::new((self.ps.num - self.i) as nat, |k: int| self.ps.at(self.i + k))
    }

    /// The next header, or `None` at the end.
    pub fn next(&mut self) -> (r: Option<Ph64>)
        requires
            old(self).wf(),
        ensures
            final(self).wf(),
            old(self).rest().len() == 0 ==> r is None && final(self).rest() == old(self).rest(),
            old(self).rest().len() > 0 ==> r == Some(old(self).rest()[0]) && final(self).rest()
                == old(self).rest().drop_first(),
    {
        let v = match self.ps.get(self.i) {
            Some(v) => v,
            None => {
                return None;
            },
        };
        self.i = self.i + 1;
        proof {
            assert(self.rest() =~= old(self).rest().drop_first());
        }
        Some(v)
    }

    /// The number of headers still to come.
    pub fn size_hint(&self) -> (r: (usize, Option<usize>))
        requires
            self.wf(),
        ensures
            r.0 == self.rest().len(),
            r.1 == Some(r.0),
    {
        let r = self.ps.len().saturating_sub(self.i);
        (r, Some(r))
    }
}

/// Checks the ELF64 header of `bytes` and locates its program-header table.
///
/// # Errors
/// The first check that fails, in the order of [`elf_check`].
pub fn elf64_view(bytes: &[u8]) -> (r: Result<ElfView<'_>, ElfErr>)
    ensures
        match elf_check(bytes@) {
            Ok(eh) => r matches Ok(v) && v.wf() && v.header() == eh && v.image() == bytes@,
            Err(e) => r == Err::<ElfView<'_>, ElfErr>(e),
        },
{
    if bytes.len() < 64 {
        return Err(ElfErr::TooShort);
    }
    if !(bytes[0] == 0x7f && bytes[1] == 0x45 && bytes[2] == 0x4c && bytes[3] == 0x46) {
        return Err(ElfErr::BadMagic);
    }
    if bytes[4] != 2 {
        return Err(ElfErr::BadClass);
    }
    if bytes[5] != 1 {
        return Err(ElfErr::BadHeader);
    }
    let eh = Eh64 {
        e_type: le16(bytes, 16),
        e_machine: le16(bytes, 18),
        e_version: le32(bytes, 20),
        e_entry: VirtualAddress::new(le64(bytes, 24)),
        e_phoff: le64(bytes, 32),
        e_shoff: le64(bytes, 40),
        e_flags: le32(bytes, 48),
        e_ehsize: le16(bytes, 52),
        e_phentsize: le16(bytes, 54),
        e_phnum: le16(bytes, 56),
        e_shentsize: le16(bytes, 58),
        e_shnum: le16(bytes, 60),
        e_shstrndx: le16(bytes, 62),
    };
    if !(eh.e_type == ET_EXEC || eh.e_type == ET_DYN) {
        return Err(ElfErr::BadHeader);
    }
    if eh.e_machine != EM_X86_64 {
        return Err(ElfErr::BadMachine);
    }
    if eh.e_version != 1 {
        return Err(ElfErr::BadHeader);
    }
    if eh.e_ehsize as usize > bytes.len() {
        return Err(ElfErr::BadHeader);
    }
    if eh.e_phentsize as usize != PH_SIZE {
        return Err(ElfErr::BadHeader);
    }
    let phoff = eh.e_phoff as usize;
    let phnum = eh.e_phnum as usize;
    let entsz = eh.e_phentsize as usize;
    let prod = match phnum.checked_mul(entsz) {
        Some(p) => p,
        None => {
            return Err(ElfErr::Oob);
        },
    };
    let need = match phoff.checked_add(prod) {
        Some(n) => n,
        None => {
            return Err(ElfErr::Oob);
        },
    };
    if need > bytes.len() {
        return Err(ElfErr::Oob);
    }
    let ph = PhSlice { b: bytes, off: phoff, num: phnum, stride: entsz };
    Ok(ElfView { bytes, eh, ph })
}

} // verus!
