//! # Loader helpers: load bias, segment bytes, mapping flags

use crate::kernel::elf::{ElfErr, ElfView, PFlags, Ph64};
use vstd::prelude::*;

verus! {

/// The lowest `p_vaddr` among `loads` (`u64::MAX` for none).
pub open spec fn min_vaddr(loads: Seq<Ph64>) -> u64
    decreases loads.len(),
{
    if loads.len() == 0 {
        u64::MAX
    } else {
        let m = min_vaddr(loads.drop_last());
        let v = loads.last().p_vaddr.0;
        if v < m {
            v
        } else {
            m
        }
    }
}

/// The largest `p_align` among `loads`, and at least 4 KiB.
pub open spec fn max_align(loads: Seq<Ph64>) -> u64
    decreases loads.len(),
{
    if loads.len() == 0 {
        0x1000
    } else {
        let m = max_align(loads.drop_last());
        let a = loads.last().p_align;
        if a > m {
            a
        } else {
            m
        }
    }
}

/// The lowest address of a non-empty list of headers is at or below every
/// header's `p_vaddr` and is one of them.
pub proof fn lemma_min_vaddr(loads: Seq<Ph64>)
    requires
        loads.len() > 0,
    ensures
        forall|i: int| 0 <= i < loads.len() ==> min_vaddr(loads) <= #[trigger] loads[i].p_vaddr.0,
        exists|i: int| 0 <= i < loads.len() && min_vaddr(loads) == #[trigger] loads[i].p_vaddr.0,
    decreases loads.len(),
{
    let d = loads.drop_last();
    let last = loads.len() - 1;
    if d.len() > 0 {
        lemma_min_vaddr(d);
        assert forall|i: int| 0 <= i < loads.len() implies min_vaddr(loads) <= #[trigger] loads[i].p_vaddr.0 by {
            if i < last {
                assert(loads[i] == d[i]);
            }
        }
        if min_vaddr(loads) != loads[last].p_vaddr.0 {
            let w = choose|i: int| 0 <= i < d.len() && min_vaddr(d) == #[trigger] d[i].p_vaddr.0;
            assert(loads[w] == d[w]);
        }
    } else {
        assert(min_vaddr(d) == u64::MAX);
        assert(loads.last() == loads[0]);
        assert(min_vaddr(loads) == loads[0].p_vaddr.0);
    }
}

/// The largest alignment of a list of headers is at least 4 KiB, at least
/// every header's `p_align`, and is 4 KiB or one of them.
pub proof fn lemma_max_align(loads: Seq<Ph64>)
    ensures
        max_align(loads) >= 0x1000,
        forall|i: int| 0 <= i < loads.len() ==> max_align(loads) >= #[trigger] loads[i].p_align,
        max_align(loads) == 0x1000 || exists|i: int|
            0 <= i < loads.len() && max_align(loads) == #[trigger] loads[i].p_align,
    decreases loads.len(),
{
    if loads.len() > 0 {
        let d = loads.drop_last();
        let last = loads.len() - 1;
        lemma_max_align(d);
        assert forall|i: int| 0 <= i < loads.len() implies max_align(loads) >= #[trigger] loads[i].p_align by {
            if i < last {
                assert(loads[i] == d[i]);
            }
        }
        if max_align(loads) != 0x1000 && max_align(loads) != loads[last].p_align {
            let w = choose|i: int| 0 <= i < d.len() && max_align(d) == #[trigger] d[i].p_align;
            assert(loads[w] == d[w]);
        }
    }
}

/// The load bias of an image: 0 for a fixed (`ET_EXEC`) image; for a PIE the
/// lowest `PT_LOAD` address rounded down by the largest alignment (at least
/// 4 KiB), or `None` when it has no `PT_LOAD` header.
pub fn pie_bias(view: &ElfView<'_>) -> (r: Option<u64>)
    requires
        view.wf(),
    ensures
        r == if view.header().e_type != crate::kernel::elf::ET_DYN {
            Some(0u64)
        } else if view.loads().len() == 0 {
            None
        } else {
            Some(min_vaddr(view.loads()) & !((max_align(view.loads()) - 1) as u64))
        },
        view.loads().len() > 0 ==> {
            let loads = view.loads();
            &&& forall|i: int| 0 <= i < loads.len() ==> min_vaddr(loads) <= #[trigger] loads[i].p_vaddr.0
            &&& exists|i: int| 0 <= i < loads.len() && min_vaddr(loads) == #[trigger] loads[i].p_vaddr.0
            &&& max_align(loads) >= 0x1000
            &&& forall|i: int| 0 <= i < loads.len() ==> max_align(loads) >= #[trigger] loads[i].p_align
            &&& (max_align(loads) == 0x1000 || exists|i: int|
                0 <= i < loads.len() && max_align(loads) == #[trigger] loads[i].p_align)
        },
{
    proof {
        if view.loads().len() > 0 {
            lemma_min_vaddr(view.loads());
        }
        lemma_max_align(view.loads());
    }
    if !view.is_pie() {
        return Some(0);
    }
    let loads = view.iter_pt_load();
    let mut min: u64 = u64::MAX;
    let mut max_al: u64 = 0x1000;
    let mut k: usize = 0;
    while k < loads.len()
        invariant
            k <= loads@.len(),
            min == min_vaddr(loads@.take(k as int)),
            max_al == max_align(loads@.take(k as int)),
            max_al >= 0x1000,
        decreases loads@.len() - k,
    {
        let ph = loads[k];
        proof {
            assert(loads@.take(k + 1).drop_last() =~= loads@.take(k as int));
        }
        let va = ph.p_vaddr.as_u64();
        if va < min {
            min = va;
        }
        if ph.p_align > max_al {
            max_al = ph.p_align;
        }
        k = k + 1;
    }
    proof {
        assert(loads@.take(k as int) =~= loads@);
    }
    if loads.len() == 0 {
        None
    } else {
        Some(min & !(max_al - 1))
    }
}

/// The bytes of `bytes` that back the file part of `ph`
/// (`[p_offset, p_offset + p_filesz)`).
///
/// # Errors
/// [`ElfErr::Oob`] when that range does not lie inside `bytes`.
pub fn segment_file_bytes<'a>(bytes: &'a [u8], ph: &Ph64) -> (r: Result<&'a [u8], ElfErr>)
    ensures
        match r {
            Ok(s) => ph.p_offset + ph.p_filesz <= bytes@.len() && s@ == bytes@.subrange(
                ph.p_offset as int,
                ph.p_offset + ph.p_filesz,
            ),
            Err(e) => e == ElfErr::Oob && ph.p_offset + ph.p_filesz > bytes@.len(),
        },
{
    let n = bytes.len();
    if ph.p_offset > usize::MAX as u64 {
        return Err(ElfErr::Oob);
    }
    if ph.p_filesz > usize::MAX as u64 {
        return Err(ElfErr::Oob);
    }
    let off = ph.p_offset as usize;
    let sz = ph.p_filesz as usize;
    let end = match off.checked_add(sz) {
        Some(e) => e,
        None => {
            return Err(ElfErr::Oob);
        },
    };
    if end > bytes.len() {
        return Err(ElfErr::Oob);
    }
    Ok(&bytes[off..end])
}

/// How a segment is mapped: bit 0 = user, bit 1 = write, bit 2 = execute.
#[derive(Copy, Clone, Debug, PartialEq, Eq, Structural)]
pub struct VmFlags(pub u64);

impl VmFlags {
    /// No flag set.
    pub fn new() -> Self
        returns
            VmFlags(0),
    {
        VmFlags(0)
    }

    /// Accessible from user mode.
    #[verifier::allow_in_spec]
    pub fn user(&self) -> bool
        returns
            self.0 & 1 != 0,
    {
        self.0 & 1 != 0
    }

    /// Writable.
    #[verifier::allow_in_spec]
    pub fn write(&self) -> bool
        returns
            self.0 & 2 != 0,
    {
        self.0 & 2 != 0
    }

    /// Executable.
    #[verifier::allow_in_spec]
    pub fn execute(&self) -> bool
        returns
            self.0 & 4 != 0,
    {
        self.0 & 4 != 0
    }

    /// A copy with the user bit set to `v`.
    #[verifier::allow_in_spec]
    pub fn with_user(self, v: bool) -> Self
        returns
            VmFlags(if v { self.0 | 1 } else { self.0 & !1u64 }),
    {
        VmFlags(if v { self.0 | 1 } else { self.0 & !1u64 })
    }

    /// A copy with the write bit set to `v`.
    #[verifier::allow_in_spec]
    pub fn with_write(self, v: bool) -> Self
        returns
            VmFlags(if v { self.0 | 2 } else { self.0 & !2u64 }),
    {
        VmFlags(if v { self.0 | 2 } else { self.0 & !2u64 })
    }

    /// A copy with the execute bit set to `v`.
    #[verifier::allow_in_spec]
    pub fn with_execute(self, v: bool) -> Self
        returns
            VmFlags(if v { self.0 | 4 } else { self.0 & !4u64 }),
    {
        VmFlags(if v { self.0 | 4 } else { self.0 & !4u64 })
    }
}

/// The mapping flags of a segment with `p_flags` `value`: user, writable
/// and executable as the segment says.
pub open spec fn vm_flags_of(value: PFlags) -> VmFlags {
    VmFlags(1u64 | (if value.write() { 2u64 } else { 0u64 }) | (if value.execute() {
        4u64
    } else {
        0u64
    }))
}

proof fn lemma_flag_bits(w: bool, x: bool)
    by (bit_vector)
    ensures
        ((1u64 | (if w { 2u64 } else { 0u64 }) | (if x { 4u64 } else { 0u64 })) & 1) != 0,
        (((1u64 | (if w { 2u64 } else { 0u64 }) | (if x { 4u64 } else { 0u64 })) & 2) != 0) == w,
        (((1u64 | (if w { 2u64 } else { 0u64 }) | (if x { 4u64 } else { 0u64 })) & 4) != 0) == x,
{
}

/// A segment is always mapped for user mode, and writable and executable
/// exactly where its `p_flags` say so.
pub proof fn lemma_vm_flags_of(value: PFlags)
    ensures
        vm_flags_of(value).user(),
        vm_flags_of(value).write() == value.write(),
        vm_flags_of(value).execute() == value.execute(),
{
    lemma_flag_bits(value.write(), value.execute());
}

impl From<PFlags> for VmFlags {
    fn from(value: PFlags) -> (r: Self) {
        VmFlags(1u64 | (if value.write() { 2u64 } else { 0u64 }) | (if value.execute() {
            4u64
        } else {
            0u64
        }))
    }
}

impl vstd::std_specs::convert::FromSpecImpl<PFlags> for VmFlags {
    open spec fn obeys_from_spec() -> bool {
        true
    }

    open spec fn from_spec(v: PFlags) -> Self {
        vm_flags_of(v)
    }
}

} // verus!
