//! # Physical frames: access to page-table frames and frame allocation
//!
//! [`PhysMapper`] gives read/write access to the 512 entries of a page-table
//! frame; [`PhysFrameAlloc`] hands out and takes back 4 KiB frames. Both are
//! implemented by the kernel for real memory; [`FrameMemory`] and
//! [`FrameStack`] implement them over ordinary vectors.

use crate::addresses::{PhysicalAddress, PhysicalPage, Size4K};
use crate::page_entry_bits::fits_phys;
use core::marker::PhantomData;
use vstd::prelude::*;

verus! {

/// Access to the page-table entries stored in physical 4 KiB frames.
///
/// `entry(t, i)` is the `i`-th 64-bit entry of the table in the frame whose
/// base address is `t`.
pub trait PhysMapper {
    /// The `i`-th entry of the table stored in the frame at `table`.
    spec fn entry(&self, table: u64, i: u64) -> u64;

    /// Reads entry `i` of the table in `table`.
    fn read_entry(&self, table: PhysicalPage<Size4K>, i: usize) -> (r: u64)
        requires
            i < 512,
        ensures
            r == self.entry(table.base.0, i as u64),
    ;

    /// Writes entry `i` of the table in `table`; nothing else changes.
    fn write_entry(&mut self, table: PhysicalPage<Size4K>, i: usize, v: u64)
        requires
            i < 512,
        ensures
            forall|t: u64, j: u64| #[trigger]
                final(self).entry(t, j) == if t == table.base.0 && j == i as u64 {
                    v
                } else {
                    old(self).entry(t, j)
                },
    ;

    /// Clears every entry of the table in `table`; nothing else changes.
    fn zero_table(&mut self, table: PhysicalPage<Size4K>)
        ensures
            forall|t: u64, j: u64| #[trigger]
                final(self).entry(t, j) == if t == table.base.0 {
                    0
                } else {
                    old(self).entry(t, j)
                },
    ;
}

/// A source of free 4 KiB physical frames.
pub trait PhysFrameAlloc {
    /// The frames that the allocator may still hand out.
    spec fn free_frames(&self) -> Set<u64>;

    /// Hands out a free frame, or `None`.
    fn alloc_4k(&mut self) -> (r: Option<PhysicalPage<Size4K>>)
        ensures
            match r {
                Some(p) => {
                    &&& old(self).free_frames().contains(p.base.0)
                    &&& final(self).free_frames() == old(self).free_frames().remove(p.base.0)
                    &&& p.wf()
                    &&& fits_phys(p.base.0)
                },
                None => final(self).free_frames() == old(self).free_frames(),
            },
    ;

    /// Takes back a frame; a frame that is free already stays free once.
    fn free_4k(&mut self, page: PhysicalPage<Size4K>)
        requires
            page.wf(),
            fits_phys(page.base.0),
        ensures
            final(self).free_frames() == old(self).free_frames().insert(page.base.0),
    ;
}

/// Page-table frames held in memory, keyed by their base address.
///
/// A frame that was never written reads as all zeros.
pub struct FrameMemory {
    frames: Vec<(u64, Vec<u64>)>,
}

impl FrameMemory {
    #[verifier::type_invariant]
    spec fn inv(self) -> bool {
        &&& forall|k: int| 0 <= k < self.frames.len() ==> #[trigger] self.frames@[k].1.len() == 512
        &&& forall|k1: int, k2: int|
            0 <= k1 < self.frames.len() && 0 <= k2 < self.frames.len() && k1 != k2
                ==> #[trigger] self.frames@[k1].0 != #[trigger] self.frames@[k2].0
    }

    /// Whether the frame at `t` has been written.
    spec fn holds(self, t: u64) -> bool {
        exists|k: int| 0 <= k < self.frames.len() && #[trigger] self.frames@[k].0 == t
    }

    /// The slot of the frame at `t`.
    spec fn slot(self, t: u64) -> int {
        choose|k: int| 0 <= k < self.frames.len() && #[trigger] self.frames@[k].0 == t
    }

    /// An empty memory: every entry of every frame is zero.
    pub fn new() -> (r: Self)
        ensures
            forall|t: u64, j: u64| #[trigger] r.entry(t, j) == 0,
    {
        FrameMemory { frames: Vec::new() }
    }

    /// The slot of the frame at `t`, if it has been written.
    fn find(&self, t: u64) -> (r: Option<usize>)
        ensures
            match r {
                Some(k) => k < self.frames.len() && self.frames@[k as int].0 == t && self.slot(t)
                    == k,
                None => !self.holds(t),
            },
    {
        proof {
            use_type_invariant(self);
        }
        let mut k: usize = 0;
        while k < self.frames.len()
            invariant
                k <= self.frames.len(),
                forall|m: int| 0 <= m < k ==> #[trigger] self.frames@[m].0 != t,
                forall|k1: int, k2: int|
                    0 <= k1 < self.frames.len() && 0 <= k2 < self.frames.len() && k1 != k2
                        ==> #[trigger] self.frames@[k1].0 != #[trigger] self.frames@[k2].0,
            decreases self.frames.len() - k,
        {
            if self.frames[k].0 == t {
                proof {
                    let kk = self.slot(t);
                    assert(self.frames@[k as int].0 == t);
                    assert(0 <= kk < self.frames.len() && self.frames@[kk].0 == t);
                    if kk != k {
                        assert(self.frames@[kk].0 != self.frames@[k as int].0);
                    }
                }
                return Some(k);
            }
            k = k + 1;
        }
        None
    }
}

impl PhysMapper for FrameMemory {
    closed spec fn entry(&self, table: u64, i: u64) -> u64 {
        if self.holds(table) && i < 512 {
            self.frames@[self.slot(table)].1@[i as int]
        } else {
            0
        }
    }

    fn read_entry(&self, table: PhysicalPage<Size4K>, i: usize) -> (r: u64) {
        proof {
            use_type_invariant(self);
        }
        match self.find(table.base.0) {
            Some(k) => {
                assert(self.frames@[k as int].1.len() == 512);
                self.frames[k].1[i]
            },
            None => 0,
        }
    }

    fn write_entry(&mut self, table: PhysicalPage<Size4K>, i: usize, v: u64) {
        proof {
            use_type_invariant(&*self);
        }
        let t = table.base.0;
        let found = self.find(t);
        let mut frames: Vec<(u64, Vec<u64>)> = Vec::new();
        std::mem::swap(&mut frames, &mut self.frames);
        let ghost before = frames@;
        match found {
            Some(k) => {
                assert(frames@ == old(self).frames@);
                let mut tbl = frames[k].1.clone();
                tbl.set(i, v);
                frames.set(k, (t, tbl));
                std::mem::swap(&mut frames, &mut self.frames);
                proof {
                    assert forall|t2: u64, j: u64| #[trigger]
                        self.entry(t2, j) == if t2 == t && j == i as u64 {
                            v
                        } else {
                            old(self).entry(t2, j)
                        } by {
                        if old(self).holds(t2) {
                            let k2 = old(self).slot(t2);
                            assert(self.frames@[k2].0 == t2);
                            assert(self.holds(t2));
                        }
                        if self.holds(t2) {
                            let k2 = self.slot(t2);
                            assert(before[k2].0 == t2);
                            assert(old(self).holds(t2));
                        }
                    }
                }
            },
            None => {
                let mut tbl: Vec<u64> = Vec::new();
                let mut n: usize = 0;
                while n < 512
                    invariant
                        n <= 512,
                        tbl.len() == n,
                        forall|m: int| 0 <= m < n ==> tbl@[m] == 0,
                    decreases 512 - n,
                {
                    tbl.push(0);
                    n = n + 1;
                }
                tbl.set(i, v);
                frames.push((t, tbl));
                proof {
                    let last = before.len() as int;
                    assert forall|k1: int, k2: int|
                        0 <= k1 < frames.len() && 0 <= k2 < frames.len() && k1 != k2
                            implies #[trigger] frames@[k1].0 != #[trigger] frames@[k2].0 by {
                        if k1 == last {
                            assert(before[k2].0 != t);
                        } else if k2 == last {
                            assert(before[k1].0 != t);
                        }
                    }
                }
                std::mem::swap(&mut frames, &mut self.frames);
                proof {
                    let last = before.len() as int;
                    assert(self.frames@[last].0 == t);
                    assert forall|t2: u64, j: u64| #[trigger]
                        self.entry(t2, j) == if t2 == t && j == i as u64 {
                            v
                        } else {
                            old(self).entry(t2, j)
                        } by {
                        if t2 == t {
                            assert(self.holds(t2));
                            let k2 = self.slot(t2);
                            if k2 != last {
                                assert(self.frames@[k2].0 != self.frames@[last].0);
                            }
                        } else {
                            if old(self).holds(t2) {
                                let k2 = old(self).slot(t2);
                                assert(self.frames@[k2].0 == t2);
                                assert(self.holds(t2));
                            }
                            if self.holds(t2) {
                                let k2 = self.slot(t2);
                                assert(k2 != last);
                                assert(before[k2].0 == t2);
                                assert(old(self).holds(t2));
                            }
                        }
                    }
                }
            },
        }
    }

    fn zero_table(&mut self, table: PhysicalPage<Size4K>) {
        let mut n: usize = 0;
        while n < 512
            invariant
                n <= 512,
                forall|t: u64, j: u64| #[trigger]
                    self.entry(t, j) == if t == table.base.0 && j < n {
                        0
                    } else {
                        old(self).entry(t, j)
                    },
            decreases 512 - n,
        {
            self.write_entry(table, n, 0);
            n = n + 1;
        }
        proof {
            assert forall|t: u64, j: u64| #[trigger]
                self.entry(t, j) == if t == table.base.0 {
                    0
                } else {
                    old(self).entry(t, j)
                } by {
                if t == table.base.0 && j >= 512 {
                    assert(!(j < 512));
                    if old(self).holds(t) {
                    }
                    assert(old(self).entry(t, j) == 0);
                }
            }
        }
    }
}

/// A stack of free 4 KiB frames.
pub struct FrameStack {
    free: Vec<u64>,
}

impl FrameStack {
    #[verifier::type_invariant]
    spec fn inv(self) -> bool {
        &&& forall|k: int|
            0 <= k < self.free.len() ==> #[trigger] self.free@[k] % 0x1000 == 0 && fits_phys(
                self.free@[k],
            )
        &&& forall|k1: int, k2: int|
            0 <= k1 < self.free.len() && 0 <= k2 < self.free.len() && k1 != k2
                ==> #[trigger] self.free@[k1] != #[trigger] self.free@[k2]
    }

    /// The free frames in stack order: the last is handed out first.
    pub closed spec fn stack(&self) -> Seq<u64> {
        self.free@
    }

    /// The `count` consecutive frames that start at `first`.
    pub fn new_range(first: u64, count: u64) -> (r: Self)
        requires
            first % 0x1000 == 0,
            first + count * 0x1000 <= 0x10_0000_0000_0000,
        ensures
            r.free_frames() == Set::new(
                |f: u64| first <= f < first + count * 0x1000 && (f - first) % 0x1000 == 0,
            ),
            r.stack() == Seq::new(count as nat, |k: int| (first + k * 0x1000) as u64),
    {
        let mut free: Vec<u64> = Vec::new();
        let mut n: u64 = 0;
        while n < count
            invariant
                n <= count,
                first % 0x1000 == 0,
                first + count * 0x1000 <= 0x10_0000_0000_0000,
                free.len() == n,
                forall|k: int| 0 <= k < n ==> #[trigger] free@[k] == first + k * 0x1000,
            decreases count - n,
        {
            proof {
                assert(first + n * 0x1000 < first + count * 0x1000) by (nonlinear_arith)
                    requires
                        n < count,
                ;
            }
            free.push(first + n * 0x1000);
            n = n + 1;
        }
        proof {
            assert forall|k: int| 0 <= k < free.len() implies #[trigger] free@[k] % 0x1000 == 0
                && fits_phys(free@[k]) by {
                assert(free@[k] == first + k * 0x1000);
                assert((first + k * 0x1000) % 0x1000 == 0) by (nonlinear_arith)
                    requires
                        first % 0x1000 == 0,
                        k >= 0,
                ;
                assert(k * 0x1000 < count * 0x1000) by (nonlinear_arith)
                    requires
                        k < count,
                ;
            }
            assert forall|k1: int, k2: int|
                0 <= k1 < free.len() && 0 <= k2 < free.len() && k1 != k2 implies #[trigger] free@[k1]
                != #[trigger] free@[k2] by {
                assert(free@[k1] == first + k1 * 0x1000);
                assert(free@[k2] == first + k2 * 0x1000);
                assert(k1 * 0x1000 != k2 * 0x1000) by (nonlinear_arith)
                    requires
                        k1 != k2,
                ;
            }
        }
        let r = FrameStack { free };
        proof {
            let target = Set::new(
                |f: u64| first <= f < first + count * 0x1000 && (f - first) % 0x1000 == 0,
            );
            assert forall|f: u64| r.free_frames().contains(f) <==> target.contains(f) by {
                if r.free_frames().contains(f) {
                    let k = choose|k: int| 0 <= k < r.free.len() && r.free@[k] == f;
                    assert(f == first + k * 0x1000);
                    assert((k * 0x1000) % 0x1000 == 0 && k * 0x1000 < count * 0x1000)
                        by (nonlinear_arith)
                        requires
                            0 <= k < count,
                    ;
                }
                if target.contains(f) {
                    let k = ((f - first) / 0x1000) as int;
                    assert(k * 0x1000 == f - first && 0 <= k < count) by (nonlinear_arith)
                        requires
                            (f - first) % 0x1000 == 0,
                            first <= f < first + count * 0x1000,
                            k == (f - first) / 0x1000,
                    ;
                    assert(r.free@[k] == f);
                }
            }
            assert(r.free_frames() =~= target);
        }
        r
    }
}

impl PhysFrameAlloc for FrameStack {
    closed spec fn free_frames(&self) -> Set<u64> {
        Set::new(|f: u64| exists|k: int| 0 <= k < self.free.len() && self.free@[k] == f)
    }

    /// Pops the frame on top of the stack; `None` exactly when the stack is
    /// empty.
    fn alloc_4k(&mut self) -> (r: Option<PhysicalPage<Size4K>>)
        ensures
            r is None <==> old(self).stack().len() == 0,
            r is None ==> final(self).stack() == old(self).stack(),
            r matches Some(p) ==> p.base.0 == old(self).stack().last() && final(self).stack()
                == old(self).stack().drop_last(),
    {
        proof {
            use_type_invariant(&*self);
        }
        let mut free: Vec<u64> = Vec::new();
        std::mem::swap(&mut free, &mut self.free);
        let popped = free.pop();
        std::mem::swap(&mut free, &mut self.free);
        match popped {
            Some(f) => {
                proof {
                    let n = old(self).free.len() - 1;
                    assert(old(self).free@[n] == f);
                    assert forall|g: u64|
                        self.free_frames().contains(g) <==> old(self).free_frames().remove(
                            f,
                        ).contains(g) by {
                        if self.free_frames().contains(g) {
                            let k = choose|k: int| 0 <= k < self.free.len() && self.free@[k] == g;
                            assert(old(self).free@[k] == g);
                            assert(k != n);
                        }
                        if old(self).free_frames().remove(f).contains(g) {
                            let k = choose|k: int|
                                0 <= k < old(self).free.len() && old(self).free@[k] == g;
                            assert(k != n);
                            assert(self.free@[k] == g);
                        }
                    }
                    assert(self.free_frames() =~= old(self).free_frames().remove(f));
                }
                Some(PhysicalPage { base: PhysicalAddress(f), size: PhantomData })
            },
            None => {
                proof {
                    assert(self.free_frames() =~= old(self).free_frames());
                }
                None
            },
        }
    }

    /// Pushes the frame on top of the stack, unless it is on the stack
    /// already.
    fn free_4k(&mut self, page: PhysicalPage<Size4K>)
        ensures
            final(self).stack() == if old(self).stack().contains(page.base.0) {
                old(self).stack()
            } else {
                old(self).stack().push(page.base.0)
            },
    {
        proof {
            use_type_invariant(&*self);
        }
        let mut k: usize = 0;
        while k < self.free.len()
            invariant
                k <= self.free.len(),
                self.free@ == old(self).free@,
                forall|j: int| 0 <= j < k ==> self.free@[j] != page.base.0,
            decreases self.free.len() - k,
        {
            if self.free[k] == page.base.0 {
                proof {
                    assert(old(self).stack().contains(page.base.0)) by {
                        assert(old(self).stack()[k as int] == page.base.0);
                    }
                    assert(self.free_frames().contains(page.base.0)) by {
                        assert(self.free@[k as int] == page.base.0);
                    }
                    assert(self.free_frames() =~= old(self).free_frames().insert(page.base.0));
                }
                return;
            }
            k = k + 1;
        }
        let ghost before = self.free@;
        proof {
            assert(!old(self).stack().contains(page.base.0));
        }
        let mut free: Vec<u64> = Vec::new();
        std::mem::swap(&mut free, &mut self.free);
        free.push(page.base.0);
        proof {
            let last = before.len() as int;
            assert forall|k1: int, k2: int|
                0 <= k1 < free.len() && 0 <= k2 < free.len() && k1 != k2 implies #[trigger] free@[k1]
                != #[trigger] free@[k2] by {
                if k1 == last {
                    assert(before[k2] != page.base.0);
                } else if k2 == last {
                    assert(before[k1] != page.base.0);
                }
            }
        }
        std::mem::swap(&mut free, &mut self.free);
        proof {
            assert forall|g: u64|
                self.free_frames().contains(g) <==> old(self).free_frames().insert(
                    page.base.0,
                ).contains(g) by {
                if self.free_frames().contains(g) && g != page.base.0 {
                    let k = choose|k: int| 0 <= k < self.free.len() && self.free@[k] == g;
                    assert(k < before.len());
                    assert(before[k] == g);
                }
                if old(self).free_frames().contains(g) {
                    let k = choose|k: int| 0 <= k < before.len() && before[k] == g;
                    assert(self.free@[k] == g);
                }
                if g == page.base.0 {
                    assert(self.free@[before.len() as int] == g);
                }
            }
            assert(self.free_frames() =~= old(self).free_frames().insert(page.base.0));
        }
    }
}

} // verus!
