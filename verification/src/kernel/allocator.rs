//! # Kernel heap: first-fit free-list allocator
//!
//! The heap is a list of free blocks sorted by address. Each block starts
//! with a header of [`LIST_NODE_SIZE`] bytes (payload size and link) and is
//! followed by its payload. Allocation takes the first block whose payload
//! can hold the aligned request and gives the parts before and after the
//! allocation back to the list; freeing inserts a block in address order
//! and merges it with adjacent neighbours.
//!
//! The list is kept as a vector of [`FreeBlock`]s: the addresses are plain
//! numbers, and nothing here reads or writes the heap memory itself.

use vstd::prelude::*;

verus! {

/// The size of a free-block header: the payload size and the link to the
/// next block, one machine word each.
pub const LIST_NODE_SIZE: usize = 16;

/// The smallest alignment that an allocation gets (one machine word).
pub const MIN_ALIGN: usize = 8;

/// A free block: the address of its header and the size of the payload
/// that follows the header.
#[derive(Copy, Clone, Debug, PartialEq, Eq, Structural)]
pub struct FreeBlock {
    /// Address of the block header.
    pub addr: usize,
    /// Payload size in bytes (the header not included).
    pub size: usize,
}

/// The end of the block `b` (header plus payload).
pub open spec fn block_end(b: FreeBlock) -> int {
    b.addr + LIST_NODE_SIZE + b.size
}

/// The blocks are sorted by address and none runs past the address space.
pub open spec fn blocks_wf(s: Seq<FreeBlock>) -> bool {
    &&& forall|i: int, j: int| 0 <= i <= j < s.len() ==> s[i].addr <= s[j].addr
    &&& forall|i: int| 0 <= i < s.len() ==> block_end(#[trigger] s[i]) <= usize::MAX
}

/// The index at which a block with header address `a` is inserted: after
/// every block with a lower address.
pub open spec fn insert_pos(s: Seq<FreeBlock>, a: usize) -> int
    decreases s.len(),
{
    if s.len() == 0 || s[0].addr >= a {
        0
    } else {
        1 + insert_pos(s.subrange(1, s.len() as int), a)
    }
}

/// Merges the block at `k` with the block after it when the first ends
/// exactly where the second begins.
pub open spec fn merge_next(s: Seq<FreeBlock>, k: int) -> Seq<FreeBlock> {
    if 0 <= k && k + 1 < s.len() && block_end(s[k]) == s[k + 1].addr {
        s.update(
            k,
            FreeBlock { addr: s[k].addr, size: (s[k].size + LIST_NODE_SIZE + s[k + 1].size) as usize },
        ).remove(k + 1)
    } else {
        s
    }
}

/// The list after the block at `k` was merged with its successor and then
/// with its predecessor, where they touch.
pub open spec fn coalesced(s: Seq<FreeBlock>, k: int) -> Seq<FreeBlock> {
    let t = merge_next(s, k);
    if k > 0 {
        merge_next(t, k - 1)
    } else {
        t
    }
}

/// The list after the region `[addr, addr + size)` was given back: nothing
/// for a region smaller than a header, otherwise a block inserted in address
/// order and merged with its neighbours.
pub open spec fn added(s: Seq<FreeBlock>, addr: usize, size: usize) -> Seq<FreeBlock> {
    if size < LIST_NODE_SIZE {
        s
    } else {
        let k = insert_pos(s, addr);
        coalesced(
            s.insert(k, FreeBlock { addr, size: (size - LIST_NODE_SIZE) as usize }),
            k,
        )
    }
}

/// `al` is a power of two.
pub open spec fn is_pow2(al: usize) -> bool {
    al > 0 && al & ((al - 1) as usize) == 0
}

/// `a` rounded up to a multiple of the power of two `al`.
pub open spec fn align_up_spec(a: usize, al: usize) -> usize {
    ((a + al - 1) as usize) & !((al - 1) as usize)
}

/// `a + b`, or `usize::MAX` where the sum does not fit.
pub open spec fn sat_add(a: usize, b: usize) -> usize {
    if a + b > usize::MAX {
        usize::MAX
    } else {
        (a + b) as usize
    }
}

/// The size and alignment that a request of `size` and `align` is served
/// with: at least one byte, aligned to at least a machine word.
pub open spec fn req_size(size: usize) -> usize {
    if size < 1 {
        1
    } else {
        size
    }
}

/// See [`req_size`].
pub open spec fn req_align(align: usize) -> usize {
    if align < MIN_ALIGN {
        MIN_ALIGN
    } else {
        align
    }
}

/// Where the allocation would start in block `b`.
pub open spec fn alloc_start(b: FreeBlock, al: usize) -> usize {
    align_up_spec((b.addr + LIST_NODE_SIZE) as usize, al)
}

/// Where the allocation would end in block `b`.
pub open spec fn alloc_end(b: FreeBlock, sz: usize, al: usize) -> usize {
    sat_add(alloc_start(b, al), sz)
}

/// Block `b` can serve the request.
pub open spec fn fits(b: FreeBlock, sz: usize, al: usize) -> bool {
    alloc_end(b, sz, al) <= block_end(b)
}

/// The first block of `s` that can serve the request, if any.
pub open spec fn first_fit(s: Seq<FreeBlock>, sz: usize, al: usize) -> Option<int>
    decreases s.len(),
{
    if s.len() == 0 {
        None
    } else if fits(s[0], sz, al) {
        Some(0)
    } else {
        match first_fit(s.subrange(1, s.len() as int), sz, al) {
            Some(i) => Some(i + 1),
            None => None,
        }
    }
}

/// The list after serving a request from the block at `i`: the block
/// leaves, and the space before and after the allocation comes back.
pub open spec fn split_out(s: Seq<FreeBlock>, i: int, sz: usize, al: usize) -> Seq<FreeBlock> {
    let b = s[i];
    let start = alloc_start(b, al);
    let end = alloc_end(b, sz, al);
    let head = (start - (b.addr + LIST_NODE_SIZE)) as usize;
    let tail = (block_end(b) - end) as usize;
    let s1 = s.remove(i);
    let s2 = if tail >= LIST_NODE_SIZE {
        added(s1, end, tail)
    } else {
        s1
    };
    if head >= LIST_NODE_SIZE {
        added(s2, b.addr, head)
    } else {
        s2
    }
}

/// Rounding up to a power of two lands in `[a, a + al)` on a multiple of
/// `al`.
pub proof fn lemma_align_up(a: usize, al: usize)
    requires
        is_pow2(al),
        a + al - 1 <= usize::MAX,
    ensures
        align_up_spec(a, al) >= a,
        align_up_spec(a, al) - a < al,
        align_up_spec(a, al) & ((al - 1) as usize) == 0,
{
    let s = (a + al - 1) as usize;
    assert(s == a + al - 1);
    assert(al > 0 && al & ((al - 1) as usize) == 0 && s == a + al - 1 ==> (s & !((al - 1) as usize))
        >= a && (s & !((al - 1) as usize)) - a < al && (s & !((al - 1) as usize)) & ((al - 1) as usize)
        == 0) by (bit_vector);
}

/// `insert_pos` is the first index whose address is not below `a`.
pub proof fn lemma_insert_pos(s: Seq<FreeBlock>, a: usize, i: int)
    requires
        0 <= i <= s.len(),
        forall|j: int| 0 <= j < i ==> s[j].addr < a,
        i < s.len() ==> s[i].addr >= a,
    ensures
        insert_pos(s, a) == i,
    decreases s.len(),
{
    if s.len() > 0 && i > 0 {
        let t = s.subrange(1, s.len() as int);
        assert forall|j: int| 0 <= j < i - 1 implies t[j].addr < a by {
            assert(t[j] == s[j + 1]);
        }
        if i - 1 < t.len() {
            assert(t[i - 1] == s[i]);
        }
        lemma_insert_pos(t, a, i - 1);
    }
}

/// `first_fit` finds the first block that fits.
pub proof fn lemma_first_fit(s: Seq<FreeBlock>, sz: usize, al: usize, i: int)
    requires
        0 <= i <= s.len(),
        forall|j: int| 0 <= j < i ==> !fits(#[trigger] s[j], sz, al),
    ensures
        i < s.len() && fits(s[i], sz, al) ==> first_fit(s, sz, al) == Some(i),
        i == s.len() ==> first_fit(s, sz, al) is None,
    decreases s.len(),
{
    if s.len() > 0 && i > 0 {
        let t = s.subrange(1, s.len() as int);
        assert forall|j: int| 0 <= j < i - 1 implies !fits(#[trigger] t[j], sz, al) by {
            assert(t[j] == s[j + 1]);
        }
        if i - 1 < t.len() {
            assert(t[i - 1] == s[i]);
        }
        lemma_first_fit(t, sz, al, i - 1);
    }
}

/// First fit: the block that [`first_fit`] picks can hold the request and
/// no block before it can; the allocation in it starts after the header, on
/// a multiple of the alignment, and ends inside the block. Where no block
/// can hold the request, none is picked.
pub proof fn lemma_first_fit_placement(s: Seq<FreeBlock>, sz: usize, al: usize)
    requires
        is_pow2(al),
        forall|j: int| 0 <= j < s.len() ==> #[trigger] s[j].addr + LIST_NODE_SIZE + al <= usize::MAX,
        forall|j: int| 0 <= j < s.len() ==> block_end(#[trigger] s[j]) < usize::MAX,
    ensures
        match first_fit(s, sz, al) {
            Some(i) => {
                &&& 0 <= i < s.len()
                &&& forall|j: int| 0 <= j < i ==> !fits(#[trigger] s[j], sz, al)
                &&& s[i].addr + LIST_NODE_SIZE <= alloc_start(s[i], al)
                &&& alloc_start(s[i], al) & ((al - 1) as usize) == 0
                &&& alloc_start(s[i], al) + sz <= block_end(s[i])
            },
            None => forall|j: int| 0 <= j < s.len() ==> !fits(#[trigger] s[j], sz, al),
        },
    decreases s.len(),
{
    if s.len() > 0 {
        let t = s.subrange(1, s.len() as int);
        assert forall|j: int| 0 <= j < t.len() implies #[trigger] t[j].addr + LIST_NODE_SIZE + al
            <= usize::MAX && block_end(t[j]) < usize::MAX by {
            assert(t[j] == s[j + 1]);
        }
        lemma_first_fit_placement(t, sz, al);
        if !fits(s[0], sz, al) {
            match first_fit(t, sz, al) {
                Some(i) => {
                    assert(s[i + 1] == t[i]);
                    assert forall|j: int| 0 <= j < i + 1 implies !fits(#[trigger] s[j], sz, al) by {
                        if j > 0 {
                            assert(s[j] == t[j - 1]);
                        }
                    }
                },
                None => {
                    assert forall|j: int| 0 <= j < s.len() implies !fits(#[trigger] s[j], sz, al) by {
                        if j > 0 {
                            assert(s[j] == t[j - 1]);
                        }
                    }
                },
            }
        }
        match first_fit(s, sz, al) {
            Some(i) => {
                lemma_align_up((s[i].addr + LIST_NODE_SIZE) as usize, al);
            },
            None => {},
        }
    }
}

/// Merging keeps the list sorted and in bounds.
pub proof fn lemma_merge_next_wf(s: Seq<FreeBlock>, k: int)
    requires
        blocks_wf(s),
    ensures
        blocks_wf(merge_next(s, k)),
        merge_next(s, k).len() <= s.len(),
{
    if 0 <= k && k + 1 < s.len() && block_end(s[k]) == s[k + 1].addr {
        let t = merge_next(s, k);
        assert forall|i: int, j: int| 0 <= i <= j < t.len() implies t[i].addr <= t[j].addr by {
            let si = if i <= k { i } else { i + 1 };
            let sj = if j <= k { j } else { j + 1 };
            assert(t[i].addr == s[si].addr);
            assert(t[j].addr == s[sj].addr);
        }
        assert forall|i: int| 0 <= i < t.len() implies block_end(#[trigger] t[i]) <= usize::MAX by {
            if i == k {
                assert(block_end(t[i]) == block_end(s[k + 1]));
            } else if i < k {
                assert(t[i] == s[i]);
            } else {
                assert(t[i] == s[i + 1]);
            }
        }
    }
}

/// Giving a region back keeps the list sorted and in bounds.
pub proof fn lemma_added_wf(s: Seq<FreeBlock>, addr: usize, size: usize)
    requires
        blocks_wf(s),
        addr + size <= usize::MAX,
    ensures
        blocks_wf(added(s, addr, size)),
{
    if size >= LIST_NODE_SIZE {
        let k = insert_pos(s, addr);
        lemma_insert_pos_props(s, addr);
        let nb = FreeBlock { addr, size: (size - LIST_NODE_SIZE) as usize };
        let t = s.insert(k, nb);
        assert forall|i: int, j: int| 0 <= i <= j < t.len() implies t[i].addr <= t[j].addr by {
            if i < k {
                assert(t[i] == s[i]);
            } else if i > k {
                assert(t[i] == s[i - 1]);
            }
            if j < k {
                assert(t[j] == s[j]);
            } else if j > k {
                assert(t[j] == s[j - 1]);
            }
        }
        assert forall|i: int| 0 <= i < t.len() implies block_end(#[trigger] t[i]) <= usize::MAX by {
            if i < k {
                assert(t[i] == s[i]);
            } else if i > k {
                assert(t[i] == s[i - 1]);
            }
        }
        lemma_merge_next_wf(t, k);
        lemma_merge_next_wf(merge_next(t, k), k - 1);
    }
}

/// The bytes that the blocks cover, headers included.
pub open spec fn covered(s: Seq<FreeBlock>) -> int
    decreases s.len(),
{
    if s.len() == 0 {
        0
    } else {
        LIST_NODE_SIZE + s[0].size + covered(s.skip(1))
    }
}

/// The bytes covered by two lists one after the other add up.
proof fn lemma_covered_concat(a: Seq<FreeBlock>, b: Seq<FreeBlock>)
    ensures
        covered(a + b) == covered(a) + covered(b),
    decreases a.len(),
{
    if a.len() > 0 {
        assert((a + b).skip(1) =~= a.skip(1) + b);
        lemma_covered_concat(a.skip(1), b);
    } else {
        assert(a + b =~= b);
    }
}

/// The bytes covered by a list, split around its block `k`.
proof fn lemma_covered_at(s: Seq<FreeBlock>, k: int)
    requires
        0 <= k < s.len(),
    ensures
        covered(s) == covered(s.take(k)) + LIST_NODE_SIZE + s[k].size + covered(s.skip(k + 1)),
{
    let u = s.skip(k);
    assert(s =~= s.take(k) + u);
    lemma_covered_concat(s.take(k), u);
    assert(u[0] == s[k]);
    assert(u.skip(1) =~= s.skip(k + 1));
}

/// Merging two touching blocks covers the same bytes.
proof fn lemma_merge_next_covered(s: Seq<FreeBlock>, k: int)
    requires
        blocks_wf(s),
    ensures
        covered(merge_next(s, k)) == covered(s),
{
    if 0 <= k && k + 1 < s.len() && block_end(s[k]) == s[k + 1].addr {
        let t = merge_next(s, k);
        assert(block_end(s[k + 1]) <= usize::MAX);
        lemma_covered_at(s, k);
        lemma_covered_at(s.skip(k + 1), 0);
        assert(s.skip(k + 1).take(0) =~= Seq::<FreeBlock>::empty());
        assert(s.skip(k + 1).skip(1) =~= s.skip(k + 2));
        lemma_covered_at(t, k);
        assert(t.take(k) =~= s.take(k));
        assert(t.skip(k + 1) =~= s.skip(k + 2));
    }
}

/// Giving a region of at least a header's size back adds exactly its bytes
/// to the bytes covered; a smaller region adds nothing.
pub proof fn lemma_added_covered(s: Seq<FreeBlock>, addr: usize, size: usize)
    requires
        blocks_wf(s),
        addr + size <= usize::MAX,
    ensures
        covered(added(s, addr, size)) == covered(s) + if size < LIST_NODE_SIZE {
            0
        } else {
            size as int
        },
{
    if size >= LIST_NODE_SIZE {
        let k = insert_pos(s, addr);
        lemma_insert_pos_props(s, addr);
        let nb = FreeBlock { addr, size: (size - LIST_NODE_SIZE) as usize };
        let t = s.insert(k, nb);
        let u = t.skip(k);
        assert(t =~= s.take(k) + u);
        lemma_covered_concat(s.take(k), u);
        assert(u[0] == nb);
        assert(u.skip(1) =~= s.skip(k));
        assert(s =~= s.take(k) + s.skip(k));
        lemma_covered_concat(s.take(k), s.skip(k));
        assert(blocks_wf(t)) by {
            assert forall|i: int, j: int| 0 <= i <= j < t.len() implies t[i].addr <= t[j].addr by {
                if i < k {
                    assert(t[i] == s[i]);
                } else if i > k {
                    assert(t[i] == s[i - 1]);
                }
                if j < k {
                    assert(t[j] == s[j]);
                } else if j > k {
                    assert(t[j] == s[j - 1]);
                }
            }
            assert forall|i: int| 0 <= i < t.len() implies block_end(#[trigger] t[i]) <= usize::MAX by {
                if i < k {
                    assert(t[i] == s[i]);
                } else if i > k {
                    assert(t[i] == s[i - 1]);
                }
            }
        }
        lemma_merge_next_covered(t, k);
        lemma_merge_next_wf(t, k);
        lemma_merge_next_covered(merge_next(t, k), k - 1);
    }
}

/// The insertion index lies in the list, after the lower addresses and
/// before the others.
pub proof fn lemma_insert_pos_props(s: Seq<FreeBlock>, a: usize)
    ensures
        0 <= insert_pos(s, a) <= s.len(),
        forall|j: int| 0 <= j < insert_pos(s, a) ==> s[j].addr < a,
        insert_pos(s, a) < s.len() ==> s[insert_pos(s, a)].addr >= a,
    decreases s.len(),
{
    if s.len() > 0 && s[0].addr < a {
        let t = s.subrange(1, s.len() as int);
        lemma_insert_pos_props(t, a);
        assert forall|j: int| 0 <= j < insert_pos(s, a) implies s[j].addr < a by {
            if j > 0 {
                assert(s[j] == t[j - 1]);
            }
        }
        if insert_pos(s, a) < s.len() {
            assert(s[insert_pos(s, a)] == t[insert_pos(t, a)]);
        }
    }
}

/// A first-fit free-list allocator over a heap given by its address range.
pub struct FreeListAllocator {
    blocks: Vec<FreeBlock>,
    initialized: bool,
}

impl View for FreeListAllocator {
    type V = Seq<FreeBlock>;

    closed spec fn view(&self) -> Seq<FreeBlock> {
        self.blocks@
    }
}

impl FreeListAllocator {
    /// The free list is sorted by address and in bounds.
    pub closed spec fn wf(&self) -> bool {
        blocks_wf(self.blocks@)
    }

    /// Whether the heap has been handed to the allocator.
    pub closed spec fn is_initialized(&self) -> bool {
        self.initialized
    }

    /// An allocator with no heap yet.
    pub fn new() -> (r: Self)
        ensures
            r.wf(),
            r@ == Seq::<FreeBlock>::empty(),
            !r.is_initialized(),
    {
        FreeListAllocator { blocks: Vec::new(), initialized: false }
    }

    /// Whether the heap has been handed to the allocator.
    pub fn initialized(&self) -> (r: bool)
        ensures
            r == self.is_initialized(),
    {
        self.initialized
    }

    /// The free blocks, in address order.
    pub fn free_blocks(&self) -> (r: &Vec<FreeBlock>)
        ensures
            r@ == self@,
    {
        &self.blocks
    }

    /// Hands the heap `[heap_start, heap_start + heap_size)` to the
    /// allocator: the free list becomes one block covering it (a heap
    /// smaller than a header leaves an empty payload).
    pub fn init(&mut self, heap_start: usize, heap_size: usize)
        requires
            heap_start + LIST_NODE_SIZE + heap_size <= usize::MAX,
        ensures
            final(self).wf(),
            final(self).is_initialized(),
            final(self)@ == seq![
                FreeBlock {
                    addr: heap_start,
                    size: (if heap_size >= LIST_NODE_SIZE {
                        heap_size - LIST_NODE_SIZE
                    } else {
                        0
                    }) as usize,
                },
            ],
    {
        let payload_size = heap_size.saturating_sub(LIST_NODE_SIZE);
        let mut v: Vec<FreeBlock> = Vec::new();
        v.push(FreeBlock { addr: heap_start, size: payload_size });
        self.blocks = v;
        self.initialized = true;
    }

    /// Merges the block at `k` with its successor and then with its
    /// predecessor, where they touch.
    pub fn coalesce(&mut self, k: usize)
        requires
            old(self).wf(),
            k < old(self)@.len(),
        ensures
            final(self).wf(),
            final(self)@ == coalesced(old(self)@, k as int),
            final(self).is_initialized() == old(self).is_initialized(),
    {
        proof {
            lemma_merge_next_wf(self.blocks@, k as int);
            assert(k < self.blocks.len());
        }
        if k < self.blocks.len() - 1 {
            let curr = self.blocks[k];
            let next = self.blocks[k + 1];
            if curr.addr + LIST_NODE_SIZE + curr.size == next.addr {
                self.blocks.set(k, FreeBlock { addr: curr.addr, size: curr.size + LIST_NODE_SIZE + next.size });
                self.blocks.remove(k + 1);
            }
        }
        proof {
            assert(self.blocks@ =~= merge_next(old(self)@, k as int));
            lemma_merge_next_wf(self.blocks@, k as int - 1);
        }
        if k > 0 && k < self.blocks.len() {
            let prev = self.blocks[k - 1];
            let curr = self.blocks[k];
            if prev.addr + LIST_NODE_SIZE + prev.size == curr.addr {
                self.blocks.set(k - 1, FreeBlock { addr: prev.addr, size: prev.size + LIST_NODE_SIZE + curr.size });
                self.blocks.remove(k);
            }
        }
        proof {
            assert(self.blocks@ =~= coalesced(old(self)@, k as int));
        }
    }

    /// Gives the region `[addr, addr + size)` back to the free list, merged
    /// with the blocks it touches, so that the list covers exactly `size`
    /// more bytes; a region smaller than a header is dropped.
    pub fn add_free_region(&mut self, addr: usize, size: usize)
        requires
            old(self).wf(),
            addr + size <= usize::MAX,
        ensures
            final(self).wf(),
            final(self)@ == added(old(self)@, addr, size),
            covered(final(self)@) == covered(old(self)@) + if size < LIST_NODE_SIZE {
                0
            } else {
                size as int
            },
            final(self).is_initialized() == old(self).is_initialized(),
    {
        proof {
            lemma_added_covered(old(self)@, addr, size);
        }
        if size < LIST_NODE_SIZE {
            return;
        }
        let mut k: usize = 0;
        while k < self.blocks.len() && self.blocks[k].addr < addr
            invariant
                k <= self.blocks.len(),
                self.blocks@ == old(self)@,
                forall|j: int| 0 <= j < k ==> self.blocks@[j].addr < addr,
            decreases self.blocks.len() - k,
        {
            k = k + 1;
        }
        proof {
            lemma_insert_pos(self.blocks@, addr, k as int);
            lemma_added_wf(old(self)@, addr, size);
            lemma_insert_pos_props(self.blocks@, addr);
            let nb = FreeBlock { addr, size: (size - LIST_NODE_SIZE) as usize };
            let t = self.blocks@.insert(k as int, nb);
            assert forall|i: int, j: int| 0 <= i <= j < t.len() implies t[i].addr <= t[j].addr by {
                if i < k {
                    assert(t[i] == self.blocks@[i]);
                } else if i > k {
                    assert(t[i] == self.blocks@[i - 1]);
                }
                if j < k {
                    assert(t[j] == self.blocks@[j]);
                } else if j > k {
                    assert(t[j] == self.blocks@[j - 1]);
                }
            }
            assert forall|i: int| 0 <= i < t.len() implies block_end(#[trigger] t[i]) <= usize::MAX by {
                if i < k {
                    assert(t[i] == self.blocks@[i]);
                } else if i > k {
                    assert(t[i] == self.blocks@[i - 1]);
                }
            }
        }
        self.blocks.insert(k, FreeBlock { addr, size: size - LIST_NODE_SIZE });
        self.coalesce(k);
    }

    /// Serves a request of `size` bytes aligned to `align` from the first
    /// block that can hold it; returns the address, or 0 when no block can.
    ///
    /// The request is served with at least one byte and at least word
    /// alignment. The parts of the block before and after the allocation
    /// that can hold a header go back to the free list.
    pub fn find_region(&mut self, size: usize, align: usize) -> (r: usize)
        requires
            old(self).wf(),
            is_pow2(align),
            forall|i: int|
                0 <= i < old(self)@.len() ==> #[trigger] old(self)@[i].addr + LIST_NODE_SIZE
                    + req_align(align) <= usize::MAX,
        ensures
            final(self).wf(),
            final(self).is_initialized() == old(self).is_initialized(),
            match first_fit(old(self)@, req_size(size), req_align(align)) {
                Some(i) => r == alloc_start(old(self)@[i], req_align(align)) && final(self)@
                    == split_out(old(self)@, i, req_size(size), req_align(align)),
                None => r == 0 && final(self)@ == old(self)@,
            },
    {
        let sz: usize = if size < 1 {
            1
        } else {
            size
        };
        let al: usize = if align < MIN_ALIGN {
            MIN_ALIGN
        } else {
            align
        };
        proof {
            assert(is_pow2(al)) by {
                assert(8usize & 7usize == 0) by (bit_vector);
            }
        }
        let mut i: usize = 0;
        while i < self.blocks.len()
            invariant
                i <= self.blocks.len(),
                self.blocks@ == old(self)@,
                self.initialized == old(self).initialized,
                blocks_wf(self.blocks@),
                is_pow2(al),
                al == req_align(align),
                sz == req_size(size),
                forall|j: int|
                    0 <= j < old(self)@.len() ==> #[trigger] old(self)@[j].addr + LIST_NODE_SIZE
                        + al <= usize::MAX,
                forall|j: int| 0 <= j < i ==> !fits(#[trigger] self.blocks@[j], sz, al),
            decreases self.blocks.len() - i,
        {
            let b = self.blocks[i];
            let region_start = b.addr + LIST_NODE_SIZE;
            proof {
                lemma_align_up(region_start, al);
            }
            let alloc_start = (region_start + (al - 1)) & !(al - 1);
            let alloc_end = alloc_start.saturating_add(sz);
            let region_end = b.addr + LIST_NODE_SIZE + b.size;
            if alloc_end <= region_end {
                proof {
                    lemma_first_fit(old(self)@, sz, al, i as int);
                }
                let head_remainder = alloc_start - region_start;
                let tail_remainder = region_end - alloc_end;
                self.blocks.remove(i);
                proof {
                    assert forall|p: int, q: int| 0 <= p <= q < self.blocks@.len() implies self.blocks@[p].addr <= self.blocks@[q].addr by {
                        let sp = if p < i { p } else { p + 1 };
                        let sq = if q < i { q } else { q + 1 };
                        assert(self.blocks@[p] == old(self)@[sp]);
                        assert(self.blocks@[q] == old(self)@[sq]);
                    }
                    assert forall|p: int| 0 <= p < self.blocks@.len() implies block_end(#[trigger] self.blocks@[p]) <= usize::MAX by {
                        let sp = if p < i { p } else { p + 1 };
                        assert(self.blocks@[p] == old(self)@[sp]);
                    }
                }
                if tail_remainder >= LIST_NODE_SIZE {
                    self.add_free_region(alloc_end, tail_remainder);
                }
                if head_remainder >= LIST_NODE_SIZE {
                    self.add_free_region(b.addr, head_remainder);
                }
                return alloc_start;
            }
            i = i + 1;
        }
        proof {
            lemma_first_fit(old(self)@, sz, al, i as int);
        }
        0
    }

    /// Gives back the allocation at `ptr` of `size` bytes: the header goes
    /// right before it. A null pointer or an empty size is ignored.
    pub fn deallocate(&mut self, ptr: usize, size: usize, align: usize)
        requires
            old(self).wf(),
            ptr != 0 && size != 0 ==> ptr >= LIST_NODE_SIZE && ptr + size <= usize::MAX,
        ensures
            final(self).wf(),
            final(self).is_initialized() == old(self).is_initialized(),
            final(self)@ == if ptr == 0 || size == 0 {
                old(self)@
            } else {
                added(
                    old(self)@,
                    (ptr - LIST_NODE_SIZE) as usize,
                    (size + LIST_NODE_SIZE) as usize,
                )
            },
    {
        if ptr == 0 || size == 0 {
            return;
        }
        let header_addr = ptr - LIST_NODE_SIZE;
        self.add_free_region(header_addr, size + LIST_NODE_SIZE);
    }
}

/// The kernel heap: a [`FreeListAllocator`] together with the heap range it
/// takes over on first use.
pub struct KernelAllocator {
    inner: FreeListAllocator,
    heap_start: usize,
    heap_size: usize,
}

/// The free list of a heap that has just been handed over.
pub open spec fn initial_blocks(heap_start: usize, heap_size: usize) -> Seq<FreeBlock> {
    seq![
        FreeBlock {
            addr: heap_start,
            size: (if heap_size >= LIST_NODE_SIZE {
                heap_size - LIST_NODE_SIZE
            } else {
                0
            }) as usize,
        },
    ]
}

impl KernelAllocator {
    /// The allocator is well formed and its heap range is in bounds.
    pub closed spec fn wf(&self) -> bool {
        &&& self.inner.wf()
        &&& self.heap_start + LIST_NODE_SIZE + self.heap_size <= usize::MAX
    }

    /// The free list that the next request is served from: the current one,
    /// or the whole heap if nothing was served yet.
    pub closed spec fn blocks(&self) -> Seq<FreeBlock> {
        if self.inner.is_initialized() {
            self.inner@
        } else {
            initial_blocks(self.heap_start, self.heap_size)
        }
    }

    /// A heap allocator for `[heap_start, heap_start + heap_size)`; the heap
    /// is taken over on the first request.
    pub fn new(heap_start: usize, heap_size: usize) -> (r: Self)
        requires
            heap_start + LIST_NODE_SIZE + heap_size <= usize::MAX,
        ensures
            r.wf(),
            r.blocks() == initial_blocks(heap_start, heap_size),
    {
        KernelAllocator { inner: FreeListAllocator::new(), heap_start, heap_size }
    }

    /// Takes over the heap if that has not happened yet.
    fn ensure_init(&mut self)
        requires
            old(self).wf(),
        ensures
            final(self).wf(),
            final(self).inner.is_initialized(),
            final(self).inner@ == old(self).blocks(),
            final(self).blocks() == old(self).blocks(),
            final(self).heap_start == old(self).heap_start,
            final(self).heap_size == old(self).heap_size,
    {
        if !self.inner.initialized() {
            self.inner.init(self.heap_start, self.heap_size);
        }
    }

    /// Serves a request of `size` bytes aligned to `align` (a power of two);
    /// returns the address, or 0 when the heap cannot serve it.
    pub fn allocate(&mut self, size: usize, align: usize) -> (r: usize)
        requires
            old(self).wf(),
            is_pow2(align),
            forall|i: int|
                0 <= i < old(self).blocks().len() ==> #[trigger] old(self).blocks()[i].addr
                    + LIST_NODE_SIZE + req_align(align) <= usize::MAX,
        ensures
            final(self).wf(),
            match first_fit(old(self).blocks(), req_size(size), req_align(align)) {
                Some(i) => r == alloc_start(old(self).blocks()[i], req_align(align))
                    && final(self).blocks() == split_out(
                    old(self).blocks(),
                    i,
                    req_size(size),
                    req_align(align),
                ),
                None => r == 0 && final(self).blocks() == old(self).blocks(),
            },
    {
        self.ensure_init();
        self.inner.find_region(size, align)
    }

    /// Gives back the allocation at `ptr` of `size` bytes; a null pointer is
    /// ignored.
    pub fn dealloc(&mut self, ptr: usize, size: usize, align: usize)
        requires
            old(self).wf(),
            ptr != 0 && size != 0 ==> ptr >= LIST_NODE_SIZE && ptr + size <= usize::MAX,
        ensures
            final(self).wf(),
            final(self).blocks() == if ptr == 0 {
                old(self).blocks()
            } else if size == 0 {
                old(self).blocks()
            } else {
                added(
                    old(self).blocks(),
                    (ptr - LIST_NODE_SIZE) as usize,
                    (size + LIST_NODE_SIZE) as usize,
                )
            },
    {
        if ptr == 0 {
            return;
        }
        self.ensure_init();
        self.inner.deallocate(ptr, size, align);
    }
}

} // verus!
