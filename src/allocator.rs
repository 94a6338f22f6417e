//! Heap allocator with power-of-two size classes.
//!
//! Small requests are served from per-class free lists of previously freed
//! blocks; a block of a class is always exactly the class size and aligned to
//! it. Requests that fit no class, and classes whose free list is empty, are
//! served by a first-fit linked-list allocator that owns the heap region.
//!
//! The free lists are stacks of block addresses kept beside the heap: the last
//! element of a list is its head, so freeing pushes and allocating pops.
use vstd::prelude::*;

verus! {

#[verifier::external_type_specification]
#[verifier::external_body]
pub struct ExHeap(linked_list_allocator::Heap);

/// Relies on `linked_list_allocator::Heap::empty`: a heap that owns no memory yet.
#[verifier::external_body]
fn empty_heap() -> (h: linked_list_allocator::Heap) {
    linked_list_allocator::Heap::empty()
}

/// Room the fallback heap needs above a request: it rounds a size up to at
/// least two words and to a multiple of a word before aligning it.
pub const FALLBACK_SLACK: usize = 32;

/// A request the fallback heap can take without overflowing its own rounding.
pub open spec fn fallback_fits(size: usize, align: usize) -> bool {
    size + align + FALLBACK_SLACK <= isize::MAX
}

/// Relies on `linked_list_allocator::Heap::allocate_first_fit`: on success the
/// returned block starts at a non-null address aligned to `align`. Its layout
/// rounding unwraps a `Layout`, which `fallback_fits` keeps valid.
#[verifier::external_body]
fn heap_allocate(heap: &mut linked_list_allocator::Heap, size: usize, align: usize) -> (r: Option<
    usize,
>)
    requires
        fallback_fits(size, align),
    ensures
        r matches Some(a) ==> a != 0 && a % align == 0,
{
    match core::alloc::Layout::from_size_align(size, align) {
        Ok(layout) => heap.allocate_first_fit(layout).ok().map(|p| p.addr().get()),
        Err(_) => None,
    }
}

/// Relies on `linked_list_allocator::Heap::used`: the bytes it has handed out.
#[verifier::external_body]
fn heap_used(heap: &linked_list_allocator::Heap) -> (r: usize) {
    heap.used()
}

/// Smallest block size: a freed block must be able to hold one machine word.
pub const MIN_BLOCK_SIZE: usize = 8;

/// `n` is a power of two.
pub open spec fn is_pow2(n: nat) -> bool
    decreases n,
{
    if n <= 1 {
        n == 1
    } else {
        n % 2 == 0 && is_pow2(n / 2)
    }
}

/// A table of size classes: non-empty, strictly ascending powers of two, each
/// large enough to hold a link.
pub open spec fn valid_block_sizes(sizes: Seq<usize>) -> bool {
    &&& sizes.len() > 0
    &&& forall|i: int| 0 <= i < sizes.len() ==> sizes[i] >= MIN_BLOCK_SIZE && is_pow2(#[trigger] sizes[i] as nat)
    &&& forall|i: int, j: int| 0 <= i < j < sizes.len() ==> sizes[i] < sizes[j]
}

/// The block size a request needs: the larger of its size and alignment.
pub open spec fn required_size(size: usize, align: usize) -> usize {
    if size >= align {
        size
    } else {
        align
    }
}

/// `k` is the smallest class whose block size is at least `req`.
pub open spec fn is_class_for(sizes: Seq<usize>, req: usize, k: int) -> bool {
    &&& 0 <= k < sizes.len()
    &&& sizes[k] >= req
    &&& forall|j: int| 0 <= j < k ==> sizes[j] < req
}

/// The size class of a request of `size` bytes aligned to `align`, if any
/// class is large enough.
pub open spec fn class_of(sizes: Seq<usize>, size: usize, align: usize) -> Option<int> {
    let req = required_size(size, align);
    if exists|k: int| is_class_for(sizes, req, k) {
        Some(choose|k: int| is_class_for(sizes, req, k))
    } else {
        None
    }
}

/// The size classes used by default: 8 to 2048 bytes.
pub fn default_block_sizes() -> (r: Vec<usize>)
    ensures
        r@ == seq![8usize, 16, 32, 64, 128, 256, 512, 1024, 2048],
        valid_block_sizes(r@),
{
    let r = vec![8usize, 16, 32, 64, 128, 256, 512, 1024, 2048];
    proof {
        reveal_with_fuel(is_pow2, 12);
    }
    r
}

/// A class `k` satisfying `is_class_for` is the one `class_of` names.
proof fn lemma_class_of_is(sizes: Seq<usize>, size: usize, align: usize, k: int)
    requires
        is_class_for(sizes, required_size(size, align), k),
    ensures
        class_of(sizes, size, align) == Some(k),
{
    let req = required_size(size, align);
    let c = choose|c: int| is_class_for(sizes, req, c);
    assert(is_class_for(sizes, req, c));
    if c < k {
        assert(sizes[c] < req);
    } else if k < c {
        assert(sizes[k] < req);
    }
}

/// Chooses the size class for a request of `size` bytes aligned to `align`.
///
/// Returns the index of the smallest block size that is at least
/// `max(size, align)`, or `None` when the request is larger than every class.
pub fn list_index(block_sizes: &Vec<usize>, size: usize, align: usize) -> (r: Option<usize>)
    ensures
        r matches Some(k) ==> class_of(block_sizes@, size, align) == Some(k as int),
        r is None ==> class_of(block_sizes@, size, align) is None,
{
    let required_block_size = if size >= align {
        size
    } else {
        align
    };
    let mut i: usize = 0;
    while i < block_sizes.len()
        invariant
            i <= block_sizes.len(),
            required_block_size == required_size(size, align),
            forall|j: int| 0 <= j < i ==> block_sizes@[j] < required_block_size,
        decreases block_sizes.len() - i,
    {
        if block_sizes[i] >= required_block_size {
            proof {
                lemma_class_of_is(block_sizes@, size, align, i as int);
            }
            return Some(i);
        }
        i += 1;
    }
    assert(!exists|k: int| is_class_for(block_sizes@, required_block_size, k));
    None
}

/// The block allocator: one free list per size class and a fallback heap.
pub struct Allocator {
    block_sizes: Vec<usize>,
    list_heads: Vec<Vec<usize>>,
    fallback_allocator: linked_list_allocator::Heap,
}

impl Allocator {
    /// The size classes, ascending.
    pub closed spec fn block_sizes(&self) -> Seq<usize> {
        self.block_sizes@
    }

    /// The free list of each class; the last address of a list is its head.
    pub closed spec fn free_lists(&self) -> Seq<Seq<usize>> {
        self.list_heads@.map_values(|l: Vec<usize>| l@)
    }

    /// The fallback heap, as an opaque value: equal values mean the heap was
    /// left alone.
    pub closed spec fn fallback(&self) -> linked_list_allocator::Heap {
        self.fallback_allocator
    }

    /// The class table is valid, there is one free list per class, and every
    /// block in a class's list is non-null and aligned to the class size.
    pub open spec fn wf(&self) -> bool {
        &&& valid_block_sizes(self.block_sizes())
        &&& self.free_lists().len() == self.block_sizes().len()
        &&& blocks_aligned(self.block_sizes(), self.free_lists())
    }

    /// The size class that `allocate` and `deallocate` use for a request.
    pub open spec fn class(&self, size: usize, align: usize) -> Option<int> {
        class_of(self.block_sizes(), size, align)
    }

    /// Creates an allocator with the default size classes, empty free lists and
    /// a fallback heap that owns no memory yet.
    pub fn new() -> (r: Self)
        ensures
            r.wf(),
            r.block_sizes() == seq![8usize, 16, 32, 64, 128, 256, 512, 1024, 2048],
            forall|k: int| 0 <= k < r.free_lists().len() ==> (#[trigger] r.free_lists()[k]).len() == 0,
    {
        let sizes = default_block_sizes();
        Self::from_valid_sizes(sizes)
    }

    fn from_valid_sizes(block_sizes: Vec<usize>) -> (r: Self)
        requires
            valid_block_sizes(block_sizes@),
        ensures
            r.wf(),
            r.block_sizes() == block_sizes@,
            forall|k: int| 0 <= k < r.free_lists().len() ==> (#[trigger] r.free_lists()[k]).len() == 0,
    {
        let mut list_heads: Vec<Vec<usize>> = Vec::new();
        let mut i: usize = 0;
        while i < block_sizes.len()
            invariant
                i <= block_sizes.len(),
                list_heads.len() == i,
                forall|k: int| 0 <= k < i ==> (#[trigger] list_heads@[k])@.len() == 0,
            decreases block_sizes.len() - i,
        {
            list_heads.push(Vec::new());
            i += 1;
        }
        Allocator { block_sizes, list_heads, fallback_allocator: empty_heap() }
    }

    /// Creates an allocator with the given size classes.
    ///
    /// Returns `None` unless the sizes are non-empty, strictly ascending powers
    /// of two of at least `MIN_BLOCK_SIZE` bytes.
    pub fn with_block_sizes(block_sizes: Vec<usize>) -> (r: Option<Self>)
        ensures
            r is Some <==> valid_block_sizes(block_sizes@),
            r matches Some(a) ==> {
                &&& a.wf()
                &&& a.block_sizes() == block_sizes@
                &&& forall|k: int| 0 <= k < a.free_lists().len() ==> (#[trigger] a.free_lists()[k]).len() == 0
            },
    {
        if block_sizes.len() == 0 {
            return None;
        }
        let mut i: usize = 0;
        while i < block_sizes.len()
            invariant
                0 < block_sizes.len(),
                i <= block_sizes.len(),
                forall|j: int| 0 <= j < i ==> block_sizes@[j] >= MIN_BLOCK_SIZE && is_pow2(#[trigger] block_sizes@[j] as nat),
                forall|a: int, b: int| 0 <= a < b < i ==> block_sizes@[a] < block_sizes@[b],
            decreases block_sizes.len() - i,
        {
            let s = block_sizes[i];
            if s < MIN_BLOCK_SIZE || !is_power_of_two(s) {
                return None;
            }
            if i > 0 && block_sizes[i - 1] >= s {
                return None;
            }
            i += 1;
        }
        Some(Self::from_valid_sizes(block_sizes))
    }

    /// Allocates a block for a request of `size` bytes aligned to `align`.
    ///
    /// A request that fits a size class takes the head of that class's free
    /// list; when the list is empty a block of exactly the class size, aligned
    /// to it, comes from the fallback heap. A request larger than every class
    /// goes to the fallback heap unchanged; `fallback_request` says what the
    /// fallback heap is asked for. `None` means the heap is exhausted, or the
    /// request is beyond what the fallback heap can take (`fallback_fits`).
    pub fn allocate(&mut self, size: usize, align: usize) -> (r: Option<usize>)
        requires
            old(self).wf(),
        ensures
            final(self).wf(),
            final(self).block_sizes() == old(self).block_sizes(),
            reused(old(self).block_sizes(), old(self).free_lists(), size, align) matches Some(a) ==> {
                &&& r == Some(a)
                &&& final(self).free_lists() == taken(old(self).block_sizes(), old(self).free_lists(), size, align)
                &&& final(self).fallback() == old(self).fallback()
            },
            reused(old(self).block_sizes(), old(self).free_lists(), size, align) is None
                ==> final(self).free_lists() == old(self).free_lists(),
            reused(old(self).block_sizes(), old(self).free_lists(), size, align) is None && !fallback_fits(
                fallback_layout(old(self).block_sizes(), size, align).0,
                fallback_layout(old(self).block_sizes(), size, align).1,
            ) ==> r is None,
            r matches Some(a) ==> a != 0 && a % fallback_layout(old(self).block_sizes(), size, align).1
                == 0,
    {
        proof {
            self.lemma_lists_view();
        }
        match list_index(&self.block_sizes, size, align) {
            Some(index) => {
                let mut list: Vec<usize> = Vec::new();
                self.list_heads.set_and_swap(index, &mut list);
                let node = list.pop();
                let ghost taken = list@;
                self.list_heads.set_and_swap(index, &mut list);
                proof {
                    self.lemma_lists_view();
                    assert(self.free_lists() =~= old(self).free_lists().update(index as int, taken));
                }
                match node {
                    Some(addr) => Some(addr),
                    None => self.allocate_fallback(size, align),
                }
            },
            None => self.allocate_fallback(size, align),
        }
    }

    /// What the fallback heap is asked for when no freed block serves a
    /// request of `size` bytes aligned to `align`, as (size, alignment).
    pub fn fallback_request(&self, size: usize, align: usize) -> (r: (usize, usize))
        requires
            self.wf(),
        ensures
            r == fallback_layout(self.block_sizes(), size, align),
    {
        match list_index(&self.block_sizes, size, align) {
            Some(index) => (self.block_sizes[index], self.block_sizes[index]),
            None => (size, align),
        }
    }

    /// Asks the fallback heap for `fallback_request(size, align)`, or fails
    /// when that request is beyond what the fallback heap can take.
    fn allocate_fallback(&mut self, size: usize, align: usize) -> (r: Option<usize>)
        requires
            old(self).wf(),
        ensures
            final(self).wf(),
            final(self).block_sizes() == old(self).block_sizes(),
            final(self).free_lists() == old(self).free_lists(),
            !fallback_fits(
                fallback_layout(old(self).block_sizes(), size, align).0,
                fallback_layout(old(self).block_sizes(), size, align).1,
            ) ==> r is None,
            r matches Some(a) ==> a != 0 && a % fallback_layout(old(self).block_sizes(), size, align).1
                == 0,
    {
        let (fsize, falign) = self.fallback_request(size, align);
        let limit = isize::MAX as usize - FALLBACK_SLACK;
        if fsize > limit || falign > limit - fsize {
            return None;
        }
        heap_allocate(&mut self.fallback_allocator, fsize, falign)
    }

    /// Frees the block at `addr` of a request of `size` bytes aligned to
    /// `align`; the block is one that `allocate` returned for a request of the
    /// same size and alignment, so it is aligned to its class size.
    ///
    /// The class is recomputed from `size` and `align` exactly as `allocate`
    /// computes it, and the block becomes the head of that class's free list.
    /// Returns `true` when the request fits no class: the block then belongs to
    /// the fallback heap, and the caller hands it back there.
    pub fn deallocate(&mut self, addr: usize, size: usize, align: usize) -> (to_fallback: bool)
        requires
            old(self).wf(),
            old(self).class(size, align) matches Some(k) ==> addr != 0 && addr % old(
                self,
            ).block_sizes()[k] == 0,
        ensures
            final(self).wf(),
            final(self).block_sizes() == old(self).block_sizes(),
            to_fallback == (old(self).class(size, align) is None),
            final(self).free_lists() == freed(old(self).block_sizes(), old(self).free_lists(), addr, size, align),
            final(self).fallback() == old(self).fallback(),
    {
        proof {
            self.lemma_lists_view();
        }
        match list_index(&self.block_sizes, size, align) {
            Some(index) => {
                let mut list: Vec<usize> = Vec::new();
                self.list_heads.set_and_swap(index, &mut list);
                list.push(addr);
                let ghost pushed = list@;
                self.list_heads.set_and_swap(index, &mut list);
                proof {
                    self.lemma_lists_view();
                    let lists = self.free_lists();
                    assert(lists =~= old(self).free_lists().update(index as int, pushed));
                    assert forall|k: int, i: int|
                        0 <= k < lists.len() && 0 <= i < lists[k].len() implies #[trigger] lists[k][i]
                        != 0 && lists[k][i] % self.block_sizes()[k] == 0 by {
                        if k == index && i == lists[k].len() - 1 {
                            assert(lists[k][i] == addr);
                        } else {
                            assert(lists[k][i] == old(self).free_lists()[k][i]);
                        }
                    }
                }
                false
            },
            None => true,
        }
    }

    /// The block size of the class serving a request, or `None` when the
    /// request is larger than every class.
    pub fn class_size(&self, size: usize, align: usize) -> (r: Option<usize>)
        requires
            self.wf(),
        ensures
            self.class(size, align) matches Some(k) ==> r == Some(self.block_sizes()[k]),
            self.class(size, align) is None ==> r is None,
    {
        match list_index(&self.block_sizes, size, align) {
            Some(k) => Some(self.block_sizes[k]),
            None => None,
        }
    }

    proof fn lemma_lists_view(&self)
        ensures
            self.free_lists().len() == self.list_heads@.len(),
            forall|k: int| 0 <= k < self.list_heads@.len() ==> #[trigger] self.free_lists()[k] == self.list_heads@[k]@,
    {
    }

    /// Bytes held in the free lists of all classes.
    pub open spec fn free_list_bytes(&self) -> int {
        free_bytes(self.free_lists(), self.block_sizes(), self.block_sizes().len() as int)
    }

    /// Bytes of the heap in use: those the fallback heap has handed out plus
    /// those held in the free lists, saturated at `usize::MAX`.
    pub fn used_heap(&self) -> (r: usize)
        requires
            self.wf(),
        ensures
            r >= saturated(self.free_list_bytes()),
    {
        let fallback_used = heap_used(&self.fallback_allocator);
        self.used_heap_with(fallback_used)
    }

    /// `used_heap` given the bytes that the fallback heap reports as used.
    pub fn used_heap_with(&self, fallback_used: usize) -> (r: usize)
        requires
            self.wf(),
        ensures
            r == saturated(fallback_used + self.free_list_bytes()),
    {
        proof {
            self.lemma_lists_view();
        }
        let mut res: usize = fallback_used;
        let mut i: usize = 0;
        while i < self.list_heads.len()
            invariant
                self.wf(),
                i <= self.list_heads.len(),
                self.list_heads.len() == self.block_sizes.len(),
                self.free_lists().len() == self.list_heads@.len(),
                forall|k: int| 0 <= k < self.list_heads@.len() ==> #[trigger] self.free_lists()[k] == self.list_heads@[k]@,
                res == saturated(fallback_used + free_bytes(self.free_lists(), self.block_sizes(), i as int)),
            decreases self.list_heads.len() - i,
        {
            let count = self.list_heads[i].len();
            let size = self.block_sizes[i];
            let bytes = match count.checked_mul(size) {
                Some(b) => b,
                None => usize::MAX,
            };
            proof {
                let c = count as int;
                let z = size as int;
                assert(c * z >= 0) by (nonlinear_arith)
                    requires
                        c >= 0,
                        z >= 0,
                ;
                assert(self.free_lists()[i as int].len() == c);
                assert(free_bytes(self.free_lists(), self.block_sizes(), i + 1) == free_bytes(
                    self.free_lists(),
                    self.block_sizes(),
                    i as int,
                ) + c * z);
                lemma_free_bytes_nonneg(self.free_lists(), self.block_sizes(), i as int);
            }
            res = res.saturating_add(bytes);
            i += 1;
        }
        res
    }

    /// The fallback heap, for handing it memory and for returning blocks that
    /// belong to no size class.
    pub fn fallback_mut(&mut self) -> (r: &mut linked_list_allocator::Heap)
        ensures
            *r == old(self).fallback(),
            final(self).fallback() == *final(r),
            final(self).block_sizes() == old(self).block_sizes(),
            final(self).free_lists() == old(self).free_lists(),
    {
        &mut self.fallback_allocator
    }
}

/// The block that an allocation takes from the free lists: the head of its
/// class's list, if the request has a class and that list is not empty.
pub open spec fn reused(sizes: Seq<usize>, lists: Seq<Seq<usize>>, size: usize, align: usize) -> Option<usize> {
    match class_of(sizes, size, align) {
        Some(k) => if lists[k].len() > 0 {
            Some(lists[k].last())
        } else {
            None
        },
        None => None,
    }
}

/// The free lists after an allocation has taken the head of its class's list.
pub open spec fn taken(sizes: Seq<usize>, lists: Seq<Seq<usize>>, size: usize, align: usize) -> Seq<Seq<usize>> {
    match class_of(sizes, size, align) {
        Some(k) => lists.update(k, lists[k].drop_last()),
        None => lists,
    }
}

/// The free lists after the block at `addr` has been freed: it becomes the
/// head of its class's list; a block of no class leaves the lists alone.
pub open spec fn freed(sizes: Seq<usize>, lists: Seq<Seq<usize>>, addr: usize, size: usize, align: usize) -> Seq<Seq<usize>> {
    match class_of(sizes, size, align) {
        Some(k) => lists.update(k, lists[k].push(addr)),
        None => lists,
    }
}

/// What the fallback heap is asked for when no freed block serves a request,
/// as (size, alignment): a whole block of the class, size and alignment both
/// the class size; or the request unchanged when it has no class.
pub open spec fn fallback_layout(sizes: Seq<usize>, size: usize, align: usize) -> (usize, usize) {
    match class_of(sizes, size, align) {
        Some(k) => (sizes[k], sizes[k]),
        None => (size, align),
    }
}

/// An allocator that owns no memory: every allocation fails.
pub struct Dummy;

impl Dummy {
    /// Always fails.
    pub fn allocate(&self, _size: usize, _align: usize) -> (r: Option<usize>)
        ensures
            r is None,
    {
        None
    }
}

/// Every block in the free list of class `k` is non-null and aligned to the
/// class size.
pub open spec fn blocks_aligned(sizes: Seq<usize>, lists: Seq<Seq<usize>>) -> bool {
    forall|k: int, i: int|
        0 <= k < lists.len() && 0 <= i < lists[k].len() ==> #[trigger] lists[k][i] != 0 && lists[k][i]
            % sizes[k] == 0
}

/// `x` capped at `usize::MAX`.
pub open spec fn saturated(x: int) -> int {
    if x > usize::MAX {
        usize::MAX as int
    } else {
        x
    }
}

/// Bytes held in the first `n` free lists, each block counting its class size.
pub open spec fn free_bytes(lists: Seq<Seq<usize>>, sizes: Seq<usize>, n: int) -> int
    decreases n,
{
    if n <= 0 {
        0
    } else {
        free_bytes(lists, sizes, n - 1) + lists[n - 1].len() * sizes[n - 1]
    }
}

proof fn lemma_free_bytes_nonneg(lists: Seq<Seq<usize>>, sizes: Seq<usize>, n: int)
    ensures
        free_bytes(lists, sizes, n) >= 0,
    decreases n,
{
    if n > 0 {
        lemma_free_bytes_nonneg(lists, sizes, n - 1);
        let c = lists[n - 1].len() as int;
        let z = sizes[n - 1] as int;
        assert(c * z >= 0) by (nonlinear_arith)
            requires
                c >= 0,
                z >= 0,
        ;
    }
}

/// Whether `n` is a power of two.
pub fn is_power_of_two(n: usize) -> (r: bool)
    ensures
        r == is_pow2(n as nat),
{
    let mut m: usize = n;
    while m > 1 && m % 2 == 0
        invariant
            is_pow2(m as nat) == is_pow2(n as nat),
        decreases m,
    {
        m = m / 2;
    }
    m == 1
}

/// The size class of a request depends on its size and alignment alone: any
/// class index that is the smallest one large enough is the one `class_of`
/// names, and every request no larger than the largest class has one.
pub proof fn lemma_class_deterministic(sizes: Seq<usize>, size: usize, align: usize, k: int)
    requires
        valid_block_sizes(sizes),
        is_class_for(sizes, required_size(size, align), k),
    ensures
        class_of(sizes, size, align) == Some(k),
        forall|j: int| is_class_for(sizes, required_size(size, align), j) ==> j == k,
{
    lemma_class_of_is(sizes, size, align, k);
    assert forall|j: int| is_class_for(sizes, required_size(size, align), j) implies j == k by {
        lemma_class_of_is(sizes, size, align, j);
    }
}

/// Every request whose size and alignment are at most the largest class has a
/// class, and that class's blocks are large enough for it.
pub proof fn lemma_class_exists(sizes: Seq<usize>, size: usize, align: usize)
    requires
        valid_block_sizes(sizes),
        required_size(size, align) <= sizes.last(),
    ensures
        class_of(sizes, size, align) matches Some(k) && 0 <= k < sizes.len() && sizes[k]
            >= required_size(size, align),
{
    let req = required_size(size, align);
    lemma_smallest_fit(sizes, req, sizes.len() - 1);
    let k = choose|k: int| is_class_for(sizes, req, k);
    lemma_class_of_is(sizes, size, align, k);
}

/// Freeing a block and then allocating a request of the same class hands the
/// same block back and leaves the free lists as they were before the free.
pub proof fn lemma_round_trip(
    sizes: Seq<usize>,
    lists: Seq<Seq<usize>>,
    addr: usize,
    size: usize,
    align: usize,
    size2: usize,
    align2: usize,
)
    requires
        valid_block_sizes(sizes),
        lists.len() == sizes.len(),
        class_of(sizes, size, align) is Some,
        class_of(sizes, size2, align2) == class_of(sizes, size, align),
    ensures
        reused(sizes, freed(sizes, lists, addr, size, align), size2, align2) == Some(addr),
        taken(sizes, freed(sizes, lists, addr, size, align), size2, align2) == lists,
{
    let k = class_of(sizes, size, align)->0;
    lemma_class_in_range(sizes, size, align);
    let after = freed(sizes, lists, addr, size, align);
    assert(after[k] == lists[k].push(addr));
    assert(after[k].drop_last() =~= lists[k]);
    assert(taken(sizes, after, size2, align2) =~= lists);
}

/// Free lists are last-in, first-out: after freeing `b1` and then `b2` of one
/// class, two allocations of that class return `b2` and then `b1`, and the
/// lists end as they began.
pub proof fn lemma_lifo(
    sizes: Seq<usize>,
    lists: Seq<Seq<usize>>,
    b1: usize,
    b2: usize,
    size: usize,
    align: usize,
)
    requires
        valid_block_sizes(sizes),
        lists.len() == sizes.len(),
        class_of(sizes, size, align) is Some,
    ensures
        ({
            let after = freed(sizes, freed(sizes, lists, b1, size, align), b2, size, align);
            let once = taken(sizes, after, size, align);
            &&& reused(sizes, after, size, align) == Some(b2)
            &&& reused(sizes, once, size, align) == Some(b1)
            &&& taken(sizes, once, size, align) == lists
        }),
{
    let one = freed(sizes, lists, b1, size, align);
    lemma_class_in_range(sizes, size, align);
    lemma_round_trip(sizes, one, b2, size, align, size, align);
    lemma_round_trip(sizes, lists, b1, size, align, size, align);
}

/// With every free list empty, allocations never find a block to reuse and
/// leave the free lists empty, so the free-list part of `used_heap` stays zero
/// and the heap's use is exactly what the fallback heap has handed out.
pub proof fn lemma_no_frees_no_free_bytes(sizes: Seq<usize>, lists: Seq<Seq<usize>>, size: usize, align: usize)
    requires
        valid_block_sizes(sizes),
        lists.len() == sizes.len(),
        forall|k: int| 0 <= k < lists.len() ==> (#[trigger] lists[k]).len() == 0,
    ensures
        reused(sizes, lists, size, align) is None,
        free_bytes(lists, sizes, sizes.len() as int) == 0,
{
    if class_of(sizes, size, align) is Some {
        lemma_class_in_range(sizes, size, align);
    }
    lemma_free_bytes_empty(lists, sizes, sizes.len() as int);
}

proof fn lemma_free_bytes_empty(lists: Seq<Seq<usize>>, sizes: Seq<usize>, n: int)
    requires
        n <= lists.len(),
        forall|k: int| 0 <= k < lists.len() ==> (#[trigger] lists[k]).len() == 0,
    ensures
        free_bytes(lists, sizes, n) == 0,
    decreases n,
{
    if n > 0 {
        lemma_free_bytes_empty(lists, sizes, n - 1);
        assert(lists[n - 1].len() == 0);
    }
}

proof fn lemma_smallest_fit(sizes: Seq<usize>, req: usize, i: int)
    requires
        0 <= i < sizes.len(),
        sizes[i] >= req,
    ensures
        exists|k: int| is_class_for(sizes, req, k),
    decreases i,
{
    if exists|j: int| 0 <= j < i && sizes[j] >= req {
        let j = choose|j: int| 0 <= j < i && sizes[j] >= req;
        lemma_smallest_fit(sizes, req, j);
    } else {
        assert(is_class_for(sizes, req, i));
    }
}

proof fn lemma_class_in_range(sizes: Seq<usize>, size: usize, align: usize)
    ensures
        class_of(sizes, size, align) matches Some(k) ==> is_class_for(sizes, required_size(size, align), k),
{
}

} // verus!
