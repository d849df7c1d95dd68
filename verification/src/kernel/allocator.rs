//! The guest kernel's physical page allocator: one bit per 4 KiB page of the heap, a count of
//! free pages, and a hint where the next search starts.
use vstd::prelude::*;
use vstd::std_specs::bits::u64_trailing_zeros;
use crate::memory::{mem_zero, Memory};

verus! {

pub const PAGE_SIZE: usize = 4096;
pub const BITS: usize = 64;

/// Whether page `i` is taken in the bitmap `words`.
pub open spec fn taken(words: Seq<u64>, i: int) -> bool {
    (words[i / 64] >> ((i % 64) as u64)) & 1 == 1
}

/// Number of free pages among the first `n`.
pub open spec fn free_among(words: Seq<u64>, n: nat) -> nat
    decreases n,
{
    if n == 0 {
        0
    } else {
        free_among(words, (n - 1) as nat) + if taken(words, n - 1) { 0nat } else { 1nat }
    }
}

/// Abstract state of the allocator.
pub struct AllocView {
    pub base: usize,
    pub pages: usize,
    pub words: Seq<u64>,
    pub free: usize,
    pub hint: usize,
}

impl AllocView {
    /// One bitmap word per 64 pages, the bits past the last page set, the free count right,
    /// and every page address representable.
    pub open spec fn wf(self) -> bool {
        &&& self.words.len() == (self.pages + 63) / 64
        &&& self.base + self.pages * PAGE_SIZE <= usize::MAX
        &&& forall|i: int| self.pages <= i < self.words.len() * 64 ==> #[trigger] taken(self.words, i)
        &&& self.free == free_among(self.words, self.pages as nat)
        &&& self.hint <= self.pages
    }

    /// The address of page `i`.
    pub open spec fn addr_of(self, i: int) -> int {
        self.base + i * PAGE_SIZE
    }

    /// The page holding address `a`, if it lies in the heap.
    pub open spec fn index_of(self, a: usize) -> Option<usize> {
        if a < self.base {
            None
        } else if (a - self.base) / (PAGE_SIZE as int) < self.pages {
            Some(((a - self.base) / (PAGE_SIZE as int)) as usize)
        } else {
            None
        }
    }

    /// The allocator with page `i` taken (`take`) or released, and the count adjusted.
    pub open spec fn mark(self, i: int, take: bool) -> AllocView {
        let w = self.words[i / 64];
        let m = 1u64 << ((i % 64) as u64);
        AllocView {
            words: self.words.update(i / 64, if take { w | m } else { w & !m }),
            free: if take && !taken(self.words, i) {
                (self.free - 1) as usize
            } else if !take && taken(self.words, i) {
                (self.free + 1) as usize
            } else {
                self.free
            },
            ..self
        }
    }

    /// The page a search finds: the words are visited cyclically from word `sw` on; in the
    /// first that has a clear bit, its lowest clear bit names the page.
    pub open spec fn scan(self, sw: int, d: nat) -> Option<int>
        decreases self.words.len() - d,
    {
        if d >= self.words.len() {
            None
        } else {
            let wi = (sw + d) % (self.words.len() as int);
            let v = !self.words[wi];
            if v == 0 {
                self.scan(sw, d + 1)
            } else {
                let idx = wi * 64 + u64_trailing_zeros(v);
                if idx >= self.pages {
                    self.scan(sw, d + 1)
                } else {
                    Some(idx)
                }
            }
        }
    }
}

impl AllocView {
    /// What `alloc_page` does: with a free page that the search finds, the allocator with that
    /// page taken and the hint past it, and the page's address; `None` otherwise.
    pub open spec fn take_page(self) -> Option<(AllocView, usize)> {
        if self.free == 0 {
            None
        } else {
            match self.scan((self.hint / 64) as int, 0) {
                None => None,
                Some(idx) => Some((AllocView { hint: (idx + 1) as usize, ..self.mark(idx, true) }, self.addr_of(idx) as usize)),
            }
        }
    }

    /// What `free_page(a)` does: the page holding `a` released, if `a` lies in the heap.
    pub open spec fn release(self, a: usize) -> AllocView {
        match self.index_of(a) {
            Some(i) => self.mark(i as int, false),
            None => self,
        }
    }

    /// The first page of a run of `count` free pages: pages are visited from the hint on,
    /// wrapping around the heap, counting consecutive free ones.
    pub open spec fn contig_scan(self, count: nat, d: nat, run: nat, start: int) -> Option<int>
        decreases self.pages - d,
    {
        if d >= self.pages {
            None
        } else {
            let idx = (self.hint + d) % (self.pages as int);
            if !taken(self.words, idx) {
                let start2 = if run == 0 { idx } else { start };
                if run + 1 == count {
                    Some(start2)
                } else {
                    self.contig_scan(count, d + 1, run + 1, start2)
                }
            } else {
                self.contig_scan(count, d + 1, 0, start)
            }
        }
    }

    /// The allocator with the `k` pages from `start` on (wrapping around the heap) taken.
    pub open spec fn mark_run(self, start: int, k: nat) -> AllocView
        decreases k,
    {
        if k == 0 {
            self
        } else {
            self.mark_run(start, (k - 1) as nat).mark((start + k - 1) % (self.pages as int), true)
        }
    }
}

/// Setting or clearing one bit of a word leaves the other bits alone.
pub proof fn lemma_bit_update(w: u64, b: u64, c: u64)
    requires
        b < 64,
        c < 64,
    ensures
        ((w | (1u64 << b)) >> b) & 1 == 1,
        ((w & !(1u64 << b)) >> b) & 1 == 0,
        b != c ==> ((w | (1u64 << b)) >> c) & 1 == (w >> c) & 1,
        b != c ==> ((w & !(1u64 << b)) >> c) & 1 == (w >> c) & 1,
{
    assert(((w | (1u64 << b)) >> b) & 1 == 1 && ((w & !(1u64 << b)) >> b) & 1 == 0
        && (b != c ==> ((w | (1u64 << b)) >> c) & 1 == (w >> c) & 1)
        && (b != c ==> ((w & !(1u64 << b)) >> c) & 1 == (w >> c) & 1)) by (bit_vector)
        requires
            b < 64,
            c < 64,
    ;
}

/// Marking page `i` changes the taken state of page `i` only.
proof fn lemma_mark_taken(v: AllocView, i: int, take: bool)
    requires
        0 <= i < v.words.len() * 64,
    ensures
        taken(v.mark(i, take).words, i) == take,
        forall|j: int| 0 <= j < v.words.len() * 64 && j != i ==> taken(v.mark(i, take).words, j) == #[trigger] taken(v.words, j),
        v.mark(i, take).words.len() == v.words.len(),
{
    let w = v.words[i / 64];
    lemma_bit_update(w, (i % 64) as u64, (i % 64) as u64);
    assert forall|j: int| 0 <= j < v.words.len() * 64 && j != i implies taken(v.mark(i, take).words, j)
        == #[trigger] taken(v.words, j) by {
        if j / 64 == i / 64 {
            lemma_bit_update(w, (i % 64) as u64, (j % 64) as u64);
        }
    }
}

/// The free count among the first `n` pages moves by one when page `i` (one of them) changes.
proof fn lemma_free_among_update(old: Seq<u64>, new: Seq<u64>, n: nat, i: int)
    requires
        0 <= i < n,
        forall|j: int| 0 <= j < n && j != i ==> taken(new, j) == #[trigger] taken(old, j),
    ensures
        free_among(new, n) == free_among(old, n) + (if taken(old, i) { 1int } else { 0int }) - (if taken(new, i) {
            1int
        } else {
            0int
        }),
    decreases n,
{
    if n - 1 != i {
        lemma_free_among_update(old, new, (n - 1) as nat, i);
    } else {
        lemma_free_among_same(old, new, (n - 1) as nat);
    }
}

/// Bitmaps that agree on the first `n` pages have as many free pages among them.
proof fn lemma_free_among_same(old: Seq<u64>, new: Seq<u64>, n: nat)
    requires
        forall|j: int| 0 <= j < n ==> taken(new, j) == #[trigger] taken(old, j),
    ensures
        free_among(new, n) == free_among(old, n),
    decreases n,
{
    if n > 0 {
        lemma_free_among_same(old, new, (n - 1) as nat);
    }
}

/// With no page among the first `n` taken, all of them are free.
proof fn lemma_free_among_all(words: Seq<u64>, n: nat)
    requires
        forall|j: int| 0 <= j < n ==> !#[trigger] taken(words, j),
    ensures
        free_among(words, n) == n,
    decreases n,
{
    if n > 0 {
        lemma_free_among_all(words, (n - 1) as nat);
    }
}

/// A free page among the first `n` makes the free count positive.
proof fn lemma_free_among_pos(words: Seq<u64>, n: nat, i: int)
    requires
        0 <= i < n,
        !taken(words, i),
    ensures
        free_among(words, n) >= 1,
    decreases n,
{
    if n - 1 != i {
        lemma_free_among_pos(words, (n - 1) as nat, i);
    }
}

/// The free count never exceeds the page count.
proof fn lemma_free_among_bound(words: Seq<u64>, n: nat)
    ensures
        free_among(words, n) <= n,
    decreases n,
{
    if n > 0 {
        lemma_free_among_bound(words, (n - 1) as nat);
    }
}

/// A free page among the first `n` exists where the free count is positive.
proof fn lemma_free_among_witness(words: Seq<u64>, n: nat) -> (i: int)
    requires
        free_among(words, n) > 0,
    ensures
        0 <= i < n,
        !taken(words, i),
    decreases n,
{
    if taken(words, n - 1) {
        lemma_free_among_witness(words, (n - 1) as nat)
    } else {
        n - 1
    }
}

/// A bit that is set in `!w` is clear in `w`.
proof fn lemma_clear_bit(w: u64, b: u64)
    by (bit_vector)
    ensures
        ((!w) >> b) & 1 == 1 && b < 64 ==> (w >> b) & 1 != 1,
{
}

/// The page a search finds is a free page of the heap.
proof fn lemma_scan_free(v: AllocView, sw: int, d: nat)
    requires
        sw >= 0,
        v.scan(sw, d) is Some,
    ensures
        0 <= v.scan(sw, d)->0 < v.pages,
        !taken(v.words, v.scan(sw, d)->0),
    decreases v.words.len() - d,
{
    let n = v.words.len() as int;
    let wi = (sw + d) % n;
    let w = v.words[wi];
    let x = !w;
    if x == 0 {
        lemma_scan_free(v, sw, d + 1);
    } else {
        vstd::std_specs::bits::axiom_u64_trailing_zeros(x);
        let b = u64_trailing_zeros(x) as u64;
        let idx = wi * 64 + b;
        if idx >= v.pages {
            lemma_scan_free(v, sw, d + 1);
        } else {
            lemma_clear_bit(w, b);
            assert(idx / 64 == wi && idx % 64 == b);
        }
    }
}

/// What `alloc_page` hands out is a free page of the heap, taken afterwards, and every other
/// page keeps its state.
pub proof fn lemma_take_page_free(v: AllocView)
    requires
        v.words.len() == (v.pages + 63) / 64,
        v.take_page() is Some,
    ensures
        ({
            let (v1, a) = v.take_page()->0;
            let i = v.scan((v.hint / 64) as int, 0)->0;
            &&& 0 <= i < v.pages
            &&& !taken(v.words, i)
            &&& a == v.addr_of(i) as usize
            &&& taken(v1.words, i)
            &&& v1.base == v.base && v1.pages == v.pages
            &&& v1.words.len() == v.words.len()
            &&& forall|j: int| 0 <= j < v.words.len() * 64 && j != i ==> taken(v1.words, j) == #[trigger] taken(v.words, j)
        }),
{
    let i = v.scan((v.hint / 64) as int, 0)->0;
    lemma_scan_free(v, (v.hint / 64) as int, 0);
    assert(v.words.len() * 64 >= v.pages) by (nonlinear_arith)
        requires
            v.words.len() == (v.pages + 63) / 64,
    ;
    lemma_mark_taken(v, i, true);
}

/// The search succeeds once it reaches a word with a clear bit: in a well-formed bitmap every
/// clear bit names a page of the heap.
proof fn lemma_scan_some(v: AllocView, sw: int, d: nat, dstar: nat)
    requires
        v.wf(),
        sw >= 0,
        d <= dstar < v.words.len(),
        !v.words[(sw + dstar) % (v.words.len() as int)] != 0,
    ensures
        v.scan(sw, d) is Some,
    decreases dstar - d,
{
    let n = v.words.len() as int;
    let wi = (sw + d) % n;
    let w = v.words[wi];
    let x = !w;
    if x != 0 {
        vstd::std_specs::bits::axiom_u64_trailing_zeros(x);
        let b = u64_trailing_zeros(x) as u64;
        lemma_clear_bit(w, b);
        let idx = wi * 64 + b;
        assert(idx / 64 == wi && idx % 64 == b);
        assert(!taken(v.words, idx));
    } else {
        lemma_scan_some(v, sw, d + 1, dstar);
    }
}

/// Whenever a page is free, `alloc_page`'s search finds one: it returns `Some`.
pub proof fn lemma_alloc_finds_free_page(v: AllocView)
    requires
        v.wf(),
        v.free > 0,
    ensures
        v.scan((v.hint / 64) as int, 0) is Some,
        v.take_page() is Some,
{
    let i = lemma_free_among_witness(v.words, v.pages as nat);
    let n = v.words.len() as int;
    let wi = i / 64;
    let b = (i % 64) as u64;
    let w = v.words[wi];
    assert((w >> b) & 1 != 1 ==> !w != 0) by (bit_vector)
        requires
            b < 64,
    ;
    let sw = (v.hint / 64) as int;
    let r = sw % n;
    let dstar: nat = if wi >= r { (wi - r) as nat } else { (wi + n - r) as nat };
    vstd::arithmetic::div_mod::lemma_add_mod_noop_right(dstar as int, sw, n);
    if wi >= r {
        vstd::arithmetic::div_mod::lemma_small_mod(wi as nat, n as nat);
    } else {
        vstd::arithmetic::div_mod::lemma_mod_add_multiples_vanish(wi, n);
        vstd::arithmetic::div_mod::lemma_small_mod(wi as nat, n as nat);
    }
    assert((sw + dstar) % n == wi);
    lemma_scan_some(v, sw, 0, dstar);
}

/// Taking a free page and releasing it again restores the free count and the state of every
/// page.
pub proof fn lemma_take_release(v: AllocView, i: int)
    requires
        v.wf(),
        0 <= i < v.pages,
        !taken(v.words, i),
    ensures
        taken(v.mark(i, true).words, i),
        v.mark(i, true).free == v.free - 1,
        v.mark(i, true).mark(i, false).free == v.free,
        forall|j: int| 0 <= j < v.words.len() * 64 ==> #[trigger] taken(v.mark(i, true).mark(i, false).words, j)
            == taken(v.words, j),
{
    lemma_free_among_pos(v.words, v.pages as nat, i);
    lemma_mark_taken(v, i, true);
    lemma_mark_taken(v.mark(i, true), i, false);
}

/// Freeing a page twice is freeing it once; freeing keeps the allocator well formed, with
/// the free count within the page count; the freed page is free afterwards, the count rising
/// by one if it was taken; an address outside the heap changes nothing.
pub proof fn lemma_free_page_twice(v: AllocView, a: usize)
    requires
        v.wf(),
    ensures
        v.release(a).release(a) == v.release(a),
        v.release(a).wf(),
        v.free <= v.pages,
        v.release(a).free <= v.release(a).pages,
        v.index_of(a) is None ==> v.release(a) == v,
        v.index_of(a) matches Some(i) ==> !taken(v.release(a).words, i as int) && v.release(a).free == v.free + (if taken(
            v.words,
            i as int,
        ) {
            1int
        } else {
            0int
        }),
{
    lemma_free_among_bound(v.words, v.pages as nat);
    if let Some(i) = v.index_of(a) {
        let i = i as int;
        assert(i < v.words.len() * 64) by {
            assert(v.words.len() * 64 >= v.pages) by (nonlinear_arith)
                requires
                    v.words.len() == (v.pages + 63) / 64,
            ;
        }
        lemma_mark_taken(v, i, false);
        let nw = v.mark(i, false).words;
        lemma_free_among_update(v.words, nw, v.pages as nat, i);
        lemma_free_among_bound(nw, v.pages as nat);
        assert forall|j: int| v.pages <= j < nw.len() * 64 implies #[trigger] taken(nw, j) by {
            assert(taken(v.words, j));
        }
        let i = i as int;
        assert(i < v.words.len() * 64) by {
            assert(v.words.len() * 64 >= v.pages) by (nonlinear_arith)
                requires
                    v.words.len() == (v.pages + 63) / 64,
            ;
        }
        lemma_mark_taken(v, i, false);
        let v1 = v.mark(i, false);
        let w = v.words[i / 64];
        let m = 1u64 << ((i % 64) as u64);
        assert((w & !m) & !m == w & !m) by (bit_vector);
        assert(v1.words[i / 64] == w & !m);
        assert(v1.mark(i, false).words =~= v1.words);
    }
}

/// A page allocator over the heap `[base, base + pages * PAGE_SIZE)`.
pub struct PageAllocator {
    base: usize,
    pages: usize,
    bitmap: Vec<u64>,
    bm_words: usize,
    free: usize,
    hint: usize,
}

impl View for PageAllocator {
    type V = AllocView;

    closed spec fn view(&self) -> AllocView {
        AllocView { base: self.base, pages: self.pages, words: self.bitmap@, free: self.free, hint: self.hint }
    }
}

impl PageAllocator {
    pub closed spec fn wf(&self) -> bool {
        &&& self@.wf()
        &&& self.bm_words == self.bitmap@.len()
    }

    /// An allocator for the whole pages of the heap `[heap_start, heap_end)`, all free.
    pub fn new(heap_start: usize, heap_end: usize) -> (a: Self)
        requires
            heap_start <= heap_end,
        ensures
            a.wf(),
            a@.wf(),
            a@.base == heap_start,
            a@.pages == (heap_end - heap_start) / (PAGE_SIZE as int),
            a@.free == a@.pages,
            a@.hint == 0,
            forall|i: int| 0 <= i < a@.pages ==> !#[trigger] taken(a@.words, i),
    {
        let heap_pgs = (heap_end - heap_start) / PAGE_SIZE;
        let words = (heap_pgs + BITS - 1) / BITS;
        let mut a = Self {
            base: heap_start,
            pages: heap_pgs,
            bitmap: vec![0u64; words],
            bm_words: words,
            free: heap_pgs,
            hint: 0,
        };
        proof {
            assert((heap_pgs as int) * 4096 <= heap_end - heap_start) by (nonlinear_arith)
                requires
                    heap_pgs == (heap_end - heap_start) / 4096,
                    heap_end >= heap_start,
            ;
        }
        a.init_bm();
        a
    }

    /// Clears the bitmap and sets the bits past the last page.
    fn init_bm(&mut self)
        requires
            old(self).bm_words == old(self).bitmap@.len(),
            old(self).bitmap@.len() == (old(self).pages + 63) / 64,
            forall|k: int| 0 <= k < old(self).bitmap@.len() ==> old(self).bitmap@[k] == 0,
            old(self).free == old(self).pages,
            old(self).hint <= old(self).pages,
            old(self).base + old(self).pages * PAGE_SIZE <= usize::MAX,
        ensures
            final(self).wf(),
            final(self)@.base == old(self)@.base,
            final(self)@.pages == old(self)@.pages,
            final(self)@.free == old(self)@.pages,
            final(self)@.hint == old(self)@.hint,
            forall|i: int| 0 <= i < final(self)@.pages ==> !#[trigger] taken(final(self)@.words, i),
    {
        let extra = self.bm_words * BITS - self.pages;
        if extra > 0 {
            let last = self.bm_words - 1;
            self.bitmap.set(last, !0u64 << ((BITS - extra) as u64));
        }
        proof {
            let words = self.bitmap@;
            let n = words.len();
            assert forall|i: int| 0 <= i < n * 64 implies #[trigger] taken(words, i) == (i >= self.pages) by {
                let b = (i % 64) as u64;
                if i / 64 == n - 1 && extra > 0 {
                    let sh = (BITS - extra) as u64;
                    assert(((!0u64 << sh) >> b) & 1 == 1 <==> b >= sh) by (bit_vector)
                        requires
                            b < 64,
                            sh < 64,
                    ;
                } else {
                    assert(((0u64 >> b) & 1) == 0) by (bit_vector);
                }
            }
            lemma_free_among_all(words, self.pages as nat);
        }
    }

    fn to_addr(&self, i: usize) -> (a: usize)
        requires
            self.wf(),
            i < self@.pages,
        ensures
            a == self@.addr_of(i as int),
    {
        proof {
            assert(i * PAGE_SIZE <= self.pages * PAGE_SIZE) by (nonlinear_arith)
                requires
                    i < self.pages,
            ;
        }
        self.base + i * PAGE_SIZE
    }

    fn to_idx(&self, a: usize) -> (r: Option<usize>)
        ensures
            r == self@.index_of(a),
    {
        if a < self.base {
            return None;
        }
        let i = (a - self.base) / PAGE_SIZE;
        if i < self.pages { Some(i) } else { None }
    }

    fn mark(&mut self, i: usize, take: bool)
        requires
            old(self).wf(),
            i < old(self)@.pages,
        ensures
            final(self).wf(),
            final(self)@ == old(self)@.mark(i as int, take),
    {
        let ghost new_words = self@.mark(i as int, take).words;
        proof {
            lemma_mark_taken(self@, i as int, take);
            lemma_free_among_update(self@.words, new_words, self.pages as nat, i as int);
            lemma_free_among_bound(new_words, self.pages as nat);
            if !taken(self@.words, i as int) {
                lemma_free_among_pos(self@.words, self.pages as nat, i as int);
            }
        }
        let w = i / BITS;
        let b = i % BITS;
        let m = 1u64 << (b as u64);
        proof {
            let ow = self@.words[(i / 64) as int];
            let bb = b as u64;
            assert((ow & (1u64 << bb) == 0) == ((ow >> bb) & 1 != 1)) by (bit_vector)
                requires
                    bb < 64,
            ;
        }
        if take {
            if self.bitmap[w] & m == 0 {
                self.free = self.free - 1;
            }
            let nw = self.bitmap[w] | m;
            self.bitmap.set(w, nw);
        } else {
            if self.bitmap[w] & m != 0 {
                self.free = self.free + 1;
            }
            let nw = self.bitmap[w] & !m;
            self.bitmap.set(w, nw);
        }
        proof {
            assert(self@.words =~= new_words);
            let ov = old(self)@;
            assert forall|j: int| self@.pages <= j < self@.words.len() * 64 implies #[trigger] taken(self@.words, j) by {
                assert(taken(ov.words, j));
            }
        }
    }

    fn is_free(&self, i: usize) -> (r: bool)
        requires
            self.wf(),
            i < self@.pages,
        ensures
            r == !taken(self@.words, i as int),
    {
        let w = i / BITS;
        let b = i % BITS;
        let x = self.bitmap[w];
        let bb = b as u64;
        assert(((x >> bb) & 1 == 0) == !((x >> bb) & 1 == 1)) by (bit_vector);
        (x >> bb) & 1 == 0
    }

    /// Takes a free page, zeroes it in `mem` and returns its address: the search visits the
    /// bitmap words cyclically from the hint's word and takes the lowest clear bit of the
    /// first word that has one; the hint moves past the page. `None`, with nothing changed,
    /// when no page is free.
    pub fn alloc_page(&mut self, mem: &mut Memory) -> (r: Option<usize>)
        requires
            old(self).wf(),
            old(mem).wf(),
        ensures
            final(self).wf(),
            final(self)@.wf(),
            final(mem).wf(),
            match old(self)@.take_page() {
                None => r is None && final(self)@ == old(self)@ && final(mem)@ == old(mem)@,
                Some((v, a)) => r == Some(a) && final(self)@ == v && final(mem)@ == mem_zero(
                    old(mem)@,
                    a as u64,
                    PAGE_SIZE as nat,
                ),
            },
    {
        if self.free == 0 {
            return None;
        }
        let ghost v0 = self@;
        let sw = self.hint / BITS;
        let mut d: usize = 0;
        while d < self.bm_words
            invariant
                self.wf(),
                self@ == v0,
                v0 == old(self)@,
                mem.wf(),
                mem@ == old(mem)@,
                v0.free != 0,
                sw == v0.hint / 64,
                d <= self.bm_words,
                v0.scan(sw as int, d as nat) == v0.scan(sw as int, 0),
            decreases self.bm_words - d,
        {
            let wi = (sw + d) % self.bm_words;
            let v = !self.bitmap[wi];
            if v == 0 {
                d = d + 1;
                continue;
            }
            let bi = v.trailing_zeros() as usize;
            let idx = wi * BITS + bi;
            if idx >= self.pages {
                d = d + 1;
                continue;
            }
            self.mark(idx, true);
            let addr = self.to_addr(idx);
            mem.zero(addr as u64, PAGE_SIZE);
            self.hint = idx + 1;
            return Some(addr);
        }
        None
    }

    /// Takes `count` consecutive free pages, zeroes them in `mem` and returns the address of
    /// the first: the search starts at the hint and wraps around the heap. `None`, with
    /// nothing changed, when `count` is 0, when fewer pages are free, or when no such run
    /// exists.
    pub fn alloc_contig(&mut self, mem: &mut Memory, count: usize) -> (r: Option<usize>)
        requires
            old(self).wf(),
            old(mem).wf(),
        ensures
            final(self).wf(),
            final(self)@.wf(),
            final(mem).wf(),
            (count == 0 || old(self)@.free < count) ==> r is None && final(self)@ == old(self)@ && final(mem)@
                == old(mem)@,
            !(count == 0 || old(self)@.free < count) ==> match old(self)@.contig_scan(count as nat, 0, 0, 0) {
                None => r is None && final(self)@ == old(self)@ && final(mem)@ == old(mem)@,
                Some(st) => r == Some(old(self)@.addr_of(st) as usize) && final(self)@ == old(self)@.mark_run(
                    st,
                    count as nat,
                ) && final(mem)@ == mem_zero(old(mem)@, old(self)@.addr_of(st) as u64, (count * PAGE_SIZE) as nat),
            },
    {
        if count == 0 || self.free < count {
            return None;
        }
        let ghost v0 = self@;
        proof {
            lemma_free_among_bound(v0.words, v0.pages as nat);
        }
        let mut run: usize = 0;
        let mut start: usize = 0;
        let mut d: usize = 0;
        while d < self.pages
            invariant
                self.wf(),
                self@ == v0,
                v0 == old(self)@,
                mem.wf(),
                mem@ == old(mem)@,
                0 < count,
                count <= v0.free,
                v0.free <= v0.pages,
                d <= self.pages,
                run < count,
                run <= d,
                run > 0 ==> start < self.pages,
                v0.contig_scan(count as nat, d as nat, run as nat, start as int) == v0.contig_scan(count as nat, 0, 0, 0),
            decreases self.pages - d,
        {
            let idx = (self.hint + d) % self.pages;
            if self.is_free(idx) {
                if run == 0 {
                    start = idx;
                }
                run = run + 1;
                if run == count {
                    let addr = self.to_addr(start);
                    let mut i: usize = 0;
                    while i < count
                        invariant
                            self.wf(),
                            mem.wf(),
                            mem@ == old(mem)@,
                            addr == v0.addr_of(start as int),
                            i <= count,
                            start < v0.pages,
                            self@ == v0.mark_run(start as int, i as nat),
                            self@.pages == v0.pages,
                            v0.pages > 0,
                            count <= v0.pages,
                            v0 == old(self)@,
                            count <= v0.free,
                            v0.contig_scan(count as nat, 0, 0, 0) == Some(start as int),
                        decreases count - i,
                    {
                        self.mark((start + i) % self.pages, true);
                        i = i + 1;
                    }
                    proof {
                        assert(count * PAGE_SIZE <= v0.pages * PAGE_SIZE) by (nonlinear_arith)
                            requires
                                count <= v0.pages,
                        ;
                    }
                    mem.zero(addr as u64, count * PAGE_SIZE);
                    return Some(addr);
                }
            } else {
                run = 0;
            }
            d = d + 1;
        }
        None
    }

    /// Releases the page holding `addr`; an address outside the heap is ignored.
    pub fn free_page(&mut self, addr: usize)
        requires
            old(self).wf(),
        ensures
            final(self).wf(),
            final(self)@.wf(),
            final(self)@ == old(self)@.release(addr),
    {
        if let Some(idx) = self.to_idx(addr) {
            self.mark(idx, false);
        }
    }

    /// A well-formed allocator has a well-formed view, and never counts more free pages than
    /// it has.
    pub proof fn lemma_wf(&self)
        requires
            self.wf(),
        ensures
            self@.wf(),
            self@.free <= self@.pages,
    {
        lemma_free_among_bound(self@.words, self@.pages as nat);
    }

    pub fn total(&self) -> (r: usize)
        ensures
            r == self@.pages,
    {
        self.pages
    }

    pub fn free_count(&self) -> (r: usize)
        ensures
            r == self@.free,
    {
        self.free
    }
}

} // verus!
