//! Allocation strategies: three interchangeable backing stores that hand
//! out exactly one contiguous, zero-initialized, word-aligned segment to a
//! message builder. A strategy is one-shot: once a segment has been
//! granted, a further request faults until (for the growable strategy) the
//! segment is released.

use vstd::prelude::*;

verus! {

/// Bytes per word of the message layout.
pub const BYTES_PER_WORD: usize = 8;

/// A fault raised by an allocation strategy. These are programming errors
/// on the caller's side, not recoverable wire errors: the encode pipeline
/// catches them at its boundary and reports a typed error.
#[derive(Clone, Copy, PartialEq, Eq, Structural, Debug)]
pub enum AllocFault {
    /// The strategy had already granted its segment.
    AlreadyAllocated,
    /// The request does not fit in the strategy's backing store.
    OutOfCapacity,
}

/// A backing store for one message. `allocate_segment` grants one owned,
/// zero-initialized segment whose length is a whole multiple of the word
/// size; it faults on a second request and when the request exceeds the
/// store's capacity.
pub trait Allocator: Sized {
    /// Whether a granted segment is outstanding (or, for the one-shot
    /// strategies, was ever granted).
    spec fn engaged(&self) -> bool;

    /// Whether a request for `size_words` words fits this store.
    spec fn can_grant(&self, size_words: u32) -> bool;

    /// How many words a successful grant for `size_words` hands out.
    spec fn granted_words(&self, size_words: u32) -> nat;

    /// How a successful grant changes the strategy's state.
    spec fn post_allocate(pre: Self, post: Self, size_words: u32) -> bool;

    /// How a release changes the strategy's state.
    spec fn post_release(pre: Self, post: Self) -> bool;

    fn allocate_segment(&mut self, size_words: u32) -> (r: Result<Vec<u8>, AllocFault>)
        ensures
            r is Ok <==> !old(self).engaged() && old(self).can_grant(size_words),
            r matches Ok(seg) ==> {
                &&& final(self).engaged()
                &&& Self::post_allocate(*old(self), *final(self), size_words)
                &&& seg@.len() == old(self).granted_words(size_words) * BYTES_PER_WORD
                &&& size_words * BYTES_PER_WORD <= seg@.len()
                &&& forall|i: int| 0 <= i < seg@.len() ==> seg@[i] == 0
            },
            r matches Err(f) ==> *final(self) == *old(self) && (f is AlreadyAllocated <==> old(
                self,
            ).engaged()),
    ;

    fn deallocate_segment(&mut self, seg: Vec<u8>)
        ensures
            Self::post_release(*old(self), *final(self)),
    ;
}

/// Single-use law: a successful `allocate_segment` leaves the strategy
/// engaged (its postcondition), and `allocate_segment` returns `Ok` if and
/// only if the strategy is not engaged. So, whatever the strategy kind, a
/// second allocation on the same instance without a release between always
/// faults with `AllocFault::AlreadyAllocated`.
pub proof fn lemma_allocate_single_use<A: Allocator>(after_grant: A, size_words: u32)
    requires
        after_grant.engaged(),
    ensures
        !(!after_grant.engaged() && after_grant.can_grant(size_words)),
{
}

/// A vector of `len` zero bytes.
pub(crate) fn zeroed_vec(len: usize) -> (r: Vec<u8>)
    ensures
        r@.len() == len,
        forall|i: int| 0 <= i < len ==> r@[i] == 0,
{
    let mut v: Vec<u8> = Vec::new();
    let mut k: usize = 0;
    while k < len
        invariant
            k <= len,
            v@.len() == k,
            forall|i: int| 0 <= i < k ==> v@[i] == 0,
        decreases len - k,
    {
        v.push(0);
        k = k + 1;
    }
    v
}

/// The fixed-capacity inline strategy: capacity `N` bytes, chosen at
/// compile time. Suited to small, latency-sensitive encodes.
pub struct CapnpAlloc<const N: usize> {
    called: bool,
}

impl<const N: usize> CapnpAlloc<N> {
    pub fn new() -> (r: CapnpAlloc<N>)
        ensures
            !r.engaged(),
    {
        CapnpAlloc { called: false }
    }
}

impl<const N: usize> CapnpAlloc<N> {
    /// Hands the whole store to a fresh message builder.
    pub fn into_builder(self) -> (r: Result<crate::builder::MessageBuilder, AllocFault>)
        ensures
            r is Ok <==> !self.engaged(),
            r matches Ok(b) ==> b.wf() && b.spec_len() == 0 && b.capacity() == (N / BYTES_PER_WORD)
                * BYTES_PER_WORD,
    {
        proof {
            CapnpAlloc::<N>::lemma_caps(self);
        }
        crate::encoding::builder(self, 0)
    }

    /// What the inline strategy grants: requests of up to `N` bytes fit,
    /// and a grant hands out the whole store, `N / 8` words.
    pub proof fn lemma_caps(a: CapnpAlloc<N>)
        ensures
            forall|sw: u32| #[trigger] a.can_grant(sw) <==> sw * BYTES_PER_WORD <= N,
            forall|sw: u32| #[trigger] a.granted_words(sw) == (N / BYTES_PER_WORD) as nat,
    {
    }
}

impl<const N: usize> Default for CapnpAlloc<N> {
    fn default() -> (r: CapnpAlloc<N>)
        ensures
            !r.engaged(),
    {
        CapnpAlloc::new()
    }
}

impl<const N: usize> Allocator for CapnpAlloc<N> {
    closed spec fn engaged(&self) -> bool {
        self.called
    }

    closed spec fn can_grant(&self, size_words: u32) -> bool {
        size_words * BYTES_PER_WORD <= N
    }

    closed spec fn granted_words(&self, size_words: u32) -> nat {
        (N / BYTES_PER_WORD) as nat
    }

    closed spec fn post_allocate(pre: Self, post: Self, size_words: u32) -> bool {
        post.called
    }

    closed spec fn post_release(pre: Self, post: Self) -> bool {
        post == pre
    }

    fn allocate_segment(&mut self, size_words: u32) -> (r: Result<Vec<u8>, AllocFault>) {
        if self.called {
            return Err(AllocFault::AlreadyAllocated);
        }
        if (size_words as u64) * 8 > (N as u64) {
            return Err(AllocFault::OutOfCapacity);
        }
        self.called = true;
        assert(size_words <= N / BYTES_PER_WORD && (N / BYTES_PER_WORD) * BYTES_PER_WORD
            <= N) by (nonlinear_arith)
            requires
                size_words * BYTES_PER_WORD <= N,
                BYTES_PER_WORD == 8,
        ;
        assert(size_words * BYTES_PER_WORD <= (N / BYTES_PER_WORD) * BYTES_PER_WORD)
            by (nonlinear_arith)
            requires
                size_words <= N / BYTES_PER_WORD,
                BYTES_PER_WORD == 8,
        ;
        Ok(zeroed_vec((N / BYTES_PER_WORD) * BYTES_PER_WORD))
    }

    fn deallocate_segment(&mut self, seg: Vec<u8>) {
    }
}

/// The borrowed strategy: backed by a caller-supplied window (a pooled
/// transport buffer), which must be zero-filled before use. The window is
/// handed out, truncated to a whole number of words, as the segment.
pub struct CapnpBorrowAlloc {
    buf: Vec<u8>,
    called: bool,
}

impl CapnpBorrowAlloc {
    /// The length of the backing window in bytes.
    pub closed spec fn capacity(&self) -> nat {
        self.buf@.len()
    }

    /// An un-granted store holds only zero bytes.
    #[verifier::type_invariant]
    spec fn zero_inv(&self) -> bool {
        !self.called ==> forall|i: int| 0 <= i < self.buf@.len() ==> self.buf@[i] == 0
    }

    /// Takes a window and zero-fills it.
    pub fn new(mut buf: Vec<u8>) -> (r: CapnpBorrowAlloc)
        ensures
            !r.engaged(),
            r.capacity() == buf@.len(),
    {
        let len = buf.len();
        let mut k: usize = 0;
        while k < len
            invariant
                k <= len,
                buf@.len() == len,
                forall|i: int| 0 <= i < k ==> buf@[i] == 0,
            decreases len - k,
        {
            buf.set(k, 0);
            k = k + 1;
        }
        CapnpBorrowAlloc { buf, called: false }
    }

    /// Takes a window on the caller's auditable promise that it is already
    /// zero-filled.
    pub fn new_assert_zeroed(buf: Vec<u8>) -> (r: CapnpBorrowAlloc)
        requires
            forall|i: int| 0 <= i < buf@.len() ==> buf@[i] == 0,
        ensures
            !r.engaged(),
            r.capacity() == buf@.len(),
    {
        CapnpBorrowAlloc { buf, called: false }
    }
}

impl CapnpBorrowAlloc {
    /// Hands the whole window to a fresh message builder.
    pub fn into_builder(self) -> (r: Result<crate::builder::MessageBuilder, AllocFault>)
        ensures
            r is Ok <==> !self.engaged(),
            r matches Ok(b) ==> b.wf() && b.spec_len() == 0 && b.capacity() == (self.capacity() / (
            BYTES_PER_WORD as nat)) * (BYTES_PER_WORD as nat),
    {
        proof {
            CapnpBorrowAlloc::lemma_caps(self);
        }
        crate::encoding::builder(self, 0)
    }

    /// What the borrowed strategy grants: requests of up to the window's
    /// length fit, and a grant hands out the whole window rounded down to
    /// whole words.
    pub proof fn lemma_caps(a: CapnpBorrowAlloc)
        ensures
            forall|sw: u32| #[trigger] a.can_grant(sw) <==> sw * BYTES_PER_WORD <= a.capacity(),
            forall|sw: u32| #[trigger] a.granted_words(sw) == a.capacity() / (
            BYTES_PER_WORD as nat),
    {
    }
}

impl Allocator for CapnpBorrowAlloc {
    closed spec fn engaged(&self) -> bool {
        self.called
    }

    closed spec fn can_grant(&self, size_words: u32) -> bool {
        size_words * BYTES_PER_WORD <= self.buf@.len()
    }

    closed spec fn granted_words(&self, size_words: u32) -> nat {
        self.buf@.len() / BYTES_PER_WORD as nat
    }

    closed spec fn post_allocate(pre: Self, post: Self, size_words: u32) -> bool {
        post.called && post.buf@.len() == 0
    }

    closed spec fn post_release(pre: Self, post: Self) -> bool {
        post == pre
    }

    fn allocate_segment(&mut self, size_words: u32) -> (r: Result<Vec<u8>, AllocFault>) {
        proof {
            use_type_invariant(&*self);
        }
        if self.called {
            return Err(AllocFault::AlreadyAllocated);
        }
        if (size_words as u64) * 8 > (self.buf.len() as u64) {
            return Err(AllocFault::OutOfCapacity);
        }
        let cap = self.buf.len();
        let ghost pre = *self;
        self.called = true;
        let mut seg: Vec<u8> = Vec::new();
        core::mem::swap(&mut seg, &mut self.buf);
        seg.truncate((cap / BYTES_PER_WORD) * BYTES_PER_WORD);
        assert(size_words <= cap / BYTES_PER_WORD && (cap / BYTES_PER_WORD) * BYTES_PER_WORD
            <= cap) by (nonlinear_arith)
            requires
                size_words * BYTES_PER_WORD <= cap,
                BYTES_PER_WORD == 8,
        ;
        assert(size_words * BYTES_PER_WORD <= (cap / BYTES_PER_WORD) * BYTES_PER_WORD)
            by (nonlinear_arith)
            requires
                size_words <= cap / BYTES_PER_WORD,
                BYTES_PER_WORD == 8,
        ;
        Ok(seg)
    }

    fn deallocate_segment(&mut self, seg: Vec<u8>) {
    }
}

/// The baseline watermark of the growable strategy, in words (1 KiB).
pub const HEAP_BASELINE_WORDS: u32 = 128;

/// The growable heap strategy: grants a zeroed heap segment at least as
/// large as a persisted watermark, and advances the watermark by the
/// granted size so that repeated short-lived uses amortize to the
/// high-water mark. Releasing the segment resets the watermark to the
/// baseline.
pub struct CapnpHeapAlloc {
    next_size: u32,
    live: bool,
}

impl CapnpHeapAlloc {
    /// The current watermark, in words.
    pub closed spec fn watermark(&self) -> u32 {
        self.next_size
    }

    pub fn new() -> (r: CapnpHeapAlloc)
        ensures
            !r.engaged(),
            r.watermark() == HEAP_BASELINE_WORDS,
    {
        CapnpHeapAlloc { next_size: HEAP_BASELINE_WORDS, live: false }
    }
}

impl Default for CapnpHeapAlloc {
    fn default() -> (r: CapnpHeapAlloc)
        ensures
            !r.engaged(),
            r.watermark() == HEAP_BASELINE_WORDS,
    {
        CapnpHeapAlloc::new()
    }
}

impl CapnpHeapAlloc {
    /// What the growable strategy grants: the watermark rounds every
    /// request up, any request fits while the advanced watermark still
    /// fits the machine's limits, and a grant advances the watermark by
    /// the granted size.
    pub proof fn lemma_caps(a: CapnpHeapAlloc)
        ensures
            forall|sw: u32|
                #[trigger] a.granted_words(sw) == if sw >= a.watermark() {
                    sw as nat
                } else {
                    a.watermark() as nat
                },
            forall|sw: u32|
                #[trigger] a.can_grant(sw) <==> (a.granted_words(sw) + a.watermark()
                    <= u32::MAX && a.granted_words(sw) * BYTES_PER_WORD <= usize::MAX),
    {
    }

    /// A successful grant engages the strategy and advances the watermark
    /// by the granted size.
    pub proof fn lemma_post_allocate(pre: CapnpHeapAlloc, post: CapnpHeapAlloc, size_words: u32)
        requires
            CapnpHeapAlloc::post_allocate(pre, post, size_words),
        ensures
            post.engaged(),
            post.watermark() == pre.watermark() + pre.granted_words(size_words),
    {
    }

    /// A release disengages the strategy and resets the watermark to the
    /// baseline.
    pub proof fn lemma_post_release(pre: CapnpHeapAlloc, post: CapnpHeapAlloc)
        requires
            CapnpHeapAlloc::post_release(pre, post),
        ensures
            !post.engaged(),
            post.watermark() == HEAP_BASELINE_WORDS,
    {
    }
}

impl Allocator for CapnpHeapAlloc {
    closed spec fn engaged(&self) -> bool {
        self.live
    }

    closed spec fn can_grant(&self, size_words: u32) -> bool {
        &&& self.granted_words(size_words) + self.next_size <= u32::MAX
        &&& self.granted_words(size_words) * BYTES_PER_WORD <= usize::MAX
    }

    closed spec fn granted_words(&self, size_words: u32) -> nat {
        if size_words >= self.next_size {
            size_words as nat
        } else {
            self.next_size as nat
        }
    }

    closed spec fn post_allocate(pre: Self, post: Self, size_words: u32) -> bool {
        post.live && post.next_size == pre.next_size + pre.granted_words(size_words)
    }

    closed spec fn post_release(pre: Self, post: Self) -> bool {
        !post.live && post.next_size == HEAP_BASELINE_WORDS
    }

    fn allocate_segment(&mut self, size_words: u32) -> (r: Result<Vec<u8>, AllocFault>) {
        if self.live {
            return Err(AllocFault::AlreadyAllocated);
        }
        let size = if size_words >= self.next_size {
            size_words
        } else {
            self.next_size
        };
        if size > u32::MAX - self.next_size {
            return Err(AllocFault::OutOfCapacity);
        }
        if (size as u64) * 8 > usize::MAX as u64 {
            return Err(AllocFault::OutOfCapacity);
        }
        self.next_size = self.next_size + size;
        self.live = true;
        Ok(zeroed_vec((size as usize) * BYTES_PER_WORD))
    }

    fn deallocate_segment(&mut self, seg: Vec<u8>) {
        self.next_size = HEAP_BASELINE_WORDS;
        self.live = false;
    }
}

} // verus!
