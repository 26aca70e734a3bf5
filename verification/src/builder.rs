//! The message builder facade: wraps the segment granted by one
//! allocation strategy and fills it front to back with the message's
//! word-aligned unpacked layout, within the segment's fixed capacity.

use vstd::prelude::*;

verus! {

use vstd::bytes::{spec_u16_to_le_bytes, spec_u32_to_le_bytes, u16_to_le_bytes, u32_to_le_bytes};
use vstd::slice::slice_index_get;

/// A fault raised while constructing a message. Like the allocation
/// faults these mark programming errors (a capacity estimate that was too
/// small, a misused builder, a construction step that gave up); the encode
/// pipeline catches them at its boundary and reports a typed error.
#[derive(Clone, PartialEq, Eq, Debug)]
pub enum BuildFault {
    /// The allocation strategy itself faulted.
    Alloc(crate::allocators::AllocFault),
    /// The message needs more bytes than the granted segment holds.
    OutOfSpace,
    /// A root was initialized twice in one builder.
    RootAlreadySet,
    /// The construction closure gave up, carrying its own message.
    Aborted(String),
}

/// `n` zero bytes.
pub open spec fn spec_zeros(n: int) -> Seq<u8> {
    Seq::new(n as nat, |i: int| 0u8)
}

/// Builds one message into an owned segment, front to back.
pub struct MessageBuilder {
    seg: Vec<u8>,
    len: usize,
}

impl MessageBuilder {
    /// The segment's capacity in bytes.
    pub closed spec fn capacity(&self) -> nat {
        self.seg@.len()
    }

    /// How many bytes have been built so far.
    pub open spec fn spec_len(&self) -> nat {
        self.contents().len()
    }

    /// The bytes built so far.
    pub closed spec fn contents(&self) -> Seq<u8> {
        self.seg@.take(self.len as int)
    }

    /// The built prefix never outgrows the segment.
    pub closed spec fn wf(&self) -> bool {
        self.len <= self.seg@.len()
    }

    /// What well-formedness gives: the built prefix fits the capacity and
    /// is as long as the builder says.
    pub proof fn lemma_wf(&self)
        requires
            self.wf(),
        ensures
            self.spec_len() <= self.capacity(),
    {
    }

    /// Wraps a segment granted by an allocation strategy.
    pub fn from_segment(seg: Vec<u8>) -> (r: MessageBuilder)
        ensures
            r.wf(),
            r.capacity() == seg@.len(),
            r.contents() == Seq::<u8>::empty(),
            r.spec_len() == 0,
    {
        let r = MessageBuilder { seg, len: 0 };
        assert(r.contents() =~= Seq::<u8>::empty());
        r
    }

    /// How many bytes have been built so far.
    pub fn built_len(&self) -> (n: usize)
        requires
            self.wf(),
        ensures
            n == self.spec_len(),
    {
        self.len
    }

    /// The segment's capacity in bytes.
    pub fn capacity_bytes(&self) -> (n: usize)
        ensures
            n == self.capacity(),
    {
        self.seg.len()
    }

    /// The built prefix, as a slice.
    pub fn built_bytes(&self) -> (r: &[u8])
        requires
            self.wf(),
        ensures
            r@ == self.contents(),
    {
        vstd::slice::slice_subrange(self.seg.as_slice(), 0, self.len)
    }

    /// Appends raw bytes, faulting when they do not fit the segment.
    pub fn append_bytes(&mut self, s: &[u8]) -> (r: Result<(), BuildFault>)
        requires
            old(self).wf(),
        ensures
            final(self).wf(),
            final(self).capacity() == old(self).capacity(),
            r is Ok <==> old(self).spec_len() + s@.len() <= old(self).capacity(),
            r is Ok ==> final(self).contents() == old(self).contents() + s@,
            r matches Err(f) ==> *final(self) == *old(self) && f == BuildFault::OutOfSpace,
    {
        let m = s.len();
        let cap = self.seg.len();
        if m > cap - self.len {
            return Err(BuildFault::OutOfSpace);
        }
        let ghost pre = *self;
        let base = self.len;
        let mut k: usize = 0;
        while k < m
            invariant
                k <= m,
                m == s@.len(),
                base == pre.len,
                base + m <= cap,
                self.len == pre.len,
                self.seg@.len() == cap,
                pre.seg@.len() == cap,
                forall|i: int| 0 <= i < base ==> #[trigger] self.seg@[i] == pre.seg@[i],
                forall|i: int| base <= i < base + k ==> #[trigger] self.seg@[i] == s@[i - base],
            decreases m - k,
        {
            let b = *slice_index_get(s, k);
            self.seg.set(base + k, b);
            k = k + 1;
        }
        self.len = base + m;
        assert(self.contents() =~= pre.contents() + s@);
        Ok(())
    }

    /// Appends one byte.
    pub fn append_u8(&mut self, b: u8) -> (r: Result<(), BuildFault>)
        requires
            old(self).wf(),
        ensures
            final(self).wf(),
            final(self).capacity() == old(self).capacity(),
            r is Ok <==> old(self).spec_len() + 1 <= old(self).capacity(),
            r is Ok ==> final(self).contents() == old(self).contents() + seq![b],
            r matches Err(f) ==> *final(self) == *old(self) && f == BuildFault::OutOfSpace,
    {
        if self.len >= self.seg.len() {
            return Err(BuildFault::OutOfSpace);
        }
        self.seg.set(self.len, b);
        self.len = self.len + 1;
        assert(self.contents() =~= old(self).contents() + seq![b]);
        Ok(())
    }

    /// Appends a 16-bit value, little-endian.
    pub fn append_u16(&mut self, v: u16) -> (r: Result<(), BuildFault>)
        requires
            old(self).wf(),
        ensures
            final(self).wf(),
            final(self).capacity() == old(self).capacity(),
            r is Ok <==> old(self).spec_len() + 2 <= old(self).capacity(),
            r is Ok ==> final(self).contents() == old(self).contents() + spec_u16_to_le_bytes(v),
            r matches Err(f) ==> *final(self) == *old(self) && f == BuildFault::OutOfSpace,
    {
        let tmp = u16_to_le_bytes(v);
        self.append_bytes(tmp.as_slice())
    }

    /// Appends a 32-bit value, little-endian.
    pub fn append_u32(&mut self, v: u32) -> (r: Result<(), BuildFault>)
        requires
            old(self).wf(),
        ensures
            final(self).wf(),
            final(self).capacity() == old(self).capacity(),
            r is Ok <==> old(self).spec_len() + 4 <= old(self).capacity(),
            r is Ok ==> final(self).contents() == old(self).contents() + spec_u32_to_le_bytes(v),
            r matches Err(f) ==> *final(self) == *old(self) && f == BuildFault::OutOfSpace,
    {
        let tmp = u32_to_le_bytes(v);
        self.append_bytes(tmp.as_slice())
    }

    /// Appends `n` zero bytes.
    pub fn append_zeros(&mut self, n: usize) -> (r: Result<(), BuildFault>)
        requires
            old(self).wf(),
        ensures
            final(self).wf(),
            final(self).capacity() == old(self).capacity(),
            r is Ok <==> old(self).spec_len() + n <= old(self).capacity(),
            r is Ok ==> final(self).contents() == old(self).contents() + spec_zeros(n as int),
            r matches Err(f) ==> *final(self) == *old(self) && f == BuildFault::OutOfSpace,
    {
        let cap = self.seg.len();
        if n > cap - self.len {
            return Err(BuildFault::OutOfSpace);
        }
        let ghost pre = *self;
        let base = self.len;
        let mut k: usize = 0;
        while k < n
            invariant
                k <= n,
                base == pre.len,
                base + n <= cap,
                self.len == pre.len,
                self.seg@.len() == cap,
                pre.seg@.len() == cap,
                forall|i: int| 0 <= i < base ==> #[trigger] self.seg@[i] == pre.seg@[i],
                forall|i: int| base <= i < base + k ==> #[trigger] self.seg@[i] == 0,
            decreases n - k,
        {
            self.seg.set(base + k, 0);
            k = k + 1;
        }
        self.len = base + n;
        assert(self.contents() =~= pre.contents() + spec_zeros(n as int));
        Ok(())
    }

    /// Hands the segment back, with the number of built bytes.
    pub fn into_segment(self) -> (r: (Vec<u8>, usize))
        requires
            self.wf(),
        ensures
            r.0@.len() == self.capacity(),
            r.0@.take(r.1 as int) == self.contents(),
            r.1 == self.spec_len(),
    {
        let MessageBuilder { seg, len } = self;
        assert(seg@.take(len as int) =~= seg@.take(len as int));
        (seg, len)
    }
}

} // verus!
