//! The bounded byte buffer: construction, access, and bounded insertion.

use vstd::prelude::*;

use crate::Error;

verus! {

/// A contiguous byte buffer whose length never exceeds the compile-time
/// capacity `N`. Storage is owned exclusively; every operation that would
/// grow the content past `N` fails and leaves the buffer unchanged.
#[derive(Eq, Hash, Debug)]
pub struct Bytes<const N: usize> {
    bytes: Vec<u8>,
}

impl<const N: usize> View for Bytes<N> {
    type V = Seq<u8>;

    closed spec fn view(&self) -> Seq<u8> {
        self.bytes@
    }
}

/// Appends `src[from..to]` to `out`.
#[verifier::loop_isolation(false)]
pub(crate) fn push_range(out: &mut Vec<u8>, src: &[u8], from: usize, to: usize)
    requires
        from <= to <= src@.len(),
    ensures
        final(out)@ == old(out)@ + src@.subrange(from as int, to as int),
{
    let mut i: usize = from;
    while i < to
        invariant
            from <= i <= to,
            out@ == old(out)@ + src@.subrange(from as int, i as int),
        decreases to - i,
    {
        out.push(src[i]);
        proof {
            assert(out@ =~= old(out)@ + src@.subrange(from as int, (i + 1) as int));
        }
        i = i + 1;
    }
}

impl<const N: usize> Bytes<N> {
    /// Capacity bound: the buffer never holds more than `N` bytes.
    pub open spec fn wf(&self) -> bool {
        self@.len() <= N
    }

    /// Constructs a new, empty buffer.
    pub fn new() -> (r: Self)
        ensures
            r@ == Seq::<u8>::empty(),
            r.wf(),
    {
        Bytes { bytes: Vec::new() }
    }

    /// Wraps an already-bounded byte vector without copying.
    pub fn from(bytes: Vec<u8>) -> (r: Self)
        requires
            bytes@.len() <= N,
        ensures
            r@ == bytes@,
            r.wf(),
    {
        Bytes { bytes }
    }

    /// Unwraps the byte vector underlying this buffer, consuming it.
    pub fn into_vec(self) -> (r: Vec<u8>)
        ensures
            r@ == self@,
    {
        self.bytes
    }

    /// The current length of the content.
    pub fn len(&self) -> (r: usize)
        ensures
            r == self@.len(),
    {
        self.bytes.len()
    }

    /// True when the buffer holds no bytes.
    pub fn is_empty(&self) -> (r: bool)
        ensures
            r <==> self@.len() == 0,
    {
        self.bytes.len() == 0
    }

    /// The compile-time capacity.
    pub fn capacity(&self) -> (r: usize)
        ensures
            r == N,
    {
        N
    }

    /// Read-only view of the content as a byte slice.
    pub fn as_slice(&self) -> (r: &[u8])
        ensures
            r@ == self@,
    {
        self.bytes.as_slice()
    }

    /// Mutable view of the content as a byte slice: bulk in-place writes
    /// that can change the bytes but never the length, so the capacity
    /// bound is kept by construction.
    pub fn as_mut_slice(&mut self) -> (r: &mut [u8])
        ensures
            r@ == old(self)@,
            final(r)@ == final(self)@,
    {
        self.bytes.as_mut_slice()
    }

    /// The byte at position `i`.
    pub fn get(&self, i: usize) -> (r: u8)
        requires
            i < self@.len(),
        ensures
            r == self@[i as int],
    {
        self.bytes[i]
    }

    /// Overwrites the byte at position `i`; the length does not change.
    pub fn set(&mut self, i: usize, b: u8)
        requires
            i < old(self)@.len(),
            old(self).wf(),
        ensures
            final(self)@ == old(self)@.update(i as int, b),
            final(self).wf(),
    {
        let p = vstd::std_specs::vec::vec_index_mut(&mut self.bytes, i);
        *p = b;
    }

    /// Copies `slice` into a fresh buffer. Succeeds exactly when the slice
    /// fits the capacity; otherwise nothing is built.
    pub fn try_from_slice(slice: &[u8]) -> (r: Result<Self, Error>)
        ensures
            r is Ok <==> slice@.len() <= N,
            r matches Ok(b) ==> b@ == slice@ && b.wf(),
            r matches Err(e) ==> e == Error::CapacityExceeded,
    {
        if slice.len() > N {
            return Err(Error::CapacityExceeded);
        }
        let mut bytes: Vec<u8> = Vec::new();
        push_range(&mut bytes, slice, 0, slice.len());
        proof {
            assert(bytes@ =~= slice@);
        }
        Ok(Bytes { bytes })
    }

    /// Appends `slice` to the content. Succeeds exactly when the grown
    /// content fits the capacity; on failure the buffer is unchanged.
    pub fn extend_from_slice(&mut self, slice: &[u8]) -> (r: Result<(), Error>)
        requires
            old(self).wf(),
        ensures
            final(self).wf(),
            r is Ok <==> old(self)@.len() + slice@.len() <= N,
            r is Ok ==> final(self)@ == old(self)@ + slice@,
            r matches Err(e) ==> e == Error::CapacityExceeded && final(self)@ == old(self)@,
    {
        if slice.len() > N - self.bytes.len() {
            return Err(Error::CapacityExceeded);
        }
        push_range(&mut self.bytes, slice, 0, slice.len());
        proof {
            assert(old(self)@ + slice@.subrange(0, slice@.len() as int) =~= old(self)@ + slice@);
        }
        Ok(())
    }

    /// Appends one byte. When the buffer is already full, fails with
    /// `InvalidLength` carrying the attempted size `N + 1` and changes
    /// nothing; this is the incremental step of the sequence-shaped decode.
    pub fn push_byte(&mut self, b: u8) -> (r: Result<(), Error>)
        requires
            old(self).wf(),
            N < usize::MAX,
        ensures
            final(self).wf(),
            old(self)@.len() < N ==> r is Ok && final(self)@ == old(self)@.push(b),
            old(self)@.len() == N ==> (r matches Err(e) && e == Error::InvalidLength(
                (N + 1) as usize,
            ) && final(self)@ == old(self)@),
    {
        if self.bytes.len() < N {
            self.bytes.push(b);
            Ok(())
        } else {
            Err(Error::InvalidLength(N + 1))
        }
    }

    /// Inserts `slice` at byte offset `at`, shifting the suffix `[at, len)`
    /// rightward. Offsets outside the current content are rejected with
    /// `InvalidIndex`; content that would outgrow the capacity is rejected
    /// with `CapacityExceeded`. Either failure leaves the buffer unchanged.
    pub fn insert_slice_at(&mut self, slice: &[u8], at: usize) -> (r: Result<(), Error>)
        requires
            old(self).wf(),
        ensures
            final(self).wf(),
            at > old(self)@.len() ==> (r matches Err(e) && e == Error::InvalidIndex
                && final(self)@ == old(self)@),
            at <= old(self)@.len() && old(self)@.len() + slice@.len() > N ==> (r matches Err(e)
                && e == Error::CapacityExceeded && final(self)@ == old(self)@),
            at <= old(self)@.len() && old(self)@.len() + slice@.len() <= N ==> r is Ok
                && final(self)@ == old(self)@.subrange(0, at as int) + slice@ + old(self)@.skip(
                at as int,
            ),
    {
        let l = self.bytes.len();
        if at > l {
            return Err(Error::InvalidIndex);
        }
        if slice.len() > N - l {
            return Err(Error::CapacityExceeded);
        }
        let mut out: Vec<u8> = Vec::new();
        push_range(&mut out, self.bytes.as_slice(), 0, at);
        push_range(&mut out, slice, 0, slice.len());
        push_range(&mut out, self.bytes.as_slice(), at, l);
        proof {
            assert(out@ =~= self@.subrange(0, at as int) + slice@ + self@.skip(at as int));
        }
        self.bytes = out;
        Ok(())
    }
}

impl<const N: usize> Default for Bytes<N> {
    /// The default buffer is empty.
    fn default() -> (r: Self)
        ensures
            r@ == Seq::<u8>::empty(),
            r.wf(),
    {
        Bytes::new()
    }
}

impl<const N: usize> Clone for Bytes<N> {
    /// The clone carries the same bytes.
    fn clone(&self) -> (r: Self)
        ensures
            r@ == self@,
    {
        let mut bytes: Vec<u8> = Vec::new();
        push_range(&mut bytes, self.bytes.as_slice(), 0, self.bytes.len());
        proof {
            assert(bytes@ =~= self@);
        }
        Bytes { bytes }
    }
}

} // verus!
