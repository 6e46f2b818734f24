//! The machine's memory: a flat region of bytes of fixed capacity.

use vstd::prelude::*;

verus! {

/// A flat, byte-addressable region. Its capacity is fixed when it is made,
/// and every byte starts as zero.
pub struct Memory {
    bytes: Vec<u8>,
    size: usize,
}

impl View for Memory {
    type V = Seq<u8>;

    closed spec fn view(&self) -> Seq<u8> {
        self.bytes@
    }
}

impl Memory {
    /// The size that the region records.
    pub closed spec fn size(&self) -> nat {
        self.size as nat
    }

    /// The recorded size is the number of bytes held.
    pub open spec fn wf(&self) -> bool {
        self.size() == self@.len()
    }

    /// A region of `n` zero bytes.
    pub fn new(n: usize) -> (m: Memory)
        ensures
            m.wf(),
            m.size() == n,
            m@.len() == n,
            forall|i: int| 0 <= i < n ==> m@[i] == 0,
    {
        Self { bytes: vec![0; n], size: n }
    }

    /// The number of bytes in the region.
    pub fn capacity(&self) -> (n: usize)
        requires
            self.wf(),
        ensures
            n == self.size(),
            n == self@.len(),
    {
        self.size
    }

    /// The byte at an offset, or `None` for an offset at or beyond the
    /// capacity.
    pub fn read(&self, offset: usize) -> (b: Option<u8>)
        requires
            self.wf(),
        ensures
            b == if offset < self@.len() {
                Some(self@[offset as int])
            } else {
                None
            },
    {
        if offset < self.size {
            Some(self.bytes[offset])
        } else {
            None
        }
    }

    /// Stores a byte at an offset and says whether it did. For an offset
    /// at or beyond the capacity nothing is written.
    pub fn write(&mut self, offset: usize, value: u8) -> (done: bool)
        requires
            old(self).wf(),
        ensures
            final(self).wf(),
            done == (offset < old(self)@.len()),
            final(self)@ == if done {
                old(self)@.update(offset as int, value)
            } else {
                old(self)@
            },
    {
        if offset < self.size {
            self.bytes.set(offset, value);
            true
        } else {
            false
        }
    }

    /// Copies `data` to the start of the region and says whether it did.
    /// Data longer than the capacity is not copied at all.
    pub fn fill(&mut self, data: &Vec<u8>) -> (done: bool)
        requires
            old(self).wf(),
        ensures
            final(self).wf(),
            done == (data@.len() <= old(self)@.len()),
            final(self)@ == if done {
                data@ + old(self)@.subrange(data@.len() as int, old(self)@.len() as int)
            } else {
                old(self)@
            },
    {
        if data.len() > self.size {
            return false;
        }
        let mut i: usize = 0;
        while i < data.len()
            invariant
                self.wf(),
                i <= data.len() <= self.size,
                self@.len() == old(self)@.len(),
                self@ == data@.subrange(0, i as int) + old(self)@.subrange(
                    i as int,
                    old(self)@.len() as int,
                ),
            decreases data.len() - i,
        {
            self.bytes.set(i, data[i]);
            i += 1;
            assert(self@ =~= data@.subrange(0, i as int) + old(self)@.subrange(
                i as int,
                old(self)@.len() as int,
            ));
        }
        assert(data@.subrange(0, i as int) =~= data@);
        true
    }
}

} // verus!
