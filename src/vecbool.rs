//! The packed boolean vector.

use vstd::prelude::*;
use vstd::std_specs::iter::IteratorSpec;

use crate::bits::{chunk_bit, lemma_clear_bit, lemma_set_bit, lemma_zero_chunk};

verus! {

/// Underlying datatype to store the bits.
type Chunk = u8;

/// Number of bits held by one chunk.
pub const CHUNK_SIZE: usize = 8;

/// A growable sequence of booleans, stored one bit each in a `Vec` of chunks.
///
/// Bit `i` lives in chunk `i / CHUNK_SIZE`, at bit `i % CHUNK_SIZE` counted from the
/// least significant end. The chunks hold room for at least `len` bits; the bits past
/// `len` are never part of the contents.
pub struct VecBool {
    len: usize,
    chunks: Vec<Chunk>,
}

/// The element of `s` at `i`, or `None` where `i` lies outside `s`.
pub open spec fn element_at(s: Seq<bool>, i: int) -> Option<bool> {
    if 0 <= i < s.len() {
        Some(s[i])
    } else {
        None
    }
}

impl View for VecBool {
    type V = Seq<bool>;

    /// The contents: the first `len` bit slots.
    closed spec fn view(&self) -> Seq<bool> {
        self.slots().take(self.len as int)
    }
}

impl VecBool {
    /// Every bit slot of the storage in index order, including the stale ones past `len`.
    pub closed spec fn slots(&self) -> Seq<bool> {
        Seq::new(
            (self.chunks@.len() * 8) as nat,
            |i: int| chunk_bit(self.chunks@[i / 8], (i % 8) as u8),
        )
    }

    /// Number of chunks held.
    pub closed spec fn chunk_count(&self) -> nat {
        self.chunks@.len()
    }

    /// Number of bit slots held.
    pub open spec fn spec_capacity(&self) -> nat {
        self.chunk_count() * 8
    }

    /// The storage has a slot for every element, and its bit count fits in `usize`.
    pub closed spec fn wf(&self) -> bool {
        &&& self.len <= self.chunks@.len() * 8
        &&& self.chunks@.len() * 8 <= usize::MAX
    }

    /// What well-formedness says of the view, the bit slots and the chunk count.
    pub proof fn lemma_wf(&self)
        requires
            self.wf(),
        ensures
            self@.len() <= self.chunk_count() * 8,
            self.slots().len() == self.spec_capacity(),
            self.chunk_count() * 8 <= usize::MAX,
    {
        self.lemma_view();
    }

    proof fn lemma_view(&self)
        requires
            self.wf(),
        ensures
            self@.len() == self.len,
            self.slots().len() == self.chunks@.len() * 8,
            forall|i: int| 0 <= i < self.len ==> #[trigger] self@[i] == self.slots()[i],
    {
    }

    /// Creates a new empty `VecBool`. Does not allocate until elements are added.
    pub fn new() -> (r: Self)
        ensures
            r.wf(),
            r@ == Seq::<bool>::empty(),
            r.chunk_count() == 0,
    {
        let r = Self { chunks: Vec::new(), len: 0 };
        proof {
            assert(r@ =~= Seq::<bool>::empty());
        }
        r
    }

    /// Creates an empty `VecBool` with `capacity / CHUNK_SIZE + 1` zeroed chunks ready, so
    /// that at least `capacity` elements fit before the storage grows.
    pub fn with_capacity(capacity: usize) -> (r: Self)
        requires
            capacity <= usize::MAX - 8,
        ensures
            r.wf(),
            r@ == Seq::<bool>::empty(),
            r.chunk_count() == capacity / 8 + 1,
            r.spec_capacity() >= capacity,
    {
        let r = Self { chunks: vec![0; (capacity / CHUNK_SIZE) + 1], len: 0 };
        proof {
            assert(r@ =~= Seq::<bool>::empty());
        }
        r
    }

    /// Creates a `VecBool` of `len` elements, all `false`, in `len / CHUNK_SIZE + 1`
    /// zeroed chunks.
    pub fn with_zeros(len: usize) -> (r: Self)
        requires
            (len / 8 + 1) * 8 <= usize::MAX,
        ensures
            r.wf(),
            r@ == Seq::new(len as nat, |i: int| false),
            r.chunk_count() == len / 8 + 1,
    {
        let r = Self { chunks: vec![0; (len / CHUNK_SIZE) + 1], len };
        proof {
            assert forall|i: int| 0 <= i < r.slots().len() implies !r.slots()[i] by {
                assert(r.chunks@[i / 8] == 0u8);
                lemma_zero_chunk((i % 8) as u8);
            }
            r.lemma_view();
            assert(r@ =~= Seq::new(len as nat, |i: int| false));
        }
        r
    }

    /// Splits an index into the index of its chunk and the mask of its bit in that chunk.
    fn get_index(index: usize) -> (r: (usize, Chunk))
        ensures
            r.0 == index / 8,
            r.1 == 1u8 << ((index % 8) as u8),
    {
        let chunk_index = index / CHUNK_SIZE;
        let shifts = (index % CHUNK_SIZE) as u8;
        let mask: Chunk = 1 << shifts;
        (chunk_index, mask)
    }

    /// Number of elements.
    pub fn len(&self) -> (r: usize)
        requires
            self.wf(),
        ensures
            r == self@.len(),
    {
        proof {
            self.lemma_view();
        }
        self.len
    }

    /// Number of bit slots held: the chunk count times `CHUNK_SIZE`.
    pub fn capacity(&self) -> (r: usize)
        requires
            self.wf(),
        ensures
            r == self.spec_capacity(),
    {
        self.chunks.len() * CHUNK_SIZE
    }

    /// The bit in slot `index`, which must lie within the storage.
    pub fn get_unchecked(&self, index: usize) -> (r: bool)
        requires
            self.wf(),
            index < self.spec_capacity(),
        ensures
            r == self.slots()[index as int],
            index < self@.len() ==> r == self@[index as int],
    {
        proof {
            self.lemma_view();
        }
        let (chunk_index, mask) = VecBool::get_index(index);
        let bits = self.chunks[chunk_index];
        (bits & mask) != 0
    }

    /// The element at `index`, or `None` where `index` is not below the length.
    pub fn get(&self, index: usize) -> (r: Option<bool>)
        requires
            self.wf(),
        ensures
            r == element_at(self@, index as int),
    {
        proof {
            self.lemma_view();
        }
        if index >= self.len {
            return None;
        }
        Some(self.get_unchecked(index))
    }

    /// Writes `value` into slot `index`, which must lie within the storage.
    pub fn set_unchecked(&mut self, index: usize, value: bool)
        requires
            old(self).wf(),
            index < old(self).spec_capacity(),
        ensures
            final(self).wf(),
            final(self).slots() == old(self).slots().update(index as int, value),
            final(self)@ == if index < old(self)@.len() {
                old(self)@.update(index as int, value)
            } else {
                old(self)@
            },
            final(self).chunk_count() == old(self).chunk_count(),
    {
        let ghost before = *self;
        let (chunk_index, mask) = VecBool::get_index(index);
        let ghost k = (index % 8) as u8;
        let c = self.chunks[chunk_index];
        if value {
            self.chunks.set(chunk_index, c | mask);
        } else {
            self.chunks.set(chunk_index, c & !mask);
        }
        proof {
            assert forall|i: int| 0 <= i < self.slots().len() implies self.slots()[i]
                == before.slots().update(index as int, value)[i] by {
                if i / 8 == index / 8 {
                    let j = (i % 8) as u8;
                    if value {
                        lemma_set_bit(c, k, j);
                    } else {
                        lemma_clear_bit(c, k, j);
                    }
                }
            }
            assert(self.slots() =~= before.slots().update(index as int, value));
            before.lemma_view();
            self.lemma_view();
            if index < before@.len() {
                assert(self@ =~= before@.update(index as int, value));
            } else {
                assert(self@ =~= before@);
            }
        }
    }

    /// Writes `value` at `index` when `index` is below the length, and tells whether it did.
    /// Out of range, nothing changes.
    pub fn set(&mut self, index: usize, value: bool) -> (r: bool)
        requires
            old(self).wf(),
        ensures
            final(self).wf(),
            r == (index < old(self)@.len()),
            r ==> final(self)@ == old(self)@.update(index as int, value)
                && final(self).chunk_count() == old(self).chunk_count(),
            !r ==> *final(self) == *old(self),
    {
        proof {
            self.lemma_view();
        }
        if index >= self.len {
            return false;
        }
        self.set_unchecked(index, value);
        true
    }

    /// Appends `value`. When every slot is taken, one zeroed chunk is added first.
    pub fn push(&mut self, value: bool)
        requires
            old(self).wf(),
            old(self)@.len() < old(self).spec_capacity() || old(self).spec_capacity() + 8
                <= usize::MAX,
        ensures
            final(self).wf(),
            final(self)@ == old(self)@.push(value),
            final(self).chunk_count() == if old(self)@.len() == old(self).spec_capacity() {
                old(self).chunk_count() + 1
            } else {
                old(self).chunk_count()
            },
    {
        let ghost before = *self;
        proof {
            before.lemma_view();
        }
        if self.len >= self.capacity() {
            self.chunks.push(0);
        }
        let ghost grown = *self;
        assert forall|i: int| 0 <= i < before.slots().len() implies grown.slots()[i]
            == before.slots()[i] by {
            assert(i / 8 < before.chunks@.len());
        }
        self.len += 1;
        let last = self.len - 1;
        self.set_unchecked(last, value);
        proof {
            self.lemma_view();
            assert(self@ =~= before@.push(value));
        }
    }

    /// Removes the last element and returns it, or `None` when empty. When the length left
    /// is a multiple of `CHUNK_SIZE`, the last chunk is released.
    pub fn pop(&mut self) -> (r: Option<bool>)
        requires
            old(self).wf(),
        ensures
            final(self).wf(),
            old(self)@.len() == 0 ==> r is None && *final(self) == *old(self),
            old(self)@.len() > 0 ==> {
                &&& r == Some(old(self)@.last())
                &&& final(self)@ == old(self)@.drop_last()
                &&& final(self).chunk_count() == if (old(self)@.len() - 1) % 8 == 0 {
                    (old(self).chunk_count() - 1) as nat
                } else {
                    old(self).chunk_count()
                }
            },
    {
        let ghost before = *self;
        proof {
            before.lemma_view();
        }
        if self.len == 0 {
            return None;
        }
        let data = self.get_unchecked(self.len - 1);
        self.len -= 1;
        if self.len % CHUNK_SIZE == 0 {
            self.chunks.pop();
        }
        proof {
            assert forall|i: int| 0 <= i < self.slots().len() implies self.slots()[i]
                == before.slots()[i] by {
                assert(i / 8 < self.chunks@.len());
            }
            self.lemma_view();
            assert(self@ =~= before@.drop_last());
        }
        Some(data)
    }

    /// The elements in index order, each read from its bit slot.
    pub fn iter(&self) -> (r: std::vec::IntoIter<bool>)
        requires
            self.wf(),
        ensures
            r.remaining() == self@,
    {
        proof {
            self.lemma_view();
        }
        let mut out: Vec<bool> = Vec::with_capacity(self.len);
        let mut i: usize = 0;
        while i < self.len
            invariant
                self.wf(),
                i <= self.len,
                out@ == self@.take(i as int),
            decreases self.len - i,
        {
            out.push(self.get_unchecked(i));
            proof {
                assert(out@ =~= self@.take(i + 1));
            }
            i += 1;
        }
        proof {
            assert(out@ =~= self@);
        }
        out.into_iter()
    }
}

} // verus!
