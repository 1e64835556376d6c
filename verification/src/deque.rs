//! A double-ended queue over a circular buffer.
//!
//! Elements can be added or removed at both the back and the front end.
//! Underneath the hood, [`Deque`] stores its values in a contiguous growable
//! memory block used as a ring buffer: two cursors, `tail` and `head`,
//! delimit the live region, and index arithmetic wraps around the block's
//! capacity. One slot is always held in reserve so that an empty ring can be
//! told apart from a full one.

use vstd::prelude::*;

verus! {

/// Initial number of slots of a fresh deque. Kept small so that buffer
/// expansion is exercised early; must be a power of two.
const DEFAULT_CAPACITY: usize = 1;

/// A growable, contiguous memory block that stores homogeneous elements.
///
/// This plays the role of a raw allocation: it knows its capacity (the
/// number of element slots) but nothing about logical ordering or which
/// slots hold live values. A vacant slot holds `None`; the ring buffer
/// logic above it never reads a vacant slot as a value.
struct RawVec<T> {
    slots: Vec<Option<T>>,
}

/// Holds when `n` is a power of two.
spec fn is_pow2(n: int) -> bool
    decreases n,
{
    if n <= 0 {
        false
    } else if n == 1 {
        true
    } else {
        n % 2 == 0 && is_pow2(n / 2)
    }
}

impl<T> RawVec<T> {
    /// Number of element slots the block can hold.
    spec fn spec_cap(&self) -> int {
        self.slots@.len() as int
    }

    /// The block's own invariant: at least one slot, and a power-of-two
    /// count of slots, so that index wraparound stays well behaved.
    spec fn wf(&self) -> bool {
        &&& self.spec_cap() >= 1
        &&& is_pow2(self.spec_cap())
    }

    /// Creates a block of `cap` vacant slots.
    fn with_capacity(cap: usize) -> (r: Self)
        requires
            cap >= 1,
        ensures
            r.spec_cap() == cap,
            forall|k: int| 0 <= k < cap ==> r.slots@[k] is None,
    {
        let mut slots: Vec<Option<T>> = Vec::new();
        let mut i: usize = 0;
        while i < cap
            invariant
                i <= cap,
                slots@.len() == i,
                forall|k: int| 0 <= k < i ==> slots@[k] is None,
            decreases cap - i,
        {
            slots.push(None);
            i += 1;
        }
        RawVec { slots }
    }

    /// Doubles the capacity of the block, keeping the contents of the
    /// previously allocated prefix. A block that somehow had no slots at
    /// all would be given a single one.
    fn grow(&mut self)
        ensures
            final(self).spec_cap() == if old(self).spec_cap() == 0 {
                1int
            } else {
                2 * old(self).spec_cap()
            },
            forall|k: int|
                0 <= k < old(self).spec_cap() ==> final(self).slots@[k] == old(self).slots@[k],
            forall|k: int|
                old(self).spec_cap() <= k < final(self).spec_cap()
                    ==> final(self).slots@[k] is None,
    {
        let old_cap = self.slots.len();
        if old_cap == 0 {
            self.slots.push(None);
        } else {
            let mut i: usize = 0;
            while i < old_cap
                invariant
                    i <= old_cap,
                    self.slots@.len() == old_cap + i,
                    forall|k: int| 0 <= k < old_cap ==> self.slots@[k] == old(self).slots@[k],
                    forall|k: int| old_cap <= k < old_cap + i ==> self.slots@[k] is None,
                decreases old_cap - i,
            {
                self.slots.push(None);
                i += 1;
            }
        }
    }
}

/// A double-ended queue over a ring buffer.
///
/// `tail` is the slot of the first live element and `head` the slot one
/// past the last one; the live region runs from `tail` towards `head`,
/// wrapping around the end of the block. The abstract value of the queue
/// is the sequence of its live elements from front to back.
pub struct Deque<T> {
    tail: usize,
    head: usize,
    ring_buf: RawVec<T>,
}

impl<T> Deque<T> {
    /// Capacity of the backing block.
    spec fn spec_cap(&self) -> int {
        self.ring_buf.spec_cap()
    }

    /// Number of live elements: the distance from `tail` up to `head`,
    /// going around the ring, which is `(head - tail) mod capacity`.
    spec fn spec_len(&self) -> int {
        if self.head >= self.tail {
            self.head - self.tail
        } else {
            self.spec_cap() - (self.tail - self.head)
        }
    }

    /// Slot of the `i`-th live element, counting from the front.
    spec fn slot_index(&self, i: int) -> int {
        if self.tail + i < self.spec_cap() {
            self.tail + i
        } else {
            self.tail + i - self.spec_cap()
        }
    }

    /// Holds when slot `k` lies in the live region.
    spec fn live_slot(&self, k: int) -> bool {
        if self.head >= self.tail {
            self.tail <= k < self.head
        } else {
            0 <= k < self.head || self.tail <= k < self.spec_cap()
        }
    }

    /// Well-formedness: the block keeps its own invariant, both cursors
    /// point into the block, and every slot of the live region is
    /// occupied. Because one slot stays in reserve, the live length never
    /// exceeds `capacity - 1`; that bound follows from the cursor ranges.
    #[verifier::type_invariant]
    spec fn wf(&self) -> bool {
        &&& self.ring_buf.wf()
        &&& self.tail < self.spec_cap()
        &&& self.head < self.spec_cap()
        &&& forall|k: int|
            0 <= k < self.spec_cap() && self.live_slot(k) ==> (#[trigger] self.ring_buf.slots@[
                k
            ]) is Some
    }

    /// Constructs a new, empty deque with a single-slot block.
    pub fn new() -> (d: Self)
        ensures
            d@ == Seq::<T>::empty(),
    {
        let d = Deque { tail: 0, head: 0, ring_buf: RawVec::with_capacity(DEFAULT_CAPACITY) };
        proof {
            assert(d@ =~= Seq::<T>::empty());
        }
        d
    }

    /// Prepends the given element value to the beginning of the container.
    pub fn push_front(&mut self, elem: T)
        ensures
            final(self)@ == seq![elem] + old(self)@,
    {
        self.try_resize();
        proof {
            use_type_invariant(&*self);
        }
        let ghost pre = *self;
        let new_tail = self.wrapping_sub(self.tail, 1);
        self.ring_buf.slots[new_tail] = Some(elem);
        self.tail = new_tail;
        proof {
            assert forall|i: int| 0 <= i < self@.len() implies self@[i] == (seq![elem] + pre@)[
                i
            ] by {
                if i > 0 {
                    assert(pre@[i - 1] == pre.ring_buf.slots@[pre.slot_index(i - 1)].unwrap());
                    assert(self.slot_index(i) == pre.slot_index(i - 1));
                }
            }
            assert(self@ =~= seq![elem] + pre@);
        }
    }

    /// Appends the given element value to the end of the container.
    pub fn push_back(&mut self, elem: T)
        ensures
            final(self)@ == old(self)@.push(elem),
    {
        self.try_resize();
        proof {
            use_type_invariant(&*self);
        }
        let ghost pre = *self;
        let head = self.head;
        let new_head = self.wrapping_add(self.head, 1);
        self.ring_buf.slots[head] = Some(elem);
        self.head = new_head;
        proof {
            assert forall|i: int| 0 <= i < self@.len() implies self@[i] == pre@.push(elem)[i] by {
                if i < pre.spec_len() {
                    assert(pre@[i] == pre.ring_buf.slots@[pre.slot_index(i)].unwrap());
                    assert(self.slot_index(i) == pre.slot_index(i));
                } else {
                    assert(self.slot_index(i) == head);
                }
            }
            assert(self@ =~= pre@.push(elem));
        }
    }

    /// Removes and returns the first element of the container.
    /// If there are no elements in the container, returns `None`.
    pub fn pop_front(&mut self) -> (r: Option<T>)
        ensures
            old(self)@.len() == 0 ==> r is None && final(self)@ == old(self)@,
            old(self)@.len() > 0
                ==> r == Some(old(self)@[0]) && final(self)@ == old(self)@.drop_first(),
    {
        proof {
            use_type_invariant(&*self);
        }
        if self.is_empty() {
            return None;
        }
        let ghost pre = *self;
        let tail = self.tail;
        self.tail = self.wrapping_add(tail, 1);
        let mut taken: Option<T> = None;
        core::mem::swap(&mut self.ring_buf.slots[tail], &mut taken);
        proof {
            assert(taken == pre.ring_buf.slots@[pre.slot_index(0)]);
            assert forall|i: int| 0 <= i < self@.len() implies self@[i] == pre@.drop_first()[i] by {
                assert(pre@[i + 1] == pre.ring_buf.slots@[pre.slot_index(i + 1)].unwrap());
                assert(self.slot_index(i) == pre.slot_index(i + 1));
            }
            assert(self@ =~= pre@.drop_first());
        }
        taken
    }

    /// Removes and returns the last element of the container.
    /// If there are no elements in the container, returns `None`.
    pub fn pop_back(&mut self) -> (r: Option<T>)
        ensures
            old(self)@.len() == 0 ==> r is None && final(self)@ == old(self)@,
            old(self)@.len() > 0
                ==> r == Some(old(self)@.last()) && final(self)@ == old(self)@.drop_last(),
    {
        proof {
            use_type_invariant(&*self);
        }
        if self.is_empty() {
            return None;
        }
        let ghost pre = *self;
        let new_head = self.wrapping_sub(self.head, 1);
        self.head = new_head;
        let mut taken: Option<T> = None;
        core::mem::swap(&mut self.ring_buf.slots[new_head], &mut taken);
        proof {
            assert(new_head == pre.slot_index(pre.spec_len() - 1));
            assert(taken == pre.ring_buf.slots@[pre.slot_index(pre.spec_len() - 1)]);
            assert(pre@.last() == pre.ring_buf.slots@[pre.slot_index(pre.spec_len() - 1)].unwrap());
            assert forall|i: int| 0 <= i < self@.len() implies self@[i] == pre@.drop_last()[i] by {
                assert(pre@[i] == pre.ring_buf.slots@[pre.slot_index(i)].unwrap());
                assert(self.slot_index(i) == pre.slot_index(i));
            }
            assert(self@ =~= pre@.drop_last());
        }
        taken
    }

    /// Peeks the first element of the container.
    /// If there are no elements in the container, returns `None`.
    pub fn front(&self) -> (r: Option<&T>)
        ensures
            match r {
                Some(v) => self@.len() > 0 && *v == self@[0],
                None => self@.len() == 0,
            },
    {
        proof {
            use_type_invariant(&*self);
        }
        if self.is_empty() {
            return None;
        }
        proof {
            assert(self.slot_index(0) == self.tail);
            assert(self@[0] == self.ring_buf.slots@[self.tail as int].unwrap());
        }
        match &self.ring_buf.slots[self.tail] {
            Some(v) => Some(v),
            None => None,
        }
    }

    /// Peeks the last element of the container.
    /// If there are no elements in the container, returns `None`.
    pub fn back(&self) -> (r: Option<&T>)
        ensures
            match r {
                Some(v) => self@.len() > 0 && *v == self@.last(),
                None => self@.len() == 0,
            },
    {
        proof {
            use_type_invariant(&*self);
        }
        if self.is_empty() {
            return None;
        }
        let last = self.wrapping_sub(self.head, 1);
        proof {
            assert(last == self.slot_index(self.spec_len() - 1));
            assert(self@.last() == self.ring_buf.slots@[last as int].unwrap());
        }
        match &self.ring_buf.slots[last] {
            Some(v) => Some(v),
            None => None,
        }
    }

    /// Gets the number of elements in the container.
    pub fn len(&self) -> (r: usize)
        ensures
            r == self@.len(),
    {
        proof {
            use_type_invariant(&*self);
        }
        if self.head >= self.tail {
            self.head - self.tail
        } else {
            self.cap() - (self.tail - self.head)
        }
    }

    /// Checks whether the container is empty.
    pub fn is_empty(&self) -> (r: bool)
        ensures
            r == (self@.len() == 0),
    {
        self.len() == 0
    }

    /// Checks if the underlying ring buffer is full, that is, whether the
    /// one reserved slot is all that is left.
    fn is_full(&self) -> (r: bool)
        ensures
            r == (self@.len() == self.spec_cap() - 1),
    {
        proof {
            use_type_invariant(&*self);
        }
        self.cap() - self.len() == 1
    }

    /// Resizes the underlying ring buffer if necessary.
    ///
    /// A push needs a vacant slot besides the reserved one. When only the
    /// reserved slot is left, the block doubles its capacity. Doubling a
    /// circular buffer's storage does not keep a wrapped live region
    /// contiguous relative to the larger capacity, so when the region
    /// straddles slot zero (`tail > head`), the wrapped prefix (the `head`
    /// elements starting at slot zero) moves into the newly available space
    /// just past the old capacity boundary, and `head` advances by the old
    /// capacity:
    ///
    /// ```text
    /// before:            h   t
    ///            [o o o o x x o o]
    /// grow:              h   t
    ///            [o o o o x x o o | x x x x x x x x]
    /// move:                  t           h
    ///            [x x x x x x o o | o o o o x x x x]
    /// ```
    fn try_resize(&mut self)
        ensures
            final(self)@ == old(self)@,
            final(self)@.len() < final(self).spec_cap() - 1,
    {
        proof {
            use_type_invariant(&*self);
        }
        let ghost pre = *self;
        if self.is_full() {
            let old_cap = self.cap();
            // Move the deque out of `self` so that the block can be
            // rebuilt freely; a minimal well-formed value stands in
            // meanwhile.
            let mut vacant: Vec<Option<T>> = Vec::new();
            vacant.push(None);
            let mut tmp = Deque { tail: 0, head: 0, ring_buf: RawVec { slots: vacant } };
            core::mem::swap(self, &mut tmp);
            let Deque { tail, head, ring_buf } = tmp;
            let mut buf = ring_buf;
            buf.grow();
            let ghost grown = buf.slots@;
            if tail > head {
                // Make the live region contiguous again.
                let total = buf.slots.len();
                let mut j: usize = 0;
                while j < head
                    invariant
                        j <= head,
                        head < tail < old_cap,
                        total == 2 * old_cap,
                        buf.slots@.len() == total,
                        grown.len() == total,
                        forall|k: int| j <= k < old_cap ==> buf.slots@[k] == grown[k],
                        forall|k: int| 0 <= k < j ==> buf.slots@[old_cap + k] == grown[k],
                        forall|k: int|
                            old_cap + j <= k < 2 * old_cap ==> buf.slots@[k] == grown[k],
                    decreases head - j,
                {
                    let mut moved: Option<T> = None;
                    core::mem::swap(&mut buf.slots[j], &mut moved);
                    buf.slots[old_cap + j] = moved;
                    j += 1;
                }
                proof {
                    let dg = Deque { tail, head: (head + old_cap) as usize, ring_buf: buf };
                    assert(is_pow2(2 * pre.spec_cap()));
                    assert forall|k: int| 0 <= k < dg.spec_cap() && dg.live_slot(k) implies dg
                        .ring_buf
                        .slots@[k] is Some by {
                        if k < old_cap {
                            assert(pre.live_slot(k));
                            assert(grown[k] == pre.ring_buf.slots@[k]);
                        } else {
                            assert(pre.live_slot(k - old_cap));
                            assert(grown[k - old_cap] == pre.ring_buf.slots@[k - old_cap]);
                        }
                    }
                    assert(dg.wf());
                }
                let d = Deque { tail, head: head + old_cap, ring_buf: buf };
                proof {
                    assert forall|i: int| 0 <= i < d@.len() implies d@[i] == pre@[i] by {
                        assert(pre@[i] == pre.ring_buf.slots@[pre.slot_index(i)].unwrap());
                        if d.slot_index(i) < old_cap {
                            assert(d.slot_index(i) == pre.slot_index(i));
                        } else {
                            assert(d.slot_index(i) - old_cap == pre.slot_index(i));
                        }
                    }
                    assert(d@ =~= pre@);
                }
                *self = d;
            } else {
                let d = Deque { tail, head, ring_buf: buf };
                proof {
                    assert(is_pow2(2 * pre.spec_cap()));
                    assert forall|k: int| 0 <= k < d.spec_cap() && d.live_slot(k) implies d
                        .ring_buf
                        .slots@[k] is Some by {
                        assert(pre.live_slot(k));
                        assert(grown[k] == pre.ring_buf.slots@[k]);
                    }
                    assert(d.wf());
                    assert forall|i: int| 0 <= i < d@.len() implies d@[i] == pre@[i] by {
                        assert(pre@[i] == pre.ring_buf.slots@[pre.slot_index(i)].unwrap());
                        assert(d.slot_index(i) == pre.slot_index(i));
                    }
                    assert(d@ =~= pre@);
                }
                *self = d;
            }
        }
    }

    /// An abstraction for accessing the capacity of the ring buffer.
    #[inline]
    fn cap(&self) -> (r: usize)
        ensures
            r == self.spec_cap(),
    {
        self.ring_buf.slots.len()
    }

    /// Returns the slot of the ring buffer for a given slot plus an addend,
    /// wrapped around the capacity.
    fn wrapping_add(&self, index: usize, addend: usize) -> (r: usize)
        requires
            self.wf(),
            index < self.spec_cap(),
            addend <= self.spec_cap(),
            index + addend < 2 * self.spec_cap(),
        ensures
            r == if index + addend < self.spec_cap() {
                index + addend
            } else {
                index + addend - self.spec_cap()
            },
            r < self.spec_cap(),
    {
        let cap = self.cap();
        if index >= cap - addend {
            index - (cap - addend)
        } else {
            index + addend
        }
    }

    /// Returns the slot of the ring buffer for a given slot minus a
    /// subtrahend, wrapped around the capacity.
    fn wrapping_sub(&self, index: usize, subtrahend: usize) -> (r: usize)
        requires
            self.wf(),
            index < self.spec_cap(),
            subtrahend <= self.spec_cap(),
        ensures
            r == if index >= subtrahend {
                index - subtrahend
            } else {
                self.spec_cap() - (subtrahend - index)
            },
            r < self.spec_cap(),
    {
        if index >= subtrahend {
            wrap_index(index - subtrahend, self.cap())
        } else {
            wrap_index(index + (self.cap() - subtrahend), self.cap())
        }
    }
}

impl<T> View for Deque<T> {
    type V = Seq<T>;

    /// The live elements, in order from front to back.
    closed spec fn view(&self) -> Seq<T> {
        Seq::new(
            self.spec_len() as nat,
            |i: int| self.ring_buf.slots@[self.slot_index(i)].unwrap(),
        )
    }
}

/// Returns the slot of the ring buffer for a given logical index, wrapped
/// around `size`: `index mod size`, stated and proved as such.
fn wrap_index(index: usize, size: usize) -> (r: usize)
    requires
        size >= 1,
        index < 2 * size,
    ensures
        r == if index < size {
            index as int
        } else {
            index - size
        },
        r == (index as int) % (size as int),
        r < size,
{
    proof {
        if index < size {
            vstd::arithmetic::div_mod::lemma_small_mod(index as nat, size as nat);
        } else {
            vstd::arithmetic::div_mod::lemma_mod_multiples_vanish(
                1,
                index - size,
                size as int,
            );
            vstd::arithmetic::div_mod::lemma_small_mod((index - size) as nat, size as nat);
        }
    }
    if index >= size {
        index - size
    } else {
        index
    }
}

} // verus!
