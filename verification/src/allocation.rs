//! An owning buffer of raw slots with capacity bookkeeping and no
//! initialization tracking of its own: which slots hold live values is the
//! owner's responsibility, made explicit here as a sequence of optional
//! values.
use crate::index::{CountN, Offset, SignedPrimitive, spec_grow};
use vstd::prelude::*;

verus! {

broadcast use crate::index::lemma_count_in_range;

#[derive(Eq, PartialEq, Structural, Copy, Clone, Default, Debug, Hash)]
pub enum AllocationError {
    #[default]
    OutOfMemory,
    InvalidOffset,
}

pub type AllocationResult<T> = Result<T, AllocationError>;

pub type Allocated = AllocationResult<()>;

impl AllocationError {
    pub fn err(self) -> (r: Allocated)
        ensures
            r == Err::<(), AllocationError>(self),
    {
        Err(self)
    }
}

pub type Allocation<T> = AllocationN<T, i64>;

pub type Allocation64<T> = Allocation<T>;

pub type Allocation32<T> = AllocationN<T, i32>;

pub type Allocation16<T> = AllocationN<T, i16>;

pub type Allocation8<T> = AllocationN<T, i8>;

/// The contiguous slots an allocation owns.  A slot holds `Some` value once a
/// caller wrote one, and `None` while it must be treated as uninitialized;
/// the owner is responsible for that bookkeeping.  Release the memory by
/// shrinking the capacity to zero.
pub struct AllocationN<T, C: SignedPrimitive> {
    slots: Vec<Option<T>>,
    capacity: CountN<C>,
}

impl<T, C: SignedPrimitive> View for AllocationN<T, C> {
    type V = Seq<Option<T>>;

    closed spec fn view(&self) -> Seq<Option<T>> {
        self.slots@
    }
}

impl<T, C: SignedPrimitive> AllocationN<T, C> {
    /// The recorded capacity always matches the number of slots.
    pub closed spec fn wf(self) -> bool {
        self.capacity.wf() && self.capacity@ == self.slots@.len()
    }

    pub fn new() -> (r: Self)
        ensures
            r.wf(),
            r@.len() == 0,
    {
        Self { slots: Vec::new(), capacity: CountN::of(C::sp_zero()) }
    }

    pub fn capacity(&self) -> (r: CountN<C>)
        requires
            self.wf(),
        ensures
            r.wf(),
            r@ == self@.len(),
    {
        self.capacity
    }

    /// Resizes to exactly `new_capacity` slots.  The caller must already have
    /// destroyed any live values in slots about to be discarded.  Fails with
    /// `OutOfMemory` exactly when the request exceeds what the machine can
    /// address; the capacity is updated only on success.
    pub fn mut_capacity(&mut self, new_capacity: CountN<C>) -> (r: Allocated)
        requires
            old(self).wf(),
            new_capacity.wf(),
        ensures
            final(self).wf(),
            new_capacity@ > usize::MAX ==> r == Err::<(), AllocationError>(
                AllocationError::OutOfMemory,
            ) && final(self)@ == old(self)@,
            new_capacity@ <= usize::MAX ==> {
                &&& r == Ok::<(), AllocationError>(())
                &&& final(self)@.len() == new_capacity@
                &&& forall|i: int|
                    0 <= i < old(self)@.len() && i < new_capacity@ ==> final(self)@[i] == old(
                        self,
                    )@[i]
                &&& forall|i: int| old(self)@.len() <= i < new_capacity@ ==> final(self)@[i] is None
            },
    {
        let n = match new_capacity.try_usize() {
            Some(n) => n,
            None => {
                return AllocationError::OutOfMemory.err();
            },
        };
        if n <= self.slots.len() {
            self.slots.truncate(n);
        } else {
            let ghost kept = self.slots@;
            while self.slots.len() < n
                invariant
                    kept.len() <= self.slots@.len() <= n,
                    self.slots@.subrange(0, kept.len() as int) =~= kept,
                    forall|i: int| kept.len() <= i < self.slots@.len() ==> self.slots@[i] is None,
                decreases n - self.slots@.len(),
            {
                self.slots.push(None);
                proof {
                    assert(self.slots@.subrange(0, kept.len() as int) =~= kept);
                }
            }
            proof {
                assert(forall|i: int| 0 <= i < kept.len() ==> self.slots@[i] == #[trigger] kept[i])
                    by {
                    assert(forall|i: int|
                        0 <= i < kept.len() ==> self.slots@.subrange(0, kept.len() as int)[i]
                            == #[trigger] kept[i]);
                };
            }
        }
        self.capacity = new_capacity;
        Ok(())
    }

    /// Writes `value` into a slot that the caller knows holds no live value.
    pub fn write_uninitialized(&mut self, offset: Offset, value: T) -> (r: Allocated)
        requires
            old(self).wf(),
            0 <= offset < old(self)@.len() ==> old(self)@[offset as int] is None,
        ensures
            final(self).wf(),
            0 <= offset < old(self)@.len() ==> r == Ok::<(), AllocationError>(()) && final(self)@
                == old(self)@.update(offset as int, Some(value)),
            !(0 <= offset < old(self)@.len()) ==> r == Err::<(), AllocationError>(
                AllocationError::InvalidOffset,
            ) && final(self)@ == old(self)@,
    {
        if !self.capacity.contains(offset) {
            return AllocationError::InvalidOffset.err();
        }
        let len = self.slots.len();
        assert(0 <= offset < len);
        self.slots.set(offset as usize, Some(value));
        Ok(())
    }

    /// Moves the value out of a slot; the slot counts as uninitialized from
    /// then on.
    pub fn read_destructively(&mut self, offset: Offset) -> (r: AllocationResult<T>)
        requires
            old(self).wf(),
            0 <= offset < old(self)@.len() ==> old(self)@[offset as int] is Some,
        ensures
            final(self).wf(),
            0 <= offset < old(self)@.len() ==> (r matches Ok(v) && old(self)@[offset as int]
                == Some(v) && final(self)@ == old(self)@.update(offset as int, None)),
            !(0 <= offset < old(self)@.len()) ==> r == Err::<T, AllocationError>(
                AllocationError::InvalidOffset,
            ) && final(self)@ == old(self)@,
    {
        if !self.capacity.contains(offset) {
            return Err(AllocationError::InvalidOffset);
        }
        let len = self.slots.len();
        assert(0 <= offset < len);
        let slot = &mut self.slots[offset as usize];
        let value = slot.take();
        Ok(value.unwrap())
    }

    /// Doubles the capacity following the growth policy.  Fails with
    /// `OutOfMemory` when no strictly larger capacity can be had.
    pub fn grow(&mut self) -> (r: Allocated)
        requires
            old(self).wf(),
        ensures
            final(self).wf(),
            ({
                let target = spec_grow(old(self)@.len() as int, 2, CountN::<C>::spec_max());
                &&& (target <= old(self)@.len() || target > usize::MAX) ==> r == Err::<
                    (),
                    AllocationError,
                >(AllocationError::OutOfMemory) && final(self)@ == old(self)@
                &&& (target > old(self)@.len() && target <= usize::MAX) ==> {
                    &&& r == Ok::<(), AllocationError>(())
                    &&& final(self)@.len() == target
                    &&& forall|i: int| 0 <= i < old(self)@.len() ==> final(self)@[i] == old(self)@[i]
                    &&& forall|i: int| old(self)@.len() <= i < target ==> final(self)@[i] is None
                }
            }),
    {
        let desired_capacity = Self::roughly_double_capacity(self.capacity);
        if desired_capacity.le(&self.capacity) {
            return AllocationError::OutOfMemory.err();
        }
        self.mut_capacity(desired_capacity)
    }

    fn roughly_double_capacity(capacity: CountN<C>) -> (r: CountN<C>)
        requires
            capacity.wf(),
        ensures
            r.wf(),
            r@ == capacity.spec_double_or_max(2),
    {
        let starting_alloc: i8 = 2;
        capacity.double_or_max(starting_alloc)
    }
}


/// A well-formed allocation never has more slots than the count width, or
/// the machine, can address.
pub broadcast proof fn lemma_allocation_len<T, C: SignedPrimitive>(a: AllocationN<T, C>)
    requires
        #[trigger] a.wf(),
    ensures
        a@.len() <= CountN::<C>::spec_max(),
        a@.len() <= usize::MAX,
{
    crate::index::lemma_count_in_range(a.capacity);
    vstd::std_specs::vec::axiom_spec_len(&a.slots);
}

impl<T: Copy, C: SignedPrimitive> AllocationN<T, C> {
    /// A copy of the first `count` slots, which the caller knows are all
    /// initialized.
    pub fn as_slice(&self, count: CountN<C>) -> (r: Vec<T>)
        requires
            self.wf(),
            count.wf(),
            count@ <= self@.len(),
            forall|i: int| 0 <= i < count@ ==> self@[i] is Some,
        ensures
            r@.len() == count@,
            forall|i: int| 0 <= i < count@ ==> self@[i] == Some(r@[i]),
    {
        let len = self.slots.len();
        assert(count@ <= len);
        let n = count.as_usize();
        let mut out: Vec<T> = Vec::new();
        let mut i: usize = 0;
        while i < n
            invariant
                self.wf(),
                n == count@ <= self@.len() <= usize::MAX,
                forall|j: int| 0 <= j < n ==> self@[j] is Some,
                i <= n,
                out@.len() == i,
                forall|j: int| 0 <= j < i ==> self@[j] == Some(out@[j]),
            decreases n - i,
        {
            let slot = &self.slots[i];
            match slot {
                Some(value) => out.push(*value),
                None => {
                    proof {
                        assert(false);
                    }
                },
            }
            i = i + 1;
        }
        out
    }
}

impl<T, C: SignedPrimitive> Default for AllocationN<T, C> {
    fn default() -> (r: Self)
        ensures
            r.wf(),
            r@.len() == 0,
    {
        Self::new()
    }
}

} // verus!
