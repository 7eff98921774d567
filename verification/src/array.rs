//! An owning growable sequence: an `AllocationN` paired with a live element
//! count.  The live values always form the contiguous prefix `[0, count)` of
//! the allocation's slots.
use crate::allocation::{AllocationError, AllocationN};
use crate::index::{CountN, SignedPrimitive, spec_grow};
use crate::types::DefaultValue;
use vstd::prelude::*;

verus! {

broadcast use {crate::allocation::lemma_allocation_len, crate::index::lemma_count_in_range};

pub type ArrayResult<T> = Result<T, ArrayError>;

pub type Arrayed = ArrayResult<()>;

#[derive(Eq, PartialEq, Structural, Copy, Clone, Debug, Hash)]
pub enum ArrayError {
    Allocation(AllocationError),
    /// Reserved for count-mutation misuse; no operation produces it yet.
    InvalidCount,
}

impl ArrayError {
    pub fn err(self) -> (r: Arrayed)
        ensures
            r == Err::<(), ArrayError>(self),
    {
        Err(self)
    }
}

pub type Array<T> = ArrayN<T, i64>;

pub type Array64<T> = Array<T>;

pub type Array32<T> = ArrayN<T, i32>;

pub type Array16<T> = ArrayN<T, i16>;

pub type Array8<T> = ArrayN<T, i8>;

#[derive(Eq, PartialEq, Structural, Copy, Clone, Debug, Default, Hash)]
pub enum Clear {
    #[default]
    KeepCapacity,
    DropCapacity,
}

#[derive(Eq, PartialEq, Structural, Copy, Clone, Debug, Default, Hash)]
pub enum Pop {
    #[default]
    Last,
}

#[derive(Eq, PartialEq, Structural, Copy, Clone, Debug, Default, Hash)]
pub enum Sort {
    #[default]
    Default,
}

/// An allocation together with how many of its leading slots hold live
/// values.  The view is the sequence of live values.
pub struct ArrayN<T, C: SignedPrimitive> {
    allocation: AllocationN<T, C>,
    count: CountN<C>,
}

impl<T, C: SignedPrimitive> View for ArrayN<T, C> {
    type V = Seq<T>;

    closed spec fn view(&self) -> Seq<T> {
        Self::parts_view(self.allocation, self.count)
    }
}

impl<T, C: SignedPrimitive> ArrayN<T, C> {
    /// The count never exceeds the capacity, the live values are exactly the
    /// prefix `[0, count)`, and every slot past the live region is free.
    pub open spec fn parts_wf(allocation: AllocationN<T, C>, count: CountN<C>) -> bool {
        &&& allocation.wf()
        &&& count.wf()
        &&& count@ <= allocation@.len()
        &&& forall|i: int| 0 <= i < count@ ==> allocation@[i] is Some
        &&& forall|i: int| count@ <= i < allocation@.len() ==> allocation@[i] is None
    }

    /// The live values held by an allocation and count.
    pub open spec fn parts_view(allocation: AllocationN<T, C>, count: CountN<C>) -> Seq<T> {
        Seq::new(count@ as nat, |i: int| allocation@[i]->0)
    }

    pub closed spec fn wf(self) -> bool {
        Self::parts_wf(self.allocation, self.count)
    }

    pub closed spec fn spec_capacity(self) -> int {
        self.allocation@.len() as int
    }

    pub fn new() -> (r: Self)
        ensures
            r.wf(),
            r@ =~= Seq::<T>::empty(),
            r.spec_capacity() == 0,
    {
        Self { allocation: AllocationN::<T, C>::new(), count: CountN::of(C::sp_zero()) }
    }

    pub fn count(&self) -> (r: CountN<C>)
        requires
            self.wf(),
        ensures
            r.wf(),
            r@ == self@.len(),
    {
        self.count
    }

    pub fn capacity(&self) -> (r: CountN<C>)
        requires
            self.wf(),
        ensures
            r.wf(),
            r@ == self.spec_capacity(),
    {
        self.allocation.capacity()
    }

    /// Appends `value`, growing the allocation by the doubling policy when it
    /// is full.
    pub fn push(&mut self, value: T) -> (r: Arrayed)
        requires
            old(self).wf(),
        ensures
            final(self).wf(),
            ({
                let cap = old(self).spec_capacity();
                let grown = spec_grow(cap, 2, CountN::<C>::spec_max());
                if old(self)@.len() < cap {
                    &&& r == Ok::<(), ArrayError>(())
                    &&& final(self)@ == old(self)@.push(value)
                    &&& final(self).spec_capacity() == cap
                } else if grown > cap && grown <= usize::MAX {
                    &&& r == Ok::<(), ArrayError>(())
                    &&& final(self)@ == old(self)@.push(value)
                    &&& final(self).spec_capacity() == grown
                } else {
                    &&& r == Err::<(), ArrayError>(ArrayError::Allocation(
                        AllocationError::OutOfMemory,
                    ))
                    &&& final(self)@ == old(self)@
                    &&& final(self).spec_capacity() == cap
                }
            }),
    {
        Self::array_push(value, &mut self.allocation, &mut self.count)
    }

    pub fn array_push(value: T, allocation: &mut AllocationN<T, C>, count: &mut CountN<C>) -> (r:
        Arrayed)
        requires
            Self::parts_wf(*old(allocation), *old(count)),
        ensures
            Self::parts_wf(*final(allocation), *final(count)),
            ({
                let cap = old(allocation)@.len() as int;
                let grown = spec_grow(cap, 2, CountN::<C>::spec_max());
                let live = Self::parts_view(*old(allocation), *old(count));
                let live_after = Self::parts_view(*final(allocation), *final(count));
                if old(count)@ < cap {
                    &&& r == Ok::<(), ArrayError>(())
                    &&& live_after == live.push(value)
                    &&& final(allocation)@.len() == cap
                } else if grown > cap && grown <= usize::MAX {
                    &&& r == Ok::<(), ArrayError>(())
                    &&& live_after == live.push(value)
                    &&& final(allocation)@.len() == grown
                } else {
                    &&& r == Err::<(), ArrayError>(ArrayError::Allocation(
                        AllocationError::OutOfMemory,
                    ))
                    &&& live_after == live
                    &&& final(allocation)@.len() == cap
                }
            }),
    {
        if allocation.capacity().eq(count) {
            let grew = Self::array_grow(allocation);
            if let Err(e) = grew {
                proof {
                    assert(Self::parts_view(*allocation, *count) =~= Self::parts_view(
                        *old(allocation),
                        *old(count),
                    ));
                }
                return Err(e);
            }
        }
        proof {
            C::sp_range();
            assert(count@ < allocation@.len());
        }
        let offset = count.max_offset();
        let wrote = allocation.write_uninitialized(offset + 1, value);
        proof {
            assert(wrote is Ok);
        }
        *count = count.plus_one();
        proof {
            assert(Self::parts_view(*allocation, *count) =~= Self::parts_view(
                *old(allocation),
                *old(count),
            ).push(value));
        }
        Ok(())
    }

    /// Removes and returns the last element, if any; popping never changes
    /// the capacity.
    pub fn pop(&mut self, pop: Pop) -> (r: Option<T>)
        requires
            old(self).wf(),
        ensures
            final(self).wf(),
            final(self).spec_capacity() == old(self).spec_capacity(),
            old(self)@.len() == 0 ==> r is None && final(self)@ == old(self)@,
            old(self)@.len() > 0 ==> r == Some(old(self)@.last()) && final(self)@ == old(
                self,
            )@.drop_last(),
    {
        Self::array_pop(pop, &mut self.allocation, &mut self.count)
    }

    pub fn array_pop(pop: Pop, allocation: &mut AllocationN<T, C>, count: &mut CountN<C>) -> (r:
        Option<T>)
        requires
            Self::parts_wf(*old(allocation), *old(count)),
        ensures
            Self::parts_wf(*final(allocation), *final(count)),
            final(allocation)@.len() == old(allocation)@.len(),
            ({
                let live = Self::parts_view(*old(allocation), *old(count));
                let live_after = Self::parts_view(*final(allocation), *final(count));
                if live.len() == 0 {
                    r is None && live_after == live
                } else {
                    r == Some(live.last()) && live_after == live.drop_last()
                }
            }),
    {
        match pop {
            Pop::Last => Self::array_pop_last(allocation, count),
        }
    }

    pub fn array_pop_last(allocation: &mut AllocationN<T, C>, count: &mut CountN<C>) -> (r: Option<
        T,
    >)
        requires
            Self::parts_wf(*old(allocation), *old(count)),
        ensures
            Self::parts_wf(*final(allocation), *final(count)),
            final(allocation)@.len() == old(allocation)@.len(),
            ({
                let live = Self::parts_view(*old(allocation), *old(count));
                let live_after = Self::parts_view(*final(allocation), *final(count));
                if live.len() == 0 {
                    r is None && live_after == live
                } else {
                    r == Some(live.last()) && live_after == live.drop_last()
                }
            }),
    {
        let zero = CountN::<C>::of(C::sp_zero());
        if (*count).le(&zero) {
            proof {
                assert(Self::parts_view(*allocation, *count) =~= Self::parts_view(
                    *old(allocation),
                    *old(count),
                ));
            }
            return None;
        }
        let offset = count.max_offset();
        let read = allocation.read_destructively(offset);
        let value = match read {
            Ok(value) => value,
            Err(_) => vstd::pervasive::unreached(),
        };
        *count = count.minus_one();
        proof {
            assert(Self::parts_view(*allocation, *count) =~= Self::parts_view(
                *old(allocation),
                *old(count),
            ).drop_last());
        }
        Some(value)
    }

    /// Pops every element, so each one is dropped individually; releases the
    /// buffer too when asked to drop the capacity.
    pub fn clear(&mut self, options: Clear)
        requires
            old(self).wf(),
        ensures
            final(self).wf(),
            final(self)@ =~= Seq::<T>::empty(),
            options == Clear::KeepCapacity ==> final(self).spec_capacity() == old(
                self,
            ).spec_capacity(),
            options == Clear::DropCapacity ==> final(self).spec_capacity() == 0,
    {
        Self::array_clear(options, &mut self.allocation, &mut self.count)
    }

    pub fn array_clear(options: Clear, allocation: &mut AllocationN<T, C>, count: &mut CountN<C>)
        requires
            Self::parts_wf(*old(allocation), *old(count)),
        ensures
            Self::parts_wf(*final(allocation), *final(count)),
            final(count)@ == 0,
            options == Clear::KeepCapacity ==> final(allocation)@.len() == old(allocation)@.len(),
            options == Clear::DropCapacity ==> final(allocation)@.len() == 0,
    {
        match options {
            Clear::KeepCapacity => {
                loop
                    invariant
                        Self::parts_wf(*allocation, *count),
                        allocation@.len() == old(allocation)@.len(),
                    ensures
                        Self::parts_wf(*allocation, *count),
                        allocation@.len() == old(allocation)@.len(),
                        count@ == 0,
                    decreases count@,
                {
                    let ghost prev_count = count@;
                    let ghost prev_view = Self::parts_view(*allocation, *count);
                    let popped = Self::array_pop_last(allocation, count);
                    if popped.is_none() {
                        break ;
                    }
                    proof {
                        assert(popped is Some);
                        assert(prev_view.len() == prev_count as nat);
                        assert(prev_view.len() > 0);
                        assert(Self::parts_view(*allocation, *count) == prev_view.drop_last());
                        assert(Self::parts_view(*allocation, *count).len() == prev_view.len() - 1);
                        assert(count@ < prev_count);
                    }
                }
            },
            Clear::DropCapacity => {
                let cleared = Self::array_mut_capacity(
                    CountN::<C>::of(C::sp_zero()),
                    allocation,
                    count,
                );
                proof {
                    assert(cleared is Ok);
                }
            },
        }
    }

    /// Reallocates to exactly this capacity, first deleting any elements past
    /// it.
    pub fn mut_capacity(&mut self, new_capacity: CountN<C>) -> (r: Arrayed)
        requires
            old(self).wf(),
            new_capacity.wf(),
        ensures
            final(self).wf(),
            new_capacity@ <= usize::MAX ==> {
                &&& r == Ok::<(), ArrayError>(())
                &&& final(self).spec_capacity() == new_capacity@
                &&& final(self)@ == old(self)@.take(
                    if new_capacity@ < old(self)@.len() {
                        new_capacity@ as int
                    } else {
                        old(self)@.len() as int
                    },
                )
            },
            new_capacity@ > usize::MAX ==> {
                &&& r == Err::<(), ArrayError>(ArrayError::Allocation(
                    AllocationError::OutOfMemory,
                ))
                &&& final(self).spec_capacity() == old(self).spec_capacity()
                &&& final(self)@ == old(self)@.take(
                    if new_capacity@ < old(self)@.len() {
                        new_capacity@ as int
                    } else {
                        old(self)@.len() as int
                    },
                )
            },
    {
        Self::array_mut_capacity(new_capacity, &mut self.allocation, &mut self.count)
    }

    pub fn array_mut_capacity(
        new_capacity: CountN<C>,
        allocation: &mut AllocationN<T, C>,
        count: &mut CountN<C>,
    ) -> (r: Arrayed)
        requires
            Self::parts_wf(*old(allocation), *old(count)),
            new_capacity.wf(),
        ensures
            Self::parts_wf(*final(allocation), *final(count)),
            ({
                let live = Self::parts_view(*old(allocation), *old(count));
                let live_after = Self::parts_view(*final(allocation), *final(count));
                let live_kept = live.take(
                    if new_capacity@ < live.len() {
                        new_capacity@ as int
                    } else {
                        live.len() as int
                    },
                );
                if new_capacity@ <= usize::MAX {
                    &&& r == Ok::<(), ArrayError>(())
                    &&& final(allocation)@.len() == new_capacity@
                    &&& live_after == live_kept
                } else {
                    &&& r == Err::<(), ArrayError>(ArrayError::Allocation(
                        AllocationError::OutOfMemory,
                    ))
                    &&& final(allocation)@.len() == old(allocation)@.len()
                    &&& live_after == live_kept
                }
            }),
    {
        if new_capacity.eq(&allocation.capacity()) {
            proof {
                assert(Self::parts_view(*allocation, *count) =~= Self::parts_view(
                    *old(allocation),
                    *old(count),
                ).take(count@ as int));
            }
            return Ok(());
        }
        proof {
            assert(Self::parts_view(*allocation, *count) =~= Self::parts_view(
                *old(allocation),
                *old(count),
            ).take(count@ as int));
        }
        while new_capacity.lt(count)
            invariant
                Self::parts_wf(*allocation, *count),
                new_capacity.wf(),
                allocation@.len() == old(allocation)@.len(),
                count@ <= old(count)@,
                count@ >= new_capacity@ || count@ == old(count)@,
                Self::parts_view(*allocation, *count) == Self::parts_view(
                    *old(allocation),
                    *old(count),
                ).take(count@ as int),
            decreases count@,
        {
            let popped = Self::array_pop_last(allocation, count);
            proof {
                assert(popped is Some);
                assert(Self::parts_view(*allocation, *count) =~= Self::parts_view(
                    *old(allocation),
                    *old(count),
                ).take(count@ as int));
            }
        }
        let resized = allocation.mut_capacity(new_capacity);
        match resized {
            Ok(_) => Ok(()),
            Err(e) => ArrayError::Allocation(e).err(),
        }
    }

    pub fn array_grow(allocation: &mut AllocationN<T, C>) -> (r: Arrayed)
        requires
            old(allocation).wf(),
        ensures
            final(allocation).wf(),
            ({
                let target = spec_grow(old(allocation)@.len() as int, 2, CountN::<C>::spec_max());
                &&& (target <= old(allocation)@.len() || target > usize::MAX) ==> r == Err::<
                    (),
                    ArrayError,
                >(ArrayError::Allocation(AllocationError::OutOfMemory)) && final(allocation)@ == old(
                    allocation,
                )@
                &&& (target > old(allocation)@.len() && target <= usize::MAX) ==> {
                    &&& r == Ok::<(), ArrayError>(())
                    &&& final(allocation)@.len() == target
                    &&& forall|i: int|
                        0 <= i < old(allocation)@.len() ==> final(allocation)@[i] == old(
                            allocation,
                        )@[i]
                    &&& forall|i: int|
                        old(allocation)@.len() <= i < target ==> final(allocation)@[i] is None
                }
            }),
    {
        match allocation.grow() {
            Ok(_) => Ok(()),
            Err(e) => ArrayError::Allocation(e).err(),
        }
    }
}

impl<T: DefaultValue, C: SignedPrimitive> ArrayN<T, C> {
    /// Shrinking pops elements down to the new count; growing pushes default
    /// values until the new count is reached.
    pub fn mut_count(&mut self, new_count: CountN<C>) -> (r: Arrayed)
        requires
            old(self).wf(),
            new_count.wf(),
        ensures
            final(self).wf(),
            new_count@ <= usize::MAX ==> {
                &&& r == Ok::<(), ArrayError>(())
                &&& final(self)@.len() == new_count@
                &&& forall|i: int|
                    0 <= i < new_count@ && i < old(self)@.len() ==> final(self)@[i] == old(
                        self,
                    )@[i]
                &&& forall|i: int|
                    old(self)@.len() <= i < new_count@ ==> final(self)@[i]
                        == T::spec_default()
            },
            new_count@ > usize::MAX ==> {
                &&& r == Err::<(), ArrayError>(ArrayError::Allocation(
                    AllocationError::OutOfMemory,
                ))
                &&& final(self)@ == old(self)@
            },
    {
        Self::array_mut_count(new_count, &mut self.allocation, &mut self.count)
    }

    pub fn array_mut_count(
        new_count: CountN<C>,
        allocation: &mut AllocationN<T, C>,
        count: &mut CountN<C>,
    ) -> (r: Arrayed)
        requires
            Self::parts_wf(*old(allocation), *old(count)),
            new_count.wf(),
        ensures
            Self::parts_wf(*final(allocation), *final(count)),
            ({
                let live = Self::parts_view(*old(allocation), *old(count));
                let live_after = Self::parts_view(*final(allocation), *final(count));
                if new_count@ <= usize::MAX {
                    &&& r == Ok::<(), ArrayError>(())
                    &&& live_after.len() == new_count@
                    &&& forall|i: int|
                        0 <= i < new_count@ && i < live.len() ==> live_after[i] == live[i]
                    &&& forall|i: int|
                        live.len() <= i < new_count@ ==> live_after[i] == T::spec_default()
                } else {
                    &&& r == Err::<(), ArrayError>(ArrayError::Allocation(
                        AllocationError::OutOfMemory,
                    ))
                    &&& live_after == live
                }
            }),
    {
        if new_count.lt(count) {
            proof {
                assert(Self::parts_view(*allocation, *count) =~= Self::parts_view(
                    *old(allocation),
                    *old(count),
                ).take(count@ as int));
            }
            while new_count.lt(count)
                invariant
                    Self::parts_wf(*allocation, *count),
                    new_count.wf(),
                    new_count@ <= count@ <= old(count)@,
                    Self::parts_view(*allocation, *count) == Self::parts_view(
                        *old(allocation),
                        *old(count),
                    ).take(count@ as int),
                decreases count@,
            {
                let popped = Self::array_pop_last(allocation, count);
                proof {
                    assert(popped is Some);
                    assert(Self::parts_view(*allocation, *count) =~= Self::parts_view(
                        *old(allocation),
                        *old(count),
                    ).take(count@ as int));
                }
            }
        } else if (*count).lt(&new_count) {
            if allocation.capacity().lt(&new_count) {
                let resized = Self::array_mut_capacity(new_count, allocation, count);
                if let Err(e) = resized {
                    return Err(e);
                }
                proof {
                    assert(resized is Ok);
                    assert(Self::parts_view(*allocation, *count).len() == Self::parts_view(
                        *old(allocation),
                        *old(count),
                    ).len());
                }
            }
            while (*count).lt(&new_count)
                invariant
                    Self::parts_wf(*allocation, *count),
                    old(count)@ <= count@ <= new_count@ <= allocation@.len(),
                    new_count@ <= usize::MAX,
                    Self::parts_view(*allocation, *count).len() == count@,
                    0 <= old(count)@,
                    forall|i: int|
                        0 <= i < old(count)@ ==> Self::parts_view(*allocation, *count)[i]
                            == Self::parts_view(*old(allocation), *old(count))[i],
                    forall|i: int|
                        old(count)@ <= i < count@ ==> Self::parts_view(*allocation, *count)[i]
                            == T::spec_default(),
                decreases new_count@ - count@,
            {
                let ghost prev = Self::parts_view(*allocation, *count);
                let ghost prev_count = count@;
                let pushed = Self::array_push(T::default_value(), allocation, count);
                proof {
                    assert(pushed is Ok);
                    let cur = Self::parts_view(*allocation, *count);
                    assert(cur == prev.push(T::spec_default()));
                    assert(cur.len() == prev.len() + 1);
                    assert(count@ == prev_count + 1);
                    assert forall|i: int|
                        old(count)@ <= i < count@ implies cur[i] == T::spec_default() by {
                        if i < prev_count {
                            assert(cur[i] == prev[i]);
                        } else {
                            assert(cur[i] == T::spec_default());
                        }
                    }
                }
            }
        }
        Ok(())
    }
}

impl<T, C: SignedPrimitive> ArrayN<T, C> {
    /// Replaces the live element at `offset`; the old element is dropped.
    pub fn set(&mut self, offset: crate::index::Offset, value: T)
        requires
            old(self).wf(),
            0 <= offset < old(self)@.len(),
        ensures
            final(self).wf(),
            final(self)@ == old(self)@.update(offset as int, value),
            final(self).spec_capacity() == old(self).spec_capacity(),
    {
        let dropped = self.allocation.read_destructively(offset);
        proof {
            assert(dropped is Ok);
        }
        let wrote = self.allocation.write_uninitialized(offset, value);
        proof {
            assert(wrote is Ok);
            assert(Self::parts_view(self.allocation, self.count) =~= Self::parts_view(
                old(self).allocation,
                old(self).count,
            ).update(offset as int, value));
        }
    }
}

impl<T: Copy, C: SignedPrimitive> ArrayN<T, C> {
    /// A copy of the live region.
    pub fn as_slice(&self) -> (r: Vec<T>)
        requires
            self.wf(),
        ensures
            r@ == self@,
    {
        let r = self.allocation.as_slice(self.count);
        proof {
            assert(r@ =~= self@);
        }
        r
    }
}

impl<T, C: SignedPrimitive> Default for ArrayN<T, C> {
    fn default() -> (r: Self)
        ensures
            r.wf(),
            r@ =~= Seq::<T>::empty(),
            r.spec_capacity() == 0,
    {
        Self::new()
    }
}

} // verus!
