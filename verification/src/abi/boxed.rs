//! Owned values whose storage both builds of a library agree on.
//!
//! A [`Box`] owns one value, a [`BoxedSlice`] a run of values. Neither uses
//! the allocator of the build that made it: a box lives in a [`Heap`], the
//! allocator that all builds share, and is freed there by whichever build
//! drops it.

use vstd::prelude::*;
use std::marker::PhantomData;

verus! {

/// The shared allocator as its boxes see it: every live allocation with its
/// address and the value it holds. No allocation has the address 0.
pub struct Heap<T> {
    slots: Vec<Option<T>>,
}

impl<T> View for Heap<T> {
    type V = Map<usize, T>;

    /// The live allocations by address.
    closed spec fn view(&self) -> Map<usize, T> {
        Map::new(
            |addr: usize| 0 < addr <= self.slots@.len() && self.slots@[addr - 1] is Some,
            |addr: usize| self.slots@[addr - 1]->0,
        )
    }
}

impl<T> Heap<T> {
    /// Whether the heap can hand out one more address.
    pub closed spec fn has_room(&self) -> bool {
        self.slots@.len() < usize::MAX
    }

    /// No allocation has the address 0.
    pub proof fn lemma_null_is_free(&self)
        ensures
            !self@.dom().contains(0),
    {
    }

    /// A heap without allocations.
    pub fn new() -> (heap: Heap<T>)
        ensures
            heap@ == Map::<usize, T>::empty(),
            heap.has_room(),
    {
        let heap = Heap { slots: Vec::new() };
        heap
    }

    /// Whether one more value can be allocated.
    pub fn can_allocate(&self) -> (room: bool)
        ensures
            room == self.has_room(),
    {
        self.slots.len() < usize::MAX
    }

    /// Whether `addr` is the address of a live allocation.
    pub fn contains(&self, addr: usize) -> (live: bool)
        ensures
            live == self@.dom().contains(addr),
    {
        0 < addr && addr <= self.slots.len() && self.slots[addr - 1].is_some()
    }

    /// The value of the allocation at `addr`.
    pub fn get(&self, addr: usize) -> (value: &T)
        requires
            self@.dom().contains(addr),
        ensures
            *value == self@[addr],
    {
        self.slots[addr - 1].as_ref().unwrap()
    }

    /// Whether `addr` is an address that the heap has handed out and that
    /// holds no value now.
    pub closed spec fn vacant(&self, addr: usize) -> bool {
        0 < addr <= self.slots@.len() && self.slots@[addr - 1] is None
    }

    /// Takes the value out of the allocation at `addr`, which is left
    /// vacant.
    pub fn take(&mut self, addr: usize) -> (value: T)
        requires
            old(self)@.dom().contains(addr),
        ensures
            value == old(self)@[addr],
            final(self)@ == old(self)@.remove(addr),
            final(self).vacant(addr),
            final(self).has_room() == old(self).has_room(),
    {
        let value = self.slots[addr - 1].take();
        value.unwrap()
    }

    /// Puts `value` into the vacant allocation at `addr`.
    pub fn put(&mut self, addr: usize, value: T)
        requires
            old(self).vacant(addr),
        ensures
            final(self)@ == old(self)@.insert(addr, value),
            final(self).has_room() == old(self).has_room(),
    {
        self.slots[addr - 1] = Some(value);
    }

    fn allocate(&mut self, value: T) -> (addr: usize)
        requires
            old(self).has_room(),
        ensures
            addr != 0,
            !old(self)@.dom().contains(addr),
            !old(self).vacant(addr),
            final(self)@ == old(self)@.insert(addr, value),
    {
        self.slots.push(Some(value));
        let addr: usize = self.slots.len();
        addr
    }

}

/// The owner of one value in the shared heap.
pub struct Box<T> {
    ptr: usize,
    marker: PhantomData<T>,
}

impl<T> Box<T> {
    /// The address of the value.
    pub closed spec fn addr(&self) -> usize {
        self.ptr
    }

    /// Moves `value` into a fresh allocation and returns its owner.
    pub fn new(heap: &mut Heap<T>, value: T) -> (owner: Box<T>)
        requires
            old(heap).has_room(),
        ensures
            owner.addr() != 0,
            !old(heap)@.dom().contains(owner.addr()),
            final(heap)@ == old(heap)@.insert(owner.addr(), value),
    {
        let ptr = heap.allocate(value);
        Box { ptr, marker: PhantomData }
    }

    /// Gives up the ownership and returns the address, which stays
    /// allocated.
    pub fn into_raw(self) -> (ptr: usize)
        ensures
            ptr == self.addr(),
    {
        self.ptr
    }

    /// The owner of the allocation at `ptr`. The address is one that
    /// [`Box::into_raw`] returned and that has no other owner.
    pub fn from_raw(ptr: usize) -> (owner: Box<T>)
        ensures
            owner.addr() == ptr,
    {
        Box { ptr, marker: PhantomData }
    }

    /// The value owned.
    pub fn deref<'a>(&self, heap: &'a Heap<T>) -> (value: &'a T)
        requires
            heap@.dom().contains(self.addr()),
        ensures
            *value == heap@[self.addr()],
    {
        heap.get(self.ptr)
    }

    /// Ends the value's life: frees the allocation and hands the value out
    /// for its own clean-up.
    pub fn drop(self, heap: &mut Heap<T>) -> (value: T)
        requires
            old(heap)@.dom().contains(self.addr()),
        ensures
            value == old(heap)@[self.addr()],
            final(heap)@ == old(heap)@.remove(self.addr()),
            final(heap).has_room() == old(heap).has_room(),
    {
        heap.take(self.ptr)
    }
}

/// The owner of a run of values that were copied out of a slice.
pub struct BoxedSlice<T> {
    items: Vec<T>,
}

impl<T> View for BoxedSlice<T> {
    type V = Seq<T>;

    /// The values owned, in order.
    closed spec fn view(&self) -> Seq<T> {
        self.items@
    }
}

impl<T: Copy> BoxedSlice<T> {
    /// Copies the values of `value` into an allocation of their own.
    pub fn new(value: &[T]) -> (owner: BoxedSlice<T>)
        ensures
            owner@ == value@,
    {
        let mut items: Vec<T> = Vec::new();
        let mut i: usize = 0;
        while i < value.len()
            invariant
                i <= value.len(),
                items@ == value@.take(i as int),
            decreases value.len() - i,
        {
            items.push(value[i]);
            i = i + 1;
        }
        BoxedSlice { items }
    }
}

impl<T> BoxedSlice<T> {
    /// The number of values owned.
    pub fn len(&self) -> (len: usize)
        ensures
            len == self@.len(),
    {
        self.items.len()
    }

    /// The values owned, as a slice.
    pub fn deref(&self) -> (slice: &[T])
        ensures
            slice@ == self@,
    {
        self.items.as_slice()
    }
}

} // verus!
