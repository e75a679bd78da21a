//! The free pool: the frame addresses that no ring and no packet holds.

use vstd::prelude::*;
use std::collections::VecDeque;
use crate::umem::seed_addresses;

verus! {

/// A bounded first-in, first-out queue of frame addresses.
#[derive(Debug)]
pub struct FreePool {
    queue: VecDeque<u64>,
    capacity: u32,
}

impl View for FreePool {
    type V = Seq<u64>;

    /// The addresses in the pool, the next one to be popped first.
    closed spec fn view(&self) -> Seq<u64> {
        self.queue@
    }
}

impl FreePool {
    /// The greatest number of addresses the pool takes.
    pub closed spec fn capacity(&self) -> nat {
        self.capacity as nat
    }

    /// Well-formedness: the pool holds no more than its capacity.
    pub open spec fn wf(&self) -> bool {
        self@.len() <= self.capacity() <= u32::MAX
    }

    /// An empty pool that takes up to `capacity` addresses.
    pub fn new(capacity: u32) -> (pool: Self)
        ensures
            pool.wf(),
            pool.capacity() == capacity,
            pool@ == Seq::<u64>::empty(),
    {
        FreePool { queue: VecDeque::new(), capacity }
    }

    /// A full pool of `count` addresses: those of the first `count` frames of
    /// a region laid out with `frame_size` and `headroom`, in increasing
    /// order.
    pub fn seeded(frame_size: u32, headroom: u32, count: u32) -> (pool: Self)
        requires
            (frame_size + headroom) * count <= u32::MAX,
        ensures
            pool.wf(),
            pool.capacity() == count,
            pool@ == seed_addresses(frame_size, headroom, count),
    {
        let stride: u64 = frame_size as u64 + headroom as u64;
        let mut queue: VecDeque<u64> = VecDeque::new();
        let mut index: u32 = 0;
        while index < count
            invariant
                index <= count,
                stride == frame_size + headroom,
                stride * count <= u32::MAX,
                queue@ == seed_addresses(frame_size, headroom, index),
            decreases count - index,
        {
            assert(index * stride <= count * stride) by (nonlinear_arith)
                requires
                    index <= count,
                    stride >= 0,
            ;
            assert(count * stride == stride * count) by (nonlinear_arith);
            let address: u64 = index as u64 * stride + headroom as u64;
            queue.push_back(address);
            assert(queue@ =~= seed_addresses(frame_size, headroom, (index + 1) as u32));
            index = index + 1;
        }
        FreePool { queue, capacity: count }
    }

    /// The number of addresses in the pool.
    pub fn len(&self) -> (n: u32)
        requires
            self.wf(),
        ensures
            n == self@.len(),
    {
        self.queue.len() as u32
    }

    /// The greatest number of addresses the pool takes.
    pub fn limit(&self) -> (n: u32)
        ensures
            n == self.capacity(),
    {
        self.capacity
    }

    /// Whether the pool holds no address.
    pub fn is_empty(&self) -> (b: bool)
        ensures
            b == (self@.len() == 0),
    {
        self.queue.len() == 0
    }

    /// Whether the pool takes no further address.
    pub fn is_full(&self) -> (b: bool)
        requires
            self.wf(),
        ensures
            b == (self@.len() == self.capacity()),
    {
        self.queue.len() as u32 == self.capacity
    }

    /// Appends `address` unless the pool is full.  Returns whether it was
    /// appended.
    pub fn try_push(&mut self, address: u64) -> (done: bool)
        requires
            old(self).wf(),
        ensures
            final(self).wf(),
            final(self).capacity() == old(self).capacity(),
            done == (old(self)@.len() < old(self).capacity()),
            done ==> final(self)@ == old(self)@.push(address),
            !done ==> final(self)@ == old(self)@,
    {
        if self.queue.len() as u32 >= self.capacity {
            return false;
        }
        self.queue.push_back(address);
        true
    }

    /// Takes the oldest address out of the pool, if there is one.
    pub fn try_pop(&mut self) -> (address: Option<u64>)
        requires
            old(self).wf(),
        ensures
            final(self).wf(),
            final(self).capacity() == old(self).capacity(),
            old(self)@.len() == 0 ==> address.is_none() && final(self)@ == old(self)@,
            old(self)@.len() > 0 ==> address == Some(old(self)@[0]) && final(self)@ == old(self)@.skip(1),
    {
        let address = self.queue.pop_front();
        assert(old(self)@.len() > 0 ==> self.queue@ =~= old(self)@.skip(1));
        address
    }

    /// Whether `address` is in the pool.
    pub fn contains(&self, address: u64) -> (found: bool)
        ensures
            found == self@.contains(address),
    {
        let mut at: usize = 0;
        while at < self.queue.len()
            invariant
                at <= self.queue@.len(),
                forall|i: int| 0 <= i < at ==> self.queue@[i] != address,
            decreases self.queue@.len() - at,
        {
            if self.queue[at] == address {
                return true;
            }
            at = at + 1;
        }
        false
    }

    /// The addresses in the pool, the next one to be popped first.
    pub fn addresses(&self) -> (all: Vec<u64>)
        ensures
            all@ == self@,
    {
        let mut all: Vec<u64> = Vec::new();
        let mut index: usize = 0;
        while index < self.queue.len()
            invariant
                index <= self.queue@.len(),
                all@ == self.queue@.take(index as int),
            decreases self.queue@.len() - index,
        {
            all.push(self.queue[index]);
            assert(all@ =~= self.queue@.take(index + 1));
            index = index + 1;
        }
        assert(all@ =~= self.queue@);
        all
    }
}

} // verus!
