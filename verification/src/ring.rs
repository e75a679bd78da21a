//! Single-producer / single-consumer descriptor rings.
//!
//! A ring is a fixed, power-of-two number of slots with a free-running
//! producer index and a free-running consumer index.  The user holds one end
//! of every ring and the driver holds the other: a [`Producer`] is a ring the
//! user fills (FILL, TX), a [`Consumer`] is a ring the user drains (RX,
//! COMPLETION).  The driver's end of each ring is part of the same value, so
//! that a whole exchange can be followed from one side to the other.

use vstd::prelude::*;
use vstd::arithmetic::power2::is_pow2;
use vstd::string::StringExecFns;
use crate::descriptor::Descriptor;
use crate::text::{decimal_digits, push_decimal};

verus! {

/// Why a ring could not be built.
#[derive(Debug, PartialEq, Eq, Structural)]
pub enum RingError {
    /// The requested number of slots is not a power of two.
    IsNotPowerOfTwo(u32),
    /// The ring's storage could not be set up.
    Initialize,
}

impl RingError {
    /// The message of this error.
    pub open spec fn text(self) -> Seq<char> {
        match self {
            RingError::IsNotPowerOfTwo(size) => "The ring size '"@ + decimal_digits(size as nat)
                + "' is not the power of two."@,
            RingError::Initialize => "Failed to initialize the ring buffer."@,
        }
    }

    /// The message of this error.
    pub fn message(&self) -> (text: String)
        ensures
            text@ == self.text(),
    {
        match self {
            RingError::IsNotPowerOfTwo(size) => {
                let mut text = String::from_str("The ring size '");
                push_decimal(&mut text, *size as u64);
                text.append("' is not the power of two.");
                text
            },
            RingError::Initialize => String::from_str("Failed to initialize the ring buffer."),
        }
    }
}

/// Whether `size` is a power of two.
pub fn is_power_of_two(size: u32) -> (r: bool)
    ensures
        r == is_pow2(size as int),
{
    if size == 0 {
        proof {
            reveal(is_pow2);
        }
        return false;
    }
    let mut rest: u32 = size;
    while rest % 2 == 0
        invariant
            rest > 0,
            is_pow2(rest as int) == is_pow2(size as int),
        decreases rest,
    {
        proof {
            reveal(is_pow2);
        }
        rest = rest / 2;
    }
    proof {
        reveal(is_pow2);
    }
    rest == 1
}

/// The slot that lies `offset` slots after `head` in a ring of `size` slots.
pub open spec fn slot_after(head: int, offset: int, size: int) -> int {
    if head + offset >= size {
        head + offset - size
    } else {
        head + offset
    }
}

/// The storage shared by both kinds of ring.
struct Ring {
    slots: Vec<Descriptor>,
    size: u32,
    /// Slot of the oldest entry that has been produced and not consumed.
    head: u32,
    /// Number of entries produced and not consumed.
    count: u32,
    producer: u32,
    consumer: u32,
}

impl Ring {
    spec fn inv(&self) -> bool {
        &&& self.slots@.len() == self.size
        &&& is_pow2(self.size as int)
        &&& self.head < self.size
        &&& self.count <= self.size
        &&& self.producer == self.consumer.wrapping_add(self.count)
    }

    /// The entry that lies `offset` slots after the oldest one.
    spec fn entry(&self, offset: int) -> Descriptor {
        self.slots@[slot_after(self.head as int, offset, self.size as int)]
    }

    /// The entries produced and not consumed, oldest first.
    spec fn pending(&self) -> Seq<Descriptor> {
        Seq::new(self.count as nat, |k: int| self.entry(k))
    }

    /// The `len` slots that follow the pending entries.
    spec fn beyond(&self, len: nat) -> Seq<Descriptor> {
        Seq::new(len, |k: int| self.entry(self.count + k))
    }

    fn new(size: u32) -> (ring: Ring)
        requires
            is_pow2(size as int),
        ensures
            ring.inv(),
            ring.size == size,
            ring.count == 0,
            ring.producer == 0,
            ring.consumer == 0,
    {
        let mut slots: Vec<Descriptor> = Vec::new();
        let mut made: u32 = 0;
        while made < size
            invariant
                made <= size,
                slots@.len() == made,
            decreases size - made,
        {
            slots.push(Descriptor { address: 0, length: 0 });
            made = made + 1;
        }
        proof {
            reveal(is_pow2);
        }
        Ring { slots, size, head: 0, count: 0, producer: 0, consumer: 0 }
    }

    /// The slot index of the entry `offset` slots after the oldest one.
    fn slot(&self, offset: u32) -> (at: usize)
        requires
            self.inv(),
            offset <= self.size,
        ensures
            at == slot_after(self.head as int, offset as int, self.size as int),
            offset < self.size ==> at < self.size,
    {
        let sum: u64 = self.head as u64 + offset as u64;
        if sum >= self.size as u64 {
            (sum - self.size as u64) as usize
        } else {
            sum as usize
        }
    }

    /// The pending entries, oldest first.
    fn entries(&self) -> (all: Vec<Descriptor>)
        requires
            self.inv(),
        ensures
            all@ == self.pending(),
    {
        let mut all: Vec<Descriptor> = Vec::new();
        let mut offset: u32 = 0;
        while offset < self.count
            invariant
                self.inv(),
                offset <= self.count,
                all@ == self.pending().take(offset as int),
            decreases self.count - offset,
        {
            let at = self.slot(offset);
            all.push(self.slots[at]);
            assert(all@ =~= self.pending().take(offset + 1));
            offset = offset + 1;
        }
        assert(all@ =~= self.pending());
        all
    }

    /// Makes the `count` slots after the pending entries pending too.
    fn produce(&mut self, count: u32)
        requires
            old(self).inv(),
            old(self).count + count <= old(self).size,
        ensures
            final(self).inv(),
            final(self).size == old(self).size,
            final(self).consumer == old(self).consumer,
            final(self).producer == old(self).producer.wrapping_add(count),
            final(self).pending() == old(self).pending() + old(self).beyond(count as nat),
    {
        self.count = self.count + count;
        self.producer = self.producer.wrapping_add(count);
        assert(self.pending() =~= old(self).pending() + old(self).beyond(count as nat));
    }

    /// Drops the `count` oldest pending entries.
    fn consume(&mut self, count: u32)
        requires
            old(self).inv(),
            count <= old(self).count,
        ensures
            final(self).inv(),
            final(self).size == old(self).size,
            final(self).producer == old(self).producer,
            final(self).consumer == old(self).consumer.wrapping_add(count),
            final(self).pending() == old(self).pending().skip(count as int),
    {
        let head = self.slot(count);
        self.head = if head >= self.size as usize {
            0
        } else {
            head as u32
        };
        self.count = self.count - count;
        self.consumer = self.consumer.wrapping_add(count);
        assert(self.pending() =~= old(self).pending().skip(count as int));
    }
}

/// The user's end of a ring that the user fills and the driver drains.
pub struct Producer {
    ring: Ring,
    /// Slots granted by the latest `reserve` and not yet submitted.
    reserved: u32,
}

/// The user's end of a ring that the driver fills and the user drains.
pub struct Consumer {
    ring: Ring,
    /// Entries shown by the latest `peek` and not yet released.
    peeked: u32,
}

/// Builds a producer ring and a consumer ring of `size` slots each, both
/// empty, with all indices at zero.
pub fn ring_buffer(size: u32) -> (r: Result<(Producer, Consumer), RingError>)
    ensures
        !is_pow2(size as int) ==> r == Err::<(Producer, Consumer), RingError>(
            RingError::IsNotPowerOfTwo(size),
        ),
        is_pow2(size as int) ==> r is Ok && ({
            let (producer, consumer) = r->Ok_0;
            &&& producer.wf()
            &&& producer.capacity() == size
            &&& producer.pending() == Seq::<Descriptor>::empty()
            &&& producer.reserved() == 0
            &&& producer.producer_index() == 0
            &&& producer.consumer_index() == 0
            &&& consumer.wf()
            &&& consumer.capacity() == size
            &&& consumer.pending() == Seq::<Descriptor>::empty()
            &&& consumer.peeked() == 0
            &&& consumer.producer_index() == 0
            &&& consumer.consumer_index() == 0
        }),
{
    if !is_power_of_two(size) {
        return Err(RingError::IsNotPowerOfTwo(size));
    }
    let producer = Producer { ring: Ring::new(size), reserved: 0 };
    let consumer = Consumer { ring: Ring::new(size), peeked: 0 };
    assert(producer.pending() =~= Seq::<Descriptor>::empty());
    assert(consumer.pending() =~= Seq::<Descriptor>::empty());
    assert(producer.staged() =~= Seq::<Descriptor>::empty());
    Ok((producer, consumer))
}

impl Producer {
    /// The representation invariant.
    pub closed spec fn inv(&self) -> bool {
        self.ring.inv() && self.ring.count + self.reserved <= self.ring.size
    }

    /// Number of slots.
    pub closed spec fn capacity(&self) -> nat {
        self.ring.size as nat
    }

    /// Entries submitted and not yet taken by the driver, oldest first.
    pub closed spec fn pending(&self) -> Seq<Descriptor> {
        self.ring.pending()
    }

    /// Number of slots granted by the latest `reserve` and not yet submitted.
    pub closed spec fn reserved(&self) -> nat {
        self.reserved as nat
    }

    /// What the reserved slots hold, first reserved slot first.
    pub closed spec fn staged(&self) -> Seq<Descriptor> {
        self.ring.beyond(self.reserved as nat)
    }

    /// The free-running index of the next slot to be submitted.
    pub closed spec fn producer_index(&self) -> u32 {
        self.ring.producer
    }

    /// The free-running index of the next entry the driver will take.
    pub closed spec fn consumer_index(&self) -> u32 {
        self.ring.consumer
    }

    /// Well-formedness: the representation invariant and what follows from it.
    pub open spec fn wf(&self) -> bool {
        &&& self.inv()
        &&& is_pow2(self.capacity() as int)
        &&& self.capacity() <= u32::MAX
        &&& self.pending().len() + self.reserved() <= self.capacity()
        &&& self.staged().len() == self.reserved()
        &&& self.producer_index() == self.consumer_index().wrapping_add(self.pending().len() as u32)
    }

    /// How far `index` lies behind the first reserved slot.
    pub open spec fn offset_of(&self, index: u32) -> int {
        index.wrapping_sub(self.producer_index()) as int
    }

    /// Number of slots.
    pub fn size(&self) -> (n: u32)
        requires
            self.wf(),
        ensures
            n == self.capacity(),
    {
        self.ring.size
    }

    /// Number of entries submitted and not yet taken by the driver.
    pub fn len(&self) -> (n: u32)
        requires
            self.wf(),
        ensures
            n == self.pending().len(),
    {
        self.ring.count
    }

    /// The entries submitted and not yet taken by the driver, oldest first.
    pub fn entries(&self) -> (all: Vec<Descriptor>)
        requires
            self.wf(),
        ensures
            all@ == self.pending(),
    {
        self.ring.entries()
    }

    /// Asks for up to `size` slots.  Grants as many as are free, starting at
    /// the producer index; an earlier reservation that was not submitted is
    /// given up.
    pub fn reserve(&mut self, size: u32) -> (r: (u32, u32))
        requires
            old(self).wf(),
        ensures
            final(self).wf(),
            r.0 as int == vstd::math::min(
                size as int,
                old(self).capacity() - old(self).pending().len(),
            ),
            r.1 == old(self).producer_index(),
            final(self).reserved() == r.0,
            final(self).capacity() == old(self).capacity(),
            final(self).pending() == old(self).pending(),
            final(self).producer_index() == old(self).producer_index(),
            final(self).consumer_index() == old(self).consumer_index(),
    {
        let free = self.ring.size - self.ring.count;
        let granted = if size < free {
            size
        } else {
            free
        };
        self.reserved = granted;
        (granted, self.ring.producer)
    }

    /// The reserved slot with index `index`, as a descriptor to be written.
    pub fn descriptor(&mut self, index: u32) -> (slot: &mut Descriptor)
        requires
            old(self).wf(),
            old(self).offset_of(index) < old(self).reserved(),
        ensures
            *slot == old(self).staged()[old(self).offset_of(index)],
            final(self).wf(),
            final(self).staged() == old(self).staged().update(
                old(self).offset_of(index),
                *final(slot),
            ),
            final(self).reserved() == old(self).reserved(),
            final(self).capacity() == old(self).capacity(),
            final(self).pending() == old(self).pending(),
            final(self).producer_index() == old(self).producer_index(),
            final(self).consumer_index() == old(self).consumer_index(),
    {
        let offset = index.wrapping_sub(self.ring.producer);
        let at = self.ring.slot(self.ring.count + offset);
        proof {
            let pre = *old(self);
            assert forall|post: Producer|
                post.ring.slots@.len() == pre.ring.slots@.len() && post.ring.size == pre.ring.size
                    && post.ring.head == pre.ring.head && post.ring.count == pre.ring.count
                    && post.ring.producer == pre.ring.producer && post.ring.consumer
                    == pre.ring.consumer && post.reserved == pre.reserved && (forall|i: int|
                    0 <= i < pre.ring.slots@.len() && i != at ==> post.ring.slots@[i]
                        == pre.ring.slots@[i]) implies #[trigger] post.pending() == pre.pending()
                && post.staged() == pre.staged().update(
                offset as int,
                post.ring.slots@[at as int],
            ) by {
                assert(post.pending() =~= pre.pending());
                assert(post.staged() =~= pre.staged().update(
                    offset as int,
                    post.ring.slots@[at as int],
                ));
            }
        }
        &mut self.ring.slots[at]
    }

    /// The frame address of the reserved slot with index `index`, to be
    /// written.
    pub fn fill_address(&mut self, index: u32) -> (slot: &mut u64)
        requires
            old(self).wf(),
            old(self).offset_of(index) < old(self).reserved(),
        ensures
            *slot == old(self).staged()[old(self).offset_of(index)].address,
            final(self).wf(),
            final(self).staged() == old(self).staged().update(
                old(self).offset_of(index),
                Descriptor {
                    address: *final(slot),
                    length: old(self).staged()[old(self).offset_of(index)].length,
                },
            ),
            final(self).reserved() == old(self).reserved(),
            final(self).capacity() == old(self).capacity(),
            final(self).pending() == old(self).pending(),
            final(self).producer_index() == old(self).producer_index(),
            final(self).consumer_index() == old(self).consumer_index(),
    {
        let entry = self.descriptor(index);
        &mut entry.address
    }

    /// Hands `count` of the reserved slots, in order from the first, to the
    /// driver.  The rest of the reservation is given up.
    pub fn submit(&mut self, count: u32)
        requires
            old(self).wf(),
            count <= old(self).reserved(),
        ensures
            final(self).wf(),
            final(self).pending() == old(self).pending() + old(self).staged().take(count as int),
            final(self).reserved() == 0,
            final(self).capacity() == old(self).capacity(),
            final(self).producer_index() == old(self).producer_index().wrapping_add(count),
            final(self).consumer_index() == old(self).consumer_index(),
    {
        assert(self.ring.beyond(count as nat) =~= self.staged().take(count as int));
        self.ring.produce(count);
        self.reserved = 0;
        assert(self.staged() =~= Seq::<Descriptor>::empty());
    }

    /// The driver's end: takes the oldest submitted entry, if there is one.
    pub fn kernel_consume(&mut self) -> (taken: Option<Descriptor>)
        requires
            old(self).wf(),
        ensures
            final(self).wf(),
            final(self).capacity() == old(self).capacity(),
            final(self).reserved() == old(self).reserved(),
            final(self).producer_index() == old(self).producer_index(),
            old(self).pending().len() == 0 ==> taken.is_none() && final(self).pending() == old(self).pending() && final(self).consumer_index() == old(self).consumer_index(),
            old(self).pending().len() > 0 ==> taken == Some(old(self).pending()[0]) && final(self).pending() == old(self).pending().skip(1) && final(self).consumer_index() == old(self).consumer_index().wrapping_add(1),
    {
        if self.ring.count == 0 {
            return None;
        }
        let at = self.ring.slot(0);
        let entry = self.ring.slots[at];
        self.ring.consume(1);
        Some(entry)
    }
}

impl Consumer {
    /// The representation invariant.
    pub closed spec fn inv(&self) -> bool {
        self.ring.inv() && self.peeked <= self.ring.count
    }

    /// Number of slots.
    pub closed spec fn capacity(&self) -> nat {
        self.ring.size as nat
    }

    /// Entries the driver has produced and the user has not released, oldest
    /// first.
    pub closed spec fn pending(&self) -> Seq<Descriptor> {
        self.ring.pending()
    }

    /// Number of entries shown by the latest `peek` and not yet released.
    pub closed spec fn peeked(&self) -> nat {
        self.peeked as nat
    }

    /// The free-running index of the next slot the driver will fill.
    pub closed spec fn producer_index(&self) -> u32 {
        self.ring.producer
    }

    /// The free-running index of the oldest entry not yet released.
    pub closed spec fn consumer_index(&self) -> u32 {
        self.ring.consumer
    }

    /// Well-formedness: the representation invariant and what follows from it.
    pub open spec fn wf(&self) -> bool {
        &&& self.inv()
        &&& is_pow2(self.capacity() as int)
        &&& self.capacity() <= u32::MAX
        &&& self.pending().len() <= self.capacity()
        &&& self.peeked() <= self.pending().len()
        &&& self.producer_index() == self.consumer_index().wrapping_add(self.pending().len() as u32)
    }

    /// How far `index` lies behind the oldest entry.
    pub open spec fn offset_of(&self, index: u32) -> int {
        index.wrapping_sub(self.consumer_index()) as int
    }

    /// Number of slots.
    pub fn size(&self) -> (n: u32)
        requires
            self.wf(),
        ensures
            n == self.capacity(),
    {
        self.ring.size
    }

    /// Number of entries produced and not yet released.
    pub fn len(&self) -> (n: u32)
        requires
            self.wf(),
        ensures
            n == self.pending().len(),
    {
        self.ring.count
    }

    /// The entries produced and not yet released, oldest first.
    pub fn entries(&self) -> (all: Vec<Descriptor>)
        requires
            self.wf(),
        ensures
            all@ == self.pending(),
    {
        self.ring.entries()
    }

    /// Looks at up to `size` of the oldest entries.  Shows as many as there
    /// are, starting at the consumer index.
    pub fn peek(&mut self, size: u32) -> (r: (u32, u32))
        requires
            old(self).wf(),
        ensures
            final(self).wf(),
            r.0 as int == vstd::math::min(size as int, old(self).pending().len() as int),
            r.1 == old(self).consumer_index(),
            final(self).peeked() == r.0,
            final(self).capacity() == old(self).capacity(),
            final(self).pending() == old(self).pending(),
            final(self).producer_index() == old(self).producer_index(),
            final(self).consumer_index() == old(self).consumer_index(),
    {
        let filled = if size < self.ring.count {
            size
        } else {
            self.ring.count
        };
        self.peeked = filled;
        (filled, self.ring.consumer)
    }

    /// The peeked entry with index `index`.
    pub fn descriptor(&self, index: u32) -> (entry: &Descriptor)
        requires
            self.wf(),
            self.offset_of(index) < self.peeked(),
        ensures
            *entry == self.pending()[self.offset_of(index)],
    {
        let offset = index.wrapping_sub(self.ring.consumer);
        let at = self.ring.slot(offset);
        &self.ring.slots[at]
    }

    /// The frame address held by the peeked entry with index `index`.
    pub fn completion_address(&self, index: u32) -> (address: &u64)
        requires
            self.wf(),
            self.offset_of(index) < self.peeked(),
        ensures
            *address == self.pending()[self.offset_of(index)].address,
    {
        let offset = index.wrapping_sub(self.ring.consumer);
        let at = self.ring.slot(offset);
        &self.ring.slots[at].address
    }

    /// Gives the `count` oldest peeked entries back to the driver.
    pub fn release(&mut self, count: u32)
        requires
            old(self).wf(),
            count <= old(self).peeked(),
        ensures
            final(self).wf(),
            final(self).pending() == old(self).pending().skip(count as int),
            final(self).peeked() == 0,
            final(self).capacity() == old(self).capacity(),
            final(self).producer_index() == old(self).producer_index(),
            final(self).consumer_index() == old(self).consumer_index().wrapping_add(count),
    {
        self.ring.consume(count);
        self.peeked = 0;
    }

    /// The driver's end: appends `entry` unless the ring is full.  Returns
    /// whether it was appended.
    pub fn kernel_produce(&mut self, entry: Descriptor) -> (done: bool)
        requires
            old(self).wf(),
        ensures
            final(self).wf(),
            final(self).capacity() == old(self).capacity(),
            final(self).peeked() == old(self).peeked(),
            final(self).consumer_index() == old(self).consumer_index(),
            done == (old(self).pending().len() < old(self).capacity()),
            done ==> final(self).pending() == old(self).pending().push(entry) && final(self).producer_index() == old(self).producer_index().wrapping_add(1),
            !done ==> final(self).pending() == old(self).pending() && final(self).producer_index()
                == old(self).producer_index(),
    {
        if self.ring.count == self.ring.size {
            return false;
        }
        let at = self.ring.slot(self.ring.count);
        self.ring.slots[at] = entry;
        assert(self.ring.pending() =~= old(self).ring.pending());
        assert(self.ring.beyond(1) =~= seq![entry]);
        self.ring.produce(1);
        assert(self.ring.pending() =~= old(self).ring.pending().push(entry));
        true
    }
}

} // verus!
