//! A loopback harness: both half-sockets, what they share, and a driver
//! that moves frames from FILL to RX and from TX to COMPLETION one step at a
//! time.
//!
//! The harness keeps every frame in sight: in the free pool, in one of the
//! four rings, in the driver's hands, or in the user's.  Whatever steps are
//! taken, in whatever order, each frame address of the region is in exactly
//! one of these places.

use vstd::prelude::*;
use vstd::multiset::Multiset;
use vstd::seq_lib::lemma_multiset_commutative;
use vstd::arithmetic::div_mod::lemma_div_multiples_vanish;
use vstd::string::StringSliceAdditionalSpecFns;
use std::collections::VecDeque;
use crate::descriptor::{addresses, Descriptor};
use crate::laws::{bag, lemma_bag_split, lemma_read_conserves, lemma_write_conserves};
use crate::mmap::region_length;
use crate::socket::{build_error, RxSocket, Socket, SocketBuilder, SocketError, TxSocket};
use crate::umem::{frame_address, lemma_frame_address_is_valid, seed_addresses};

verus! {

/// Both half-sockets with a driver between them.
pub struct Loopback {
    tx: TxSocket,
    rx: RxSocket,
    socket: Socket,
    /// Addresses the driver has taken from FILL and not yet delivered.
    receiving: VecDeque<u64>,
    /// Descriptors the driver has taken from TX and not yet completed.
    transmitting: VecDeque<Descriptor>,
    /// Descriptors in the user's hands: received or allocated, and neither
    /// sent nor released yet.
    held: Vec<Descriptor>,
}

/// Where a frame is in its life.
#[derive(Clone, Copy, Debug, PartialEq, Eq, Structural)]
pub enum FrameState {
    /// In the free pool.
    Free,
    /// In the FILL ring, or with the driver on its way to RX.
    Filled,
    /// In the RX ring, or received and in the user's hands.
    Received,
    /// In the TX ring, or with the driver on its way to COMPLETION.
    Submitted,
    /// In the COMPLETION ring.
    Completed,
}

/// Whether one of `entries` has the address `address`.
fn has_address(entries: &Vec<Descriptor>, address: u64) -> (found: bool)
    ensures
        found == addresses(entries@).contains(address),
{
    let mut at: usize = 0;
    while at < entries.len()
        invariant
            at <= entries@.len(),
            forall|i: int| 0 <= i < at ==> addresses(entries@)[i] != address,
        decreases entries@.len() - at,
    {
        if entries[at].address == address {
            assert(addresses(entries@)[at as int] == address);
            return true;
        }
        at = at + 1;
    }
    false
}

/// Whether every descriptor of `entries` is at most `frame_size` bytes long.
pub open spec fn fits(entries: Seq<Descriptor>, frame_size: u32) -> bool {
    forall|i: int| 0 <= i < entries.len() ==> (#[trigger] entries[i]).length <= frame_size
}

/// The first `count` elements of `entries` removed.
fn without_front(entries: &Vec<Descriptor>, count: usize) -> (rest: Vec<Descriptor>)
    requires
        count <= entries@.len(),
    ensures
        rest@ == entries@.skip(count as int),
{
    let mut rest: Vec<Descriptor> = Vec::new();
    let mut at: usize = count;
    while at < entries.len()
        invariant
            count <= at <= entries@.len(),
            rest@ == entries@.subrange(count as int, at as int),
        decreases entries@.len() - at,
    {
        rest.push(entries[at]);
        assert(rest@ =~= entries@.subrange(count as int, at + 1));
        at = at + 1;
    }
    assert(rest@ =~= entries@.skip(count as int));
    rest
}

impl Loopback {
    /// The transmit half.
    pub closed spec fn tx(&self) -> TxSocket {
        self.tx
    }

    /// The receive half.
    pub closed spec fn rx(&self) -> RxSocket {
        self.rx
    }

    /// What the halves share.
    pub closed spec fn socket(&self) -> Socket {
        self.socket
    }

    /// Addresses the driver has taken from FILL and not yet delivered,
    /// oldest first.
    pub closed spec fn receiving(&self) -> Seq<u64> {
        self.receiving@
    }

    /// Descriptors the driver has taken from TX and not yet completed,
    /// oldest first.
    pub closed spec fn transmitting(&self) -> Seq<Descriptor> {
        self.transmitting@
    }

    /// Descriptors in the user's hands, oldest first.
    pub closed spec fn held(&self) -> Seq<Descriptor> {
        self.held@
    }

    /// Payload bytes per frame.
    pub open spec fn frame_size(&self) -> u32 {
        self.socket().region().layout().frame_size
    }

    /// Reserved bytes per frame.
    pub open spec fn headroom(&self) -> u32 {
        self.socket().region().layout().frame_headroom
    }

    /// Slots per ring, and the number of frames.
    pub open spec fn ring_size(&self) -> u32 {
        self.rx().size()
    }

    /// The address of every frame of the region.
    pub open spec fn seeds(&self) -> Seq<u64> {
        seed_addresses(self.frame_size(), self.headroom(), self.ring_size())
    }

    /// The addresses in the user-side containers: the free pool, FILL, RX,
    /// the user's hands, TX and COMPLETION, in this order.
    pub open spec fn user_side(&self) -> Seq<u64> {
        self.socket().pool()@ + addresses(self.rx().fill().pending()) + addresses(
            self.rx().rx().pending(),
        ) + addresses(self.held()) + addresses(self.tx().tx().pending()) + addresses(
            self.tx().completion().pending(),
        )
    }

    /// The addresses in the driver's hands.
    pub open spec fn in_flight(&self) -> Seq<u64> {
        self.receiving() + addresses(self.transmitting())
    }

    /// The addresses of the frames that are in state `state`.
    pub open spec fn frames_in(&self, state: FrameState) -> Seq<u64> {
        match state {
            FrameState::Free => self.socket().pool()@,
            FrameState::Filled => addresses(self.rx().fill().pending()) + self.receiving(),
            FrameState::Received => addresses(self.rx().rx().pending()) + addresses(self.held()),
            FrameState::Submitted => addresses(self.tx().tx().pending()) + addresses(
                self.transmitting(),
            ),
            FrameState::Completed => addresses(self.tx().completion().pending()),
        }
    }

    /// Every address that is anywhere, each as often as it occurs.
    pub open spec fn frames(&self) -> Multiset<u64> {
        self.socket().pool()@.to_multiset().add(bag(self.rx().fill().pending())).add(
            bag(self.rx().rx().pending()),
        ).add(bag(self.held())).add(bag(self.tx().tx().pending())).add(
            bag(self.tx().completion().pending()),
        ).add(self.receiving().to_multiset()).add(bag(self.transmitting()))
    }

    /// Well-formedness.  The parts are well-formed and of one size; the
    /// region holds exactly `ring_size` frames; every frame address is in
    /// exactly one place (conservation); and no packet in RX or in the
    /// user's hands is longer than a frame's payload.
    pub open spec fn wf(&self) -> bool {
        &&& self.tx().wf()
        &&& self.rx().wf()
        &&& self.socket().wf()
        &&& self.tx().size() == self.ring_size()
        &&& self.socket().pool().capacity() == self.ring_size()
        &&& self.frame_size() + self.headroom() > 0
        &&& self.socket().region()@.len() == region_length(
            self.frame_size(),
            self.headroom(),
            self.ring_size(),
        )
        &&& region_length(self.frame_size(), self.headroom(), self.ring_size()) <= u32::MAX
        &&& self.frames() == self.seeds().to_multiset()
        &&& fits(self.rx().rx().pending(), self.frame_size())
        &&& fits(self.held(), self.frame_size())
    }

    /// Whether `other` has the same region, binding and sizes as `self`.
    pub open spec fn same_setup(&self, other: Loopback) -> bool {
        &&& other.socket().region() == self.socket().region()
        &&& other.socket().interface() == self.socket().interface()
        &&& other.socket().queue() == self.socket().queue()
        &&& other.socket().zero_copy() == self.socket().zero_copy()
        &&& other.ring_size() == self.ring_size()
    }

    /// Builds a socket from `builder` and puts a driver between its halves.
    /// Nothing is in the driver's hands or in the user's.
    pub fn new(builder: SocketBuilder, interface_name: &str, queue_id: u32) -> (r: Result<
        Loopback,
        SocketError,
    >)
        ensures
            match build_error(
                builder.frame_size,
                builder.frame_headroom_size,
                builder.ring_size,
                interface_name.spec_bytes(),
            ) {
                Some(error) => r == Err::<Loopback, SocketError>(error),
                None => r is Ok && r->Ok_0.wf() && Socket::fresh(
                    r->Ok_0.tx(),
                    r->Ok_0.rx(),
                    r->Ok_0.socket(),
                    builder.frame_size,
                    builder.frame_headroom_size,
                    builder.ring_size,
                    builder.use_hugetlb,
                    builder.force_zero_copy,
                    interface_name@,
                    queue_id,
                ) && r->Ok_0.receiving() == Seq::<u64>::empty() && r->Ok_0.transmitting()
                    == Seq::<Descriptor>::empty() && r->Ok_0.held() == Seq::<Descriptor>::empty(),
            },
    {
        let ghost frame_size = builder.frame_size;
        let ghost headroom = builder.frame_headroom_size;
        let ghost ring_size = builder.ring_size;
        match builder.build(interface_name, queue_id) {
            Ok((tx, rx, socket)) => {
                let harness = Loopback {
                    tx,
                    rx,
                    socket,
                    receiving: VecDeque::new(),
                    transmitting: VecDeque::new(),
                    held: Vec::new(),
                };
                proof {
                    broadcast use vstd::multiset::group_multiset_axioms;

                    assert(addresses(Seq::<Descriptor>::empty()) =~= Seq::<u64>::empty());
                    crate::laws::lemma_empty_holds_nothing::<u64>();
                    assert(harness.frames() =~= harness.seeds().to_multiset());
                    assert((frame_size + headroom) > 0) by (nonlinear_arith)
                        requires
                            (frame_size + headroom) * ring_size > 0,
                            frame_size + headroom >= 0,
                            ring_size >= 0,
                    ;
                }
                Ok(harness)
            },
            Err(error) => Err(error),
        }
    }

    /// The transmit half.
    pub fn tx_socket(&self) -> (tx: &TxSocket)
        ensures
            *tx == self.tx(),
    {
        &self.tx
    }

    /// The receive half.
    pub fn rx_socket(&self) -> (rx: &RxSocket)
        ensures
            *rx == self.rx(),
    {
        &self.rx
    }

    /// What the halves share.
    pub fn shared(&self) -> (socket: &Socket)
        ensures
            *socket == self.socket(),
    {
        &self.socket
    }

    /// The descriptors in the user's hands, oldest first.
    pub fn packets(&self) -> (held: &Vec<Descriptor>)
        ensures
            held@ == self.held(),
    {
        &self.held
    }

    /// The addresses the driver holds between FILL and RX, oldest first.
    pub fn receiving_addresses(&self) -> (all: Vec<u64>)
        ensures
            all@ == self.receiving(),
    {
        let mut all: Vec<u64> = Vec::new();
        let mut at: usize = 0;
        while at < self.receiving.len()
            invariant
                at <= self.receiving@.len(),
                all@ == self.receiving@.take(at as int),
            decreases self.receiving@.len() - at,
        {
            all.push(self.receiving[at]);
            assert(all@ =~= self.receiving@.take(at + 1));
            at = at + 1;
        }
        assert(all@ =~= self.receiving@);
        all
    }

    /// The descriptors the driver holds between TX and COMPLETION, oldest
    /// first.
    pub fn transmitting_packets(&self) -> (all: Vec<Descriptor>)
        ensures
            all@ == self.transmitting(),
    {
        let mut all: Vec<Descriptor> = Vec::new();
        let mut at: usize = 0;
        while at < self.transmitting.len()
            invariant
                at <= self.transmitting@.len(),
                all@ == self.transmitting@.take(at as int),
            decreases self.transmitting@.len() - at,
        {
            all.push(self.transmitting[at]);
            assert(all@ =~= self.transmitting@.take(at + 1));
            at = at + 1;
        }
        assert(all@ =~= self.transmitting@);
        all
    }

    /// The number of addresses the driver holds between FILL and RX.
    pub fn receiving_len(&self) -> (n: usize)
        ensures
            n == self.receiving().len(),
    {
        self.receiving.len()
    }

    /// The number of descriptors the driver holds between TX and COMPLETION.
    pub fn transmitting_len(&self) -> (n: usize)
        ensures
            n == self.transmitting().len(),
    {
        self.transmitting.len()
    }

    /// One receive burst of the receive half into `out`.  The descriptors
    /// received are in the user's hands afterwards, behind those that were
    /// there.
    pub fn read(&mut self, out: &mut [Descriptor]) -> (count: u32)
        requires
            old(self).wf(),
        ensures
            final(self).wf(),
            old(self).same_setup(*final(self)),
            RxSocket::read_step(
                old(self).rx(),
                old(self).socket(),
                old(out)@,
                final(self).rx(),
                final(self).socket(),
                final(out)@,
                count,
            ),
            count <= final(out)@.len(),
            final(self).held() == old(self).held() + final(out)@.take(count as int),
            final(self).tx() == old(self).tx(),
            final(self).receiving() == old(self).receiving(),
            final(self).transmitting() == old(self).transmitting(),
    {
        let count = self.rx.read(&mut self.socket, out);
        proof {
            lemma_read_conserves(
                old(self).rx,
                old(self).socket,
                old(out)@,
                self.rx,
                self.socket,
                out@,
                count,
            );
        }
        let ghost before = self.held@;
        let ghost after = *self;
        let mut at: u32 = 0;
        while at < count
            invariant
                at <= count <= out@.len(),
                self.held@ == before + out@.take(at as int),
                self.rx == after.rx,
                self.tx == after.tx,
                self.socket == after.socket,
                self.receiving == after.receiving,
                self.transmitting == after.transmitting,
            decreases count - at,
        {
            self.held.push(out[at as usize]);
            assert(self.held@ =~= before + out@.take(at + 1));
            at = at + 1;
        }
        proof {
            broadcast use vstd::multiset::group_multiset_axioms;

            let received = out@.take(count as int);
            crate::laws::lemma_bag_concat(before, received);
            assert(self.frames() =~= old(self).frames());
            assert(received =~= old(self).rx.rx().pending().take(count as int));
            assert(fits(self.held@, self.frame_size()));
            assert(fits(self.rx.rx().pending(), self.frame_size()));
        }
        count
    }

    /// One transmit burst of the transmit half, of the `count` oldest
    /// descriptors in the user's hands, or of all of them if there are
    /// fewer.  Those that were accepted leave the user's hands.
    pub fn write(&mut self, count: usize) -> (accepted: u32)
        requires
            old(self).wf(),
        ensures
            final(self).wf(),
            old(self).same_setup(*final(self)),
            TxSocket::write_step(
                old(self).tx(),
                old(self).socket(),
                old(self).held().take(vstd::math::min(count as int, old(self).held().len() as int)),
                final(self).tx(),
                final(self).socket(),
                accepted,
            ),
            accepted <= old(self).held().len(),
            final(self).held() == old(self).held().skip(accepted as int),
            final(self).rx() == old(self).rx(),
            final(self).receiving() == old(self).receiving(),
            final(self).transmitting() == old(self).transmitting(),
    {
        let offered = if count < self.held.len() {
            count
        } else {
            self.held.len()
        };
        let packets = vstd::slice::slice_subrange(self.held.as_slice(), 0, offered);
        assert(packets@ =~= self.held@.take(offered as int));
        let accepted = self.tx.write(&mut self.socket, packets);
        proof {
            lemma_write_conserves(
                old(self).tx,
                old(self).socket,
                packets@,
                self.tx,
                self.socket,
                accepted,
            );
        }
        let rest = without_front(&self.held, accepted as usize);
        self.held = rest;
        proof {
            broadcast use vstd::multiset::group_multiset_axioms;

            let before = old(self).held@;
            lemma_bag_split(before, accepted as int);
            assert(packets@.take(accepted as int) =~= before.take(accepted as int));
            let now = self.socket.pool()@.to_multiset().add(bag(self.tx.tx().pending())).add(
                bag(self.tx.completion().pending()),
            );
            let then = old(self).socket.pool()@.to_multiset().add(
                bag(old(self).tx.tx().pending()),
            ).add(bag(old(self).tx.completion().pending())).add(bag(before.take(accepted as int)));
            assert forall|address: u64|
                self.frames().count(address) == old(self).frames().count(address) by {
                assert(now.count(address) == then.count(address));
            }
            assert(self.frames() =~= old(self).frames());
        }
        accepted
    }

    /// Takes a free frame out of the pool into the user's hands, as a packet
    /// of `length` bytes to be filled and sent.  Hands out nothing if the
    /// pool is empty or `length` is more than a frame's payload.
    pub fn allocate(&mut self, length: u32) -> (packet: Option<Descriptor>)
        requires
            old(self).wf(),
        ensures
            final(self).wf(),
            old(self).same_setup(*final(self)),
            final(self).tx() == old(self).tx(),
            final(self).rx() == old(self).rx(),
            final(self).receiving() == old(self).receiving(),
            final(self).transmitting() == old(self).transmitting(),
            old(self).socket().same_binding(final(self).socket()),
            length > old(self).frame_size() || old(self).socket().pool()@.len() == 0
                ==> packet.is_none() && final(self).held() == old(self).held() && final(self).socket().pool()@ == old(self).socket().pool()@,
            length <= old(self).frame_size() && old(self).socket().pool()@.len() > 0 ==> packet
                == Some(Descriptor { address: old(self).socket().pool()@[0], length }) && final(self).held() == old(self).held().push(packet->Some_0) && final(self).socket().pool()@
                == old(self).socket().pool()@.skip(1),
    {
        if length > self.socket.umem().config().frame_size {
            return None;
        }
        match self.socket.allocate() {
            Some(address) => {
                let packet = Descriptor::new(address, length);
                self.held.push(packet);
                proof {
                    broadcast use vstd::multiset::group_multiset_axioms;

                    let free = old(self).socket.pool()@;
                    crate::laws::lemma_split_keeps_all(free, 1);
                    assert(free.take(1) =~= seq![address]);
                    assert(addresses(self.held@) =~= addresses(old(self).held@).push(address));
                    crate::laws::lemma_single_holds_one(address);
                    lemma_multiset_commutative(addresses(old(self).held@), seq![address]);
                    assert(addresses(old(self).held@).push(address) =~= addresses(old(self).held@)
                        + seq![address]);
                    assert(self.frames() =~= old(self).frames());
                }
                Some(packet)
            },
            None => None,
        }
    }

    /// Gives the `count` oldest descriptors in the user's hands, or all of
    /// them if there are fewer, straight back to the free pool.  Those that
    /// the pool took leave the user's hands.
    pub fn release(&mut self, count: usize) -> (released: u32)
        requires
            old(self).wf(),
        ensures
            final(self).wf(),
            old(self).same_setup(*final(self)),
            final(self).tx() == old(self).tx(),
            final(self).rx() == old(self).rx(),
            final(self).receiving() == old(self).receiving(),
            final(self).transmitting() == old(self).transmitting(),
            released as int == vstd::math::min(
                vstd::math::min(count as int, old(self).held().len() as int),
                old(self).socket().pool().capacity() - old(self).socket().pool()@.len(),
            ),
            final(self).held() == old(self).held().skip(released as int),
            final(self).socket().pool()@ == old(self).socket().pool()@ + addresses(
                old(self).held().take(released as int),
            ),
    {
        let offered = if count < self.held.len() {
            count
        } else {
            self.held.len()
        };
        let packets = vstd::slice::slice_subrange(self.held.as_slice(), 0, offered);
        assert(packets@ =~= self.held@.take(offered as int));
        let released = self.tx.free(&mut self.socket, packets);
        let rest = without_front(&self.held, released as usize);
        self.held = rest;
        proof {
            broadcast use vstd::multiset::group_multiset_axioms;

            lemma_bag_split(old(self).held@, released as int);
            assert(old(self).held@.take(offered as int).take(released as int) =~= old(self).held@.take(released as int));
            lemma_multiset_commutative(
                old(self).socket.pool()@,
                addresses(old(self).held@.take(released as int)),
            );
            assert(self.frames() =~= old(self).frames());
        }
        released
    }

    /// The driver takes the oldest address out of FILL.  Returns whether
    /// there was one.
    pub fn kernel_take_fill(&mut self) -> (done: bool)
        requires
            old(self).wf(),
        ensures
            final(self).wf(),
            old(self).same_setup(*final(self)),
            final(self).tx() == old(self).tx(),
            final(self).socket() == old(self).socket(),
            final(self).held() == old(self).held(),
            final(self).transmitting() == old(self).transmitting(),
            final(self).rx().rx() == old(self).rx().rx(),
            done == (old(self).rx().fill().pending().len() > 0),
            done ==> final(self).receiving() == old(self).receiving().push(
                old(self).rx().fill().pending()[0].address,
            ) && final(self).rx().fill().pending() == old(self).rx().fill().pending().skip(1),
            !done ==> final(self).receiving() == old(self).receiving() && final(self).rx() == old(self).rx(),
    {
        match self.rx.kernel_take_fill() {
            Some(address) => {
                self.receiving.push_back(address);
                proof {
                    broadcast use vstd::multiset::group_multiset_axioms;

                    let filled = old(self).rx.fill().pending();
                    lemma_bag_split(filled, 1);
                    assert(addresses(filled.take(1)) =~= seq![address]);
                    assert(old(self).receiving@.push(address) =~= old(self).receiving@
                        + seq![address]);
                    lemma_multiset_commutative(old(self).receiving@, seq![address]);
                    assert(self.frames() =~= old(self).frames());
                }
                true
            },
            None => false,
        }
    }

    /// The driver delivers the oldest address it took from FILL as a packet
    /// of `length` bytes in RX.  Does nothing, and returns `false`, if it
    /// holds no such address, if RX is full, or if `length` is more than a
    /// frame's payload.
    pub fn kernel_deliver(&mut self, length: u32) -> (done: bool)
        requires
            old(self).wf(),
        ensures
            final(self).wf(),
            old(self).same_setup(*final(self)),
            final(self).tx() == old(self).tx(),
            final(self).socket() == old(self).socket(),
            final(self).held() == old(self).held(),
            final(self).transmitting() == old(self).transmitting(),
            final(self).rx().fill() == old(self).rx().fill(),
            done == (old(self).receiving().len() > 0 && old(self).rx().rx().pending().len() < old(self).ring_size() && length <= old(self).frame_size()),
            done ==> final(self).receiving() == old(self).receiving().skip(1) && final(self).rx().rx().pending() == old(self).rx().rx().pending().push(
                Descriptor { address: old(self).receiving()[0], length },
            ),
            !done ==> final(self).receiving() == old(self).receiving() && final(self).rx() == old(self).rx(),
    {
        if length > self.socket.umem().config().frame_size {
            return false;
        }
        if self.receiving.len() == 0 {
            return false;
        }
        if self.rx.rx_ring().len() == self.rx.rx_ring().size() {
            return false;
        }
        let address = self.receiving[0];
        let packet = Descriptor::new(address, length);
        let done = self.rx.kernel_deliver(packet);
        self.receiving.pop_front();
        proof {
            broadcast use vstd::multiset::group_multiset_axioms;

            let waiting = old(self).receiving@;
            crate::laws::lemma_split_keeps_all(waiting, 1);
            assert(waiting.take(1) =~= seq![address]);
            assert(self.receiving@ =~= waiting.skip(1));
            let received = old(self).rx.rx().pending();
            crate::laws::lemma_bag_concat(received, seq![packet]);
            assert(received.push(packet) =~= received + seq![packet]);
            assert(addresses(seq![packet]) =~= seq![address]);
            assert(self.frames() =~= old(self).frames());
        }
        done
    }

    /// The driver takes the oldest descriptor out of TX.  Returns whether
    /// there was one.
    pub fn kernel_take_tx(&mut self) -> (done: bool)
        requires
            old(self).wf(),
        ensures
            final(self).wf(),
            old(self).same_setup(*final(self)),
            final(self).rx() == old(self).rx(),
            final(self).socket() == old(self).socket(),
            final(self).held() == old(self).held(),
            final(self).receiving() == old(self).receiving(),
            final(self).tx().completion() == old(self).tx().completion(),
            done == (old(self).tx().tx().pending().len() > 0),
            done ==> final(self).transmitting() == old(self).transmitting().push(
                old(self).tx().tx().pending()[0],
            ) && final(self).tx().tx().pending() == old(self).tx().tx().pending().skip(1),
            !done ==> final(self).transmitting() == old(self).transmitting() && final(self).tx()
                == old(self).tx(),
    {
        match self.tx.kernel_take_tx() {
            Some(packet) => {
                self.transmitting.push_back(packet);
                proof {
                    broadcast use vstd::multiset::group_multiset_axioms;

                    let queued = old(self).tx.tx().pending();
                    lemma_bag_split(queued, 1);
                    assert(queued.take(1) =~= seq![packet]);
                    crate::laws::lemma_bag_concat(old(self).transmitting@, seq![packet]);
                    assert(old(self).transmitting@.push(packet) =~= old(self).transmitting@
                        + seq![packet]);
                    assert(self.frames() =~= old(self).frames());
                }
                true
            },
            None => false,
        }
    }

    /// The driver reports the oldest descriptor it took from TX as sent: the
    /// frame's address goes to COMPLETION.  Does nothing, and returns
    /// `false`, if it holds no such descriptor or if COMPLETION is full.
    pub fn kernel_complete(&mut self) -> (done: bool)
        requires
            old(self).wf(),
        ensures
            final(self).wf(),
            old(self).same_setup(*final(self)),
            final(self).rx() == old(self).rx(),
            final(self).socket() == old(self).socket(),
            final(self).held() == old(self).held(),
            final(self).receiving() == old(self).receiving(),
            final(self).tx().tx() == old(self).tx().tx(),
            done == (old(self).transmitting().len() > 0 && old(self).tx().completion().pending().len() < old(self).ring_size()),
            done ==> final(self).transmitting() == old(self).transmitting().skip(1) && addresses(
                final(self).tx().completion().pending(),
            ) == addresses(old(self).tx().completion().pending()).push(
                old(self).transmitting()[0].address,
            ),
            !done ==> final(self).transmitting() == old(self).transmitting() && final(self).tx()
                == old(self).tx(),
    {
        if self.transmitting.len() == 0 {
            return false;
        }
        if self.tx.completion_ring().len() == self.tx.completion_ring().size() {
            return false;
        }
        let packet = self.transmitting[0];
        let done = self.tx.kernel_complete(packet.address);
        self.transmitting.pop_front();
        proof {
            broadcast use vstd::multiset::group_multiset_axioms;

            let sending = old(self).transmitting@;
            lemma_bag_split(sending, 1);
            assert(addresses(sending.take(1)) =~= seq![packet.address]);
            assert(self.transmitting@ =~= sending.skip(1));
            let sent = old(self).tx.completion().pending();
            let entry = Descriptor { address: packet.address, length: 0 };
            crate::laws::lemma_bag_concat(sent, seq![entry]);
            assert(sent.push(entry) =~= sent + seq![entry]);
            assert(addresses(seq![entry]) =~= seq![packet.address]);
            assert(addresses(sent.push(entry)) =~= addresses(sent).push(packet.address));
            assert(self.frames() =~= old(self).frames());
        }
        done
    }

    /// The state of the frame at `address`, if `address` is anywhere.
    pub fn frame_state(&self, address: u64) -> (state: Option<FrameState>)
        requires
            self.wf(),
        ensures
            match state {
                Some(found) => self.frames_in(found).contains(address),
                None => forall|any: FrameState| !self.frames_in(any).contains(address),
            },
            state is Some == self.seeds().contains(address),
    {
        proof {
            lemma_one_state(*self, address);
        }
        let ghost filled = addresses(self.rx.fill().pending());
        let ghost received = addresses(self.rx.rx().pending());
        let ghost submitted = addresses(self.tx.tx().pending());
        if self.socket.free_pool().contains(address) {
            return Some(FrameState::Free);
        }
        if has_address(&self.rx.fill_ring().entries(), address) {
            assert((filled + self.receiving@).contains(address)) by {
                let i = choose|i: int| 0 <= i < filled.len() && filled[i] == address;
                assert((filled + self.receiving@)[i] == address);
            }
            return Some(FrameState::Filled);
        }
        let mut at: usize = 0;
        while at < self.receiving.len()
            invariant
                at <= self.receiving@.len(),
                forall|i: int| 0 <= i < at ==> self.receiving@[i] != address,
                self.wf(),
                filled == addresses(self.rx.fill().pending()),
                !filled.contains(address),
            decreases self.receiving@.len() - at,
        {
            if self.receiving[at] == address {
                proof {
                    lemma_one_state(*self, address);
                }
                assert((filled + self.receiving@)[filled.len() + at] == address);
                return Some(FrameState::Filled);
            }
            at = at + 1;
        }
        if has_address(&self.rx.rx_ring().entries(), address) {
            assert((received + addresses(self.held@)).contains(address)) by {
                let i = choose|i: int| 0 <= i < received.len() && received[i] == address;
                assert((received + addresses(self.held@))[i] == address);
            }
            return Some(FrameState::Received);
        }
        if has_address(&self.held, address) {
            assert((received + addresses(self.held@)).contains(address)) by {
                let held = addresses(self.held@);
                let i = choose|i: int| 0 <= i < held.len() && held[i] == address;
                assert((received + held)[received.len() + i] == address);
            }
            return Some(FrameState::Received);
        }
        if has_address(&self.tx.tx_ring().entries(), address) {
            assert((submitted + addresses(self.transmitting@)).contains(address)) by {
                let i = choose|i: int| 0 <= i < submitted.len() && submitted[i] == address;
                assert((submitted + addresses(self.transmitting@))[i] == address);
            }
            return Some(FrameState::Submitted);
        }
        let sending = self.transmitting_packets();
        if has_address(&sending, address) {
            assert((submitted + addresses(self.transmitting@)).contains(address)) by {
                let sent = addresses(self.transmitting@);
                let i = choose|i: int| 0 <= i < sent.len() && sent[i] == address;
                assert((submitted + sent)[submitted.len() + i] == address);
            }
            return Some(FrameState::Submitted);
        }
        if has_address(&self.tx.completion_ring().entries(), address) {
            return Some(FrameState::Completed);
        }
        assert forall|any: FrameState| !self.frames_in(any).contains(address) by {
            let part = self.frames_in(any);
            if part.contains(address) {
                let i = choose|i: int| 0 <= i < part.len() && part[i] == address;
                match any {
                    FrameState::Free => {},
                    FrameState::Filled => {
                        if i < filled.len() {
                            assert(filled[i] == address);
                        } else {
                            assert(self.receiving@[i - filled.len()] == address);
                        }
                    },
                    FrameState::Received => {
                        if i < received.len() {
                            assert(received[i] == address);
                        } else {
                            assert(addresses(self.held@)[i - received.len()] == address);
                        }
                    },
                    FrameState::Submitted => {
                        if i < submitted.len() {
                            assert(submitted[i] == address);
                        } else {
                            assert(addresses(self.transmitting@)[i - submitted.len()] == address);
                        }
                    },
                    FrameState::Completed => {},
                }
            }
        }
        None
    }

    /// The bytes of the packet at place `index` in the user's hands,
    /// headroom included, to be written.  Nothing else in the region
    /// changes, and no frame moves.
    pub fn packet_bytes_mut(&mut self, index: usize) -> (bytes: &mut [u8])
        requires
            old(self).wf(),
            index < old(self).held().len(),
        ensures
            bytes@ == old(self).socket().region()@.subrange(
                old(self).held()[index as int].address - old(self).headroom(),
                old(self).held()[index as int].address + old(self).held()[index as int].length,
            ),
            final(bytes)@.len() == old(self).headroom() + old(self).held()[index as int].length,
            final(self).socket().region()@ == old(self).socket().region()@.subrange(
                0,
                old(self).held()[index as int].address - old(self).headroom(),
            ) + final(bytes)@ + old(self).socket().region()@.subrange(
                old(self).held()[index as int].address + old(self).held()[index as int].length,
                old(self).socket().region()@.len() as int,
            ),
            final(self).socket().region().layout() == old(self).socket().region().layout(),
            final(self).socket().pool() == old(self).socket().pool(),
            final(self).tx() == old(self).tx(),
            final(self).rx() == old(self).rx(),
            final(self).held() == old(self).held(),
            final(self).receiving() == old(self).receiving(),
            final(self).transmitting() == old(self).transmitting(),
            final(self).wf(),
    {
        proof {
            lemma_received_is_valid(*self, index as int);
        }
        let packet = self.held[index];
        let umem = self.socket.umem_mut();
        umem.frame_mut(&packet)
    }

    /// The bytes of the packet at place `index` in the user's hands,
    /// headroom included.
    pub fn packet_bytes(&self, index: usize) -> (bytes: &[u8])
        requires
            self.wf(),
            index < self.held().len(),
        ensures
            bytes@ == self.socket().region()@.subrange(
                self.held()[index as int].address - self.headroom(),
                self.held()[index as int].address + self.held()[index as int].length,
            ),
            bytes@.len() == self.headroom() + self.held()[index as int].length,
    {
        proof {
            lemma_received_is_valid(*self, index as int);
        }
        self.held[index].as_slice(self.socket.umem())
    }
}

/// Every address that is anywhere in a well-formed harness is the address of
/// one of the region's frames.
pub proof fn lemma_frames_are_valid(harness: Loopback, address: u64)
    requires
        harness.wf(),
        harness.frames().count(address) > 0,
    ensures
        harness.socket().region().is_frame_address(address),
{
    broadcast use vstd::seq_lib::group_to_multiset_ensures;

    let seeds = harness.seeds();
    assert(seeds.to_multiset().count(address) > 0);
    assert(seeds.contains(address));
    let index = choose|index: int| 0 <= index < seeds.len() && seeds[index] == address;
    let umem = harness.socket().region();
    let stride = harness.frame_size() + harness.headroom();
    let count = harness.ring_size() as int;
    assert(stride * count == count * stride) by (nonlinear_arith);
    lemma_div_multiples_vanish(count, stride);
    assert(umem.frame_count() == count);
    assert(index * stride + harness.headroom() < (index + 1) * stride + 1) by (nonlinear_arith)
        requires
            harness.headroom() <= stride,
    ;
    assert((index + 1) * stride <= count * stride) by (nonlinear_arith)
        requires
            index + 1 <= count,
            stride > 0,
    ;
    assert(index * stride >= 0) by (nonlinear_arith)
        requires
            index >= 0,
            stride > 0,
    ;
    assert(frame_address(harness.frame_size(), harness.headroom(), index) == index * stride
        + harness.headroom());
    lemma_frame_address_is_valid(umem, index, address);
}

/// Every packet in the user's hands lies within one frame of the region: its
/// address is a frame address and it is no longer than a frame's payload.
pub proof fn lemma_received_is_valid(harness: Loopback, index: int)
    requires
        harness.wf(),
        0 <= index < harness.held().len(),
    ensures
        harness.socket().region().holds(harness.held()[index]),
{
    broadcast use vstd::multiset::group_multiset_axioms;
    broadcast use vstd::seq_lib::group_to_multiset_ensures;

    let packet = harness.held()[index];
    assert(addresses(harness.held())[index] == packet.address);
    assert(addresses(harness.held()).contains(packet.address));
    assert(bag(harness.held()).count(packet.address) > 0);
    lemma_frames_are_valid(harness, packet.address);
}

/// The frame addresses of a region are all different.
pub proof fn lemma_seeds_differ(frame_size: u32, headroom: u32, count: u32)
    requires
        frame_size + headroom > 0,
        region_length(frame_size, headroom, count) <= u32::MAX,
    ensures
        seed_addresses(frame_size, headroom, count).no_duplicates(),
{
    let seeds = seed_addresses(frame_size, headroom, count);
    let stride = frame_size + headroom;
    assert forall|i: int, j: int| 0 <= i < seeds.len() && 0 <= j < seeds.len() && i != j implies seeds[i]
        != seeds[j] by {
        assert(i * stride != j * stride) by (nonlinear_arith)
            requires
                i != j,
                stride > 0,
        ;
        assert(0 <= i * stride <= count * stride && 0 <= j * stride <= count * stride)
            by (nonlinear_arith)
            requires
                0 <= i < count,
                0 <= j < count,
                stride > 0,
        ;
        assert(count * stride == stride * count) by (nonlinear_arith);
    }
}

/// Every frame is in exactly one state: each frame address of the region is
/// among the frames of one state and of no other, no other address is among
/// the frames of any state, and the states hold as many frames as the region
/// has.
pub proof fn lemma_one_state(harness: Loopback, address: u64)
    requires
        harness.wf(),
    ensures
        harness.seeds().contains(address) <==> exists|state: FrameState|
            harness.frames_in(state).contains(address),
        forall|one: FrameState, other: FrameState|
            harness.frames_in(one).contains(address) && harness.frames_in(other).contains(address)
                ==> one == other,
        harness.frames_in(FrameState::Free).len() + harness.frames_in(FrameState::Filled).len()
            + harness.frames_in(FrameState::Received).len() + harness.frames_in(
            FrameState::Submitted,
        ).len() + harness.frames_in(FrameState::Completed).len() == harness.ring_size(),
{
    broadcast use vstd::multiset::group_multiset_axioms;
    broadcast use vstd::seq_lib::group_to_multiset_ensures;

    let free = harness.frames_in(FrameState::Free);
    let filled = harness.frames_in(FrameState::Filled);
    let received = harness.frames_in(FrameState::Received);
    let submitted = harness.frames_in(FrameState::Submitted);
    let completed = harness.frames_in(FrameState::Completed);
    let all = free + filled + received + submitted + completed;
    lemma_multiset_commutative(addresses(harness.rx().fill().pending()), harness.receiving());
    lemma_multiset_commutative(
        addresses(harness.rx().rx().pending()),
        addresses(harness.held()),
    );
    lemma_multiset_commutative(
        addresses(harness.tx().tx().pending()),
        addresses(harness.transmitting()),
    );
    lemma_multiset_commutative(free, filled);
    lemma_multiset_commutative(free + filled, received);
    lemma_multiset_commutative(free + filled + received, submitted);
    lemma_multiset_commutative(free + filled + received + submitted, completed);
    assert(all.to_multiset() =~= harness.frames());
    lemma_disjoint(harness);
    all.lemma_multiset_has_no_duplicates_conv();
    assert(all.len() == harness.seeds().len()) by {
        assert(all.to_multiset().len() == all.len());
        assert(harness.seeds().to_multiset().len() == harness.seeds().len());
    }
    let offset = |state: FrameState|
        match state {
            FrameState::Free => 0int,
            FrameState::Filled => free.len() as int,
            FrameState::Received => (free.len() + filled.len()) as int,
            FrameState::Submitted => (free.len() + filled.len() + received.len()) as int,
            FrameState::Completed => (free.len() + filled.len() + received.len()
                + submitted.len()) as int,
        };
    assert forall|state: FrameState, i: int|
        0 <= i < harness.frames_in(state).len() implies 0 <= offset(state) + i < all.len() && all[offset(
        state,
    ) + i] == #[trigger] harness.frames_in(state)[i] by {}
    if harness.seeds().contains(address) {
        assert(harness.seeds().to_multiset().count(address) > 0);
        assert(all.to_multiset().count(address) > 0);
        assert(all.contains(address));
        let i = choose|i: int| 0 <= i < all.len() && all[i] == address;
        if i < free.len() {
            assert(free[i] == address);
            assert(harness.frames_in(FrameState::Free).contains(address));
        } else if i < free.len() + filled.len() {
            assert(filled[i - free.len()] == address);
            assert(harness.frames_in(FrameState::Filled).contains(address));
        } else if i < free.len() + filled.len() + received.len() {
            assert(received[i - free.len() - filled.len()] == address);
            assert(harness.frames_in(FrameState::Received).contains(address));
        } else if i < free.len() + filled.len() + received.len() + submitted.len() {
            assert(submitted[i - free.len() - filled.len() - received.len()] == address);
            assert(harness.frames_in(FrameState::Submitted).contains(address));
        } else {
            assert(completed[i - free.len() - filled.len() - received.len() - submitted.len()]
                == address);
            assert(harness.frames_in(FrameState::Completed).contains(address));
        }
    }
    assert forall|state: FrameState| harness.frames_in(state).contains(address) implies harness.seeds().contains(
        address,
    ) by {
        let part = harness.frames_in(state);
        let i = choose|i: int| 0 <= i < part.len() && part[i] == address;
        assert(all[offset(state) + i] == part[i]);
        assert(all.contains(address));
        assert(all.to_multiset().count(address) > 0);
        assert(harness.seeds().to_multiset().count(address) > 0);
    }
    assert forall|one: FrameState, other: FrameState|
        harness.frames_in(one).contains(address) && harness.frames_in(other).contains(
            address,
        ) implies one == other by {
        let first = harness.frames_in(one);
        let second = harness.frames_in(other);
        let i = choose|i: int| 0 <= i < first.len() && first[i] == address;
        let j = choose|j: int| 0 <= j < second.len() && second[j] == address;
        assert(all[offset(one) + i] == first[i]);
        assert(all[offset(other) + j] == second[j]);
        if one != other {
            assert(offset(one) + i != offset(other) + j);
        }
    }
}

/// Disjointness: in a well-formed harness no address is in two places at
/// once, and none is twice in one place.  So the addresses in the user-side
/// containers, taken one container after the other, are all different, and
/// none of them is in the driver's hands.
pub proof fn lemma_disjoint(harness: Loopback)
    requires
        harness.wf(),
    ensures
        forall|address: u64| harness.frames().count(address) <= 1,
        (harness.user_side() + harness.in_flight()).no_duplicates(),
        harness.user_side().no_duplicates(),
        forall|address: u64|
            harness.user_side().contains(address) ==> !harness.in_flight().contains(address),
{
    broadcast use vstd::multiset::group_multiset_axioms;

    let seeds = harness.seeds();
    lemma_seeds_differ(harness.frame_size(), harness.headroom(), harness.ring_size());
    seeds.lemma_multiset_has_no_duplicates();
    assert forall|address: u64| harness.frames().count(address) <= 1 by {
        if harness.frames().count(address) > 0 {
            assert(seeds.to_multiset().contains(address));
        }
    }
    let pool = harness.socket().pool()@;
    let fill = addresses(harness.rx().fill().pending());
    let rx = addresses(harness.rx().rx().pending());
    let held = addresses(harness.held());
    let tx = addresses(harness.tx().tx().pending());
    let completion = addresses(harness.tx().completion().pending());
    let receiving = harness.receiving();
    let transmitting = addresses(harness.transmitting());
    let everywhere = harness.user_side() + harness.in_flight();
    lemma_multiset_commutative(pool, fill);
    lemma_multiset_commutative(pool + fill, rx);
    lemma_multiset_commutative(pool + fill + rx, held);
    lemma_multiset_commutative(pool + fill + rx + held, tx);
    lemma_multiset_commutative(pool + fill + rx + held + tx, completion);
    lemma_multiset_commutative(receiving, transmitting);
    lemma_multiset_commutative(harness.user_side(), harness.in_flight());
    assert(everywhere.to_multiset() =~= harness.frames());
    everywhere.lemma_multiset_has_no_duplicates_conv();
    assert(harness.user_side().no_duplicates()) by {
        assert forall|i: int, j: int|
            0 <= i < harness.user_side().len() && 0 <= j < harness.user_side().len() && i
                != j implies harness.user_side()[i] != harness.user_side()[j] by {
            assert(everywhere[i] == harness.user_side()[i]);
            assert(everywhere[j] == harness.user_side()[j]);
        }
    }
    assert forall|address: u64| harness.user_side().contains(address) implies !harness.in_flight().contains(
        address,
    ) by {
        if harness.in_flight().contains(address) {
            let i = choose|i: int| 0 <= i < harness.user_side().len() && harness.user_side()[i] == address;
            let j = choose|j: int| 0 <= j < harness.in_flight().len() && harness.in_flight()[j] == address;
            assert(everywhere[i] == address);
            assert(everywhere[harness.user_side().len() + j] == address);
        }
    }
}

} // verus!
