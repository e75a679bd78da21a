//! Socket construction and the two half-sockets.
//!
//! [`SocketBuilder::build`] checks the configuration, sets up the frame
//! region, the four rings and the free pool, and hands out a transmit half,
//! a receive half and the state they share.  [`RxSocket::read`] and
//! [`TxSocket::write`] are the burst operations; neither blocks and neither
//! fails: each reports how many descriptors it moved.

use vstd::prelude::*;
use vstd::arithmetic::power2::is_pow2;
use std::collections::VecDeque;
use vstd::string::{StringExecFns, StringSliceAdditionalSpecFns};
use crate::text::{decimal_digits, push_decimal, push_signed, signed_digits};
use crate::descriptor::{addresses, Descriptor};
use crate::mmap::{region_error, region_length, Mmap, MmapError};
use crate::pool::FreePool;
use crate::ring::{ring_buffer, Consumer, Producer, RingError};
use crate::umem::{seed_addresses, Umem, UmemConfig, UmemError};

verus! {

/// Payload bytes per frame unless the builder is told otherwise.
pub const DEFAULT_FRAME_SIZE: u32 = 4096;

/// Reserved bytes per frame unless the builder is told otherwise.
pub const DEFAULT_FRAME_HEADROOM: u32 = 0;

/// Slots per ring unless the builder is told otherwise.
pub const DEFAULT_RING_SIZE: u32 = 2048;

/// The flag with which a socket is bound in copy mode.
pub const XDP_COPY: u32 = 2;

/// The flag with which a socket is bound in zero-copy mode.
pub const XDP_ZEROCOPY: u32 = 4;

/// Why a socket could not be built.
#[derive(Debug, PartialEq, Eq, Structural)]
pub enum SocketError {
    /// The frame region could not be set up.
    Mmap(MmapError),
    /// A ring could not be built.
    Ring(RingError),
    /// The UMEM could not be registered.
    Umem(UmemError),
    /// The interface name holds a NUL byte, the first one at this position.
    InvalidInterfaceName(usize),
    /// The driver refused to create the socket, with this error code.
    Initialize(i32),
    /// The driver handed back a null socket.
    SocketIsNull,
}

impl SocketError {
    /// The message of this error.
    pub open spec fn text(self) -> Seq<char> {
        match self {
            SocketError::Mmap(error) => error.text(),
            SocketError::Ring(error) => error.text(),
            SocketError::Umem(error) => error.text(),
            SocketError::InvalidInterfaceName(at) =>
                "Interface name contains null character(s): nul byte found in provided data at position: "@
                    + decimal_digits(at as nat),
            SocketError::Initialize(code) => "Failed to initialize XDP socket: os error "@
                + signed_digits(code as int),
            SocketError::SocketIsNull => "Socket returned null. This is a bug."@,
        }
    }

    /// The message of this error.
    pub fn message(&self) -> (text: String)
        ensures
            text@ == self.text(),
    {
        match self {
            SocketError::Mmap(error) => error.message(),
            SocketError::Ring(error) => error.message(),
            SocketError::Umem(error) => error.message(),
            SocketError::InvalidInterfaceName(at) => {
                let mut text = String::from_str(
                    "Interface name contains null character(s): nul byte found in provided data at position: ",
                );
                push_decimal(&mut text, *at as u64);
                text
            },
            SocketError::Initialize(code) => {
                let mut text = String::from_str("Failed to initialize XDP socket: os error ");
                push_signed(&mut text, *code);
                text
            },
            SocketError::SocketIsNull => String::from_str("Socket returned null. This is a bug."),
        }
    }
}

impl From<MmapError> for SocketError {
    fn from(value: MmapError) -> (error: Self) {
        SocketError::Mmap(value)
    }
}

impl vstd::std_specs::convert::FromSpecImpl<MmapError> for SocketError {
    open spec fn obeys_from_spec() -> bool {
        true
    }

    open spec fn from_spec(value: MmapError) -> Self {
        SocketError::Mmap(value)
    }
}

impl From<RingError> for SocketError {
    fn from(value: RingError) -> (error: Self) {
        SocketError::Ring(value)
    }
}

impl vstd::std_specs::convert::FromSpecImpl<RingError> for SocketError {
    open spec fn obeys_from_spec() -> bool {
        true
    }

    open spec fn from_spec(value: RingError) -> Self {
        SocketError::Ring(value)
    }
}

impl From<UmemError> for SocketError {
    fn from(value: UmemError) -> (error: Self) {
        SocketError::Umem(value)
    }
}

impl vstd::std_specs::convert::FromSpecImpl<UmemError> for SocketError {
    open spec fn obeys_from_spec() -> bool {
        true
    }

    open spec fn from_spec(value: UmemError) -> Self {
        SocketError::Umem(value)
    }
}

/// The position of the first NUL byte of `bytes`, if there is one.
pub open spec fn first_nul(bytes: Seq<u8>) -> Option<int> {
    if exists|i: int| 0 <= i < bytes.len() && bytes[i] == 0 {
        Some(choose|i: int| is_first_nul(bytes, i))
    } else {
        None
    }
}

/// Whether position `i` of `bytes` holds a NUL byte and no earlier position
/// does.
pub open spec fn is_first_nul(bytes: Seq<u8>, i: int) -> bool {
    &&& 0 <= i < bytes.len()
    &&& bytes[i] == 0
    &&& forall|j: int| 0 <= j < i ==> bytes[j] != 0
}

/// Looks for a NUL byte in `bytes`: an interface name must hold none.
pub fn find_nul(bytes: &[u8]) -> (found: Option<usize>)
    ensures
        match found {
            Some(i) => is_first_nul(bytes@, i as int),
            None => forall|j: int| 0 <= j < bytes@.len() ==> bytes@[j] != 0,
        },
        found.is_some() == first_nul(bytes@).is_some(),
        found matches Some(i) ==> first_nul(bytes@) == Some(i as int),
{
    let mut at: usize = 0;
    while at < bytes.len()
        invariant
            at <= bytes@.len(),
            forall|j: int| 0 <= j < at ==> bytes@[j] != 0,
        decreases bytes@.len() - at,
    {
        if bytes[at] == 0 {
            proof {
                let chosen = choose|i: int| is_first_nul(bytes@, i);
                assert(is_first_nul(bytes@, at as int));
                assert(chosen == at) by {
                    if chosen < at {
                        assert(bytes@[chosen] != 0);
                    } else if chosen > at {
                        assert(bytes@[at as int] != 0);
                    }
                }
            }
            return Some(at);
        }
        at = at + 1;
    }
    None
}

/// What a socket is built from.
#[derive(Debug)]
pub struct SocketBuilder {
    /// Payload bytes per frame.
    pub frame_size: u32,
    /// Bytes reserved in front of each frame's payload.
    pub frame_headroom_size: u32,
    /// Slots of each of the four rings, and the number of frames.
    pub ring_size: u32,
    /// Whether huge pages are asked for.
    pub use_hugetlb: bool,
    /// Whether zero-copy mode is asked for; copy mode otherwise.
    pub force_zero_copy: bool,
}

impl Default for SocketBuilder {
    fn default() -> (builder: Self)
        ensures
            builder.frame_size == DEFAULT_FRAME_SIZE,
            builder.frame_headroom_size == DEFAULT_FRAME_HEADROOM,
            builder.ring_size == DEFAULT_RING_SIZE,
            !builder.use_hugetlb,
            !builder.force_zero_copy,
    {
        SocketBuilder {
            frame_size: DEFAULT_FRAME_SIZE,
            frame_headroom_size: DEFAULT_FRAME_HEADROOM,
            ring_size: DEFAULT_RING_SIZE,
            use_hugetlb: false,
            force_zero_copy: false,
        }
    }
}

/// The error with which construction fails on the given configuration, if
/// it fails: the frame region is checked first, then the ring size, then the
/// interface name.
pub open spec fn build_error(
    frame_size: u32,
    frame_headroom_size: u32,
    ring_size: u32,
    interface_name: Seq<u8>,
) -> Option<SocketError> {
    match region_error(frame_size, frame_headroom_size, ring_size) {
        Some(error) => Some(SocketError::Mmap(error)),
        None => if !is_pow2(ring_size as int) {
            Some(SocketError::Ring(RingError::IsNotPowerOfTwo(ring_size)))
        } else {
            match first_nul(interface_name) {
                Some(at) => Some(SocketError::InvalidInterfaceName(at as usize)),
                None => None,
            }
        },
    }
}

impl SocketBuilder {
    /// Builds a socket on queue `queue_id` of the interface
    /// `interface_name`.  See [`Socket::init`].
    pub fn build(self, interface_name: &str, queue_id: u32) -> (r: Result<
        (TxSocket, RxSocket, Socket),
        SocketError,
    >)
        ensures
            match build_error(
                self.frame_size,
                self.frame_headroom_size,
                self.ring_size,
                interface_name.spec_bytes(),
            ) {
                Some(error) => r == Err::<(TxSocket, RxSocket, Socket), SocketError>(error),
                None => r is Ok && Socket::fresh(
                    r->Ok_0.0,
                    r->Ok_0.1,
                    r->Ok_0.2,
                    self.frame_size,
                    self.frame_headroom_size,
                    self.ring_size,
                    self.use_hugetlb,
                    self.force_zero_copy,
                    interface_name@,
                    queue_id,
                ),
            },
    {
        Socket::init(
            self.frame_size,
            self.frame_headroom_size,
            self.ring_size,
            self.use_hugetlb,
            self.force_zero_copy,
            interface_name,
            queue_id,
        )
    }
}

/// What the two half-sockets share: the UMEM, the free pool, and what the
/// socket is bound to.
#[derive(Debug)]
pub struct Socket {
    umem: Umem,
    free: FreePool,
    interface_name: String,
    queue_id: u32,
    zero_copy: bool,
}

/// The receive half: the FILL ring and the RX ring.
pub struct RxSocket {
    ring_size: u32,
    fill_ring: Producer,
    rx_ring: Consumer,
}

/// The transmit half: the TX ring and the COMPLETION ring.
pub struct TxSocket {
    ring_size: u32,
    completion_ring: Consumer,
    tx_ring: Producer,
}

impl Socket {
    /// The UMEM.
    pub closed spec fn region(&self) -> Umem {
        self.umem
    }

    /// The free pool.
    pub closed spec fn pool(&self) -> FreePool {
        self.free
    }

    /// The name of the interface the socket is bound to.
    pub closed spec fn interface(&self) -> Seq<char> {
        self.interface_name@
    }

    /// The hardware queue the socket is bound to.
    pub closed spec fn queue(&self) -> u32 {
        self.queue_id
    }

    /// Whether the socket was asked to bind in zero-copy mode.
    pub closed spec fn zero_copy(&self) -> bool {
        self.zero_copy
    }

    /// Well-formedness: the free pool is.
    pub open spec fn wf(&self) -> bool {
        self.pool().wf()
    }

    /// Whether `other` differs from `self` in the free pool at most.
    pub open spec fn same_binding(&self, other: Socket) -> bool {
        &&& other.region() == self.region()
        &&& other.interface() == self.interface()
        &&& other.queue() == self.queue()
        &&& other.zero_copy() == self.zero_copy()
        &&& other.pool().capacity() == self.pool().capacity()
    }

    /// The state right after construction: a zeroed region of `ring_size`
    /// frames, four empty rings of `ring_size` slots with all indices at
    /// zero, and a free pool that holds the address of every frame, in
    /// increasing order.
    pub open spec fn fresh(
        tx: TxSocket,
        rx: RxSocket,
        socket: Socket,
        frame_size: u32,
        frame_headroom_size: u32,
        ring_size: u32,
        use_hugetlb: bool,
        force_zero_copy: bool,
        interface_name: Seq<char>,
        queue_id: u32,
    ) -> bool {
        &&& tx.wf()
        &&& rx.wf()
        &&& socket.wf()
        &&& tx.size() == ring_size
        &&& rx.size() == ring_size
        &&& tx.tx().pending() == Seq::<Descriptor>::empty()
        &&& tx.completion().pending() == Seq::<Descriptor>::empty()
        &&& rx.fill().pending() == Seq::<Descriptor>::empty()
        &&& rx.rx().pending() == Seq::<Descriptor>::empty()
        &&& tx.tx().producer_index() == 0 && tx.tx().consumer_index() == 0
        &&& tx.completion().producer_index() == 0 && tx.completion().consumer_index() == 0
        &&& rx.fill().producer_index() == 0 && rx.fill().consumer_index() == 0
        &&& rx.rx().producer_index() == 0 && rx.rx().consumer_index() == 0
        &&& socket.pool().capacity() == ring_size
        &&& socket.pool()@ == seed_addresses(frame_size, frame_headroom_size, ring_size)
        &&& socket.region()@ == Seq::new(
            region_length(frame_size, frame_headroom_size, ring_size) as nat,
            |i: int| 0u8,
        )
        &&& socket.region().hugetlb() == use_hugetlb
        &&& socket.region().layout() == (UmemConfig {
            fill_size: ring_size,
            comp_size: ring_size,
            frame_size,
            frame_headroom: frame_headroom_size,
            flags: 0,
        })
        &&& socket.interface() == interface_name
        &&& socket.queue() == queue_id
        &&& socket.zero_copy() == force_zero_copy
    }

    /// Builds a socket: sets up the frame region, builds the TX and RX
    /// rings, registers the UMEM with its FILL and COMPLETION rings, checks
    /// the interface name, and seeds the free pool with the address of every
    /// frame.  Fails on the first of these that cannot be done.
    pub fn init(
        frame_size: u32,
        frame_headroom_size: u32,
        ring_size: u32,
        use_hugetlb: bool,
        force_zero_copy: bool,
        interface_name: &str,
        queue_id: u32,
    ) -> (r: Result<(TxSocket, RxSocket, Socket), SocketError>)
        ensures
            match build_error(
                frame_size,
                frame_headroom_size,
                ring_size,
                interface_name.spec_bytes(),
            ) {
                Some(error) => r == Err::<(TxSocket, RxSocket, Socket), SocketError>(error),
                None => r is Ok && Socket::fresh(
                    r->Ok_0.0,
                    r->Ok_0.1,
                    r->Ok_0.2,
                    frame_size,
                    frame_headroom_size,
                    ring_size,
                    use_hugetlb,
                    force_zero_copy,
                    interface_name@,
                    queue_id,
                ),
            },
    {
        let mmap = match Mmap::new(frame_size, frame_headroom_size, ring_size, use_hugetlb) {
            Ok(mmap) => mmap,
            Err(error) => {
                return Err(SocketError::from(error));
            },
        };
        let (tx_ring, rx_ring) = match ring_buffer(ring_size) {
            Ok(rings) => rings,
            Err(error) => {
                return Err(SocketError::from(error));
            },
        };
        let (umem, fill_ring, completion_ring) = match Umem::initialize(
            mmap,
            ring_size,
            ring_size,
            frame_size,
            frame_headroom_size,
        ) {
            Ok(parts) => parts,
            Err(error) => {
                return Err(SocketError::from(error));
            },
        };
        match find_nul(interface_name.as_bytes()) {
            Some(at) => {
                return Err(SocketError::InvalidInterfaceName(at));
            },
            None => {},
        }
        let free = FreePool::seeded(frame_size, frame_headroom_size, ring_size);
        let socket = Socket {
            umem,
            free,
            interface_name: interface_name.to_owned(),
            queue_id,
            zero_copy: force_zero_copy,
        };
        let tx_socket = TxSocket::new(ring_size, completion_ring, tx_ring);
        let rx_socket = RxSocket::new(ring_size, fill_ring, rx_ring);
        Ok((tx_socket, rx_socket, socket))
    }

    /// The UMEM.
    #[inline(always)]
    pub fn umem(&self) -> (umem: &Umem)
        ensures
            *umem == self.region(),
    {
        &self.umem
    }

    /// The UMEM, to write frames.  Its layout stays.
    #[inline(always)]
    pub fn umem_mut(&mut self) -> (umem: &mut Umem)
        ensures
            *umem == old(self).region(),
            final(self).region() == *final(umem),
            final(self).pool() == old(self).pool(),
            final(self).interface() == old(self).interface(),
            final(self).queue() == old(self).queue(),
            final(self).zero_copy() == old(self).zero_copy(),
    {
        &mut self.umem
    }

    /// The free pool.
    pub fn free_pool(&self) -> (pool: &FreePool)
        ensures
            *pool == self.pool(),
    {
        &self.free
    }

    /// Takes a free frame out of the pool, to fill it and transmit it.
    pub fn allocate(&mut self) -> (address: Option<u64>)
        requires
            old(self).wf(),
        ensures
            final(self).wf(),
            old(self).same_binding(*final(self)),
            old(self).pool()@.len() == 0 ==> address.is_none() && final(self).pool()@ == old(self).pool()@,
            old(self).pool()@.len() > 0 ==> address == Some(old(self).pool()@[0]) && final(self).pool()@ == old(self).pool()@.skip(1),
    {
        self.free.try_pop()
    }

    /// The name of the interface the socket is bound to.
    pub fn interface_name(&self) -> (name: &str)
        ensures
            name@ == self.interface(),
    {
        self.interface_name.as_str()
    }

    /// The hardware queue the socket is bound to.
    pub fn queue_id(&self) -> (id: u32)
        ensures
            id == self.queue(),
    {
        self.queue_id
    }

    /// The flags with which the socket is to be bound: zero-copy mode if it
    /// was asked for, copy mode otherwise.
    pub fn xdp_flags(&self) -> (flags: u32)
        ensures
            flags == if self.zero_copy() {
                XDP_ZEROCOPY
            } else {
                XDP_COPY
            },
    {
        if self.zero_copy {
            XDP_ZEROCOPY
        } else {
            XDP_COPY
        }
    }

    /// Whether the socket was asked to bind in zero-copy mode.
    pub fn force_zero_copy(&self) -> (b: bool)
        ensures
            b == self.zero_copy(),
    {
        self.zero_copy
    }
}

/// How many free addresses a fill step moves into a FILL ring with `room`
/// free slots, asked for up to `size`, from a pool of `free` addresses.
pub open spec fn fill_count(size: int, room: int, free: int) -> int {
    vstd::math::min(vstd::math::min(size, room), free)
}

/// How many entries a drain step takes from a ring with `pending` entries
/// into a buffer of `buffer` places, through a ring of `size` slots.
pub open spec fn burst_count(buffer: int, size: int, pending: int) -> int {
    vstd::math::min(vstd::math::min(buffer, size), pending)
}

impl RxSocket {
    /// The number of slots of each ring.
    pub closed spec fn size(&self) -> u32 {
        self.ring_size
    }

    /// The FILL ring.
    pub closed spec fn fill(&self) -> Producer {
        self.fill_ring
    }

    /// The RX ring.
    pub closed spec fn rx(&self) -> Consumer {
        self.rx_ring
    }

    /// Well-formedness: both rings are, have `size` slots, and hold no
    /// reservation and no peeked entry.
    pub open spec fn wf(&self) -> bool {
        &&& self.fill().wf()
        &&& self.rx().wf()
        &&& self.fill().capacity() == self.size()
        &&& self.rx().capacity() == self.size()
        &&& self.fill().reserved() == 0
        &&& self.rx().peeked() == 0
    }

    /// A receive half of the given rings.
    pub fn new(ring_size: u32, fill_ring: Producer, rx_ring: Consumer) -> (rx: Self)
        ensures
            rx.size() == ring_size,
            rx.fill() == fill_ring,
            rx.rx() == rx_ring,
    {
        RxSocket { ring_size, fill_ring, rx_ring }
    }

    /// The number of slots of each ring.
    pub fn ring_size(&self) -> (n: u32)
        ensures
            n == self.size(),
    {
        self.ring_size
    }

    /// The FILL ring.
    pub fn fill_ring(&self) -> (ring: &Producer)
        ensures
            *ring == self.fill(),
    {
        &self.fill_ring
    }

    /// The RX ring.
    pub fn rx_ring(&self) -> (ring: &Consumer)
        ensures
            *ring == self.rx(),
    {
        &self.rx_ring
    }

    /// What a fill step of up to `size` slots does: the oldest free
    /// addresses, as many as the FILL ring has room for, leave the pool and
    /// follow the addresses that FILL already holds, in the same order.
    pub open spec fn filled(
        pre: RxSocket,
        pre_socket: Socket,
        size: u32,
        post: RxSocket,
        post_socket: Socket,
    ) -> bool {
        let moved = fill_count(
            size as int,
            pre.fill().capacity() - pre.fill().pending().len(),
            pre_socket.pool()@.len() as int,
        );
        &&& post.wf()
        &&& post_socket.wf()
        &&& post.size() == pre.size()
        &&& post.rx() == pre.rx()
        &&& pre_socket.same_binding(post_socket)
        &&& post_socket.pool()@ == pre_socket.pool()@.skip(moved)
        &&& addresses(post.fill().pending()) == addresses(pre.fill().pending())
            + pre_socket.pool()@.take(moved)
        &&& post.fill().pending().take(pre.fill().pending().len() as int) == pre.fill().pending()
        &&& post.fill().producer_index() == pre.fill().producer_index().wrapping_add(moved as u32)
        &&& post.fill().consumer_index() == pre.fill().consumer_index()
    }

    /// What a drain step into a buffer that held `pre_out` does: the oldest
    /// RX entries, as many as the buffer and a ring take, are copied to the
    /// front of the buffer in order and leave the ring; the rest of the
    /// buffer stays.  The result is their number.
    pub open spec fn drained(
        pre: RxSocket,
        pre_out: Seq<Descriptor>,
        post: RxSocket,
        post_out: Seq<Descriptor>,
        count: u32,
    ) -> bool {
        let moved = burst_count(
            pre_out.len() as int,
            pre.size() as int,
            pre.rx().pending().len() as int,
        );
        &&& post.wf()
        &&& post.size() == pre.size()
        &&& post.fill() == pre.fill()
        &&& count == moved
        &&& post_out == pre.rx().pending().take(moved) + pre_out.skip(moved)
        &&& post.rx().pending() == pre.rx().pending().skip(moved)
        &&& post.rx().consumer_index() == pre.rx().consumer_index().wrapping_add(count)
        &&& post.rx().producer_index() == pre.rx().producer_index()
    }

    /// Refills the FILL ring from the free pool: reserves up to `size` slots,
    /// writes one free address into each for as long as the pool has one,
    /// and submits what was written.
    pub fn refill(&mut self, socket: &mut Socket, size: u32)
        requires
            old(self).wf(),
            old(socket).wf(),
        ensures
            Self::filled(*old(self), *old(socket), size, *final(self), *final(socket)),
    {
        let ghost free = socket.free@;
        let ghost before = self.fill_ring.pending();
        let (granted, index) = self.fill_ring.reserve(size);
        let mut offset: u32 = 0;
        while offset < granted
            invariant
                offset <= granted,
                self.fill_ring.wf(),
                self.fill_ring.reserved() == granted,
                self.fill_ring.capacity() == old(self).fill_ring.capacity(),
                self.fill_ring.pending() == before,
                self.fill_ring.producer_index() == index,
                self.fill_ring.consumer_index() == old(self).fill_ring.consumer_index(),
                self.rx_ring == old(self).rx_ring,
                self.ring_size == old(self).ring_size,
                socket.free.wf(),
                old(socket).same_binding(*socket),
                offset <= free.len(),
                socket.free@ == free.skip(offset as int),
                addresses(self.fill_ring.staged().take(offset as int)) == free.take(offset as int),
            ensures
                offset == granted || socket.free@.len() == 0,
            decreases granted - offset,
        {
            let ghost staged = self.fill_ring.staged();
            match socket.free.try_pop() {
                Some(address) => {
                    let slot = self.fill_ring.fill_address(index.wrapping_add(offset));
                    *slot = address;
                    assert(addresses(self.fill_ring.staged().take(offset + 1)) =~= addresses(
                        staged.take(offset as int),
                    ).push(address));
                    assert(free.take(offset + 1) =~= free.take(offset as int).push(address));
                    offset = offset + 1;
                },
                None => {
                    break ;
                },
            }
        }
        let ghost staged = self.fill_ring.staged();
        self.fill_ring.submit(offset);
        assert(addresses(self.fill_ring.pending()) =~= addresses(before) + addresses(
            staged.take(offset as int),
        ));
        assert(self.fill_ring.pending().take(before.len() as int) =~= before);
    }

    /// Drains the RX ring into `out`: peeks as many entries as `out` and a
    /// ring take, copies them to the front of `out`, and releases them.
    /// Returns their number.
    pub fn drain_into(&mut self, out: &mut [Descriptor]) -> (count: u32)
        requires
            old(self).wf(),
        ensures
            Self::drained(*old(self), old(out)@, *final(self), final(out)@, count),
    {
        let size = if out.len() > self.ring_size as usize {
            self.ring_size
        } else {
            out.len() as u32
        };
        let ghost pending = self.rx_ring.pending();
        let (filled, index) = self.rx_ring.peek(size);
        let mut offset: u32 = 0;
        while offset < filled
            invariant
                offset <= filled,
                filled <= out@.len(),
                filled <= pending.len(),
                out@.len() == old(out)@.len(),
                self.rx_ring.wf(),
                self.rx_ring.peeked() == filled,
                self.rx_ring.pending() == pending,
                self.rx_ring.consumer_index() == index,
                out@ == pending.take(offset as int) + old(out)@.skip(offset as int),
            decreases filled - offset,
        {
            let entry = *self.rx_ring.descriptor(index.wrapping_add(offset));
            out[offset as usize] = entry;
            assert(out@ =~= pending.take(offset + 1) + old(out)@.skip(offset + 1));
            offset = offset + 1;
        }
        self.rx_ring.release(filled);
        filled
    }

    /// Receives into a queue that takes up to `capacity` descriptors: the
    /// oldest RX entries, as many as the queue has room for and a ring
    /// takes, leave the ring and follow what the queue holds, in order.
    /// Returns their number.
    pub fn rx_burst(&mut self, buffer: &mut VecDeque<Descriptor>, capacity: usize) -> (received:
        u32)
        requires
            old(self).wf(),
        ensures
            final(self).wf(),
            final(self).size() == old(self).size(),
            final(self).fill() == old(self).fill(),
            received as int == burst_count(
                if capacity >= old(buffer)@.len() {
                    capacity - old(buffer)@.len()
                } else {
                    0
                },
                old(self).size() as int,
                old(self).rx().pending().len() as int,
            ),
            final(buffer)@ == old(buffer)@ + old(self).rx().pending().take(received as int),
            final(self).rx().pending() == old(self).rx().pending().skip(received as int),
            final(self).rx().consumer_index() == old(self).rx().consumer_index().wrapping_add(
                received,
            ),
            final(self).rx().producer_index() == old(self).rx().producer_index(),
    {
        let free = if capacity >= buffer.len() {
            capacity - buffer.len()
        } else {
            0
        };
        let size = if free > self.ring_size as usize {
            self.ring_size
        } else {
            free as u32
        };
        let ghost pending = self.rx_ring.pending();
        let (received, index) = self.rx_ring.peek(size);
        let mut offset: u32 = 0;
        while offset < received
            invariant
                offset <= received,
                received <= pending.len(),
                self.rx_ring.wf(),
                self.rx_ring.peeked() == received,
                self.rx_ring.pending() == pending,
                self.rx_ring.consumer_index() == index,
                buffer@ == old(buffer)@ + pending.take(offset as int),
            decreases received - offset,
        {
            let entry = *self.rx_ring.descriptor(index.wrapping_add(offset));
            buffer.push_back(entry);
            assert(buffer@ =~= old(buffer)@ + pending.take(offset + 1));
            offset = offset + 1;
        }
        self.rx_ring.release(received);
        received
    }

    /// One receive burst.  First refills the FILL ring from the free pool,
    /// with room for a whole ring; then drains the RX ring into `out`.
    /// Writes at most `min(out.len(), ring_size)` descriptors to the front of
    /// `out`, leaves the rest of `out` as it was, and returns the number
    /// written: zero when the RX ring holds nothing.  An empty free pool
    /// stops the refill and not the drain.
    pub fn read(&mut self, socket: &mut Socket, out: &mut [Descriptor]) -> (count: u32)
        requires
            old(self).wf(),
            old(socket).wf(),
        ensures
            Self::read_step(
                *old(self),
                *old(socket),
                old(out)@,
                *final(self),
                *final(socket),
                final(out)@,
                count,
            ),
    {
        let size = self.ring_size;
        self.refill(socket, size);
        let ghost middle = *self;
        let count = self.drain_into(out);
        proof {
            assert(Self::filled(*old(self), *old(socket), old(self).size(), middle, *socket));
            assert(Self::drained(middle, old(out)@, *self, out@, count));
        }
        count
    }

    /// What one receive burst does: a fill step with room for a whole ring,
    /// then a drain step.
    pub open spec fn read_step(
        pre: RxSocket,
        pre_socket: Socket,
        pre_out: Seq<Descriptor>,
        post: RxSocket,
        post_socket: Socket,
        post_out: Seq<Descriptor>,
        count: u32,
    ) -> bool {
        exists|middle: RxSocket|
            {
                &&& #[trigger] Self::filled(pre, pre_socket, pre.size(), middle, post_socket)
                &&& Self::drained(middle, pre_out, post, post_out, count)
            }
    }

    /// The driver's end of the FILL ring: takes the oldest address that the
    /// user has submitted, if there is one.
    pub fn kernel_take_fill(&mut self) -> (address: Option<u64>)
        requires
            old(self).wf(),
        ensures
            final(self).wf(),
            final(self).size() == old(self).size(),
            final(self).rx() == old(self).rx(),
            final(self).fill().producer_index() == old(self).fill().producer_index(),
            old(self).fill().pending().len() == 0 ==> address.is_none() && *final(self) == *old(self),
            old(self).fill().pending().len() > 0 ==> address == Some(
                old(self).fill().pending()[0].address,
            ) && final(self).fill().pending() == old(self).fill().pending().skip(1) && final(self).fill().consumer_index() == old(self).fill().consumer_index().wrapping_add(1),
    {
        if self.fill_ring.len() == 0 {
            return None;
        }
        match self.fill_ring.kernel_consume() {
            Some(entry) => Some(entry.address),
            None => None,
        }
    }

    /// The driver's end of the RX ring: appends a received packet unless the
    /// ring is full.  Returns whether it was appended.
    pub fn kernel_deliver(&mut self, packet: Descriptor) -> (done: bool)
        requires
            old(self).wf(),
        ensures
            final(self).wf(),
            final(self).size() == old(self).size(),
            final(self).fill() == old(self).fill(),
            final(self).rx().consumer_index() == old(self).rx().consumer_index(),
            done == (old(self).rx().pending().len() < old(self).size()),
            done ==> final(self).rx().pending() == old(self).rx().pending().push(packet) && final(self).rx().producer_index() == old(self).rx().producer_index().wrapping_add(1),
            !done ==> *final(self) == *old(self),
    {
        if self.rx_ring.len() == self.rx_ring.size() {
            return false;
        }
        self.rx_ring.kernel_produce(packet)
    }
}

impl TxSocket {
    /// The number of slots of each ring.
    pub closed spec fn size(&self) -> u32 {
        self.ring_size
    }

    /// The TX ring.
    pub closed spec fn tx(&self) -> Producer {
        self.tx_ring
    }

    /// The COMPLETION ring.
    pub closed spec fn completion(&self) -> Consumer {
        self.completion_ring
    }

    /// Well-formedness: both rings are, have `size` slots, and hold no
    /// reservation and no peeked entry.
    pub open spec fn wf(&self) -> bool {
        &&& self.tx().wf()
        &&& self.completion().wf()
        &&& self.tx().capacity() == self.size()
        &&& self.completion().capacity() == self.size()
        &&& self.tx().reserved() == 0
        &&& self.completion().peeked() == 0
    }

    /// A transmit half of the given rings.
    pub fn new(ring_size: u32, completion_ring: Consumer, tx_ring: Producer) -> (tx: Self)
        ensures
            tx.size() == ring_size,
            tx.tx() == tx_ring,
            tx.completion() == completion_ring,
    {
        TxSocket { ring_size, completion_ring, tx_ring }
    }

    /// The number of slots of each ring.
    pub fn ring_size(&self) -> (n: u32)
        ensures
            n == self.size(),
    {
        self.ring_size
    }

    /// The TX ring.
    pub fn tx_ring(&self) -> (ring: &Producer)
        ensures
            *ring == self.tx(),
    {
        &self.tx_ring
    }

    /// The COMPLETION ring.
    pub fn completion_ring(&self) -> (ring: &Consumer)
        ensures
            *ring == self.completion(),
    {
        &self.completion_ring
    }

    /// What an enqueue step does: the first descriptors of `packets`, as
    /// many as the TX ring has room for and a ring takes, follow the entries
    /// that TX already holds, in order.  The result is their number.
    pub open spec fn enqueued(
        pre: TxSocket,
        packets: Seq<Descriptor>,
        post: TxSocket,
        count: u32,
    ) -> bool {
        let moved = fill_count(
            pre.size() as int,
            pre.tx().capacity() - pre.tx().pending().len(),
            packets.len() as int,
        );
        &&& post.wf()
        &&& post.size() == pre.size()
        &&& post.completion() == pre.completion()
        &&& count == moved
        &&& post.tx().pending() == pre.tx().pending() + packets.take(moved)
        &&& post.tx().producer_index() == pre.tx().producer_index().wrapping_add(count)
        &&& post.tx().consumer_index() == pre.tx().consumer_index()
    }

    /// What a completion step of up to `size` entries does: the addresses of
    /// the oldest COMPLETION entries, as many as the pool has room for,
    /// leave the ring and follow the addresses that the pool already holds,
    /// in order.
    pub open spec fn completed(
        pre: TxSocket,
        pre_socket: Socket,
        size: u32,
        post: TxSocket,
        post_socket: Socket,
    ) -> bool {
        let moved = fill_count(
            size as int,
            pre_socket.pool().capacity() - pre_socket.pool()@.len(),
            pre.completion().pending().len() as int,
        );
        &&& post.wf()
        &&& post_socket.wf()
        &&& post.size() == pre.size()
        &&& post.tx() == pre.tx()
        &&& pre_socket.same_binding(post_socket)
        &&& post_socket.pool()@ == pre_socket.pool()@ + addresses(
            pre.completion().pending().take(moved),
        )
        &&& post.completion().pending() == pre.completion().pending().skip(moved)
        &&& post.completion().consumer_index() == pre.completion().consumer_index().wrapping_add(
            moved as u32,
        )
        &&& post.completion().producer_index() == pre.completion().producer_index()
    }

    /// Puts descriptors into the TX ring: reserves as many slots as
    /// `packets` and a ring take, copies the first descriptors of `packets`
    /// into them, and submits them.  Returns their number.
    pub fn enqueue(&mut self, packets: &[Descriptor]) -> (count: u32)
        requires
            old(self).wf(),
        ensures
            Self::enqueued(*old(self), packets@, *final(self), count),
    {
        let size = if packets.len() > self.ring_size as usize {
            self.ring_size
        } else {
            packets.len() as u32
        };
        let ghost before = self.tx_ring.pending();
        let (granted, index) = self.tx_ring.reserve(size);
        let mut offset: u32 = 0;
        while offset < granted
            invariant
                offset <= granted,
                granted <= packets@.len(),
                self.tx_ring.wf(),
                self.tx_ring.reserved() == granted,
                self.tx_ring.capacity() == old(self).tx_ring.capacity(),
                self.tx_ring.pending() == before,
                self.tx_ring.producer_index() == index,
                self.tx_ring.consumer_index() == old(self).tx_ring.consumer_index(),
                self.completion_ring == old(self).completion_ring,
                self.ring_size == old(self).ring_size,
                self.tx_ring.staged().take(offset as int) == packets@.take(offset as int),
            decreases granted - offset,
        {
            let ghost staged = self.tx_ring.staged();
            let slot = self.tx_ring.descriptor(index.wrapping_add(offset));
            *slot = packets[offset as usize];
            assert(self.tx_ring.staged().take(offset + 1) =~= staged.take(offset as int).push(
                packets@[offset as int],
            ));
            assert(packets@.take(offset + 1) =~= packets@.take(offset as int).push(
                packets@[offset as int],
            ));
            offset = offset + 1;
        }
        self.tx_ring.submit(granted);
        granted
    }

    /// Drains the COMPLETION ring into the free pool: peeks up to `size`
    /// entries, pushes the address of each onto the pool for as long as the
    /// pool takes one, and releases what was pushed.
    pub fn complete(&mut self, socket: &mut Socket, size: u32)
        requires
            old(self).wf(),
            old(socket).wf(),
        ensures
            Self::completed(*old(self), *old(socket), size, *final(self), *final(socket)),
    {
        let ghost pending = self.completion_ring.pending();
        let ghost free = socket.free@;
        let (filled, index) = self.completion_ring.peek(size);
        let mut offset: u32 = 0;
        while offset < filled
            invariant
                offset <= filled,
                filled <= pending.len(),
                self.completion_ring.wf(),
                self.completion_ring.peeked() == filled,
                self.completion_ring.capacity() == old(self).completion_ring.capacity(),
                self.completion_ring.pending() == pending,
                self.completion_ring.consumer_index() == index,
                self.completion_ring.producer_index() == old(self).completion_ring.producer_index(),
                self.tx_ring == old(self).tx_ring,
                self.ring_size == old(self).ring_size,
                socket.free.wf(),
                old(socket).same_binding(*socket),
                socket.free@ == free + addresses(pending.take(offset as int)),
            ensures
                offset == filled || socket.free@.len() == socket.free.capacity(),
            decreases filled - offset,
        {
            let address = *self.completion_ring.completion_address(index.wrapping_add(offset));
            if !socket.free.try_push(address) {
                break ;
            }
            assert(addresses(pending.take(offset + 1)) =~= addresses(
                pending.take(offset as int),
            ).push(address));
            offset = offset + 1;
        }
        self.completion_ring.release(offset);
    }

    /// Sends from a queue: the oldest descriptors of the queue, as many as
    /// the TX ring has room for, leave the queue and follow the entries that
    /// TX holds, in order.  Returns their number.
    pub fn tx_burst(&mut self, buffer: &mut VecDeque<Descriptor>) -> (sent: u32)
        requires
            old(self).wf(),
        ensures
            final(self).wf(),
            final(self).size() == old(self).size(),
            final(self).completion() == old(self).completion(),
            sent as int == vstd::math::min(
                old(buffer)@.len() as int,
                old(self).tx().capacity() - old(self).tx().pending().len(),
            ),
            final(buffer)@ == old(buffer)@.skip(sent as int),
            final(self).tx().pending() == old(self).tx().pending() + old(buffer)@.take(
                sent as int,
            ),
            final(self).tx().producer_index() == old(self).tx().producer_index().wrapping_add(
                sent,
            ),
            final(self).tx().consumer_index() == old(self).tx().consumer_index(),
    {
        let count = if buffer.len() > self.ring_size as usize {
            self.ring_size
        } else {
            buffer.len() as u32
        };
        let ghost before = self.tx_ring.pending();
        let (available, index) = self.tx_ring.reserve(count);
        let mut offset: u32 = 0;
        while offset < available
            invariant
                offset <= available,
                available <= old(buffer)@.len(),
                self.tx_ring.wf(),
                self.tx_ring.reserved() == available,
                self.tx_ring.capacity() == old(self).tx_ring.capacity(),
                self.tx_ring.pending() == before,
                self.tx_ring.producer_index() == index,
                self.tx_ring.consumer_index() == old(self).tx_ring.consumer_index(),
                self.completion_ring == old(self).completion_ring,
                self.ring_size == old(self).ring_size,
                buffer@ == old(buffer)@.skip(offset as int),
                self.tx_ring.staged().take(offset as int) == old(buffer)@.take(offset as int),
            decreases available - offset,
        {
            let ghost staged = self.tx_ring.staged();
            let ghost queued = buffer@;
            match buffer.pop_front() {
                Some(packet) => {
                    let slot = self.tx_ring.descriptor(index.wrapping_add(offset));
                    *slot = packet;
                    assert(self.tx_ring.staged().take(offset + 1) =~= staged.take(
                        offset as int,
                    ).push(packet));
                    assert(old(buffer)@.take(offset + 1) =~= old(buffer)@.take(
                        offset as int,
                    ).push(packet));
                    assert(buffer@ =~= old(buffer)@.skip(offset + 1));
                    offset = offset + 1;
                },
                None => {
                    assert(false);
                },
            }
        }
        self.tx_ring.submit(available);
        available
    }

    /// One transmit burst.  First puts the first descriptors of `packets`
    /// into the TX ring, at most `min(packets.len(), ring_size)` and no
    /// more than the ring has room for; then drains the COMPLETION ring into
    /// the free pool, looking at up to a whole ring of entries whatever was
    /// enqueued.  Returns the number of descriptors accepted; the rest stay
    /// with the caller.
    pub fn write(&mut self, socket: &mut Socket, packets: &[Descriptor]) -> (count: u32)
        requires
            old(self).wf(),
            old(socket).wf(),
        ensures
            Self::write_step(
                *old(self),
                *old(socket),
                packets@,
                *final(self),
                *final(socket),
                count,
            ),
    {
        let count = self.enqueue(packets);
        let ghost middle = *self;
        let size = self.ring_size;
        self.complete(socket, size);
        proof {
            assert(Self::enqueued(*old(self), packets@, middle, count));
            assert(Self::completed(middle, *old(socket), middle.size(), *self, *socket));
        }
        count
    }

    /// What one transmit burst does: an enqueue step, then a completion step
    /// of up to a whole ring.
    pub open spec fn write_step(
        pre: TxSocket,
        pre_socket: Socket,
        packets: Seq<Descriptor>,
        post: TxSocket,
        post_socket: Socket,
        count: u32,
    ) -> bool {
        exists|middle: TxSocket|
            {
                &&& #[trigger] Self::enqueued(pre, packets, middle, count)
                &&& Self::completed(middle, pre_socket, middle.size(), post, post_socket)
            }
    }

    /// Gives frames straight back to the free pool, without transmitting
    /// them: pushes the addresses of the first descriptors of `packets` onto
    /// the pool for as long as the pool takes one.  Returns their number.
    pub fn free(&mut self, socket: &mut Socket, packets: &[Descriptor]) -> (count: u32)
        requires
            old(self).wf(),
            old(socket).wf(),
        ensures
            *final(self) == *old(self),
            final(socket).wf(),
            old(socket).same_binding(*final(socket)),
            count as int == vstd::math::min(
                packets@.len() as int,
                old(socket).pool().capacity() - old(socket).pool()@.len(),
            ),
            final(socket).pool()@ == old(socket).pool()@ + addresses(packets@.take(count as int)),
    {
        let ghost free = socket.free@;
        let mut offset: u32 = 0;
        while (offset as usize) < packets.len()
            invariant
                offset <= packets@.len(),
                socket.free.wf(),
                old(socket).same_binding(*socket),
                socket.free@ == free + addresses(packets@.take(offset as int)),
            ensures
                offset == packets@.len() || socket.free@.len() == socket.free.capacity(),
            decreases packets@.len() - offset,
        {
            if !socket.free.try_push(packets[offset as usize].address) {
                break ;
            }
            assert(addresses(packets@.take(offset + 1)) =~= addresses(
                packets@.take(offset as int),
            ).push(packets@[offset as int].address));
            offset = offset + 1;
        }
        offset
    }

    /// The driver's end of the TX ring: takes the oldest descriptor that the
    /// user has submitted, if there is one.
    pub fn kernel_take_tx(&mut self) -> (packet: Option<Descriptor>)
        requires
            old(self).wf(),
        ensures
            final(self).wf(),
            final(self).size() == old(self).size(),
            final(self).completion() == old(self).completion(),
            final(self).tx().producer_index() == old(self).tx().producer_index(),
            old(self).tx().pending().len() == 0 ==> packet.is_none() && *final(self) == *old(self),
            old(self).tx().pending().len() > 0 ==> packet == Some(old(self).tx().pending()[0])
                && final(self).tx().pending() == old(self).tx().pending().skip(1) && final(self).tx().consumer_index() == old(self).tx().consumer_index().wrapping_add(1),
    {
        if self.tx_ring.len() == 0 {
            return None;
        }
        self.tx_ring.kernel_consume()
    }

    /// The driver's end of the COMPLETION ring: appends the address of a
    /// transmitted frame unless the ring is full.  Returns whether it was
    /// appended.
    pub fn kernel_complete(&mut self, address: u64) -> (done: bool)
        requires
            old(self).wf(),
        ensures
            final(self).wf(),
            final(self).size() == old(self).size(),
            final(self).tx() == old(self).tx(),
            final(self).completion().consumer_index() == old(self).completion().consumer_index(),
            done == (old(self).completion().pending().len() < old(self).size()),
            done ==> final(self).completion().pending() == old(self).completion().pending().push(
                Descriptor { address, length: 0 },
            ) && final(self).completion().producer_index() == old(self).completion().producer_index().wrapping_add(1),
            !done ==> *final(self) == *old(self),
    {
        if self.completion_ring.len() == self.completion_ring.size() {
            return false;
        }
        self.completion_ring.kernel_produce(Descriptor { address, length: 0 })
    }
}

} // verus!
