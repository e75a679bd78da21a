//! What holds of every burst: frames are neither lost nor made, an empty
//! free pool does not stop reception, and a burst that finds nothing to do
//! changes nothing.

use vstd::prelude::*;
use vstd::multiset::Multiset;
use vstd::seq_lib::lemma_multiset_commutative;
use crate::descriptor::{addresses, Descriptor};
use crate::socket::{burst_count, fill_count, RxSocket, Socket, TxSocket};

verus! {

/// The frame addresses of `entries`, each as often as it occurs.
pub open spec fn bag(entries: Seq<Descriptor>) -> Multiset<u64> {
    addresses(entries).to_multiset()
}

/// An empty sequence holds nothing.
pub proof fn lemma_empty_holds_nothing<A>()
    ensures
        Seq::<A>::empty().to_multiset() == Multiset::<A>::empty(),
{
    broadcast use vstd::multiset::group_multiset_axioms;
    broadcast use vstd::seq_lib::group_to_multiset_ensures;

    let nothing = Seq::<A>::empty().to_multiset();
    assert(nothing.len() == 0);
    assert(nothing =~= Multiset::<A>::empty());
}

/// A sequence of one element holds that element once.
pub proof fn lemma_single_holds_one<A>(a: A)
    ensures
        seq![a].to_multiset() == Multiset::<A>::empty().insert(a),
{
    broadcast use vstd::multiset::group_multiset_axioms;
    broadcast use vstd::seq_lib::group_to_multiset_ensures;

    lemma_empty_holds_nothing::<A>();
    assert(seq![a] =~= Seq::<A>::empty().push(a));
}

/// Splitting a sequence in two keeps every element as often as it occurred.
pub proof fn lemma_split_keeps_all<A>(s: Seq<A>, at: int)
    requires
        0 <= at <= s.len(),
    ensures
        s.take(at).to_multiset().add(s.skip(at).to_multiset()) == s.to_multiset(),
{
    lemma_multiset_commutative(s.take(at), s.skip(at));
    assert(s.take(at) + s.skip(at) =~= s);
}

/// The addresses of a run of descriptors split where the run is split.
pub proof fn lemma_bag_split(entries: Seq<Descriptor>, at: int)
    requires
        0 <= at <= entries.len(),
    ensures
        bag(entries.take(at)).add(bag(entries.skip(at))) == bag(entries),
{
    lemma_split_keeps_all(addresses(entries), at);
    assert(addresses(entries).take(at) =~= addresses(entries.take(at)));
    assert(addresses(entries).skip(at) =~= addresses(entries.skip(at)));
}

/// The addresses of two runs of descriptors, one after the other.
pub proof fn lemma_bag_concat(first: Seq<Descriptor>, second: Seq<Descriptor>)
    ensures
        bag(first + second) == bag(first).add(bag(second)),
{
    lemma_multiset_commutative(addresses(first), addresses(second));
    assert(addresses(first + second) =~= addresses(first) + addresses(second));
}

/// A receive burst neither loses nor makes a frame: the addresses in the
/// free pool, in FILL, in RX and among the descriptors handed to the caller
/// are, after the burst, those that were in the free pool, in FILL and in RX
/// before it.
pub proof fn lemma_read_conserves(
    pre: RxSocket,
    pre_socket: Socket,
    pre_out: Seq<Descriptor>,
    post: RxSocket,
    post_socket: Socket,
    post_out: Seq<Descriptor>,
    count: u32,
)
    requires
        pre.wf(),
        pre_socket.wf(),
        RxSocket::read_step(pre, pre_socket, pre_out, post, post_socket, post_out, count),
    ensures
        count <= post_out.len(),
        post_socket.pool()@.to_multiset().add(bag(post.fill().pending())).add(
            bag(post.rx().pending()),
        ).add(bag(post_out.take(count as int))) == pre_socket.pool()@.to_multiset().add(
            bag(pre.fill().pending()),
        ).add(bag(pre.rx().pending())),
{
    broadcast use vstd::multiset::group_multiset_axioms;

    let middle = choose|middle: RxSocket|
        {
            &&& #[trigger] RxSocket::filled(pre, pre_socket, pre.size(), middle, post_socket)
            &&& RxSocket::drained(middle, pre_out, post, post_out, count)
        };
    let free = pre_socket.pool()@;
    let moved = fill_count(
        pre.size() as int,
        pre.fill().capacity() - pre.fill().pending().len(),
        free.len() as int,
    );
    lemma_split_keeps_all(free, moved);
    lemma_multiset_commutative(addresses(pre.fill().pending()), free.take(moved));
    let received = pre.rx().pending();
    lemma_bag_split(received, count as int);
    assert(post_out.take(count as int) =~= received.take(count as int));
    assert(post_socket.pool()@.to_multiset().add(bag(post.fill().pending())).add(
        bag(post.rx().pending()),
    ).add(bag(post_out.take(count as int))) =~= pre_socket.pool()@.to_multiset().add(
        bag(pre.fill().pending()),
    ).add(bag(pre.rx().pending())));
}

/// A transmit burst neither loses nor makes a frame: the addresses in the
/// free pool, in TX and in COMPLETION are, after the burst, those that were
/// there before it and those of the descriptors that were accepted.
pub proof fn lemma_write_conserves(
    pre: TxSocket,
    pre_socket: Socket,
    packets: Seq<Descriptor>,
    post: TxSocket,
    post_socket: Socket,
    count: u32,
)
    requires
        pre.wf(),
        pre_socket.wf(),
        TxSocket::write_step(pre, pre_socket, packets, post, post_socket, count),
    ensures
        count <= packets.len(),
        post_socket.pool()@.to_multiset().add(bag(post.tx().pending())).add(
            bag(post.completion().pending()),
        ) == pre_socket.pool()@.to_multiset().add(bag(pre.tx().pending())).add(
            bag(pre.completion().pending()),
        ).add(bag(packets.take(count as int))),
{
    broadcast use vstd::multiset::group_multiset_axioms;

    let middle = choose|middle: TxSocket|
        {
            &&& #[trigger] TxSocket::enqueued(pre, packets, middle, count)
            &&& TxSocket::completed(middle, pre_socket, middle.size(), post, post_socket)
        };
    let done = pre.completion().pending();
    let moved = fill_count(
        pre.size() as int,
        pre_socket.pool().capacity() - pre_socket.pool()@.len(),
        done.len() as int,
    );
    lemma_bag_split(done, moved);
    lemma_bag_concat(pre.tx().pending(), packets.take(count as int));
    lemma_multiset_commutative(pre_socket.pool()@, addresses(done.take(moved)));
    assert(post_socket.pool()@.to_multiset().add(bag(post.tx().pending())).add(
        bag(post.completion().pending()),
    ) =~= pre_socket.pool()@.to_multiset().add(bag(pre.tx().pending())).add(
        bag(pre.completion().pending()),
    ).add(bag(packets.take(count as int))));
}

/// Back-pressure: with an empty free pool a receive burst submits nothing to
/// FILL and still drains RX, as many entries as the buffer and a ring take.
pub proof fn lemma_read_under_back_pressure(
    pre: RxSocket,
    pre_socket: Socket,
    pre_out: Seq<Descriptor>,
    post: RxSocket,
    post_socket: Socket,
    post_out: Seq<Descriptor>,
    count: u32,
)
    requires
        pre.wf(),
        pre_socket.wf(),
        RxSocket::read_step(pre, pre_socket, pre_out, post, post_socket, post_out, count),
        pre_socket.pool()@.len() == 0,
    ensures
        post.fill().pending() == pre.fill().pending(),
        post.fill().producer_index() == pre.fill().producer_index(),
        post.fill().consumer_index() == pre.fill().consumer_index(),
        post_socket.pool()@ == pre_socket.pool()@,
        count == burst_count(
            pre_out.len() as int,
            pre.size() as int,
            pre.rx().pending().len() as int,
        ),
        post_out == pre.rx().pending().take(count as int) + pre_out.skip(count as int),
        post.rx().pending() == pre.rx().pending().skip(count as int),
{
    let middle = choose|middle: RxSocket|
        {
            &&& #[trigger] RxSocket::filled(pre, pre_socket, pre.size(), middle, post_socket)
            &&& RxSocket::drained(middle, pre_out, post, post_out, count)
        };
    lemma_same_addresses_same_length(middle.fill().pending(), pre.fill().pending());
    assert(middle.fill().pending() =~= middle.fill().pending().take(
        pre.fill().pending().len() as int,
    ));
    assert(post_socket.pool()@ =~= pre_socket.pool()@);
}

/// Two runs of descriptors with the same addresses are equally long.
proof fn lemma_same_addresses_same_length(first: Seq<Descriptor>, second: Seq<Descriptor>)
    requires
        addresses(first) == addresses(second) + Seq::<u64>::empty(),
    ensures
        first.len() == second.len(),
{
    assert(addresses(first).len() == first.len());
    assert(addresses(second).len() == second.len());
}

/// A receive burst that finds the RX ring empty returns zero and leaves the
/// buffer and the RX ring, its indices included, as they were.  If there is
/// also nothing to refill, because the free pool is empty or FILL is full,
/// the FILL ring and the free pool stay as they were too.
pub proof fn lemma_idle_read(
    pre: RxSocket,
    pre_socket: Socket,
    pre_out: Seq<Descriptor>,
    post: RxSocket,
    post_socket: Socket,
    post_out: Seq<Descriptor>,
    count: u32,
)
    requires
        pre.wf(),
        pre_socket.wf(),
        RxSocket::read_step(pre, pre_socket, pre_out, post, post_socket, post_out, count),
        pre.rx().pending().len() == 0,
    ensures
        count == 0,
        post_out == pre_out,
        post.rx().pending() == pre.rx().pending(),
        post.rx().producer_index() == pre.rx().producer_index(),
        post.rx().consumer_index() == pre.rx().consumer_index(),
        pre_socket.pool()@.len() == 0 || pre.fill().pending().len() == pre.size() ==> {
            &&& post.fill().pending() == pre.fill().pending()
            &&& post.fill().producer_index() == pre.fill().producer_index()
            &&& post.fill().consumer_index() == pre.fill().consumer_index()
            &&& post_socket.pool()@ == pre_socket.pool()@
        },
{
    let middle = choose|middle: RxSocket|
        {
            &&& #[trigger] RxSocket::filled(pre, pre_socket, pre.size(), middle, post_socket)
            &&& RxSocket::drained(middle, pre_out, post, post_out, count)
        };
    assert(post_out =~= pre_out);
    assert(post.rx().pending() =~= pre.rx().pending());
    if pre_socket.pool()@.len() == 0 || pre.fill().pending().len() == pre.size() {
        lemma_same_addresses_same_length(middle.fill().pending(), pre.fill().pending());
        assert(middle.fill().pending() =~= middle.fill().pending().take(
            pre.fill().pending().len() as int,
        ));
        assert(post_socket.pool()@ =~= pre_socket.pool()@);
    }
}

/// A transmit burst with no descriptor to send returns zero and leaves the
/// TX ring, its indices included, as it was.  If the COMPLETION ring is
/// empty as well, that ring and the free pool stay as they were too.
pub proof fn lemma_idle_write(
    pre: TxSocket,
    pre_socket: Socket,
    packets: Seq<Descriptor>,
    post: TxSocket,
    post_socket: Socket,
    count: u32,
)
    requires
        pre.wf(),
        pre_socket.wf(),
        TxSocket::write_step(pre, pre_socket, packets, post, post_socket, count),
        packets.len() == 0,
    ensures
        count == 0,
        post.tx().pending() == pre.tx().pending(),
        post.tx().producer_index() == pre.tx().producer_index(),
        post.tx().consumer_index() == pre.tx().consumer_index(),
        pre.completion().pending().len() == 0 ==> {
            &&& post.completion().pending() == pre.completion().pending()
            &&& post.completion().producer_index() == pre.completion().producer_index()
            &&& post.completion().consumer_index() == pre.completion().consumer_index()
            &&& post_socket.pool()@ == pre_socket.pool()@
        },
{
    let middle = choose|middle: TxSocket|
        {
            &&& #[trigger] TxSocket::enqueued(pre, packets, middle, count)
            &&& TxSocket::completed(middle, pre_socket, middle.size(), post, post_socket)
        };
    assert(post.tx().pending() =~= pre.tx().pending());
    if pre.completion().pending().len() == 0 {
        assert(post.completion().pending() =~= pre.completion().pending());
        assert(post_socket.pool()@ =~= pre_socket.pool()@);
    }
}

} // verus!
