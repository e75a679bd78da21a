use mangonel::descriptor::Descriptor;
use mangonel::loopback::{FrameState, Loopback};
use mangonel::mmap::{Mmap, MmapError, EINVAL};
use mangonel::pool::FreePool;
use mangonel::ring::{is_power_of_two, ring_buffer, RingError};
use mangonel::socket::{find_nul, Socket, SocketBuilder, SocketError};
use mangonel::umem::{Umem, UmemConfig, UmemError};

fn builder(frame_size: u32, headroom: u32, ring_size: u32) -> SocketBuilder {
    SocketBuilder {
        frame_size,
        frame_headroom_size: headroom,
        ring_size,
        use_hugetlb: false,
        force_zero_copy: false,
    }
}

fn everywhere(harness: &Loopback) -> Vec<u64> {
    let mut all = harness.shared().free_pool().addresses();
    let address = |d: &Descriptor| d.address();
    all.extend(harness.rx_socket().fill_ring().entries().iter().map(address));
    all.extend(harness.rx_socket().rx_ring().entries().iter().map(address));
    all.extend(harness.packets().iter().map(address));
    all.extend(harness.tx_socket().tx_ring().entries().iter().map(address));
    all.extend(harness.tx_socket().completion_ring().entries().iter().map(address));
    all.extend(harness.receiving_addresses());
    all.extend(harness.transmitting_packets().iter().map(address));
    all
}

fn seeds(frame_size: u64, headroom: u64, ring_size: u64) -> Vec<u64> {
    (0..ring_size).map(|k| k * (frame_size + headroom) + headroom).collect()
}

fn assert_conserved(harness: &Loopback, expected: &[u64]) {
    let mut all = everywhere(harness);
    all.sort();
    let mut expected = expected.to_vec();
    expected.sort();
    assert_eq!(all, expected);
}

#[test]
fn conservation_under_an_interleaving() {
    let mut harness = Loopback::new(builder(2048, 256, 8), "lo", 0).unwrap();
    let expected = seeds(2048, 256, 8);
    assert_conserved(&harness, &expected);
    let mut out = [Descriptor::default(); 4];
    let mut state: u32 = 12345;
    for _ in 0..2000 {
        state = state.wrapping_mul(1664525).wrapping_add(1013904223);
        match (state >> 24) % 8 {
            0 => {
                harness.read(&mut out);
            },
            1 => {
                harness.write(((state >> 8) % 5) as usize);
            },
            2 => {
                harness.kernel_take_fill();
            },
            3 => {
                harness.kernel_deliver((state >> 4) % 4096);
            },
            4 => {
                harness.kernel_take_tx();
            },
            5 => {
                harness.kernel_complete();
            },
            6 => {
                harness.allocate((state >> 4) % 4096);
            },
            _ => {
                harness.release(((state >> 8) % 3) as usize);
            },
        }
        assert_conserved(&harness, &expected);
    }
}

#[test]
fn disjointness_under_an_interleaving() {
    let mut harness = Loopback::new(builder(64, 0, 4), "lo", 0).unwrap();
    let mut out = [Descriptor::default(); 2];
    for round in 0..50u32 {
        harness.read(&mut out);
        harness.kernel_take_fill();
        harness.kernel_deliver(round % 64);
        if round % 3 == 0 {
            harness.write(1);
        }
        harness.kernel_take_tx();
        if round % 2 == 0 {
            harness.kernel_complete();
        }
        let mut all = everywhere(&harness);
        let count = all.len();
        all.sort();
        all.dedup();
        assert_eq!(all.len(), count);
        assert_eq!(count, 4);
    }
}

#[test]
fn ring_size_must_be_a_power_of_two() {
    for size in [0u32, 3, 5, 6, 7, 9, 12, 100, 1000, 4095, u32::MAX] {
        assert!(!is_power_of_two(size));
        assert_eq!(ring_buffer(size).err(), Some(RingError::IsNotPowerOfTwo(size)));
        assert_eq!(
            builder(64, 0, size).build("lo", 0).err().map(|e| match e {
                SocketError::Ring(RingError::IsNotPowerOfTwo(n)) => n,
                SocketError::Mmap(MmapError::Initialize(_)) if size == 0 => 0,
                SocketError::Mmap(MmapError::InvalidLength(_, n)) => n,
                other => panic!("{:?}", other),
            }),
            Some(size)
        );
    }
    for shift in 0..32u32 {
        assert!(is_power_of_two(1 << shift));
    }
    for size in [1u32, 2, 4, 1024] {
        let (producer, consumer) = ring_buffer(size).unwrap();
        assert_eq!(producer.size(), size);
        assert_eq!(consumer.size(), size);
        assert_eq!(producer.len(), 0);
        assert_eq!(consumer.len(), 0);
    }
}

#[test]
fn frame_slice_bounds() {
    let mut harness = Loopback::new(builder(2048, 256, 4), "lo", 0).unwrap();
    let mut out = [Descriptor::default(); 4];
    harness.read(&mut out);
    assert!(harness.kernel_take_fill());
    assert!(harness.kernel_take_fill());
    assert!(harness.kernel_deliver(64));
    assert!(harness.kernel_deliver(1500));
    assert_eq!(harness.read(&mut out), 2);
    assert_eq!(harness.packet_bytes(0).len(), 256 + 64);
    assert_eq!(harness.packet_bytes(1).len(), 256 + 1500);
    {
        let bytes = harness.packet_bytes_mut(1);
        assert_eq!(bytes.len(), 256 + 1500);
        bytes[0] = 0xAA;
        bytes[256] = 0xBB;
        bytes[256 + 1499] = 0xCC;
    }
    let packet = harness.packets()[1];
    assert_eq!(packet, Descriptor::new(2560, 1500));
    let umem = harness.shared().umem();
    let region = umem.mmap().bytes(0, umem.mmap().length());
    assert_eq!(region.len(), (2048 + 256) * 4);
    assert_eq!(region[2560 - 256], 0xAA);
    assert_eq!(region[2560], 0xBB);
    assert_eq!(region[2560 + 1499], 0xCC);
    assert_eq!(region.iter().filter(|b| **b != 0).count(), 3);
    let slice = packet.as_slice(umem);
    assert_eq!(slice.len(), 256 + 1500);
    assert_eq!(slice[256], 0xBB);
    assert_eq!(&slice[256..], &region[2560..2560 + 1500]);
}

#[test]
fn descriptor_slices_of_a_bare_umem() {
    let mmap = Mmap::new(100, 20, 2, false).unwrap();
    let (mut umem, _fill, _completion) = Umem::initialize(mmap, 2, 2, 100, 20).unwrap();
    assert_eq!(
        umem.config(),
        UmemConfig { fill_size: 2, comp_size: 2, frame_size: 100, frame_headroom: 20, flags: 0 }
    );
    assert!(umem.contains(&Descriptor::new(20, 100)));
    assert!(umem.contains(&Descriptor::new(140, 0)));
    assert!(!umem.contains(&Descriptor::new(140, 101)));
    assert!(!umem.contains(&Descriptor::new(0, 10)));
    assert!(!umem.contains(&Descriptor::new(21, 10)));
    assert!(!umem.contains(&Descriptor::new(260, 10)));
    let mut packet = Descriptor::new(140, 7);
    {
        let bytes = packet.as_slice_mut(&mut umem);
        assert_eq!(bytes.len(), 27);
        for (i, byte) in bytes.iter_mut().enumerate() {
            *byte = i as u8 + 1;
        }
    }
    assert_eq!(packet, Descriptor::new(140, 7));
    let bytes = packet.as_slice(&umem);
    assert_eq!(bytes.len(), 27);
    assert_eq!(bytes[20], 21);
    let whole = umem.mmap().bytes(0, 240);
    assert_eq!(whole[119], 0);
    assert_eq!(whole[120], 1);
    assert_eq!(whole[140], 21);
    assert_eq!(whole[146], 27);
    assert_eq!(whole[147], 0);
}

#[test]
fn back_pressure() {
    let mut harness = Loopback::new(builder(128, 0, 4), "lo", 0).unwrap();
    let mut out = [Descriptor::default(); 4];
    assert_eq!(harness.read(&mut out), 0);
    assert!(harness.shared().free_pool().is_empty());
    for _ in 0..3 {
        assert!(harness.kernel_take_fill());
        assert!(harness.kernel_deliver(60));
    }
    let fill_before = harness.rx_socket().fill_ring().entries();
    assert_eq!(fill_before.len(), 1);
    assert_eq!(harness.read(&mut out), 3);
    assert_eq!(harness.rx_socket().fill_ring().entries(), fill_before);
    assert!(harness.shared().free_pool().is_empty());
    assert_eq!(&out[..3], &[
        Descriptor::new(0, 60),
        Descriptor::new(128, 60),
        Descriptor::new(256, 60),
    ]);
}

#[test]
fn idle_bursts_change_nothing() {
    let (mut tx, mut rx, mut socket) = builder(128, 0, 4).build("lo", 0).unwrap();
    let mut out = [Descriptor::new(7, 7); 4];
    assert_eq!(rx.read(&mut socket, &mut out), 0);
    let fill = rx.fill_ring().entries();
    assert_eq!(fill.len(), 4);
    assert_eq!(rx.read(&mut socket, &mut out), 0);
    assert_eq!(out, [Descriptor::new(7, 7); 4]);
    assert_eq!(rx.fill_ring().entries(), fill);
    assert!(rx.rx_ring().entries().is_empty());
    assert!(socket.free_pool().is_empty());

    assert_eq!(tx.write(&mut socket, &[]), 0);
    assert!(tx.tx_ring().entries().is_empty());
    assert!(tx.completion_ring().entries().is_empty());
    assert!(socket.free_pool().is_empty());
}

#[test]
fn read_takes_no_more_than_the_buffer_and_writes_no_further() {
    let mut harness = Loopback::new(builder(128, 0, 4), "lo", 0).unwrap();
    let mut none: [Descriptor; 0] = [];
    assert_eq!(harness.read(&mut none), 0);
    for _ in 0..4 {
        assert!(harness.kernel_take_fill());
        assert!(harness.kernel_deliver(1));
    }
    assert!(!harness.kernel_take_fill());
    assert!(!harness.kernel_deliver(1));
    assert_eq!(harness.read(&mut none), 0);
    let mut out = [Descriptor::new(9, 9); 6];
    assert_eq!(harness.read(&mut out), 4);
    assert_eq!(out[3], Descriptor::new(384, 1));
    assert_eq!(out[4], Descriptor::new(9, 9));
    assert_eq!(out[5], Descriptor::new(9, 9));
}

#[test]
fn write_takes_no_more_than_the_ring() {
    let mut harness = Loopback::new(builder(128, 0, 4), "lo", 0).unwrap();
    for _ in 0..4 {
        assert!(harness.allocate(10).is_some());
    }
    assert_eq!(harness.allocate(10), None);
    assert_eq!(harness.allocate(129), None);
    assert_eq!(harness.write(3), 3);
    assert_eq!(harness.write(3), 1);
    assert_eq!(harness.write(3), 0);
    assert_eq!(harness.tx_socket().tx_ring().len(), 4);
    assert!(harness.kernel_take_tx());
    assert!(harness.kernel_complete());
    assert!(!harness.kernel_complete());
    assert_eq!(harness.write(0), 0);
    assert_eq!(harness.shared().free_pool().addresses(), vec![0]);
    assert_eq!(harness.tx_socket().tx_ring().len(), 3);

    let (mut tx, _rx, mut socket) = builder(128, 0, 2).build("lo", 0).unwrap();
    let packets = [Descriptor::new(0, 1), Descriptor::new(128, 2), Descriptor::new(0, 3)];
    assert_eq!(tx.write(&mut socket, &packets), 2);
    assert_eq!(tx.tx_ring().entries(), packets[..2].to_vec());
    assert_eq!(tx.write(&mut socket, &packets), 0);
}

#[test]
fn release_returns_frames_to_the_pool() {
    let mut harness = Loopback::new(builder(128, 0, 4), "lo", 0).unwrap();
    assert_eq!(harness.allocate(5), Some(Descriptor::new(0, 5)));
    assert_eq!(harness.allocate(5), Some(Descriptor::new(128, 5)));
    assert_eq!(harness.release(1), 1);
    assert_eq!(harness.shared().free_pool().addresses(), vec![256, 384, 0]);
    assert_eq!(harness.packets(), &vec![Descriptor::new(128, 5)]);
    assert_eq!(harness.release(9), 1);
    assert_eq!(harness.release(9), 0);

    let (mut tx, _rx, mut socket) = builder(128, 0, 2).build("lo", 0).unwrap();
    assert_eq!(tx.free(&mut socket, &[Descriptor::new(0, 1)]), 0);
    assert_eq!(socket.allocate(), Some(0));
    assert_eq!(socket.allocate(), Some(128));
    assert_eq!(socket.allocate(), None);
    let packets = [Descriptor::new(128, 1), Descriptor::new(0, 1), Descriptor::new(128, 1)];
    assert_eq!(tx.free(&mut socket, &packets), 2);
    assert_eq!(socket.free_pool().addresses(), vec![128, 0]);
}

#[test]
fn ring_indices_run_free_and_wrap() {
    let (mut producer, mut consumer) = ring_buffer(2).unwrap();
    let mut expected: u32 = 0;
    for round in 0..10u64 {
        let (granted, index) = producer.reserve(5);
        assert_eq!((granted, index), (2, expected));
        *producer.fill_address(index) = round;
        *producer.descriptor(index.wrapping_add(1)) = Descriptor::new(round + 100, 3);
        producer.submit(2);
        assert_eq!(producer.reserve(1), (0, expected.wrapping_add(2)));
        assert_eq!(producer.kernel_consume().map(|d| d.address()), Some(round));
        let second = producer.kernel_consume().unwrap();
        assert_eq!(second, Descriptor::new(round + 100, 3));
        assert_eq!(producer.kernel_consume(), None);
        assert!(consumer.kernel_produce(second));
        assert!(consumer.kernel_produce(Descriptor::new(round, 0)));
        assert!(!consumer.kernel_produce(Descriptor::new(round, 0)));
        let (filled, at) = consumer.peek(1);
        assert_eq!((filled, at), (1, expected));
        assert_eq!(*consumer.descriptor(at), second);
        consumer.release(1);
        let (filled, at) = consumer.peek(8);
        assert_eq!((filled, at), (1, expected.wrapping_add(1)));
        assert_eq!(*consumer.completion_address(at), round);
        consumer.release(1);
        assert_eq!(consumer.peek(8), (0, expected.wrapping_add(2)));
        expected = expected.wrapping_add(2);
    }
}

#[test]
fn partial_submit_gives_the_rest_up() {
    let (mut producer, _consumer) = ring_buffer(4).unwrap();
    let (granted, index) = producer.reserve(3);
    assert_eq!((granted, index), (3, 0));
    *producer.fill_address(index) = 11;
    *producer.fill_address(index + 1) = 22;
    *producer.fill_address(index + 2) = 33;
    producer.submit(1);
    assert_eq!(producer.len(), 1);
    let (granted, index) = producer.reserve(4);
    assert_eq!((granted, index), (3, 1));
    *producer.fill_address(index) = 44;
    producer.submit(1);
    let addresses: Vec<u64> = producer.entries().iter().map(|d| d.address()).collect();
    assert_eq!(addresses, vec![11, 44]);
}

#[test]
fn free_pool_is_a_bounded_queue() {
    let mut pool = FreePool::new(2);
    assert!(pool.is_empty());
    assert_eq!(pool.try_pop(), None);
    assert!(pool.try_push(5));
    assert!(pool.try_push(6));
    assert!(pool.is_full());
    assert!(!pool.try_push(7));
    assert_eq!(pool.len(), 2);
    assert_eq!(pool.limit(), 2);
    assert_eq!(pool.try_pop(), Some(5));
    assert!(pool.try_push(7));
    assert_eq!(pool.addresses(), vec![6, 7]);
    let seeded = FreePool::seeded(2048, 256, 4);
    assert_eq!(seeded.addresses(), vec![256, 2560, 4864, 7168]);
    assert!(seeded.is_full());
    let empty = FreePool::seeded(2048, 256, 0);
    assert!(empty.is_empty() && empty.is_full());
}

#[test]
fn region_errors() {
    assert_eq!(
        Mmap::new(u32::MAX, 1, 1, false).err(),
        Some(MmapError::InvalidFrameSize(u32::MAX, 1))
    );
    assert_eq!(
        Mmap::new(0x8000_0000, 0x7fff_ffff, 2, false).err(),
        Some(MmapError::InvalidLength(u32::MAX, 2))
    );
    assert_eq!(Mmap::new(0x10000, 0, 0x10000, true).err(), Some(MmapError::InvalidLength(0x10000, 0x10000)));
    assert_eq!(Mmap::new(0, 0, 8, false).err(), Some(MmapError::Initialize(EINVAL)));
    assert_eq!(Mmap::new(64, 0, 0, false).err(), Some(MmapError::Initialize(22)));
    let mmap = Mmap::new(1000, 24, 16, true).unwrap();
    assert_eq!(mmap.length(), 1024 * 16);
    assert!(mmap.uses_hugetlb());
    assert!(mmap.bytes(0, 1024 * 16).iter().all(|b| *b == 0));
    assert_eq!(
        builder(u32::MAX, 1, 4).build("lo", 0).err(),
        Some(SocketError::Mmap(MmapError::InvalidFrameSize(u32::MAX, 1)))
    );
    assert_eq!(
        builder(0, 0, 6).build("a\0", 0).err(),
        Some(SocketError::Mmap(MmapError::Initialize(EINVAL)))
    );
    assert_eq!(
        builder(1, 0, 6).build("a\0", 0).err(),
        Some(SocketError::Ring(RingError::IsNotPowerOfTwo(6)))
    );
    assert_eq!(
        builder(1, 0, 8).build("\0", 7).err(),
        Some(SocketError::InvalidInterfaceName(0))
    );
}

#[test]
fn umem_ring_sizes() {
    let mmap = Mmap::new(64, 0, 4, false).unwrap();
    assert_eq!(
        Umem::initialize(mmap, 3, 5, 64, 0).err(),
        Some(UmemError::RingSize(RingError::IsNotPowerOfTwo(3)))
    );
    let mmap = Mmap::new(64, 0, 4, false).unwrap();
    assert_eq!(
        Umem::initialize(mmap, 4, 5, 64, 0).err(),
        Some(UmemError::RingSize(RingError::IsNotPowerOfTwo(5)))
    );
    let mmap = Mmap::new(64, 0, 4, false).unwrap();
    let (umem, fill, completion) = Umem::initialize(mmap, 4, 8, 64, 0).unwrap();
    assert_eq!(fill.size(), 8);
    assert_eq!(completion.size(), 4);
    assert_eq!(umem.mmap().length(), 256);
}

#[test]
fn a_fresh_socket() {
    let socket_builder = SocketBuilder::default();
    assert_eq!(socket_builder.frame_size, 4096);
    assert_eq!(socket_builder.frame_headroom_size, 0);
    assert_eq!(socket_builder.ring_size, 2048);
    assert!(!socket_builder.use_hugetlb);
    assert!(!socket_builder.force_zero_copy);
    let (tx, rx, socket) = Socket::init(512, 64, 16, true, true, "enp5s0", 3).unwrap();
    assert_eq!(tx.ring_size(), 16);
    assert_eq!(rx.ring_size(), 16);
    assert_eq!(socket.interface_name(), "enp5s0");
    assert_eq!(socket.queue_id(), 3);
    assert!(socket.force_zero_copy());
    assert_eq!(socket.umem().mmap().length(), 576 * 16);
    assert!(socket.umem().mmap().uses_hugetlb());
    assert_eq!(
        socket.free_pool().addresses(),
        (0..16u64).map(|k| k * 576 + 64).collect::<Vec<u64>>()
    );
    assert_eq!(socket.free_pool().limit(), 16);
    assert_eq!(tx.tx_ring().len() + tx.completion_ring().len(), 0);
    assert_eq!(rx.fill_ring().len() + rx.rx_ring().len(), 0);
}

#[test]
fn nul_bytes_are_found() {
    assert_eq!(find_nul(b"eth0"), None);
    assert_eq!(find_nul(b""), None);
    assert_eq!(find_nul(b"eth\0bad\0"), Some(3));
    assert_eq!(find_nul(b"\0"), Some(0));
}

#[test]
fn every_frame_is_in_one_state() {
    let mut harness = Loopback::new(builder(128, 32, 8), "lo", 0).unwrap();
    let all = seeds(128, 32, 8);
    let states = |harness: &Loopback| -> Vec<Option<FrameState>> {
        all.iter().map(|address| harness.frame_state(*address)).collect()
    };
    assert_eq!(states(&harness), vec![Some(FrameState::Free); 8]);
    assert_eq!(harness.frame_state(0), None);
    assert_eq!(harness.frame_state(33), None);
    assert_eq!(harness.frame_state(8 * 160 + 32), None);
    assert_eq!(harness.allocate(10), Some(Descriptor::new(32, 10)));
    assert_eq!(harness.allocate(10), Some(Descriptor::new(192, 10)));
    assert_eq!(harness.allocate(10), Some(Descriptor::new(352, 10)));
    assert_eq!(harness.write(3), 3);
    assert!(harness.kernel_take_tx());
    assert!(harness.kernel_take_tx());
    assert!(harness.kernel_complete());
    assert_eq!(harness.allocate(10), Some(Descriptor::new(512, 10)));
    let mut out = [Descriptor::default(); 1];
    assert_eq!(harness.read(&mut out), 0);
    assert!(harness.kernel_take_fill());
    assert!(harness.kernel_take_fill());
    assert!(harness.kernel_deliver(20));
    assert_eq!(
        states(&harness),
        vec![
            Some(FrameState::Completed),
            Some(FrameState::Submitted),
            Some(FrameState::Submitted),
            Some(FrameState::Received),
            Some(FrameState::Received),
            Some(FrameState::Filled),
            Some(FrameState::Filled),
            Some(FrameState::Filled),
        ]
    );
    assert_eq!(harness.write(0), 0);
    assert_eq!(harness.frame_state(32), Some(FrameState::Free));
    assert_eq!(harness.shared().xdp_flags(), 2);
}
