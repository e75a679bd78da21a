use mangonel::descriptor::Descriptor;
use mangonel::loopback::Loopback;
use mangonel::ring::RingError;
use mangonel::socket::{SocketBuilder, SocketError};
use mangonel::system::{check_system_info, SystemInfoError};

fn builder(ring_size: u32) -> SocketBuilder {
    SocketBuilder {
        frame_size: 2048,
        frame_headroom_size: 256,
        ring_size,
        use_hugetlb: false,
        force_zero_copy: false,
    }
}

#[test]
fn loopback_single() {
    let (mut tx, _rx, mut socket) = builder(4).build("lo", 0).unwrap();
    assert_eq!(socket.free_pool().addresses(), vec![256, 2560, 4864, 7168]);
    assert_eq!(socket.allocate(), Some(256));
    assert_eq!(tx.write(&mut socket, &[Descriptor::new(256, 64)]), 1);
    assert_eq!(tx.tx_ring().entries(), vec![Descriptor::new(256, 64)]);
    let sent = tx.kernel_take_tx().unwrap();
    assert_eq!(sent, Descriptor::new(256, 64));
    assert!(tx.kernel_complete(sent.address()));
    assert_eq!(socket.free_pool().addresses(), vec![2560, 4864, 7168]);
    assert_eq!(tx.write(&mut socket, &[]), 0);
    assert_eq!(socket.free_pool().addresses(), vec![2560, 4864, 7168, 256]);
    let mut pool = socket.free_pool().addresses();
    pool.sort();
    assert_eq!(pool, vec![256, 2560, 4864, 7168]);
    assert!(tx.completion_ring().entries().is_empty());
}

#[test]
fn loopback_single_through_the_harness() {
    let mut harness = Loopback::new(builder(4), "lo", 0).unwrap();
    assert_eq!(harness.allocate(64), Some(Descriptor::new(256, 64)));
    assert_eq!(harness.write(1), 1);
    assert!(harness.packets().is_empty());
    assert!(harness.kernel_take_tx());
    assert_eq!(harness.transmitting_packets(), vec![Descriptor::new(256, 64)]);
    assert!(harness.kernel_complete());
    assert_eq!(harness.write(0), 0);
    assert_eq!(harness.shared().free_pool().addresses(), vec![2560, 4864, 7168, 256]);
}

#[test]
fn exhaust_fill() {
    let (_tx, mut rx, mut socket) = builder(4).build("lo", 0).unwrap();
    let mut out = [Descriptor::default(); 4];
    assert_eq!(rx.read(&mut socket, &mut out), 0);
    assert_eq!(rx.fill_ring().len(), 4);
    let filled: Vec<u64> = rx.fill_ring().entries().iter().map(|d| d.address()).collect();
    assert_eq!(filled, vec![256, 2560, 4864, 7168]);
    assert!(socket.free_pool().is_empty());
    for _ in 0..3 {
        assert_eq!(rx.read(&mut socket, &mut out), 0);
        assert_eq!(rx.fill_ring().len(), 4);
        assert!(socket.free_pool().is_empty());
    }
    assert_eq!(out, [Descriptor::default(); 4]);
}

#[test]
fn burst() {
    let mut harness = Loopback::new(builder(8), "lo", 0).unwrap();
    let mut out = [Descriptor::default(); 3];
    assert_eq!(harness.read(&mut out), 0);
    assert_eq!(harness.rx_socket().fill_ring().len(), 8);
    for _ in 0..5 {
        assert!(harness.kernel_take_fill());
        assert!(harness.kernel_deliver(100));
    }
    assert_eq!(harness.rx_socket().rx_ring().len(), 5);
    assert_eq!(harness.read(&mut out), 3);
    assert_eq!(out[0], Descriptor::new(256, 100));
    assert_eq!(out[1], Descriptor::new(2560, 100));
    assert_eq!(out[2], Descriptor::new(4864, 100));
    assert_eq!(harness.read(&mut out), 2);
    assert_eq!(out[0], Descriptor::new(7168, 100));
    assert_eq!(out[1], Descriptor::new(9472, 100));
    assert_eq!(out[2], Descriptor::new(4864, 100));
    let received: Vec<u64> = harness.packets().iter().map(|d| d.address()).collect();
    assert_eq!(received, vec![256, 2560, 4864, 7168, 9472]);
    assert_eq!(harness.rx_socket().fill_ring().len(), 3);
    assert_eq!(harness.read(&mut out), 0);
}

#[test]
fn bad_ring_size() {
    let r = builder(6).build("lo", 0);
    assert_eq!(r.err(), Some(SocketError::Ring(RingError::IsNotPowerOfTwo(6))));
    let r = Loopback::new(builder(6), "lo", 0);
    assert_eq!(r.err(), Some(SocketError::Ring(RingError::IsNotPowerOfTwo(6))));
}

#[test]
fn bad_interface_name() {
    let r = builder(4).build("eth\0bad", 0);
    assert_eq!(r.err(), Some(SocketError::InvalidInterfaceName(3)));
}

#[test]
fn kernel_version() {
    assert_eq!(
        check_system_info(true, Some("4.19.0".as_bytes())),
        Err(SystemInfoError::UnsupportedKernelVersion { major: 4, minor: 19 })
    );
}
