use std::collections::VecDeque;

use mangonel::client::{
    after_send, login_outcome, send_code_outcome, tick, verify_outcome, AppState, AuthStatus,
    ErrorKind, IsRateLimited, LoginState, VerifyCodeResponse,
};
use mangonel::descriptor::Descriptor;
use mangonel::interface::InterfaceState;
use mangonel::limiter::{allow_request, code_is_forgotten, six_digits, verify_code, Verdict};
use mangonel::mmap::Mmap;
use mangonel::runtime::{Config, Runtime, RuntimeError};
use mangonel::socket::SocketBuilder;
use mangonel::umem::Umem;

fn builder(ring_size: u32) -> SocketBuilder {
    SocketBuilder {
        frame_size: 100,
        frame_headroom_size: 28,
        ring_size,
        use_hugetlb: false,
        force_zero_copy: false,
    }
}

#[test]
fn frames_part_the_region() {
    let mmap = Mmap::new(100, 28, 4, false).unwrap();
    let (mut umem, _fill, _completion) = Umem::initialize(mmap, 4, 4, 100, 28).unwrap();
    for index in 0..4u32 {
        let frame = umem.frame_at(index).unwrap();
        assert_eq!(frame.address, index as u64 * 128 + 28);
        assert_eq!(frame.data.len(), 128);
        for byte in frame.data.iter_mut() {
            *byte = index as u8 + 1;
        }
    }
    assert!(umem.frame_at(4).is_none());
    assert!(umem.frame_at(u32::MAX).is_none());
    let whole = umem.mmap().bytes(0, 512);
    for (at, byte) in whole.iter().enumerate() {
        assert_eq!(*byte as usize, at / 128 + 1);
    }
    let mmap = Mmap::new(100, 28, 4, false).unwrap();
    let (mut odd, _fill, _completion) = Umem::initialize(mmap, 4, 4, 200, 0).unwrap();
    assert!(odd.frame_at(1).is_some());
    assert!(odd.frame_at(2).is_none());
}

#[test]
fn data_of_a_descriptor_of_a_socket() {
    let (_tx, _rx, mut socket) = builder(2).build("lo", 0).unwrap();
    let mut packet = Descriptor::new(156, 4);
    assert!(socket.umem().contains(&packet));
    {
        let data = packet.get_data(&mut socket);
        assert_eq!(data.len(), 32);
        data[28] = 9;
        data[31] = 8;
    }
    let whole = socket.umem().mmap().bytes(0, 256);
    assert_eq!(whole[156], 9);
    assert_eq!(whole[159], 8);
    assert_eq!(whole.iter().filter(|byte| **byte != 0).count(), 2);
    assert_eq!(socket.free_pool().addresses(), vec![28, 156]);
}

#[test]
fn bursts_through_queues() {
    let (mut tx, mut rx, mut socket) = builder(4).build("lo", 0).unwrap();
    let mut out = [Descriptor::default(); 1];
    assert_eq!(rx.read(&mut socket, &mut out), 0);
    for length in 1..=4u32 {
        let address = rx.kernel_take_fill().unwrap();
        assert!(rx.kernel_deliver(Descriptor::new(address, length)));
    }
    let mut buffer: VecDeque<Descriptor> = VecDeque::new();
    buffer.push_back(Descriptor::new(1, 1));
    assert_eq!(rx.rx_burst(&mut buffer, 1), 0);
    assert_eq!(rx.rx_burst(&mut buffer, 0), 0);
    assert_eq!(rx.rx_burst(&mut buffer, 3), 2);
    assert_eq!(
        buffer,
        VecDeque::from(vec![
            Descriptor::new(1, 1),
            Descriptor::new(28, 1),
            Descriptor::new(156, 2)
        ])
    );
    assert_eq!(rx.rx_burst(&mut buffer, 100), 2);
    assert_eq!(buffer.len(), 5);
    assert_eq!(rx.rx_burst(&mut buffer, 100), 0);
    assert_eq!(rx.rx_ring().len(), 0);

    buffer.pop_front();
    buffer.push_back(Descriptor::new(5, 5));
    assert_eq!(tx.tx_burst(&mut buffer), 4);
    assert_eq!(buffer, VecDeque::from(vec![Descriptor::new(5, 5)]));
    assert_eq!(
        tx.tx_ring().entries(),
        vec![
            Descriptor::new(28, 1),
            Descriptor::new(156, 2),
            Descriptor::new(284, 3),
            Descriptor::new(412, 4)
        ]
    );
    assert_eq!(tx.tx_burst(&mut buffer), 0);
    assert_eq!(tx.kernel_take_tx(), Some(Descriptor::new(28, 1)));
    assert_eq!(tx.tx_burst(&mut buffer), 1);
    assert!(buffer.is_empty());
    assert_eq!(tx.tx_burst(&mut buffer), 0);
}

#[test]
fn the_runtime_starts_on_an_interface_that_is_up() {
    let interfaces = vec![
        InterfaceState { name: "lo".to_string(), is_up: true },
        InterfaceState { name: "eth0".to_string(), is_up: false },
    ];
    let config = Config { nic: "lo".to_string(), worker_count: 2 };
    let (at, flag) = Runtime.run(&interfaces, &config.nic, config.worker_count).ok().unwrap();
    assert_eq!(at, 0);
    assert!(flag.is_running());
    match Runtime::default().run(&interfaces, "eth0", 1) {
        Err(error @ RuntimeError::InterfaceError(_)) => {
            assert_eq!(error.message(), "Network interface error: Network interface 'eth0' is down")
        },
        _ => panic!("eth0 is down"),
    }
    match Runtime.run(&interfaces, "eth1", 1) {
        Err(error) => assert_eq!(
            error.message(),
            "Network interface error: Network interface 'eth1' not found"
        ),
        Ok(_) => panic!("there is no eth1"),
    }
}

#[test]
fn requests_are_limited_within_a_window() {
    let mut log: Vec<u64> = Vec::new();
    for now in [1000u64, 1010, 1020, 1030, 1040] {
        assert_eq!(allow_request(&mut log, now), None);
    }
    assert_eq!(log, vec![1000, 1010, 1020, 1030, 1040]);
    assert_eq!(allow_request(&mut log, 1050), Some(250));
    assert_eq!(allow_request(&mut log, 1300), Some(0));
    assert_eq!(log, vec![1000, 1010, 1020, 1030, 1040]);
    assert_eq!(allow_request(&mut log, 1301), None);
    assert_eq!(log, vec![1010, 1020, 1030, 1040, 1301]);
    assert_eq!(allow_request(&mut log, 1302), Some(8));
    assert_eq!(allow_request(&mut log, 5000), None);
    assert_eq!(log, vec![5000]);
    let mut ahead = vec![50u64, 60, 70, 80, 90];
    assert_eq!(allow_request(&mut ahead, 10), Some(300));
}

#[test]
fn codes_are_mailed_with_six_digits() {
    assert_eq!(six_digits(0), "000000");
    assert_eq!(six_digits(7), "000007");
    assert_eq!(six_digits(12345), "012345");
    assert_eq!(six_digits(999999), "999999");
    assert_eq!(six_digits(1000000), "1000000");
    assert_eq!(six_digits(u32::MAX), "4294967295");
    for code in [1u32, 10, 100, 1000, 10000, 100000, 424242] {
        assert_eq!(six_digits(code), format!("{:06}", code));
    }
}

#[test]
fn offered_codes_are_checked() {
    let kept = "012345".to_string();
    assert_eq!(verify_code(Some(&kept), &"012345".to_string()), Verdict::Accepted);
    assert_eq!(verify_code(Some(&kept), &"12345".to_string()), Verdict::Rejected);
    assert_eq!(verify_code(None, &"012345".to_string()), Verdict::Expired);
    assert!(!code_is_forgotten(100, 279));
    assert!(code_is_forgotten(100, 280));
    assert!(!code_is_forgotten(100, 99));
}

#[test]
fn the_client_goes_from_page_to_page() {
    let page = AppState::Login.advance("a@b.c".to_string());
    assert_eq!(page, AppState::TwoFactor("a@b.c".to_string()));
    let page = page.advance("ignored".to_string());
    assert_eq!(page, AppState::NodeLink);
    assert_eq!(page.advance("ignored".to_string()), AppState::NodeLink);
}

#[test]
fn the_client_reads_the_answers() {
    assert_eq!(login_outcome(Some(200), true), (LoginState::Idle, true));
    assert_eq!(login_outcome(Some(200), false), (LoginState::Failure, false));
    assert_eq!(login_outcome(Some(429), true), (LoginState::Failure, false));
    assert_eq!(login_outcome(Some(404), true), (LoginState::Failure, false));
    assert_eq!(login_outcome(None, true), (LoginState::Failure, false));

    assert_eq!(send_code_outcome(200, Some(5)), Ok(IsRateLimited::NotRateLimited));
    assert_eq!(send_code_outcome(429, Some(5)), Ok(IsRateLimited::RateLimited(5)));
    assert_eq!(send_code_outcome(429, None), Ok(IsRateLimited::RateLimited(600)));
    assert_eq!(send_code_outcome(429, Some(65536 + 9)), Ok(IsRateLimited::RateLimited(9)));
    assert_eq!(send_code_outcome(500, Some(5)), Err(500));
    assert_eq!(after_send(IsRateLimited::NotRateLimited), (AuthStatus::Sent, 90));
    assert_eq!(
        after_send(IsRateLimited::RateLimited(17)),
        (AuthStatus::Error("Rate limited. Please wait below".to_string()), 17)
    );
    assert_eq!(tick(90, true), (89, false));
    assert_eq!(tick(1, true), (0, true));
    assert_eq!(tick(1, false), (0, false));
    assert_eq!(tick(0, true), (0, true));

    let error = |text: &str| (AuthStatus::Error(text.to_string()), None);
    assert_eq!(
        verify_outcome(200, Some(VerifyCodeResponse::Granted { token: "tok".to_string() })),
        (AuthStatus::Verified, Some("tok".to_string()))
    );
    for (kind, text) in [
        (ErrorKind::TooManyRequests, "Error: Too many requests. Please try again later."),
        (ErrorKind::NotFound, "Error: Email not registered."),
        (ErrorKind::InvalidCode, "Error: Invalid verification code."),
        (ErrorKind::Internal, "Error: Internal server error."),
    ] {
        assert_eq!(
            verify_outcome(200, Some(VerifyCodeResponse::Error { kind, message: None })),
            error(text)
        );
    }
    assert!(matches!(verify_outcome(200, None), (AuthStatus::Error(_), None)));
    assert_eq!(verify_outcome(429, None), error("Too many get code request"));
    assert_eq!(verify_outcome(404, None), error("Email not registered"));
    assert_eq!(verify_outcome(401, None), error("Invalid verification code"));
    assert_eq!(verify_outcome(500, None), error("Internal Server Error"));
    assert_eq!(
        verify_outcome(418, Some(VerifyCodeResponse::Granted { token: "tok".to_string() })),
        error("Internal Server Error")
    );
}
