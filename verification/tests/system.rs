use mangonel::interface::{get_network_interface, InterfaceState, NetworkInterfaceError};
use mangonel::mmap::MmapError;
use mangonel::nic::{parse_queue_count, Error, NetworkInterface};
use mangonel::ring::RingError;
use mangonel::runtime::{Flag, RuntimeError};
use mangonel::socket::SocketError;
use mangonel::system::{
    add_library_path, check_system_info, multiarch_path, parse_kernel_release,
    parse_ld_so_line, LdSoLine, SystemInfoError,
};
use mangonel::text::{decimal_text, find_byte, has_word, parse_number, trim, ParseFailure};
use mangonel::thread::{available_cores, check_worker_core, get_core_id, ThreadError, WorkerError};
use mangonel::umem::UmemError;

const ETHTOOL: &str = "Channel parameters for eth0:\n\
Pre-set maximums:\n\
RX:\t\tn/a\n\
TX:\t\tn/a\n\
Other:\t\t1\n\
Combined:\t63\n\
Current hardware settings:\n\
RX:\t\tn/a\n\
TX:\t\tn/a\n\
Other:\t\t1\n\
Combined:\t8\n";

fn sample_interface() -> NetworkInterface {
    NetworkInterface::get_default(
        "eth0".to_string(),
        2,
        Some([0, 1, 2, 3, 4, 5]),
        vec![[192, 168, 0, 7]],
        vec![],
    )
    .unwrap()
}

#[test]
fn test_get_default() {
    let iface = NetworkInterface::get_default(
        "eth0".to_string(),
        2,
        Some([0, 1, 2, 3, 4, 5]),
        vec![[192, 168, 0, 7]],
        vec![[0; 16]],
    );
    match iface {
        Ok(iface) => {
            println!("Default interface: {:?}", iface);
            assert!(!iface.name().is_empty());
            assert_eq!(iface.index(), 2);
            assert_eq!(iface.mac(), [0, 1, 2, 3, 4, 5]);
            assert_eq!(iface.ipv4(), &vec![[192, 168, 0, 7]]);
            assert_eq!(iface.ipv6(), &vec![[0; 16]]);
        },
        Err(e) => {
            println!("Could not get default interface: {}", e.message());
            panic!("an interface with a hardware address is one");
        },
    }
    match NetworkInterface::get_default("eth1".to_string(), 3, None, vec![], vec![]) {
        Err(Error::DefaultInterface(reason)) => assert_eq!(reason, "No MAC address"),
        other => panic!("{:?}", other),
    }
}

#[test]
fn test_get_queue_count() {
    let iface = sample_interface();
    match iface.get_queue_count(true, ETHTOOL, "") {
        Ok(count) => {
            println!("Queue count: {}", count);
            assert!(count > 0);
            assert_eq!(count, 8);
        },
        Err(e) => {
            println!("Could not get queue count: {}", e.message());
            panic!("the output tells the count");
        },
    }
    match iface.get_queue_count(false, ETHTOOL, "netlink error: Operation not supported\n") {
        Err(Error::Ethtool(reason)) => {
            assert_eq!(reason, "netlink error: Operation not supported\n")
        },
        other => panic!("{:?}", other),
    }
    assert!(iface.set_queue_count(true, "ignored").is_ok());
    match iface.set_queue_count(false, "Cannot set device channel parameters") {
        Err(Error::Ethtool(reason)) => assert_eq!(reason, "Cannot set device channel parameters"),
        other => panic!("{:?}", other),
    }
}

fn count(output: &str) -> Result<u32, String> {
    parse_queue_count(output.as_bytes()).map_err(|e| e.message())
}

#[test]
fn queue_counts_are_read_off_the_current_settings() {
    assert_eq!(count(ETHTOOL), Ok(8));
    assert_eq!(count("Current hardware settings:\nCombined: +12 : 7\n"), Ok(12));
    assert_eq!(count("Current hardware settings:\r\nCombined:\t4\r\n"), Ok(4));
    assert_eq!(count("Current hardware settings:\nCombined:\u{a0}\u{2003}5\u{3000}"), Ok(5));
    assert_eq!(count("x Current hardware settings: y\n\n  total Combined: 3"), Ok(3));
    assert_eq!(
        count("Current hardware settings:\nRX: 1 Combined: 9\n"),
        Err("Failed to parse value: invalid digit found in string".to_string())
    );
    assert_eq!(count("Current hardware settings:\nRX: 1 : Combined: 9\n"), Ok(1));
    assert_eq!(
        count("Combined: 63\n"),
        Err("Ethtool error: Could not find Combined queue count in ethtool output".to_string())
    );
    assert_eq!(
        count(""),
        Err("Ethtool error: Could not find Combined queue count in ethtool output".to_string())
    );
    assert_eq!(
        count("Current hardware settings: Combined: 3\n"),
        Err("Ethtool error: Could not find Combined queue count in ethtool output".to_string())
    );
    assert_eq!(
        count("Current hardware settings:\nCombined: n/a\n"),
        Err("Failed to parse value: invalid digit found in string".to_string())
    );
    assert_eq!(
        count("Current hardware settings:\nCombined:\nCombined: 2\n"),
        Err("Failed to parse value: cannot parse integer from empty string".to_string())
    );
    assert_eq!(
        count("Current hardware settings:\nCombined: 4294967296\n"),
        Err("Failed to parse value: number too large to fit in target type".to_string())
    );
    assert_eq!(count("Current hardware settings:\nCombined: 4294967295"), Ok(u32::MAX));
}

#[test]
fn numbers_are_parsed_as_the_standard_library_parses_them() {
    for text in [
        "", "0", "7", "+7", "-7", "+", "-", "007", "4294967295", "4294967296", "42949672950",
        "99999999999999999999999", "12a", "a12", "1 2", " 12", "12 ", "+-1", "++1", "1+",
        "00000000000000000000000000000001", "4294967295x", "42949672960x", "x4294967296",
    ] {
        let expected = text.parse::<u32>().map_err(|e| e.to_string());
        let bytes = text.as_bytes();
        let found = parse_number(bytes, 0, bytes.len()).map_err(|e| e.message());
        assert_eq!(found, expected, "{:?}", text);
    }
    assert_eq!(parse_number(b"ab123cd", 2, 5), Ok(123));
    assert_eq!(parse_number(b"ab123cd", 2, 2), Err(ParseFailure::Empty));
    assert_eq!(parse_number(b"ab123cd", 1, 5), Err(ParseFailure::InvalidDigit));
    assert_eq!(parse_number(b"99999999999", 0, 11), Err(ParseFailure::Overflow));
}

#[test]
fn text_is_trimmed_as_the_standard_library_trims_it() {
    for text in [
        "", " ", "a", " a ", "\t\n\x0b\x0c\r a b \r\n", "\u{85}x\u{a0}", "\u{1680}x\u{2000}",
        "\u{200a}x\u{2028}", "\u{2029}x\u{202f}", "\u{205f}x\u{3000}", "\u{200b}x\u{200b}",
        "\u{3000}\u{3000}", "é x é", "\u{2001} \u{2002}", "x\u{e000}", "\u{1681}x",
    ] {
        let bytes = text.as_bytes();
        let (from, to) = trim(bytes, 0, bytes.len());
        assert_eq!(&bytes[from..to], text.trim().as_bytes(), "{:?}", text);
    }
    assert_eq!(trim(b"  ab  ", 1, 5), (2, 4));
    assert_eq!(trim(b"    ", 1, 3), (3, 3));
}

#[test]
fn words_and_bytes_are_found() {
    assert_eq!(find_byte(b"a:b:c", b':', 0, 5), 1);
    assert_eq!(find_byte(b"a:b:c", b':', 2, 5), 3);
    assert_eq!(find_byte(b"a:b:c", b':', 4, 5), 5);
    assert_eq!(find_byte(b"a:b:c", b':', 0, 0), 0);
    assert!(has_word(b"xxCombined:yy", b"Combined:", 0, 13));
    assert!(has_word(b"xxCombined:yy", b"Combined:", 2, 11));
    assert!(!has_word(b"xxCombined:yy", b"Combined:", 3, 13));
    assert!(!has_word(b"xxCombined:yy", b"Combined:", 0, 10));
    assert!(has_word(b"abc", b"", 1, 1));
    assert!(!has_word(b"abc", b"abcd", 0, 3));
}

#[test]
fn numbers_are_written_out() {
    for n in [0u64, 1, 9, 10, 11, 99, 100, 101, 4096, 65535, 1_000_000, u32::MAX as u64, u64::MAX] {
        assert_eq!(decimal_text(n), n.to_string());
    }
}

#[test]
fn system_requirements() {
    assert_eq!(check_system_info(false, Some(b"6.1.0")), Err(SystemInfoError::UnsupportedOs));
    assert_eq!(check_system_info(false, None), Err(SystemInfoError::UnsupportedOs));
    assert_eq!(check_system_info(true, None), Err(SystemInfoError::KernelVersionNotFound));
    assert_eq!(
        check_system_info(true, Some(&[b'5', b'.', b'1', b'0', b'.', 0xff])),
        Err(SystemInfoError::ParseKernelVersion)
    );
    assert_eq!(check_system_info(true, Some("5.10.é".as_bytes())), Ok(()));
    for bad in ["", "5", "5.", ".10", "five.ten", "5.10-rc1", "5,10", " 5.10", "5.1 0", "4294967296.0"] {
        assert_eq!(
            check_system_info(true, Some(bad.as_bytes())),
            Err(SystemInfoError::ParseKernelVersion),
            "{:?}",
            bad
        );
    }
    for (old, major, minor) in [("5.9.16", 5, 9), ("4.19.0", 4, 19), ("0.0", 0, 0), ("3.200.1", 3, 200), ("5.09", 5, 9)] {
        assert_eq!(
            check_system_info(true, Some(old.as_bytes())),
            Err(SystemInfoError::UnsupportedKernelVersion { major, minor }),
        );
    }
    for good in ["5.10", "5.10.0", "5.15.0-91-generic", "6.0", "6.8.0-45", "+5.+10", "10.0.0", "5.4294967295"] {
        assert_eq!(check_system_info(true, Some(good.as_bytes())), Ok(()), "{:?}", good);
    }
    assert_eq!(parse_kernel_release(b"6.18.44-fc-v165"), Some((6, 18)));
    assert_eq!(parse_kernel_release(b"6"), None);
}

#[test]
fn library_search_configuration() {
    let asked = |line: &str| match parse_ld_so_line(line.as_bytes()) {
        LdSoLine::Skip => None,
        LdSoLine::Include(from, to) => Some((true, line[from..to].to_string())),
        LdSoLine::Path(from, to) => Some((false, line[from..to].to_string())),
    };
    assert_eq!(asked(""), None);
    assert_eq!(asked("   \t"), None);
    assert_eq!(asked("# comment"), None);
    assert_eq!(asked("  #include x"), None);
    assert_eq!(asked("/usr/lib"), Some((false, "/usr/lib".to_string())));
    assert_eq!(asked("  /usr/local/lib \r"), Some((false, "/usr/local/lib".to_string())));
    assert_eq!(
        asked("include /etc/ld.so.conf.d/*.conf"),
        Some((true, "/etc/ld.so.conf.d/*.conf".to_string()))
    );
    assert_eq!(asked("\tinclude\t conf.d/* "), Some((true, "conf.d/*".to_string())));
    assert_eq!(asked("include"), Some((true, "".to_string())));
    assert_eq!(asked("includes/x"), Some((true, "s/x".to_string())));
    assert_eq!(asked("includ"), Some((false, "includ".to_string())));
    assert_eq!(asked("/include"), Some((false, "/include".to_string())));

    assert_eq!(multiarch_path("x86_64"), "/usr/lib/x86_64-linux-gnu");
    assert_eq!(multiarch_path(""), "/usr/lib/-linux-gnu");
    let mut paths = vec!["/lib".to_string()];
    assert!(add_library_path(&mut paths, "/usr/lib".to_string(), true));
    assert!(!add_library_path(&mut paths, "/lib".to_string(), true));
    assert!(!add_library_path(&mut paths, "/lib64".to_string(), false));
    assert_eq!(paths, vec!["/lib".to_string(), "/usr/lib".to_string()]);
}

#[test]
fn cores_are_looked_up() {
    let ids = vec![0usize, 2, 4, 2];
    assert_eq!(available_cores(Some(&ids)), Ok(4));
    assert_eq!(available_cores(None), Err(ThreadError::UnableToGetCoreIds));
    assert_eq!(get_core_id(Some(&ids), 2), Ok(1));
    assert_eq!(get_core_id(Some(&ids), 4), Ok(2));
    assert_eq!(get_core_id(Some(&ids), 1), Err(ThreadError::InvalidCoreId(1)));
    assert_eq!(get_core_id(Some(&ids), usize::MAX), Err(ThreadError::InvalidCoreId(usize::MAX)));
    assert_eq!(get_core_id(None, 0), Err(ThreadError::UnableToGetCoreIds));
    assert_eq!(check_worker_core(Some(&ids), 0), Ok(()));
    assert_eq!(check_worker_core(Some(&ids), usize::MAX), Err(WorkerError::PinThreadToCore(usize::MAX)));
    assert_eq!(check_worker_core(None, 0), Err(WorkerError::UnableToGetCoreIds));
}

#[test]
fn interfaces_are_chosen_by_name() {
    let interfaces = vec![
        InterfaceState { name: "lo".to_string(), is_up: true },
        InterfaceState { name: "eth0".to_string(), is_up: false },
        InterfaceState { name: "eth1".to_string(), is_up: true },
        InterfaceState { name: "eth0".to_string(), is_up: true },
    ];
    assert_eq!(get_network_interface(&interfaces, "eth1").ok(), Some(2));
    assert_eq!(get_network_interface(&interfaces, "lo").ok(), Some(0));
    match get_network_interface(&interfaces, "eth0") {
        Err(NetworkInterfaceError::InterfaceDown(name)) => assert_eq!(name, "eth0"),
        other => panic!("{:?}", other),
    }
    match get_network_interface(&interfaces, "wlan0") {
        Err(NetworkInterfaceError::NotFound(name)) => assert_eq!(name, "wlan0"),
        other => panic!("{:?}", other),
    }
}

#[test]
fn the_flag_goes_down_for_every_holder() {
    let flag = Flag::default();
    let copy = flag.clone();
    assert!(flag.is_running());
    assert!(copy.is_running());
    copy.stop();
    assert!(!flag.is_running());
    assert!(!copy.is_running());
    flag.stop();
    assert!(!flag.is_running());
}

#[test]
fn messages() {
    assert_eq!(
        RingError::IsNotPowerOfTwo(6).message(),
        "The ring size '6' is not the power of two."
    );
    assert_eq!(RingError::Initialize.message(), "Failed to initialize the ring buffer.");
    assert_eq!(
        MmapError::InvalidFrameSize(4294967295, 1).message(),
        "frame size (4294967295) + headroom size (1) exceeds u32::MAX."
    );
    assert_eq!(
        MmapError::InvalidLength(65536, 65536).message(),
        "frame size (65536) * descriptor count (65536) exceeds u32::MAX."
    );
    assert_eq!(MmapError::Initialize(12).message(), "Failed to initialize `Mmap`: os error 12");
    assert_eq!(MmapError::Initialize(-1).message(), "Failed to initialize `Mmap`: os error -1");
    assert_eq!(
        MmapError::Initialize(i32::MIN).message(),
        "Failed to initialize `Mmap`: os error -2147483648"
    );
    assert_eq!(MmapError::MmapIsNull.message(), "Mmap address is null");
    assert_eq!(MmapError::Free(9).message(), "");
    assert_eq!(
        UmemError::RingSize(RingError::IsNotPowerOfTwo(3)).message(),
        "The ring size '3' is not the power of two."
    );
    assert_eq!(UmemError::Initialize(22).message(), "Failed to initialize UMEM: os error 22");
    assert_eq!(UmemError::CleanUp(16).message(), "Failed to clean up UMEM: os error 16");
    assert_eq!(
        SocketError::Mmap(MmapError::MmapIsNull).message(),
        MmapError::MmapIsNull.message()
    );
    assert_eq!(
        SocketError::Ring(RingError::Initialize).message(),
        RingError::Initialize.message()
    );
    assert_eq!(
        SocketError::Umem(UmemError::Initialize(1)).message(),
        UmemError::Initialize(1).message()
    );
    assert_eq!(
        SocketError::InvalidInterfaceName(3).message(),
        "Interface name contains null character(s): nul byte found in provided data at position: 3"
    );
    assert_eq!(
        SocketError::Initialize(19).message(),
        "Failed to initialize XDP socket: os error 19"
    );
    assert_eq!(SocketError::SocketIsNull.message(), "Socket returned null. This is a bug.");
    assert_eq!(
        SystemInfoError::UnsupportedOs.message(),
        "Unsupported OS. Currently supports Linux only"
    );
    assert_eq!(SystemInfoError::KernelVersionNotFound.message(), "Kernel version not found");
    assert_eq!(SystemInfoError::ParseKernelVersion.message(), "Failed to parse kernel version");
    assert_eq!(
        SystemInfoError::UnsupportedKernelVersion { major: 4, minor: 19 }.message(),
        "Unsupported kernel version 4.19. Requires 5.10 or newer"
    );
    assert_eq!(SystemInfoError::GlobExpansionFailed.message(), "Failed to expand glob pattern");
    assert_eq!(ThreadError::UnableToGetCoreIds.message(), "Unable to get core IDs");
    assert_eq!(ThreadError::InvalidCoreId(7).message(), "Invalid core ID: 7");
    assert_eq!(WorkerError::UnableToGetCoreIds.message(), "Unable to get core");
    assert_eq!(
        WorkerError::PinThreadToCore(12).message(),
        "Unable to pin thread to the core (ID = 12)"
    );
    assert_eq!(
        NetworkInterfaceError::NotFound("eth9".to_string()).message(),
        "Network interface 'eth9' not found"
    );
    assert_eq!(
        NetworkInterfaceError::InterfaceDown("eth0".to_string()).message(),
        "Network interface 'eth0' is down"
    );
    assert_eq!(
        Error::DefaultInterface("No MAC address".to_string()).message(),
        "Failed to get default network interface: No MAC address"
    );
    assert_eq!(Error::Ethtool("boom".to_string()).message(), "Ethtool error: boom");
    assert_eq!(
        Error::ParseError(ParseFailure::InvalidDigit).message(),
        "Failed to parse value: invalid digit found in string"
    );
    assert_eq!(
        RuntimeError::AvailableCore(2).message(),
        "Failed to get available cores: os error 2"
    );
    assert_eq!(
        RuntimeError::NotEnoughCores(2, 4).message(),
        "Not enough cores available: 2 available, 4 required"
    );
    assert_eq!(
        RuntimeError::from(NetworkInterfaceError::NotFound("x".to_string())).message(),
        "Network interface error: Network interface 'x' not found"
    );
    assert_eq!(
        RuntimeError::from(ThreadError::InvalidCoreId(3)).message(),
        "Thread error: Invalid core ID: 3"
    );
    assert_eq!(RuntimeError::SenderDropped.message(), "Sender dropped");
}
