use ladder_lib::net::{IpAddr, Ipv4Addr, Ipv6Addr, SocketAddr};

fn v6(segments: [u16; 8]) -> IpAddr {
    IpAddr::V6(Ipv6Addr { segments })
}

#[test]
fn ipv4_text_forms() {
    assert_eq!(IpAddr::from_str("1.2.3.4"), Some(IpAddr::V4(Ipv4Addr { octets: [1, 2, 3, 4] })));
    assert_eq!(IpAddr::from_str("255.0.10.100"), Some(IpAddr::V4(Ipv4Addr::new(255, 0, 10, 100))));
    assert_eq!(IpAddr::from_str("256.0.0.1"), None);
    assert_eq!(IpAddr::from_str("01.2.3.4"), None);
    assert_eq!(IpAddr::from_str("1.2.3"), None);
    assert_eq!(IpAddr::from_str("1.2.3.4.5"), None);
    assert_eq!(IpAddr::from_str("1.2.3.4 "), None);
    assert_eq!(IpAddr::from_str("1..3.4"), None);
    assert_eq!(IpAddr::from_str("1.2.3.1000"), None);
    assert_eq!(IpAddr::from_str(""), None);
}

#[test]
fn ipv6_text_forms() {
    assert_eq!(IpAddr::from_str("::"), Some(v6([0; 8])));
    assert_eq!(IpAddr::from_str("::1"), Some(v6([0, 0, 0, 0, 0, 0, 0, 1])));
    assert_eq!(IpAddr::from_str("1::"), Some(v6([1, 0, 0, 0, 0, 0, 0, 0])));
    assert_eq!(IpAddr::from_str("1:2:3:4:5:6:7:8"), Some(v6([1, 2, 3, 4, 5, 6, 7, 8])));
    assert_eq!(IpAddr::from_str("1:2:3:4:5:6:7::"), Some(v6([1, 2, 3, 4, 5, 6, 7, 0])));
    assert_eq!(IpAddr::from_str("::2:3:4:5:6:7:8"), Some(v6([0, 2, 3, 4, 5, 6, 7, 8])));
    assert_eq!(IpAddr::from_str("AbCd::Ef"), Some(v6([0xabcd, 0, 0, 0, 0, 0, 0, 0xef])));
    assert_eq!(IpAddr::from_str("0001::0"), Some(v6([1, 0, 0, 0, 0, 0, 0, 0])));
    assert_eq!(
        IpAddr::from_str("::ffff:1.2.3.4"),
        Some(v6([0, 0, 0, 0, 0, 0xffff, 0x0102, 0x0304]))
    );
    assert_eq!(
        IpAddr::from_str("1:2:3:4:5:6:1.2.3.4"),
        Some(v6([1, 2, 3, 4, 5, 6, 0x0102, 0x0304]))
    );
    assert_eq!(IpAddr::from_str("1:2:3:4:5:6:7:8:9"), None);
    assert_eq!(IpAddr::from_str("1::2:3:4:5:6:7:8"), None);
    assert_eq!(IpAddr::from_str("1:2:3:4:5:6:7"), None);
    assert_eq!(IpAddr::from_str("12345::"), None);
    assert_eq!(IpAddr::from_str("1::2::3"), None);
    assert_eq!(IpAddr::from_str(":::"), None);
    assert_eq!(IpAddr::from_str("1.2.3.4::"), None);
    assert_eq!(IpAddr::from_str("::1.2.3.4:5"), None);
    assert_eq!(IpAddr::from_str("1:2:3:4:5:6:7:1.2.3.4"), None);
    assert_eq!(IpAddr::from_str("[::1]"), None);
    assert_eq!(IpAddr::from_str("g::"), None);
}

#[test]
fn socket_addr_text_forms() {
    assert_eq!(
        SocketAddr::from_str("127.0.0.1:8080"),
        Some(SocketAddr::V4 { ip: Ipv4Addr::new(127, 0, 0, 1), port: 8080 })
    );
    assert_eq!(
        SocketAddr::from_str("127.0.0.1:00080"),
        Some(SocketAddr::V4 { ip: Ipv4Addr::new(127, 0, 0, 1), port: 80 })
    );
    assert_eq!(
        SocketAddr::from_str("[::1]:65535"),
        Some(SocketAddr::V6 { ip: Ipv6Addr::new(0, 0, 0, 0, 0, 0, 0, 1), port: 65535, scope_id: 0 })
    );
    assert_eq!(
        SocketAddr::from_str("[fe80::1%42]:5"),
        Some(SocketAddr::V6 {
            ip: Ipv6Addr::new(0xfe80, 0, 0, 0, 0, 0, 0, 1),
            port: 5,
            scope_id: 42,
        })
    );
    assert_eq!(SocketAddr::from_str("127.0.0.1:65536"), None);
    assert_eq!(SocketAddr::from_str("127.0.0.1:"), None);
    assert_eq!(SocketAddr::from_str("127.0.0.1"), None);
    assert_eq!(SocketAddr::from_str("::1:80"), None);
    assert_eq!(SocketAddr::from_str("[::1]80"), None);
    assert_eq!(SocketAddr::from_str("[::1%]:80"), None);
    assert_eq!(SocketAddr::from_str("[::1%4294967296]:80"), None);
    assert_eq!(SocketAddr::from_str("[1.2.3.4]:80"), None);
    assert_eq!(SocketAddr::from_str("1.2.3.4:80x"), None);
}

#[test]
fn ipv6_text_leaves_out_the_longest_run_of_zeros() {
    assert_eq!(v6([0; 8]).to_string(), "::");
    assert_eq!(v6([0, 0, 0, 0, 0, 0, 0, 1]).to_string(), "::1");
    assert_eq!(v6([1, 0, 0, 0, 0, 0, 0, 0]).to_string(), "1::");
    assert_eq!(v6([1, 0, 0, 2, 0, 0, 0, 3]).to_string(), "1:0:0:2::3");
    assert_eq!(v6([1, 0, 0, 2, 0, 0, 3, 4]).to_string(), "1::2:0:0:3:4");
    assert_eq!(v6([1, 0, 2, 3, 4, 5, 6, 7]).to_string(), "1:0:2:3:4:5:6:7");
    assert_eq!(v6([0x2001, 0xdb8, 0, 0, 0, 0, 0, 0xabcd]).to_string(), "2001:db8::abcd");
    assert_eq!(v6([0, 0, 0, 0, 0, 0xffff, 0xc0a8, 0x0101]).to_string(), "::ffff:192.168.1.1");
    assert_eq!(v6([0, 0, 0, 0, 0, 0, 0x0102, 0x0304]).to_string(), "::102:304");
}

#[test]
fn socket_addr_text() {
    assert_eq!(
        SocketAddr::V4 { ip: Ipv4Addr::new(10, 0, 0, 200), port: 0 }.to_string(),
        "10.0.0.200:0"
    );
    assert_eq!(
        SocketAddr::V6 { ip: Ipv6Addr::new(0xfe80, 0, 0, 0, 0, 0, 0, 1), port: 53, scope_id: 3 }
            .to_string(),
        "[fe80::1%3]:53"
    );
    assert_eq!(
        SocketAddr::V6 { ip: Ipv6Addr::new(0, 0, 0, 0, 0, 0, 0, 0), port: 65535, scope_id: 0 }
            .to_string(),
        "[::]:65535"
    );
}

#[test]
fn address_as_number() {
    assert_eq!(Ipv4Addr::new(1, 2, 3, 4).to_bits(), 0x01020304);
    assert_eq!(
        Ipv6Addr::new(1, 2, 3, 4, 5, 6, 7, 8).to_bits(),
        0x0001_0002_0003_0004_0005_0006_0007_0008
    );
}

#[test]
fn written_addresses_are_read_back() {
    let segments: [[u16; 8]; 6] = [
        [0, 0, 0, 0, 0, 0, 0, 0],
        [0, 0, 0, 0, 0, 0xffff, 0x7f00, 1],
        [0xffff, 0xffff, 0xffff, 0xffff, 0xffff, 0xffff, 0xffff, 0xffff],
        [0, 1, 0, 0, 1, 0, 0, 0],
        [0x10, 0, 0x203, 0, 0, 0x4000, 0, 0],
        [0, 0, 1, 0, 0, 0, 0, 0],
    ];
    for s in segments {
        for scope_id in [0u32, 1, 4294967295] {
            let addr = SocketAddr::V6 { ip: Ipv6Addr { segments: s }, port: 443, scope_id };
            assert_eq!(SocketAddr::from_str(&addr.to_string()), Some(addr));
        }
        let ip = v6(s);
        assert_eq!(IpAddr::from_str(&ip.to_string()), Some(ip));
    }
}

#[test]
fn more_ipv4_text_forms() {
    for text in ["1.2.3.04", "1.2.3.4.", ".1.2.3.4", "0001.2.3.4", "1.2.3.4::", "1.2.3.4a", "1.2.3.+4"] {
        assert_eq!(IpAddr::from_str(text), None, "{}", text);
    }
    assert_eq!(IpAddr::from_str("0.0.0.0"), Some(IpAddr::V4(Ipv4Addr::new(0, 0, 0, 0))));
    assert_eq!(
        IpAddr::from_str("255.255.255.255"),
        Some(IpAddr::V4(Ipv4Addr::new(255, 255, 255, 255)))
    );
}

#[test]
fn more_ipv6_text_forms() {
    assert_eq!(IpAddr::from_str("1:2:3:4::6:7:8"), Some(v6([1, 2, 3, 4, 0, 6, 7, 8])));
    assert_eq!(IpAddr::from_str("::1.2.3.4"), Some(v6([0, 0, 0, 0, 0, 0, 0x0102, 0x0304])));
    assert_eq!(IpAddr::from_str("FFFF::abcd"), Some(v6([0xffff, 0, 0, 0, 0, 0, 0, 0xabcd])));
    assert_eq!(IpAddr::from_str("0000::0000"), Some(v6([0; 8])));
    assert_eq!(IpAddr::from_str("1:2:3:4:5:6::"), Some(v6([1, 2, 3, 4, 5, 6, 0, 0])));
    for text in [
        "1:2:3:4:5:1.2.3.4",
        "::1.2.3",
        "::1.2.3.4.5",
        "fffff::",
        "00000::",
        ":",
        "::g",
        "1:2:3:4:5:6::1.2.3.4",
        "::01.2.3.4",
        "::1%1",
        "1:2:3:4:5:6:7:8 ",
    ] {
        assert_eq!(IpAddr::from_str(text), None, "{}", text);
    }
}

#[test]
fn more_socket_addr_text_forms() {
    assert_eq!(
        SocketAddr::from_str("1.2.3.4:0000000000000000000000080"),
        Some(SocketAddr::V4 { ip: Ipv4Addr::new(1, 2, 3, 4), port: 80 })
    );
    assert_eq!(
        SocketAddr::from_str("[::1%007]:5"),
        Some(SocketAddr::V6 { ip: Ipv6Addr::new(0, 0, 0, 0, 0, 0, 0, 1), port: 5, scope_id: 7 })
    );
    assert_eq!(
        SocketAddr::from_str("[::1%0]:5"),
        Some(SocketAddr::V6 { ip: Ipv6Addr::new(0, 0, 0, 0, 0, 0, 0, 1), port: 5, scope_id: 0 })
    );
    assert_eq!(
        SocketAddr::from_str("[::1%4294967295]:5"),
        Some(SocketAddr::V6 {
            ip: Ipv6Addr::new(0, 0, 0, 0, 0, 0, 0, 1),
            port: 5,
            scope_id: 4294967295,
        })
    );
    assert_eq!(
        SocketAddr::from_str("[::ffff:1.2.3.4]:443"),
        Some(SocketAddr::V6 {
            ip: Ipv6Addr::new(0, 0, 0, 0, 0, 0xffff, 0x0102, 0x0304),
            port: 443,
            scope_id: 0,
        })
    );
    for text in [
        "1.2.3.4:5 ",
        " 1.2.3.4:5",
        "1.2.3.4:+5",
        "1.2.3.4:-5",
        "[::1]:",
        "[::1]",
        "[::1%eth0]:5",
        "[[::1]]:5",
        "[::1]:5:6",
        "[1:2:3:4:5:6:7:8:9]:80",
    ] {
        assert_eq!(SocketAddr::from_str(text), None, "{}", text);
    }
}

#[test]
fn more_ipv6_texts() {
    assert_eq!(v6([1, 0, 0, 0, 2, 0, 0, 0]).to_string(), "1::2:0:0:0");
    assert_eq!(v6([1, 0, 2, 0, 3, 0, 4, 0]).to_string(), "1:0:2:0:3:0:4:0");
    assert_eq!(v6([0, 1, 0, 0, 1, 0, 0, 1]).to_string(), "0:1::1:0:0:1");
    assert_eq!(v6([0, 0, 0, 0, 0, 0xfffe, 0, 0]).to_string(), "::fffe:0:0");
    assert_eq!(v6([1, 2, 3, 4, 5, 6, 0, 0]).to_string(), "1:2:3:4:5:6::");
    assert_eq!(
        v6([0x1, 0x10, 0x100, 0x1000, 0xa, 0xab, 0xabc, 0xabcd]).to_string(),
        "1:10:100:1000:a:ab:abc:abcd"
    );
    assert_eq!(
        v6([0xffff; 8]).to_string(),
        "ffff:ffff:ffff:ffff:ffff:ffff:ffff:ffff"
    );
    assert_eq!(IpAddr::V4(Ipv4Addr::new(192, 168, 1, 1)).to_string(), "192.168.1.1");
}
