use ladder_lib::net::{IpAddr, Ipv4Addr, Ipv6Addr, SocketAddr};
use ladder_lib::server::dns::{DnsDestination, Error};

fn v4(octets: [u8; 4], port: u16) -> SocketAddr {
    SocketAddr::V4 { ip: Ipv4Addr { octets }, port }
}

fn v6(text: &str, port: u16) -> SocketAddr {
    match IpAddr::from_str(text).unwrap() {
        IpAddr::V6(ip) => SocketAddr::V6 { ip, port, scope_id: 0 },
        IpAddr::V4(_) => panic!("not an IPv6 address"),
    }
}

#[test]
fn test_dns_destination_from_str() {
    // Raw IPs
    assert_eq!(
        DnsDestination::from_str("0.0.0.0:53").unwrap(),
        DnsDestination::Udp(v4([0, 0, 0, 0], 53))
    );
    assert_eq!(
        DnsDestination::from_str("255.255.255.255:5353").unwrap(),
        DnsDestination::Udp(v4([255, 255, 255, 255], 5353))
    );
    assert_eq!(
        DnsDestination::from_str("[2001:db8:85a3:8d3:1319:8a2e:370:7348]:443").unwrap(),
        DnsDestination::Udp(v6("2001:db8:85a3:8d3:1319:8a2e:370:7348", 443))
    );
    // UDP
    assert_eq!(
        DnsDestination::from_str("udp://0.0.0.0:53").unwrap(),
        DnsDestination::Udp(v4([0, 0, 0, 0], 53))
    );
    assert_eq!(
        DnsDestination::from_str("udp://255.255.255.255:5353").unwrap(),
        DnsDestination::Udp(v4([255, 255, 255, 255], 5353))
    );
    assert_eq!(
        DnsDestination::from_str("udp://[2001:db8:85a3:8d3:1319:8a2e:370:7348]:443").unwrap(),
        DnsDestination::Udp(v6("2001:db8:85a3:8d3:1319:8a2e:370:7348", 443))
    );
    // TCP
    assert_eq!(
        DnsDestination::from_str("tcp://0.0.0.0:53").unwrap(),
        DnsDestination::Tcp(v4([0, 0, 0, 0], 53))
    );
    assert_eq!(
        DnsDestination::from_str("tcp://255.255.255.255:5353").unwrap(),
        DnsDestination::Tcp(v4([255, 255, 255, 255], 5353))
    );
    assert_eq!(
        DnsDestination::from_str("tcp://[2001:db8:85a3:8d3:1319:8a2e:370:7348]:443").unwrap(),
        DnsDestination::Tcp(v6("2001:db8:85a3:8d3:1319:8a2e:370:7348", 443))
    );
}

#[test]
fn test_dns_destination_from_str_error() {
    assert_eq!(DnsDestination::from_str("").unwrap_err(), Error::Empty);
    assert_eq!(
        DnsDestination::from_str(&"longlabel.".repeat(100)).unwrap_err(),
        Error::TooLong
    );
    assert_eq!(
        DnsDestination::from_str("invalid://127.0.0.1:11111").unwrap_err(),
        Error::InvalidPrefix("invalid".into())
    );
    assert_eq!(
        DnsDestination::from_str("invalid2://invalid-address").unwrap_err(),
        Error::InvalidPrefix("invalid2".into())
    );
    assert_eq!(
        DnsDestination::from_str("://invalid-address").unwrap_err(),
        Error::InvalidPrefix("".into())
    );
    assert_eq!(
        DnsDestination::from_str("tcp://invalid-address").unwrap_err(),
        Error::InvalidSocketAddr("invalid-address".into())
    );
    assert_eq!(
        DnsDestination::from_str("udp://invalid-address").unwrap_err(),
        Error::InvalidSocketAddr("invalid-address".into())
    );
}

#[test]
fn explicit_segments_are_read() {
    assert_eq!(
        v6("2001:db8:85a3:8d3:1319:8a2e:370:7348", 443),
        SocketAddr::V6 {
            ip: Ipv6Addr { segments: [0x2001, 0xdb8, 0x85a3, 0x8d3, 0x1319, 0x8a2e, 0x370, 0x7348] },
            port: 443,
            scope_id: 0,
        }
    );
}

#[test]
fn scheme_is_read_in_any_case() {
    assert_eq!(
        DnsDestination::from_str("TCP://1.2.3.4:53").unwrap(),
        DnsDestination::Tcp(v4([1, 2, 3, 4], 53))
    );
    assert_eq!(
        DnsDestination::from_str("uDp://1.2.3.4:53").unwrap(),
        DnsDestination::Udp(v4([1, 2, 3, 4], 53))
    );
}

#[test]
fn loopback_over_tcp() {
    assert_eq!(
        DnsDestination::from_str("tcp://[::1]:443").unwrap(),
        DnsDestination::Tcp(SocketAddr::V6 {
            ip: Ipv6Addr { segments: [0, 0, 0, 0, 0, 0, 0, 1] },
            port: 443,
            scope_id: 0,
        })
    );
}

#[test]
fn four_thousand_characters_are_too_long() {
    assert_eq!(DnsDestination::from_str(&"a".repeat(4000)).unwrap_err(), Error::TooLong);
}

#[test]
fn three_hundred_bytes_are_looked_at() {
    let text = "9".repeat(300);
    assert_eq!(
        DnsDestination::from_str(&text).unwrap_err(),
        Error::InvalidSocketAddr(text.clone())
    );
    assert_eq!(DnsDestination::from_str(&"9".repeat(301)).unwrap_err(), Error::TooLong);
}

#[test]
fn unknown_scheme_is_named() {
    assert_eq!(
        DnsDestination::from_str("bogus://1.2.3.4:80").unwrap_err(),
        Error::InvalidPrefix("bogus".to_string())
    );
}

#[test]
fn text_is_cut_at_the_first_separator() {
    assert_eq!(
        DnsDestination::from_str("udp://tcp://1.2.3.4:80").unwrap_err(),
        Error::InvalidSocketAddr("tcp://1.2.3.4:80".to_string())
    );
}

#[test]
fn text_beyond_ascii_is_cut_at_characters() {
    assert_eq!(
        DnsDestination::from_str("é://ü").unwrap_err(),
        Error::InvalidPrefix("é".to_string())
    );
    assert_eq!(
        DnsDestination::from_str("udp://ü").unwrap_err(),
        Error::InvalidSocketAddr("ü".to_string())
    );
}

#[test]
fn canonical_text_names_the_scheme() {
    assert_eq!(DnsDestination::from_str("0.0.0.0:53").unwrap().to_string(), "udp://0.0.0.0:53");
    assert_eq!(
        DnsDestination::from_str("TCP://[0:0:0:0:0:0:0:1]:0443").unwrap().to_string(),
        "tcp://[::1]:443"
    );
    assert_eq!(
        DnsDestination::from_str("[fe80::1%7]:53").unwrap().to_string(),
        "udp://[fe80::1%7]:53"
    );
}

#[test]
fn canonical_text_is_read_back() {
    let inputs = [
        "0.0.0.0:53",
        "udp://255.255.255.255:65535",
        "tcp://[2001:db8:85a3:8d3:1319:8a2e:370:7348]:443",
        "tcp://[::]:1",
        "[::ffff:1.2.3.4]:53",
        "[1:0:0:2:0:0:0:3]:53",
        "[1::2:0:0:3:4%12]:000053",
        "udp://[0:0:1::]:8",
    ];
    for input in inputs {
        let parsed = DnsDestination::from_str(input).unwrap();
        let text = parsed.to_string();
        assert_eq!(DnsDestination::from_str(&text).unwrap(), parsed, "{}", input);
    }
}

#[test]
fn owned_text_is_read_alike() {
    assert_eq!(
        DnsDestination::try_from("tcp://8.8.8.8:53".to_string()).unwrap(),
        DnsDestination::Tcp(v4([8, 8, 8, 8], 53))
    );
    assert_eq!(DnsDestination::try_from(String::new()).unwrap_err(), Error::Empty);
}
