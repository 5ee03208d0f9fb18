use ladder_lib::net::{Ipv4Addr, SocketAddr};
use ladder_lib::protocol::{DomainName, SocksAddr, SocksDestination};
use ladder_lib::router;
use ladder_lib::router::{Cidr, Decision, Destination, PlainRule};
use ladder_lib::server::builder::{add_tag, check_zero, check_zero_usize, default_udp_session_timeout_ms};
use ladder_lib::server::{inbound, outbound, Api, BuildError, Builder, TagMap};
use ladder_lib::transport;
use ladder_lib::uri::Protocol;

fn listen(port: u16) -> Vec<SocketAddr> {
    vec![SocketAddr::V4 { ip: Ipv4Addr::new(127, 0, 0, 1), port }]
}

fn inbound(tag: &str) -> inbound::Builder {
    inbound::Builder { tag: tag.to_string(), protocol: Protocol::Socks5, addr: listen(1080) }
}

fn outbound(tag: &str) -> outbound::Builder {
    outbound::Builder { tag: tag.to_string(), settings: outbound::Details::Freedom }
}

fn config(inbounds: &[&str], outbounds: &[&str]) -> Builder {
    Builder {
        inbounds: inbounds.iter().map(|t| inbound(t)).collect(),
        outbounds: outbounds.iter().map(|t| outbound(t)).collect(),
        ..Default::default()
    }
}

fn target(octets: [u8; 4]) -> SocksAddr {
    SocksAddr::new(SocksDestination::Ip(ladder_lib::net::IpAddr::V4(Ipv4Addr { octets })), 80)
}

#[test]
fn two_inbounds_with_one_tag() {
    assert_eq!(
        config(&["a", "b", "a"], &["c"]).build().unwrap_err(),
        BuildError::InboundTagAlreadyExists { ind: 2, tag: "a".to_string() }
    );
    assert_eq!(
        config(&["a", "a", "a"], &[]).build().unwrap_err(),
        BuildError::InboundTagAlreadyExists { ind: 1, tag: "a".to_string() }
    );
}

#[test]
fn two_outbounds_with_one_tag() {
    assert_eq!(
        config(&["a"], &["x", "y", "z", "y"]).build().unwrap_err(),
        BuildError::OutboundTagAlreadyExists { ind: 3, tag: "y".to_string() }
    );
}

#[test]
fn inbound_and_outbound_with_one_tag() {
    assert_eq!(
        config(&["a", "b"], &["x", "b"]).build().unwrap_err(),
        BuildError::OutboundTagAlreadyExists { ind: 1, tag: "b".to_string() }
    );
}

#[test]
fn inbound_tags_are_looked_at_first() {
    assert_eq!(
        config(&["a", "a"], &["x", "x"]).build().unwrap_err(),
        BuildError::InboundTagAlreadyExists { ind: 1, tag: "a".to_string() }
    );
}

#[test]
fn empty_tags_never_clash() {
    let server = config(&["", "", "a", ""], &["", "", ""]).build().unwrap();
    assert_eq!(server.inbounds.len(), 4);
    assert_eq!(server.outbounds.len(), 3);
    assert_eq!(server.inbound_tags.get("a"), Some(2));
    assert_eq!(server.inbound_tags.get(""), None);
    assert_eq!(server.outbound_tags.get(""), None);
    assert!(Builder::default().build().is_ok());
}

#[test]
fn tags_give_positions() {
    let server = config(&["a", "", "b"], &["x", "y"]).build().unwrap();
    assert_eq!(server.inbound_tags.get("a"), Some(0));
    assert_eq!(server.inbound_tags.get("b"), Some(2));
    assert_eq!(server.inbound_tags.get("x"), None);
    assert_eq!(server.outbound_tags.get("x"), Some(0));
    assert_eq!(server.outbound_tags.get("y"), Some(1));
    assert_eq!(server.inbounds[2].tag, "b");
    assert_eq!(server.outbounds[1].tag, "y");
}

#[test]
fn limits_default() {
    let server = Builder::default().build().unwrap();
    assert_eq!(server.dial_tcp_timeout_ms, 10_000);
    assert_eq!(server.outbound_handshake_timeout_ms, 20_000);
    assert_eq!(server.relay_buffer_size, 16_384);
    assert_eq!(server.relay_timeout_secs, 300);
    assert_eq!(server.udp_session_timeout_ms, 20_000);
    assert_eq!(default_udp_session_timeout_ms(), 20_000);
}

#[test]
fn limits_as_configured() {
    let server = Builder {
        dial_tcp_timeout_ms: Some(1),
        outbound_handshake_timeout_ms: Some(u64::MAX),
        relay_buffer_size_kb: Some(3),
        relay_timeout_secs: Some(7),
        udp_session_timeout_ms: Some(12_345),
        ..Default::default()
    }
    .build()
    .unwrap();
    assert_eq!(server.dial_tcp_timeout_ms, 1);
    assert_eq!(server.outbound_handshake_timeout_ms, u64::MAX);
    assert_eq!(server.relay_buffer_size, 3072);
    assert_eq!(server.relay_timeout_secs, 7);
    assert_eq!(server.udp_session_timeout_ms, 12_345);
}

#[test]
fn sixteen_kilobytes_are_16384_bytes() {
    let server =
        Builder { relay_buffer_size_kb: Some(16), ..Default::default() }.build().unwrap();
    assert_eq!(server.relay_buffer_size, 16_384);
}

#[test]
fn zero_limits_are_errors() {
    assert_eq!(
        Builder { dial_tcp_timeout_ms: Some(0), ..Default::default() }.build().unwrap_err(),
        BuildError::ValueIsZero("dial_tcp_timeout_ms")
    );
    assert_eq!(
        Builder { outbound_handshake_timeout_ms: Some(0), ..Default::default() }
            .build()
            .unwrap_err(),
        BuildError::ValueIsZero("outbound_handshake_timeout_ms")
    );
    assert_eq!(
        Builder { relay_buffer_size_kb: Some(0), ..Default::default() }.build().unwrap_err(),
        BuildError::ValueIsZero("relay_buffer_size_kb")
    );
    assert_eq!(
        Builder { relay_timeout_secs: Some(0), ..Default::default() }.build().unwrap_err(),
        BuildError::ValueIsZero("relay_timeout_secs")
    );
    assert_eq!(
        Builder { udp_session_timeout_ms: Some(0), ..Default::default() }.build().unwrap_err(),
        BuildError::ValueIsZero("udp_session_timeout_ms")
    );
    assert_eq!(
        Builder {
            relay_timeout_secs: Some(0),
            outbound_handshake_timeout_ms: Some(0),
            ..Default::default()
        }
        .build()
        .unwrap_err(),
        BuildError::ValueIsZero("outbound_handshake_timeout_ms")
    );
}

#[test]
fn limits_are_checked_one_by_one() {
    assert_eq!(check_zero(5, "five").unwrap(), 5);
    assert_eq!(check_zero(0, "none").unwrap_err(), BuildError::ValueIsZero("none"));
    assert_eq!(check_zero_usize(7, "seven").unwrap(), 7);
    assert_eq!(check_zero_usize(0, "zero").unwrap_err(), BuildError::ValueIsZero("zero"));
}

#[test]
fn web_api_needs_a_secret() {
    let addr = SocketAddr::V4 { ip: Ipv4Addr::new(127, 0, 0, 1), port: 8080 };
    assert_eq!(
        Builder { api: Api::WebApi { secret: String::new(), addr }, ..Default::default() }
            .build()
            .unwrap_err(),
        BuildError::Api("web API secret cannot be empty".to_string())
    );
    let server = Builder { api: Api::WebApi { secret: "s".to_string(), addr }, ..Default::default() }
        .build()
        .unwrap();
    assert_eq!(server.api, Api::WebApi { secret: "s".to_string(), addr });
    assert_eq!(Api::default(), Api::Disabled);
}

#[test]
fn rules_name_endpoints_by_position() {
    let mut builder = config(&["in0", "in1"], &["out0", "out1", "out2"]);
    builder.router = router::Builder {
        rules: vec![
            PlainRule {
                inbound_tags: vec!["in1".to_string()],
                dsts: vec![Destination::Cidr(Cidr::from_str("10.0.0.0/8").unwrap())],
                outbound_tag: Some("out2".to_string()),
            },
            PlainRule {
                inbound_tags: Vec::new(),
                dsts: vec![Destination::Domain(DomainName::from_str("blocked.example").unwrap())],
                outbound_tag: None,
            },
            PlainRule {
                inbound_tags: Vec::new(),
                dsts: vec![Destination::Cidr(Cidr::from_str("0.0.0.0/0").unwrap())],
                outbound_tag: Some("out1".to_string()),
            },
        ],
    };
    let server = builder.build().unwrap();
    assert_eq!(server.router.rules[0].inbound_inds, vec![1]);
    assert_eq!(server.router.rules[0].outbound_ind, Some(2));
    assert_eq!(server.router.rules[2].outbound_ind, Some(1));
    assert_eq!(server.router.resolve(1, &target([10, 1, 2, 3])), Decision::Forward(2));
    assert_eq!(server.router.resolve(0, &target([10, 1, 2, 3])), Decision::Forward(1));
    let blocked = SocksAddr::new(
        SocksDestination::Name(DomainName::from_str("www.blocked.example").unwrap()),
        443,
    );
    assert_eq!(server.router.resolve(0, &blocked), Decision::Deny);
}

#[test]
fn rule_with_unknown_tag() {
    let mut builder = config(&["in0"], &["out0"]);
    builder.router = router::Builder {
        rules: vec![PlainRule {
            inbound_tags: Vec::new(),
            dsts: Vec::new(),
            outbound_tag: Some("in0".to_string()),
        }],
    };
    assert_eq!(
        builder.build().unwrap_err(),
        BuildError::Router(router::Error::UnknownTag { rule: 0, tag: "in0".to_string() })
    );
    let mut builder = config(&[""], &[""]);
    builder.router = router::Builder {
        rules: vec![PlainRule {
            inbound_tags: Vec::new(),
            dsts: Vec::new(),
            outbound_tag: Some(String::new()),
        }],
    };
    assert_eq!(
        builder.build().unwrap_err(),
        BuildError::Router(router::Error::UnknownTag { rule: 0, tag: String::new() })
    );
}

#[test]
fn inbound_that_cannot_be_built() {
    let mut builder = config(&["a", "b", "c"], &["x"]);
    builder.inbounds[1].addr.clear();
    builder.inbounds[2].addr.clear();
    assert_eq!(
        builder.build().unwrap_err(),
        BuildError::Inbound { ind: 1, err: inbound::Error::NoAddress }
    );
}

#[test]
fn outbound_that_cannot_be_built() {
    let mut builder = config(&["a"], &["x", "y"]);
    builder.outbounds[1].settings = outbound::Details::Proxy {
        protocol: Protocol::Http,
        addr: target([1, 2, 3, 4]),
        transport: Some(transport::Builder::Ws(transport::ws::OutboundBuilder {
            path: "no-slash".to_string(),
            host: String::new(),
            tls: None,
        })),
    };
    assert_eq!(
        builder.build().unwrap_err(),
        BuildError::Outbound {
            ind: 1,
            err: outbound::Error::Transport(transport::Error::Ws(transport::ws::Error::InvalidPath)),
        }
    );
}

#[test]
fn stages_fail_in_order() {
    let mut builder = config(&["a"], &["x"]);
    builder.inbounds[0].addr.clear();
    builder.api = Api::WebApi {
        secret: String::new(),
        addr: SocketAddr::V4 { ip: Ipv4Addr::new(0, 0, 0, 0), port: 1 },
    };
    builder.dial_tcp_timeout_ms = Some(0);
    assert_eq!(
        builder.build().unwrap_err(),
        BuildError::Inbound { ind: 0, err: inbound::Error::NoAddress }
    );
    let mut builder = config(&["a"], &["x"]);
    builder.api = Api::WebApi {
        secret: String::new(),
        addr: SocketAddr::V4 { ip: Ipv4Addr::new(0, 0, 0, 0), port: 1 },
    };
    builder.dial_tcp_timeout_ms = Some(0);
    assert_eq!(
        builder.build().unwrap_err(),
        BuildError::Api("web API secret cannot be empty".to_string())
    );
}

#[test]
fn tag_map() {
    let mut map = TagMap::new();
    assert_eq!(map.get("a"), None);
    assert_eq!(map.insert("a".to_string(), 1), None);
    assert_eq!(map.insert("b".to_string(), 2), None);
    assert_eq!(map.get("a"), Some(1));
    assert_eq!(map.insert("a".to_string(), 3), Some(1));
    assert_eq!(map.get("a"), Some(3));
    assert_eq!(map.get("b"), Some(2));
    let mut other = TagMap::new();
    assert!(add_tag(0, &"x".to_string(), &mut other, &map));
    assert!(!add_tag(1, &"x".to_string(), &mut other, &map));
    assert!(!add_tag(2, &"a".to_string(), &mut other, &map));
    assert!(add_tag(3, &String::new(), &mut other, &map));
    assert!(add_tag(4, &String::new(), &mut other, &map));
    assert_eq!(other.get(""), None);
    assert_eq!(other.get("x"), Some(1));
}
