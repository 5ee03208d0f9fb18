use ladder_lib::config::{make_blocklist, make_config_from_args, Error};
use ladder_lib::net::{IpAddr, Ipv4Addr, Ipv6Addr, SocketAddr};
use ladder_lib::protocol::{DomainName, SocksAddr, SocksDestination};
use ladder_lib::router::{Cidr, Cidr4, Cidr6, Destination};
use ladder_lib::server::{inbound, outbound, Api};
use ladder_lib::uri;
use ladder_lib::uri::{Protocol, UrlParts};

fn words(list: &[&str]) -> Vec<String> {
    list.iter().map(|w| w.to_string()).collect()
}

fn lan_and_localhost() -> Vec<Destination> {
    let mut dsts: Vec<Destination> =
        Cidr::private_networks().into_iter().map(Destination::Cidr).collect();
    dsts.push(Destination::Cidr(Cidr::V4(Cidr4::localloop())));
    dsts.push(Destination::Cidr(Cidr::V6(Cidr6::localloop())));
    dsts
}

#[test]
fn nothing_blocked_gives_no_rule() {
    assert_eq!(make_blocklist(true, &[]).unwrap(), Vec::new());
}

#[test]
fn local_network_is_blocked_unless_allowed() {
    let rules = make_blocklist(false, &[]).unwrap();
    assert_eq!(rules.len(), 1);
    assert_eq!(rules[0].dsts, lan_and_localhost());
    assert_eq!(rules[0].dsts.len(), 6);
    assert_eq!(rules[0].outbound_tag, None);
    assert!(rules[0].inbound_tags.is_empty());
}

#[test]
fn words_of_a_block_list() {
    let rules = make_blocklist(
        true,
        &words(&["1.2.3.4", "example.com", "10.0.0.0/8", "@localhost", "::1", "1.2.3", "@lan"]),
    )
    .unwrap();
    let mut expected = vec![
        Destination::Ip(IpAddr::V4(Ipv4Addr::new(1, 2, 3, 4))),
        Destination::Domain(DomainName::from_str("example.com").unwrap()),
        Destination::Cidr(Cidr::V4(Cidr4 { addr: Ipv4Addr::new(10, 0, 0, 0), len: 8 })),
        Destination::Cidr(Cidr::V4(Cidr4::localloop())),
        Destination::Cidr(Cidr::V6(Cidr6::localloop())),
        Destination::Ip(IpAddr::V6(Ipv6Addr::new(0, 0, 0, 0, 0, 0, 0, 1))),
        Destination::Domain(DomainName::from_str("1.2.3").unwrap()),
    ];
    expected.extend(Cidr::private_networks().into_iter().map(Destination::Cidr));
    assert_eq!(rules.len(), 1);
    assert_eq!(rules[0].dsts, expected);
}

#[test]
fn first_word_that_stands_for_nothing() {
    assert_eq!(
        make_blocklist(true, &words(&["1.2.3.4", "not valid", "also not"])).unwrap_err(),
        Error::InvalidBlock("not valid".to_string())
    );
    assert_eq!(
        make_blocklist(false, &words(&["10.0.0.0/40"])).unwrap_err(),
        Error::InvalidBlock("10.0.0.0/40".to_string())
    );
    assert_eq!(
        make_blocklist(false, &words(&[""])).unwrap_err(),
        Error::InvalidBlock(String::new())
    );
}

#[test]
fn configuration_from_words() {
    let config =
        make_config_from_args("socks5://127.0.0.1:1080", "freedom", true, &words(&["example.com"]))
            .unwrap();
    assert_eq!(
        config.inbounds,
        vec![inbound::Builder {
            tag: String::new(),
            protocol: Protocol::Socks5,
            addr: vec![SocketAddr::V4 { ip: Ipv4Addr::new(127, 0, 0, 1), port: 1080 }],
        }]
    );
    assert_eq!(config.outbounds, vec![outbound::Builder::new_freedom()]);
    assert_eq!(config.router.rules.len(), 1);
    assert_eq!(
        config.router.rules[0].dsts,
        vec![Destination::Domain(DomainName::from_str("example.com").unwrap())]
    );
    assert_eq!(config.api, Api::Disabled);
    assert_eq!(config.dial_tcp_timeout_ms, None);
    assert_eq!(config.relay_buffer_size_kb, None);
    let server = config.build().unwrap();
    assert_eq!(server.relay_buffer_size, 16_384);
}

#[test]
fn outbound_is_read_from_its_own_url() {
    let config =
        make_config_from_args("http://[::1]", "socks5://proxy.example:1081", true, &[]).unwrap();
    assert_eq!(
        config.inbounds[0],
        inbound::Builder {
            tag: String::new(),
            protocol: Protocol::Http,
            addr: vec![SocketAddr::V6 {
                ip: Ipv6Addr::new(0, 0, 0, 0, 0, 0, 0, 1),
                port: 80,
                scope_id: 0,
            }],
        }
    );
    assert_eq!(
        config.outbounds[0],
        outbound::Builder {
            tag: String::new(),
            settings: outbound::Details::Proxy {
                protocol: Protocol::Socks5,
                addr: SocksAddr::new(
                    SocksDestination::Name(DomainName::from_str("proxy.example").unwrap()),
                    1081
                ),
                transport: None,
            },
        }
    );
    assert!(config.router.rules.is_empty());
}

#[test]
fn words_that_give_no_configuration() {
    assert_eq!(
        make_config_from_args("socks5://127.0.0.1:1080", "freedom", true, &words(&["?"]))
            .unwrap_err(),
        Error::InvalidBlock("?".to_string())
    );
    assert_eq!(
        make_config_from_args("no url", "freedom", true, &[]).unwrap_err(),
        Error::InvalidUrl("no url".to_string())
    );
    assert_eq!(
        make_config_from_args("ftp://127.0.0.1:1080", "freedom", true, &[]).unwrap_err(),
        Error::Inbound(uri::Error::UnknownScheme)
    );
    assert_eq!(
        make_config_from_args("socks5://localhost:1080", "freedom", true, &[]).unwrap_err(),
        Error::Inbound(uri::Error::InvalidHost)
    );
    assert_eq!(
        make_config_from_args("socks5://127.0.0.1", "freedom", true, &[]).unwrap_err(),
        Error::Inbound(uri::Error::MissingPort)
    );
    assert_eq!(
        make_config_from_args("socks5://127.0.0.1:1080", "Freedom", true, &[]).unwrap_err(),
        Error::InvalidUrl("Freedom".to_string())
    );
    assert_eq!(
        make_config_from_args("socks5://127.0.0.1:1080", "socks4://1.2.3.4:1", true, &[])
            .unwrap_err(),
        Error::Outbound(uri::Error::UnknownScheme)
    );
    assert_eq!(
        make_config_from_args("socks5://127.0.0.1:1080", "socks5://1.2.3.4", true, &[])
            .unwrap_err(),
        Error::Outbound(uri::Error::MissingPort)
    );
}

#[test]
fn endpoints_from_url_parts() {
    let parts = UrlParts { scheme: "http".to_string(), host: None, port: Some(80) };
    assert_eq!(inbound::Builder::parse_url(&parts).unwrap_err(), uri::Error::MissingHost);
    assert_eq!(outbound::Builder::parse_url(&parts).unwrap_err(), uri::Error::MissingHost);
    let parts =
        UrlParts { scheme: "http".to_string(), host: Some("bad host".to_string()), port: Some(80) };
    assert_eq!(outbound::Builder::parse_url(&parts).unwrap_err(), uri::Error::InvalidHost);
    let parts = UrlParts {
        scheme: "socks5".to_string(),
        host: Some("[2001:db8::1]".to_string()),
        port: Some(9),
    };
    assert_eq!(
        outbound::Builder::parse_url(&parts).unwrap().settings,
        outbound::Details::Proxy {
            protocol: Protocol::Socks5,
            addr: SocksAddr::new(
                SocksDestination::Ip(IpAddr::V6(Ipv6Addr::new(0x2001, 0xdb8, 0, 0, 0, 0, 0, 1))),
                9
            ),
            transport: None,
        }
    );
    assert_eq!(Protocol::from_scheme("socks5"), Some(Protocol::Socks5));
    assert_eq!(Protocol::from_scheme("SOCKS5"), None);
}
