use ladder_lib::net::{IpAddr, Ipv4Addr, Ipv6Addr};
use ladder_lib::protocol::{DomainName, SocksAddr, SocksDestination};
use ladder_lib::router::{Builder, Cidr, Cidr4, Cidr6, Decision, Destination, Error, PlainRule, Router};

fn ip(text: &str) -> SocksAddr {
    SocksAddr::new(SocksDestination::Ip(IpAddr::from_str(text).unwrap()), 80)
}

fn name(text: &str) -> SocksAddr {
    SocksAddr::new(SocksDestination::Name(DomainName::from_str(text).unwrap()), 443)
}

fn cidr(text: &str) -> Destination {
    Destination::Cidr(Cidr::from_str(text).unwrap())
}

fn rule(dsts: Vec<Destination>, outbound_tag: Option<&str>) -> PlainRule {
    PlainRule { inbound_tags: Vec::new(), dsts, outbound_tag: outbound_tag.map(str::to_string) }
}

fn find_outbound(tag: &str) -> Option<usize> {
    match tag {
        "out1" => Some(0),
        "out2" => Some(1),
        _ => None,
    }
}

fn find_inbound(tag: &str) -> Option<usize> {
    match tag {
        "in1" => Some(0),
        "in2" => Some(1),
        _ => None,
    }
}

fn build(rules: Vec<PlainRule>) -> Router {
    Builder { rules }.build(find_inbound, find_outbound).unwrap()
}

#[test]
fn first_match_wins() {
    let router = build(vec![
        rule(vec![cidr("10.0.0.0/8")], Some("out1")),
        rule(vec![cidr("0.0.0.0/0")], Some("out2")),
    ]);
    assert_eq!(router.resolve(0, &ip("10.1.2.3")), Decision::Forward(0));
    assert_eq!(router.resolve(0, &ip("8.8.8.8")), Decision::Forward(1));
}

#[test]
fn order_decides_not_the_longer_prefix() {
    let router = build(vec![
        rule(vec![cidr("0.0.0.0/0")], Some("out2")),
        rule(vec![cidr("10.0.0.0/8")], Some("out1")),
    ]);
    assert_eq!(router.resolve(0, &ip("10.1.2.3")), Decision::Forward(1));
}

#[test]
fn rule_without_outbound_denies() {
    let router = build(vec![rule(vec![cidr("10.0.0.0/8")], None)]);
    assert_eq!(router.resolve(0, &ip("10.1.2.3")), Decision::Deny);
    assert_eq!(router.resolve(0, &ip("11.1.2.3")), Decision::Pass);
    let empty = build(Vec::new());
    assert_eq!(empty.resolve(0, &ip("10.1.2.3")), Decision::Pass);
    assert_ne!(Decision::Deny, Decision::Pass);
}

#[test]
fn rule_without_destinations_never_applies() {
    let router = build(vec![rule(Vec::new(), Some("out1"))]);
    assert_eq!(router.resolve(0, &ip("10.1.2.3")), Decision::Pass);
    assert_eq!(router.resolve(0, &name("example.com")), Decision::Pass);
}

#[test]
fn any_destination_of_a_rule_may_match() {
    let router = build(vec![rule(
        vec![
            Destination::Ip(IpAddr::V4(Ipv4Addr::new(1, 1, 1, 1))),
            Destination::Domain(DomainName::from_str("example.com").unwrap()),
            cidr("fc00::/7"),
        ],
        Some("out2"),
    )]);
    assert_eq!(router.resolve(0, &ip("1.1.1.1")), Decision::Forward(1));
    assert_eq!(router.resolve(0, &ip("1.1.1.2")), Decision::Pass);
    assert_eq!(router.resolve(0, &name("example.com")), Decision::Forward(1));
    assert_eq!(router.resolve(0, &name("WWW.Example.COM")), Decision::Forward(1));
    assert_eq!(router.resolve(0, &name("badexample.com")), Decision::Pass);
    assert_eq!(router.resolve(0, &name("example.com.evil.org")), Decision::Pass);
    assert_eq!(router.resolve(0, &ip("fd12::1")), Decision::Forward(1));
    assert_eq!(router.resolve(0, &ip("fe80::1")), Decision::Pass);
}

#[test]
fn names_are_not_resolved() {
    let router = build(vec![rule(vec![cidr("0.0.0.0/0"), cidr("::/0")], None)]);
    assert_eq!(router.resolve(0, &name("example.com")), Decision::Pass);
    assert_eq!(router.resolve(0, &ip("::1")), Decision::Deny);
}

#[test]
fn rule_for_some_inbounds() {
    let router = Builder {
        rules: vec![
            PlainRule {
                inbound_tags: vec!["in2".to_string()],
                dsts: vec![cidr("0.0.0.0/0")],
                outbound_tag: Some("out2".to_string()),
            },
            rule(vec![cidr("0.0.0.0/0")], Some("out1")),
        ],
    }
    .build(find_inbound, find_outbound)
    .unwrap();
    assert_eq!(router.rules[0].inbound_inds, vec![1]);
    assert_eq!(router.rules[0].outbound_ind, Some(1));
    assert_eq!(router.resolve(1, &ip("9.9.9.9")), Decision::Forward(1));
    assert_eq!(router.resolve(0, &ip("9.9.9.9")), Decision::Forward(0));
}

#[test]
fn unknown_tag_is_an_error() {
    let rules = vec![
        rule(vec![cidr("10.0.0.0/8")], Some("out1")),
        rule(vec![cidr("0.0.0.0/0")], Some("nowhere")),
    ];
    assert_eq!(
        Builder { rules }.build(find_inbound, find_outbound).unwrap_err(),
        Error::UnknownTag { rule: 1, tag: "nowhere".to_string() }
    );
    let rules = vec![PlainRule {
        inbound_tags: vec!["in1".to_string(), "lost".to_string()],
        dsts: Vec::new(),
        outbound_tag: Some("nowhere".to_string()),
    }];
    assert_eq!(
        Builder { rules }.build(find_inbound, find_outbound).unwrap_err(),
        Error::UnknownTag { rule: 0, tag: "lost".to_string() }
    );
}

#[test]
fn default_rule_is_empty() {
    let rule = PlainRule::default();
    assert!(rule.inbound_tags.is_empty());
    assert!(rule.dsts.is_empty());
    assert_eq!(rule.outbound_tag, None);
    assert!(Builder::default().rules.is_empty());
}

#[test]
fn blocks_of_addresses() {
    let block = Cidr4 { addr: Ipv4Addr::new(172, 16, 0, 0), len: 12 };
    assert!(block.contains(&Ipv4Addr::new(172, 16, 0, 0)));
    assert!(block.contains(&Ipv4Addr::new(172, 31, 255, 255)));
    assert!(!block.contains(&Ipv4Addr::new(172, 32, 0, 0)));
    assert!(!block.contains(&Ipv4Addr::new(172, 15, 255, 255)));
    let one = Cidr4 { addr: Ipv4Addr::new(1, 2, 3, 4), len: 32 };
    assert!(one.contains(&Ipv4Addr::new(1, 2, 3, 4)));
    assert!(!one.contains(&Ipv4Addr::new(1, 2, 3, 5)));
    let over = Cidr4 { addr: Ipv4Addr::new(1, 2, 3, 4), len: 200 };
    assert!(over.contains(&Ipv4Addr::new(1, 2, 3, 4)));
    assert!(!over.contains(&Ipv4Addr::new(1, 2, 3, 5)));
    let all = Cidr4 { addr: Ipv4Addr::new(1, 2, 3, 4), len: 0 };
    assert!(all.contains(&Ipv4Addr::new(200, 0, 0, 1)));
    let six = Cidr6 { addr: Ipv6Addr::new(0xfc00, 0, 0, 0, 0, 0, 0, 0), len: 7 };
    assert!(six.contains(&Ipv6Addr::new(0xfdff, 1, 2, 3, 4, 5, 6, 7)));
    assert!(!six.contains(&Ipv6Addr::new(0xfe00, 0, 0, 0, 0, 0, 0, 0)));
    assert!(Cidr6::localloop().contains(&Ipv6Addr::new(0, 0, 0, 0, 0, 0, 0, 1)));
    assert!(!Cidr6::localloop().contains(&Ipv6Addr::new(0, 0, 0, 0, 0, 0, 0, 2)));
    assert!(Cidr4::localloop().contains(&Ipv4Addr::new(127, 9, 9, 9)));
    assert!(!Cidr::V4(Cidr4::localloop()).contains(&IpAddr::V6(Ipv6Addr::new(0, 0, 0, 0, 0, 0, 0, 1))));
}

#[test]
fn blocks_from_text() {
    assert_eq!(
        Cidr::from_str("10.0.0.0/8"),
        Some(Cidr::V4(Cidr4 { addr: Ipv4Addr::new(10, 0, 0, 0), len: 8 }))
    );
    assert_eq!(
        Cidr::from_str("fc00::/7"),
        Some(Cidr::V6(Cidr6 { addr: Ipv6Addr::new(0xfc00, 0, 0, 0, 0, 0, 0, 0), len: 7 }))
    );
    assert_eq!(
        Cidr::from_str("::1/128"),
        Some(Cidr::V6(Cidr6 { addr: Ipv6Addr::new(0, 0, 0, 0, 0, 0, 0, 1), len: 128 }))
    );
    assert_eq!(Cidr::from_str("10.0.0.0/33"), None);
    assert_eq!(Cidr::from_str("::/129"), None);
    assert_eq!(Cidr::from_str("10.0.0.0"), None);
    assert_eq!(Cidr::from_str("10.0.0.0/"), None);
    assert_eq!(Cidr::from_str("10.0.0.0/8/8"), None);
    assert_eq!(Cidr::from_str("/8"), None);
    assert_eq!(Cidr::from_str("example.com/8"), None);
}

#[test]
fn private_networks() {
    assert_eq!(
        Cidr::private_networks(),
        vec![
            Cidr::from_str("10.0.0.0/8").unwrap(),
            Cidr::from_str("172.16.0.0/12").unwrap(),
            Cidr::from_str("192.168.0.0/16").unwrap(),
            Cidr::from_str("fc00::/7").unwrap(),
        ]
    );
}

#[test]
fn domain_names() {
    assert!(DomainName::from_str("example.com").is_some());
    assert!(DomainName::from_str("a_b-c.example").is_some());
    assert!(DomainName::from_str("").is_none());
    assert!(DomainName::from_str("exa mple.com").is_none());
    assert!(DomainName::from_str("example.com/8").is_none());
    assert!(DomainName::from_str(&"a".repeat(255)).is_some());
    assert!(DomainName::from_str(&"a".repeat(256)).is_none());
    let domain = DomainName::from_str("Example.com").unwrap();
    assert_eq!(domain.as_str(), "Example.com");
    assert!(domain.covers(&DomainName::from_str("example.COM").unwrap()));
    assert!(domain.covers(&DomainName::from_str("a.b.example.com").unwrap()));
    assert!(!domain.covers(&DomainName::from_str("com").unwrap()));
    assert!(!domain.covers(&DomainName::from_str("xexample.com").unwrap()));
}
