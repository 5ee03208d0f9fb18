use ladder_lib::net::{Ipv4Addr, SocketAddr};
use ladder_lib::transport::{browser, h2, tls, ws, Builder, Error, Outbound};

fn tls_settings(alpns: &[&str]) -> tls::OutboundBuilder {
    tls::OutboundBuilder { alpns: alpns.iter().map(|a| a.to_string()).collect(), ca_file: None }
}

#[test]
fn each_kind_builds_its_own() {
    assert_eq!(
        Builder::Tls(tls_settings(&["h2", "http/1.1"])).build().unwrap(),
        Outbound::Tls(tls::Outbound {
            alpns: vec!["h2".to_string(), "http/1.1".to_string()],
            ca_file: None,
        })
    );
    assert_eq!(
        Builder::Ws(ws::OutboundBuilder {
            path: "/ws".to_string(),
            host: "example.com".to_string(),
            tls: Some(tls_settings(&[])),
        })
        .build()
        .unwrap(),
        Outbound::Ws(ws::Outbound {
            path: "/ws".to_string(),
            host: "example.com".to_string(),
            tls: Some(tls::Outbound { alpns: Vec::new(), ca_file: None }),
        })
    );
    assert_eq!(
        Builder::H2(h2::OutboundBuilder { path: String::new(), host: String::new(), tls: None })
            .build()
            .unwrap(),
        Outbound::H2(h2::Outbound { path: String::new(), host: String::new(), tls: None })
    );
    assert_eq!(
        Builder::Browser(browser::SettingsBuilder { addr: "127.0.0.1:9000".to_string() })
            .build()
            .unwrap(),
        Outbound::Browser(browser::Settings {
            addr: SocketAddr::V4 { ip: Ipv4Addr::new(127, 0, 0, 1), port: 9000 },
        })
    );
}

#[test]
fn each_kind_fails_by_its_own_rules() {
    assert_eq!(
        Builder::Tls(tls_settings(&["h2", "", ""])).build().unwrap_err(),
        Error::Tls(tls::Error::InvalidAlpn { ind: 1 })
    );
    let long = "x".repeat(256);
    assert_eq!(
        Builder::Tls(tls_settings(&[&"x".repeat(255), &long])).build().unwrap_err(),
        Error::Tls(tls::Error::InvalidAlpn { ind: 1 })
    );
    assert_eq!(
        Builder::Ws(ws::OutboundBuilder {
            path: "ws".to_string(),
            host: String::new(),
            tls: Some(tls_settings(&[""])),
        })
        .build()
        .unwrap_err(),
        Error::Ws(ws::Error::InvalidPath)
    );
    assert_eq!(
        Builder::Ws(ws::OutboundBuilder {
            path: "/".to_string(),
            host: String::new(),
            tls: Some(tls_settings(&[""])),
        })
        .build()
        .unwrap_err(),
        Error::Ws(ws::Error::Tls(tls::Error::InvalidAlpn { ind: 0 }))
    );
    assert_eq!(
        Builder::H2(h2::OutboundBuilder { path: "x/".to_string(), host: String::new(), tls: None })
            .build()
            .unwrap_err(),
        Error::H2(h2::Error::InvalidPath)
    );
    assert_eq!(
        Builder::H2(h2::OutboundBuilder {
            path: String::new(),
            host: String::new(),
            tls: Some(tls_settings(&["a", ""])),
        })
        .build()
        .unwrap_err(),
        Error::H2(h2::Error::Tls(tls::Error::InvalidAlpn { ind: 1 }))
    );
    assert_eq!(
        Builder::Browser(browser::SettingsBuilder { addr: "localhost:9000".to_string() })
            .build()
            .unwrap_err(),
        Error::Browser(browser::Error::InvalidAddr)
    );
}

#[test]
fn texts_for_listings() {
    let tls = Builder::Tls(tls_settings(&[]));
    assert_eq!(tls.fmt_brief(), "tls");
    assert_eq!(tls.fmt_detail(), "tls");
    let ws = Builder::Ws(ws::OutboundBuilder {
        path: "/p".to_string(),
        host: "h.example".to_string(),
        tls: None,
    });
    assert_eq!(ws.fmt_brief(), "ws");
    assert_eq!(ws.fmt_detail(), "ws(host:'h.example',path:'/p')");
    let h2 = Builder::H2(h2::OutboundBuilder {
        path: "/q".to_string(),
        host: String::new(),
        tls: None,
    });
    assert_eq!(h2.fmt_brief(), "h2");
    assert_eq!(h2.fmt_detail(), "h2(host:'',path:'/q')");
    let browser = Builder::Browser(browser::SettingsBuilder { addr: "[::1]:1".to_string() });
    assert_eq!(browser.fmt_brief(), "browser");
    assert_eq!(browser.fmt_detail(), "browser(addr:'[::1]:1')");
}
