//! A server's configuration from two URLs and a block list.

use vstd::prelude::*;
use vstd::string::*;
use crate::router;
use crate::server;
use crate::server::api::Api;
use crate::ascii::str_eq;
use crate::uri;
use crate::uri::url_parts;
use super::blocklist::{
    all_valid,
    blocked,
    denies,
    make_blocklist,
    names_first_invalid,
    words,
};
use super::error::{Error, Refusal};

verus! {

/// The word for the outbound that goes straight to the target.
pub open spec fn freedom() -> Seq<char> {
    "freedom"@
}

/// Why the URL of the inbound gives no listener, if it gives none.
pub open spec fn inbound_refusal(in_url: Seq<char>) -> Option<Refusal> {
    match url_parts(in_url) {
        None => Some(Refusal::InvalidUrl(in_url)),
        Some(url) => match server::inbound::url_failure(url) {
            Some(e) => Some(Refusal::Inbound(e)),
            None => None,
        },
    }
}

/// Why the word for the outbound gives no upstream, if it gives none.
pub open spec fn outbound_refusal(out_url: Seq<char>) -> Option<Refusal> {
    if out_url == freedom() {
        None
    } else {
        match url_parts(out_url) {
            None => Some(Refusal::InvalidUrl(out_url)),
            Some(url) => match server::outbound::url_failure(url) {
                Some(e) => Some(Refusal::Outbound(e)),
                None => None,
            },
        }
    }
}

/// Whether the words are refused with `e`: the block list is looked at
/// first, then the inbound, then the outbound.
pub open spec fn refuses(
    in_url: Seq<char>,
    out_url: Seq<char>,
    parts: Seq<Seq<char>>,
    e: Refusal,
) -> bool {
    if !all_valid(parts, parts.len() as int) {
        names_first_invalid(parts, e)
    } else if inbound_refusal(in_url) is Some {
        Some(e) == inbound_refusal(in_url)
    } else {
        Some(e) == outbound_refusal(out_url)
    }
}

/// Whether `config` is what the words ask for: one inbound and one
/// outbound as the URLs name them, the outbound straight to the target
/// for the word `freedom`; the rules that deny what is blocked; and
/// nothing else configured.
pub open spec fn configures(
    in_url: Seq<char>,
    out_url: Seq<char>,
    allow_lan: bool,
    parts: Seq<Seq<char>>,
    config: server::Builder,
) -> bool {
    &&& all_valid(parts, parts.len() as int)
    &&& inbound_refusal(in_url) is None
    &&& outbound_refusal(out_url) is None
    &&& config.inbounds@.len() == 1
    &&& server::inbound::url_names(url_parts(in_url)->0, config.inbounds@[0])
    &&& config.outbounds@.len() == 1
    &&& if out_url == freedom() {
        config.outbounds@[0].tag@.len() == 0 && config.outbounds@[0].settings
            == server::outbound::Details::Freedom
    } else {
        server::outbound::url_names(url_parts(out_url)->0, config.outbounds@[0])
    }
    &&& denies(config.router.rules@, blocked(allow_lan, parts))
    &&& config.api == Api::Disabled
    &&& config.dns is None
    &&& config.dial_tcp_timeout_ms is None
    &&& config.outbound_handshake_timeout_ms is None
    &&& config.relay_buffer_size_kb is None
    &&& config.relay_timeout_secs is None
    &&& config.udp_session_timeout_ms is None
}

/// Reads a URL: its parts, or the text as the reason why it has none.
pub fn read_url(text: &str) -> (r: Result<uri::UrlParts, Error>)
    ensures
        match r {
            Ok(parts) => url_parts(text@) == Some(parts@),
            Err(e) => url_parts(text@) is None && e@ == Refusal::InvalidUrl(text@),
        },
{
    match uri::parse(text) {
        Ok(parts) => Ok(parts),
        Err(_) => Err(Error::InvalidUrl(text.to_owned())),
    }
}

/// The listener that the URL `in_url` names.
pub fn make_inbound(in_url: &str) -> (r: Result<server::inbound::Builder, Error>)
    ensures
        match r {
            Ok(b) => inbound_refusal(in_url@) is None && server::inbound::url_names(
                url_parts(in_url@)->0,
                b,
            ),
            Err(e) => inbound_refusal(in_url@) == Some(e@),
        },
{
    let url = match read_url(in_url) {
        Ok(url) => url,
        Err(e) => {
            return Err(e);
        },
    };
    match server::inbound::Builder::parse_url(&url) {
        Ok(b) => Ok(b),
        Err(e) => Err(Error::Inbound(e)),
    }
}

/// The upstream that `out_url` names: the one that goes straight to the
/// target for the word `freedom`, else the proxy of that URL.
pub fn make_outbound(out_url: &str) -> (r: Result<server::outbound::Builder, Error>)
    ensures
        match r {
            Ok(b) => outbound_refusal(out_url@) is None && if out_url@ == freedom() {
                b.tag@.len() == 0 && b.settings == server::outbound::Details::Freedom
            } else {
                server::outbound::url_names(url_parts(out_url@)->0, b)
            },
            Err(e) => outbound_refusal(out_url@) == Some(e@),
        },
{
    if str_eq(out_url, "freedom") {
        return Ok(server::outbound::Builder::new_freedom());
    }
    let url = match read_url(out_url) {
        Ok(url) => url,
        Err(e) => {
            return Err(e);
        },
    };
    match server::outbound::Builder::parse_url(&url) {
        Ok(b) => Ok(b),
        Err(e) => Err(Error::Outbound(e)),
    }
}

/// Makes the configuration of a server with one inbound, one outbound
/// and a block list: see `configures` for what it holds and `refuses` for
/// when there is none.
pub fn make_config_from_args(
    in_url: &str,
    out_url: &str,
    allow_lan: bool,
    block_list: &[String],
) -> (r: Result<server::Builder, Error>)
    ensures
        match r {
            Ok(config) => configures(in_url@, out_url@, allow_lan, words(block_list@), config),
            Err(e) => refuses(in_url@, out_url@, words(block_list@), e@),
        },
{
    let rules = match make_blocklist(allow_lan, block_list) {
        Ok(rules) => rules,
        Err(e) => {
            return Err(e);
        },
    };
    let inbound = match make_inbound(in_url) {
        Ok(b) => b,
        Err(e) => {
            return Err(e);
        },
    };
    let outbound = match make_outbound(out_url) {
        Ok(b) => b,
        Err(e) => {
            return Err(e);
        },
    };
    let mut inbounds: Vec<server::inbound::Builder> = Vec::new();
    inbounds.push(inbound);
    let mut outbounds: Vec<server::outbound::Builder> = Vec::new();
    outbounds.push(outbound);
    Ok(
        server::Builder {
            inbounds,
            outbounds,
            router: router::Builder { rules },
            api: Api::Disabled,
            dns: None,
            dial_tcp_timeout_ms: None,
            outbound_handshake_timeout_ms: None,
            relay_buffer_size_kb: None,
            relay_timeout_secs: None,
            udp_session_timeout_ms: None,
        },
    )
}

} // verus!
