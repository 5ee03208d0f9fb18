//! The configuration of a server, and its assembly.
//!
//! Assembly goes by stages: the tags of the inbounds are registered, then
//! those of the outbounds; the router is built against the two maps; the
//! inbounds are built, then the outbounds; the management interface is
//! checked; the limits are resolved. The first stage that fails ends the
//! work with its error, and no server is made.

use vstd::prelude::*;
use vstd::string::*;
use crate::router;
use crate::router::table::{
    answers_by,
    lemma_first_unknown_by_maps,
    lemma_resolvable_by_maps,
    lemma_resolved_by_maps,
    rule_first_unknown,
    rule_known,
    rule_resolved,
};
use crate::router::Router;
use crate::tag::{lookup, Tag};
use super::api::Api;
use super::dns;
use super::inbound;
use super::outbound;
use super::registry::{
    first_clash,
    lemma_registers_all,
    lemma_registers_next,
    no_clash,
    registers,
    registry,
};
use super::tags::TagMap;
use super::topology::Server;

verus! {

/// Bytes in a kilobyte.
pub const KB: usize = 1024;

pub const DEFAULT_DIAL_TCP_TIMEOUT_MS: u64 = 10_000;

pub const DEFAULT_OUTBOUND_HANDSHAKE_TIMEOUT_MS: u64 = 20_000;

pub const DEFAULT_RELAY_BUFFER_SIZE_KB: usize = 16;

pub const DEFAULT_RELAY_TIMEOUT_SECS: usize = 300;

pub const DEFAULT_UDP_SESSION_TIMEOUT_MS: u64 = 20_000;

/// How long a datagram session may stay without traffic where the
/// configuration does not say, in milliseconds.
pub fn default_udp_session_timeout_ms() -> (r: u64)
    ensures
        r == DEFAULT_UDP_SESSION_TIMEOUT_MS,
{
    DEFAULT_UDP_SESSION_TIMEOUT_MS
}

/// Why a server cannot be assembled.
#[derive(Debug, PartialEq, Eq)]
pub enum BuildError {
    /// The tag of the inbound at `ind` is taken.
    InboundTagAlreadyExists { ind: usize, tag: Tag },
    /// The tag of the outbound at `ind` is taken.
    OutboundTagAlreadyExists { ind: usize, tag: Tag },
    /// The inbound at `ind` cannot be built.
    Inbound { ind: usize, err: inbound::Error },
    /// The outbound at `ind` cannot be built.
    Outbound { ind: usize, err: outbound::Error },
    /// The router cannot be built.
    Router(router::Error),
    /// The management interface cannot be offered.
    Api(String),
    /// The limit of this name is zero.
    ValueIsZero(&'static str),
}

/// A `BuildError` over the characters of the texts that it holds.
pub enum Failure {
    InboundTagAlreadyExists { ind: usize, tag: Seq<char> },
    OutboundTagAlreadyExists { ind: usize, tag: Seq<char> },
    Inbound { ind: usize, err: inbound::Error },
    Outbound { ind: usize, err: outbound::Error },
    Router { rule: usize, tag: Seq<char> },
    Api(Seq<char>),
    ValueIsZero(Seq<char>),
}

impl View for BuildError {
    type V = Failure;

    open spec fn view(&self) -> Failure {
        match self {
            BuildError::InboundTagAlreadyExists { ind, tag } => Failure::InboundTagAlreadyExists {
                ind: *ind,
                tag: tag@,
            },
            BuildError::OutboundTagAlreadyExists { ind, tag } => Failure::OutboundTagAlreadyExists {
                ind: *ind,
                tag: tag@,
            },
            BuildError::Inbound { ind, err } => Failure::Inbound { ind: *ind, err: *err },
            BuildError::Outbound { ind, err } => Failure::Outbound { ind: *ind, err: *err },
            BuildError::Router(router::Error::UnknownTag { rule, tag }) => Failure::Router {
                rule: *rule,
                tag: tag@,
            },
            BuildError::Api(message) => Failure::Api(message@),
            BuildError::ValueIsZero(name) => Failure::ValueIsZero(name@),
        }
    }
}

/// The configuration of a server.
#[derive(Debug)]
pub struct Builder {
    pub inbounds: Vec<inbound::Builder>,
    pub outbounds: Vec<outbound::Builder>,
    pub router: router::Builder,
    pub api: Api,
    pub dns: Option<dns::Config>,
    /// A TCP connection is given up if it is not established within this
    /// many milliseconds. 10000 where `None`.
    pub dial_tcp_timeout_ms: Option<u64>,
    /// The handshake with an upstream is given up if it is not done
    /// within this many milliseconds. 20000 where `None`.
    pub outbound_handshake_timeout_ms: Option<u64>,
    /// The size of a relay buffer in kilobytes. 16 where `None`.
    pub relay_buffer_size_kb: Option<usize>,
    /// A relay is closed if no byte passes for this many seconds. 300
    /// where `None`.
    pub relay_timeout_secs: Option<usize>,
    /// A datagram session is closed if nothing is read or written for
    /// this many milliseconds. 20000 where `None`.
    pub udp_session_timeout_ms: Option<u64>,
}

impl Default for Builder {
    fn default() -> (r: Self)
        ensures
            r.inbounds@.len() == 0,
            r.outbounds@.len() == 0,
            r.router.rules@.len() == 0,
            r.api == Api::Disabled,
            r.dns is None,
            r.dial_tcp_timeout_ms is None,
            r.outbound_handshake_timeout_ms is None,
            r.relay_buffer_size_kb is None,
            r.relay_timeout_secs is None,
            r.udp_session_timeout_ms is None,
    {
        Builder {
            inbounds: Vec::new(),
            outbounds: Vec::new(),
            router: router::Builder { rules: Vec::new() },
            api: Api::Disabled,
            dns: None,
            dial_tcp_timeout_ms: None,
            outbound_handshake_timeout_ms: None,
            relay_buffer_size_kb: None,
            relay_timeout_secs: None,
            udp_session_timeout_ms: None,
        }
    }
}

/// The tags of inbounds, in order.
pub open spec fn tags_of_inbounds(inbounds: Seq<inbound::Builder>) -> Seq<Seq<char>> {
    Seq::new(inbounds.len(), |i: int| inbounds[i].tag@)
}

/// The tags of outbounds, in order.
pub open spec fn tags_of_outbounds(outbounds: Seq<outbound::Builder>) -> Seq<Seq<char>> {
    Seq::new(outbounds.len(), |i: int| outbounds[i].tag@)
}

/// The message of the error for a web interface without a secret.
pub open spec fn empty_secret_message() -> Seq<char> {
    "web API secret cannot be empty"@
}

/// A limit as configured, or its default.
pub open spec fn limit_or<T>(limit: Option<T>, default: T) -> T {
    match limit {
        Some(value) => value,
        None => default,
    }
}

impl Builder {
    pub open spec fn inbound_tags(&self) -> Seq<Seq<char>> {
        tags_of_inbounds(self.inbounds@)
    }

    pub open spec fn outbound_tags(&self) -> Seq<Seq<char>> {
        tags_of_outbounds(self.outbounds@)
    }

    /// The positions that the tags of the inbounds name.
    pub open spec fn inbound_registry(&self) -> Map<Seq<char>, usize> {
        registry(self.inbound_tags())
    }

    /// The positions that the tags of the outbounds name.
    pub open spec fn outbound_registry(&self) -> Map<Seq<char>, usize> {
        registry(self.outbound_tags())
    }

    /// Whether no tag of an inbound but the empty one stands twice.
    pub open spec fn inbound_tags_ok(&self) -> bool {
        no_clash(self.inbound_tags(), Map::empty(), self.inbounds@.len() as int)
    }

    /// Whether no tag of an outbound but the empty one stands twice or
    /// is the tag of an inbound.
    pub open spec fn outbound_tags_ok(&self) -> bool {
        no_clash(self.outbound_tags(), self.inbound_registry(), self.outbounds@.len() as int)
    }

    /// Whether every tag in a rule is the tag of an endpoint.
    pub open spec fn rules_ok(&self) -> bool {
        forall|i: int|
            0 <= i < self.router.rules@.len() ==> rule_known(
                #[trigger] self.router.rules@[i],
                self.inbound_registry(),
                self.outbound_registry(),
            )
    }

    /// Whether every inbound can be built.
    pub open spec fn inbounds_ok(&self) -> bool {
        forall|i: int|
            0 <= i < self.inbounds@.len() ==> (#[trigger] self.inbounds@[i]).failure() is None
    }

    /// Whether every outbound can be built.
    pub open spec fn outbounds_ok(&self) -> bool {
        forall|i: int|
            0 <= i < self.outbounds@.len() ==> (#[trigger] self.outbounds@[i]).failure() is None
    }

    /// The name of the first limit that is configured as zero.
    pub open spec fn first_zero(&self) -> Option<Seq<char>> {
        if self.dial_tcp_timeout_ms == Some(0u64) {
            Some("dial_tcp_timeout_ms"@)
        } else if self.outbound_handshake_timeout_ms == Some(0u64) {
            Some("outbound_handshake_timeout_ms"@)
        } else if self.relay_buffer_size_kb == Some(0usize) {
            Some("relay_buffer_size_kb"@)
        } else if self.relay_timeout_secs == Some(0usize) {
            Some("relay_timeout_secs"@)
        } else if self.udp_session_timeout_ms == Some(0u64) {
            Some("udp_session_timeout_ms"@)
        } else {
            None
        }
    }

    /// Whether a server can be assembled: no stage fails.
    pub open spec fn can_assemble(&self) -> bool {
        &&& self.inbound_tags_ok()
        &&& self.outbound_tags_ok()
        &&& self.rules_ok()
        &&& self.inbounds_ok()
        &&& self.outbounds_ok()
        &&& self.api.spec_is_valid()
        &&& self.first_zero() is None
    }

    /// Whether assembly fails with `f`: the stage of `f` fails, at the
    /// first place where it can and as `f` says, and every stage before
    /// it passes.
    pub open spec fn fails_with(&self, f: Failure) -> bool {
        match f {
            Failure::InboundTagAlreadyExists { ind, tag } => {
                &&& first_clash(self.inbound_tags(), Map::empty(), ind as int)
                &&& tag == self.inbound_tags()[ind as int]
            },
            Failure::OutboundTagAlreadyExists { ind, tag } => {
                &&& self.inbound_tags_ok()
                &&& first_clash(self.outbound_tags(), self.inbound_registry(), ind as int)
                &&& tag == self.outbound_tags()[ind as int]
            },
            Failure::Router { rule, tag } => {
                &&& self.inbound_tags_ok()
                &&& self.outbound_tags_ok()
                &&& rule < self.router.rules@.len()
                &&& rule_first_unknown(
                    self.router.rules@[rule as int],
                    tag,
                    self.inbound_registry(),
                    self.outbound_registry(),
                )
                &&& forall|i: int|
                    0 <= i < rule ==> rule_known(
                        #[trigger] self.router.rules@[i],
                        self.inbound_registry(),
                        self.outbound_registry(),
                    )
            },
            Failure::Inbound { ind, err } => {
                &&& self.inbound_tags_ok()
                &&& self.outbound_tags_ok()
                &&& self.rules_ok()
                &&& ind < self.inbounds@.len()
                &&& self.inbounds@[ind as int].failure() == Some(err)
                &&& forall|i: int|
                    0 <= i < ind ==> (#[trigger] self.inbounds@[i]).failure() is None
            },
            Failure::Outbound { ind, err } => {
                &&& self.inbound_tags_ok()
                &&& self.outbound_tags_ok()
                &&& self.rules_ok()
                &&& self.inbounds_ok()
                &&& ind < self.outbounds@.len()
                &&& self.outbounds@[ind as int].failure() == Some(err)
                &&& forall|i: int|
                    0 <= i < ind ==> (#[trigger] self.outbounds@[i]).failure() is None
            },
            Failure::Api(message) => {
                &&& self.inbound_tags_ok()
                &&& self.outbound_tags_ok()
                &&& self.rules_ok()
                &&& self.inbounds_ok()
                &&& self.outbounds_ok()
                &&& !self.api.spec_is_valid()
                &&& message == empty_secret_message()
            },
            Failure::ValueIsZero(name) => {
                &&& self.inbound_tags_ok()
                &&& self.outbound_tags_ok()
                &&& self.rules_ok()
                &&& self.inbounds_ok()
                &&& self.outbounds_ok()
                &&& self.api.spec_is_valid()
                &&& self.first_zero() == Some(name)
            },
        }
    }

    /// Whether `server` is what this configuration assembles to.
    pub open spec fn assembles(&self, server: Server) -> bool {
        &&& self.can_assemble()
        &&& server.inbounds@.len() == self.inbounds@.len()
        &&& forall|i: int|
            0 <= i < self.inbounds@.len() ==> self.inbounds@[i].builds(
                #[trigger] server.inbounds@[i],
            )
        &&& server.outbounds@.len() == self.outbounds@.len()
        &&& forall|i: int|
            0 <= i < self.outbounds@.len() ==> self.outbounds@[i].builds(
                #[trigger] server.outbounds@[i],
            )
        &&& server.router.rules@.len() == self.router.rules@.len()
        &&& forall|i: int|
            0 <= i < self.router.rules@.len() ==> rule_resolved(
                self.router.rules@[i],
                #[trigger] server.router.rules@[i],
                self.inbound_registry(),
                self.outbound_registry(),
            )
        &&& server.api == self.api
        &&& server.dns == self.dns
        &&& server.inbound_tags.wf()
        &&& server.inbound_tags@ == self.inbound_registry()
        &&& server.outbound_tags.wf()
        &&& server.outbound_tags@ == self.outbound_registry()
        &&& server.dial_tcp_timeout_ms == limit_or(
            self.dial_tcp_timeout_ms,
            DEFAULT_DIAL_TCP_TIMEOUT_MS,
        )
        &&& server.outbound_handshake_timeout_ms == limit_or(
            self.outbound_handshake_timeout_ms,
            DEFAULT_OUTBOUND_HANDSHAKE_TIMEOUT_MS,
        )
        &&& server.relay_buffer_size == limit_or(
            self.relay_buffer_size_kb,
            DEFAULT_RELAY_BUFFER_SIZE_KB,
        ) * KB
        &&& server.relay_timeout_secs == limit_or(
            self.relay_timeout_secs,
            DEFAULT_RELAY_TIMEOUT_SECS,
        )
        &&& server.udp_session_timeout_ms == limit_or(
            self.udp_session_timeout_ms,
            DEFAULT_UDP_SESSION_TIMEOUT_MS,
        )
    }
}

/// Registers `tag` for the position `ind` in `map`. Gives `false` if the
/// tag is taken, in `map` or in `other_map`. The empty tag is never
/// taken, and never registered.
pub fn add_tag(ind: usize, tag: &Tag, map: &mut TagMap, other_map: &TagMap) -> (r: bool)
    requires
        old(map).wf(),
        other_map.wf(),
    ensures
        final(map).wf(),
        tag@.len() == 0 ==> r && final(map)@ == old(map)@,
        tag@.len() > 0 ==> r == (!old(map)@.contains_key(tag@) && !other_map@.contains_key(tag@)),
        tag@.len() > 0 ==> final(map)@ == old(map)@.insert(tag@, ind),
{
    if tag.as_str().is_empty() {
        return true;
    }
    let before = map.insert(tag.clone(), ind);
    let other = other_map.get(tag.as_str());
    before.is_none() && other.is_none()
}

fn register_inbounds(inbounds: &Vec<inbound::Builder>) -> (r: Result<TagMap, BuildError>)
    ensures
        match r {
            Ok(map) => {
                &&& map.wf()
                &&& map@ == registry(tags_of_inbounds(inbounds@))
                &&& no_clash(tags_of_inbounds(inbounds@), Map::empty(), inbounds@.len() as int)
            },
            Err(e) => {
                &&& e matches BuildError::InboundTagAlreadyExists { ind, tag }
                &&& first_clash(tags_of_inbounds(inbounds@), Map::empty(), ind as int)
                &&& tag@ == tags_of_inbounds(inbounds@)[ind as int]
            },
        },
{
    let ghost tags = tags_of_inbounds(inbounds@);
    let none = TagMap::new();
    let mut map = TagMap::new();
    let mut i: usize = 0;
    while i < inbounds.len()
        invariant
            i <= inbounds@.len(),
            tags == tags_of_inbounds(inbounds@),
            none.wf(),
            none@ == Map::<Seq<char>, usize>::empty(),
            map.wf(),
            registers(map@, tags, i as int),
            no_clash(tags, none@, i as int),
        decreases inbounds.len() - i,
    {
        let ghost before = map@;
        assert(tags[i as int] == inbounds@[i as int].tag@);
        if !add_tag(i, &inbounds[i].tag, &mut map, &none) {
            return Err(
                BuildError::InboundTagAlreadyExists { ind: i, tag: inbounds[i].tag.clone() },
            );
        }
        proof {
            lemma_registers_next(before, tags, none@, i as int);
        }
        i += 1;
    }
    proof {
        lemma_registers_all(map@, tags, none@);
    }
    Ok(map)
}

fn register_outbounds(outbounds: &Vec<outbound::Builder>, inbound_tags: &TagMap) -> (r: Result<
    TagMap,
    BuildError,
>)
    requires
        inbound_tags.wf(),
    ensures
        match r {
            Ok(map) => {
                &&& map.wf()
                &&& map@ == registry(tags_of_outbounds(outbounds@))
                &&& no_clash(tags_of_outbounds(outbounds@), inbound_tags@, outbounds@.len() as int)
            },
            Err(e) => {
                &&& e matches BuildError::OutboundTagAlreadyExists { ind, tag }
                &&& first_clash(tags_of_outbounds(outbounds@), inbound_tags@, ind as int)
                &&& tag@ == tags_of_outbounds(outbounds@)[ind as int]
            },
        },
{
    let ghost tags = tags_of_outbounds(outbounds@);
    let mut map = TagMap::new();
    let mut i: usize = 0;
    while i < outbounds.len()
        invariant
            i <= outbounds@.len(),
            tags == tags_of_outbounds(outbounds@),
            inbound_tags.wf(),
            map.wf(),
            registers(map@, tags, i as int),
            no_clash(tags, inbound_tags@, i as int),
        decreases outbounds.len() - i,
    {
        let ghost before = map@;
        assert(tags[i as int] == outbounds@[i as int].tag@);
        if !add_tag(i, &outbounds[i].tag, &mut map, inbound_tags) {
            return Err(
                BuildError::OutboundTagAlreadyExists { ind: i, tag: outbounds[i].tag.clone() },
            );
        }
        proof {
            lemma_registers_next(before, tags, inbound_tags@, i as int);
        }
        i += 1;
    }
    proof {
        lemma_registers_all(map@, tags, inbound_tags@);
    }
    Ok(map)
}

fn build_router(rules: router::Builder, inbound_tags: &TagMap, outbound_tags: &TagMap) -> (r: Result<
    Router,
    BuildError,
>)
    requires
        inbound_tags.wf(),
        outbound_tags.wf(),
    ensures
        match r {
            Ok(router) => {
                &&& router.rules@.len() == rules.rules@.len()
                &&& forall|i: int|
                    0 <= i < rules.rules@.len() ==> rule_resolved(
                        rules.rules@[i],
                        #[trigger] router.rules@[i],
                        inbound_tags@,
                        outbound_tags@,
                    )
                &&& forall|i: int|
                    0 <= i < rules.rules@.len() ==> rule_known(
                        #[trigger] rules.rules@[i],
                        inbound_tags@,
                        outbound_tags@,
                    )
            },
            Err(e) => {
                &&& e matches BuildError::Router(router::Error::UnknownTag { rule, tag })
                &&& rule < rules.rules@.len()
                &&& rule_first_unknown(
                    rules.rules@[rule as int],
                    tag@,
                    inbound_tags@,
                    outbound_tags@,
                )
                &&& forall|i: int|
                    0 <= i < rule ==> rule_known(
                        #[trigger] rules.rules@[i],
                        inbound_tags@,
                        outbound_tags@,
                    )
            },
        },
{
    let ghost plain = rules.rules@;
    let find_inbound = |tag: &str| -> (r: Option<usize>)
        ensures
            r == lookup(inbound_tags@, tag@),
        { inbound_tags.get(tag) };
    let find_outbound = |tag: &str| -> (r: Option<usize>)
        ensures
            r == lookup(outbound_tags@, tag@),
        { outbound_tags.get(tag) };
    assert(answers_by(find_inbound, inbound_tags@));
    assert(answers_by(find_outbound, outbound_tags@));
    match rules.build(find_inbound, find_outbound) {
        Ok(router) => {
            proof {
                assert forall|i: int| 0 <= i < plain.len() implies rule_resolved(
                    plain[i],
                    #[trigger] router.rules@[i],
                    inbound_tags@,
                    outbound_tags@,
                ) by {
                    lemma_resolved_by_maps(
                        plain[i],
                        router.rules@[i],
                        find_inbound,
                        find_outbound,
                        inbound_tags@,
                        outbound_tags@,
                    );
                }
                assert forall|i: int| 0 <= i < plain.len() implies rule_known(
                    #[trigger] plain[i],
                    inbound_tags@,
                    outbound_tags@,
                ) by {
                    lemma_resolved_by_maps(
                        plain[i],
                        router.rules@[i],
                        find_inbound,
                        find_outbound,
                        inbound_tags@,
                        outbound_tags@,
                    );
                }
            }
            Ok(router)
        },
        Err(e) => {
            proof {
                match &e {
                    router::Error::UnknownTag { rule, tag } => {
                        lemma_first_unknown_by_maps(
                            plain[*rule as int],
                            tag@,
                            find_inbound,
                            find_outbound,
                            inbound_tags@,
                            outbound_tags@,
                        );
                        assert forall|i: int| 0 <= i < *rule implies rule_known(
                            #[trigger] plain[i],
                            inbound_tags@,
                            outbound_tags@,
                        ) by {
                            lemma_resolvable_by_maps(
                                plain[i],
                                find_inbound,
                                find_outbound,
                                inbound_tags@,
                                outbound_tags@,
                            );
                        }
                    },
                }
            }
            Err(BuildError::Router(e))
        },
    }
}

fn build_inbounds(inbounds: Vec<inbound::Builder>) -> (r: Result<Vec<inbound::Inbound>, BuildError>)
    ensures
        match r {
            Ok(built) => {
                &&& built@.len() == inbounds@.len()
                &&& forall|i: int|
                    0 <= i < inbounds@.len() ==> (#[trigger] inbounds@[i]).failure() is None
                &&& forall|i: int|
                    0 <= i < inbounds@.len() ==> inbounds@[i].builds(#[trigger] built@[i])
            },
            Err(e) => {
                &&& e matches BuildError::Inbound { ind, err }
                &&& ind < inbounds@.len()
                &&& inbounds@[ind as int].failure() == Some(err)
                &&& forall|i: int| 0 <= i < ind ==> (#[trigger] inbounds@[i]).failure() is None
            },
        },
{
    let ghost all = inbounds@;
    let mut built: Vec<inbound::Inbound> = Vec::new();
    for builder in it: inbounds
        invariant
            it.seq() == all,
            built@.len() == it.index(),
            forall|i: int| 0 <= i < built@.len() ==> (#[trigger] all[i]).failure() is None,
            forall|i: int| 0 <= i < built@.len() ==> all[i].builds(#[trigger] built@[i]),
    {
        match builder.build() {
            Ok(inbound) => {
                built.push(inbound);
            },
            Err(err) => {
                return Err(BuildError::Inbound { ind: built.len(), err });
            },
        }
    }
    Ok(built)
}

fn build_outbounds(outbounds: Vec<outbound::Builder>) -> (r: Result<
    Vec<outbound::Outbound>,
    BuildError,
>)
    ensures
        match r {
            Ok(built) => {
                &&& built@.len() == outbounds@.len()
                &&& forall|i: int|
                    0 <= i < outbounds@.len() ==> (#[trigger] outbounds@[i]).failure() is None
                &&& forall|i: int|
                    0 <= i < outbounds@.len() ==> outbounds@[i].builds(#[trigger] built@[i])
            },
            Err(e) => {
                &&& e matches BuildError::Outbound { ind, err }
                &&& ind < outbounds@.len()
                &&& outbounds@[ind as int].failure() == Some(err)
                &&& forall|i: int| 0 <= i < ind ==> (#[trigger] outbounds@[i]).failure() is None
            },
        },
{
    let ghost all = outbounds@;
    let mut built: Vec<outbound::Outbound> = Vec::new();
    for builder in it: outbounds
        invariant
            it.seq() == all,
            built@.len() == it.index(),
            forall|i: int| 0 <= i < built@.len() ==> (#[trigger] all[i]).failure() is None,
            forall|i: int| 0 <= i < built@.len() ==> all[i].builds(#[trigger] built@[i]),
    {
        match builder.build() {
            Ok(outbound) => {
                built.push(outbound);
            },
            Err(err) => {
                return Err(BuildError::Outbound { ind: built.len(), err });
            },
        }
    }
    Ok(built)
}

/// The limit `val`, which must not be zero; `val_name` names it in the
/// error.
pub fn check_zero(val: u64, val_name: &'static str) -> (r: Result<u64, BuildError>)
    ensures
        match r {
            Ok(v) => val > 0 && v == val,
            Err(e) => val == 0 && e@ == Failure::ValueIsZero(val_name@),
        },
{
    if val > 0 {
        Ok(val)
    } else {
        Err(BuildError::ValueIsZero(val_name))
    }
}

/// As `check_zero`, for a limit that counts in the machine's word.
pub fn check_zero_usize(val: usize, val_name: &'static str) -> (r: Result<usize, BuildError>)
    ensures
        match r {
            Ok(v) => val > 0 && v == val,
            Err(e) => val == 0 && e@ == Failure::ValueIsZero(val_name@),
        },
{
    match check_zero(val as u64, val_name) {
        Ok(_) => Ok(val),
        Err(e) => Err(e),
    }
}

impl Builder {
    /// Assembles the server.
    ///
    /// The size of the relay buffer is asked for in kilobytes and kept in
    /// bytes, so it has to fit the machine's word when multiplied by
    /// 1024.
    pub fn build(self) -> (r: Result<Server, BuildError>)
        requires
            self.relay_buffer_size_kb matches Some(kb) ==> kb * KB <= usize::MAX,
        ensures
            match r {
                Ok(server) => self.assembles(server),
                Err(e) => self.fails_with(e@),
            },
    {
        let ghost config = self;
        let Builder {
            inbounds,
            outbounds,
            router,
            api,
            dns,
            dial_tcp_timeout_ms,
            outbound_handshake_timeout_ms,
            relay_buffer_size_kb,
            relay_timeout_secs,
            udp_session_timeout_ms,
        } = self;

        let inbound_tags = match register_inbounds(&inbounds) {
            Ok(map) => map,
            Err(e) => {
                return Err(e);
            },
        };
        let outbound_tags = match register_outbounds(&outbounds, &inbound_tags) {
            Ok(map) => map,
            Err(e) => {
                return Err(e);
            },
        };
        let router = match build_router(router, &inbound_tags, &outbound_tags) {
            Ok(router) => router,
            Err(e) => {
                return Err(e);
            },
        };
        let inbounds = match build_inbounds(inbounds) {
            Ok(built) => built,
            Err(e) => {
                return Err(e);
            },
        };
        let outbounds = match build_outbounds(outbounds) {
            Ok(built) => built,
            Err(e) => {
                return Err(e);
            },
        };

        if !api.is_valid() {
            return Err(BuildError::Api("web API secret cannot be empty".to_owned()));
        }

        let dial_tcp_timeout_ms = match dial_tcp_timeout_ms {
            Some(val) => match check_zero(val, "dial_tcp_timeout_ms") {
                Ok(val) => val,
                Err(e) => {
                    return Err(e);
                },
            },
            None => DEFAULT_DIAL_TCP_TIMEOUT_MS,
        };
        let outbound_handshake_timeout_ms = match outbound_handshake_timeout_ms {
            Some(val) => match check_zero(val, "outbound_handshake_timeout_ms") {
                Ok(val) => val,
                Err(e) => {
                    return Err(e);
                },
            },
            None => DEFAULT_OUTBOUND_HANDSHAKE_TIMEOUT_MS,
        };
        let relay_buffer_size_kb = match relay_buffer_size_kb {
            Some(val) => match check_zero_usize(val, "relay_buffer_size_kb") {
                Ok(val) => val,
                Err(e) => {
                    return Err(e);
                },
            },
            None => DEFAULT_RELAY_BUFFER_SIZE_KB,
        };
        let relay_buffer_size = relay_buffer_size_kb * KB;
        let relay_timeout_secs = match relay_timeout_secs {
            Some(val) => match check_zero_usize(val, "relay_timeout_secs") {
                Ok(val) => val,
                Err(e) => {
                    return Err(e);
                },
            },
            None => DEFAULT_RELAY_TIMEOUT_SECS,
        };
        let udp_session_timeout_ms = match udp_session_timeout_ms {
            Some(val) => match check_zero(val, "udp_session_timeout_ms") {
                Ok(val) => val,
                Err(e) => {
                    return Err(e);
                },
            },
            None => default_udp_session_timeout_ms(),
        };

        Ok(
            Server {
                inbounds,
                outbounds,
                router,
                api,
                dns,
                inbound_tags,
                outbound_tags,
                dial_tcp_timeout_ms,
                outbound_handshake_timeout_ms,
                relay_buffer_size,
                relay_timeout_secs,
                udp_session_timeout_ms,
            },
        )
    }
}

} // verus!
