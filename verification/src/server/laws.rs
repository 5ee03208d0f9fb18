//! What holds of every assembly.

use vstd::prelude::*;
use super::builder::{empty_secret_message, Builder, Failure};
use super::registry::{
    carried,
    clash,
    first_clash,
    lemma_registry_in_range,
    lemma_registry_place,
    no_clash,
};
use crate::tag::lookup;
use super::topology::Server;
use crate::router::table::rule_resolved;

verus! {

/// Whether `f` says that the tag of an inbound is taken, of one at `upto`
/// or before, and holds that tag.
pub open spec fn inbound_tag_taken(config: Builder, f: Failure, upto: int) -> bool {
    match f {
        Failure::InboundTagAlreadyExists { ind, tag } => ind <= upto && ind
            < config.inbounds@.len() && tag == config.inbounds@[ind as int].tag@,
        _ => false,
    }
}

/// Whether `f` says that the tag of an outbound is taken, of one at
/// `upto` or before, and holds that tag.
pub open spec fn outbound_tag_taken(config: Builder, f: Failure, upto: int) -> bool {
    match f {
        Failure::OutboundTagAlreadyExists { ind, tag } => ind <= upto && ind
            < config.outbounds@.len() && tag == config.outbounds@[ind as int].tag@,
        _ => false,
    }
}

/// Two inbounds that share a tag other than the empty one cannot be
/// assembled: assembly fails at the tags of the inbounds, at the first
/// inbound whose tag is taken. That is the second of the two, at `i`,
/// where no tag clashes before it.
pub proof fn lemma_shared_inbound_tag(config: Builder, j: int, i: int)
    requires
        0 <= j < i < config.inbounds@.len(),
        config.inbounds@[j].tag@ == config.inbounds@[i].tag@,
        config.inbounds@[i].tag@.len() > 0,
    ensures
        !config.can_assemble(),
        forall|f: Failure| #[trigger]
            config.fails_with(f) ==> inbound_tag_taken(config, f, i),
        no_clash(config.inbound_tags(), Map::empty(), i) ==> forall|f: Failure| #[trigger]
            config.fails_with(f) ==> f == (Failure::InboundTagAlreadyExists {
                ind: i as usize,
                tag: config.inbounds@[i].tag@,
            }),
{
    let tags = config.inbound_tags();
    assert(tags[j] == tags[i]);
    assert(carried(tags, i, tags[i]));
    assert(clash(tags, Map::empty(), i));
}

/// Two outbounds that share a tag other than the empty one cannot be
/// assembled. Where the tags of the inbounds are in order, assembly
/// fails at the tags of the outbounds, at the first outbound whose tag
/// is taken: the second of the two, at `i`, where none clashes before it.
pub proof fn lemma_shared_outbound_tag(config: Builder, j: int, i: int)
    requires
        0 <= j < i < config.outbounds@.len(),
        config.outbounds@[j].tag@ == config.outbounds@[i].tag@,
        config.outbounds@[i].tag@.len() > 0,
    ensures
        !config.can_assemble(),
        config.inbound_tags_ok() ==> forall|f: Failure| #[trigger]
            config.fails_with(f) ==> outbound_tag_taken(config, f, i),
        config.inbound_tags_ok() && no_clash(
            config.outbound_tags(),
            config.inbound_registry(),
            i,
        ) ==> forall|f: Failure| #[trigger]
            config.fails_with(f) ==> f == (Failure::OutboundTagAlreadyExists {
                ind: i as usize,
                tag: config.outbounds@[i].tag@,
            }),
{
    let tags = config.outbound_tags();
    assert(tags[j] == tags[i]);
    assert(carried(tags, i, tags[i]));
    assert(clash(tags, config.inbound_registry(), i));
}

/// An inbound and an outbound that share a tag other than the empty one
/// cannot be assembled: assembly fails at the tags, and where the tags of
/// the inbounds are in order, at an outbound no later than the one at
/// `i`.
pub proof fn lemma_tag_of_both(config: Builder, j: int, i: int)
    requires
        0 <= j < config.inbounds@.len(),
        0 <= i < config.outbounds@.len(),
        config.inbounds@[j].tag@ == config.outbounds@[i].tag@,
        config.outbounds@[i].tag@.len() > 0,
    ensures
        !config.can_assemble(),
        forall|f: Failure| #[trigger]
            config.fails_with(f) ==> f is InboundTagAlreadyExists || f is OutboundTagAlreadyExists,
        config.inbound_tags_ok() ==> forall|f: Failure| #[trigger]
            config.fails_with(f) ==> outbound_tag_taken(config, f, i),
{
    let tag = config.outbounds@[i].tag@;
    assert(config.inbound_tags()[j] == tag);
    assert(config.outbound_tags()[i] == tag);
    assert(carried(config.inbound_tags(), config.inbounds@.len() as int, tag));
    assert(config.inbound_registry().contains_key(tag));
    assert(clash(config.outbound_tags(), config.inbound_registry(), i));
}

/// The empty tag never clashes: with empty tags only, however many, the
/// tags are in order, and assembly is decided by the later stages.
pub proof fn lemma_empty_tags(config: Builder)
    requires
        forall|i: int| 0 <= i < config.inbounds@.len() ==> config.inbounds@[i].tag@.len() == 0,
        forall|i: int| 0 <= i < config.outbounds@.len() ==> config.outbounds@[i].tag@.len() == 0,
    ensures
        config.inbound_tags_ok(),
        config.outbound_tags_ok(),
        forall|f: Failure| #[trigger]
            config.fails_with(f) ==> !(f is InboundTagAlreadyExists) && !(f
                is OutboundTagAlreadyExists),
        config.can_assemble() == (config.rules_ok() && config.inbounds_ok()
            && config.outbounds_ok() && config.api.spec_is_valid() && config.first_zero() is None),
{
    assert forall|i: int| 0 <= i < config.inbounds@.len() implies !clash(
        config.inbound_tags(),
        Map::empty(),
        i,
    ) by {
        assert(config.inbound_tags()[i] == config.inbounds@[i].tag@);
    }
    assert forall|i: int| 0 <= i < config.outbounds@.len() implies !clash(
        config.outbound_tags(),
        config.inbound_registry(),
        i,
    ) by {
        assert(config.outbound_tags()[i] == config.outbounds@[i].tag@);
    }
}

/// The server carries every limit as it was configured, and the default
/// for each that was not: the buffer size in bytes, 1024 for each
/// kilobyte. No limit of a server is zero.
pub proof fn lemma_limits(config: Builder, server: Server)
    requires
        config.assembles(server),
    ensures
        match config.dial_tcp_timeout_ms {
            Some(ms) => ms != 0 && server.dial_tcp_timeout_ms == ms,
            None => server.dial_tcp_timeout_ms == 10_000,
        },
        match config.outbound_handshake_timeout_ms {
            Some(ms) => ms != 0 && server.outbound_handshake_timeout_ms == ms,
            None => server.outbound_handshake_timeout_ms == 20_000,
        },
        match config.relay_buffer_size_kb {
            Some(kb) => kb != 0 && server.relay_buffer_size == kb * 1024,
            None => server.relay_buffer_size == 16_384,
        },
        config.relay_buffer_size_kb == Some(16usize) ==> server.relay_buffer_size == 16_384,
        match config.relay_timeout_secs {
            Some(secs) => secs != 0 && server.relay_timeout_secs == secs,
            None => server.relay_timeout_secs == 300,
        },
        match config.udp_session_timeout_ms {
            Some(ms) => ms != 0 && server.udp_session_timeout_ms == ms,
            None => server.udp_session_timeout_ms == 20_000,
        },
{
}

/// A limit that is configured as zero cannot be assembled. Where all
/// stages before the limits pass, assembly fails with the name of the
/// first limit that is zero.
pub proof fn lemma_zero_limit(config: Builder)
    requires
        config.dial_tcp_timeout_ms == Some(0u64) || config.outbound_handshake_timeout_ms == Some(
            0u64,
        ) || config.relay_buffer_size_kb == Some(0usize) || config.relay_timeout_secs == Some(
            0usize,
        ) || config.udp_session_timeout_ms == Some(0u64),
    ensures
        !config.can_assemble(),
        config.first_zero() is Some,
        config.inbound_tags_ok() && config.outbound_tags_ok() && config.rules_ok()
            && config.inbounds_ok() && config.outbounds_ok() && config.api.spec_is_valid()
            ==> forall|f: Failure| #[trigger]
            config.fails_with(f) <==> f == Failure::ValueIsZero(config.first_zero()->0),
{
}

/// A web interface without a secret cannot be assembled. Where all
/// stages before it pass, assembly fails with the error of the
/// interface.
pub proof fn lemma_empty_secret(config: Builder)
    requires
        config.api is WebApi,
        !config.api.spec_is_valid(),
    ensures
        !config.can_assemble(),
        config.inbound_tags_ok() && config.outbound_tags_ok() && config.rules_ok()
            && config.inbounds_ok() && config.outbounds_ok() ==> forall|f: Failure| #[trigger]
            config.fails_with(f) <==> f == Failure::Api(empty_secret_message()),
{
}

/// A web interface with a secret never stands in the way of assembly.
pub proof fn lemma_secret(config: Builder)
    requires
        config.api is WebApi,
        config.api.spec_is_valid(),
    ensures
        config.api.spec_is_valid(),
        forall|f: Failure| #[trigger] config.fails_with(f) ==> !(f is Api),
{
}

/// Assembly has one outcome: a configuration that can be assembled fails
/// with nothing, and one that cannot fails with one error only.
pub proof fn lemma_one_failure(config: Builder, f: Failure, g: Failure)
    requires
        config.fails_with(f),
        config.fails_with(g),
    ensures
        f == g,
        !config.can_assemble(),
{
    match (f, g) {
        (
            Failure::InboundTagAlreadyExists { ind: i, tag: _ },
            Failure::InboundTagAlreadyExists { ind: j, tag: _ },
        ) => {
            lemma_one_first_clash(config.inbound_tags(), Map::empty(), i as int, j as int);
        },
        (
            Failure::OutboundTagAlreadyExists { ind: i, tag: _ },
            Failure::OutboundTagAlreadyExists { ind: j, tag: _ },
        ) => {
            lemma_one_first_clash(
                config.outbound_tags(),
                config.inbound_registry(),
                i as int,
                j as int,
            );
        },
        (Failure::Router { rule: i, tag: s }, Failure::Router { rule: j, tag: t }) => {
            crate::router::table::lemma_one_first_unknown(
                config.router.rules@[i as int],
                s,
                t,
                config.inbound_registry(),
                config.outbound_registry(),
            );
        },
        _ => {},
    }
}

proof fn lemma_one_first_clash(
    tags: Seq<Seq<char>>,
    other: Map<Seq<char>, usize>,
    i: int,
    j: int,
)
    requires
        first_clash(tags, other, i),
        first_clash(tags, other, j),
    ensures
        i == j,
{
}

/// In a server the two maps give for every tag but the empty one the
/// place of its endpoint.
pub proof fn lemma_tags_give_places(config: Builder, server: Server)
    requires
        config.assembles(server),
        config.inbounds@.len() <= usize::MAX,
        config.outbounds@.len() <= usize::MAX,
    ensures
        forall|i: int|
            0 <= i < config.inbounds@.len() && (#[trigger] config.inbounds@[i]).tag@.len() > 0
                ==> lookup(server.inbound_tags@, config.inbounds@[i].tag@) == Some(i as usize),
        forall|i: int|
            0 <= i < config.outbounds@.len() && (#[trigger] config.outbounds@[i]).tag@.len() > 0
                ==> lookup(server.outbound_tags@, config.outbounds@[i].tag@) == Some(i as usize),
        !server.inbound_tags@.contains_key(Seq::empty()),
        !server.outbound_tags@.contains_key(Seq::empty()),
{
    assert forall|i: int|
        0 <= i < config.inbounds@.len() && (#[trigger] config.inbounds@[i]).tag@.len()
            > 0 implies lookup(server.inbound_tags@, config.inbounds@[i].tag@) == Some(
        i as usize,
    ) by {
        assert(config.inbound_tags()[i] == config.inbounds@[i].tag@);
        lemma_registry_place(config.inbound_tags(), Map::empty(), i);
    }
    assert forall|i: int|
        0 <= i < config.outbounds@.len() && (#[trigger] config.outbounds@[i]).tag@.len()
            > 0 implies lookup(server.outbound_tags@, config.outbounds@[i].tag@) == Some(
        i as usize,
    ) by {
        assert(config.outbound_tags()[i] == config.outbounds@[i].tag@);
        lemma_registry_place(config.outbound_tags(), config.inbound_registry(), i);
    }
}

/// In a server every rule names inbounds and an outbound that exist,
/// each by the place at which its tag stands in the configuration.
pub proof fn lemma_rules_name_endpoints(config: Builder, server: Server, i: int)
    requires
        config.assembles(server),
        config.inbounds@.len() <= usize::MAX,
        config.outbounds@.len() <= usize::MAX,
        0 <= i < server.router.rules@.len(),
    ensures
        forall|k: int|
            0 <= k < server.router.rules@[i].inbound_inds@.len() ==> {
                let ind = #[trigger] server.router.rules@[i].inbound_inds@[k];
                ind < server.inbounds@.len() && config.inbounds@[ind as int].tag@
                    == config.router.rules@[i].inbound_tags@[k]@
            },
        match (server.router.rules@[i].outbound_ind, config.router.rules@[i].outbound_tag) {
            (Some(ind), Some(tag)) => ind < server.outbounds@.len() && tag@
                == config.outbounds@[ind as int].tag@,
            (None, None) => true,
            _ => false,
        },
{
    let plain = config.router.rules@[i];
    let rule = server.router.rules@[i];
    assert(rule_resolved(plain, rule, config.inbound_registry(), config.outbound_registry()));
    assert forall|k: int| 0 <= k < rule.inbound_inds@.len() implies {
        let ind = #[trigger] rule.inbound_inds@[k];
        ind < server.inbounds@.len() && config.inbounds@[ind as int].tag@
            == plain.inbound_tags@[k]@
    } by {
        let tag = plain.inbound_tags@[k]@;
        lemma_registry_in_range(config.inbound_tags(), tag);
    }
    if let Some(ind) = rule.outbound_ind {
        let tag = plain.outbound_tag->0@;
        lemma_registry_in_range(config.outbound_tags(), tag);
    }
}

} // verus!
