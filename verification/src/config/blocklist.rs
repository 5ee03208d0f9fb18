//! The rule that denies what is blocked.

use vstd::prelude::*;
use vstd::string::*;
use vstd::utf8::encode_utf8;
use crate::net::addr::IpAddr;
use crate::net::grammar::parse_ip_addr;
use crate::protocol::socks_addr::{is_domain_name, DomainName};
use crate::router::cidr::{parse_cidr, spec_private_networks, Cidr, Cidr4, Cidr6};
use crate::router::rule::{views, Destination, DestinationView, PlainRule};
use crate::ascii::str_eq;
use super::error::{Error, Refusal};

verus! {

/// The private networks, as destinations.
pub open spec fn lan() -> Seq<DestinationView> {
    Seq::new(spec_private_networks().len(), |i: int| DestinationView::Cidr(spec_private_networks()[i]))
}

/// The loopback blocks of both families, as destinations.
pub open spec fn localhost() -> Seq<DestinationView> {
    seq![
        DestinationView::Cidr(Cidr::V4(Cidr4::spec_localloop())),
        DestinationView::Cidr(Cidr::V6(Cidr6::spec_localloop())),
    ]
}

/// What one word of a block list stands for: `@lan` for the private
/// networks, `@localhost` for the loopback blocks; any other word for the
/// address that it is, else the domain, else the block. `None` where it
/// is none of these.
pub open spec fn expand(part: Seq<char>) -> Option<Seq<DestinationView>> {
    let bytes = encode_utf8(part);
    if part == "@lan"@ {
        Some(lan())
    } else if part == "@localhost"@ {
        Some(localhost())
    } else if parse_ip_addr(bytes) is Some {
        Some(seq![DestinationView::Ip(parse_ip_addr(bytes)->0)])
    } else if is_domain_name(bytes) {
        Some(seq![DestinationView::Domain(bytes)])
    } else if parse_cidr(bytes) is Some {
        Some(seq![DestinationView::Cidr(parse_cidr(bytes)->0)])
    } else {
        None
    }
}

/// What the first `n` words stand for, in order.
pub open spec fn expand_all(parts: Seq<Seq<char>>, n: int) -> Seq<DestinationView>
    decreases n,
{
    if n <= 0 {
        Seq::empty()
    } else {
        expand_all(parts, n - 1) + (match expand(parts[n - 1]) {
            Some(dsts) => dsts,
            None => Seq::empty(),
        })
    }
}

/// Whether each of the first `n` words stands for something.
pub open spec fn all_valid(parts: Seq<Seq<char>>, n: int) -> bool {
    forall|i: int| 0 <= i < n && i < parts.len() ==> expand(#[trigger] parts[i]) is Some
}

/// Whether the word at `k` is the first that stands for nothing.
pub open spec fn first_invalid(parts: Seq<Seq<char>>, k: int) -> bool {
    0 <= k < parts.len() && expand(parts[k]) is None && all_valid(parts, k)
}

/// What is blocked: unless the local network is allowed, the private
/// networks and the loopback blocks; then what the words stand for.
pub open spec fn blocked(allow_lan: bool, parts: Seq<Seq<char>>) -> Seq<DestinationView> {
    (if allow_lan {
        Seq::<DestinationView>::empty()
    } else {
        lan() + localhost()
    }) + expand_all(parts, parts.len() as int)
}

/// The words of a block list, over their characters.
pub open spec fn words(block_list: Seq<String>) -> Seq<Seq<char>> {
    Seq::new(block_list.len(), |i: int| block_list[i]@)
}

/// Whether `rules` deny what `dsts` name: no rule where nothing is
/// named, else one rule for all inbounds and without an outbound.
pub open spec fn denies(rules: Seq<PlainRule>, dsts: Seq<DestinationView>) -> bool {
    if dsts.len() == 0 {
        rules.len() == 0
    } else {
        &&& rules.len() == 1
        &&& views(rules[0].dsts@) == dsts
        &&& rules[0].outbound_tag is None
        &&& rules[0].inbound_tags@.len() == 0
    }
}

fn push_lan(buf: &mut Vec<Destination>)
    ensures
        views(final(buf)@) == views(old(buf)@) + lan(),
{
    let networks = Cidr::private_networks();
    let ghost start = views(buf@);
    let mut i: usize = 0;
    while i < networks.len()
        invariant
            i <= networks@.len(),
            networks@ == spec_private_networks(),
            views(buf@) == start + lan().subrange(0, i as int),
        decreases networks.len() - i,
    {
        let ghost before = views(buf@);
        buf.push(Destination::Cidr(networks[i]));
        proof {
            let item = DestinationView::Cidr(networks@[i as int]);
            assert(lan()[i as int] == item);
            assert(views(buf@) =~= before.push(item));
            assert(lan().subrange(0, i + 1) =~= lan().subrange(0, i as int).push(item));
            assert(views(buf@) =~= start + lan().subrange(0, i + 1));
        }
        i += 1;
    }
    assert(lan().subrange(0, i as int) =~= lan());
}

fn push_localhost(buf: &mut Vec<Destination>)
    ensures
        views(final(buf)@) == views(old(buf)@) + localhost(),
{
    buf.push(Destination::Cidr(Cidr::V4(Cidr4::localloop())));
    buf.push(Destination::Cidr(Cidr::V6(Cidr6::localloop())));
    assert(views(buf@) =~= views(old(buf)@) + localhost());
}

/// Appends what `part` stands for. Gives `false`, and appends nothing,
/// where it stands for nothing.
fn push_part(buf: &mut Vec<Destination>, part: &str) -> (r: bool)
    ensures
        r == expand(part@) is Some,
        r ==> views(final(buf)@) == views(old(buf)@) + expand(part@)->0,
        !r ==> final(buf)@ == old(buf)@,
{
    if str_eq(part, "@lan") {
        push_lan(buf);
        true
    } else if str_eq(part, "@localhost") {
        push_localhost(buf);
        true
    } else if let Some(ip) = IpAddr::from_str(part) {
        buf.push(Destination::Ip(ip));
        assert(views(buf@) =~= views(old(buf)@) + seq![DestinationView::Ip(ip)]);
        true
    } else if let Some(name) = DomainName::from_str(part) {
        buf.push(Destination::Domain(name));
        assert(views(buf@) =~= views(old(buf)@) + seq![DestinationView::Domain(encode_utf8(part@))]);
        true
    } else if let Some(cidr) = Cidr::from_str(part) {
        buf.push(Destination::Cidr(cidr));
        assert(views(buf@) =~= views(old(buf)@) + seq![DestinationView::Cidr(cidr)]);
        true
    } else {
        false
    }
}

/// Whether `e` names the first word that stands for nothing.
pub open spec fn names_first_invalid(parts: Seq<Seq<char>>, e: Refusal) -> bool {
    exists|k: int| first_invalid(parts, k) && e == Refusal::InvalidBlock(#[trigger] parts[k])
}

/// Makes the rules that deny what is blocked: see `blocked` and
/// `denies`. Fails at the first word that stands for nothing, with that
/// word.
pub fn make_blocklist(allow_lan: bool, block_list: &[String]) -> (r: Result<Vec<PlainRule>, Error>)
    ensures
        match r {
            Ok(rules) => all_valid(words(block_list@), block_list@.len() as int) && denies(
                rules@,
                blocked(allow_lan, words(block_list@)),
            ),
            Err(e) => names_first_invalid(words(block_list@), e@),
        },
{
    let ghost parts = words(block_list@);
    let mut dsts: Vec<Destination> = Vec::new();
    if !allow_lan {
        push_lan(&mut dsts);
        push_localhost(&mut dsts);
    }
    let ghost start = views(dsts@);
    assert(start =~= if allow_lan {
        Seq::<DestinationView>::empty()
    } else {
        lan() + localhost()
    });
    let mut i: usize = 0;
    while i < block_list.len()
        invariant
            i <= block_list@.len(),
            parts == words(block_list@),
            all_valid(parts, i as int),
            views(dsts@) == start + expand_all(parts, i as int),
        decreases block_list.len() - i,
    {
        assert(parts[i as int] == block_list@[i as int]@);
        let ghost before = views(dsts@);
        if !push_part(&mut dsts, block_list[i].as_str()) {
            assert(first_invalid(parts, i as int));
            return Err(Error::InvalidBlock(block_list[i].clone()));
        }
        assert(views(dsts@) =~= start + expand_all(parts, i + 1));
        i += 1;
    }
    if dsts.len() == 0 {
        Ok(Vec::new())
    } else {
        let mut rules: Vec<PlainRule> = Vec::new();
        rules.push(PlainRule { inbound_tags: Vec::new(), dsts, outbound_tag: None });
        Ok(rules)
    }
}

} // verus!
