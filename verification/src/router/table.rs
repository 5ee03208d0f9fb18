//! The router: rules in order, of which the first that applies decides.

use vstd::prelude::*;
use vstd::string::*;
use crate::protocol::socks_addr::SocksAddr;
use crate::tag::{lookup, Tag};
use super::rule::{PlainRule, Rule};

verus! {

/// Why a router cannot be built.
#[derive(Debug, PartialEq, Eq)]
pub enum Error {
    /// The rule at `rule` names a tag that no endpoint carries.
    UnknownTag { rule: usize, tag: Tag },
}

/// What the router says of a connection.
#[derive(Clone, Copy, Debug, PartialEq, Eq)]
pub enum Decision {
    /// A rule applies and names the outbound at this position.
    Forward(usize),
    /// A rule applies and names no outbound: the connection is refused.
    Deny,
    /// No rule applies: the caller's default is in order.
    Pass,
}

/// The rules as they are configured.
#[derive(Clone, Debug, PartialEq, Eq)]
pub struct Builder {
    pub rules: Vec<PlainRule>,
}

/// The rules with every tag resolved.
#[derive(Clone, Debug, PartialEq, Eq)]
pub struct Router {
    pub rules: Vec<Rule>,
}

impl Default for Builder {
    fn default() -> (r: Self)
        ensures
            r.rules@.len() == 0,
    {
        Builder { rules: Vec::new() }
    }
}

/// Whether the lookup `f` may answer `r` for the tag `tag`.
pub open spec fn finds<F: Fn(&str) -> Option<usize>>(f: F, tag: Seq<char>, r: Option<usize>) -> bool {
    exists|t: &str| t@ == tag && call_ensures(f, (t,), r)
}

/// Whether the lookup `f` may find the tag `tag`.
pub open spec fn knows<F: Fn(&str) -> Option<usize>>(f: F, tag: Seq<char>) -> bool {
    exists|ind: usize| finds(f, tag, Some(ind))
}

/// Whether `inds` are answers of the lookup `f` for `tags`, one for one.
pub open spec fn resolved_tags<F: Fn(&str) -> Option<usize>>(
    f: F,
    tags: Seq<Tag>,
    inds: Seq<usize>,
) -> bool {
    inds.len() == tags.len() && forall|k: int|
        0 <= k < tags.len() ==> finds(f, (#[trigger] tags[k])@, Some(inds[k]))
}

/// Whether `rule` is `plain` with its tags resolved through the lookups.
pub open spec fn resolved<FI: Fn(&str) -> Option<usize>, FO: Fn(&str) -> Option<usize>>(
    plain: PlainRule,
    rule: Rule,
    find_inbound: FI,
    find_outbound: FO,
) -> bool {
    &&& rule.dsts == plain.dsts
    &&& resolved_tags(find_inbound, plain.inbound_tags@, rule.inbound_inds@)
    &&& match plain.outbound_tag {
        None => rule.outbound_ind is None,
        Some(tag) => rule.outbound_ind is Some && finds(find_outbound, tag@, rule.outbound_ind),
    }
}

/// Whether the lookups may find every tag of `plain`.
pub open spec fn resolvable<FI: Fn(&str) -> Option<usize>, FO: Fn(&str) -> Option<usize>>(
    plain: PlainRule,
    find_inbound: FI,
    find_outbound: FO,
) -> bool {
    &&& forall|k: int|
        0 <= k < plain.inbound_tags@.len() ==> knows(find_inbound, (#[trigger] plain.inbound_tags@[k])@)
    &&& plain.outbound_tag matches Some(tag) ==> knows(find_outbound, tag@)
}

/// Whether `tag` is the first tag of `plain`, inbounds before outbound,
/// that a lookup did not find.
pub open spec fn first_unknown<FI: Fn(&str) -> Option<usize>, FO: Fn(&str) -> Option<usize>>(
    plain: PlainRule,
    tag: Seq<char>,
    find_inbound: FI,
    find_outbound: FO,
) -> bool {
    ||| exists|k: int|
        {
            &&& 0 <= k < plain.inbound_tags@.len()
            &&& (#[trigger] plain.inbound_tags@[k])@ == tag
            &&& finds(find_inbound, tag, None)
            &&& forall|j: int|
                0 <= j < k ==> knows(find_inbound, (#[trigger] plain.inbound_tags@[j])@)
        }
    ||| {
        &&& plain.outbound_tag matches Some(t)
        &&& t@ == tag
        &&& finds(find_outbound, tag, None)
        &&& forall|j: int|
            0 <= j < plain.inbound_tags@.len() ==> knows(
                find_inbound,
                (#[trigger] plain.inbound_tags@[j])@,
            )
    }
}

/// Looks up the inbound tags of a rule, first to last. Gives their
/// positions, or the place of the first tag that was not found.
fn resolve_inbounds<FI: Fn(&str) -> Option<usize>>(tags: &Vec<Tag>, find_inbound: &FI) -> (r: Result<
    Vec<usize>,
    usize,
>)
    requires
        forall|t: &str| call_requires(*find_inbound, (t,)),
    ensures
        match r {
            Ok(inds) => resolved_tags(*find_inbound, tags@, inds@),
            Err(k) => {
                &&& k < tags@.len()
                &&& finds(*find_inbound, tags@[k as int]@, None)
                &&& forall|j: int| 0 <= j < k ==> knows(*find_inbound, (#[trigger] tags@[j])@)
            },
        },
{
    let mut inds: Vec<usize> = Vec::new();
    let mut k: usize = 0;
    while k < tags.len()
        invariant
            k <= tags@.len(),
            forall|t: &str| call_requires(*find_inbound, (t,)),
            resolved_tags(*find_inbound, tags@.subrange(0, k as int), inds@),
        decreases tags.len() - k,
    {
        let tag = tags[k].as_str();
        match find_inbound(tag) {
            Some(ind) => {
                inds.push(ind);
                assert(finds(*find_inbound, tags@[k as int]@, Some(ind)));
                assert(resolved_tags(*find_inbound, tags@.subrange(0, k + 1), inds@)) by {
                    assert forall|j: int| 0 <= j < k + 1 implies finds(
                        *find_inbound,
                        (#[trigger] tags@.subrange(0, k + 1)[j])@,
                        Some(inds@[j]),
                    ) by {
                        if j < k {
                            assert(tags@.subrange(0, k as int)[j] == tags@[j]);
                        }
                    }
                }
            },
            None => {
                assert(finds(*find_inbound, tags@[k as int]@, None));
                assert forall|j: int| 0 <= j < k implies knows(
                    *find_inbound,
                    (#[trigger] tags@[j])@,
                ) by {
                    assert(tags@.subrange(0, k as int)[j] == tags@[j]);
                    assert(finds(*find_inbound, tags@[j]@, Some(inds@[j])));
                }
                return Err(k);
            },
        }
        k += 1;
    }
    assert(tags@.subrange(0, k as int) =~= tags@);
    Ok(inds)
}

/// Resolves the tags of one rule. Gives the rule, or the first tag that
/// was not found.
fn resolve_rule<FI: Fn(&str) -> Option<usize>, FO: Fn(&str) -> Option<usize>>(
    plain: PlainRule,
    find_inbound: &FI,
    find_outbound: &FO,
) -> (r: Result<Rule, Tag>)
    requires
        forall|t: &str| call_requires(*find_inbound, (t,)),
        forall|t: &str| call_requires(*find_outbound, (t,)),
    ensures
        match r {
            Ok(rule) => resolved(plain, rule, *find_inbound, *find_outbound),
            Err(tag) => first_unknown(plain, tag@, *find_inbound, *find_outbound),
        },
{
    let inbound_inds = match resolve_inbounds(&plain.inbound_tags, find_inbound) {
        Ok(inds) => inds,
        Err(k) => {
            return Err(plain.inbound_tags[k].clone());
        },
    };
    assert forall|j: int| 0 <= j < plain.inbound_tags@.len() implies knows(
        *find_inbound,
        (#[trigger] plain.inbound_tags@[j])@,
    ) by {
        assert(finds(*find_inbound, plain.inbound_tags@[j]@, Some(inbound_inds@[j])));
    }
    let outbound_ind = match &plain.outbound_tag {
        None => None,
        Some(tag) => {
            match find_outbound(tag.as_str()) {
                Some(ind) => {
                    assert(finds(*find_outbound, tag@, Some(ind)));
                    Some(ind)
                },
                None => {
                    assert(finds(*find_outbound, tag@, None));
                    return Err(tag.clone());
                },
            }
        },
    };
    Ok(Rule { inbound_inds, dsts: plain.dsts, outbound_ind })
}

impl Builder {
    /// Builds the router: every rule with its tags looked up, the
    /// inbound tags through `find_inbound`, the outbound tag through
    /// `find_outbound`.
    ///
    /// The rules are taken first to last, and in a rule the inbound tags
    /// before the outbound tag. The first tag that is not found ends the
    /// work: the error names it and its rule. So the router is built
    /// whenever the lookups never answer `None` for a tag of a rule.
    pub fn build<FI: Fn(&str) -> Option<usize>, FO: Fn(&str) -> Option<usize>>(
        self,
        find_inbound: FI,
        find_outbound: FO,
    ) -> (r: Result<Router, Error>)
        requires
            forall|t: &str| call_requires(find_inbound, (t,)),
            forall|t: &str| call_requires(find_outbound, (t,)),
        ensures
            match r {
                Ok(router) => {
                    &&& router.rules@.len() == self.rules@.len()
                    &&& forall|i: int|
                        0 <= i < self.rules@.len() ==> resolved(
                            self.rules@[i],
                            #[trigger] router.rules@[i],
                            find_inbound,
                            find_outbound,
                        )
                },
                Err(Error::UnknownTag { rule, tag }) => {
                    &&& rule < self.rules@.len()
                    &&& first_unknown(self.rules@[rule as int], tag@, find_inbound, find_outbound)
                    &&& forall|i: int|
                        0 <= i < rule ==> resolvable(
                            #[trigger] self.rules@[i],
                            find_inbound,
                            find_outbound,
                        )
                },
            },
    {
        let ghost plain_rules = self.rules@;
        let mut rules: Vec<Rule> = Vec::new();
        for plain in it: self.rules
            invariant
                it.seq() == plain_rules,
                forall|t: &str| call_requires(find_inbound, (t,)),
                forall|t: &str| call_requires(find_outbound, (t,)),
                rules@.len() == it.index(),
                forall|i: int|
                    0 <= i < rules@.len() ==> resolved(
                        plain_rules[i],
                        #[trigger] rules@[i],
                        find_inbound,
                        find_outbound,
                    ),
        {
            let ghost done = rules@;
            match resolve_rule(plain, &find_inbound, &find_outbound) {
                Ok(rule) => {
                    rules.push(rule);
                },
                Err(tag) => {
                    proof {
                        assert forall|i: int| 0 <= i < done.len() implies resolvable(
                            #[trigger] plain_rules[i],
                            find_inbound,
                            find_outbound,
                        ) by {
                            lemma_resolved_is_resolvable(
                                plain_rules[i],
                                done[i],
                                find_inbound,
                                find_outbound,
                            );
                        }
                    }
                    return Err(Error::UnknownTag { rule: rules.len(), tag });
                },
            }
        }
        Ok(Router { rules })
    }
}

/// A rule that was resolved could be resolved.
pub proof fn lemma_resolved_is_resolvable<
    FI: Fn(&str) -> Option<usize>,
    FO: Fn(&str) -> Option<usize>,
>(plain: PlainRule, rule: Rule, find_inbound: FI, find_outbound: FO)
    requires
        resolved(plain, rule, find_inbound, find_outbound),
    ensures
        resolvable(plain, find_inbound, find_outbound),
{
    assert forall|k: int| 0 <= k < plain.inbound_tags@.len() implies knows(
        find_inbound,
        (#[trigger] plain.inbound_tags@[k])@,
    ) by {
        assert(finds(find_inbound, plain.inbound_tags@[k]@, Some(rule.inbound_inds@[k])));
    }
    if let Some(tag) = plain.outbound_tag {
        assert(finds(find_outbound, tag@, Some(rule.outbound_ind->0)));
    }
}

impl Decision {
    /// What a rule that applies decides.
    pub open spec fn of(rule: Rule) -> Decision {
        match rule.outbound_ind {
            Some(ind) => Decision::Forward(ind),
            None => Decision::Deny,
        }
    }
}

impl Router {
    /// Whether the rule at `k` applies and none before it does.
    pub open spec fn first_match(&self, k: int, inbound: usize, addr: &SocksAddr) -> bool {
        &&& 0 <= k < self.rules@.len()
        &&& self.rules@[k].spec_matches(inbound, addr)
        &&& forall|j: int| 0 <= j < k ==> !(#[trigger] self.rules@[j]).spec_matches(inbound, addr)
    }

    /// Whether no rule applies.
    pub open spec fn no_match(&self, inbound: usize, addr: &SocksAddr) -> bool {
        forall|j: int|
            0 <= j < self.rules@.len() ==> !(#[trigger] self.rules@[j]).spec_matches(inbound, addr)
    }

    /// The decision of the first rule from `k` on that applies.
    pub open spec fn resolve_from(&self, k: int, inbound: usize, addr: &SocksAddr) -> Decision
        decreases self.rules@.len() - k,
    {
        if k < 0 || k >= self.rules@.len() {
            Decision::Pass
        } else if self.rules@[k].spec_matches(inbound, addr) {
            Decision::of(self.rules@[k])
        } else {
            self.resolve_from(k + 1, inbound, addr)
        }
    }

    /// The decision of the first rule that applies; `Pass` if none does.
    pub open spec fn spec_resolve(&self, inbound: usize, addr: &SocksAddr) -> Decision {
        self.resolve_from(0, inbound, addr)
    }

    /// Decides on a connection from the inbound at `inbound` to the
    /// target `addr`: the first rule that applies wins.
    #[verifier::when_used_as_spec(spec_resolve)]
    pub fn resolve(&self, inbound: usize, addr: &SocksAddr) -> (r: Decision)
        ensures
            r == self.spec_resolve(inbound, addr),
            r is Pass <==> self.no_match(inbound, addr),
            !(r is Pass) ==> exists|k: int|
                self.first_match(k, inbound, addr) && r == Decision::of(self.rules@[k]),
    {
        let mut k: usize = 0;
        while k < self.rules.len()
            invariant
                k <= self.rules@.len(),
                self.spec_resolve(inbound, addr) == self.resolve_from(k as int, inbound, addr),
                forall|j: int|
                    0 <= j < k ==> !(#[trigger] self.rules@[j]).spec_matches(inbound, addr),
            decreases self.rules.len() - k,
        {
            if self.rules[k].matches(inbound, addr) {
                assert(self.first_match(k as int, inbound, addr));
                return match self.rules[k].outbound_ind {
                    Some(ind) => Decision::Forward(ind),
                    None => Decision::Deny,
                };
            }
            k += 1;
        }
        Decision::Pass
    }
}

/// First match wins: where the rule at `k` applies and none before it
/// does, the router decides as that rule says, whatever rules follow.
pub proof fn lemma_first_match_wins(router: Router, k: int, inbound: usize, addr: &SocksAddr)
    requires
        router.first_match(k, inbound, addr),
    ensures
        router.spec_resolve(inbound, addr) == Decision::of(router.rules@[k]),
{
    lemma_resolve_skips(router, 0, k, inbound, addr);
}

proof fn lemma_resolve_skips(router: Router, from: int, k: int, inbound: usize, addr: &SocksAddr)
    requires
        0 <= from <= k,
        router.first_match(k, inbound, addr),
    ensures
        router.resolve_from(from, inbound, addr) == Decision::of(router.rules@[k]),
    decreases k - from,
{
    if from < k {
        assert(!router.rules@[from].spec_matches(inbound, addr));
        lemma_resolve_skips(router, from + 1, k, inbound, addr);
    }
}

/// A rule without an outbound that wins denies, and a denial is never
/// what an empty or unmatched rule set gives.
pub proof fn lemma_deny_is_not_pass(router: Router, k: int, inbound: usize, addr: &SocksAddr)
    requires
        router.first_match(k, inbound, addr),
        router.rules@[k].outbound_ind is None,
    ensures
        router.spec_resolve(inbound, addr) == Decision::Deny,
        router.spec_resolve(inbound, addr) != Decision::Pass,
{
    lemma_first_match_wins(router, k, inbound, addr);
}

/// Without rules every connection passes.
pub proof fn lemma_no_rules_pass(router: Router, inbound: usize, addr: &SocksAddr)
    requires
        router.rules@.len() == 0,
    ensures
        router.spec_resolve(inbound, addr) == Decision::Pass,
{
}

/// Whether the lookup `f` answers as the map `m` says.
pub open spec fn answers_by<F: Fn(&str) -> Option<usize>>(f: F, m: Map<Seq<char>, usize>) -> bool {
    forall|t: &str, r: Option<usize>| call_ensures(f, (t,), r) ==> r == lookup(m, t@)
}

/// Whether `rule` is `plain` with its tags resolved by the maps.
pub open spec fn rule_resolved(
    plain: PlainRule,
    rule: Rule,
    inbounds: Map<Seq<char>, usize>,
    outbounds: Map<Seq<char>, usize>,
) -> bool {
    &&& rule.dsts == plain.dsts
    &&& rule.inbound_inds@.len() == plain.inbound_tags@.len()
    &&& forall|k: int|
        0 <= k < plain.inbound_tags@.len() ==> lookup(inbounds, (#[trigger] plain.inbound_tags@[k])@)
            == Some(rule.inbound_inds@[k])
    &&& match plain.outbound_tag {
        None => rule.outbound_ind is None,
        Some(tag) => rule.outbound_ind is Some && lookup(outbounds, tag@) == rule.outbound_ind,
    }
}

/// Whether the maps hold every tag of `plain`.
pub open spec fn rule_known(
    plain: PlainRule,
    inbounds: Map<Seq<char>, usize>,
    outbounds: Map<Seq<char>, usize>,
) -> bool {
    &&& forall|k: int|
        0 <= k < plain.inbound_tags@.len() ==> inbounds.contains_key(
            (#[trigger] plain.inbound_tags@[k])@,
        )
    &&& plain.outbound_tag matches Some(tag) ==> outbounds.contains_key(tag@)
}

/// Whether `tag` is the inbound tag at `k` of `plain`, and the first
/// inbound tag that the map does not hold.
pub open spec fn unknown_inbound_at(
    plain: PlainRule,
    tag: Seq<char>,
    k: int,
    inbounds: Map<Seq<char>, usize>,
) -> bool {
    &&& 0 <= k < plain.inbound_tags@.len()
    &&& plain.inbound_tags@[k]@ == tag
    &&& !inbounds.contains_key(tag)
    &&& forall|j: int| 0 <= j < k ==> inbounds.contains_key((#[trigger] plain.inbound_tags@[j])@)
}

/// Whether `tag` is the first tag of `plain`, inbounds before outbound,
/// that its map does not hold.
pub open spec fn rule_first_unknown(
    plain: PlainRule,
    tag: Seq<char>,
    inbounds: Map<Seq<char>, usize>,
    outbounds: Map<Seq<char>, usize>,
) -> bool {
    ||| exists|k: int| #[trigger] unknown_inbound_at(plain, tag, k, inbounds)
    ||| {
        &&& plain.outbound_tag matches Some(t)
        &&& t@ == tag
        &&& !outbounds.contains_key(tag)
        &&& forall|j: int|
            0 <= j < plain.inbound_tags@.len() ==> inbounds.contains_key(
                (#[trigger] plain.inbound_tags@[j])@,
            )
    }
}

/// With lookups that answer by maps, a resolved rule is resolved by the
/// maps.
pub proof fn lemma_resolved_by_maps<FI: Fn(&str) -> Option<usize>, FO: Fn(&str) -> Option<usize>>(
    plain: PlainRule,
    rule: Rule,
    find_inbound: FI,
    find_outbound: FO,
    inbounds: Map<Seq<char>, usize>,
    outbounds: Map<Seq<char>, usize>,
)
    requires
        resolved(plain, rule, find_inbound, find_outbound),
        answers_by(find_inbound, inbounds),
        answers_by(find_outbound, outbounds),
    ensures
        rule_resolved(plain, rule, inbounds, outbounds),
        rule_known(plain, inbounds, outbounds),
{
    assert forall|k: int| 0 <= k < plain.inbound_tags@.len() implies lookup(
        inbounds,
        (#[trigger] plain.inbound_tags@[k])@,
    ) == Some(rule.inbound_inds@[k]) by {
        assert(finds(find_inbound, plain.inbound_tags@[k]@, Some(rule.inbound_inds@[k])));
    }
    if let Some(tag) = plain.outbound_tag {
        assert(finds(find_outbound, tag@, rule.outbound_ind));
    }
}

/// With lookups that answer by maps, the maps hold the tags of a rule
/// that can be resolved.
pub proof fn lemma_resolvable_by_maps<FI: Fn(&str) -> Option<usize>, FO: Fn(&str) -> Option<usize>>(
    plain: PlainRule,
    find_inbound: FI,
    find_outbound: FO,
    inbounds: Map<Seq<char>, usize>,
    outbounds: Map<Seq<char>, usize>,
)
    requires
        resolvable(plain, find_inbound, find_outbound),
        answers_by(find_inbound, inbounds),
        answers_by(find_outbound, outbounds),
    ensures
        rule_known(plain, inbounds, outbounds),
{
    assert forall|k: int| 0 <= k < plain.inbound_tags@.len() implies inbounds.contains_key(
        (#[trigger] plain.inbound_tags@[k])@,
    ) by {
        lemma_known_by_map(find_inbound, plain.inbound_tags@[k]@, inbounds);
    }
    if let Some(tag) = plain.outbound_tag {
        lemma_known_by_map(find_outbound, tag@, outbounds);
    }
}

proof fn lemma_known_by_map<F: Fn(&str) -> Option<usize>>(
    f: F,
    tag: Seq<char>,
    m: Map<Seq<char>, usize>,
)
    requires
        knows(f, tag),
        answers_by(f, m),
    ensures
        m.contains_key(tag),
{
    let ind = choose|ind: usize| finds(f, tag, Some(ind));
    assert(finds(f, tag, Some(ind)));
}

proof fn lemma_unknown_by_map<F: Fn(&str) -> Option<usize>>(
    f: F,
    tag: Seq<char>,
    m: Map<Seq<char>, usize>,
)
    requires
        finds(f, tag, None),
        answers_by(f, m),
    ensures
        !m.contains_key(tag),
{
}

/// With lookups that answer by maps, the first tag that was not found is
/// the first that its map does not hold.
pub proof fn lemma_first_unknown_by_maps<
    FI: Fn(&str) -> Option<usize>,
    FO: Fn(&str) -> Option<usize>,
>(
    plain: PlainRule,
    tag: Seq<char>,
    find_inbound: FI,
    find_outbound: FO,
    inbounds: Map<Seq<char>, usize>,
    outbounds: Map<Seq<char>, usize>,
)
    requires
        first_unknown(plain, tag, find_inbound, find_outbound),
        answers_by(find_inbound, inbounds),
        answers_by(find_outbound, outbounds),
    ensures
        rule_first_unknown(plain, tag, inbounds, outbounds),
{
    if exists|k: int|
        {
            &&& 0 <= k < plain.inbound_tags@.len()
            &&& (#[trigger] plain.inbound_tags@[k])@ == tag
            &&& finds(find_inbound, tag, None)
            &&& forall|j: int|
                0 <= j < k ==> knows(find_inbound, (#[trigger] plain.inbound_tags@[j])@)
        } {
        let k = choose|k: int|
            {
                &&& 0 <= k < plain.inbound_tags@.len()
                &&& (#[trigger] plain.inbound_tags@[k])@ == tag
                &&& finds(find_inbound, tag, None)
                &&& forall|j: int|
                    0 <= j < k ==> knows(find_inbound, (#[trigger] plain.inbound_tags@[j])@)
            };
        lemma_unknown_by_map(find_inbound, tag, inbounds);
        assert forall|j: int| 0 <= j < k implies inbounds.contains_key(
            (#[trigger] plain.inbound_tags@[j])@,
        ) by {
            lemma_known_by_map(find_inbound, plain.inbound_tags@[j]@, inbounds);
        }
        assert(unknown_inbound_at(plain, tag, k, inbounds));
    } else {
        lemma_unknown_by_map(find_outbound, tag, outbounds);
        assert forall|j: int| 0 <= j < plain.inbound_tags@.len() implies inbounds.contains_key(
            (#[trigger] plain.inbound_tags@[j])@,
        ) by {
            lemma_known_by_map(find_inbound, plain.inbound_tags@[j]@, inbounds);
        }
    }
}

/// A rule has one first tag that is not held.
pub proof fn lemma_one_first_unknown(
    plain: PlainRule,
    s: Seq<char>,
    t: Seq<char>,
    inbounds: Map<Seq<char>, usize>,
    outbounds: Map<Seq<char>, usize>,
)
    requires
        rule_first_unknown(plain, s, inbounds, outbounds),
        rule_first_unknown(plain, t, inbounds, outbounds),
    ensures
        s == t,
{
    if exists|k: int| #[trigger] unknown_inbound_at(plain, s, k, inbounds) {
        let k = choose|k: int| #[trigger] unknown_inbound_at(plain, s, k, inbounds);
        if exists|l: int| #[trigger] unknown_inbound_at(plain, t, l, inbounds) {
            let l = choose|l: int| #[trigger] unknown_inbound_at(plain, t, l, inbounds);
            if k < l {
                assert(inbounds.contains_key(plain.inbound_tags@[k]@));
            } else if l < k {
                assert(inbounds.contains_key(plain.inbound_tags@[l]@));
            }
        } else {
            assert(inbounds.contains_key(plain.inbound_tags@[k]@));
        }
    } else if exists|l: int| #[trigger] unknown_inbound_at(plain, t, l, inbounds) {
        let l = choose|l: int| #[trigger] unknown_inbound_at(plain, t, l, inbounds);
        assert(inbounds.contains_key(plain.inbound_tags@[l]@));
    }
}

} // verus!
