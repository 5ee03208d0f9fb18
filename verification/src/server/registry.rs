//! Which tags may stand together, and the positions that they name.

use vstd::prelude::*;

verus! {

/// Whether one of the first `n` tags is `t`.
pub open spec fn carried(tags: Seq<Seq<char>>, n: int, t: Seq<char>) -> bool {
    exists|j: int| 0 <= j < n && j < tags.len() && #[trigger] tags[j] == t
}

/// Whether the tag at `i` clashes: it is not empty, and an earlier tag of
/// the same list or a tag of the other list, `other`, is the same.
pub open spec fn clash(tags: Seq<Seq<char>>, other: Map<Seq<char>, usize>, i: int) -> bool {
    tags[i].len() > 0 && (carried(tags, i, tags[i]) || other.contains_key(tags[i]))
}

/// Whether none of the first `n` tags clashes.
pub open spec fn no_clash(tags: Seq<Seq<char>>, other: Map<Seq<char>, usize>, n: int) -> bool {
    forall|i: int| 0 <= i < n && i < tags.len() ==> !clash(tags, other, i)
}

/// Whether `i` is the first place at which a tag clashes.
pub open spec fn first_clash(tags: Seq<Seq<char>>, other: Map<Seq<char>, usize>, i: int) -> bool {
    0 <= i < tags.len() && clash(tags, other, i) && no_clash(tags, other, i)
}

/// A place at which `t` stands.
pub open spec fn place_of(tags: Seq<Seq<char>>, t: Seq<char>) -> int {
    choose|j: int| 0 <= j < tags.len() && #[trigger] tags[j] == t
}

/// The positions that the tags name: every tag but the empty one gives
/// the place at which it stands.
pub open spec fn registry(tags: Seq<Seq<char>>) -> Map<Seq<char>, usize> {
    Map::new(
        |t: Seq<char>| t.len() > 0 && carried(tags, tags.len() as int, t),
        |t: Seq<char>| place_of(tags, t) as usize,
    )
}

/// Whether `m` holds the first `n` tags, the empty one left out, each
/// with its place.
pub open spec fn registers(m: Map<Seq<char>, usize>, tags: Seq<Seq<char>>, n: int) -> bool {
    &&& forall|t: Seq<char>| m.contains_key(t) <==> t.len() > 0 && carried(tags, n, t)
    &&& forall|j: int|
        0 <= j < n && j < tags.len() && (#[trigger] tags[j]).len() > 0 ==> m[tags[j]] == j
}

/// Where no tag clashes, a tag that is not empty stands at one place
/// only.
pub proof fn lemma_one_place(
    tags: Seq<Seq<char>>,
    other: Map<Seq<char>, usize>,
    i: int,
    j: int,
)
    requires
        no_clash(tags, other, tags.len() as int),
        0 <= i < tags.len(),
        0 <= j < tags.len(),
        tags[i] == tags[j],
        tags[i].len() > 0,
    ensures
        i == j,
{
    if i < j {
        assert(clash(tags, other, j));
    } else if j < i {
        assert(clash(tags, other, i));
    }
}

/// Where no tag clashes, the registry gives for every tag that is not
/// empty the place at which it stands.
pub proof fn lemma_registry_place(tags: Seq<Seq<char>>, other: Map<Seq<char>, usize>, i: int)
    requires
        no_clash(tags, other, tags.len() as int),
        0 <= i < tags.len(),
        tags[i].len() > 0,
        tags.len() <= usize::MAX,
    ensures
        registry(tags).contains_key(tags[i]),
        registry(tags)[tags[i]] == i,
{
    let j = place_of(tags, tags[i]);
    lemma_one_place(tags, other, i, j);
}

/// Every position in the registry is a place in the list, and the tag
/// there is the key.
pub proof fn lemma_registry_in_range(tags: Seq<Seq<char>>, t: Seq<char>)
    requires
        registry(tags).contains_key(t),
        tags.len() <= usize::MAX,
    ensures
        registry(tags)[t] < tags.len(),
        tags[registry(tags)[t] as int] == t,
{
}

/// A map that holds all tags with their places is the registry, where
/// no tag clashes.
pub proof fn lemma_registers_all(
    m: Map<Seq<char>, usize>,
    tags: Seq<Seq<char>>,
    other: Map<Seq<char>, usize>,
)
    requires
        registers(m, tags, tags.len() as int),
        no_clash(tags, other, tags.len() as int),
        tags.len() <= usize::MAX,
    ensures
        m == registry(tags),
{
    assert forall|t: Seq<char>| m.contains_key(t) implies m[t] == registry(tags)[t] by {
        let j = place_of(tags, t);
        assert(tags[j] == t);
    }
    assert(m =~= registry(tags));
}

/// Registering the tag at `i`, which does not clash, keeps the map in
/// step with the list.
pub proof fn lemma_registers_next(
    m: Map<Seq<char>, usize>,
    tags: Seq<Seq<char>>,
    other: Map<Seq<char>, usize>,
    i: int,
)
    requires
        0 <= i < tags.len(),
        i <= usize::MAX,
        registers(m, tags, i),
        !clash(tags, other, i),
    ensures
        tags[i].len() == 0 ==> registers(m, tags, i + 1),
        tags[i].len() > 0 ==> registers(m.insert(tags[i], i as usize), tags, i + 1),
{
    let t = tags[i];
    let next = if t.len() == 0 {
        m
    } else {
        m.insert(t, i as usize)
    };
    assert forall|u: Seq<char>| next.contains_key(u) <==> u.len() > 0 && carried(
        tags,
        i + 1,
        u,
    ) by {
        if u.len() > 0 && carried(tags, i + 1, u) {
            let j = choose|j: int| 0 <= j < i + 1 && j < tags.len() && #[trigger] tags[j] == u;
            if j < i {
                assert(carried(tags, i, u));
            }
        }
        if next.contains_key(u) {
            if u == t {
                assert(tags[i] == u);
            } else {
                assert(carried(tags, i, u));
                let j = choose|j: int| 0 <= j < i && j < tags.len() && #[trigger] tags[j] == u;
                assert(tags[j] == u);
            }
        }
    }
    assert forall|j: int| 0 <= j < i + 1 && j < tags.len() && (#[trigger] tags[j]).len()
        > 0 implies next[tags[j]] == j by {
        if j < i {
            if tags[j] == t {
                assert(carried(tags, i, t));
            }
        }
    }
}

} // verus!
