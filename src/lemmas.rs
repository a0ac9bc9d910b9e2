//! Facts that relate the indexing and placement steps.
use vstd::prelude::*;

use crate::index::{bimap_put, bimap_shaped, lemma_put_shaped, PairMap};
use crate::model::{
    distinct_first_meshes,
    distinct_names,
    indexed_from,
    indexed_model,
    model_fault,
    DecodedModel,
};
use crate::placement::{all_indexed, placed_as, placements_match, Placement};

verus! {

/// What holds of the index after the first `n` nodes of a valid model were
/// inserted into an empty one.
proof fn lemma_indexed_prefix(names: Seq<Seq<char>>, groups: Seq<Seq<u64>>, n: nat)
    requires
        n <= names.len(),
        names.len() == groups.len(),
        forall|i: int| 0 <= i < groups.len() ==> #[trigger] groups[i].len() > 0,
    ensures
        bimap_shaped(indexed_from(PairMap::empty(), names, groups, n)),
        indexed_from(PairMap::empty(), names, groups, n).dom().len() <= n,
        forall|key: Seq<char>| #[trigger]
            indexed_from(PairMap::empty(), names, groups, n).contains_key(key) ==> exists|k: int|
                0 <= k < n && #[trigger] names[k] == key,
        forall|key: Seq<char>| #[trigger]
            indexed_from(PairMap::empty(), names, groups, n).contains_key(key) ==> exists|k: int|
                0 <= k < n && #[trigger] groups[k][0] == indexed_from(
                    PairMap::empty(),
                    names,
                    groups,
                    n,
                )[key],
        distinct_first_meshes(groups) ==> forall|j: int|
            0 <= j < n ==> #[trigger] indexed_from(PairMap::empty(), names, groups, n).contains_key(
                names[j],
            ),
        distinct_first_meshes(groups) && distinct_names(names) ==> indexed_from(
            PairMap::empty(),
            names,
            groups,
            n,
        ).dom().len() == n,
    decreases n,
{
    let e = PairMap::empty();
    if n == 0 {
        assert(e.dom() =~= Set::empty());
    } else {
        let p = (n - 1) as nat;
        lemma_indexed_prefix(names, groups, p);
        let m = indexed_from(e, names, groups, p);
        let l = names[p as int];
        let r = groups[p as int][0];
        let put = indexed_from(e, names, groups, n);
        assert(put == bimap_put(m, l, r));
        lemma_put_shaped(m, l, r);
        assert forall|key: Seq<char>| #[trigger] put.contains_key(key) implies exists|k: int|
            0 <= k < n && #[trigger] names[k] == key by {
            if key != l {
                assert(m.contains_key(key));
            } else {
                assert(names[p as int] == key);
            }
        }
        assert forall|key: Seq<char>| #[trigger] put.contains_key(key) implies exists|k: int|
            0 <= k < n && #[trigger] groups[k][0] == put[key] by {
            if key != l {
                assert(m.contains_key(key));
            } else {
                assert(groups[p as int][0] == put[key]);
            }
        }
        if distinct_first_meshes(groups) {
            assert(!m.contains_value(r)) by {
                if m.contains_value(r) {
                    let key = choose|key: Seq<char>| m.contains_key(key) && m[key] == r;
                    let k = choose|k: int| 0 <= k < p && #[trigger] groups[k][0] == m[key];
                    assert(groups[k][0] != groups[p as int][0]);
                }
            }
            assert forall|j: int| 0 <= j < n implies #[trigger] put.contains_key(names[j]) by {
                if j < p {
                    assert(m.contains_key(names[j]));
                }
            }
            if distinct_names(names) {
                assert(!m.contains_key(l)) by {
                    if m.contains_key(l) {
                        let k = choose|k: int| 0 <= k < p && #[trigger] names[k] == l;
                        assert(names[k] != names[p as int]);
                    }
                }
            }
        }
    }
}

/// Indexing a valid model of `N` nodes into an empty index gives at most `N`
/// entries; exactly `N` when no two nodes share a name and no two mesh groups
/// share a first mesh. With no shared first mesh every node's name stays
/// indexed, so placement succeeds, and whenever placement succeeds it yields
/// exactly `N` instances.
pub proof fn lemma_index_and_placement_counts(m: DecodedModel)
    requires
        m.is_valid(),
    ensures
        model_fault(m) is None,
        indexed_model(PairMap::empty(), m).dom().len() <= m.names().len(),
        distinct_names(m.names()) && distinct_first_meshes(m.groups()) ==> indexed_model(
            PairMap::empty(),
            m,
        ).dom().len() == m.names().len(),
        distinct_first_meshes(m.groups()) ==> all_indexed(
            indexed_model(PairMap::empty(), m),
            m.names(),
        ),
        forall|s: Seq<Placement>|
            placements_match(s, indexed_model(PairMap::empty(), m), m.names()) ==> s.len()
                == m.names().len(),
{
    assert(!exists|i: int| crate::model::first_empty_group(m.groups(), i));
    lemma_indexed_prefix(m.names(), m.groups(), m.names().len());
}

/// Placement is deterministic: for one index and one list of names there is
/// exactly one sequence of placements.
pub proof fn lemma_placements_determined(
    s1: Seq<Placement>,
    s2: Seq<Placement>,
    idx: PairMap,
    names: Seq<Seq<char>>,
)
    requires
        placements_match(s1, idx, names),
        placements_match(s2, idx, names),
    ensures
        s1 == s2,
{
    assert forall|i: int| 0 <= i < s1.len() implies s1[i] == s2[i] by {
        assert(placed_as(s1[i], idx, names, i));
        assert(placed_as(s2[i], idx, names, i));
    }
    assert(s1 =~= s2);
}

/// A model with no node is valid, leaves an empty index empty, and places
/// nothing.
pub proof fn lemma_empty_model(m: DecodedModel)
    requires
        m.names().len() == 0,
        m.groups().len() == 0,
    ensures
        model_fault(m) is None,
        indexed_model(PairMap::empty(), m) == PairMap::empty(),
        all_indexed(PairMap::empty(), m.names()),
        forall|s: Seq<Placement>| placements_match(s, PairMap::empty(), m.names()) ==> s.len() == 0,
{
    assert(!exists|i: int| crate::model::first_empty_group(m.groups(), i));
}

} // verus!
