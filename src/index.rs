//! A bidirectional name <-> mesh index backed by `bimap`.
use vstd::prelude::*;
use vstd::set_lib::{lemma_len_subset, lemma_set_subset_finite};

use bimap::BiHashMap;

verus! {

#[verifier::external_type_specification]
#[verifier::external_body]
#[verifier::reject_recursive_types(L)]
#[verifier::reject_recursive_types(R)]
#[verifier::reject_recursive_types(LS)]
#[verifier::reject_recursive_types(RS)]
pub struct ExBiHashMap<L, R, LS, RS>(BiHashMap<L, R, LS, RS>);

/// Names paired with mesh ids, as a bimap holds them left to right.
pub type PairMap = Map<Seq<char>, u64>;

/// The left-to-right pairs that a bimap of names and mesh ids holds.
pub uninterp spec fn mesh_pairs(m: BiHashMap<String, u64>) -> PairMap;

/// Relies on `bimap::BiHashMap::new`: the new bimap holds no pair.
#[verifier::external_body]
fn bimap_new() -> (m: BiHashMap<String, u64>)
    ensures
        mesh_pairs(m) == PairMap::empty(),
{
    BiHashMap::new()
}

/// Relies on `bimap::BiHashMap::insert`: it first drops the pair whose left
/// value is `name` and the pair whose right value is `mesh`, then adds
/// `(name, mesh)`.
#[verifier::external_body]
fn bimap_insert(m: &mut BiHashMap<String, u64>, name: String, mesh: u64)
    ensures
        mesh_pairs(*final(m)) == bimap_put(mesh_pairs(*old(m)), name@, mesh),
{
    m.insert(name, mesh);
}

/// Relies on `bimap::BiHashMap::get_by_left`: the mesh paired with `name`.
#[verifier::external_body]
fn bimap_get_by_left(m: &BiHashMap<String, u64>, name: &str) -> (r: Option<u64>)
    ensures
        r == mesh_pairs(*m).index_opt(name@),
{
    m.get_by_left(name).copied()
}

/// Relies on `bimap::BiHashMap::get_by_right`: the name paired with `mesh`.
#[verifier::external_body]
fn bimap_get_by_right(m: &BiHashMap<String, u64>, mesh: &u64) -> (r: Option<String>)
    ensures
        r is Some ==> mesh_pairs(*m).contains_key(r->0@) && mesh_pairs(*m)[r->0@] == *mesh,
        r is None ==> !mesh_pairs(*m).contains_value(*mesh),
{
    m.get_by_right(mesh).cloned()
}

/// Relies on `bimap::BiHashMap::right_values`: it walks the right values of
/// the bimap, each once, in an order that the hasher decides.
#[verifier::external_body]
fn bimap_right_values(m: &BiHashMap<String, u64>) -> (r: Vec<u64>)
    ensures
        r@.no_duplicates(),
        r@.to_set() == mesh_pairs(*m).values(),
{
    m.right_values().copied().collect()
}

/// The pairs of a bimap after `(l, r)` is inserted: the pair that held `r`
/// goes, and `l` is paired with `r` whatever it was paired with before.
pub open spec fn bimap_put(m: PairMap, l: Seq<char>, r: u64) -> PairMap {
    m.restrict(m.dom().filter(|k: Seq<char>| m[k] != r)).insert(l, r)
}

/// A finite map with no two names on one mesh id, as every bimap is.
pub open spec fn bimap_shaped(m: PairMap) -> bool {
    m.dom().finite() && m.is_injective()
}

/// Inserting into a bimap keeps it a bimap, with at most one pair more.
pub proof fn lemma_put_shaped(m: PairMap, l: Seq<char>, r: u64)
    requires
        bimap_shaped(m),
    ensures
        bimap_shaped(bimap_put(m, l, r)),
        bimap_put(m, l, r).dom().len() <= m.dom().len() + 1,
        !m.contains_key(l) && !m.contains_value(r) ==> bimap_put(m, l, r).dom().len()
            == m.dom().len() + 1,
        bimap_put(m, l, r).contains_key(l) && bimap_put(m, l, r)[l] == r,
{
    let kept = m.dom().filter(|k: Seq<char>| m[k] != r);
    let put = bimap_put(m, l, r);
    lemma_set_subset_finite(m.dom(), kept);
    lemma_len_subset(kept, m.dom());
    assert(put.dom() =~= kept.insert(l));
    assert(put.dom().len() <= kept.len() + 1);
    assert forall|x: Seq<char>, y: Seq<char>|
        put.dom().contains(x) && put.dom().contains(y) && x != y implies #[trigger] put[x]
        != #[trigger] put[y] by {
        if x != l && y != l {
            assert(m[x] != m[y]);
        }
    }
    if !m.contains_key(l) && !m.contains_value(r) {
        assert(kept =~= m.dom());
    }
}

/// Maps each node name to the mesh of its first primitive, and each mesh back
/// to its name.
pub struct Iroha {
    mesh_map: BiHashMap<String, u64>,
}

impl Iroha {
    pub closed spec fn view(&self) -> PairMap {
        mesh_pairs(self.mesh_map)
    }

    /// The index holds a finite set of pairs, with unique names and unique
    /// mesh ids.
    pub open spec fn wf(&self) -> bool {
        bimap_shaped(self@)
    }

    /// An empty index.
    pub fn new() -> (r: Iroha)
        ensures
            r@ == PairMap::empty(),
            r.wf(),
    {
        let r = Iroha { mesh_map: bimap_new() };
        proof {
            assert(r@.dom() =~= Set::empty());
        }
        r
    }

    /// The mesh indexed under `name`, if any.
    pub fn get_mesh(&self, name: &str) -> (r: Option<u64>)
        ensures
            r == self@.index_opt(name@),
    {
        bimap_get_by_left(&self.mesh_map, name)
    }

    /// Every indexed mesh, each once, in no particular order.
    pub fn all_meshes(&self) -> (r: Vec<u64>)
        ensures
            r@.no_duplicates(),
            r@.to_set() == self@.values(),
    {
        bimap_right_values(&self.mesh_map)
    }

    /// The name under which `mesh` is indexed, if any.
    pub fn get_name(&self, mesh: &u64) -> (r: Option<String>)
        requires
            self.wf(),
        ensures
            r is Some <==> self@.contains_value(*mesh),
            r is Some ==> self@.contains_key(r->0@) && self@[r->0@] == *mesh,
            forall|k: Seq<char>| #[trigger] self@.contains_key(k) && self@[k] == *mesh ==> r is Some
                && r->0@ == k,
    {
        let r = bimap_get_by_right(&self.mesh_map, mesh);
        r
    }

    /// Pairs `name` with `mesh`, dropping any earlier pair that held either.
    pub fn add_mesh(&mut self, name: &str, mesh: u64)
        requires
            old(self).wf(),
        ensures
            final(self)@ == bimap_put(old(self)@, name@, mesh),
            final(self).wf(),
    {
        proof {
            lemma_put_shaped(self@, name@, mesh);
        }
        bimap_insert(&mut self.mesh_map, name.to_string(), mesh);
    }
}

} // verus!
