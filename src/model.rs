//! The decoded model as the library reads it, and the indexing step.
use vstd::prelude::*;

use crate::index::{bimap_put, Iroha, PairMap};

verus! {

/// A decoded model: node `i` carries a name and owns mesh group `i`, a list of
/// primitives given by the mesh id of each.
pub struct DecodedModel {
    pub node_names: Vec<String>,
    pub mesh_groups: Vec<Vec<u64>>,
}

impl DecodedModel {
    pub open spec fn names(&self) -> Seq<Seq<char>> {
        self.node_names@.map_values(|s: String| s@)
    }

    pub open spec fn groups(&self) -> Seq<Seq<u64>> {
        self.mesh_groups@.map_values(|g: Vec<u64>| g@)
    }

    /// One node for each mesh group, and a primitive in every group.
    pub open spec fn is_valid(&self) -> bool {
        self.names().len() == self.groups().len() && forall|i: int|
            0 <= i < self.groups().len() ==> #[trigger] self.groups()[i].len() > 0
    }
}

/// Why the one-shot indexing and placement step did not complete.
#[derive(Clone, Copy, Debug, PartialEq, Eq, Structural)]
pub enum SetupError {
    /// The step already ran once.
    AlreadyPlaced,
    /// The model has not as many nodes as mesh groups.
    LengthMismatch,
    /// Mesh group `index` has no primitive.
    MissingPrimitive { index: usize },
    /// No mesh is indexed under the name of node `index`.
    GeometryNotFound { index: usize },
}

/// `i` is the first position at which `groups` holds an empty group.
pub open spec fn first_empty_group(groups: Seq<Seq<u64>>, i: int) -> bool {
    &&& 0 <= i < groups.len()
    &&& groups[i].len() == 0
    &&& forall|j: int| 0 <= j < i ==> #[trigger] groups[j].len() > 0
}

/// What is wrong with a model, if anything: a length mismatch first, else the
/// first mesh group without a primitive.
pub open spec fn model_fault(m: DecodedModel) -> Option<SetupError> {
    if m.names().len() != m.groups().len() {
        Some(SetupError::LengthMismatch)
    } else if exists|i: int| first_empty_group(m.groups(), i) {
        let i = choose|i: int| first_empty_group(m.groups(), i);
        Some(SetupError::MissingPrimitive { index: i as usize })
    } else {
        None
    }
}

/// The index after the first `n` nodes were inserted, in ascending order, each
/// paired with the first primitive of its group.
pub open spec fn indexed_from(
    m0: PairMap,
    names: Seq<Seq<char>>,
    groups: Seq<Seq<u64>>,
    n: nat,
) -> PairMap
    decreases n,
{
    if n == 0 {
        m0
    } else {
        bimap_put(
            indexed_from(m0, names, groups, (n - 1) as nat),
            names[n - 1],
            groups[n - 1][0],
        )
    }
}

/// The index after a whole model was inserted into `m0`.
pub open spec fn indexed_model(m0: PairMap, m: DecodedModel) -> PairMap {
    indexed_from(m0, m.names(), m.groups(), m.names().len())
}

/// No two groups share the mesh id of their first primitive.
pub open spec fn distinct_first_meshes(groups: Seq<Seq<u64>>) -> bool {
    forall|i: int, j: int|
        0 <= i < groups.len() && 0 <= j < groups.len() && i != j ==> #[trigger] groups[i][0]
            != #[trigger] groups[j][0]
}

/// No two nodes share a name.
pub open spec fn distinct_names(names: Seq<Seq<char>>) -> bool {
    forall|i: int, j: int|
        0 <= i < names.len() && 0 <= j < names.len() && i != j ==> #[trigger] names[i]
            != #[trigger] names[j]
}

/// Checks that the model has one node per mesh group and a primitive in each.
pub fn check_model(model: &DecodedModel) -> (r: Result<(), SetupError>)
    ensures
        r is Ok <==> model_fault(*model) is None,
        r is Err ==> r == Err::<(), SetupError>(model_fault(*model)->0),
        r is Ok ==> model.is_valid(),
{
    if model.node_names.len() != model.mesh_groups.len() {
        return Err(SetupError::LengthMismatch);
    }
    let n = model.mesh_groups.len();
    let mut i: usize = 0;
    while i < n
        invariant
            0 <= i <= n,
            n == model.groups().len(),
            model.names().len() == model.groups().len(),
            forall|j: int| 0 <= j < i ==> #[trigger] model.groups()[j].len() > 0,
        decreases n - i,
    {
        if model.mesh_groups[i].len() == 0 {
            proof {
                let g = model.groups();
                assert(first_empty_group(g, i as int));
                let c = choose|c: int| first_empty_group(g, c);
                if c < i {
                    assert(g[c].len() > 0);
                } else if c > i {
                    assert(g[i as int].len() > 0);
                }
            }
            return Err(SetupError::MissingPrimitive { index: i });
        }
        i += 1;
    }
    assert(!exists|c: int| first_empty_group(model.groups(), c));
    Ok(())
}

/// Indexes every node of a valid model by name, in ascending order, each with
/// the mesh of the first primitive of its group. A malformed model is refused
/// before anything is inserted.
pub fn index_model(index: &mut Iroha, model: &DecodedModel) -> (r: Result<(), SetupError>)
    requires
        old(index).wf(),
    ensures
        final(index).wf(),
        r is Ok <==> model_fault(*model) is None,
        r is Ok ==> final(index)@ == indexed_model(old(index)@, *model),
        r is Err ==> r == Err::<(), SetupError>(model_fault(*model)->0),
        r is Err ==> final(index)@ == old(index)@,
{
    match check_model(model) {
        Err(e) => {
            return Err(e);
        },
        Ok(()) => {},
    }
    let ghost m0 = index@;
    let n = model.node_names.len();
    let mut i: usize = 0;
    while i < n
        invariant
            0 <= i <= n,
            n == model.names().len(),
            model.is_valid(),
            index.wf(),
            index@ == indexed_from(m0, model.names(), model.groups(), i as nat),
        decreases n - i,
    {
        assert(model.groups()[i as int].len() > 0);
        let first = model.mesh_groups[i][0];
        index.add_mesh(model.node_names[i].as_str(), first);
        i += 1;
    }
    Ok(())
}

} // verus!
