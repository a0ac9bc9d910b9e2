//! Grid placement of the indexed meshes.
use vstd::prelude::*;

use crate::index::{Iroha, PairMap};
use crate::model::DecodedModel;
use crate::model::SetupError;

verus! {

/// Number of columns of the placement grid.
pub const GRID_COLUMNS: usize = 10;

/// One placed copy of a mesh: the mesh id and the grid cell it stands on.
#[derive(Clone, Copy, Debug, PartialEq, Eq, Structural)]
pub struct Placement {
    pub mesh: u64,
    pub x: i64,
    pub y: i64,
    pub z: i64,
}

/// Column of grid slot `i`, shifted towards the origin.
pub open spec fn grid_x(i: int) -> int {
    i % 10 - 3
}

/// Row of grid slot `i`, shifted towards the origin.
pub open spec fn grid_y(i: int) -> int {
    i / 10 - 1
}

/// `p` is the placement of node `i`: the mesh indexed under its name, on grid
/// slot `i`.
pub open spec fn placed_as(p: Placement, idx: PairMap, names: Seq<Seq<char>>, i: int) -> bool {
    &&& p.mesh == idx[names[i]]
    &&& p.x == grid_x(i)
    &&& p.y == grid_y(i)
    &&& p.z == 0
}

/// `s` places every node, in ascending order.
pub open spec fn placements_match(s: Seq<Placement>, idx: PairMap, names: Seq<Seq<char>>) -> bool {
    &&& s.len() == names.len()
    &&& forall|i: int| 0 <= i < s.len() ==> #[trigger] placed_as(s[i], idx, names, i)
}

/// Every name is indexed.
pub open spec fn all_indexed(idx: PairMap, names: Seq<Seq<char>>) -> bool {
    forall|i: int| 0 <= i < names.len() ==> #[trigger] idx.contains_key(names[i])
}

/// `i` is the first node whose name is not indexed.
pub open spec fn first_unindexed(idx: PairMap, names: Seq<Seq<char>>, i: int) -> bool {
    &&& 0 <= i < names.len()
    &&& !idx.contains_key(names[i])
    &&& forall|j: int| 0 <= j < i ==> #[trigger] idx.contains_key(names[j])
}

/// The grid cell of slot `i`: column `i mod 10` and row `i div 10`, shifted by
/// three columns and one row.
pub fn grid_position(i: usize) -> (r: (i64, i64, i64))
    ensures
        r.0 == grid_x(i as int),
        r.1 == grid_y(i as int),
        r.2 == 0,
{
    let col = (i % GRID_COLUMNS) as i64;
    let row = (i / GRID_COLUMNS) as i64;
    (col - 3, row - 1, 0)
}

/// Places one copy of each node's indexed mesh on the grid, in node order. A
/// node whose name is not indexed stops the step before anything is placed.
pub fn place_instances(index: &Iroha, model: &DecodedModel) -> (r: Result<Vec<Placement>, SetupError>)
    ensures
        r is Ok <==> all_indexed(index@, model.names()),
        r is Ok ==> placements_match(r->Ok_0@, index@, model.names()),
        r is Err ==> (r matches Err(SetupError::GeometryNotFound { index: i })
            && first_unindexed(index@, model.names(), i as int)),
{
    let n = model.node_names.len();
    let mut out: Vec<Placement> = Vec::new();
    let mut i: usize = 0;
    while i < n
        invariant
            0 <= i <= n,
            n == model.names().len(),
            out@.len() == i,
            forall|j: int| 0 <= j < i ==> #[trigger] index@.contains_key(model.names()[j]),
            forall|j: int| 0 <= j < i ==> #[trigger] placed_as(out@[j], index@, model.names(), j),
        decreases n - i,
    {
        match index.get_mesh(model.node_names[i].as_str()) {
            None => {
                assert(!index@.contains_key(model.names()[i as int]));
                return Err(SetupError::GeometryNotFound { index: i });
            },
            Some(mesh) => {
                let (x, y, z) = grid_position(i);
                out.push(Placement { mesh, x, y, z });
            },
        }
        i += 1;
    }
    Ok(out)
}

} // verus!
