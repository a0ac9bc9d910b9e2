//! The loading latch and the one-shot indexing and placement step it gates.
use vstd::prelude::*;

use crate::index::{Iroha, PairMap};
use crate::model::{index_model, indexed_model, model_fault, DecodedModel, SetupError};
use crate::placement::{
    all_indexed,
    first_unindexed,
    place_instances,
    placements_match,
    Placement,
};

verus! {

/// Whether the model is still loading. The only transition is from
/// `Loading` to `Loaded`; there is no way back.
#[derive(Clone, Copy, Debug, PartialEq, Eq, Hash, Structural)]
pub enum AssetLoadingState {
    Loading,
    Loaded,
}

impl Default for AssetLoadingState {
    /// A model starts out loading.
    fn default() -> (r: AssetLoadingState)
        ensures
            r == AssetLoadingState::Loading,
    {
        AssetLoadingState::Loading
    }
}

impl AssetLoadingState {
    /// The state after the model finished loading.
    pub fn finish(self) -> (r: AssetLoadingState)
        ensures
            r == AssetLoadingState::Loaded,
    {
        AssetLoadingState::Loaded
    }

    pub fn is_loaded(&self) -> (r: bool)
        ensures
            r == (*self == AssetLoadingState::Loaded),
    {
        match self {
            AssetLoadingState::Loading => false,
            AssetLoadingState::Loaded => true,
        }
    }
}

/// The index and the placed instances of one model, behind the loading latch.
pub struct Scene {
    state: AssetLoadingState,
    index: Iroha,
    instances: Vec<Placement>,
}

impl Scene {
    pub closed spec fn latch(&self) -> AssetLoadingState {
        self.state
    }

    pub closed spec fn pairs(&self) -> PairMap {
        self.index@
    }

    pub closed spec fn placed(&self) -> Seq<Placement> {
        self.instances@
    }

    /// The index is a bimap, and nothing is placed while the model loads.
    pub closed spec fn wf(&self) -> bool {
        &&& self.index.wf()
        &&& self.state == AssetLoadingState::Loading ==> self.instances@.len() == 0
    }

    /// A scene whose model is still loading, with an empty index.
    pub fn new() -> (r: Scene)
        ensures
            r.wf(),
            r.latch() == AssetLoadingState::Loading,
            r.pairs() == PairMap::empty(),
            r.placed().len() == 0,
    {
        Scene { state: AssetLoadingState::Loading, index: Iroha::new(), instances: Vec::new() }
    }

    pub fn state(&self) -> (r: AssetLoadingState)
        ensures
            r == self.latch(),
    {
        self.state
    }

    pub fn index(&self) -> (r: &Iroha)
        requires
            self.wf(),
        ensures
            r@ == self.pairs(),
            r.wf(),
    {
        &self.index
    }

    pub fn instances(&self) -> (r: &Vec<Placement>)
        ensures
            r@ == self.placed(),
    {
        &self.instances
    }

    /// Runs the one-shot step when the model has finished loading: closes the
    /// latch, indexes the model, then places one instance per node. A second
    /// call is refused and changes nothing. On an error no instance is placed.
    pub fn on_loaded(&mut self, model: &DecodedModel) -> (r: Result<(), SetupError>)
        requires
            old(self).wf(),
        ensures
            final(self).wf(),
            old(self).latch() == AssetLoadingState::Loaded ==> r == Err::<(), SetupError>(
                SetupError::AlreadyPlaced,
            ) && *final(self) == *old(self),
            old(self).latch() == AssetLoadingState::Loading ==> final(self).latch()
                == AssetLoadingState::Loaded,
            old(self).latch() == AssetLoadingState::Loading && model_fault(*model) is Some ==> r
                == Err::<(), SetupError>(model_fault(*model)->0) && final(self).pairs() == old(
                self,
            ).pairs() && final(self).placed().len() == 0,
            old(self).latch() == AssetLoadingState::Loading && model_fault(*model) is None ==> (
            final(self).pairs() == indexed_model(old(self).pairs(), *model) && (r is Ok
                <==> all_indexed(final(self).pairs(), model.names()))),
            r is Ok ==> placements_match(final(self).placed(), final(self).pairs(), model.names()),
            old(self).latch() == AssetLoadingState::Loading && r is Err ==> final(self).placed().len()
                == 0,
            old(self).latch() == AssetLoadingState::Loading && model_fault(*model) is None && r is Err
                ==> (r matches Err(SetupError::GeometryNotFound { index: i }) && first_unindexed(
                final(self).pairs(),
                model.names(),
                i as int,
            )),
    {
        if self.state.is_loaded() {
            return Err(SetupError::AlreadyPlaced);
        }
        self.state = self.state.finish();
        match index_model(&mut self.index, model) {
            Err(e) => {
                return Err(e);
            },
            Ok(()) => {},
        }
        match place_instances(&self.index, model) {
            Err(e) => Err(e),
            Ok(v) => {
                self.instances = v;
                Ok(())
            },
        }
    }
}

} // verus!
