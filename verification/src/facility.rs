//! Facilities: built instances of an archetype that run one recipe.

use vstd::prelude::*;
use crate::ids::{FacilityArchetypeId, FacilityId, RecipeId, TransportNodeId};

verus! {

/// A built facility: what it is, which recipe it runs and how far along it
/// is, and the transport node whose inventory it works from (the global
/// inventory when it has none).
#[derive(Debug, PartialEq)]
pub struct FacilityState {
    pub id: FacilityId,
    pub archetype_id: FacilityArchetypeId,
    pub active_recipe: Option<RecipeId>,
    pub progress_ticks: u32,
    pub tags: Vec<String>,
    pub node: Option<TransportNodeId>,
}

impl FacilityState {
    /// A new facility with no progress, no tags and no node.
    pub fn new(id: FacilityId, archetype_id: FacilityArchetypeId, active_recipe: Option<RecipeId>) -> (f: Self)
        ensures
            f.id == id,
            f.archetype_id == archetype_id,
            f.active_recipe == active_recipe,
            f.progress_ticks == 0,
            f.tags@.len() == 0,
            f.node is None,
    {
        FacilityState { id, archetype_id, active_recipe, progress_ticks: 0, tags: Vec::new(), node: None }
    }

    /// Counts one more tick of progress on a recipe that takes
    /// `duration_ticks`; returns the new progress and whether the recipe is
    /// now complete.
    pub fn advance_progress(&mut self, duration_ticks: u32) -> (r: (u32, bool))
        requires
            old(self).progress_ticks < u32::MAX,
        ensures
            final(self).progress_ticks == old(self).progress_ticks + 1,
            r.0 == final(self).progress_ticks,
            r.1 == (final(self).progress_ticks >= duration_ticks),
            final(self).id == old(self).id,
            final(self).archetype_id == old(self).archetype_id,
            final(self).active_recipe == old(self).active_recipe,
            final(self).tags == old(self).tags,
            final(self).node == old(self).node,
    {
        self.progress_ticks = self.progress_ticks + 1;
        (self.progress_ticks, self.progress_ticks >= duration_ticks)
    }

    /// The facility with its tags replaced by `tags`.
    pub fn with_tags(self, tags: Vec<String>) -> (f: Self)
        ensures
            f.tags@ == tags@,
            f.id == self.id,
            f.archetype_id == self.archetype_id,
            f.active_recipe == self.active_recipe,
            f.progress_ticks == self.progress_ticks,
            f.node == self.node,
    {
        let mut f = self;
        f.tags = tags;
        f
    }

    /// The facility placed on transport node `node`.
    pub fn with_node(self, node: TransportNodeId) -> (f: Self)
        ensures
            f.node == Some(node),
            f.id == self.id,
            f.archetype_id == self.archetype_id,
            f.active_recipe == self.active_recipe,
            f.progress_ticks == self.progress_ticks,
            f.tags == self.tags,
    {
        let mut f = self;
        f.node = Some(node);
        f
    }
}

} // verus!
