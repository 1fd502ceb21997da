//! The simulation clock, its errors, and the events of a tick.

use vstd::prelude::*;
use crate::facility::FacilityState;
use crate::graph::BlockReason;
use crate::ids::{CommodityId, FacilityId, RecipeId, TransportEdgeId, TransportNodeId, TransportOrderId};
use crate::logistics::TransportBlockReason;
use crate::qty::{ONE_BITS, Qty};
use crate::recipe::Recipe;
use crate::text::push_str;

verus! {

/// A simulation tick number.
#[derive(Clone, Copy, Debug, Default, Eq, PartialEq, Ord, PartialOrd, Hash)]
pub struct Tick(pub u64);

impl Tick {
    /// The tick after this one, or `None` past the last tick a `u64` can count.
    pub fn next(self) -> (t: Option<Tick>)
        ensures
            match t {
                Some(n) => self.0 < u64::MAX && n.0 == self.0 + 1,
                None => self.0 == u64::MAX,
            },
    {
        if self.0 < u64::MAX {
            Some(Tick(self.0 + 1))
        } else {
            None
        }
    }
}

/// What a simulation request could not find or do.
#[derive(Clone, Debug, PartialEq)]
pub enum SimError {
    MissingRecipe(RecipeId),
    MissingFacility(FacilityId),
    MissingNode(TransportNodeId),
    MissingEdge(TransportEdgeId),
    Inventory(String),
}

/// The message of a simulation error.
pub open spec fn sim_error_text(e: SimError) -> Seq<char> {
    match e {
        SimError::MissingRecipe(id) => "missing recipe "@ + id@,
        SimError::MissingFacility(id) => "missing facility "@ + id@,
        SimError::MissingNode(id) => "missing transport node "@ + id@,
        SimError::MissingEdge(id) => "missing transport edge "@ + id@,
        SimError::Inventory(message) => "inventory error: "@ + message@,
    }
}

impl SimError {
    /// The message of the error, as its `Display` form reads.
    pub fn message(&self) -> (s: String)
        ensures
            s@ == sim_error_text(*self),
    {
        let mut s = String::new();
        match self {
            SimError::MissingRecipe(id) => {
                push_str(&mut s, "missing recipe ");
                push_str(&mut s, id.as_str());
            },
            SimError::MissingFacility(id) => {
                push_str(&mut s, "missing facility ");
                push_str(&mut s, id.as_str());
            },
            SimError::MissingNode(id) => {
                push_str(&mut s, "missing transport node ");
                push_str(&mut s, id.as_str());
            },
            SimError::MissingEdge(id) => {
                push_str(&mut s, "missing transport edge ");
                push_str(&mut s, id.as_str());
            },
            SimError::Inventory(message) => {
                push_str(&mut s, "inventory error: ");
                push_str(&mut s, message.as_str());
            },
        }
        assert(s@ =~= sim_error_text(*self));
        s
    }
}

impl From<String> for SimError {
    fn from(value: String) -> (e: Self) {
        SimError::Inventory(value)
    }
}

impl vstd::std_specs::convert::FromSpecImpl<String> for SimError {
    open spec fn obeys_from_spec() -> bool {
        true
    }

    open spec fn from_spec(v: String) -> SimError {
        SimError::Inventory(v)
    }
}

/// Something that happened during a tick.
#[derive(Clone, Debug, PartialEq)]
pub enum TickEvent {
    FacilityProgressed { facility: FacilityId, recipe: RecipeId, progress_ticks: u32, duration_ticks: u32 },
    FacilityBlocked { facility: FacilityId, recipe: RecipeId, reasons: Vec<BlockReason> },
    RecipeCompleted { facility: FacilityId, recipe: RecipeId },
    TransportMoved {
        order: TransportOrderId,
        edge: TransportEdgeId,
        commodity: CommodityId,
        qty: Qty,
        capacity_limited: bool,
    },
    TransportBlocked { order: TransportOrderId, reason: TransportBlockReason },
}

/// What blocks a facility whose transport node does not exist: one missing
/// unit of the pseudo-commodity `missing_node.<node>`, of which none is available.
pub fn missing_node_blocker(node: &TransportNodeId) -> (b: BlockReason)
    ensures
        b matches BlockReason::MissingInput { commodity, required, available } && {
            &&& commodity@ == "missing_node."@ + node@
            &&& required@ == ONE_BITS
            &&& available@ == 0
        },
{
    let mut text = String::new();
    push_str(&mut text, "missing_node.");
    push_str(&mut text, node.as_str());
    BlockReason::MissingInput {
        commodity: CommodityId::from_string(text),
        required: Qty::from_bits(ONE_BITS),
        available: Qty::zero(),
    }
}

/// One tick of a facility that runs `recipe_id`, before any stock is
/// taken: it is blocked when the recipe is unknown or something blocks the
/// recipe (`blockers`, found against the facility's stock); otherwise it
/// makes one tick of progress. Returns the event and whether the recipe is
/// now complete.
pub fn facility_tick(
    facility: &mut FacilityState,
    recipe_id: &RecipeId,
    recipe: Option<&Recipe>,
    blockers: Vec<BlockReason>,
) -> (r: (TickEvent, bool))
    requires
        recipe is Some && blockers@.len() == 0 ==> old(facility).progress_ticks < u32::MAX,
    ensures
        match recipe {
            None => {
                &&& *final(facility) == *old(facility)
                &&& !r.1
                &&& r.0 matches TickEvent::FacilityBlocked { facility: f, recipe: rid, reasons } && {
                    &&& f == old(facility).id
                    &&& rid == *recipe_id
                    &&& reasons@ == seq![BlockReason::MissingRecipe(*recipe_id)]
                }
            },
            Some(rec) => if blockers@.len() > 0 {
                &&& *final(facility) == *old(facility)
                &&& !r.1
                &&& r.0 matches TickEvent::FacilityBlocked { facility: f, recipe: rid, reasons } && {
                    &&& f == old(facility).id
                    &&& rid == *recipe_id
                    &&& reasons@ == blockers@
                }
            } else {
                &&& final(facility).progress_ticks == old(facility).progress_ticks + 1
                &&& final(facility).id == old(facility).id
                &&& final(facility).archetype_id == old(facility).archetype_id
                &&& final(facility).active_recipe == old(facility).active_recipe
                &&& final(facility).tags == old(facility).tags
                &&& final(facility).node == old(facility).node
                &&& r.1 == (final(facility).progress_ticks >= rec.duration_ticks)
                &&& r.0 == (TickEvent::FacilityProgressed {
                    facility: old(facility).id,
                    recipe: *recipe_id,
                    progress_ticks: final(facility).progress_ticks,
                    duration_ticks: rec.duration_ticks,
                })
            },
        },
{
    match recipe {
        None => {
            let event = TickEvent::FacilityBlocked {
                facility: facility.id.clone(),
                recipe: recipe_id.clone(),
                reasons: vec![BlockReason::MissingRecipe(recipe_id.clone())],
            };
            (event, false)
        },
        Some(rec) => {
            if blockers.len() > 0 {
                let event = TickEvent::FacilityBlocked {
                    facility: facility.id.clone(),
                    recipe: recipe_id.clone(),
                    reasons: blockers,
                };
                (event, false)
            } else {
                let (progress_ticks, completed) = facility.advance_progress(rec.duration_ticks);
                let event = TickEvent::FacilityProgressed {
                    facility: facility.id.clone(),
                    recipe: recipe_id.clone(),
                    progress_ticks,
                    duration_ticks: rec.duration_ticks,
                };
                (event, completed)
            }
        },
    }
}

/// Ends a completed run of a recipe once its inputs were taken and its
/// outputs stored: the facility starts over, and the completion is reported.
pub fn complete_recipe(facility: &mut FacilityState, recipe_id: &RecipeId) -> (event: TickEvent)
    ensures
        final(facility).progress_ticks == 0,
        final(facility).id == old(facility).id,
        final(facility).archetype_id == old(facility).archetype_id,
        final(facility).active_recipe == old(facility).active_recipe,
        final(facility).tags == old(facility).tags,
        final(facility).node == old(facility).node,
        event == (TickEvent::RecipeCompleted { facility: old(facility).id, recipe: *recipe_id }),
{
    facility.progress_ticks = 0;
    TickEvent::RecipeCompleted { facility: facility.id.clone(), recipe: recipe_id.clone() }
}

} // verus!
