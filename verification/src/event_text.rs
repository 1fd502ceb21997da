//! The debug panel's lines for the events of a tick.
//!
//! Quantities are `f64` values, which the panel shows with one decimal
//! (`{:.1}`); the caller formats the quantities an event shows and hands the
//! texts in, in the order the line shows them.

use vstd::prelude::*;
use crate::catalog::lookup;
use crate::data::ProcessRecipe;
use crate::graph::BlockReason;
use crate::ids::{CommodityId, RecipeId};
use crate::logistics::TransportBlockReason;
use crate::text::{decimal, push_decimal, push_str};
use crate::validate::ValidatedEconomy;
use crate::world::TickEvent;

verus! {

/// How the panel names a commodity: its display name when the economy
/// defines it, else its id.
pub open spec fn commodity_name(economy: ValidatedEconomy, commodity: Seq<char>) -> Seq<char> {
    match lookup(economy.commodities_by_id@, commodity) {
        Some(c) => c.display_name@,
        None => commodity,
    }
}

/// The last canonical recipe with id `id`, if any.
pub open spec fn last_recipe(recipes: Seq<ProcessRecipe>, id: Seq<char>) -> Option<ProcessRecipe>
    decreases recipes.len(),
{
    if recipes.len() == 0 {
        None
    } else if recipes.last().id@ == id {
        Some(recipes.last())
    } else {
        last_recipe(recipes.drop_last(), id)
    }
}

/// How the panel names a recipe: its display name when the economy defines
/// it, else its id.
pub open spec fn recipe_name(economy: ValidatedEconomy, recipe: Seq<char>) -> Seq<char> {
    match last_recipe(economy.canonical.recipes@, recipe) {
        Some(r) => r.display_name@,
        None => recipe,
    }
}

/// The number of quantities a blocker's text shows.
pub open spec fn blocker_qty_count(reason: BlockReason) -> nat {
    match reason {
        BlockReason::MissingInput { .. } => 2,
        BlockReason::MissingRecipe(_) => 0,
    }
}

/// The text of a blocker; `qty_texts` are its required and available
/// quantities.
pub open spec fn blocker_text(economy: ValidatedEconomy, reason: BlockReason, qty_texts: Seq<Seq<char>>) -> Seq<char> {
    match reason {
        BlockReason::MissingInput { commodity, .. } => "needs "@ + qty_texts[0] + " "@ + commodity_name(
            economy,
            commodity@,
        ) + ", has "@ + qty_texts[1],
        BlockReason::MissingRecipe(recipe) => "missing recipe "@ + recipe@,
    }
}

/// The number of quantities an event's line shows: those of the first
/// blocker of a blocked facility, and the quantity a route moved.
pub open spec fn event_qty_count(event: TickEvent) -> nat {
    match event {
        TickEvent::FacilityBlocked { reasons, .. } => if reasons@.len() > 0 {
            blocker_qty_count(reasons@[0])
        } else {
            0
        },
        TickEvent::TransportMoved { .. } => 1,
        _ => 0,
    }
}

/// The message of a blocked route.
pub open spec fn transport_block_text(economy: ValidatedEconomy, reason: TransportBlockReason) -> Seq<char> {
    match reason {
        TransportBlockReason::DestinationAtTarget => "route idle: destination stocked"@,
        TransportBlockReason::NoSourceInventory => "route idle: no source inventory"@,
        TransportBlockReason::ZeroCapacity => "route blocked: zero capacity"@,
        TransportBlockReason::DisabledEdge => "route blocked: disabled"@,
        TransportBlockReason::MissingEdge(edge) => "route missing edge "@ + edge@,
        TransportBlockReason::MissingNode(node) => "route missing node "@ + node@,
        TransportBlockReason::CommodityNotAllowed(c) => "route blocks "@ + commodity_name(economy, c@),
    }
}

/// The panel's line for an event; `qty_texts` are the quantities it shows.
pub open spec fn event_text(economy: ValidatedEconomy, event: TickEvent, qty_texts: Seq<Seq<char>>) -> Seq<char> {
    match event {
        TickEvent::FacilityProgressed { facility, recipe, progress_ticks, duration_ticks } => facility@ + ": "@
            + recipe_name(economy, recipe@) + " "@ + decimal(progress_ticks as nat) + "/"@ + decimal(
            duration_ticks as nat,
        ),
        TickEvent::FacilityBlocked { facility, recipe, reasons } => facility@ + ": "@ + recipe_name(economy, recipe@)
            + " blocked ("@ + (if reasons@.len() > 0 {
            blocker_text(economy, reasons@[0], qty_texts)
        } else {
            "unknown"@
        }) + ")"@,
        TickEvent::RecipeCompleted { facility, recipe } => facility@ + ": completed "@ + recipe_name(economy, recipe@),
        TickEvent::TransportMoved { commodity, capacity_limited, .. } => "route moved "@ + qty_texts[0] + " "@
            + commodity_name(economy, commodity@) + (if capacity_limited {
            " (capacity limited)"@
        } else {
            Seq::empty()
        }),
        TickEvent::TransportBlocked { reason, .. } => transport_block_text(economy, reason),
    }
}

/// Appends how the panel names a commodity.
fn push_commodity_name(output: &mut String, economy: &ValidatedEconomy, commodity: &CommodityId)
    ensures
        final(output)@ == old(output)@ + commodity_name(*economy, commodity@),
{
    match economy.commodities_by_id.get(commodity.as_str()) {
        Some(c) => push_str(output, c.display_name.as_str()),
        None => push_str(output, commodity.as_str()),
    }
}

/// Appends how the panel names a recipe.
fn push_recipe_name(output: &mut String, economy: &ValidatedEconomy, recipe: &RecipeId)
    ensures
        final(output)@ == old(output)@ + recipe_name(*economy, recipe@),
{
    let ghost start = output@;
    let recipes = &economy.canonical.recipes;
    let mut i = recipes.len();
    assert(recipes@.subrange(0, i as int) =~= recipes@);
    while i > 0
        invariant
            output@ == start,
            start == old(output)@,
            recipes@ == economy.canonical.recipes@,
            i <= recipes@.len(),
            last_recipe(recipes@, recipe@) == last_recipe(recipes@.subrange(0, i as int), recipe@),
        decreases i,
    {
        let ghost prefix = recipes@.subrange(0, i as int);
        assert(prefix.drop_last() =~= recipes@.subrange(0, i - 1));
        assert(prefix.last() == recipes@[i - 1]);
        if recipes[i - 1].id == *recipe {
            assert(recipes@[i - 1].id@ == recipe@);
            assert(last_recipe(prefix, recipe@) == Some(recipes@[i - 1]));
            push_str(output, recipes[i - 1].display_name.as_str());
            return;
        }
        i = i - 1;
    }
    assert(recipes@.subrange(0, 0).len() == 0);
    push_str(output, recipe.as_str());
}

/// The text of a blocker; `qty_texts` are its required and available
/// quantities, each written with one decimal.
pub fn format_blocker(economy: &ValidatedEconomy, reason: &BlockReason, qty_texts: &Vec<String>) -> (s: String)
    requires
        qty_texts@.len() == blocker_qty_count(*reason),
    ensures
        s@ == blocker_text(*economy, *reason, qty_texts@.map_values(|t: String| t@)),
{
    let mut s = String::new();
    push_blocker(&mut s, economy, reason, qty_texts);
    s
}

/// Appends the text of a blocker.
fn push_blocker(output: &mut String, economy: &ValidatedEconomy, reason: &BlockReason, qty_texts: &Vec<String>)
    requires
        qty_texts@.len() == blocker_qty_count(*reason),
    ensures
        final(output)@ == old(output)@ + blocker_text(*economy, *reason, qty_texts@.map_values(|t: String| t@)),
{
    let ghost start = output@;
    let ghost texts = qty_texts@.map_values(|t: String| t@);
    match reason {
        BlockReason::MissingInput { commodity, .. } => {
            push_str(output, "needs ");
            push_str(output, qty_texts[0].as_str());
            push_str(output, " ");
            push_commodity_name(output, economy, commodity);
            push_str(output, ", has ");
            push_str(output, qty_texts[1].as_str());
        },
        BlockReason::MissingRecipe(recipe) => {
            push_str(output, "missing recipe ");
            push_str(output, recipe.as_str());
        },
    }
    assert(output@ =~= start + blocker_text(*economy, *reason, texts));
}

/// The debug panel's line for an event; `qty_texts` are the quantities the
/// line shows, each written with one decimal: the required and available
/// quantities of a blocked facility's first blocker, or the quantity a
/// route moved.
pub fn format_event(economy: &ValidatedEconomy, event: &TickEvent, qty_texts: &Vec<String>) -> (s: String)
    requires
        qty_texts@.len() == event_qty_count(*event),
    ensures
        s@ == event_text(*economy, *event, qty_texts@.map_values(|t: String| t@)),
{
    let ghost texts = qty_texts@.map_values(|t: String| t@);
    let mut s = String::new();
    match event {
        TickEvent::FacilityProgressed { facility, recipe, progress_ticks, duration_ticks } => {
            push_str(&mut s, facility.as_str());
            push_str(&mut s, ": ");
            push_recipe_name(&mut s, economy, recipe);
            push_str(&mut s, " ");
            push_decimal(&mut s, *progress_ticks as u64);
            push_str(&mut s, "/");
            push_decimal(&mut s, *duration_ticks as u64);
        },
        TickEvent::FacilityBlocked { facility, recipe, reasons } => {
            push_str(&mut s, facility.as_str());
            push_str(&mut s, ": ");
            push_recipe_name(&mut s, economy, recipe);
            push_str(&mut s, " blocked (");
            if reasons.len() > 0 {
                push_blocker(&mut s, economy, &reasons[0], qty_texts);
            } else {
                push_str(&mut s, "unknown");
            }
            push_str(&mut s, ")");
        },
        TickEvent::RecipeCompleted { facility, recipe } => {
            push_str(&mut s, facility.as_str());
            push_str(&mut s, ": completed ");
            push_recipe_name(&mut s, economy, recipe);
        },
        TickEvent::TransportMoved { commodity, capacity_limited, .. } => {
            push_str(&mut s, "route moved ");
            push_str(&mut s, qty_texts[0].as_str());
            push_str(&mut s, " ");
            push_commodity_name(&mut s, economy, commodity);
            if *capacity_limited {
                push_str(&mut s, " (capacity limited)");
            }
        },
        TickEvent::TransportBlocked { reason, .. } => match reason {
            TransportBlockReason::DestinationAtTarget => push_str(&mut s, "route idle: destination stocked"),
            TransportBlockReason::NoSourceInventory => push_str(&mut s, "route idle: no source inventory"),
            TransportBlockReason::ZeroCapacity => push_str(&mut s, "route blocked: zero capacity"),
            TransportBlockReason::DisabledEdge => push_str(&mut s, "route blocked: disabled"),
            TransportBlockReason::MissingEdge(edge) => {
                push_str(&mut s, "route missing edge ");
                push_str(&mut s, edge.as_str());
            },
            TransportBlockReason::MissingNode(node) => {
                push_str(&mut s, "route missing node ");
                push_str(&mut s, node.as_str());
            },
            TransportBlockReason::CommodityNotAllowed(c) => {
                push_str(&mut s, "route blocks ");
                push_commodity_name(&mut s, economy, c);
            },
        },
    }
    assert(s@ =~= event_text(*economy, *event, texts));
    s
}

} // verus!
