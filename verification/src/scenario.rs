//! Scenarios: the tutorial and gameplay setups that the data files describe.

use vstd::prelude::*;
use crate::data::Quantity;
use crate::ids::{CommodityId, FacilityArchetypeId, RecipeId, RegionId};
use crate::qty::Qty;

verus! {

/// A tile position in a map layout.
#[derive(Clone, Copy, Debug, PartialEq, Eq, Structural)]
pub struct GridPos {
    pub col: usize,
    pub row: usize,
}

/// A compact row-based tile layout: each row lists tile kinds, and one tile
/// starts selected.
#[derive(Debug, PartialEq, Eq)]
pub struct MapLayout {
    pub kind_rows: Vec<Vec<String>>,
    pub initial_selected: GridPos,
}

/// How progress toward a win condition is measured.
#[derive(Clone, Copy, Debug, PartialEq, Eq, Structural)]
pub enum WinMetric {
    ProducedTotal,
    CurrentInventory,
}

/// A target amount of a commodity.
#[derive(Debug, PartialEq)]
pub struct WinCondition {
    pub commodity: CommodityId,
    pub qty: Qty,
    pub metric: WinMetric,
}

/// A facility the player can build with one key.
#[derive(Debug, PartialEq)]
pub struct BuildOption {
    pub key: String,
    pub label: String,
    pub facility: FacilityArchetypeId,
    pub active_recipe: Option<RecipeId>,
    pub allowed_tile_kinds: Vec<String>,
    pub transport_output: Option<CommodityId>,
    pub use_tile_node: bool,
}

/// A scenario: its map, starting stock, goals and build options.
#[derive(Debug, PartialEq)]
pub struct Scenario {
    pub id: String,
    pub display_name: String,
    pub region: RegionId,
    pub description: Option<String>,
    pub objective_notes: Vec<String>,
    pub map_layout: MapLayout,
    pub starting_inventory: Vec<Quantity>,
    pub win_conditions: Vec<WinCondition>,
    pub build_options: Vec<BuildOption>,
}

} // verus!
