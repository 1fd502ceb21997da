//! Deterministic economy simulation primitives for the Copper Island
//! economy, the canonical game-data records and their validation, and the
//! headless inspector's command line and reports.
//!
//! Quantities are `f64` values carried by their bit patterns (see [`qty`]);
//! the arithmetic on them is left to the caller.

pub mod order;
pub mod catalog;
pub mod ids;
pub mod qty;
pub mod text;
pub mod recipe;
pub mod graph;
pub mod facility;
pub mod logistics;
pub mod world;
pub mod data;
pub mod validate;
pub mod scenario;
pub mod scenario_check;
pub mod scenario_report;
pub mod recipe_report;
pub mod event_text;
pub mod inspect;
pub mod island;

pub use catalog::{Catalog, Keyed};
pub use data::{
    AuthoredStatus, CanonicalEconomy, Commodity, Confidence, FacilityArchetype, ProcessRecipe,
    Quantity, RegionProfile, RegionResource, SourceRef,
};
pub use facility::FacilityState;
pub use graph::{BlockReason, CommodityRecipeLinks};
pub use ids::{
    CommodityId, FacilityArchetypeId, FacilityId, RecipeId, RegionId, TransportEdgeId,
    TransportNodeId, TransportOrderId,
};
pub use logistics::{TransportBlockReason, TransportEdge, TransportOrder};
pub use qty::Qty;
pub use recipe::{Recipe, RecipeBook, Stack};
pub use scenario::{BuildOption, GridPos, MapLayout, Scenario, WinCondition, WinMetric};
pub use validate::{ValidatedEconomy, ValidationError, ValidationReport, validate_canonical};
pub use world::{SimError, Tick, TickEvent};
