//! The Copper Island game rules that do not depend on rendering: the island
//! layout and its transport nodes, the build commands, the status log, the
//! recipe-graph selection, and the world-mode run controls.

use vstd::prelude::*;
use crate::catalog::{Catalog, Keyed, has_key, lookup};
use crate::data::{FacilityArchetype, clone_texts};
use crate::facility::FacilityState;
use crate::ids::{
    CommodityId, FacilityArchetypeId, FacilityId, RecipeId, TransportEdgeId, TransportNodeId, TransportOrderId,
};
use crate::logistics::{TransportEdge, TransportOrder};
use crate::qty::{ONE_BITS, Qty};
use crate::text::{decimal, push_decimal, push_str};

verus! {

/// The transport node of the settlement.
pub const SETTLEMENT_NODE: &'static str = "node.settlement";

/// The number of lines the status log keeps.
pub const STATUS_LOG_CAPACITY: usize = 8;

/// The tile that starts selected.
pub const INITIAL_SELECTED_TILE: usize = 17;

/// The kind of an island tile.
#[derive(Clone, Copy, Debug, Eq, PartialEq, Hash, Structural)]
pub enum TileKind {
    Water,
    Forest,
    Coal,
    Copper,
    Iron,
    Limestone,
    Settlement,
    Buildable,
}

/// The name of a tile kind, as the data files and the map write it.
pub open spec fn kind_name(kind: TileKind) -> &'static str {
    match kind {
        TileKind::Water => "water",
        TileKind::Forest => "forest",
        TileKind::Coal => "coal",
        TileKind::Copper => "copper",
        TileKind::Iron => "iron",
        TileKind::Limestone => "limestone",
        TileKind::Settlement => "settlement",
        TileKind::Buildable => "buildable",
    }
}

impl TileKind {
    /// The name of the kind, as its `Display` form reads.
    pub fn as_key(&self) -> (s: &'static str)
        ensures
            s == kind_name(*self),
    {
        match self {
            TileKind::Water => "water",
            TileKind::Forest => "forest",
            TileKind::Coal => "coal",
            TileKind::Copper => "copper",
            TileKind::Iron => "iron",
            TileKind::Limestone => "limestone",
            TileKind::Settlement => "settlement",
            TileKind::Buildable => "buildable",
        }
    }
}

/// The index of a tile in the island's tile list.
#[derive(Clone, Copy, Debug, Eq, PartialEq, Hash, Structural)]
pub struct TileId(pub usize);

/// The island's rows of tile kinds, north to south.
pub open spec fn island_rows() -> Seq<Seq<TileKind>> {
    seq![
        seq![TileKind::Water, TileKind::Water, TileKind::Water, TileKind::Water, TileKind::Water, TileKind::Water, TileKind::Water],
        seq![TileKind::Water, TileKind::Forest, TileKind::Forest, TileKind::Coal, TileKind::Buildable, TileKind::Limestone, TileKind::Water],
        seq![TileKind::Water, TileKind::Copper, TileKind::Buildable, TileKind::Settlement, TileKind::Buildable, TileKind::Iron, TileKind::Water],
        seq![TileKind::Water, TileKind::Forest, TileKind::Coal, TileKind::Buildable, TileKind::Copper, TileKind::Buildable, TileKind::Water],
        seq![TileKind::Water, TileKind::Water, TileKind::Water, TileKind::Water, TileKind::Water, TileKind::Water, TileKind::Water],
    ]
}

/// The number of tiles in a row of the island.
pub const ISLAND_WIDTH: usize = 7;

/// The number of rows of the island.
pub const ISLAND_HEIGHT: usize = 5;

/// One tile of the island, without its screen position.
#[derive(Debug, PartialEq)]
pub struct IslandTile {
    pub id: TileId,
    pub kind: TileKind,
    pub col: usize,
    pub row: usize,
    pub node_id: TransportNodeId,
}

/// The transport node of tile `index`: the settlement node for the
/// settlement, `node.tile.<index>` for every other tile.
pub open spec fn tile_node_text(index: nat, kind: TileKind) -> Seq<char> {
    if kind == TileKind::Settlement {
        SETTLEMENT_NODE@
    } else {
        "node.tile."@ + decimal(index)
    }
}

/// The transport node of a tile.
pub fn tile_node_id(index: usize, kind: TileKind) -> (id: TransportNodeId)
    ensures
        id@ == tile_node_text(index as nat, kind),
{
    if kind == TileKind::Settlement {
        TransportNodeId::from(SETTLEMENT_NODE)
    } else {
        let mut s = String::new();
        push_str(&mut s, "node.tile.");
        push_decimal(&mut s, index as u64);
        TransportNodeId::from_string(s)
    }
}

fn island_row(row: usize) -> (kinds: Vec<TileKind>)
    requires
        row < 5,
    ensures
        kinds@ == island_rows()[row as int],
{
    let w = TileKind::Water;
    let f = TileKind::Forest;
    let k = TileKind::Coal;
    let c = TileKind::Copper;
    let i = TileKind::Iron;
    let l = TileKind::Limestone;
    let s = TileKind::Settlement;
    let b = TileKind::Buildable;
    let v = if row == 0 || row == 4 {
        vec![w, w, w, w, w, w, w]
    } else if row == 1 {
        vec![w, f, f, k, b, l, w]
    } else if row == 2 {
        vec![w, c, b, s, b, i, w]
    } else {
        vec![w, f, k, b, c, b, w]
    };
    assert(v@ =~= island_rows()[row as int]);
    v
}

/// The Copper Island tiles, row by row; tile `i` lies in row `i / 7`,
/// column `i % 7`.
pub fn copper_island_tiles() -> (tiles: Vec<IslandTile>)
    ensures
        tiles@.len() == 35,
        forall|i: int|
            0 <= i < 35 ==> {
                let t = #[trigger] tiles@[i];
                &&& t.id == TileId(i as usize)
                &&& t.row == i / 7
                &&& t.col == i % 7
                &&& t.kind == island_rows()[i / 7][i % 7]
                &&& t.node_id@ == tile_node_text(i as nat, t.kind)
            },
{
    let mut tiles: Vec<IslandTile> = Vec::new();
    let mut row: usize = 0;
    while row < ISLAND_HEIGHT
        invariant
            row <= 5,
            tiles@.len() == row * 7,
            forall|i: int|
                0 <= i < row * 7 ==> {
                    let t = #[trigger] tiles@[i];
                    &&& t.id == TileId(i as usize)
                    &&& t.row == i / 7
                    &&& t.col == i % 7
                    &&& t.kind == island_rows()[i / 7][i % 7]
                    &&& t.node_id@ == tile_node_text(i as nat, t.kind)
                },
        decreases 5 - row,
    {
        let kinds = island_row(row);
        let mut col: usize = 0;
        while col < ISLAND_WIDTH
            invariant
                row < 5,
                col <= 7,
                kinds@ == island_rows()[row as int],
                kinds@.len() == 7,
                tiles@.len() == row * 7 + col,
                forall|i: int|
                    0 <= i < row * 7 + col ==> {
                        let t = #[trigger] tiles@[i];
                        &&& t.id == TileId(i as usize)
                        &&& t.row == i / 7
                        &&& t.col == i % 7
                        &&& t.kind == island_rows()[i / 7][i % 7]
                        &&& t.node_id@ == tile_node_text(i as nat, t.kind)
                    },
            decreases 7 - col,
        {
            let index = row * 7 + col;
            let kind = kinds[col];
            assert(index / 7 == row && index % 7 == col) by (nonlinear_arith)
                requires
                    index == row * 7 + col,
                    col < 7,
            ;
            tiles.push(IslandTile { id: TileId(index), kind, col, row, node_id: tile_node_id(index, kind) });
            col = col + 1;
        }
        row = row + 1;
    }
    tiles
}

// ---------------------------------------------------------------------------
// Build commands.

/// The number keys that issue build commands.
#[derive(Clone, Copy, Debug, Eq, PartialEq, Structural)]
pub enum BuildKey {
    Digit1,
    Digit2,
    Digit3,
    Digit4,
    Digit5,
    Digit6,
    Digit7,
}

/// The tile kinds a facility may be built on.
#[derive(Clone, Copy, Debug, Eq, PartialEq, Structural)]
pub enum AllowedTiles {
    ForestOnly,
    CoalOnly,
    CopperOnly,
    IronOnly,
    LimestoneOnly,
    SettlementOnly,
    SettlementOrBuildable,
}

/// The tile kinds in an allowed set.
pub open spec fn allows_kind(allowed: AllowedTiles, kind: TileKind) -> bool {
    match allowed {
        AllowedTiles::ForestOnly => kind == TileKind::Forest,
        AllowedTiles::CoalOnly => kind == TileKind::Coal,
        AllowedTiles::CopperOnly => kind == TileKind::Copper,
        AllowedTiles::IronOnly => kind == TileKind::Iron,
        AllowedTiles::LimestoneOnly => kind == TileKind::Limestone,
        AllowedTiles::SettlementOnly => kind == TileKind::Settlement,
        AllowedTiles::SettlementOrBuildable => kind == TileKind::Settlement || kind == TileKind::Buildable,
    }
}

/// A build command: what to build, with which recipe, where, and which of
/// its outputs to route to the settlement.
#[derive(Clone, Copy, Debug, PartialEq)]
pub struct BuildRequest {
    pub label: &'static str,
    pub archetype: &'static str,
    pub recipe: Option<&'static str>,
    pub allowed: AllowedTiles,
    pub transport_output: Option<&'static str>,
    pub use_tile_node: bool,
}

/// The extraction facility for a resource tile: a mine or quarry.
pub open spec fn mine_request_spec(kind: TileKind) -> Option<BuildRequest> {
    match kind {
        TileKind::Coal => Some(
            BuildRequest {
                label: "coal mine",
                archetype: "facility.mine.tier1",
                recipe: Some("recipe.mine_coal.v1"),
                allowed: AllowedTiles::CoalOnly,
                transport_output: Some("resource.coal"),
                use_tile_node: true,
            },
        ),
        TileKind::Copper => Some(
            BuildRequest {
                label: "copper mine",
                archetype: "facility.mine.tier1",
                recipe: Some("recipe.mine_copper_ore.v1"),
                allowed: AllowedTiles::CopperOnly,
                transport_output: Some("ore.copper"),
                use_tile_node: true,
            },
        ),
        TileKind::Iron => Some(
            BuildRequest {
                label: "iron mine",
                archetype: "facility.mine.tier1",
                recipe: Some("recipe.mine_iron_ore.v1"),
                allowed: AllowedTiles::IronOnly,
                transport_output: Some("ore.iron"),
                use_tile_node: true,
            },
        ),
        TileKind::Limestone => Some(
            BuildRequest {
                label: "limestone quarry",
                archetype: "facility.mine.tier1",
                recipe: Some("recipe.quarry_limestone.v1"),
                allowed: AllowedTiles::LimestoneOnly,
                transport_output: Some("mineral.limestone"),
                use_tile_node: true,
            },
        ),
        _ => None,
    }
}

/// A settlement facility running `recipe`.
pub open spec fn settlement_request(label: &'static str, archetype: &'static str, recipe: &'static str) -> BuildRequest {
    BuildRequest {
        label,
        archetype,
        recipe: Some(recipe),
        allowed: AllowedTiles::SettlementOnly,
        transport_output: None,
        use_tile_node: false,
    }
}

/// The build command of a key, for the selected tile's kind.
pub open spec fn build_request_spec(key: BuildKey, kind: TileKind) -> Option<BuildRequest> {
    match key {
        BuildKey::Digit1 => Some(
            BuildRequest {
                label: "camp",
                archetype: "facility.camp.tier1",
                recipe: Some("recipe.gather_wood.v1"),
                allowed: AllowedTiles::ForestOnly,
                transport_output: Some("resource.wood"),
                use_tile_node: true,
            },
        ),
        BuildKey::Digit2 => mine_request_spec(kind),
        BuildKey::Digit3 => Some(settlement_request("heat furnace", "facility.furnace.tier1", "recipe.burn_coal_for_heat.v1")),
        BuildKey::Digit4 => Some(settlement_request("copper furnace", "facility.furnace.tier1", "recipe.smelt_copper.v1")),
        BuildKey::Digit5 => Some(settlement_request("generator", "facility.generator.tier1", "recipe.generate_electricity_from_heat.v1")),
        BuildKey::Digit6 => Some(settlement_request("wire workshop", "facility.workshop.tier1", "recipe.draw_copper_wire.v1")),
        BuildKey::Digit7 => Some(
            BuildRequest {
                label: "warehouse",
                archetype: "facility.warehouse.tier1",
                recipe: None,
                allowed: AllowedTiles::SettlementOrBuildable,
                transport_output: None,
                use_tile_node: false,
            },
        ),
    }
}

/// The extraction facility for a resource tile, if the tile has one.
pub fn mine_request(kind: TileKind) -> (r: Option<BuildRequest>)
    ensures
        r == mine_request_spec(kind),
{
    match kind {
        TileKind::Coal => Some(
            BuildRequest {
                label: "coal mine",
                archetype: "facility.mine.tier1",
                recipe: Some("recipe.mine_coal.v1"),
                allowed: AllowedTiles::CoalOnly,
                transport_output: Some("resource.coal"),
                use_tile_node: true,
            },
        ),
        TileKind::Copper => Some(
            BuildRequest {
                label: "copper mine",
                archetype: "facility.mine.tier1",
                recipe: Some("recipe.mine_copper_ore.v1"),
                allowed: AllowedTiles::CopperOnly,
                transport_output: Some("ore.copper"),
                use_tile_node: true,
            },
        ),
        TileKind::Iron => Some(
            BuildRequest {
                label: "iron mine",
                archetype: "facility.mine.tier1",
                recipe: Some("recipe.mine_iron_ore.v1"),
                allowed: AllowedTiles::IronOnly,
                transport_output: Some("ore.iron"),
                use_tile_node: true,
            },
        ),
        TileKind::Limestone => Some(
            BuildRequest {
                label: "limestone quarry",
                archetype: "facility.mine.tier1",
                recipe: Some("recipe.quarry_limestone.v1"),
                allowed: AllowedTiles::LimestoneOnly,
                transport_output: Some("mineral.limestone"),
                use_tile_node: true,
            },
        ),
        _ => None,
    }
}

/// The digit of a build key.
pub open spec fn key_rank(key: BuildKey) -> nat {
    match key {
        BuildKey::Digit1 => 1,
        BuildKey::Digit2 => 2,
        BuildKey::Digit3 => 3,
        BuildKey::Digit4 => 4,
        BuildKey::Digit5 => 5,
        BuildKey::Digit6 => 6,
        BuildKey::Digit7 => 7,
    }
}

/// The build key that counts among those pressed in a frame: keys `1` to
/// `7` are looked at in turn, and the first one pressed wins.
pub open spec fn pressed_key(pressed: Seq<BuildKey>) -> Option<BuildKey> {
    if pressed.contains(BuildKey::Digit1) {
        Some(BuildKey::Digit1)
    } else if pressed.contains(BuildKey::Digit2) {
        Some(BuildKey::Digit2)
    } else if pressed.contains(BuildKey::Digit3) {
        Some(BuildKey::Digit3)
    } else if pressed.contains(BuildKey::Digit4) {
        Some(BuildKey::Digit4)
    } else if pressed.contains(BuildKey::Digit5) {
        Some(BuildKey::Digit5)
    } else if pressed.contains(BuildKey::Digit6) {
        Some(BuildKey::Digit6)
    } else if pressed.contains(BuildKey::Digit7) {
        Some(BuildKey::Digit7)
    } else {
        None
    }
}

/// Whether `key` is among the pressed keys.
fn is_pressed(pressed: &[BuildKey], key: BuildKey) -> (b: bool)
    ensures
        b == pressed@.contains(key),
{
    let mut i: usize = 0;
    while i < pressed.len()
        invariant
            i <= pressed@.len(),
            forall|j: int| 0 <= j < i ==> pressed@[j] != key,
        decreases pressed@.len() - i,
    {
        if pressed[i] == key {
            assert(pressed@[i as int] == key);
            return true;
        }
        i = i + 1;
    }
    false
}

/// The build key that counts among the keys pressed in a frame: the lowest
/// digit pressed, or none.
pub fn first_pressed(pressed: &[BuildKey]) -> (k: Option<BuildKey>)
    ensures
        k == pressed_key(pressed@),
{
    if is_pressed(pressed, BuildKey::Digit1) {
        Some(BuildKey::Digit1)
    } else if is_pressed(pressed, BuildKey::Digit2) {
        Some(BuildKey::Digit2)
    } else if is_pressed(pressed, BuildKey::Digit3) {
        Some(BuildKey::Digit3)
    } else if is_pressed(pressed, BuildKey::Digit4) {
        Some(BuildKey::Digit4)
    } else if is_pressed(pressed, BuildKey::Digit5) {
        Some(BuildKey::Digit5)
    } else if is_pressed(pressed, BuildKey::Digit6) {
        Some(BuildKey::Digit6)
    } else if is_pressed(pressed, BuildKey::Digit7) {
        Some(BuildKey::Digit7)
    } else {
        None
    }
}

/// The build command issued in a frame on a tile of kind `kind`, from the
/// keys pressed in it: the command of the lowest digit pressed, if any.
pub fn requested_build(pressed: &[BuildKey], kind: TileKind) -> (r: Option<BuildRequest>)
    ensures
        r == match pressed_key(pressed@) {
            Some(k) => build_request_spec(k, kind),
            None => None,
        },
{
    match first_pressed(pressed) {
        Some(k) => build_request(k, kind),
        None => None,
    }
}

/// The build command that `key` issues on a tile of kind `kind`.
pub fn build_request(key: BuildKey, kind: TileKind) -> (r: Option<BuildRequest>)
    ensures
        r == build_request_spec(key, kind),
{
    match key {
        BuildKey::Digit1 => Some(
            BuildRequest {
                label: "camp",
                archetype: "facility.camp.tier1",
                recipe: Some("recipe.gather_wood.v1"),
                allowed: AllowedTiles::ForestOnly,
                transport_output: Some("resource.wood"),
                use_tile_node: true,
            },
        ),
        BuildKey::Digit2 => mine_request(kind),
        BuildKey::Digit3 => Some(
            BuildRequest {
                label: "heat furnace",
                archetype: "facility.furnace.tier1",
                recipe: Some("recipe.burn_coal_for_heat.v1"),
                allowed: AllowedTiles::SettlementOnly,
                transport_output: None,
                use_tile_node: false,
            },
        ),
        BuildKey::Digit4 => Some(
            BuildRequest {
                label: "copper furnace",
                archetype: "facility.furnace.tier1",
                recipe: Some("recipe.smelt_copper.v1"),
                allowed: AllowedTiles::SettlementOnly,
                transport_output: None,
                use_tile_node: false,
            },
        ),
        BuildKey::Digit5 => Some(
            BuildRequest {
                label: "generator",
                archetype: "facility.generator.tier1",
                recipe: Some("recipe.generate_electricity_from_heat.v1"),
                allowed: AllowedTiles::SettlementOnly,
                transport_output: None,
                use_tile_node: false,
            },
        ),
        BuildKey::Digit6 => Some(
            BuildRequest {
                label: "wire workshop",
                archetype: "facility.workshop.tier1",
                recipe: Some("recipe.draw_copper_wire.v1"),
                allowed: AllowedTiles::SettlementOnly,
                transport_output: None,
                use_tile_node: false,
            },
        ),
        BuildKey::Digit7 => Some(
            BuildRequest {
                label: "warehouse",
                archetype: "facility.warehouse.tier1",
                recipe: None,
                allowed: AllowedTiles::SettlementOrBuildable,
                transport_output: None,
                use_tile_node: false,
            },
        ),
    }
}

impl BuildRequest {
    /// Whether the facility may be built on a tile of kind `kind`.
    pub fn allowed_on(&self, kind: TileKind) -> (b: bool)
        ensures
            b == allows_kind(self.allowed, kind),
    {
        match self.allowed {
            AllowedTiles::ForestOnly => kind == TileKind::Forest,
            AllowedTiles::CoalOnly => kind == TileKind::Coal,
            AllowedTiles::CopperOnly => kind == TileKind::Copper,
            AllowedTiles::IronOnly => kind == TileKind::Iron,
            AllowedTiles::LimestoneOnly => kind == TileKind::Limestone,
            AllowedTiles::SettlementOnly => kind == TileKind::Settlement,
            AllowedTiles::SettlementOrBuildable => kind == TileKind::Settlement || kind == TileKind::Buildable,
        }
    }

    /// The node the facility works from: the tile's own node for extraction
    /// facilities, the settlement node otherwise.
    pub fn facility_node(&self, tile_node: &TransportNodeId) -> (n: TransportNodeId)
        ensures
            n@ == if self.use_tile_node {
                tile_node@
            } else {
                SETTLEMENT_NODE@
            },
    {
        if self.use_tile_node {
            tile_node.clone()
        } else {
            TransportNodeId::from(SETTLEMENT_NODE)
        }
    }
}

// ---------------------------------------------------------------------------
// Placing a facility.

/// The capacity per tick of a route from a tile to the settlement, `2.0`.
pub const ROUTE_CAPACITY_BITS: u64 = 0x4000_0000_0000_0000;

/// The stock a route keeps at the settlement, `999.0`.
pub const ROUTE_TARGET_BITS: u64 = 0x408F_3800_0000_0000;

/// The most a route's order moves per tick, `4.0`.
pub const ROUTE_MAX_PER_TICK_BITS: u64 = 0x4010_0000_0000_0000;

/// What a build command is refused with before any stock is looked at, or
/// the archetype it builds: the facility must be allowed on the tile, and
/// its archetype must be defined.
pub open spec fn build_check(
    request: BuildRequest,
    kind: TileKind,
    facilities: Seq<FacilityArchetype>,
) -> Result<FacilityArchetype, Seq<char>> {
    if !allows_kind(request.allowed, kind) {
        Err("Cannot build "@ + request.label@ + " on "@ + kind_name(kind)@)
    } else {
        match lookup(facilities, request.archetype@) {
            Some(a) => Ok(a),
            None => Err("Missing archetype "@ + request.archetype@),
        }
    }
}

/// Checks a build command against the tile and the defined archetypes.
pub fn check_build<'a>(
    request: &BuildRequest,
    kind: TileKind,
    facilities: &'a Catalog<FacilityArchetype>,
) -> (r: Result<&'a FacilityArchetype, String>)
    ensures
        match r {
            Ok(a) => build_check(*request, kind, facilities@) == Ok::<FacilityArchetype, Seq<char>>(*a),
            Err(m) => build_check(*request, kind, facilities@) == Err::<FacilityArchetype, Seq<char>>(m@),
        },
{
    if !request.allowed_on(kind) {
        let mut m = String::new();
        push_str(&mut m, "Cannot build ");
        push_str(&mut m, request.label);
        push_str(&mut m, " on ");
        push_str(&mut m, kind.as_key());
        assert(m@ =~= "Cannot build "@ + request.label@ + " on "@ + kind_name(kind)@);
        return Err(m);
    }
    match facilities.get(request.archetype) {
        Some(a) => Ok(a),
        None => {
            let mut m = String::new();
            push_str(&mut m, "Missing archetype ");
            push_str(&mut m, request.archetype);
            assert(m@ =~= "Missing archetype "@ + request.archetype@);
            Err(m)
        },
    }
}

/// A transport edge from a tile to the settlement, with the order that
/// keeps the settlement stocked with one commodity over it.
#[derive(Debug, PartialEq)]
pub struct SettlementRoute {
    pub edge: TransportEdge,
    pub order: TransportOrder,
}

/// The id of the edge from tile `index` to the settlement for `commodity`.
pub open spec fn route_edge_text(index: nat, commodity: Seq<char>) -> Seq<char> {
    "edge.tile_"@ + decimal(index) + ".to_settlement."@ + commodity
}

/// The id of the order over that edge.
pub open spec fn route_order_text(index: nat, commodity: Seq<char>) -> Seq<char> {
    "order.tile_"@ + decimal(index) + ".to_settlement."@ + commodity
}

/// `route` carries `commodity` from `tile` to the settlement: an enabled,
/// unfiltered edge of capacity `2.0` and distance cost `1.0`, and an order
/// that keeps `999.0` at the settlement, moving at most `4.0` per tick.
pub open spec fn is_settlement_route(route: SettlementRoute, tile: IslandTile, commodity: Seq<char>) -> bool {
    &&& route.edge.id@ == route_edge_text(tile.id.0 as nat, commodity)
    &&& route.edge.from == tile.node_id
    &&& route.edge.to@ == SETTLEMENT_NODE@
    &&& route.edge.capacity_per_tick@ == ROUTE_CAPACITY_BITS
    &&& route.edge.distance_cost@ == ONE_BITS
    &&& route.edge.commodity_filter is None
    &&& route.edge.enabled
    &&& route.order.id@ == route_order_text(tile.id.0 as nat, commodity)
    &&& route.order.edge_id == route.edge.id
    &&& route.order.commodity@ == commodity
    &&& route.order.target_qty_at_destination@ == ROUTE_TARGET_BITS
    &&& route.order.max_qty_per_tick@ == ROUTE_MAX_PER_TICK_BITS
}

/// The route that brings `commodity` from `tile` to the settlement; none
/// from the settlement itself.
pub fn settlement_route(tile: &IslandTile, commodity: &CommodityId) -> (r: Option<SettlementRoute>)
    ensures
        match r {
            Some(route) => tile.node_id@ != SETTLEMENT_NODE@ && is_settlement_route(route, *tile, commodity@),
            None => tile.node_id@ == SETTLEMENT_NODE@,
        },
{
    if crate::order::same_text(tile.node_id.as_str(), SETTLEMENT_NODE) {
        return None;
    }
    let mut edge_text = String::new();
    push_str(&mut edge_text, "edge.tile_");
    push_decimal(&mut edge_text, tile.id.0 as u64);
    push_str(&mut edge_text, ".to_settlement.");
    push_str(&mut edge_text, commodity.as_str());
    let mut order_text = String::new();
    push_str(&mut order_text, "order.tile_");
    push_decimal(&mut order_text, tile.id.0 as u64);
    push_str(&mut order_text, ".to_settlement.");
    push_str(&mut order_text, commodity.as_str());
    assert(edge_text@ =~= route_edge_text(tile.id.0 as nat, commodity@));
    assert(order_text@ =~= route_order_text(tile.id.0 as nat, commodity@));
    let edge_id = TransportEdgeId::from_string(edge_text);
    let edge = TransportEdge::new(
        edge_id.clone(),
        tile.node_id.clone(),
        TransportNodeId::from(SETTLEMENT_NODE),
        Qty::from_bits(ROUTE_CAPACITY_BITS),
        Qty::from_bits(ONE_BITS),
    );
    let order = TransportOrder::new(
        TransportOrderId::from_string(order_text),
        edge_id,
        commodity.clone(),
        Qty::from_bits(ROUTE_TARGET_BITS),
        Qty::from_bits(ROUTE_MAX_PER_TICK_BITS),
    );
    Some(SettlementRoute { edge, order })
}

impl Keyed for TransportEdge {
    open spec fn key(&self) -> Seq<char> {
        self.id@
    }

    fn key_str(&self) -> (s: &str) {
        self.id.as_str()
    }
}

impl Keyed for TransportOrder {
    open spec fn key(&self) -> Seq<char> {
        self.id@
    }

    fn key_str(&self) -> (s: &str) {
        self.id.as_str()
    }
}

/// Adds a route's edge and its order to the world's edges and orders, each
/// only where no record with its id is present yet: a route already added
/// is left as it is, so adding the same route twice is adding it once.
pub fn add_settlement_route(
    edges: &mut Catalog<TransportEdge>,
    orders: &mut Catalog<TransportOrder>,
    route: SettlementRoute,
)
    ensures
        has_key(final(edges)@, route.edge.id@),
        has_key(old(edges)@, route.edge.id@) ==> final(edges)@ == old(edges)@,
        !has_key(old(edges)@, route.edge.id@) ==> lookup(final(edges)@, route.edge.id@) == Some(route.edge),
        forall|k: Seq<char>| k != route.edge.id@ ==> #[trigger] lookup(final(edges)@, k) == lookup(old(edges)@, k),
        has_key(final(orders)@, route.order.id@),
        has_key(old(orders)@, route.order.id@) ==> final(orders)@ == old(orders)@,
        !has_key(old(orders)@, route.order.id@) ==> lookup(final(orders)@, route.order.id@) == Some(route.order),
        forall|k: Seq<char>| k != route.order.id@ ==> #[trigger] lookup(final(orders)@, k) == lookup(old(orders)@, k),
{
    let SettlementRoute { edge, order } = route;
    if !edges.contains_key(edge.id.as_str()) {
        let _ = edges.insert(edge);
    }
    if !orders.contains_key(order.id.as_str()) {
        let _ = orders.insert(order);
    }
}

/// How taking a build cost from the settlement's stock went.
#[derive(Clone, Copy, Debug, Eq, PartialEq, Structural)]
pub enum Payment {
    /// The settlement does not hold the whole cost.
    Short,
    /// The settlement held the cost, but taking it failed.
    Failed,
    /// The cost was taken.
    Paid,
}

/// What came of a build command once its cost was settled.
#[derive(Debug)]
pub enum BuildOutcome {
    Refused(String),
    Built { facility: FacilityState, route: Option<SettlementRoute>, status: String },
}

/// The id of the `counter`-th facility built from an archetype.
pub open spec fn instance_text(archetype: Seq<char>, counter: nat) -> Seq<char> {
    archetype + ".instance."@ + decimal(counter)
}

/// `facility` is the new facility of a build command: numbered by the
/// counter, of the request's archetype and recipe, on the request's node,
/// with the archetype's tags and no progress.
pub open spec fn is_new_facility(
    facility: FacilityState,
    request: BuildRequest,
    tile: IslandTile,
    archetype: FacilityArchetype,
    counter: nat,
) -> bool {
    &&& facility.id@ == instance_text(request.archetype@, counter)
    &&& facility.archetype_id@ == request.archetype@
    &&& match (facility.active_recipe, request.recipe) {
        (Some(r), Some(t)) => r@ == t@,
        (None, None) => true,
        _ => false,
    }
    &&& facility.progress_ticks == 0
    &&& facility.tags@ == archetype.tags@
    &&& facility.node matches Some(n) && n@ == (if request.use_tile_node {
        tile.node_id@
    } else {
        SETTLEMENT_NODE@
    })
}

/// Settles a checked build command on a tile once its cost was dealt with:
/// refused when the settlement could not pay; otherwise the counter moves
/// on, and the new facility, its route home (for a facility whose output
/// goes to the settlement), and the status line are returned.
pub fn finish_build(
    request: &BuildRequest,
    tile: &IslandTile,
    archetype: &FacilityArchetype,
    payment: Payment,
    counter: &mut u64,
) -> (r: BuildOutcome)
    requires
        payment == Payment::Paid ==> *old(counter) < u64::MAX,
    ensures
        match payment {
            Payment::Short => {
                &&& *final(counter) == *old(counter)
                &&& r matches BuildOutcome::Refused(m) && m@ == "Not enough settlement inventory for "@
                    + archetype.display_name@
            },
            Payment::Failed => {
                &&& *final(counter) == *old(counter)
                &&& r matches BuildOutcome::Refused(m) && m@ == "Could not pay build cost for "@
                    + archetype.display_name@
            },
            Payment::Paid => {
                &&& *final(counter) == *old(counter) + 1
                &&& r matches BuildOutcome::Built { facility, route, status } && {
                    &&& is_new_facility(facility, *request, *tile, *archetype, *final(counter) as nat)
                    &&& match request.transport_output {
                        Some(c) => match route {
                            Some(rt) => tile.node_id@ != SETTLEMENT_NODE@ && is_settlement_route(rt, *tile, c@),
                            None => tile.node_id@ == SETTLEMENT_NODE@,
                        },
                        None => route is None,
                    }
                    &&& status@ == "Built "@ + archetype.display_name@ + " on "@ + kind_name(tile.kind)@
                }
            },
        },
{
    match payment {
        Payment::Short => {
            let mut m = String::new();
            push_str(&mut m, "Not enough settlement inventory for ");
            push_str(&mut m, archetype.display_name.as_str());
            BuildOutcome::Refused(m)
        },
        Payment::Failed => {
            let mut m = String::new();
            push_str(&mut m, "Could not pay build cost for ");
            push_str(&mut m, archetype.display_name.as_str());
            BuildOutcome::Refused(m)
        },
        Payment::Paid => {
            *counter = *counter + 1;
            let mut id_text = String::new();
            push_str(&mut id_text, request.archetype);
            push_str(&mut id_text, ".instance.");
            push_decimal(&mut id_text, *counter);
            assert(id_text@ =~= instance_text(request.archetype@, *counter as nat));
            let recipe = match request.recipe {
                Some(t) => Some(RecipeId::from(t)),
                None => None,
            };
            let facility = FacilityState::new(
                FacilityId::from_string(id_text),
                FacilityArchetypeId::from(request.archetype),
                recipe,
            ).with_node(request.facility_node(&tile.node_id)).with_tags(clone_texts(&archetype.tags));
            let route = match request.transport_output {
                Some(c) => settlement_route(tile, &CommodityId::from(c)),
                None => None,
            };
            let mut status = String::new();
            push_str(&mut status, "Built ");
            push_str(&mut status, archetype.display_name.as_str());
            push_str(&mut status, " on ");
            push_str(&mut status, tile.kind.as_key());
            assert(status@ =~= "Built "@ + archetype.display_name@ + " on "@ + kind_name(tile.kind)@);
            BuildOutcome::Built { facility, route, status }
        },
    }
}

// ---------------------------------------------------------------------------
// The status log.

/// The status log after adding `message`: the last lines, at most eight.
pub open spec fn status_after(log: Seq<String>, message: String) -> Seq<String> {
    let pushed = log.push(message);
    if pushed.len() > STATUS_LOG_CAPACITY {
        pushed.drop_first()
    } else {
        pushed
    }
}

/// Adds a line to the status log, dropping the oldest line once the log
/// holds more than eight.
pub fn push_status(status_log: &mut Vec<String>, message: String)
    ensures
        final(status_log)@ == status_after(old(status_log)@, message),
{
    status_log.push(message);
    if status_log.len() > STATUS_LOG_CAPACITY {
        let _ = status_log.remove(0);
        assert(status_log@ =~= status_after(old(status_log)@, message));
    }
}

// ---------------------------------------------------------------------------
// The recipe-graph selection.

/// The commodity the recipe graph shows, among a fixed list.
#[derive(Debug)]
pub struct RecipeGraphSelection {
    pub commodities: Vec<CommodityId>,
    pub index: usize,
}

impl Default for RecipeGraphSelection {
    fn default() -> (s: Self)
        ensures
            s.commodities@.map_values(|c: CommodityId| c@) == seq![
                "resource.coal"@,
                "energy.heat"@,
                "energy.electricity"@,
                "ore.copper"@,
                "metal.copper"@,
                "component.copper_wire"@,
                "metal.steel"@,
            ],
            s.index == 5,
    {
        let s = RecipeGraphSelection {
            commodities: vec![
                CommodityId::from("resource.coal"),
                CommodityId::from("energy.heat"),
                CommodityId::from("energy.electricity"),
                CommodityId::from("ore.copper"),
                CommodityId::from("metal.copper"),
                CommodityId::from("component.copper_wire"),
                CommodityId::from("metal.steel"),
            ],
            index: 5,
        };
        assert(s.commodities@.map_values(|c: CommodityId| c@) =~= seq![
            "resource.coal"@,
            "energy.heat"@,
            "energy.electricity"@,
            "ore.copper"@,
            "metal.copper"@,
            "component.copper_wire"@,
            "metal.steel"@,
        ]);
        s
    }
}

impl RecipeGraphSelection {
    /// The selected commodity, if the index is in range.
    pub fn selected(&self) -> (c: Option<&CommodityId>)
        ensures
            match c {
                Some(id) => self.index < self.commodities@.len() && *id == self.commodities@[self.index as int],
                None => self.index >= self.commodities@.len(),
            },
    {
        if self.index < self.commodities.len() {
            Some(&self.commodities[self.index])
        } else {
            None
        }
    }

    /// Moves the selection to the next commodity, wrapping around.
    pub fn cycle(&mut self)
        requires
            old(self).index < usize::MAX,
        ensures
            final(self).commodities == old(self).commodities,
            final(self).index == if old(self).commodities@.len() == 0 {
                old(self).index as int
            } else {
                (old(self).index + 1) % (old(self).commodities@.len() as int)
            },
    {
        if self.commodities.len() > 0 {
            self.index = (self.index + 1) % self.commodities.len();
        }
    }
}

// ---------------------------------------------------------------------------
// World-mode run controls.

/// Whether the world simulation runs, is paused, or has been won.
#[derive(Clone, Copy, Debug, Eq, PartialEq, Structural)]
pub enum WorldRunState {
    Running,
    Paused,
    Won,
}

/// The label of a run state.
pub fn world_run_state_label(run_state: WorldRunState) -> (s: &'static str)
    ensures
        s == match run_state {
            WorldRunState::Running => "running",
            WorldRunState::Paused => "paused",
            WorldRunState::Won => "won",
        },
{
    match run_state {
        WorldRunState::Running => "running",
        WorldRunState::Paused => "paused",
        WorldRunState::Won => "won",
    }
}

/// The run controls pressed in one frame.
#[derive(Clone, Copy, Debug, Eq, PartialEq, Structural)]
pub struct RunInput {
    pub toggle_pause: bool,
    pub step: bool,
    pub reset: bool,
}

/// The run state and queued single steps of the world simulation.
#[derive(Clone, Copy, Debug, Eq, PartialEq, Structural)]
pub struct RunControl {
    pub run_state: WorldRunState,
    pub pending_steps: u32,
}

/// The run control after one frame's input: pause toggles between running
/// and paused, a step queues one tick and pauses, and a reset clears the
/// queue and runs again; a won simulation ignores pause and step.
pub open spec fn controls_after(c: RunControl, input: RunInput) -> RunControl {
    let toggled = if input.toggle_pause && c.run_state != WorldRunState::Won {
        match c.run_state {
            WorldRunState::Running => WorldRunState::Paused,
            WorldRunState::Paused => WorldRunState::Running,
            WorldRunState::Won => WorldRunState::Won,
        }
    } else {
        c.run_state
    };
    let stepped = if input.step && toggled != WorldRunState::Won {
        RunControl {
            run_state: WorldRunState::Paused,
            pending_steps: (c.pending_steps + 1) as u32,
        }
    } else {
        RunControl { run_state: toggled, pending_steps: c.pending_steps }
    };
    if input.reset {
        RunControl { run_state: WorldRunState::Running, pending_steps: 0 }
    } else {
        stepped
    }
}

impl RunControl {
    /// The control a new or reset world simulation starts with.
    pub fn new() -> (c: Self)
        ensures
            c.run_state == WorldRunState::Running,
            c.pending_steps == 0,
    {
        RunControl { run_state: WorldRunState::Running, pending_steps: 0 }
    }

    /// Applies one frame's run controls.
    pub fn apply(&mut self, input: RunInput)
        requires
            input.step ==> old(self).pending_steps < u32::MAX,
        ensures
            *final(self) == controls_after(*old(self), input),
    {
        if input.toggle_pause && self.run_state != WorldRunState::Won {
            self.run_state = match self.run_state {
                WorldRunState::Running => WorldRunState::Paused,
                WorldRunState::Paused => WorldRunState::Running,
                WorldRunState::Won => WorldRunState::Won,
            };
        }
        if input.step && self.run_state != WorldRunState::Won {
            self.pending_steps = self.pending_steps + 1;
            self.run_state = WorldRunState::Paused;
        }
        if input.reset {
            self.pending_steps = 0;
            self.run_state = WorldRunState::Running;
        }
    }

    /// Whether the simulation ticks this frame: on the timer while running,
    /// on a queued step while paused, never once won. A tick taken uses up
    /// one queued step.
    pub fn take_tick(&mut self, timer_finished: bool) -> (tick: bool)
        ensures
            tick == match old(self).run_state {
                WorldRunState::Running => timer_finished,
                WorldRunState::Paused => old(self).pending_steps > 0,
                WorldRunState::Won => false,
            },
            final(self).run_state == old(self).run_state,
            final(self).pending_steps == if tick && old(self).pending_steps > 0 {
                (old(self).pending_steps - 1) as u32
            } else {
                old(self).pending_steps
            },
    {
        let should_tick = match self.run_state {
            WorldRunState::Running => timer_finished,
            WorldRunState::Paused => self.pending_steps > 0,
            WorldRunState::Won => false,
        };
        if should_tick {
            self.pending_steps = self.pending_steps.saturating_sub(1);
        }
        should_tick
    }

    /// Marks the simulation won.
    pub fn win(&mut self)
        ensures
            final(self).run_state == WorldRunState::Won,
            final(self).pending_steps == old(self).pending_steps,
    {
        self.run_state = WorldRunState::Won;
    }
}


/// The status log never grows past eight lines, and its last line is the
/// newest message.
pub proof fn lemma_status_log_keeps_newest(log: Seq<String>, message: String)
    requires
        log.len() <= STATUS_LOG_CAPACITY,
    ensures
        status_after(log, message).len() <= STATUS_LOG_CAPACITY,
        status_after(log, message).last() == message,
        log.len() < STATUS_LOG_CAPACITY ==> status_after(log, message) == log.push(message),
        log.len() == STATUS_LOG_CAPACITY ==> status_after(log, message) == log.drop_first().push(message),
{
    if log.len() == STATUS_LOG_CAPACITY {
        assert(log.push(message).drop_first() =~= log.drop_first().push(message));
    }
}

/// A won simulation ignores pause and step; a reset always leaves it running
/// with no queued step; and pausing twice is no change.
pub proof fn lemma_run_controls(c: RunControl, input: RunInput)
    ensures
        c.run_state == WorldRunState::Won && !input.reset ==> controls_after(c, input) == c,
        input.reset ==> controls_after(c, input) == RunControl::new_spec(),
        c.run_state != WorldRunState::Won ==> controls_after(
            controls_after(c, RunInput { toggle_pause: true, step: false, reset: false }),
            RunInput { toggle_pause: true, step: false, reset: false },
        ) == c,
{
}

impl RunControl {
    /// The control a new or reset world simulation starts with.
    pub open spec fn new_spec() -> RunControl {
        RunControl { run_state: WorldRunState::Running, pending_steps: 0 }
    }
}


/// Of several keys pressed in one frame the lowest digit counts: the key
/// chosen was pressed, and no pressed key has a lower digit; with no key
/// pressed, none is chosen.
pub proof fn lemma_pressed_key_is_lowest(pressed: Seq<BuildKey>)
    ensures
        match pressed_key(pressed) {
            Some(k) => pressed.contains(k) && forall|i: int|
                0 <= i < pressed.len() ==> key_rank(k) <= key_rank(#[trigger] pressed[i]),
            None => pressed.len() == 0,
        },
{
    match pressed_key(pressed) {
        Some(k) => {
            assert forall|i: int| 0 <= i < pressed.len() implies key_rank(k) <= key_rank(#[trigger] pressed[i]) by {
                assert(pressed.contains(pressed[i]));
            }
        },
        None => {
            if pressed.len() > 0 {
                assert(pressed.contains(pressed[0]));
            }
        },
    }
}

/// Facilities whose output is routed to the settlement work from their own
/// tile's node, and every other facility works from the settlement node:
/// resource extraction outputs to the tile node, and a route carries it home.
pub proof fn lemma_routed_outputs_start_on_tile(key: BuildKey, kind: TileKind)
    ensures
        build_request_spec(key, kind) matches Some(r) ==> (r.transport_output is Some <==> r.use_tile_node),
{
}

/// A build command can only be placed on a tile its allowed set names; the
/// mine key offers a facility exactly on resource tiles, and that facility
/// is allowed on the tile it was offered for.
pub proof fn lemma_mine_key_fits_resource_tiles(kind: TileKind)
    ensures
        (build_request_spec(BuildKey::Digit2, kind) is Some) <==> (kind == TileKind::Coal || kind == TileKind::Copper
            || kind == TileKind::Iron || kind == TileKind::Limestone),
        build_request_spec(BuildKey::Digit2, kind) matches Some(r) ==> allows_kind(r.allowed, kind),
{
}

/// An extraction facility always gets its route home: a build command with
/// an output for the settlement works from its tile's node, and the tiles it
/// may be built on are never the settlement, whose node is the only one a
/// route is not made from.
pub proof fn lemma_extraction_always_routed(key: BuildKey, kind: TileKind, index: nat)
    ensures
        build_request_spec(key, kind) matches Some(r) ==> (r.transport_output is Some && allows_kind(r.allowed, kind)
            ==> r.use_tile_node && tile_node_text(index, kind) != SETTLEMENT_NODE@),
{
    if kind != TileKind::Settlement {
        reveal_strlit("node.tile.");
        reveal_strlit("node.settlement");
        assert(("node.tile."@ + decimal(index))[5] == 't');
        assert(SETTLEMENT_NODE@[5] == 's');
    }
}

/// A step queues exactly one tick and pauses a simulation that is not won,
/// whether it was running or paused; the pause control alone flips between
/// running and paused and queues nothing.
pub proof fn lemma_step_and_pause_controls(c: RunControl, input: RunInput)
    requires
        c.run_state != WorldRunState::Won,
        !input.reset,
        c.pending_steps < u32::MAX,
    ensures
        input.step ==> controls_after(c, input).run_state == WorldRunState::Paused && controls_after(
            c,
            input,
        ).pending_steps == c.pending_steps + 1,
        !input.step && input.toggle_pause ==> controls_after(c, input).pending_steps == c.pending_steps && (
        controls_after(c, input).run_state == WorldRunState::Paused <==> c.run_state == WorldRunState::Running) && (
        controls_after(c, input).run_state == WorldRunState::Running <==> c.run_state == WorldRunState::Paused),
        !input.step && !input.toggle_pause ==> controls_after(c, input) == c,
{
}

/// Each build key issues its command: `1` a camp gathering wood on forest,
/// `2` the mine or quarry of the tile's resource, `3` to `6` the heat
/// furnace, copper furnace, generator and wire workshop on the settlement,
/// `7` a warehouse on the settlement or buildable ground.
pub proof fn lemma_build_keys_issue_their_commands(kind: TileKind)
    ensures
        build_request_spec(BuildKey::Digit1, kind) == Some(
            BuildRequest {
                label: "camp",
                archetype: "facility.camp.tier1",
                recipe: Some("recipe.gather_wood.v1"),
                allowed: AllowedTiles::ForestOnly,
                transport_output: Some("resource.wood"),
                use_tile_node: true,
            },
        ),
        kind == TileKind::Coal ==> build_request_spec(BuildKey::Digit2, kind) == Some(
            BuildRequest {
                label: "coal mine",
                archetype: "facility.mine.tier1",
                recipe: Some("recipe.mine_coal.v1"),
                allowed: AllowedTiles::CoalOnly,
                transport_output: Some("resource.coal"),
                use_tile_node: true,
            },
        ),
        kind == TileKind::Copper ==> build_request_spec(BuildKey::Digit2, kind) == Some(
            BuildRequest {
                label: "copper mine",
                archetype: "facility.mine.tier1",
                recipe: Some("recipe.mine_copper_ore.v1"),
                allowed: AllowedTiles::CopperOnly,
                transport_output: Some("ore.copper"),
                use_tile_node: true,
            },
        ),
        kind == TileKind::Iron ==> build_request_spec(BuildKey::Digit2, kind) == Some(
            BuildRequest {
                label: "iron mine",
                archetype: "facility.mine.tier1",
                recipe: Some("recipe.mine_iron_ore.v1"),
                allowed: AllowedTiles::IronOnly,
                transport_output: Some("ore.iron"),
                use_tile_node: true,
            },
        ),
        kind == TileKind::Limestone ==> build_request_spec(BuildKey::Digit2, kind) == Some(
            BuildRequest {
                label: "limestone quarry",
                archetype: "facility.mine.tier1",
                recipe: Some("recipe.quarry_limestone.v1"),
                allowed: AllowedTiles::LimestoneOnly,
                transport_output: Some("mineral.limestone"),
                use_tile_node: true,
            },
        ),
        build_request_spec(BuildKey::Digit3, kind) == Some(
            BuildRequest {
                label: "heat furnace",
                archetype: "facility.furnace.tier1",
                recipe: Some("recipe.burn_coal_for_heat.v1"),
                allowed: AllowedTiles::SettlementOnly,
                transport_output: None,
                use_tile_node: false,
            },
        ),
        build_request_spec(BuildKey::Digit4, kind) == Some(
            BuildRequest {
                label: "copper furnace",
                archetype: "facility.furnace.tier1",
                recipe: Some("recipe.smelt_copper.v1"),
                allowed: AllowedTiles::SettlementOnly,
                transport_output: None,
                use_tile_node: false,
            },
        ),
        build_request_spec(BuildKey::Digit5, kind) == Some(
            BuildRequest {
                label: "generator",
                archetype: "facility.generator.tier1",
                recipe: Some("recipe.generate_electricity_from_heat.v1"),
                allowed: AllowedTiles::SettlementOnly,
                transport_output: None,
                use_tile_node: false,
            },
        ),
        build_request_spec(BuildKey::Digit6, kind) == Some(
            BuildRequest {
                label: "wire workshop",
                archetype: "facility.workshop.tier1",
                recipe: Some("recipe.draw_copper_wire.v1"),
                allowed: AllowedTiles::SettlementOnly,
                transport_output: None,
                use_tile_node: false,
            },
        ),
        build_request_spec(BuildKey::Digit7, kind) == Some(
            BuildRequest {
                label: "warehouse",
                archetype: "facility.warehouse.tier1",
                recipe: None,
                allowed: AllowedTiles::SettlementOrBuildable,
                transport_output: None,
                use_tile_node: false,
            },
        ),
        (kind != TileKind::Coal && kind != TileKind::Copper && kind != TileKind::Iron && kind != TileKind::Limestone)
            ==> build_request_spec(BuildKey::Digit2, kind) is None,
{
}

/// Where each build command may stand: a camp only on forest, a mine or
/// quarry only on a tile of the resource it was offered for, the furnaces,
/// generator and workshop only on the settlement, and a warehouse on the
/// settlement or on buildable ground.
pub proof fn lemma_build_commands_allow_their_tiles(key: BuildKey, kind: TileKind, tile: TileKind)
    ensures
        build_request_spec(key, kind) matches Some(r) ==> (allows_kind(r.allowed, tile) <==> match key {
            BuildKey::Digit1 => tile == TileKind::Forest,
            BuildKey::Digit2 => tile == kind,
            BuildKey::Digit7 => tile == TileKind::Settlement || tile == TileKind::Buildable,
            _ => tile == TileKind::Settlement,
        }),
{
}

/// The island: a ring of water around three rows of land, with forest at
/// tiles 8, 9 and 22, coal at 10 and 23, copper at 15 and 25, iron at 19,
/// limestone at 12, the settlement at 17, and buildable ground at 11, 16,
/// 18, 24 and 26.
pub proof fn lemma_island_layout()
    ensures
        island_rows().len() == 5,
        forall|r: int| 0 <= r < 5 ==> #[trigger] island_rows()[r].len() == 7,
        forall|c: int| 0 <= c < 7 ==> #[trigger] island_rows()[0][c] == TileKind::Water && island_rows()[4][c] == TileKind::Water,
        forall|r: int| 0 <= r < 5 ==> #[trigger] island_rows()[r][0] == TileKind::Water && island_rows()[r][6] == TileKind::Water,
        island_rows()[1][1] == TileKind::Forest,
        island_rows()[1][2] == TileKind::Forest,
        island_rows()[3][1] == TileKind::Forest,
        island_rows()[1][3] == TileKind::Coal,
        island_rows()[3][2] == TileKind::Coal,
        island_rows()[2][1] == TileKind::Copper,
        island_rows()[3][4] == TileKind::Copper,
        island_rows()[2][5] == TileKind::Iron,
        island_rows()[1][5] == TileKind::Limestone,
        island_rows()[2][3] == TileKind::Settlement,
        island_rows()[1][4] == TileKind::Buildable,
        island_rows()[2][2] == TileKind::Buildable,
        island_rows()[2][4] == TileKind::Buildable,
        island_rows()[3][3] == TileKind::Buildable,
        island_rows()[3][5] == TileKind::Buildable,
{
}

/// A build command is accepted only on a tile it is allowed on and when its
/// archetype is defined, and then it builds that archetype; on a tile it is
/// not allowed on it is refused, whatever the archetypes.
pub proof fn lemma_build_check_accepts_only_allowed(
    request: BuildRequest,
    kind: TileKind,
    facilities: Seq<FacilityArchetype>,
)
    ensures
        build_check(request, kind, facilities) matches Ok(a) ==> allows_kind(request.allowed, kind) && a.id@
            == request.archetype@ && facilities.contains(a),
        !allows_kind(request.allowed, kind) ==> build_check(request, kind, facilities) is Err,
        allows_kind(request.allowed, kind) && has_key(facilities, request.archetype@) ==> build_check(
            request,
            kind,
            facilities,
        ) is Ok,
{
    if allows_kind(request.allowed, kind) && has_key(facilities, request.archetype@) {
        let i = crate::catalog::key_index(facilities, request.archetype@);
        assert(facilities[i].key() == request.archetype@);
        assert(facilities.contains(facilities[i]));
    }
}

/// The island has exactly one settlement tile, and it is the tile that
/// starts selected.
pub proof fn lemma_single_settlement_is_initially_selected()
    ensures
        island_rows()[(INITIAL_SELECTED_TILE / 7) as int][(INITIAL_SELECTED_TILE % 7) as int] == TileKind::Settlement,
        forall|r: int, c: int|
            0 <= r < 5 && 0 <= c < 7 && #[trigger] island_rows()[r][c] == TileKind::Settlement ==> r * 7 + c
                == INITIAL_SELECTED_TILE,
{
    let rows = island_rows();
    assert forall|r: int, c: int| 0 <= r < 5 && 0 <= c < 7 && #[trigger] rows[r][c] == TileKind::Settlement implies r * 7
        + c == INITIAL_SELECTED_TILE by {
        assert(r == 0 || r == 1 || r == 2 || r == 3 || r == 4);
        assert(c == 0 || c == 1 || c == 2 || c == 3 || c == 4 || c == 5 || c == 6);
    }
}

} // verus!
