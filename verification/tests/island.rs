use copper_sim::island::{
    build_request, check_build, copper_island_tiles, finish_build, first_pressed, mine_request, push_status, requested_build,
    add_settlement_route, settlement_route, tile_node_id, world_run_state_label, AllowedTiles, BuildKey, BuildOutcome,
    Payment, RecipeGraphSelection, RunControl, RunInput, TileId, TileKind, WorldRunState,
    INITIAL_SELECTED_TILE, SETTLEMENT_NODE, STATUS_LOG_CAPACITY,
};
use copper_sim::{
    AuthoredStatus, Catalog, CommodityId, Confidence, FacilityArchetype, FacilityArchetypeId,
    FacilityId, Qty, RecipeId, TransportEdgeId, TransportNodeId, TransportOrderId,
};

#[test]
fn island_has_one_settlement_at_the_initial_selection() {
    let tiles = copper_island_tiles();
    assert_eq!(tiles.len(), 35);
    let settlements: Vec<_> = tiles.iter().filter(|t| t.kind == TileKind::Settlement).collect();
    assert_eq!(settlements.len(), 1);
    assert_eq!(settlements[0].id, TileId(INITIAL_SELECTED_TILE));
    assert_eq!((settlements[0].col, settlements[0].row), (3, 2));
    assert_eq!(settlements[0].node_id, TransportNodeId::from(SETTLEMENT_NODE));
    assert_eq!(tiles[8].kind, TileKind::Forest);
    assert_eq!(tiles[8].node_id, TransportNodeId::from("node.tile.8"));
    assert_eq!(tiles[34].kind, TileKind::Water);
    assert_eq!((tiles[34].col, tiles[34].row), (6, 4));
}

#[test]
fn tile_nodes_are_named_by_index() {
    assert_eq!(tile_node_id(0, TileKind::Water), TransportNodeId::from("node.tile.0"));
    assert_eq!(tile_node_id(23, TileKind::Copper), TransportNodeId::from("node.tile.23"));
    assert_eq!(tile_node_id(17, TileKind::Settlement), TransportNodeId::from("node.settlement"));
    assert_eq!(TileKind::Limestone.as_key(), "limestone");
    assert_eq!(TileKind::Buildable.as_key(), "buildable");
}

#[test]
fn mine_key_builds_on_resource_tiles_only() {
    let coal = mine_request(TileKind::Coal).unwrap();
    assert_eq!(coal.label, "coal mine");
    assert_eq!(coal.recipe, Some("recipe.mine_coal.v1"));
    assert_eq!(coal.transport_output, Some("resource.coal"));
    assert!(coal.allowed_on(TileKind::Coal));
    assert!(!coal.allowed_on(TileKind::Copper));
    assert_eq!(mine_request(TileKind::Limestone).unwrap().label, "limestone quarry");
    assert!(mine_request(TileKind::Forest).is_none());
    assert!(requested_build(&[BuildKey::Digit2], TileKind::Settlement).is_none());
    assert_eq!(
        requested_build(&[BuildKey::Digit2], TileKind::Iron).unwrap().recipe,
        Some("recipe.mine_iron_ore.v1")
    );
}

#[test]
fn number_keys_pick_the_build_options() {
    assert!(requested_build(&[], TileKind::Forest).is_none());
    let camp = requested_build(&[BuildKey::Digit1], TileKind::Water).unwrap();
    assert_eq!(camp.archetype, "facility.camp.tier1");
    assert_eq!(camp.allowed, AllowedTiles::ForestOnly);
    let wire = requested_build(&[BuildKey::Digit6], TileKind::Settlement).unwrap();
    assert_eq!(wire.label, "wire workshop");
    assert_eq!(wire.recipe, Some("recipe.draw_copper_wire.v1"));
    assert!(wire.allowed_on(TileKind::Settlement));
    assert!(!wire.use_tile_node);
    let warehouse = requested_build(&[BuildKey::Digit7], TileKind::Buildable).unwrap();
    assert_eq!(warehouse.recipe, None);
    assert!(warehouse.allowed_on(TileKind::Buildable));
    assert!(warehouse.allowed_on(TileKind::Settlement));
    assert!(!warehouse.allowed_on(TileKind::Forest));
}

#[test]
fn facilities_work_from_their_tile_or_the_settlement() {
    let tile = TransportNodeId::from("node.tile.9");
    let camp = requested_build(&[BuildKey::Digit1], TileKind::Forest).unwrap();
    assert_eq!(camp.facility_node(&tile), tile);
    let furnace = requested_build(&[BuildKey::Digit3], TileKind::Settlement).unwrap();
    assert_eq!(furnace.facility_node(&tile), TransportNodeId::from("node.settlement"));
}

#[test]
fn status_log_keeps_the_last_eight_lines() {
    let mut log = Vec::new();
    for i in 0..10 {
        push_status(&mut log, format!("line {i}"));
        assert!(log.len() <= STATUS_LOG_CAPACITY);
        assert_eq!(log.last().unwrap(), &format!("line {i}"));
    }
    assert_eq!(log.len(), 8);
    assert_eq!(log[0], "line 2");
}

#[test]
fn recipe_graph_selection_cycles_and_wraps() {
    let mut selection = RecipeGraphSelection::default();
    assert_eq!(selection.selected(), Some(&CommodityId::from("component.copper_wire")));
    selection.cycle();
    assert_eq!(selection.selected(), Some(&CommodityId::from("metal.steel")));
    selection.cycle();
    assert_eq!(selection.selected(), Some(&CommodityId::from("resource.coal")));
    let empty = RecipeGraphSelection { commodities: vec![], index: 0 };
    assert_eq!(empty.selected(), None);
}

fn press(toggle_pause: bool, step: bool, reset: bool) -> RunInput {
    RunInput { toggle_pause, step, reset }
}

#[test]
fn run_controls_pause_step_and_reset() {
    let mut control = RunControl::new();
    assert_eq!(world_run_state_label(control.run_state), "running");
    assert!(control.take_tick(true));
    assert!(!control.take_tick(false));

    control.apply(press(true, false, false));
    assert_eq!(control.run_state, WorldRunState::Paused);
    assert!(!control.take_tick(true));

    control.apply(press(false, true, false));
    control.apply(press(false, true, false));
    assert_eq!(control.pending_steps, 2);
    assert!(control.take_tick(false));
    assert_eq!(control.pending_steps, 1);

    control.apply(press(false, false, true));
    assert_eq!(control, RunControl::new());
}

#[test]
fn a_won_world_ignores_pause_and_step() {
    let mut control = RunControl::new();
    control.win();
    assert_eq!(world_run_state_label(control.run_state), "won");
    control.apply(press(true, true, false));
    assert_eq!(control.run_state, WorldRunState::Won);
    assert_eq!(control.pending_steps, 0);
    assert!(!control.take_tick(true));
    control.apply(press(false, false, true));
    assert_eq!(control.run_state, WorldRunState::Running);
    assert_eq!(world_run_state_label(WorldRunState::Paused), "paused");
}

fn archetype(id: &str, name: &str) -> FacilityArchetype {
    FacilityArchetype {
        id: FacilityArchetypeId::from(id),
        display_name: name.to_string(),
        accepts_recipes: vec![],
        build_cost: vec![],
        power_draw_kw: Qty::zero(),
        workers_required: 1,
        sprite_prompt_ref: String::new(),
        tags: vec!["extraction".to_string()],
        source_refs: vec![],
        confidence: Confidence::High,
        authored_status: AuthoredStatus::HandAuthored,
    }
}

fn archetypes() -> Catalog<FacilityArchetype> {
    let mut catalog = Catalog::new();
    catalog.insert(archetype("facility.mine.tier1", "Mine"));
    catalog.insert(archetype("facility.furnace.tier1", "Furnace"));
    catalog
}

#[test]
fn build_checks_the_tile_then_the_archetype() {
    let facilities = archetypes();
    let coal = mine_request(TileKind::Coal).unwrap();
    assert_eq!(check_build(&coal, TileKind::Coal, &facilities).unwrap().display_name, "Mine");
    assert_eq!(
        check_build(&coal, TileKind::Forest, &facilities).unwrap_err(),
        "Cannot build coal mine on forest"
    );
    let wire = requested_build(&[BuildKey::Digit6], TileKind::Settlement).unwrap();
    assert_eq!(
        check_build(&wire, TileKind::Settlement, &facilities).unwrap_err(),
        "Missing archetype facility.workshop.tier1"
    );
}

#[test]
fn unpaid_builds_are_refused_and_keep_the_counter() {
    let tiles = copper_island_tiles();
    let coal = mine_request(TileKind::Coal).unwrap();
    let mine = archetype("facility.mine.tier1", "Mine");
    let mut counter = 4;
    match finish_build(&coal, &tiles[10], &mine, Payment::Short, &mut counter) {
        BuildOutcome::Refused(m) => assert_eq!(m, "Not enough settlement inventory for Mine"),
        other => panic!("unexpected {other:?}"),
    }
    match finish_build(&coal, &tiles[10], &mine, Payment::Failed, &mut counter) {
        BuildOutcome::Refused(m) => assert_eq!(m, "Could not pay build cost for Mine"),
        other => panic!("unexpected {other:?}"),
    }
    assert_eq!(counter, 4);
}

#[test]
fn paid_mine_is_numbered_placed_on_its_tile_and_routed_home() {
    let tiles = copper_island_tiles();
    assert_eq!(tiles[10].kind, TileKind::Coal);
    let coal = mine_request(TileKind::Coal).unwrap();
    let mine = archetype("facility.mine.tier1", "Mine");
    let mut counter = 4;
    let BuildOutcome::Built { facility, route, status } =
        finish_build(&coal, &tiles[10], &mine, Payment::Paid, &mut counter)
    else {
        panic!("the paid build is placed");
    };
    assert_eq!(counter, 5);
    assert_eq!(facility.id, FacilityId::from("facility.mine.tier1.instance.5"));
    assert_eq!(facility.archetype_id, FacilityArchetypeId::from("facility.mine.tier1"));
    assert_eq!(facility.active_recipe, Some(RecipeId::from("recipe.mine_coal.v1")));
    assert_eq!(facility.node, Some(TransportNodeId::from("node.tile.10")));
    assert_eq!(facility.tags, vec!["extraction".to_string()]);
    assert_eq!(facility.progress_ticks, 0);
    assert_eq!(status, "Built Mine on coal");
    let route = route.unwrap();
    assert_eq!(route.edge.id, TransportEdgeId::from("edge.tile_10.to_settlement.resource.coal"));
    assert_eq!(route.edge.from, TransportNodeId::from("node.tile.10"));
    assert_eq!(route.edge.to, TransportNodeId::from("node.settlement"));
    assert_eq!(route.edge.capacity_per_tick.to_bits(), 2.0f64.to_bits());
    assert_eq!(route.edge.distance_cost.to_bits(), 1.0f64.to_bits());
    assert!(route.edge.enabled);
    assert_eq!(route.order.id, TransportOrderId::from("order.tile_10.to_settlement.resource.coal"));
    assert_eq!(route.order.edge_id, route.edge.id);
    assert_eq!(route.order.target_qty_at_destination.to_bits(), 999.0f64.to_bits());
    assert_eq!(route.order.max_qty_per_tick.to_bits(), 4.0f64.to_bits());
}

#[test]
fn settlement_facilities_get_no_route() {
    let tiles = copper_island_tiles();
    let settlement = &tiles[INITIAL_SELECTED_TILE];
    let furnace_request = requested_build(&[BuildKey::Digit3], TileKind::Settlement).unwrap();
    let furnace = archetype("facility.furnace.tier1", "Furnace");
    let mut counter = 0;
    let BuildOutcome::Built { facility, route, status } =
        finish_build(&furnace_request, settlement, &furnace, Payment::Paid, &mut counter)
    else {
        panic!("the paid build is placed");
    };
    assert_eq!(facility.id, FacilityId::from("facility.furnace.tier1.instance.1"));
    assert_eq!(facility.node, Some(TransportNodeId::from("node.settlement")));
    assert!(route.is_none());
    assert_eq!(status, "Built Furnace on settlement");
    assert!(settlement_route(settlement, &CommodityId::from("resource.wood")).is_none());
}

#[test]
fn the_lowest_pressed_digit_wins() {
    assert_eq!(first_pressed(&[]), None);
    assert_eq!(first_pressed(&[BuildKey::Digit7, BuildKey::Digit3, BuildKey::Digit5]), Some(BuildKey::Digit3));
    assert_eq!(first_pressed(&[BuildKey::Digit6, BuildKey::Digit1]), Some(BuildKey::Digit1));
    let both = requested_build(&[BuildKey::Digit6, BuildKey::Digit2], TileKind::Coal).unwrap();
    assert_eq!(both.label, "coal mine");
    assert!(requested_build(&[BuildKey::Digit6, BuildKey::Digit2], TileKind::Settlement).is_none());
    assert_eq!(build_request(BuildKey::Digit5, TileKind::Water).unwrap().label, "generator");
}

#[test]
fn recipe_graph_selection_starts_on_copper_wire() {
    let selection = RecipeGraphSelection::default();
    let ids: Vec<&str> = selection.commodities.iter().map(|c| c.as_str()).collect();
    assert_eq!(
        ids,
        vec![
            "resource.coal",
            "energy.heat",
            "energy.electricity",
            "ore.copper",
            "metal.copper",
            "component.copper_wire",
            "metal.steel",
        ]
    );
    assert_eq!(selection.index, 5);
}

#[test]
fn adding_a_route_twice_adds_it_once() {
    let tiles = copper_island_tiles();
    let mut edges = Catalog::new();
    let mut orders = Catalog::new();
    let coal = CommodityId::from("resource.coal");
    add_settlement_route(&mut edges, &mut orders, settlement_route(&tiles[10], &coal).unwrap());
    let mut again = settlement_route(&tiles[10], &coal).unwrap();
    again.edge.enabled = false;
    add_settlement_route(&mut edges, &mut orders, again);
    assert_eq!(edges.len(), 1);
    assert_eq!(orders.len(), 1);
    assert!(edges.get("edge.tile_10.to_settlement.resource.coal").unwrap().enabled);
    add_settlement_route(&mut edges, &mut orders, settlement_route(&tiles[11], &coal).unwrap());
    assert_eq!(edges.len(), 2);
    assert!(orders.contains_key("order.tile_11.to_settlement.resource.coal"));
}
