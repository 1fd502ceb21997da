use copper_sim::graph::BlockReason;
use copper_sim::logistics::transport_gate;
use copper_sim::world::{complete_recipe, facility_tick, missing_node_blocker};
use copper_sim::TickEvent;
use copper_sim::{
    Catalog, CommodityId, FacilityArchetypeId, FacilityId, FacilityState, Qty, Recipe, RecipeBook,
    RecipeId, SimError, Stack, Tick, TransportBlockReason, TransportEdge, TransportEdgeId,
    TransportNodeId, TransportOrder, TransportOrderId,
};

fn qty(value: f64) -> Qty {
    Qty::from_bits(value.to_bits())
}

fn wood() -> CommodityId {
    CommodityId::from("resource.wood")
}

fn plank() -> CommodityId {
    CommodityId::from("component.plank")
}

fn simple_recipe() -> Recipe {
    Recipe {
        id: RecipeId::from("recipe.saw_plank.v1"),
        inputs: vec![Stack::new(wood(), qty(2.0))],
        outputs: vec![Stack::new(plank(), qty(1.0))],
        byproducts: vec![],
        facility_tags: vec!["sawmill".to_string()],
        duration_ticks: 2,
    }
}

fn recipe(id: &str, inputs: Vec<CommodityId>, outputs: Vec<CommodityId>, byproducts: Vec<CommodityId>) -> Recipe {
    let stacks = |ids: Vec<CommodityId>| ids.into_iter().map(|c| Stack::new(c, qty(1.0))).collect();
    Recipe {
        id: RecipeId::from(id),
        inputs: stacks(inputs),
        outputs: stacks(outputs),
        byproducts: stacks(byproducts),
        facility_tags: vec![],
        duration_ticks: 1,
    }
}

#[test]
fn recipe_graph_reports_dependency_links() {
    let book = RecipeBook::new(vec![simple_recipe()]);
    let links = book.links_for(&wood());

    assert_eq!(links.required_by, vec![RecipeId::from("recipe.saw_plank.v1")]);
    assert_eq!(links.produced_by, Vec::<RecipeId>::new());
    assert_eq!(links.commodity, wood());
}

#[test]
fn links_list_recipes_in_id_order_for_each_role() {
    let ash = CommodityId::from("byproduct.ash");
    let book = RecipeBook::new(vec![
        recipe("recipe.z_burn", vec![wood()], vec![CommodityId::from("energy.heat")], vec![ash.clone()]),
        recipe("recipe.a_fell", vec![], vec![wood()], vec![]),
        recipe("recipe.m_char", vec![wood()], vec![CommodityId::from("resource.coal")], vec![ash.clone()]),
    ]);
    let links = book.links_for(&wood());
    assert_eq!(links.produced_by, vec![RecipeId::from("recipe.a_fell")]);
    assert_eq!(
        links.required_by,
        vec![RecipeId::from("recipe.m_char"), RecipeId::from("recipe.z_burn")]
    );
    assert!(links.byproduct_of.is_empty());
    let ash_links = book.links_for(&ash);
    assert_eq!(
        ash_links.byproduct_of,
        vec![RecipeId::from("recipe.m_char"), RecipeId::from("recipe.z_burn")]
    );
    assert!(book.links_for(&CommodityId::from("metal.tin")).produced_by.is_empty());
}

#[test]
fn recipe_book_keeps_recipes_in_id_order_and_the_last_of_an_id() {
    let mut later = simple_recipe();
    later.duration_ticks = 9;
    let book = RecipeBook::new(vec![
        recipe("recipe.b", vec![], vec![wood()], vec![]),
        simple_recipe(),
        recipe("recipe.a", vec![], vec![plank()], vec![]),
        later,
    ]);
    assert_eq!(
        book.ids(),
        vec![
            RecipeId::from("recipe.a"),
            RecipeId::from("recipe.b"),
            RecipeId::from("recipe.saw_plank.v1"),
        ]
    );
    assert_eq!(book.get(&RecipeId::from("recipe.saw_plank.v1")).unwrap().duration_ticks, 9);
    assert!(book.get(&RecipeId::from("recipe.c")).is_none());
    assert!(!book.is_empty());
    assert_eq!(book.iter().len(), 3);
}

#[test]
fn recipe_book_insert_replaces_and_reads_back() {
    let mut book = RecipeBook::default();
    assert!(book.is_empty());
    book.insert(simple_recipe());
    let mut faster = simple_recipe();
    faster.duration_ticks = 1;
    book.insert(faster);
    book.insert(recipe("recipe.a", vec![], vec![wood()], vec![]));
    assert_eq!(book.get(&RecipeId::from("recipe.saw_plank.v1")).unwrap().duration_ticks, 1);
    assert!(book.contains(&RecipeId::from("recipe.a")));
    assert!(!book.contains(&RecipeId::from("recipe.saw_plank.v2")));
    assert_eq!(book.ids(), vec![RecipeId::from("recipe.a"), RecipeId::from("recipe.saw_plank.v1")]);
}

#[test]
fn catalog_insert_returns_the_replaced_record() {
    let mut catalog: Catalog<Recipe> = Catalog::new();
    assert!(catalog.is_empty());
    assert!(catalog.insert(simple_recipe()).is_none());
    let mut again = simple_recipe();
    again.duration_ticks = 5;
    let replaced = catalog.insert(again).unwrap();
    assert_eq!(replaced.duration_ticks, 2);
    assert_eq!(catalog.len(), 1);
    assert_eq!(catalog.get("recipe.saw_plank.v1").unwrap().duration_ticks, 5);
    assert!(catalog.contains_key("recipe.saw_plank.v1"));
    assert!(!catalog.contains_key("recipe.saw"));
}

#[test]
fn facility_progress_counts_ticks_until_complete() {
    let mut facility = FacilityState::new(
        FacilityId::from("facility.1"),
        FacilityArchetypeId::from("facility.sawmill.tier1"),
        Some(RecipeId::from("recipe.saw_plank.v1")),
    );
    assert_eq!(facility.progress_ticks, 0);
    assert_eq!(facility.advance_progress(2), (1, false));
    assert_eq!(facility.advance_progress(2), (2, true));
    assert_eq!(facility.progress_ticks, 2);
}

#[test]
fn facility_builders_set_tags_and_node() {
    let facility = FacilityState::new(
        FacilityId::from("facility.2"),
        FacilityArchetypeId::from("facility.mine.tier1"),
        None,
    )
    .with_tags(vec!["mine".to_string()])
    .with_node(TransportNodeId::from("node.tile.9"));
    assert_eq!(facility.tags, vec!["mine".to_string()]);
    assert_eq!(facility.node, Some(TransportNodeId::from("node.tile.9")));
    assert_eq!(facility.id, FacilityId::from("facility.2"));
    assert_eq!(facility.active_recipe, None);
}

fn edge() -> TransportEdge {
    TransportEdge::new(
        TransportEdgeId::from("edge.mine_to_settlement"),
        TransportNodeId::from("node.mine"),
        TransportNodeId::from("node.settlement"),
        qty(2.0),
        qty(1.0),
    )
}

fn order(max: f64) -> TransportOrder {
    TransportOrder::new(
        TransportOrderId::from("order.wood"),
        TransportEdgeId::from("edge.mine_to_settlement"),
        wood(),
        qty(10.0),
        qty(max),
    )
}

#[test]
fn edge_filters_commodities() {
    let mut e = edge();
    assert!(e.enabled);
    assert!(e.allows(&wood()));
    e.commodity_filter = Some(vec![plank()]);
    assert!(!e.allows(&wood()));
    assert!(e.allows(&plank()));
}

#[test]
fn transport_gate_checks_in_order() {
    let o = order(5.0);
    assert_eq!(
        transport_gate(&o, None, true, true),
        Some(TransportBlockReason::MissingEdge(TransportEdgeId::from("edge.mine_to_settlement")))
    );
    let mut e = edge();
    assert_eq!(transport_gate(&o, Some(&e), true, true), None);
    assert_eq!(
        transport_gate(&o, Some(&e), false, true),
        Some(TransportBlockReason::MissingNode(TransportNodeId::from("node.mine")))
    );
    assert_eq!(
        transport_gate(&o, Some(&e), true, false),
        Some(TransportBlockReason::MissingNode(TransportNodeId::from("node.settlement")))
    );
    assert_eq!(
        transport_gate(&order(0.0000005), Some(&e), true, true),
        Some(TransportBlockReason::ZeroCapacity)
    );
    e.capacity_per_tick = qty(-1.0);
    assert_eq!(transport_gate(&o, Some(&e), false, false), Some(TransportBlockReason::ZeroCapacity));
    e.capacity_per_tick = qty(2.0);
    e.commodity_filter = Some(vec![plank()]);
    assert_eq!(
        transport_gate(&o, Some(&e), false, false),
        Some(TransportBlockReason::CommodityNotAllowed(wood()))
    );
    e.enabled = false;
    assert_eq!(transport_gate(&o, Some(&e), false, false), Some(TransportBlockReason::DisabledEdge));
}

#[test]
fn tick_counts_up_to_the_last() {
    assert_eq!(Tick(0).next(), Some(Tick(1)));
    assert_eq!(Tick(41).next(), Some(Tick(42)));
    assert_eq!(Tick(u64::MAX).next(), None);
    assert_eq!(Tick::default(), Tick(0));
}

#[test]
fn sim_errors_read_as_messages() {
    assert_eq!(
        SimError::MissingRecipe(RecipeId::from("recipe.x")).message(),
        "missing recipe recipe.x"
    );
    assert_eq!(
        SimError::MissingFacility(FacilityId::from("facility.1")).message(),
        "missing facility facility.1"
    );
    assert_eq!(
        SimError::MissingNode(TransportNodeId::from("node.mine")).message(),
        "missing transport node node.mine"
    );
    assert_eq!(
        SimError::MissingEdge(TransportEdgeId::from("edge.a")).message(),
        "missing transport edge edge.a"
    );
    let from_text: SimError = String::from("cannot remove 4 resource.wood; only 3 available").into();
    assert_eq!(
        from_text.message(),
        "inventory error: cannot remove 4 resource.wood; only 3 available"
    );
}

#[test]
fn quantities_compare_as_f64_does() {
    assert!(qty(-1.0).is_negative());
    assert!(!qty(-0.0).is_negative());
    assert!(!qty(f64::NAN).is_negative());
    assert!(qty(f64::NEG_INFINITY).is_negative());
    assert!(qty(0.000001).at_most_epsilon());
    assert!(!qty(0.0000011).at_most_epsilon());
    assert!(qty(-3.0).at_most_epsilon());
    assert!(!qty(f64::NAN).at_most_epsilon());
    assert!(qty(1.0).is_in_unit_interval());
    assert!(!qty(1.0000001).is_in_unit_interval());
    assert!(qty(0.0) == qty(-0.0));
    assert!(qty(f64::NAN) != qty(f64::NAN));
    assert_eq!(Qty::zero().to_bits(), 0);
    assert_eq!(qty(2.5).to_bits(), 2.5f64.to_bits());
}

fn sawmill() -> FacilityState {
    FacilityState::new(
        FacilityId::from("facility.1"),
        FacilityArchetypeId::from("facility.sawmill.tier1"),
        Some(RecipeId::from("recipe.saw_plank.v1")),
    )
}

#[test]
fn blocked_inputs_stop_facility_progress() {
    let mut facility = sawmill();
    let recipe = simple_recipe();
    let blocker = BlockReason::MissingInput { commodity: wood(), required: qty(2.0), available: qty(0.0) };
    let (event, completed) = facility_tick(&mut facility, &recipe.id, Some(&recipe), vec![blocker.clone()]);
    assert!(matches!(event, TickEvent::FacilityBlocked { .. }));
    assert_eq!(
        event,
        TickEvent::FacilityBlocked {
            facility: FacilityId::from("facility.1"),
            recipe: RecipeId::from("recipe.saw_plank.v1"),
            reasons: vec![blocker],
        }
    );
    assert!(!completed);
    assert_eq!(facility.progress_ticks, 0);
}

#[test]
fn facility_completes_after_its_duration() {
    let mut facility = sawmill();
    let recipe = simple_recipe();
    let (first, done) = facility_tick(&mut facility, &recipe.id, Some(&recipe), vec![]);
    assert!(matches!(first, TickEvent::FacilityProgressed { progress_ticks: 1, duration_ticks: 2, .. }));
    assert!(!done);
    let (second, done) = facility_tick(&mut facility, &recipe.id, Some(&recipe), vec![]);
    assert!(matches!(second, TickEvent::FacilityProgressed { progress_ticks: 2, .. }));
    assert!(done);
    assert_eq!(
        complete_recipe(&mut facility, &recipe.id),
        TickEvent::RecipeCompleted {
            facility: FacilityId::from("facility.1"),
            recipe: RecipeId::from("recipe.saw_plank.v1"),
        }
    );
    assert_eq!(facility.progress_ticks, 0);
}

#[test]
fn unknown_recipes_block_with_the_recipe_id() {
    let mut facility = sawmill();
    let id = RecipeId::from("recipe.lost.v1");
    let (event, completed) = facility_tick(&mut facility, &id, None, vec![]);
    assert_eq!(
        event,
        TickEvent::FacilityBlocked {
            facility: FacilityId::from("facility.1"),
            recipe: id.clone(),
            reasons: vec![BlockReason::MissingRecipe(id)],
        }
    );
    assert!(!completed);
}

#[test]
fn missing_nodes_block_as_a_missing_unit() {
    assert_eq!(
        missing_node_blocker(&TransportNodeId::from("node.tile.3")),
        BlockReason::MissingInput {
            commodity: CommodityId::from("missing_node.node.tile.3"),
            required: qty(1.0),
            available: qty(0.0),
        }
    );
}
