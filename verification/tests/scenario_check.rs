use copper_sim::scenario_check::{
    check_scenarios, scenario_problems, validate_with_scenarios, DataProblems, ScenarioProblem,
};
use copper_sim::{
    validate_canonical, AuthoredStatus, BuildOption, CanonicalEconomy, Commodity, CommodityId,
    Confidence, FacilityArchetype, FacilityArchetypeId, GridPos, MapLayout, ProcessRecipe, Qty,
    Quantity, RecipeId, RegionId, RegionProfile, Scenario, ValidatedEconomy, WinCondition,
    WinMetric,
};

fn qty(value: f64) -> Qty {
    Qty::from_bits(value.to_bits())
}

fn commodity(id: &str) -> Commodity {
    Commodity {
        id: CommodityId::from(id),
        display_name: id.to_string(),
        category: "material".to_string(),
        unit: "unit".to_string(),
        tags: vec![],
        source_refs: vec![],
        confidence: Confidence::High,
        authored_status: AuthoredStatus::HandAuthored,
    }
}

fn canonical() -> CanonicalEconomy {
    CanonicalEconomy {
        commodities: vec![commodity("resource.wood"), commodity("energy.electricity")],
        recipes: vec![ProcessRecipe {
            id: RecipeId::from("recipe.gather_wood.v1"),
            display_name: "Gather wood".to_string(),
            inputs: vec![],
            outputs: vec![Quantity { commodity: CommodityId::from("resource.wood"), qty: qty(1.0) }],
            byproducts: vec![],
            facility_tags: vec![],
            duration_ticks: 1,
            source_refs: vec![],
            confidence: Confidence::High,
            authored_status: AuthoredStatus::HandAuthored,
        }],
        facilities: vec![FacilityArchetype {
            id: FacilityArchetypeId::from("facility.camp.tier1"),
            display_name: "Camp".to_string(),
            accepts_recipes: vec!["recipe.gather_*".to_string()],
            build_cost: vec![],
            power_draw_kw: Qty::zero(),
            workers_required: 1,
            sprite_prompt_ref: String::new(),
            tags: vec![],
            source_refs: vec![],
            confidence: Confidence::High,
            authored_status: AuthoredStatus::HandAuthored,
        }],
        regions: vec![RegionProfile {
            id: RegionId::from("region.copper_island"),
            display_name: "Copper Island".to_string(),
            resources: vec![],
            population: 10,
            trade_ports: vec![],
            tags: vec![],
            source_refs: vec![],
            confidence: Confidence::High,
            authored_status: AuthoredStatus::HandAuthored,
        }],
    }
}

fn economy() -> ValidatedEconomy {
    validate_canonical(canonical()).unwrap()
}

fn rows(rows: &[&[&str]]) -> Vec<Vec<String>> {
    rows.iter().map(|row| row.iter().map(|k| k.to_string()).collect()).collect()
}

fn camp_option() -> BuildOption {
    BuildOption {
        key: "Digit1".to_string(),
        label: "camp".to_string(),
        facility: FacilityArchetypeId::from("facility.camp.tier1"),
        active_recipe: Some(RecipeId::from("recipe.gather_wood.v1")),
        allowed_tile_kinds: vec!["forest".to_string()],
        transport_output: Some(CommodityId::from("resource.wood")),
        use_tile_node: true,
    }
}

fn sound_scenario() -> Scenario {
    Scenario {
        id: "scenario.test".to_string(),
        display_name: "Test".to_string(),
        region: RegionId::from("region.copper_island"),
        description: None,
        objective_notes: vec![],
        map_layout: MapLayout {
            kind_rows: rows(&[&["water", "forest"], &["settlement", "buildable"]]),
            initial_selected: GridPos { col: 0, row: 1 },
        },
        starting_inventory: vec![Quantity { commodity: CommodityId::from("resource.wood"), qty: qty(90.0) }],
        win_conditions: vec![WinCondition {
            commodity: CommodityId::from("energy.electricity"),
            qty: qty(100.0),
            metric: WinMetric::ProducedTotal,
        }],
        build_options: vec![camp_option()],
    }
}

fn id() -> String {
    "scenario.test".to_string()
}

#[test]
fn sound_scenario_has_no_problems() {
    assert!(scenario_problems(&economy(), &sound_scenario()).is_empty());
    assert!(check_scenarios(&economy(), &[sound_scenario(), sound_scenario()]).is_empty());
}

#[test]
fn malformed_layouts_are_reported() {
    let mut scenario = sound_scenario();
    scenario.map_layout.kind_rows = rows(&[&["water", "lava"], &["forest"], &["water", "forest"]]);
    scenario.map_layout.initial_selected = GridPos { col: 1, row: 1 };
    assert_eq!(
        scenario_problems(&economy(), &scenario),
        vec![
            ScenarioProblem::RaggedMapRow { scenario: id(), row: 1 },
            ScenarioProblem::UnknownTileKind { scenario: id(), kind: "lava".to_string() },
            ScenarioProblem::MissingSettlementTile { scenario: id() },
            ScenarioProblem::InvalidInitialSelection { scenario: id(), col: 1, row: 1 },
        ]
    );
}

#[test]
fn empty_layout_has_no_settlement_and_no_selection() {
    let mut scenario = sound_scenario();
    scenario.map_layout.kind_rows = vec![];
    scenario.map_layout.initial_selected = GridPos { col: 0, row: 0 };
    assert_eq!(
        scenario_problems(&economy(), &scenario),
        vec![
            ScenarioProblem::MissingSettlementTile { scenario: id() },
            ScenarioProblem::InvalidInitialSelection { scenario: id(), col: 0, row: 0 },
        ]
    );
}

#[test]
fn unknown_references_are_reported_in_order() {
    let mut scenario = sound_scenario();
    scenario.region = RegionId::from("region.atlantis");
    scenario.starting_inventory.push(Quantity { commodity: CommodityId::from("ore.tin"), qty: qty(1.0) });
    scenario.win_conditions[0].commodity = CommodityId::from("component.gear");
    scenario.build_options.push(BuildOption {
        key: "Digit9".to_string(),
        label: "tower".to_string(),
        facility: FacilityArchetypeId::from("facility.tower.tier1"),
        active_recipe: Some(RecipeId::from("recipe.build_tower.v1")),
        allowed_tile_kinds: vec!["forest".to_string(), "cloud".to_string()],
        transport_output: Some(CommodityId::from("resource.stone")),
        use_tile_node: false,
    });
    assert_eq!(
        scenario_problems(&economy(), &scenario),
        vec![
            ScenarioProblem::UnknownRegion { scenario: id(), region: RegionId::from("region.atlantis") },
            ScenarioProblem::UnknownCommodity { scenario: id(), commodity: CommodityId::from("ore.tin") },
            ScenarioProblem::UnknownCommodity { scenario: id(), commodity: CommodityId::from("component.gear") },
            ScenarioProblem::UnknownFacility {
                scenario: id(),
                facility: FacilityArchetypeId::from("facility.tower.tier1"),
            },
            ScenarioProblem::UnknownRecipe { scenario: id(), recipe: RecipeId::from("recipe.build_tower.v1") },
            ScenarioProblem::UnknownTileKind { scenario: id(), kind: "cloud".to_string() },
            ScenarioProblem::UnknownCommodity { scenario: id(), commodity: CommodityId::from("resource.stone") },
        ]
    );
}

#[test]
fn problems_of_several_scenarios_come_scenario_by_scenario() {
    let mut first = sound_scenario();
    first.id = "scenario.first".to_string();
    first.region = RegionId::from("region.nowhere");
    let mut second = sound_scenario();
    second.id = "scenario.second".to_string();
    second.map_layout.initial_selected = GridPos { col: 5, row: 0 };
    assert_eq!(
        check_scenarios(&economy(), &[first, sound_scenario(), second]),
        vec![
            ScenarioProblem::UnknownRegion {
                scenario: "scenario.first".to_string(),
                region: RegionId::from("region.nowhere"),
            },
            ScenarioProblem::InvalidInitialSelection { scenario: "scenario.second".to_string(), col: 5, row: 0 },
        ]
    );
}

#[test]
fn economy_and_scenarios_are_validated_together() {
    let data = validate_with_scenarios(canonical(), vec![sound_scenario()]).unwrap();
    assert_eq!(data.scenarios.len(), 1);
    assert!(data.economy.recipe_book.contains(&RecipeId::from("recipe.gather_wood.v1")));

    let mut ragged = sound_scenario();
    ragged.map_layout.kind_rows = rows(&[&["settlement", "water"], &["water"]]);
    match validate_with_scenarios(canonical(), vec![sound_scenario(), ragged]) {
        Err(DataProblems::Scenarios { problems, .. }) => {
            assert_eq!(problems, vec![ScenarioProblem::RaggedMapRow { scenario: id(), row: 1 }])
        }
        other => panic!("unexpected {other:?}"),
    }

    let mut broken = canonical();
    broken.recipes[0].duration_ticks = 0;
    match validate_with_scenarios(broken, vec![sound_scenario()]) {
        Err(DataProblems::Economy(report)) => assert_eq!(report.errors.len(), 1),
        other => panic!("unexpected {other:?}"),
    }
}
