use copper_sim::inspect::{
    all_kinds_count, describe_commodity, describe_map, display_commodity, list_scenarios,
    select_scenario, tile_glyph, usage, write_recipe_list, Args, Command, DEFAULT_DATA_DIR,
};
use copper_sim::event_text::{format_blocker, format_event};
use copper_sim::graph::BlockReason;
use copper_sim::recipe_report::{describe_recipe, find_recipe};
use copper_sim::{FacilityId, TickEvent, TransportBlockReason, TransportEdgeId, TransportNodeId, TransportOrderId};
use copper_sim::scenario_report::describe_scenario;
use copper_sim::{
    validate_canonical, BuildOption, FacilityArchetypeId, WinCondition, WinMetric, AuthoredStatus, CanonicalEconomy, Commodity, CommodityId, Confidence,
    GridPos, MapLayout, ProcessRecipe, Qty, Quantity, RecipeId, RegionId, Scenario,
    ValidatedEconomy,
};

#[test]
fn parses_default_scenario_command() {
    assert_eq!(
        Args::parse(vec!["scenario".to_string()]).unwrap(),
        Args {
            data_dir: DEFAULT_DATA_DIR.to_string(),
            command: Command::Scenario { scenario_id: None }
        }
    );
}

#[test]
fn parses_data_dir_and_recipe_command() {
    assert_eq!(
        Args::parse(vec![
            "--data-dir".to_string(),
            "custom/path".to_string(),
            "recipe".to_string(),
            "recipe.draw_copper_wire.v1".to_string(),
            "scenario.demo".to_string(),
        ])
        .unwrap(),
        Args {
            data_dir: "custom/path".to_string(),
            command: Command::Recipe {
                recipe_id: "recipe.draw_copper_wire.v1".to_string(),
                scenario_id: Some("scenario.demo".to_string()),
            }
        }
    );
}

#[test]
fn empty_and_help_arguments_ask_for_help() {
    for args in [vec![], vec!["help"], vec!["--help"], vec!["-h"]] {
        let args: Vec<String> = args.into_iter().map(String::from).collect();
        assert_eq!(Args::parse(args).unwrap().command, Command::Help);
    }
}

#[test]
fn later_data_dir_option_wins() {
    let parsed = Args::parse(
        ["--data-dir", "a", "--data-dir", "b", "map", "scenario.x"]
            .into_iter()
            .map(String::from)
            .collect(),
    )
    .unwrap();
    assert_eq!(parsed.data_dir, "b");
    assert_eq!(
        parsed.command,
        Command::TileMap { scenario_id: Some("scenario.x".to_string()) }
    );
}

#[test]
fn list_and_commodity_commands_parse() {
    assert_eq!(
        Args::parse(vec!["list-scenarios".to_string()]).unwrap().command,
        Command::ListScenarios
    );
    assert_eq!(
        Args::parse(vec!["commodity".to_string(), "component.copper_wire".to_string()])
            .unwrap()
            .command,
        Command::Commodity { commodity_id: "component.copper_wire".to_string() }
    );
}

#[test]
fn parse_errors_name_the_problem() {
    assert_eq!(
        Args::parse(vec!["--data-dir".to_string()]).unwrap_err(),
        "--data-dir requires a path"
    );
    assert_eq!(
        Args::parse(vec!["commodity".to_string()]).unwrap_err(),
        "commodity requires a commodity id"
    );
    assert_eq!(
        Args::parse(vec!["recipe".to_string()]).unwrap_err(),
        "recipe requires a recipe id"
    );
    let err = Args::parse(vec!["frobnicate".to_string()]).unwrap_err();
    assert_eq!(err, format!("unknown command frobnicate\n\n{}", usage()));
}

#[test]
fn usage_lists_commands_and_options() {
    let text = usage();
    assert!(text.starts_with("Usage:\n"));
    assert!(text.contains("economy_inspect -- recipe <recipe_id> [scenario_id]\n\nOptions:\n"));
    assert!(text.ends_with("default data/canonical/v0"));
}

#[test]
fn tile_glyphs_match_the_legend() {
    assert_eq!(tile_glyph("water"), '~');
    assert_eq!(tile_glyph("forest"), 'F');
    assert_eq!(tile_glyph("coal"), 'K');
    assert_eq!(tile_glyph("copper"), 'C');
    assert_eq!(tile_glyph("iron"), 'I');
    assert_eq!(tile_glyph("limestone"), 'L');
    assert_eq!(tile_glyph("settlement"), 'S');
    assert_eq!(tile_glyph("buildable"), '.');
    assert_eq!(tile_glyph("lava"), '?');
}

#[test]
fn recipe_lists_show_each_id_or_none() {
    let mut out = String::from("x");
    write_recipe_list(&mut out, "Produced By", &[]);
    assert_eq!(out, "x\nProduced By\n- none\n");
    let mut out = String::new();
    write_recipe_list(
        &mut out,
        "Required By",
        &[RecipeId::from("recipe.a"), RecipeId::from("recipe.b")],
    );
    assert_eq!(out, "\nRequired By\n- recipe.a\n- recipe.b\n");
}

fn small_scenario(selected: GridPos) -> Scenario {
    let rows = vec![
        vec!["water", "forest", "water"],
        vec!["coal", "settlement", "forest"],
    ];
    Scenario {
        id: "scenario.small".to_string(),
        display_name: "Small Island".to_string(),
        region: RegionId::from("region.small"),
        description: None,
        objective_notes: Vec::new(),
        map_layout: MapLayout {
            kind_rows: rows
                .into_iter()
                .map(|row| row.into_iter().map(String::from).collect())
                .collect(),
            initial_selected: selected,
        },
        starting_inventory: Vec::new(),
        win_conditions: Vec::new(),
        build_options: Vec::new(),
    }
}

#[test]
fn map_output_mentions_preview_and_counts() {
    let output = describe_map(&small_scenario(GridPos { col: 1, row: 1 }));
    let expected = "Map: Small Island\n\
size: 3x2 tiles\n\
initial selection: 1,1 (settlement)\n\
\n\
Preview\n\
~ F ~\n\
K @ F\n\
\n\
Legend\n\
@ initial selected tile\n\
~ water\n\
F forest\n\
K coal\n\
C copper\n\
I iron\n\
L limestone\n\
S settlement\n\
. buildable\n\
\n\
Tile Counts\n\
- coal: 1\n\
- forest: 2\n\
- settlement: 1\n\
- water: 2\n";
    assert_eq!(output, expected);
}

#[test]
fn map_selection_outside_layout_is_unknown() {
    let output = describe_map(&small_scenario(GridPos { col: 12, row: 0 }));
    assert!(output.contains("initial selection: 12,0 (unknown)\n"));
    assert!(output.contains("~ F ~\nK S F\n"));
}

fn named_scenario(id: &str, name: &str) -> Scenario {
    let mut scenario = small_scenario(GridPos { col: 0, row: 0 });
    scenario.id = id.to_string();
    scenario.display_name = name.to_string();
    scenario
}

#[test]
fn lists_scenarios() {
    let scenarios = vec![
        named_scenario("scenario.copper_island.power_loop", "Copper Island Power Loop"),
        named_scenario("scenario.copper_island.logistics_squeeze", "Copper Island Logistics Squeeze"),
    ];
    let output = list_scenarios(&scenarios);
    assert!(output.contains("scenario.copper_island.power_loop"));
    assert!(output.contains("scenario.copper_island.logistics_squeeze"));
    assert_eq!(
        output,
        "Scenarios\n\
- scenario.copper_island.power_loop: Copper Island Power Loop\n\
- scenario.copper_island.logistics_squeeze: Copper Island Logistics Squeeze\n"
    );
    assert_eq!(list_scenarios(&[]), "Scenarios\n");
}

#[test]
fn scenario_selection_prefers_the_requested_then_default_then_first() {
    let scenarios = vec![
        named_scenario("scenario.a", "A"),
        named_scenario("scenario.copper_island.power_loop", "Power Loop"),
        named_scenario("scenario.a", "A again"),
    ];
    assert_eq!(select_scenario(&scenarios, Some("scenario.a")).unwrap().display_name, "A again");
    assert_eq!(select_scenario(&scenarios, None).unwrap().display_name, "Power Loop");
    assert_eq!(select_scenario(&scenarios, Some("scenario.zzz")).unwrap().display_name, "A");
    assert_eq!(select_scenario(&[], None).unwrap_err(), "no scenarios are defined");
}

#[test]
fn map_tile_count_is_checked() {
    let scenario = small_scenario(GridPos { col: 0, row: 0 });
    assert_eq!(all_kinds_count(&scenario.map_layout.kind_rows), Some(6));
    assert_eq!(all_kinds_count(&Vec::new()), Some(0));
}

fn qty(value: f64) -> Qty {
    Qty::from_bits(value.to_bits())
}

fn commodity(id: &str, name: &str) -> Commodity {
    Commodity {
        id: CommodityId::from(id),
        display_name: name.to_string(),
        category: "material".to_string(),
        unit: "kg".to_string(),
        tags: vec![],
        source_refs: vec![],
        confidence: Confidence::High,
        authored_status: AuthoredStatus::HandAuthored,
    }
}

fn recipe(id: &str, inputs: Vec<&str>, outputs: Vec<&str>, byproducts: Vec<&str>) -> ProcessRecipe {
    let quantities = |ids: Vec<&str>| {
        ids.into_iter()
            .map(|c| Quantity { commodity: CommodityId::from(c), qty: qty(1.0) })
            .collect()
    };
    ProcessRecipe {
        id: RecipeId::from(id),
        display_name: id.to_string(),
        inputs: quantities(inputs),
        outputs: quantities(outputs),
        byproducts: quantities(byproducts),
        facility_tags: vec![],
        duration_ticks: 1,
        source_refs: vec![],
        confidence: Confidence::High,
        authored_status: AuthoredStatus::HandAuthored,
    }
}

fn wire_economy() -> ValidatedEconomy {
    validate_canonical(CanonicalEconomy {
        commodities: vec![
            commodity("metal.copper", "Copper"),
            commodity("component.copper_wire", "Copper Wire"),
            commodity("waste.scrap", "Scrap"),
        ],
        recipes: vec![
            recipe(
                "recipe.draw_copper_wire.v1",
                vec!["metal.copper"],
                vec!["component.copper_wire"],
                vec!["waste.scrap"],
            ),
            recipe("recipe.coil_wire.v1", vec!["component.copper_wire"], vec!["waste.scrap"], vec![]),
        ],
        facilities: vec![],
        regions: vec![],
    })
    .unwrap()
}

#[test]
fn commodity_output_mentions_dependency_links() {
    let output = describe_commodity(&wire_economy(), &CommodityId::from("component.copper_wire"));
    assert!(output.contains("Produced By"));
    assert!(output.contains("recipe.draw_copper_wire.v1"));
    assert_eq!(
        output,
        "Commodity: Copper Wire (component.copper_wire)\n\
\nProduced By\n- recipe.draw_copper_wire.v1\n\
\nRequired By\n- recipe.coil_wire.v1\n\
\nByproduct Of\n- none\n"
    );
}

#[test]
fn unknown_commodities_are_shown_by_id() {
    let economy = wire_economy();
    assert_eq!(display_commodity(&economy, &CommodityId::from("metal.copper")), "Copper (metal.copper)");
    assert_eq!(display_commodity(&economy, &CommodityId::from("metal.tin")), "metal.tin");
    let output = describe_commodity(&economy, &CommodityId::from("waste.scrap"));
    assert!(output.starts_with("Commodity: Scrap (waste.scrap)\n"));
    assert!(output.contains("\nProduced By\n- recipe.coil_wire.v1\n"));
    assert!(output.ends_with("\nByproduct Of\n- recipe.draw_copper_wire.v1\n"));
}

fn power_loop() -> Scenario {
    let mut scenario = named_scenario("scenario.copper_island.power_loop", "Copper Island Power Loop");
    scenario.starting_inventory = vec![
        Quantity { commodity: CommodityId::from("metal.copper"), qty: qty(12.0) },
        Quantity { commodity: CommodityId::from("resource.coal"), qty: qty(10.0) },
    ];
    scenario.win_conditions = vec![WinCondition {
        commodity: CommodityId::from("component.copper_wire"),
        qty: qty(25.0),
        metric: WinMetric::ProducedTotal,
    }];
    scenario.build_options = vec![
        BuildOption {
            key: "Digit2".to_string(),
            label: "copper mine".to_string(),
            facility: FacilityArchetypeId::from("facility.mine.tier1"),
            active_recipe: None,
            allowed_tile_kinds: vec!["copper".to_string(), "coal".to_string()],
            transport_output: Some(CommodityId::from("metal.copper")),
            use_tile_node: true,
        },
        BuildOption {
            key: "Digit6".to_string(),
            label: "wire workshop".to_string(),
            facility: FacilityArchetypeId::from("facility.workshop.tier1"),
            active_recipe: Some(RecipeId::from("recipe.draw_copper_wire.v1")),
            allowed_tile_kinds: vec!["settlement".to_string()],
            transport_output: None,
            use_tile_node: false,
        },
    ];
    scenario
}

#[test]
fn scenario_output_mentions_build_options() {
    let output = describe_scenario(
        &wire_economy(),
        &power_loop(),
        &vec!["12.0".to_string(), "10.0".to_string()],
        &vec!["25.0".to_string()],
    );
    assert!(output.contains("Scenario: Copper Island Power Loop"));
    assert!(output.contains("Build Options"));
    assert!(output.contains("Digit6: wire workshop"));
    assert_eq!(
        output,
        "Scenario: Copper Island Power Loop\n\
id: scenario.copper_island.power_loop\n\
region: region.small\n\
map: 3x2 tiles, initial selection 0,0\n\
\n\
Starting Inventory\n\
- Copper (metal.copper): 12.0\n\
- resource.coal: 10.0\n\
\n\
Win Conditions\n\
- Copper Wire (component.copper_wire): 25.0 (ProducedTotal)\n\
\n\
Build Options\n\
- Digit2: copper mine -> none on [copper, coal], output route: Copper (metal.copper)\n\
- Digit6: wire workshop -> recipe.draw_copper_wire.v1 on [settlement], output route: none\n"
    );
}

#[test]
fn recipe_report_lists_stacks_and_blockers() {
    let economy = wire_economy();
    let recipe = find_recipe(&economy, &RecipeId::from("recipe.draw_copper_wire.v1")).unwrap();
    let output = describe_recipe(
        &economy,
        recipe,
        &vec!["1.0".to_string()],
        &vec!["1.0".to_string()],
        &vec!["1.0".to_string()],
        &vec!["MissingInput { commodity: CommodityId(\"metal.copper\"), required: 1.0, available: 0.0 }".to_string()],
    );
    assert_eq!(
        output,
        "Recipe: recipe.draw_copper_wire.v1\n\
duration: 1 ticks\n\
\nInputs\n- Copper (metal.copper): 1.0\n\
\nOutputs\n- Copper Wire (component.copper_wire): 1.0\n\
\nByproducts\n- Scrap (waste.scrap): 1.0\n\
\nBlocked Against Scenario Starting Inventory\n\
- MissingInput { commodity: CommodityId(\"metal.copper\"), required: 1.0, available: 0.0 }\n"
    );
    let coil = find_recipe(&economy, &RecipeId::from("recipe.coil_wire.v1")).unwrap();
    let ready = describe_recipe(&economy, coil, &vec!["2.5".to_string()], &vec!["0.5".to_string()], &vec![], &vec![]);
    assert!(ready.contains("\nByproducts\n- none\n"));
    assert!(ready.ends_with("Blocked Against Scenario Starting Inventory\n- ready\n"));
    assert_eq!(
        find_recipe(&economy, &RecipeId::from("recipe.missing")).unwrap_err(),
        "unknown recipe recipe.missing"
    );
}

fn texts(items: &[&str]) -> Vec<String> {
    items.iter().map(|t| t.to_string()).collect()
}

#[test]
fn event_lines_name_facilities_recipes_and_commodities() {
    let economy = wire_economy();
    let facility = FacilityId::from("facility.workshop.tier1.instance.3");
    let recipe = RecipeId::from("recipe.draw_copper_wire.v1");
    assert_eq!(
        format_event(
            &economy,
            &TickEvent::FacilityProgressed {
                facility: facility.clone(),
                recipe: recipe.clone(),
                progress_ticks: 1,
                duration_ticks: 4,
            },
            &vec![],
        ),
        "facility.workshop.tier1.instance.3: recipe.draw_copper_wire.v1 1/4"
    );
    let blocker = BlockReason::MissingInput {
        commodity: CommodityId::from("metal.copper"),
        required: qty(2.0),
        available: qty(0.5),
    };
    assert_eq!(
        format_event(
            &economy,
            &TickEvent::FacilityBlocked { facility: facility.clone(), recipe: recipe.clone(), reasons: vec![blocker.clone()] },
            &texts(&["2.0", "0.5"]),
        ),
        "facility.workshop.tier1.instance.3: recipe.draw_copper_wire.v1 blocked (needs 2.0 Copper, has 0.5)"
    );
    assert_eq!(format_blocker(&economy, &blocker, &texts(&["2.0", "0.5"])), "needs 2.0 Copper, has 0.5");
    assert_eq!(
        format_event(
            &economy,
            &TickEvent::FacilityBlocked { facility: facility.clone(), recipe: RecipeId::from("recipe.x"), reasons: vec![] },
            &vec![],
        ),
        "facility.workshop.tier1.instance.3: recipe.x blocked (unknown)"
    );
    assert_eq!(
        format_event(
            &economy,
            &TickEvent::FacilityBlocked {
                facility: facility.clone(),
                recipe: RecipeId::from("recipe.x"),
                reasons: vec![BlockReason::MissingRecipe(RecipeId::from("recipe.x"))],
            },
            &vec![],
        ),
        "facility.workshop.tier1.instance.3: recipe.x blocked (missing recipe recipe.x)"
    );
    assert_eq!(
        format_event(&economy, &TickEvent::RecipeCompleted { facility, recipe }, &vec![]),
        "facility.workshop.tier1.instance.3: completed recipe.draw_copper_wire.v1"
    );
}

#[test]
fn event_lines_for_routes() {
    let economy = wire_economy();
    let moved = |limited: bool| TickEvent::TransportMoved {
        order: TransportOrderId::from("order.a"),
        edge: TransportEdgeId::from("edge.a"),
        commodity: CommodityId::from("metal.copper"),
        qty: qty(2.0),
        capacity_limited: limited,
    };
    assert_eq!(format_event(&economy, &moved(true), &texts(&["2.0"])), "route moved 2.0 Copper (capacity limited)");
    assert_eq!(format_event(&economy, &moved(false), &texts(&["2.0"])), "route moved 2.0 Copper");
    let blocked = |reason: TransportBlockReason| {
        format_event(
            &economy,
            &TickEvent::TransportBlocked { order: TransportOrderId::from("order.a"), reason },
            &vec![],
        )
    };
    assert_eq!(blocked(TransportBlockReason::DestinationAtTarget), "route idle: destination stocked");
    assert_eq!(blocked(TransportBlockReason::NoSourceInventory), "route idle: no source inventory");
    assert_eq!(blocked(TransportBlockReason::ZeroCapacity), "route blocked: zero capacity");
    assert_eq!(blocked(TransportBlockReason::DisabledEdge), "route blocked: disabled");
    assert_eq!(
        blocked(TransportBlockReason::MissingEdge(TransportEdgeId::from("edge.b"))),
        "route missing edge edge.b"
    );
    assert_eq!(
        blocked(TransportBlockReason::MissingNode(TransportNodeId::from("node.x"))),
        "route missing node node.x"
    );
    assert_eq!(
        blocked(TransportBlockReason::CommodityNotAllowed(CommodityId::from("ore.tin"))),
        "route blocks ore.tin"
    );
}
