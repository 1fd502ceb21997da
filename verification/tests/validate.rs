use copper_sim::{
    validate_canonical, AuthoredStatus, CanonicalEconomy, Commodity, CommodityId, Confidence,
    FacilityArchetype, FacilityArchetypeId, ProcessRecipe, Qty, Quantity, RecipeId, RegionId,
    RegionProfile, RegionResource, SourceRef, ValidationError,
};

fn qty(value: f64) -> Qty {
    Qty::from_bits(value.to_bits())
}

fn quantity(commodity: &str, value: f64) -> Quantity {
    Quantity { commodity: CommodityId::from(commodity), qty: qty(value) }
}

fn source() -> SourceRef {
    SourceRef {
        source_dataset: "handbook".to_string(),
        source_row_or_page: "p. 12".to_string(),
        source_quote_or_field: "wire drawing".to_string(),
        url: None,
    }
}

fn commodity(id: &str, name: &str) -> Commodity {
    Commodity {
        id: CommodityId::from(id),
        display_name: name.to_string(),
        category: "material".to_string(),
        unit: "kg".to_string(),
        tags: vec![],
        source_refs: vec![],
        confidence: Confidence::High,
        authored_status: AuthoredStatus::HandAuthored,
    }
}

fn recipe(id: &str, inputs: Vec<Quantity>, outputs: Vec<Quantity>) -> ProcessRecipe {
    ProcessRecipe {
        id: RecipeId::from(id),
        display_name: "A recipe".to_string(),
        inputs,
        outputs,
        byproducts: vec![],
        facility_tags: vec!["workshop".to_string()],
        duration_ticks: 2,
        source_refs: vec![source()],
        confidence: Confidence::Medium,
        authored_status: AuthoredStatus::Reviewed,
    }
}

fn facility(id: &str, accepts: Vec<&str>) -> FacilityArchetype {
    FacilityArchetype {
        id: FacilityArchetypeId::from(id),
        display_name: "Workshop".to_string(),
        accepts_recipes: accepts.into_iter().map(String::from).collect(),
        build_cost: vec![quantity("metal.copper", 5.0)],
        power_draw_kw: qty(3.5),
        workers_required: 2,
        sprite_prompt_ref: "sprite.workshop".to_string(),
        tags: vec!["workshop".to_string()],
        source_refs: vec![],
        confidence: Confidence::Low,
        authored_status: AuthoredStatus::HandAuthored,
    }
}

fn region(id: &str, resources: Vec<(&str, f64)>) -> RegionProfile {
    RegionProfile {
        id: RegionId::from(id),
        display_name: "Copper Island".to_string(),
        resources: resources
            .into_iter()
            .map(|(c, a)| RegionResource { commodity: CommodityId::from(c), abundance: qty(a) })
            .collect(),
        population: 1200,
        trade_ports: vec!["north_harbor".to_string()],
        tags: vec![],
        source_refs: vec![],
        confidence: Confidence::High,
        authored_status: AuthoredStatus::HandAuthored,
    }
}

/// A small, valid copper economy: copper is drawn into wire with electricity.
fn copper_economy() -> CanonicalEconomy {
    CanonicalEconomy {
        commodities: vec![
            commodity("metal.copper", "Copper"),
            commodity("energy.electricity", "Electricity"),
            commodity("component.copper_wire", "Copper wire"),
        ],
        recipes: vec![
            recipe(
                "recipe.draw_copper_wire.v1",
                vec![quantity("metal.copper", 1.0), quantity("energy.electricity", 2.0)],
                vec![quantity("component.copper_wire", 4.0)],
            ),
            recipe(
                "recipe.generate_electricity.v1",
                vec![],
                vec![quantity("energy.electricity", 10.0)],
            ),
        ],
        facilities: vec![facility(
            "facility.workshop.tier1",
            vec!["recipe.draw_copper_wire.v1", "recipe.generate_*"],
        )],
        regions: vec![region("region.copper_island", vec![("metal.copper", 0.8)])],
    }
}

#[test]
fn small_copper_economy_validates() {
    let economy = validate_canonical(copper_economy()).unwrap();
    assert!(economy.recipe_book.contains(&RecipeId::from("recipe.draw_copper_wire.v1")));
    assert!(economy.commodities_by_id.contains_key("energy.electricity"));
    assert!(economy.facilities_by_id.contains_key("facility.workshop.tier1"));
    assert_eq!(economy.commodities_by_id.len(), 3);
    assert_eq!(
        economy.recipe_book.ids(),
        vec![
            RecipeId::from("recipe.draw_copper_wire.v1"),
            RecipeId::from("recipe.generate_electricity.v1"),
        ]
    );
    assert_eq!(economy.canonical, copper_economy());
}

#[test]
fn validator_rejects_unknown_recipe_inputs() {
    let mut economy = copper_economy();
    economy.recipes[0].inputs.push(quantity("missing.thing", 1.0));

    let report = validate_canonical(economy).unwrap_err();

    assert!(report
        .errors
        .iter()
        .any(|error| matches!(error, ValidationError::UnknownCommodity { .. })));
}

#[test]
fn validator_rejects_bad_recipe_patterns() {
    let mut economy = copper_economy();
    economy.facilities[0].accepts_recipes.push("recipe.not_real.*".to_string());

    let report = validate_canonical(economy).unwrap_err();

    assert!(report
        .errors
        .iter()
        .any(|error| matches!(error, ValidationError::UnknownRecipePattern { .. })));
}

#[test]
fn each_problem_is_reported_in_order() {
    let mut economy = copper_economy();
    economy.commodities.push(commodity("metal.copper", "   "));
    economy.recipes[1].duration_ticks = 0;
    economy.recipes[1].outputs.clear();
    economy.recipes[1].authored_status = AuthoredStatus::Draft;
    economy.recipes[1].source_refs.clear();
    economy.recipes[0].byproducts.push(quantity("component.copper_wire", -1.0));
    economy.facilities[0].accepts_recipes = vec!["recipe.draw_copper_wire".to_string()];
    economy.regions.push(region("region.copper_island", vec![("ore.tin", 1.5)]));

    let report = validate_canonical(economy).unwrap_err();

    assert_eq!(
        report.errors,
        vec![
            ValidationError::DuplicateId { entity: "commodity", id: "metal.copper".to_string() },
            ValidationError::DuplicateId { entity: "region", id: "region.copper_island".to_string() },
            ValidationError::MissingDisplayName { entity: "commodity", id: "metal.copper".to_string() },
            ValidationError::NegativeQuantity {
                owner: "recipe.draw_copper_wire.v1".to_string(),
                commodity: CommodityId::from("component.copper_wire"),
                qty: qty(-1.0),
            },
            ValidationError::MissingSourceRefs {
                entity: "recipe",
                id: "recipe.generate_electricity.v1".to_string(),
            },
            ValidationError::InvalidRecipeDuration {
                recipe: RecipeId::from("recipe.generate_electricity.v1"),
            },
            ValidationError::RecipeWithoutOutput {
                recipe: RecipeId::from("recipe.generate_electricity.v1"),
            },
            ValidationError::UnknownRecipePattern {
                facility: FacilityArchetypeId::from("facility.workshop.tier1"),
                pattern: "recipe.draw_copper_wire".to_string(),
            },
            ValidationError::UnknownCommodity {
                owner: "region.copper_island".to_string(),
                commodity: CommodityId::from("ore.tin"),
            },
            ValidationError::InvalidAbundance {
                region: RegionId::from("region.copper_island"),
                commodity: CommodityId::from("ore.tin"),
                abundance: qty(1.5),
            },
        ]
    );
}

#[test]
fn abundance_bounds_are_inclusive_and_nan_is_rejected() {
    for (abundance, ok) in [(0.0, true), (-0.0, true), (1.0, true), (-0.25, false), (f64::NAN, false)] {
        let mut economy = copper_economy();
        economy.regions[0].resources[0].abundance = qty(abundance);
        assert_eq!(validate_canonical(economy).is_ok(), ok, "abundance {abundance}");
    }
}

#[test]
fn hand_authored_records_need_no_sources() {
    let mut economy = copper_economy();
    economy.recipes[0].authored_status = AuthoredStatus::HandAuthored;
    economy.recipes[0].source_refs.clear();
    assert!(validate_canonical(economy).is_ok());

    let mut economy = copper_economy();
    economy.recipes[0].authored_status = AuthoredStatus::Trusted;
    economy.recipes[0].source_refs.clear();
    let report = validate_canonical(economy).unwrap_err();
    assert_eq!(
        report.errors,
        vec![ValidationError::MissingSourceRefs {
            entity: "recipe",
            id: "recipe.draw_copper_wire.v1".to_string(),
        }]
    );
}

#[test]
fn negative_zero_quantities_are_not_negative() {
    let mut economy = copper_economy();
    economy.recipes[0].inputs[0].qty = qty(-0.0);
    assert!(validate_canonical(economy).is_ok());
}

#[test]
fn unknown_build_cost_commodity_is_reported_for_the_facility() {
    let mut economy = copper_economy();
    economy.facilities[0].build_cost.push(quantity("metal.tin", 2.0));
    let report = validate_canonical(economy).unwrap_err();
    assert_eq!(
        report.errors,
        vec![ValidationError::UnknownCommodity {
            owner: "facility.workshop.tier1".to_string(),
            commodity: CommodityId::from("metal.tin"),
        }]
    );
}

#[test]
fn duplicate_recipes_and_facilities_are_reported() {
    let mut economy = copper_economy();
    economy.recipes.push(recipe(
        "recipe.draw_copper_wire.v1",
        vec![],
        vec![quantity("component.copper_wire", 1.0)],
    ));
    economy.facilities.push(facility("facility.workshop.tier1", vec![]));
    let report = validate_canonical(economy).unwrap_err();
    assert_eq!(
        report.errors,
        vec![
            ValidationError::DuplicateId {
                entity: "recipe",
                id: "recipe.draw_copper_wire.v1".to_string()
            },
            ValidationError::DuplicateId {
                entity: "facility",
                id: "facility.workshop.tier1".to_string()
            },
        ]
    );
}
