//! Checking scenarios against the validated economy.
//!
//! A scenario's map layout must be rectangular, use only known tile kinds,
//! hold a settlement tile, and start with a tile of the map selected; its
//! region, commodities, facilities, recipes and tile kinds must be ones the
//! economy and the island know. Every problem is reported, in the order it
//! is found.

use vstd::prelude::*;
use crate::catalog::has_key;
use crate::data::{CanonicalEconomy, Quantity, RegionProfile, book_of};
use crate::ids::{CommodityId, FacilityArchetypeId, RecipeId, RegionId};
use crate::inspect::{all_kinds, row_kinds};
use crate::order::same_text;
use crate::scenario::{BuildOption, MapLayout, Scenario, WinCondition};
use crate::validate::{
    ValidatedEconomy, ValidationReport, canonical_errors, commodities_indexed, facilities_indexed, validate_canonical,
    views,
};

verus! {

/// A problem found in a scenario; each names the scenario's id.
#[derive(Clone, Debug, PartialEq)]
pub enum ScenarioProblem {
    RaggedMapRow { scenario: String, row: usize },
    UnknownTileKind { scenario: String, kind: String },
    MissingSettlementTile { scenario: String },
    InvalidInitialSelection { scenario: String, col: usize, row: usize },
    UnknownRegion { scenario: String, region: RegionId },
    UnknownCommodity { scenario: String, commodity: CommodityId },
    UnknownFacility { scenario: String, facility: FacilityArchetypeId },
    UnknownRecipe { scenario: String, recipe: RecipeId },
}

/// A scenario problem, with texts as character sequences.
pub enum ProblemView {
    RaggedMapRow { scenario: Seq<char>, row: nat },
    UnknownTileKind { scenario: Seq<char>, kind: Seq<char> },
    MissingSettlementTile { scenario: Seq<char> },
    InvalidInitialSelection { scenario: Seq<char>, col: nat, row: nat },
    UnknownRegion { scenario: Seq<char>, region: Seq<char> },
    UnknownCommodity { scenario: Seq<char>, commodity: Seq<char> },
    UnknownFacility { scenario: Seq<char>, facility: Seq<char> },
    UnknownRecipe { scenario: Seq<char>, recipe: Seq<char> },
}

impl View for ScenarioProblem {
    type V = ProblemView;

    open spec fn view(&self) -> ProblemView {
        match self {
            ScenarioProblem::RaggedMapRow { scenario, row } => ProblemView::RaggedMapRow {
                scenario: scenario@,
                row: *row as nat,
            },
            ScenarioProblem::UnknownTileKind { scenario, kind } => ProblemView::UnknownTileKind {
                scenario: scenario@,
                kind: kind@,
            },
            ScenarioProblem::MissingSettlementTile { scenario } => ProblemView::MissingSettlementTile {
                scenario: scenario@,
            },
            ScenarioProblem::InvalidInitialSelection { scenario, col, row } => ProblemView::InvalidInitialSelection {
                scenario: scenario@,
                col: *col as nat,
                row: *row as nat,
            },
            ScenarioProblem::UnknownRegion { scenario, region } => ProblemView::UnknownRegion {
                scenario: scenario@,
                region: region@,
            },
            ScenarioProblem::UnknownCommodity { scenario, commodity } => ProblemView::UnknownCommodity {
                scenario: scenario@,
                commodity: commodity@,
            },
            ScenarioProblem::UnknownFacility { scenario, facility } => ProblemView::UnknownFacility {
                scenario: scenario@,
                facility: facility@,
            },
            ScenarioProblem::UnknownRecipe { scenario, recipe } => ProblemView::UnknownRecipe {
                scenario: scenario@,
                recipe: recipe@,
            },
        }
    }
}

/// The views of a list of problems.
pub open spec fn problem_views(problems: Seq<ScenarioProblem>) -> Seq<ProblemView> {
    problems.map_values(|p: ScenarioProblem| p@)
}

proof fn lemma_problem_views_push(s: Seq<ScenarioProblem>, p: ScenarioProblem)
    ensures
        problem_views(s.push(p)) == problem_views(s).push(p@),
{
    assert(problem_views(s.push(p)) =~= problem_views(s).push(p@));
}

// ---------------------------------------------------------------------------
// The map layout.

/// A tile kind of the island.
pub open spec fn known_tile_kind(k: Seq<char>) -> bool {
    ||| k == "water"@
    ||| k == "forest"@
    ||| k == "coal"@
    ||| k == "copper"@
    ||| k == "iron"@
    ||| k == "limestone"@
    ||| k == "settlement"@
    ||| k == "buildable"@
}

/// One problem for each row, in order, whose length is not `width`.
pub open spec fn ragged_rows(scenario: Seq<char>, rows: Seq<Vec<String>>, width: nat) -> Seq<ProblemView>
    decreases rows.len(),
{
    if rows.len() == 0 {
        Seq::empty()
    } else {
        let rest = ragged_rows(scenario, rows.drop_last(), width);
        if rows.last()@.len() != width {
            rest.push(ProblemView::RaggedMapRow { scenario, row: (rows.len() - 1) as nat })
        } else {
            rest
        }
    }
}

/// One problem for each unknown tile kind, in order.
pub open spec fn unknown_kinds(scenario: Seq<char>, kinds: Seq<Seq<char>>) -> Seq<ProblemView>
    decreases kinds.len(),
{
    if kinds.len() == 0 {
        Seq::empty()
    } else {
        let rest = unknown_kinds(scenario, kinds.drop_last());
        if !known_tile_kind(kinds.last()) {
            rest.push(ProblemView::UnknownTileKind { scenario, kind: kinds.last() })
        } else {
            rest
        }
    }
}

/// The width every row must have: that of the first row.
pub open spec fn layout_width(rows: Seq<Vec<String>>) -> nat {
    if rows.len() > 0 {
        rows[0]@.len()
    } else {
        0
    }
}

/// The initially selected tile lies outside the map.
pub open spec fn selection_outside(layout: MapLayout) -> bool {
    let rows = layout.kind_rows@;
    let sel = layout.initial_selected;
    sel.row >= rows.len() || sel.col >= rows[sel.row as int]@.len()
}

/// The problems of a map layout: ragged rows, unknown tile kinds, a missing
/// settlement tile, and an initial selection outside the map.
pub open spec fn layout_problems(scenario: Seq<char>, layout: MapLayout) -> Seq<ProblemView> {
    let rows = layout.kind_rows@;
    ragged_rows(scenario, rows, layout_width(rows)) + unknown_kinds(scenario, all_kinds(rows)) + (if !all_kinds(
        rows,
    ).contains("settlement"@) {
        seq![ProblemView::MissingSettlementTile { scenario }]
    } else {
        Seq::empty()
    }) + (if selection_outside(layout) {
        seq![
            ProblemView::InvalidInitialSelection {
                scenario,
                col: layout.initial_selected.col as nat,
                row: layout.initial_selected.row as nat,
            },
        ]
    } else {
        Seq::empty()
    })
}

/// Whether `k` is a tile kind of the island.
fn is_known_tile_kind(k: &str) -> (b: bool)
    ensures
        b == known_tile_kind(k@),
{
    same_text(k, "water") || same_text(k, "forest") || same_text(k, "coal") || same_text(k, "copper")
        || same_text(k, "iron") || same_text(k, "limestone") || same_text(k, "settlement") || same_text(
        k,
        "buildable",
    )
}

/// Appends the problems of a map layout.
fn check_layout(scenario: &String, layout: &MapLayout, problems: &mut Vec<ScenarioProblem>)
    ensures
        problem_views(final(problems)@) == problem_views(old(problems)@) + layout_problems(scenario@, *layout),
{
    let rows = &layout.kind_rows;
    let ghost start = problem_views(problems@);
    let width: usize = if rows.len() > 0 {
        rows[0].len()
    } else {
        0
    };
    let mut r: usize = 0;
    assert(start + ragged_rows(scenario@, rows@.subrange(0, 0), width as nat) =~= start);
    while r < rows.len()
        invariant
            width == layout_width(rows@),
            r <= rows@.len(),
            problem_views(problems@) == start + ragged_rows(scenario@, rows@.subrange(0, r as int), width as nat),
        decreases rows@.len() - r,
    {
        let ghost upto = rows@.subrange(0, r + 1);
        assert(upto.drop_last() =~= rows@.subrange(0, r as int));
        assert(upto.last() == rows@[r as int]);
        if rows[r].len() != width {
            let p = ScenarioProblem::RaggedMapRow { scenario: scenario.clone(), row: r };
            proof {
                lemma_problem_views_push(problems@, p);
            }
            problems.push(p);
        }
        r = r + 1;
    }
    assert(rows@.subrange(0, r as int) =~= rows@);
    let ghost after_ragged = problem_views(problems@);
    let mut found_settlement = false;
    let mut r: usize = 0;
    assert(after_ragged + unknown_kinds(scenario@, all_kinds(rows@.subrange(0, 0))) =~= after_ragged);
    while r < rows.len()
        invariant
            r <= rows@.len(),
            problem_views(problems@) == after_ragged + unknown_kinds(scenario@, all_kinds(rows@.subrange(0, r as int))),
            found_settlement == all_kinds(rows@.subrange(0, r as int)).contains("settlement"@),
        decreases rows@.len() - r,
    {
        let row = &rows[r];
        let ghost done = all_kinds(rows@.subrange(0, r as int));
        let ghost rows_upto = rows@.subrange(0, r + 1);
        proof {
            assert(rows_upto.drop_last() =~= rows@.subrange(0, r as int));
            assert(rows_upto.last() == *row);
            assert(all_kinds(rows_upto) == done + row_kinds(*row));
        }
        let mut c: usize = 0;
        assert(done + row_kinds(*row).subrange(0, 0) =~= done);
        while c < row.len()
            invariant
                c <= row@.len(),
                problem_views(problems@) == after_ragged + unknown_kinds(
                    scenario@,
                    done + row_kinds(*row).subrange(0, c as int),
                ),
                found_settlement == (done + row_kinds(*row).subrange(0, c as int)).contains("settlement"@),
            decreases row@.len() - c,
        {
            let ghost seen = done + row_kinds(*row).subrange(0, c as int);
            let ghost next = done + row_kinds(*row).subrange(0, c + 1);
            proof {
                assert(next.drop_last() =~= seen);
                assert(next.last() == row@[c as int]@);
                assert(next =~= seen.push(row@[c as int]@));
            }
            let kind = row[c].as_str();
            if !is_known_tile_kind(kind) {
                let p = ScenarioProblem::UnknownTileKind { scenario: scenario.clone(), kind: row[c].clone() };
                proof {
                    lemma_problem_views_push(problems@, p);
                }
                problems.push(p);
            }
            if same_text(kind, "settlement") {
                found_settlement = true;
            }
            proof {
                assert(next.contains("settlement"@) == (seen.contains("settlement"@) || row@[c as int]@
                    == "settlement"@)) by {
                    if next.contains("settlement"@) {
                        let j = choose|j: int| 0 <= j < next.len() && next[j] == "settlement"@;
                        if j < seen.len() {
                            assert(seen[j] == next[j]);
                        }
                    }
                    if seen.contains("settlement"@) {
                        let j = choose|j: int| 0 <= j < seen.len() && seen[j] == "settlement"@;
                        assert(next[j] == seen[j]);
                    }
                }
            }
            c = c + 1;
        }
        assert(row_kinds(*row).subrange(0, c as int) =~= row_kinds(*row));
        r = r + 1;
    }
    assert(rows@.subrange(0, r as int) =~= rows@);
    let ghost after_kinds = problem_views(problems@);
    if !found_settlement {
        let p = ScenarioProblem::MissingSettlementTile { scenario: scenario.clone() };
        proof {
            lemma_problem_views_push(problems@, p);
        }
        problems.push(p);
    }
    let ghost after_settlement = problem_views(problems@);
    let sel = layout.initial_selected;
    if sel.row >= rows.len() || sel.col >= rows[sel.row].len() {
        let p = ScenarioProblem::InvalidInitialSelection { scenario: scenario.clone(), col: sel.col, row: sel.row };
        proof {
            lemma_problem_views_push(problems@, p);
        }
        problems.push(p);
    }
    assert(problem_views(problems@) =~= start + layout_problems(scenario@, *layout));
}

// ---------------------------------------------------------------------------
// What the scenario refers to.

/// The economy defines commodity `c`.
pub open spec fn commodity_known(economy: ValidatedEconomy, c: Seq<char>) -> bool {
    has_key(economy.commodities_by_id@, c)
}

/// Some region of the economy has id `r`.
pub open spec fn region_known(regions: Seq<RegionProfile>, r: Seq<char>) -> bool {
    exists|i: int| 0 <= i < regions.len() && #[trigger] regions[i].id@ == r
}

/// The problem of a reference to commodity `c`, if the economy does not define it.
pub open spec fn commodity_problem(scenario: Seq<char>, economy: ValidatedEconomy, c: Seq<char>) -> Seq<ProblemView> {
    if !commodity_known(economy, c) {
        seq![ProblemView::UnknownCommodity { scenario, commodity: c }]
    } else {
        Seq::empty()
    }
}

/// The problems of the starting inventory, in order.
pub open spec fn inventory_problems(
    scenario: Seq<char>,
    economy: ValidatedEconomy,
    qs: Seq<Quantity>,
) -> Seq<ProblemView>
    decreases qs.len(),
{
    if qs.len() == 0 {
        Seq::empty()
    } else {
        inventory_problems(scenario, economy, qs.drop_last()) + commodity_problem(
            scenario,
            economy,
            qs.last().commodity@,
        )
    }
}

/// The problems of the win conditions, in order.
pub open spec fn win_problems(
    scenario: Seq<char>,
    economy: ValidatedEconomy,
    ws: Seq<WinCondition>,
) -> Seq<ProblemView>
    decreases ws.len(),
{
    if ws.len() == 0 {
        Seq::empty()
    } else {
        win_problems(scenario, economy, ws.drop_last()) + commodity_problem(scenario, economy, ws.last().commodity@)
    }
}

/// The texts of a list of strings.
pub open spec fn texts(s: Seq<String>) -> Seq<Seq<char>> {
    s.map_values(|k: String| k@)
}

/// The problems of one build option: an unknown facility, an unknown
/// recipe, unknown tile kinds, an unknown transported commodity.
pub open spec fn option_problems(scenario: Seq<char>, economy: ValidatedEconomy, o: BuildOption) -> Seq<ProblemView> {
    (if !has_key(economy.facilities_by_id@, o.facility@) {
        seq![ProblemView::UnknownFacility { scenario, facility: o.facility@ }]
    } else {
        Seq::empty()
    }) + (match o.active_recipe {
        Some(r) => if !has_key(economy.recipe_book@, r@) {
            seq![ProblemView::UnknownRecipe { scenario, recipe: r@ }]
        } else {
            Seq::empty()
        },
        None => Seq::empty(),
    }) + unknown_kinds(scenario, texts(o.allowed_tile_kinds@)) + (match o.transport_output {
        Some(c) => commodity_problem(scenario, economy, c@),
        None => Seq::empty(),
    })
}

/// The problems of the build options, in order.
pub open spec fn options_problems(
    scenario: Seq<char>,
    economy: ValidatedEconomy,
    os: Seq<BuildOption>,
) -> Seq<ProblemView>
    decreases os.len(),
{
    if os.len() == 0 {
        Seq::empty()
    } else {
        options_problems(scenario, economy, os.drop_last()) + option_problems(scenario, economy, os.last())
    }
}

/// Every problem of a scenario, in the order the checker finds them: the
/// map layout, the region, the starting inventory, the win conditions, and
/// the build options.
#[verifier::opaque]
pub open spec fn scenario_problem_list(economy: ValidatedEconomy, s: Scenario) -> Seq<ProblemView> {
    let id = s.id@;
    layout_problems(id, s.map_layout) + (if !region_known(economy.canonical.regions@, s.region@) {
        seq![ProblemView::UnknownRegion { scenario: id, region: s.region@ }]
    } else {
        Seq::empty()
    }) + inventory_problems(id, economy, s.starting_inventory@) + win_problems(id, economy, s.win_conditions@)
        + options_problems(id, economy, s.build_options@)
}

/// Appends the problem of a reference to `commodity`, if the economy does
/// not define it.
fn check_commodity(
    scenario: &String,
    economy: &ValidatedEconomy,
    commodity: &CommodityId,
    problems: &mut Vec<ScenarioProblem>,
)
    ensures
        problem_views(final(problems)@) == problem_views(old(problems)@) + commodity_problem(
            scenario@,
            *economy,
            commodity@,
        ),
{
    let ghost start = problem_views(problems@);
    if !economy.commodities_by_id.contains_key(commodity.as_str()) {
        let p = ScenarioProblem::UnknownCommodity { scenario: scenario.clone(), commodity: commodity.clone() };
        proof {
            lemma_problem_views_push(problems@, p);
        }
        problems.push(p);
    }
    assert(problem_views(problems@) =~= start + commodity_problem(scenario@, *economy, commodity@));
}

/// Appends the problems of a list of tile kinds.
fn check_tile_kinds(scenario: &String, kinds: &Vec<String>, problems: &mut Vec<ScenarioProblem>)
    ensures
        problem_views(final(problems)@) == problem_views(old(problems)@) + unknown_kinds(scenario@, texts(kinds@)),
{
    let ghost start = problem_views(problems@);
    let mut i: usize = 0;
    assert(start + unknown_kinds(scenario@, texts(kinds@.subrange(0, 0))) =~= start);
    while i < kinds.len()
        invariant
            i <= kinds@.len(),
            problem_views(problems@) == start + unknown_kinds(scenario@, texts(kinds@.subrange(0, i as int))),
        decreases kinds@.len() - i,
    {
        proof {
            assert(texts(kinds@.subrange(0, i + 1)).drop_last() =~= texts(kinds@.subrange(0, i as int)));
            assert(texts(kinds@.subrange(0, i + 1)).last() == kinds@[i as int]@);
        }
        if !is_known_tile_kind(kinds[i].as_str()) {
            let p = ScenarioProblem::UnknownTileKind { scenario: scenario.clone(), kind: kinds[i].clone() };
            proof {
                lemma_problem_views_push(problems@, p);
            }
            problems.push(p);
        }
        i = i + 1;
    }
    assert(kinds@.subrange(0, i as int) =~= kinds@);
}

/// Appends the problems of one build option.
fn check_option(
    scenario: &String,
    economy: &ValidatedEconomy,
    option: &BuildOption,
    problems: &mut Vec<ScenarioProblem>,
)
    ensures
        problem_views(final(problems)@) == problem_views(old(problems)@) + option_problems(
            scenario@,
            *economy,
            *option,
        ),
{
    let ghost start = problem_views(problems@);
    if !economy.facilities_by_id.contains_key(option.facility.as_str()) {
        let p = ScenarioProblem::UnknownFacility { scenario: scenario.clone(), facility: option.facility.clone() };
        proof {
            lemma_problem_views_push(problems@, p);
        }
        problems.push(p);
    }
    let ghost after_facility = problem_views(problems@);
    match &option.active_recipe {
        Some(recipe) => {
            if !economy.recipe_book.contains(recipe) {
                let p = ScenarioProblem::UnknownRecipe { scenario: scenario.clone(), recipe: recipe.clone() };
                proof {
                    lemma_problem_views_push(problems@, p);
                }
                problems.push(p);
            }
        },
        None => {},
    }
    let ghost after_recipe = problem_views(problems@);
    check_tile_kinds(scenario, &option.allowed_tile_kinds, problems);
    let ghost after_kinds = problem_views(problems@);
    match &option.transport_output {
        Some(c) => check_commodity(scenario, economy, c, problems),
        None => {},
    }
    assert(problem_views(problems@) =~= start + option_problems(scenario@, *economy, *option));
}

/// Every problem of a scenario, in the order they are found: the map
/// layout, the region, the starting inventory, the win conditions, and the
/// build options.
pub fn scenario_problems(economy: &ValidatedEconomy, scenario: &Scenario) -> (problems: Vec<ScenarioProblem>)
    ensures
        problem_views(problems@) == scenario_problem_list(*economy, *scenario),
{
    let mut problems: Vec<ScenarioProblem> = Vec::new();
    let id = &scenario.id;
    assert(problem_views(problems@) =~= Seq::<ProblemView>::empty());
    check_layout(id, &scenario.map_layout, &mut problems);
    let ghost after_layout = problem_views(problems@);
    let regions = &economy.canonical.regions;
    let mut known = false;
    let mut i: usize = 0;
    while i < regions.len()
        invariant
            i <= regions@.len(),
            known == exists|j: int| 0 <= j < i && #[trigger] regions@[j].id@ == scenario.region@,
        decreases regions@.len() - i,
    {
        if regions[i].id == scenario.region {
            known = true;
        }
        i = i + 1;
    }
    if !known {
        let p = ScenarioProblem::UnknownRegion { scenario: id.clone(), region: scenario.region.clone() };
        proof {
            lemma_problem_views_push(problems@, p);
        }
        problems.push(p);
    }
    let ghost after_region = problem_views(problems@);
    assert(after_region =~= after_layout + (if !region_known(economy.canonical.regions@, scenario.region@) {
        seq![ProblemView::UnknownRegion { scenario: id@, region: scenario.region@ }]
    } else {
        Seq::empty()
    }));

    let qs = &scenario.starting_inventory;
    let mut i: usize = 0;
    assert(after_region + inventory_problems(id@, *economy, qs@.subrange(0, 0)) =~= after_region);
    while i < qs.len()
        invariant
            i <= qs@.len(),
            problem_views(problems@) == after_region + inventory_problems(id@, *economy, qs@.subrange(0, i as int)),
        decreases qs@.len() - i,
    {
        assert(qs@.subrange(0, i + 1).drop_last() =~= qs@.subrange(0, i as int));
        check_commodity(id, economy, &qs[i].commodity, &mut problems);
        i = i + 1;
    }
    assert(qs@.subrange(0, i as int) =~= qs@);
    let ghost after_inventory = problem_views(problems@);

    let ws = &scenario.win_conditions;
    let mut i: usize = 0;
    assert(after_inventory + win_problems(id@, *economy, ws@.subrange(0, 0)) =~= after_inventory);
    while i < ws.len()
        invariant
            i <= ws@.len(),
            problem_views(problems@) == after_inventory + win_problems(id@, *economy, ws@.subrange(0, i as int)),
        decreases ws@.len() - i,
    {
        assert(ws@.subrange(0, i + 1).drop_last() =~= ws@.subrange(0, i as int));
        check_commodity(id, economy, &ws[i].commodity, &mut problems);
        i = i + 1;
    }
    assert(ws@.subrange(0, i as int) =~= ws@);
    let ghost after_wins = problem_views(problems@);

    let os = &scenario.build_options;
    let mut i: usize = 0;
    assert(after_wins + options_problems(id@, *economy, os@.subrange(0, 0)) =~= after_wins);
    while i < os.len()
        invariant
            i <= os@.len(),
            problem_views(problems@) == after_wins + options_problems(id@, *economy, os@.subrange(0, i as int)),
        decreases os@.len() - i,
    {
        assert(os@.subrange(0, i + 1).drop_last() =~= os@.subrange(0, i as int));
        check_option(id, economy, &os[i], &mut problems);
        i = i + 1;
    }
    assert(os@.subrange(0, i as int) =~= os@);
    assert(problem_views(problems@) =~= scenario_problem_list(*economy, *scenario)) by {
        reveal(scenario_problem_list);
    }
    problems
}

/// The problems of every scenario, scenario by scenario.
pub open spec fn scenarios_problem_list(economy: ValidatedEconomy, scenarios: Seq<Scenario>) -> Seq<ProblemView>
    decreases scenarios.len(),
{
    if scenarios.len() == 0 {
        Seq::empty()
    } else {
        scenarios_problem_list(economy, scenarios.drop_last()) + scenario_problem_list(economy, scenarios.last())
    }
}

/// Checks every scenario against the economy; the list is empty exactly
/// when every scenario is sound.
pub fn check_scenarios(economy: &ValidatedEconomy, scenarios: &[Scenario]) -> (problems: Vec<ScenarioProblem>)
    ensures
        problem_views(problems@) == scenarios_problem_list(*economy, scenarios@),
{
    let mut problems: Vec<ScenarioProblem> = Vec::new();
    let mut i: usize = 0;
    assert(problem_views(problems@) =~= scenarios_problem_list(*economy, scenarios@.subrange(0, 0)));
    while i < scenarios.len()
        invariant
            i <= scenarios@.len(),
            problem_views(problems@) == scenarios_problem_list(*economy, scenarios@.subrange(0, i as int)),
        decreases scenarios@.len() - i,
    {
        assert(scenarios@.subrange(0, i + 1).drop_last() =~= scenarios@.subrange(0, i as int));
        let ghost before = problem_views(problems@);
        let mut found = scenario_problems(economy, &scenarios[i]);
        let ghost more = problem_views(found@);
        problems.append(&mut found);
        assert(problem_views(problems@) =~= before + more);
        i = i + 1;
    }
    assert(scenarios@.subrange(0, i as int) =~= scenarios@);
    problems
}

/// No problem is reported for a list of scenarios exactly when none is
/// reported for any one of them.
pub proof fn lemma_no_problems_iff_each_sound(economy: ValidatedEconomy, scenarios: Seq<Scenario>)
    ensures
        scenarios_problem_list(economy, scenarios).len() == 0 <==> forall|i: int|
            0 <= i < scenarios.len() ==> #[trigger] scenario_problem_list(economy, scenarios[i]).len() == 0,
    decreases scenarios.len(),
{
    if scenarios.len() > 0 {
        let rest = scenarios.drop_last();
        lemma_no_problems_iff_each_sound(economy, rest);
        if scenarios_problem_list(economy, scenarios).len() == 0 {
            assert forall|i: int| 0 <= i < scenarios.len() implies #[trigger] scenario_problem_list(
                economy,
                scenarios[i],
            ).len() == 0 by {
                if i < rest.len() {
                    assert(rest[i] == scenarios[i]);
                }
            }
        } else if forall|i: int| 0 <= i < scenarios.len() ==> #[trigger] scenario_problem_list(economy, scenarios[i]).len()
            == 0 {
            assert forall|i: int| 0 <= i < rest.len() implies #[trigger] scenario_problem_list(economy, rest[i]).len()
                == 0 by {
                assert(rest[i] == scenarios[i]);
            }
            assert(scenario_problem_list(economy, scenarios[scenarios.len() - 1]).len() == 0);
        }
    }
}

/// The validated economy together with its scenarios.
#[derive(Debug)]
pub struct ValidatedData {
    pub economy: ValidatedEconomy,
    pub scenarios: Vec<Scenario>,
}

/// Why the canonical data was refused: the economy itself is invalid, or
/// the economy is valid and some scenario is not.
#[derive(Debug)]
pub enum DataProblems {
    Economy(ValidationReport),
    Scenarios { economy: ValidatedEconomy, problems: Vec<ScenarioProblem> },
}

/// Validates the canonical economy and then its scenarios against it. The
/// data is accepted exactly when the economy has no problem and no scenario
/// has one; a refusal lists every problem of the first stage that has some.
pub fn validate_with_scenarios(economy: CanonicalEconomy, scenarios: Vec<Scenario>) -> (r: Result<
    ValidatedData,
    DataProblems,
>)
    ensures
        match r {
            Ok(d) => {
                &&& canonical_errors(economy).len() == 0
                &&& d.economy.canonical == economy
                &&& commodities_indexed(economy.commodities@, d.economy.commodities_by_id@)
                &&& facilities_indexed(economy.facilities@, d.economy.facilities_by_id@)
                &&& book_of(economy.recipes@, d.economy.recipe_book@)
                &&& d.scenarios@ == scenarios@
                &&& scenarios_problem_list(d.economy, scenarios@).len() == 0
            },
            Err(DataProblems::Economy(report)) => {
                &&& canonical_errors(economy).len() > 0
                &&& views(report.errors@) == canonical_errors(economy)
            },
            Err(DataProblems::Scenarios { economy: v, problems }) => {
                &&& canonical_errors(economy).len() == 0
                &&& v.canonical == economy
                &&& commodities_indexed(economy.commodities@, v.commodities_by_id@)
                &&& facilities_indexed(economy.facilities@, v.facilities_by_id@)
                &&& book_of(economy.recipes@, v.recipe_book@)
                &&& problems@.len() > 0
                &&& problem_views(problems@) == scenarios_problem_list(v, scenarios@)
            },
        },
{
    match validate_canonical(economy) {
        Err(report) => Err(DataProblems::Economy(report)),
        Ok(v) => {
            let problems = check_scenarios(&v, scenarios.as_slice());
            if problems.len() > 0 {
                Err(DataProblems::Scenarios { economy: v, problems })
            } else {
                Ok(ValidatedData { economy: v, scenarios })
            }
        },
    }
}

} // verus!
