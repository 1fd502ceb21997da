//! The inspector's scenario report.
//!
//! Quantities are `f64` values, which the report shows with one decimal
//! (`{:.1}`); the caller formats them and hands the texts in, one per
//! starting-inventory entry and one per win condition.

use vstd::prelude::*;
use crate::data::Quantity;
use crate::inspect::{commodity_label, display_commodity, map_width};
use crate::scenario::{BuildOption, Scenario, WinCondition, WinMetric};
use crate::text::{decimal, push_decimal, push_str};
use crate::validate::ValidatedEconomy;

verus! {

/// The name of a win metric, as `{:?}` writes it.
pub open spec fn metric_name(metric: WinMetric) -> Seq<char> {
    match metric {
        WinMetric::ProducedTotal => "ProducedTotal"@,
        WinMetric::CurrentInventory => "CurrentInventory"@,
    }
}

/// The lines `- <commodity>: <qty>` of the starting inventory.
pub open spec fn inventory_lines(
    economy: ValidatedEconomy,
    qs: Seq<Quantity>,
    qty_texts: Seq<Seq<char>>,
) -> Seq<char>
    decreases qs.len(),
{
    if qs.len() == 0 {
        Seq::empty()
    } else {
        let i = qs.len() - 1;
        inventory_lines(economy, qs.drop_last(), qty_texts) + "- "@ + commodity_label(economy, qs[i].commodity@)
            + ": "@ + qty_texts[i] + "\n"@
    }
}

/// The lines `- <commodity>: <qty> (<metric>)` of the win conditions.
pub open spec fn win_lines(economy: ValidatedEconomy, ws: Seq<WinCondition>, qty_texts: Seq<Seq<char>>) -> Seq<char>
    decreases ws.len(),
{
    if ws.len() == 0 {
        Seq::empty()
    } else {
        let i = ws.len() - 1;
        win_lines(economy, ws.drop_last(), qty_texts) + "- "@ + commodity_label(economy, ws[i].commodity@) + ": "@
            + qty_texts[i] + " ("@ + metric_name(ws[i].metric) + ")"@ + "\n"@
    }
}

/// The texts joined with `, `.
pub open spec fn joined(texts: Seq<Seq<char>>) -> Seq<char>
    decreases texts.len(),
{
    if texts.len() == 0 {
        Seq::empty()
    } else if texts.len() == 1 {
        texts[0]
    } else {
        joined(texts.drop_last()) + ", "@ + texts.last()
    }
}

/// The line of one build option: its key, label, recipe, allowed tile
/// kinds and routed output.
pub open spec fn option_line(economy: ValidatedEconomy, o: BuildOption) -> Seq<char> {
    let recipe = match o.active_recipe {
        Some(r) => r@,
        None => "none"@,
    };
    let transport = match o.transport_output {
        Some(c) => commodity_label(economy, c@),
        None => "none"@,
    };
    "- "@ + o.key@ + ": "@ + o.label@ + " -> "@ + recipe + " on ["@ + joined(
        o.allowed_tile_kinds@.map_values(|k: String| k@),
    ) + "], output route: "@ + transport + "\n"@
}

/// The lines of the build options.
pub open spec fn option_lines(economy: ValidatedEconomy, os: Seq<BuildOption>) -> Seq<char>
    decreases os.len(),
{
    if os.len() == 0 {
        Seq::empty()
    } else {
        option_lines(economy, os.drop_last()) + option_line(economy, os.last())
    }
}

/// The scenario report: name, id, region, map size and selection, then the
/// starting inventory, the win conditions and the build options.
pub open spec fn scenario_text(
    economy: ValidatedEconomy,
    s: Scenario,
    inventory_texts: Seq<Seq<char>>,
    win_texts: Seq<Seq<char>>,
) -> Seq<char> {
    let rows = s.map_layout.kind_rows@;
    let sel = s.map_layout.initial_selected;
    "Scenario: "@ + s.display_name@ + "\n"@ + "id: "@ + s.id@ + "\n"@ + "region: "@ + s.region@ + "\n"@ + "map: "@
        + decimal(map_width(rows)) + "x"@ + decimal(rows.len()) + " tiles, initial selection "@ + decimal(
        sel.col as nat,
    ) + ","@ + decimal(sel.row as nat) + "\n"@ + "\n"@ + "Starting Inventory"@ + "\n"@ + inventory_lines(
        economy,
        s.starting_inventory@,
        inventory_texts,
    ) + "\n"@ + "Win Conditions"@ + "\n"@ + win_lines(economy, s.win_conditions@, win_texts) + "\n"@
        + "Build Options"@ + "\n"@ + option_lines(economy, s.build_options@)
}

/// Appends the texts joined with `, `.
fn push_joined(output: &mut String, texts: &Vec<String>)
    ensures
        final(output)@ == old(output)@ + joined(texts@.map_values(|k: String| k@)),
{
    let ghost start = output@;
    let ghost all = texts@.map_values(|k: String| k@);
    let mut i: usize = 0;
    assert(all.subrange(0, 0) =~= Seq::<Seq<char>>::empty());
    while i < texts.len()
        invariant
            i <= texts@.len(),
            all == texts@.map_values(|k: String| k@),
            output@ == start + joined(all.subrange(0, i as int)),
        decreases texts@.len() - i,
    {
        let ghost upto = all.subrange(0, i + 1);
        assert(upto.drop_last() =~= all.subrange(0, i as int));
        assert(upto.last() == texts@[i as int]@);
        if i > 0 {
            push_str(output, ", ");
        } else {
            assert(upto =~= seq![texts@[0]@]);
        }
        push_str(output, texts[i].as_str());
        assert(output@ =~= start + joined(upto));
        i = i + 1;
    }
    assert(all.subrange(0, i as int) =~= all);
}

/// Appends the line of one build option.
fn push_option_line(output: &mut String, economy: &ValidatedEconomy, option: &BuildOption)
    ensures
        final(output)@ == old(output)@ + option_line(*economy, *option),
{
    let ghost start = output@;
    push_str(output, "- ");
    push_str(output, option.key.as_str());
    push_str(output, ": ");
    push_str(output, option.label.as_str());
    push_str(output, " -> ");
    match &option.active_recipe {
        Some(r) => push_str(output, r.as_str()),
        None => push_str(output, "none"),
    }
    push_str(output, " on [");
    push_joined(output, &option.allowed_tile_kinds);
    push_str(output, "], output route: ");
    match &option.transport_output {
        Some(c) => {
            let label = display_commodity(economy, c);
            push_str(output, label.as_str());
        },
        None => push_str(output, "none"),
    }
    push_str(output, "\n");
    assert(output@ =~= start + option_line(*economy, *option));
}

/// The scenario report; `inventory_texts` and `win_texts` are the
/// quantities of the starting inventory and of the win conditions, each
/// already written with one decimal.
pub fn describe_scenario(
    economy: &ValidatedEconomy,
    scenario: &Scenario,
    inventory_texts: &Vec<String>,
    win_texts: &Vec<String>,
) -> (output: String)
    requires
        inventory_texts@.len() == scenario.starting_inventory@.len(),
        win_texts@.len() == scenario.win_conditions@.len(),
    ensures
        output@ == scenario_text(
            *economy,
            *scenario,
            inventory_texts@.map_values(|t: String| t@),
            win_texts@.map_values(|t: String| t@),
        ),
{
    let ghost inv = inventory_texts@.map_values(|t: String| t@);
    let ghost wins = win_texts@.map_values(|t: String| t@);
    let rows = &scenario.map_layout.kind_rows;
    let sel = scenario.map_layout.initial_selected;
    let mut output = String::new();
    push_str(&mut output, "Scenario: ");
    push_str(&mut output, scenario.display_name.as_str());
    push_str(&mut output, "\n");
    push_str(&mut output, "id: ");
    push_str(&mut output, scenario.id.as_str());
    push_str(&mut output, "\n");
    push_str(&mut output, "region: ");
    push_str(&mut output, scenario.region.as_str());
    push_str(&mut output, "\n");
    let width: usize = if rows.len() > 0 {
        rows[0].len()
    } else {
        0
    };
    push_str(&mut output, "map: ");
    push_decimal(&mut output, width as u64);
    push_str(&mut output, "x");
    push_decimal(&mut output, rows.len() as u64);
    push_str(&mut output, " tiles, initial selection ");
    push_decimal(&mut output, sel.col as u64);
    push_str(&mut output, ",");
    push_decimal(&mut output, sel.row as u64);
    push_str(&mut output, "\n");
    push_str(&mut output, "\n");
    push_str(&mut output, "Starting Inventory");
    push_str(&mut output, "\n");

    let qs = &scenario.starting_inventory;
    let ghost head = output@;
    let mut i: usize = 0;
    assert(head + inventory_lines(*economy, qs@.subrange(0, 0), inv) =~= head);
    while i < qs.len()
        invariant
            i <= qs@.len(),
            inv == inventory_texts@.map_values(|t: String| t@),
            inventory_texts@.len() == qs@.len(),
            output@ == head + inventory_lines(*economy, qs@.subrange(0, i as int), inv),
        decreases qs@.len() - i,
    {
        let ghost upto = qs@.subrange(0, i + 1);
        assert(upto.drop_last() =~= qs@.subrange(0, i as int));
        assert(upto[i as int] == qs@[i as int]);
        push_str(&mut output, "- ");
        let label = display_commodity(economy, &qs[i].commodity);
        push_str(&mut output, label.as_str());
        push_str(&mut output, ": ");
        push_str(&mut output, inventory_texts[i].as_str());
        push_str(&mut output, "\n");
        assert(output@ =~= head + inventory_lines(*economy, upto, inv));
        i = i + 1;
    }
    assert(qs@.subrange(0, i as int) =~= qs@);

    push_str(&mut output, "\n");
    push_str(&mut output, "Win Conditions");
    push_str(&mut output, "\n");
    let ws = &scenario.win_conditions;
    let ghost head = output@;
    let mut i: usize = 0;
    assert(head + win_lines(*economy, ws@.subrange(0, 0), wins) =~= head);
    while i < ws.len()
        invariant
            i <= ws@.len(),
            wins == win_texts@.map_values(|t: String| t@),
            win_texts@.len() == ws@.len(),
            output@ == head + win_lines(*economy, ws@.subrange(0, i as int), wins),
        decreases ws@.len() - i,
    {
        let ghost upto = ws@.subrange(0, i + 1);
        assert(upto.drop_last() =~= ws@.subrange(0, i as int));
        assert(upto[i as int] == ws@[i as int]);
        push_str(&mut output, "- ");
        let label = display_commodity(economy, &ws[i].commodity);
        push_str(&mut output, label.as_str());
        push_str(&mut output, ": ");
        push_str(&mut output, win_texts[i].as_str());
        push_str(&mut output, " (");
        match ws[i].metric {
            WinMetric::ProducedTotal => push_str(&mut output, "ProducedTotal"),
            WinMetric::CurrentInventory => push_str(&mut output, "CurrentInventory"),
        }
        push_str(&mut output, ")");
        push_str(&mut output, "\n");
        assert(output@ =~= head + win_lines(*economy, upto, wins));
        i = i + 1;
    }
    assert(ws@.subrange(0, i as int) =~= ws@);

    push_str(&mut output, "\n");
    push_str(&mut output, "Build Options");
    push_str(&mut output, "\n");
    let os = &scenario.build_options;
    let ghost head = output@;
    let mut i: usize = 0;
    assert(head + option_lines(*economy, os@.subrange(0, 0)) =~= head);
    while i < os.len()
        invariant
            i <= os@.len(),
            output@ == head + option_lines(*economy, os@.subrange(0, i as int)),
        decreases os@.len() - i,
    {
        let ghost upto = os@.subrange(0, i + 1);
        assert(upto.drop_last() =~= os@.subrange(0, i as int));
        push_option_line(&mut output, economy, &os[i]);
        assert(output@ =~= head + option_lines(*economy, upto));
        i = i + 1;
    }
    assert(os@.subrange(0, i as int) =~= os@);
    assert(output@ =~= scenario_text(*economy, *scenario, inv, wins));
    output
}

} // verus!
