//! The inspector's recipe report.
//!
//! Quantities are `f64` values, which the report shows with one decimal
//! (`{:.1}`), and whether a recipe is blocked depends on `f64` stock; the
//! caller formats the quantities and the blockers and hands the texts in.

use vstd::prelude::*;
use crate::catalog::lookup;
use crate::ids::RecipeId;
use crate::inspect::{commodity_label, display_commodity};
use crate::recipe::{Recipe, Stack};
use crate::text::{decimal, push_decimal, push_str};
use crate::validate::ValidatedEconomy;

verus! {

/// The recipe with id `recipe_id`, or the error that names the unknown id.
pub fn find_recipe<'a>(economy: &'a ValidatedEconomy, recipe_id: &RecipeId) -> (r: Result<&'a Recipe, String>)
    ensures
        match r {
            Ok(recipe) => lookup(economy.recipe_book@, recipe_id@) == Some(*recipe),
            Err(m) => lookup(economy.recipe_book@, recipe_id@) is None && m@ == "unknown recipe "@ + recipe_id@,
        },
{
    match economy.recipe_book.get(recipe_id) {
        Some(recipe) => Ok(recipe),
        None => {
            let mut m = String::new();
            push_str(&mut m, "unknown recipe ");
            push_str(&mut m, recipe_id.as_str());
            Err(m)
        },
    }
}

/// The lines `- <commodity>: <qty>` of a list of stacks.
pub open spec fn stack_lines(economy: ValidatedEconomy, stacks: Seq<Stack>, qty_texts: Seq<Seq<char>>) -> Seq<char>
    decreases stacks.len(),
{
    if stacks.len() == 0 {
        Seq::empty()
    } else {
        let i = stacks.len() - 1;
        stack_lines(economy, stacks.drop_last(), qty_texts) + "- "@ + commodity_label(economy, stacks[i].commodity@)
            + ": "@ + qty_texts[i] + "\n"@
    }
}

/// A labelled list of stacks, or `- none`.
pub open spec fn stack_block(
    economy: ValidatedEconomy,
    label: Seq<char>,
    stacks: Seq<Stack>,
    qty_texts: Seq<Seq<char>>,
) -> Seq<char> {
    "\n"@ + label + "\n"@ + if stacks.len() == 0 {
        "- none"@ + "\n"@
    } else {
        stack_lines(economy, stacks, qty_texts)
    }
}

/// The lines `- <blocker>`.
pub open spec fn blocker_lines(blockers: Seq<Seq<char>>) -> Seq<char>
    decreases blockers.len(),
{
    if blockers.len() == 0 {
        Seq::empty()
    } else {
        blocker_lines(blockers.drop_last()) + "- "@ + blockers.last() + "\n"@
    }
}

/// The recipe report: id, duration, inputs, outputs, byproducts, and what
/// blocks the recipe against a scenario's starting inventory.
pub open spec fn recipe_text(
    economy: ValidatedEconomy,
    recipe: Recipe,
    input_texts: Seq<Seq<char>>,
    output_texts: Seq<Seq<char>>,
    byproduct_texts: Seq<Seq<char>>,
    blockers: Seq<Seq<char>>,
) -> Seq<char> {
    "Recipe: "@ + recipe.id@ + "\n"@ + "duration: "@ + decimal(recipe.duration_ticks as nat) + " ticks"@ + "\n"@
        + stack_block(economy, "Inputs"@, recipe.inputs@, input_texts) + stack_block(
        economy,
        "Outputs"@,
        recipe.outputs@,
        output_texts,
    ) + stack_block(economy, "Byproducts"@, recipe.byproducts@, byproduct_texts) + "\n"@
        + "Blocked Against Scenario Starting Inventory"@ + "\n"@ + if blockers.len() == 0 {
        "- ready"@ + "\n"@
    } else {
        blocker_lines(blockers)
    }
}

/// The texts of a list of strings.
pub open spec fn string_texts(s: Seq<String>) -> Seq<Seq<char>> {
    s.map_values(|t: String| t@)
}

/// Appends a labelled list of stacks.
fn push_stack_block(
    output: &mut String,
    economy: &ValidatedEconomy,
    label: &str,
    stacks: &Vec<Stack>,
    qty_texts: &Vec<String>,
)
    requires
        qty_texts@.len() == stacks@.len(),
    ensures
        final(output)@ == old(output)@ + stack_block(*economy, label@, stacks@, string_texts(qty_texts@)),
{
    let ghost start = output@;
    let ghost texts = string_texts(qty_texts@);
    push_str(output, "\n");
    push_str(output, label);
    push_str(output, "\n");
    if stacks.len() == 0 {
        push_str(output, "- none");
        push_str(output, "\n");
    } else {
        let ghost head = output@;
        let mut i: usize = 0;
        assert(head + stack_lines(*economy, stacks@.subrange(0, 0), texts) =~= head);
        while i < stacks.len()
            invariant
                i <= stacks@.len(),
                qty_texts@.len() == stacks@.len(),
                texts == string_texts(qty_texts@),
                output@ == head + stack_lines(*economy, stacks@.subrange(0, i as int), texts),
            decreases stacks@.len() - i,
        {
            let ghost upto = stacks@.subrange(0, i + 1);
            assert(upto.drop_last() =~= stacks@.subrange(0, i as int));
            assert(upto[i as int] == stacks@[i as int]);
            push_str(output, "- ");
            let commodity_text = display_commodity(economy, &stacks[i].commodity);
            push_str(output, commodity_text.as_str());
            push_str(output, ": ");
            push_str(output, qty_texts[i].as_str());
            push_str(output, "\n");
            assert(output@ =~= head + stack_lines(*economy, upto, texts));
            i = i + 1;
        }
        assert(stacks@.subrange(0, i as int) =~= stacks@);
    }
    assert(output@ =~= start + stack_block(*economy, label@, stacks@, texts));
}

/// The recipe report; the quantity texts are those of the recipe's inputs,
/// outputs and byproducts, already written with one decimal, and the
/// blocker texts say what keeps the recipe from running.
pub fn describe_recipe(
    economy: &ValidatedEconomy,
    recipe: &Recipe,
    input_texts: &Vec<String>,
    output_texts: &Vec<String>,
    byproduct_texts: &Vec<String>,
    blockers: &Vec<String>,
) -> (output: String)
    requires
        input_texts@.len() == recipe.inputs@.len(),
        output_texts@.len() == recipe.outputs@.len(),
        byproduct_texts@.len() == recipe.byproducts@.len(),
    ensures
        output@ == recipe_text(
            *economy,
            *recipe,
            string_texts(input_texts@),
            string_texts(output_texts@),
            string_texts(byproduct_texts@),
            string_texts(blockers@),
        ),
{
    let mut output = String::new();
    push_str(&mut output, "Recipe: ");
    push_str(&mut output, recipe.id.as_str());
    push_str(&mut output, "\n");
    push_str(&mut output, "duration: ");
    push_decimal(&mut output, recipe.duration_ticks as u64);
    push_str(&mut output, " ticks");
    push_str(&mut output, "\n");
    push_stack_block(&mut output, economy, "Inputs", &recipe.inputs, input_texts);
    push_stack_block(&mut output, economy, "Outputs", &recipe.outputs, output_texts);
    push_stack_block(&mut output, economy, "Byproducts", &recipe.byproducts, byproduct_texts);
    push_str(&mut output, "\n");
    push_str(&mut output, "Blocked Against Scenario Starting Inventory");
    push_str(&mut output, "\n");
    let ghost head = output@;
    let ghost texts = string_texts(blockers@);
    if blockers.len() == 0 {
        push_str(&mut output, "- ready");
        push_str(&mut output, "\n");
    } else {
        let mut i: usize = 0;
        assert(head + blocker_lines(texts.subrange(0, 0)) =~= head);
        while i < blockers.len()
            invariant
                i <= blockers@.len(),
                texts == string_texts(blockers@),
                output@ == head + blocker_lines(texts.subrange(0, i as int)),
            decreases blockers@.len() - i,
        {
            let ghost upto = texts.subrange(0, i + 1);
            assert(upto.drop_last() =~= texts.subrange(0, i as int));
            assert(upto.last() == blockers@[i as int]@);
            push_str(&mut output, "- ");
            push_str(&mut output, blockers[i].as_str());
            push_str(&mut output, "\n");
            assert(output@ =~= head + blocker_lines(upto));
            i = i + 1;
        }
        assert(texts.subrange(0, i as int) =~= texts);
    }
    assert(output@ =~= recipe_text(
        *economy,
        *recipe,
        string_texts(input_texts@),
        string_texts(output_texts@),
        string_texts(byproduct_texts@),
        texts,
    ));
    output
}

} // verus!
