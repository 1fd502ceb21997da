//! The recipe graph: which recipes make, need or leave over a commodity.

use vstd::prelude::*;
use crate::ids::{CommodityId, RecipeId};
use crate::qty::Qty;
use crate::recipe::{Recipe, RecipeBook, Stack};

verus! {

/// The recipes linked to one commodity, each list in recipe-id order.
#[derive(Clone, Debug, PartialEq)]
pub struct CommodityRecipeLinks {
    pub commodity: CommodityId,
    pub produced_by: Vec<RecipeId>,
    pub required_by: Vec<RecipeId>,
    pub byproduct_of: Vec<RecipeId>,
}

/// Why a recipe cannot run.
#[derive(Clone, Debug, PartialEq)]
pub enum BlockReason {
    MissingInput { commodity: CommodityId, required: Qty, available: Qty },
    MissingRecipe(RecipeId),
}

/// Which list of a recipe a commodity is looked for in.
pub enum RecipePart {
    Inputs,
    Outputs,
    Byproducts,
}

/// The stacks of one part of a recipe.
pub open spec fn part_of(recipe: Recipe, part: RecipePart) -> Seq<Stack> {
    match part {
        RecipePart::Inputs => recipe.inputs@,
        RecipePart::Outputs => recipe.outputs@,
        RecipePart::Byproducts => recipe.byproducts@,
    }
}

/// Some stack of `stacks` is of commodity `c`.
pub open spec fn mentions(stacks: Seq<Stack>, c: Seq<char>) -> bool {
    exists|i: int| 0 <= i < stacks.len() && #[trigger] stacks[i].commodity@ == c
}

/// The ids, in order, of the recipes of `recipes` whose `part` mentions `c`.
pub open spec fn linked_ids(recipes: Seq<Recipe>, c: Seq<char>, part: RecipePart) -> Seq<Seq<char>>
    decreases recipes.len(),
{
    if recipes.len() == 0 {
        Seq::empty()
    } else {
        let rest = linked_ids(recipes.drop_last(), c, part);
        if mentions(part_of(recipes.last(), part), c) {
            rest.push(recipes.last().id@)
        } else {
            rest
        }
    }
}

/// The texts of a list of recipe ids.
pub open spec fn id_texts(ids: Seq<RecipeId>) -> Seq<Seq<char>> {
    ids.map_values(|id: RecipeId| id@)
}

/// Whether some stack is of commodity `c`.
fn stacks_mention(stacks: &Vec<Stack>, c: &CommodityId) -> (b: bool)
    ensures
        b == mentions(stacks@, c@),
{
    let mut i: usize = 0;
    while i < stacks.len()
        invariant
            i <= stacks@.len(),
            forall|j: int| 0 <= j < i ==> #[trigger] stacks@[j].commodity@ != c@,
        decreases stacks@.len() - i,
    {
        if stacks[i].commodity == *c {
            return true;
        }
        i = i + 1;
    }
    false
}

impl RecipeBook {
    /// The recipes that produce, require, or leave over `commodity`.
    pub fn links_for(&self, commodity: &CommodityId) -> (links: CommodityRecipeLinks)
        ensures
            links.commodity@ == commodity@,
            id_texts(links.produced_by@) == linked_ids(self@, commodity@, RecipePart::Outputs),
            id_texts(links.required_by@) == linked_ids(self@, commodity@, RecipePart::Inputs),
            id_texts(links.byproduct_of@) == linked_ids(self@, commodity@, RecipePart::Byproducts),
    {
        let recipes = self.iter();
        let mut produced_by: Vec<RecipeId> = Vec::new();
        let mut required_by: Vec<RecipeId> = Vec::new();
        let mut byproduct_of: Vec<RecipeId> = Vec::new();
        let mut i: usize = 0;
        while i < recipes.len()
            invariant
                recipes@ == self@,
                i <= recipes@.len(),
                id_texts(produced_by@) == linked_ids(recipes@.subrange(0, i as int), commodity@, RecipePart::Outputs),
                id_texts(required_by@) == linked_ids(recipes@.subrange(0, i as int), commodity@, RecipePart::Inputs),
                id_texts(byproduct_of@) == linked_ids(recipes@.subrange(0, i as int), commodity@, RecipePart::Byproducts),
            decreases recipes@.len() - i,
        {
            let recipe = &recipes[i];
            let ghost upto = recipes@.subrange(0, i + 1);
            assert(upto.drop_last() =~= recipes@.subrange(0, i as int));
            assert(upto.last() == *recipe);
            if stacks_mention(&recipe.outputs, commodity) {
                produced_by.push(recipe.id.clone());
            }
            if stacks_mention(&recipe.inputs, commodity) {
                required_by.push(recipe.id.clone());
            }
            if stacks_mention(&recipe.byproducts, commodity) {
                byproduct_of.push(recipe.id.clone());
            }
            assert(id_texts(produced_by@) =~= linked_ids(upto, commodity@, RecipePart::Outputs));
            assert(id_texts(required_by@) =~= linked_ids(upto, commodity@, RecipePart::Inputs));
            assert(id_texts(byproduct_of@) =~= linked_ids(upto, commodity@, RecipePart::Byproducts));
            i = i + 1;
        }
        assert(recipes@.subrange(0, i as int) =~= self@);
        CommodityRecipeLinks { commodity: commodity.clone(), produced_by, required_by, byproduct_of }
    }
}


/// The recipes linked to a commodity are exactly the recipes whose given
/// part mentions it: an id is listed if and only if some recipe with that id
/// mentions the commodity there.
pub proof fn lemma_linked_ids_exact(recipes: Seq<Recipe>, c: Seq<char>, part: RecipePart)
    ensures
        forall|k: Seq<char>|
            #[trigger] linked_ids(recipes, c, part).contains(k) <==> exists|i: int|
                0 <= i < recipes.len() && recipes[i].id@ == k && mentions(part_of(recipes[i], part), c),
    decreases recipes.len(),
{
    if recipes.len() > 0 {
        let prev = recipes.drop_last();
        lemma_linked_ids_exact(prev, c, part);
        let l = linked_ids(recipes, c, part);
        let lp = linked_ids(prev, c, part);
        assert forall|k: Seq<char>|
            #[trigger] l.contains(k) <==> exists|i: int|
                0 <= i < recipes.len() && recipes[i].id@ == k && mentions(part_of(recipes[i], part), c) by {
            let n = recipes.len() - 1;
            if l.contains(k) {
                if lp.contains(k) {
                    let i = choose|i: int| 0 <= i < prev.len() && prev[i].id@ == k && mentions(part_of(prev[i], part), c);
                    assert(recipes[i] == prev[i]);
                } else {
                    let j = choose|j: int| 0 <= j < l.len() && l[j] == k;
                    assert(mentions(part_of(recipes.last(), part), c));
                    assert(j == lp.len());
                    assert(recipes[n] == recipes.last());
                }
            }
            if exists|i: int| 0 <= i < recipes.len() && recipes[i].id@ == k && mentions(part_of(recipes[i], part), c) {
                let i = choose|i: int| 0 <= i < recipes.len() && recipes[i].id@ == k && mentions(part_of(recipes[i], part), c);
                if i < n {
                    assert(prev[i] == recipes[i]);
                    assert(exists|i2: int|
                        0 <= i2 < prev.len() && prev[i2].id@ == k && mentions(part_of(prev[i2], part), c));
                    assert(lp.contains(k));
                    let j = choose|j: int| 0 <= j < lp.len() && lp[j] == k;
                    if mentions(part_of(recipes.last(), part), c) {
                        assert(l[j] == lp[j]);
                    }
                } else {
                    assert(l[lp.len() as int] == k);
                }
            }
        }
    }
}

} // verus!
