//! Recipes and the book that holds them by id.

use vstd::prelude::*;
use crate::catalog::{Catalog, Keyed, keys_sorted, lookup, has_key};
use crate::ids::{CommodityId, RecipeId};
use crate::qty::Qty;

verus! {

/// An amount of one commodity.
#[derive(Debug, PartialEq)]
pub struct Stack {
    pub commodity: CommodityId,
    pub qty: Qty,
}

impl Stack {
    /// A stack of `qty` units of `commodity`.
    pub fn new(commodity: CommodityId, qty: Qty) -> (s: Self)
        ensures
            s.commodity == commodity,
            s.qty == qty,
    {
        Stack { commodity, qty }
    }
}

impl Clone for Stack {
    fn clone(&self) -> (s: Self)
        ensures
            s == *self,
    {
        Stack { commodity: self.commodity.clone(), qty: self.qty }
    }
}

/// A production process: what it consumes, makes and leaves over, and how
/// many ticks it takes.
#[derive(Debug, PartialEq)]
pub struct Recipe {
    pub id: RecipeId,
    pub inputs: Vec<Stack>,
    pub outputs: Vec<Stack>,
    pub byproducts: Vec<Stack>,
    pub facility_tags: Vec<String>,
    pub duration_ticks: u32,
}

impl Keyed for Recipe {
    open spec fn key(&self) -> Seq<char> {
        self.id@
    }

    fn key_str(&self) -> (s: &str) {
        self.id.as_str()
    }
}

/// The record of `s` that is last among those carrying key `k`.
pub open spec fn last_keyed<T: Keyed>(s: Seq<T>, k: Seq<char>) -> Option<T>
    decreases s.len(),
{
    if s.len() == 0 {
        None
    } else if s.last().key() == k {
        Some(s.last())
    } else {
        last_keyed(s.drop_last(), k)
    }
}

/// Builds a catalog from records; of records with the same key the last one stays.
pub fn catalog_from<T: Keyed>(items: Vec<T>) -> (c: Catalog<T>)
    ensures
        keys_sorted(c@),
        forall|k: Seq<char>| #[trigger] lookup(c@, k) == last_keyed(items@, k),
{
    let ghost all = items@;
    let ghost n = all.len();
    let mut rest = items;
    let mut rev: Vec<T> = Vec::new();
    while rest.len() > 0
        invariant
            n == all.len(),
            rest@ == all.subrange(0, rest@.len() as int),
            rev@.len() == n - rest@.len(),
            forall|i: int| 0 <= i < rev@.len() ==> #[trigger] rev@[i] == all[n - 1 - i],
        decreases rest@.len(),
    {
        let item = rest.pop().unwrap();
        rev.push(item);
    }
    let mut c = Catalog::new();
    // Popping from `rev` yields the records in their original order.
    while rev.len() > 0
        invariant
            n == all.len(),
            rev@.len() <= n,
            forall|i: int| 0 <= i < rev@.len() ==> #[trigger] rev@[i] == all[n - 1 - i],
            keys_sorted(c@),
            forall|k: Seq<char>| #[trigger] lookup(c@, k) == last_keyed(all.subrange(0, n - rev@.len()), k),
        decreases rev@.len(),
    {
        let ghost done = n - rev@.len();
        let item = rev.pop().unwrap();
        assert(item == all[done]);
        let ghost prev = c@;
        let ghost key = item.key();
        let _ = c.insert(item);
        proof {
            let before = all.subrange(0, done);
            let after = all.subrange(0, done + 1);
            assert(after.drop_last() =~= before);
            assert(after.last() == all[done]);
            assert forall|k: Seq<char>| #[trigger] lookup(c@, k) == last_keyed(after, k) by {
                if k == key {
                } else {
                    assert(lookup(c@, k) == lookup(prev, k));
                }
            }
        }
    }
    assert(all.subrange(0, n as int) =~= all);
    c
}

/// The recipes of the simulation, keyed and ordered by recipe id.
#[derive(Debug)]
pub struct RecipeBook {
    recipes: Catalog<Recipe>,
}

impl View for RecipeBook {
    type V = Seq<Recipe>;

    closed spec fn view(&self) -> Seq<Recipe> {
        self.recipes@
    }
}

impl RecipeBook {
    /// A book of the given recipes; of recipes with the same id the last one stays.
    pub fn new(recipes: Vec<Recipe>) -> (book: Self)
        ensures
            keys_sorted(book@),
            forall|k: Seq<char>| #[trigger] lookup(book@, k) == last_keyed(recipes@, k),
    {
        RecipeBook { recipes: catalog_from(recipes) }
    }

    /// Adds `recipe`, replacing the recipe with the same id.
    pub fn insert(&mut self, recipe: Recipe)
        ensures
            keys_sorted(final(self)@),
            lookup(final(self)@, recipe.id@) == Some(recipe),
            forall|k: Seq<char>| k != recipe.id@ ==> #[trigger] lookup(final(self)@, k) == lookup(old(self)@, k),
    {
        let _ = self.recipes.insert(recipe);
    }

    /// The recipe with id `id`, if any.
    pub fn get(&self, id: &RecipeId) -> (r: Option<&Recipe>)
        ensures
            match r {
                Some(recipe) => lookup(self@, id@) == Some(*recipe),
                None => lookup(self@, id@) is None,
            },
    {
        self.recipes.get(id.as_str())
    }

    /// Whether a recipe with id `id` is present.
    pub fn contains(&self, id: &RecipeId) -> (b: bool)
        ensures
            b == has_key(self@, id@),
    {
        self.recipes.contains_key(id.as_str())
    }

    /// The recipes in id order.
    pub fn iter(&self) -> (s: &[Recipe])
        ensures
            s@ == self@,
            keys_sorted(self@),
    {
        self.recipes.entries()
    }

    /// The recipe ids in order.
    pub fn ids(&self) -> (ids: Vec<RecipeId>)
        ensures
            ids@.len() == self@.len(),
            forall|i: int| 0 <= i < ids@.len() ==> #[trigger] ids@[i] == self@[i].id,
    {
        let recipes = self.recipes.entries();
        let mut ids: Vec<RecipeId> = Vec::new();
        let mut i: usize = 0;
        while i < recipes.len()
            invariant
                recipes@ == self@,
                i <= recipes@.len(),
                ids@.len() == i,
                forall|j: int| 0 <= j < i ==> #[trigger] ids@[j] == self@[j].id,
            decreases recipes@.len() - i,
        {
            ids.push(recipes[i].id.clone());
            i = i + 1;
        }
        ids
    }

    /// Whether the book holds no recipe.
    pub fn is_empty(&self) -> (b: bool)
        ensures
            b == (self@.len() == 0),
    {
        self.recipes.is_empty()
    }
}

impl Default for RecipeBook {
    fn default() -> (book: Self)
        ensures
            book@ == Seq::<Recipe>::empty(),
    {
        RecipeBook { recipes: Catalog::new() }
    }
}

} // verus!
