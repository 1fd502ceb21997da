//! The canonical game-economy records, as the data files describe them.

use vstd::prelude::*;
use crate::catalog::{Catalog, Keyed, keys_sorted, lookup};
use crate::ids::{CommodityId, FacilityArchetypeId, RecipeId, RegionId};
use crate::qty::Qty;
use crate::recipe::{Recipe, RecipeBook, Stack, catalog_from, last_keyed};

verus! {

/// How far a record is trusted.
#[derive(Clone, Copy, Debug, PartialEq, Eq, Structural)]
pub enum Confidence {
    High,
    Medium,
    Low,
}

/// Who wrote a record and how far it was reviewed.
#[derive(Clone, Copy, Debug, PartialEq, Eq, Structural)]
pub enum AuthoredStatus {
    HandAuthored,
    Draft,
    LlmCandidate,
    Reviewed,
    Trusted,
}

/// Where a record's data came from.
#[derive(Debug, PartialEq, Eq)]
pub struct SourceRef {
    pub source_dataset: String,
    pub source_row_or_page: String,
    pub source_quote_or_field: String,
    pub url: Option<String>,
}

impl Clone for SourceRef {
    fn clone(&self) -> (r: Self)
        ensures
            r == *self,
    {
        let url = match &self.url {
            Some(u) => Some(u.clone()),
            None => None,
        };
        SourceRef {
            source_dataset: self.source_dataset.clone(),
            source_row_or_page: self.source_row_or_page.clone(),
            source_quote_or_field: self.source_quote_or_field.clone(),
            url,
        }
    }
}

/// Copies a list of source references.
fn clone_source_refs(refs: &Vec<SourceRef>) -> (r: Vec<SourceRef>)
    ensures
        r@ == refs@,
{
    let mut out: Vec<SourceRef> = Vec::new();
    let mut i: usize = 0;
    while i < refs.len()
        invariant
            i <= refs@.len(),
            out@ == refs@.subrange(0, i as int),
        decreases refs@.len() - i,
    {
        out.push(refs[i].clone());
        i = i + 1;
        assert(out@ =~= refs@.subrange(0, i as int));
    }
    assert(refs@.subrange(0, i as int) =~= refs@);
    out
}

/// Copies a list of texts.
pub fn clone_texts(texts: &Vec<String>) -> (r: Vec<String>)
    ensures
        r@ == texts@,
{
    let mut out: Vec<String> = Vec::new();
    let mut i: usize = 0;
    while i < texts.len()
        invariant
            i <= texts@.len(),
            out@ == texts@.subrange(0, i as int),
        decreases texts@.len() - i,
    {
        out.push(texts[i].clone());
        i = i + 1;
        assert(out@ =~= texts@.subrange(0, i as int));
    }
    assert(texts@.subrange(0, i as int) =~= texts@);
    out
}

/// A tradable good.
#[derive(Debug, PartialEq)]
pub struct Commodity {
    pub id: CommodityId,
    pub display_name: String,
    pub category: String,
    pub unit: String,
    pub tags: Vec<String>,
    pub source_refs: Vec<SourceRef>,
    pub confidence: Confidence,
    pub authored_status: AuthoredStatus,
}

/// `b` is a copy of `a`: the same fields, lists with the same elements.
pub open spec fn same_commodity(a: Commodity, b: Commodity) -> bool {
    &&& a.id == b.id
    &&& a.display_name == b.display_name
    &&& a.category == b.category
    &&& a.unit == b.unit
    &&& a.tags@ == b.tags@
    &&& a.source_refs@ == b.source_refs@
    &&& a.confidence == b.confidence
    &&& a.authored_status == b.authored_status
}

impl Clone for Commodity {
    fn clone(&self) -> (r: Self)
        ensures
            same_commodity(*self, r),
    {
        Commodity {
            id: self.id.clone(),
            display_name: self.display_name.clone(),
            category: self.category.clone(),
            unit: self.unit.clone(),
            tags: clone_texts(&self.tags),
            source_refs: clone_source_refs(&self.source_refs),
            confidence: self.confidence,
            authored_status: self.authored_status,
        }
    }
}

impl Keyed for Commodity {
    open spec fn key(&self) -> Seq<char> {
        self.id@
    }

    fn key_str(&self) -> (s: &str) {
        self.id.as_str()
    }
}

/// An amount of a commodity in a data record.
#[derive(Debug, PartialEq)]
pub struct Quantity {
    pub commodity: CommodityId,
    pub qty: Qty,
}

impl Clone for Quantity {
    fn clone(&self) -> (r: Self)
        ensures
            r == *self,
    {
        Quantity { commodity: self.commodity.clone(), qty: self.qty }
    }
}

/// The stack that a data quantity becomes.
pub open spec fn stack_of(q: Quantity) -> Stack {
    Stack { commodity: q.commodity, qty: q.qty }
}

impl From<Quantity> for Stack {
    fn from(value: Quantity) -> (s: Self) {
        Stack::new(value.commodity, value.qty)
    }
}

impl vstd::std_specs::convert::FromSpecImpl<Quantity> for Stack {
    open spec fn obeys_from_spec() -> bool {
        true
    }

    open spec fn from_spec(v: Quantity) -> Stack {
        stack_of(v)
    }
}

/// The stacks that a list of data quantities becomes.
fn stacks_of(quantities: &Vec<Quantity>) -> (r: Vec<Stack>)
    ensures
        r@ == quantities@.map_values(|q: Quantity| stack_of(q)),
{
    let mut out: Vec<Stack> = Vec::new();
    let mut i: usize = 0;
    while i < quantities.len()
        invariant
            i <= quantities@.len(),
            out@ == quantities@.subrange(0, i as int).map_values(|q: Quantity| stack_of(q)),
        decreases quantities@.len() - i,
    {
        out.push(Stack::from(quantities[i].clone()));
        i = i + 1;
        assert(out@ =~= quantities@.subrange(0, i as int).map_values(|q: Quantity| stack_of(q)));
    }
    assert(quantities@.subrange(0, i as int) =~= quantities@);
    out
}

/// A production process as the data files describe it.
#[derive(Debug, PartialEq)]
pub struct ProcessRecipe {
    pub id: RecipeId,
    pub display_name: String,
    pub inputs: Vec<Quantity>,
    pub outputs: Vec<Quantity>,
    pub byproducts: Vec<Quantity>,
    pub facility_tags: Vec<String>,
    pub duration_ticks: u32,
    pub source_refs: Vec<SourceRef>,
    pub confidence: Confidence,
    pub authored_status: AuthoredStatus,
}

/// The simulation recipe that a data recipe becomes.
pub open spec fn core_recipe_of(r: ProcessRecipe, core: Recipe) -> bool {
    &&& core.id == r.id
    &&& core.inputs@ == r.inputs@.map_values(|q: Quantity| stack_of(q))
    &&& core.outputs@ == r.outputs@.map_values(|q: Quantity| stack_of(q))
    &&& core.byproducts@ == r.byproducts@.map_values(|q: Quantity| stack_of(q))
    &&& core.facility_tags@ == r.facility_tags@
    &&& core.duration_ticks == r.duration_ticks
}

impl ProcessRecipe {
    /// The simulation recipe for this data recipe.
    pub fn to_core(&self) -> (core: Recipe)
        ensures
            core_recipe_of(*self, core),
    {
        Recipe {
            id: self.id.clone(),
            inputs: stacks_of(&self.inputs),
            outputs: stacks_of(&self.outputs),
            byproducts: stacks_of(&self.byproducts),
            facility_tags: clone_texts(&self.facility_tags),
            duration_ticks: self.duration_ticks,
        }
    }
}

/// A kind of facility that can be built.
#[derive(Debug, PartialEq)]
pub struct FacilityArchetype {
    pub id: FacilityArchetypeId,
    pub display_name: String,
    pub accepts_recipes: Vec<String>,
    pub build_cost: Vec<Quantity>,
    pub power_draw_kw: Qty,
    pub workers_required: u32,
    pub sprite_prompt_ref: String,
    pub tags: Vec<String>,
    pub source_refs: Vec<SourceRef>,
    pub confidence: Confidence,
    pub authored_status: AuthoredStatus,
}

/// `b` is a copy of `a`: the same fields, lists with the same elements.
pub open spec fn same_facility(a: FacilityArchetype, b: FacilityArchetype) -> bool {
    &&& a.id == b.id
    &&& a.display_name == b.display_name
    &&& a.accepts_recipes@ == b.accepts_recipes@
    &&& a.build_cost@ == b.build_cost@
    &&& a.power_draw_kw == b.power_draw_kw
    &&& a.workers_required == b.workers_required
    &&& a.sprite_prompt_ref == b.sprite_prompt_ref
    &&& a.tags@ == b.tags@
    &&& a.source_refs@ == b.source_refs@
    &&& a.confidence == b.confidence
    &&& a.authored_status == b.authored_status
}

/// Copies a list of data quantities.
fn clone_quantities(quantities: &Vec<Quantity>) -> (r: Vec<Quantity>)
    ensures
        r@ == quantities@,
{
    let mut out: Vec<Quantity> = Vec::new();
    let mut i: usize = 0;
    while i < quantities.len()
        invariant
            i <= quantities@.len(),
            out@ == quantities@.subrange(0, i as int),
        decreases quantities@.len() - i,
    {
        out.push(quantities[i].clone());
        i = i + 1;
        assert(out@ =~= quantities@.subrange(0, i as int));
    }
    assert(quantities@.subrange(0, i as int) =~= quantities@);
    out
}

impl Clone for FacilityArchetype {
    fn clone(&self) -> (r: Self)
        ensures
            same_facility(*self, r),
    {
        FacilityArchetype {
            id: self.id.clone(),
            display_name: self.display_name.clone(),
            accepts_recipes: clone_texts(&self.accepts_recipes),
            build_cost: clone_quantities(&self.build_cost),
            power_draw_kw: self.power_draw_kw,
            workers_required: self.workers_required,
            sprite_prompt_ref: self.sprite_prompt_ref.clone(),
            tags: clone_texts(&self.tags),
            source_refs: clone_source_refs(&self.source_refs),
            confidence: self.confidence,
            authored_status: self.authored_status,
        }
    }
}

impl Keyed for FacilityArchetype {
    open spec fn key(&self) -> Seq<char> {
        self.id@
    }

    fn key_str(&self) -> (s: &str) {
        self.id.as_str()
    }
}

/// How much of a commodity a region holds, from `0.0` to `1.0`.
#[derive(Debug, PartialEq)]
pub struct RegionResource {
    pub commodity: CommodityId,
    pub abundance: Qty,
}

/// A gameplay region: its resources, people and ports.
#[derive(Debug, PartialEq)]
pub struct RegionProfile {
    pub id: RegionId,
    pub display_name: String,
    pub resources: Vec<RegionResource>,
    pub population: u64,
    pub trade_ports: Vec<String>,
    pub tags: Vec<String>,
    pub source_refs: Vec<SourceRef>,
    pub confidence: Confidence,
    pub authored_status: AuthoredStatus,
}

/// The canonical economy: every record of the data files.
#[derive(Debug, PartialEq)]
pub struct CanonicalEconomy {
    pub commodities: Vec<Commodity>,
    pub recipes: Vec<ProcessRecipe>,
    pub facilities: Vec<FacilityArchetype>,
    pub regions: Vec<RegionProfile>,
}

impl Default for CanonicalEconomy {
    fn default() -> (e: Self)
        ensures
            e.commodities@.len() == 0,
            e.recipes@.len() == 0,
            e.facilities@.len() == 0,
            e.regions@.len() == 0,
    {
        CanonicalEconomy {
            commodities: Vec::new(),
            recipes: Vec::new(),
            facilities: Vec::new(),
            regions: Vec::new(),
        }
    }
}

/// The data recipe of `recipes` that is last among those with id `k`.
pub open spec fn last_recipe_with_id(recipes: Seq<ProcessRecipe>, k: Seq<char>) -> Option<ProcessRecipe>
    decreases recipes.len(),
{
    if recipes.len() == 0 {
        None
    } else if recipes.last().id@ == k {
        Some(recipes.last())
    } else {
        last_recipe_with_id(recipes.drop_last(), k)
    }
}

/// The book holds, for each id, the simulation recipe of the last data
/// recipe with that id, and nothing else.
pub open spec fn book_of(recipes: Seq<ProcessRecipe>, book: Seq<Recipe>) -> bool {
    &&& keys_sorted(book)
    &&& forall|k: Seq<char>| match #[trigger] lookup(book, k) {
        Some(core) => last_recipe_with_id(recipes, k) matches Some(r) && core_recipe_of(r, core),
        None => last_recipe_with_id(recipes, k) is None,
    }
}

impl CanonicalEconomy {
    /// The simulation recipe book for the economy's recipes.
    pub fn recipe_book(&self) -> (book: RecipeBook)
        ensures
            book_of(self.recipes@, book@),
    {
        let mut cores: Vec<Recipe> = Vec::new();
        let mut i: usize = 0;
        while i < self.recipes.len()
            invariant
                i <= self.recipes@.len(),
                cores@.len() == i,
                forall|j: int| 0 <= j < i ==> core_recipe_of(self.recipes@[j], #[trigger] cores@[j]),
            decreases self.recipes@.len() - i,
        {
            cores.push(self.recipes[i].to_core());
            i = i + 1;
        }
        let ghost all = cores@;
        let book = RecipeBook::new(cores);
        proof {
            assert forall|k: Seq<char>| match #[trigger] lookup(book@, k) {
                Some(core) => last_recipe_with_id(self.recipes@, k) matches Some(r) && core_recipe_of(r, core),
                None => last_recipe_with_id(self.recipes@, k) is None,
            } by {
                lemma_last_core(self.recipes@, all, k);
            }
        }
        book
    }
}

proof fn lemma_last_core(recipes: Seq<ProcessRecipe>, cores: Seq<Recipe>, k: Seq<char>)
    requires
        recipes.len() == cores.len(),
        forall|j: int| 0 <= j < recipes.len() ==> core_recipe_of(recipes[j], #[trigger] cores[j]),
    ensures
        match last_keyed(cores, k) {
            Some(core) => last_recipe_with_id(recipes, k) matches Some(r) && core_recipe_of(r, core),
            None => last_recipe_with_id(recipes, k) is None,
        },
    decreases recipes.len(),
{
    if recipes.len() > 0 {
        let n = recipes.len() - 1;
        assert(core_recipe_of(recipes[n], cores[n]));
        lemma_last_core(recipes.drop_last(), cores.drop_last(), k);
    }
}

} // verus!
