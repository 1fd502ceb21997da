//! Validation of the canonical economy.
//!
//! The validator rejects unknown commodity ids, negative quantities,
//! zero-duration recipes, recipes without outputs, facility recipe patterns
//! that match no recipe, abundances outside `0.0..=1.0`, duplicate ids,
//! blank display names, and non-hand-authored records without sources. It
//! reports every problem it finds, in the order it finds them.

use vstd::prelude::*;
use crate::catalog::{Catalog, Keyed, keys_sorted, lookup, has_key};
use crate::data::{
    AuthoredStatus, CanonicalEconomy, Commodity, FacilityArchetype, ProcessRecipe, Quantity,
    RegionProfile, RegionResource, SourceRef, same_commodity, same_facility, book_of,
};
use crate::ids::{CommodityId, FacilityArchetypeId, RecipeId, RegionId};
use crate::order::text_bytes;
use crate::qty::{Qty, bits_below_zero, bits_in_unit_interval};
use crate::recipe::{RecipeBook, last_keyed};

verus! {

impl Keyed for RecipeId {
    open spec fn key(&self) -> Seq<char> {
        self@
    }

    fn key_str(&self) -> (s: &str) {
        self.as_str()
    }
}

impl Keyed for RegionId {
    open spec fn key(&self) -> Seq<char> {
        self@
    }

    fn key_str(&self) -> (s: &str) {
        self.as_str()
    }
}

/// A problem found in the canonical economy.
#[derive(Clone, Debug, PartialEq)]
pub enum ValidationError {
    DuplicateId { entity: &'static str, id: String },
    MissingDisplayName { entity: &'static str, id: String },
    MissingSourceRefs { entity: &'static str, id: String },
    UnknownCommodity { owner: String, commodity: CommodityId },
    NegativeQuantity { owner: String, commodity: CommodityId, qty: Qty },
    InvalidRecipeDuration { recipe: RecipeId },
    RecipeWithoutOutput { recipe: RecipeId },
    UnknownRecipePattern { facility: FacilityArchetypeId, pattern: String },
    InvalidAbundance { region: RegionId, commodity: CommodityId, abundance: Qty },
}

/// A validation problem, with texts as character sequences and quantities as bits.
pub enum ErrorView {
    DuplicateId { entity: Seq<char>, id: Seq<char> },
    MissingDisplayName { entity: Seq<char>, id: Seq<char> },
    MissingSourceRefs { entity: Seq<char>, id: Seq<char> },
    UnknownCommodity { owner: Seq<char>, commodity: Seq<char> },
    NegativeQuantity { owner: Seq<char>, commodity: Seq<char>, qty: u64 },
    InvalidRecipeDuration { recipe: Seq<char> },
    RecipeWithoutOutput { recipe: Seq<char> },
    UnknownRecipePattern { facility: Seq<char>, pattern: Seq<char> },
    InvalidAbundance { region: Seq<char>, commodity: Seq<char>, abundance: u64 },
}

impl View for ValidationError {
    type V = ErrorView;

    open spec fn view(&self) -> ErrorView {
        match self {
            ValidationError::DuplicateId { entity, id } => ErrorView::DuplicateId { entity: entity@, id: id@ },
            ValidationError::MissingDisplayName { entity, id } => ErrorView::MissingDisplayName {
                entity: entity@,
                id: id@,
            },
            ValidationError::MissingSourceRefs { entity, id } => ErrorView::MissingSourceRefs {
                entity: entity@,
                id: id@,
            },
            ValidationError::UnknownCommodity { owner, commodity } => ErrorView::UnknownCommodity {
                owner: owner@,
                commodity: commodity@,
            },
            ValidationError::NegativeQuantity { owner, commodity, qty } => ErrorView::NegativeQuantity {
                owner: owner@,
                commodity: commodity@,
                qty: qty@,
            },
            ValidationError::InvalidRecipeDuration { recipe } => ErrorView::InvalidRecipeDuration {
                recipe: recipe@,
            },
            ValidationError::RecipeWithoutOutput { recipe } => ErrorView::RecipeWithoutOutput { recipe: recipe@ },
            ValidationError::UnknownRecipePattern { facility, pattern } => ErrorView::UnknownRecipePattern {
                facility: facility@,
                pattern: pattern@,
            },
            ValidationError::InvalidAbundance { region, commodity, abundance } => ErrorView::InvalidAbundance {
                region: region@,
                commodity: commodity@,
                abundance: abundance@,
            },
        }
    }
}

/// The views of a list of problems.
pub open spec fn views(errors: Seq<ValidationError>) -> Seq<ErrorView> {
    errors.map_values(|e: ValidationError| e@)
}

/// The validation failed; it lists every problem found.
#[derive(Clone, Debug, PartialEq)]
pub struct ValidationReport {
    pub errors: Vec<ValidationError>,
}

/// The canonical economy after validation, with its records indexed by id.
#[derive(Debug)]
pub struct ValidatedEconomy {
    pub canonical: CanonicalEconomy,
    pub commodities_by_id: Catalog<Commodity>,
    pub facilities_by_id: Catalog<FacilityArchetype>,
    pub recipe_book: RecipeBook,
}

// ---------------------------------------------------------------------------
// What the validator reports.

/// A character of the Unicode `White_Space` property, which `str::trim` removes.
pub open spec fn is_white_space(c: char) -> bool {
    let v = c as u32;
    ||| 0x9 <= v <= 0xD
    ||| v == 0x20
    ||| v == 0x85
    ||| v == 0xA0
    ||| v == 0x1680
    ||| 0x2000 <= v <= 0x200A
    ||| v == 0x2028
    ||| v == 0x2029
    ||| v == 0x202F
    ||| v == 0x205F
    ||| v == 0x3000
}

/// The text is empty once trimmed: every character is white space.
pub open spec fn is_blank(s: Seq<char>) -> bool {
    forall|i: int| 0 <= i < s.len() ==> is_white_space(#[trigger] s[i])
}

/// The problems with the fields every record shares.
pub open spec fn common_errors(
    entity: Seq<char>,
    id: Seq<char>,
    display_name: Seq<char>,
    source_ref_count: nat,
    status: AuthoredStatus,
) -> Seq<ErrorView> {
    (if is_blank(display_name) {
        seq![ErrorView::MissingDisplayName { entity, id }]
    } else {
        Seq::empty()
    }) + (if status != AuthoredStatus::HandAuthored && source_ref_count == 0 {
        seq![ErrorView::MissingSourceRefs { entity, id }]
    } else {
        Seq::empty()
    })
}

/// The duplicate-id problems of a list of ids: one for each id that an
/// earlier one repeats.
pub open spec fn duplicate_errors(entity: Seq<char>, ids: Seq<Seq<char>>) -> Seq<ErrorView>
    decreases ids.len(),
{
    if ids.len() == 0 {
        Seq::empty()
    } else {
        duplicate_errors(entity, ids.drop_last()) + (if ids.drop_last().contains(ids.last()) {
            seq![ErrorView::DuplicateId { entity, id: ids.last() }]
        } else {
            Seq::empty()
        })
    }
}

/// The ids of a list of commodities.
pub open spec fn commodity_ids(s: Seq<Commodity>) -> Seq<Seq<char>> {
    s.map_values(|c: Commodity| c.id@)
}

/// The ids of a list of recipes.
pub open spec fn recipe_ids(s: Seq<ProcessRecipe>) -> Seq<Seq<char>> {
    s.map_values(|r: ProcessRecipe| r.id@)
}

/// The ids of a list of facility archetypes.
pub open spec fn facility_ids(s: Seq<FacilityArchetype>) -> Seq<Seq<char>> {
    s.map_values(|f: FacilityArchetype| f.id@)
}

/// The ids of a list of regions.
pub open spec fn region_ids(s: Seq<RegionProfile>) -> Seq<Seq<char>> {
    s.map_values(|r: RegionProfile| r.id@)
}

/// The commodity ids that the economy defines.
pub open spec fn known_ids(commodities: Seq<Commodity>) -> Set<Seq<char>> {
    Set::new(|c: Seq<char>| commodity_ids(commodities).contains(c))
}

/// The problems with one quantity owned by `owner`.
pub open spec fn quantity_errors(owner: Seq<char>, q: Quantity, known: Set<Seq<char>>) -> Seq<ErrorView> {
    (if !known.contains(q.commodity@) {
        seq![ErrorView::UnknownCommodity { owner, commodity: q.commodity@ }]
    } else {
        Seq::empty()
    }) + (if bits_below_zero(q.qty@) {
        seq![ErrorView::NegativeQuantity { owner, commodity: q.commodity@, qty: q.qty@ }]
    } else {
        Seq::empty()
    })
}

/// The problems with a list of quantities owned by `owner`.
pub open spec fn quantities_errors(owner: Seq<char>, qs: Seq<Quantity>, known: Set<Seq<char>>) -> Seq<ErrorView>
    decreases qs.len(),
{
    if qs.len() == 0 {
        Seq::empty()
    } else {
        quantities_errors(owner, qs.drop_last(), known) + quantity_errors(owner, qs.last(), known)
    }
}

/// `id` matches a facility's recipe pattern: a pattern ending in `*` is a
/// prefix of the id without the `*`, any other pattern is the id itself.
/// Both are compared as UTF-8 bytes, as `str` compares them.
pub open spec fn pattern_matches(pattern: Seq<u8>, id: Seq<u8>) -> bool {
    if pattern.len() > 0 && pattern.last() == 42u8 {
        let prefix = pattern.drop_last();
        prefix.len() <= id.len() && id.subrange(0, prefix.len() as int) == prefix
    } else {
        pattern == id
    }
}

/// Some id of `ids` matches the pattern.
pub open spec fn pattern_matches_some(pattern: Seq<char>, ids: Seq<Seq<char>>) -> bool {
    exists|i: int| 0 <= i < ids.len() && pattern_matches(text_bytes(pattern), text_bytes(#[trigger] ids[i]))
}

/// The problems with a facility's recipe patterns.
pub open spec fn pattern_errors(facility: Seq<char>, patterns: Seq<String>, ids: Seq<Seq<char>>) -> Seq<ErrorView>
    decreases patterns.len(),
{
    if patterns.len() == 0 {
        Seq::empty()
    } else {
        pattern_errors(facility, patterns.drop_last(), ids) + (if !pattern_matches_some(patterns.last()@, ids) {
            seq![ErrorView::UnknownRecipePattern { facility, pattern: patterns.last()@ }]
        } else {
            Seq::empty()
        })
    }
}

/// The problems with one region resource.
pub open spec fn resource_errors(region: Seq<char>, r: RegionResource, known: Set<Seq<char>>) -> Seq<ErrorView> {
    (if !known.contains(r.commodity@) {
        seq![ErrorView::UnknownCommodity { owner: region, commodity: r.commodity@ }]
    } else {
        Seq::empty()
    }) + (if !bits_in_unit_interval(r.abundance@) {
        seq![ErrorView::InvalidAbundance { region, commodity: r.commodity@, abundance: r.abundance@ }]
    } else {
        Seq::empty()
    })
}

/// The problems with a region's resources.
pub open spec fn resources_errors(region: Seq<char>, rs: Seq<RegionResource>, known: Set<Seq<char>>) -> Seq<ErrorView>
    decreases rs.len(),
{
    if rs.len() == 0 {
        Seq::empty()
    } else {
        resources_errors(region, rs.drop_last(), known) + resource_errors(region, rs.last(), known)
    }
}

/// The problems with one commodity.
pub open spec fn commodity_errors(c: Commodity) -> Seq<ErrorView> {
    common_errors("commodity"@, c.id@, c.display_name@, c.source_refs@.len(), c.authored_status)
}

/// The problems with one recipe.
pub open spec fn recipe_errors(r: ProcessRecipe, known: Set<Seq<char>>) -> Seq<ErrorView> {
    common_errors("recipe"@, r.id@, r.display_name@, r.source_refs@.len(), r.authored_status)
        + (if r.duration_ticks == 0 {
        seq![ErrorView::InvalidRecipeDuration { recipe: r.id@ }]
    } else {
        Seq::empty()
    }) + (if r.outputs@.len() == 0 {
        seq![ErrorView::RecipeWithoutOutput { recipe: r.id@ }]
    } else {
        Seq::empty()
    }) + quantities_errors(r.id@, r.inputs@, known) + quantities_errors(r.id@, r.outputs@, known)
        + quantities_errors(r.id@, r.byproducts@, known)
}

/// The problems with one facility archetype.
pub open spec fn facility_errors(f: FacilityArchetype, known: Set<Seq<char>>, ids: Seq<Seq<char>>) -> Seq<ErrorView> {
    common_errors("facility"@, f.id@, f.display_name@, f.source_refs@.len(), f.authored_status)
        + quantities_errors(f.id@, f.build_cost@, known) + pattern_errors(f.id@, f.accepts_recipes@, ids)
}

/// The problems with one region.
pub open spec fn region_errors(r: RegionProfile, known: Set<Seq<char>>) -> Seq<ErrorView> {
    common_errors("region"@, r.id@, r.display_name@, r.source_refs@.len(), r.authored_status)
        + resources_errors(r.id@, r.resources@, known)
}

pub open spec fn all_commodity_errors(s: Seq<Commodity>) -> Seq<ErrorView>
    decreases s.len(),
{
    if s.len() == 0 {
        Seq::empty()
    } else {
        all_commodity_errors(s.drop_last()) + commodity_errors(s.last())
    }
}

pub open spec fn all_recipe_errors(s: Seq<ProcessRecipe>, known: Set<Seq<char>>) -> Seq<ErrorView>
    decreases s.len(),
{
    if s.len() == 0 {
        Seq::empty()
    } else {
        all_recipe_errors(s.drop_last(), known) + recipe_errors(s.last(), known)
    }
}

pub open spec fn all_facility_errors(s: Seq<FacilityArchetype>, known: Set<Seq<char>>, ids: Seq<Seq<char>>) -> Seq<ErrorView>
    decreases s.len(),
{
    if s.len() == 0 {
        Seq::empty()
    } else {
        all_facility_errors(s.drop_last(), known, ids) + facility_errors(s.last(), known, ids)
    }
}

pub open spec fn all_region_errors(s: Seq<RegionProfile>, known: Set<Seq<char>>) -> Seq<ErrorView>
    decreases s.len(),
{
    if s.len() == 0 {
        Seq::empty()
    } else {
        all_region_errors(s.drop_last(), known) + region_errors(s.last(), known)
    }
}

/// Every problem of the canonical economy, in the order the validator reports them.
pub open spec fn canonical_errors(e: CanonicalEconomy) -> Seq<ErrorView> {
    let known = known_ids(e.commodities@);
    let ids = recipe_ids(e.recipes@);
    duplicate_errors("commodity"@, commodity_ids(e.commodities@))
        + duplicate_errors("recipe"@, ids)
        + duplicate_errors("facility"@, facility_ids(e.facilities@))
        + duplicate_errors("region"@, region_ids(e.regions@))
        + all_commodity_errors(e.commodities@)
        + all_recipe_errors(e.recipes@, known)
        + all_facility_errors(e.facilities@, known, ids)
        + all_region_errors(e.regions@, known)
}

/// The catalog holds, for each id, a copy of the last commodity with that id.
pub open spec fn commodities_indexed(list: Seq<Commodity>, index: Seq<Commodity>) -> bool {
    &&& keys_sorted(index)
    &&& forall|k: Seq<char>| match #[trigger] lookup(index, k) {
        Some(c) => last_keyed(list, k) matches Some(d) && same_commodity(d, c),
        None => last_keyed(list, k) is None,
    }
}

/// The catalog holds, for each id, a copy of the last archetype with that id.
pub open spec fn facilities_indexed(list: Seq<FacilityArchetype>, index: Seq<FacilityArchetype>) -> bool {
    &&& keys_sorted(index)
    &&& forall|k: Seq<char>| match #[trigger] lookup(index, k) {
        Some(f) => last_keyed(list, k) matches Some(g) && same_facility(g, f),
        None => last_keyed(list, k) is None,
    }
}

// ---------------------------------------------------------------------------
// Facts about the specification.

/// The last record with a key exists exactly when some record has that key.
pub proof fn lemma_last_keyed_some<T: Keyed>(s: Seq<T>, k: Seq<char>)
    ensures
        (last_keyed(s, k) is Some) == s.map_values(|t: T| t.key()).contains(k),
        last_keyed(s, k) matches Some(t) ==> t.key() == k,
    decreases s.len(),
{
    let keys = s.map_values(|t: T| t.key());
    if s.len() > 0 {
        lemma_last_keyed_some(s.drop_last(), k);
        let prev = s.drop_last().map_values(|t: T| t.key());
        assert(keys =~= prev.push(s.last().key()));
        assert(keys[keys.len() - 1] == s.last().key());
        if prev.contains(k) {
            let i = choose|i: int| 0 <= i < prev.len() && prev[i] == k;
            assert(keys[i] == k);
        }
        if keys.contains(k) && s.last().key() != k {
            let i = choose|i: int| 0 <= i < keys.len() && keys[i] == k;
            assert(prev[i] == k);
        }
    } else {
        assert(!keys.contains(k));
    }
}

proof fn lemma_views_push(s: Seq<ValidationError>, e: ValidationError)
    ensures
        views(s.push(e)) == views(s).push(e@),
{
    assert(views(s.push(e)) =~= views(s).push(e@));
}

// ---------------------------------------------------------------------------
// The validator.

/// Whether the text is empty once trimmed.
fn is_blank_text(s: &str) -> (b: bool)
    ensures
        b == is_blank(s@),
{
    let n = s.unicode_len();
    let mut i: usize = 0;
    while i < n
        invariant
            n == s@.len(),
            i <= n,
            forall|j: int| 0 <= j < i ==> is_white_space(#[trigger] s@[j]),
        decreases n - i,
    {
        let c = s.get_char(i);
        let v = c as u32;
        let white = (0x9 <= v && v <= 0xD) || v == 0x20 || v == 0x85 || v == 0xA0 || v == 0x1680 || (0x2000
            <= v && v <= 0x200A) || v == 0x2028 || v == 0x2029 || v == 0x202F || v == 0x205F || v == 0x3000;
        if !white {
            assert(!is_white_space(s@[i as int]));
            return false;
        }
        i = i + 1;
    }
    true
}

fn validate_common(
    entity: &'static str,
    id: String,
    display_name: &str,
    source_refs: &Vec<SourceRef>,
    authored_status: &AuthoredStatus,
    errors: &mut Vec<ValidationError>,
)
    ensures
        views(final(errors)@) == views(old(errors)@) + common_errors(
            entity@,
            id@,
            display_name@,
            source_refs@.len(),
            *authored_status,
        ),
{
    let ghost start = views(errors@);
    let blank = is_blank_text(display_name);
    if blank {
        let e = ValidationError::MissingDisplayName { entity, id: id.clone() };
        proof {
            lemma_views_push(errors@, e);
        }
        errors.push(e);
    }
    let ghost mid = views(errors@);
    assert(mid == start + (if is_blank(display_name@) {
        seq![ErrorView::MissingDisplayName { entity: entity@, id: id@ }]
    } else {
        Seq::<ErrorView>::empty()
    })) by {
        assert(start + Seq::<ErrorView>::empty() =~= start);
    }
    if *authored_status != AuthoredStatus::HandAuthored && source_refs.len() == 0 {
        let e = ValidationError::MissingSourceRefs { entity, id };
        proof {
            lemma_views_push(errors@, e);
        }
        errors.push(e);
    }
    assert(views(errors@) =~= start + common_errors(
        entity@,
        id@,
        display_name@,
        source_refs@.len(),
        *authored_status,
    ));
}

fn validate_quantities(
    owner: &String,
    quantities: &Vec<Quantity>,
    commodities_by_id: &Catalog<Commodity>,
    Ghost(known): Ghost<Set<Seq<char>>>,
    errors: &mut Vec<ValidationError>,
)
    requires
        forall|k: Seq<char>| has_key(commodities_by_id@, k) == #[trigger] known.contains(k),
    ensures
        views(final(errors)@) == views(old(errors)@) + quantities_errors(owner@, quantities@, known),
{
    let ghost start = views(errors@);
    let mut i: usize = 0;
    assert(start + quantities_errors(owner@, quantities@.subrange(0, 0), known) =~= start);
    while i < quantities.len()
        invariant
            forall|k: Seq<char>| has_key(commodities_by_id@, k) == #[trigger] known.contains(k),
            i <= quantities@.len(),
            views(errors@) == start + quantities_errors(owner@, quantities@.subrange(0, i as int), known),
        decreases quantities@.len() - i,
    {
        let quantity = &quantities[i];
        let ghost before = views(errors@);
        if !commodities_by_id.contains_key(quantity.commodity.as_str()) {
            let e = ValidationError::UnknownCommodity { owner: owner.clone(), commodity: quantity.commodity.clone() };
            proof {
                lemma_views_push(errors@, e);
            }
            errors.push(e);
        }
        if quantity.qty.is_negative() {
            let e = ValidationError::NegativeQuantity {
                owner: owner.clone(),
                commodity: quantity.commodity.clone(),
                qty: quantity.qty,
            };
            proof {
                lemma_views_push(errors@, e);
            }
            errors.push(e);
        }
        proof {
            let upto = quantities@.subrange(0, i + 1);
            assert(upto.drop_last() =~= quantities@.subrange(0, i as int));
            assert(upto.last() == *quantity);
            assert(views(errors@) =~= before + quantity_errors(owner@, *quantity, known));
            assert(views(errors@) =~= start + quantities_errors(owner@, upto, known));
        }
        i = i + 1;
    }
    assert(quantities@.subrange(0, i as int) =~= quantities@);
}

/// Whether `s` begins with the first `n` bytes of `prefix`.
fn bytes_start_with(s: &[u8], prefix: &[u8], n: usize) -> (b: bool)
    requires
        n <= prefix@.len(),
    ensures
        b == (n <= s@.len() && s@.subrange(0, n as int) == prefix@.subrange(0, n as int)),
{
    if n > s.len() {
        return false;
    }
    let mut i: usize = 0;
    while i < n
        invariant
            n <= prefix@.len(),
            n <= s@.len(),
            i <= n,
            s@.subrange(0, i as int) == prefix@.subrange(0, i as int),
        decreases n - i,
    {
        if s[i] != prefix[i] {
            assert(s@.subrange(0, n as int)[i as int] != prefix@.subrange(0, n as int)[i as int]);
            return false;
        }
        assert(s@.subrange(0, i + 1) =~= s@.subrange(0, i as int).push(s@[i as int]));
        assert(prefix@.subrange(0, i + 1) =~= prefix@.subrange(0, i as int).push(prefix@[i as int]));
        i = i + 1;
    }
    true
}

/// Whether the pattern matches one id.
fn pattern_matches_id(pattern: &[u8], id: &[u8]) -> (b: bool)
    ensures
        b == pattern_matches(pattern@, id@),
{
    let n = pattern.len();
    if n > 0 && pattern[n - 1] == 42u8 {
        let r = bytes_start_with(id, pattern, n - 1);
        assert(pattern@.drop_last() =~= pattern@.subrange(0, n - 1));
        r
    } else {
        if id.len() != n {
            return false;
        }
        let r = bytes_start_with(id, pattern, n);
        assert(pattern@.subrange(0, n as int) =~= pattern@);
        assert(id@.subrange(0, n as int) =~= id@);
        r
    }
}

/// Whether some recipe id matches the pattern.
fn recipe_pattern_matches_any(pattern: &str, recipe_ids: &Catalog<RecipeId>) -> (b: bool)
    ensures
        b == pattern_matches_some(pattern@, recipe_ids@.map_values(|r: RecipeId| r@)),
{
    let ids = recipe_ids.entries();
    let ghost keys = recipe_ids@.map_values(|r: RecipeId| r@);
    let p = pattern.as_bytes();
    let mut i: usize = 0;
    while i < ids.len()
        invariant
            ids@ == recipe_ids@,
            keys == recipe_ids@.map_values(|r: RecipeId| r@),
            p@ == text_bytes(pattern@),
            i <= ids@.len(),
            forall|j: int| 0 <= j < i ==> !pattern_matches(text_bytes(pattern@), text_bytes(#[trigger] keys[j])),
        decreases ids@.len() - i,
    {
        if pattern_matches_id(p, ids[i].as_str().as_bytes()) {
            assert(keys[i as int] == ids@[i as int]@);
            return true;
        }
        assert(keys[i as int] == ids@[i as int]@);
        i = i + 1;
    }
    false
}


/// `a` and `b` hold the same ids.
pub open spec fn same_ids(a: Seq<Seq<char>>, b: Seq<Seq<char>>) -> bool {
    forall|k: Seq<char>| a.contains(k) == #[trigger] b.contains(k)
}

proof fn lemma_pattern_errors_same_ids(facility: Seq<char>, patterns: Seq<String>, a: Seq<Seq<char>>, b: Seq<Seq<char>>)
    requires
        same_ids(a, b),
    ensures
        pattern_errors(facility, patterns, a) == pattern_errors(facility, patterns, b),
    decreases patterns.len(),
{
    if patterns.len() > 0 {
        lemma_pattern_errors_same_ids(facility, patterns.drop_last(), a, b);
        let p = patterns.last()@;
        if pattern_matches_some(p, a) {
            let i = choose|i: int| 0 <= i < a.len() && pattern_matches(text_bytes(p), text_bytes(#[trigger] a[i]));
            assert(a.contains(a[i]));
            assert(b.contains(a[i]));
            let j = choose|j: int| 0 <= j < b.len() && b[j] == a[i];
            assert(pattern_matches(text_bytes(p), text_bytes(b[j])));
        }
        if pattern_matches_some(p, b) {
            let i = choose|i: int| 0 <= i < b.len() && pattern_matches(text_bytes(p), text_bytes(#[trigger] b[i]));
            assert(b.contains(b[i]));
            assert(a.contains(b[i]));
            let j = choose|j: int| 0 <= j < a.len() && a[j] == b[i];
            assert(pattern_matches(text_bytes(p), text_bytes(a[j])));
        }
    }
}

/// The keys of a catalog of recipe ids, in order.
pub open spec fn id_keys(ids: Seq<RecipeId>) -> Seq<Seq<char>> {
    ids.map_values(|r: RecipeId| r@)
}

proof fn lemma_has_key_contains<T: Keyed>(s: Seq<T>, k: Seq<char>)
    ensures
        has_key(s, k) == s.map_values(|t: T| t.key()).contains(k),
{
    let keys = s.map_values(|t: T| t.key());
    if has_key(s, k) {
        let i = choose|i: int| 0 <= i < s.len() && #[trigger] s[i].key() == k;
        assert(keys[i] == k);
    }
    if keys.contains(k) {
        let i = choose|i: int| 0 <= i < keys.len() && keys[i] == k;
        assert(s[i].key() == k);
    }
}

fn collect_commodities(commodities: &Vec<Commodity>, errors: &mut Vec<ValidationError>) -> (map: Catalog<
    Commodity,
>)
    ensures
        views(final(errors)@) == views(old(errors)@) + duplicate_errors("commodity"@, commodity_ids(commodities@)),
        commodities_indexed(commodities@, map@),
        forall|k: Seq<char>| has_key(map@, k) == #[trigger] known_ids(commodities@).contains(k),
{
    let ghost start = views(errors@);
    let mut map: Catalog<Commodity> = Catalog::new();
    let mut i: usize = 0;
    assert(commodity_ids(commodities@.subrange(0, 0)) =~= Seq::<Seq<char>>::empty());
    assert(start + Seq::<ErrorView>::empty() =~= start);
    while i < commodities.len()
        invariant
            i <= commodities@.len(),
            commodities_indexed(commodities@.subrange(0, i as int), map@),
            views(errors@) == start + duplicate_errors("commodity"@, commodity_ids(commodities@.subrange(0, i as int))),
        decreases commodities@.len() - i,
    {
        let commodity = &commodities[i];
        let ghost prefix = commodities@.subrange(0, i as int);
        let ghost upto = commodities@.subrange(0, i + 1);
        let ghost before = views(errors@);
        let ghost prev = map@;
        proof {
            assert(upto.drop_last() =~= prefix);
            assert(upto.last() == *commodity);
            assert(commodity_ids(upto) =~= commodity_ids(prefix).push(commodity.id@));
            assert(commodity_ids(prefix) =~= prefix.map_values(|t: Commodity| t.key()));
            lemma_last_keyed_some(prefix, commodity.id@);
        }
        let copy = commodity.clone();
        let replaced = map.insert(copy);
        if replaced.is_some() {
            let e = ValidationError::DuplicateId { entity: "commodity", id: commodity.id.to_text() };
            proof {
                lemma_views_push(errors@, e);
            }
            errors.push(e);
        }
        proof {
            assert(commodity_ids(upto).drop_last() =~= commodity_ids(prefix));
            assert(views(errors@) =~= start + duplicate_errors("commodity"@, commodity_ids(upto)));
            assert forall|k: Seq<char>| match #[trigger] lookup(map@, k) {
                Some(c) => last_keyed(upto, k) matches Some(d) && same_commodity(d, c),
                None => last_keyed(upto, k) is None,
            } by {
                if k != commodity.id@ {
                    assert(lookup(map@, k) == lookup(prev, k));
                }
            }
        }
        i = i + 1;
    }
    proof {
        assert(commodities@.subrange(0, i as int) =~= commodities@);
        assert forall|k: Seq<char>| has_key(map@, k) == #[trigger] known_ids(commodities@).contains(k) by {
            lemma_last_keyed_some(commodities@, k);
            assert(commodity_ids(commodities@) =~= commodities@.map_values(|t: Commodity| t.key()));
            assert(has_key(map@, k) == (lookup(map@, k) is Some));
            assert((lookup(map@, k) is Some) == (last_keyed(commodities@, k) is Some));
            assert(known_ids(commodities@).contains(k) == commodity_ids(commodities@).contains(k));
        }
    }
    map
}

fn collect_facilities(facilities: &Vec<FacilityArchetype>, errors: &mut Vec<ValidationError>) -> (map: Catalog<
    FacilityArchetype,
>)
    ensures
        views(final(errors)@) == views(old(errors)@) + duplicate_errors("facility"@, facility_ids(facilities@)),
        facilities_indexed(facilities@, map@),
{
    let ghost start = views(errors@);
    let mut map: Catalog<FacilityArchetype> = Catalog::new();
    let mut i: usize = 0;
    assert(facility_ids(facilities@.subrange(0, 0)) =~= Seq::<Seq<char>>::empty());
    assert(start + Seq::<ErrorView>::empty() =~= start);
    while i < facilities.len()
        invariant
            i <= facilities@.len(),
            facilities_indexed(facilities@.subrange(0, i as int), map@),
            views(errors@) == start + duplicate_errors("facility"@, facility_ids(facilities@.subrange(0, i as int))),
        decreases facilities@.len() - i,
    {
        let facility = &facilities[i];
        let ghost prefix = facilities@.subrange(0, i as int);
        let ghost upto = facilities@.subrange(0, i + 1);
        let ghost prev = map@;
        proof {
            assert(upto.drop_last() =~= prefix);
            assert(upto.last() == *facility);
            assert(facility_ids(upto) =~= facility_ids(prefix).push(facility.id@));
            assert(facility_ids(prefix) =~= prefix.map_values(|t: FacilityArchetype| t.key()));
            lemma_last_keyed_some(prefix, facility.id@);
        }
        let copy = facility.clone();
        let replaced = map.insert(copy);
        if replaced.is_some() {
            let e = ValidationError::DuplicateId { entity: "facility", id: facility.id.to_text() };
            proof {
                lemma_views_push(errors@, e);
            }
            errors.push(e);
        }
        proof {
            assert(facility_ids(upto).drop_last() =~= facility_ids(prefix));
            assert(views(errors@) =~= start + duplicate_errors("facility"@, facility_ids(upto)));
            assert forall|k: Seq<char>| match #[trigger] lookup(map@, k) {
                Some(f) => last_keyed(upto, k) matches Some(g) && same_facility(g, f),
                None => last_keyed(upto, k) is None,
            } by {
                if k != facility.id@ {
                    assert(lookup(map@, k) == lookup(prev, k));
                }
            }
        }
        i = i + 1;
    }
    assert(facilities@.subrange(0, i as int) =~= facilities@);
    map
}

fn collect_recipe_ids(recipes: &Vec<ProcessRecipe>, errors: &mut Vec<ValidationError>) -> (seen: Catalog<RecipeId>)
    ensures
        views(final(errors)@) == views(old(errors)@) + duplicate_errors("recipe"@, recipe_ids(recipes@)),
        same_ids(id_keys(seen@), recipe_ids(recipes@)),
{
    let ghost start = views(errors@);
    let mut seen: Catalog<RecipeId> = Catalog::new();
    let mut i: usize = 0;
    assert(recipe_ids(recipes@.subrange(0, 0)) =~= Seq::<Seq<char>>::empty());
    assert(start + Seq::<ErrorView>::empty() =~= start);
    while i < recipes.len()
        invariant
            i <= recipes@.len(),
            forall|k: Seq<char>| has_key(seen@, k) == #[trigger] recipe_ids(recipes@.subrange(0, i as int)).contains(k),
            views(errors@) == start + duplicate_errors("recipe"@, recipe_ids(recipes@.subrange(0, i as int))),
        decreases recipes@.len() - i,
    {
        let recipe = &recipes[i];
        let ghost prefix = recipes@.subrange(0, i as int);
        let ghost upto = recipes@.subrange(0, i + 1);
        let ghost prev = seen@;
        proof {
            assert(upto.drop_last() =~= prefix);
            assert(recipe_ids(upto) =~= recipe_ids(prefix).push(recipe.id@));
        }
        let replaced = seen.insert(recipe.id.clone());
        if replaced.is_some() {
            let e = ValidationError::DuplicateId { entity: "recipe", id: recipe.id.to_text() };
            proof {
                lemma_views_push(errors@, e);
            }
            errors.push(e);
        }
        proof {
            assert(has_key(prev, recipe.id@) == (lookup(prev, recipe.id@) is Some));
            assert(recipe_ids(upto).drop_last() =~= recipe_ids(prefix));
            assert(views(errors@) =~= start + duplicate_errors("recipe"@, recipe_ids(upto)));
            assert forall|k: Seq<char>| has_key(seen@, k) == #[trigger] recipe_ids(upto).contains(k) by {
                assert(has_key(seen@, k) == (lookup(seen@, k) is Some));
                assert(has_key(prev, k) == (lookup(prev, k) is Some));
                if k == recipe.id@ {
                    assert(recipe_ids(upto)[i as int] == k);
                } else {
                    assert(lookup(seen@, k) == lookup(prev, k));
                    if recipe_ids(upto).contains(k) {
                        let j = choose|j: int| 0 <= j < recipe_ids(upto).len() && recipe_ids(upto)[j] == k;
                        assert(recipe_ids(prefix)[j] == k);
                    }
                    if recipe_ids(prefix).contains(k) {
                        let j = choose|j: int| 0 <= j < recipe_ids(prefix).len() && recipe_ids(prefix)[j] == k;
                        assert(recipe_ids(upto)[j] == k);
                    }
                }
            }
        }
        i = i + 1;
    }
    proof {
        assert(recipes@.subrange(0, i as int) =~= recipes@);
        assert forall|k: Seq<char>| id_keys(seen@).contains(k) == #[trigger] recipe_ids(recipes@).contains(k) by {
            lemma_has_key_contains(seen@, k);
            assert(id_keys(seen@) =~= seen@.map_values(|t: RecipeId| t.key()));
        }
    }
    seen
}

fn collect_regions(regions: &Vec<RegionProfile>, errors: &mut Vec<ValidationError>)
    ensures
        views(final(errors)@) == views(old(errors)@) + duplicate_errors("region"@, region_ids(regions@)),
{
    let ghost start = views(errors@);
    let mut seen: Catalog<RegionId> = Catalog::new();
    let mut i: usize = 0;
    assert(region_ids(regions@.subrange(0, 0)) =~= Seq::<Seq<char>>::empty());
    assert(start + Seq::<ErrorView>::empty() =~= start);
    while i < regions.len()
        invariant
            i <= regions@.len(),
            forall|k: Seq<char>| has_key(seen@, k) == #[trigger] region_ids(regions@.subrange(0, i as int)).contains(k),
            views(errors@) == start + duplicate_errors("region"@, region_ids(regions@.subrange(0, i as int))),
        decreases regions@.len() - i,
    {
        let region = &regions[i];
        let ghost prefix = regions@.subrange(0, i as int);
        let ghost upto = regions@.subrange(0, i + 1);
        let ghost prev = seen@;
        proof {
            assert(upto.drop_last() =~= prefix);
            assert(region_ids(upto) =~= region_ids(prefix).push(region.id@));
        }
        let replaced = seen.insert(region.id.clone());
        if replaced.is_some() {
            let e = ValidationError::DuplicateId { entity: "region", id: region.id.to_text() };
            proof {
                lemma_views_push(errors@, e);
            }
            errors.push(e);
        }
        proof {
            assert(has_key(prev, region.id@) == (lookup(prev, region.id@) is Some));
            assert(region_ids(upto).drop_last() =~= region_ids(prefix));
            assert(views(errors@) =~= start + duplicate_errors("region"@, region_ids(upto)));
            assert forall|k: Seq<char>| has_key(seen@, k) == #[trigger] region_ids(upto).contains(k) by {
                assert(has_key(seen@, k) == (lookup(seen@, k) is Some));
                assert(has_key(prev, k) == (lookup(prev, k) is Some));
                if k == region.id@ {
                    assert(region_ids(upto)[i as int] == k);
                } else {
                    assert(lookup(seen@, k) == lookup(prev, k));
                    if region_ids(upto).contains(k) {
                        let j = choose|j: int| 0 <= j < region_ids(upto).len() && region_ids(upto)[j] == k;
                        assert(region_ids(prefix)[j] == k);
                    }
                    if region_ids(prefix).contains(k) {
                        let j = choose|j: int| 0 <= j < region_ids(prefix).len() && region_ids(prefix)[j] == k;
                        assert(region_ids(upto)[j] == k);
                    }
                }
            }
        }
        i = i + 1;
    }
    assert(regions@.subrange(0, i as int) =~= regions@);
}


proof fn lemma_all_facility_errors_same_ids(
    s: Seq<FacilityArchetype>,
    known: Set<Seq<char>>,
    a: Seq<Seq<char>>,
    b: Seq<Seq<char>>,
)
    requires
        same_ids(a, b),
    ensures
        all_facility_errors(s, known, a) == all_facility_errors(s, known, b),
    decreases s.len(),
{
    if s.len() > 0 {
        lemma_all_facility_errors_same_ids(s.drop_last(), known, a, b);
        lemma_pattern_errors_same_ids(s.last().id@, s.last().accepts_recipes@, a, b);
    }
}

fn validate_recipe(
    recipe: &ProcessRecipe,
    commodities_by_id: &Catalog<Commodity>,
    Ghost(known): Ghost<Set<Seq<char>>>,
    errors: &mut Vec<ValidationError>,
)
    requires
        forall|k: Seq<char>| has_key(commodities_by_id@, k) == #[trigger] known.contains(k),
    ensures
        views(final(errors)@) == views(old(errors)@) + recipe_errors(*recipe, known),
{
    let ghost start = views(errors@);
    validate_common(
        "recipe",
        recipe.id.to_text(),
        recipe.display_name.as_str(),
        &recipe.source_refs,
        &recipe.authored_status,
        errors,
    );
    let ghost after_common = views(errors@);
    if recipe.duration_ticks == 0 {
        let e = ValidationError::InvalidRecipeDuration { recipe: recipe.id.clone() };
        proof {
            lemma_views_push(errors@, e);
        }
        errors.push(e);
    }
    let ghost after_duration = views(errors@);
    assert(after_duration =~= after_common + (if recipe.duration_ticks == 0 {
        seq![ErrorView::InvalidRecipeDuration { recipe: recipe.id@ }]
    } else {
        Seq::<ErrorView>::empty()
    }));
    if recipe.outputs.len() == 0 {
        let e = ValidationError::RecipeWithoutOutput { recipe: recipe.id.clone() };
        proof {
            lemma_views_push(errors@, e);
        }
        errors.push(e);
    }
    let ghost after_outputs = views(errors@);
    assert(after_outputs =~= after_duration + (if recipe.outputs@.len() == 0 {
        seq![ErrorView::RecipeWithoutOutput { recipe: recipe.id@ }]
    } else {
        Seq::<ErrorView>::empty()
    }));
    let owner = recipe.id.to_text();
    validate_quantities(&owner, &recipe.inputs, commodities_by_id, Ghost(known), errors);
    validate_quantities(&owner, &recipe.outputs, commodities_by_id, Ghost(known), errors);
    validate_quantities(&owner, &recipe.byproducts, commodities_by_id, Ghost(known), errors);
    assert(views(errors@) =~= start + recipe_errors(*recipe, known));
}

fn validate_facility(
    facility: &FacilityArchetype,
    commodities_by_id: &Catalog<Commodity>,
    Ghost(known): Ghost<Set<Seq<char>>>,
    recipe_ids: &Catalog<RecipeId>,
    errors: &mut Vec<ValidationError>,
)
    requires
        forall|k: Seq<char>| has_key(commodities_by_id@, k) == #[trigger] known.contains(k),
    ensures
        views(final(errors)@) == views(old(errors)@) + facility_errors(*facility, known, id_keys(recipe_ids@)),
{
    let ghost start = views(errors@);
    let ghost ids = id_keys(recipe_ids@);
    validate_common(
        "facility",
        facility.id.to_text(),
        facility.display_name.as_str(),
        &facility.source_refs,
        &facility.authored_status,
        errors,
    );
    let owner = facility.id.to_text();
    validate_quantities(&owner, &facility.build_cost, commodities_by_id, Ghost(known), errors);
    let ghost mid = views(errors@);
    let patterns = &facility.accepts_recipes;
    let mut i: usize = 0;
    assert(mid + pattern_errors(facility.id@, patterns@.subrange(0, 0), ids) =~= mid);
    while i < patterns.len()
        invariant
            ids == id_keys(recipe_ids@),
            i <= patterns@.len(),
            views(errors@) == mid + pattern_errors(facility.id@, patterns@.subrange(0, i as int), ids),
        decreases patterns@.len() - i,
    {
        let pattern = &patterns[i];
        let ghost upto = patterns@.subrange(0, i + 1);
        assert(upto.drop_last() =~= patterns@.subrange(0, i as int));
        assert(upto.last() == *pattern);
        let ghost before = views(errors@);
        if !recipe_pattern_matches_any(pattern.as_str(), recipe_ids) {
            let e = ValidationError::UnknownRecipePattern { facility: facility.id.clone(), pattern: pattern.clone() };
            proof {
                lemma_views_push(errors@, e);
            }
            errors.push(e);
        }
        assert(views(errors@) =~= mid + pattern_errors(facility.id@, upto, ids));
        i = i + 1;
    }
    assert(patterns@.subrange(0, i as int) =~= patterns@);
    assert(views(errors@) =~= start + facility_errors(*facility, known, ids));
}

fn validate_region(
    region: &RegionProfile,
    commodities_by_id: &Catalog<Commodity>,
    Ghost(known): Ghost<Set<Seq<char>>>,
    errors: &mut Vec<ValidationError>,
)
    requires
        forall|k: Seq<char>| has_key(commodities_by_id@, k) == #[trigger] known.contains(k),
    ensures
        views(final(errors)@) == views(old(errors)@) + region_errors(*region, known),
{
    let ghost start = views(errors@);
    validate_common(
        "region",
        region.id.to_text(),
        region.display_name.as_str(),
        &region.source_refs,
        &region.authored_status,
        errors,
    );
    let ghost mid = views(errors@);
    let resources = &region.resources;
    let mut i: usize = 0;
    assert(mid + resources_errors(region.id@, resources@.subrange(0, 0), known) =~= mid);
    while i < resources.len()
        invariant
            forall|k: Seq<char>| has_key(commodities_by_id@, k) == #[trigger] known.contains(k),
            i <= resources@.len(),
            views(errors@) == mid + resources_errors(region.id@, resources@.subrange(0, i as int), known),
        decreases resources@.len() - i,
    {
        let resource = &resources[i];
        let ghost upto = resources@.subrange(0, i + 1);
        assert(upto.drop_last() =~= resources@.subrange(0, i as int));
        assert(upto.last() == *resource);
        let ghost before = views(errors@);
        if !commodities_by_id.contains_key(resource.commodity.as_str()) {
            let e = ValidationError::UnknownCommodity { owner: region.id.to_text(), commodity: resource.commodity.clone() };
            proof {
                lemma_views_push(errors@, e);
            }
            errors.push(e);
        }
        if !resource.abundance.is_in_unit_interval() {
            let e = ValidationError::InvalidAbundance {
                region: region.id.clone(),
                commodity: resource.commodity.clone(),
                abundance: resource.abundance,
            };
            proof {
                lemma_views_push(errors@, e);
            }
            errors.push(e);
        }
        assert(views(errors@) =~= before + resource_errors(region.id@, *resource, known));
        assert(views(errors@) =~= mid + resources_errors(region.id@, upto, known));
        i = i + 1;
    }
    assert(resources@.subrange(0, i as int) =~= resources@);
    assert(views(errors@) =~= start + region_errors(*region, known));
}

/// Checks the canonical economy. On success the records are indexed by id
/// and the recipes are turned into a recipe book; otherwise every problem
/// found is reported, in order.
pub fn validate_canonical(economy: CanonicalEconomy) -> (r: Result<ValidatedEconomy, ValidationReport>)
    ensures
        match r {
            Ok(v) => {
                &&& canonical_errors(economy).len() == 0
                &&& v.canonical == economy
                &&& commodities_indexed(economy.commodities@, v.commodities_by_id@)
                &&& facilities_indexed(economy.facilities@, v.facilities_by_id@)
                &&& book_of(economy.recipes@, v.recipe_book@)
            },
            Err(report) => {
                &&& canonical_errors(economy).len() > 0
                &&& views(report.errors@) == canonical_errors(economy)
            },
        },
{
    let mut errors: Vec<ValidationError> = Vec::new();
    let ghost known = known_ids(economy.commodities@);
    let ghost ids = recipe_ids(economy.recipes@);
    let commodities_by_id = collect_commodities(&economy.commodities, &mut errors);
    let recipe_ids_seen = collect_recipe_ids(&economy.recipes, &mut errors);
    let facilities_by_id = collect_facilities(&economy.facilities, &mut errors);
    collect_regions(&economy.regions, &mut errors);
    let ghost dups = views(errors@);

    let mut i: usize = 0;
    assert(dups + all_commodity_errors(economy.commodities@.subrange(0, 0)) =~= dups);
    while i < economy.commodities.len()
        invariant
            i <= economy.commodities@.len(),
            views(errors@) == dups + all_commodity_errors(economy.commodities@.subrange(0, i as int)),
        decreases economy.commodities@.len() - i,
    {
        let commodity = &economy.commodities[i];
        let ghost upto = economy.commodities@.subrange(0, i + 1);
        assert(upto.drop_last() =~= economy.commodities@.subrange(0, i as int));
        validate_common(
            "commodity",
            commodity.id.to_text(),
            commodity.display_name.as_str(),
            &commodity.source_refs,
            &commodity.authored_status,
            &mut errors,
        );
        assert(views(errors@) =~= dups + all_commodity_errors(upto));
        i = i + 1;
    }
    assert(economy.commodities@.subrange(0, i as int) =~= economy.commodities@);
    let ghost after_commodities = views(errors@);

    let mut i: usize = 0;
    assert(after_commodities + all_recipe_errors(economy.recipes@.subrange(0, 0), known) =~= after_commodities);
    while i < economy.recipes.len()
        invariant
            i <= economy.recipes@.len(),
            forall|k: Seq<char>| has_key(commodities_by_id@, k) == #[trigger] known.contains(k),
            views(errors@) == after_commodities + all_recipe_errors(economy.recipes@.subrange(0, i as int), known),
        decreases economy.recipes@.len() - i,
    {
        let recipe = &economy.recipes[i];
        let ghost upto = economy.recipes@.subrange(0, i + 1);
        assert(upto.drop_last() =~= economy.recipes@.subrange(0, i as int));
        validate_recipe(recipe, &commodities_by_id, Ghost(known), &mut errors);
        assert(views(errors@) =~= after_commodities + all_recipe_errors(upto, known));
        i = i + 1;
    }
    assert(economy.recipes@.subrange(0, i as int) =~= economy.recipes@);
    let ghost after_recipes = views(errors@);

    let ghost keys = id_keys(recipe_ids_seen@);
    let mut i: usize = 0;
    assert(after_recipes + all_facility_errors(economy.facilities@.subrange(0, 0), known, keys) =~= after_recipes);
    while i < economy.facilities.len()
        invariant
            i <= economy.facilities@.len(),
            keys == id_keys(recipe_ids_seen@),
            forall|k: Seq<char>| has_key(commodities_by_id@, k) == #[trigger] known.contains(k),
            views(errors@) == after_recipes + all_facility_errors(economy.facilities@.subrange(0, i as int), known, keys),
        decreases economy.facilities@.len() - i,
    {
        let facility = &economy.facilities[i];
        let ghost upto = economy.facilities@.subrange(0, i + 1);
        assert(upto.drop_last() =~= economy.facilities@.subrange(0, i as int));
        validate_facility(facility, &commodities_by_id, Ghost(known), &recipe_ids_seen, &mut errors);
        assert(views(errors@) =~= after_recipes + all_facility_errors(upto, known, keys));
        i = i + 1;
    }
    assert(economy.facilities@.subrange(0, i as int) =~= economy.facilities@);
    proof {
        lemma_all_facility_errors_same_ids(economy.facilities@, known, keys, ids);
    }
    let ghost after_facilities = views(errors@);

    let mut i: usize = 0;
    assert(after_facilities + all_region_errors(economy.regions@.subrange(0, 0), known) =~= after_facilities);
    while i < economy.regions.len()
        invariant
            i <= economy.regions@.len(),
            forall|k: Seq<char>| has_key(commodities_by_id@, k) == #[trigger] known.contains(k),
            views(errors@) == after_facilities + all_region_errors(economy.regions@.subrange(0, i as int), known),
        decreases economy.regions@.len() - i,
    {
        let region = &economy.regions[i];
        let ghost upto = economy.regions@.subrange(0, i + 1);
        assert(upto.drop_last() =~= economy.regions@.subrange(0, i as int));
        validate_region(region, &commodities_by_id, Ghost(known), &mut errors);
        assert(views(errors@) =~= after_facilities + all_region_errors(upto, known));
        i = i + 1;
    }
    assert(economy.regions@.subrange(0, i as int) =~= economy.regions@);
    assert(views(errors@) =~= canonical_errors(economy));

    if errors.len() > 0 {
        return Err(ValidationReport { errors });
    }
    let recipe_book = economy.recipe_book();
    Ok(ValidatedEconomy { canonical: economy, commodities_by_id, facilities_by_id, recipe_book })
}


// ---------------------------------------------------------------------------
// What a validated economy guarantees.

/// No id occurs twice.
pub open spec fn ids_unique(ids: Seq<Seq<char>>) -> bool {
    forall|i: int, j: int| 0 <= i < j < ids.len() ==> #[trigger] ids[i] != #[trigger] ids[j]
}

/// Every quantity names a known commodity and is not negative.
pub open spec fn quantities_sound(qs: Seq<Quantity>, known: Set<Seq<char>>) -> bool {
    forall|i: int|
        0 <= i < qs.len() ==> known.contains(#[trigger] qs[i].commodity@) && !bits_below_zero(qs[i].qty@)
}

/// The shared fields of a record are sound: a display name that is not
/// blank, and sources unless the record is hand-authored.
pub open spec fn common_sound(display_name: Seq<char>, source_ref_count: nat, status: AuthoredStatus) -> bool {
    &&& !is_blank(display_name)
    &&& (status == AuthoredStatus::HandAuthored || source_ref_count > 0)
}

/// A recipe is sound: it takes at least one tick, makes something, and all
/// its quantities name known commodities and are not negative.
pub open spec fn recipe_sound(r: ProcessRecipe, known: Set<Seq<char>>) -> bool {
    &&& common_sound(r.display_name@, r.source_refs@.len(), r.authored_status)
    &&& r.duration_ticks > 0
    &&& r.outputs@.len() > 0
    &&& quantities_sound(r.inputs@, known)
    &&& quantities_sound(r.outputs@, known)
    &&& quantities_sound(r.byproducts@, known)
}

/// A facility archetype is sound: its build cost is sound, and each recipe
/// pattern it accepts matches some recipe id.
pub open spec fn facility_sound(f: FacilityArchetype, known: Set<Seq<char>>, ids: Seq<Seq<char>>) -> bool {
    &&& common_sound(f.display_name@, f.source_refs@.len(), f.authored_status)
    &&& quantities_sound(f.build_cost@, known)
    &&& forall|i: int| 0 <= i < f.accepts_recipes@.len() ==> pattern_matches_some(#[trigger] f.accepts_recipes@[i]@, ids)
}

/// A region is sound: each resource names a known commodity with an
/// abundance in `0.0..=1.0`.
pub open spec fn region_sound(r: RegionProfile, known: Set<Seq<char>>) -> bool {
    &&& common_sound(r.display_name@, r.source_refs@.len(), r.authored_status)
    &&& forall|i: int|
        0 <= i < r.resources@.len() ==> known.contains(#[trigger] r.resources@[i].commodity@)
            && bits_in_unit_interval(r.resources@[i].abundance@)
}

/// Everything the validator checks holds of the economy.
pub open spec fn economy_sound(e: CanonicalEconomy) -> bool {
    let known = known_ids(e.commodities@);
    let ids = recipe_ids(e.recipes@);
    &&& ids_unique(commodity_ids(e.commodities@))
    &&& ids_unique(ids)
    &&& ids_unique(facility_ids(e.facilities@))
    &&& ids_unique(region_ids(e.regions@))
    &&& forall|i: int|
        0 <= i < e.commodities@.len() ==> common_sound(
            #[trigger] e.commodities@[i].display_name@,
            e.commodities@[i].source_refs@.len(),
            e.commodities@[i].authored_status,
        )
    &&& forall|i: int| 0 <= i < e.recipes@.len() ==> recipe_sound(#[trigger] e.recipes@[i], known)
    &&& forall|i: int| 0 <= i < e.facilities@.len() ==> facility_sound(#[trigger] e.facilities@[i], known, ids)
    &&& forall|i: int| 0 <= i < e.regions@.len() ==> region_sound(#[trigger] e.regions@[i], known)
}

proof fn lemma_no_duplicates(entity: Seq<char>, ids: Seq<Seq<char>>)
    requires
        duplicate_errors(entity, ids).len() == 0,
    ensures
        ids_unique(ids),
    decreases ids.len(),
{
    if ids.len() > 0 {
        let prev = ids.drop_last();
        lemma_no_duplicates(entity, prev);
        assert forall|i: int, j: int| 0 <= i < j < ids.len() implies #[trigger] ids[i] != #[trigger] ids[j] by {
            if j == ids.len() - 1 {
                if ids[i] == ids[j] {
                    assert(prev[i] == ids.last());
                    assert(prev.contains(ids.last()));
                }
            } else {
                assert(prev[i] == ids[i] && prev[j] == ids[j]);
            }
        }
    }
}

proof fn lemma_common_sound(entity: Seq<char>, id: Seq<char>, name: Seq<char>, count: nat, status: AuthoredStatus)
    requires
        common_errors(entity, id, name, count, status).len() == 0,
    ensures
        common_sound(name, count, status),
{
}

proof fn lemma_quantities_sound(owner: Seq<char>, qs: Seq<Quantity>, known: Set<Seq<char>>)
    requires
        quantities_errors(owner, qs, known).len() == 0,
    ensures
        quantities_sound(qs, known),
    decreases qs.len(),
{
    if qs.len() > 0 {
        lemma_quantities_sound(owner, qs.drop_last(), known);
        assert forall|i: int| 0 <= i < qs.len() implies known.contains(#[trigger] qs[i].commodity@) && !bits_below_zero(
            qs[i].qty@,
        ) by {
            if i < qs.len() - 1 {
                assert(qs.drop_last()[i] == qs[i]);
            }
        }
    }
}

proof fn lemma_patterns_sound(facility: Seq<char>, patterns: Seq<String>, ids: Seq<Seq<char>>)
    requires
        pattern_errors(facility, patterns, ids).len() == 0,
    ensures
        forall|i: int| 0 <= i < patterns.len() ==> pattern_matches_some(#[trigger] patterns[i]@, ids),
    decreases patterns.len(),
{
    if patterns.len() > 0 {
        lemma_patterns_sound(facility, patterns.drop_last(), ids);
        assert forall|i: int| 0 <= i < patterns.len() implies pattern_matches_some(#[trigger] patterns[i]@, ids) by {
            if i < patterns.len() - 1 {
                assert(patterns.drop_last()[i] == patterns[i]);
            }
        }
    }
}

proof fn lemma_resources_sound(region: Seq<char>, rs: Seq<RegionResource>, known: Set<Seq<char>>)
    requires
        resources_errors(region, rs, known).len() == 0,
    ensures
        forall|i: int|
            0 <= i < rs.len() ==> known.contains(#[trigger] rs[i].commodity@) && bits_in_unit_interval(rs[i].abundance@),
    decreases rs.len(),
{
    if rs.len() > 0 {
        lemma_resources_sound(region, rs.drop_last(), known);
        assert forall|i: int| 0 <= i < rs.len() implies known.contains(#[trigger] rs[i].commodity@)
            && bits_in_unit_interval(rs[i].abundance@) by {
            if i < rs.len() - 1 {
                assert(rs.drop_last()[i] == rs[i]);
            }
        }
    }
}

proof fn lemma_all_commodities_sound(s: Seq<Commodity>)
    requires
        all_commodity_errors(s).len() == 0,
    ensures
        forall|i: int|
            0 <= i < s.len() ==> common_sound(
                #[trigger] s[i].display_name@,
                s[i].source_refs@.len(),
                s[i].authored_status,
            ),
    decreases s.len(),
{
    if s.len() > 0 {
        lemma_all_commodities_sound(s.drop_last());
        let c = s.last();
        lemma_common_sound("commodity"@, c.id@, c.display_name@, c.source_refs@.len(), c.authored_status);
        assert forall|i: int| 0 <= i < s.len() implies common_sound(
            #[trigger] s[i].display_name@,
            s[i].source_refs@.len(),
            s[i].authored_status,
        ) by {
            if i < s.len() - 1 {
                assert(s.drop_last()[i] == s[i]);
            }
        }
    }
}

proof fn lemma_recipe_sound(r: ProcessRecipe, known: Set<Seq<char>>)
    requires
        recipe_errors(r, known).len() == 0,
    ensures
        recipe_sound(r, known),
{
    lemma_common_sound("recipe"@, r.id@, r.display_name@, r.source_refs@.len(), r.authored_status);
    lemma_quantities_sound(r.id@, r.inputs@, known);
    lemma_quantities_sound(r.id@, r.outputs@, known);
    lemma_quantities_sound(r.id@, r.byproducts@, known);
}

proof fn lemma_all_recipes_sound(s: Seq<ProcessRecipe>, known: Set<Seq<char>>)
    requires
        all_recipe_errors(s, known).len() == 0,
    ensures
        forall|i: int| 0 <= i < s.len() ==> recipe_sound(#[trigger] s[i], known),
    decreases s.len(),
{
    if s.len() > 0 {
        lemma_all_recipes_sound(s.drop_last(), known);
        lemma_recipe_sound(s.last(), known);
        assert forall|i: int| 0 <= i < s.len() implies recipe_sound(#[trigger] s[i], known) by {
            if i < s.len() - 1 {
                assert(s.drop_last()[i] == s[i]);
            }
        }
    }
}

proof fn lemma_all_facilities_sound(s: Seq<FacilityArchetype>, known: Set<Seq<char>>, ids: Seq<Seq<char>>)
    requires
        all_facility_errors(s, known, ids).len() == 0,
    ensures
        forall|i: int| 0 <= i < s.len() ==> facility_sound(#[trigger] s[i], known, ids),
    decreases s.len(),
{
    if s.len() > 0 {
        lemma_all_facilities_sound(s.drop_last(), known, ids);
        let f = s.last();
        lemma_common_sound("facility"@, f.id@, f.display_name@, f.source_refs@.len(), f.authored_status);
        lemma_quantities_sound(f.id@, f.build_cost@, known);
        lemma_patterns_sound(f.id@, f.accepts_recipes@, ids);
        assert forall|i: int| 0 <= i < s.len() implies facility_sound(#[trigger] s[i], known, ids) by {
            if i < s.len() - 1 {
                assert(s.drop_last()[i] == s[i]);
            }
        }
    }
}

proof fn lemma_all_regions_sound(s: Seq<RegionProfile>, known: Set<Seq<char>>)
    requires
        all_region_errors(s, known).len() == 0,
    ensures
        forall|i: int| 0 <= i < s.len() ==> region_sound(#[trigger] s[i], known),
    decreases s.len(),
{
    if s.len() > 0 {
        lemma_all_regions_sound(s.drop_last(), known);
        let r = s.last();
        lemma_common_sound("region"@, r.id@, r.display_name@, r.source_refs@.len(), r.authored_status);
        lemma_resources_sound(r.id@, r.resources@, known);
        assert(region_errors(r, known).len() == 0);
        assert(region_sound(r, known));
        assert forall|i: int| 0 <= i < s.len() implies region_sound(#[trigger] s[i], known) by {
            if i < s.len() - 1 {
                assert(s.drop_last()[i] == s[i]);
            }
        }
    }
}

/// An economy that passes validation has what the validator checks: unique
/// ids of every kind, display names that are not blank, sources on every
/// record that is not hand-authored, recipes that take at least one tick and
/// make something, quantities that name known commodities and are not
/// negative, recipe patterns that each match some recipe, and abundances in
/// `0.0..=1.0`.
pub proof fn lemma_validated_economy_is_sound(e: CanonicalEconomy)
    requires
        canonical_errors(e).len() == 0,
    ensures
        economy_sound(e),
{
    let known = known_ids(e.commodities@);
    let ids = recipe_ids(e.recipes@);
    lemma_no_duplicates("commodity"@, commodity_ids(e.commodities@));
    lemma_no_duplicates("recipe"@, ids);
    lemma_no_duplicates("facility"@, facility_ids(e.facilities@));
    lemma_no_duplicates("region"@, region_ids(e.regions@));
    lemma_all_commodities_sound(e.commodities@);
    lemma_all_recipes_sound(e.recipes@, known);
    lemma_all_facilities_sound(e.facilities@, known, ids);
    lemma_all_regions_sound(e.regions@, known);
}

proof fn lemma_unique_has_no_duplicates(entity: Seq<char>, ids: Seq<Seq<char>>)
    requires
        ids_unique(ids),
    ensures
        duplicate_errors(entity, ids).len() == 0,
    decreases ids.len(),
{
    if ids.len() > 0 {
        let prev = ids.drop_last();
        assert forall|i: int, j: int| 0 <= i < j < prev.len() implies #[trigger] prev[i] != #[trigger] prev[j] by {
            assert(prev[i] == ids[i] && prev[j] == ids[j]);
        }
        lemma_unique_has_no_duplicates(entity, prev);
        if prev.contains(ids.last()) {
            let i = choose|i: int| 0 <= i < prev.len() && prev[i] == ids.last();
            assert(ids[i] == ids[ids.len() - 1]);
        }
    }
}

proof fn lemma_sound_quantities_have_no_errors(owner: Seq<char>, qs: Seq<Quantity>, known: Set<Seq<char>>)
    requires
        quantities_sound(qs, known),
    ensures
        quantities_errors(owner, qs, known).len() == 0,
    decreases qs.len(),
{
    if qs.len() > 0 {
        let prev = qs.drop_last();
        assert forall|i: int| 0 <= i < prev.len() implies known.contains(#[trigger] prev[i].commodity@)
            && !bits_below_zero(prev[i].qty@) by {
            assert(prev[i] == qs[i]);
        }
        lemma_sound_quantities_have_no_errors(owner, prev, known);
        assert(known.contains(qs[qs.len() - 1].commodity@));
    }
}

proof fn lemma_matching_patterns_have_no_errors(facility: Seq<char>, patterns: Seq<String>, ids: Seq<Seq<char>>)
    requires
        forall|i: int| 0 <= i < patterns.len() ==> pattern_matches_some(#[trigger] patterns[i]@, ids),
    ensures
        pattern_errors(facility, patterns, ids).len() == 0,
    decreases patterns.len(),
{
    if patterns.len() > 0 {
        let prev = patterns.drop_last();
        assert forall|i: int| 0 <= i < prev.len() implies pattern_matches_some(#[trigger] prev[i]@, ids) by {
            assert(prev[i] == patterns[i]);
        }
        lemma_matching_patterns_have_no_errors(facility, prev, ids);
        assert(pattern_matches_some(patterns[patterns.len() - 1]@, ids));
    }
}

proof fn lemma_sound_resources_have_no_errors(region: Seq<char>, rs: Seq<RegionResource>, known: Set<Seq<char>>)
    requires
        forall|i: int|
            0 <= i < rs.len() ==> known.contains(#[trigger] rs[i].commodity@) && bits_in_unit_interval(rs[i].abundance@),
    ensures
        resources_errors(region, rs, known).len() == 0,
    decreases rs.len(),
{
    if rs.len() > 0 {
        let prev = rs.drop_last();
        assert forall|i: int| 0 <= i < prev.len() implies known.contains(#[trigger] prev[i].commodity@)
            && bits_in_unit_interval(prev[i].abundance@) by {
            assert(prev[i] == rs[i]);
        }
        lemma_sound_resources_have_no_errors(region, prev, known);
        assert(known.contains(rs[rs.len() - 1].commodity@));
    }
}

proof fn lemma_sound_commodities_have_no_errors(s: Seq<Commodity>)
    requires
        forall|i: int|
            0 <= i < s.len() ==> common_sound(
                #[trigger] s[i].display_name@,
                s[i].source_refs@.len(),
                s[i].authored_status,
            ),
    ensures
        all_commodity_errors(s).len() == 0,
    decreases s.len(),
{
    if s.len() > 0 {
        let prev = s.drop_last();
        assert forall|i: int| 0 <= i < prev.len() implies common_sound(
            #[trigger] prev[i].display_name@,
            prev[i].source_refs@.len(),
            prev[i].authored_status,
        ) by {
            assert(prev[i] == s[i]);
        }
        lemma_sound_commodities_have_no_errors(prev);
        let c = s[s.len() - 1];
        assert(common_sound(c.display_name@, c.source_refs@.len(), c.authored_status));
    }
}

proof fn lemma_sound_recipes_have_no_errors(s: Seq<ProcessRecipe>, known: Set<Seq<char>>)
    requires
        forall|i: int| 0 <= i < s.len() ==> recipe_sound(#[trigger] s[i], known),
    ensures
        all_recipe_errors(s, known).len() == 0,
    decreases s.len(),
{
    if s.len() > 0 {
        let prev = s.drop_last();
        assert forall|i: int| 0 <= i < prev.len() implies recipe_sound(#[trigger] prev[i], known) by {
            assert(prev[i] == s[i]);
        }
        lemma_sound_recipes_have_no_errors(prev, known);
        let r = s[s.len() - 1];
        assert(recipe_sound(r, known));
        lemma_sound_quantities_have_no_errors(r.id@, r.inputs@, known);
        lemma_sound_quantities_have_no_errors(r.id@, r.outputs@, known);
        lemma_sound_quantities_have_no_errors(r.id@, r.byproducts@, known);
    }
}

proof fn lemma_sound_facilities_have_no_errors(s: Seq<FacilityArchetype>, known: Set<Seq<char>>, ids: Seq<Seq<char>>)
    requires
        forall|i: int| 0 <= i < s.len() ==> facility_sound(#[trigger] s[i], known, ids),
    ensures
        all_facility_errors(s, known, ids).len() == 0,
    decreases s.len(),
{
    if s.len() > 0 {
        let prev = s.drop_last();
        assert forall|i: int| 0 <= i < prev.len() implies facility_sound(#[trigger] prev[i], known, ids) by {
            assert(prev[i] == s[i]);
        }
        lemma_sound_facilities_have_no_errors(prev, known, ids);
        let f = s[s.len() - 1];
        assert(facility_sound(f, known, ids));
        lemma_sound_quantities_have_no_errors(f.id@, f.build_cost@, known);
        lemma_matching_patterns_have_no_errors(f.id@, f.accepts_recipes@, ids);
    }
}

proof fn lemma_sound_regions_have_no_errors(s: Seq<RegionProfile>, known: Set<Seq<char>>)
    requires
        forall|i: int| 0 <= i < s.len() ==> region_sound(#[trigger] s[i], known),
    ensures
        all_region_errors(s, known).len() == 0,
    decreases s.len(),
{
    if s.len() > 0 {
        let prev = s.drop_last();
        assert forall|i: int| 0 <= i < prev.len() implies region_sound(#[trigger] prev[i], known) by {
            assert(prev[i] == s[i]);
        }
        lemma_sound_regions_have_no_errors(prev, known);
        let r = s[s.len() - 1];
        assert(region_sound(r, known));
        lemma_sound_resources_have_no_errors(r.id@, r.resources@, known);
    }
}

/// The validator refuses no sound economy: an economy with unique ids, names
/// that are not blank, sources where they are needed, sound recipes,
/// facilities and regions passes validation.
pub proof fn lemma_sound_economy_validates(e: CanonicalEconomy)
    requires
        economy_sound(e),
    ensures
        canonical_errors(e).len() == 0,
{
    let known = known_ids(e.commodities@);
    let ids = recipe_ids(e.recipes@);
    lemma_unique_has_no_duplicates("commodity"@, commodity_ids(e.commodities@));
    lemma_unique_has_no_duplicates("recipe"@, ids);
    lemma_unique_has_no_duplicates("facility"@, facility_ids(e.facilities@));
    lemma_unique_has_no_duplicates("region"@, region_ids(e.regions@));
    lemma_sound_commodities_have_no_errors(e.commodities@);
    lemma_sound_recipes_have_no_errors(e.recipes@, known);
    lemma_sound_facilities_have_no_errors(e.facilities@, known, ids);
    lemma_sound_regions_have_no_errors(e.regions@, known);
}

/// A repeated id is reported: in a list of ids where the id at `j` repeats
/// the one at an earlier index `i`, the duplicate problems name it.
pub proof fn lemma_repeated_id_reported(entity: Seq<char>, ids: Seq<Seq<char>>, i: int, j: int)
    requires
        0 <= i < j < ids.len(),
        ids[i] == ids[j],
    ensures
        duplicate_errors(entity, ids).contains(ErrorView::DuplicateId { entity, id: ids[j] }),
    decreases ids.len(),
{
    let prev = ids.drop_last();
    let e = ErrorView::DuplicateId { entity, id: ids[j] };
    if j == ids.len() - 1 {
        assert(prev[i] == ids.last());
        assert(prev.contains(ids.last()));
        let d = duplicate_errors(entity, ids);
        assert(d[d.len() - 1] == e);
    } else {
        assert(prev[i] == ids[i] && prev[j] == ids[j]);
        lemma_repeated_id_reported(entity, prev, i, j);
        let before = duplicate_errors(entity, prev);
        let k = choose|k: int| 0 <= k < before.len() && before[k] == e;
        assert(duplicate_errors(entity, ids)[k] == e);
    }
}

proof fn lemma_contains_in_concat(a: Seq<ErrorView>, b: Seq<ErrorView>, x: ErrorView)
    ensures
        a.contains(x) || b.contains(x) ==> (a + b).contains(x),
{
    if a.contains(x) {
        let k = choose|k: int| 0 <= k < a.len() && a[k] == x;
        assert((a + b)[k] == x);
    } else if b.contains(x) {
        let k = choose|k: int| 0 <= k < b.len() && b[k] == x;
        assert((a + b)[a.len() + k] == x);
    }
}

proof fn lemma_duplicate_in_canonical(e: CanonicalEconomy, x: ErrorView)
    requires
        duplicate_errors("commodity"@, commodity_ids(e.commodities@)).contains(x) || duplicate_errors(
            "recipe"@,
            recipe_ids(e.recipes@),
        ).contains(x) || duplicate_errors("facility"@, facility_ids(e.facilities@)).contains(x) || duplicate_errors(
            "region"@,
            region_ids(e.regions@),
        ).contains(x),
    ensures
        canonical_errors(e).contains(x),
{
    let known = known_ids(e.commodities@);
    let ids = recipe_ids(e.recipes@);
    let dc = duplicate_errors("commodity"@, commodity_ids(e.commodities@));
    let dr = duplicate_errors("recipe"@, ids);
    let df = duplicate_errors("facility"@, facility_ids(e.facilities@));
    let dg = duplicate_errors("region"@, region_ids(e.regions@));
    let a1 = dc + dr;
    lemma_contains_in_concat(dc, dr, x);
    let a2 = a1 + df;
    lemma_contains_in_concat(a1, df, x);
    let a3 = a2 + dg;
    lemma_contains_in_concat(a2, dg, x);
    let a4 = a3 + all_commodity_errors(e.commodities@);
    lemma_contains_in_concat(a3, all_commodity_errors(e.commodities@), x);
    let a5 = a4 + all_recipe_errors(e.recipes@, known);
    lemma_contains_in_concat(a4, all_recipe_errors(e.recipes@, known), x);
    let a6 = a5 + all_facility_errors(e.facilities@, known, ids);
    lemma_contains_in_concat(a5, all_facility_errors(e.facilities@, known, ids), x);
    lemma_contains_in_concat(a6, all_region_errors(e.regions@, known), x);
}

/// Every repeated id of the economy is reported, whatever its kind: when
/// the record at `j` repeats the id of the record at an earlier index `i`,
/// the validator's problems name it as a duplicate of that kind.
pub proof fn lemma_repeated_ids_are_reported(e: CanonicalEconomy, i: int, j: int)
    requires
        0 <= i < j,
    ensures
        j < e.commodities@.len() && e.commodities@[i].id@ == e.commodities@[j].id@ ==> canonical_errors(e).contains(
            ErrorView::DuplicateId { entity: "commodity"@, id: e.commodities@[j].id@ },
        ),
        j < e.recipes@.len() && e.recipes@[i].id@ == e.recipes@[j].id@ ==> canonical_errors(e).contains(
            ErrorView::DuplicateId { entity: "recipe"@, id: e.recipes@[j].id@ },
        ),
        j < e.facilities@.len() && e.facilities@[i].id@ == e.facilities@[j].id@ ==> canonical_errors(e).contains(
            ErrorView::DuplicateId { entity: "facility"@, id: e.facilities@[j].id@ },
        ),
        j < e.regions@.len() && e.regions@[i].id@ == e.regions@[j].id@ ==> canonical_errors(e).contains(
            ErrorView::DuplicateId { entity: "region"@, id: e.regions@[j].id@ },
        ),
{
    if j < e.commodities@.len() && e.commodities@[i].id@ == e.commodities@[j].id@ {
        let ids = commodity_ids(e.commodities@);
        assert(ids[i] == ids[j]);
        lemma_repeated_id_reported("commodity"@, ids, i, j);
        lemma_duplicate_in_canonical(e, ErrorView::DuplicateId { entity: "commodity"@, id: ids[j] });
    }
    if j < e.recipes@.len() && e.recipes@[i].id@ == e.recipes@[j].id@ {
        let ids = recipe_ids(e.recipes@);
        assert(ids[i] == ids[j]);
        lemma_repeated_id_reported("recipe"@, ids, i, j);
        lemma_duplicate_in_canonical(e, ErrorView::DuplicateId { entity: "recipe"@, id: ids[j] });
    }
    if j < e.facilities@.len() && e.facilities@[i].id@ == e.facilities@[j].id@ {
        let ids = facility_ids(e.facilities@);
        assert(ids[i] == ids[j]);
        lemma_repeated_id_reported("facility"@, ids, i, j);
        lemma_duplicate_in_canonical(e, ErrorView::DuplicateId { entity: "facility"@, id: ids[j] });
    }
    if j < e.regions@.len() && e.regions@[i].id@ == e.regions@[j].id@ {
        let ids = region_ids(e.regions@);
        assert(ids[i] == ids[j]);
        lemma_repeated_id_reported("region"@, ids, i, j);
        lemma_duplicate_in_canonical(e, ErrorView::DuplicateId { entity: "region"@, id: ids[j] });
    }
}

} // verus!
