//! String identifiers for the entities of the simulation.
//!
//! Each identifier is a thin wrapper around its text. Its view is the
//! sequence of characters it holds, and two identifiers are equal exactly
//! when their texts are.

use vstd::prelude::*;

verus! {

/// Identifier of a commodity, such as `ore.copper`.
#[derive(Debug, Hash, PartialOrd, Ord)]
pub struct CommodityId(String);

impl View for CommodityId {
    type V = Seq<char>;

    closed spec fn view(&self) -> Seq<char> {
        self.0@
    }
}

impl CommodityId {
    /// Builds an identifier holding the given text.
    pub fn from(name: &str) -> (id: Self)
        ensures
            id@ == name@,
    {
        CommodityId(name.to_owned())
    }

    /// Builds an identifier that takes over the given text.
    pub fn from_string(name: String) -> (id: Self)
        ensures
            id@ == name@,
    {
        CommodityId(name)
    }

    /// The identifier's text.
    pub fn as_str(&self) -> (s: &str)
        ensures
            s@ == self@,
    {
        self.0.as_str()
    }

    /// A copy of the identifier's text.
    pub fn to_text(&self) -> (s: String)
        ensures
            s@ == self@,
    {
        self.0.clone()
    }
}

impl Clone for CommodityId {
    fn clone(&self) -> (id: Self)
        ensures
            id == *self,
    {
        CommodityId(self.0.clone())
    }
}

impl PartialEq for CommodityId {
    fn eq(&self, other: &Self) -> (same: bool) {
        self.0 == other.0
    }
}

impl Eq for CommodityId {
}

impl vstd::std_specs::cmp::PartialEqSpecImpl for CommodityId {
    open spec fn obeys_eq_spec() -> bool {
        true
    }

    open spec fn eq_spec(&self, other: &CommodityId) -> bool {
        self@ == other@
    }
}

/// Identifier of a facility archetype, such as `facility.mine.tier1`.
#[derive(Debug, Hash, PartialOrd, Ord)]
pub struct FacilityArchetypeId(String);

impl View for FacilityArchetypeId {
    type V = Seq<char>;

    closed spec fn view(&self) -> Seq<char> {
        self.0@
    }
}

impl FacilityArchetypeId {
    /// Builds an identifier holding the given text.
    pub fn from(name: &str) -> (id: Self)
        ensures
            id@ == name@,
    {
        FacilityArchetypeId(name.to_owned())
    }

    /// Builds an identifier that takes over the given text.
    pub fn from_string(name: String) -> (id: Self)
        ensures
            id@ == name@,
    {
        FacilityArchetypeId(name)
    }

    /// The identifier's text.
    pub fn as_str(&self) -> (s: &str)
        ensures
            s@ == self@,
    {
        self.0.as_str()
    }

    /// A copy of the identifier's text.
    pub fn to_text(&self) -> (s: String)
        ensures
            s@ == self@,
    {
        self.0.clone()
    }
}

impl Clone for FacilityArchetypeId {
    fn clone(&self) -> (id: Self)
        ensures
            id == *self,
    {
        FacilityArchetypeId(self.0.clone())
    }
}

impl PartialEq for FacilityArchetypeId {
    fn eq(&self, other: &Self) -> (same: bool) {
        self.0 == other.0
    }
}

impl Eq for FacilityArchetypeId {
}

impl vstd::std_specs::cmp::PartialEqSpecImpl for FacilityArchetypeId {
    open spec fn obeys_eq_spec() -> bool {
        true
    }

    open spec fn eq_spec(&self, other: &FacilityArchetypeId) -> bool {
        self@ == other@
    }
}

/// Identifier of a built facility.
#[derive(Debug, Hash, PartialOrd, Ord)]
pub struct FacilityId(String);

impl View for FacilityId {
    type V = Seq<char>;

    closed spec fn view(&self) -> Seq<char> {
        self.0@
    }
}

impl FacilityId {
    /// Builds an identifier holding the given text.
    pub fn from(name: &str) -> (id: Self)
        ensures
            id@ == name@,
    {
        FacilityId(name.to_owned())
    }

    /// Builds an identifier that takes over the given text.
    pub fn from_string(name: String) -> (id: Self)
        ensures
            id@ == name@,
    {
        FacilityId(name)
    }

    /// The identifier's text.
    pub fn as_str(&self) -> (s: &str)
        ensures
            s@ == self@,
    {
        self.0.as_str()
    }

    /// A copy of the identifier's text.
    pub fn to_text(&self) -> (s: String)
        ensures
            s@ == self@,
    {
        self.0.clone()
    }
}

impl Clone for FacilityId {
    fn clone(&self) -> (id: Self)
        ensures
            id == *self,
    {
        FacilityId(self.0.clone())
    }
}

impl PartialEq for FacilityId {
    fn eq(&self, other: &Self) -> (same: bool) {
        self.0 == other.0
    }
}

impl Eq for FacilityId {
}

impl vstd::std_specs::cmp::PartialEqSpecImpl for FacilityId {
    open spec fn obeys_eq_spec() -> bool {
        true
    }

    open spec fn eq_spec(&self, other: &FacilityId) -> bool {
        self@ == other@
    }
}

/// Identifier of a recipe, such as `recipe.draw_copper_wire.v1`.
#[derive(Debug, Hash, PartialOrd, Ord)]
pub struct RecipeId(String);

impl View for RecipeId {
    type V = Seq<char>;

    closed spec fn view(&self) -> Seq<char> {
        self.0@
    }
}

impl RecipeId {
    /// Builds an identifier holding the given text.
    pub fn from(name: &str) -> (id: Self)
        ensures
            id@ == name@,
    {
        RecipeId(name.to_owned())
    }

    /// Builds an identifier that takes over the given text.
    pub fn from_string(name: String) -> (id: Self)
        ensures
            id@ == name@,
    {
        RecipeId(name)
    }

    /// The identifier's text.
    pub fn as_str(&self) -> (s: &str)
        ensures
            s@ == self@,
    {
        self.0.as_str()
    }

    /// A copy of the identifier's text.
    pub fn to_text(&self) -> (s: String)
        ensures
            s@ == self@,
    {
        self.0.clone()
    }
}

impl Clone for RecipeId {
    fn clone(&self) -> (id: Self)
        ensures
            id == *self,
    {
        RecipeId(self.0.clone())
    }
}

impl PartialEq for RecipeId {
    fn eq(&self, other: &Self) -> (same: bool) {
        self.0 == other.0
    }
}

impl Eq for RecipeId {
}

impl vstd::std_specs::cmp::PartialEqSpecImpl for RecipeId {
    open spec fn obeys_eq_spec() -> bool {
        true
    }

    open spec fn eq_spec(&self, other: &RecipeId) -> bool {
        self@ == other@
    }
}

/// Identifier of a gameplay region.
#[derive(Debug, Hash, PartialOrd, Ord)]
pub struct RegionId(String);

impl View for RegionId {
    type V = Seq<char>;

    closed spec fn view(&self) -> Seq<char> {
        self.0@
    }
}

impl RegionId {
    /// Builds an identifier holding the given text.
    pub fn from(name: &str) -> (id: Self)
        ensures
            id@ == name@,
    {
        RegionId(name.to_owned())
    }

    /// Builds an identifier that takes over the given text.
    pub fn from_string(name: String) -> (id: Self)
        ensures
            id@ == name@,
    {
        RegionId(name)
    }

    /// The identifier's text.
    pub fn as_str(&self) -> (s: &str)
        ensures
            s@ == self@,
    {
        self.0.as_str()
    }

    /// A copy of the identifier's text.
    pub fn to_text(&self) -> (s: String)
        ensures
            s@ == self@,
    {
        self.0.clone()
    }
}

impl Clone for RegionId {
    fn clone(&self) -> (id: Self)
        ensures
            id == *self,
    {
        RegionId(self.0.clone())
    }
}

impl PartialEq for RegionId {
    fn eq(&self, other: &Self) -> (same: bool) {
        self.0 == other.0
    }
}

impl Eq for RegionId {
}

impl vstd::std_specs::cmp::PartialEqSpecImpl for RegionId {
    open spec fn obeys_eq_spec() -> bool {
        true
    }

    open spec fn eq_spec(&self, other: &RegionId) -> bool {
        self@ == other@
    }
}

/// Identifier of a transport edge between two nodes.
#[derive(Debug, Hash, PartialOrd, Ord)]
pub struct TransportEdgeId(String);

impl View for TransportEdgeId {
    type V = Seq<char>;

    closed spec fn view(&self) -> Seq<char> {
        self.0@
    }
}

impl TransportEdgeId {
    /// Builds an identifier holding the given text.
    pub fn from(name: &str) -> (id: Self)
        ensures
            id@ == name@,
    {
        TransportEdgeId(name.to_owned())
    }

    /// Builds an identifier that takes over the given text.
    pub fn from_string(name: String) -> (id: Self)
        ensures
            id@ == name@,
    {
        TransportEdgeId(name)
    }

    /// The identifier's text.
    pub fn as_str(&self) -> (s: &str)
        ensures
            s@ == self@,
    {
        self.0.as_str()
    }

    /// A copy of the identifier's text.
    pub fn to_text(&self) -> (s: String)
        ensures
            s@ == self@,
    {
        self.0.clone()
    }
}

impl Clone for TransportEdgeId {
    fn clone(&self) -> (id: Self)
        ensures
            id == *self,
    {
        TransportEdgeId(self.0.clone())
    }
}

impl PartialEq for TransportEdgeId {
    fn eq(&self, other: &Self) -> (same: bool) {
        self.0 == other.0
    }
}

impl Eq for TransportEdgeId {
}

impl vstd::std_specs::cmp::PartialEqSpecImpl for TransportEdgeId {
    open spec fn obeys_eq_spec() -> bool {
        true
    }

    open spec fn eq_spec(&self, other: &TransportEdgeId) -> bool {
        self@ == other@
    }
}

/// Identifier of a transport node, such as `node.settlement`.
#[derive(Debug, Hash, PartialOrd, Ord)]
pub struct TransportNodeId(String);

impl View for TransportNodeId {
    type V = Seq<char>;

    closed spec fn view(&self) -> Seq<char> {
        self.0@
    }
}

impl TransportNodeId {
    /// Builds an identifier holding the given text.
    pub fn from(name: &str) -> (id: Self)
        ensures
            id@ == name@,
    {
        TransportNodeId(name.to_owned())
    }

    /// Builds an identifier that takes over the given text.
    pub fn from_string(name: String) -> (id: Self)
        ensures
            id@ == name@,
    {
        TransportNodeId(name)
    }

    /// The identifier's text.
    pub fn as_str(&self) -> (s: &str)
        ensures
            s@ == self@,
    {
        self.0.as_str()
    }

    /// A copy of the identifier's text.
    pub fn to_text(&self) -> (s: String)
        ensures
            s@ == self@,
    {
        self.0.clone()
    }
}

impl Clone for TransportNodeId {
    fn clone(&self) -> (id: Self)
        ensures
            id == *self,
    {
        TransportNodeId(self.0.clone())
    }
}

impl PartialEq for TransportNodeId {
    fn eq(&self, other: &Self) -> (same: bool) {
        self.0 == other.0
    }
}

impl Eq for TransportNodeId {
}

impl vstd::std_specs::cmp::PartialEqSpecImpl for TransportNodeId {
    open spec fn obeys_eq_spec() -> bool {
        true
    }

    open spec fn eq_spec(&self, other: &TransportNodeId) -> bool {
        self@ == other@
    }
}

/// Identifier of a standing transport order.
#[derive(Debug, Hash, PartialOrd, Ord)]
pub struct TransportOrderId(String);

impl View for TransportOrderId {
    type V = Seq<char>;

    closed spec fn view(&self) -> Seq<char> {
        self.0@
    }
}

impl TransportOrderId {
    /// Builds an identifier holding the given text.
    pub fn from(name: &str) -> (id: Self)
        ensures
            id@ == name@,
    {
        TransportOrderId(name.to_owned())
    }

    /// Builds an identifier that takes over the given text.
    pub fn from_string(name: String) -> (id: Self)
        ensures
            id@ == name@,
    {
        TransportOrderId(name)
    }

    /// The identifier's text.
    pub fn as_str(&self) -> (s: &str)
        ensures
            s@ == self@,
    {
        self.0.as_str()
    }

    /// A copy of the identifier's text.
    pub fn to_text(&self) -> (s: String)
        ensures
            s@ == self@,
    {
        self.0.clone()
    }
}

impl Clone for TransportOrderId {
    fn clone(&self) -> (id: Self)
        ensures
            id == *self,
    {
        TransportOrderId(self.0.clone())
    }
}

impl PartialEq for TransportOrderId {
    fn eq(&self, other: &Self) -> (same: bool) {
        self.0 == other.0
    }
}

impl Eq for TransportOrderId {
}

impl vstd::std_specs::cmp::PartialEqSpecImpl for TransportOrderId {
    open spec fn obeys_eq_spec() -> bool {
        true
    }

    open spec fn eq_spec(&self, other: &TransportOrderId) -> bool {
        self@ == other@
    }
}

} // verus!
