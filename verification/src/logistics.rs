//! Transport between nodes: edges, standing orders, and why an order is blocked.

use vstd::prelude::*;
use crate::ids::{CommodityId, TransportEdgeId, TransportNodeId, TransportOrderId};
use crate::qty::{Qty, bits_at_most_epsilon};

verus! {

/// A one-way transport link from one node to another.
#[derive(Debug, PartialEq)]
pub struct TransportEdge {
    pub id: TransportEdgeId,
    pub from: TransportNodeId,
    pub to: TransportNodeId,
    pub capacity_per_tick: Qty,
    pub distance_cost: Qty,
    pub commodity_filter: Option<Vec<CommodityId>>,
    pub enabled: bool,
}

/// Some id of `list` is `c`.
pub open spec fn lists_commodity(list: Seq<CommodityId>, c: Seq<char>) -> bool {
    exists|i: int| 0 <= i < list.len() && #[trigger] list[i]@ == c
}

/// The edge lets commodity `c` through: it has no filter, or its filter lists `c`.
pub open spec fn edge_allows(filter: Option<Vec<CommodityId>>, c: Seq<char>) -> bool {
    match filter {
        None => true,
        Some(list) => lists_commodity(list@, c),
    }
}

/// Whether some id of `list` is `c`.
fn list_contains(list: &Vec<CommodityId>, c: &CommodityId) -> (b: bool)
    ensures
        b == lists_commodity(list@, c@),
{
    let mut i: usize = 0;
    while i < list.len()
        invariant
            i <= list@.len(),
            forall|j: int| 0 <= j < i ==> #[trigger] list@[j]@ != c@,
        decreases list@.len() - i,
    {
        if list[i] == *c {
            assert(list@[i as int]@ == c@);
            return true;
        }
        i = i + 1;
    }
    false
}

impl TransportEdge {
    /// An enabled edge with no commodity filter.
    pub fn new(
        id: TransportEdgeId,
        from: TransportNodeId,
        to: TransportNodeId,
        capacity_per_tick: Qty,
        distance_cost: Qty,
    ) -> (e: Self)
        ensures
            e.id == id,
            e.from == from,
            e.to == to,
            e.capacity_per_tick == capacity_per_tick,
            e.distance_cost == distance_cost,
            e.commodity_filter is None,
            e.enabled,
    {
        TransportEdge { id, from, to, capacity_per_tick, distance_cost, commodity_filter: None, enabled: true }
    }

    /// Whether the edge carries `commodity`.
    pub fn allows(&self, commodity: &CommodityId) -> (b: bool)
        ensures
            b == edge_allows(self.commodity_filter, commodity@),
    {
        match &self.commodity_filter {
            None => true,
            Some(filter) => list_contains(filter, commodity),
        }
    }
}

/// A standing order to keep a destination stocked over one edge.
#[derive(Debug, PartialEq)]
pub struct TransportOrder {
    pub id: TransportOrderId,
    pub edge_id: TransportEdgeId,
    pub commodity: CommodityId,
    pub target_qty_at_destination: Qty,
    pub max_qty_per_tick: Qty,
}

impl TransportOrder {
    /// An order to bring `commodity` over `edge_id` until the destination holds
    /// `target_qty_at_destination`, moving at most `max_qty_per_tick` per tick.
    pub fn new(
        id: TransportOrderId,
        edge_id: TransportEdgeId,
        commodity: CommodityId,
        target_qty_at_destination: Qty,
        max_qty_per_tick: Qty,
    ) -> (o: Self)
        ensures
            o.id == id,
            o.edge_id == edge_id,
            o.commodity == commodity,
            o.target_qty_at_destination == target_qty_at_destination,
            o.max_qty_per_tick == max_qty_per_tick,
    {
        TransportOrder { id, edge_id, commodity, target_qty_at_destination, max_qty_per_tick }
    }
}

/// Why a transport order moved nothing this tick.
#[derive(Clone, Debug, PartialEq)]
pub enum TransportBlockReason {
    DisabledEdge,
    MissingEdge(TransportEdgeId),
    MissingNode(TransportNodeId),
    CommodityNotAllowed(CommodityId),
    DestinationAtTarget,
    NoSourceInventory,
    ZeroCapacity,
}

/// The reason, if any, that an order is blocked before any quantity is
/// looked at, checking in order: the edge is missing, disabled, does not carry
/// the commodity, has no capacity (or the order allows none), or one of its
/// end nodes is missing.
pub open spec fn gate_reason(
    order: TransportOrder,
    edge: Option<TransportEdge>,
    from_present: bool,
    to_present: bool,
) -> Option<TransportBlockReason> {
    match edge {
        None => Some(TransportBlockReason::MissingEdge(order.edge_id)),
        Some(e) => if !e.enabled {
            Some(TransportBlockReason::DisabledEdge)
        } else if !edge_allows(e.commodity_filter, order.commodity@) {
            Some(TransportBlockReason::CommodityNotAllowed(order.commodity))
        } else if bits_at_most_epsilon(e.capacity_per_tick@) || bits_at_most_epsilon(order.max_qty_per_tick@) {
            Some(TransportBlockReason::ZeroCapacity)
        } else if !from_present {
            Some(TransportBlockReason::MissingNode(e.from))
        } else if !to_present {
            Some(TransportBlockReason::MissingNode(e.to))
        } else {
            None
        },
    }
}

/// The reason, if any, that `order` is blocked before any quantity is looked
/// at; `edge` is the edge the order names, if it exists, and the flags say
/// whether the edge's source and destination nodes exist.
pub fn transport_gate(
    order: &TransportOrder,
    edge: Option<&TransportEdge>,
    from_present: bool,
    to_present: bool,
) -> (r: Option<TransportBlockReason>)
    ensures
        r == gate_reason(
            *order,
            match edge {
                Some(e) => Some(*e),
                None => None,
            },
            from_present,
            to_present,
        ),
{
    match edge {
        None => Some(TransportBlockReason::MissingEdge(order.edge_id.clone())),
        Some(e) => if !e.enabled {
            Some(TransportBlockReason::DisabledEdge)
        } else if !e.allows(&order.commodity) {
            Some(TransportBlockReason::CommodityNotAllowed(order.commodity.clone()))
        } else if e.capacity_per_tick.at_most_epsilon() || order.max_qty_per_tick.at_most_epsilon() {
            Some(TransportBlockReason::ZeroCapacity)
        } else if !from_present {
            Some(TransportBlockReason::MissingNode(e.from.clone()))
        } else if !to_present {
            Some(TransportBlockReason::MissingNode(e.to.clone()))
        } else {
            None
        },
    }
}

/// An order may move goods exactly when its edge exists, is enabled,
/// carries the commodity, has capacity above the tolerance (as does the
/// order's own limit), and both its end nodes exist; a missing edge and a
/// disabled edge are reported as such before anything else.
pub proof fn lemma_gate_passes_only_sound_orders(
    order: TransportOrder,
    edge: Option<TransportEdge>,
    from_present: bool,
    to_present: bool,
)
    ensures
        gate_reason(order, edge, from_present, to_present) is None <==> (edge matches Some(e) && {
            &&& e.enabled
            &&& edge_allows(e.commodity_filter, order.commodity@)
            &&& !bits_at_most_epsilon(e.capacity_per_tick@)
            &&& !bits_at_most_epsilon(order.max_qty_per_tick@)
            &&& from_present
            &&& to_present
        }),
        edge is None ==> gate_reason(order, edge, from_present, to_present) == Some(
            TransportBlockReason::MissingEdge(order.edge_id),
        ),
        edge matches Some(e) && !e.enabled ==> gate_reason(order, edge, from_present, to_present) == Some(
            TransportBlockReason::DisabledEdge,
        ),
{
}

} // verus!
