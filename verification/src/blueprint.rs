//! Cancellation of a blueprint by its owner.
//!
//! Workers are found by their task's payload and requests by their anchor
//! or target, so the cancellation is complete even while relationships are
//! absent during loading. Delivered materials are refunded once, in a fixed
//! resource order.

use vstd::prelude::*;
use crate::grid::{EntityId, Grid};
use crate::recovery::ResourceType;
use crate::sort::{KeyOrder, sort_by_key, sorted_by_key};

verus! {

/// The refund order of resources.
pub open spec fn spec_resource_order(r: ResourceType) -> u8 {
    match r {
        ResourceType::Wood => 0,
        ResourceType::Rock => 1,
        ResourceType::Bone => 2,
        ResourceType::Sand => 3,
        ResourceType::StasisMud => 4,
        ResourceType::Water => 5,
        ResourceType::BucketEmpty => 6,
        ResourceType::BucketWater => 7,
        ResourceType::Wheelbarrow => 8,
    }
}

/// The refund order of a resource.
pub fn resource_order(r: ResourceType) -> (o: u8)
    ensures
        o == spec_resource_order(r),
{
    match r {
        ResourceType::Wood => 0,
        ResourceType::Rock => 1,
        ResourceType::Bone => 2,
        ResourceType::Sand => 3,
        ResourceType::StasisMud => 4,
        ResourceType::Water => 5,
        ResourceType::BucketEmpty => 6,
        ResourceType::BucketWater => 7,
        ResourceType::Wheelbarrow => 8,
    }
}

/// An amount of a delivered resource.
#[derive(Debug, Clone, Copy, PartialEq, Eq, Structural)]
pub struct DeliveredMaterial {
    pub resource_type: ResourceType,
    pub amount: u32,
}

impl KeyOrder for DeliveredMaterial {
    open spec fn key_le(self, other: Self) -> bool {
        spec_resource_order(self.resource_type) <= spec_resource_order(other.resource_type)
    }

    proof fn key_le_total(a: Self, b: Self) {
    }

    proof fn key_le_transitive(a: Self, b: Self, c: Self) {
    }

    fn le(&self, other: &Self) -> (r: bool) {
        resource_order(self.resource_type) <= resource_order(other.resource_type)
    }
}

/// A soul and the blueprint its task works for (building, hauling to it,
/// or wheelbarrowing to it).
#[derive(Debug, Clone, Copy, PartialEq, Eq, Structural)]
pub struct BlueprintWorkerFacts {
    pub soul: EntityId,
    pub task_blueprint: Option<EntityId>,
}

/// A transport request, its anchor and its blueprint target.
#[derive(Debug, Clone, Copy, PartialEq, Eq, Structural)]
pub struct BlueprintRequestFacts {
    pub entity: EntityId,
    pub anchor: EntityId,
    pub target: Option<EntityId>,
}

/// An entity waiting to belong to a blueprint.
#[derive(Debug, Clone, Copy, PartialEq, Eq, Structural)]
pub struct PendingStorageFacts {
    pub entity: EntityId,
    pub blueprint: EntityId,
}

/// What cancelling a blueprint does.
#[derive(Debug, Clone, PartialEq, Eq)]
pub struct BlueprintCancellationPlan {
    /// Souls whose task is unassigned (with an abandoned event).
    pub unassigned_souls: Vec<EntityId>,
    /// Requests despawned.
    pub despawned_requests: Vec<EntityId>,
    /// Pending storages removed with their stockpile cells and stored items.
    pub removed_storages: Vec<EntityId>,
    /// The refunds, in resource order.
    pub refunds: Vec<DeliveredMaterial>,
    /// Cells whose occupancy is cleared where the blueprint owns them.
    pub cleared_cells: Vec<Grid>,
}

pub open spec fn souls_for(ws: Seq<BlueprintWorkerFacts>, bp: EntityId) -> Seq<EntityId>
    decreases ws.len(),
{
    if ws.len() == 0 {
        Seq::empty()
    } else {
        let rest = souls_for(ws.drop_last(), bp);
        if ws.last().task_blueprint == Some(bp) { rest.push(ws.last().soul) } else { rest }
    }
}

pub open spec fn requests_for(rs: Seq<BlueprintRequestFacts>, bp: EntityId) -> Seq<EntityId>
    decreases rs.len(),
{
    if rs.len() == 0 {
        Seq::empty()
    } else {
        let rest = requests_for(rs.drop_last(), bp);
        let r = rs.last();
        if r.anchor == bp || r.target == Some(bp) { rest.push(r.entity) } else { rest }
    }
}

pub open spec fn storages_for(ps: Seq<PendingStorageFacts>, bp: EntityId) -> Seq<EntityId>
    decreases ps.len(),
{
    if ps.len() == 0 {
        Seq::empty()
    } else {
        let rest = storages_for(ps.drop_last(), bp);
        if ps.last().blueprint == bp { rest.push(ps.last().entity) } else { rest }
    }
}

/// Plans the cancellation of a blueprint.
pub fn plan_blueprint_cancellation(
    blueprint: EntityId,
    workers: &Vec<BlueprintWorkerFacts>,
    requests: &Vec<BlueprintRequestFacts>,
    pending: &Vec<PendingStorageFacts>,
    delivered: &Vec<DeliveredMaterial>,
    occupied_grids: &Vec<Grid>,
) -> (p: BlueprintCancellationPlan)
    ensures
        p.unassigned_souls@ == souls_for(workers@, blueprint),
        p.despawned_requests@ == requests_for(requests@, blueprint),
        p.removed_storages@ == storages_for(pending@, blueprint),
        sorted_by_key(p.refunds@),
        p.refunds@.to_multiset() == delivered@.to_multiset(),
        p.cleared_cells@ == occupied_grids@,
{
    let mut souls: Vec<EntityId> = Vec::new();
    let mut i: usize = 0;
    while i < workers.len()
        invariant
            i <= workers@.len(),
            souls@ == souls_for(workers@.take(i as int), blueprint),
        decreases workers.len() - i,
    {
        assert(workers@.take(i + 1).drop_last() =~= workers@.take(i as int));
        if workers[i].task_blueprint == Some(blueprint) {
            souls.push(workers[i].soul);
        }
        i += 1;
    }
    assert(workers@.take(workers@.len() as int) =~= workers@);
    let mut reqs: Vec<EntityId> = Vec::new();
    let mut k: usize = 0;
    while k < requests.len()
        invariant
            k <= requests@.len(),
            reqs@ == requests_for(requests@.take(k as int), blueprint),
        decreases requests.len() - k,
    {
        assert(requests@.take(k + 1).drop_last() =~= requests@.take(k as int));
        let r = requests[k];
        if r.anchor == blueprint || r.target == Some(blueprint) {
            reqs.push(r.entity);
        }
        k += 1;
    }
    assert(requests@.take(requests@.len() as int) =~= requests@);
    let mut storages: Vec<EntityId> = Vec::new();
    let mut m: usize = 0;
    while m < pending.len()
        invariant
            m <= pending@.len(),
            storages@ == storages_for(pending@.take(m as int), blueprint),
        decreases pending.len() - m,
    {
        assert(pending@.take(m + 1).drop_last() =~= pending@.take(m as int));
        if pending[m].blueprint == blueprint {
            storages.push(pending[m].entity);
        }
        m += 1;
    }
    assert(pending@.take(pending@.len() as int) =~= pending@);
    let refunds = sort_by_key(delivered.as_slice());
    let mut cells: Vec<Grid> = Vec::new();
    let mut g: usize = 0;
    while g < occupied_grids.len()
        invariant
            g <= occupied_grids@.len(),
            cells@ == occupied_grids@.take(g as int),
        decreases occupied_grids.len() - g,
    {
        cells.push(occupied_grids[g]);
        g += 1;
        assert(cells@ =~= occupied_grids@.take(g as int));
    }
    assert(occupied_grids@.take(occupied_grids@.len() as int) =~= occupied_grids@);
    BlueprintCancellationPlan {
        unassigned_souls: souls,
        despawned_requests: reqs,
        removed_storages: storages,
        refunds,
        cleared_cells: cells,
    }
}

} // verus!
