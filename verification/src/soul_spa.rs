//! Construction of a soul spa: bone demand, delivery of bones lying at the
//! site, and activation of the tiles once it is operational.

use vstd::prelude::*;
use crate::grid::EntityId;
use crate::construction::TransportRequestKind;
use crate::recovery::ResourceType;
use crate::spa_cancel::SoulSpaPhase;

verus! {

/// How many bones a single request asks for at most.
pub const SOUL_SPA_REQUEST_BATCH: u32 = 4;

/// An existing soul spa delivery request.
#[derive(Debug, Clone, Copy, PartialEq, Eq)]
pub struct SpaRequestFacts {
    pub anchor: EntityId,
    pub is_soul_spa_delivery: bool,
    /// How many workers the request has.
    pub workers: u64,
}

/// The workers in flight to the site, saturating.
pub open spec fn in_flight(rs: Seq<SpaRequestFacts>, site: EntityId) -> u64
    decreases rs.len(),
{
    if rs.len() == 0 {
        0
    } else {
        let rest = in_flight(rs.drop_last(), site);
        let r = rs.last();
        if r.anchor == site && r.is_soul_spa_delivery && r.workers > 0 {
            if rest + r.workers > u64::MAX { u64::MAX } else { (rest + r.workers) as u64 }
        } else {
            rest
        }
    }
}

/// `a - b`, or zero.
pub open spec fn sat_sub(a: int, b: int) -> int {
    if a > b { a - b } else { 0 }
}

/// The bones a constructing site still asks for, per request: what is
/// required, minus what was delivered, minus the workers already bringing
/// bones, at most one batch; `None` when nothing is asked.
pub open spec fn spec_bone_demand(phase: SoulSpaPhase, required: u32, delivered: u32, rs: Seq<SpaRequestFacts>, site: EntityId) -> Option<u32> {
    let remaining = sat_sub(sat_sub(required as int, delivered as int), in_flight(rs, site) as int);
    if phase != SoulSpaPhase::Constructing || remaining == 0 {
        None
    } else if remaining < SOUL_SPA_REQUEST_BATCH {
        Some(remaining as u32)
    } else {
        Some(SOUL_SPA_REQUEST_BATCH)
    }
}

/// The bone delivery request a site needs. Whether an area owner covers the
/// site is decided by the caller, who then syncs the request.
pub fn soul_spa_bone_demand(site: EntityId, phase: SoulSpaPhase, required: u32, delivered: u32, requests: &Vec<SpaRequestFacts>) -> (d: Option<u32>)
    ensures
        d == spec_bone_demand(phase, required, delivered, requests@, site),
{
    let mut flight: u64 = 0;
    let mut i: usize = 0;
    while i < requests.len()
        invariant
            i <= requests@.len(),
            flight == in_flight(requests@.take(i as int), site),
        decreases requests.len() - i,
    {
        assert(requests@.take(i + 1).drop_last() =~= requests@.take(i as int));
        let r = requests[i];
        if r.anchor == site && r.is_soul_spa_delivery && r.workers > 0 {
            flight = flight.saturating_add(r.workers);
        }
        i += 1;
    }
    assert(requests@.take(requests@.len() as int) =~= requests@);
    if phase != SoulSpaPhase::Constructing {
        return None;
    }
    let base: u32 = required.saturating_sub(delivered);
    let remaining: u64 = if (base as u64) > flight { base as u64 - flight } else { 0 };
    if remaining == 0 {
        None
    } else if remaining < SOUL_SPA_REQUEST_BATCH as u64 {
        Some(remaining as u32)
    } else {
        Some(SOUL_SPA_REQUEST_BATCH)
    }
}

/// A resource item near a site, when its item could be read.
#[derive(Debug, Clone, Copy, PartialEq, Eq, Structural)]
pub struct NearbyItemFacts {
    pub entity: EntityId,
    pub resource_type: Option<ResourceType>,
}

/// The bones among the nearby items, in order.
pub open spec fn bones_nearby(items: Seq<NearbyItemFacts>) -> Seq<EntityId>
    decreases items.len(),
{
    if items.len() == 0 {
        Seq::empty()
    } else {
        let rest = bones_nearby(items.drop_last());
        if items.last().resource_type == Some(ResourceType::Bone) { rest.push(items.last().entity) } else { rest }
    }
}

/// How many of the nearby bones one sync consumes: none unless the site is
/// constructing, otherwise as many as it still needs, at most all of them.
pub open spec fn bones_consumed(phase: SoulSpaPhase, required: u32, delivered: u32, nearby: Seq<NearbyItemFacts>) -> int {
    let bones = bones_nearby(nearby);
    let needed = sat_sub(required as int, delivered as int);
    if phase != SoulSpaPhase::Constructing { 0 } else if bones.len() < needed { bones.len() as int } else { needed }
}

/// What one delivery sync does to a constructing site.
#[derive(Debug, Clone, PartialEq, Eq)]
pub struct SpaDelivery {
    /// The bones consumed (despawned), in order.
    pub consumed: Vec<EntityId>,
    pub bones_delivered: u32,
    pub phase: SoulSpaPhase,
}

/// Consumes the bones lying at a constructing site, up to what it still
/// needs; a site that has all its bones becomes operational.
pub fn soul_spa_delivery_sync(phase: SoulSpaPhase, required: u32, delivered: u32, nearby: &Vec<NearbyItemFacts>) -> (d: SpaDelivery)
    ensures
        ({
            let bones = bones_nearby(nearby@);
            let k = bones_consumed(phase, required, delivered, nearby@);
            &&& d.consumed@ == bones.take(k)
            &&& if k == 0 {
                d.bones_delivered == delivered && d.phase == phase
            } else {
                &&& d.bones_delivered == delivered + k
                &&& d.phase == if delivered + k >= required { SoulSpaPhase::Operational } else { phase }
            }
        }),
{
    let mut bones: Vec<EntityId> = Vec::new();
    let mut i: usize = 0;
    while i < nearby.len()
        invariant
            i <= nearby@.len(),
            bones@ == bones_nearby(nearby@.take(i as int)),
        decreases nearby.len() - i,
    {
        assert(nearby@.take(i + 1).drop_last() =~= nearby@.take(i as int));
        if nearby[i].resource_type == Some(ResourceType::Bone) {
            bones.push(nearby[i].entity);
        }
        i += 1;
    }
    assert(nearby@.take(nearby@.len() as int) =~= nearby@);
    if phase != SoulSpaPhase::Constructing {
        assert(bones@.take(0) =~= Seq::<EntityId>::empty());
        return SpaDelivery { consumed: Vec::new(), bones_delivered: delivered, phase };
    }
    let needed: u32 = required.saturating_sub(delivered);
    let mut consumed: Vec<EntityId> = Vec::new();
    let mut c: u32 = 0;
    while (c as usize) < bones.len() && c < needed
        invariant
            c <= bones@.len(),
            c <= needed,
            needed == sat_sub(required as int, delivered as int),
            consumed@ == bones@.take(c as int),
        decreases bones.len() - c,
    {
        consumed.push(bones[c as usize]);
        c += 1;
        assert(consumed@ =~= bones@.take(c as int));
    }
    if c == 0 {
        return SpaDelivery { consumed, bones_delivered: delivered, phase };
    }
    let total = delivered + c;
    let now = if total < required { total } else { required };
    let next = if now >= required { SoulSpaPhase::Operational } else { phase };
    SpaDelivery { consumed, bones_delivered: now, phase: next }
}

/// A soul spa tile and the site it names.
#[derive(Debug, Clone, Copy, PartialEq, Eq, Structural)]
pub struct SpaTileParentFacts {
    pub entity: EntityId,
    pub parent_site: EntityId,
}

pub open spec fn tiles_of_site(ts: Seq<SpaTileParentFacts>, site: EntityId) -> Seq<EntityId>
    decreases ts.len(),
{
    if ts.len() == 0 {
        Seq::empty()
    } else {
        let rest = tiles_of_site(ts.drop_last(), site);
        if ts.last().parent_site == site { rest.push(ts.last().entity) } else { rest }
    }
}

/// The tiles that get a power generation designation with one slot when
/// their site (found by its durable parent link) is operational.
pub fn tiles_to_activate(site: EntityId, phase: SoulSpaPhase, tiles: &Vec<SpaTileParentFacts>) -> (r: Vec<EntityId>)
    ensures
        r@ == (if phase == SoulSpaPhase::Operational { tiles_of_site(tiles@, site) } else { Seq::empty() }),
{
    let mut out: Vec<EntityId> = Vec::new();
    if phase != SoulSpaPhase::Operational {
        return out;
    }
    let mut i: usize = 0;
    while i < tiles.len()
        invariant
            i <= tiles@.len(),
            out@ == tiles_of_site(tiles@.take(i as int), site),
        decreases tiles.len() - i,
    {
        assert(tiles@.take(i + 1).drop_last() =~= tiles@.take(i as int));
        if tiles[i].parent_site == site {
            out.push(tiles[i].entity);
        }
        i += 1;
    }
    assert(tiles@.take(tiles@.len() as int) =~= tiles@);
    out
}


/// A delivery sync never takes more bones than the site still needs, so a
/// site's delivered count never passes its requirement.
pub proof fn law_delivery_never_exceeds_requirement(phase: SoulSpaPhase, required: u32, delivered: u32, nearby: Seq<NearbyItemFacts>)
    requires
        delivered <= required,
    ensures
        0 <= bones_consumed(phase, required, delivered, nearby) <= required - delivered,
        delivered + bones_consumed(phase, required, delivered, nearby) <= required,
{
}

/// A request asks for at least one and at most one batch of bones.
pub proof fn law_bone_demand_is_one_batch_at_most(phase: SoulSpaPhase, required: u32, delivered: u32, rs: Seq<SpaRequestFacts>, site: EntityId)
    ensures
        spec_bone_demand(phase, required, delivered, rs, site) matches Some(n) ==> 1 <= n <= SOUL_SPA_REQUEST_BATCH,
        phase != SoulSpaPhase::Constructing ==> spec_bone_demand(phase, required, delivered, rs, site) is None,
        delivered >= required ==> spec_bone_demand(phase, required, delivered, rs, site) is None,
{
}

} // verus!
