//! Owner-safe cancellation of a soul spa under construction.
//!
//! A cancel request is answered with exactly one result. The site is
//! removed only when it is a constructing soul spa whose map footprint,
//! tiles and power topology are exactly its own; then its workers are
//! terminalized, the bones delivered so far are refunded, and the site, its
//! tiles and its visuals are removed.

use vstd::prelude::*;
use crate::grid::{EntityId, Grid, exact_rectangle, grid_in, sorted_unique, spec_exact_rectangle, strictly_increasing};
use crate::decon::{BuildingType, OwnerSnapshot};
use crate::finalizer::{
    SoulSpaTileFacts, SoulSpaTileSnapshot, VisualFacts, building_visual_entities, grids_in_range,
    owned_visuals, relevant_tiles, tile_grids_equal, tile_grids_match, tile_relevant,
};
use crate::sort::{sort_by_key, sorted_by_key};
use crate::task_terminals::{
    ReferenceWorkers, TerminalOutcome, TerminalRequest, WorkerTaskFacts, prepare_owner_task_terminals,
    spec_terminal_batch,
};
use crate::protocol::{all_applied, every_applied};

verus! {

/// The answer to a soul spa construction cancel request.
#[derive(Debug, Clone, Copy, PartialEq, Eq, Structural)]
pub enum SoulSpaCancelResult {
    Canceled { refunded_bones: u32 },
    StaleTarget,
    OwnerMismatch,
    PhaseUnavailable,
    ActiveTaskMismatch,
}

/// The phase of a soul spa site.
#[derive(Debug, Clone, Copy, PartialEq, Eq, Structural)]
pub enum SoulSpaPhase {
    Constructing,
    Operational,
}

/// The soul spa site component.
#[derive(Debug, Clone, Copy, PartialEq, Eq, Structural)]
pub struct SpaSiteFacts {
    pub phase: SoulSpaPhase,
    pub bones_delivered: u32,
    pub bones_required: u32,
}

/// What the world holds of a cancel target.
#[derive(Debug, PartialEq, Eq)]
pub struct SpaCancelFacts {
    pub target: EntityId,
    /// The entity exists.
    pub exists: bool,
    /// Its `Building`: kind and provisional flag.
    pub building: Option<(BuildingType, bool)>,
    pub site: Option<SpaSiteFacts>,
    pub has_generator: bool,
    pub has_consumer: bool,
    pub has_consumes_from: bool,
    pub deconstruction_pending: bool,
    /// The grid of its transform, when it has one.
    pub anchor: Option<Grid>,
    /// The refund item visuals are loaded.
    pub refund_handles: bool,
    /// The map's snapshot of the target, when the map exists.
    pub owner_snapshot: Option<OwnerSnapshot>,
    /// Every soul spa tile.
    pub tiles: Vec<SoulSpaTileFacts>,
    /// The grid its `GeneratesFor` names.
    pub generates_for: Option<EntityId>,
    /// The power grids whose generator lists hold the target.
    pub grids_listing_target: Vec<EntityId>,
    /// Every building visual.
    pub visuals: Vec<VisualFacts>,
}

/// A constructing-site tile is the target's own, outside the hierarchy of
/// any other entity, and carries no task.
pub open spec fn constructing_tile_ok(t: SoulSpaTileFacts, target: EntityId) -> bool {
    &&& t.parent_site == target
    &&& !(t.child_of matches Some(p) && p != target)
    &&& t.designation is None
    &&& t.slots_max is None
}

/// The target's tiles are exactly four well-formed tiles on its footprint.
pub open spec fn constructing_tiles_ok(tiles: Seq<SoulSpaTileFacts>, target: EntityId, building: Seq<Grid>) -> bool {
    &&& forall|i: int| 0 <= i < tiles.len() && tile_relevant(tiles[i], target) ==> #[trigger] constructing_tile_ok(tiles[i], target)
    &&& relevant_tiles(tiles, target).len() == 4
    &&& tile_grids_match(relevant_tiles(tiles, target), building)
}

/// The grids listing the target as generator are exactly the one it names.
pub open spec fn generator_edges_match(listing: Seq<EntityId>, named: Option<EntityId>) -> bool {
    match named {
        None => listing.len() == 0,
        Some(g) => listing == seq![g],
    }
}

/// The footprint of a constructing soul spa: a 2x2 building rectangle
/// holding its anchor, and no other layer.
pub open spec fn spa_footprint_ok(s: OwnerSnapshot, anchor: Grid) -> bool {
    &&& spec_exact_rectangle(s.building_grids@, 2, 2)
    &&& s.building_grids@.contains(anchor)
    &&& s.floor_grids@.len() == 0
    &&& s.door_grids@.len() == 0
    &&& s.bridge_grids@.len() == 0
    &&& s.stockpile_grids@.len() == 0
}

/// The answer, before the transport requests are known, in the order the
/// checks run; `None` when the site can be cancelled so far.
pub open spec fn spa_cancel_verdict(f: SpaCancelFacts, sorted_listing: Seq<EntityId>) -> Option<SoulSpaCancelResult> {
    match f.building {
        None => Some(if f.exists { SoulSpaCancelResult::OwnerMismatch } else { SoulSpaCancelResult::StaleTarget }),
        Some((kind, provisional)) => match f.site {
            None => Some(SoulSpaCancelResult::OwnerMismatch),
            Some(site) => if site.phase != SoulSpaPhase::Constructing {
                Some(SoulSpaCancelResult::PhaseUnavailable)
            } else if kind != BuildingType::SoulSpa || provisional || site.bones_delivered > site.bones_required
                || !f.has_generator || f.has_consumer || f.has_consumes_from || f.deconstruction_pending {
                Some(SoulSpaCancelResult::OwnerMismatch)
            } else if f.anchor is None {
                Some(SoulSpaCancelResult::OwnerMismatch)
            } else if site.bones_delivered > 0 && !f.refund_handles {
                Some(SoulSpaCancelResult::OwnerMismatch)
            } else if f.owner_snapshot is None {
                Some(SoulSpaCancelResult::OwnerMismatch)
            } else if !spa_footprint_ok(f.owner_snapshot.unwrap(), f.anchor.unwrap()) {
                Some(SoulSpaCancelResult::OwnerMismatch)
            } else if !constructing_tiles_ok(f.tiles@, f.target, f.owner_snapshot.unwrap().building_grids@) {
                Some(SoulSpaCancelResult::OwnerMismatch)
            } else if !generator_edges_match(sorted_listing, f.generates_for) {
                Some(SoulSpaCancelResult::OwnerMismatch)
            } else {
                None
            },
        },
    }
}

/// A cancellation validated up to its transport requests.
#[derive(Debug, PartialEq, Eq)]
pub struct PreparedSpaCancel {
    pub refunded_bones: u32,
    /// The map cells the site owns.
    pub building_grids: Vec<Grid>,
    /// The site's tiles, sorted by entity.
    pub tiles: Vec<SoulSpaTileSnapshot>,
    /// The site and its tiles, sorted by entity without repeats.
    pub removed_owners: Vec<EntityId>,
    /// The site's visuals, sorted by entity.
    pub visual_entities: Vec<EntityId>,
}

fn tiles_for_cancel(tiles: &Vec<SoulSpaTileFacts>, target: EntityId, building: &Vec<Grid>) -> (r: Option<Vec<SoulSpaTileSnapshot>>)
    ensures
        constructing_tiles_ok(tiles@, target, building@) ==> (r matches Some(v) && sorted_by_key(v@)
            && v@.to_multiset() == relevant_tiles(tiles@, target).to_multiset()),
        !constructing_tiles_ok(tiles@, target, building@) ==> r is None,
{
    let mut rel: Vec<SoulSpaTileSnapshot> = Vec::new();
    let mut i: usize = 0;
    while i < tiles.len()
        invariant
            i <= tiles@.len(),
            rel@ == relevant_tiles(tiles@.take(i as int), target),
            forall|j: int| 0 <= j < i && tile_relevant(tiles@[j], target) ==> #[trigger] constructing_tile_ok(tiles@[j], target),
        decreases tiles.len() - i,
    {
        assert(tiles@.take(i + 1).drop_last() =~= tiles@.take(i as int));
        let t = tiles[i];
        let relevant = t.parent_site == target || t.child_of == Some(target);
        if relevant {
            let ok = t.parent_site == target && match t.child_of {
                Some(p) => p == target,
                None => true,
            } && t.designation.is_none() && t.slots_max.is_none();
            if !ok {
                assert(tile_relevant(tiles@[i as int], target));
                assert(!constructing_tile_ok(tiles@[i as int], target));
                return None;
            }
            rel.push(SoulSpaTileSnapshot { entity: t.entity, grid_x: t.grid.0, grid_y: t.grid.1 });
        }
        i += 1;
    }
    assert(tiles@.take(tiles@.len() as int) =~= tiles@);
    if rel.len() != 4 {
        return None;
    }
    if !tile_grids_equal(&rel, building) {
        return None;
    }
    let sorted = sort_by_key(rel.as_slice());
    Some(sorted)
}

/// Validates a cancel request up to its transport requests, as
/// [`spa_cancel_verdict`] says; the reverse generator edges are compared
/// sorted by entity.
pub fn prepare_soul_spa_cancellation(f: &SpaCancelFacts) -> (r: Result<PreparedSpaCancel, SoulSpaCancelResult>)
    requires
        f.owner_snapshot matches Some(s) ==> grids_in_range(s.building_grids@),
    ensures
        exists|listing: Seq<EntityId>| {
            &&& sorted_by_key(listing)
            &&& listing.to_multiset() == f.grids_listing_target@.to_multiset()
            &&& match spa_cancel_verdict(*f, listing) {
                Some(e) => r == Err::<PreparedSpaCancel, SoulSpaCancelResult>(e),
                None => {
                    &&& r matches Ok(p)
                    &&& p.refunded_bones == f.site.unwrap().bones_delivered
                    &&& p.building_grids@ == f.owner_snapshot.unwrap().building_grids@
                    &&& sorted_by_key(p.tiles@)
                    &&& p.tiles@.to_multiset() == relevant_tiles(f.tiles@, f.target).to_multiset()
                    &&& strictly_increasing(p.removed_owners@)
                    &&& p.removed_owners@.to_set() == Set::empty().insert(f.target)
                        + relevant_tiles(f.tiles@, f.target).map_values(|t: SoulSpaTileSnapshot| t.entity).to_set()
                    &&& sorted_by_key(p.visual_entities@)
                    &&& p.visual_entities@.to_multiset() == owned_visuals(f.visuals@, f.target).to_multiset()
                },
            }
        },
{
    let listing = sort_by_key(f.grids_listing_target.as_slice());
    let (kind, provisional) = match f.building {
        None => {
            return Err(if f.exists { SoulSpaCancelResult::OwnerMismatch } else { SoulSpaCancelResult::StaleTarget });
        },
        Some(b) => b,
    };
    let site = match f.site {
        None => return Err(SoulSpaCancelResult::OwnerMismatch),
        Some(s) => s,
    };
    if site.phase != SoulSpaPhase::Constructing {
        return Err(SoulSpaCancelResult::PhaseUnavailable);
    }
    if kind != BuildingType::SoulSpa || provisional || site.bones_delivered > site.bones_required || !f.has_generator
        || f.has_consumer || f.has_consumes_from || f.deconstruction_pending {
        return Err(SoulSpaCancelResult::OwnerMismatch);
    }
    let anchor = match f.anchor {
        None => return Err(SoulSpaCancelResult::OwnerMismatch),
        Some(a) => a,
    };
    if site.bones_delivered > 0 && !f.refund_handles {
        return Err(SoulSpaCancelResult::OwnerMismatch);
    }
    let s = match &f.owner_snapshot {
        None => return Err(SoulSpaCancelResult::OwnerMismatch),
        Some(s) => s,
    };
    if !(exact_rectangle(s.building_grids.as_slice(), 2, 2) && grid_in(s.building_grids.as_slice(), anchor)
        && s.floor_grids.len() == 0 && s.door_grids.len() == 0 && s.bridge_grids.len() == 0
        && s.stockpile_grids.len() == 0) {
        return Err(SoulSpaCancelResult::OwnerMismatch);
    }
    let tiles = match tiles_for_cancel(&f.tiles, f.target, &s.building_grids) {
        None => return Err(SoulSpaCancelResult::OwnerMismatch),
        Some(t) => t,
    };
    let edges_ok = match f.generates_for {
        None => listing.len() == 0,
        Some(g) => listing.len() == 1 && listing[0] == g,
    };
    proof {
        if edges_ok && f.generates_for is Some {
            assert(listing@ =~= seq![f.generates_for.unwrap()]);
        }
    }
    if !edges_ok {
        return Err(SoulSpaCancelResult::OwnerMismatch);
    }
    let mut owners: Vec<EntityId> = Vec::new();
    owners.push(f.target);
    let mut i: usize = 0;
    while i < tiles.len()
        invariant
            i <= tiles@.len(),
            owners@ == seq![f.target] + tiles@.take(i as int).map_values(|t: SoulSpaTileSnapshot| t.entity),
        decreases tiles.len() - i,
    {
        owners.push(tiles[i].entity);
        i += 1;
        assert(owners@ =~= seq![f.target] + tiles@.take(i as int).map_values(|t: SoulSpaTileSnapshot| t.entity));
    }
    let removed_owners = sorted_unique(owners.as_slice());
    let visual_entities = building_visual_entities(f.visuals.as_slice(), f.target);
    let mut grids: Vec<Grid> = Vec::new();
    let mut g: usize = 0;
    while g < s.building_grids.len()
        invariant
            g <= s.building_grids@.len(),
            grids@ == s.building_grids@.take(g as int),
        decreases s.building_grids.len() - g,
    {
        grids.push(s.building_grids[g]);
        g += 1;
        assert(grids@ =~= s.building_grids@.take(g as int));
    }
    proof {
        assert(tiles@.take(tiles@.len() as int) =~= tiles@);
        assert(s.building_grids@.take(s.building_grids@.len() as int) =~= s.building_grids@);
        let te = tiles@.map_values(|t: SoulSpaTileSnapshot| t.entity);
        let re = relevant_tiles(f.tiles@, f.target).map_values(|t: SoulSpaTileSnapshot| t.entity);
        tiles@.to_multiset_ensures();
        relevant_tiles(f.tiles@, f.target).to_multiset_ensures();
        assert forall|x: EntityId| te.contains(x) <==> re.contains(x) by {
            if te.contains(x) {
                let k = choose|k: int| 0 <= k < te.len() && te[k] == x;
                assert(tiles@.contains(tiles@[k]));
                assert(tiles@.to_multiset().count(tiles@[k]) > 0);
                assert(relevant_tiles(f.tiles@, f.target).to_multiset().count(tiles@[k]) > 0);
                assert(relevant_tiles(f.tiles@, f.target).contains(tiles@[k]));
                let m = choose|m: int| 0 <= m < relevant_tiles(f.tiles@, f.target).len() && relevant_tiles(f.tiles@, f.target)[m] == tiles@[k];
                assert(re[m] == x);
            }
            if re.contains(x) {
                let k = choose|k: int| 0 <= k < re.len() && re[k] == x;
                let rt = relevant_tiles(f.tiles@, f.target);
                assert(rt.contains(rt[k]));
                assert(rt.to_multiset().count(rt[k]) > 0);
                assert(tiles@.to_multiset().count(rt[k]) > 0);
                assert(tiles@.contains(rt[k]));
                let m = choose|m: int| 0 <= m < tiles@.len() && tiles@[m] == rt[k];
                assert(te[m] == x);
            }
        }
        assert forall|x: EntityId| owners@.to_set().contains(x) <==> (Set::empty().insert(f.target) + re.to_set()).contains(x) by {
            if owners@.contains(x) {
                let k = choose|k: int| 0 <= k < owners@.len() && owners@[k] == x;
                if k > 0 {
                    assert(te[k - 1] == x);
                }
            }
            if te.contains(x) {
                let k = choose|k: int| 0 <= k < te.len() && te[k] == x;
                assert(owners@[k + 1] == x);
            }
            if x == f.target {
                assert(owners@[0] == x);
            }
        }
        assert(owners@.to_set() =~= Set::empty().insert(f.target) + re.to_set());
        assert(spa_cancel_verdict(*f, listing@) is None);
    }
    Ok(PreparedSpaCancel { refunded_bones: site.bones_delivered, building_grids: grids, tiles, removed_owners, visual_entities })
}


/// A cancellation ready to apply.
#[derive(Debug, PartialEq, Eq)]
pub struct FinishedSpaCancel {
    /// The transport requests referencing the removed owners.
    pub transport_requests: Vec<EntityId>,
    /// The removed owners and those requests, sorted without repeats.
    pub cleanup_references: Vec<EntityId>,
    /// The exact terminal requests of the workers bound to them.
    pub terminal_requests: Vec<TerminalRequest>,
}

fn contains_entity(v: &Vec<EntityId>, e: EntityId) -> (b: bool)
    ensures
        b == v@.contains(e),
{
    let mut i: usize = 0;
    while i < v.len()
        invariant
            i <= v@.len(),
            forall|j: int| 0 <= j < i ==> v@[j] != e,
        decreases v.len() - i,
    {
        if v[i] == e {
            assert(v@[i as int] == e);
            return true;
        }
        i += 1;
    }
    false
}

/// Finishes the validation once the transport requests that reference the
/// removed owners are known: a request that is itself a removed owner is an
/// owner mismatch, and workers whose tasks cannot be terminalized exactly
/// are an active-task mismatch.
pub fn finish_soul_spa_cancellation(
    prepared: &PreparedSpaCancel,
    transport_requests: &Vec<EntityId>,
    workers: &[WorkerTaskFacts],
    listed: &[ReferenceWorkers],
) -> (r: Result<FinishedSpaCancel, SoulSpaCancelResult>)
    ensures
        (exists|i: int| 0 <= i < transport_requests@.len() && prepared.removed_owners@.contains(transport_requests@[i]))
            ==> r == Err::<FinishedSpaCancel, SoulSpaCancelResult>(SoulSpaCancelResult::OwnerMismatch),
        !(exists|i: int| 0 <= i < transport_requests@.len() && prepared.removed_owners@.contains(transport_requests@[i])) ==> {
            exists|refs: Seq<EntityId>| {
                &&& strictly_increasing(refs)
                &&& refs.to_set() == prepared.removed_owners@.to_set() + transport_requests@.to_set()
                &&& spec_terminal_batch(workers@, listed@, refs, None, Seq::empty(), match r {
                    Ok(f) => Ok(f.terminal_requests@),
                    Err(_) => Err(()),
                })
                &&& (r is Err ==> r == Err::<FinishedSpaCancel, SoulSpaCancelResult>(SoulSpaCancelResult::ActiveTaskMismatch))
                &&& (r matches Ok(f) ==> f.cleanup_references@ == refs && f.transport_requests@ == transport_requests@)
            }
        },
{
    let mut i: usize = 0;
    while i < transport_requests.len()
        invariant
            i <= transport_requests@.len(),
            forall|j: int| 0 <= j < i ==> !prepared.removed_owners@.contains(#[trigger] transport_requests@[j]),
        decreases transport_requests.len() - i,
    {
        if contains_entity(&prepared.removed_owners, transport_requests[i]) {
            return Err(SoulSpaCancelResult::OwnerMismatch);
        }
        i += 1;
    }
    let mut all: Vec<EntityId> = Vec::new();
    let mut k: usize = 0;
    while k < prepared.removed_owners.len()
        invariant
            k <= prepared.removed_owners@.len(),
            all@ == prepared.removed_owners@.take(k as int),
        decreases prepared.removed_owners.len() - k,
    {
        all.push(prepared.removed_owners[k]);
        k += 1;
        assert(all@ =~= prepared.removed_owners@.take(k as int));
    }
    let mut m: usize = 0;
    while m < transport_requests.len()
        invariant
            m <= transport_requests@.len(),
            all@ == prepared.removed_owners@ + transport_requests@.take(m as int),
        decreases transport_requests.len() - m,
    {
        all.push(transport_requests[m]);
        m += 1;
        assert(all@ =~= prepared.removed_owners@ + transport_requests@.take(m as int));
    }
    proof {
        assert(prepared.removed_owners@.take(prepared.removed_owners@.len() as int) =~= prepared.removed_owners@);
        assert(transport_requests@.take(transport_requests@.len() as int) =~= transport_requests@);
        let a = prepared.removed_owners@;
        let b = transport_requests@;
        assert forall|x: EntityId| (a + b).to_set().contains(x) <==> (a.to_set() + b.to_set()).contains(x) by {
            if (a + b).contains(x) {
                let q = choose|q: int| 0 <= q < (a + b).len() && (a + b)[q] == x;
                if q < a.len() {
                    assert(a[q] == x);
                } else {
                    assert(b[q - a.len()] == x);
                }
            }
            if a.contains(x) {
                let q = choose|q: int| 0 <= q < a.len() && a[q] == x;
                assert((a + b)[q] == x);
            }
            if b.contains(x) {
                let q = choose|q: int| 0 <= q < b.len() && b[q] == x;
                assert((a + b)[a.len() + q] == x);
            }
        }
        assert((a + b).to_set() =~= a.to_set() + b.to_set());
    }
    let refs = sorted_unique(all.as_slice());
    let no_preserve: Vec<EntityId> = Vec::new();
    match prepare_owner_task_terminals(workers, listed, refs.as_slice(), None, no_preserve.as_slice()) {
        Err(_) => {
            assert(no_preserve@ =~= Seq::<EntityId>::empty());
            Err(SoulSpaCancelResult::ActiveTaskMismatch)
        },
        Ok(terminal_requests) => {
            assert(no_preserve@ =~= Seq::<EntityId>::empty());
            let mut tr: Vec<EntityId> = Vec::new();
            let mut q: usize = 0;
            while q < transport_requests.len()
                invariant
                    q <= transport_requests@.len(),
                    tr@ == transport_requests@.take(q as int),
                decreases transport_requests.len() - q,
            {
                tr.push(transport_requests[q]);
                q += 1;
                assert(tr@ =~= transport_requests@.take(q as int));
            }
            assert(transport_requests@.take(transport_requests@.len() as int) =~= transport_requests@);
            Ok(FinishedSpaCancel { transport_requests: tr, cleanup_references: refs, terminal_requests })
        },
    }
}

/// The answer once the workers' tasks were terminalized: canceled with the
/// refund when every terminal request applied.
pub fn spa_cancel_outcome(prepared: &PreparedSpaCancel, outcomes: &[TerminalOutcome]) -> (r: SoulSpaCancelResult)
    ensures
        all_applied(outcomes@) ==> r == (SoulSpaCancelResult::Canceled { refunded_bones: prepared.refunded_bones }),
        !all_applied(outcomes@) ==> r == SoulSpaCancelResult::ActiveTaskMismatch,
{
    if every_applied(outcomes) {
        SoulSpaCancelResult::Canceled { refunded_bones: prepared.refunded_bones }
    } else {
        SoulSpaCancelResult::ActiveTaskMismatch
    }
}

} // verus!
