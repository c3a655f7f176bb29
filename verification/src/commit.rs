//! Validation and application of one deconstruction commit.
//!
//! `validate_commit` checks a commit request against the facts of its
//! worker, order and target, in a fixed order of checks, and returns the
//! first failure. Its second half, `finish_commit_validation`, runs once the
//! transport requests that reference the removed owners are known.

use vstd::prelude::*;
use crate::grid::{EntityId, Grid, strictly_increasing, sorted_unique};
use crate::decon::{
    BlockReason, BuildingType, CommitClaim, CommitFailure, CommitRequest, CommitResult, DomainMask,
    OrderFacts, OwnerSnapshot, TaskIdentity, same_snapshot, WorkType, all_domains, blocked, find_order, order_fact,
    orphaned, task_domain, task_topology_domains, untouched,
};
use crate::recovery::{
    FacilityRecoveryPlan, RecoveryRecheck, recovery_plan_still_matches, recovery_still_matches, same_plan,
    spec_cleanup_references,
};
use crate::finalizer::{
    PowerFacts, PowerTopologySnapshot, RecoveryPlanFailure, SoulSpaTileFacts,
    SoulSpaTileSnapshot, VisualFacts, building_visual_entities, grids_in_range, move_task_references,
    owned_visuals, power_topology_ok, prepare_power_topology, prepare_soul_spa_tiles, recovery_failure,
    related_deconstruction_orders_for_target, related_orders_verdict, relevant_tiles,
    soul_spa_tiles_ok, spec_owner_snapshot_is_exact, spec_recovery_failure,
    target_owner_snapshot_is_exact, owner_mismatch,
};
use crate::sort::sorted_by_key;
use crate::task_terminals::{
    CompletingExactTask, ReferenceWorkers, TaskExpectation, TerminalOutcome, TerminalRequest,
    TerminalResult, WorkerTaskFacts, prepare_owner_task_terminals, spec_terminal_batch,
};

verus! {

/// The deconstruction payload of a worker's assigned task.
#[derive(Debug, Clone, Copy, PartialEq, Eq)]
pub struct DeconstructTaskFacts {
    pub order: EntityId,
    pub target: EntityId,
    /// The task is in its `AwaitingCommit` phase.
    pub awaiting_commit: bool,
}

/// Facts about the committing worker.
#[derive(Debug, Clone, Copy, PartialEq, Eq)]
pub struct CommitWorkerFacts {
    pub is_soul: bool,
    pub has_transform: bool,
    pub identity: Option<TaskIdentity>,
    /// For a `WorkingOn` edge, whether the request's identity matches it.
    pub working_on_matches: Option<bool>,
    /// The payload when the assigned task is a deconstruction.
    pub deconstruct_task: Option<DeconstructTaskFacts>,
    /// The assigned task's work type.
    pub task_work_type: Option<WorkType>,
}

/// A completed or provisional building.
#[derive(Debug, Clone, Copy, PartialEq, Eq, Structural)]
pub struct BuildingFacts {
    pub kind: BuildingType,
    pub is_provisional: bool,
}

/// The root and kind that deconstruction targeting resolves a hit to.
#[derive(Debug, Clone, Copy, PartialEq, Eq, Structural)]
pub struct ResolvedTarget {
    pub root: EntityId,
    pub kind: BuildingType,
}

/// Facts about the commit's target.
#[derive(Debug, Clone, PartialEq, Eq)]
pub struct CommitTargetFacts {
    pub exists: bool,
    pub pending_order: Option<EntityId>,
    pub related_orders: Option<Vec<EntityId>>,
    pub commit_claim: Option<CommitClaim>,
    pub move_planned: bool,
    pub pending_building_move: bool,
    pub building: Option<BuildingFacts>,
    /// Grid cell of the target's transform.
    pub grid: Option<Grid>,
    /// Deconstruction targeting of the target, when it resolves.
    pub resolved: Option<ResolvedTarget>,
    /// The kind supports deconstruction cleanup and the target carries the
    /// markers of its kind.
    pub cleanup_supported: bool,
}

/// The map's view of the target.
#[derive(Debug, Clone, PartialEq, Eq)]
pub struct MapFacts {
    pub owner_snapshot: OwnerSnapshot,
    /// The map registers a door state at the target's cell.
    pub door_registered_at_anchor: bool,
}

/// Everything `validate_commit` reads.
#[derive(Debug, PartialEq, Eq)]
pub struct CommitFacts {
    pub worker: CommitWorkerFacts,
    pub orders: Vec<OrderFacts>,
    pub target: CommitTargetFacts,
    /// Buildings that durable `MovePlantTask`s name.
    pub move_task_buildings: Vec<EntityId>,
    /// Buildings that assigned move tasks name.
    pub assigned_move_buildings: Vec<EntityId>,
    pub map: Option<MapFacts>,
    pub soul_spa_tiles: Vec<SoulSpaTileFacts>,
    pub soul_spa_site_operational: bool,
    pub power: PowerFacts,
    pub visuals: Vec<VisualFacts>,
    pub recovery: Result<FacilityRecoveryPlan, RecoveryPlanFailure>,
    pub resource_item_visual_handles: bool,
}

/// The commit's worker still holds exactly this deconstruction task.
pub open spec fn worker_identity_matches(w: CommitWorkerFacts, request: CommitRequest) -> bool {
    &&& w.is_soul
    &&& w.has_transform
    &&& w.identity == Some(request.identity)
    &&& w.working_on_matches == Some(true)
    &&& w.deconstruct_task matches Some(d) && d.order == request.order && d.target == request.target
        && d.awaiting_commit
    &&& w.task_work_type == Some(request.identity.current_work_type)
}

pub open spec fn stale_target() -> CommitFailure {
    orphaned(CommitResult::StaleTarget)
}

pub open spec fn unsupported() -> CommitFailure {
    blocked(CommitResult::UnsupportedTarget, BlockReason::UnsupportedTarget, task_domain())
}

pub open spec fn opt_seq(o: Option<Vec<EntityId>>) -> Option<Seq<EntityId>> {
    match o {
        Some(v) => Some(v@),
        None => None,
    }
}

/// The first failing check of a commit before its transport requests are
/// known, or `None` when all pass.
pub open spec fn spec_commit_check(current_epoch: u64, request: CommitRequest, f: CommitFacts) -> Option<CommitFailure> {
    let order = order_fact(f.orders@, request.order);
    let t = f.target;
    if request.world_epoch != current_epoch {
        Some(untouched(CommitResult::StaleWorld))
    } else if request.identity.assignment_entity != request.order || request.identity.current_target_entity
        != request.order || request.identity.current_work_type != WorkType::Deconstruct {
        Some(untouched(CommitResult::StaleIdentity))
    } else if !(order matches Some(o) && o.is_order) {
        Some(stale_target())
    } else if !worker_identity_matches(f.worker, request) {
        Some(untouched(CommitResult::StaleIdentity))
    } else if order.unwrap().designation != Some(WorkType::Deconstruct) {
        Some(stale_target())
    } else if order.unwrap().target_root is None {
        Some(stale_target())
    } else if order.unwrap().target_root != Some(request.target) {
        Some(untouched(CommitResult::StaleTarget))
    } else if !t.exists {
        Some(stale_target())
    } else if t.pending_order != Some(request.order) {
        Some(stale_target())
    } else if related_orders_verdict(opt_seq(t.related_orders), f.orders@, request.target, request.order)
        == Err::<(), crate::finalizer::RelatedOrdersFailure>(crate::finalizer::RelatedOrdersFailure::CanonicalInvalid) {
        Some(stale_target())
    } else if related_orders_verdict(opt_seq(t.related_orders), f.orders@, request.target, request.order) is Err {
        Some(blocked(CommitResult::StaleTarget, BlockReason::StaleTarget, task_domain()))
    } else if t.commit_claim matches Some(c) && (c.world_epoch != request.world_epoch || c.order != request.order) {
        Some(untouched(CommitResult::Duplicate))
    } else if t.move_planned || t.pending_building_move || f.move_task_buildings@.contains(request.target)
        || f.assigned_move_buildings@.contains(request.target) {
        Some(blocked(CommitResult::Moving, BlockReason::Moving, task_domain()))
    } else if order.unwrap().blocker_active {
        Some(untouched(CommitResult::UnsupportedTarget))
    } else if t.building is None || t.grid is None || t.building.unwrap().is_provisional {
        Some(stale_target())
    } else if t.resolved is None {
        Some(unsupported())
    } else if t.resolved.unwrap().root != request.target || t.resolved.unwrap().kind != t.building.unwrap().kind {
        Some(blocked(CommitResult::OwnerMismatch, BlockReason::OwnerMismatch, task_domain()))
    } else if !t.cleanup_supported {
        Some(unsupported())
    } else if f.map is None {
        Some(owner_mismatch())
    } else if !(order.unwrap().grid == t.grid && spec_owner_snapshot_is_exact(
        f.map.unwrap().door_registered_at_anchor,
        t.building.unwrap().kind,
        f.map.unwrap().owner_snapshot,
        t.grid.unwrap(),
    )) {
        Some(owner_mismatch())
    } else if !soul_spa_tiles_ok(
        f.soul_spa_tiles@,
        request.target,
        t.building.unwrap().kind,
        f.soul_spa_site_operational,
        f.map.unwrap().owner_snapshot.building_grids@,
    ) {
        Some(owner_mismatch())
    } else if !power_topology_ok(f.power, t.building.unwrap().kind) {
        Some(owner_mismatch())
    } else if f.recovery is Err {
        Some(spec_recovery_failure(f.recovery->Err_0))
    } else if f.recovery->Ok_0.spawned_items@.len() != 0 && !f.resource_item_visual_handles {
        Some(unsupported())
    } else {
        None
    }
}

/// A building that is moving is never deconstructed. Once the request is
/// current, its identity names its order, the order is a live deconstruction
/// order for the target, its worker still awaits exactly this commit, the
/// target exists and is pending on this order, its sibling orders are sound
/// and no other commit claims it, a target that is planned to move, has a
/// pending move, or is named by a queued or assigned move task makes the
/// commit fail as `Moving`, arming a blocker in the task domain.
pub proof fn law_moving_target_blocks_commit(current_epoch: u64, request: CommitRequest, f: CommitFacts)
    requires
        request.world_epoch == current_epoch,
        request.identity.assignment_entity == request.order,
        request.identity.current_target_entity == request.order,
        request.identity.current_work_type == WorkType::Deconstruct,
        order_fact(f.orders@, request.order) is Some,
        order_fact(f.orders@, request.order).unwrap().is_order,
        order_fact(f.orders@, request.order).unwrap().designation == Some(WorkType::Deconstruct),
        order_fact(f.orders@, request.order).unwrap().target_root == Some(request.target),
        worker_identity_matches(f.worker, request),
        f.target.exists,
        f.target.pending_order == Some(request.order),
        related_orders_verdict(opt_seq(f.target.related_orders), f.orders@, request.target, request.order) is Ok,
        f.target.commit_claim is Some ==> f.target.commit_claim.unwrap().world_epoch == request.world_epoch
            && f.target.commit_claim.unwrap().order == request.order,
        f.target.move_planned || f.target.pending_building_move || f.move_task_buildings@.contains(request.target)
            || f.assigned_move_buildings@.contains(request.target),
    ensures
        spec_commit_check(current_epoch, request, f) == Some(CommitFailure {
            result: CommitResult::Moving,
            blocker: Some((BlockReason::Moving, DomainMask { task: true, topology: false, availability: false })),
            discard_orphaned_order: false,
        }),
{
}

/// A commit that passed its checks, before its transport requests are
/// known.
#[derive(Debug, Clone, PartialEq, Eq)]
pub struct CommitPreflight {
    pub kind: BuildingType,
    pub owner_snapshot: OwnerSnapshot,
    pub soul_spa_tiles: Vec<SoulSpaTileSnapshot>,
    pub power_topology: PowerTopologySnapshot,
    pub visual_entities: Vec<EntityId>,
    pub recovery: FacilityRecoveryPlan,
    /// The target, its companions and its soul spa tiles, sorted, unique.
    pub removed_owners: Vec<EntityId>,
    pub orders_to_despawn: Vec<EntityId>,
}

/// The tile entities of tile snapshots.
pub open spec fn tile_entities(tiles: Seq<SoulSpaTileSnapshot>) -> Seq<EntityId> {
    tiles.map_values(|t: SoulSpaTileSnapshot| t.entity)
}

/// Checks a commit request; on success returns what its application needs.
pub fn validate_commit(current_epoch: u64, request: CommitRequest, f: &CommitFacts) -> (r: Result<CommitPreflight, CommitFailure>)
    requires
        f.map matches Some(m) ==> grids_in_range(m.owner_snapshot.building_grids@),
    ensures
        match spec_commit_check(current_epoch, request, *f) {
            Some(failure) => r == Err::<CommitPreflight, CommitFailure>(failure),
            None => r matches Ok(p) && {
                &&& p.kind == f.target.building.unwrap().kind
                &&& same_snapshot(p.owner_snapshot, f.map.unwrap().owner_snapshot)
                &&& sorted_by_key(p.soul_spa_tiles@)
                &&& p.soul_spa_tiles@.to_multiset() == relevant_tiles(f.soul_spa_tiles@, request.target).to_multiset()
                &&& p.power_topology == (PowerTopologySnapshot { generator_grid: f.power.generates_for, consumer_grid: f.power.consumes_from })
                &&& sorted_by_key(p.visual_entities@)
                &&& p.visual_entities@.to_multiset() == owned_visuals(f.visuals@, request.target).to_multiset()
                &&& same_plan(p.recovery, f.recovery->Ok_0)
                &&& strictly_increasing(p.removed_owners@)
                &&& p.removed_owners@.to_set() == seq![request.target].to_set() + f.recovery->Ok_0.companions_to_remove@.to_set()
                    + tile_entities(p.soul_spa_tiles@).to_set()
                &&& sorted_by_key(p.orders_to_despawn@)
                &&& p.orders_to_despawn@.to_multiset() == f.target.related_orders.unwrap()@.to_multiset()
            },
        },
        f.target.move_planned || f.target.pending_building_move || f.move_task_buildings@.contains(request.target)
            || f.assigned_move_buildings@.contains(request.target) ==> r is Err,
{
    if request.world_epoch != current_epoch {
        return Err(CommitFailure::untouched(CommitResult::StaleWorld));
    }
    if request.identity.assignment_entity != request.order || request.identity.current_target_entity
        != request.order || request.identity.current_work_type != WorkType::Deconstruct {
        return Err(CommitFailure::untouched(CommitResult::StaleIdentity));
    }
    let order = match find_order(f.orders.as_slice(), request.order) {
        Some(o) => o,
        None => return Err(CommitFailure::orphaned_order(CommitResult::StaleTarget)),
    };
    if !order.is_order {
        return Err(CommitFailure::orphaned_order(CommitResult::StaleTarget));
    }
    let w = f.worker;
    let identity_matches = w.is_soul && w.has_transform && w.identity == Some(request.identity)
        && w.working_on_matches == Some(true) && match w.deconstruct_task {
        Some(d) => d.order == request.order && d.target == request.target && d.awaiting_commit,
        None => false,
    } && w.task_work_type == Some(request.identity.current_work_type);
    if !identity_matches {
        return Err(CommitFailure::untouched(CommitResult::StaleIdentity));
    }
    if order.designation != Some(WorkType::Deconstruct) {
        return Err(CommitFailure::orphaned_order(CommitResult::StaleTarget));
    }
    let current_target = match order.target_root {
        Some(t) => t,
        None => return Err(CommitFailure::orphaned_order(CommitResult::StaleTarget)),
    };
    if current_target != request.target {
        return Err(CommitFailure::untouched(CommitResult::StaleTarget));
    }
    let t = &f.target;
    if !t.exists {
        return Err(CommitFailure::orphaned_order(CommitResult::StaleTarget));
    }
    if t.pending_order != Some(request.order) {
        return Err(CommitFailure::orphaned_order(CommitResult::StaleTarget));
    }
    let related = match &t.related_orders {
        Some(v) => related_deconstruction_orders_for_target(Some(v.as_slice()), f.orders.as_slice(), request.target, request.order),
        None => related_deconstruction_orders_for_target(None, f.orders.as_slice(), request.target, request.order),
    };
    let orders_to_despawn = match related {
        Ok(v) => v,
        Err(crate::finalizer::RelatedOrdersFailure::CanonicalInvalid) => {
            return Err(CommitFailure::orphaned_order(CommitResult::StaleTarget));
        },
        Err(crate::finalizer::RelatedOrdersFailure::MalformedSibling) => {
            return Err(CommitFailure::blocked(
                CommitResult::StaleTarget,
                BlockReason::StaleTarget,
                DomainMask { task: true, topology: false, availability: false },
            ));
        },
    };
    match t.commit_claim {
        Some(c) => if c.world_epoch != request.world_epoch || c.order != request.order {
            return Err(CommitFailure::untouched(CommitResult::Duplicate));
        },
        None => {},
    }
    if t.move_planned || t.pending_building_move || move_task_references(
        f.move_task_buildings.as_slice(),
        f.assigned_move_buildings.as_slice(),
        request.target,
    ) {
        return Err(CommitFailure::blocked(
            CommitResult::Moving,
            BlockReason::Moving,
            DomainMask { task: true, topology: false, availability: false },
        ));
    }
    if order.blocker_active {
        return Err(CommitFailure::untouched(CommitResult::UnsupportedTarget));
    }
    let building = match t.building {
        Some(b) => b,
        None => return Err(CommitFailure::orphaned_order(CommitResult::StaleTarget)),
    };
    let anchor = match t.grid {
        Some(g) => g,
        None => return Err(CommitFailure::orphaned_order(CommitResult::StaleTarget)),
    };
    if building.is_provisional {
        return Err(CommitFailure::orphaned_order(CommitResult::StaleTarget));
    }
    let kind = building.kind;
    let resolved = match t.resolved {
        Some(r) => r,
        None => return Err(CommitFailure::blocked(
            CommitResult::UnsupportedTarget,
            BlockReason::UnsupportedTarget,
            DomainMask { task: true, topology: false, availability: false },
        )),
    };
    if resolved.root != request.target || resolved.kind != kind {
        return Err(CommitFailure::blocked(
            CommitResult::OwnerMismatch,
            BlockReason::OwnerMismatch,
            DomainMask { task: true, topology: false, availability: false },
        ));
    }
    if !t.cleanup_supported {
        return Err(CommitFailure::blocked(
            CommitResult::UnsupportedTarget,
            BlockReason::UnsupportedTarget,
            DomainMask { task: true, topology: false, availability: false },
        ));
    }
    let map = match &f.map {
        Some(m) => m,
        None => return Err(CommitFailure::blocked(
            CommitResult::OwnerMismatch,
            BlockReason::OwnerMismatch,
            DomainMask { task: true, topology: true, availability: false },
        )),
    };
    let order_grid_matches = match order.grid {
        Some(g) => g.0 == anchor.0 && g.1 == anchor.1,
        None => false,
    };
    let owner_is_exact = order_grid_matches && target_owner_snapshot_is_exact(
        map.door_registered_at_anchor,
        kind,
        &map.owner_snapshot,
        anchor,
    );
    if !owner_is_exact {
        return Err(CommitFailure::blocked(
            CommitResult::OwnerMismatch,
            BlockReason::OwnerMismatch,
            DomainMask { task: true, topology: true, availability: false },
        ));
    }
    let soul_spa_tiles = match prepare_soul_spa_tiles(
        f.soul_spa_tiles.as_slice(),
        request.target,
        kind,
        f.soul_spa_site_operational,
        &map.owner_snapshot.building_grids,
    ) {
        Ok(v) => v,
        Err(e) => return Err(e),
    };
    let power_topology = match prepare_power_topology(&f.power, kind) {
        Ok(p) => p,
        Err(e) => return Err(e),
    };
    let visual_entities = building_visual_entities(f.visuals.as_slice(), request.target);
    let recovery = match &f.recovery {
        Ok(plan) => plan,
        Err(failure) => return Err(recovery_failure(*failure)),
    };
    if recovery.spawned_items.len() != 0 && !f.resource_item_visual_handles {
        return Err(CommitFailure::blocked(
            CommitResult::UnsupportedTarget,
            BlockReason::UnsupportedTarget,
            DomainMask { task: true, topology: false, availability: false },
        ));
    }
    let owners = recovery.removed_owner_entities(request.target);
    let mut all_owners: Vec<EntityId> = Vec::new();
    let mut i: usize = 0;
    while i < owners.len()
        invariant
            i <= owners@.len(),
            all_owners@ == owners@.take(i as int),
        decreases owners.len() - i,
    {
        all_owners.push(owners[i]);
        proof {
            assert(owners@.take(i + 1) =~= owners@.take(i as int).push(owners@[i as int]));
        }
        i += 1;
    }
    let mut k: usize = 0;
    while k < soul_spa_tiles.len()
        invariant
            k <= soul_spa_tiles@.len(),
            all_owners@ == owners@ + tile_entities(soul_spa_tiles@.take(k as int)),
        decreases soul_spa_tiles.len() - k,
    {
        proof {
            assert(owners@.take(owners@.len() as int) =~= owners@);
        }
        all_owners.push(soul_spa_tiles[k].entity);
        proof {
            assert(tile_entities(soul_spa_tiles@.take(k + 1)) =~= tile_entities(soul_spa_tiles@.take(k as int)).push(
                soul_spa_tiles@[k as int].entity,
            ));
        }
        k += 1;
    }
    let removed_owners = sorted_unique(all_owners.as_slice());
    proof {
        assert(soul_spa_tiles@.take(soul_spa_tiles@.len() as int) =~= soul_spa_tiles@);
        lemma_concat_set(owners@, tile_entities(soul_spa_tiles@));
        owners@.to_multiset_ensures();
        let ow = seq![request.target].add(recovery.companions_to_remove@);
        ow.to_multiset_ensures();
        lemma_concat_set(seq![request.target], recovery.companions_to_remove@);
        assert forall|x: EntityId| owners@.to_set().contains(x) <==> ow.to_set().contains(x) by {
            assert(owners@.to_multiset().count(x) == ow.to_multiset().count(x));
        }
        assert(owners@.to_set() =~= ow.to_set());
    }
    Ok(CommitPreflight {
        kind,
        owner_snapshot: map.owner_snapshot.duplicate(),
        soul_spa_tiles,
        power_topology,
        visual_entities,
        recovery: recovery.duplicate(),
        removed_owners,
        orders_to_despawn,
    })
}

proof fn lemma_concat_set(a: Seq<EntityId>, b: Seq<EntityId>)
    ensures
        (a + b).to_set() == a.to_set() + b.to_set(),
{
    assert forall|x: EntityId| (a + b).to_set().contains(x) <==> (a.to_set() + b.to_set()).contains(x) by {
        if (a + b).contains(x) {
            let i = choose|i: int| 0 <= i < (a + b).len() && (a + b)[i] == x;
            if i < a.len() {
                assert(a[i] == x);
            } else {
                assert(b[i - a.len()] == x);
            }
        }
        if a.contains(x) {
            let i = choose|i: int| 0 <= i < a.len() && a[i] == x;
            assert((a + b)[i] == x);
        }
        if b.contains(x) {
            let i = choose|i: int| 0 <= i < b.len() && b[i] == x;
            assert((a + b)[a.len() + i] == x);
        }
    }
    assert((a + b).to_set() =~= a.to_set() + b.to_set());
}


/// A commit ready to apply.
#[derive(Debug, Clone, PartialEq, Eq)]
pub struct PreparedCommit {
    pub preflight: CommitPreflight,
    /// The exact terminal requests of every worker that references an
    /// entity the commit removes, sorted by worker.
    pub terminal_requests: Vec<TerminalRequest>,
    /// The transport requests that reference a removed owner.
    pub transport_requests: Vec<EntityId>,
    /// Every entity the commit removes or references, sorted, unique.
    pub cleanup_references: Vec<EntityId>,
}

/// Some transport request is itself one of the removed owners.
pub open spec fn transport_overlaps(transport: Seq<EntityId>, removed: Seq<EntityId>) -> bool {
    exists|i: int| 0 <= i < transport.len() && removed.contains(#[trigger] transport[i])
}

/// The entities whose task references the commit cleans up.
pub open spec fn spec_commit_cleanup_set(
    target: EntityId,
    p: CommitPreflight,
    transport: Seq<EntityId>,
) -> Set<EntityId> {
    seq![target].to_set() + p.orders_to_despawn@.to_set() + transport.to_set() + spec_cleanup_references(p.recovery)
        + tile_entities(p.soul_spa_tiles@).to_set()
}

/// The exact expectation of the committing worker.
pub open spec fn committing_worker(request: CommitRequest) -> CompletingExactTask {
    CompletingExactTask {
        worker: request.worker,
        identity: request.identity,
        expectation: TaskExpectation::DeconstructionAwaitingCommit { order: request.order, target: request.target },
    }
}

/// The carriers whose loaded cargo the commit preserves.
pub open spec fn preserved_carriers(p: CommitPreflight) -> Seq<EntityId> {
    p.recovery.wheelbarrows@.map_values(|w: crate::recovery::WheelbarrowRecovery| w.entity)
}

fn push_all(out: &mut Vec<EntityId>, items: &Vec<EntityId>)
    ensures
        final(out)@ == old(out)@ + items@,
{
    let ghost start = out@;
    let mut i: usize = 0;
    while i < items.len()
        invariant
            i <= items@.len(),
            out@ == start + items@.take(i as int),
        decreases items.len() - i,
    {
        out.push(items[i]);
        proof {
            assert(items@.take(i + 1) =~= items@.take(i as int).push(items@[i as int]));
            assert(out@ =~= start + items@.take(i + 1));
        }
        i += 1;
    }
    assert(items@.take(items@.len() as int) =~= items@);
}

fn contains_id(s: &Vec<EntityId>, e: EntityId) -> (b: bool)
    ensures
        b == s@.contains(e),
{
    let mut i: usize = 0;
    while i < s.len()
        invariant
            i <= s@.len(),
            forall|j: int| 0 <= j < i ==> s@[j] != e,
        decreases s.len() - i,
    {
        if s[i] == e {
            assert(s@[i as int] == e);
            return true;
        }
        i += 1;
    }
    false
}

/// Finishes validating a commit once the transport requests that reference
/// its removed owners are known: refuses a transport request that is itself
/// removed, and prepares the exact terminal batch of every worker that
/// references a cleaned-up entity (the committing worker completes; loaded
/// carriers of the recovery keep their cargo).
pub fn finish_commit_validation(
    request: CommitRequest,
    preflight: CommitPreflight,
    transport_requests: Vec<EntityId>,
    workers: &[WorkerTaskFacts],
    listed_workers: &[ReferenceWorkers],
) -> (r: Result<PreparedCommit, CommitFailure>)
    ensures
        transport_overlaps(transport_requests@, preflight.removed_owners@) ==> r == Err::<PreparedCommit, CommitFailure>(unsupported()),
        !transport_overlaps(transport_requests@, preflight.removed_owners@) ==> match r {
            Ok(p) => {
                &&& p.preflight == preflight
                &&& p.transport_requests@ == transport_requests@
                &&& strictly_increasing(p.cleanup_references@)
                &&& p.cleanup_references@.to_set() == spec_commit_cleanup_set(request.target, preflight, transport_requests@)
                &&& spec_terminal_batch(workers@, listed_workers@, p.cleanup_references@, Some(committing_worker(request)),
                    preserved_carriers(preflight), Ok(p.terminal_requests@))
            },
            Err(e) => e == unsupported() && exists|refs: Seq<EntityId>|
                strictly_increasing(refs) && refs.to_set() == spec_commit_cleanup_set(request.target, preflight, transport_requests@)
                && spec_terminal_batch(workers@, listed_workers@, refs, Some(committing_worker(request)),
                    preserved_carriers(preflight), Err(())),
        },
{
    let mut i: usize = 0;
    while i < transport_requests.len()
        invariant
            i <= transport_requests@.len(),
            forall|j: int| 0 <= j < i ==> !preflight.removed_owners@.contains(#[trigger] transport_requests@[j]),
        decreases transport_requests.len() - i,
    {
        if contains_id(&preflight.removed_owners, transport_requests[i]) {
            return Err(CommitFailure::blocked(
                CommitResult::UnsupportedTarget,
                BlockReason::UnsupportedTarget,
                DomainMask { task: true, topology: false, availability: false },
            ));
        }
        i += 1;
    }
    let mut refs: Vec<EntityId> = Vec::new();
    refs.push(request.target);
    push_all(&mut refs, &preflight.orders_to_despawn);
    push_all(&mut refs, &transport_requests);
    let recovery_refs = preflight.recovery.cleanup_reference_entities();
    push_all(&mut refs, &recovery_refs);
    let ghost before_tiles = refs@;
    let mut k: usize = 0;
    while k < preflight.soul_spa_tiles.len()
        invariant
            k <= preflight.soul_spa_tiles@.len(),
            refs@ == before_tiles + tile_entities(preflight.soul_spa_tiles@.take(k as int)),
        decreases preflight.soul_spa_tiles.len() - k,
    {
        refs.push(preflight.soul_spa_tiles[k].entity);
        proof {
            assert(tile_entities(preflight.soul_spa_tiles@.take(k + 1)) =~= tile_entities(
                preflight.soul_spa_tiles@.take(k as int),
            ).push(preflight.soul_spa_tiles@[k as int].entity));
        }
        k += 1;
    }
    assert(preflight.soul_spa_tiles@.take(preflight.soul_spa_tiles@.len() as int) =~= preflight.soul_spa_tiles@);
    let cleanup_references = sorted_unique(refs.as_slice());
    proof {
        let t = tile_entities(preflight.soul_spa_tiles@);
        assert(refs@ =~= seq![request.target] + preflight.orders_to_despawn@ + transport_requests@ + recovery_refs@ + t);
        lemma_concat_set(seq![request.target], preflight.orders_to_despawn@);
        lemma_concat_set(seq![request.target] + preflight.orders_to_despawn@, transport_requests@);
        lemma_concat_set(seq![request.target] + preflight.orders_to_despawn@ + transport_requests@, recovery_refs@);
        lemma_concat_set(seq![request.target] + preflight.orders_to_despawn@ + transport_requests@ + recovery_refs@, t);
    }
    let mut carriers: Vec<EntityId> = Vec::new();
    let mut c: usize = 0;
    while c < preflight.recovery.wheelbarrows.len()
        invariant
            c <= preflight.recovery.wheelbarrows@.len(),
            carriers@ == preflight.recovery.wheelbarrows@.take(c as int).map_values(|w: crate::recovery::WheelbarrowRecovery| w.entity),
        decreases preflight.recovery.wheelbarrows.len() - c,
    {
        carriers.push(preflight.recovery.wheelbarrows[c].entity);
        proof {
            assert(preflight.recovery.wheelbarrows@.take(c + 1).map_values(|w: crate::recovery::WheelbarrowRecovery| w.entity)
                =~= preflight.recovery.wheelbarrows@.take(c as int).map_values(|w: crate::recovery::WheelbarrowRecovery| w.entity).push(
                preflight.recovery.wheelbarrows@[c as int].entity));
        }
        c += 1;
    }
    assert(preflight.recovery.wheelbarrows@.take(preflight.recovery.wheelbarrows@.len() as int) =~= preflight.recovery.wheelbarrows@);
    let completing = CompletingExactTask {
        worker: request.worker,
        identity: request.identity,
        expectation: TaskExpectation::DeconstructionAwaitingCommit { order: request.order, target: request.target },
    };
    match prepare_owner_task_terminals(workers, listed_workers, cleanup_references.as_slice(), Some(completing), carriers.as_slice()) {
        Ok(terminal_requests) => Ok(PreparedCommit {
            preflight,
            terminal_requests,
            transport_requests,
            cleanup_references,
        }),
        Err(_) => Err(CommitFailure::blocked(
            CommitResult::UnsupportedTarget,
            BlockReason::UnsupportedTarget,
            DomainMask { task: true, topology: false, availability: false },
        )),
    }
}

/// The failure of a commit whose terminal batch did not fully apply: a
/// stale identity when the committing worker's own request failed other
/// than by batch abort, otherwise an unsupported target.
pub open spec fn spec_terminal_failure(outcomes: Seq<TerminalOutcome>, worker: EntityId) -> Option<CommitFailure> {
    if forall|i: int| 0 <= i < outcomes.len() ==> #[trigger] outcomes[i].result == TerminalResult::Applied {
        None
    } else if exists|i: int|
        0 <= i < outcomes.len() && #[trigger] outcomes[i].worker == worker && outcomes[i].result != TerminalResult::Applied
            && outcomes[i].result != TerminalResult::BatchAborted {
        Some(untouched(CommitResult::StaleIdentity))
    } else {
        Some(unsupported())
    }
}

/// Classifies the outcomes of a commit's terminal batch.
pub fn classify_commit_terminals(outcomes: &[TerminalOutcome], worker: EntityId) -> (r: Option<CommitFailure>)
    ensures
        r == spec_terminal_failure(outcomes@, worker),
{
    let mut all_applied = true;
    let mut winner_failed = false;
    let mut i: usize = 0;
    while i < outcomes.len()
        invariant
            i <= outcomes@.len(),
            all_applied == forall|j: int| 0 <= j < i ==> #[trigger] outcomes@[j].result == TerminalResult::Applied,
            winner_failed == exists|j: int|
                0 <= j < i && #[trigger] outcomes@[j].worker == worker && outcomes@[j].result != TerminalResult::Applied
                    && outcomes@[j].result != TerminalResult::BatchAborted,
        decreases outcomes.len() - i,
    {
        let o = outcomes[i];
        if o.result != TerminalResult::Applied {
            all_applied = false;
            if o.worker == worker && o.result != TerminalResult::BatchAborted {
                winner_failed = true;
            }
        }
        i += 1;
    }
    if all_applied {
        None
    } else if winner_failed {
        Some(CommitFailure::untouched(CommitResult::StaleIdentity))
    } else {
        Some(CommitFailure::blocked(
            CommitResult::UnsupportedTarget,
            BlockReason::UnsupportedTarget,
            DomainMask { task: true, topology: false, availability: false },
        ))
    }
}

/// The failure of a commit whose prepared snapshot no longer matches.
pub open spec fn snapshot_changed() -> CommitFailure {
    blocked(CommitResult::OwnerMismatch, BlockReason::OwnerMismatch, all_domains())
}

/// What the world looks like again after the claim was inserted.
#[derive(Debug, PartialEq, Eq)]
pub struct CommitRecheck {
    /// The map's snapshot of the target, when the map exists.
    pub owner_snapshot: Option<OwnerSnapshot>,
    /// Every companion's map snapshot is still its prepared one.
    pub companion_snapshots_match: bool,
    /// `prepare_soul_spa_tiles` on the current tiles.
    pub soul_spa_tiles: Result<Vec<SoulSpaTileSnapshot>, CommitFailure>,
    /// `prepare_power_topology` on the current power facts.
    pub power_topology: Result<PowerTopologySnapshot, CommitFailure>,
    /// `building_visual_entities` on the current visuals.
    pub visual_entities: Vec<EntityId>,
    /// The items and mixers that the recovery plan touches, as they are now.
    pub recovery: RecoveryRecheck,
    /// The transport requests referencing the removed owners now.
    pub transport_requests: Vec<EntityId>,
    /// The rest area's relationship sources now.
    pub rest_sources: Vec<EntityId>,
}

/// Whether nothing the commit prepared changed before it applies.
pub open spec fn spec_still_matches(p: PreparedCommit, now: CommitRecheck) -> bool {
    &&& now.owner_snapshot matches Some(s) && same_snapshot(s, p.preflight.owner_snapshot)
    &&& now.companion_snapshots_match
    &&& now.soul_spa_tiles matches Ok(t) && t@ == p.preflight.soul_spa_tiles@
    &&& now.power_topology == Ok::<PowerTopologySnapshot, CommitFailure>(p.preflight.power_topology)
    &&& now.visual_entities@ == p.preflight.visual_entities@
    &&& recovery_still_matches(p.preflight.recovery, now.recovery)
    &&& now.transport_requests@ == p.transport_requests@
    &&& (p.preflight.kind != BuildingType::RestArea || now.rest_sources@ == p.preflight.recovery.rest_sources@)
}

fn same_ids(a: &Vec<EntityId>, b: &Vec<EntityId>) -> (r: bool)
    ensures
        r == (a@ == b@),
{
    if a.len() != b.len() {
        return false;
    }
    let mut i: usize = 0;
    while i < a.len()
        invariant
            a@.len() == b@.len(),
            i <= a@.len(),
            forall|j: int| 0 <= j < i ==> a@[j] == b@[j],
        decreases a.len() - i,
    {
        if a[i] != b[i] {
            return false;
        }
        i += 1;
    }
    assert(a@ =~= b@);
    true
}

fn same_grid_list(a: &Vec<Grid>, b: &Vec<Grid>) -> (r: bool)
    ensures
        r == (a@ == b@),
{
    if a.len() != b.len() {
        return false;
    }
    let mut i: usize = 0;
    while i < a.len()
        invariant
            a@.len() == b@.len(),
            i <= a@.len(),
            forall|j: int| 0 <= j < i ==> a@[j] == b@[j],
        decreases a.len() - i,
    {
        if a[i].0 != b[i].0 || a[i].1 != b[i].1 {
            return false;
        }
        i += 1;
    }
    assert(a@ =~= b@);
    true
}

fn same_tiles(a: &Vec<SoulSpaTileSnapshot>, b: &Vec<SoulSpaTileSnapshot>) -> (r: bool)
    ensures
        r == (a@ == b@),
{
    if a.len() != b.len() {
        return false;
    }
    let mut i: usize = 0;
    while i < a.len()
        invariant
            a@.len() == b@.len(),
            i <= a@.len(),
            forall|j: int| 0 <= j < i ==> a@[j] == b@[j],
        decreases a.len() - i,
    {
        if a[i] != b[i] {
            return false;
        }
        i += 1;
    }
    assert(a@ =~= b@);
    true
}

fn snapshots_equal(a: &OwnerSnapshot, b: &OwnerSnapshot) -> (r: bool)
    ensures
        r == same_snapshot(*a, *b),
{
    same_grid_list(&a.building_grids, &b.building_grids) && same_grid_list(&a.floor_grids, &b.floor_grids)
        && same_grid_list(&a.door_grids, &b.door_grids) && same_grid_list(&a.bridge_grids, &b.bridge_grids)
        && same_grid_list(&a.stockpile_grids, &b.stockpile_grids)
}

/// Checks, after the claim is in place, that nothing the commit prepared
/// changed (`prepared_snapshot_still_matches`).
pub fn prepared_snapshot_still_matches(p: &PreparedCommit, now: &CommitRecheck) -> (r: bool)
    ensures
        r == spec_still_matches(*p, *now),
{
    let map_ok = match &now.owner_snapshot {
        Some(s) => snapshots_equal(s, &p.preflight.owner_snapshot),
        None => false,
    };
    if !map_ok || !now.companion_snapshots_match {
        return false;
    }
    let tiles_ok = match &now.soul_spa_tiles {
        Ok(t) => same_tiles(t, &p.preflight.soul_spa_tiles),
        Err(_) => false,
    };
    if !tiles_ok {
        return false;
    }
    let power_ok = match now.power_topology {
        Ok(pt) => pt == p.preflight.power_topology,
        Err(_) => false,
    };
    if !power_ok || !same_ids(&now.visual_entities, &p.preflight.visual_entities) {
        return false;
    }
    recovery_plan_still_matches(&p.preflight.recovery, &now.recovery) && same_ids(&now.transport_requests, &p.transport_requests)
        && (p.preflight.kind != BuildingType::RestArea || same_ids(&now.rest_sources, &p.preflight.recovery.rest_sources))
}

/// The failure of a claimed commit whose prepared snapshot changed: an
/// owner mismatch in every diagnostic domain; `None` when nothing changed.
pub fn commit_recheck_failure(p: &PreparedCommit, now: &CommitRecheck) -> (r: Option<CommitFailure>)
    ensures
        spec_still_matches(*p, *now) ==> r is None,
        !spec_still_matches(*p, *now) ==> r == Some(snapshot_changed()),
{
    if prepared_snapshot_still_matches(p, now) {
        None
    } else {
        Some(CommitFailure::blocked(
            CommitResult::OwnerMismatch,
            BlockReason::OwnerMismatch,
            DomainMask { task: true, topology: true, availability: true },
        ))
    }
}

/// The map layer a commit clears for its target.
#[derive(Debug, Clone, Copy, PartialEq, Eq, Structural)]
pub enum ClearedLayer {
    /// `clear_door_if_owned` on the door cells.
    Door,
    /// `clear_floor_if_owned` on the floor cells.
    Floor,
    /// `clear_bridge_if_owned` on the bridge cells.
    Bridge,
    /// `clear_building_if_owned` on the building cells (passable kinds).
    PassableBuilding,
    /// `clear_building_occupancy_if_owned` on the building cells.
    BuildingOccupancy,
}

/// The world mutations of an applied commit.
#[derive(Debug, Clone, PartialEq, Eq)]
pub struct CommitApplyPlan {
    pub layer: ClearedLayer,
    /// The target's cells to clear in that layer.
    pub cleared_grids: Vec<Grid>,
    /// Cells whose room detection is marked dirty.
    pub dirty_grids: Vec<Grid>,
    /// Mark the dirty cells as removed wall connections.
    pub mark_wall_connections: bool,
    /// Release the rest area before removal.
    pub release_rest_area: bool,
    /// Request a full energy rebuild after removal.
    pub request_energy_rebuild: bool,
    /// Entities to despawn: visuals, soul spa tiles, orders, then the target.
    pub despawn: Vec<EntityId>,
}

/// The layer a kind's cells are cleared from.
pub open spec fn spec_cleared_layer(kind: BuildingType) -> ClearedLayer {
    match kind {
        BuildingType::Door => ClearedLayer::Door,
        BuildingType::Floor => ClearedLayer::Floor,
        BuildingType::Bridge => ClearedLayer::Bridge,
        BuildingType::SoulSpa | BuildingType::OutdoorLamp => ClearedLayer::PassableBuilding,
        _ => ClearedLayer::BuildingOccupancy,
    }
}

/// The cells cleared in that layer.
pub open spec fn spec_cleared_grids(kind: BuildingType, s: OwnerSnapshot) -> Seq<Grid> {
    match kind {
        BuildingType::Door => s.door_grids@,
        BuildingType::Floor => s.floor_grids@,
        BuildingType::Bridge => s.bridge_grids@,
        _ => s.building_grids@,
    }
}

/// Plans the world mutations of a commit whose terminals all applied.
pub fn commit_apply_plan(target: EntityId, p: &PreparedCommit) -> (plan: CommitApplyPlan)
    ensures
        plan.layer == spec_cleared_layer(p.preflight.kind),
        plan.cleared_grids@ == spec_cleared_grids(p.preflight.kind, p.preflight.owner_snapshot),
        plan.dirty_grids@ == p.preflight.owner_snapshot.building_grids@ + p.preflight.owner_snapshot.floor_grids@,
        plan.mark_wall_connections == (p.preflight.kind == BuildingType::Wall || p.preflight.kind == BuildingType::Door),
        plan.release_rest_area == (p.preflight.kind == BuildingType::RestArea),
        plan.request_energy_rebuild == (p.preflight.kind == BuildingType::SoulSpa || p.preflight.kind
            == BuildingType::OutdoorLamp),
        plan.despawn@ == p.preflight.visual_entities@ + tile_entities(p.preflight.soul_spa_tiles@)
            + p.preflight.orders_to_despawn@ + seq![target],
{
    let kind = p.preflight.kind;
    let s = &p.preflight.owner_snapshot;
    let layer = match kind {
        BuildingType::Door => ClearedLayer::Door,
        BuildingType::Floor => ClearedLayer::Floor,
        BuildingType::Bridge => ClearedLayer::Bridge,
        BuildingType::SoulSpa | BuildingType::OutdoorLamp => ClearedLayer::PassableBuilding,
        _ => ClearedLayer::BuildingOccupancy,
    };
    let cleared_grids = match kind {
        BuildingType::Door => crate::grid::copy_grids(&s.door_grids),
        BuildingType::Floor => crate::grid::copy_grids(&s.floor_grids),
        BuildingType::Bridge => crate::grid::copy_grids(&s.bridge_grids),
        _ => crate::grid::copy_grids(&s.building_grids),
    };
    let mut dirty_grids = crate::grid::copy_grids(&s.building_grids);
    let mut i: usize = 0;
    while i < s.floor_grids.len()
        invariant
            i <= s.floor_grids@.len(),
            dirty_grids@ == s.building_grids@ + s.floor_grids@.take(i as int),
        decreases s.floor_grids.len() - i,
    {
        dirty_grids.push(s.floor_grids[i]);
        proof {
            assert(s.floor_grids@.take(i + 1) =~= s.floor_grids@.take(i as int).push(s.floor_grids@[i as int]));
            assert(dirty_grids@ =~= s.building_grids@ + s.floor_grids@.take(i + 1));
        }
        i += 1;
    }
    assert(s.floor_grids@.take(s.floor_grids@.len() as int) =~= s.floor_grids@);
    let mut despawn = crate::grid::copy_entities(&p.preflight.visual_entities);
    let ghost before_tiles = despawn@;
    let mut k: usize = 0;
    while k < p.preflight.soul_spa_tiles.len()
        invariant
            k <= p.preflight.soul_spa_tiles@.len(),
            despawn@ == before_tiles + tile_entities(p.preflight.soul_spa_tiles@.take(k as int)),
        decreases p.preflight.soul_spa_tiles.len() - k,
    {
        despawn.push(p.preflight.soul_spa_tiles[k].entity);
        proof {
            assert(tile_entities(p.preflight.soul_spa_tiles@.take(k + 1)) =~= tile_entities(
                p.preflight.soul_spa_tiles@.take(k as int),
            ).push(p.preflight.soul_spa_tiles@[k as int].entity));
        }
        k += 1;
    }
    assert(p.preflight.soul_spa_tiles@.take(p.preflight.soul_spa_tiles@.len() as int) =~= p.preflight.soul_spa_tiles@);
    push_all(&mut despawn, &p.preflight.orders_to_despawn);
    despawn.push(target);
    CommitApplyPlan {
        layer,
        cleared_grids,
        dirty_grids,
        mark_wall_connections: kind == BuildingType::Wall || kind == BuildingType::Door,
        release_rest_area: kind == BuildingType::RestArea,
        request_energy_rebuild: kind == BuildingType::SoulSpa || kind == BuildingType::OutdoorLamp,
        despawn,
    }
}

/// Profiling counters of request-driven deconstruction transactions.
#[derive(Debug, Clone, Copy, Default, PartialEq, Eq)]
pub struct DeconstructionPerfMetrics {
    pub commit_validation_passes: u64,
    pub successful_cleanup_transactions: u64,
    pub recovery_items_spawned: u64,
    pub successful_transaction_elapsed_ns: u128,
}

/// Saturating `a + b` in `u64`.
pub open spec fn sat_add(a: u64, b: u64) -> u64 {
    if a + b > u64::MAX { u64::MAX } else { (a + b) as u64 }
}

/// Counts one validation pass of a commit request.
pub fn record_commit_validation_pass(metrics: &mut DeconstructionPerfMetrics)
    ensures
        final(metrics).commit_validation_passes == sat_add(old(metrics).commit_validation_passes, 1),
        final(metrics).successful_cleanup_transactions == old(metrics).successful_cleanup_transactions,
        final(metrics).recovery_items_spawned == old(metrics).recovery_items_spawned,
        final(metrics).successful_transaction_elapsed_ns == old(metrics).successful_transaction_elapsed_ns,
{
    metrics.commit_validation_passes = metrics.commit_validation_passes.saturating_add(1);
}

/// Counts one applied cleanup transaction, its spawned recovery items and
/// its elapsed nanoseconds.
pub fn record_successful_commit_metrics(
    metrics: &mut DeconstructionPerfMetrics,
    recovery_items_spawned: u64,
    elapsed_ns: u128,
)
    ensures
        final(metrics).commit_validation_passes == old(metrics).commit_validation_passes,
        final(metrics).successful_cleanup_transactions == sat_add(old(metrics).successful_cleanup_transactions, 1),
        final(metrics).recovery_items_spawned == sat_add(old(metrics).recovery_items_spawned, recovery_items_spawned),
        final(metrics).successful_transaction_elapsed_ns == (if old(metrics).successful_transaction_elapsed_ns + elapsed_ns
            > u128::MAX {
            u128::MAX
        } else {
            (old(metrics).successful_transaction_elapsed_ns + elapsed_ns) as u128
        }),
{
    metrics.successful_cleanup_transactions = metrics.successful_cleanup_transactions.saturating_add(1);
    metrics.recovery_items_spawned = metrics.recovery_items_spawned.saturating_add(recovery_items_spawned);
    metrics.successful_transaction_elapsed_ns = metrics.successful_transaction_elapsed_ns.saturating_add(elapsed_ns);
}

} // verus!
