//! The deconstruction finalizer: one owner-safe transaction per batch of
//! cancel and commit requests.
//!
//! The ECS world is read into facts and the outcome of each step is a plain
//! decision: which outcome to publish and which mutations to apply. Steps
//! that run another subsystem (terminalizing exact tasks, collecting
//! transport requests) hand their results back to the next decision.

use vstd::prelude::*;
use crate::grid::{EntityId, Grid, exact_rectangle, grid_in, spec_exact_rectangle, strictly_yx_increasing, yx_lt};
use crate::decon::{
    BlockReason, BuildingType, CancelRequest, CancelResult, CommitClaim, CommitFailure, CommitRequest,
    CommitResult, DomainMask, OrderFacts, OwnerSnapshot, WorkType, all_domains, availability_domain,
    blocked, find_order, is_live_order_for, live_order_for, order_fact, orphaned, task_domain,
    task_topology_domains, topology_availability_domains, untouched,
};
use crate::sort::{KeyOrder, sort_by_key, sorted_by_key};
use crate::task_terminals::{
    CompletingExactTask, ReferenceWorkers, TaskExpectation, TerminalDisposition, TerminalOutcome,
    TerminalRequest, TerminalResult, WorkerTaskFacts, prepare_owner_task_terminals,
};

verus! {

/// Why the orders of a target could not be collected.
#[derive(Debug, Clone, Copy, PartialEq, Eq, Structural)]
pub enum RelatedOrdersFailure {
    /// The target lists no orders, or the canonical order is not a live
    /// order of the target.
    CanonicalInvalid,
    /// A sibling order is not an order that roots at the target.
    MalformedSibling,
}

/// A sibling order that belongs to `target`: marker and root.
pub open spec fn is_owned_order_for(f: Option<OrderFacts>, target: EntityId) -> bool {
    f matches Some(o) && o.is_order && o.target_root == Some(target)
}

/// The verdict on a target's `DeconstructionOrders` relation.
pub open spec fn related_orders_verdict(
    relations: Option<Seq<EntityId>>,
    orders: Seq<OrderFacts>,
    target: EntityId,
    canonical: EntityId,
) -> Result<(), RelatedOrdersFailure> {
    match relations {
        None => Err(RelatedOrdersFailure::CanonicalInvalid),
        Some(rel) => if !rel.contains(canonical) || !is_live_order_for(order_fact(orders, canonical), target) {
            Err(RelatedOrdersFailure::CanonicalInvalid)
        } else if exists|i: int|
            0 <= i < rel.len() && rel[i] != canonical && !is_owned_order_for(
                order_fact(orders, #[trigger] rel[i]),
                target,
            ) {
            Err(RelatedOrdersFailure::MalformedSibling)
        } else {
            Ok(())
        },
    }
}

/// Every order that a target's deconstruction would cancel or despawn,
/// sorted by entity bits; `Err` when the canonical order is not live or a
/// sibling is malformed.
pub fn related_deconstruction_orders_for_target(
    relations: Option<&[EntityId]>,
    orders: &[OrderFacts],
    target: EntityId,
    canonical_order: EntityId,
) -> (r: Result<Vec<EntityId>, RelatedOrdersFailure>)
    ensures
        match related_orders_verdict(
            match relations {
                Some(rel) => Some(rel@),
                None => None,
            },
            orders@,
            target,
            canonical_order,
        ) {
            Err(e) => r == Err::<Vec<EntityId>, RelatedOrdersFailure>(e),
            Ok(()) => r matches Ok(v) && sorted_by_key(v@) && v@.to_multiset() == relations.unwrap()@.to_multiset(),
        },
{
    let rel = match relations {
        None => return Err(RelatedOrdersFailure::CanonicalInvalid),
        Some(rel) => rel,
    };
    let sorted = sort_by_key(rel);
    proof {
        sorted@.to_multiset_ensures();
        rel@.to_multiset_ensures();
    }
    let mut has_canonical = false;
    let mut i: usize = 0;
    while i < sorted.len()
        invariant
            i <= sorted@.len(),
            has_canonical == exists|j: int| 0 <= j < i && sorted@[j] == canonical_order,
        decreases sorted.len() - i,
    {
        if sorted[i] == canonical_order {
            has_canonical = true;
        }
        i += 1;
    }
    proof {
        assert(has_canonical == sorted@.contains(canonical_order));
        assert(sorted@.to_multiset().count(canonical_order) == rel@.to_multiset().count(canonical_order));
    }
    if !has_canonical {
        return Err(RelatedOrdersFailure::CanonicalInvalid);
    }
    proof {
        let w = choose|w: int| 0 <= w < sorted@.len() && sorted@[w] == canonical_order;
        assert(sorted@.contains(canonical_order));
        assert(rel@.contains(canonical_order));
    }
    let canonical_facts = find_order(orders, canonical_order);
    if !live_order_for(canonical_facts, target) {
        return Err(RelatedOrdersFailure::CanonicalInvalid);
    }
    let mut k: usize = 0;
    while k < sorted.len()
        invariant
            k <= sorted@.len(),
            sorted@.to_multiset() == rel@.to_multiset(),
            rel@.contains(canonical_order),
            relations == Some(rel),
            is_live_order_for(order_fact(orders@, canonical_order), target),
            forall|j: int|
                0 <= j < k && sorted@[j] != canonical_order ==> is_owned_order_for(
                    order_fact(orders@, #[trigger] sorted@[j]),
                    target,
                ),
        decreases sorted.len() - k,
    {
        let e = sorted[k];
        if e != canonical_order {
            let f = find_order(orders, e);
            let owned = match f {
                Some(o) => o.is_order && o.target_root == Some(target),
                None => false,
            };
            if !owned {
                proof {
                    assert(sorted@[k as int] == e);
                    assert(sorted@.contains(e));
                    sorted@.to_multiset_ensures();
                    rel@.to_multiset_ensures();
                    assert(sorted@.to_multiset().count(e) == rel@.to_multiset().count(e));
                    let w = choose|w: int| 0 <= w < rel@.len() && rel@[w] == e;
                    assert(rel@[w] != canonical_order && !is_owned_order_for(order_fact(orders@, rel@[w]), target));
                    assert(relations == Some(rel));
                    assert(related_orders_verdict(Some(rel@), orders@, target, canonical_order)
                        == Err::<(), RelatedOrdersFailure>(RelatedOrdersFailure::MalformedSibling));
                }
                return Err(RelatedOrdersFailure::MalformedSibling);
            }
        }
        k += 1;
    }
    proof {
        assert forall|i: int| 0 <= i < rel@.len() && rel@[i] != canonical_order implies is_owned_order_for(
            order_fact(orders@, #[trigger] rel@[i]),
            target,
        ) by {
            assert(rel@.contains(rel@[i]));
            assert(sorted@.to_multiset().count(rel@[i]) == rel@.to_multiset().count(rel@[i]));
            let w = choose|w: int| 0 <= w < sorted@.len() && sorted@[w] == rel@[i];
        }
    }
    Ok(sorted)
}

/// Whether a durable `MovePlantTask` or an assigned move task targets the
/// building.
pub fn move_task_references(
    durable_move_task_buildings: &[EntityId],
    assigned_move_task_buildings: &[EntityId],
    target: EntityId,
) -> (r: bool)
    ensures
        r == (durable_move_task_buildings@.contains(target) || assigned_move_task_buildings@.contains(target)),
{
    contains(durable_move_task_buildings, target) || contains(assigned_move_task_buildings, target)
}

fn contains(s: &[EntityId], e: EntityId) -> (b: bool)
    ensures
        b == s@.contains(e),
{
    let mut i: usize = 0;
    while i < s.len()
        invariant
            i <= s@.len(),
            forall|j: int| 0 <= j < i ==> s@[j] != e,
        decreases s.len() - i,
    {
        if s[i] == e {
            assert(s@[i as int] == e);
            return true;
        }
        i += 1;
    }
    false
}

/// Whether a discarded order's target should lose its pending marker: it
/// has one, and that marker names the discarded order or an order that is
/// no longer live for the target.
pub open spec fn spec_remove_orphaned_pending(
    pending: Option<EntityId>,
    orders: Seq<OrderFacts>,
    target: EntityId,
    discarded_order: EntityId,
) -> bool {
    match pending {
        None => false,
        Some(p) => p == discarded_order || !is_live_order_for(order_fact(orders, p), target),
    }
}

/// Decides whether the target's `DeconstructionPending` is removed after
/// an orphaned order is discarded.
pub fn remove_orphaned_pending(
    pending: Option<EntityId>,
    orders: &[OrderFacts],
    target: EntityId,
    discarded_order: EntityId,
) -> (r: bool)
    ensures
        r == spec_remove_orphaned_pending(pending, orders@, target, discarded_order),
{
    match pending {
        None => false,
        Some(p) => {
            let live = live_order_for(find_order(orders, p), target);
            p == discarded_order || !live
        },
    }
}

/// Whether a failed or finished commit releases the target's claim: only
/// the claim that this very request put there.
pub open spec fn spec_release_commit_claim(claim: Option<CommitClaim>, request: CommitRequest) -> bool {
    claim matches Some(c) && c.world_epoch == request.world_epoch && c.order == request.order
}

/// Decides whether the target's `DeconstructionCommitClaim` is removed.
pub fn release_commit_claim(claim: Option<CommitClaim>, request: CommitRequest) -> (r: bool)
    ensures
        r == spec_release_commit_claim(claim, request),
{
    match claim {
        Some(c) => c.world_epoch == request.world_epoch && c.order == request.order,
        None => false,
    }
}

/// Input revisions of the diagnostic domains of an order.
#[derive(Debug, Clone, Copy, PartialEq, Eq, Structural)]
pub struct DiagnosticStamp {
    pub task: u64,
    pub topology: u64,
    pub availability: u64,
}

/// The blocker armed on an order after a blocked commit.
#[derive(Debug, Clone, Copy, PartialEq, Eq)]
pub enum Blocker {
    /// Waiting for the first diagnostic sync.
    Pending { reason: BlockReason, domains: DomainMask },
    /// Armed against these input revisions.
    Armed { reason: BlockReason, domains: DomainMask, stamp: DiagnosticStamp },
}

/// The blocker for an order whose worker's task was just removed: armed
/// against the order's current revisions, with the task revision moved past
/// the one bump that removing the worker's `WorkingOn` edge causes.
pub open spec fn spec_blocker_after_cleanup(
    revisions: Option<DiagnosticStamp>,
    reason: BlockReason,
    domains: DomainMask,
) -> Blocker {
    match revisions {
        None => Blocker::Pending { reason, domains },
        Some(stamp) => Blocker::Armed {
            reason,
            domains,
            stamp: if domains.task {
                DiagnosticStamp { task: if stamp.task == u64::MAX { 0 } else { (stamp.task + 1) as u64 }, ..stamp }
            } else {
                stamp
            },
        },
    }
}

/// Builds the blocker of a blocked commit's order.
pub fn deconstruction_blocker_after_worker_cleanup(
    revisions: Option<DiagnosticStamp>,
    reason: BlockReason,
    domains: DomainMask,
) -> (b: Blocker)
    ensures
        b == spec_blocker_after_cleanup(revisions, reason, domains),
{
    match revisions {
        None => Blocker::Pending { reason, domains },
        Some(stamp) => {
            let mut s = stamp;
            if domains.task {
                s.task = s.task.wrapping_add(1);
            }
            Blocker::Armed { reason, domains, stamp: s }
        },
    }
}

/// The exact terminal request that ends the committing worker's task.
pub open spec fn spec_commit_worker_terminal(request: CommitRequest, disposition: TerminalDisposition) -> TerminalRequest {
    TerminalRequest {
        worker: request.worker,
        expected_identity: request.identity,
        expectation: TaskExpectation::DeconstructionAwaitingCommit { order: request.order, target: request.target },
        disposition,
    }
}

/// The one-request batch that terminalizes the committing worker; its
/// single outcome is the worker's terminal result.
pub fn terminalize_commit_worker(request: CommitRequest, disposition: TerminalDisposition) -> (t: TerminalRequest)
    ensures
        t == spec_commit_worker_terminal(request, disposition),
{
    TerminalRequest {
        worker: request.worker,
        expected_identity: request.identity,
        expectation: TaskExpectation::DeconstructionAwaitingCommit { order: request.order, target: request.target },
        disposition,
    }
}

/// A 3D visual entity and the building it presents.
#[derive(Debug, Clone, Copy, PartialEq, Eq, Structural)]
pub struct VisualFacts {
    pub entity: EntityId,
    pub owner: EntityId,
}

/// The visual entities owned by `target`.
pub open spec fn owned_visuals(visuals: Seq<VisualFacts>, target: EntityId) -> Seq<EntityId>
    decreases visuals.len(),
{
    if visuals.len() == 0 {
        Seq::empty()
    } else {
        let rest = owned_visuals(visuals.drop_last(), target);
        if visuals.last().owner == target {
            rest.push(visuals.last().entity)
        } else {
            rest
        }
    }
}

/// The visual entities owned by the target, sorted by entity bits.
pub fn building_visual_entities(visuals: &[VisualFacts], target: EntityId) -> (r: Vec<EntityId>)
    ensures
        sorted_by_key(r@),
        r@.to_multiset() == owned_visuals(visuals@, target).to_multiset(),
{
    let mut owned: Vec<EntityId> = Vec::new();
    let mut i: usize = 0;
    while i < visuals.len()
        invariant
            i <= visuals@.len(),
            owned@ == owned_visuals(visuals@.take(i as int), target),
        decreases visuals.len() - i,
    {
        proof {
            assert(visuals@.take(i + 1).drop_last() =~= visuals@.take(i as int));
        }
        if visuals[i].owner == target {
            owned.push(visuals[i].entity);
        }
        i += 1;
    }
    assert(visuals@.take(visuals@.len() as int) =~= visuals@);
    sort_by_key(&owned)
}

/// Whether a target's map ownership is exactly its footprint: no
/// stockpile cells, and per kind exactly the layers it owns.
pub open spec fn spec_owner_snapshot_is_exact(
    door_registered_at_anchor: bool,
    kind: BuildingType,
    s: OwnerSnapshot,
    anchor: Grid,
) -> bool {
    let single = |g: Seq<Grid>| g == seq![anchor];
    if s.stockpile_grids@.len() != 0 {
        false
    } else {
        match kind {
            BuildingType::Wall | BuildingType::SandPile | BuildingType::BonePile | BuildingType::OutdoorLamp => {
                single(s.building_grids@) && s.floor_grids@.len() == 0 && s.door_grids@.len() == 0
                    && s.bridge_grids@.len() == 0
            },
            BuildingType::Door => {
                single(s.building_grids@) && single(s.door_grids@) && door_registered_at_anchor
                    && s.floor_grids@.len() == 0 && s.bridge_grids@.len() == 0
            },
            BuildingType::Floor => {
                single(s.floor_grids@) && s.building_grids@.len() == 0 && s.door_grids@.len() == 0
                    && s.bridge_grids@.len() == 0
            },
            BuildingType::Tank | BuildingType::MudMixer | BuildingType::RestArea
            | BuildingType::WheelbarrowParking | BuildingType::SoulSpa => {
                spec_exact_rectangle(s.building_grids@, 2, 2) && s.building_grids@.contains(anchor)
                    && s.floor_grids@.len() == 0 && s.door_grids@.len() == 0 && s.bridge_grids@.len() == 0
            },
            BuildingType::Bridge => {
                spec_exact_rectangle(s.building_grids@, 2, 5) && s.building_grids@.contains(anchor)
                    && s.bridge_grids@ == s.building_grids@ && s.floor_grids@.len() == 0
                    && s.door_grids@.len() == 0
            },
        }
    }
}

/// Cells far enough from the `i32` edge for a footprint rectangle.
pub open spec fn grids_in_range(g: Seq<Grid>) -> bool {
    forall|i: int| 0 <= i < g.len() ==> -0x7fff_0000 <= #[trigger] g[i].0 <= 0x7fff_0000
        && -0x7fff_0000 <= g[i].1 <= 0x7fff_0000
}

fn exact_single(g: &Vec<Grid>, anchor: Grid) -> (r: bool)
    ensures
        r == (g@ == seq![anchor]),
{
    let r = g.len() == 1 && g[0].0 == anchor.0 && g[0].1 == anchor.1;
    proof {
        if r {
            assert(g@ =~= seq![anchor]);
        }
    }
    r
}

fn same_grids(a: &Vec<Grid>, b: &Vec<Grid>) -> (r: bool)
    ensures
        r == (a@ == b@),
{
    if a.len() != b.len() {
        return false;
    }
    let mut i: usize = 0;
    while i < a.len()
        invariant
            a@.len() == b@.len(),
            i <= a@.len(),
            forall|j: int| 0 <= j < i ==> a@[j] == b@[j],
        decreases a.len() - i,
    {
        if a[i].0 != b[i].0 || a[i].1 != b[i].1 {
            return false;
        }
        i += 1;
    }
    assert(a@ =~= b@);
    true
}

/// Checks that a target's map ownership is exactly its footprint.
pub fn target_owner_snapshot_is_exact(
    door_registered_at_anchor: bool,
    kind: BuildingType,
    snapshot: &OwnerSnapshot,
    anchor: Grid,
) -> (r: bool)
    requires
        grids_in_range(snapshot.building_grids@),
    ensures
        r == spec_owner_snapshot_is_exact(door_registered_at_anchor, kind, *snapshot, anchor),
{
    let s = snapshot;
    if s.stockpile_grids.len() != 0 {
        return false;
    }
    match kind {
        BuildingType::Wall | BuildingType::SandPile | BuildingType::BonePile | BuildingType::OutdoorLamp => {
            exact_single(&s.building_grids, anchor) && s.floor_grids.len() == 0 && s.door_grids.len() == 0
                && s.bridge_grids.len() == 0
        },
        BuildingType::Door => {
            exact_single(&s.building_grids, anchor) && exact_single(&s.door_grids, anchor)
                && door_registered_at_anchor && s.floor_grids.len() == 0 && s.bridge_grids.len() == 0
        },
        BuildingType::Floor => {
            exact_single(&s.floor_grids, anchor) && s.building_grids.len() == 0 && s.door_grids.len() == 0
                && s.bridge_grids.len() == 0
        },
        BuildingType::Tank | BuildingType::MudMixer | BuildingType::RestArea
        | BuildingType::WheelbarrowParking | BuildingType::SoulSpa => {
            exact_rectangle(s.building_grids.as_slice(), 2, 2) && grid_in(s.building_grids.as_slice(), anchor)
                && s.floor_grids.len() == 0 && s.door_grids.len() == 0 && s.bridge_grids.len() == 0
        },
        BuildingType::Bridge => {
            exact_rectangle(s.building_grids.as_slice(), 2, 5) && grid_in(s.building_grids.as_slice(), anchor)
                && same_grids(&s.bridge_grids, &s.building_grids) && s.floor_grids.len() == 0
                && s.door_grids.len() == 0
        },
    }
}

/// The failure of a commit whose owner topology changed.
pub open spec fn owner_mismatch() -> CommitFailure {
    blocked(CommitResult::OwnerMismatch, BlockReason::OwnerMismatch, task_topology_domains())
}

fn owner_mismatch_failure() -> (f: CommitFailure)
    ensures
        f == owner_mismatch(),
{
    CommitFailure::blocked(
        CommitResult::OwnerMismatch,
        BlockReason::OwnerMismatch,
        DomainMask { task: true, topology: true, availability: false },
    )
}

/// Why a facility recovery plan could not be prepared.
#[derive(Debug, Clone, Copy, PartialEq, Eq, Structural)]
pub enum RecoveryPlanFailure {
    OwnerMismatch,
    NoSafeRecovery,
    InconsistentMixerInventory,
    UnsupportedTarget,
}

/// The commit failure that a recovery failure becomes.
pub open spec fn spec_recovery_failure(f: RecoveryPlanFailure) -> CommitFailure {
    match f {
        RecoveryPlanFailure::OwnerMismatch => owner_mismatch(),
        RecoveryPlanFailure::NoSafeRecovery => blocked(
            CommitResult::NoSafeRecovery,
            BlockReason::NoSafeRecovery,
            topology_availability_domains(),
        ),
        RecoveryPlanFailure::InconsistentMixerInventory => blocked(
            CommitResult::InconsistentMixerInventory,
            BlockReason::InconsistentMixerInventory,
            availability_domain(),
        ),
        RecoveryPlanFailure::UnsupportedTarget => blocked(
            CommitResult::UnsupportedTarget,
            BlockReason::UnsupportedTarget,
            task_domain(),
        ),
    }
}

/// Maps a recovery failure to the commit failure it causes.
pub fn recovery_failure(f: RecoveryPlanFailure) -> (r: CommitFailure)
    ensures
        r == spec_recovery_failure(f),
{
    match f {
        RecoveryPlanFailure::OwnerMismatch => owner_mismatch_failure(),
        RecoveryPlanFailure::NoSafeRecovery => CommitFailure::blocked(
            CommitResult::NoSafeRecovery,
            BlockReason::NoSafeRecovery,
            DomainMask { task: false, topology: true, availability: true },
        ),
        RecoveryPlanFailure::InconsistentMixerInventory => CommitFailure::blocked(
            CommitResult::InconsistentMixerInventory,
            BlockReason::InconsistentMixerInventory,
            DomainMask { task: false, topology: false, availability: true },
        ),
        RecoveryPlanFailure::UnsupportedTarget => CommitFailure::blocked(
            CommitResult::UnsupportedTarget,
            BlockReason::UnsupportedTarget,
            DomainMask { task: true, topology: false, availability: false },
        ),
    }
}


/// A soul spa tile: a child entity of a soul spa site.
#[derive(Debug, Clone, Copy, PartialEq, Eq)]
pub struct SoulSpaTileFacts {
    pub entity: EntityId,
    /// The site the tile names as its parent.
    pub parent_site: EntityId,
    /// The tile's `ChildOf` parent.
    pub child_of: Option<EntityId>,
    pub designation: Option<WorkType>,
    /// `TaskSlots::max`.
    pub slots_max: Option<u32>,
    pub grid: Grid,
}

/// A soul spa tile that a commit removes with its site.
#[derive(Debug, Clone, Copy, PartialEq, Eq, Structural)]
pub struct SoulSpaTileSnapshot {
    pub entity: EntityId,
    pub grid_x: i32,
    pub grid_y: i32,
}

impl KeyOrder for SoulSpaTileSnapshot {
    open spec fn key_le(self, other: Self) -> bool {
        self.entity <= other.entity
    }

    proof fn key_le_total(a: Self, b: Self) {
    }

    proof fn key_le_transitive(a: Self, b: Self, c: Self) {
    }

    fn le(&self, other: &Self) -> (r: bool) {
        self.entity <= other.entity
    }
}

/// A tile that belongs to the target, by parent site or by hierarchy.
pub open spec fn tile_relevant(t: SoulSpaTileFacts, target: EntityId) -> bool {
    t.parent_site == target || t.child_of == Some(target)
}

/// A relevant tile that is a well-formed operational tile of the target.
pub open spec fn tile_consistent(t: SoulSpaTileFacts, target: EntityId, kind: BuildingType) -> bool {
    &&& kind == BuildingType::SoulSpa
    &&& t.parent_site == target
    &&& !(t.child_of matches Some(p) && p != target)
    &&& t.designation == Some(WorkType::GeneratePower)
    &&& t.slots_max == Some(1u32)
}

/// The snapshots of the relevant tiles, in query order.
pub open spec fn relevant_tiles(tiles: Seq<SoulSpaTileFacts>, target: EntityId) -> Seq<SoulSpaTileSnapshot>
    decreases tiles.len(),
{
    if tiles.len() == 0 {
        Seq::empty()
    } else {
        let rest = relevant_tiles(tiles.drop_last(), target);
        let t = tiles.last();
        if tile_relevant(t, target) {
            rest.push(SoulSpaTileSnapshot { entity: t.entity, grid_x: t.grid.0, grid_y: t.grid.1 })
        } else {
            rest
        }
    }
}

/// The grid of a tile snapshot.
pub open spec fn snapshot_grid(t: SoulSpaTileSnapshot) -> Grid {
    (t.grid_x, t.grid_y)
}

/// Whether the tiles' cells, sorted by `(y, x)` without repeats, are the
/// building cells the map records for the site.
pub open spec fn tile_grids_match(tiles: Seq<SoulSpaTileSnapshot>, building: Seq<Grid>) -> bool {
    &&& strictly_yx_increasing(building)
    &&& forall|g: Grid| building.contains(g) <==> #[trigger] tiles_have_grid(tiles, g)
}

/// Whether some tile stands on `g`.
pub open spec fn tiles_have_grid(tiles: Seq<SoulSpaTileSnapshot>, g: Grid) -> bool {
    exists|i: int| 0 <= i < tiles.len() && #[trigger] snapshot_grid(tiles[i]) == g
}

/// Whether the target's soul spa tiles are consistent with its kind and
/// map footprint.
pub open spec fn soul_spa_tiles_ok(
    tiles: Seq<SoulSpaTileFacts>,
    target: EntityId,
    kind: BuildingType,
    site_operational: bool,
    building_grids: Seq<Grid>,
) -> bool {
    let rel = relevant_tiles(tiles, target);
    &&& forall|i: int| 0 <= i < tiles.len() && tile_relevant(tiles[i], target) ==> #[trigger] tile_consistent(tiles[i], target, kind)
    &&& (kind == BuildingType::SoulSpa ==> site_operational && rel.len() == 4 && tile_grids_match(rel, building_grids))
}

fn yx_less(a: Grid, b: Grid) -> (r: bool)
    ensures
        r == yx_lt(a, b),
{
    a.1 < b.1 || (a.1 == b.1 && a.0 < b.0)
}

fn strictly_yx(g: &Vec<Grid>) -> (r: bool)
    ensures
        r == strictly_yx_increasing(g@),
{
    if g.len() == 0 {
        return true;
    }
    let mut i: usize = 1;
    while i < g.len()
        invariant
            1 <= i <= g@.len(),
            forall|a: int, b: int| 0 <= a < b < i ==> yx_lt(#[trigger] g@[a], #[trigger] g@[b]),
        decreases g.len() - i,
    {
        if !yx_less(g[i - 1], g[i]) {
            assert(!yx_lt(g@[i - 1], g@[i as int]));
            return false;
        }
        proof {
            assert forall|a: int, b: int| 0 <= a < b < i + 1 implies yx_lt(#[trigger] g@[a], #[trigger] g@[b]) by {
                if b == i && a < i - 1 {
                    assert(yx_lt(g@[a], g@[i - 1]));
                }
            }
        }
        i += 1;
    }
    true
}

fn tile_has_grid(tiles: &Vec<SoulSpaTileSnapshot>, g: Grid) -> (r: bool)
    ensures
        r == tiles_have_grid(tiles@, g),
{
    let mut i: usize = 0;
    while i < tiles.len()
        invariant
            i <= tiles@.len(),
            forall|j: int| 0 <= j < i ==> #[trigger] snapshot_grid(tiles@[j]) != g,
        decreases tiles.len() - i,
    {
        if tiles[i].grid_x == g.0 && tiles[i].grid_y == g.1 {
            assert(snapshot_grid(tiles@[i as int]) == g);
            return true;
        }
        i += 1;
    }
    false
}

pub fn tile_grids_equal(tiles: &Vec<SoulSpaTileSnapshot>, building: &Vec<Grid>) -> (r: bool)
    ensures
        r == tile_grids_match(tiles@, building@),
{
    if !strictly_yx(building) {
        return false;
    }
    let mut i: usize = 0;
    while i < building.len()
        invariant
            i <= building@.len(),
            forall|j: int| 0 <= j < i ==> tiles_have_grid(tiles@, #[trigger] building@[j]),
        decreases building.len() - i,
    {
        if !tile_has_grid(tiles, building[i]) {
            assert(building@.contains(building@[i as int]));
            return false;
        }
        i += 1;
    }
    let mut k: usize = 0;
    while k < tiles.len()
        invariant
            k <= tiles@.len(),
            forall|j: int| 0 <= j < k ==> building@.contains(#[trigger] snapshot_grid(tiles@[j])),
        decreases tiles.len() - k,
    {
        let g = (tiles[k].grid_x, tiles[k].grid_y);
        if !grid_in(building.as_slice(), g) {
            assert(snapshot_grid(tiles@[k as int]) == g);
            assert(tiles_have_grid(tiles@, g));
            return false;
        }
        k += 1;
    }
    proof {
        assert forall|g: Grid| building@.contains(g) <==> #[trigger] tiles_have_grid(tiles@, g) by {
            if building@.contains(g) {
                let j = choose|j: int| 0 <= j < building@.len() && building@[j] == g;
                assert(tiles_have_grid(tiles@, building@[j]));
            }
            if tiles_have_grid(tiles@, g) {
                let i = choose|i: int| 0 <= i < tiles@.len() && #[trigger] snapshot_grid(tiles@[i]) == g;
                assert(building@.contains(snapshot_grid(tiles@[i])));
            }
        }
    }
    true
}

/// Snapshots the soul spa tiles a commit removes with its target, sorted
/// by entity; an owner mismatch when any tile disagrees with the target.
pub fn prepare_soul_spa_tiles(
    tiles: &[SoulSpaTileFacts],
    target: EntityId,
    kind: BuildingType,
    site_operational: bool,
    building_grids: &Vec<Grid>,
) -> (r: Result<Vec<SoulSpaTileSnapshot>, CommitFailure>)
    ensures
        soul_spa_tiles_ok(tiles@, target, kind, site_operational, building_grids@) ==> (r matches Ok(v)
            && sorted_by_key(v@) && v@.to_multiset() == relevant_tiles(tiles@, target).to_multiset()),
        !soul_spa_tiles_ok(tiles@, target, kind, site_operational, building_grids@) ==> r == Err::<
            Vec<SoulSpaTileSnapshot>,
            CommitFailure,
        >(owner_mismatch()),
{
    let mut rel: Vec<SoulSpaTileSnapshot> = Vec::new();
    let mut i: usize = 0;
    while i < tiles.len()
        invariant
            i <= tiles@.len(),
            rel@ == relevant_tiles(tiles@.take(i as int), target),
            forall|j: int| 0 <= j < i && tile_relevant(tiles@[j], target) ==> #[trigger] tile_consistent(tiles@[j], target, kind),
        decreases tiles.len() - i,
    {
        let t = tiles[i];
        proof {
            assert(tiles@.take(i + 1).drop_last() =~= tiles@.take(i as int));
        }
        let relevant = t.parent_site == target || t.child_of == Some(target);
        if relevant {
            let bad_parent = match t.child_of {
                Some(p) => p != target,
                None => false,
            };
            if kind != BuildingType::SoulSpa || t.parent_site != target || bad_parent
                || t.designation != Some(WorkType::GeneratePower) || t.slots_max != Some(1u32) {
                assert(!tile_consistent(tiles@[i as int], target, kind));
                return Err(owner_mismatch_failure());
            }
            rel.push(SoulSpaTileSnapshot { entity: t.entity, grid_x: t.grid.0, grid_y: t.grid.1 });
        }
        i += 1;
    }
    assert(tiles@.take(tiles@.len() as int) =~= tiles@);
    let sorted = sort_by_key(rel.as_slice());
    if kind != BuildingType::SoulSpa {
        return Ok(sorted);
    }
    if !site_operational || rel.len() != 4 {
        return Err(owner_mismatch_failure());
    }
    if !tile_grids_equal(&rel, building_grids) {
        return Err(owner_mismatch_failure());
    }
    Ok(sorted)
}

/// The power relations of a building.
#[derive(Debug, Clone, Copy, PartialEq, Eq, Structural)]
pub struct PowerTopologySnapshot {
    /// The grid its `GeneratesFor` relation names.
    pub generator_grid: Option<EntityId>,
    /// The grid its `ConsumesFrom` relation names.
    pub consumer_grid: Option<EntityId>,
}

/// Power facts of a commit target.
#[derive(Debug, Clone, PartialEq, Eq)]
pub struct PowerFacts {
    pub generates_for: Option<EntityId>,
    pub consumes_from: Option<EntityId>,
    pub has_generator: bool,
    pub has_consumer: bool,
    /// The power grids whose `GridGenerators` list the target.
    pub grids_listing_as_generator: Vec<EntityId>,
    /// The power grids whose `GridConsumers` list the target.
    pub grids_listing_as_consumer: Vec<EntityId>,
}

/// Whether the grids that list the target are exactly the grid it names.
pub open spec fn reverse_edges_match(listing: Seq<EntityId>, named: Option<EntityId>) -> bool {
    match named {
        None => listing.len() == 0,
        Some(g) => listing == seq![g],
    }
}

/// Whether a target's power markers and relations fit its kind.
pub open spec fn power_topology_ok(p: PowerFacts, kind: BuildingType) -> bool {
    let marker_shape = match kind {
        BuildingType::SoulSpa => p.has_generator && !p.has_consumer && p.consumes_from is None,
        BuildingType::OutdoorLamp => p.has_consumer && !p.has_generator && p.generates_for is None,
        _ => !p.has_generator && !p.has_consumer && p.generates_for is None && p.consumes_from is None,
    };
    marker_shape && reverse_edges_match(p.grids_listing_as_generator@, p.generates_for)
        && reverse_edges_match(p.grids_listing_as_consumer@, p.consumes_from)
}

fn edges_match(listing: &Vec<EntityId>, named: Option<EntityId>) -> (r: bool)
    ensures
        r == reverse_edges_match(listing@, named),
{
    match named {
        None => listing.len() == 0,
        Some(g) => {
            let r = listing.len() == 1 && listing[0] == g;
            proof {
                if r {
                    assert(listing@ =~= seq![g]);
                }
            }
            r
        },
    }
}

/// Snapshots a target's power relations; an owner mismatch when its
/// markers or the grids' reverse edges disagree with its kind.
pub fn prepare_power_topology(p: &PowerFacts, kind: BuildingType) -> (r: Result<PowerTopologySnapshot, CommitFailure>)
    ensures
        power_topology_ok(*p, kind) ==> r == Ok::<PowerTopologySnapshot, CommitFailure>(
            PowerTopologySnapshot { generator_grid: p.generates_for, consumer_grid: p.consumes_from },
        ),
        !power_topology_ok(*p, kind) ==> r == Err::<PowerTopologySnapshot, CommitFailure>(owner_mismatch()),
{
    let marker_shape = match kind {
        BuildingType::SoulSpa => p.has_generator && !p.has_consumer && p.consumes_from.is_none(),
        BuildingType::OutdoorLamp => p.has_consumer && !p.has_generator && p.generates_for.is_none(),
        _ => !p.has_generator && !p.has_consumer && p.generates_for.is_none() && p.consumes_from.is_none(),
    };
    if !marker_shape || !edges_match(&p.grids_listing_as_generator, p.generates_for) || !edges_match(
        &p.grids_listing_as_consumer,
        p.consumes_from,
    ) {
        return Err(owner_mismatch_failure());
    }
    Ok(PowerTopologySnapshot { generator_grid: p.generates_for, consumer_grid: p.consumes_from })
}


} // verus!
