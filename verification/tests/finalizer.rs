use hell_workers_jobs::commit::{
    classify_commit_terminals, commit_apply_plan, finish_commit_validation,
    record_commit_validation_pass, record_successful_commit_metrics, validate_commit,
    BuildingFacts, ClearedLayer, CommitFacts, CommitTargetFacts, CommitWorkerFacts,
    DeconstructTaskFacts, DeconstructionPerfMetrics, MapFacts, ResolvedTarget,
};
use hell_workers_jobs::decon::{
    BlockReason, BuildingType, CancelRequest, CancelResult, CommitClaim, CommitFailure,
    CommitRequest, CommitResult, DomainMask, OrderFacts, OwnerSnapshot, TaskIdentity, WorkType,
};
use hell_workers_jobs::finalizer::{
    deconstruction_blocker_after_worker_cleanup, release_commit_claim, remove_orphaned_pending,
    terminalize_commit_worker, Blocker, DiagnosticStamp, PowerFacts, RecoveryPlanFailure,
    SoulSpaTileFacts, VisualFacts,
};
use hell_workers_jobs::protocol::{
    cancel_preflight, commit_outcome_base, drain_sorted_requests, finish_cancel,
    handle_commit_failure, triage_commit, CancelOutcome, CancelTargetFacts, CommitOutcome,
    CommitTriage, FailureHandling, FinalizerBatch,
};
use hell_workers_jobs::recovery::{allocate_volatile_recovery, FacilityRecoveryPlan, ResourceType};
use hell_workers_jobs::task_terminals::{
    TaskExpectation, TerminalDisposition, TerminalOutcome, TerminalResult, WorkerTaskFacts,
};

const TARGET: u64 = 100;
const ORDER: u64 = 200;
const WORKER: u64 = 300;
const VISUAL: u64 = 400;
const GRID: (i32, i32) = (5, 5);

fn identity(order: u64) -> TaskIdentity {
    TaskIdentity {
        assignment_entity: order,
        current_target_entity: order,
        current_work_type: WorkType::Deconstruct,
        binding: 1,
    }
}

fn request_for(epoch: u64, worker: u64, order: u64) -> CommitRequest {
    CommitRequest { world_epoch: epoch, worker, order, target: TARGET, identity: identity(order) }
}

fn request(epoch: u64) -> CommitRequest {
    request_for(epoch, WORKER, ORDER)
}

fn live_order(entity: u64) -> OrderFacts {
    OrderFacts {
        entity,
        is_order: true,
        designation: Some(WorkType::Deconstruct),
        target_root: Some(TARGET),
        blocker_active: false,
        grid: Some(GRID),
    }
}

fn empty_plan() -> FacilityRecoveryPlan {
    FacilityRecoveryPlan {
        companions_to_remove: vec![],
        ground_items: vec![],
        wheelbarrows: vec![],
        sand_items_to_absorb: vec![],
        mud_transfers: vec![],
        mixer_increments: vec![],
        expected_target_mixer: None,
        spawned_items: vec![],
        rest_sources: vec![],
    }
}

fn snapshot(building: Vec<(i32, i32)>) -> OwnerSnapshot {
    OwnerSnapshot {
        building_grids: building,
        floor_grids: vec![],
        door_grids: vec![],
        bridge_grids: vec![],
        stockpile_grids: vec![],
    }
}

fn no_power() -> PowerFacts {
    PowerFacts {
        generates_for: None,
        consumes_from: None,
        has_generator: false,
        has_consumer: false,
        grids_listing_as_generator: vec![],
        grids_listing_as_consumer: vec![],
    }
}

/// A completed building of `kind` on `GRID`, with one live order and its
/// worker awaiting the commit.
fn facts(kind: BuildingType) -> CommitFacts {
    CommitFacts {
        worker: CommitWorkerFacts {
            is_soul: true,
            has_transform: true,
            identity: Some(identity(ORDER)),
            working_on_matches: Some(true),
            deconstruct_task: Some(DeconstructTaskFacts { order: ORDER, target: TARGET, awaiting_commit: true }),
            task_work_type: Some(WorkType::Deconstruct),
        },
        orders: vec![live_order(ORDER)],
        target: CommitTargetFacts {
            exists: true,
            pending_order: Some(ORDER),
            related_orders: Some(vec![ORDER]),
            commit_claim: None,
            move_planned: false,
            pending_building_move: false,
            building: Some(BuildingFacts { kind, is_provisional: false }),
            grid: Some(GRID),
            resolved: Some(ResolvedTarget { root: TARGET, kind }),
            cleanup_supported: true,
        },
        move_task_buildings: vec![],
        assigned_move_buildings: vec![],
        map: Some(MapFacts { owner_snapshot: snapshot(vec![GRID]), door_registered_at_anchor: false }),
        soul_spa_tiles: vec![],
        soul_spa_site_operational: false,
        power: no_power(),
        visuals: vec![VisualFacts { entity: VISUAL, owner: TARGET }, VisualFacts { entity: 401, owner: 999 }],
        recovery: Ok(empty_plan()),
        resource_item_visual_handles: true,
    }
}

fn committing_worker() -> WorkerTaskFacts {
    WorkerTaskFacts {
        worker: WORKER,
        task_references: vec![ORDER, TARGET],
        identity: Some(identity(ORDER)),
        working_on: Some(ORDER),
        hauling_wheelbarrow: None,
    }
}

fn failure_of(f: &CommitFacts, r: CommitRequest) -> CommitFailure {
    validate_commit(0, r, f).unwrap_err()
}

/// Runs one commit through validation, terminals and application planning,
/// returning its published result.
fn run_commit(batch: &mut FinalizerBatch, r: CommitRequest, f: &CommitFacts) -> CommitResult {
    match triage_commit(batch, 0, r) {
        CommitTriage::StaleWorld => return CommitResult::StaleWorld,
        CommitTriage::Canceled { .. } => return CommitResult::Canceled,
        CommitTriage::Duplicate => return CommitResult::Duplicate,
        CommitTriage::Validate => {},
    }
    let preflight = match validate_commit(0, r, f) {
        Ok(p) => p,
        Err(e) => return e.result,
    };
    let prepared = finish_commit_validation(r, preflight, vec![], &[committing_worker()], &[]).unwrap();
    let outcomes: Vec<TerminalOutcome> = prepared
        .terminal_requests
        .iter()
        .map(|t| TerminalOutcome { worker: t.worker, result: TerminalResult::Applied })
        .collect();
    assert_eq!(classify_commit_terminals(&outcomes, r.worker), None);
    batch.record_committed(r.target);
    CommitResult::Committed
}

#[test]
fn executor_to_finalizer_headless_slice_commits_once_in_one_update() {
    let f = facts(BuildingType::SandPile);
    let preflight = validate_commit(0, request(0), &f).unwrap();
    assert_eq!(preflight.kind, BuildingType::SandPile);
    assert_eq!(preflight.removed_owners, vec![TARGET]);
    assert_eq!(preflight.visual_entities, vec![VISUAL]);
    assert_eq!(preflight.orders_to_despawn, vec![ORDER]);
    let prepared = finish_commit_validation(request(0), preflight, vec![], &[committing_worker()], &[]).unwrap();
    assert_eq!(prepared.terminal_requests.len(), 1);
    assert_eq!(prepared.terminal_requests[0].worker, WORKER);
    assert_eq!(prepared.terminal_requests[0].disposition, TerminalDisposition::Complete);
    assert_eq!(
        prepared.terminal_requests[0].expectation,
        TaskExpectation::DeconstructionAwaitingCommit { order: ORDER, target: TARGET }
    );
    let plan = commit_apply_plan(TARGET, &prepared);
    assert_eq!(plan.layer, ClearedLayer::BuildingOccupancy);
    assert_eq!(plan.cleared_grids, vec![GRID]);
    assert_eq!(plan.despawn, vec![VISUAL, ORDER, TARGET]);
    assert_eq!(
        commit_outcome_base(request(0), CommitResult::Committed),
        CommitOutcome { worker: WORKER, order: ORDER, target: TARGET, result: CommitResult::Committed }
    );
    let mut batch = FinalizerBatch::new();
    assert_eq!(run_commit(&mut batch, request(0), &f), CommitResult::Committed);
}

#[test]
fn bone_pile_commit_is_exactly_once_and_preserves_underlying_floor() {
    let f = facts(BuildingType::BonePile);
    let mut batch = FinalizerBatch::new();
    let first = request_for(0, WORKER, ORDER);
    let second = request_for(0, 301, ORDER);
    let (_, commits) = drain_sorted_requests(&[], &[second, first]);
    let results: Vec<CommitResult> = commits.iter().map(|r| run_commit(&mut batch, *r, &f)).collect();
    assert_eq!(results, vec![CommitResult::Committed, CommitResult::Duplicate]);
    // Only the building layer is cleared: a floor under the pile stays.
    let prepared = finish_commit_validation(first, validate_commit(0, first, &f).unwrap(), vec![], &[committing_worker()], &[]).unwrap();
    assert_eq!(commit_apply_plan(TARGET, &prepared).layer, ClearedLayer::BuildingOccupancy);
    // The next update finds the target and its order gone.
    let mut gone = facts(BuildingType::BonePile);
    gone.orders.clear();
    gone.target.exists = false;
    let late = failure_of(&gone, request(0));
    assert_eq!(late.result, CommitResult::StaleTarget);
}

#[test]
fn stale_world_commit_touches_nothing() {
    let f = facts(BuildingType::SandPile);
    let stale = request(9);
    assert_eq!(triage_commit(&FinalizerBatch::new(), 0, stale), CommitTriage::StaleWorld);
    let failure = failure_of(&f, stale);
    assert_eq!(failure, CommitFailure { result: CommitResult::StaleWorld, blocker: None, discard_orphaned_order: false });
    assert_eq!(handle_commit_failure(failure), (false, FailureHandling::Nothing));
}

#[test]
fn stale_identity_commit_touches_nothing() {
    let f = facts(BuildingType::SandPile);
    let mut r = request(0);
    r.identity.current_work_type = WorkType::Other(3);
    let failure = failure_of(&f, r);
    assert_eq!(failure.result, CommitResult::StaleIdentity);
    assert_eq!(failure.blocker, None);
    assert_eq!(handle_commit_failure(failure), (true, FailureHandling::AbortWorker));
}

#[test]
fn missing_transform_fails_closed_but_releases_the_exact_worker_shell() {
    let mut f = facts(BuildingType::SandPile);
    f.worker.has_transform = false;
    assert_eq!(failure_of(&f, request(0)).result, CommitResult::StaleIdentity);
    let terminal = terminalize_commit_worker(request(0), TerminalDisposition::Abort { emit_abandoned: false });
    assert_eq!(terminal.worker, WORKER);
    assert_eq!(terminal.expected_identity, identity(ORDER));
}

#[test]
fn missing_soul_marker_fails_closed_but_releases_the_exact_worker_shell() {
    let mut f = facts(BuildingType::SandPile);
    f.worker.is_soul = false;
    let failure = failure_of(&f, request(0));
    assert_eq!(failure.result, CommitResult::StaleIdentity);
    assert_eq!(handle_commit_failure(failure), (true, FailureHandling::AbortWorker));
}

#[test]
fn vanished_canonical_target_terminalizes_worker_and_discards_orphaned_order() {
    let mut f = facts(BuildingType::SandPile);
    f.target.exists = false;
    let failure = failure_of(&f, request(0));
    assert_eq!(failure, CommitFailure { result: CommitResult::StaleTarget, blocker: None, discard_orphaned_order: true });
    assert_eq!(handle_commit_failure(failure), (true, FailureHandling::DiscardOrphanedOrder));
}

#[test]
fn missing_order_relationship_terminalizes_worker_and_discards_invalid_order() {
    let mut f = facts(BuildingType::SandPile);
    f.target.related_orders = None;
    let failure = failure_of(&f, request(0));
    assert_eq!(failure.result, CommitResult::StaleTarget);
    assert!(failure.discard_orphaned_order);
}

#[test]
fn missing_pending_marker_discards_the_order_instead_of_arming_a_dead_blocker() {
    let mut f = facts(BuildingType::SandPile);
    f.target.pending_order = None;
    let failure = failure_of(&f, request(0));
    assert_eq!(failure.result, CommitResult::StaleTarget);
    assert!(failure.discard_orphaned_order);
    assert_eq!(failure.blocker, None);
    // There is no pending marker left to remove.
    assert!(!remove_orphaned_pending(None, &f.orders, TARGET, ORDER));
}

#[test]
fn invalid_foreign_pending_is_removed_while_the_stale_order_is_discarded() {
    // The pending marker names an entity that is no live order of the target.
    let orders = vec![live_order(ORDER), OrderFacts { is_order: false, ..live_order(201) }];
    assert!(remove_orphaned_pending(Some(201), &orders, TARGET, ORDER));
}

#[test]
fn valid_foreign_pending_survives_discard_of_a_stale_competing_order() {
    let orders = vec![live_order(ORDER), live_order(201)];
    assert!(!remove_orphaned_pending(Some(201), &orders, TARGET, ORDER));
    assert!(remove_orphaned_pending(Some(ORDER), &orders, TARGET, ORDER));
}

#[test]
fn canonical_pending_order_wins_two_order_conflict_exactly_once() {
    let mut f = facts(BuildingType::SandPile);
    f.orders = vec![live_order(ORDER), live_order(201)];
    f.target.related_orders = Some(vec![201, ORDER]);
    let mut batch = FinalizerBatch::new();
    let canonical = request_for(0, WORKER, ORDER);
    let competing = request_for(0, 301, 201);
    let preflight = validate_commit(0, canonical, &f).unwrap();
    assert_eq!(preflight.orders_to_despawn, vec![ORDER, 201]);
    assert_eq!(run_commit(&mut batch, canonical, &f), CommitResult::Committed);
    let other = run_commit(&mut batch, competing, &f);
    assert!(matches!(other, CommitResult::StaleTarget | CommitResult::Duplicate));
}

#[test]
fn canonical_order_collects_an_owned_sibling_with_missing_designation() {
    let mut f = facts(BuildingType::SandPile);
    f.orders = vec![live_order(ORDER), OrderFacts { designation: None, ..live_order(201) }];
    f.target.related_orders = Some(vec![ORDER, 201]);
    let preflight = validate_commit(0, request(0), &f).unwrap();
    assert_eq!(preflight.orders_to_despawn, vec![ORDER, 201]);
}

#[test]
fn unowned_malformed_sibling_cannot_discard_the_canonical_order() {
    let mut f = facts(BuildingType::SandPile);
    f.orders = vec![live_order(ORDER), OrderFacts { target_root: Some(999), ..live_order(201) }];
    f.target.related_orders = Some(vec![ORDER, 201]);
    let failure = failure_of(&f, request(0));
    assert_eq!(
        failure,
        CommitFailure {
            result: CommitResult::StaleTarget,
            blocker: Some((BlockReason::StaleTarget, DomainMask { task: true, topology: false, availability: false })),
            discard_orphaned_order: false,
        }
    );
}

#[test]
fn stale_request_after_retarget_aborts_old_worker_without_blocking_current_order() {
    let mut f = facts(BuildingType::SandPile);
    f.orders = vec![OrderFacts { target_root: Some(777), ..live_order(ORDER) }];
    let failure = failure_of(&f, request(0));
    assert_eq!(failure, CommitFailure { result: CommitResult::StaleTarget, blocker: None, discard_orphaned_order: false });
    assert_eq!(handle_commit_failure(failure), (true, FailureHandling::AbortWorkerOnly));
}

#[test]
fn owner_mismatch_releases_preexisting_claim_and_blocks_without_clearing_other_owner() {
    let mut f = facts(BuildingType::SandPile);
    f.target.commit_claim = Some(CommitClaim { world_epoch: 0, order: ORDER });
    f.map = Some(MapFacts { owner_snapshot: snapshot(vec![]), door_registered_at_anchor: false });
    let failure = failure_of(&f, request(0));
    let owner_mismatch = DomainMask { task: true, topology: true, availability: false };
    assert_eq!(failure.result, CommitResult::OwnerMismatch);
    assert_eq!(failure.blocker, Some((BlockReason::OwnerMismatch, owner_mismatch)));
    assert!(release_commit_claim(f.target.commit_claim, request(0)));
    assert_eq!(
        handle_commit_failure(failure),
        (true, FailureHandling::AbortWorkerThenBlock { reason: BlockReason::OwnerMismatch, domains: owner_mismatch })
    );
}

#[test]
fn owner_mismatch_blocker_ignores_only_its_known_worker_cleanup_revision() {
    let stamp = DiagnosticStamp { task: 4, topology: 7, availability: 2 };
    let domains = DomainMask { task: true, topology: true, availability: false };
    assert_eq!(
        deconstruction_blocker_after_worker_cleanup(Some(stamp), BlockReason::OwnerMismatch, domains),
        Blocker::Armed {
            reason: BlockReason::OwnerMismatch,
            domains,
            stamp: DiagnosticStamp { task: 5, topology: 7, availability: 2 },
        }
    );
    assert_eq!(
        deconstruction_blocker_after_worker_cleanup(None, BlockReason::OwnerMismatch, domains),
        Blocker::Pending { reason: BlockReason::OwnerMismatch, domains }
    );
}

#[test]
fn no_safe_recovery_waits_on_both_topology_and_availability() {
    let mut f = facts(BuildingType::BonePile);
    f.recovery = Err(RecoveryPlanFailure::NoSafeRecovery);
    let failure = failure_of(&f, request(0));
    assert_eq!(failure.result, CommitResult::NoSafeRecovery);
    assert_eq!(
        failure.blocker,
        Some((BlockReason::NoSafeRecovery, DomainMask { task: false, topology: true, availability: true }))
    );
}

#[test]
fn no_safe_recovery_blocker_ignores_its_own_empty_inventory_cleanup() {
    let stamp = DiagnosticStamp { task: 1, topology: 2, availability: 3 };
    let domains = DomainMask { task: false, topology: true, availability: true };
    // Without the task domain nothing is moved past: its own cleanup is no change.
    assert_eq!(
        deconstruction_blocker_after_worker_cleanup(Some(stamp), BlockReason::NoSafeRecovery, domains),
        Blocker::Armed { reason: BlockReason::NoSafeRecovery, domains, stamp }
    );
}

#[test]
fn bridge_without_a_post_teardown_safe_cell_fails_without_mutation() {
    let mut f = facts(BuildingType::BonePile);
    f.recovery = Err(RecoveryPlanFailure::NoSafeRecovery);
    let failure = failure_of(&f, request(0));
    assert_eq!(failure.blocker.map(|b| b.0), Some(BlockReason::NoSafeRecovery));
    assert_eq!(failure.result, CommitResult::NoSafeRecovery);
}

#[test]
fn inconsistent_mixer_inventory_rejects_without_mutating_storage_or_target() {
    let mut f = facts(BuildingType::BonePile);
    f.recovery = Err(RecoveryPlanFailure::InconsistentMixerInventory);
    let failure = failure_of(&f, request(0));
    assert_eq!(failure.result, CommitResult::InconsistentMixerInventory);
    assert_eq!(
        failure.blocker,
        Some((BlockReason::InconsistentMixerInventory, DomainMask { task: false, topology: false, availability: true }))
    );
}

#[test]
fn volatile_recovery_without_another_mixer_rejects_without_grounding_sand() {
    assert_eq!(
        allocate_volatile_recovery(&vec![], 3, &vec![], 10, 10),
        Err(RecoveryPlanFailure::NoSafeRecovery)
    );
    assert_eq!(allocate_volatile_recovery(&vec![], 0, &vec![], 10, 10), Ok((vec![], vec![])));
}

#[test]
fn moving_targets_are_blocked_on_the_task_domain() {
    let mut f = facts(BuildingType::SandPile);
    f.assigned_move_buildings = vec![TARGET];
    let failure = failure_of(&f, request(0));
    assert_eq!(failure.result, CommitResult::Moving);
    assert_eq!(failure.blocker.map(|b| b.0), Some(BlockReason::Moving));
}

#[test]
fn spawned_salvage_needs_item_visuals() {
    let mut f = facts(BuildingType::BonePile);
    let mut plan = empty_plan();
    plan.spawned_items = vec![ResourceType::Bone];
    f.recovery = Ok(plan);
    f.resource_item_visual_handles = false;
    assert_eq!(failure_of(&f, request(0)).result, CommitResult::UnsupportedTarget);
}

#[test]
fn malformed_operational_soul_spa_tile_snapshot_fails_closed() {
    let grids = vec![(5, 5), (6, 5), (5, 6), (6, 6)];
    let mut f = facts(BuildingType::SoulSpa);
    f.map = Some(MapFacts { owner_snapshot: snapshot(grids.clone()), door_registered_at_anchor: false });
    f.soul_spa_site_operational = true;
    f.power = PowerFacts { has_generator: true, ..no_power() };
    // Only three of the four tiles are left.
    f.soul_spa_tiles = grids[..3]
        .iter()
        .enumerate()
        .map(|(i, g)| SoulSpaTileFacts {
            entity: 500 + i as u64,
            parent_site: TARGET,
            child_of: None,
            designation: Some(WorkType::GeneratePower),
            slots_max: Some(1),
            grid: *g,
        })
        .collect();
    let failure = failure_of(&f, request(0));
    assert_eq!(failure.result, CommitResult::OwnerMismatch);
    assert_eq!(failure.blocker.map(|b| b.0), Some(BlockReason::OwnerMismatch));
}

#[test]
fn same_batch_cancel_wins_before_commit_without_removing_target() {
    let f = facts(BuildingType::SandPile);
    let mut batch = FinalizerBatch::new();
    let cancel = CancelRequest { world_epoch: 0, order: ORDER };
    let target_facts = CancelTargetFacts {
        pending_order: Some(ORDER),
        related_orders: Some(vec![ORDER]),
        has_commit_claim: false,
    };
    let (target, orders) = cancel_preflight(0, cancel, &f.orders, &target_facts).unwrap();
    assert_eq!((target, orders.clone()), (TARGET, vec![ORDER]));
    let applied = [TerminalOutcome { worker: WORKER, result: TerminalResult::Applied }];
    let (outcome, apply) = finish_cancel(&mut batch, cancel, target, &orders, true, &applied, Some(ORDER));
    assert_eq!(outcome, CancelOutcome { order: ORDER, target: Some(TARGET), result: CancelResult::Canceled });
    let apply = apply.unwrap();
    assert!(apply.remove_pending);
    assert_eq!(apply.despawn_orders, vec![ORDER]);
    assert_eq!(triage_commit(&batch, 0, request(0)), CommitTriage::Canceled { target: TARGET });
    assert_eq!(run_commit(&mut batch, request(0), &f), CommitResult::Canceled);
}

#[test]
fn cancel_only_aborts_order_workers_and_preserves_target_work() {
    let mut batch = FinalizerBatch::new();
    let cancel = CancelRequest { world_epoch: 0, order: ORDER };
    let rejected = [TerminalOutcome { worker: WORKER, result: TerminalResult::Rejected }];
    let (outcome, apply) = finish_cancel(&mut batch, cancel, TARGET, &vec![ORDER], true, &rejected, Some(ORDER));
    assert_eq!(outcome.result, CancelResult::StaleOrder);
    assert!(apply.is_none());
    assert!(batch.canceled_orders.is_empty());
}

#[test]
fn cancel_refuses_a_target_with_an_acquired_claim() {
    let f = facts(BuildingType::SandPile);
    let cancel = CancelRequest { world_epoch: 0, order: ORDER };
    let target_facts = CancelTargetFacts {
        pending_order: Some(ORDER),
        related_orders: Some(vec![ORDER]),
        has_commit_claim: true,
    };
    assert_eq!(
        cancel_preflight(0, cancel, &f.orders, &target_facts).unwrap_err(),
        CancelOutcome { order: ORDER, target: Some(TARGET), result: CancelResult::ClaimInProgress }
    );
    assert_eq!(
        cancel_preflight(0, CancelRequest { world_epoch: 5, order: ORDER }, &f.orders, &target_facts).unwrap_err(),
        CancelOutcome { order: ORDER, target: None, result: CancelResult::StaleWorld }
    );
}

#[test]
fn exact_preexisting_claim_resumes_the_same_commit_owner() {
    let mut f = facts(BuildingType::SandPile);
    f.target.commit_claim = Some(CommitClaim { world_epoch: 0, order: ORDER });
    let mut batch = FinalizerBatch::new();
    assert_eq!(run_commit(&mut batch, request(0), &f), CommitResult::Committed);
    f.target.commit_claim = Some(CommitClaim { world_epoch: 0, order: 201 });
    assert_eq!(failure_of(&f, request(0)).result, CommitResult::Duplicate);
}

#[test]
fn successful_commit_closes_transport_requests_referencing_the_target() {
    let f = facts(BuildingType::SandPile);
    let preflight = validate_commit(0, request(0), &f).unwrap();
    let prepared = finish_commit_validation(request(0), preflight.clone(), vec![600], &[committing_worker()], &[]).unwrap();
    assert_eq!(prepared.transport_requests, vec![600]);
    assert_eq!(prepared.cleanup_references, vec![TARGET, ORDER, 600]);
    // A request that is itself a removed owner is unsupported.
    let refused = finish_commit_validation(request(0), preflight, vec![TARGET], &[committing_worker()], &[]);
    assert_eq!(refused.unwrap_err().result, CommitResult::UnsupportedTarget);
}

#[test]
fn successful_commit_aborts_an_existing_collect_source_and_releases_its_reservation() {
    let f = facts(BuildingType::SandPile);
    let collector = WorkerTaskFacts {
        worker: 350,
        task_references: vec![TARGET],
        identity: Some(identity(777)),
        working_on: Some(TARGET),
        hauling_wheelbarrow: None,
    };
    let preflight = validate_commit(0, request(0), &f).unwrap();
    let prepared = finish_commit_validation(request(0), preflight, vec![], &[committing_worker(), collector], &[]).unwrap();
    assert_eq!(prepared.terminal_requests.len(), 2);
    assert_eq!(prepared.terminal_requests[0].worker, WORKER);
    assert_eq!(prepared.terminal_requests[1].worker, 350);
    assert_eq!(
        prepared.terminal_requests[1].disposition,
        TerminalDisposition::Abort { emit_abandoned: false }
    );
    assert_eq!(prepared.terminal_requests[1].expectation, TaskExpectation::References(TARGET));
    let outcomes = [
        TerminalOutcome { worker: WORKER, result: TerminalResult::Applied },
        TerminalOutcome { worker: 350, result: TerminalResult::Rejected },
    ];
    assert_eq!(
        classify_commit_terminals(&outcomes, WORKER).map(|f| f.result),
        Some(CommitResult::UnsupportedTarget)
    );
}

#[test]
fn structure_commits_clear_exact_layers_and_place_salvage_outside_the_footprint() {
    for (kind, layer) in [
        (BuildingType::Wall, ClearedLayer::BuildingOccupancy),
        (BuildingType::Door, ClearedLayer::Door),
        (BuildingType::Floor, ClearedLayer::Floor),
        (BuildingType::OutdoorLamp, ClearedLayer::PassableBuilding),
    ] {
        let mut f = facts(kind);
        match kind {
            BuildingType::Door => {
                f.map = Some(MapFacts {
                    owner_snapshot: OwnerSnapshot { door_grids: vec![GRID], ..snapshot(vec![GRID]) },
                    door_registered_at_anchor: true,
                });
            },
            BuildingType::Floor => {
                f.map = Some(MapFacts {
                    owner_snapshot: OwnerSnapshot { floor_grids: vec![GRID], ..snapshot(vec![]) },
                    door_registered_at_anchor: false,
                });
            },
            BuildingType::OutdoorLamp => {
                f.power = PowerFacts { has_consumer: true, ..no_power() };
            },
            _ => {},
        }
        let preflight = validate_commit(0, request(0), &f).unwrap();
        let prepared = finish_commit_validation(request(0), preflight, vec![], &[committing_worker()], &[]).unwrap();
        let plan = commit_apply_plan(TARGET, &prepared);
        assert_eq!(plan.layer, layer);
        assert_eq!(plan.cleared_grids, vec![GRID]);
        assert_eq!(plan.mark_wall_connections, kind == BuildingType::Wall || kind == BuildingType::Door);
        assert_eq!(plan.request_energy_rebuild, kind == BuildingType::OutdoorLamp);
    }
}

#[test]
fn profiling_metrics_track_the_actual_commit_without_idle_validation_passes() {
    let mut metrics = DeconstructionPerfMetrics::default();
    // An idle update validates nothing.
    assert_eq!(metrics.commit_validation_passes, 0);
    record_commit_validation_pass(&mut metrics);
    record_successful_commit_metrics(&mut metrics, 2, 1_500);
    assert_eq!(metrics.commit_validation_passes, 1);
    assert_eq!(metrics.successful_cleanup_transactions, 1);
    assert_eq!(metrics.recovery_items_spawned, 2);
    assert_eq!(metrics.successful_transaction_elapsed_ns, 1_500);
    record_successful_commit_metrics(&mut metrics, u64::MAX, u128::MAX);
    assert_eq!(metrics.recovery_items_spawned, u64::MAX);
    assert_eq!(metrics.successful_transaction_elapsed_ns, u128::MAX);
}

fn spa_tiles(grids: &[(i32, i32)]) -> Vec<SoulSpaTileFacts> {
    grids
        .iter()
        .enumerate()
        .map(|(i, g)| SoulSpaTileFacts {
            entity: 500 + i as u64,
            parent_site: TARGET,
            child_of: None,
            designation: Some(WorkType::GeneratePower),
            slots_max: Some(1),
            grid: *g,
        })
        .collect()
}

#[test]
fn operational_soul_spa_commit_removes_tiles_workers_requests_and_grid_relation() {
    let grids = vec![(5, 5), (6, 5), (5, 6), (6, 6)];
    let mut f = facts(BuildingType::SoulSpa);
    f.map = Some(MapFacts { owner_snapshot: snapshot(grids.clone()), door_registered_at_anchor: false });
    f.soul_spa_site_operational = true;
    f.soul_spa_tiles = spa_tiles(&grids);
    f.power = PowerFacts { has_generator: true, generates_for: Some(900), grids_listing_as_generator: vec![900], ..no_power() };
    let preflight = validate_commit(0, request(0), &f).unwrap();
    assert_eq!(preflight.soul_spa_tiles.len(), 4);
    assert_eq!(preflight.power_topology.generator_grid, Some(900));
    assert_eq!(preflight.removed_owners, vec![TARGET, 500, 501, 502, 503]);
    let tile_worker = WorkerTaskFacts {
        worker: 360,
        task_references: vec![501],
        identity: Some(identity(501)),
        working_on: Some(501),
        hauling_wheelbarrow: None,
    };
    let prepared = finish_commit_validation(request(0), preflight, vec![610], &[committing_worker(), tile_worker], &[]).unwrap();
    assert_eq!(prepared.terminal_requests.len(), 2);
    assert_eq!(prepared.terminal_requests[1].expectation, TaskExpectation::References(501));
    let plan = commit_apply_plan(TARGET, &prepared);
    assert_eq!(plan.layer, ClearedLayer::PassableBuilding);
    assert!(plan.request_energy_rebuild);
    assert_eq!(plan.despawn, vec![VISUAL, 500, 501, 502, 503, ORDER, TARGET]);
    // A grid listing the spa without the spa naming it is an owner mismatch.
    f.power.generates_for = None;
    assert_eq!(failure_of(&f, request(0)).result, CommitResult::OwnerMismatch);
}

#[test]
fn outdoor_lamp_commit_removes_connected_or_disconnected_consumers() {
    for connected in [false, true] {
        let mut f = facts(BuildingType::OutdoorLamp);
        f.power = if connected {
            PowerFacts { has_consumer: true, consumes_from: Some(900), grids_listing_as_consumer: vec![900], ..no_power() }
        } else {
            PowerFacts { has_consumer: true, ..no_power() }
        };
        let mut batch = FinalizerBatch::new();
        assert_eq!(run_commit(&mut batch, request(0), &f), CommitResult::Committed);
        let preflight = validate_commit(0, request(0), &f).unwrap();
        assert_eq!(preflight.power_topology.consumer_grid, if connected { Some(900) } else { None });
    }
}

#[test]
fn despawned_order_root_releases_pending_and_the_remaining_worker_shell() {
    let mut f = facts(BuildingType::SandPile);
    f.orders.clear();
    let failure = failure_of(&f, request(0));
    assert_eq!(failure, CommitFailure { result: CommitResult::StaleTarget, blocker: None, discard_orphaned_order: true });
    // The target's pending marker names the vanished order: it is released.
    assert!(remove_orphaned_pending(Some(ORDER), &f.orders, TARGET, ORDER));
}

#[test]
fn missing_path_is_repaired_while_owner_failure_terminalizes_the_worker() {
    let mut f = facts(BuildingType::SandPile);
    f.target.resolved = Some(ResolvedTarget { root: 999, kind: BuildingType::SandPile });
    let failure = failure_of(&f, request(0));
    assert_eq!(failure.result, CommitResult::OwnerMismatch);
    assert!(matches!(
        handle_commit_failure(failure),
        (true, FailureHandling::AbortWorkerThenBlock { reason: BlockReason::OwnerMismatch, .. })
    ));
}

#[test]
fn parking_commit_preserves_loaded_cargo_while_terminalizing_an_active_haul() {
    let wheelbarrow = 110;
    let mut f = facts(BuildingType::WheelbarrowParking);
    let grids = vec![(5, 5), (6, 5), (5, 6), (6, 6)];
    f.map = Some(MapFacts { owner_snapshot: snapshot(grids), door_registered_at_anchor: false });
    let mut plan = empty_plan();
    plan.wheelbarrows = vec![hell_workers_jobs::recovery::WheelbarrowRecovery { entity: wheelbarrow, loaded_items: vec![] }];
    f.recovery = Ok(plan);
    let hauler = WorkerTaskFacts {
        worker: 370,
        task_references: vec![wheelbarrow, 888],
        identity: Some(identity(888)),
        working_on: None,
        hauling_wheelbarrow: Some(wheelbarrow),
    };
    let preflight = validate_commit(0, request(0), &f).unwrap();
    let prepared = finish_commit_validation(request(0), preflight, vec![], &[committing_worker(), hauler], &[]).unwrap();
    assert_eq!(prepared.terminal_requests[1].worker, 370);
    assert_eq!(
        prepared.terminal_requests[1].disposition,
        TerminalDisposition::AbortPreservingWheelbarrowCargo { emit_abandoned: false }
    );
}

#[test]
fn intake_order_does_not_depend_on_arrival_order() {
    let a = request_for(1, WORKER, ORDER);
    let b = request_for(0, 301, 201);
    let c = request_for(0, 302, 202);
    let x = CancelRequest { world_epoch: 1, order: 7 };
    let y = CancelRequest { world_epoch: 0, order: 9 };
    let z = CancelRequest { world_epoch: 0, order: 8 };
    let first = drain_sorted_requests(&[x, y, z], &[a, b, c]);
    let second = drain_sorted_requests(&[z, x, y], &[c, a, b]);
    assert_eq!(first, second);
    assert_eq!(first.0, vec![z, y, x]);
    assert_eq!(first.1, vec![b, c, a]);
}
