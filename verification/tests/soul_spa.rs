use hell_workers_jobs::decon::{BuildingType, OwnerSnapshot, TaskIdentity, WorkType};
use hell_workers_jobs::finalizer::{SoulSpaTileFacts, VisualFacts};
use hell_workers_jobs::recovery::ResourceType;
use hell_workers_jobs::soul_spa::{
    soul_spa_bone_demand, soul_spa_delivery_sync, tiles_to_activate, NearbyItemFacts,
    SpaRequestFacts, SpaTileParentFacts,
};
use hell_workers_jobs::spa_cancel::{
    finish_soul_spa_cancellation, prepare_soul_spa_cancellation, spa_cancel_outcome,
    SoulSpaCancelResult, SoulSpaPhase, SpaCancelFacts, SpaSiteFacts,
};
use hell_workers_jobs::task_terminals::{
    ReferenceWorkers, TaskExpectation, TerminalOutcome, TerminalResult, WorkerTaskFacts,
};

const SITE: u64 = 1000;
const GRIDS: [(i32, i32); 4] = [(10, 10), (11, 10), (10, 11), (11, 11)];

fn spa_facts(delivered: u32, phase: SoulSpaPhase) -> SpaCancelFacts {
    SpaCancelFacts {
        target: SITE,
        exists: true,
        building: Some((BuildingType::SoulSpa, false)),
        site: Some(SpaSiteFacts { phase, bones_delivered: delivered, bones_required: 12 }),
        has_generator: true,
        has_consumer: false,
        has_consumes_from: false,
        deconstruction_pending: false,
        anchor: Some(GRIDS[0]),
        refund_handles: true,
        owner_snapshot: Some(OwnerSnapshot {
            building_grids: GRIDS.to_vec(),
            floor_grids: vec![],
            door_grids: vec![],
            bridge_grids: vec![],
            stockpile_grids: vec![],
        }),
        tiles: GRIDS
            .iter()
            .enumerate()
            .map(|(i, grid)| SoulSpaTileFacts {
                entity: 1001 + i as u64,
                parent_site: SITE,
                child_of: None,
                designation: None,
                slots_max: None,
                grid: *grid,
            })
            .collect(),
        generates_for: None,
        grids_listing_target: vec![],
        visuals: vec![VisualFacts { entity: 2000, owner: SITE }, VisualFacts { entity: 2001, owner: 77 }],
    }
}

fn despawned() -> SpaCancelFacts {
    SpaCancelFacts { exists: false, building: None, site: None, tiles: vec![], visuals: vec![], ..spa_facts(0, SoulSpaPhase::Constructing) }
}

#[test]
fn cancellation_refunds_exact_delivered_bones_and_is_not_repeatable() {
    for delivered in [0, 7, 12] {
        let prepared = prepare_soul_spa_cancellation(&spa_facts(delivered, SoulSpaPhase::Constructing)).unwrap();
        assert_eq!(prepared.refunded_bones, delivered);
        assert_eq!(prepared.removed_owners, vec![1000, 1001, 1002, 1003, 1004]);
        assert_eq!(prepared.visual_entities, vec![2000]);
        assert_eq!(prepared.building_grids, GRIDS.to_vec());
        let finished = finish_soul_spa_cancellation(&prepared, &vec![], &[], &[]).unwrap();
        assert!(finished.terminal_requests.is_empty());
        assert_eq!(
            spa_cancel_outcome(&prepared, &[]),
            SoulSpaCancelResult::Canceled { refunded_bones: delivered }
        );
        // The second request of the batch finds the site gone.
        assert_eq!(
            prepare_soul_spa_cancellation(&despawned()).unwrap_err(),
            SoulSpaCancelResult::StaleTarget
        );
    }
}

#[test]
fn cancellation_terminalizes_request_worker_before_removing_the_site() {
    let prepared = prepare_soul_spa_cancellation(&spa_facts(3, SoulSpaPhase::Constructing)).unwrap();
    let request = 3000;
    let item = 3500;
    let worker = WorkerTaskFacts {
        worker: 4000,
        task_references: vec![item, SITE],
        identity: Some(TaskIdentity {
            assignment_entity: request,
            current_target_entity: request,
            current_work_type: WorkType::Other(3),
            binding: 1,
        }),
        working_on: Some(request),
        hauling_wheelbarrow: None,
    };
    let listed = [ReferenceWorkers { entity: request, workers: vec![4000] }];
    let finished = finish_soul_spa_cancellation(&prepared, &vec![request], &[worker], &listed).unwrap();
    assert_eq!(finished.transport_requests, vec![request]);
    assert_eq!(finished.cleanup_references, vec![1000, 1001, 1002, 1003, 1004, request]);
    assert_eq!(finished.terminal_requests.len(), 1);
    assert_eq!(finished.terminal_requests[0].worker, 4000);
    assert_eq!(finished.terminal_requests[0].expectation, TaskExpectation::References(SITE));
    let applied = [TerminalOutcome { worker: 4000, result: TerminalResult::Applied }];
    assert_eq!(
        spa_cancel_outcome(&prepared, &applied),
        SoulSpaCancelResult::Canceled { refunded_bones: 3 }
    );
    let rejected = [TerminalOutcome { worker: 4000, result: TerminalResult::Rejected }];
    assert_eq!(spa_cancel_outcome(&prepared, &rejected), SoulSpaCancelResult::ActiveTaskMismatch);
}

#[test]
fn operational_or_owner_mismatched_sites_are_unchanged() {
    assert_eq!(
        prepare_soul_spa_cancellation(&spa_facts(12, SoulSpaPhase::Operational)).unwrap_err(),
        SoulSpaCancelResult::PhaseUnavailable
    );
    let mut mismatch = spa_facts(5, SoulSpaPhase::Constructing);
    // One footprint cell now belongs to a replacement building.
    mismatch.owner_snapshot.as_mut().unwrap().building_grids.remove(0);
    mismatch.anchor = Some(GRIDS[1]);
    assert_eq!(
        prepare_soul_spa_cancellation(&mismatch).unwrap_err(),
        SoulSpaCancelResult::OwnerMismatch
    );
}

#[test]
fn removed_request_owner_or_taskless_worker_refuses_cancellation() {
    let prepared = prepare_soul_spa_cancellation(&spa_facts(1, SoulSpaPhase::Constructing)).unwrap();
    assert_eq!(
        finish_soul_spa_cancellation(&prepared, &vec![1002], &[], &[]).unwrap_err(),
        SoulSpaCancelResult::OwnerMismatch
    );
    let no_identity = WorkerTaskFacts {
        worker: 9,
        task_references: vec![SITE],
        identity: None,
        working_on: None,
        hauling_wheelbarrow: None,
    };
    assert_eq!(
        finish_soul_spa_cancellation(&prepared, &vec![], &[no_identity], &[]).unwrap_err(),
        SoulSpaCancelResult::ActiveTaskMismatch
    );
    let mut tasked_tile = spa_facts(1, SoulSpaPhase::Constructing);
    tasked_tile.tiles[2].slots_max = Some(1);
    assert_eq!(
        prepare_soul_spa_cancellation(&tasked_tile).unwrap_err(),
        SoulSpaCancelResult::OwnerMismatch
    );
}

fn request(anchor: u64, workers: u64) -> SpaRequestFacts {
    SpaRequestFacts { anchor, is_soul_spa_delivery: true, workers }
}

#[test]
fn soul_spa_duplicate_workers_are_preserved_and_inflight_is_subtracted_once_test() {
    let site = 5;
    assert_eq!(soul_spa_bone_demand(site, SoulSpaPhase::Constructing, 8, 0, &vec![]), Some(4));
    // Two workers on the request, one on a duplicate, none on an empty
    // duplicate: 8 required - 2 delivered - 3 workers = 3.
    let requests = vec![request(site, 2), request(site, 1), request(site, 0), request(99, 5)];
    assert_eq!(soul_spa_bone_demand(site, SoulSpaPhase::Constructing, 8, 2, &requests), Some(3));
}

#[test]
fn soul_spa_zero_demand_maintain_and_reactivation_test() {
    let site = 5;
    for has_worker in [false, true] {
        let requests = if has_worker { vec![request(site, 1)] } else { vec![request(site, 0)] };
        assert_eq!(soul_spa_bone_demand(site, SoulSpaPhase::Constructing, 8, 8, &requests), None);
        assert_eq!(
            soul_spa_bone_demand(site, SoulSpaPhase::Constructing, 8, 0, &vec![]),
            Some(4)
        );
    }
}

#[test]
fn soul_spa_no_owner_early_return_is_distinct_from_zero_demand_test() {
    // Without an area owner the demand is never synced; the demand itself
    // is zero only because all bones were delivered.
    let site = 5;
    assert_eq!(soul_spa_bone_demand(site, SoulSpaPhase::Constructing, 8, 8, &vec![request(site, 0)]), None);
    assert_eq!(soul_spa_bone_demand(site, SoulSpaPhase::Operational, 8, 0, &vec![]), None);
}

#[test]
fn delivery_consumes_only_the_bones_still_needed() {
    let nearby = vec![
        NearbyItemFacts { entity: 1, resource_type: Some(ResourceType::Bone) },
        NearbyItemFacts { entity: 2, resource_type: Some(ResourceType::Wood) },
        NearbyItemFacts { entity: 3, resource_type: None },
        NearbyItemFacts { entity: 4, resource_type: Some(ResourceType::Bone) },
        NearbyItemFacts { entity: 5, resource_type: Some(ResourceType::Bone) },
    ];
    let d = soul_spa_delivery_sync(SoulSpaPhase::Constructing, 12, 10, &nearby);
    assert_eq!(d.consumed, vec![1, 4]);
    assert_eq!(d.bones_delivered, 12);
    assert_eq!(d.phase, SoulSpaPhase::Operational);

    let partial = soul_spa_delivery_sync(SoulSpaPhase::Constructing, 12, 0, &nearby);
    assert_eq!(partial.consumed, vec![1, 4, 5]);
    assert_eq!(partial.bones_delivered, 3);
    assert_eq!(partial.phase, SoulSpaPhase::Constructing);

    let done = soul_spa_delivery_sync(SoulSpaPhase::Operational, 12, 12, &nearby);
    assert!(done.consumed.is_empty());
    assert_eq!(done.bones_delivered, 12);
}

#[test]
fn operational_activation_uses_durable_parent_site_without_hierarchy() {
    let site = 1;
    let other_site = 2;
    let tiles = vec![
        SpaTileParentFacts { entity: 10, parent_site: site },
        SpaTileParentFacts { entity: 11, parent_site: other_site },
    ];
    assert!(tiles_to_activate(site, SoulSpaPhase::Constructing, &tiles).is_empty());
    assert_eq!(tiles_to_activate(site, SoulSpaPhase::Operational, &tiles), vec![10]);
}
