use std::collections::HashSet;

use hell_workers_jobs::decon::BuildingType;
use hell_workers_jobs::designation::{
    advance_deconstruction_pointer, apply_designation_request, classify_hover_target,
    deconstruction_input_step, rejected_target, sort_designation_requests,
    DeconstructionHoverStatus, DeconstructionRejectReason, DesignationRejectReason,
    DesignationRequest, DesignationResult, DesignationTargetFacts, HoverTargetFacts, PointerMode,
};

/// The facts of a supported, idle building root, given which roots already
/// carry a pending deconstruction.
fn pile_facts(target: u64, kind: BuildingType, designated: &HashSet<u64>) -> DesignationTargetFacts {
    DesignationTargetFacts {
        resolved: Ok((target, kind)),
        shape_supported: true,
        evaluated: if designated.contains(&target) {
            Err(DeconstructionRejectReason::AlreadyDesignated)
        } else {
            Ok((target, kind))
        },
        has_anchor: true,
    }
}

/// Applies a batch the way the designation system does: in key order, each
/// success marking its root before the next request is evaluated.
fn apply_batch(
    epoch: u64,
    requests: &Vec<DesignationRequest>,
    facts_of: &dyn Fn(u64, &HashSet<u64>) -> DesignationTargetFacts,
) -> Vec<(u64, DesignationResult)> {
    let mut designated = HashSet::new();
    let mut out = Vec::new();
    for request in sort_designation_requests(requests) {
        let facts = facts_of(request.hit.unwrap_or(0), &designated);
        let result = apply_designation_request(epoch, request, facts);
        if let DesignationResult::Designated { target, .. } = result {
            designated.insert(target);
        }
        out.push((request.request_id, result));
    }
    out
}

#[test]
fn one_click_creates_a_dedicated_order_without_overwriting_target_designation() {
    let target = 42;
    let requests = vec![DesignationRequest { request_id: 7, world_epoch: 0, hit: Some(target) }];
    let outcomes = apply_batch(0, &requests, &|t, d| pile_facts(t, BuildingType::BonePile, d));
    assert_eq!(
        outcomes,
        vec![(7, DesignationResult::Designated { target, kind: BuildingType::BonePile })]
    );
}

#[test]
fn same_batch_duplicate_clicks_return_one_success_and_one_typed_rejection() {
    let target = 5;
    let requests = vec![
        DesignationRequest { request_id: 20, world_epoch: 0, hit: Some(target) },
        DesignationRequest { request_id: 10, world_epoch: 0, hit: Some(target) },
    ];
    let outcomes = apply_batch(0, &requests, &|t, d| pile_facts(t, BuildingType::SandPile, d));
    assert_eq!(outcomes.len(), 2);
    assert_eq!(outcomes[0].0, 10);
    assert!(matches!(outcomes[0].1, DesignationResult::Designated { .. }));
    assert_eq!(outcomes[1].0, 20);
    assert_eq!(
        outcomes[1].1,
        DesignationResult::Rejected(DesignationRejectReason::Target(
            DeconstructionRejectReason::AlreadyDesignated
        ))
    );
    let successes = outcomes
        .iter()
        .filter(|(_, r)| matches!(r, DesignationResult::Designated { .. }))
        .count();
    assert_eq!(successes, 1);
}

#[test]
fn stale_world_and_unsupported_cleanup_are_non_mutating() {
    let target = 3;
    let requests = vec![
        DesignationRequest { request_id: 1, world_epoch: 9, hit: Some(target) },
        DesignationRequest { request_id: 2, world_epoch: 0, hit: Some(target) },
    ];
    // A door root without the cleanup shape deconstruction needs.
    let door = |t: u64, _: &HashSet<u64>| DesignationTargetFacts {
        resolved: Ok((t, BuildingType::Door)),
        shape_supported: false,
        evaluated: Ok((t, BuildingType::Door)),
        has_anchor: true,
    };
    let outcomes = apply_batch(0, &requests, &door);
    assert_eq!(
        outcomes.iter().map(|(_, r)| *r).collect::<Vec<_>>(),
        vec![
            DesignationResult::Rejected(DesignationRejectReason::CleanupUnavailable),
            DesignationResult::Rejected(DesignationRejectReason::StaleWorld),
        ]
    );
}

#[test]
fn request_without_hit_or_anchor_is_rejected_with_its_reason() {
    let facts = pile_facts(4, BuildingType::SandPile, &HashSet::new());
    assert_eq!(
        apply_designation_request(0, DesignationRequest { request_id: 1, world_epoch: 0, hit: None }, facts),
        DesignationResult::Rejected(DesignationRejectReason::NoTarget)
    );
    let mut no_anchor = facts;
    no_anchor.has_anchor = false;
    assert_eq!(
        apply_designation_request(0, DesignationRequest { request_id: 1, world_epoch: 0, hit: Some(4) }, no_anchor),
        DesignationResult::Rejected(DesignationRejectReason::Target(DeconstructionRejectReason::OwnerMismatch))
    );
    let mut moving = facts;
    moving.resolved = Err(DeconstructionRejectReason::Moving);
    assert_eq!(
        apply_designation_request(0, DesignationRequest { request_id: 1, world_epoch: 0, hit: Some(4) }, moving),
        DesignationResult::Rejected(DesignationRejectReason::Target(DeconstructionRejectReason::Moving))
    );
}

#[test]
fn one_press_release_emits_one_request_and_keeps_the_mode_active() {
    let target = 7;
    let mut request_id = 0;

    let (pressed, request) = advance_deconstruction_pointer(
        PointerMode::Armed,
        true,
        false,
        Some((0, 1)),
        Some(target),
        0,
        &mut request_id,
    );
    assert!(matches!(pressed, PointerMode::Captured { .. }));
    assert_eq!(request, None);

    let (released, request) = advance_deconstruction_pointer(
        pressed,
        false,
        true,
        Some((0, 1)),
        Some(target),
        0,
        &mut request_id,
    );
    assert_eq!(released, PointerMode::Armed);
    assert_eq!(
        request,
        Some(DesignationRequest { request_id: 1, world_epoch: 0, hit: Some(target) })
    );

    let (idle, duplicate) =
        advance_deconstruction_pointer(released, false, true, None, None, 0, &mut request_id);
    assert_eq!(idle, PointerMode::Armed);
    assert_eq!(duplicate, None);
    assert_eq!(request_id, 1);
}

#[test]
fn releasing_outside_the_window_still_produces_a_typed_no_target_receipt() {
    let mut request_id = 9;
    let (mode, request) = advance_deconstruction_pointer(
        PointerMode::Captured { grid: (0, 0) },
        false,
        true,
        None,
        None,
        0,
        &mut request_id,
    );

    assert_eq!(mode, PointerMode::Armed);
    assert_eq!(request.unwrap().hit, None);
    assert_eq!(request_id, 10);
}

#[test]
fn request_ids_wrap_past_the_maximum_to_one() {
    let mut request_id = u64::MAX;
    let (_, request) = advance_deconstruction_pointer(
        PointerMode::Captured { grid: (0, 0) },
        false,
        true,
        None,
        None,
        3,
        &mut request_id,
    );
    assert_eq!(request, Some(DesignationRequest { request_id: 1, world_epoch: 3, hit: None }));
    assert_eq!(request_id, 1);
}

#[test]
fn blocked_release_rolls_back_capture_without_emitting_a_request() {
    let mut request_id = 0;
    let step = deconstruction_input_step(
        PointerMode::Captured { grid: (1, 1) },
        true,
        false,
        true,
        true,
        Some((1, 1)),
        None,
        0,
        &mut request_id,
    );
    assert_eq!(step.mode, PointerMode::Armed);
    assert_eq!(step.request, None);
    assert!(!step.exit_to_normal);
    assert_eq!(request_id, 0);
}

#[test]
fn right_click_exits_the_mode_without_needing_a_world_cursor() {
    let mut request_id = 0;
    let step = deconstruction_input_step(
        PointerMode::Armed,
        false,
        true,
        false,
        false,
        None,
        None,
        0,
        &mut request_id,
    );
    assert_eq!(step.mode, PointerMode::Off);
    assert!(step.exit_to_normal);
    assert_eq!(step.request, None);
}

fn idle_building(entity: u64, kind: BuildingType) -> HoverTargetFacts {
    HoverTargetFacts {
        entity,
        construction_role: false,
        building: Some((kind, false)),
        shape_supported: true,
        move_planned: false,
        pending_move: false,
        external_move: false,
        pending_deconstruction: false,
        has_orders: false,
    }
}

#[test]
fn rejected_target_keeps_the_canonical_entity_and_typed_reason() {
    let target = 11;
    assert_eq!(
        rejected_target(target, Some(BuildingType::MudMixer), DeconstructionRejectReason::Moving),
        DeconstructionHoverStatus::Rejected {
            target: Some(target),
            kind: Some(BuildingType::MudMixer),
            reason: DesignationRejectReason::Target(DeconstructionRejectReason::Moving),
        }
    );
    let mut moving = idle_building(target, BuildingType::MudMixer);
    moving.pending_move = true;
    assert_eq!(
        classify_hover_target(Some(moving)),
        DeconstructionHoverStatus::Rejected {
            target: Some(target),
            kind: Some(BuildingType::MudMixer),
            reason: DesignationRejectReason::Target(DeconstructionRejectReason::Moving),
        }
    );
}

#[test]
fn hover_classification_covers_every_reason() {
    assert_eq!(
        classify_hover_target(None),
        DeconstructionHoverStatus::Rejected { target: None, kind: None, reason: DesignationRejectReason::NoTarget }
    );
    assert_eq!(
        classify_hover_target(Some(idle_building(1, BuildingType::Tank))),
        DeconstructionHoverStatus::Available { target: 1, kind: BuildingType::Tank }
    );
    let mut blueprint = idle_building(2, BuildingType::Tank);
    blueprint.construction_role = true;
    assert!(matches!(
        classify_hover_target(Some(blueprint)),
        DeconstructionHoverStatus::Rejected {
            reason: DesignationRejectReason::Target(DeconstructionRejectReason::ConstructionInProgress),
            ..
        }
    ));
    let mut plain = idle_building(3, BuildingType::Tank);
    plain.building = None;
    assert!(matches!(
        classify_hover_target(Some(plain)),
        DeconstructionHoverStatus::Rejected {
            reason: DesignationRejectReason::Target(DeconstructionRejectReason::UnsupportedTarget),
            ..
        }
    ));
    let mut ordered = idle_building(4, BuildingType::Tank);
    ordered.has_orders = true;
    assert!(matches!(
        classify_hover_target(Some(ordered)),
        DeconstructionHoverStatus::Rejected {
            reason: DesignationRejectReason::Target(DeconstructionRejectReason::AlreadyDesignated),
            ..
        }
    ));
    let mut unsupported = idle_building(5, BuildingType::Door);
    unsupported.shape_supported = false;
    assert!(matches!(
        classify_hover_target(Some(unsupported)),
        DeconstructionHoverStatus::Rejected { reason: DesignationRejectReason::CleanupUnavailable, .. }
    ));
}

#[test]
fn designation_order_does_not_depend_on_arrival_order() {
    let a = DesignationRequest { request_id: 3, world_epoch: 0, hit: Some(5) };
    let b = DesignationRequest { request_id: 3, world_epoch: 0, hit: None };
    let c = DesignationRequest { request_id: 1, world_epoch: 2, hit: Some(4) };
    let first = sort_designation_requests(&vec![a, b, c]);
    let second = sort_designation_requests(&vec![c, b, a]);
    assert_eq!(first, second);
    assert_eq!(first, vec![b, a, c]);
}
