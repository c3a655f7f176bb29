use hell_workers_jobs::decon::BuildingType;
use hell_workers_jobs::door::{
    consume_door_lock_toggle, door_close_action, door_should_open, soul_nearby_and_heading_to_door,
    soul_touches_or_is_adjacent, DoorCloseAction, DoorLockToggleMetrics, DoorToggleOutcome,
    DoorToggleTarget, SoulPathFacts,
};
use hell_workers_jobs::light_input::DoorState;

fn door_at(grid: (i32, i32), state: DoorState) -> DoorToggleTarget {
    DoorToggleTarget::Door {
        kind: BuildingType::Door,
        is_provisional: false,
        grid,
        state,
        registered_at_cell: true,
    }
}

#[test]
fn path_waypoint_check_requires_a_nearby_soul() {
    let waypoints = vec![(5, 5)];
    assert!(!soul_nearby_and_heading_to_door((1, 1), &waypoints, 0, (5, 5)));
}

#[test]
fn adjacent_soul_heading_through_the_door_opens_it() {
    let waypoints = vec![(4, 5), (5, 5), (6, 5)];
    assert!(soul_touches_or_is_adjacent((4, 4), (5, 5)));
    assert!(!soul_touches_or_is_adjacent((3, 5), (5, 5)));
    assert!(soul_nearby_and_heading_to_door((4, 5), &waypoints, 0, (5, 5)));
    // Past the door already: the remaining waypoints do not cross it.
    assert!(!soul_nearby_and_heading_to_door((6, 5), &waypoints, 2, (5, 5)));
    let souls = vec![
        None,
        Some(SoulPathFacts { grid: (4, 5), waypoints: waypoints.clone(), current_index: 0 }),
    ];
    assert!(door_should_open(DoorState::Closed, (5, 5), &souls));
    assert!(!door_should_open(DoorState::Locked, (5, 5), &souls));
    assert!(!door_should_open(DoorState::Closed, (5, 5), &vec![None]));
}

#[test]
fn open_door_closes_only_after_its_timer_runs_out() {
    assert_eq!(door_close_action(DoorState::Open, false, None), DoorCloseAction::InsertTimer);
    assert_eq!(door_close_action(DoorState::Open, false, Some(false)), DoorCloseAction::Nothing);
    assert_eq!(door_close_action(DoorState::Open, false, Some(true)), DoorCloseAction::Close);
    assert_eq!(door_close_action(DoorState::Open, true, Some(false)), DoorCloseAction::RemoveTimer);
    assert_eq!(door_close_action(DoorState::Open, true, None), DoorCloseAction::Nothing);
    assert_eq!(door_close_action(DoorState::Closed, false, None), DoorCloseAction::Nothing);
}

#[test]
fn manual_door_request_is_consumed_while_virtual_time_is_paused() {
    let mut metrics = DoorLockToggleMetrics::default();
    let outcome = consume_door_lock_toggle(door_at((5, 5), DoorState::Closed), &mut metrics);
    assert_eq!(outcome, DoorToggleOutcome::Applied { grid: (5, 5), next: DoorState::Locked });
    assert_eq!(metrics.applied, 1);
}

#[test]
fn invalid_manual_door_requests_are_consumed_once_with_reason_metrics() {
    let mut metrics = DoorLockToggleMetrics::default();
    assert_eq!(
        consume_door_lock_toggle(DoorToggleTarget::NotADoor, &mut metrics),
        DoorToggleOutcome::Invalid
    );
    assert_eq!(
        consume_door_lock_toggle(DoorToggleTarget::Missing, &mut metrics),
        DoorToggleOutcome::Stale
    );
    assert_eq!(metrics.invalid_target, 1);
    assert_eq!(metrics.stale_target, 1);

    // The next frame has no request left to consume.
    let no_requests: Vec<DoorToggleTarget> = Vec::new();
    for request in no_requests {
        consume_door_lock_toggle(request, &mut metrics);
    }
    assert_eq!(metrics.invalid_target, 1);
    assert_eq!(metrics.stale_target, 1);
}

#[test]
fn lock_toggle_alternates_between_locked_and_closed() {
    let mut metrics = DoorLockToggleMetrics::default();
    let first = consume_door_lock_toggle(door_at((2, 3), DoorState::Open), &mut metrics);
    assert_eq!(first, DoorToggleOutcome::Applied { grid: (2, 3), next: DoorState::Locked });
    let second = consume_door_lock_toggle(door_at((2, 3), DoorState::Locked), &mut metrics);
    assert_eq!(second, DoorToggleOutcome::Applied { grid: (2, 3), next: DoorState::Closed });
    assert_eq!(metrics.applied, 2);
}

#[test]
fn provisional_or_unregistered_doors_are_refused() {
    let mut metrics = DoorLockToggleMetrics::default();
    let provisional = DoorToggleTarget::Door {
        kind: BuildingType::Door,
        is_provisional: true,
        grid: (1, 1),
        state: DoorState::Closed,
        registered_at_cell: true,
    };
    assert_eq!(consume_door_lock_toggle(provisional, &mut metrics), DoorToggleOutcome::Invalid);
    let wall = DoorToggleTarget::Door {
        kind: BuildingType::Wall,
        is_provisional: false,
        grid: (1, 1),
        state: DoorState::Closed,
        registered_at_cell: true,
    };
    assert_eq!(consume_door_lock_toggle(wall, &mut metrics), DoorToggleOutcome::Invalid);
    let foreign = DoorToggleTarget::Door {
        kind: BuildingType::Door,
        is_provisional: false,
        grid: (1, 1),
        state: DoorState::Closed,
        registered_at_cell: false,
    };
    assert_eq!(consume_door_lock_toggle(foreign, &mut metrics), DoorToggleOutcome::WrongWorldOwner);
    assert_eq!(
        metrics,
        DoorLockToggleMetrics { applied: 0, stale_target: 0, invalid_target: 2, wrong_world_owner: 1 }
    );
}
