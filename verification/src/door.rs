//! Door decisions: opening for souls about to pass, closing after a delay
//! when nobody is near, and manual lock toggles.

use vstd::prelude::*;
use crate::grid::{EntityId, Grid};
use crate::decon::BuildingType;
use crate::light_input::DoorState;

verus! {

/// Counters of the door proximity systems' scans in one frame.
#[derive(Debug, Clone, Copy, PartialEq, Eq, Default)]
pub struct DoorPerfMetrics {
    pub open_souls_scanned: u32,
    pub open_waypoints_scanned: u32,
    pub close_souls_scanned: u32,
}


/// The two cells touch or are the same cell (Chebyshev distance at most one).
pub open spec fn adjacent(a: Grid, b: Grid) -> bool {
    -1 <= a.0 - b.0 <= 1 && -1 <= a.1 - b.1 <= 1
}

/// Cells whose differences fit in `i32`, as the door checks compute them.
pub open spec fn cells_comparable(a: Grid, b: Grid) -> bool {
    -0x7fff_ffff <= a.0 - b.0 <= 0x7fff_ffff && -0x7fff_ffff <= a.1 - b.1 <= 0x7fff_ffff
}

/// Whether a soul stands on or next to a door.
pub fn soul_touches_or_is_adjacent(soul: Grid, door: Grid) -> (b: bool)
    requires
        cells_comparable(soul, door),
    ensures
        b == adjacent(soul, door),
{
    let dx = soul.0 - door.0;
    let dy = soul.1 - door.1;
    -1 <= dx && dx <= 1 && -1 <= dy && dy <= 1
}

/// The soul is next to the door and either stands on it or has it among
/// the waypoints it has not reached yet.
pub open spec fn heading_to_door(soul: Grid, waypoints: Seq<Grid>, current: int, door: Grid) -> bool {
    &&& adjacent(soul, door)
    &&& (soul == door || (current < waypoints.len() && exists|i: int| current <= i < waypoints.len() && waypoints[i] == door))
}

/// Whether a soul is near a door and about to pass through it. The path's
/// waypoints are given as cells; `current` is the index of the next one.
pub fn soul_nearby_and_heading_to_door(soul: Grid, waypoints: &Vec<Grid>, current: usize, door: Grid) -> (b: bool)
    requires
        cells_comparable(soul, door),
    ensures
        b == heading_to_door(soul, waypoints@, current as int, door),
{
    if !soul_touches_or_is_adjacent(soul, door) {
        return false;
    }
    if soul.0 == door.0 && soul.1 == door.1 {
        return true;
    }
    if current >= waypoints.len() {
        return false;
    }
    let mut i: usize = current;
    while i < waypoints.len()
        invariant
            current <= i <= waypoints@.len(),
            current < waypoints@.len(),
            adjacent(soul, door),
            forall|j: int| current <= j < i ==> waypoints@[j] != door,
        decreases waypoints.len() - i,
    {
        if waypoints[i].0 == door.0 && waypoints[i].1 == door.1 {
            assert(waypoints@[i as int] == door);
            return true;
        }
        i += 1;
    }
    false
}

/// A soul near a door, when its transform and path could be read.
#[derive(Debug, PartialEq, Eq)]
pub struct SoulPathFacts {
    pub grid: Grid,
    /// Its path's waypoints, as cells.
    pub waypoints: Vec<Grid>,
    pub current_index: usize,
}

/// Some nearby soul is about to pass through the door.
pub open spec fn should_open(door: Grid, souls: Seq<Option<SoulPathFacts>>) -> bool {
    exists|i: int| 0 <= i < souls.len() && (#[trigger] souls[i] matches Some(s)
        && heading_to_door(s.grid, s.waypoints@, s.current_index as int, door))
}

/// Whether a closed door opens: some of the nearby candidates (those whose
/// transform and path exist) is about to pass through it.
pub fn door_should_open(state: DoorState, door: Grid, souls: &Vec<Option<SoulPathFacts>>) -> (b: bool)
    requires
        forall|i: int| 0 <= i < souls@.len() ==> (#[trigger] souls@[i] matches Some(s) ==> cells_comparable(s.grid, door)),
    ensures
        b == (state == DoorState::Closed && should_open(door, souls@)),
{
    if state != DoorState::Closed {
        return false;
    }
    let mut i: usize = 0;
    while i < souls.len()
        invariant
            i <= souls@.len(),
            state == DoorState::Closed,
            forall|k: int| 0 <= k < souls@.len() ==> (#[trigger] souls@[k] matches Some(s) ==> cells_comparable(s.grid, door)),
            forall|j: int| 0 <= j < i ==> !(#[trigger] souls@[j] matches Some(s)
                && heading_to_door(s.grid, s.waypoints@, s.current_index as int, door)),
        decreases souls.len() - i,
    {
        match &souls[i] {
            Some(s) => {
                assert(souls@[i as int] matches Some(x) && cells_comparable(x.grid, door));
                if soul_nearby_and_heading_to_door(s.grid, &s.waypoints, s.current_index, door) {
                    assert(souls@[i as int] matches Some(x) && heading_to_door(x.grid, x.waypoints@, x.current_index as int, door));
                    return true;
                }
            },
            None => {},
        }
        i += 1;
    }
    false
}

/// What an open door's close timer does this update.
#[derive(Debug, Clone, Copy, PartialEq, Eq, Structural)]
pub enum DoorCloseAction {
    Nothing,
    /// A soul is near: the pending close timer is dropped.
    RemoveTimer,
    /// Nobody is near and no timer runs: one starts.
    InsertTimer,
    /// The timer ran out: the door closes and the timer is dropped.
    Close,
}

/// The close decision of a door. `timer` is `None` without a close timer,
/// and otherwise whether the timer, ticked by this update, just finished.
pub fn door_close_action(state: DoorState, soul_nearby: bool, timer: Option<bool>) -> (a: DoorCloseAction)
    ensures
        a == (if state != DoorState::Open {
            DoorCloseAction::Nothing
        } else if soul_nearby {
            if timer is Some { DoorCloseAction::RemoveTimer } else { DoorCloseAction::Nothing }
        } else {
            match timer {
                None => DoorCloseAction::InsertTimer,
                Some(finished) => if finished { DoorCloseAction::Close } else { DoorCloseAction::Nothing },
            }
        }),
{
    if state != DoorState::Open {
        return DoorCloseAction::Nothing;
    }
    if soul_nearby {
        return if timer.is_some() { DoorCloseAction::RemoveTimer } else { DoorCloseAction::Nothing };
    }
    match timer {
        None => DoorCloseAction::InsertTimer,
        Some(finished) => if finished { DoorCloseAction::Close } else { DoorCloseAction::Nothing },
    }
}

/// Counters of manual lock toggle requests by outcome.
#[derive(Debug, Clone, Copy, Default, PartialEq, Eq, Structural)]
pub struct DoorLockToggleMetrics {
    pub applied: u64,
    pub stale_target: u64,
    pub invalid_target: u64,
    pub wrong_world_owner: u64,
}

/// What a toggle request names.
#[derive(Debug, Clone, Copy, PartialEq, Eq)]
pub enum DoorToggleTarget {
    /// The entity no longer exists.
    Missing,
    /// The entity exists but is no door building with a transform.
    NotADoor,
    /// A door: its building, its cell, its state, and whether the map
    /// registers it as the door on that cell.
    Door { kind: BuildingType, is_provisional: bool, grid: Grid, state: DoorState, registered_at_cell: bool },
}

/// The outcome of one toggle request.
#[derive(Debug, Clone, Copy, PartialEq, Eq)]
pub enum DoorToggleOutcome {
    Stale,
    Invalid,
    WrongWorldOwner,
    /// The door moves to `next` on `grid`.
    Applied { grid: Grid, next: DoorState },
}

pub open spec fn spec_door_toggle(t: DoorToggleTarget) -> DoorToggleOutcome {
    match t {
        DoorToggleTarget::Missing => DoorToggleOutcome::Stale,
        DoorToggleTarget::NotADoor => DoorToggleOutcome::Invalid,
        DoorToggleTarget::Door { kind, is_provisional, grid, state, registered_at_cell } => {
            if kind != BuildingType::Door || is_provisional {
                DoorToggleOutcome::Invalid
            } else if !registered_at_cell {
                DoorToggleOutcome::WrongWorldOwner
            } else {
                DoorToggleOutcome::Applied {
                    grid,
                    next: if state == DoorState::Locked { DoorState::Closed } else { DoorState::Locked },
                }
            }
        },
    }
}

pub open spec fn sat_inc(a: u64) -> u64 {
    if a == u64::MAX { a } else { (a + 1) as u64 }
}

/// Decides one manual lock toggle request and counts it: a locked door
/// closes, any other door locks.
pub fn consume_door_lock_toggle(t: DoorToggleTarget, metrics: &mut DoorLockToggleMetrics) -> (o: DoorToggleOutcome)
    ensures
        o == spec_door_toggle(t),
        *final(metrics) == (match o {
            DoorToggleOutcome::Stale => DoorLockToggleMetrics { stale_target: sat_inc(old(metrics).stale_target), ..*old(metrics) },
            DoorToggleOutcome::Invalid => DoorLockToggleMetrics { invalid_target: sat_inc(old(metrics).invalid_target), ..*old(metrics) },
            DoorToggleOutcome::WrongWorldOwner => DoorLockToggleMetrics { wrong_world_owner: sat_inc(old(metrics).wrong_world_owner), ..*old(metrics) },
            DoorToggleOutcome::Applied { .. } => DoorLockToggleMetrics { applied: sat_inc(old(metrics).applied), ..*old(metrics) },
        }),
{
    let o = match t {
        DoorToggleTarget::Missing => DoorToggleOutcome::Stale,
        DoorToggleTarget::NotADoor => DoorToggleOutcome::Invalid,
        DoorToggleTarget::Door { kind, is_provisional, grid, state, registered_at_cell } => {
            if kind != BuildingType::Door || is_provisional {
                DoorToggleOutcome::Invalid
            } else if !registered_at_cell {
                DoorToggleOutcome::WrongWorldOwner
            } else {
                let next = if state == DoorState::Locked { DoorState::Closed } else { DoorState::Locked };
                DoorToggleOutcome::Applied { grid, next }
            }
        },
    };
    match o {
        DoorToggleOutcome::Stale => metrics.stale_target = metrics.stale_target.saturating_add(1),
        DoorToggleOutcome::Invalid => metrics.invalid_target = metrics.invalid_target.saturating_add(1),
        DoorToggleOutcome::WrongWorldOwner => metrics.wrong_world_owner = metrics.wrong_world_owner.saturating_add(1),
        DoorToggleOutcome::Applied { .. } => metrics.applied = metrics.applied.saturating_add(1),
    }
    o
}

/// Toggling a registered door twice brings it back: a locked door closes
/// and locks again, any other door locks and then closes.
pub proof fn law_lock_toggle_alternates(kind: BuildingType, grid: Grid, state: DoorState)
    requires
        kind == BuildingType::Door,
    ensures
        ({
            let first = spec_door_toggle(DoorToggleTarget::Door { kind, is_provisional: false, grid, state, registered_at_cell: true });
            &&& first matches DoorToggleOutcome::Applied { next, .. }
            &&& next != state
            &&& spec_door_toggle(DoorToggleTarget::Door { kind, is_provisional: false, grid, state: next, registered_at_cell: true })
                matches DoorToggleOutcome::Applied { next: back, .. }
            &&& (state == DoorState::Locked ==> back == DoorState::Locked)
            &&& (state != DoorState::Locked ==> back == DoorState::Closed)
        }),
{
}

} // verus!
