//! Player designation of buildings for deconstruction: the pointer gesture,
//! the hover preflight, and the ordered application of designation requests.
//!
//! Requests are applied in `(world epoch, request id, hit)` order, and each
//! request is answered once: designated, or rejected with a typed reason.

use vstd::prelude::*;
use crate::grid::{EntityId, Grid};
use crate::decon::BuildingType;
use crate::sort::{KeyOrder, lemma_sorted_permutation_unique, sort_by_key, sorted_by_key};

verus! {

/// Why a target cannot be deconstructed.
#[derive(Debug, Clone, Copy, PartialEq, Eq, Structural)]
pub enum DeconstructionRejectReason {
    AlreadyDesignated,
    ConstructionInProgress,
    Moving,
    OwnerMismatch,
    UnsupportedTarget,
}

/// Why a designation request was rejected.
#[derive(Debug, Clone, Copy, PartialEq, Eq, Structural)]
pub enum DesignationRejectReason {
    StaleWorld,
    NoTarget,
    CleanupUnavailable,
    Target(DeconstructionRejectReason),
}

/// A request to designate the building under the pointer.
#[derive(Debug, Clone, Copy, PartialEq, Eq, Structural)]
pub struct DesignationRequest {
    pub request_id: u64,
    pub world_epoch: u64,
    pub hit: Option<EntityId>,
}

/// The answer to a designation request.
#[derive(Debug, Clone, Copy, PartialEq, Eq, Structural)]
pub enum DesignationResult {
    /// A dedicated order was created for the target of this kind.
    Designated { target: EntityId, kind: BuildingType },
    Rejected(DesignationRejectReason),
}

/// The order key of a request: epoch, id, then the hit's bits (0 for none).
pub open spec fn request_key_le(a: DesignationRequest, b: DesignationRequest) -> bool {
    let ha: u64 = match a.hit { Some(h) => h, None => 0 };
    let hb: u64 = match b.hit { Some(h) => h, None => 0 };
    ||| a.world_epoch < b.world_epoch
    ||| (a.world_epoch == b.world_epoch && a.request_id < b.request_id)
    ||| (a.world_epoch == b.world_epoch && a.request_id == b.request_id && ha <= hb)
}

impl KeyOrder for DesignationRequest {
    open spec fn key_le(self, other: Self) -> bool {
        request_key_le(self, other)
    }

    proof fn key_le_total(a: Self, b: Self) {
    }

    proof fn key_le_transitive(a: Self, b: Self, c: Self) {
    }

    fn le(&self, other: &Self) -> (r: bool) {
        let ha: u64 = match self.hit { Some(h) => h, None => 0 };
        let hb: u64 = match other.hit { Some(h) => h, None => 0 };
        self.world_epoch < other.world_epoch || (self.world_epoch == other.world_epoch && self.request_id < other.request_id)
            || (self.world_epoch == other.world_epoch && self.request_id == other.request_id && ha <= hb)
    }
}

/// Orders a batch of designation requests for application.
pub fn sort_designation_requests(requests: &Vec<DesignationRequest>) -> (r: Vec<DesignationRequest>)
    ensures
        sorted_by_key(r@),
        r@.to_multiset() == requests@.to_multiset(),
{
    sort_by_key(requests.as_slice())
}

/// Designation requests are applied in one order whatever order they
/// arrived in: two batches sorted from the same requests are equal, as long
/// as no request names the entity whose bits are 0 (its key is that of a
/// request that hit nothing).
pub proof fn law_designation_order_is_arrival_independent(a: Seq<DesignationRequest>, b: Seq<DesignationRequest>)
    requires
        sorted_by_key(a),
        sorted_by_key(b),
        a.to_multiset() == b.to_multiset(),
        forall|i: int| 0 <= i < a.len() ==> a[i].hit != Some(0u64),
    ensures
        a == b,
{
    assert forall|x: DesignationRequest, y: DesignationRequest| #![trigger x.key_le(y), y.key_le(x)]
        a.contains(x) && a.contains(y) && x.key_le(y) && y.key_le(x) implies x == y by {
        let ix = choose|i: int| 0 <= i < a.len() && a[i] == x;
        let iy = choose|i: int| 0 <= i < a.len() && a[i] == y;
        assert(a[ix].hit != Some(0u64) && a[iy].hit != Some(0u64));
    }
    lemma_sorted_permutation_unique(a, b);
}

/// What the world says of a request's hit, evaluated when the request is
/// applied.
#[derive(Debug, Clone, Copy, PartialEq, Eq)]
pub struct DesignationTargetFacts {
    /// The deconstruction root the hit resolves to, with its kind.
    pub resolved: Result<(EntityId, BuildingType), DeconstructionRejectReason>,
    /// The kind supports deconstruction cleanup and the root's markers match it.
    pub shape_supported: bool,
    /// The eligibility verdict on the root (moving, already designated, ...).
    pub evaluated: Result<(EntityId, BuildingType), DeconstructionRejectReason>,
    /// The root has a transform to anchor the order at.
    pub has_anchor: bool,
}

pub open spec fn spec_designation(current_epoch: u64, r: DesignationRequest, f: DesignationTargetFacts) -> DesignationResult {
    if r.world_epoch != current_epoch {
        DesignationResult::Rejected(DesignationRejectReason::StaleWorld)
    } else if r.hit is None {
        DesignationResult::Rejected(DesignationRejectReason::NoTarget)
    } else {
        match f.resolved {
            Err(reason) => DesignationResult::Rejected(DesignationRejectReason::Target(reason)),
            Ok(_) => if !f.shape_supported {
                DesignationResult::Rejected(DesignationRejectReason::CleanupUnavailable)
            } else {
                match f.evaluated {
                    Err(reason) => DesignationResult::Rejected(DesignationRejectReason::Target(reason)),
                    Ok((root, kind)) => if !f.has_anchor {
                        DesignationResult::Rejected(DesignationRejectReason::Target(DeconstructionRejectReason::OwnerMismatch))
                    } else {
                        DesignationResult::Designated { target: root, kind }
                    },
                }
            },
        }
    }
}

/// Answers one designation request. On `Designated` the caller creates the
/// dedicated order and marks the root pending, before the next request is
/// evaluated.
pub fn apply_designation_request(current_epoch: u64, r: DesignationRequest, f: DesignationTargetFacts) -> (d: DesignationResult)
    ensures
        d == spec_designation(current_epoch, r, f),
{
    if r.world_epoch != current_epoch {
        return DesignationResult::Rejected(DesignationRejectReason::StaleWorld);
    }
    if r.hit.is_none() {
        return DesignationResult::Rejected(DesignationRejectReason::NoTarget);
    }
    match f.resolved {
        Err(reason) => return DesignationResult::Rejected(DesignationRejectReason::Target(reason)),
        Ok(_) => {},
    }
    if !f.shape_supported {
        return DesignationResult::Rejected(DesignationRejectReason::CleanupUnavailable);
    }
    match f.evaluated {
        Err(reason) => DesignationResult::Rejected(DesignationRejectReason::Target(reason)),
        Ok((root, kind)) => {
            if !f.has_anchor {
                DesignationResult::Rejected(DesignationRejectReason::Target(DeconstructionRejectReason::OwnerMismatch))
            } else {
                DesignationResult::Designated { target: root, kind }
            }
        },
    }
}

/// The deconstruction tool's pointer state.
#[derive(Debug, Clone, Copy, PartialEq, Eq)]
pub enum PointerMode {
    /// Another task mode is active.
    Off,
    /// The tool is active and nothing is captured.
    Armed,
    /// A press captured the cell under the pointer.
    Captured { grid: Grid },
}

/// The id after `id`: ids wrap and skip zero.
pub open spec fn spec_next_request_id(id: u64) -> u64 {
    if id == u64::MAX { 1 } else { (id + 1) as u64 }
}

/// The pointer gesture's next mode, request and last request id.
pub open spec fn spec_advance_pointer(
    mode: PointerMode,
    left_just_pressed: bool,
    left_just_released: bool,
    cursor_grid: Option<Grid>,
    hit: Option<EntityId>,
    world_epoch: u64,
    id: u64,
) -> (PointerMode, Option<DesignationRequest>, u64) {
    let captured = if left_just_pressed && mode == PointerMode::Armed && cursor_grid is Some {
        PointerMode::Captured { grid: cursor_grid.unwrap() }
    } else {
        mode
    };
    if left_just_released && captured is Captured {
        let next = spec_next_request_id(id);
        (PointerMode::Armed, Some(DesignationRequest { request_id: next, world_epoch, hit }), next)
    } else {
        (captured, None, id)
    }
}

/// One update of the designation input and the last request id after it.
pub open spec fn spec_input_step(
    mode: PointerMode,
    world_input_blocked: bool,
    right_just_pressed: bool,
    left_just_pressed: bool,
    left_just_released: bool,
    cursor_grid: Option<Grid>,
    hit: Option<EntityId>,
    world_epoch: u64,
    id: u64,
) -> (DesignationInputStep, u64) {
    if mode == PointerMode::Off {
        (DesignationInputStep { mode, request: None, exit_to_normal: false }, id)
    } else if world_input_blocked {
        (DesignationInputStep {
            mode: if left_just_released && mode is Captured { PointerMode::Armed } else { mode },
            request: None,
            exit_to_normal: false,
        }, id)
    } else if right_just_pressed {
        (DesignationInputStep { mode: PointerMode::Off, request: None, exit_to_normal: true }, id)
    } else {
        let a = spec_advance_pointer(mode, left_just_pressed, left_just_released, cursor_grid, hit, world_epoch, id);
        (DesignationInputStep { mode: a.0, request: a.1, exit_to_normal: false }, a.2)
    }
}

/// One step of the gesture: a press captures the cell under the pointer,
/// and a release of a capture emits one request with the next id (ids wrap
/// and skip zero) and re-arms the tool.
pub fn advance_deconstruction_pointer(
    mode: PointerMode,
    left_just_pressed: bool,
    left_just_released: bool,
    cursor_grid: Option<Grid>,
    hit: Option<EntityId>,
    world_epoch: u64,
    next_request_id: &mut u64,
) -> (r: (PointerMode, Option<DesignationRequest>))
    ensures
        ({
            let captured = if left_just_pressed && mode == PointerMode::Armed && cursor_grid is Some {
                PointerMode::Captured { grid: cursor_grid.unwrap() }
            } else {
                mode
            };
            let next_id: u64 = if *old(next_request_id) == u64::MAX { 1 } else { (*old(next_request_id) + 1) as u64 };
            if left_just_released && captured is Captured {
                &&& r.0 == PointerMode::Armed
                &&& r.1 == Some(DesignationRequest { request_id: next_id, world_epoch, hit })
                &&& *final(next_request_id) == next_id
            } else {
                &&& r.0 == captured
                &&& r.1 is None
                &&& *final(next_request_id) == *old(next_request_id)
            }
        }),
        (r.0, r.1, *final(next_request_id)) == spec_advance_pointer(
            mode,
            left_just_pressed,
            left_just_released,
            cursor_grid,
            hit,
            world_epoch,
            *old(next_request_id),
        ),
{
    let mut mode = mode;
    let armed = match mode {
        PointerMode::Armed => true,
        _ => false,
    };
    if left_just_pressed && armed {
        match cursor_grid {
            Some(g) => mode = PointerMode::Captured { grid: g },
            None => {},
        }
    }
    let captured = match mode {
        PointerMode::Captured { .. } => true,
        _ => false,
    };
    if !left_just_released || !captured {
        return (mode, None);
    }
    let id = next_request_id.wrapping_add(1);
    *next_request_id = if id < 1 { 1 } else { id };
    (PointerMode::Armed, Some(DesignationRequest { request_id: *next_request_id, world_epoch, hit }))
}

/// The result of one update of the designation input.
#[derive(Debug, Clone, Copy, PartialEq, Eq)]
pub struct DesignationInputStep {
    pub mode: PointerMode,
    pub request: Option<DesignationRequest>,
    /// The tool was left with a right click: play mode returns to normal.
    pub exit_to_normal: bool,
}

/// One update of the designation input: blocked world input only drops a
/// capture on release, a right click leaves the tool, and otherwise the
/// gesture advances.
pub fn deconstruction_input_step(
    mode: PointerMode,
    world_input_blocked: bool,
    right_just_pressed: bool,
    left_just_pressed: bool,
    left_just_released: bool,
    cursor_grid: Option<Grid>,
    hit: Option<EntityId>,
    world_epoch: u64,
    next_request_id: &mut u64,
) -> (s: DesignationInputStep)
    ensures
        mode == PointerMode::Off ==> s == (DesignationInputStep { mode, request: None, exit_to_normal: false })
            && *final(next_request_id) == *old(next_request_id),
        mode != PointerMode::Off && world_input_blocked ==> s == (DesignationInputStep {
            mode: if left_just_released && mode is Captured { PointerMode::Armed } else { mode },
            request: None,
            exit_to_normal: false,
        }) && *final(next_request_id) == *old(next_request_id),
        mode != PointerMode::Off && !world_input_blocked && right_just_pressed ==> s == (DesignationInputStep {
            mode: PointerMode::Off,
            request: None,
            exit_to_normal: true,
        }) && *final(next_request_id) == *old(next_request_id),
        mode != PointerMode::Off && !world_input_blocked && !right_just_pressed ==> !s.exit_to_normal,
        (s, *final(next_request_id)) == spec_input_step(
            mode,
            world_input_blocked,
            right_just_pressed,
            left_just_pressed,
            left_just_released,
            cursor_grid,
            hit,
            world_epoch,
            *old(next_request_id),
        ),
{
    let off = match mode {
        PointerMode::Off => true,
        _ => false,
    };
    if off {
        return DesignationInputStep { mode, request: None, exit_to_normal: false };
    }
    if world_input_blocked {
        let captured = match mode {
            PointerMode::Captured { .. } => true,
            _ => false,
        };
        let next = if left_just_released && captured { PointerMode::Armed } else { mode };
        return DesignationInputStep { mode: next, request: None, exit_to_normal: false };
    }
    if right_just_pressed {
        return DesignationInputStep { mode: PointerMode::Off, request: None, exit_to_normal: true };
    }
    let (next, request) = advance_deconstruction_pointer(
        mode,
        left_just_pressed,
        left_just_released,
        cursor_grid,
        hit,
        world_epoch,
        next_request_id,
    );
    DesignationInputStep { mode: next, request, exit_to_normal: false }
}

/// What the hover preview shows.
#[derive(Debug, Clone, Copy, PartialEq, Eq)]
pub enum DeconstructionHoverStatus {
    Available { target: EntityId, kind: BuildingType },
    Rejected { target: Option<EntityId>, kind: Option<BuildingType>, reason: DesignationRejectReason },
}

/// A rejection of a hovered target for a typed reason.
pub fn rejected_target(target: EntityId, kind: Option<BuildingType>, reason: DeconstructionRejectReason) -> (s: DeconstructionHoverStatus)
    ensures
        s == (DeconstructionHoverStatus::Rejected { target: Some(target), kind, reason: DesignationRejectReason::Target(reason) }),
{
    DeconstructionHoverStatus::Rejected { target: Some(target), kind, reason: DesignationRejectReason::Target(reason) }
}

/// What the world says of a hovered entity.
#[derive(Debug, Clone, Copy, PartialEq, Eq)]
pub struct HoverTargetFacts {
    pub entity: EntityId,
    /// It is a blueprint, a construction site or a tile blueprint.
    pub construction_role: bool,
    /// Its building: kind and provisional flag.
    pub building: Option<(BuildingType, bool)>,
    /// The kind supports deconstruction cleanup and its markers match.
    pub shape_supported: bool,
    pub move_planned: bool,
    pub pending_move: bool,
    /// A move task, queued or assigned, targets it.
    pub external_move: bool,
    pub pending_deconstruction: bool,
    pub has_orders: bool,
}

pub open spec fn spec_hover(f: HoverTargetFacts) -> DeconstructionHoverStatus {
    let t = f.entity;
    if f.construction_role {
        DeconstructionHoverStatus::Rejected { target: Some(t), kind: None, reason: DesignationRejectReason::Target(DeconstructionRejectReason::ConstructionInProgress) }
    } else {
        match f.building {
            None => DeconstructionHoverStatus::Rejected { target: Some(t), kind: None, reason: DesignationRejectReason::Target(DeconstructionRejectReason::UnsupportedTarget) },
            Some((kind, prov)) => if prov {
                DeconstructionHoverStatus::Rejected { target: Some(t), kind: Some(kind), reason: DesignationRejectReason::Target(DeconstructionRejectReason::ConstructionInProgress) }
            } else if !f.shape_supported {
                DeconstructionHoverStatus::Rejected { target: Some(t), kind: Some(kind), reason: DesignationRejectReason::CleanupUnavailable }
            } else if f.move_planned || f.pending_move || f.external_move {
                DeconstructionHoverStatus::Rejected { target: Some(t), kind: Some(kind), reason: DesignationRejectReason::Target(DeconstructionRejectReason::Moving) }
            } else if f.pending_deconstruction || f.has_orders {
                DeconstructionHoverStatus::Rejected { target: Some(t), kind: Some(kind), reason: DesignationRejectReason::Target(DeconstructionRejectReason::AlreadyDesignated) }
            } else {
                DeconstructionHoverStatus::Available { target: t, kind }
            },
        }
    }
}

/// Classifies the entity under the pointer, `None` when nothing is there.
pub fn classify_hover_target(hit: Option<HoverTargetFacts>) -> (s: DeconstructionHoverStatus)
    ensures
        s == match hit {
            None => DeconstructionHoverStatus::Rejected { target: None, kind: None, reason: DesignationRejectReason::NoTarget },
            Some(f) => spec_hover(f),
        },
{
    let f = match hit {
        None => return DeconstructionHoverStatus::Rejected { target: None, kind: None, reason: DesignationRejectReason::NoTarget },
        Some(f) => f,
    };
    if f.construction_role {
        return rejected_target(f.entity, None, DeconstructionRejectReason::ConstructionInProgress);
    }
    let (kind, prov) = match f.building {
        None => return rejected_target(f.entity, None, DeconstructionRejectReason::UnsupportedTarget),
        Some(b) => b,
    };
    if prov {
        return rejected_target(f.entity, Some(kind), DeconstructionRejectReason::ConstructionInProgress);
    }
    if !f.shape_supported {
        return DeconstructionHoverStatus::Rejected { target: Some(f.entity), kind: Some(kind), reason: DesignationRejectReason::CleanupUnavailable };
    }
    if f.move_planned || f.pending_move || f.external_move {
        return rejected_target(f.entity, Some(kind), DeconstructionRejectReason::Moving);
    }
    if f.pending_deconstruction || f.has_orders {
        return rejected_target(f.entity, Some(kind), DeconstructionRejectReason::AlreadyDesignated);
    }
    DeconstructionHoverStatus::Available { target: f.entity, kind }
}

/// The tool turns one press and release into exactly one request. While
/// the tool is active, world input is free and the right button is not
/// pressed: a left release over a captured cell (captured earlier, or by a
/// press in this very update) emits one request for the hit entity, in the
/// current epoch, with the next id (ids wrap and skip zero), and re-arms the
/// tool; an update without a release emits nothing and keeps the id; a press
/// on the armed tool over a cell captures that cell.
pub proof fn law_release_of_capture_emits_one_request(
    mode: PointerMode,
    left_just_pressed: bool,
    left_just_released: bool,
    cursor_grid: Option<Grid>,
    hit: Option<EntityId>,
    world_epoch: u64,
    id: u64,
)
    requires
        mode != PointerMode::Off,
    ensures
        ({
            let (s, next) = spec_input_step(mode, false, false, left_just_pressed, left_just_released, cursor_grid, hit, world_epoch, id);
            let expected_id: u64 = if id == u64::MAX { 1 } else { (id + 1) as u64 };
            &&& (left_just_released && (mode is Captured || (left_just_pressed && mode == PointerMode::Armed
                && cursor_grid is Some))) ==> {
                &&& s.request == Some(DesignationRequest { request_id: expected_id, world_epoch, hit })
                &&& expected_id != 0
                &&& next == expected_id
                &&& s.mode == PointerMode::Armed
                &&& !s.exit_to_normal
            }
            &&& !left_just_released ==> s.request is None && next == id
            &&& (mode == PointerMode::Armed && left_just_pressed && cursor_grid is Some && !left_just_released) ==> s.mode
                == (PointerMode::Captured { grid: cursor_grid.unwrap() })
        }),
{
}

/// Blocked world input and a right click never emit a request nor use an
/// id; a right click on the active tool turns it off and returns play to
/// normal.
pub proof fn law_blocked_or_right_click_emits_nothing(
    mode: PointerMode,
    world_input_blocked: bool,
    right_just_pressed: bool,
    left_just_pressed: bool,
    left_just_released: bool,
    cursor_grid: Option<Grid>,
    hit: Option<EntityId>,
    world_epoch: u64,
    id: u64,
)
    requires
        world_input_blocked || right_just_pressed,
    ensures
        ({
            let (s, next) = spec_input_step(mode, world_input_blocked, right_just_pressed, left_just_pressed,
                left_just_released, cursor_grid, hit, world_epoch, id);
            &&& s.request is None
            &&& next == id
            &&& (mode != PointerMode::Off && !world_input_blocked) ==> s.mode == PointerMode::Off && s.exit_to_normal
        }),
{
}

/// A designation names the building root that the eligibility verdict
/// resolved, never merely the entity the pointer hit: a `Designated` answer
/// carries exactly the evaluated root and kind. Which entity was hit does not
/// change the answer, as long as some entity was.
pub proof fn law_designation_targets_the_evaluated_root(
    current_epoch: u64,
    r: DesignationRequest,
    f: DesignationTargetFacts,
    other_hit: EntityId,
)
    ensures
        spec_designation(current_epoch, r, f) matches DesignationResult::Designated { target, kind } ==> f.evaluated
            == Ok::<(EntityId, BuildingType), DeconstructionRejectReason>((target, kind)),
        r.hit is Some ==> spec_designation(current_epoch, r, f) == spec_designation(
            current_epoch,
            DesignationRequest { hit: Some(other_hit), ..r },
            f,
        ),
{
}

} // verus!
