//! Completion of blueprints into buildings and their presentation.
//!
//! A building is presented either by an owner-linked 3D visual (structural
//! kinds) or by a 2D sprite (foreground kinds), never both. Walls and doors
//! carry a light anchor tag that packs their grid cell, facing and policy.

use vstd::prelude::*;
use crate::grid::{EntityId, Grid};
use crate::decon::BuildingType;

verus! {

/// How a building kind is presented.
#[derive(Debug, Clone, Copy, PartialEq, Eq, Structural)]
pub enum RenderPresentationClass {
    Structural3d,
    Foreground2d,
}

pub open spec fn spec_presentation_class(kind: BuildingType) -> RenderPresentationClass {
    match kind {
        BuildingType::Wall | BuildingType::Door | BuildingType::Floor | BuildingType::Bridge | BuildingType::Tank
        | BuildingType::MudMixer | BuildingType::RestArea | BuildingType::SoulSpa => RenderPresentationClass::Structural3d,
        BuildingType::SandPile | BuildingType::BonePile | BuildingType::WheelbarrowParking
        | BuildingType::OutdoorLamp => RenderPresentationClass::Foreground2d,
    }
}

/// The presentation class of a building kind.
pub fn presentation_class(kind: BuildingType) -> (c: RenderPresentationClass)
    ensures
        c == spec_presentation_class(kind),
{
    match kind {
        BuildingType::Wall | BuildingType::Door | BuildingType::Floor | BuildingType::Bridge | BuildingType::Tank
        | BuildingType::MudMixer | BuildingType::RestArea | BuildingType::SoulSpa => RenderPresentationClass::Structural3d,
        BuildingType::SandPile | BuildingType::BonePile | BuildingType::WheelbarrowParking
        | BuildingType::OutdoorLamp => RenderPresentationClass::Foreground2d,
    }
}

/// The 2D layer a building's sprite sits on.
#[derive(Debug, Clone, Copy, PartialEq, Eq, Structural)]
pub enum VisualLayerKind {
    Floor,
    Struct,
}

/// Ground-level kinds sit on the floor layer, the rest on the structure
/// layer.
pub fn visual_layer_kind(kind: BuildingType) -> (l: VisualLayerKind)
    ensures
        l == (if kind == BuildingType::Floor || kind == BuildingType::SandPile || kind == BuildingType::BonePile {
            VisualLayerKind::Floor
        } else {
            VisualLayerKind::Struct
        }),
{
    match kind {
        BuildingType::Floor | BuildingType::SandPile | BuildingType::BonePile => VisualLayerKind::Floor,
        _ => VisualLayerKind::Struct,
    }
}

/// The initial presentation state of a 2x2 equipment visual.
#[derive(Debug, Clone, Copy, PartialEq, Eq, Structural)]
pub enum StructuralPresentationState {
    TankEmpty,
    MixerIdle,
    Neutral,
}

/// The 3D visual spawned for a structural building.
#[derive(Debug, Clone, Copy, PartialEq, Eq, Structural)]
pub enum StructuralVisual {
    /// The wall mesh, with the provisional or the completed material, and a
    /// light anchor tag.
    Wall { provisional: bool },
    /// The closed door mesh with a light anchor tag.
    Door,
    Floor,
    /// The 2x2 equipment mesh in its initial state.
    Equipment { state: StructuralPresentationState },
    Bridge,
}

pub open spec fn spec_structural_visual(kind: BuildingType, is_provisional: bool) -> Option<StructuralVisual> {
    match kind {
        BuildingType::Wall => Some(StructuralVisual::Wall { provisional: is_provisional }),
        BuildingType::Door => Some(StructuralVisual::Door),
        BuildingType::Floor => Some(StructuralVisual::Floor),
        BuildingType::Tank => Some(StructuralVisual::Equipment { state: StructuralPresentationState::TankEmpty }),
        BuildingType::MudMixer => Some(StructuralVisual::Equipment { state: StructuralPresentationState::MixerIdle }),
        BuildingType::RestArea | BuildingType::SoulSpa => Some(StructuralVisual::Equipment { state: StructuralPresentationState::Neutral }),
        BuildingType::Bridge => Some(StructuralVisual::Bridge),
        _ => None,
    }
}

/// The 3D visual of a building, none for a foreground kind.
pub fn structural_visual(kind: BuildingType, is_provisional: bool) -> (v: Option<StructuralVisual>)
    ensures
        v == spec_structural_visual(kind, is_provisional),
        v is None <==> spec_presentation_class(kind) == RenderPresentationClass::Foreground2d,
{
    match kind {
        BuildingType::Wall => Some(StructuralVisual::Wall { provisional: is_provisional }),
        BuildingType::Door => Some(StructuralVisual::Door),
        BuildingType::Floor => Some(StructuralVisual::Floor),
        BuildingType::Tank => Some(StructuralVisual::Equipment { state: StructuralPresentationState::TankEmpty }),
        BuildingType::MudMixer => Some(StructuralVisual::Equipment { state: StructuralPresentationState::MixerIdle }),
        BuildingType::RestArea | BuildingType::SoulSpa => Some(StructuralVisual::Equipment { state: StructuralPresentationState::Neutral }),
        BuildingType::Bridge => Some(StructuralVisual::Bridge),
        _ => None,
    }
}

/// Set in every light anchor tag.
pub const LIGHT_ANCHOR_PRESENT: u32 = 0x8000_0000;
/// Where the anchor policy sits in a tag.
pub const LIGHT_ANCHOR_POLICY_SHIFT: u32 = 18;
pub const LIGHT_ANCHOR_POLICY_WALL: u32 = 1;
pub const LIGHT_ANCHOR_POLICY_DOOR: u32 = 2;

/// The anchor policy of a kind: walls and doors only.
pub open spec fn anchor_policy(kind: BuildingType) -> Option<u32> {
    match kind {
        BuildingType::Wall => Some(LIGHT_ANCHOR_POLICY_WALL),
        BuildingType::Door => Some(LIGHT_ANCHOR_POLICY_DOOR),
        _ => None,
    }
}

/// The light anchor tag of a wall or door on `grid`, facing `direction`
/// (0 north, 1 east, 2 south, 3 west): present bit, x in bits 0..8, y in
/// bits 8..16, direction in bits 16..18 and policy above. None for other
/// kinds and for cells outside `0..=255` on either axis.
pub fn light_anchor_tag(kind: BuildingType, grid: Grid, direction: u32) -> (r: Option<u32>)
    requires
        direction < 4,
    ensures
        match anchor_policy(kind) {
            None => r is None,
            Some(policy) => if 0 <= grid.0 <= 255 && 0 <= grid.1 <= 255 {
                &&& r matches Some(tag)
                &&& tag & LIGHT_ANCHOR_PRESENT != 0
                &&& tag & 0xff == grid.0
                &&& (tag >> 8u32) & 0xff == grid.1
                &&& (tag >> 16u32) & 0x3 == direction
                &&& (tag >> LIGHT_ANCHOR_POLICY_SHIFT) & 0x3 == policy
                &&& tag == LIGHT_ANCHOR_PRESENT | (grid.0 as u32) | ((grid.1 as u32) << 8u32) | (direction << 16u32)
                    | (policy << LIGHT_ANCHOR_POLICY_SHIFT)
            } else {
                r is None
            },
        },
{
    let policy: u32 = match kind {
        BuildingType::Wall => LIGHT_ANCHOR_POLICY_WALL,
        BuildingType::Door => LIGHT_ANCHOR_POLICY_DOOR,
        _ => return None,
    };
    if grid.0 < 0 || grid.1 < 0 || grid.0 > 255 || grid.1 > 255 {
        return None;
    }
    let x = grid.0 as u32;
    let y = grid.1 as u32;
    let tag = 0x8000_0000u32 | x | (y << 8u32) | (direction << 16u32) | (policy << 18u32);
    proof {
        assert(policy == 1 || policy == 2);
        assert(x <= 255 && y <= 255 && direction < 4 && 1 <= policy <= 2 ==> {
            let t = 0x8000_0000u32 | x | (y << 8u32) | (direction << 16u32) | (policy << 18u32);
            &&& t & 0x8000_0000u32 != 0
            &&& t & 0xff == x
            &&& (t >> 8u32) & 0xff == y
            &&& (t >> 16u32) & 0x3 == direction
            &&& (t >> 18u32) & 0x3 == policy
        }) by (bit_vector);
    }
    Some(tag)
}

/// The blueprint and world facts a building commit reads.
#[derive(Debug, PartialEq, Eq)]
pub struct BlueprintCommitFacts {
    pub blueprint: EntityId,
    pub kind: BuildingType,
    /// The blueprint still exists.
    pub exists: bool,
    pub materials_complete: bool,
    /// Its build progress reached one.
    pub progress_complete: bool,
    pub occupied_grids: Vec<Grid>,
    pub cancel_requested: bool,
    pub has_transform: bool,
    /// The map validates that the blueprint owns every occupied cell.
    pub footprint_owned: bool,
    /// Bucket storages waiting to belong to this blueprint.
    pub pending_storages: Vec<EntityId>,
    /// Obstacles, each with the `ChildOf` parent it has.
    pub obstacles: Vec<ObstacleParentFacts>,
}

/// An obstacle and its hierarchy parent.
#[derive(Debug, Clone, Copy, PartialEq, Eq)]
pub struct ObstacleParentFacts {
    pub grid: Grid,
    pub parent: Option<EntityId>,
}

/// What completing a blueprint does beyond spawning the building.
#[derive(Debug, PartialEq, Eq)]
pub struct BuildingCommitPlan {
    /// Storages that start belonging to the new building (tanks only).
    pub promoted_storages: Vec<EntityId>,
    /// Occupied cells that keep an obstacle of another entity.
    pub remaining_blockers: Vec<Grid>,
}

/// Whether a blueprint can complete now.
pub open spec fn building_commit_ok(f: BlueprintCommitFacts) -> bool {
    f.exists && f.materials_complete && f.progress_complete && f.occupied_grids@.len() > 0 && !f.cancel_requested
        && f.has_transform && f.footprint_owned
}

/// The occupied cells that hold an obstacle not parented to the blueprint,
/// in obstacle order.
pub open spec fn blockers_of(obs: Seq<ObstacleParentFacts>, bp: EntityId, occupied: Seq<Grid>) -> Seq<Grid>
    decreases obs.len(),
{
    if obs.len() == 0 {
        Seq::empty()
    } else {
        let rest = blockers_of(obs.drop_last(), bp, occupied);
        let o = obs.last();
        if o.parent != Some(bp) && occupied.contains(o.grid) { rest.push(o.grid) } else { rest }
    }
}

fn grid_listed(v: &Vec<Grid>, g: Grid) -> (b: bool)
    ensures
        b == v@.contains(g),
{
    let mut i: usize = 0;
    while i < v.len()
        invariant
            i <= v@.len(),
            forall|j: int| 0 <= j < i ==> v@[j] != g,
        decreases v.len() - i,
    {
        if v[i].0 == g.0 && v[i].1 == g.1 {
            assert(v@[i as int] == g);
            return true;
        }
        i += 1;
    }
    false
}

/// Validates a completed blueprint at the commit boundary and plans what
/// moves with it; `None`, with nothing changed, when any check fails.
pub fn plan_building_commit(f: &BlueprintCommitFacts) -> (r: Option<BuildingCommitPlan>)
    ensures
        !building_commit_ok(*f) ==> r is None,
        building_commit_ok(*f) ==> (r matches Some(p)
            && p.promoted_storages@ == (if f.kind == BuildingType::Tank { f.pending_storages@ } else { Seq::empty() })
            && p.remaining_blockers@ == blockers_of(f.obstacles@, f.blueprint, f.occupied_grids@)),
{
    if !f.exists || !f.materials_complete || !f.progress_complete || f.occupied_grids.len() == 0 || f.cancel_requested
        || !f.has_transform || !f.footprint_owned {
        return None;
    }
    let mut promoted: Vec<EntityId> = Vec::new();
    if f.kind == BuildingType::Tank {
        let mut i: usize = 0;
        while i < f.pending_storages.len()
            invariant
                i <= f.pending_storages@.len(),
                promoted@ == f.pending_storages@.take(i as int),
            decreases f.pending_storages.len() - i,
        {
            promoted.push(f.pending_storages[i]);
            i += 1;
            assert(promoted@ =~= f.pending_storages@.take(i as int));
        }
        assert(f.pending_storages@.take(f.pending_storages@.len() as int) =~= f.pending_storages@);
    }
    let mut blockers: Vec<Grid> = Vec::new();
    let mut k: usize = 0;
    while k < f.obstacles.len()
        invariant
            k <= f.obstacles@.len(),
            blockers@ == blockers_of(f.obstacles@.take(k as int), f.blueprint, f.occupied_grids@),
        decreases f.obstacles.len() - k,
    {
        assert(f.obstacles@.take(k + 1).drop_last() =~= f.obstacles@.take(k as int));
        let o = f.obstacles[k];
        if o.parent != Some(f.blueprint) && grid_listed(&f.occupied_grids, o.grid) {
            blockers.push(o.grid);
        }
        k += 1;
    }
    assert(f.obstacles@.take(f.obstacles@.len() as int) =~= f.obstacles@);
    Some(BuildingCommitPlan { promoted_storages: promoted, remaining_blockers: blockers })
}

} // verus!
