//! Light fixtures: the durable mount of an outdoor lamp and the runtime
//! emitter derived from it, kept in step with the completed building, and
//! the validation of fixture mounts in a loaded world.

use vstd::prelude::*;
use crate::grid::{EntityId, Grid};
use crate::decon::BuildingType;
use crate::light_input::{CardinalDirection, FixtureMount};

verus! {

/// The durable fixture mount of a lamp.
#[derive(Debug, Clone, Copy, PartialEq, Eq, Structural)]
pub struct LightingFixtureMount(pub FixtureMount);

impl LightingFixtureMount {
    /// A free-standing mount at `grid`.
    pub fn free_standing(grid: Grid) -> (m: Self)
        ensures
            m == LightingFixtureMount(FixtureMount::FreeStanding { origin_x: grid.0, origin_y: grid.1 }),
    {
        LightingFixtureMount(FixtureMount::FreeStanding { origin_x: grid.0, origin_y: grid.1 })
    }

    pub fn mount(self) -> (m: FixtureMount)
        ensures
            m == self.0,
    {
        self.0
    }
}

/// A linear RGB color.
#[derive(Debug, Clone, Copy, PartialEq, Eq, Structural)]
pub struct LightRgbLinear {
    pub r: u16,
    pub g: u16,
    pub b: u16,
}

/// A fixture's contribution to the indoor light field.
#[derive(Debug, Clone, Copy, PartialEq, Eq, Structural)]
pub struct RadialLightEmitter {
    pub mount: FixtureMount,
    pub radius_tiles: u16,
    pub color: LightRgbLinear,
    pub intensity: u16,
}

/// An outdoor lamp's emitter at a mount: radius 5, a warm color, full
/// intensity.
pub open spec fn spec_outdoor_lamp_at_mount(mount: FixtureMount) -> RadialLightEmitter {
    RadialLightEmitter {
        mount,
        radius_tiles: 5,
        color: LightRgbLinear { r: 0xffff, g: 49_151, b: 32_767 },
        intensity: 0xffff,
    }
}

impl RadialLightEmitter {
    /// An outdoor lamp standing free at `grid`.
    pub fn outdoor_lamp(grid: Grid) -> (e: Self)
        ensures
            e == spec_outdoor_lamp_at_mount(FixtureMount::FreeStanding { origin_x: grid.0, origin_y: grid.1 }),
    {
        Self::outdoor_lamp_at_mount(LightingFixtureMount::free_standing(grid).mount())
    }

    /// An outdoor lamp at `mount`.
    pub fn outdoor_lamp_at_mount(mount: FixtureMount) -> (e: Self)
        ensures
            e == spec_outdoor_lamp_at_mount(mount),
    {
        RadialLightEmitter {
            mount,
            radius_tiles: 5,
            color: LightRgbLinear { r: 0xffff, g: 49_151, b: 32_767 },
            intensity: 0xffff,
        }
    }
}

/// What keeping a lamp's mount and emitter in step inserts.
#[derive(Debug, Clone, Copy, PartialEq, Eq, Structural)]
pub enum LampSync {
    Nothing,
    Both { mount: LightingFixtureMount, emitter: RadialLightEmitter },
    Mount { mount: LightingFixtureMount },
    Emitter { emitter: RadialLightEmitter },
}

/// The mount a completed lamp should have: its wall mount if it has one,
/// otherwise free-standing on its own cell.
pub open spec fn desired_mount(grid: Grid, current: Option<LightingFixtureMount>) -> FixtureMount {
    match current {
        Some(LightingFixtureMount(FixtureMount::WallMounted { anchor_x, anchor_y, inward })) => FixtureMount::WallMounted { anchor_x, anchor_y, inward },
        _ => FixtureMount::FreeStanding { origin_x: grid.0, origin_y: grid.1 },
    }
}

/// Keeps a completed outdoor lamp's durable mount and runtime emitter in
/// step with its cell; other buildings are left alone.
pub fn sync_outdoor_lamp(
    kind: BuildingType,
    is_provisional: bool,
    grid: Grid,
    mount: Option<LightingFixtureMount>,
    emitter: Option<RadialLightEmitter>,
) -> (s: LampSync)
    ensures
        ({
            let dm = LightingFixtureMount(desired_mount(grid, mount));
            let de = spec_outdoor_lamp_at_mount(desired_mount(grid, mount));
            let mount_changed = mount != Some(dm);
            let emitter_changed = emitter != Some(de);
            s == if kind != BuildingType::OutdoorLamp || is_provisional {
                LampSync::Nothing
            } else if mount_changed && emitter_changed {
                LampSync::Both { mount: dm, emitter: de }
            } else if mount_changed {
                LampSync::Mount { mount: dm }
            } else if emitter_changed {
                LampSync::Emitter { emitter: de }
            } else {
                LampSync::Nothing
            }
        }),
{
    if kind != BuildingType::OutdoorLamp || is_provisional {
        return LampSync::Nothing;
    }
    let desired = match mount {
        Some(LightingFixtureMount(FixtureMount::WallMounted { anchor_x, anchor_y, inward })) => FixtureMount::WallMounted { anchor_x, anchor_y, inward },
        _ => LightingFixtureMount::free_standing(grid).mount(),
    };
    let adapter = LightingFixtureMount(desired);
    let wanted = RadialLightEmitter::outdoor_lamp_at_mount(desired);
    let mount_changed = match mount {
        Some(m) => m != adapter,
        None => true,
    };
    let emitter_changed = match emitter {
        Some(e) => e != wanted,
        None => true,
    };
    if mount_changed && emitter_changed {
        LampSync::Both { mount: adapter, emitter: wanted }
    } else if mount_changed {
        LampSync::Mount { mount: adapter }
    } else if emitter_changed {
        LampSync::Emitter { emitter: wanted }
    } else {
        LampSync::Nothing
    }
}

/// The mount a loaded completed lamp without one gets: free-standing on
/// its cell. Other buildings and lamps with a mount get none.
pub fn normalized_mount(kind: BuildingType, is_provisional: bool, has_mount: bool, grid: Grid) -> (m: Option<LightingFixtureMount>)
    ensures
        m == (if kind == BuildingType::OutdoorLamp && !is_provisional && !has_mount {
            Some(LightingFixtureMount(FixtureMount::FreeStanding { origin_x: grid.0, origin_y: grid.1 }))
        } else {
            None
        }),
{
    if kind == BuildingType::OutdoorLamp && !is_provisional && !has_mount {
        Some(LightingFixtureMount::free_standing(grid))
    } else {
        None
    }
}

/// The emitter a loaded completed lamp is rebuilt with.
pub fn rebuilt_emitter(kind: BuildingType, is_provisional: bool, mount: LightingFixtureMount) -> (e: Option<RadialLightEmitter>)
    ensures
        e == (if kind == BuildingType::OutdoorLamp && !is_provisional { Some(spec_outdoor_lamp_at_mount(mount.0)) } else { None }),
{
    if kind == BuildingType::OutdoorLamp && !is_provisional {
        Some(RadialLightEmitter::outdoor_lamp_at_mount(mount.mount()))
    } else {
        None
    }
}

/// Which cell of a mount was outside the world map.
#[derive(Debug, Clone, Copy, PartialEq, Eq, Structural)]
pub enum MountCellLabel {
    FixtureOrigin,
    WallAnchor,
}

/// Why a loaded world's fixture mounts were refused.
#[derive(Debug, Clone, Copy, PartialEq, Eq)]
pub enum FixtureMountError {
    MapMissing,
    NoBuilding { owner: EntityId },
    NotCompletedLamp { owner: EntityId },
    NoTransform { owner: EntityId },
    OutsideMap { label: MountCellLabel, grid: Grid },
    TransformMismatch { owner: EntityId, transform: Grid, origin: Grid },
    NotMapOwner { owner: EntityId, grid: Grid },
    NoAnchor { owner: EntityId, anchor: Grid },
    MissingAnchor { owner: EntityId, anchor: EntityId },
    AnchorNotWall { owner: EntityId, anchor: EntityId },
}

/// The anchor wall of a wall mount, as the world holds it.
#[derive(Debug, Clone, Copy, PartialEq, Eq)]
pub struct AnchorFacts {
    /// The building the map records on the anchor cell.
    pub map_building: Option<EntityId>,
    /// That entity exists.
    pub exists: bool,
    /// Its building kind and provisional flag.
    pub building: Option<(BuildingType, bool)>,
    pub has_provisional_wall_marker: bool,
}

/// An entity with a fixture mount, as a loaded world holds it.
#[derive(Debug, Clone, Copy, PartialEq, Eq)]
pub struct FixtureCandidateFacts {
    pub entity: EntityId,
    pub mount: FixtureMount,
    /// The origin cell of the mount.
    pub origin: Grid,
    pub building: Option<(BuildingType, bool)>,
    /// The cell of its transform.
    pub transform_grid: Option<Grid>,
    /// The building the map records on its transform cell.
    pub map_building_at_transform: Option<EntityId>,
    /// For a wall mount, its anchor.
    pub anchor: AnchorFacts,
}

/// The cell lies in the world map.
pub open spec fn in_map(g: Grid, width: i32, height: i32) -> bool {
    0 <= g.0 < width && 0 <= g.1 < height
}

/// Checks that a cell lies in the world map.
pub fn validate_grid(label: MountCellLabel, grid: Grid, width: i32, height: i32) -> (r: Result<(), FixtureMountError>)
    ensures
        in_map(grid, width, height) ==> r is Ok,
        !in_map(grid, width, height) ==> r == Err::<(), FixtureMountError>(FixtureMountError::OutsideMap { label, grid }),
{
    if 0 <= grid.0 && grid.0 < width && 0 <= grid.1 && grid.1 < height {
        Ok(())
    } else {
        Err(FixtureMountError::OutsideMap { label, grid })
    }
}

/// The first problem with one fixture, in the order the checks run.
pub open spec fn fixture_error(c: FixtureCandidateFacts, width: i32, height: i32) -> Option<FixtureMountError> {
    match c.building {
        None => Some(FixtureMountError::NoBuilding { owner: c.entity }),
        Some((kind, prov)) => if kind != BuildingType::OutdoorLamp || prov {
            Some(FixtureMountError::NotCompletedLamp { owner: c.entity })
        } else {
            match c.transform_grid {
                None => Some(FixtureMountError::NoTransform { owner: c.entity }),
                Some(t) => if !in_map(c.origin, width, height) {
                    Some(FixtureMountError::OutsideMap { label: MountCellLabel::FixtureOrigin, grid: c.origin })
                } else if t != c.origin {
                    Some(FixtureMountError::TransformMismatch { owner: c.entity, transform: t, origin: c.origin })
                } else if c.map_building_at_transform != Some(c.entity) {
                    Some(FixtureMountError::NotMapOwner { owner: c.entity, grid: t })
                } else {
                    match c.mount {
                        FixtureMount::FreeStanding { .. } => None,
                        FixtureMount::WallMounted { anchor_x, anchor_y, .. } => {
                            let a = (anchor_x, anchor_y);
                            if !in_map(a, width, height) {
                                Some(FixtureMountError::OutsideMap { label: MountCellLabel::WallAnchor, grid: a })
                            } else {
                                match c.anchor.map_building {
                                    None => Some(FixtureMountError::NoAnchor { owner: c.entity, anchor: a }),
                                    Some(w) => if !c.anchor.exists {
                                        Some(FixtureMountError::MissingAnchor { owner: c.entity, anchor: w })
                                    } else if !(c.anchor.building matches Some((k, p)) && k == BuildingType::Wall && !p)
                                        || c.anchor.has_provisional_wall_marker {
                                        Some(FixtureMountError::AnchorNotWall { owner: c.entity, anchor: w })
                                    } else {
                                        None
                                    },
                                }
                            }
                        },
                    }
                },
            }
        },
    }
}

/// The first problem among the fixtures, in order.
pub open spec fn first_fixture_error(cs: Seq<FixtureCandidateFacts>, width: i32, height: i32) -> Option<FixtureMountError>
    decreases cs.len(),
{
    if cs.len() == 0 {
        None
    } else {
        match fixture_error(cs[0], width, height) {
            Some(e) => Some(e),
            None => first_fixture_error(cs.drop_first(), width, height),
        }
    }
}

fn check_fixture(c: &FixtureCandidateFacts, width: i32, height: i32) -> (r: Option<FixtureMountError>)
    ensures
        r == fixture_error(*c, width, height),
{
    let (kind, prov) = match c.building {
        None => return Some(FixtureMountError::NoBuilding { owner: c.entity }),
        Some(b) => b,
    };
    if kind != BuildingType::OutdoorLamp || prov {
        return Some(FixtureMountError::NotCompletedLamp { owner: c.entity });
    }
    let t = match c.transform_grid {
        None => return Some(FixtureMountError::NoTransform { owner: c.entity }),
        Some(t) => t,
    };
    if let Err(e) = validate_grid(MountCellLabel::FixtureOrigin, c.origin, width, height) {
        return Some(e);
    }
    if t.0 != c.origin.0 || t.1 != c.origin.1 {
        return Some(FixtureMountError::TransformMismatch { owner: c.entity, transform: t, origin: c.origin });
    }
    if c.map_building_at_transform != Some(c.entity) {
        return Some(FixtureMountError::NotMapOwner { owner: c.entity, grid: t });
    }
    match c.mount {
        FixtureMount::FreeStanding { .. } => None,
        FixtureMount::WallMounted { anchor_x, anchor_y, .. } => {
            let a = (anchor_x, anchor_y);
            if let Err(e) = validate_grid(MountCellLabel::WallAnchor, a, width, height) {
                return Some(e);
            }
            match c.anchor.map_building {
                None => Some(FixtureMountError::NoAnchor { owner: c.entity, anchor: a }),
                Some(w) => {
                    if !c.anchor.exists {
                        return Some(FixtureMountError::MissingAnchor { owner: c.entity, anchor: w });
                    }
                    let is_wall = match c.anchor.building {
                        Some((k, p)) => k == BuildingType::Wall && !p,
                        None => false,
                    };
                    if !is_wall || c.anchor.has_provisional_wall_marker {
                        Some(FixtureMountError::AnchorNotWall { owner: c.entity, anchor: w })
                    } else {
                        None
                    }
                },
            }
        },
    }
}

/// Validates the fixture mounts of a loaded world: each must sit on a
/// completed outdoor lamp that the map records on its origin cell, and a
/// wall mount must hang on a completed wall. The first problem is returned.
pub fn validate_fixture_mount_candidate(
    map_present: bool,
    fixtures: &Vec<FixtureCandidateFacts>,
    width: i32,
    height: i32,
) -> (r: Result<(), FixtureMountError>)
    ensures
        !map_present ==> r == Err::<(), FixtureMountError>(FixtureMountError::MapMissing),
        map_present ==> r == match first_fixture_error(fixtures@, width, height) {
            Some(e) => Err::<(), FixtureMountError>(e),
            None => Ok(()),
        },
{
    if !map_present {
        return Err(FixtureMountError::MapMissing);
    }
    let mut i: usize = 0;
    assert(fixtures@.skip(0) =~= fixtures@);
    while i < fixtures.len()
        invariant
            i <= fixtures@.len(),
            map_present,
            first_fixture_error(fixtures@, width, height) == first_fixture_error(fixtures@.skip(i as int), width, height),
        decreases fixtures.len() - i,
    {
        assert(fixtures@.skip(i as int)[0] == fixtures@[i as int]);
        assert(fixtures@.skip(i as int).drop_first() =~= fixtures@.skip(i + 1));
        match check_fixture(&fixtures[i], width, height) {
            Some(e) => return Err(e),
            None => {},
        }
        i += 1;
    }
    Ok(())
}

} // verus!
