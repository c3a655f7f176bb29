//! Collection of the light field's input from walls, doors, the room mask
//! and supplied outdoor lamps.
//!
//! Every failure names what was wrong: a cell outside the field, a door or
//! emitter on the wrong kind of building, two occluders on one cell, an
//! emitter whose transform disagrees with its mount, or an overflowing
//! count or key.

use vstd::prelude::*;
use crate::grid::Grid;
use crate::decon::BuildingType;
use crate::sort::{KeyOrder, sort_by_key, sorted_by_key};

verus! {

/// Width and height of the light field in cells.
#[derive(Debug, Clone, Copy, PartialEq, Eq, Structural)]
pub struct GridDimensions {
    pub width: u16,
    pub height: u16,
}

/// Whether a cell lies inside the field.
pub open spec fn in_field(d: GridDimensions, p: Grid) -> bool {
    0 <= p.0 < d.width && 0 <= p.1 < d.height
}

/// Row-major index of a cell inside the field.
pub open spec fn cell_index(d: GridDimensions, p: Grid) -> int {
    p.1 * d.width + p.0
}

/// Number of cells of the field.
pub open spec fn field_area(d: GridDimensions) -> int {
    d.width * d.height
}

proof fn lemma_index_in_area(d: GridDimensions, p: Grid)
    requires
        in_field(d, p),
    ensures
        0 <= cell_index(d, p) < field_area(d),
{
    assert(p.1 * d.width + p.0 < (p.1 + 1) * d.width) by (nonlinear_arith)
        requires
            0 <= p.0 < d.width,
    ;
    assert((p.1 + 1) * d.width <= d.height * d.width) by (nonlinear_arith)
        requires
            0 <= p.1 < d.height,
            0 <= d.width,
    ;
    assert(0 <= p.1 * d.width) by (nonlinear_arith)
        requires
            0 <= p.1,
            0 <= d.width,
    ;
}

proof fn lemma_index_injective(d: GridDimensions, p: Grid, q: Grid)
    requires
        in_field(d, p),
        in_field(d, q),
        cell_index(d, p) == cell_index(d, q),
    ensures
        p == q,
{
    if p.1 < q.1 {
        assert(p.1 * d.width + p.0 < q.1 * d.width) by (nonlinear_arith)
            requires
                0 <= p.0 < d.width,
                p.1 < q.1,
        ;
        assert(q.1 * d.width <= q.1 * d.width + q.0);
    } else if q.1 < p.1 {
        assert(q.1 * d.width + q.0 < p.1 * d.width) by (nonlinear_arith)
            requires
                0 <= q.0 < d.width,
                q.1 < p.1,
        ;
    }
}

fn index_of(d: GridDimensions, p: Grid) -> (i: usize)
    requires
        in_field(d, p),
    ensures
        i == cell_index(d, p),
{
    proof {
        lemma_index_in_area(d, p);
        assert(field_area(d) <= 65535 * 65535) by (nonlinear_arith)
            requires
                d.width <= 65535,
                d.height <= 65535,
        ;
    }
    (p.1 as usize) * (d.width as usize) + (p.0 as usize)
}

fn contains_cell(d: GridDimensions, p: Grid) -> (b: bool)
    ensures
        b == in_field(d, p),
{
    0 <= p.0 && p.0 < d.width as i32 && 0 <= p.1 && p.1 < d.height as i32
}

/// Where a cell outside the field came from.
#[derive(Debug, Clone, Copy, PartialEq, Eq, Structural)]
pub enum InputSource {
    Wall,
    Door,
    RoomMask,
    Emitter,
    EmitterMount,
}

/// Why the field input could not be collected.
#[derive(Debug, Clone, Copy, PartialEq, Eq)]
pub enum RuntimeInputError {
    /// A `Door` component is not on a completed door building.
    InvalidDoorRoot,
    /// An emitter is not on a completed outdoor lamp.
    InvalidEmitterOwner,
    /// A cell lies outside the field.
    OutOfBounds { source: InputSource, position: Grid },
    /// Two occluders share a cell (the first such cell in `(y, x)` order).
    DuplicateOcclusionCell(Grid),
    /// An emitter's transform cell is not its mount's origin.
    EmitterTransformMismatch { transform: Grid, mount: Grid },
    /// An emitter's stable key does not fit in `u64`.
    StableKeyOverflow,
    /// A count does not fit in `u32`.
    CountOverflow,
}

/// What a cell does to light.
#[derive(Debug, Clone, Copy, PartialEq, Eq, Structural)]
pub enum OcclusionCell {
    Clear,
    ProvisionalWall,
    CompletedWall,
    OpenDoor,
    ClosedDoor,
    LockedDoor,
}

/// A door's state.
#[derive(Debug, Clone, Copy, PartialEq, Eq, Structural)]
pub enum DoorState {
    Open,
    Closed,
    Locked,
}

/// The inward direction of a wall-mounted fixture.
#[derive(Debug, Clone, Copy, PartialEq, Eq, Structural)]
pub enum CardinalDirection {
    North,
    East,
    South,
    West,
}

/// Where a light fixture is mounted.
#[derive(Debug, Clone, Copy, PartialEq, Eq, Structural)]
pub enum FixtureMount {
    FreeStanding { origin_x: i32, origin_y: i32 },
    WallMounted { anchor_x: i32, anchor_y: i32, inward: CardinalDirection },
}

/// The cell a mount's key is anchored at: the origin of a free-standing
/// fixture, the wall of a wall-mounted one.
pub open spec fn mount_anchor(m: FixtureMount) -> Grid {
    match m {
        FixtureMount::FreeStanding { origin_x, origin_y } => (origin_x, origin_y),
        FixtureMount::WallMounted { anchor_x, anchor_y, .. } => (anchor_x, anchor_y),
    }
}

/// The tag of a mount kind in its stable key.
pub open spec fn mount_tag(m: FixtureMount) -> int {
    match m {
        FixtureMount::FreeStanding { .. } => 0,
        FixtureMount::WallMounted { inward: CardinalDirection::North, .. } => 1,
        FixtureMount::WallMounted { inward: CardinalDirection::East, .. } => 2,
        FixtureMount::WallMounted { inward: CardinalDirection::South, .. } => 3,
        FixtureMount::WallMounted { inward: CardinalDirection::West, .. } => 4,
    }
}

/// The stable key of an emitter: `8 * index(anchor) + tag`.
pub open spec fn spec_stable_emitter_key(d: GridDimensions, m: FixtureMount) -> Result<u64, RuntimeInputError> {
    let a = mount_anchor(m);
    if !in_field(d, a) {
        Err(RuntimeInputError::OutOfBounds { source: InputSource::EmitterMount, position: a })
    } else if cell_index(d, a) * 8 + mount_tag(m) > u64::MAX {
        Err(RuntimeInputError::StableKeyOverflow)
    } else {
        Ok((cell_index(d, a) * 8 + mount_tag(m)) as u64)
    }
}

/// Computes an emitter's stable key.
pub fn stable_emitter_key(d: GridDimensions, m: FixtureMount) -> (r: Result<u64, RuntimeInputError>)
    ensures
        r == spec_stable_emitter_key(d, m),
{
    let a = match m {
        FixtureMount::FreeStanding { origin_x, origin_y } => (origin_x, origin_y),
        FixtureMount::WallMounted { anchor_x, anchor_y, .. } => (anchor_x, anchor_y),
    };
    if !contains_cell(d, a) {
        return Err(RuntimeInputError::OutOfBounds { source: InputSource::EmitterMount, position: a });
    }
    let index = index_of(d, a) as u64;
    let tag: u64 = match m {
        FixtureMount::FreeStanding { .. } => 0,
        FixtureMount::WallMounted { inward: CardinalDirection::North, .. } => 1,
        FixtureMount::WallMounted { inward: CardinalDirection::East, .. } => 2,
        FixtureMount::WallMounted { inward: CardinalDirection::South, .. } => 3,
        FixtureMount::WallMounted { inward: CardinalDirection::West, .. } => 4,
    };
    match index.checked_mul(8) {
        Some(base) => match base.checked_add(tag) {
            Some(key) => Ok(key),
            None => Err(RuntimeInputError::StableKeyOverflow),
        },
        None => Err(RuntimeInputError::StableKeyOverflow),
    }
}

/// A wall or other building, for the occlusion grid.
#[derive(Debug, Clone, Copy, PartialEq, Eq)]
pub struct BuildingLightFacts {
    pub kind: BuildingType,
    pub is_provisional: bool,
    /// Grid cell of its transform.
    pub grid: Grid,
}

/// An entity with a `Door` component.
#[derive(Debug, Clone, Copy, PartialEq, Eq)]
pub struct DoorLightFacts {
    pub kind: BuildingType,
    pub is_provisional: bool,
    pub state: DoorState,
    pub grid: Grid,
}

/// An entity with a `RadialLightEmitter`.
#[derive(Debug, Clone, Copy, PartialEq, Eq)]
pub struct EmitterLightFacts {
    pub mount: FixtureMount,
    /// The origin cell of the mount.
    pub mount_origin: Grid,
    pub radius_tiles: u16,
    pub color: (u16, u16, u16),
    pub intensity: u16,
    /// Grid cell of its transform.
    pub grid: Grid,
    /// Its power supply state is `Supplied`.
    pub supplied: bool,
    /// The building it sits on.
    pub owner: Option<(BuildingType, bool)>,
}

/// A supplied emitter in the field input.
#[derive(Debug, Clone, Copy, PartialEq, Eq)]
pub struct EmitterSnapshot {
    pub stable_key: u64,
    pub mount: FixtureMount,
    pub radius_tiles: u16,
    pub color: (u16, u16, u16),
    pub intensity: u16,
}

impl KeyOrder for EmitterSnapshot {
    open spec fn key_le(self, other: Self) -> bool {
        self.stable_key <= other.stable_key
    }

    proof fn key_le_total(a: Self, b: Self) {
    }

    proof fn key_le_transitive(a: Self, b: Self, c: Self) {
    }

    fn le(&self, other: &Self) -> (r: bool) {
        self.stable_key <= other.stable_key
    }
}

/// The light field's input, collected from the world.
#[derive(Debug, Clone, PartialEq, Eq)]
pub struct CollectedLightInput {
    pub dimensions: GridDimensions,
    /// One byte per cell, 1 for indoor cells.
    pub indoor_mask: Vec<u8>,
    /// One occlusion cell per cell.
    pub occlusion: Vec<OcclusionCell>,
    /// Supplied emitters, sorted by stable key.
    pub emitters: Vec<EmitterSnapshot>,
    pub typed_emitter_components: u32,
    pub eligible_supplied_emitters: u32,
}

/// An occluder and its cell.
#[derive(Debug, Clone, Copy, PartialEq, Eq, Structural)]
pub struct Occluder {
    pub x: i32,
    pub y: i32,
    pub cell: OcclusionCell,
}

pub open spec fn occluder_grid(o: Occluder) -> Grid {
    (o.x, o.y)
}

/// The occluders of the walls, in order; the first wall outside the field
/// is an error. Buildings of other kinds are skipped.
pub open spec fn wall_occluders(d: GridDimensions, b: Seq<BuildingLightFacts>) -> Result<Seq<Occluder>, RuntimeInputError>
    decreases b.len(),
{
    if b.len() == 0 {
        Ok(Seq::empty())
    } else {
        match wall_occluders(d, b.drop_last()) {
            Err(e) => Err(e),
            Ok(v) => {
                let w = b.last();
                if w.kind != BuildingType::Wall {
                    Ok(v)
                } else if !in_field(d, w.grid) {
                    Err(RuntimeInputError::OutOfBounds { source: InputSource::Wall, position: w.grid })
                } else {
                    Ok(v.push(Occluder {
                        x: w.grid.0,
                        y: w.grid.1,
                        cell: if w.is_provisional { OcclusionCell::ProvisionalWall } else { OcclusionCell::CompletedWall },
                    }))
                }
            },
        }
    }
}

/// The occluders of the doors, in order; a door not on a completed door
/// building, or outside the field, is an error.
pub open spec fn door_occluders(d: GridDimensions, s: Seq<DoorLightFacts>) -> Result<Seq<Occluder>, RuntimeInputError>
    decreases s.len(),
{
    if s.len() == 0 {
        Ok(Seq::empty())
    } else {
        match door_occluders(d, s.drop_last()) {
            Err(e) => Err(e),
            Ok(v) => {
                let w = s.last();
                if w.kind != BuildingType::Door || w.is_provisional {
                    Err(RuntimeInputError::InvalidDoorRoot)
                } else if !in_field(d, w.grid) {
                    Err(RuntimeInputError::OutOfBounds { source: InputSource::Door, position: w.grid })
                } else {
                    Ok(v.push(Occluder {
                        x: w.grid.0,
                        y: w.grid.1,
                        cell: match w.state {
                            DoorState::Open => OcclusionCell::OpenDoor,
                            DoorState::Closed => OcclusionCell::ClosedDoor,
                            DoorState::Locked => OcclusionCell::LockedDoor,
                        },
                    }))
                }
            },
        }
    }
}

/// `p` comes before `q` in `(y, x)` order, or is `q`.
pub open spec fn yx_le(p: Grid, q: Grid) -> bool {
    p.1 < q.1 || (p.1 == q.1 && p.0 <= q.0)
}

/// A cell that two occluders share.
pub open spec fn is_duplicate(t: Seq<Occluder>, p: Grid) -> bool {
    exists|i: int, j: int| 0 <= i < j < t.len() && occluder_grid(t[i]) == p && occluder_grid(t[j]) == p
}

/// The occlusion of a cell: its occluder, or clear.
pub open spec fn occlusion_at(d: GridDimensions, t: Seq<Occluder>, k: int) -> OcclusionCell {
    if exists|i: int| 0 <= i < t.len() && cell_index(d, occluder_grid(t[i])) == k {
        t[choose|i: int| 0 <= i < t.len() && cell_index(d, occluder_grid(t[i])) == k].cell
    } else {
        OcclusionCell::Clear
    }
}

/// Whether some room tile is the cell `k`.
pub open spec fn indoor_at(d: GridDimensions, tiles: Seq<Grid>, k: int) -> bool {
    exists|i: int| 0 <= i < tiles.len() && cell_index(d, tiles[i]) == k
}

/// The first room tile outside the field, if any.
pub open spec fn first_tile_outside(d: GridDimensions, tiles: Seq<Grid>) -> Option<Grid>
    decreases tiles.len(),
{
    if tiles.len() == 0 {
        None
    } else if !in_field(d, tiles[0]) {
        Some(tiles[0])
    } else {
        first_tile_outside(d, tiles.drop_first())
    }
}

/// The supplied emitters' snapshots, in order; the first bad emitter is an
/// error.
pub open spec fn emitter_snapshots(d: GridDimensions, e: Seq<EmitterLightFacts>) -> Result<Seq<EmitterSnapshot>, RuntimeInputError>
    decreases e.len(),
{
    if e.len() == 0 {
        Ok(Seq::empty())
    } else {
        match emitter_snapshots(d, e.drop_last()) {
            Err(err) => Err(err),
            Ok(v) => {
                let f = e.last();
                if !(f.owner matches Some((k, p)) && k == BuildingType::OutdoorLamp && !p) {
                    Err(RuntimeInputError::InvalidEmitterOwner)
                } else if !f.supplied {
                    Ok(v)
                } else if !in_field(d, f.grid) {
                    Err(RuntimeInputError::OutOfBounds { source: InputSource::Emitter, position: f.grid })
                } else if f.grid != f.mount_origin {
                    Err(RuntimeInputError::EmitterTransformMismatch { transform: f.grid, mount: f.mount_origin })
                } else {
                    match spec_stable_emitter_key(d, f.mount) {
                        Err(err) => Err(err),
                        Ok(key) => Ok(v.push(EmitterSnapshot {
                            stable_key: key,
                            mount: f.mount,
                            radius_tiles: f.radius_tiles,
                            color: f.color,
                            intensity: f.intensity,
                        })),
                    }
                }
            },
        }
    }
}

/// The input's verdict, in the order the checks run: walls, doors,
/// duplicate occluders, room tiles, the emitter count, then the emitters.
pub open spec fn spec_collect_error(
    d: GridDimensions,
    buildings: Seq<BuildingLightFacts>,
    doors: Seq<DoorLightFacts>,
    room_tiles: Seq<Grid>,
    emitters: Seq<EmitterLightFacts>,
) -> Option<RuntimeInputError> {
    match wall_occluders(d, buildings) {
        Err(e) => Some(e),
        Ok(w) => match door_occluders(d, doors) {
            Err(e) => Some(e),
            Ok(dr) => {
                let t = w + dr;
                if exists|p: Grid| is_duplicate(t, p) {
                    Some(RuntimeInputError::DuplicateOcclusionCell(
                        choose|p: Grid| is_duplicate(t, p) && forall|q: Grid| is_duplicate(t, q) ==> yx_le(p, q),
                    ))
                } else if first_tile_outside(d, room_tiles) is Some {
                    Some(RuntimeInputError::OutOfBounds {
                        source: InputSource::RoomMask,
                        position: first_tile_outside(d, room_tiles).unwrap(),
                    })
                } else if emitters.len() > u32::MAX {
                    Some(RuntimeInputError::CountOverflow)
                } else {
                    match emitter_snapshots(d, emitters) {
                        Err(e) => Some(e),
                        Ok(s) => if s.len() > u32::MAX { Some(RuntimeInputError::CountOverflow) } else { None },
                    }
                }
            },
        },
    }
}


proof fn lemma_wall_err_stays(d: GridDimensions, s: Seq<BuildingLightFacts>, k: int)
    requires
        0 <= k <= s.len(),
        wall_occluders(d, s.take(k)) is Err,
    ensures
        wall_occluders(d, s) == wall_occluders(d, s.take(k)),
    decreases s.len() - k,
{
    if k < s.len() {
        assert(s.take(k + 1).drop_last() =~= s.take(k));
        lemma_wall_err_stays(d, s, k + 1);
    } else {
        assert(s.take(k) =~= s);
    }
}

proof fn lemma_door_err_stays(d: GridDimensions, s: Seq<DoorLightFacts>, k: int)
    requires
        0 <= k <= s.len(),
        door_occluders(d, s.take(k)) is Err,
    ensures
        door_occluders(d, s) == door_occluders(d, s.take(k)),
    decreases s.len() - k,
{
    if k < s.len() {
        assert(s.take(k + 1).drop_last() =~= s.take(k));
        lemma_door_err_stays(d, s, k + 1);
    } else {
        assert(s.take(k) =~= s);
    }
}

proof fn lemma_emitter_err_stays(d: GridDimensions, s: Seq<EmitterLightFacts>, k: int)
    requires
        0 <= k <= s.len(),
        emitter_snapshots(d, s.take(k)) is Err,
    ensures
        emitter_snapshots(d, s) == emitter_snapshots(d, s.take(k)),
    decreases s.len() - k,
{
    if k < s.len() {
        assert(s.take(k + 1).drop_last() =~= s.take(k));
        lemma_emitter_err_stays(d, s, k + 1);
    } else {
        assert(s.take(k) =~= s);
    }
}

/// Every occluder lies inside the field.
pub open spec fn all_in_field(d: GridDimensions, t: Seq<Occluder>) -> bool {
    forall|i: int| 0 <= i < t.len() ==> in_field(d, #[trigger] occluder_grid(t[i]))
}

proof fn lemma_walls_in_field(d: GridDimensions, s: Seq<BuildingLightFacts>)
    ensures
        wall_occluders(d, s) matches Ok(v) ==> all_in_field(d, v),
    decreases s.len(),
{
    if s.len() > 0 {
        lemma_walls_in_field(d, s.drop_last());
    }
}

proof fn lemma_doors_in_field(d: GridDimensions, s: Seq<DoorLightFacts>)
    ensures
        door_occluders(d, s) matches Ok(v) ==> all_in_field(d, v),
    decreases s.len(),
{
    if s.len() > 0 {
        lemma_doors_in_field(d, s.drop_last());
    }
}

fn collect_wall_occluders(d: GridDimensions, b: &Vec<BuildingLightFacts>) -> (r: Result<Vec<Occluder>, RuntimeInputError>)
    ensures
        match r {
            Ok(v) => wall_occluders(d, b@) == Ok::<Seq<Occluder>, RuntimeInputError>(v@),
            Err(e) => wall_occluders(d, b@) == Err::<Seq<Occluder>, RuntimeInputError>(e),
        },
{
    let mut out: Vec<Occluder> = Vec::new();
    let mut i: usize = 0;
    assert(b@.take(0) =~= Seq::<BuildingLightFacts>::empty());
    while i < b.len()
        invariant
            i <= b@.len(),
            wall_occluders(d, b@.take(i as int)) == Ok::<Seq<Occluder>, RuntimeInputError>(out@),
        decreases b.len() - i,
    {
        let w = b[i];
        assert(b@.take(i + 1).drop_last() =~= b@.take(i as int));
        if w.kind != BuildingType::Wall {
        } else if !contains_cell(d, w.grid) {
            let e = RuntimeInputError::OutOfBounds { source: InputSource::Wall, position: w.grid };
            proof {
                lemma_wall_err_stays(d, b@, i + 1);
            }
            return Err(e);
        } else {
            let cell = if w.is_provisional { OcclusionCell::ProvisionalWall } else { OcclusionCell::CompletedWall };
            out.push(Occluder { x: w.grid.0, y: w.grid.1, cell });
        }
        i += 1;
    }
    assert(b@.take(b@.len() as int) =~= b@);
    Ok(out)
}

fn collect_door_occluders(d: GridDimensions, s: &Vec<DoorLightFacts>) -> (r: Result<Vec<Occluder>, RuntimeInputError>)
    ensures
        match r {
            Ok(v) => door_occluders(d, s@) == Ok::<Seq<Occluder>, RuntimeInputError>(v@),
            Err(e) => door_occluders(d, s@) == Err::<Seq<Occluder>, RuntimeInputError>(e),
        },
{
    let mut out: Vec<Occluder> = Vec::new();
    let mut i: usize = 0;
    assert(s@.take(0) =~= Seq::<DoorLightFacts>::empty());
    while i < s.len()
        invariant
            i <= s@.len(),
            door_occluders(d, s@.take(i as int)) == Ok::<Seq<Occluder>, RuntimeInputError>(out@),
        decreases s.len() - i,
    {
        let w = s[i];
        assert(s@.take(i + 1).drop_last() =~= s@.take(i as int));
        if w.kind != BuildingType::Door || w.is_provisional {
            proof {
                lemma_door_err_stays(d, s@, i + 1);
            }
            return Err(RuntimeInputError::InvalidDoorRoot);
        }
        if !contains_cell(d, w.grid) {
            proof {
                lemma_door_err_stays(d, s@, i + 1);
            }
            return Err(RuntimeInputError::OutOfBounds { source: InputSource::Door, position: w.grid });
        }
        let cell = match w.state {
            DoorState::Open => OcclusionCell::OpenDoor,
            DoorState::Closed => OcclusionCell::ClosedDoor,
            DoorState::Locked => OcclusionCell::LockedDoor,
        };
        out.push(Occluder { x: w.grid.0, y: w.grid.1, cell });
        i += 1;
    }
    assert(s@.take(s@.len() as int) =~= s@);
    Ok(out)
}


/// Some occluder of `t` lies on cell `k`.
pub open spec fn hits(d: GridDimensions, t: Seq<Occluder>, k: int) -> bool {
    exists|j: int| 0 <= j < t.len() && cell_index(d, occluder_grid(t[j])) == k
}

proof fn lemma_index_order(d: GridDimensions, p: Grid, q: Grid)
    requires
        in_field(d, p),
        in_field(d, q),
    ensures
        cell_index(d, p) <= cell_index(d, q) <==> yx_le(p, q),
{
    if p.1 < q.1 {
        assert(p.1 * d.width + p.0 < q.1 * d.width) by (nonlinear_arith)
            requires
                0 <= p.0 < d.width,
                p.1 < q.1,
        ;
        assert(q.1 * d.width <= q.1 * d.width + q.0);
    } else if q.1 < p.1 {
        assert(q.1 * d.width + q.0 < p.1 * d.width) by (nonlinear_arith)
            requires
                0 <= q.0 < d.width,
                q.1 < p.1,
        ;
        assert(p.1 * d.width <= p.1 * d.width + p.0);
    }
}

proof fn lemma_dup_push(s: Seq<Occluder>, o: Occluder, q: Grid)
    ensures
        is_duplicate(s.push(o), q) <==> (is_duplicate(s, q) || (q == occluder_grid(o)
            && exists|j: int| 0 <= j < s.len() && occluder_grid(s[j]) == q)),
{
    let n = s.push(o);
    if is_duplicate(n, q) {
        let (a, b) = choose|a: int, b: int| 0 <= a < b < n.len() && occluder_grid(n[a]) == q && occluder_grid(n[b]) == q;
        if b < s.len() {
            assert(n[a] == s[a] && n[b] == s[b]);
            assert(is_duplicate(s, q));
        } else {
            assert(n[a] == s[a]);
            assert(n[b] == o);
        }
    }
    if is_duplicate(s, q) {
        let (a, b) = choose|a: int, b: int| 0 <= a < b < s.len() && occluder_grid(s[a]) == q && occluder_grid(s[b]) == q;
        assert(n[a] == s[a] && n[b] == s[b]);
    }
    if q == occluder_grid(o) && exists|j: int| 0 <= j < s.len() && occluder_grid(s[j]) == q {
        let j = choose|j: int| 0 <= j < s.len() && occluder_grid(s[j]) == q;
        assert(n[j] == s[j] && n[s.len() as int] == o);
    }
}

proof fn lemma_dup_in_field(d: GridDimensions, s: Seq<Occluder>, q: Grid)
    requires
        all_in_field(d, s),
        is_duplicate(s, q),
    ensures
        in_field(d, q),
{
    let (a, b) = choose|a: int, b: int| 0 <= a < b < s.len() && occluder_grid(s[a]) == q && occluder_grid(s[b]) == q;
    assert(in_field(d, occluder_grid(s[a])));
}

/// The occlusion grid of `t`, and the first cell in `(y, x)` order that two
/// occluders share. When no cell is shared, every cell holds its occluder's
/// occlusion, or is clear.
fn fill_occlusion(d: GridDimensions, t: &Vec<Occluder>) -> (r: (Vec<OcclusionCell>, Option<Grid>))
    requires
        all_in_field(d, t@),
    ensures
        r.0@.len() == field_area(d),
        match r.1 {
            Some(p) => is_duplicate(t@, p) && forall|q: Grid| is_duplicate(t@, q) ==> yx_le(p, q),
            None => forall|q: Grid| !is_duplicate(t@, q),
        },
        r.1 is None ==> forall|k: int| 0 <= k < field_area(d) ==> r.0@[k] == occlusion_at(d, t@, k),
{
    proof {
        assert(field_area(d) <= 65535 * 65535) by (nonlinear_arith)
            requires
                d.width <= 65535,
                d.height <= 65535,
        ;
    }
    let area: usize = (d.width as usize) * (d.height as usize);
    let mut cells: Vec<OcclusionCell> = Vec::new();
    let mut occupied: Vec<bool> = Vec::new();
    let mut k: usize = 0;
    while k < area
        invariant
            area == field_area(d),
            k <= area,
            cells@.len() == k,
            occupied@.len() == k,
            forall|m: int| 0 <= m < k ==> cells@[m] == OcclusionCell::Clear && !occupied@[m],
        decreases area - k,
    {
        cells.push(OcclusionCell::Clear);
        occupied.push(false);
        k += 1;
    }
    let mut first: Option<Grid> = None;
    let mut first_index: usize = 0;
    let mut i: usize = 0;
    assert(t@.take(0) =~= Seq::<Occluder>::empty());
    while i < t.len()
        invariant
            area == field_area(d),
            all_in_field(d, t@),
            i <= t@.len(),
            cells@.len() == area,
            occupied@.len() == area,
            forall|m: int| 0 <= m < area ==> occupied@[m] == hits(d, t@.take(i as int), m),
            forall|m: int| 0 <= m < area && !hits(d, t@.take(i as int), m) ==> cells@[m] == OcclusionCell::Clear,
            forall|m: int| 0 <= m < area && hits(d, t@.take(i as int), m) ==>
                exists|j: int| 0 <= j < i && cell_index(d, occluder_grid(t@[j])) == m && cells@[m] == t@[j].cell,
            match first {
                Some(p) => is_duplicate(t@.take(i as int), p) && in_field(d, p) && first_index == cell_index(d, p)
                    && forall|q: Grid| is_duplicate(t@.take(i as int), q) ==> yx_le(p, q),
                None => forall|q: Grid| !is_duplicate(t@.take(i as int), q),
            },
        decreases t.len() - i,
    {
        let o = t[i];
        let g: Grid = (o.x, o.y);
        let ghost s = t@.take(i as int);
        let ghost n = t@.take(i + 1);
        assert(n =~= s.push(o));
        assert(in_field(d, occluder_grid(t@[i as int])));
        let idx = index_of(d, g);
        proof {
            lemma_index_in_area(d, g);
            assert forall|m: int| 0 <= m < area && m != idx implies hits(d, n, m) == hits(d, s, m) by {
                if hits(d, n, m) {
                    let j = choose|j: int| 0 <= j < n.len() && cell_index(d, occluder_grid(n[j])) == m;
                    assert(j < s.len());
                    assert(n[j] == s[j]);
                }
                if hits(d, s, m) {
                    let j = choose|j: int| 0 <= j < s.len() && cell_index(d, occluder_grid(s[j])) == m;
                    assert(n[j] == s[j]);
                }
            }
            assert(hits(d, n, idx as int)) by {
                assert(n[i as int] == o);
            }
            assert forall|j: int| 0 <= j < s.len() && cell_index(d, occluder_grid(s[j])) == idx implies occluder_grid(s[j]) == g by {
                assert(s[j] == t@[j]);
                lemma_index_injective(d, occluder_grid(s[j]), g);
            }
        }
        if occupied[idx] {
            proof {
                let j = choose|j: int| 0 <= j < s.len() && cell_index(d, occluder_grid(s[j])) == idx;
                assert(occluder_grid(s[j]) == g);
                assert forall|q: Grid| #[trigger] is_duplicate(n, q) <==> (is_duplicate(s, q) || q == g) by {
                    lemma_dup_push(s, o, q);
                }
                assert forall|m: int| 0 <= m < area && hits(d, n, m) implies
                    exists|j: int| 0 <= j < i + 1 && cell_index(d, occluder_grid(t@[j])) == m && cells@[m] == t@[j].cell by {
                    if m != idx {
                        assert(hits(d, s, m));
                    }
                }
            }
            let take = match first {
                None => true,
                Some(_) => idx < first_index,
            };
            if take {
                proof {
                    assert forall|q: Grid| is_duplicate(n, q) implies yx_le(g, q) by {
                        if q != g {
                            assert(is_duplicate(s, q));
                            lemma_dup_in_field(d, s, q);
                            let p = first.unwrap();
                            lemma_index_order(d, g, p);
                            lemma_index_order(d, p, q);
                            lemma_index_order(d, g, q);
                        }
                    }
                }
                first = Some(g);
                first_index = idx;
            } else {
                proof {
                    let p = first.unwrap();
                    lemma_index_order(d, p, g);
                    assert(is_duplicate(n, p));
                }
            }
        } else {
            proof {
                assert forall|q: Grid| #[trigger] is_duplicate(n, q) <==> is_duplicate(s, q) by {
                    lemma_dup_push(s, o, q);
                    if q == g && exists|j: int| 0 <= j < s.len() && occluder_grid(s[j]) == q {
                        let j = choose|j: int| 0 <= j < s.len() && occluder_grid(s[j]) == q;
                        assert(hits(d, s, idx as int));
                    }
                }
            }
            let ghost before = cells@;
            cells.set(idx, o.cell);
            occupied.set(idx, true);
            proof {
                assert forall|m: int| 0 <= m < area && hits(d, n, m) implies
                    exists|j: int| 0 <= j < i + 1 && cell_index(d, occluder_grid(t@[j])) == m && cells@[m] == t@[j].cell by {
                    if m != idx {
                        assert(hits(d, s, m));
                        let j = choose|j: int| 0 <= j < i && cell_index(d, occluder_grid(t@[j])) == m && before[m] == t@[j].cell;
                    } else {
                        assert(cell_index(d, occluder_grid(t@[i as int])) == m);
                    }
                }
            }
        }
        i += 1;
    }
    proof {
        assert(t@.take(t@.len() as int) =~= t@);
        if first is None {
            assert forall|m: int| 0 <= m < area implies cells@[m] == occlusion_at(d, t@, m) by {
                if hits(d, t@, m) {
                    let j = choose|j: int| 0 <= j < t@.len() && cell_index(d, occluder_grid(t@[j])) == m && cells@[m] == t@[j].cell;
                    let c = choose|c: int| 0 <= c < t@.len() && cell_index(d, occluder_grid(t@[c])) == m;
                    lemma_index_injective(d, occluder_grid(t@[j]), occluder_grid(t@[c]));
                    if j < c {
                        assert(is_duplicate(t@, occluder_grid(t@[j])));
                    } else if c < j {
                        assert(is_duplicate(t@, occluder_grid(t@[j])));
                    }
                }
            }
        }
    }
    (cells, first)
}


proof fn lemma_first_outside(d: GridDimensions, tiles: Seq<Grid>, i: int)
    requires
        0 <= i <= tiles.len(),
        forall|j: int| 0 <= j < i ==> in_field(d, #[trigger] tiles[j]),
    ensures
        i < tiles.len() && !in_field(d, tiles[i]) ==> first_tile_outside(d, tiles) == Some(tiles[i]),
        i == tiles.len() ==> first_tile_outside(d, tiles) is None,
    decreases i,
{
    if i > 0 {
        let rest = tiles.drop_first();
        assert forall|j: int| 0 <= j < i - 1 implies in_field(d, #[trigger] rest[j]) by {
            assert(rest[j] == tiles[j + 1]);
        }
        assert(in_field(d, tiles[0]));
        lemma_first_outside(d, rest, i - 1);
        if i < tiles.len() {
            assert(rest[i - 1] == tiles[i]);
        }
    }
}

/// The indoor mask: 1 on every room tile, 0 elsewhere; the first room tile
/// outside the field is an error.
fn fill_indoor_mask(d: GridDimensions, tiles: &Vec<Grid>) -> (r: Result<Vec<u8>, Grid>)
    ensures
        match r {
            Err(p) => first_tile_outside(d, tiles@) == Some(p),
            Ok(m) => first_tile_outside(d, tiles@) is None
                && m@.len() == field_area(d)
                && forall|k: int| 0 <= k < field_area(d) ==> m@[k] == (if indoor_at(d, tiles@, k) { 1u8 } else { 0u8 }),
        },
{
    proof {
        assert(field_area(d) <= 65535 * 65535) by (nonlinear_arith)
            requires
                d.width <= 65535,
                d.height <= 65535,
        ;
    }
    let area: usize = (d.width as usize) * (d.height as usize);
    let mut mask: Vec<u8> = Vec::new();
    let mut k: usize = 0;
    while k < area
        invariant
            area == field_area(d),
            k <= area,
            mask@.len() == k,
            forall|m: int| 0 <= m < k ==> mask@[m] == 0u8,
        decreases area - k,
    {
        mask.push(0u8);
        k += 1;
    }
    let mut i: usize = 0;
    while i < tiles.len()
        invariant
            area == field_area(d),
            i <= tiles@.len(),
            mask@.len() == area,
            forall|j: int| 0 <= j < i ==> in_field(d, #[trigger] tiles@[j]),
            forall|m: int| 0 <= m < area ==> mask@[m] == (if indoor_at(d, tiles@.take(i as int), m) { 1u8 } else { 0u8 }),
        decreases tiles.len() - i,
    {
        let g = tiles[i];
        if !contains_cell(d, g) {
            proof {
                lemma_first_outside(d, tiles@, i as int);
            }
            return Err(g);
        }
        let idx = index_of(d, g);
        proof {
            lemma_index_in_area(d, g);
        }
        let ghost s = tiles@.take(i as int);
        let ghost n = tiles@.take(i + 1);
        mask.set(idx, 1u8);
        proof {
            assert forall|m: int| 0 <= m < area implies mask@[m] == (if indoor_at(d, n, m) { 1u8 } else { 0u8 }) by {
                if m == idx {
                    assert(n[i as int] == g);
                } else {
                    if indoor_at(d, n, m) {
                        let j = choose|j: int| 0 <= j < n.len() && cell_index(d, n[j]) == m;
                        assert(j < i);
                        assert(n[j] == s[j]);
                    }
                    if indoor_at(d, s, m) {
                        let j = choose|j: int| 0 <= j < s.len() && cell_index(d, s[j]) == m;
                        assert(n[j] == s[j]);
                    }
                }
            }
        }
        i += 1;
    }
    proof {
        lemma_first_outside(d, tiles@, i as int);
        assert(tiles@.take(tiles@.len() as int) =~= tiles@);
    }
    Ok(mask)
}

fn collect_emitter_snapshots(d: GridDimensions, e: &Vec<EmitterLightFacts>) -> (r: Result<Vec<EmitterSnapshot>, RuntimeInputError>)
    ensures
        match r {
            Ok(v) => emitter_snapshots(d, e@) == Ok::<Seq<EmitterSnapshot>, RuntimeInputError>(v@),
            Err(x) => emitter_snapshots(d, e@) == Err::<Seq<EmitterSnapshot>, RuntimeInputError>(x),
        },
{
    let mut out: Vec<EmitterSnapshot> = Vec::new();
    let mut i: usize = 0;
    assert(e@.take(0) =~= Seq::<EmitterLightFacts>::empty());
    while i < e.len()
        invariant
            i <= e@.len(),
            emitter_snapshots(d, e@.take(i as int)) == Ok::<Seq<EmitterSnapshot>, RuntimeInputError>(out@),
        decreases e.len() - i,
    {
        let f = e[i];
        assert(e@.take(i + 1).drop_last() =~= e@.take(i as int));
        let owner_ok = match f.owner {
            Some((k, p)) => k == BuildingType::OutdoorLamp && !p,
            None => false,
        };
        if !owner_ok {
            proof {
                lemma_emitter_err_stays(d, e@, i + 1);
            }
            return Err(RuntimeInputError::InvalidEmitterOwner);
        }
        if f.supplied {
            if !contains_cell(d, f.grid) {
                proof {
                    lemma_emitter_err_stays(d, e@, i + 1);
                }
                return Err(RuntimeInputError::OutOfBounds { source: InputSource::Emitter, position: f.grid });
            }
            if f.grid.0 != f.mount_origin.0 || f.grid.1 != f.mount_origin.1 {
                proof {
                    lemma_emitter_err_stays(d, e@, i + 1);
                }
                return Err(RuntimeInputError::EmitterTransformMismatch { transform: f.grid, mount: f.mount_origin });
            }
            match stable_emitter_key(d, f.mount) {
                Err(x) => {
                    proof {
                        lemma_emitter_err_stays(d, e@, i + 1);
                    }
                    return Err(x);
                },
                Ok(key) => {
                    out.push(EmitterSnapshot {
                        stable_key: key,
                        mount: f.mount,
                        radius_tiles: f.radius_tiles,
                        color: f.color,
                        intensity: f.intensity,
                    });
                },
            }
        }
        i += 1;
    }
    assert(e@.take(e@.len() as int) =~= e@);
    Ok(out)
}


/// The occluders of the walls and then the doors, when both collect.
pub open spec fn all_occluders(d: GridDimensions, b: Seq<BuildingLightFacts>, doors: Seq<DoorLightFacts>) -> Seq<Occluder> {
    match (wall_occluders(d, b), door_occluders(d, doors)) {
        (Ok(w), Ok(dr)) => w + dr,
        _ => Seq::empty(),
    }
}

/// The supplied emitters' snapshots, when they collect.
pub open spec fn supplied_snapshots(d: GridDimensions, e: Seq<EmitterLightFacts>) -> Seq<EmitterSnapshot> {
    match emitter_snapshots(d, e) {
        Ok(v) => v,
        Err(_) => Seq::empty(),
    }
}

/// `c` is the field input collected from these facts.
pub open spec fn is_collected_input(
    c: CollectedLightInput,
    d: GridDimensions,
    b: Seq<BuildingLightFacts>,
    doors: Seq<DoorLightFacts>,
    tiles: Seq<Grid>,
    e: Seq<EmitterLightFacts>,
) -> bool {
    &&& c.dimensions == d
    &&& c.indoor_mask@.len() == field_area(d)
    &&& forall|k: int| 0 <= k < field_area(d) ==> #[trigger] c.indoor_mask@[k] == (if indoor_at(d, tiles, k) { 1u8 } else { 0u8 })
    &&& c.occlusion@.len() == field_area(d)
    &&& forall|k: int| 0 <= k < field_area(d) ==> #[trigger] c.occlusion@[k] == occlusion_at(d, all_occluders(d, b, doors), k)
    &&& sorted_by_key(c.emitters@)
    &&& c.emitters@.to_multiset() == supplied_snapshots(d, e).to_multiset()
    &&& c.typed_emitter_components == e.len()
    &&& c.eligible_supplied_emitters == c.emitters@.len()
}

/// Collects the light field's input: walls and doors become the occlusion
/// grid, room tiles the indoor mask, and supplied outdoor lamps the emitters,
/// sorted by stable key. Fails with the first problem, in the order of
/// [`spec_collect_error`].
pub fn build_input(
    d: GridDimensions,
    buildings: &Vec<BuildingLightFacts>,
    doors: &Vec<DoorLightFacts>,
    room_tiles: &Vec<Grid>,
    emitters: &Vec<EmitterLightFacts>,
) -> (r: Result<CollectedLightInput, RuntimeInputError>)
    ensures
        match r {
            Err(e) => spec_collect_error(d, buildings@, doors@, room_tiles@, emitters@) == Some(e),
            Ok(c) => spec_collect_error(d, buildings@, doors@, room_tiles@, emitters@) is None
                && is_collected_input(c, d, buildings@, doors@, room_tiles@, emitters@),
        },
{
    let walls = match collect_wall_occluders(d, buildings) {
        Err(e) => return Err(e),
        Ok(w) => w,
    };
    let door_cells = match collect_door_occluders(d, doors) {
        Err(e) => return Err(e),
        Ok(v) => v,
    };
    proof {
        lemma_walls_in_field(d, buildings@);
        lemma_doors_in_field(d, doors@);
    }
    let mut topology: Vec<Occluder> = Vec::new();
    let mut i: usize = 0;
    while i < walls.len()
        invariant
            i <= walls@.len(),
            topology@ == walls@.take(i as int),
        decreases walls.len() - i,
    {
        topology.push(walls[i]);
        i += 1;
        assert(topology@ =~= walls@.take(i as int));
    }
    let mut j: usize = 0;
    while j < door_cells.len()
        invariant
            j <= door_cells@.len(),
            topology@ == walls@ + door_cells@.take(j as int),
        decreases door_cells.len() - j,
    {
        topology.push(door_cells[j]);
        j += 1;
        assert(topology@ =~= walls@ + door_cells@.take(j as int));
    }
    proof {
        assert(walls@.take(walls@.len() as int) =~= walls@);
        assert(door_cells@.take(door_cells@.len() as int) =~= door_cells@);
        assert(topology@ == all_occluders(d, buildings@, doors@));
        assert forall|k: int| 0 <= k < topology@.len() implies in_field(d, #[trigger] occluder_grid(topology@[k])) by {
            if k < walls@.len() {
                assert(topology@[k] == walls@[k]);
            } else {
                assert(topology@[k] == door_cells@[k - walls@.len()]);
            }
        }
    }
    let (occlusion, duplicate) = fill_occlusion(d, &topology);
    if let Some(p) = duplicate {
        proof {
            let t = topology@;
            let c = choose|c: Grid| is_duplicate(t, c) && forall|q: Grid| is_duplicate(t, q) ==> yx_le(c, q);
            assert(yx_le(p, c) && yx_le(c, p));
        }
        return Err(RuntimeInputError::DuplicateOcclusionCell(p));
    }
    let indoor_mask = match fill_indoor_mask(d, room_tiles) {
        Err(p) => return Err(RuntimeInputError::OutOfBounds { source: InputSource::RoomMask, position: p }),
        Ok(m) => m,
    };
    if emitters.len() > u32::MAX as usize {
        return Err(RuntimeInputError::CountOverflow);
    }
    let typed_emitter_components = emitters.len() as u32;
    let snapshots = match collect_emitter_snapshots(d, emitters) {
        Err(e) => return Err(e),
        Ok(v) => v,
    };
    if snapshots.len() > u32::MAX as usize {
        return Err(RuntimeInputError::CountOverflow);
    }
    let sorted = sort_by_key(snapshots.as_slice());
    let eligible_supplied_emitters = snapshots.len() as u32;
    proof {
        sorted@.to_multiset_ensures();
        snapshots@.to_multiset_ensures();
        assert(sorted@.len() == snapshots@.len());
    }
    Ok(CollectedLightInput {
        dimensions: d,
        indoor_mask,
        occlusion,
        emitters: sorted,
        typed_emitter_components,
        eligible_supplied_emitters,
    })
}

proof fn lemma_door_occluders_follow_doors(d: GridDimensions, s: Seq<DoorLightFacts>)
    ensures
        door_occluders(d, s) matches Ok(v) ==> {
            &&& v.len() == s.len()
            &&& forall|i: int| 0 <= i < s.len() ==> {
                &&& (#[trigger] v[i]).x == s[i].grid.0
                &&& v[i].y == s[i].grid.1
                &&& v[i].cell == match s[i].state {
                    DoorState::Open => OcclusionCell::OpenDoor,
                    DoorState::Closed => OcclusionCell::ClosedDoor,
                    DoorState::Locked => OcclusionCell::LockedDoor,
                }
            }
        },
    decreases s.len(),
{
    if s.len() > 0 {
        lemma_door_occluders_follow_doors(d, s.drop_last());
        if door_occluders(d, s) is Ok {
            let v = door_occluders(d, s)->Ok_0;
            let u = door_occluders(d, s.drop_last())->Ok_0;
            assert forall|i: int| 0 <= i < s.len() implies (#[trigger] v[i]).x == s[i].grid.0 && v[i].y == s[i].grid.1
                && v[i].cell == match s[i].state {
                    DoorState::Open => OcclusionCell::OpenDoor,
                    DoorState::Closed => OcclusionCell::ClosedDoor,
                    DoorState::Locked => OcclusionCell::LockedDoor,
                } by {
                if i < s.len() - 1 {
                    assert(v[i] == u[i]);
                    assert(s[i] == s.drop_last()[i]);
                }
            }
        }
    }
}

/// Every door reaches the light field with its own state: in a collected
/// input, the occlusion cell at a door's position is an open door when the
/// door is open, a closed door when it is closed and a locked door when it
/// is locked.
pub proof fn law_door_occlusion_follows_state(
    c: CollectedLightInput,
    d: GridDimensions,
    b: Seq<BuildingLightFacts>,
    doors: Seq<DoorLightFacts>,
    tiles: Seq<Grid>,
    e: Seq<EmitterLightFacts>,
    i: int,
)
    requires
        spec_collect_error(d, b, doors, tiles, e) is None,
        is_collected_input(c, d, b, doors, tiles, e),
        0 <= i < doors.len(),
    ensures
        0 <= cell_index(d, doors[i].grid) < c.occlusion@.len(),
        c.occlusion@[cell_index(d, doors[i].grid)] == match doors[i].state {
            DoorState::Open => OcclusionCell::OpenDoor,
            DoorState::Closed => OcclusionCell::ClosedDoor,
            DoorState::Locked => OcclusionCell::LockedDoor,
        },
{
    let w = wall_occluders(d, b)->Ok_0;
    let dr = door_occluders(d, doors)->Ok_0;
    let t = w + dr;
    assert(all_occluders(d, b, doors) == t);
    lemma_door_occluders_follow_doors(d, doors);
    lemma_walls_in_field(d, b);
    lemma_doors_in_field(d, doors);
    let j = w.len() + i;
    assert(t[j] == dr[i]);
    assert(occluder_grid(dr[i]) == doors[i].grid);
    let g = doors[i].grid;
    assert(in_field(d, occluder_grid(dr[i])));
    lemma_index_in_area(d, g);
    let k = cell_index(d, g);
    assert(cell_index(d, occluder_grid(t[j])) == k);
    let i2 = choose|i2: int| 0 <= i2 < t.len() && cell_index(d, occluder_grid(t[i2])) == k;
    assert(in_field(d, occluder_grid(t[i2]))) by {
        if i2 < w.len() {
            assert(t[i2] == w[i2]);
        } else {
            assert(t[i2] == dr[i2 - w.len()]);
        }
    }
    lemma_index_injective(d, occluder_grid(t[i2]), g);
    if i2 != j {
        if i2 < j {
            assert(is_duplicate(t, g));
        } else {
            assert(is_duplicate(t, g));
        }
        assert(false);
    }
    assert(c.occlusion@[k] == occlusion_at(d, t, k));
}

} // verus!
