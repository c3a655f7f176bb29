//! Phase transitions and completion of floor and wall construction sites.
//!
//! Site counters only reject early: a site advances only when the tiles
//! themselves, as the tile index finds them, agree. A wall site commits
//! only after every tile, cell owner and spawned wall was checked, so a
//! failed check changes nothing.

use vstd::prelude::*;
use crate::grid::{EntityId, Grid, sorted_unique};
use crate::decon::BuildingType;
use crate::construction::{CellOwner, owner_at};

verus! {

/// Counters of the construction systems' work in one frame.
#[derive(Debug, Clone, Copy, PartialEq, Eq, Default)]
pub struct ConstructionPerfMetrics {
    pub floor_sites_considered: u64,
    pub wall_sites_considered: u64,
    pub floor_tiles_inspected: u64,
    pub wall_tiles_inspected: u64,
    pub evacuation_candidates_scanned: u64,
    pub floor_phase_elapsed_micros: u64,
    pub floor_completion_elapsed_micros: u64,
    pub wall_phase_elapsed_micros: u64,
    pub wall_completion_elapsed_micros: u64,
}


/// The phase of a floor construction site.
#[derive(Debug, Clone, Copy, PartialEq, Eq, Structural)]
pub enum FloorConstructionPhase {
    Reinforcing,
    Pouring,
    Curing,
}

/// A floor site's counters.
#[derive(Debug, Clone, Copy, PartialEq, Eq, Structural)]
pub struct FloorSiteFacts {
    pub phase: FloorConstructionPhase,
    pub tiles_total: u32,
    pub tiles_reinforced: u32,
    pub tiles_poured: u32,
}

/// A floor tile the site's index entry names, when the tile exists.
#[derive(Debug, Clone, Copy, PartialEq, Eq)]
pub struct FloorTileFacts {
    pub entity: EntityId,
    pub grid: Grid,
    pub reinforced_complete: bool,
    pub complete: bool,
}

/// Every entry of the index names an existing, fully reinforced tile, and
/// there is one per tile of the site.
pub open spec fn reinforcing_done(site: FloorSiteFacts, entries: Seq<Option<FloorTileFacts>>) -> bool {
    &&& site.phase == FloorConstructionPhase::Reinforcing
    &&& site.tiles_total != 0
    &&& site.tiles_reinforced >= site.tiles_total
    &&& entries.len() == site.tiles_total
    &&& forall|i: int| 0 <= i < entries.len() ==> (#[trigger] entries[i] matches Some(t) && t.reinforced_complete)
}

/// Whether a reinforcing site advances to pouring. `entries` is the site's
/// index entry, one lookup per listed tile; `None` when the index has no
/// entry for the site.
pub fn floor_phase_transition(site: FloorSiteFacts, entries: Option<&Vec<Option<FloorTileFacts>>>) -> (b: bool)
    ensures
        b == (entries matches Some(e) && reinforcing_done(site, e@)),
{
    if site.phase != FloorConstructionPhase::Reinforcing || site.tiles_total == 0 || site.tiles_reinforced < site.tiles_total {
        return false;
    }
    let e = match entries {
        None => return false,
        Some(e) => e,
    };
    if e.len() != site.tiles_total as usize {
        return false;
    }
    let mut i: usize = 0;
    while i < e.len()
        invariant
            i <= e@.len(),
            entries == Some(e),
            site.phase == FloorConstructionPhase::Reinforcing,
            site.tiles_total != 0,
            site.tiles_reinforced >= site.tiles_total,
            e@.len() == site.tiles_total,
            forall|j: int| 0 <= j < i ==> (#[trigger] e@[j] matches Some(t) && t.reinforced_complete),
        decreases e.len() - i,
    {
        let ok = match e[i] {
            Some(t) => t.reinforced_complete,
            None => false,
        };
        if !ok {
            assert(!(e@[i as int] matches Some(t) && t.reinforced_complete));
            return false;
        }
        i += 1;
    }
    true
}

/// What one update does to a floor site on its way to completion.
#[derive(Debug, Clone, PartialEq, Eq)]
pub enum FloorCompletionStep {
    /// Nothing this update.
    Wait,
    /// Every tile is poured: the site starts curing on these tiles, which
    /// become obstacles and reserved map cells.
    EnterCuring { tiles: Vec<FloorTileFacts> },
    /// A curing site lost its runtime footprint: it is rebuilt from these
    /// tiles without reserving the cells again.
    RebuildFootprint { tiles: Vec<FloorTileFacts> },
    /// The site keeps curing.
    KeepCuring,
    /// Curing is over: every footprint tile becomes a floor building.
    Complete,
}

/// The existing tiles among the index entries, in index order.
pub open spec fn existing_tiles(entries: Seq<Option<FloorTileFacts>>) -> Seq<FloorTileFacts>
    decreases entries.len(),
{
    if entries.len() == 0 {
        Seq::empty()
    } else {
        let rest = existing_tiles(entries.drop_last());
        match entries.last() {
            Some(t) => rest.push(t),
            None => rest,
        }
    }
}

/// Every tile is complete.
pub open spec fn all_complete(ts: Seq<FloorTileFacts>) -> bool {
    forall|i: int| 0 <= i < ts.len() ==> (#[trigger] ts[i]).complete
}

/// The step of a floor site: a site that is not curing starts curing once
/// its index holds exactly its complete tiles; a curing site without its
/// footprint rebuilds it when the index holds all its tiles; otherwise it
/// completes when curing is over.
pub open spec fn spec_floor_step(
    site: FloorSiteFacts,
    entries: Seq<Option<FloorTileFacts>>,
    has_footprint: bool,
    curing_over: bool,
) -> FloorCompletionStep {
    let ts = existing_tiles(entries);
    if site.phase != FloorConstructionPhase::Curing {
        if site.tiles_poured < site.tiles_total || ts.len() != site.tiles_total || !all_complete(ts) {
            FloorCompletionStep::Wait
        } else {
            FloorCompletionStep::EnterCuring { tiles: arbitrary() }
        }
    } else if !has_footprint {
        if ts.len() == site.tiles_total {
            FloorCompletionStep::RebuildFootprint { tiles: arbitrary() }
        } else {
            FloorCompletionStep::Wait
        }
    } else if curing_over {
        FloorCompletionStep::Complete
    } else {
        FloorCompletionStep::KeepCuring
    }
}

/// Two steps are of the same kind, and a step that carries tiles carries
/// exactly `ts`.
pub open spec fn step_matches(a: FloorCompletionStep, b: FloorCompletionStep, ts: Seq<FloorTileFacts>) -> bool {
    match (a, b) {
        (FloorCompletionStep::Wait, FloorCompletionStep::Wait) => true,
        (FloorCompletionStep::EnterCuring { tiles }, FloorCompletionStep::EnterCuring { .. }) => tiles@ == ts,
        (FloorCompletionStep::RebuildFootprint { tiles }, FloorCompletionStep::RebuildFootprint { .. }) => tiles@ == ts,
        (FloorCompletionStep::KeepCuring, FloorCompletionStep::KeepCuring) => true,
        (FloorCompletionStep::Complete, FloorCompletionStep::Complete) => true,
        _ => false,
    }
}

/// Decides a floor site's completion step. `curing_over` says whether the
/// remaining curing time has run out this update.
pub fn floor_completion_step(
    site: FloorSiteFacts,
    entries: &Vec<Option<FloorTileFacts>>,
    has_footprint: bool,
    curing_over: bool,
) -> (r: FloorCompletionStep)
    ensures
        step_matches(r, spec_floor_step(site, entries@, has_footprint, curing_over), existing_tiles(entries@)),
{
    if site.phase != FloorConstructionPhase::Curing && site.tiles_poured < site.tiles_total {
        return FloorCompletionStep::Wait;
    }
    if site.phase == FloorConstructionPhase::Curing && has_footprint {
        return if curing_over { FloorCompletionStep::Complete } else { FloorCompletionStep::KeepCuring };
    }
    let mut ts: Vec<FloorTileFacts> = Vec::new();
    let mut complete = true;
    let mut i: usize = 0;
    while i < entries.len()
        invariant
            i <= entries@.len(),
            ts@ == existing_tiles(entries@.take(i as int)),
            complete == all_complete(ts@),
        decreases entries.len() - i,
    {
        assert(entries@.take(i + 1).drop_last() =~= entries@.take(i as int));
        match entries[i] {
            Some(t) => {
                let ghost before = ts@;
                ts.push(t);
                if !t.complete {
                    complete = false;
                }
                proof {
                    assert forall|k: int| 0 <= k < before.len() implies ts@[k] == before[k] by {}
                    if all_complete(ts@) {
                        assert forall|k: int| 0 <= k < before.len() implies (#[trigger] before[k]).complete by {
                            assert(ts@[k] == before[k]);
                        }
                        assert(ts@[before.len() as int] == t);
                    }
                    if all_complete(before) && t.complete {
                        assert forall|k: int| 0 <= k < ts@.len() implies (#[trigger] ts@[k]).complete by {
                            if k < before.len() {
                                assert(ts@[k] == before[k]);
                            }
                        }
                    }
                }
            },
            None => {},
        }
        i += 1;
    }
    assert(entries@.take(entries@.len() as int) =~= entries@);
    if site.phase != FloorConstructionPhase::Curing {
        if ts.len() != site.tiles_total as usize || !complete {
            FloorCompletionStep::Wait
        } else {
            FloorCompletionStep::EnterCuring { tiles: ts }
        }
    } else if ts.len() == site.tiles_total as usize {
        FloorCompletionStep::RebuildFootprint { tiles: ts }
    } else {
        FloorCompletionStep::Wait
    }
}

/// A soul near a curing footprint, with the cell it stands on when it can
/// be moved.
#[derive(Debug, Clone, Copy, PartialEq, Eq)]
pub struct SoulCellFacts {
    pub entity: EntityId,
    pub grid: Option<Grid>,
}

/// The cell of a soul, as a lookup by entity finds it.
pub open spec fn soul_cell(souls: Seq<SoulCellFacts>, e: EntityId) -> Option<Grid>
    decreases souls.len(),
{
    if souls.len() == 0 {
        None
    } else if souls[0].entity == e {
        souls[0].grid
    } else {
        soul_cell(souls.drop_first(), e)
    }
}

fn find_soul_cell(souls: &Vec<SoulCellFacts>, e: EntityId) -> (r: Option<Grid>)
    ensures
        r == soul_cell(souls@, e),
{
    let mut i: usize = 0;
    assert(souls@.skip(0) =~= souls@);
    while i < souls.len()
        invariant
            i <= souls@.len(),
            soul_cell(souls@, e) == soul_cell(souls@.skip(i as int), e),
        decreases souls.len() - i,
    {
        assert(souls@.skip(i as int)[0] == souls@[i as int]);
        assert(souls@.skip(i as int).drop_first() =~= souls@.skip(i + 1));
        if souls[i].entity == e {
            return souls[i].grid;
        }
        i += 1;
    }
    None
}

fn cell_in(cells: &Vec<Grid>, g: Grid) -> (b: bool)
    ensures
        b == cells@.contains(g),
{
    let mut i: usize = 0;
    while i < cells.len()
        invariant
            i <= cells@.len(),
            forall|j: int| 0 <= j < i ==> cells@[j] != g,
        decreases cells.len() - i,
    {
        if cells[i].0 == g.0 && cells[i].1 == g.1 {
            assert(cells@[i as int] == g);
            return true;
        }
        i += 1;
    }
    false
}

/// The candidates, sorted by entity without repeats, that stand on a
/// blocked cell, in that order.
pub open spec fn evacuees(sorted: Seq<EntityId>, souls: Seq<SoulCellFacts>, blocked: Seq<Grid>) -> Seq<EntityId>
    decreases sorted.len(),
{
    if sorted.len() == 0 {
        Seq::empty()
    } else {
        let rest = evacuees(sorted.drop_last(), souls, blocked);
        let e = sorted.last();
        if soul_cell(souls, e) matches Some(g) && blocked.contains(g) { rest.push(e) } else { rest }
    }
}

/// The souls a curing footprint evacuates: the nearby candidates, sorted by
/// entity without repeats, that stand on one of its cells.
pub fn souls_to_evacuate(candidates: &Vec<EntityId>, souls: &Vec<SoulCellFacts>, blocked: &Vec<Grid>) -> (r: Vec<EntityId>)
    ensures
        exists|sorted: Seq<EntityId>| {
            &&& crate::grid::strictly_increasing(sorted)
            &&& sorted.to_set() == candidates@.to_set()
            &&& r@ == evacuees(sorted, souls@, blocked@)
        },
{
    let sorted = sorted_unique(candidates.as_slice());
    let mut out: Vec<EntityId> = Vec::new();
    let mut i: usize = 0;
    while i < sorted.len()
        invariant
            i <= sorted@.len(),
            out@ == evacuees(sorted@.take(i as int), souls@, blocked@),
        decreases sorted.len() - i,
    {
        assert(sorted@.take(i + 1).drop_last() =~= sorted@.take(i as int));
        match find_soul_cell(souls, sorted[i]) {
            Some(g) => {
                if cell_in(blocked, g) {
                    out.push(sorted[i]);
                }
            },
            None => {},
        }
        i += 1;
    }
    assert(sorted@.take(sorted@.len() as int) =~= sorted@);
    out
}


/// The phase of a wall construction site.
#[derive(Debug, Clone, Copy, PartialEq, Eq, Structural)]
pub enum WallConstructionPhase {
    Framing,
    Coating,
}

/// A wall site's counters.
#[derive(Debug, Clone, Copy, PartialEq, Eq, Structural)]
pub struct WallSiteFacts {
    pub phase: WallConstructionPhase,
    pub tiles_total: u32,
    pub tiles_coated: u32,
    pub cancel_requested: bool,
}

/// A wall tile blueprint.
#[derive(Debug, Clone, Copy, PartialEq, Eq)]
pub struct WallTileFacts {
    pub entity: EntityId,
    pub parent_site: EntityId,
    pub grid: Grid,
    pub complete: bool,
    pub spawned_wall: Option<EntityId>,
}

/// The site's counters say it is fully coated.
pub open spec fn coating_counted(s: WallSiteFacts) -> bool {
    s.phase == WallConstructionPhase::Coating && s.tiles_total != 0 && s.tiles_coated >= s.tiles_total
}

/// Whether a wall site is handed to the commit: its counters say it is
/// coated and its index entry lists exactly its complete tiles.
pub open spec fn wall_ready(site: EntityId, s: WallSiteFacts, entries: Seq<Option<WallTileFacts>>) -> bool {
    let own = own_indexed(site, entries);
    coating_counted(s) && own.len() == s.tiles_total && forall|i: int| 0 <= i < own.len() ==> (#[trigger] own[i]).complete
}

/// The index entries that name an existing tile of the site.
pub open spec fn own_indexed(site: EntityId, entries: Seq<Option<WallTileFacts>>) -> Seq<WallTileFacts>
    decreases entries.len(),
{
    if entries.len() == 0 {
        Seq::empty()
    } else {
        let rest = own_indexed(site, entries.drop_last());
        match entries.last() {
            Some(t) => if t.parent_site == site { rest.push(t) } else { rest },
            None => rest,
        }
    }
}

/// Decides whether a coated wall site is handed to the commit.
pub fn wall_site_ready(site: EntityId, s: WallSiteFacts, entries: &Vec<Option<WallTileFacts>>) -> (b: bool)
    ensures
        b == wall_ready(site, s, entries@),
{
    if s.phase != WallConstructionPhase::Coating || s.tiles_total == 0 || s.tiles_coated < s.tiles_total {
        return false;
    }
    let mut count: usize = 0;
    let mut complete = true;
    let mut i: usize = 0;
    while i < entries.len()
        invariant
            i <= entries@.len(),
            count <= i,
            count == own_indexed(site, entries@.take(i as int)).len(),
            complete == forall|k: int| 0 <= k < own_indexed(site, entries@.take(i as int)).len()
                ==> (#[trigger] own_indexed(site, entries@.take(i as int))[k]).complete,
        decreases entries.len() - i,
    {
        let ghost before = own_indexed(site, entries@.take(i as int));
        assert(entries@.take(i + 1).drop_last() =~= entries@.take(i as int));
        match entries[i] {
            Some(t) => {
                if t.parent_site == site {
                    count += 1;
                    if !t.complete {
                        complete = false;
                    }
                    proof {
                        let after = before.push(t);
                        assert(own_indexed(site, entries@.take(i + 1)) == after);
                        if complete {
                            assert forall|k: int| 0 <= k < after.len() implies (#[trigger] after[k]).complete by {
                                if k < before.len() {
                                    assert(after[k] == before[k]);
                                }
                            }
                        } else {
                            if t.complete {
                                let k = choose|k: int| 0 <= k < before.len() && !(#[trigger] before[k]).complete;
                                assert(after[k] == before[k]);
                            } else {
                                assert(after[before.len() as int] == t);
                            }
                        }
                    }
                }
            },
            None => {},
        }
        i += 1;
    }
    assert(entries@.take(entries@.len() as int) =~= entries@);
    count == s.tiles_total as usize && complete
}

/// The kind of a building, as a lookup by entity finds it.
#[derive(Debug, Clone, Copy, PartialEq, Eq, Structural)]
pub struct BuildingKindFacts {
    pub entity: EntityId,
    pub kind: BuildingType,
}

/// An entity with an `ObstaclePosition`.
#[derive(Debug, Clone, Copy, PartialEq, Eq)]
pub struct ObstacleFacts {
    pub entity: EntityId,
    pub grid: Grid,
}

/// An entity with a `TargetWallConstructionSite`.
#[derive(Debug, Clone, Copy, PartialEq, Eq, Structural)]
pub struct SiteTargetFacts {
    pub entity: EntityId,
    pub site: EntityId,
}

pub open spec fn kind_of(bs: Seq<BuildingKindFacts>, e: EntityId) -> Option<BuildingType>
    decreases bs.len(),
{
    if bs.len() == 0 {
        None
    } else if bs[0].entity == e {
        Some(bs[0].kind)
    } else {
        kind_of(bs.drop_first(), e)
    }
}

/// The tiles whose parent is the site, in query order.
pub open spec fn site_wall_tiles(site: EntityId, ts: Seq<WallTileFacts>) -> Seq<WallTileFacts>
    decreases ts.len(),
{
    if ts.len() == 0 {
        Seq::empty()
    } else {
        let rest = site_wall_tiles(site, ts.drop_last());
        if ts.last().parent_site == site { rest.push(ts.last()) } else { rest }
    }
}

/// A tile is complete, its cell is owned by its spawned wall (or by the site
/// when it spawned none), and its spawned wall is a wall building.
pub open spec fn wall_tile_committable(site: EntityId, t: WallTileFacts, owners: Seq<CellOwner>, kinds: Seq<BuildingKindFacts>) -> bool {
    &&& t.complete
    &&& owner_at(owners, t.grid) == Some(match t.spawned_wall { Some(w) => w, None => site })
    &&& (t.spawned_wall matches Some(w) ==> kind_of(kinds, w) == Some(BuildingType::Wall))
}

/// Whether the coated site can be committed.
pub open spec fn wall_commit_ok(
    site: EntityId,
    s: Option<WallSiteFacts>,
    ts: Seq<WallTileFacts>,
    owners: Seq<CellOwner>,
    kinds: Seq<BuildingKindFacts>,
) -> bool {
    let own = site_wall_tiles(site, ts);
    &&& s matches Some(f) && coating_counted(f) && !f.cancel_requested && own.len() == f.tiles_total
    &&& forall|i: int, j: int| 0 <= i < j < own.len() ==> own[i].grid != own[j].grid
    &&& forall|i: int| 0 <= i < own.len() ==> #[trigger] wall_tile_committable(site, own[i], owners, kinds)
}

/// What committing a completed wall site does.
#[derive(Debug, Clone, PartialEq, Eq)]
pub struct WallCommitPlan {
    /// Cells of tiles that spawned no wall: the site's ownership is cleared.
    pub released_grids: Vec<Grid>,
    /// Released cells whose obstacle is removed: no other obstacle stands there.
    pub obstacle_removals: Vec<Grid>,
    /// The provisional walls promoted to completed walls.
    pub promoted_walls: Vec<EntityId>,
    /// The tiles to despawn.
    pub tiles: Vec<EntityId>,
    /// The requests targeting the site, despawned with it.
    pub requests: Vec<EntityId>,
}

pub open spec fn released_of(own: Seq<WallTileFacts>) -> Seq<Grid>
    decreases own.len(),
{
    if own.len() == 0 {
        Seq::empty()
    } else {
        let rest = released_of(own.drop_last());
        if own.last().spawned_wall is None { rest.push(own.last().grid) } else { rest }
    }
}

pub open spec fn promoted_of(own: Seq<WallTileFacts>) -> Seq<EntityId>
    decreases own.len(),
{
    if own.len() == 0 {
        Seq::empty()
    } else {
        let rest = promoted_of(own.drop_last());
        match own.last().spawned_wall {
            Some(w) => rest.push(w),
            None => rest,
        }
    }
}

/// An obstacle of an entity other than the removed tiles stands on `g`.
pub open spec fn blocked_by_other(obstacles: Seq<ObstacleFacts>, removed: Seq<WallTileFacts>, g: Grid) -> bool {
    exists|i: int| 0 <= i < obstacles.len() && obstacles[i].grid == g
        && !removed.map_values(|t: WallTileFacts| t.entity).contains(obstacles[i].entity)
}

pub open spec fn targeting(rs: Seq<SiteTargetFacts>, site: EntityId) -> Seq<EntityId>
    decreases rs.len(),
{
    if rs.len() == 0 {
        Seq::empty()
    } else {
        let rest = targeting(rs.drop_last(), site);
        if rs.last().site == site { rest.push(rs.last().entity) } else { rest }
    }
}

fn find_owner_at(owners: &Vec<CellOwner>, g: Grid) -> (r: Option<EntityId>)
    ensures
        r == owner_at(owners@, g),
{
    let mut i: usize = 0;
    assert(owners@.skip(0) =~= owners@);
    while i < owners.len()
        invariant
            i <= owners@.len(),
            owner_at(owners@, g) == owner_at(owners@.skip(i as int), g),
        decreases owners.len() - i,
    {
        assert(owners@.skip(i as int)[0] == owners@[i as int]);
        assert(owners@.skip(i as int).drop_first() =~= owners@.skip(i + 1));
        if owners[i].grid.0 == g.0 && owners[i].grid.1 == g.1 {
            return Some(owners[i].owner);
        }
        i += 1;
    }
    None
}

fn find_kind(bs: &Vec<BuildingKindFacts>, e: EntityId) -> (r: Option<BuildingType>)
    ensures
        r == kind_of(bs@, e),
{
    let mut i: usize = 0;
    assert(bs@.skip(0) =~= bs@);
    while i < bs.len()
        invariant
            i <= bs@.len(),
            kind_of(bs@, e) == kind_of(bs@.skip(i as int), e),
        decreases bs.len() - i,
    {
        assert(bs@.skip(i as int)[0] == bs@[i as int]);
        assert(bs@.skip(i as int).drop_first() =~= bs@.skip(i + 1));
        if bs[i].entity == e {
            return Some(bs[i].kind);
        }
        i += 1;
    }
    None
}

/// Validates every tile of a completed wall site and plans the commit; `None`
/// (and nothing changes) when any check fails.
pub fn plan_wall_commit(
    site: EntityId,
    s: Option<WallSiteFacts>,
    tiles: &Vec<WallTileFacts>,
    owners: &Vec<CellOwner>,
    kinds: &Vec<BuildingKindFacts>,
    obstacles: &Vec<ObstacleFacts>,
    requests: &Vec<SiteTargetFacts>,
) -> (r: Option<WallCommitPlan>)
    ensures
        !wall_commit_ok(site, s, tiles@, owners@, kinds@) ==> r is None,
        wall_commit_ok(site, s, tiles@, owners@, kinds@) ==> (r matches Some(p) && {
            let own = site_wall_tiles(site, tiles@);
            &&& p.tiles@ == own.map_values(|t: WallTileFacts| t.entity)
            &&& p.released_grids@ == released_of(own)
            &&& p.promoted_walls@ == promoted_of(own)
            &&& p.requests@ == targeting(requests@, site)
            &&& forall|g: Grid| p.obstacle_removals@.contains(g) <==> (released_of(own).contains(g) && !blocked_by_other(obstacles@, own, g))
        }),
{
    let f = match s {
        None => return None,
        Some(f) => f,
    };
    if f.phase != WallConstructionPhase::Coating || f.tiles_total == 0 || f.tiles_coated < f.tiles_total || f.cancel_requested {
        return None;
    }
    let mut own: Vec<WallTileFacts> = Vec::new();
    let mut i: usize = 0;
    while i < tiles.len()
        invariant
            i <= tiles@.len(),
            own@ == site_wall_tiles(site, tiles@.take(i as int)),
        decreases tiles.len() - i,
    {
        assert(tiles@.take(i + 1).drop_last() =~= tiles@.take(i as int));
        if tiles[i].parent_site == site {
            own.push(tiles[i]);
        }
        i += 1;
    }
    assert(tiles@.take(tiles@.len() as int) =~= tiles@);
    if own.len() != f.tiles_total as usize {
        return None;
    }
    let mut a: usize = 0;
    while a < own.len()
        invariant
            a <= own@.len(),
            own@ == site_wall_tiles(site, tiles@),
            s == Some(f),
            forall|x: int, y: int| 0 <= x < y < own@.len() && x < a ==> own@[x].grid != own@[y].grid,
        decreases own.len() - a,
    {
        let mut b: usize = a + 1;
        while b < own.len()
            invariant
                a < own@.len(),
                own@ == site_wall_tiles(site, tiles@),
                s == Some(f),
                a + 1 <= b <= own@.len(),
                forall|x: int, y: int| 0 <= x < y < own@.len() && x < a ==> own@[x].grid != own@[y].grid,
                forall|y: int| a < y < b ==> own@[a as int].grid != own@[y].grid,
            decreases own.len() - b,
        {
            if own[a].grid.0 == own[b].grid.0 && own[a].grid.1 == own[b].grid.1 {
                assert(own@[a as int].grid == own@[b as int].grid);
                return None;
            }
            b += 1;
        }
        a += 1;
    }
    let mut k: usize = 0;
    while k < own.len()
        invariant
            k <= own@.len(),
            own@ == site_wall_tiles(site, tiles@),
            s == Some(f),
            forall|x: int| 0 <= x < k ==> #[trigger] wall_tile_committable(site, own@[x], owners@, kinds@),
        decreases own.len() - k,
    {
        let t = own[k];
        let expected = match t.spawned_wall {
            Some(w) => w,
            None => site,
        };
        let owner_ok = match find_owner_at(owners, t.grid) {
            Some(o) => o == expected,
            None => false,
        };
        let kind_ok = match t.spawned_wall {
            Some(w) => match find_kind(kinds, w) {
                Some(kd) => kd == BuildingType::Wall,
                None => false,
            },
            None => true,
        };
        if !t.complete || !owner_ok || !kind_ok {
            assert(!wall_tile_committable(site, own@[k as int], owners@, kinds@));
            return None;
        }
        k += 1;
    }
    let mut tile_ids: Vec<EntityId> = Vec::new();
    let mut released: Vec<Grid> = Vec::new();
    let mut promoted: Vec<EntityId> = Vec::new();
    let mut m: usize = 0;
    while m < own.len()
        invariant
            m <= own@.len(),
            tile_ids@ == own@.take(m as int).map_values(|t: WallTileFacts| t.entity),
            released@ == released_of(own@.take(m as int)),
            promoted@ == promoted_of(own@.take(m as int)),
        decreases own.len() - m,
    {
        let t = own[m];
        assert(own@.take(m + 1).drop_last() =~= own@.take(m as int));
        let ghost before = tile_ids@;
        tile_ids.push(t.entity);
        assert(own@.take(m + 1).map_values(|t: WallTileFacts| t.entity) =~= before.push(t.entity));
        match t.spawned_wall {
            Some(w) => promoted.push(w),
            None => released.push(t.grid),
        }
        m += 1;
    }
    assert(own@.take(own@.len() as int) =~= own@);
    let mut removals: Vec<Grid> = Vec::new();
    let mut q: usize = 0;
    while q < released.len()
        invariant
            q <= released@.len(),
            tile_ids@ == own@.map_values(|t: WallTileFacts| t.entity),
            forall|g: Grid| removals@.contains(g) <==> (released@.take(q as int).contains(g) && !blocked_by_other(obstacles@, own@, g)),
        decreases released.len() - q,
    {
        let g = released[q];
        let mut blocked = false;
        let mut o: usize = 0;
        while o < obstacles.len()
            invariant
                o <= obstacles@.len(),
                tile_ids@ == own@.map_values(|t: WallTileFacts| t.entity),
                blocked == exists|x: int| 0 <= x < o && obstacles@[x].grid == g
                    && !own@.map_values(|t: WallTileFacts| t.entity).contains(obstacles@[x].entity),
            decreases obstacles.len() - o,
        {
            if obstacles[o].grid.0 == g.0 && obstacles[o].grid.1 == g.1 && !contains_id_list(&tile_ids, obstacles[o].entity) {
                blocked = true;
            }
            o += 1;
        }
        let ghost before = removals@;
        if !blocked {
            removals.push(g);
        }
        proof {
            assert(released@.take(q + 1) =~= released@.take(q as int).push(g));
            assert forall|h: Grid| removals@.contains(h) <==> (released@.take(q + 1).contains(h) && !blocked_by_other(obstacles@, own@, h)) by {
                if removals@.contains(h) && !before.contains(h) {
                    assert(h == g);
                    assert(released@.take(q + 1)[q as int] == g);
                }
                if before.contains(h) {
                    let z = choose|z: int| 0 <= z < before.len() && before[z] == h;
                    assert(removals@[z] == h);
                }
                let rq = released@.take(q + 1);
                if rq.contains(h) && !blocked_by_other(obstacles@, own@, h) {
                    let z = choose|z: int| 0 <= z < rq.len() && rq[z] == h;
                    if z < q {
                        assert(released@.take(q as int)[z] == h);
                    } else {
                        assert(h == g);
                        assert(removals@[removals@.len() - 1] == g);
                    }
                }
            }
        }
        q += 1;
    }
    assert(released@.take(released@.len() as int) =~= released@);
    let mut reqs: Vec<EntityId> = Vec::new();
    let mut z: usize = 0;
    while z < requests.len()
        invariant
            z <= requests@.len(),
            reqs@ == targeting(requests@.take(z as int), site),
        decreases requests.len() - z,
    {
        assert(requests@.take(z + 1).drop_last() =~= requests@.take(z as int));
        if requests[z].site == site {
            reqs.push(requests[z].entity);
        }
        z += 1;
    }
    assert(requests@.take(requests@.len() as int) =~= requests@);
    Some(WallCommitPlan { released_grids: released, obstacle_removals: removals, promoted_walls: promoted, tiles: tile_ids, requests: reqs })
}

fn contains_id_list(v: &Vec<EntityId>, e: EntityId) -> (b: bool)
    ensures
        b == v@.contains(e),
{
    let mut i: usize = 0;
    while i < v.len()
        invariant
            i <= v@.len(),
            forall|j: int| 0 <= j < i ==> v@[j] != e,
        decreases v.len() - i,
    {
        if v[i] == e {
            assert(v@[i as int] == e);
            return true;
        }
        i += 1;
    }
    false
}

} // verus!
