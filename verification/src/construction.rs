//! Cancellation of floor and wall construction sites.
//!
//! Cancelling a site is site-wide: every worker bound to the site, its
//! tiles, its delivery requests or a wall it spawned is released, the
//! delivery requests and tiles are removed, the materials delivered to the
//! tiles are refunded, and the site's map occupancy is cleared.

use vstd::prelude::*;
use crate::grid::{EntityId, Grid};

verus! {

/// Which kind of construction site is cancelled.
#[derive(Debug, Clone, Copy, PartialEq, Eq, Structural)]
pub enum ConstructionKind {
    Floor,
    Wall,
}

/// The kind of a transport request.
#[derive(Debug, Clone, Copy, PartialEq, Eq, Structural)]
pub enum TransportRequestKind {
    DeliverToFloorConstruction,
    DeliverToWallConstruction,
    /// Any other kind of request.
    Other,
}

/// The request kind that delivers to a site of this kind.
pub open spec fn site_request_kind(k: ConstructionKind) -> TransportRequestKind {
    match k {
        ConstructionKind::Floor => TransportRequestKind::DeliverToFloorConstruction,
        ConstructionKind::Wall => TransportRequestKind::DeliverToWallConstruction,
    }
}

/// A construction tile blueprint.
#[derive(Debug, Clone, Copy, PartialEq, Eq)]
pub struct SiteTileFacts {
    pub entity: EntityId,
    pub parent_site: EntityId,
    pub grid: Grid,
    /// Bones for a floor tile, wood for a wall tile.
    pub primary_delivered: u32,
    /// Stasis mud delivered.
    pub secondary_delivered: u32,
    /// The provisional wall a wall tile spawned.
    pub spawned_wall: Option<EntityId>,
}

/// A transport request.
#[derive(Debug, Clone, Copy, PartialEq, Eq, Structural)]
pub struct RequestFacts {
    pub entity: EntityId,
    pub kind: TransportRequestKind,
    pub anchor: EntityId,
}

/// A soul and the task it is assigned.
#[derive(Debug, Clone, Copy, PartialEq, Eq, Structural)]
pub struct WorkerFacts {
    pub entity: EntityId,
    /// For a floor reinforcing or pouring task, the site it works for.
    pub floor_task_site: Option<EntityId>,
    /// The task's primary payload entity.
    pub payload: Option<EntityId>,
    /// The entity the task delivers to (a haul's destination).
    pub destination: Option<EntityId>,
    /// The entity its `WorkingOn` names.
    pub working_on: Option<EntityId>,
}

/// The building that owns a map cell.
#[derive(Debug, Clone, Copy, PartialEq, Eq)]
pub struct CellOwner {
    pub grid: Grid,
    pub owner: EntityId,
}

/// The tile a component lookup by entity finds.
pub open spec fn tile_of(tiles: Seq<SiteTileFacts>, e: EntityId) -> Option<SiteTileFacts>
    decreases tiles.len(),
{
    if tiles.len() == 0 {
        None
    } else if tiles[0].entity == e {
        Some(tiles[0])
    } else {
        tile_of(tiles.drop_first(), e)
    }
}

/// The site's tiles found through its index entries, in index order.
pub open spec fn indexed_site_tiles(site: EntityId, indexed: Seq<EntityId>, tiles: Seq<SiteTileFacts>) -> Seq<SiteTileFacts>
    decreases indexed.len(),
{
    if indexed.len() == 0 {
        Seq::empty()
    } else {
        let rest = indexed_site_tiles(site, indexed.drop_last(), tiles);
        match tile_of(tiles, indexed.last()) {
            Some(t) => if t.parent_site == site { rest.push(t) } else { rest },
            None => rest,
        }
    }
}

pub open spec fn tile_entities(ts: Seq<SiteTileFacts>) -> Seq<EntityId> {
    ts.map_values(|t: SiteTileFacts| t.entity)
}

/// The site's tiles the index missed, in query order, each once.
pub open spec fn fallback_site_tiles(site: EntityId, seen: Seq<EntityId>, tiles: Seq<SiteTileFacts>) -> Seq<SiteTileFacts>
    decreases tiles.len(),
{
    if tiles.len() == 0 {
        Seq::empty()
    } else {
        let rest = fallback_site_tiles(site, seen, tiles.drop_last());
        let t = tiles.last();
        if t.parent_site == site && !seen.contains(t.entity) && !tile_entities(rest).contains(t.entity) {
            rest.push(t)
        } else {
            rest
        }
    }
}

/// Every tile of the site: the indexed ones, then those the index missed.
pub open spec fn site_tiles(site: EntityId, indexed: Seq<EntityId>, tiles: Seq<SiteTileFacts>) -> Seq<SiteTileFacts> {
    let ix = indexed_site_tiles(site, indexed, tiles);
    ix + fallback_site_tiles(site, tile_entities(ix), tiles)
}

/// The site's delivery requests, in query order.
pub open spec fn site_requests(kind: ConstructionKind, site: EntityId, rs: Seq<RequestFacts>) -> Seq<EntityId>
    decreases rs.len(),
{
    if rs.len() == 0 {
        Seq::empty()
    } else {
        let rest = site_requests(kind, site, rs.drop_last());
        let r = rs.last();
        if r.kind == site_request_kind(kind) && r.anchor == site { rest.push(r.entity) } else { rest }
    }
}

/// The walls the site's tiles spawned.
pub open spec fn spawned_walls(ts: Seq<SiteTileFacts>) -> Seq<EntityId>
    decreases ts.len(),
{
    if ts.len() == 0 {
        Seq::empty()
    } else {
        let rest = spawned_walls(ts.drop_last());
        match ts.last().spawned_wall {
            Some(w) => rest.push(w),
            None => rest,
        }
    }
}

/// The entities a worker can be bound to: the site, its tiles, its
/// requests, and for a wall site the walls it spawned.
pub open spec fn related_targets(kind: ConstructionKind, site: EntityId, ts: Seq<SiteTileFacts>, requests: Seq<EntityId>) -> Set<EntityId> {
    tile_entities(ts).to_set() + requests.to_set() + Set::empty().insert(site)
        + if kind == ConstructionKind::Wall { spawned_walls(ts).to_set() } else { Set::empty() }
}

/// The worker is bound to the site: a floor worker by its floor task, a
/// wall worker by its task's payload, and either by its task's destination
/// or the entity it is working on.
pub open spec fn worker_bound(kind: ConstructionKind, site: EntityId, related: Set<EntityId>, w: WorkerFacts) -> bool {
    ||| (kind == ConstructionKind::Floor && w.floor_task_site == Some(site))
    ||| (kind == ConstructionKind::Wall && (w.payload matches Some(p) && related.contains(p)))
    ||| (w.destination matches Some(d) && related.contains(d))
    ||| (w.working_on matches Some(o) && related.contains(o))
}

/// The bound workers, in query order.
pub open spec fn bound_workers(kind: ConstructionKind, site: EntityId, related: Set<EntityId>, ws: Seq<WorkerFacts>) -> Seq<EntityId>
    decreases ws.len(),
{
    if ws.len() == 0 {
        Seq::empty()
    } else {
        let rest = bound_workers(kind, site, related, ws.drop_last());
        if worker_bound(kind, site, related, ws.last()) { rest.push(ws.last().entity) } else { rest }
    }
}

pub open spec fn primary_sum(ts: Seq<SiteTileFacts>) -> int
    decreases ts.len(),
{
    if ts.len() == 0 { 0 } else { primary_sum(ts.drop_last()) + ts.last().primary_delivered }
}

pub open spec fn secondary_sum(ts: Seq<SiteTileFacts>) -> int
    decreases ts.len(),
{
    if ts.len() == 0 { 0 } else { secondary_sum(ts.drop_last()) + ts.last().secondary_delivered }
}

/// A cancelled site refunds exactly what its tiles had received, material
/// by material: a site without tiles refunds nothing, a one-tile site
/// refunds that tile's delivered primary material and stasis mud, and the
/// refund of two groups of tiles is the sum of their refunds.
pub proof fn law_refund_is_delivered_material(a: Seq<SiteTileFacts>, b: Seq<SiteTileFacts>, t: SiteTileFacts)
    ensures
        primary_sum(Seq::<SiteTileFacts>::empty()) == 0,
        secondary_sum(Seq::<SiteTileFacts>::empty()) == 0,
        primary_sum(seq![t]) == t.primary_delivered,
        secondary_sum(seq![t]) == t.secondary_delivered,
        primary_sum(a + b) == primary_sum(a) + primary_sum(b),
        secondary_sum(a + b) == secondary_sum(a) + secondary_sum(b),
    decreases b.len(),
{
    assert(seq![t].drop_last() =~= Seq::<SiteTileFacts>::empty());
    assert(primary_sum(seq![t]) == primary_sum(Seq::<SiteTileFacts>::empty()) + t.primary_delivered);
    assert(secondary_sum(seq![t]) == secondary_sum(Seq::<SiteTileFacts>::empty()) + t.secondary_delivered);
    if b.len() == 0 {
        assert(a + b =~= a);
    } else {
        law_refund_is_delivered_material(a, b.drop_last(), t);
        assert((a + b).drop_last() =~= a + b.drop_last());
        assert((a + b).last() == b.last());
    }
}

/// The owner the map records for a cell, when it records one.
pub open spec fn owner_at(owners: Seq<CellOwner>, g: Grid) -> Option<EntityId>
    decreases owners.len(),
{
    if owners.len() == 0 {
        None
    } else if owners[0].grid == g {
        Some(owners[0].owner)
    } else {
        owner_at(owners.drop_first(), g)
    }
}

/// The cells whose occupancy is cleared: for a floor site every tile cell
/// (the map clears it only where the site owns it); for a wall site the
/// tile cells owned by the site or by the wall the tile spawned.
pub open spec fn cleared_cells(kind: ConstructionKind, site: EntityId, ts: Seq<SiteTileFacts>, owners: Seq<CellOwner>) -> Seq<Grid>
    decreases ts.len(),
{
    if ts.len() == 0 {
        Seq::empty()
    } else {
        let rest = cleared_cells(kind, site, ts.drop_last(), owners);
        let t = ts.last();
        let keep = kind == ConstructionKind::Floor || (owner_at(owners, t.grid) matches Some(o)
            && (o == site || Some(o) == t.spawned_wall));
        if keep { rest.push(t.grid) } else { rest }
    }
}

/// What cancelling a site does.
#[derive(Debug, Clone, PartialEq, Eq)]
pub struct CancellationPlan {
    /// The site's tiles, despawned in this order.
    pub tiles: Vec<SiteTileFacts>,
    /// The delivery requests to despawn.
    pub requests: Vec<EntityId>,
    /// The workers to unassign.
    pub workers: Vec<EntityId>,
    /// The refund of the primary material (bones or wood).
    pub refund_primary: u128,
    /// The refund of stasis mud.
    pub refund_secondary: u128,
    /// The cells whose building occupancy is cleared.
    pub cleared_cells: Vec<Grid>,
}

fn find_tile(tiles: &Vec<SiteTileFacts>, e: EntityId) -> (r: Option<SiteTileFacts>)
    ensures
        r == tile_of(tiles@, e),
{
    let mut i: usize = 0;
    assert(tiles@.skip(0) =~= tiles@);
    while i < tiles.len()
        invariant
            i <= tiles@.len(),
            tile_of(tiles@, e) == tile_of(tiles@.skip(i as int), e),
        decreases tiles.len() - i,
    {
        assert(tiles@.skip(i as int)[0] == tiles@[i as int]);
        assert(tiles@.skip(i as int).drop_first() =~= tiles@.skip(i + 1));
        if tiles[i].entity == e {
            return Some(tiles[i]);
        }
        i += 1;
    }
    None
}

fn find_owner(owners: &Vec<CellOwner>, g: Grid) -> (r: Option<EntityId>)
    ensures
        r == owner_at(owners@, g),
{
    let mut i: usize = 0;
    assert(owners@.skip(0) =~= owners@);
    while i < owners.len()
        invariant
            i <= owners@.len(),
            owner_at(owners@, g) == owner_at(owners@.skip(i as int), g),
        decreases owners.len() - i,
    {
        assert(owners@.skip(i as int)[0] == owners@[i as int]);
        assert(owners@.skip(i as int).drop_first() =~= owners@.skip(i + 1));
        if owners[i].grid.0 == g.0 && owners[i].grid.1 == g.1 {
            return Some(owners[i].owner);
        }
        i += 1;
    }
    None
}

fn has_entity(v: &Vec<EntityId>, e: EntityId) -> (b: bool)
    ensures
        b == v@.contains(e),
{
    let mut i: usize = 0;
    while i < v.len()
        invariant
            i <= v@.len(),
            forall|j: int| 0 <= j < i ==> v@[j] != e,
        decreases v.len() - i,
    {
        if v[i] == e {
            assert(v@[i as int] == e);
            return true;
        }
        i += 1;
    }
    false
}

fn opt_has(v: &Vec<EntityId>, o: Option<EntityId>) -> (b: bool)
    ensures
        b == (o matches Some(e) && v@.to_set().contains(e)),
{
    match o {
        Some(e) => has_entity(v, e),
        None => false,
    }
}

/// Collects the site's tiles: the index's entries whose tile names the
/// site, then every other tile of the site once.
pub fn collect_site_tiles(site: EntityId, indexed: &Vec<EntityId>, tiles: &Vec<SiteTileFacts>) -> (r: Vec<SiteTileFacts>)
    ensures
        r@ == site_tiles(site, indexed@, tiles@),
{
    let mut out: Vec<SiteTileFacts> = Vec::new();
    let mut seen: Vec<EntityId> = Vec::new();
    let mut i: usize = 0;
    while i < indexed.len()
        invariant
            i <= indexed@.len(),
            out@ == indexed_site_tiles(site, indexed@.take(i as int), tiles@),
            seen@ == tile_entities(out@),
        decreases indexed.len() - i,
    {
        assert(indexed@.take(i + 1).drop_last() =~= indexed@.take(i as int));
        match find_tile(tiles, indexed[i]) {
            Some(t) => {
                if t.parent_site == site {
                    let ghost before = out@;
                    out.push(t);
                    seen.push(t.entity);
                    assert(tile_entities(before.push(t)) =~= tile_entities(before).push(t.entity));
                }
            },
            None => {},
        }
        i += 1;
    }
    assert(indexed@.take(indexed@.len() as int) =~= indexed@);
    let ghost ix = out@;
    let ghost ix_seen = seen@;
    let mut extra: Vec<SiteTileFacts> = Vec::new();
    let mut extra_seen: Vec<EntityId> = Vec::new();
    let mut k: usize = 0;
    while k < tiles.len()
        invariant
            k <= tiles@.len(),
            seen@ == ix_seen,
            extra@ == fallback_site_tiles(site, ix_seen, tiles@.take(k as int)),
            extra_seen@ == tile_entities(extra@),
        decreases tiles.len() - k,
    {
        assert(tiles@.take(k + 1).drop_last() =~= tiles@.take(k as int));
        let t = tiles[k];
        if t.parent_site == site && !has_entity(&seen, t.entity) && !has_entity(&extra_seen, t.entity) {
            let ghost before = extra@;
            extra.push(t);
            extra_seen.push(t.entity);
            assert(tile_entities(before.push(t)) =~= tile_entities(before).push(t.entity));
        }
        k += 1;
    }
    assert(tiles@.take(tiles@.len() as int) =~= tiles@);
    let mut j: usize = 0;
    while j < extra.len()
        invariant
            j <= extra@.len(),
            out@ == ix + extra@.take(j as int),
        decreases extra.len() - j,
    {
        out.push(extra[j]);
        j += 1;
        assert(out@ =~= ix + extra@.take(j as int));
    }
    assert(extra@.take(extra@.len() as int) =~= extra@);
    out
}

/// Plans the cancellation of a floor or wall site from its tiles, the
/// transport requests, the souls' tasks and the map's cell owners.
pub fn plan_construction_cancellation(
    kind: ConstructionKind,
    site: EntityId,
    indexed: &Vec<EntityId>,
    tiles: &Vec<SiteTileFacts>,
    requests: &Vec<RequestFacts>,
    workers: &Vec<WorkerFacts>,
    owners: &Vec<CellOwner>,
) -> (p: CancellationPlan)
    ensures
        p.tiles@ == site_tiles(site, indexed@, tiles@),
        p.requests@ == site_requests(kind, site, requests@),
        p.workers@ == bound_workers(kind, site, related_targets(kind, site, p.tiles@, p.requests@), workers@),
        p.refund_primary == primary_sum(p.tiles@),
        p.refund_secondary == secondary_sum(p.tiles@),
        p.cleared_cells@ == cleared_cells(kind, site, p.tiles@, owners@),
{
    let ts = collect_site_tiles(site, indexed, tiles);
    let want = match kind {
        ConstructionKind::Floor => TransportRequestKind::DeliverToFloorConstruction,
        ConstructionKind::Wall => TransportRequestKind::DeliverToWallConstruction,
    };
    let mut reqs: Vec<EntityId> = Vec::new();
    let mut i: usize = 0;
    while i < requests.len()
        invariant
            i <= requests@.len(),
            want == site_request_kind(kind),
            reqs@ == site_requests(kind, site, requests@.take(i as int)),
        decreases requests.len() - i,
    {
        assert(requests@.take(i + 1).drop_last() =~= requests@.take(i as int));
        if requests[i].kind == want && requests[i].anchor == site {
            reqs.push(requests[i].entity);
        }
        i += 1;
    }
    assert(requests@.take(requests@.len() as int) =~= requests@);
    let mut related: Vec<EntityId> = Vec::new();
    let mut primary: u128 = 0;
    let mut secondary: u128 = 0;
    let mut cells: Vec<Grid> = Vec::new();
    let mut walls: Vec<EntityId> = Vec::new();
    let mut t: usize = 0;
    while t < ts.len()
        invariant
            t <= ts@.len(),
            related@ == tile_entities(ts@.take(t as int)),
            walls@ == spawned_walls(ts@.take(t as int)),
            primary == primary_sum(ts@.take(t as int)),
            secondary == secondary_sum(ts@.take(t as int)),
            primary <= t * 0xffff_ffff,
            secondary <= t * 0xffff_ffff,
            t <= usize::MAX,
            cells@ == cleared_cells(kind, site, ts@.take(t as int), owners@),
        decreases ts.len() - t,
    {
        let tile = ts[t];
        let ghost before = ts@.take(t as int);
        assert(ts@.take(t + 1).drop_last() =~= before);
        assert(tile_entities(before.push(tile)) =~= tile_entities(before).push(tile.entity));
        assert(ts@.take(t + 1) == before.push(tile));
        related.push(tile.entity);
        match tile.spawned_wall {
            Some(w) => walls.push(w),
            None => {},
        }
        proof {
            assert((t + 1) * 0xffff_ffff == t * 0xffff_ffff + 0xffff_ffff) by (nonlinear_arith);
            assert((t + 1) * 0xffff_ffff <= 0x1_0000_0000_0000_0000 * 0xffff_ffff) by (nonlinear_arith)
                requires
                    t < 0x1_0000_0000_0000_0000,
            ;
        }
        primary = primary + tile.primary_delivered as u128;
        secondary = secondary + tile.secondary_delivered as u128;
        let keep = match kind {
            ConstructionKind::Floor => true,
            ConstructionKind::Wall => match find_owner(owners, tile.grid) {
                Some(o) => o == site || Some(o) == tile.spawned_wall,
                None => false,
            },
        };
        if keep {
            cells.push(tile.grid);
        }
        t += 1;
    }
    assert(ts@.take(ts@.len() as int) =~= ts@);
    append_ids(&mut related, &reqs);
    related.push(site);
    if kind == ConstructionKind::Wall {
        append_ids(&mut related, &walls);
    }
    proof {
        let rt = related_targets(kind, site, ts@, reqs@);
        assert forall|x: EntityId| related@.to_set().contains(x) <==> rt.contains(x) by {
            let te = tile_entities(ts@);
            if kind == ConstructionKind::Wall {
                assert(related@ =~= te + reqs@ + seq![site] + spawned_walls(ts@));
            } else {
                assert(related@ =~= te + reqs@ + seq![site]);
            }
            if related@.contains(x) {
                let k = choose|k: int| 0 <= k < related@.len() && related@[k] == x;
                if k < te.len() {
                    assert(te[k] == x);
                } else if k < te.len() + reqs@.len() {
                    assert(reqs@[k - te.len()] == x);
                } else if k == te.len() + reqs@.len() {
                } else {
                    assert(spawned_walls(ts@)[k - te.len() - reqs@.len() - 1] == x);
                }
            }
            if te.contains(x) {
                let k = choose|k: int| 0 <= k < te.len() && te[k] == x;
                assert(related@[k] == x);
            }
            if reqs@.contains(x) {
                let k = choose|k: int| 0 <= k < reqs@.len() && reqs@[k] == x;
                assert(related@[te.len() + k] == x);
            }
            if x == site {
                assert(related@[(te.len() + reqs@.len()) as int] == x);
            }
            if kind == ConstructionKind::Wall && spawned_walls(ts@).contains(x) {
                let k = choose|k: int| 0 <= k < spawned_walls(ts@).len() && spawned_walls(ts@)[k] == x;
                assert(related@[te.len() + reqs@.len() + 1 + k] == x);
            }
        }
        assert(related@.to_set() =~= rt);
    }
    let mut bound: Vec<EntityId> = Vec::new();
    let mut w: usize = 0;
    while w < workers.len()
        invariant
            w <= workers@.len(),
            related@.to_set() == related_targets(kind, site, ts@, reqs@),
            bound@ == bound_workers(kind, site, related_targets(kind, site, ts@, reqs@), workers@.take(w as int)),
        decreases workers.len() - w,
    {
        assert(workers@.take(w + 1).drop_last() =~= workers@.take(w as int));
        let f = workers[w];
        let by_task = match kind {
            ConstructionKind::Floor => f.floor_task_site == Some(site),
            ConstructionKind::Wall => opt_has(&related, f.payload),
        };
        if by_task || opt_has(&related, f.destination) || opt_has(&related, f.working_on) {
            bound.push(f.entity);
        }
        w += 1;
    }
    assert(workers@.take(workers@.len() as int) =~= workers@);
    CancellationPlan {
        tiles: ts,
        requests: reqs,
        workers: bound,
        refund_primary: primary,
        refund_secondary: secondary,
        cleared_cells: cells,
    }
}

fn append_ids(out: &mut Vec<EntityId>, items: &Vec<EntityId>)
    ensures
        final(out)@ == old(out)@ + items@,
{
    let ghost start = out@;
    let mut i: usize = 0;
    while i < items.len()
        invariant
            i <= items@.len(),
            out@ == start + items@.take(i as int),
        decreases items.len() - i,
    {
        out.push(items[i]);
        i += 1;
        assert(out@ =~= start + items@.take(i as int));
    }
    assert(items@.take(items@.len() as int) =~= items@);
}

} // verus!
