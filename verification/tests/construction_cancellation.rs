use hell_workers_jobs::construction::{
    collect_site_tiles, plan_construction_cancellation, CellOwner, ConstructionKind, RequestFacts,
    SiteTileFacts, TransportRequestKind, WorkerFacts,
};

const SITE: u64 = 100;

fn tile(entity: u64, grid: (i32, i32), primary: u32, secondary: u32, wall: Option<u64>) -> SiteTileFacts {
    SiteTileFacts {
        entity,
        parent_site: SITE,
        grid,
        primary_delivered: primary,
        secondary_delivered: secondary,
        spawned_wall: wall,
    }
}

fn idle_worker(entity: u64) -> WorkerFacts {
    WorkerFacts { entity, floor_task_site: None, payload: None, destination: None, working_on: None }
}

#[test]
fn construction_cancellation_releases_secondary_destination_test() {
    for floor in [false, true] {
        for with_working_on in [false, true] {
            let kind = if floor { ConstructionKind::Floor } else { ConstructionKind::Wall };
            let item = 7;
            // A haul whose destination is the site itself.
            let soul = WorkerFacts {
                entity: 1,
                floor_task_site: None,
                payload: Some(item),
                destination: Some(SITE),
                working_on: if with_working_on { Some(item) } else { None },
            };
            let plan = plan_construction_cancellation(kind, SITE, &vec![], &vec![], &vec![], &vec![soul], &vec![]);
            assert_eq!(plan.workers, vec![1]);
            assert!(plan.tiles.is_empty());
            assert_eq!(plan.refund_primary, 0);
            assert_eq!(plan.refund_secondary, 0);
        }
    }
}

#[test]
fn construction_cancellation_floor_falls_back_from_empty_index_and_anchor_request() {
    let tiles = vec![tile(10, (4, 5), 2, 1, None)];
    let soul = WorkerFacts {
        entity: 1,
        floor_task_site: Some(SITE),
        payload: Some(10),
        destination: None,
        working_on: Some(10),
    };
    let requests = vec![RequestFacts { entity: 30, kind: TransportRequestKind::DeliverToFloorConstruction, anchor: SITE }];
    let owners = vec![CellOwner { grid: (4, 5), owner: SITE }];
    let plan = plan_construction_cancellation(
        ConstructionKind::Floor,
        SITE,
        &vec![],
        &tiles,
        &requests,
        &vec![soul, idle_worker(2)],
        &owners,
    );
    assert_eq!(plan.tiles, tiles);
    assert_eq!(plan.requests, vec![30]);
    assert_eq!(plan.workers, vec![1]);
    assert_eq!(plan.cleared_cells, vec![(4, 5)]);
    assert_eq!(plan.refund_primary + plan.refund_secondary, 3);
}

#[test]
fn construction_cancellation_floor_handles_a_zero_tile_site() {
    let plan = plan_construction_cancellation(
        ConstructionKind::Floor,
        SITE,
        &vec![],
        &vec![],
        &vec![],
        &vec![],
        &vec![],
    );
    assert!(plan.tiles.is_empty());
    assert_eq!(plan.refund_primary + plan.refund_secondary, 0);
}

#[test]
fn construction_cancellation_wall_falls_back_from_empty_index_and_anchor_request() {
    let spawned_wall = 50;
    let tiles = vec![tile(10, (7, 8), 1, 1, Some(spawned_wall))];
    let soul = WorkerFacts {
        entity: 1,
        floor_task_site: None,
        payload: Some(10),
        destination: None,
        working_on: Some(10),
    };
    let requests = vec![
        RequestFacts { entity: 30, kind: TransportRequestKind::DeliverToWallConstruction, anchor: SITE },
        RequestFacts { entity: 31, kind: TransportRequestKind::DeliverToFloorConstruction, anchor: SITE },
    ];
    let owners = vec![CellOwner { grid: (7, 8), owner: SITE }];
    let plan = plan_construction_cancellation(
        ConstructionKind::Wall,
        SITE,
        &vec![],
        &tiles,
        &requests,
        &vec![soul],
        &owners,
    );
    assert_eq!(plan.tiles[0].spawned_wall, Some(spawned_wall));
    assert_eq!(plan.requests, vec![30]);
    assert_eq!(plan.workers, vec![1]);
    assert_eq!(plan.cleared_cells, vec![(7, 8)]);
    assert_eq!(plan.refund_primary + plan.refund_secondary, 2);
}

#[test]
fn construction_cancellation_wall_handles_a_zero_tile_site() {
    let plan = plan_construction_cancellation(
        ConstructionKind::Wall,
        SITE,
        &vec![],
        &vec![],
        &vec![],
        &vec![],
        &vec![],
    );
    assert!(plan.tiles.is_empty());
    assert!(plan.workers.is_empty());
    assert_eq!(plan.refund_primary + plan.refund_secondary, 0);
}

#[test]
fn indexed_tiles_come_first_then_those_the_index_missed() {
    let tiles = vec![
        tile(10, (0, 0), 1, 0, None),
        tile(11, (1, 0), 1, 0, None),
        SiteTileFacts { parent_site: 999, ..tile(12, (2, 0), 5, 5, None) },
    ];
    let listed = collect_site_tiles(SITE, &vec![11, 12, 11], &tiles);
    assert_eq!(listed.iter().map(|t| t.entity).collect::<Vec<_>>(), vec![11, 11, 10]);
    let once = collect_site_tiles(SITE, &vec![11], &tiles);
    assert_eq!(once.iter().map(|t| t.entity).collect::<Vec<_>>(), vec![11, 10]);
}

#[test]
fn wall_cells_owned_by_others_are_not_cleared() {
    let tiles = vec![tile(10, (1, 1), 0, 0, Some(40)), tile(11, (2, 1), 0, 0, None)];
    let owners = vec![
        CellOwner { grid: (1, 1), owner: 40 },
        CellOwner { grid: (2, 1), owner: 77 },
    ];
    let plan = plan_construction_cancellation(ConstructionKind::Wall, SITE, &vec![], &tiles, &vec![], &vec![], &owners);
    assert_eq!(plan.cleared_cells, vec![(1, 1)]);
    let floor = plan_construction_cancellation(ConstructionKind::Floor, SITE, &vec![], &tiles, &vec![], &vec![], &owners);
    assert_eq!(floor.cleared_cells, vec![(1, 1), (2, 1)]);
}
