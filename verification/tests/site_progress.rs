use hell_workers_jobs::construction::CellOwner;
use hell_workers_jobs::decon::BuildingType;
use hell_workers_jobs::site_progress::{
    floor_completion_step, floor_phase_transition, plan_wall_commit, souls_to_evacuate,
    wall_site_ready, BuildingKindFacts, FloorCompletionStep, FloorConstructionPhase,
    FloorSiteFacts, FloorTileFacts, ObstacleFacts, SiteTargetFacts, SoulCellFacts,
    WallConstructionPhase, WallSiteFacts, WallTileFacts,
};

#[test]
fn curing_candidates_are_local_and_stably_deduplicated() {
    let first = 2;
    let second = 1;
    // The spatial query found both nearby souls; the first was listed twice.
    let candidates = vec![first, second, first];
    let souls = vec![
        SoulCellFacts { entity: first, grid: Some((8, 9)) },
        SoulCellFacts { entity: second, grid: Some((8, 9)) },
    ];
    assert_eq!(souls_to_evacuate(&candidates, &souls, &vec![(8, 9)]), vec![second, first]);
    assert!(souls_to_evacuate(&candidates, &souls, &vec![(0, 0)]).is_empty());
}

fn floor_site(phase: FloorConstructionPhase, total: u32, reinforced: u32, poured: u32) -> FloorSiteFacts {
    FloorSiteFacts { phase, tiles_total: total, tiles_reinforced: reinforced, tiles_poured: poured }
}

fn floor_tile(entity: u64, grid: (i32, i32), reinforced: bool, complete: bool) -> Option<FloorTileFacts> {
    Some(FloorTileFacts { entity, grid, reinforced_complete: reinforced, complete })
}

#[test]
fn floor_sites_move_to_pouring_only_when_every_indexed_tile_is_reinforced() {
    let site = floor_site(FloorConstructionPhase::Reinforcing, 2, 2, 0);
    let all = vec![floor_tile(1, (0, 0), true, false), floor_tile(2, (1, 0), true, false)];
    assert!(floor_phase_transition(site, Some(&all)));
    let one_missing = vec![floor_tile(1, (0, 0), true, false), None];
    assert!(!floor_phase_transition(site, Some(&one_missing)));
    let short = vec![floor_tile(1, (0, 0), true, false)];
    assert!(!floor_phase_transition(site, Some(&short)));
    assert!(!floor_phase_transition(site, None));
    assert!(!floor_phase_transition(floor_site(FloorConstructionPhase::Pouring, 2, 2, 0), Some(&all)));
}

#[test]
fn floor_completion_enters_curing_then_completes() {
    let tiles = vec![floor_tile(1, (0, 0), true, true), floor_tile(2, (1, 0), true, true)];
    let pouring = floor_site(FloorConstructionPhase::Pouring, 2, 2, 2);
    match floor_completion_step(pouring, &tiles, false, false) {
        FloorCompletionStep::EnterCuring { tiles: t } => {
            assert_eq!(t.iter().map(|t| t.entity).collect::<Vec<_>>(), vec![1, 2]);
        },
        other => panic!("unexpected step {:?}", other),
    }
    let waiting = floor_site(FloorConstructionPhase::Pouring, 2, 2, 1);
    assert_eq!(floor_completion_step(waiting, &tiles, false, false), FloorCompletionStep::Wait);
    let curing = floor_site(FloorConstructionPhase::Curing, 2, 2, 2);
    assert_eq!(floor_completion_step(curing, &tiles, true, false), FloorCompletionStep::KeepCuring);
    assert_eq!(floor_completion_step(curing, &tiles, true, true), FloorCompletionStep::Complete);
    assert!(matches!(
        floor_completion_step(curing, &tiles, false, false),
        FloorCompletionStep::RebuildFootprint { .. }
    ));
}

const SITE: u64 = 500;

fn coated(total: u32) -> Option<WallSiteFacts> {
    Some(WallSiteFacts {
        phase: WallConstructionPhase::Coating,
        tiles_total: total,
        tiles_coated: total,
        cancel_requested: false,
    })
}

fn wall_tile(entity: u64, grid: (i32, i32), wall: Option<u64>) -> WallTileFacts {
    WallTileFacts { entity, parent_site: SITE, grid, complete: true, spawned_wall: wall }
}

#[test]
fn wall_completion_validates_every_tile_before_promoting_or_removing_any_test() {
    for missing_wall in [false, true] {
        let tiles = vec![wall_tile(10, (10, 10), Some(20)), wall_tile(11, (11, 10), Some(21))];
        let (owners, kinds) = if missing_wall {
            // The second wall was despawned: it has no building any more.
            (
                vec![CellOwner { grid: (10, 10), owner: 20 }, CellOwner { grid: (11, 10), owner: 21 }],
                vec![BuildingKindFacts { entity: 20, kind: BuildingType::Wall }],
            )
        } else {
            // Another building took the second cell.
            (
                vec![CellOwner { grid: (10, 10), owner: 20 }, CellOwner { grid: (11, 10), owner: 99 }],
                vec![
                    BuildingKindFacts { entity: 20, kind: BuildingType::Wall },
                    BuildingKindFacts { entity: 21, kind: BuildingType::Wall },
                ],
            )
        };
        let requests = vec![SiteTargetFacts { entity: 30, site: SITE }];
        assert_eq!(
            plan_wall_commit(SITE, coated(2), &tiles, &owners, &kinds, &vec![], &requests),
            None
        );
    }
}

#[test]
fn coating_completion_promotes_provisional_wall_and_starts_a_fresh_bounce() {
    let tiles = vec![wall_tile(10, (12, 13), Some(20))];
    let owners = vec![CellOwner { grid: (12, 13), owner: 20 }];
    let kinds = vec![BuildingKindFacts { entity: 20, kind: BuildingType::Wall }];
    assert!(wall_site_ready(SITE, coated(1).unwrap(), &vec![Some(tiles[0])]));
    let plan = plan_wall_commit(SITE, coated(1), &tiles, &owners, &kinds, &vec![], &vec![]).unwrap();
    assert_eq!(plan.promoted_walls, vec![20]);
    assert_eq!(plan.tiles, vec![10]);
    assert!(plan.released_grids.is_empty());
}

#[test]
fn two_tile_site_keeps_exact_topology_through_framing_and_completion() {
    let tiles = vec![wall_tile(10, (20, 20), Some(40)), wall_tile(11, (21, 20), Some(41))];
    let owners = vec![CellOwner { grid: (20, 20), owner: 40 }, CellOwner { grid: (21, 20), owner: 41 }];
    let kinds = vec![
        BuildingKindFacts { entity: 40, kind: BuildingType::Wall },
        BuildingKindFacts { entity: 41, kind: BuildingType::Wall },
    ];
    let entries = vec![Some(tiles[0]), Some(tiles[1])];
    assert!(wall_site_ready(SITE, coated(2).unwrap(), &entries));
    let not_coated = WallSiteFacts { tiles_coated: 1, ..coated(2).unwrap() };
    assert!(!wall_site_ready(SITE, not_coated, &entries));
    let plan = plan_wall_commit(SITE, coated(2), &tiles, &owners, &kinds, &vec![], &vec![]).unwrap();
    assert_eq!(plan.promoted_walls, vec![40, 41]);
    assert_eq!(plan.tiles, vec![10, 11]);
}

#[test]
fn tiles_without_walls_release_their_cells_unless_another_obstacle_stands_there() {
    let tiles = vec![wall_tile(10, (1, 1), None), wall_tile(11, (2, 1), None)];
    let owners = vec![CellOwner { grid: (1, 1), owner: SITE }, CellOwner { grid: (2, 1), owner: SITE }];
    let obstacles = vec![
        ObstacleFacts { entity: 10, grid: (1, 1) },
        ObstacleFacts { entity: 77, grid: (2, 1) },
    ];
    let requests = vec![
        SiteTargetFacts { entity: 30, site: SITE },
        SiteTargetFacts { entity: 31, site: 999 },
    ];
    let plan = plan_wall_commit(SITE, coated(2), &tiles, &owners, &vec![], &obstacles, &requests).unwrap();
    assert_eq!(plan.released_grids, vec![(1, 1), (2, 1)]);
    assert_eq!(plan.obstacle_removals, vec![(1, 1)]);
    assert!(plan.promoted_walls.is_empty());
    assert_eq!(plan.requests, vec![30]);
    let mut cancelled = coated(2).unwrap();
    cancelled.cancel_requested = true;
    assert_eq!(plan_wall_commit(SITE, Some(cancelled), &tiles, &owners, &vec![], &obstacles, &requests), None);
}
