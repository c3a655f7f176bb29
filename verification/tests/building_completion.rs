use hell_workers_jobs::building::{
    light_anchor_tag, plan_building_commit, presentation_class, structural_visual,
    visual_layer_kind, BlueprintCommitFacts, BuildingCommitPlan, ObstacleParentFacts,
    RenderPresentationClass, StructuralPresentationState, StructuralVisual, VisualLayerKind,
    LIGHT_ANCHOR_POLICY_DOOR, LIGHT_ANCHOR_POLICY_SHIFT, LIGHT_ANCHOR_POLICY_WALL,
    LIGHT_ANCHOR_PRESENT,
};
use hell_workers_jobs::decon::{all_building_types, BuildingType};

fn tank_blueprint(blueprint: u64, footprint_owned: bool) -> BlueprintCommitFacts {
    BlueprintCommitFacts {
        blueprint,
        kind: BuildingType::Tank,
        exists: true,
        materials_complete: true,
        progress_complete: true,
        occupied_grids: vec![(10, 10), (11, 10)],
        cancel_requested: false,
        has_transform: true,
        footprint_owned,
        pending_storages: vec![7],
        obstacles: vec![],
    }
}

#[test]
fn building_completion_rejects_one_conflicting_cell_before_spawning_or_promoting_test() {
    // One of the two cells is owned by another entity: the map refuses the
    // owned-footprint check, and nothing is planned (no spawn, no promotion).
    let facts = tank_blueprint(1, false);
    assert_eq!(plan_building_commit(&facts), None);
}

#[test]
fn owned_tank_footprint_promotes_its_pending_storage() {
    let facts = tank_blueprint(1, true);
    assert_eq!(
        plan_building_commit(&facts),
        Some(BuildingCommitPlan { promoted_storages: vec![7], remaining_blockers: vec![] })
    );
}

#[test]
fn non_tank_kinds_promote_nothing_and_keep_foreign_obstacles() {
    let mut facts = tank_blueprint(1, true);
    facts.kind = BuildingType::MudMixer;
    facts.obstacles = vec![
        ObstacleParentFacts { grid: (10, 10), parent: Some(1) },
        ObstacleParentFacts { grid: (11, 10), parent: Some(9) },
        ObstacleParentFacts { grid: (40, 40), parent: None },
    ];
    assert_eq!(
        plan_building_commit(&facts),
        Some(BuildingCommitPlan { promoted_storages: vec![], remaining_blockers: vec![(11, 10)] })
    );
}

#[test]
fn incomplete_or_cancelled_blueprints_do_not_commit() {
    let mut a = tank_blueprint(1, true);
    a.progress_complete = false;
    assert_eq!(plan_building_commit(&a), None);
    let mut b = tank_blueprint(1, true);
    b.cancel_requested = true;
    assert_eq!(plan_building_commit(&b), None);
    let mut c = tank_blueprint(1, true);
    c.occupied_grids.clear();
    assert_eq!(plan_building_commit(&c), None);
}

#[test]
fn every_building_has_an_explicit_p02_presentation_class() {
    let all = all_building_types();
    let structural = all
        .iter()
        .filter(|kind| presentation_class(**kind) == RenderPresentationClass::Structural3d)
        .count();
    let foreground = all.len() - structural;

    assert_eq!(structural, 8);
    assert_eq!(foreground, 4);
}

#[test]
fn door_light_anchor_stays_on_the_logical_root_at_edges_and_corners() {
    for (grid, direction) in [((0, 0), 0u32), ((99, 0), 1), ((99, 99), 2), ((0, 99), 3)] {
        let tag = light_anchor_tag(BuildingType::Door, grid, direction)
            .expect("canonical Door root fits MeshTag");

        assert_ne!(tag & LIGHT_ANCHOR_PRESENT, 0);
        assert_eq!(tag & 0xff, grid.0 as u32);
        assert_eq!((tag >> 8) & 0xff, grid.1 as u32);
        assert_eq!((tag >> 16) & 0x3, direction);
        assert_eq!((tag >> LIGHT_ANCHOR_POLICY_SHIFT) & 0x3, LIGHT_ANCHOR_POLICY_DOOR);
    }
}

#[test]
fn wall_anchor_packs_its_policy_and_out_of_range_cells_have_none() {
    let tag = light_anchor_tag(BuildingType::Wall, (3, 4), 2).unwrap();
    assert_eq!(tag, 0x8000_0000 | 3 | (4 << 8) | (2 << 16) | (1 << 18));
    assert_eq!((tag >> LIGHT_ANCHOR_POLICY_SHIFT) & 0x3, LIGHT_ANCHOR_POLICY_WALL);
    assert_eq!(light_anchor_tag(BuildingType::Wall, (256, 0), 0), None);
    assert_eq!(light_anchor_tag(BuildingType::Wall, (0, -1), 0), None);
    assert_eq!(light_anchor_tag(BuildingType::Tank, (1, 1), 0), None);
}

#[test]
fn structural_visuals_follow_the_kind_and_provisional_state() {
    assert_eq!(structural_visual(BuildingType::SandPile, false), None);
    assert_eq!(structural_visual(BuildingType::Bridge, false), Some(StructuralVisual::Bridge));
    assert_eq!(
        structural_visual(BuildingType::Tank, false),
        Some(StructuralVisual::Equipment { state: StructuralPresentationState::TankEmpty })
    );
    assert!(structural_visual(BuildingType::Wall, true).is_some());
    assert_eq!(visual_layer_kind(BuildingType::Floor), VisualLayerKind::Floor);
    assert_eq!(visual_layer_kind(BuildingType::BonePile), VisualLayerKind::Floor);
    assert_eq!(visual_layer_kind(BuildingType::Door), VisualLayerKind::Struct);
}

#[test]
fn fallback_wall_spawn_has_exactly_one_visual_mesh_material_and_tag() {
    for is_provisional in [false, true] {
        let visual = structural_visual(BuildingType::Wall, is_provisional);
        assert_eq!(visual, Some(StructuralVisual::Wall { provisional: is_provisional }));
        let tag = light_anchor_tag(BuildingType::Wall, (3, 4), 0).unwrap();
        assert_ne!(tag & LIGHT_ANCHOR_PRESENT, 0);
        assert_eq!(tag & 0xff, 3);
        assert_eq!((tag >> 8) & 0xff, 4);
    }
}
