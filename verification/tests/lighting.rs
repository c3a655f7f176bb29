use hell_workers_jobs::decon::BuildingType;
use hell_workers_jobs::light_fixture::{
    normalized_mount, rebuilt_emitter, sync_outdoor_lamp, validate_fixture_mount_candidate,
    validate_grid, AnchorFacts, FixtureCandidateFacts, FixtureMountError, LampSync,
    LightingFixtureMount, MountCellLabel, RadialLightEmitter,
};
use hell_workers_jobs::light_input::{
    build_input, BuildingLightFacts, CardinalDirection, DoorLightFacts, DoorState,
    EmitterLightFacts, FixtureMount, GridDimensions, OcclusionCell, RuntimeInputError,
};
use hell_workers_jobs::light_runtime::{
    collect_indoor_lighting_snapshot, mark_indoor_lighting_dirty, read_indoor_light_snapshot,
    reset_indoor_lighting_for_world_replace, wake_indoor_lighting, Digest, FieldSnapshot,
    IndoorLightAvailability, IndoorLightRuntime, IndoorLightingAllocationProbe,
    IndoorLightingDirty, IndoorLightingLifecycleProbe, LightingChangeFacts, LightingError,
    RebuildOutcome,
};

const DIMS: GridDimensions = GridDimensions { width: 100, height: 100 };

fn lamp_emitter(grid: (i32, i32), supplied: bool) -> EmitterLightFacts {
    let emitter = RadialLightEmitter::outdoor_lamp(grid);
    EmitterLightFacts {
        mount: emitter.mount,
        mount_origin: grid,
        radius_tiles: emitter.radius_tiles,
        color: (emitter.color.r, emitter.color.g, emitter.color.b),
        intensity: emitter.intensity,
        grid,
        supplied,
        owner: Some((BuildingType::OutdoorLamp, false)),
    }
}

/// What the light-field core would hand back for a field lit at `index`.
fn lit_outcome(revision: u64, index: usize, checksum: u64) -> RebuildOutcome {
    let mut luminance = vec![0u16; 10_000];
    luminance[index] = 900;
    RebuildOutcome {
        snapshot: FieldSnapshot {
            field_revision: revision,
            field_checksum_hex: "ab".repeat(32),
            mask_checksum_hex: "cd".repeat(32),
            indoor_mask_bytes: vec![0u8; 10_000],
            luminance,
            changed_cell_count: 1,
        },
        input_checksum: Digest { w0: checksum, w1: 0, w2: 0, w3: 0 },
        diagnostics: vec![],
    }
}

fn no_changes(room_mask_revision: u64) -> LightingChangeFacts {
    LightingChangeFacts {
        buildings_changed: false,
        doors_changed: false,
        building_removed: false,
        door_removed: false,
        emitters_changed: false,
        emitter_removed: false,
        supply_removed_from_emitter: false,
        room_mask_revision,
    }
}

#[test]
fn supplied_outdoor_lamp_builds_field_and_steady_updates_do_no_work() {
    let grid = (10, 10);
    let mut runtime = IndoorLightRuntime::new();
    let mut dirty = IndoorLightingDirty::default();
    let room = vec![grid];
    collect_indoor_lighting_snapshot(&mut runtime, &mut dirty, DIMS, &vec![], &vec![], &room, &vec![lamp_emitter(grid, true)]);
    assert_eq!(runtime.typed_emitter_components(), 1);
    assert_eq!(runtime.eligible_supplied_emitters(), 1);
    let input = runtime.begin_rebuild().unwrap();
    assert_eq!(input.emitters.len(), 1);
    assert_eq!(input.indoor_mask[(grid.1 * 100 + grid.0) as usize], 1);
    runtime.finish_rebuild(0, Ok(lit_outcome(1, 1010, 7)));
    assert_eq!(runtime.availability(), IndoorLightAvailability::Available);
    assert!(runtime.snapshot().unwrap().luminance[1010] > 0);
    let before = runtime.metrics().clone();

    for _ in 0..600 {
        mark_indoor_lighting_dirty(no_changes(0), &mut dirty, &mut runtime);
        collect_indoor_lighting_snapshot(&mut runtime, &mut dirty, DIMS, &vec![], &vec![], &room, &vec![lamp_emitter(grid, true)]);
        assert!(runtime.begin_rebuild().is_none());
    }
    assert_eq!(runtime.metrics().full_snapshot_scan_count, before.full_snapshot_scan_count);
    assert_eq!(runtime.metrics().field_rebuild_count, before.field_rebuild_count);
    assert_eq!(runtime.metrics().output_revision_increment_count, before.output_revision_increment_count);

    // A lamp losing its supply is collected again and emits nothing.
    let mut changed = no_changes(0);
    changed.emitters_changed = true;
    mark_indoor_lighting_dirty(changed, &mut dirty, &mut runtime);
    collect_indoor_lighting_snapshot(&mut runtime, &mut dirty, DIMS, &vec![], &vec![], &room, &vec![lamp_emitter(grid, false)]);
    assert_eq!(runtime.eligible_supplied_emitters(), 0);
    assert!(runtime.begin_rebuild().unwrap().emitters.is_empty());
    assert_eq!(runtime.availability(), IndoorLightAvailability::Available);
}

#[test]
fn allocation_probe_records_only_while_enabled() {
    let mut probe = IndoorLightingAllocationProbe::default();
    probe.record_collect(3, 10_000);
    assert_eq!(probe.emitter_collect_allocation_events(), None);
    probe.enable();
    probe.record_collect(3, 10_000);
    assert_eq!(probe.emitter_collect_allocation_events(), Some(3));
    assert_eq!(probe.emitter_collect_allocation_bytes(), Some(10_000));
}

#[test]
fn completed_loaded_outdoor_lamp_reconstructs_runtime_emitter() {
    let grid = (12, 14);
    assert_eq!(
        sync_outdoor_lamp(BuildingType::OutdoorLamp, false, grid, None, None),
        LampSync::Both {
            mount: LightingFixtureMount::free_standing(grid),
            emitter: RadialLightEmitter::outdoor_lamp(grid),
        }
    );
    assert_eq!(
        normalized_mount(BuildingType::OutdoorLamp, false, false, grid),
        Some(LightingFixtureMount::free_standing(grid))
    );
    assert_eq!(
        rebuilt_emitter(BuildingType::OutdoorLamp, false, LightingFixtureMount::free_standing(grid)),
        Some(RadialLightEmitter::outdoor_lamp(grid))
    );
    assert_eq!(normalized_mount(BuildingType::OutdoorLamp, true, false, grid), None);
}

#[test]
fn moving_a_free_standing_lamp_updates_durable_mount_and_runtime_emitter() {
    let old_grid = (12, 14);
    let moved = (16, 18);
    let mount = LightingFixtureMount::free_standing(old_grid);
    let emitter = RadialLightEmitter::outdoor_lamp(old_grid);
    assert_eq!(
        sync_outdoor_lamp(BuildingType::OutdoorLamp, false, old_grid, Some(mount), Some(emitter)),
        LampSync::Nothing
    );
    let expected = LightingFixtureMount::free_standing(moved);
    match sync_outdoor_lamp(BuildingType::OutdoorLamp, false, moved, Some(mount), Some(emitter)) {
        LampSync::Both { mount, emitter } => {
            assert_eq!(mount, expected);
            assert_eq!(emitter.mount, expected.mount());
        },
        other => panic!("unexpected sync {:?}", other),
    }
}

#[test]
fn outdoor_lamp_emitter_has_its_documented_shape() {
    let e = RadialLightEmitter::outdoor_lamp((3, 4));
    assert_eq!(e.mount, FixtureMount::FreeStanding { origin_x: 3, origin_y: 4 });
    assert_eq!(e.radius_tiles, 5);
    assert_eq!((e.color.r, e.color.g, e.color.b), (0xffff, 49_151, 32_767));
    assert_eq!(e.intensity, 0xffff);
}

fn wall_anchor(anchor: u64, kind: BuildingType) -> AnchorFacts {
    AnchorFacts {
        map_building: Some(anchor),
        exists: true,
        building: Some((kind, false)),
        has_provisional_wall_marker: false,
    }
}

#[test]
fn fixture_candidate_accepts_valid_wall_mount_and_rejects_invalid_anchor() {
    let anchor = 1;
    let lamp = 2;
    let mut candidate = FixtureCandidateFacts {
        entity: lamp,
        mount: FixtureMount::WallMounted { anchor_x: 10, anchor_y: 10, inward: CardinalDirection::East },
        origin: (11, 10),
        building: Some((BuildingType::OutdoorLamp, false)),
        transform_grid: Some((11, 10)),
        map_building_at_transform: Some(lamp),
        anchor: wall_anchor(anchor, BuildingType::Wall),
    };
    assert!(validate_fixture_mount_candidate(true, &vec![candidate], 100, 100).is_ok());

    candidate.anchor = wall_anchor(anchor, BuildingType::Floor);
    assert_eq!(
        validate_fixture_mount_candidate(true, &vec![candidate], 100, 100),
        Err(FixtureMountError::AnchorNotWall { owner: lamp, anchor })
    );
}

#[test]
fn fixture_candidate_rejects_transform_mount_mismatch() {
    let lamp = 3;
    let candidate = FixtureCandidateFacts {
        entity: lamp,
        mount: LightingFixtureMount::free_standing((9, 8)).mount(),
        origin: (9, 8),
        building: Some((BuildingType::OutdoorLamp, false)),
        transform_grid: Some((8, 8)),
        map_building_at_transform: Some(lamp),
        anchor: AnchorFacts { map_building: None, exists: false, building: None, has_provisional_wall_marker: false },
    };
    assert_eq!(
        validate_fixture_mount_candidate(true, &vec![candidate], 100, 100),
        Err(FixtureMountError::TransformMismatch { owner: lamp, transform: (8, 8), origin: (9, 8) })
    );
    assert_eq!(
        validate_fixture_mount_candidate(false, &vec![], 100, 100),
        Err(FixtureMountError::MapMissing)
    );
    assert_eq!(
        validate_grid(MountCellLabel::WallAnchor, (100, 0), 100, 100),
        Err(FixtureMountError::OutsideMap { label: MountCellLabel::WallAnchor, grid: (100, 0) })
    );
}

#[test]
fn reset_blocks_old_epoch_reads_until_one_successful_wake() {
    let grid = (20, 20);
    let index = 2020;
    let mut runtime = IndoorLightRuntime::new();
    let mut dirty = IndoorLightingDirty::default();
    let mut allocation = IndoorLightingAllocationProbe::default();
    let mut probe = IndoorLightingLifecycleProbe::default();
    probe.enable();
    let room = vec![grid];
    let emitters = vec![lamp_emitter(grid, true)];
    collect_indoor_lighting_snapshot(&mut runtime, &mut dirty, DIMS, &vec![], &vec![], &room, &emitters);
    runtime.begin_rebuild().unwrap();
    runtime.finish_rebuild(0, Ok(lit_outcome(1, index, 1)));

    let old_epoch = 0;
    assert!(runtime.snapshot_for_epoch(old_epoch).is_some());

    reset_indoor_lighting_for_world_replace(&mut runtime, &mut dirty, &mut allocation, &mut probe);
    let current_epoch = 1;
    assert!(read_indoor_light_snapshot(&runtime, old_epoch, current_epoch, &mut probe).is_none());
    assert!(runtime.is_fail_dark());

    wake_indoor_lighting(&mut dirty, &mut probe);
    collect_indoor_lighting_snapshot(&mut runtime, &mut dirty, DIMS, &vec![], &vec![], &room, &emitters);
    runtime.begin_rebuild().unwrap();
    runtime.finish_rebuild(current_epoch, Ok(lit_outcome(1, index, 1)));

    assert!(runtime.snapshot_for_epoch(old_epoch).is_none());
    assert!(runtime.snapshot_for_epoch(current_epoch).is_some());
    assert_eq!(probe.reset_count(), 1);
    assert_eq!(probe.wake_count(), 1);
    assert_eq!(probe.old_epoch_field_read_attempts(), 1);
    assert_eq!(probe.old_epoch_field_reads(), 0);
    assert!(probe.all_resets_fail_dark());
}

#[test]
fn duplicate_occlusion_owner_fails_unavailable_without_exposing_stale_field() {
    let grid = (12, 12);
    let wall = BuildingLightFacts { kind: BuildingType::Wall, is_provisional: false, grid };
    let walls = vec![wall, wall];
    assert_eq!(
        build_input(DIMS, &walls, &vec![], &vec![], &vec![]).unwrap_err(),
        RuntimeInputError::DuplicateOcclusionCell(grid)
    );
    let mut runtime = IndoorLightRuntime::new();
    let mut dirty = IndoorLightingDirty::default();
    collect_indoor_lighting_snapshot(&mut runtime, &mut dirty, DIMS, &walls, &vec![], &vec![], &vec![]);
    assert_eq!(runtime.availability(), IndoorLightAvailability::Unavailable);
    assert!(runtime.snapshot().is_none());
    assert_eq!(
        runtime.last_error(),
        Some(&LightingError::Input(RuntimeInputError::DuplicateOcclusionCell(grid)))
    );
}

#[test]
fn doors_and_walls_fill_the_occlusion_grid() {
    let walls = vec![
        BuildingLightFacts { kind: BuildingType::Wall, is_provisional: false, grid: (1, 1) },
        BuildingLightFacts { kind: BuildingType::Wall, is_provisional: true, grid: (2, 1) },
        BuildingLightFacts { kind: BuildingType::Tank, is_provisional: false, grid: (3, 1) },
    ];
    let doors = vec![DoorLightFacts { kind: BuildingType::Door, is_provisional: false, state: DoorState::Locked, grid: (4, 1) }];
    let input = build_input(DIMS, &walls, &doors, &vec![], &vec![]).unwrap();
    assert_eq!(input.occlusion[101], OcclusionCell::CompletedWall);
    assert_eq!(input.occlusion[102], OcclusionCell::ProvisionalWall);
    assert_eq!(input.occlusion[103], OcclusionCell::Clear);
    assert_eq!(input.occlusion[104], OcclusionCell::LockedDoor);
    let outside = vec![BuildingLightFacts { kind: BuildingType::Wall, is_provisional: false, grid: (100, 0) }];
    assert!(matches!(
        build_input(DIMS, &outside, &vec![], &vec![], &vec![]),
        Err(RuntimeInputError::OutOfBounds { .. })
    ));
}

#[test]
fn failed_core_rebuild_publishes_the_field_as_unavailable() {
    let mut runtime = IndoorLightRuntime::new();
    runtime.finish_rebuild(0, Ok(lit_outcome(1, 0, 1)));
    assert_eq!(runtime.input_revision(), 1);
    runtime.finish_rebuild(0, Ok(lit_outcome(2, 0, 1)));
    assert_eq!(runtime.input_revision(), 1);
    runtime.finish_rebuild(0, Err("core refused".to_string()));
    assert_eq!(runtime.availability(), IndoorLightAvailability::Unavailable);
    assert!(runtime.snapshot_for_epoch(0).is_none());
    assert_eq!(runtime.last_error(), Some(&LightingError::Core("core refused".to_string())));
    let mut diagnosed = lit_outcome(3, 0, 2);
    diagnosed.diagnostics = vec!["bad emitter".to_string(), "another".to_string()];
    runtime.finish_rebuild(0, Ok(diagnosed));
    assert_eq!(
        runtime.last_error(),
        Some(&LightingError::InvalidEmitterDiagnostics { count: 2, first: "bad emitter".to_string() })
    );
}
