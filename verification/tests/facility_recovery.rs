use hell_workers_jobs::decon::BuildingType;
use hell_workers_jobs::finalizer::RecoveryPlanFailure;
use hell_workers_jobs::recovery::{
    prepare_facility_recovery, BelongsFacts, DeconstructionSalvage, GroundItemRecovery,
    InventoryHolderFacts, ItemFacts, LoadedItemRecovery, MixerFacts, MixerIncrement,
    MixerStorageSnapshot, MudTransfer, RecoveryFacts, ResourceType, WheelbarrowFacts,
};

const TARGET: u64 = 100;
const ANCHOR: (i32, i32) = (12, 13);

fn item(entity: u64, resource_type: ResourceType) -> ItemFacts {
    ItemFacts {
        entity,
        resource_type,
        belongs_to: None,
        stored_in: None,
        stored_by_mixer: None,
        loaded_in: None,
        delivering_to: None,
    }
}

fn facility(kind: BuildingType) -> RecoveryFacts {
    RecoveryFacts {
        target: TARGET,
        kind,
        anchor: ANCHOR,
        salvage: DeconstructionSalvage::Material { resource_type: ResourceType::Wood, amount: 2 },
        belongs: vec![],
        items: vec![],
        wheelbarrows: vec![],
        holders: vec![],
        target_mixer: None,
        mixers: vec![],
        rest_sources: vec![],
        mixer_sand_capacity: 10,
        mixer_mud_capacity: 10,
    }
}

fn mixer(entity: u64, grid: (i32, i32), storage: MixerStorageSnapshot) -> MixerFacts {
    MixerFacts {
        entity,
        grid,
        kind: BuildingType::MudMixer,
        is_provisional: false,
        storage,
        move_planned: false,
        deconstruction_pending: false,
    }
}

fn storage(sand: u32, rock: u32, mud: u32) -> MixerStorageSnapshot {
    MixerStorageSnapshot { sand, rock, mud }
}

#[test]
fn tank_commit_recovers_water_and_bucket_tools_before_removing_companions() {
    let mut f = facility(BuildingType::Tank);
    f.salvage = DeconstructionSalvage::Material { resource_type: ResourceType::Wood, amount: 1 };
    let storages = [201, 202];
    f.belongs = storages
        .iter()
        .map(|s| BelongsFacts {
            entity: *s,
            owner: TARGET,
            is_bucket_storage: true,
            stockpile: Some(None),
            stockpile_cells: 1,
            building_cells: 0,
            floor_cells: 0,
            door_cells: 0,
            bridge_cells: 0,
        })
        .collect();
    f.items = vec![
        ItemFacts { stored_in: Some(TARGET), ..item(301, ResourceType::Water) },
        ItemFacts { belongs_to: Some(TARGET), stored_in: Some(201), ..item(302, ResourceType::BucketEmpty) },
        ItemFacts { belongs_to: Some(TARGET), stored_in: Some(202), ..item(303, ResourceType::BucketWater) },
    ];
    let plan = prepare_facility_recovery(&f).unwrap();
    assert_eq!(plan.companions_to_remove, vec![201, 202]);
    assert_eq!(
        plan.ground_items,
        vec![
            GroundItemRecovery { entity: 301, resource_type: ResourceType::Water },
            GroundItemRecovery { entity: 302, resource_type: ResourceType::BucketEmpty },
            GroundItemRecovery { entity: 303, resource_type: ResourceType::BucketWater },
        ]
    );
    assert!(plan.mud_transfers.is_empty());
    assert_eq!(plan.spawned_items, vec![ResourceType::Wood]);
    assert_eq!(plan.removed_owner_entities(TARGET), vec![TARGET, 201, 202]);

    // A tank holding something other than water is refused.
    let mut wrong = f;
    wrong.items[0].resource_type = ResourceType::Sand;
    assert_eq!(prepare_facility_recovery(&wrong), Err(RecoveryPlanFailure::OwnerMismatch));
}

#[test]
fn mixer_commit_transfers_sand_and_existing_mud_entities_and_materializes_only_rock() {
    let receiver = 105;
    let mut f = facility(BuildingType::MudMixer);
    f.target_mixer = Some(storage(2, 3, 2));
    f.items = vec![
        ItemFacts { stored_by_mixer: Some(TARGET), ..item(101, ResourceType::StasisMud) },
        ItemFacts { stored_by_mixer: Some(TARGET), ..item(102, ResourceType::StasisMud) },
        ItemFacts { stored_in: Some(TARGET), ..item(103, ResourceType::Water) },
        ItemFacts { stored_by_mixer: Some(receiver), ..item(104, ResourceType::StasisMud) },
    ];
    f.mixers = vec![mixer(TARGET, ANCHOR, storage(2, 3, 2)), mixer(receiver, (18, 13), storage(1, 0, 1))];
    let plan = prepare_facility_recovery(&f).unwrap();
    assert_eq!(
        plan.mixer_increments,
        vec![MixerIncrement { receiver, expected: storage(1, 0, 1), sand: 2, mud: 2 }]
    );
    assert_eq!(
        plan.mud_transfers,
        vec![MudTransfer { entity: 101, receiver }, MudTransfer { entity: 102, receiver }]
    );
    assert_eq!(plan.ground_items, vec![GroundItemRecovery { entity: 103, resource_type: ResourceType::Water }]);
    assert_eq!(
        plan.spawned_items,
        vec![ResourceType::Rock, ResourceType::Rock, ResourceType::Rock, ResourceType::Wood, ResourceType::Wood]
    );
    assert_eq!(plan.expected_target_mixer, Some(storage(2, 3, 2)));
}

#[test]
fn mixer_commit_absorbs_volatile_items_held_by_related_souls() {
    let receiver = 105;
    let mut f = facility(BuildingType::MudMixer);
    f.target_mixer = Some(storage(0, 0, 0));
    f.items = vec![
        ItemFacts { delivering_to: Some(TARGET), ..item(120, ResourceType::Sand) },
        ItemFacts { delivering_to: Some(TARGET), ..item(121, ResourceType::StasisMud) },
    ];
    f.holders = vec![
        InventoryHolderFacts { inventory_item: Some(120), referenced: vec![TARGET] },
        InventoryHolderFacts { inventory_item: Some(121), referenced: vec![TARGET] },
    ];
    f.mixers = vec![mixer(receiver, (18, 13), storage(0, 0, 0))];
    let plan = prepare_facility_recovery(&f).unwrap();
    assert_eq!(plan.sand_items_to_absorb, vec![120]);
    assert_eq!(plan.mud_transfers, vec![MudTransfer { entity: 121, receiver }]);
    assert_eq!(
        plan.mixer_increments,
        vec![MixerIncrement { receiver, expected: storage(0, 0, 0), sand: 1, mud: 1 }]
    );
}

#[test]
fn malformed_receiver_mixer_is_skipped_when_a_valid_receiver_exists() {
    let malformed = 106;
    let valid = 107;
    let mut f = facility(BuildingType::MudMixer);
    f.target_mixer = Some(storage(1, 0, 0));
    // The malformed receiver counts one mud but stores none.
    f.mixers = vec![mixer(malformed, (15, 13), storage(0, 0, 1)), mixer(valid, (18, 13), storage(0, 0, 0))];
    let plan = prepare_facility_recovery(&f).unwrap();
    assert_eq!(
        plan.mixer_increments,
        vec![MixerIncrement { receiver: valid, expected: storage(0, 0, 0), sand: 1, mud: 0 }]
    );
}

#[test]
fn inconsistent_mixer_inventory_is_reported_before_receivers_are_chosen() {
    let mut f = facility(BuildingType::MudMixer);
    f.target_mixer = Some(storage(0, 0, 2));
    f.items = vec![ItemFacts { stored_by_mixer: Some(TARGET), ..item(101, ResourceType::StasisMud) }];
    assert_eq!(prepare_facility_recovery(&f), Err(RecoveryPlanFailure::InconsistentMixerInventory));
    f.target_mixer = None;
    assert_eq!(prepare_facility_recovery(&f), Err(RecoveryPlanFailure::OwnerMismatch));
}

#[test]
fn volatile_sand_without_a_receiver_has_no_safe_recovery() {
    let mut f = facility(BuildingType::MudMixer);
    f.target_mixer = Some(storage(4, 0, 0));
    assert_eq!(prepare_facility_recovery(&f), Err(RecoveryPlanFailure::NoSafeRecovery));
    // A receiver too full for all of it does not help either.
    f.mixers = vec![mixer(105, (18, 13), storage(8, 0, 0))];
    assert_eq!(prepare_facility_recovery(&f), Err(RecoveryPlanFailure::NoSafeRecovery));
}

#[test]
fn parking_commit_unparks_wheelbarrows_without_unloading_volatile_cargo() {
    let wheelbarrow = 110;
    let mut f = facility(BuildingType::WheelbarrowParking);
    f.wheelbarrows = vec![WheelbarrowFacts { entity: wheelbarrow, belongs_to: Some(TARGET), parked_at: Some(TARGET) }];
    f.items = vec![
        ItemFacts { belongs_to: Some(TARGET), ..item(wheelbarrow, ResourceType::Wheelbarrow) },
        ItemFacts { loaded_in: Some(wheelbarrow), ..item(112, ResourceType::StasisMud) },
        ItemFacts { loaded_in: Some(wheelbarrow), ..item(111, ResourceType::Sand) },
    ];
    let plan = prepare_facility_recovery(&f).unwrap();
    assert_eq!(plan.wheelbarrows.len(), 1);
    assert_eq!(plan.wheelbarrows[0].entity, wheelbarrow);
    assert_eq!(
        plan.wheelbarrows[0].loaded_items,
        vec![
            LoadedItemRecovery { entity: 111, resource_type: ResourceType::Sand },
            LoadedItemRecovery { entity: 112, resource_type: ResourceType::StasisMud },
        ]
    );
    assert!(plan.ground_items.is_empty());
    assert!(plan.mud_transfers.is_empty());
    assert!(plan.sand_items_to_absorb.is_empty());
}

#[test]
fn wheelbarrows_of_another_kind_or_owner_are_an_owner_mismatch() {
    let mut f = facility(BuildingType::Tank);
    f.wheelbarrows = vec![WheelbarrowFacts { entity: 110, belongs_to: Some(TARGET), parked_at: None }];
    assert_eq!(prepare_facility_recovery(&f), Err(RecoveryPlanFailure::OwnerMismatch));
    let mut g = facility(BuildingType::WheelbarrowParking);
    g.wheelbarrows = vec![WheelbarrowFacts { entity: 110, belongs_to: Some(5), parked_at: Some(TARGET) }];
    assert_eq!(prepare_facility_recovery(&g), Err(RecoveryPlanFailure::OwnerMismatch));
}

#[test]
fn rest_area_commit_releases_occupants_and_reservations_through_owner_lifecycle() {
    let mut f = facility(BuildingType::RestArea);
    f.rest_sources = vec![501, 502];
    let plan = prepare_facility_recovery(&f).unwrap();
    assert_eq!(plan.rest_sources, vec![501, 502]);
    let mut parking = facility(BuildingType::WheelbarrowParking);
    parking.rest_sources = vec![501];
    assert!(prepare_facility_recovery(&parking).unwrap().rest_sources.is_empty());
    // A tank always leaves with at least one bucket storage.
    assert_eq!(prepare_facility_recovery(&facility(BuildingType::Tank)), Err(RecoveryPlanFailure::OwnerMismatch));
}
