use hell_workers_jobs::blueprint::{
    plan_blueprint_cancellation, resource_order, BlueprintRequestFacts, BlueprintWorkerFacts,
    DeliveredMaterial, PendingStorageFacts,
};
use hell_workers_jobs::recovery::ResourceType;

#[test]
fn cancellation_uses_payload_and_refunds_delivered_materials_once() {
    let blueprint = 1;
    let request_owner = 9;
    let workers = vec![
        BlueprintWorkerFacts { soul: 10, task_blueprint: Some(blueprint) },
        BlueprintWorkerFacts { soul: 11, task_blueprint: Some(blueprint) },
        BlueprintWorkerFacts { soul: 12, task_blueprint: Some(blueprint) },
        BlueprintWorkerFacts { soul: 13, task_blueprint: Some(77) },
        BlueprintWorkerFacts { soul: 14, task_blueprint: None },
    ];
    let requests = vec![
        BlueprintRequestFacts { entity: 20, anchor: blueprint, target: None },
        BlueprintRequestFacts { entity: 21, anchor: request_owner, target: Some(blueprint) },
        BlueprintRequestFacts { entity: 22, anchor: request_owner, target: None },
    ];
    let pending = vec![
        PendingStorageFacts { entity: 30, blueprint },
        PendingStorageFacts { entity: 31, blueprint: 77 },
    ];
    let delivered = vec![
        DeliveredMaterial { resource_type: ResourceType::Rock, amount: 1 },
        DeliveredMaterial { resource_type: ResourceType::Wood, amount: 2 },
    ];
    let plan = plan_blueprint_cancellation(blueprint, &workers, &requests, &pending, &delivered, &vec![(2, 3)]);
    assert_eq!(plan.unassigned_souls, vec![10, 11, 12]);
    assert_eq!(plan.despawned_requests, vec![20, 21]);
    assert_eq!(plan.removed_storages, vec![30]);
    assert_eq!(plan.cleared_cells, vec![(2, 3)]);
    assert_eq!(
        plan.refunds,
        vec![
            DeliveredMaterial { resource_type: ResourceType::Wood, amount: 2 },
            DeliveredMaterial { resource_type: ResourceType::Rock, amount: 1 },
        ]
    );
    let total: u32 = plan.refunds.iter().map(|m| m.amount).sum();
    assert_eq!(total, 3);
}

#[test]
fn refund_order_follows_the_resource_order() {
    assert_eq!(resource_order(ResourceType::Wood), 0);
    assert_eq!(resource_order(ResourceType::Rock), 1);
    assert_eq!(resource_order(ResourceType::Bone), 2);
    assert_eq!(resource_order(ResourceType::Wheelbarrow), 8);
    assert!(resource_order(ResourceType::Sand) < resource_order(ResourceType::StasisMud));
}
