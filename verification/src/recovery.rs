//! Prevalidated recovery of a facility's storage and occupants.
//!
//! Before a facility is removed, everything it holds is planned: companion
//! stockpiles to remove, items to put on the ground, wheelbarrows to unpark,
//! volatile sand and mud to hand to other mud mixers, and items to spawn.
//! The plan is computed from facts alone, and every refusal names why.
//! Where the items land is chosen afterwards by the placement planner.

use vstd::prelude::*;
use crate::grid::{
    EntityId, Grid, copy_entities, sorted_unique, sorted_unique_grids, strictly_increasing, strictly_yx_increasing,
};
use crate::decon::BuildingType;
use crate::finalizer::RecoveryPlanFailure;
use crate::sort::{KeyOrder, sort_by_key, sorted_by_key};

verus! {

/// Every kind of resource item.
#[derive(Debug, Clone, Copy, PartialEq, Eq, Structural)]
pub enum ResourceType {
    Bone,
    Wood,
    Rock,
    Sand,
    StasisMud,
    Water,
    BucketEmpty,
    BucketWater,
    Wheelbarrow,
}

/// What a deconstructed building leaves behind.
#[derive(Debug, Clone, Copy, PartialEq, Eq, Structural)]
pub enum DeconstructionSalvage {
    /// Nothing is left behind.
    Nothing,
    Material { resource_type: ResourceType, amount: u32 },
}

/// The counters of a mud mixer's storage.
#[derive(Debug, Clone, Copy, PartialEq, Eq, Structural)]
pub struct MixerStorageSnapshot {
    pub sand: u32,
    pub rock: u32,
    pub mud: u32,
}

/// An item put back on the ground.
#[derive(Debug, Clone, Copy, PartialEq, Eq, Structural)]
pub struct GroundItemRecovery {
    pub entity: EntityId,
    pub resource_type: ResourceType,
}

/// An item that stays loaded in a recovered wheelbarrow.
#[derive(Debug, Clone, Copy, PartialEq, Eq, Structural)]
pub struct LoadedItemRecovery {
    pub entity: EntityId,
    pub resource_type: ResourceType,
}

/// A wheelbarrow recovered with its target and the items loaded in it.
#[derive(Debug, Clone, PartialEq, Eq)]
pub struct WheelbarrowRecovery {
    pub entity: EntityId,
    pub loaded_items: Vec<LoadedItemRecovery>,
}

/// A mud item handed to another mixer.
#[derive(Debug, Clone, Copy, PartialEq, Eq, Structural)]
pub struct MudTransfer {
    pub entity: EntityId,
    pub receiver: EntityId,
}

/// What a receiving mixer gains, and the storage it must still have.
#[derive(Debug, Clone, Copy, PartialEq, Eq, Structural)]
pub struct MixerIncrement {
    pub receiver: EntityId,
    pub expected: MixerStorageSnapshot,
    pub sand: u32,
    pub mud: u32,
}

/// A prepared facility recovery.
#[derive(Debug, Clone, PartialEq, Eq)]
pub struct FacilityRecoveryPlan {
    /// Companion stockpiles removed with the target.
    pub companions_to_remove: Vec<EntityId>,
    pub ground_items: Vec<GroundItemRecovery>,
    pub wheelbarrows: Vec<WheelbarrowRecovery>,
    pub sand_items_to_absorb: Vec<EntityId>,
    pub mud_transfers: Vec<MudTransfer>,
    pub mixer_increments: Vec<MixerIncrement>,
    /// The target mixer's storage, when the target is a mud mixer.
    pub expected_target_mixer: Option<MixerStorageSnapshot>,
    /// The kinds of the items to spawn, one per item.
    pub spawned_items: Vec<ResourceType>,
    pub rest_sources: Vec<EntityId>,
}

pub open spec fn ground_entities(g: Seq<GroundItemRecovery>) -> Seq<EntityId> {
    g.map_values(|x: GroundItemRecovery| x.entity)
}

pub open spec fn loaded_entities(g: Seq<LoadedItemRecovery>) -> Seq<EntityId> {
    g.map_values(|x: LoadedItemRecovery| x.entity)
}

pub open spec fn mud_entities_of(g: Seq<MudTransfer>) -> Seq<EntityId> {
    g.map_values(|x: MudTransfer| x.entity)
}

/// All loaded items of the recovered wheelbarrows, carrier by carrier.
pub open spec fn loaded_items_of(ws: Seq<WheelbarrowRecovery>) -> Seq<EntityId>
    decreases ws.len(),
{
    if ws.len() == 0 {
        Seq::empty()
    } else {
        loaded_items_of(ws.drop_last()) + loaded_entities(ws.last().loaded_items@)
    }
}

/// The entity of each recovered wheelbarrow.
pub open spec fn carriers_of(ws: Seq<WheelbarrowRecovery>) -> Seq<EntityId> {
    ws.map_values(|w: WheelbarrowRecovery| w.entity)
}

/// Every entity a recovery references.
pub open spec fn spec_cleanup_references(p: FacilityRecoveryPlan) -> Set<EntityId> {
    p.companions_to_remove@.to_set() + ground_entities(p.ground_items@).to_set() + carriers_of(p.wheelbarrows@).to_set()
        + loaded_items_of(p.wheelbarrows@).to_set() + p.sand_items_to_absorb@.to_set()
        + mud_entities_of(p.mud_transfers@).to_set()
}

fn append_all(out: &mut Vec<EntityId>, items: &Vec<EntityId>)
    ensures
        final(out)@ == old(out)@ + items@,
{
    let ghost start = out@;
    let mut i: usize = 0;
    while i < items.len()
        invariant
            i <= items@.len(),
            out@ == start + items@.take(i as int),
        decreases items.len() - i,
    {
        out.push(items[i]);
        proof {
            assert(items@.take(i + 1) =~= items@.take(i as int).push(items@[i as int]));
            assert(out@ =~= start + items@.take(i + 1));
        }
        i += 1;
    }
    assert(items@.take(items@.len() as int) =~= items@);
}

fn append_ground(out: &mut Vec<EntityId>, items: &Vec<GroundItemRecovery>)
    ensures
        final(out)@ == old(out)@ + ground_entities(items@),
{
    let ghost start = out@;
    let mut i: usize = 0;
    while i < items.len()
        invariant
            i <= items@.len(),
            out@ == start + ground_entities(items@.take(i as int)),
        decreases items.len() - i,
    {
        out.push(items[i].entity);
        proof {
            assert(ground_entities(items@.take(i + 1)) =~= ground_entities(items@.take(i as int)).push(items@[i as int].entity));
        }
        i += 1;
    }
    assert(items@.take(items@.len() as int) =~= items@);
}

fn append_loaded(out: &mut Vec<EntityId>, items: &Vec<LoadedItemRecovery>)
    ensures
        final(out)@ == old(out)@ + loaded_entities(items@),
{
    let ghost start = out@;
    let mut i: usize = 0;
    while i < items.len()
        invariant
            i <= items@.len(),
            out@ == start + loaded_entities(items@.take(i as int)),
        decreases items.len() - i,
    {
        out.push(items[i].entity);
        proof {
            assert(loaded_entities(items@.take(i + 1)) =~= loaded_entities(items@.take(i as int)).push(items@[i as int].entity));
        }
        i += 1;
    }
    assert(items@.take(items@.len() as int) =~= items@);
}

fn append_mud(out: &mut Vec<EntityId>, items: &Vec<MudTransfer>)
    ensures
        final(out)@ == old(out)@ + mud_entities_of(items@),
{
    let ghost start = out@;
    let mut i: usize = 0;
    while i < items.len()
        invariant
            i <= items@.len(),
            out@ == start + mud_entities_of(items@.take(i as int)),
        decreases items.len() - i,
    {
        out.push(items[i].entity);
        proof {
            assert(mud_entities_of(items@.take(i + 1)) =~= mud_entities_of(items@.take(i as int)).push(items@[i as int].entity));
        }
        i += 1;
    }
    assert(items@.take(items@.len() as int) =~= items@);
}

fn copy_seq<T: Copy>(v: &Vec<T>) -> (r: Vec<T>)
    ensures
        r@ == v@,
{
    let mut out: Vec<T> = Vec::new();
    let mut i: usize = 0;
    while i < v.len()
        invariant
            i <= v@.len(),
            out@ == v@.take(i as int),
        decreases v.len() - i,
    {
        out.push(v[i]);
        i += 1;
        assert(out@ =~= v@.take(i as int));
    }
    assert(v@.take(v@.len() as int) =~= v@);
    out
}

/// Two wheelbarrow recoveries name the same carrier and loaded items.
pub open spec fn same_wheelbarrow(a: WheelbarrowRecovery, b: WheelbarrowRecovery) -> bool {
    a.entity == b.entity && a.loaded_items@ == b.loaded_items@
}

/// Two recovery plans hold the same entities in the same order.
pub open spec fn same_plan(a: FacilityRecoveryPlan, b: FacilityRecoveryPlan) -> bool {
    &&& a.companions_to_remove@ == b.companions_to_remove@
    &&& a.ground_items@ == b.ground_items@
    &&& a.wheelbarrows@.len() == b.wheelbarrows@.len()
    &&& forall|i: int| 0 <= i < a.wheelbarrows@.len() ==> #[trigger] same_wheelbarrow(a.wheelbarrows@[i], b.wheelbarrows@[i])
    &&& a.sand_items_to_absorb@ == b.sand_items_to_absorb@
    &&& a.mud_transfers@ == b.mud_transfers@
    &&& a.mixer_increments@ == b.mixer_increments@
    &&& a.expected_target_mixer == b.expected_target_mixer
    &&& a.spawned_items@ == b.spawned_items@
    &&& a.rest_sources@ == b.rest_sources@
}

impl FacilityRecoveryPlan {
    /// A copy of the plan.
    pub fn duplicate(&self) -> (r: Self)
        ensures
            same_plan(r, *self),
    {
        let mut wheelbarrows: Vec<WheelbarrowRecovery> = Vec::new();
        let mut i: usize = 0;
        while i < self.wheelbarrows.len()
            invariant
                i <= self.wheelbarrows@.len(),
                wheelbarrows@.len() == i,
                forall|j: int| 0 <= j < i ==> #[trigger] same_wheelbarrow(wheelbarrows@[j], self.wheelbarrows@[j]),
            decreases self.wheelbarrows.len() - i,
        {
            let w = WheelbarrowRecovery {
                entity: self.wheelbarrows[i].entity,
                loaded_items: copy_seq(&self.wheelbarrows[i].loaded_items),
            };
            wheelbarrows.push(w);
            i += 1;
        }
        FacilityRecoveryPlan {
            companions_to_remove: copy_entities(&self.companions_to_remove),
            ground_items: copy_seq(&self.ground_items),
            wheelbarrows,
            sand_items_to_absorb: copy_entities(&self.sand_items_to_absorb),
            mud_transfers: copy_seq(&self.mud_transfers),
            mixer_increments: copy_seq(&self.mixer_increments),
            expected_target_mixer: self.expected_target_mixer,
            spawned_items: copy_seq(&self.spawned_items),
            rest_sources: copy_entities(&self.rest_sources),
        }
    }

    /// The owners a commit removes: the target and the companions, sorted
    /// by entity bits.
    pub fn removed_owner_entities(&self, target: EntityId) -> (r: Vec<EntityId>)
        ensures
            sorted_by_key(r@),
            r@.to_multiset() == seq![target].add(self.companions_to_remove@).to_multiset(),
    {
        let mut owners: Vec<EntityId> = Vec::new();
        owners.push(target);
        append_all(&mut owners, &self.companions_to_remove);
        assert(owners@ =~= seq![target].add(self.companions_to_remove@));
        sort_by_key(owners.as_slice())
    }

    /// Every entity that the recovery references, sorted by entity bits and
    /// without repeats.
    pub fn cleanup_reference_entities(&self) -> (r: Vec<EntityId>)
        ensures
            strictly_increasing(r@),
            r@.to_set() == spec_cleanup_references(*self),
    {
        let mut all: Vec<EntityId> = Vec::new();
        append_all(&mut all, &self.companions_to_remove);
        append_ground(&mut all, &self.ground_items);
        let ghost before_carriers = all@;
        let mut i: usize = 0;
        while i < self.wheelbarrows.len()
            invariant
                i <= self.wheelbarrows@.len(),
                all@ == before_carriers + carriers_of(self.wheelbarrows@.take(i as int)),
            decreases self.wheelbarrows.len() - i,
        {
            all.push(self.wheelbarrows[i].entity);
            proof {
                assert(carriers_of(self.wheelbarrows@.take(i + 1)) =~= carriers_of(self.wheelbarrows@.take(i as int)).push(self.wheelbarrows@[i as int].entity));
            }
            i += 1;
        }
        assert(self.wheelbarrows@.take(self.wheelbarrows@.len() as int) =~= self.wheelbarrows@);
        let ghost before_loaded = all@;
        let mut k: usize = 0;
        while k < self.wheelbarrows.len()
            invariant
                k <= self.wheelbarrows@.len(),
                all@ == before_loaded + loaded_items_of(self.wheelbarrows@.take(k as int)),
            decreases self.wheelbarrows.len() - k,
        {
            append_loaded(&mut all, &self.wheelbarrows[k].loaded_items);
            proof {
                assert(self.wheelbarrows@.take(k + 1).drop_last() =~= self.wheelbarrows@.take(k as int));
                assert(all@ =~= before_loaded + loaded_items_of(self.wheelbarrows@.take(k + 1)));
            }
            k += 1;
        }
        assert(self.wheelbarrows@.take(self.wheelbarrows@.len() as int) =~= self.wheelbarrows@);
        append_all(&mut all, &self.sand_items_to_absorb);
        append_mud(&mut all, &self.mud_transfers);
        let r = sorted_unique(all.as_slice());
        proof {
            let p = *self;
            let a0 = p.companions_to_remove@;
            let a1 = ground_entities(p.ground_items@);
            let a2 = carriers_of(p.wheelbarrows@);
            let a3 = loaded_items_of(p.wheelbarrows@);
            let a4 = p.sand_items_to_absorb@;
            let a5 = mud_entities_of(p.mud_transfers@);
            assert(all@ =~= a0 + a1 + a2 + a3 + a4 + a5);
            lemma_concat_to_set(a0, a1);
            lemma_concat_to_set(a0 + a1, a2);
            lemma_concat_to_set(a0 + a1 + a2, a3);
            lemma_concat_to_set(a0 + a1 + a2 + a3, a4);
            lemma_concat_to_set(a0 + a1 + a2 + a3 + a4, a5);
        }
        r
    }
}

proof fn lemma_concat_to_set(a: Seq<EntityId>, b: Seq<EntityId>)
    ensures
        (a + b).to_set() == a.to_set() + b.to_set(),
{
    assert forall|x: EntityId| (a + b).to_set().contains(x) <==> (a.to_set() + b.to_set()).contains(x) by {
        if (a + b).contains(x) {
            let i = choose|i: int| 0 <= i < (a + b).len() && (a + b)[i] == x;
            if i < a.len() {
                assert(a[i] == x);
            } else {
                assert(b[i - a.len()] == x);
            }
        }
        if a.contains(x) {
            let i = choose|i: int| 0 <= i < a.len() && a[i] == x;
            assert((a + b)[i] == x);
        }
        if b.contains(x) {
            let i = choose|i: int| 0 <= i < b.len() && b[i] == x;
            assert((a + b)[a.len() + i] == x);
        }
    }
    assert((a + b).to_set() =~= a.to_set() + b.to_set());
}


/// An entity whose `BelongsTo` names some owner.
#[derive(Debug, Clone, Copy, PartialEq, Eq, Structural)]
pub struct BelongsFacts {
    pub entity: EntityId,
    pub owner: EntityId,
    pub is_bucket_storage: bool,
    /// Its stockpile's resource filter, when it has a `Stockpile`.
    pub stockpile: Option<Option<ResourceType>>,
    /// How many cells of each layer the world map gives it.
    pub stockpile_cells: u64,
    pub building_cells: u64,
    pub floor_cells: u64,
    pub door_cells: u64,
    pub bridge_cells: u64,
}

/// A bucket storage that may leave with its tank: a stockpile of buckets
/// or of nothing, owning exactly one stockpile cell and nothing else.
pub open spec fn companion_ok(f: BelongsFacts, kind: BuildingType) -> bool {
    f.is_bucket_storage ==> {
        &&& kind == BuildingType::Tank
        &&& f.stockpile matches Some(r) && (r is None || r == Some(ResourceType::BucketEmpty) || r == Some(ResourceType::BucketWater))
        &&& f.stockpile_cells == 1
        &&& f.building_cells == 0 && f.floor_cells == 0 && f.door_cells == 0 && f.bridge_cells == 0
    }
}

/// The bucket storages owned by the target, in the order given.
pub open spec fn companion_list(b: Seq<BelongsFacts>, target: EntityId) -> Seq<EntityId>
    decreases b.len(),
{
    if b.len() == 0 {
        Seq::empty()
    } else {
        let rest = companion_list(b.drop_last(), target);
        let f = b.last();
        if f.owner == target && f.is_bucket_storage { rest.push(f.entity) } else { rest }
    }
}

/// Everything the target owns fits its kind, and a tank has a companion.
pub open spec fn companions_ok(b: Seq<BelongsFacts>, target: EntityId, kind: BuildingType) -> bool {
    &&& forall|i: int| 0 <= i < b.len() && b[i].owner == target ==> companion_ok(#[trigger] b[i], kind)
    &&& kind == BuildingType::Tank ==> companion_list(b, target).len() > 0
}

/// Collects the companion stockpiles that leave with the target, sorted by
/// entity; any owned entity that does not fit is an owner mismatch.
pub fn collect_companions(b: &Vec<BelongsFacts>, target: EntityId, kind: BuildingType) -> (r: Result<Vec<EntityId>, RecoveryPlanFailure>)
    ensures
        companions_ok(b@, target, kind) ==> (r matches Ok(v) && sorted_by_key(v@) && v@.to_multiset() == companion_list(b@, target).to_multiset()),
        !companions_ok(b@, target, kind) ==> r == Err::<Vec<EntityId>, RecoveryPlanFailure>(RecoveryPlanFailure::OwnerMismatch),
{
    let mut list: Vec<EntityId> = Vec::new();
    let mut i: usize = 0;
    while i < b.len()
        invariant
            i <= b@.len(),
            list@ == companion_list(b@.take(i as int), target),
            forall|j: int| 0 <= j < i && b@[j].owner == target ==> companion_ok(#[trigger] b@[j], kind),
        decreases b.len() - i,
    {
        let f = b[i];
        assert(b@.take(i + 1).drop_last() =~= b@.take(i as int));
        if f.owner == target {
            let ok = if !f.is_bucket_storage {
                true
            } else {
                let stock_ok = match f.stockpile {
                    Some(r) => match r {
                        None => true,
                        Some(t) => t == ResourceType::BucketEmpty || t == ResourceType::BucketWater,
                    },
                    None => false,
                };
                kind == BuildingType::Tank && stock_ok && f.stockpile_cells == 1 && f.building_cells == 0
                    && f.floor_cells == 0 && f.door_cells == 0 && f.bridge_cells == 0
            };
            if !ok {
                return Err(RecoveryPlanFailure::OwnerMismatch);
            }
            if f.is_bucket_storage {
                list.push(f.entity);
            }
        }
        i += 1;
    }
    assert(b@.take(b@.len() as int) =~= b@);
    if kind == BuildingType::Tank && list.len() == 0 {
        return Err(RecoveryPlanFailure::OwnerMismatch);
    }
    let sorted = sort_by_key(list.as_slice());
    Ok(sorted)
}

/// A resource item and its relations.
#[derive(Debug, Clone, Copy, PartialEq, Eq, Structural)]
pub struct ItemFacts {
    pub entity: EntityId,
    pub resource_type: ResourceType,
    pub belongs_to: Option<EntityId>,
    pub stored_in: Option<EntityId>,
    pub stored_by_mixer: Option<EntityId>,
    pub loaded_in: Option<EntityId>,
    pub delivering_to: Option<EntityId>,
}

/// A wheelbarrow and where it belongs and is parked.
#[derive(Debug, Clone, Copy, PartialEq, Eq, Structural)]
pub struct WheelbarrowFacts {
    pub entity: EntityId,
    pub belongs_to: Option<EntityId>,
    pub parked_at: Option<EntityId>,
}

/// The wheelbarrow belongs to or is parked at the target.
pub open spec fn carrier_of_target(w: WheelbarrowFacts, target: EntityId) -> bool {
    w.belongs_to == Some(target) || w.parked_at == Some(target)
}

/// The wheelbarrows of the target, in the order given.
pub open spec fn carrier_list(ws: Seq<WheelbarrowFacts>, target: EntityId) -> Seq<EntityId>
    decreases ws.len(),
{
    if ws.len() == 0 {
        Seq::empty()
    } else {
        let rest = carrier_list(ws.drop_last(), target);
        if carrier_of_target(ws.last(), target) { rest.push(ws.last().entity) } else { rest }
    }
}

/// Only a parking owns wheelbarrows, each belongs to it and is parked at
/// nothing else, and a parking owns no loose item.
pub open spec fn wheelbarrows_ok(ws: Seq<WheelbarrowFacts>, items: Seq<ItemFacts>, target: EntityId, kind: BuildingType) -> bool {
    &&& kind != BuildingType::WheelbarrowParking ==> carrier_list(ws, target).len() == 0
    &&& forall|i: int| 0 <= i < ws.len() && carrier_of_target(#[trigger] ws[i], target) ==>
            ws[i].belongs_to == Some(target) && (ws[i].parked_at is None || ws[i].parked_at == Some(target))
    &&& kind == BuildingType::WheelbarrowParking ==> forall|i: int| 0 <= i < items.len() ==>
            !(#[trigger] items[i].belongs_to == Some(target) && !carrier_list(ws, target).contains(items[i].entity)
                && items[i].loaded_in is None)
}

fn contains_id(v: &Vec<EntityId>, e: EntityId) -> (b: bool)
    ensures
        b == v@.contains(e),
{
    let mut i: usize = 0;
    while i < v.len()
        invariant
            i <= v@.len(),
            forall|j: int| 0 <= j < i ==> v@[j] != e,
        decreases v.len() - i,
    {
        if v[i] == e {
            assert(v@[i as int] == e);
            return true;
        }
        i += 1;
    }
    false
}

/// Collects the target's wheelbarrows, sorted by entity; any that does not
/// fit is an owner mismatch.
pub fn collect_wheelbarrows(ws: &Vec<WheelbarrowFacts>, items: &Vec<ItemFacts>, target: EntityId, kind: BuildingType) -> (r: Result<Vec<EntityId>, RecoveryPlanFailure>)
    ensures
        wheelbarrows_ok(ws@, items@, target, kind) ==> (r matches Ok(v) && sorted_by_key(v@) && v@.to_multiset() == carrier_list(ws@, target).to_multiset()),
        !wheelbarrows_ok(ws@, items@, target, kind) ==> r == Err::<Vec<EntityId>, RecoveryPlanFailure>(RecoveryPlanFailure::OwnerMismatch),
{
    let mut list: Vec<EntityId> = Vec::new();
    let mut shape_ok = true;
    let mut i: usize = 0;
    while i < ws.len()
        invariant
            i <= ws@.len(),
            list@ == carrier_list(ws@.take(i as int), target),
            shape_ok == forall|j: int| 0 <= j < i && carrier_of_target(#[trigger] ws@[j], target) ==>
                ws@[j].belongs_to == Some(target) && (ws@[j].parked_at is None || ws@[j].parked_at == Some(target)),
        decreases ws.len() - i,
    {
        let w = ws[i];
        assert(ws@.take(i + 1).drop_last() =~= ws@.take(i as int));
        let relevant = match (w.belongs_to, w.parked_at) {
            (Some(b), _) if b == target => true,
            (_, Some(p)) if p == target => true,
            _ => false,
        };
        if relevant {
            list.push(w.entity);
            let fits = match w.belongs_to {
                Some(b) => b == target && match w.parked_at {
                    None => true,
                    Some(p) => p == target,
                },
                None => false,
            };
            if !fits {
                shape_ok = false;
            }
        }
        i += 1;
    }
    assert(ws@.take(ws@.len() as int) =~= ws@);
    if kind != BuildingType::WheelbarrowParking && list.len() > 0 {
        return Err(RecoveryPlanFailure::OwnerMismatch);
    }
    if !shape_ok {
        return Err(RecoveryPlanFailure::OwnerMismatch);
    }
    if kind == BuildingType::WheelbarrowParking {
        let mut k: usize = 0;
        while k < items.len()
            invariant
                k <= items@.len(),
                kind == BuildingType::WheelbarrowParking,
                list@ == carrier_list(ws@, target),
                forall|j: int| 0 <= j < k ==> !(#[trigger] items@[j].belongs_to == Some(target)
                    && !list@.contains(items@[j].entity) && items@[j].loaded_in is None),
            decreases items.len() - k,
        {
            let it = items[k];
            let owned_loose = match it.belongs_to {
                Some(b) => b == target && it.loaded_in.is_none() && !contains_id(&list, it.entity),
                None => false,
            };
            if owned_loose {
                assert(items@[k as int].belongs_to == Some(target) && !list@.contains(items@[k as int].entity)
                    && items@[k as int].loaded_in is None);
                return Err(RecoveryPlanFailure::OwnerMismatch);
            }
            k += 1;
        }
    }
    let sorted = sort_by_key(list.as_slice());
    Ok(sorted)
}


/// A worker's assigned task and the item in its inventory.
#[derive(Debug, Clone, PartialEq, Eq)]
pub struct InventoryHolderFacts {
    pub inventory_item: Option<EntityId>,
    /// The entities its task references, at least among the target and
    /// what belongs to the target.
    pub referenced: Vec<EntityId>,
}

/// The holder's task references one of the removed owners.
pub open spec fn holder_related(h: InventoryHolderFacts, removed: Set<EntityId>) -> bool {
    exists|e: EntityId| removed.contains(e) && h.referenced@.contains(e)
}

/// The inventory items of the workers whose tasks reference a removed owner.
pub open spec fn related_items(hs: Seq<InventoryHolderFacts>, removed: Set<EntityId>) -> Seq<EntityId>
    decreases hs.len(),
{
    if hs.len() == 0 {
        Seq::empty()
    } else {
        let rest = related_items(hs.drop_last(), removed);
        let h = hs.last();
        if holder_related(h, removed) && h.inventory_item is Some {
            rest.push(h.inventory_item.unwrap())
        } else {
            rest
        }
    }
}

fn any_referenced(h: &InventoryHolderFacts, removed: &Vec<EntityId>) -> (b: bool)
    ensures
        b == holder_related(*h, removed@.to_set()),
{
    let mut k: usize = 0;
    while k < removed.len()
        invariant
            k <= removed@.len(),
            forall|j: int| 0 <= j < k ==> !h.referenced@.contains(#[trigger] removed@[j]),
        decreases removed.len() - k,
    {
        if contains_id(&h.referenced, removed[k]) {
            assert(removed@.to_set().contains(removed@[k as int]));
            return true;
        }
        k += 1;
    }
    assert forall|e: EntityId| removed@.to_set().contains(e) implies !h.referenced@.contains(e) by {
        let j = choose|j: int| 0 <= j < removed@.len() && removed@[j] == e;
    }
    false
}

fn collect_related_items(hs: &Vec<InventoryHolderFacts>, removed: &Vec<EntityId>) -> (r: Vec<EntityId>)
    ensures
        r@ == related_items(hs@, removed@.to_set()),
{
    let mut out: Vec<EntityId> = Vec::new();
    let mut i: usize = 0;
    while i < hs.len()
        invariant
            i <= hs@.len(),
            out@ == related_items(hs@.take(i as int), removed@.to_set()),
        decreases hs.len() - i,
    {
        assert(hs@.take(i + 1).drop_last() =~= hs@.take(i as int));
        let h = &hs[i];
        if any_referenced(h, removed) {
            match h.inventory_item {
                Some(e) => out.push(e),
                None => {},
            }
        }
        i += 1;
    }
    assert(hs@.take(hs@.len() as int) =~= hs@);
    out
}

/// The item leaves with the target: it belongs to it, is stored in or
/// delivered to a removed owner, is stored by the target mixer, or is
/// carried by a worker whose task references a removed owner.
pub open spec fn item_owned(it: ItemFacts, target: EntityId, removed: Set<EntityId>, related: Set<EntityId>) -> bool {
    ||| it.belongs_to == Some(target)
    ||| (it.stored_in matches Some(o) && removed.contains(o))
    ||| it.stored_by_mixer == Some(target)
    ||| (it.delivering_to matches Some(o) && removed.contains(o))
    ||| related.contains(it.entity)
}

/// The item is recovered on its own: it is owned, is no recovered
/// wheelbarrow, and is not loaded in one.
pub open spec fn item_considered(it: ItemFacts, target: EntityId, removed: Set<EntityId>, related: Set<EntityId>, carriers: Set<EntityId>) -> bool {
    &&& !carriers.contains(it.entity)
    &&& item_owned(it, target, removed, related)
    &&& !(it.loaded_in matches Some(c) && carriers.contains(c))
}

/// The recovered items, in the order given: ordinary items go on the
/// ground, sand is absorbed, and stasis mud is transferred.
pub open spec fn classify_items(items: Seq<ItemFacts>, target: EntityId, removed: Set<EntityId>, related: Set<EntityId>, carriers: Set<EntityId>)
    -> (Seq<GroundItemRecovery>, Seq<EntityId>, Seq<EntityId>)
    decreases items.len(),
{
    if items.len() == 0 {
        (Seq::empty(), Seq::empty(), Seq::empty())
    } else {
        let (g, sand, mud) = classify_items(items.drop_last(), target, removed, related, carriers);
        let it = items.last();
        if !item_considered(it, target, removed, related, carriers) {
            (g, sand, mud)
        } else if it.resource_type == ResourceType::Sand {
            (g, sand.push(it.entity), mud)
        } else if it.resource_type == ResourceType::StasisMud {
            (g, sand, mud.push(it.entity))
        } else {
            (g.push(GroundItemRecovery { entity: it.entity, resource_type: it.resource_type }), sand, mud)
        }
    }
}

fn opt_in(o: Option<EntityId>, v: &Vec<EntityId>) -> (b: bool)
    ensures
        b == (o matches Some(e) && v@.to_set().contains(e)),
{
    match o {
        Some(e) => contains_id(v, e),
        None => false,
    }
}

fn split_items(items: &Vec<ItemFacts>, target: EntityId, removed: &Vec<EntityId>, related: &Vec<EntityId>, carriers: &Vec<EntityId>)
    -> (r: (Vec<GroundItemRecovery>, Vec<EntityId>, Vec<EntityId>))
    ensures
        (r.0@, r.1@, r.2@) == classify_items(items@, target, removed@.to_set(), related@.to_set(), carriers@.to_set()),
{
    let mut ground: Vec<GroundItemRecovery> = Vec::new();
    let mut sand: Vec<EntityId> = Vec::new();
    let mut mud: Vec<EntityId> = Vec::new();
    let mut i: usize = 0;
    while i < items.len()
        invariant
            i <= items@.len(),
            (ground@, sand@, mud@) == classify_items(items@.take(i as int), target, removed@.to_set(), related@.to_set(), carriers@.to_set()),
        decreases items.len() - i,
    {
        assert(items@.take(i + 1).drop_last() =~= items@.take(i as int));
        let it = items[i];
        let owned = it.belongs_to == Some(target) || opt_in(it.stored_in, removed) || it.stored_by_mixer == Some(target)
            || opt_in(it.delivering_to, removed) || contains_id(related, it.entity);
        let considered = !contains_id(carriers, it.entity) && owned && !opt_in(it.loaded_in, carriers);
        if considered {
            if it.resource_type == ResourceType::Sand {
                sand.push(it.entity);
            } else if it.resource_type == ResourceType::StasisMud {
                mud.push(it.entity);
            } else {
                ground.push(GroundItemRecovery { entity: it.entity, resource_type: it.resource_type });
            }
        }
        i += 1;
    }
    assert(items@.take(items@.len() as int) =~= items@);
    (ground, sand, mud)
}

/// A tank's own item: one that belongs to it or is stored in it or in one
/// of its companions.
pub open spec fn tank_item(it: ItemFacts, target: EntityId, companions: Set<EntityId>) -> bool {
    it.belongs_to == Some(target) || it.stored_in == Some(target) || (it.stored_in matches Some(o) && companions.contains(o))
}

/// A tank holds water; its buckets belong to it and sit in nothing but its
/// companions.
pub open spec fn tank_item_valid(it: ItemFacts, target: EntityId, companions: Set<EntityId>) -> bool {
    if it.stored_in == Some(target) {
        it.resource_type == ResourceType::Water
    } else {
        &&& (it.resource_type == ResourceType::BucketEmpty || it.resource_type == ResourceType::BucketWater)
        &&& it.belongs_to == Some(target)
        &&& (it.stored_in is None || (it.stored_in matches Some(o) && companions.contains(o)))
    }
}

/// The inventory fits the target's kind: a tank's items are water and its
/// own buckets, and only a mud mixer holds stasis mud.
pub open spec fn kind_inventory_ok(kind: BuildingType, target: EntityId, companions: Set<EntityId>, mud: Seq<EntityId>, items: Seq<ItemFacts>) -> bool {
    &&& kind == BuildingType::Tank ==> forall|i: int| 0 <= i < items.len() && tank_item(#[trigger] items[i], target, companions)
            ==> tank_item_valid(items[i], target, companions)
    &&& kind != BuildingType::MudMixer ==> mud.len() == 0
}

fn validate_kind_inventory(kind: BuildingType, target: EntityId, companions: &Vec<EntityId>, mud: &Vec<EntityId>, items: &Vec<ItemFacts>) -> (b: bool)
    ensures
        b == kind_inventory_ok(kind, target, companions@.to_set(), mud@, items@),
{
    if kind == BuildingType::Tank {
        let mut i: usize = 0;
        while i < items.len()
            invariant
                i <= items@.len(),
                kind == BuildingType::Tank,
                forall|j: int| 0 <= j < i && tank_item(#[trigger] items@[j], target, companions@.to_set()) ==> tank_item_valid(items@[j], target, companions@.to_set()),
            decreases items.len() - i,
        {
            let it = items[i];
            let relevant = it.belongs_to == Some(target) || it.stored_in == Some(target) || opt_in(it.stored_in, companions);
            if relevant {
                let valid = if it.stored_in == Some(target) {
                    it.resource_type == ResourceType::Water
                } else {
                    (it.resource_type == ResourceType::BucketEmpty || it.resource_type == ResourceType::BucketWater)
                        && it.belongs_to == Some(target) && (it.stored_in.is_none() || opt_in(it.stored_in, companions))
                };
                if !valid {
                    assert(tank_item(items@[i as int], target, companions@.to_set()));
                    return false;
                }
            }
            i += 1;
        }
    }
    !(kind != BuildingType::MudMixer && mud.len() > 0)
}


/// A mud mixer that might receive recovered sand and mud.
#[derive(Debug, Clone, Copy, PartialEq, Eq)]
pub struct MixerFacts {
    pub entity: EntityId,
    pub grid: Grid,
    pub kind: BuildingType,
    pub is_provisional: bool,
    pub storage: MixerStorageSnapshot,
    pub move_planned: bool,
    pub deconstruction_pending: bool,
}

/// An eligible receiver, with its distance to the target's anchor.
#[derive(Debug, Clone, Copy, PartialEq, Eq)]
pub struct MixerCandidate {
    pub entity: EntityId,
    pub grid: Grid,
    pub storage: MixerStorageSnapshot,
    pub distance: u64,
}

/// Candidates are tried nearest first, then by row, column and entity.
pub open spec fn candidate_le(a: MixerCandidate, b: MixerCandidate) -> bool {
    ||| a.distance < b.distance
    ||| (a.distance == b.distance && a.grid.1 < b.grid.1)
    ||| (a.distance == b.distance && a.grid.1 == b.grid.1 && a.grid.0 < b.grid.0)
    ||| (a.distance == b.distance && a.grid.1 == b.grid.1 && a.grid.0 == b.grid.0 && a.entity <= b.entity)
}

impl KeyOrder for MixerCandidate {
    open spec fn key_le(self, other: Self) -> bool {
        candidate_le(self, other)
    }

    proof fn key_le_total(a: Self, b: Self) {
    }

    proof fn key_le_transitive(a: Self, b: Self, c: Self) {
    }

    fn le(&self, other: &Self) -> (r: bool) {
        self.distance < other.distance || (self.distance == other.distance && self.grid.1 < other.grid.1)
            || (self.distance == other.distance && self.grid.1 == other.grid.1 && self.grid.0 < other.grid.0)
            || (self.distance == other.distance && self.grid.1 == other.grid.1 && self.grid.0 == other.grid.0
                && self.entity <= other.entity)
    }
}

impl KeyOrder for MixerIncrement {
    open spec fn key_le(self, other: Self) -> bool {
        self.receiver <= other.receiver
    }

    proof fn key_le_total(a: Self, b: Self) {
    }

    proof fn key_le_transitive(a: Self, b: Self, c: Self) {
    }

    fn le(&self, other: &Self) -> (r: bool) {
        self.receiver <= other.receiver
    }
}

impl KeyOrder for GroundItemRecovery {
    open spec fn key_le(self, other: Self) -> bool {
        self.entity <= other.entity
    }

    proof fn key_le_total(a: Self, b: Self) {
    }

    proof fn key_le_transitive(a: Self, b: Self, c: Self) {
    }

    fn le(&self, other: &Self) -> (r: bool) {
        self.entity <= other.entity
    }
}

impl KeyOrder for LoadedItemRecovery {
    open spec fn key_le(self, other: Self) -> bool {
        self.entity <= other.entity
    }

    proof fn key_le_total(a: Self, b: Self) {
    }

    proof fn key_le_transitive(a: Self, b: Self, c: Self) {
    }

    fn le(&self, other: &Self) -> (r: bool) {
        self.entity <= other.entity
    }
}

/// How many stasis mud items a mixer stores.
pub open spec fn stored_mud_count(items: Seq<ItemFacts>, mixer: EntityId) -> nat
    decreases items.len(),
{
    if items.len() == 0 {
        0
    } else {
        stored_mud_count(items.drop_last(), mixer) + if items.last().resource_type == ResourceType::StasisMud
            && items.last().stored_by_mixer == Some(mixer) { 1nat } else { 0nat }
    }
}

/// A completed, settled mud mixer other than the target, whose mud counter
/// agrees with the mud it stores.
pub open spec fn mixer_eligible(m: MixerFacts, target: EntityId, items: Seq<ItemFacts>) -> bool {
    &&& m.entity != target
    &&& m.kind == BuildingType::MudMixer
    &&& !m.is_provisional
    &&& !m.move_planned
    &&& !m.deconstruction_pending
    &&& stored_mud_count(items, m.entity) == m.storage.mud
}

pub open spec fn abs_diff(a: i32, b: i32) -> int {
    if a >= b { a - b } else { b - a }
}

/// The eligible receivers, in the order given.
pub open spec fn candidate_list(ms: Seq<MixerFacts>, target: EntityId, items: Seq<ItemFacts>, anchor: Grid) -> Seq<MixerCandidate>
    decreases ms.len(),
{
    if ms.len() == 0 {
        Seq::empty()
    } else {
        let rest = candidate_list(ms.drop_last(), target, items, anchor);
        let m = ms.last();
        if mixer_eligible(m, target, items) {
            rest.push(MixerCandidate {
                entity: m.entity,
                grid: m.grid,
                storage: m.storage,
                distance: (abs_diff(m.grid.0, anchor.0) + abs_diff(m.grid.1, anchor.1)) as u64,
            })
        } else {
            rest
        }
    }
}

fn count_stored_mud(items: &Vec<ItemFacts>, mixer: EntityId) -> (n: u64)
    ensures
        n == stored_mud_count(items@, mixer),
{
    let mut n: u64 = 0;
    let mut i: usize = 0;
    while i < items.len()
        invariant
            i <= items@.len(),
            n == stored_mud_count(items@.take(i as int), mixer),
            n <= i,
        decreases items.len() - i,
    {
        assert(items@.take(i + 1).drop_last() =~= items@.take(i as int));
        if items[i].resource_type == ResourceType::StasisMud && items[i].stored_by_mixer == Some(mixer) {
            n += 1;
        }
        i += 1;
    }
    assert(items@.take(items@.len() as int) =~= items@);
    n
}

fn distance_between(a: Grid, b: Grid) -> (d: u64)
    ensures
        d == abs_diff(a.0, b.0) + abs_diff(a.1, b.1),
{
    let dx: u64 = if a.0 >= b.0 { (a.0 as i64 - b.0 as i64) as u64 } else { (b.0 as i64 - a.0 as i64) as u64 };
    let dy: u64 = if a.1 >= b.1 { (a.1 as i64 - b.1 as i64) as u64 } else { (b.1 as i64 - a.1 as i64) as u64 };
    dx + dy
}

/// The receivers for recovered sand and mud, nearest to the anchor first.
pub fn collect_mixer_candidates(ms: &Vec<MixerFacts>, target: EntityId, items: &Vec<ItemFacts>, anchor: Grid) -> (r: Vec<MixerCandidate>)
    ensures
        sorted_by_key(r@),
        r@.to_multiset() == candidate_list(ms@, target, items@, anchor).to_multiset(),
{
    let mut out: Vec<MixerCandidate> = Vec::new();
    let mut i: usize = 0;
    while i < ms.len()
        invariant
            i <= ms@.len(),
            out@ == candidate_list(ms@.take(i as int), target, items@, anchor),
        decreases ms.len() - i,
    {
        assert(ms@.take(i + 1).drop_last() =~= ms@.take(i as int));
        let m = ms[i];
        if m.entity != target && m.kind == BuildingType::MudMixer && !m.is_provisional && !m.move_planned
            && !m.deconstruction_pending && count_stored_mud(items, m.entity) == m.storage.mud as u64 {
            let distance = distance_between(m.grid, anchor);
            out.push(MixerCandidate { entity: m.entity, grid: m.grid, storage: m.storage, distance });
        }
        i += 1;
    }
    assert(ms@.take(ms@.len() as int) =~= ms@);
    sort_by_key(out.as_slice())
}

/// Free room of a counter under a capacity.
pub open spec fn room(cap: u32, used: u32) -> int {
    if cap > used { cap - used } else { 0 }
}

pub open spec fn min_int(a: int, b: int) -> int {
    if a <= b { a } else { b }
}

/// The sand each candidate takes, greedily in order, and what is left.
pub open spec fn sand_plan(c: Seq<MixerCandidate>, rem: int, cap: u32) -> (Seq<u32>, int)
    decreases c.len(),
{
    if c.len() == 0 {
        (Seq::empty(), rem)
    } else {
        let a = min_int(rem, room(cap, c[0].storage.sand));
        let (rest, left) = sand_plan(c.drop_first(), rem - a, cap);
        (seq![a as u32] + rest, left)
    }
}

/// The mud each candidate takes, greedily in order, and what is left. The
/// remaining count is taken as a `u32`, as the allocator reads it.
pub open spec fn mud_plan(c: Seq<MixerCandidate>, rem: int, cap: u32) -> (Seq<u32>, int)
    decreases c.len(),
{
    if c.len() == 0 {
        (Seq::empty(), rem)
    } else {
        let a = min_int(rem % 0x1_0000_0000, room(cap, c[0].storage.mud));
        let (rest, left) = mud_plan(c.drop_first(), rem - a, cap);
        (seq![a as u32] + rest, left)
    }
}

/// The mud transfers: the mud items, in order, to the candidates in
/// order, each taking its share.
pub open spec fn transfer_plan(c: Seq<MixerCandidate>, amounts: Seq<u32>, m: Seq<EntityId>, start: int) -> Seq<MudTransfer>
    decreases c.len(),
{
    if c.len() == 0 {
        Seq::empty()
    } else {
        Seq::new(amounts[0] as nat, |k: int| MudTransfer { entity: m[start + k], receiver: c[0].entity })
            + transfer_plan(c.drop_first(), amounts.drop_first(), m, start + amounts[0])
    }
}

/// One increment per candidate that receives anything, in candidate order.
pub open spec fn increment_plan(c: Seq<MixerCandidate>, sa: Seq<u32>, ma: Seq<u32>) -> Seq<MixerIncrement>
    decreases c.len(),
{
    if c.len() == 0 {
        Seq::empty()
    } else {
        let rest = increment_plan(c.drop_first(), sa.drop_first(), ma.drop_first());
        if sa[0] > 0 || ma[0] > 0 {
            seq![MixerIncrement { receiver: c[0].entity, expected: c[0].storage, sand: sa[0], mud: ma[0] }] + rest
        } else {
            rest
        }
    }
}

proof fn lemma_plan_lengths(c: Seq<MixerCandidate>, rem: int, cap: u32)
    ensures
        sand_plan(c, rem, cap).0.len() == c.len(),
        mud_plan(c, rem, cap).0.len() == c.len(),
    decreases c.len(),
{
    if c.len() > 0 {
        lemma_plan_lengths(c.drop_first(), rem - min_int(rem, room(cap, c[0].storage.sand)), cap);
        lemma_plan_lengths(c.drop_first(), rem - min_int(rem % 0x1_0000_0000, room(cap, c[0].storage.mud)), cap);
    }
}

proof fn lemma_plan_sums(c: Seq<MixerCandidate>, rem: int, cap: u32)
    requires
        rem >= 0,
    ensures
        sand_plan(c, rem, cap).1 >= 0,
        sand_plan(c, rem, cap).1 <= rem,
        mud_plan(c, rem, cap).1 >= 0,
        mud_plan(c, rem, cap).1 <= rem,
    decreases c.len(),
{
    if c.len() > 0 {
        lemma_plan_sums(c.drop_first(), rem - min_int(rem, room(cap, c[0].storage.sand)), cap);
        lemma_plan_sums(c.drop_first(), rem - min_int(rem % 0x1_0000_0000, room(cap, c[0].storage.mud)), cap);
    }
}

fn room_of(cap: u32, used: u32) -> (r: u32)
    ensures
        r == room(cap, used),
{
    if cap > used { cap - used } else { 0 }
}

/// Hands the volatile sand and mud to the candidates, nearest first. Fails
/// with no safe recovery when they cannot take it all.
pub fn allocate_volatile_recovery(c: &Vec<MixerCandidate>, sand_total: u32, mud: &Vec<EntityId>, sand_cap: u32, mud_cap: u32)
    -> (r: Result<(Vec<MixerIncrement>, Vec<MudTransfer>), RecoveryPlanFailure>)
    ensures
        ({
            let (sa, sand_left) = sand_plan(c@, sand_total as int, sand_cap);
            let (ma, mud_left) = mud_plan(c@, mud@.len() as int, mud_cap);
            if sand_left > 0 || mud_left > 0 {
                r == Err::<(Vec<MixerIncrement>, Vec<MudTransfer>), RecoveryPlanFailure>(RecoveryPlanFailure::NoSafeRecovery)
            } else {
                &&& r matches Ok((inc, tr))
                &&& sorted_by_key(inc@)
                &&& inc@.to_multiset() == increment_plan(c@, sa, ma).to_multiset()
                &&& tr@ == transfer_plan(c@, ma, mud@, 0)
            }
        }),
{
    proof {
        lemma_plan_lengths(c@, sand_total as int, sand_cap);
        lemma_plan_lengths(c@, mud@.len() as int, mud_cap);
    }
    let ghost full_sand = sand_plan(c@, sand_total as int, sand_cap);
    let mut sand_amounts: Vec<u32> = Vec::new();
    let mut sand_rem: u32 = sand_total;
    let mut i: usize = 0;
    assert(c@.skip(0) =~= c@);
    while i < c.len()
        invariant
            i <= c@.len(),
            full_sand == sand_plan(c@, sand_total as int, sand_cap),
            sand_amounts@.len() == i,
            full_sand.0 == sand_amounts@ + sand_plan(c@.skip(i as int), sand_rem as int, sand_cap).0,
            full_sand.1 == sand_plan(c@.skip(i as int), sand_rem as int, sand_cap).1,
        decreases c.len() - i,
    {
        let ghost rest = c@.skip(i as int);
        assert(rest[0] == c@[i as int]);
        assert(rest.drop_first() =~= c@.skip(i + 1));
        let r = room_of(sand_cap, c[i].storage.sand);
        let a: u32 = if sand_rem <= r { sand_rem } else { r };
        proof {
            let tail = sand_plan(c@.skip(i + 1), sand_rem - a, sand_cap);
            assert(sand_plan(rest, sand_rem as int, sand_cap) == (seq![a] + tail.0, tail.1));
            assert(sand_amounts@.push(a) + tail.0 =~= sand_amounts@ + (seq![a] + tail.0));
        }
        sand_amounts.push(a);
        sand_rem = sand_rem - a;
        i += 1;
    }
    proof {
        assert(c@.skip(c@.len() as int) =~= Seq::<MixerCandidate>::empty());
        assert(sand_amounts@ =~= full_sand.0);
    }
    if sand_rem > 0 {
        return Err(RecoveryPlanFailure::NoSafeRecovery);
    }
    let ghost full_mud = mud_plan(c@, mud@.len() as int, mud_cap);
    let mut mud_amounts: Vec<u32> = Vec::new();
    let mut mud_index: usize = 0;
    let mut j: usize = 0;
    while j < c.len()
        invariant
            j <= c@.len(),
            mud_index <= mud@.len(),
            full_mud == mud_plan(c@, mud@.len() as int, mud_cap),
            mud_amounts@.len() == j,
            full_mud.0 == mud_amounts@ + mud_plan(c@.skip(j as int), mud@.len() - mud_index, mud_cap).0,
            full_mud.1 == mud_plan(c@.skip(j as int), mud@.len() - mud_index, mud_cap).1,
        decreases c.len() - j,
    {
        let ghost rest = c@.skip(j as int);
        assert(rest[0] == c@[j as int]);
        assert(rest.drop_first() =~= c@.skip(j + 1));
        let r = room_of(mud_cap, c[j].storage.mud);
        let remaining: u32 = ((mud.len() - mud_index) as u64 % 0x1_0000_0000u64) as u32;
        let a: u32 = if remaining <= r { remaining } else { r };
        proof {
            let tail = mud_plan(c@.skip(j + 1), mud@.len() - mud_index - a, mud_cap);
            assert(mud_plan(rest, mud@.len() - mud_index, mud_cap) == (seq![a] + tail.0, tail.1));
            assert(mud_amounts@.push(a) + tail.0 =~= mud_amounts@ + (seq![a] + tail.0));
        }
        mud_amounts.push(a);
        mud_index = mud_index + a as usize;
        j += 1;
    }
    proof {
        assert(c@.skip(c@.len() as int) =~= Seq::<MixerCandidate>::empty());
        assert(mud_amounts@ =~= full_mud.0);
    }
    if mud_index != mud.len() {
        return Err(RecoveryPlanFailure::NoSafeRecovery);
    }
    let ghost sa = sand_amounts@;
    let ghost ma = mud_amounts@;
    let mut increments: Vec<MixerIncrement> = Vec::new();
    let mut transfers: Vec<MudTransfer> = Vec::new();
    let mut start: usize = 0;
    let mut k: usize = 0;
    assert(c@.skip(0) =~= c@);
    assert(sa.skip(0) =~= sa);
    assert(ma.skip(0) =~= ma);
    proof {
        lemma_transfer_total(c@, ma, mud@.len() as int, mud_cap);
    }
    while k < c.len()
        invariant
            k <= c@.len(),
            sa == sand_amounts@,
            ma == mud_amounts@,
            sa.len() == c@.len(),
            ma.len() == c@.len(),
            start + sum_from(ma, k as int) == mud@.len(),
            start <= mud@.len(),
            increment_plan(c@, sa, ma) == increments@ + increment_plan(c@.skip(k as int), sa.skip(k as int), ma.skip(k as int)),
            transfer_plan(c@, ma, mud@, 0) == transfers@ + transfer_plan(c@.skip(k as int), ma.skip(k as int), mud@, start as int),
        decreases c.len() - k,
    {
        let ghost rest = c@.skip(k as int);
        assert(rest[0] == c@[k as int]);
        assert(rest.drop_first() =~= c@.skip(k + 1));
        assert(sa.skip(k as int)[0] == sa[k as int]);
        assert(sa.skip(k as int).drop_first() =~= sa.skip(k + 1));
        assert(ma.skip(k as int)[0] == ma[k as int]);
        assert(ma.skip(k as int).drop_first() =~= ma.skip(k + 1));
        let s_amt = sand_amounts[k];
        let m_amt = mud_amounts[k];
        let ghost inc_before = increments@;
        if s_amt > 0 || m_amt > 0 {
            increments.push(MixerIncrement { receiver: c[k].entity, expected: c[k].storage, sand: s_amt, mud: m_amt });
            proof {
                let tail = increment_plan(c@.skip(k + 1), sa.skip(k + 1), ma.skip(k + 1));
                assert(inc_before.push(MixerIncrement { receiver: c@[k as int].entity, expected: c@[k as int].storage, sand: s_amt, mud: m_amt }) + tail
                    =~= inc_before + (seq![MixerIncrement { receiver: c@[k as int].entity, expected: c@[k as int].storage, sand: s_amt, mud: m_amt }] + tail));
            }
        }
        proof {
            lemma_sum_from_step(ma, k as int);
            lemma_sum_from_nonneg(ma, k + 1);
        }
        let ghost tr_before = transfers@;
        let ghost block = Seq::new(m_amt as nat, |q: int| MudTransfer { entity: mud@[start + q], receiver: c@[k as int].entity });
        let mut q: usize = 0;
        while q < m_amt as usize
            invariant
                q <= m_amt,
                start + m_amt <= mud@.len(),
                mud@.len() == mud.len(),
                k < c@.len(),
                block == Seq::new(m_amt as nat, |q: int| MudTransfer { entity: mud@[start + q], receiver: c@[k as int].entity }),
                transfers@ == tr_before + block.take(q as int),
            decreases m_amt - q,
        {
            transfers.push(MudTransfer { entity: mud[start + q], receiver: c[k].entity });
            q += 1;
            assert(transfers@ =~= tr_before + block.take(q as int));
        }
        proof {
            assert(block.take(m_amt as int) =~= block);
            let tail = transfer_plan(c@.skip(k + 1), ma.skip(k + 1), mud@, start + m_amt);
            assert(tr_before + block + tail =~= tr_before + (block + tail));
            assert(start + m_amt <= mud.len());
        }
        start = start + m_amt as usize;
        k += 1;
    }
    proof {
        assert(c@.skip(c@.len() as int) =~= Seq::<MixerCandidate>::empty());
        assert(increments@ =~= increment_plan(c@, sa, ma));
        assert(transfers@ =~= transfer_plan(c@, ma, mud@, 0));
    }
    let sorted = sort_by_key(increments.as_slice());
    Ok((sorted, transfers))
}

/// The sum of `a[k..]`.
pub open spec fn sum_from(a: Seq<u32>, k: int) -> int
    decreases a.len() - k,
{
    if k >= a.len() || k < 0 {
        0
    } else {
        a[k] + sum_from(a, k + 1)
    }
}

proof fn lemma_sum_from_nonneg(a: Seq<u32>, k: int)
    ensures
        sum_from(a, k) >= 0,
    decreases a.len() - k,
{
    if 0 <= k < a.len() {
        lemma_sum_from_nonneg(a, k + 1);
    }
}

proof fn lemma_sum_from_step(a: Seq<u32>, k: int)
    requires
        0 <= k < a.len(),
    ensures
        sum_from(a, k) == a[k] + sum_from(a, k + 1),
{
}

proof fn lemma_mud_plan_sum(c: Seq<MixerCandidate>, rem: int, cap: u32)
    requires
        rem >= 0,
    ensures
        sum_from(mud_plan(c, rem, cap).0, 0) == rem - mud_plan(c, rem, cap).1,
    decreases c.len(),
{
    if c.len() > 0 {
        let a = min_int(rem % 0x1_0000_0000, room(cap, c[0].storage.mud));
        lemma_mud_plan_sum(c.drop_first(), rem - a, cap);
        lemma_plan_lengths(c.drop_first(), rem - a, cap);
        let t = mud_plan(c.drop_first(), rem - a, cap).0;
        lemma_sum_shift(seq![a as u32], t);
    }
}

proof fn lemma_sum_shift(h: Seq<u32>, t: Seq<u32>)
    requires
        h.len() == 1,
    ensures
        sum_from(h + t, 0) == h[0] + sum_from(t, 0),
{
    assert forall|k: int| 0 <= k <= t.len() implies sum_from(h + t, k + 1) == sum_from(t, k) by {
        lemma_sum_shift_at(h, t, k);
    }
    assert((h + t)[0] == h[0]);
}

proof fn lemma_sum_shift_at(h: Seq<u32>, t: Seq<u32>, k: int)
    requires
        h.len() == 1,
        0 <= k <= t.len(),
    ensures
        sum_from(h + t, k + 1) == sum_from(t, k),
    decreases t.len() - k,
{
    if k < t.len() {
        lemma_sum_shift_at(h, t, k + 1);
        assert((h + t)[k + 1] == t[k]);
    }
}

proof fn lemma_transfer_total(c: Seq<MixerCandidate>, ma: Seq<u32>, n: int, cap: u32)
    requires
        n >= 0,
        ma == mud_plan(c, n, cap).0,
        mud_plan(c, n, cap).1 == 0,
    ensures
        sum_from(ma, 0) == n,
{
    lemma_mud_plan_sum(c, n, cap);
}


/// The items loaded in a carrier, in the order given.
pub open spec fn loaded_list(items: Seq<ItemFacts>, carrier: EntityId) -> Seq<LoadedItemRecovery>
    decreases items.len(),
{
    if items.len() == 0 {
        Seq::empty()
    } else {
        let rest = loaded_list(items.drop_last(), carrier);
        let it = items.last();
        if it.loaded_in == Some(carrier) {
            rest.push(LoadedItemRecovery { entity: it.entity, resource_type: it.resource_type })
        } else {
            rest
        }
    }
}

fn collect_loaded(items: &Vec<ItemFacts>, carrier: EntityId) -> (r: Vec<LoadedItemRecovery>)
    ensures
        sorted_by_key(r@),
        r@.to_multiset() == loaded_list(items@, carrier).to_multiset(),
{
    let mut out: Vec<LoadedItemRecovery> = Vec::new();
    let mut i: usize = 0;
    while i < items.len()
        invariant
            i <= items@.len(),
            out@ == loaded_list(items@.take(i as int), carrier),
        decreases items.len() - i,
    {
        assert(items@.take(i + 1).drop_last() =~= items@.take(i as int));
        if items[i].loaded_in == Some(carrier) {
            out.push(LoadedItemRecovery { entity: items[i].entity, resource_type: items[i].resource_type });
        }
        i += 1;
    }
    assert(items@.take(items@.len() as int) =~= items@);
    sort_by_key(out.as_slice())
}

/// The items a recovery spawns: the mixer's rock, then the salvage.
pub open spec fn spawned_list(rock: u32, salvage: DeconstructionSalvage) -> Seq<ResourceType> {
    Seq::new(rock as nat, |i: int| ResourceType::Rock) + match salvage {
        DeconstructionSalvage::Nothing => Seq::empty(),
        DeconstructionSalvage::Material { resource_type, amount } => Seq::new(amount as nat, |i: int| resource_type),
    }
}

fn push_repeated(out: &mut Vec<ResourceType>, t: ResourceType, n: u32)
    ensures
        final(out)@ == old(out)@ + Seq::new(n as nat, |i: int| t),
{
    let ghost start = out@;
    let mut i: u32 = 0;
    while i < n
        invariant
            i <= n,
            out@ == start + Seq::new(i as nat, |k: int| t),
        decreases n - i,
    {
        out.push(t);
        i += 1;
        assert(out@ =~= start + Seq::new(i as nat, |k: int| t));
    }
}

/// How many of the recovered stasis mud items the target mixer stores.
pub open spec fn target_mud_count(items: Seq<ItemFacts>, target: EntityId, removed: Set<EntityId>, related: Set<EntityId>, carriers: Set<EntityId>) -> nat
    decreases items.len(),
{
    if items.len() == 0 {
        0
    } else {
        let it = items.last();
        target_mud_count(items.drop_last(), target, removed, related, carriers) + if item_considered(it, target, removed, related, carriers)
            && it.resource_type == ResourceType::StasisMud && it.stored_by_mixer == Some(target) { 1nat } else { 0nat }
    }
}

fn count_target_mud(items: &Vec<ItemFacts>, target: EntityId, removed: &Vec<EntityId>, related: &Vec<EntityId>, carriers: &Vec<EntityId>) -> (n: u64)
    ensures
        n == target_mud_count(items@, target, removed@.to_set(), related@.to_set(), carriers@.to_set()),
{
    let mut n: u64 = 0;
    let mut i: usize = 0;
    while i < items.len()
        invariant
            i <= items@.len(),
            n <= i,
            n == target_mud_count(items@.take(i as int), target, removed@.to_set(), related@.to_set(), carriers@.to_set()),
        decreases items.len() - i,
    {
        assert(items@.take(i + 1).drop_last() =~= items@.take(i as int));
        let it = items[i];
        let owned = it.belongs_to == Some(target) || opt_in(it.stored_in, removed) || it.stored_by_mixer == Some(target)
            || opt_in(it.delivering_to, removed) || contains_id(related, it.entity);
        let considered = !contains_id(carriers, it.entity) && owned && !opt_in(it.loaded_in, carriers);
        if considered && it.resource_type == ResourceType::StasisMud && it.stored_by_mixer == Some(target) {
            n += 1;
        }
        i += 1;
    }
    assert(items@.take(items@.len() as int) =~= items@);
    n
}

proof fn lemma_same_multiset_same_set<T>(a: Seq<T>, b: Seq<T>)
    requires
        a.to_multiset() == b.to_multiset(),
    ensures
        a.to_set() == b.to_set(),
{
    a.to_multiset_ensures();
    b.to_multiset_ensures();
    assert forall|x: T| a.to_set().contains(x) <==> b.to_set().contains(x) by {
        assert(a.contains(x) <==> a.to_multiset().count(x) > 0);
        assert(b.contains(x) <==> b.to_multiset().count(x) > 0);
    }
    assert(a.to_set() =~= b.to_set());
}

/// The world facts a facility recovery is planned from.
#[derive(Debug, PartialEq, Eq)]
pub struct RecoveryFacts {
    pub target: EntityId,
    pub kind: BuildingType,
    /// The cell candidates' distances are measured from.
    pub anchor: Grid,
    pub salvage: DeconstructionSalvage,
    /// Every entity with a `BelongsTo`.
    pub belongs: Vec<BelongsFacts>,
    /// Every resource item.
    pub items: Vec<ItemFacts>,
    /// Every wheelbarrow.
    pub wheelbarrows: Vec<WheelbarrowFacts>,
    /// Every worker with an assigned task.
    pub holders: Vec<InventoryHolderFacts>,
    /// The target's mud mixer storage, if it has one.
    pub target_mixer: Option<MixerStorageSnapshot>,
    /// Every building with a mud mixer storage.
    pub mixers: Vec<MixerFacts>,
    /// The rest area's relationship sources.
    pub rest_sources: Vec<EntityId>,
    /// How much sand a mixer holds at most.
    pub mixer_sand_capacity: u32,
    /// How much mud a mixer holds at most.
    pub mixer_mud_capacity: u32,
}

pub open spec fn rf_companions(f: RecoveryFacts) -> Seq<EntityId> {
    companion_list(f.belongs@, f.target)
}

/// The owners removed with the target: itself and its companions.
pub open spec fn rf_removed(f: RecoveryFacts) -> Set<EntityId> {
    Set::empty().insert(f.target) + rf_companions(f).to_set()
}

pub open spec fn rf_carriers(f: RecoveryFacts) -> Seq<EntityId> {
    carrier_list(f.wheelbarrows@, f.target)
}

pub open spec fn rf_related(f: RecoveryFacts) -> Set<EntityId> {
    related_items(f.holders@, rf_removed(f)).to_set()
}

pub open spec fn rf_classes(f: RecoveryFacts) -> (Seq<GroundItemRecovery>, Seq<EntityId>, Seq<EntityId>) {
    classify_items(f.items@, f.target, rf_removed(f), rf_related(f), rf_carriers(f).to_set())
}

/// The mixer's own sand and rock counters, for a mud mixer target.
pub open spec fn rf_numeric(f: RecoveryFacts) -> (u32, u32) {
    if f.kind == BuildingType::MudMixer && f.target_mixer is Some {
        (f.target_mixer.unwrap().sand, f.target_mixer.unwrap().rock)
    } else {
        (0, 0)
    }
}

/// The sand to hand to other mixers: the counter and the loose sand items.
pub open spec fn rf_sand_total(f: RecoveryFacts) -> int {
    rf_numeric(f).0 + (rf_classes(f).1.len() as u32)
}

/// Why no recovery can be planned before receivers are chosen, in the
/// order the checks run.
pub open spec fn recovery_precheck(f: RecoveryFacts) -> Option<RecoveryPlanFailure> {
    if !companions_ok(f.belongs@, f.target, f.kind) {
        Some(RecoveryPlanFailure::OwnerMismatch)
    } else if !wheelbarrows_ok(f.wheelbarrows@, f.items@, f.target, f.kind) {
        Some(RecoveryPlanFailure::OwnerMismatch)
    } else if !kind_inventory_ok(f.kind, f.target, rf_companions(f).to_set(), rf_classes(f).2, f.items@) {
        Some(RecoveryPlanFailure::OwnerMismatch)
    } else if f.kind == BuildingType::MudMixer && f.target_mixer is None {
        Some(RecoveryPlanFailure::OwnerMismatch)
    } else if f.kind == BuildingType::MudMixer && (target_mud_count(f.items@, f.target, rf_removed(f), rf_related(f), rf_carriers(f).to_set()) as u32) != f.target_mixer.unwrap().mud {
        Some(RecoveryPlanFailure::InconsistentMixerInventory)
    } else if rf_sand_total(f) > u32::MAX {
        Some(RecoveryPlanFailure::UnsupportedTarget)
    } else {
        None
    }
}

/// Whether volatile sand or mud must go to other mixers.
pub open spec fn needs_receivers(f: RecoveryFacts) -> bool {
    rf_sand_total(f) != 0 || rf_classes(f).2.len() != 0
}

/// The parts of a plan that do not depend on receivers.
pub open spec fn plan_base_matches(f: RecoveryFacts, p: FacilityRecoveryPlan) -> bool {
    &&& sorted_by_key(p.companions_to_remove@)
    &&& p.companions_to_remove@.to_multiset() == rf_companions(f).to_multiset()
    &&& sorted_by_key(p.ground_items@)
    &&& p.ground_items@.to_multiset() == rf_classes(f).0.to_multiset()
    &&& sorted_by_key(p.sand_items_to_absorb@)
    &&& p.sand_items_to_absorb@.to_multiset() == rf_classes(f).1.to_multiset()
    &&& sorted_by_key(carriers_of(p.wheelbarrows@))
    &&& carriers_of(p.wheelbarrows@).to_multiset() == rf_carriers(f).to_multiset()
    &&& forall|i: int| 0 <= i < p.wheelbarrows@.len() ==> sorted_by_key(#[trigger] p.wheelbarrows@[i].loaded_items@)
        && p.wheelbarrows@[i].loaded_items@.to_multiset() == loaded_list(f.items@, p.wheelbarrows@[i].entity).to_multiset()
    &&& p.expected_target_mixer == if f.kind == BuildingType::MudMixer { f.target_mixer } else { None }
    &&& p.spawned_items@ == spawned_list(rf_numeric(f).1, f.salvage)
    &&& p.rest_sources@ == if f.kind == BuildingType::RestArea { f.rest_sources@ } else { Seq::empty() }
}

/// The receivers' part of a plan, for receivers `c` in the order they are
/// tried and the mud items `m` in the order they are handed out.
pub open spec fn plan_receivers_match(f: RecoveryFacts, p: FacilityRecoveryPlan, c: Seq<MixerCandidate>, m: Seq<EntityId>) -> bool {
    let (sa, _) = sand_plan(c, rf_sand_total(f), f.mixer_sand_capacity);
    let (ma, _) = mud_plan(c, m.len() as int, f.mixer_mud_capacity);
    &&& sorted_by_key(p.mixer_increments@)
    &&& p.mixer_increments@.to_multiset() == increment_plan(c, sa, ma).to_multiset()
    &&& p.mud_transfers@ == transfer_plan(c, ma, m, 0)
}

/// The receivers, nearest first, can take all the volatile sand and mud.
pub open spec fn receivers_suffice(f: RecoveryFacts, c: Seq<MixerCandidate>, m: Seq<EntityId>) -> bool {
    sand_plan(c, rf_sand_total(f), f.mixer_sand_capacity).1 == 0 && mud_plan(c, m.len() as int, f.mixer_mud_capacity).1 == 0
}

/// `c` is the eligible receivers in the order they are tried.
pub open spec fn receiver_order(f: RecoveryFacts, c: Seq<MixerCandidate>) -> bool {
    sorted_by_key(c) && c.to_multiset() == candidate_list(f.mixers@, f.target, f.items@, f.anchor).to_multiset()
}

/// `m` is the recovered mud items sorted by entity.
pub open spec fn mud_order(f: RecoveryFacts, m: Seq<EntityId>) -> bool {
    sorted_by_key(m) && m.to_multiset() == rf_classes(f).2.to_multiset()
}


/// Plans the recovery of everything a facility holds before it is removed:
/// companions, ground items, wheelbarrows, absorbed sand, transferred mud,
/// mixer increments and spawned items. Fails, in the order of
/// [`recovery_precheck`], when the target's contents do not fit its kind, and
/// with no safe recovery when the other mixers cannot take the volatile
/// sand and mud.
pub fn prepare_facility_recovery(f: &RecoveryFacts) -> (r: Result<FacilityRecoveryPlan, RecoveryPlanFailure>)
    ensures
        match recovery_precheck(*f) {
            Some(e) => r == Err::<FacilityRecoveryPlan, RecoveryPlanFailure>(e),
            None => if !needs_receivers(*f) {
                &&& r matches Ok(p)
                &&& plan_base_matches(*f, p)
                &&& p.mixer_increments@.len() == 0
                &&& p.mud_transfers@.len() == 0
            } else {
                exists|c: Seq<MixerCandidate>, m: Seq<EntityId>| {
                    &&& receiver_order(*f, c)
                    &&& mud_order(*f, m)
                    &&& if receivers_suffice(*f, c, m) {
                        &&& r matches Ok(p)
                        &&& plan_base_matches(*f, p)
                        &&& plan_receivers_match(*f, p, c, m)
                    } else {
                        r == Err::<FacilityRecoveryPlan, RecoveryPlanFailure>(RecoveryPlanFailure::NoSafeRecovery)
                    }
                }
            },
        },
{
    let target = f.target;
    let kind = f.kind;
    let companions = match collect_companions(&f.belongs, target, kind) {
        Err(e) => return Err(e),
        Ok(v) => v,
    };
    let carriers = match collect_wheelbarrows(&f.wheelbarrows, &f.items, target, kind) {
        Err(e) => return Err(e),
        Ok(v) => v,
    };
    let mut removed: Vec<EntityId> = Vec::new();
    removed.push(target);
    append_all(&mut removed, &companions);
    proof {
        lemma_same_multiset_same_set(companions@, rf_companions(*f));
        lemma_same_multiset_same_set(carriers@, rf_carriers(*f));
        assert(removed@ =~= seq![target] + companions@);
        assert forall|x: EntityId| removed@.to_set().contains(x) <==> rf_removed(*f).contains(x) by {
            if removed@.contains(x) {
                let i = choose|i: int| 0 <= i < removed@.len() && removed@[i] == x;
                if i > 0 {
                    assert(companions@[i - 1] == x);
                    assert(companions@.to_set().contains(x));
                }
            }
            if companions@.contains(x) {
                let i = choose|i: int| 0 <= i < companions@.len() && companions@[i] == x;
                assert(removed@[i + 1] == x);
            }
            if x == target {
                assert(removed@[0] == x);
            }
        }
        assert(removed@.to_set() =~= rf_removed(*f));
    }
    let related = collect_related_items(&f.holders, &removed);
    let (ground, sand, mud) = split_items(&f.items, target, &removed, &related, &carriers);
    proof {
        assert(related@.to_set() == rf_related(*f));
        assert((ground@, sand@, mud@) == rf_classes(*f));
    }
    if !validate_kind_inventory(kind, target, &companions, &mud, &f.items) {
        return Err(RecoveryPlanFailure::OwnerMismatch);
    }
    let mut numeric_sand: u32 = 0;
    let mut numeric_rock: u32 = 0;
    let mut expected_target_mixer: Option<MixerStorageSnapshot> = None;
    if kind == BuildingType::MudMixer {
        match f.target_mixer {
            None => return Err(RecoveryPlanFailure::OwnerMismatch),
            Some(st) => {
                let n = count_target_mud(&f.items, target, &removed, &related, &carriers);
                if n as u32 != st.mud {
                    return Err(RecoveryPlanFailure::InconsistentMixerInventory);
                }
                numeric_sand = st.sand;
                numeric_rock = st.rock;
                expected_target_mixer = Some(st);
            },
        }
    }
    let sand_len = sand.len() as u32;
    let sand_total = match numeric_sand.checked_add(sand_len) {
        None => return Err(RecoveryPlanFailure::UnsupportedTarget),
        Some(t) => t,
    };
    assert(recovery_precheck(*f) is None);
    assert(sand_total == rf_sand_total(*f));
    assert(numeric_rock == rf_numeric(*f).1);
    let ground_sorted = sort_by_key(ground.as_slice());
    let sand_sorted = sort_by_key(sand.as_slice());
    let mud_sorted = sort_by_key(mud.as_slice());
    proof {
        mud_sorted@.to_multiset_ensures();
        mud@.to_multiset_ensures();
    }
    let mut increments: Vec<MixerIncrement> = Vec::new();
    let mut transfers: Vec<MudTransfer> = Vec::new();
    let ghost mut cands: Seq<MixerCandidate> = Seq::empty();
    if sand_total != 0 || mud_sorted.len() != 0 {
        let candidates = collect_mixer_candidates(&f.mixers, target, &f.items, f.anchor);
        proof {
            cands = candidates@;
        }
        match allocate_volatile_recovery(&candidates, sand_total, &mud_sorted, f.mixer_sand_capacity, f.mixer_mud_capacity) {
            Err(e) => {
                assert(receiver_order(*f, candidates@) && mud_order(*f, mud_sorted@));
                assert(needs_receivers(*f));
                assert(!receivers_suffice(*f, candidates@, mud_sorted@));
                assert({
                    &&& receiver_order(*f, candidates@)
                    &&& mud_order(*f, mud_sorted@)
                    &&& if receivers_suffice(*f, candidates@, mud_sorted@) {
                        false
                    } else {
                        Err::<FacilityRecoveryPlan, RecoveryPlanFailure>(e) == Err::<FacilityRecoveryPlan, RecoveryPlanFailure>(RecoveryPlanFailure::NoSafeRecovery)
                    }
                });
                return Err(e);
            },
            Ok((inc, tr)) => {
                proof {
                    lemma_plan_sums(candidates@, sand_total as int, f.mixer_sand_capacity);
                    lemma_plan_sums(candidates@, mud_sorted@.len() as int, f.mixer_mud_capacity);
                    assert(receivers_suffice(*f, candidates@, mud_sorted@));
                }
                increments = inc;
                transfers = tr;
            },
        }
    }
    let mut spawned: Vec<ResourceType> = Vec::new();
    push_repeated(&mut spawned, ResourceType::Rock, numeric_rock);
    match f.salvage {
        DeconstructionSalvage::Nothing => {},
        DeconstructionSalvage::Material { resource_type, amount } => push_repeated(&mut spawned, resource_type, amount),
    }
    proof {
        assert(spawned@ =~= spawned_list(rf_numeric(*f).1, f.salvage));
    }
    let mut wheelbarrows: Vec<WheelbarrowRecovery> = Vec::new();
    let mut i: usize = 0;
    while i < carriers.len()
        invariant
            i <= carriers@.len(),
            carriers_of(wheelbarrows@) == carriers@.take(i as int),
            forall|k: int| 0 <= k < wheelbarrows@.len() ==> sorted_by_key(#[trigger] wheelbarrows@[k].loaded_items@)
                && wheelbarrows@[k].loaded_items@.to_multiset() == loaded_list(f.items@, wheelbarrows@[k].entity).to_multiset(),
        decreases carriers.len() - i,
    {
        let loaded = collect_loaded(&f.items, carriers[i]);
        let ghost before = wheelbarrows@;
        let w = WheelbarrowRecovery { entity: carriers[i], loaded_items: loaded };
        wheelbarrows.push(w);
        proof {
            assert(carriers_of(before.push(w)) =~= carriers_of(before).push(w.entity));
            assert(carriers@.take(i + 1) =~= carriers@.take(i as int).push(carriers@[i as int]));
        }
        i += 1;
    }
    assert(carriers@.take(carriers@.len() as int) =~= carriers@);
    let rest_sources = if kind == BuildingType::RestArea { copy_entities(&f.rest_sources) } else { Vec::new() };
    let plan = FacilityRecoveryPlan {
        companions_to_remove: companions,
        ground_items: ground_sorted,
        wheelbarrows,
        sand_items_to_absorb: sand_sorted,
        mud_transfers: transfers,
        mixer_increments: increments,
        expected_target_mixer,
        spawned_items: spawned,
        rest_sources,
    };
    proof {
        assert(plan_base_matches(*f, plan));
        if needs_receivers(*f) {
            assert(receiver_order(*f, cands) && mud_order(*f, mud_sorted@));
            assert(receivers_suffice(*f, cands, mud_sorted@));
            assert(plan_receivers_match(*f, plan, cands, mud_sorted@));
        } else {
            assert(increments@.len() == 0 && transfers@.len() == 0);
        }
    }
    Ok(plan)
}


/// A mud mixer's storage as it is now.
#[derive(Debug, Clone, Copy, PartialEq, Eq, Structural)]
pub struct MixerNow {
    pub entity: EntityId,
    pub storage: MixerStorageSnapshot,
}

/// A resource item as it is now.
#[derive(Debug, Clone, Copy, PartialEq, Eq, Structural)]
pub struct ItemNow {
    pub entity: EntityId,
    pub resource_type: ResourceType,
    pub loaded_in: Option<EntityId>,
}

/// What the world holds now of what a recovery plan touches.
#[derive(Debug, PartialEq, Eq)]
pub struct RecoveryRecheck {
    /// The target's mud mixer storage, if it has one.
    pub target_mixer: Option<MixerStorageSnapshot>,
    /// Every mud mixer storage.
    pub mixers: Vec<MixerNow>,
    /// Every resource item.
    pub items: Vec<ItemNow>,
    /// Every wheelbarrow.
    pub wheelbarrows: Vec<EntityId>,
}

/// The storage of a mixer, as a component lookup by entity finds it.
pub open spec fn storage_of(ms: Seq<MixerNow>, e: EntityId) -> Option<MixerStorageSnapshot>
    decreases ms.len(),
{
    if ms.len() == 0 {
        None
    } else if ms[0].entity == e {
        Some(ms[0].storage)
    } else {
        storage_of(ms.drop_first(), e)
    }
}

/// An item, as a component lookup by entity finds it.
pub open spec fn item_of(items: Seq<ItemNow>, e: EntityId) -> Option<ItemNow>
    decreases items.len(),
{
    if items.len() == 0 {
        None
    } else if items[0].entity == e {
        Some(items[0])
    } else {
        item_of(items.drop_first(), e)
    }
}

/// The item exists and is of the given kind.
pub open spec fn item_is(items: Seq<ItemNow>, e: EntityId, t: ResourceType) -> bool {
    item_of(items, e) matches Some(it) && it.resource_type == t
}

/// Everything the plan touches is still as it was planned.
pub open spec fn recovery_still_matches(p: FacilityRecoveryPlan, now: RecoveryRecheck) -> bool {
    &&& p.expected_target_mixer matches Some(x) ==> now.target_mixer == Some(x)
    &&& forall|i: int| 0 <= i < p.mixer_increments@.len() ==>
            storage_of(now.mixers@, #[trigger] p.mixer_increments@[i].receiver) == Some(p.mixer_increments@[i].expected)
    &&& forall|i: int| 0 <= i < p.ground_items@.len() ==>
            item_is(now.items@, #[trigger] p.ground_items@[i].entity, p.ground_items@[i].resource_type)
    &&& forall|i: int| 0 <= i < p.sand_items_to_absorb@.len() ==>
            item_is(now.items@, #[trigger] p.sand_items_to_absorb@[i], ResourceType::Sand)
    &&& forall|i: int| 0 <= i < p.mud_transfers@.len() ==>
            item_is(now.items@, #[trigger] p.mud_transfers@[i].entity, ResourceType::StasisMud)
    &&& forall|i: int| 0 <= i < p.wheelbarrows@.len() ==> {
        let w = #[trigger] p.wheelbarrows@[i];
        &&& now.wheelbarrows@.contains(w.entity)
        &&& forall|k: int| 0 <= k < w.loaded_items@.len() ==>
            (item_of(now.items@, #[trigger] w.loaded_items@[k].entity) matches Some(it)
                && it.resource_type == w.loaded_items@[k].resource_type && it.loaded_in == Some(w.entity))
    }
}

fn find_storage(ms: &Vec<MixerNow>, e: EntityId) -> (r: Option<MixerStorageSnapshot>)
    ensures
        r == storage_of(ms@, e),
{
    let mut i: usize = 0;
    assert(ms@.skip(0) =~= ms@);
    while i < ms.len()
        invariant
            i <= ms@.len(),
            storage_of(ms@, e) == storage_of(ms@.skip(i as int), e),
        decreases ms.len() - i,
    {
        assert(ms@.skip(i as int)[0] == ms@[i as int]);
        assert(ms@.skip(i as int).drop_first() =~= ms@.skip(i + 1));
        if ms[i].entity == e {
            return Some(ms[i].storage);
        }
        i += 1;
    }
    None
}

fn find_item(items: &Vec<ItemNow>, e: EntityId) -> (r: Option<ItemNow>)
    ensures
        r == item_of(items@, e),
{
    let mut i: usize = 0;
    assert(items@.skip(0) =~= items@);
    while i < items.len()
        invariant
            i <= items@.len(),
            item_of(items@, e) == item_of(items@.skip(i as int), e),
        decreases items.len() - i,
    {
        assert(items@.skip(i as int)[0] == items@[i as int]);
        assert(items@.skip(i as int).drop_first() =~= items@.skip(i + 1));
        if items[i].entity == e {
            return Some(items[i]);
        }
        i += 1;
    }
    None
}

fn item_has_type(items: &Vec<ItemNow>, e: EntityId, t: ResourceType) -> (b: bool)
    ensures
        b == item_is(items@, e, t),
{
    match find_item(items, e) {
        Some(it) => it.resource_type == t,
        None => false,
    }
}

/// Whether the items and mixers of a recovery plan are still as planned.
pub fn recovery_plan_still_matches(p: &FacilityRecoveryPlan, now: &RecoveryRecheck) -> (b: bool)
    ensures
        b == recovery_still_matches(*p, *now),
{
    match p.expected_target_mixer {
        Some(x) => {
            if now.target_mixer != Some(x) {
                return false;
            }
        },
        None => {},
    }
    let mut i: usize = 0;
    while i < p.mixer_increments.len()
        invariant
            i <= p.mixer_increments@.len(),
            forall|j: int| 0 <= j < i ==> storage_of(now.mixers@, #[trigger] p.mixer_increments@[j].receiver) == Some(p.mixer_increments@[j].expected),
        decreases p.mixer_increments.len() - i,
    {
        let inc = p.mixer_increments[i];
        if find_storage(&now.mixers, inc.receiver) != Some(inc.expected) {
            return false;
        }
        i += 1;
    }
    let mut g: usize = 0;
    while g < p.ground_items.len()
        invariant
            g <= p.ground_items@.len(),
            forall|j: int| 0 <= j < g ==> item_is(now.items@, #[trigger] p.ground_items@[j].entity, p.ground_items@[j].resource_type),
        decreases p.ground_items.len() - g,
    {
        if !item_has_type(&now.items, p.ground_items[g].entity, p.ground_items[g].resource_type) {
            return false;
        }
        g += 1;
    }
    let mut k: usize = 0;
    while k < p.sand_items_to_absorb.len()
        invariant
            k <= p.sand_items_to_absorb@.len(),
            forall|j: int| 0 <= j < k ==> item_is(now.items@, #[trigger] p.sand_items_to_absorb@[j], ResourceType::Sand),
        decreases p.sand_items_to_absorb.len() - k,
    {
        if !item_has_type(&now.items, p.sand_items_to_absorb[k], ResourceType::Sand) {
            return false;
        }
        k += 1;
    }
    let mut m: usize = 0;
    while m < p.mud_transfers.len()
        invariant
            m <= p.mud_transfers@.len(),
            forall|j: int| 0 <= j < m ==> item_is(now.items@, #[trigger] p.mud_transfers@[j].entity, ResourceType::StasisMud),
        decreases p.mud_transfers.len() - m,
    {
        if !item_has_type(&now.items, p.mud_transfers[m].entity, ResourceType::StasisMud) {
            return false;
        }
        m += 1;
    }
    let mut w: usize = 0;
    while w < p.wheelbarrows.len()
        invariant
            w <= p.wheelbarrows@.len(),
            forall|j: int| 0 <= j < w ==> {
                let c = #[trigger] p.wheelbarrows@[j];
                &&& now.wheelbarrows@.contains(c.entity)
                &&& forall|k: int| 0 <= k < c.loaded_items@.len() ==>
                    (item_of(now.items@, #[trigger] c.loaded_items@[k].entity) matches Some(it)
                        && it.resource_type == c.loaded_items@[k].resource_type && it.loaded_in == Some(c.entity))
            },
        decreases p.wheelbarrows.len() - w,
    {
        let carrier = &p.wheelbarrows[w];
        if !contains_id(&now.wheelbarrows, carrier.entity) {
            return false;
        }
        let mut l: usize = 0;
        while l < carrier.loaded_items.len()
            invariant
                l <= carrier.loaded_items@.len(),
                w < p.wheelbarrows@.len(),
                *carrier == p.wheelbarrows@[w as int],
                forall|k: int| 0 <= k < l ==>
                    (item_of(now.items@, #[trigger] carrier.loaded_items@[k].entity) matches Some(it)
                        && it.resource_type == carrier.loaded_items@[k].resource_type && it.loaded_in == Some(carrier.entity)),
            decreases carrier.loaded_items.len() - l,
        {
            let li = carrier.loaded_items[l];
            let ok = match find_item(&now.items, li.entity) {
                Some(it) => it.resource_type == li.resource_type && it.loaded_in == Some(carrier.entity),
                None => false,
            };
            if !ok {
                assert(!(item_of(now.items@, carrier.loaded_items@[l as int].entity) matches Some(it)
                    && it.resource_type == carrier.loaded_items@[l as int].resource_type && it.loaded_in == Some(carrier.entity)));
                return false;
            }
            l += 1;
        }
        w += 1;
    }
    true
}


/// The footprint the placement planner keeps clear: the target's building
/// and floor cells, sorted by `(y, x)` without repeats.
pub fn recovery_footprint(building_grids: &Vec<Grid>, floor_grids: &Vec<Grid>) -> (r: Vec<Grid>)
    ensures
        strictly_yx_increasing(r@),
        r@.to_set() == building_grids@.to_set() + floor_grids@.to_set(),
{
    let mut all: Vec<Grid> = Vec::new();
    let mut i: usize = 0;
    while i < building_grids.len()
        invariant
            i <= building_grids@.len(),
            all@ == building_grids@.take(i as int),
        decreases building_grids.len() - i,
    {
        all.push(building_grids[i]);
        i += 1;
        assert(all@ =~= building_grids@.take(i as int));
    }
    let mut j: usize = 0;
    while j < floor_grids.len()
        invariant
            j <= floor_grids@.len(),
            all@ == building_grids@ + floor_grids@.take(j as int),
        decreases floor_grids.len() - j,
    {
        all.push(floor_grids[j]);
        j += 1;
        assert(all@ =~= building_grids@ + floor_grids@.take(j as int));
    }
    proof {
        assert(building_grids@.take(building_grids@.len() as int) =~= building_grids@);
        assert(floor_grids@.take(floor_grids@.len() as int) =~= floor_grids@);
        let a = building_grids@;
        let b = floor_grids@;
        assert forall|x: Grid| (a + b).to_set().contains(x) <==> (a.to_set() + b.to_set()).contains(x) by {
            if (a + b).contains(x) {
                let k = choose|k: int| 0 <= k < (a + b).len() && (a + b)[k] == x;
                if k < a.len() {
                    assert(a[k] == x);
                } else {
                    assert(b[k - a.len()] == x);
                }
            }
            if a.contains(x) {
                let k = choose|k: int| 0 <= k < a.len() && a[k] == x;
                assert((a + b)[k] == x);
            }
            if b.contains(x) {
                let k = choose|k: int| 0 <= k < b.len() && b[k] == x;
                assert((a + b)[a.len() + k] == x);
            }
        }
        assert((a + b).to_set() =~= a.to_set() + b.to_set());
    }
    sorted_unique_grids(all.as_slice())
}

} // verus!
