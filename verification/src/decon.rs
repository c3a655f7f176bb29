//! Values of the deconstruction protocol: requests, results, failures and
//! the facts about order and target entities that the finalizer reads.

use vstd::prelude::*;
use crate::grid::{EntityId, Grid, copy_grids};
use crate::sort::KeyOrder;

verus! {

/// Every kind of completed building.
#[derive(Debug, Clone, Copy, PartialEq, Eq, Structural)]
pub enum BuildingType {
    Wall,
    Door,
    Floor,
    Tank,
    MudMixer,
    RestArea,
    SandPile,
    BonePile,
    WheelbarrowParking,
    Bridge,
    SoulSpa,
    OutdoorLamp,
}

/// Every building kind, in declaration order.
pub fn all_building_types() -> (all: Vec<BuildingType>)
    ensures
        all@.len() == 12,
        forall|k: BuildingType| all@.contains(k),
        forall|i: int, j: int| 0 <= i < j < 12 ==> all@[i] != all@[j],
{
    let all = vec![
        BuildingType::Wall,
        BuildingType::Door,
        BuildingType::Floor,
        BuildingType::Tank,
        BuildingType::MudMixer,
        BuildingType::RestArea,
        BuildingType::SandPile,
        BuildingType::BonePile,
        BuildingType::WheelbarrowParking,
        BuildingType::Bridge,
        BuildingType::SoulSpa,
        BuildingType::OutdoorLamp,
    ];
    proof {
        assert forall|k: BuildingType| all@.contains(k) by {
            match k {
                BuildingType::Wall => assert(all@[0] == k),
                BuildingType::Door => assert(all@[1] == k),
                BuildingType::Floor => assert(all@[2] == k),
                BuildingType::Tank => assert(all@[3] == k),
                BuildingType::MudMixer => assert(all@[4] == k),
                BuildingType::RestArea => assert(all@[5] == k),
                BuildingType::SandPile => assert(all@[6] == k),
                BuildingType::BonePile => assert(all@[7] == k),
                BuildingType::WheelbarrowParking => assert(all@[8] == k),
                BuildingType::Bridge => assert(all@[9] == k),
                BuildingType::SoulSpa => assert(all@[10] == k),
                BuildingType::OutdoorLamp => assert(all@[11] == k),
            }
        }
    }
    all
}

/// The work a designation asks for, as far as the protocol distinguishes it.
#[derive(Debug, Clone, Copy, PartialEq, Eq, Structural)]
pub enum WorkType {
    Deconstruct,
    GeneratePower,
    /// Any other work type, by its stable index.
    Other(u32),
}

/// Stable ordering index of a work type.
pub open spec fn spec_work_type_index(w: WorkType) -> int {
    match w {
        WorkType::Deconstruct => 0,
        WorkType::GeneratePower => 1,
        WorkType::Other(i) => 2 + i,
    }
}

/// The exact identity of a worker's active task.
#[derive(Debug, Clone, Copy, PartialEq, Eq, Structural)]
pub struct TaskIdentity {
    pub assignment_entity: EntityId,
    pub current_target_entity: EntityId,
    pub current_work_type: WorkType,
    /// Stable index of the identity's binding.
    pub binding: u64,
}

/// A worker's request to commit the deconstruction it is awaiting.
#[derive(Debug, Clone, Copy, PartialEq, Eq, Structural)]
pub struct CommitRequest {
    pub world_epoch: u64,
    pub worker: EntityId,
    pub order: EntityId,
    pub target: EntityId,
    pub identity: TaskIdentity,
}

/// A request to cancel a deconstruction order.
#[derive(Debug, Clone, Copy, PartialEq, Eq, Structural)]
pub struct CancelRequest {
    pub world_epoch: u64,
    pub order: EntityId,
}

/// Lexicographic order of two integer tuples given as sequences.
pub open spec fn lex_le(a: Seq<int>, b: Seq<int>) -> bool
    decreases a.len(),
{
    if a.len() == 0 || b.len() == 0 {
        true
    } else if a[0] < b[0] {
        true
    } else if a[0] > b[0] {
        false
    } else {
        lex_le(a.drop_first(), b.drop_first())
    }
}

proof fn lemma_lex_total(a: Seq<int>, b: Seq<int>)
    ensures
        lex_le(a, b) || lex_le(b, a),
    decreases a.len(),
{
    if a.len() > 0 && b.len() > 0 && a[0] == b[0] {
        lemma_lex_total(a.drop_first(), b.drop_first());
    }
}

proof fn lemma_lex_trans(a: Seq<int>, b: Seq<int>, c: Seq<int>)
    requires
        lex_le(a, b),
        lex_le(b, c),
        a.len() == b.len(),
        b.len() == c.len(),
    ensures
        lex_le(a, c),
    decreases a.len(),
{
    if a.len() > 0 && a[0] == b[0] && b[0] == c[0] {
        lemma_lex_trans(a.drop_first(), b.drop_first(), c.drop_first());
    }
}

proof fn lemma_lex_antisymmetric(a: Seq<int>, b: Seq<int>)
    requires
        lex_le(a, b),
        lex_le(b, a),
        a.len() == b.len(),
    ensures
        a == b,
    decreases a.len(),
{
    if a.len() > 0 {
        lemma_lex_antisymmetric(a.drop_first(), b.drop_first());
        assert forall|i: int| 0 <= i < a.len() implies a[i] == b[i] by {
            if i > 0 {
                assert(a[i] == a.drop_first()[i - 1] && b[i] == b.drop_first()[i - 1]);
            }
        }
    }
    assert(a =~= b);
}

/// The key a cancel batch is sorted by: `(world_epoch, order)`.
pub open spec fn cancel_key(r: CancelRequest) -> Seq<int> {
    seq![r.world_epoch as int, r.order as int]
}

/// The key a commit batch is sorted by: epoch, target, order, worker, the
/// identity's assignment and current target, its work type and binding.
pub open spec fn commit_key(r: CommitRequest) -> Seq<int> {
    seq![
        r.world_epoch as int,
        r.target as int,
        r.order as int,
        r.worker as int,
        r.identity.assignment_entity as int,
        r.identity.current_target_entity as int,
        spec_work_type_index(r.identity.current_work_type),
        r.identity.binding as int,
    ]
}

fn work_type_index(w: WorkType) -> (i: u64)
    ensures
        i as int == spec_work_type_index(w),
{
    match w {
        WorkType::Deconstruct => 0,
        WorkType::GeneratePower => 1,
        WorkType::Other(i) => 2 + i as u64,
    }
}

fn lex_le_pair(a0: u64, a1: u64, b0: u64, b1: u64) -> (r: bool)
    ensures
        r == lex_le(seq![a0 as int, a1 as int], seq![b0 as int, b1 as int]),
{
    proof {
        reveal_with_fuel(lex_le, 3);
        assert(seq![a0 as int, a1 as int].drop_first() =~= seq![a1 as int]);
        assert(seq![b0 as int, b1 as int].drop_first() =~= seq![b1 as int]);
        assert(seq![a1 as int].drop_first() =~= Seq::<int>::empty());
        assert(seq![b1 as int].drop_first() =~= Seq::<int>::empty());
    }
    a0 < b0 || (a0 == b0 && a1 <= b1)
}

proof fn lemma_lex_step(a: Seq<int>, b: Seq<int>)
    requires
        a.len() > 0,
        b.len() > 0,
    ensures
        lex_le(a, b) == (a[0] < b[0] || (a[0] == b[0] && lex_le(a.drop_first(), b.drop_first()))),
{
}

/// `lex_le` of two equal-length key sequences, decided field by field.
fn lex_le_exec(a: &Vec<u64>, b: &Vec<u64>) -> (r: bool)
    requires
        a@.len() == b@.len(),
    ensures
        r == lex_le(a@.map_values(|x: u64| x as int), b@.map_values(|x: u64| x as int)),
{
    let ghost sa = a@.map_values(|x: u64| x as int);
    let ghost sb = b@.map_values(|x: u64| x as int);
    let mut i: usize = 0;
    assert(sa.skip(0) =~= sa);
    assert(sb.skip(0) =~= sb);
    while i < a.len()
        invariant
            a@.len() == b@.len(),
            i <= a@.len(),
            sa == a@.map_values(|x: u64| x as int),
            sb == b@.map_values(|x: u64| x as int),
            forall|k: int| 0 <= k < i ==> a@[k] == b@[k],
            lex_le(sa, sb) == lex_le(sa.skip(i as int), sb.skip(i as int)),
        decreases a.len() - i,
    {
        proof {
            lemma_lex_step(sa.skip(i as int), sb.skip(i as int));
            assert(sa.skip(i as int).drop_first() =~= sa.skip(i + 1));
            assert(sb.skip(i as int).drop_first() =~= sb.skip(i + 1));
        }
        if a[i] < b[i] {
            return true;
        }
        if a[i] > b[i] {
            return false;
        }
        i += 1;
    }
    proof {
        assert(sa.skip(i as int).len() == 0);
    }
    true
}

fn commit_key_exec(r: &CommitRequest) -> (k: Vec<u64>)
    requires
        spec_work_type_index(r.identity.current_work_type) <= u64::MAX,
    ensures
        k@.len() == 8,
        k@.map_values(|x: u64| x as int) == commit_key(*r),
{
    let k = vec![
        r.world_epoch,
        r.target,
        r.order,
        r.worker,
        r.identity.assignment_entity,
        r.identity.current_target_entity,
        work_type_index(r.identity.current_work_type),
        r.identity.binding,
    ];
    assert(k@.map_values(|x: u64| x as int) =~= commit_key(*r));
    k
}

impl KeyOrder for CancelRequest {
    open spec fn key_le(self, other: Self) -> bool {
        lex_le(cancel_key(self), cancel_key(other))
    }

    proof fn key_le_total(a: Self, b: Self) {
        lemma_lex_total(cancel_key(a), cancel_key(b));
    }

    proof fn key_le_transitive(a: Self, b: Self, c: Self) {
        lemma_lex_trans(cancel_key(a), cancel_key(b), cancel_key(c));
    }

    fn le(&self, other: &Self) -> (r: bool) {
        lex_le_pair(self.world_epoch, self.order, other.world_epoch, other.order)
    }
}

impl KeyOrder for CommitRequest {
    open spec fn key_le(self, other: Self) -> bool {
        lex_le(commit_key(self), commit_key(other))
    }

    proof fn key_le_total(a: Self, b: Self) {
        lemma_lex_total(commit_key(a), commit_key(b));
    }

    proof fn key_le_transitive(a: Self, b: Self, c: Self) {
        lemma_lex_trans(commit_key(a), commit_key(b), commit_key(c));
    }

    fn le(&self, other: &Self) -> (r: bool) {
        let a = commit_key_exec(self);
        let b = commit_key_exec(other);
        lex_le_exec(&a, &b)
    }
}

/// Cancel requests with mutually ordered keys are the same request.
pub proof fn lemma_cancel_key_antisymmetric(x: CancelRequest, y: CancelRequest)
    requires
        x.key_le(y),
        y.key_le(x),
    ensures
        x == y,
{
    lemma_lex_antisymmetric(cancel_key(x), cancel_key(y));
    assert(cancel_key(x)[0] == cancel_key(y)[0] && cancel_key(x)[1] == cancel_key(y)[1]);
}

/// Commit requests with mutually ordered keys are the same request: the
/// key holds every field.
pub proof fn lemma_commit_key_antisymmetric(x: CommitRequest, y: CommitRequest)
    requires
        x.key_le(y),
        y.key_le(x),
    ensures
        x == y,
{
    lemma_lex_antisymmetric(commit_key(x), commit_key(y));
    let kx = commit_key(x);
    let ky = commit_key(y);
    assert(kx[0] == ky[0] && kx[1] == ky[1] && kx[2] == ky[2] && kx[3] == ky[3]);
    assert(kx[4] == ky[4] && kx[5] == ky[5] && kx[6] == ky[6] && kx[7] == ky[7]);
    assert(x.identity.current_work_type == y.identity.current_work_type);
    assert(x.identity == y.identity);
}

/// The result published for a commit request.
#[derive(Debug, Clone, Copy, PartialEq, Eq, Structural)]
pub enum CommitResult {
    Committed,
    StaleWorld,
    StaleIdentity,
    StaleTarget,
    Canceled,
    Duplicate,
    Moving,
    UnsupportedTarget,
    OwnerMismatch,
    NoSafeRecovery,
    InconsistentMixerInventory,
}

/// The result published for a cancel request.
#[derive(Debug, Clone, Copy, PartialEq, Eq, Structural)]
pub enum CancelResult {
    StaleWorld,
    StaleOrder,
    ClaimInProgress,
    Canceled,
}

/// Why an order is blocked after a failed commit.
#[derive(Debug, Clone, Copy, PartialEq, Eq, Structural)]
pub enum BlockReason {
    StaleTarget,
    Moving,
    UnsupportedTarget,
    OwnerMismatch,
    NoSafeRecovery,
    InconsistentMixerInventory,
}

/// The diagnostic domains whose change may lift a blocker.
#[derive(Debug, Clone, Copy, PartialEq, Eq, Structural)]
pub struct DomainMask {
    pub task: bool,
    pub topology: bool,
    pub availability: bool,
}

pub open spec fn task_domain() -> DomainMask {
    DomainMask { task: true, topology: false, availability: false }
}

pub open spec fn task_topology_domains() -> DomainMask {
    DomainMask { task: true, topology: true, availability: false }
}

pub open spec fn topology_availability_domains() -> DomainMask {
    DomainMask { task: false, topology: true, availability: true }
}

pub open spec fn availability_domain() -> DomainMask {
    DomainMask { task: false, topology: false, availability: true }
}

pub open spec fn all_domains() -> DomainMask {
    DomainMask { task: true, topology: true, availability: true }
}

/// How a commit failed: the published result, the blocker to arm on the
/// order (if any), and whether the order is an orphan to discard.
#[derive(Debug, Clone, Copy, PartialEq, Eq)]
pub struct CommitFailure {
    pub result: CommitResult,
    pub blocker: Option<(BlockReason, DomainMask)>,
    pub discard_orphaned_order: bool,
}

pub open spec fn untouched(result: CommitResult) -> CommitFailure {
    CommitFailure { result, blocker: None, discard_orphaned_order: false }
}

pub open spec fn blocked(result: CommitResult, reason: BlockReason, domains: DomainMask) -> CommitFailure {
    CommitFailure { result, blocker: Some((reason, domains)), discard_orphaned_order: false }
}

pub open spec fn orphaned(result: CommitResult) -> CommitFailure {
    CommitFailure { result, blocker: None, discard_orphaned_order: true }
}

impl CommitFailure {
    /// A failure that leaves the order as it is.
    pub fn untouched(result: CommitResult) -> (f: Self)
        ensures
            f == untouched(result),
    {
        CommitFailure { result, blocker: None, discard_orphaned_order: false }
    }

    /// A failure that arms a blocker on the order.
    pub fn blocked(result: CommitResult, reason: BlockReason, domains: DomainMask) -> (f: Self)
        ensures
            f == blocked(result, reason, domains),
    {
        CommitFailure { result, blocker: Some((reason, domains)), discard_orphaned_order: false }
    }

    /// A failure whose order is an orphan to discard.
    pub fn orphaned_order(result: CommitResult) -> (f: Self)
        ensures
            f == orphaned(result),
    {
        CommitFailure { result, blocker: None, discard_orphaned_order: true }
    }
}

/// Facts about an entity that may carry a deconstruction order.
#[derive(Debug, Clone, Copy, PartialEq, Eq)]
pub struct OrderFacts {
    pub entity: EntityId,
    /// Carries the `DeconstructionOrder` marker.
    pub is_order: bool,
    /// Its `Designation`'s work type.
    pub designation: Option<WorkType>,
    /// Its `TargetDeconstructionRoot`.
    pub target_root: Option<EntityId>,
    /// Carries an active `DeconstructionBlocker`.
    pub blocker_active: bool,
    /// Grid cell of its transform.
    pub grid: Option<Grid>,
}

/// The facts of `e` in an order table: the first entry for `e`, or none.
pub open spec fn order_fact(orders: Seq<OrderFacts>, e: EntityId) -> Option<OrderFacts>
    decreases orders.len(),
{
    if orders.len() == 0 {
        None
    } else if orders[0].entity == e {
        Some(orders[0])
    } else {
        order_fact(orders.drop_first(), e)
    }
}

/// Looks up the facts of an entity in an order table.
pub fn find_order(orders: &[OrderFacts], e: EntityId) -> (r: Option<OrderFacts>)
    ensures
        r == order_fact(orders@, e),
{
    let mut i: usize = 0;
    assert(orders@.skip(0) =~= orders@);
    while i < orders.len()
        invariant
            i <= orders@.len(),
            order_fact(orders@, e) == order_fact(orders@.skip(i as int), e),
        decreases orders.len() - i,
    {
        proof {
            assert(orders@.skip(i as int).drop_first() =~= orders@.skip(i + 1));
        }
        if orders[i].entity == e {
            return Some(orders[i]);
        }
        i += 1;
    }
    None
}

/// A live order for `target`: marker, `Deconstruct` designation and root.
pub open spec fn is_live_order_for(f: Option<OrderFacts>, target: EntityId) -> bool {
    f matches Some(o) && o.is_order && o.designation == Some(WorkType::Deconstruct)
        && o.target_root == Some(target)
}

pub fn live_order_for(f: Option<OrderFacts>, target: EntityId) -> (r: bool)
    ensures
        r == is_live_order_for(f, target),
{
    match f {
        Some(o) => o.is_order && o.designation == Some(WorkType::Deconstruct) && o.target_root
            == Some(target),
        None => false,
    }
}

/// The claim a commit puts on its target while it applies.
#[derive(Debug, Clone, Copy, PartialEq, Eq, Structural)]
pub struct CommitClaim {
    pub world_epoch: u64,
    pub order: EntityId,
}

/// The cells a map owner holds, by layer.
#[derive(Debug, Clone, PartialEq, Eq)]
pub struct OwnerSnapshot {
    pub building_grids: Vec<Grid>,
    pub floor_grids: Vec<Grid>,
    pub door_grids: Vec<Grid>,
    pub bridge_grids: Vec<Grid>,
    pub stockpile_grids: Vec<Grid>,
}

/// Two snapshots hold the same cells in the same order, layer by layer.
pub open spec fn same_snapshot(a: OwnerSnapshot, b: OwnerSnapshot) -> bool {
    &&& a.building_grids@ == b.building_grids@
    &&& a.floor_grids@ == b.floor_grids@
    &&& a.door_grids@ == b.door_grids@
    &&& a.bridge_grids@ == b.bridge_grids@
    &&& a.stockpile_grids@ == b.stockpile_grids@
}

impl OwnerSnapshot {
    /// A copy of the snapshot.
    pub fn duplicate(&self) -> (r: Self)
        ensures
            same_snapshot(r, *self),
    {
        let r = OwnerSnapshot {
            building_grids: copy_grids(&self.building_grids),
            floor_grids: copy_grids(&self.floor_grids),
            door_grids: copy_grids(&self.door_grids),
            bridge_grids: copy_grids(&self.bridge_grids),
            stockpile_grids: copy_grids(&self.stockpile_grids),
        };
        r
    }
}

} // verus!
