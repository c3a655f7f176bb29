//! Request-level decisions of the deconstruction finalizer: batch intake,
//! cancel processing, commit triage and the handling of failed commits.

use vstd::prelude::*;
use crate::grid::EntityId;
use crate::decon::{
    BlockReason, CancelRequest, CancelResult, CommitClaim, CommitFailure, CommitRequest, CommitResult,
    DomainMask, OrderFacts, WorkType, find_order, is_live_order_for, lemma_cancel_key_antisymmetric,
    lemma_commit_key_antisymmetric, live_order_for, order_fact,
};
use crate::finalizer::{RelatedOrdersFailure, related_deconstruction_orders_for_target, related_orders_verdict};
use crate::sort::{KeyOrder, lemma_sorted_permutation_unique, sort_by_key, sorted_by_key};
use crate::task_terminals::{TerminalOutcome, TerminalResult};

verus! {

/// The cancel and commit batches of one finalizer run, each sorted by its
/// key (`drain_sorted_requests`).
pub fn drain_sorted_requests(cancels: &[CancelRequest], commits: &[CommitRequest]) -> (r: (
    Vec<CancelRequest>,
    Vec<CommitRequest>,
))
    ensures
        sorted_by_key(r.0@),
        r.0@.to_multiset() == cancels@.to_multiset(),
        sorted_by_key(r.1@),
        r.1@.to_multiset() == commits@.to_multiset(),
{
    (sort_by_key(cancels), sort_by_key(commits))
}

/// The finalizer answers a batch in one order whatever order its requests
/// arrived in: two cancel intakes sorted from the same requests are equal,
/// and so are two commit intakes.
pub proof fn law_intake_order_is_arrival_independent(
    cancels_a: Seq<CancelRequest>,
    cancels_b: Seq<CancelRequest>,
    commits_a: Seq<CommitRequest>,
    commits_b: Seq<CommitRequest>,
)
    requires
        sorted_by_key(cancels_a),
        sorted_by_key(cancels_b),
        cancels_a.to_multiset() == cancels_b.to_multiset(),
        sorted_by_key(commits_a),
        sorted_by_key(commits_b),
        commits_a.to_multiset() == commits_b.to_multiset(),
    ensures
        cancels_a == cancels_b,
        commits_a == commits_b,
{
    assert forall|x: CancelRequest, y: CancelRequest| #![trigger x.key_le(y), y.key_le(x)]
        cancels_a.contains(x) && cancels_a.contains(y) && x.key_le(y) && y.key_le(x) implies x == y by {
        lemma_cancel_key_antisymmetric(x, y);
    }
    assert forall|x: CommitRequest, y: CommitRequest| #![trigger x.key_le(y), y.key_le(x)]
        commits_a.contains(x) && commits_a.contains(y) && x.key_le(y) && y.key_le(x) implies x == y by {
        lemma_commit_key_antisymmetric(x, y);
    }
    lemma_sorted_permutation_unique(cancels_a, cancels_b);
    lemma_sorted_permutation_unique(commits_a, commits_b);
}

/// The outcome published for a cancel request.
#[derive(Debug, Clone, Copy, PartialEq, Eq)]
pub struct CancelOutcome {
    pub order: EntityId,
    pub target: Option<EntityId>,
    pub result: CancelResult,
}

/// The outcome published for a commit request.
#[derive(Debug, Clone, Copy, PartialEq, Eq)]
pub struct CommitOutcome {
    pub worker: EntityId,
    pub order: EntityId,
    pub target: EntityId,
    pub result: CommitResult,
}

/// The outcome of a commit request with its own worker, order and target
/// (`commit_outcome_base` with the result filled in).
pub open spec fn spec_commit_outcome(request: CommitRequest, result: CommitResult) -> CommitOutcome {
    CommitOutcome { worker: request.worker, order: request.order, target: request.target, result }
}

/// Builds the outcome of a commit request.
pub fn commit_outcome_base(request: CommitRequest, result: CommitResult) -> (o: CommitOutcome)
    ensures
        o == spec_commit_outcome(request, result),
{
    CommitOutcome { worker: request.worker, order: request.order, target: request.target, result }
}

/// Facts about the target that a cancel request's order roots at.
#[derive(Debug, Clone, PartialEq, Eq)]
pub struct CancelTargetFacts {
    /// The order named by the target's `DeconstructionPending`.
    pub pending_order: Option<EntityId>,
    /// The target's `DeconstructionOrders` relation.
    pub related_orders: Option<Vec<EntityId>>,
    /// The target carries a `DeconstructionCommitClaim`.
    pub has_commit_claim: bool,
}

/// The verdict on a cancel request before any worker is touched: `Err`
/// with the outcome to publish, or `Ok` with the target.
pub open spec fn spec_cancel_preflight(
    current_epoch: u64,
    request: CancelRequest,
    orders: Seq<OrderFacts>,
    target_facts: CancelTargetFacts,
) -> Result<EntityId, CancelOutcome> {
    let o = order_fact(orders, request.order);
    if request.world_epoch != current_epoch {
        Err(CancelOutcome { order: request.order, target: None, result: CancelResult::StaleWorld })
    } else if !(o matches Some(f) && f.target_root is Some) {
        Err(CancelOutcome { order: request.order, target: None, result: CancelResult::StaleOrder })
    } else {
        let target = o.unwrap().target_root.unwrap();
        let stale = CancelOutcome { order: request.order, target: Some(target), result: CancelResult::StaleOrder };
        if !o.unwrap().is_order || o.unwrap().designation != Some(WorkType::Deconstruct)
            || target_facts.pending_order != Some(request.order) {
            Err(stale)
        } else if related_orders_verdict(
            match target_facts.related_orders {
                Some(v) => Some(v@),
                None => None,
            },
            orders,
            target,
            request.order,
        ) is Err {
            Err(stale)
        } else if target_facts.has_commit_claim {
            Err(CancelOutcome { order: request.order, target: Some(target), result: CancelResult::ClaimInProgress })
        } else {
            Ok(target)
        }
    }
}

/// Checks a cancel request against the world; on success returns its
/// target and the orders to cancel, sorted by entity bits. `target_facts`
/// are the facts of the entity the order roots at.
pub fn cancel_preflight(
    current_epoch: u64,
    request: CancelRequest,
    orders: &[OrderFacts],
    target_facts: &CancelTargetFacts,
) -> (r: Result<(EntityId, Vec<EntityId>), CancelOutcome>)
    ensures
        match spec_cancel_preflight(current_epoch, request, orders@, *target_facts) {
            Err(o) => r == Err::<(EntityId, Vec<EntityId>), CancelOutcome>(o),
            Ok(t) => r matches Ok((t2, v)) && t2 == t && sorted_by_key(v@)
                && v@.to_multiset() == target_facts.related_orders.unwrap()@.to_multiset(),
        },
{
    if request.world_epoch != current_epoch {
        return Err(CancelOutcome { order: request.order, target: None, result: CancelResult::StaleWorld });
    }
    let o = find_order(orders, request.order);
    let (facts, target) = match o {
        Some(f) => match f.target_root {
            Some(t) => (f, t),
            None => return Err(CancelOutcome { order: request.order, target: None, result: CancelResult::StaleOrder }),
        },
        None => return Err(CancelOutcome { order: request.order, target: None, result: CancelResult::StaleOrder }),
    };
    let stale = CancelOutcome { order: request.order, target: Some(target), result: CancelResult::StaleOrder };
    if !facts.is_order || facts.designation != Some(WorkType::Deconstruct) || target_facts.pending_order
        != Some(request.order) {
        return Err(stale);
    }
    let related = match &target_facts.related_orders {
        Some(v) => related_deconstruction_orders_for_target(Some(v.as_slice()), orders, target, request.order),
        None => related_deconstruction_orders_for_target(None, orders, target, request.order),
    };
    let orders_to_cancel = match related {
        Ok(v) => v,
        Err(_) => return Err(stale),
    };
    if target_facts.has_commit_claim {
        return Err(CancelOutcome { order: request.order, target: Some(target), result: CancelResult::ClaimInProgress });
    }
    Ok((target, orders_to_cancel))
}

/// Whether every terminal request of a batch was applied.
pub open spec fn all_applied(outcomes: Seq<TerminalOutcome>) -> bool {
    forall|i: int| 0 <= i < outcomes.len() ==> #[trigger] outcomes[i].result == TerminalResult::Applied
}

pub fn every_applied(outcomes: &[TerminalOutcome]) -> (r: bool)
    ensures
        r == all_applied(outcomes@),
{
    let mut i: usize = 0;
    while i < outcomes.len()
        invariant
            i <= outcomes@.len(),
            forall|j: int| 0 <= j < i ==> #[trigger] outcomes@[j].result == TerminalResult::Applied,
        decreases outcomes.len() - i,
    {
        if outcomes[i].result != TerminalResult::Applied {
            return false;
        }
        i += 1;
    }
    true
}

/// The orders canceled so far in this batch, each with its target, and the
/// targets committed so far.
#[derive(Debug, Clone, PartialEq, Eq)]
pub struct FinalizerBatch {
    /// `(order, target)` in the order of cancellation.
    pub canceled_orders: Vec<(EntityId, EntityId)>,
    pub committed_targets: Vec<EntityId>,
}

/// The target recorded for a canceled order: its latest entry.
pub open spec fn canceled_target(c: Seq<(EntityId, EntityId)>, order: EntityId) -> Option<EntityId>
    decreases c.len(),
{
    if c.len() == 0 {
        None
    } else if c.last().0 == order {
        Some(c.last().1)
    } else {
        canceled_target(c.drop_last(), order)
    }
}

impl FinalizerBatch {
    /// A batch in which nothing has been canceled or committed yet.
    pub fn new() -> (b: Self)
        ensures
            b.canceled_orders@.len() == 0,
            b.committed_targets@.len() == 0,
    {
        FinalizerBatch { canceled_orders: Vec::new(), committed_targets: Vec::new() }
    }

    /// The target of a canceled order, if this batch canceled it.
    pub fn canceled_target_of(&self, order: EntityId) -> (r: Option<EntityId>)
        ensures
            r == canceled_target(self.canceled_orders@, order),
    {
        let mut i = self.canceled_orders.len();
        assert(self.canceled_orders@.take(i as int) =~= self.canceled_orders@);
        while i > 0
            invariant
                i <= self.canceled_orders@.len(),
                canceled_target(self.canceled_orders@, order) == canceled_target(
                    self.canceled_orders@.take(i as int),
                    order,
                ),
            decreases i,
        {
            proof {
                assert(self.canceled_orders@.take(i as int).drop_last() =~= self.canceled_orders@.take(i - 1));
            }
            if self.canceled_orders[i - 1].0 == order {
                return Some(self.canceled_orders[i - 1].1);
            }
            i -= 1;
        }
        None
    }

    /// Whether this batch already committed the target.
    pub fn target_committed(&self, target: EntityId) -> (r: bool)
        ensures
            r == self.committed_targets@.contains(target),
    {
        let mut i: usize = 0;
        while i < self.committed_targets.len()
            invariant
                i <= self.committed_targets@.len(),
                forall|j: int| 0 <= j < i ==> self.committed_targets@[j] != target,
            decreases self.committed_targets.len() - i,
        {
            if self.committed_targets[i] == target {
                assert(self.committed_targets@[i as int] == target);
                return true;
            }
            i += 1;
        }
        false
    }

    /// Records that a commit of the target succeeded.
    pub fn record_committed(&mut self, target: EntityId)
        ensures
            final(self).committed_targets@ == old(self).committed_targets@.push(target),
            final(self).canceled_orders@ == old(self).canceled_orders@,
    {
        self.committed_targets.push(target);
    }
}

/// What a successful cancellation does to the world.
#[derive(Debug, Clone, PartialEq, Eq)]
pub struct CancelApply {
    /// Remove the target's `DeconstructionPending`.
    pub remove_pending: bool,
    /// Despawn these orders.
    pub despawn_orders: Vec<EntityId>,
}

/// Finishes a cancel request after its workers' tasks were terminalized:
/// any terminal that did not apply leaves everything as it was; otherwise
/// the target loses its pending marker (when it still names this order),
/// the orders are despawned and recorded as canceled in the batch.
pub fn finish_cancel(
    batch: &mut FinalizerBatch,
    request: CancelRequest,
    target: EntityId,
    orders_to_cancel: &Vec<EntityId>,
    terminal_prepared: bool,
    terminal_outcomes: &[TerminalOutcome],
    pending_order: Option<EntityId>,
) -> (r: (CancelOutcome, Option<CancelApply>))
    ensures
        !(terminal_prepared && all_applied(terminal_outcomes@)) ==> r == (
            CancelOutcome { order: request.order, target: Some(target), result: CancelResult::StaleOrder },
            None::<CancelApply>,
        ) && *final(batch) == *old(batch),
        terminal_prepared && all_applied(terminal_outcomes@) ==> {
            &&& r.0 == CancelOutcome { order: request.order, target: Some(target), result: CancelResult::Canceled }
            &&& r.1 matches Some(apply) && apply.remove_pending == (pending_order == Some(request.order))
                && apply.despawn_orders@ == orders_to_cancel@
            &&& final(batch).canceled_orders@ == old(batch).canceled_orders@ + orders_to_cancel@.map_values(
                |o: EntityId| (o, target),
            )
            &&& final(batch).committed_targets@ == old(batch).committed_targets@
        },
{
    if !terminal_prepared || !every_applied(terminal_outcomes) {
        return (CancelOutcome { order: request.order, target: Some(target), result: CancelResult::StaleOrder }, None);
    }
    let ghost start = batch.canceled_orders@;
    let mut i: usize = 0;
    while i < orders_to_cancel.len()
        invariant
            i <= orders_to_cancel@.len(),
            batch.canceled_orders@ == start + orders_to_cancel@.take(i as int).map_values(|o: EntityId| (o, target)),
            batch.committed_targets@ == old(batch).committed_targets@,
            start == old(batch).canceled_orders@,
        decreases orders_to_cancel.len() - i,
    {
        batch.canceled_orders.push((orders_to_cancel[i], target));
        proof {
            assert(orders_to_cancel@.take(i + 1).map_values(|o: EntityId| (o, target)) =~= orders_to_cancel@.take(
                i as int,
            ).map_values(|o: EntityId| (o, target)).push((orders_to_cancel@[i as int], target)));
        }
        i += 1;
    }
    assert(orders_to_cancel@.take(orders_to_cancel@.len() as int) =~= orders_to_cancel@);
    let apply = CancelApply { remove_pending: pending_order == Some(request.order), despawn_orders: orders_to_cancel.clone() };
    (CancelOutcome { order: request.order, target: Some(target), result: CancelResult::Canceled }, Some(apply))
}

/// What the batch decides for a commit request before validating it.
#[derive(Debug, Clone, Copy, PartialEq, Eq)]
pub enum CommitTriage {
    /// From another world epoch: publish `StaleWorld`.
    StaleWorld,
    /// Its order was canceled in this batch: abort the worker and publish
    /// `Canceled` against the canceled order's target.
    Canceled { target: EntityId },
    /// Its target was committed in this batch: abort the worker and
    /// publish `Duplicate`.
    Duplicate,
    /// Validate and apply it.
    Validate,
}

/// The triage of a commit request against the batch.
pub open spec fn spec_triage_commit(batch: FinalizerBatch, current_epoch: u64, request: CommitRequest) -> CommitTriage {
    if request.world_epoch != current_epoch {
        CommitTriage::StaleWorld
    } else if canceled_target(batch.canceled_orders@, request.order) is Some {
        CommitTriage::Canceled { target: canceled_target(batch.canceled_orders@, request.order).unwrap() }
    } else if batch.committed_targets@.contains(request.target) {
        CommitTriage::Duplicate
    } else {
        CommitTriage::Validate
    }
}

/// Triages a commit request against the batch.
pub fn triage_commit(batch: &FinalizerBatch, current_epoch: u64, request: CommitRequest) -> (t: CommitTriage)
    ensures
        t == spec_triage_commit(*batch, current_epoch, request),
{
    if request.world_epoch != current_epoch {
        return CommitTriage::StaleWorld;
    }
    match batch.canceled_target_of(request.order) {
        Some(target) => CommitTriage::Canceled { target },
        None => if batch.target_committed(request.target) {
            CommitTriage::Duplicate
        } else {
            CommitTriage::Validate
        },
    }
}

/// A target is committed at most once per batch: once recorded, any later
/// current-epoch commit of it whose order was not canceled is a duplicate.
pub proof fn law_committed_target_is_duplicate(
    batch: FinalizerBatch,
    current_epoch: u64,
    request: CommitRequest,
)
    requires
        batch.committed_targets@.contains(request.target),
        request.world_epoch == current_epoch,
        canceled_target(batch.canceled_orders@, request.order) is None,
    ensures
        spec_triage_commit(batch, current_epoch, request) == CommitTriage::Duplicate,
{
}

/// A commit whose order was canceled earlier in the batch is answered
/// `Canceled` against the target the cancellation recorded.
pub proof fn law_canceled_order_answers_canceled(
    batch: FinalizerBatch,
    current_epoch: u64,
    request: CommitRequest,
    target: EntityId,
)
    requires
        request.world_epoch == current_epoch,
        canceled_target(batch.canceled_orders@, request.order) == Some(target),
    ensures
        spec_triage_commit(batch, current_epoch, request) == (CommitTriage::Canceled { target }),
{
}

/// How a failed commit is cleaned up.
#[derive(Debug, Clone, Copy, PartialEq, Eq)]
pub enum FailureHandling {
    /// Nothing more (stale world).
    Nothing,
    /// Abort the committing worker's task.
    AbortWorker,
    /// Terminalize every task on the order; when all applied, remove the
    /// orphaned pending marker (as `remove_orphaned_pending` decides) and
    /// despawn the order.
    DiscardOrphanedOrder,
    /// Abort the worker; when that applied, arm this blocker on the order.
    AbortWorkerThenBlock { reason: BlockReason, domains: DomainMask },
    /// Abort the worker; nothing else.
    AbortWorkerOnly,
}

/// The cleanup plan of a failed commit: whether the request's claim is
/// released (as `release_commit_claim` decides) and what else is done.
pub open spec fn spec_handle_commit_failure(failure: CommitFailure) -> (bool, FailureHandling) {
    if failure.result == CommitResult::StaleWorld {
        (false, FailureHandling::Nothing)
    } else if failure.result == CommitResult::StaleIdentity {
        (true, FailureHandling::AbortWorker)
    } else if failure.discard_orphaned_order {
        (true, FailureHandling::DiscardOrphanedOrder)
    } else {
        match failure.blocker {
            Some((reason, domains)) => (true, FailureHandling::AbortWorkerThenBlock { reason, domains }),
            None => (true, FailureHandling::AbortWorkerOnly),
        }
    }
}

/// Plans the cleanup of a failed commit.
pub fn handle_commit_failure(failure: CommitFailure) -> (r: (bool, FailureHandling))
    ensures
        r == spec_handle_commit_failure(failure),
{
    if failure.result == CommitResult::StaleWorld {
        return (false, FailureHandling::Nothing);
    }
    if failure.result == CommitResult::StaleIdentity {
        return (true, FailureHandling::AbortWorker);
    }
    if failure.discard_orphaned_order {
        return (true, FailureHandling::DiscardOrphanedOrder);
    }
    match failure.blocker {
        Some((reason, domains)) => (true, FailureHandling::AbortWorkerThenBlock { reason, domains }),
        None => (true, FailureHandling::AbortWorkerOnly),
    }
}

/// Whether the orphaned order is discarded: its tasks' terminal batch was
/// prepared and every request applied.
pub fn orphan_terminals_applied(terminal_prepared: bool, outcomes: &[TerminalOutcome]) -> (r: bool)
    ensures
        r == (terminal_prepared && all_applied(outcomes@)),
{
    terminal_prepared && every_applied(outcomes)
}

} // verus!
