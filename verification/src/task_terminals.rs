//! All-or-none preflight of the worker tasks that an owner removal touches.
//!
//! Before a root-owned transaction removes entities, every worker whose task
//! shell references one of them is snapshotted into an exact terminal
//! request. The batch is refused when a referencing worker has no task
//! identity, when a removed entity still lists a worker that is not in the
//! batch, or when the completing worker is not in it exactly once with its
//! expected identity.

use vstd::prelude::*;
use crate::grid::EntityId;
use crate::decon::TaskIdentity;

verus! {

/// What a terminal request expects to find in the worker's task.
#[derive(Debug, Clone, Copy, PartialEq, Eq)]
pub enum TaskExpectation {
    /// The worker awaits the commit of this exact deconstruction.
    DeconstructionAwaitingCommit { order: EntityId, target: EntityId },
    /// The worker's task references this entity.
    References(EntityId),
}

/// How a terminal request ends the worker's task.
#[derive(Debug, Clone, Copy, PartialEq, Eq, Structural)]
pub enum TerminalDisposition {
    Complete,
    Abort { emit_abandoned: bool },
    AbortPreservingWheelbarrowCargo { emit_abandoned: bool },
}

/// A request to end one worker's exact task.
#[derive(Debug, Clone, Copy, PartialEq, Eq)]
pub struct TerminalRequest {
    pub worker: EntityId,
    pub expected_identity: TaskIdentity,
    pub expectation: TaskExpectation,
    pub disposition: TerminalDisposition,
}

/// How a terminal request was applied.
#[derive(Debug, Clone, Copy, PartialEq, Eq, Structural)]
pub enum TerminalResult {
    Applied,
    /// Not applied because another request of its batch failed.
    BatchAborted,
    /// Not applied: the worker's task no longer matched.
    Rejected,
}

/// The outcome of one terminal request.
#[derive(Debug, Clone, Copy, PartialEq, Eq, Structural)]
pub struct TerminalOutcome {
    pub worker: EntityId,
    pub result: TerminalResult,
}

/// The worker whose task completes with the transaction.
#[derive(Debug, Clone, Copy, PartialEq, Eq)]
pub struct CompletingExactTask {
    pub worker: EntityId,
    pub identity: TaskIdentity,
    pub expectation: TaskExpectation,
}

/// Facts about a worker that has an assigned task.
#[derive(Debug, Clone, PartialEq, Eq)]
pub struct WorkerTaskFacts {
    pub worker: EntityId,
    /// Every entity that the task's payload references.
    pub task_references: Vec<EntityId>,
    pub identity: Option<TaskIdentity>,
    /// The worker's `WorkingOn` target.
    pub working_on: Option<EntityId>,
    /// The wheelbarrow of a `HaulWithWheelbarrow` task.
    pub hauling_wheelbarrow: Option<EntityId>,
}

/// The workers that a removed entity's `TaskWorkers` relation lists.
#[derive(Debug, Clone, PartialEq, Eq)]
pub struct ReferenceWorkers {
    pub entity: EntityId,
    pub workers: Vec<EntityId>,
}

/// Whether the worker's task shell references `r`.
pub open spec fn worker_references(w: WorkerTaskFacts, r: EntityId) -> bool {
    w.task_references@.contains(r) || (w.identity matches Some(id) && (id.assignment_entity == r
        || id.current_target_entity == r)) || w.working_on == Some(r)
}

/// The first cleanup reference (in list order) that the worker references.
pub open spec fn first_reference(w: WorkerTaskFacts, refs: Seq<EntityId>) -> Option<EntityId>
    decreases refs.len(),
{
    if refs.len() == 0 {
        None
    } else if worker_references(w, refs[0]) {
        Some(refs[0])
    } else {
        first_reference(w, refs.drop_first())
    }
}

/// The terminal request of a worker that references `reference`.
pub open spec fn spec_terminal_request(
    w: WorkerTaskFacts,
    identity: TaskIdentity,
    reference: EntityId,
    completing: Option<CompletingExactTask>,
    preserve: Seq<EntityId>,
) -> TerminalRequest {
    let is_completing = completing matches Some(c) && c.worker == w.worker;
    let preserve_cargo = !is_completing && (w.hauling_wheelbarrow matches Some(b) && preserve.contains(b));
    TerminalRequest {
        worker: w.worker,
        expected_identity: identity,
        expectation: if is_completing {
            completing.unwrap().expectation
        } else {
            TaskExpectation::References(reference)
        },
        disposition: if is_completing {
            TerminalDisposition::Complete
        } else if preserve_cargo {
            TerminalDisposition::AbortPreservingWheelbarrowCargo { emit_abandoned: false }
        } else {
            TerminalDisposition::Abort { emit_abandoned: false }
        },
    }
}

/// The requests of the referencing workers, in worker-table order; `None`
/// when a referencing worker has no identity.
pub open spec fn collect_requests(
    workers: Seq<WorkerTaskFacts>,
    refs: Seq<EntityId>,
    completing: Option<CompletingExactTask>,
    preserve: Seq<EntityId>,
) -> Option<Seq<TerminalRequest>>
    decreases workers.len(),
{
    if workers.len() == 0 {
        Some(Seq::empty())
    } else {
        let rest = collect_requests(workers.drop_last(), refs, completing, preserve);
        let w = workers.last();
        match first_reference(w, refs) {
            None => rest,
            Some(r) => match (rest, w.identity) {
                (Some(s), Some(id)) => Some(s.push(spec_terminal_request(w, id, r, completing, preserve))),
                _ => None,
            },
        }
    }
}

/// Whether the requests are ordered by worker.
pub open spec fn sorted_by_worker(s: Seq<TerminalRequest>) -> bool {
    forall|i: int, j: int| 0 <= i < j < s.len() ==> s[i].worker <= s[j].worker
}

/// Every worker listed by a removed entity's `TaskWorkers` is in the batch.
pub open spec fn listed_workers_covered(
    listed: Seq<ReferenceWorkers>,
    refs: Seq<EntityId>,
    requests: Seq<TerminalRequest>,
) -> bool {
    forall|i: int| 0 <= i < listed.len() ==> #[trigger] entry_covered(listed[i], refs, requests)
}

/// Whether some request of the batch is for `worker`.
pub open spec fn has_worker(requests: Seq<TerminalRequest>, worker: EntityId) -> bool {
    exists|j: int| 0 <= j < requests.len() && requests[j].worker == worker
}

/// A removed entity's listed workers are all in the batch.
pub open spec fn entry_covered(e: ReferenceWorkers, refs: Seq<EntityId>, requests: Seq<TerminalRequest>) -> bool {
    refs.contains(e.entity) ==> forall|b: int|
        0 <= b < e.workers@.len() ==> #[trigger] has_worker(requests, e.workers@[b])
}

/// The completing worker is in the batch exactly once, with its identity.
pub open spec fn completing_exact(c: CompletingExactTask, requests: Seq<TerminalRequest>) -> bool {
    exists|j: int|
        0 <= j < requests.len() && requests[j].worker == c.worker && requests[j].expected_identity
            == c.identity && forall|k: int|
            0 <= k < requests.len() && k != j ==> #[trigger] requests[k].worker != c.worker
}

/// What `prepare_owner_task_terminals` returns for these facts: `Err`
/// when a referencing worker has no identity; otherwise the referencing
/// workers' requests sorted by worker, which is `Ok` exactly when every
/// listed worker is covered and the completing worker is exact.
pub open spec fn spec_terminal_batch(
    workers: Seq<WorkerTaskFacts>,
    listed: Seq<ReferenceWorkers>,
    refs: Seq<EntityId>,
    completing: Option<CompletingExactTask>,
    preserve: Seq<EntityId>,
    r: Result<Seq<TerminalRequest>, ()>,
) -> bool {
    match collect_requests(workers, refs, completing, preserve) {
        None => r is Err,
        Some(reqs) => match r {
            Ok(out) => {
                &&& sorted_by_worker(out)
                &&& out.to_multiset() == reqs.to_multiset()
                &&& listed_workers_covered(listed, refs, out)
                &&& (completing matches Some(c) ==> completing_exact(c, out))
            },
            Err(_) => exists|p: Seq<TerminalRequest>|
                sorted_by_worker(p) && p.to_multiset() == reqs.to_multiset() && (!listed_workers_covered(
                    listed,
                    refs,
                    p,
                ) || (completing matches Some(c) && !completing_exact(c, p))),
        },
    }
}

fn references(w: &WorkerTaskFacts, r: EntityId) -> (b: bool)
    ensures
        b == worker_references(*w, r),
{
    let mut i: usize = 0;
    while i < w.task_references.len()
        invariant
            i <= w.task_references@.len(),
            forall|j: int| 0 <= j < i ==> w.task_references@[j] != r,
        decreases w.task_references.len() - i,
    {
        if w.task_references[i] == r {
            assert(w.task_references@[i as int] == r);
            return true;
        }
        i += 1;
    }
    let by_identity = match w.identity {
        Some(id) => id.assignment_entity == r || id.current_target_entity == r,
        None => false,
    };
    by_identity || w.working_on == Some(r)
}

fn find_reference(w: &WorkerTaskFacts, refs: &[EntityId]) -> (r: Option<EntityId>)
    ensures
        r == first_reference(*w, refs@),
{
    let mut i: usize = 0;
    assert(refs@.skip(0) =~= refs@);
    while i < refs.len()
        invariant
            i <= refs@.len(),
            first_reference(*w, refs@) == first_reference(*w, refs@.skip(i as int)),
        decreases refs.len() - i,
    {
        proof {
            assert(refs@.skip(i as int).drop_first() =~= refs@.skip(i + 1));
        }
        if references(w, refs[i]) {
            return Some(refs[i]);
        }
        i += 1;
    }
    None
}

fn contains_entity(s: &[EntityId], e: EntityId) -> (b: bool)
    ensures
        b == s@.contains(e),
{
    let mut i: usize = 0;
    while i < s.len()
        invariant
            i <= s@.len(),
            forall|j: int| 0 <= j < i ==> s@[j] != e,
        decreases s.len() - i,
    {
        if s[i] == e {
            assert(s@[i as int] == e);
            return true;
        }
        i += 1;
    }
    false
}

fn request_for(
    w: &WorkerTaskFacts,
    identity: TaskIdentity,
    reference: EntityId,
    completing: Option<CompletingExactTask>,
    preserve: &[EntityId],
) -> (t: TerminalRequest)
    ensures
        t == spec_terminal_request(*w, identity, reference, completing, preserve@),
{
    let is_completing = match completing {
        Some(c) => c.worker == w.worker,
        None => false,
    };
    let preserve_cargo = !is_completing && match w.hauling_wheelbarrow {
        Some(b) => contains_entity(preserve, b),
        None => false,
    };
    TerminalRequest {
        worker: w.worker,
        expected_identity: identity,
        expectation: if is_completing {
            completing.unwrap().expectation
        } else {
            TaskExpectation::References(reference)
        },
        disposition: if is_completing {
            TerminalDisposition::Complete
        } else if preserve_cargo {
            TerminalDisposition::AbortPreservingWheelbarrowCargo { emit_abandoned: false }
        } else {
            TerminalDisposition::Abort { emit_abandoned: false }
        },
    }
}

fn insert_by_worker(out: &mut Vec<TerminalRequest>, x: TerminalRequest)
    requires
        sorted_by_worker(old(out)@),
    ensures
        sorted_by_worker(final(out)@),
        final(out)@.to_multiset() == old(out)@.to_multiset().insert(x),
{
    let ghost o = out@;
    let mut j: usize = 0;
    while j < out.len() && out[j].worker <= x.worker
        invariant
            out@ == o,
            j <= o.len(),
            forall|k: int| 0 <= k < j ==> o[k].worker <= x.worker,
        decreases out.len() - j,
    {
        j += 1;
    }
    out.insert(j, x);
    proof {
        let n = out@;
        assert(n =~= o.take(j as int).push(x) + o.skip(j as int));
        assert forall|a: int, b: int| 0 <= a < b < n.len() implies n[a].worker <= n[b].worker by {
            if b < j {
                assert(n[a] == o[a] && n[b] == o[b]);
            } else if b == j {
                assert(n[a] == o[a]);
            } else if a == j {
                assert(n[b] == o[b - 1]);
                assert(o[j as int].worker > x.worker);
            } else if a < j {
                assert(n[a] == o[a] && n[b] == o[b - 1]);
            } else {
                assert(n[a] == o[a - 1] && n[b] == o[b - 1]);
            }
        }
        vstd::seq_lib::lemma_multiset_commutative(o.take(j as int).push(x), o.skip(j as int));
        vstd::seq_lib::lemma_multiset_commutative(o.take(j as int), o.skip(j as int));
        assert(o.take(j as int) + o.skip(j as int) =~= o);
        o.take(j as int).to_multiset_ensures();
    }
}

fn in_requests(requests: &Vec<TerminalRequest>, worker: EntityId) -> (b: bool)
    ensures
        b == has_worker(requests@, worker),
{
    let mut i: usize = 0;
    while i < requests.len()
        invariant
            i <= requests@.len(),
            forall|j: int| 0 <= j < i ==> requests@[j].worker != worker,
        decreases requests.len() - i,
    {
        if requests[i].worker == worker {
            return true;
        }
        i += 1;
    }
    false
}

/// Snapshots every worker whose task shell references an entity that will
/// be removed, as one all-or-none batch of exact terminal requests sorted by
/// worker; `Err` when the batch cannot be exact.
pub fn prepare_owner_task_terminals(
    workers: &[WorkerTaskFacts],
    listed_workers: &[ReferenceWorkers],
    cleanup_references: &[EntityId],
    completing: Option<CompletingExactTask>,
    preserve_loaded_carriers: &[EntityId],
) -> (r: Result<Vec<TerminalRequest>, ()>)
    ensures
        spec_terminal_batch(
            workers@,
            listed_workers@,
            cleanup_references@,
            completing,
            preserve_loaded_carriers@,
            match r {
                Ok(v) => Ok(v@),
                Err(e) => Err(e),
            },
        ),
{
    let mut requests: Vec<TerminalRequest> = Vec::new();
    let ghost mut collected: Seq<TerminalRequest> = Seq::empty();
    let mut i: usize = 0;
    proof {
        assert(workers@.take(0) =~= Seq::<WorkerTaskFacts>::empty());
        Seq::<TerminalRequest>::empty().to_multiset_ensures();
        assert(requests@ =~= Seq::<TerminalRequest>::empty());
    }
    while i < workers.len()
        invariant
            i <= workers@.len(),
            collect_requests(workers@.take(i as int), cleanup_references@, completing, preserve_loaded_carriers@)
                == Some(collected),
            sorted_by_worker(requests@),
            requests@.to_multiset() == collected.to_multiset(),
        decreases workers.len() - i,
    {
        let w = &workers[i];
        proof {
            assert(workers@.take(i + 1).drop_last() =~= workers@.take(i as int));
            assert(workers@.take(i + 1).last() == workers@[i as int]);
        }
        match find_reference(w, cleanup_references) {
            None => {},
            Some(reference) => {
                match w.identity {
                    None => {
                        proof {
                            lemma_collect_none_stays(workers@, cleanup_references@, completing,
                                preserve_loaded_carriers@, i as int + 1);
                        }
                        return Err(());
                    },
                    Some(identity) => {
                        let t = request_for(w, identity, reference, completing, preserve_loaded_carriers);
                        insert_by_worker(&mut requests, t);
                        proof {
                            collected.to_multiset_ensures();
                            collected = collected.push(t);
                        }
                    },
                }
            },
        }
        i += 1;
    }
    assert(workers@.take(workers@.len() as int) =~= workers@);
    proof {
        assert(collect_requests(workers@, cleanup_references@, completing, preserve_loaded_carriers@)
            == Some(collected));
    }
    let mut k: usize = 0;
    while k < listed_workers.len()
        invariant
            k <= listed_workers@.len(),
            sorted_by_worker(requests@),
            requests@.to_multiset() == collected.to_multiset(),
            collect_requests(workers@, cleanup_references@, completing, preserve_loaded_carriers@)
                == Some(collected),
            forall|a: int| 0 <= a < k ==> #[trigger] entry_covered(listed_workers@[a], cleanup_references@, requests@),
        decreases listed_workers.len() - k,
    {
        let in_cleanup = contains_entity(cleanup_references, listed_workers[k].entity);
        if in_cleanup {
            let ws = &listed_workers[k].workers;
            let mut m: usize = 0;
            while m < ws.len()
                invariant
                    m <= ws@.len(),
                    k < listed_workers@.len(),
                    ws@ == listed_workers@[k as int].workers@,
                    cleanup_references@.contains(listed_workers@[k as int].entity),
                    sorted_by_worker(requests@),
                    requests@.to_multiset() == collected.to_multiset(),
                    collect_requests(workers@, cleanup_references@, completing, preserve_loaded_carriers@)
                        == Some(collected),
                    forall|b: int| 0 <= b < m ==> #[trigger] has_worker(requests@, ws@[b]),
                decreases ws.len() - m,
            {
                if !in_requests(&requests, ws[m]) {
                    proof {
                        assert(!has_worker(requests@, ws@[m as int]));
                        assert(!entry_covered(listed_workers@[k as int], cleanup_references@, requests@));
                        assert(!listed_workers_covered(listed_workers@, cleanup_references@, requests@));
                        assert(sorted_by_worker(requests@) && requests@.to_multiset() == collected.to_multiset());
                    }
                    return Err(());
                }
                m += 1;
            }
            assert(entry_covered(listed_workers@[k as int], cleanup_references@, requests@));
        }
        k += 1;
    }
    assert(listed_workers_covered(listed_workers@, cleanup_references@, requests@));
    match completing {
        None => {},
        Some(c) => {
            if !completing_is_exact(&requests, c) {
                assert(sorted_by_worker(requests@) && requests@.to_multiset() == collected.to_multiset());
                return Err(());
            }
        },
    }
    Ok(requests)
}

proof fn lemma_collect_none_stays(
    workers: Seq<WorkerTaskFacts>,
    refs: Seq<EntityId>,
    completing: Option<CompletingExactTask>,
    preserve: Seq<EntityId>,
    n: int,
)
    requires
        0 < n <= workers.len(),
        first_reference(workers[n - 1], refs) is Some,
        workers[n - 1].identity is None,
    ensures
        collect_requests(workers, refs, completing, preserve) is None,
    decreases workers.len() - n,
{
    if n == workers.len() {
        assert(workers.drop_last().len() == n - 1);
        assert(workers.last() == workers[n - 1]);
    } else {
        lemma_collect_none_stays(workers.drop_last(), refs, completing, preserve, n);
        let w = workers.last();
        assert(workers.drop_last()[n - 1] == workers[n - 1]);
    }
}

fn completing_is_exact(requests: &Vec<TerminalRequest>, c: CompletingExactTask) -> (b: bool)
    ensures
        b == completing_exact(c, requests@),
{
    let ghost s = requests@;
    let mut count: usize = 0;
    let mut first: usize = 0;
    let mut j: usize = 0;
    while j < requests.len()
        invariant
            j <= s.len(),
            s == requests@,
            count <= 2,
            count == 0 ==> forall|k: int| 0 <= k < j ==> #[trigger] s[k].worker != c.worker,
            count >= 1 ==> first < j && s[first as int].worker == c.worker,
            count >= 1 ==> forall|k: int| 0 <= k < first ==> #[trigger] s[k].worker != c.worker,
            count == 1 ==> forall|k: int| 0 <= k < j && k != first ==> #[trigger] s[k].worker != c.worker,
            count == 2 ==> exists|k: int| 0 <= k < j && k != first && #[trigger] s[k].worker == c.worker,
        decreases requests.len() - j,
    {
        if requests[j].worker == c.worker {
            if count == 0 {
                first = j;
                count = 1;
            } else if count == 1 {
                count = 2;
                assert(s[j as int].worker == c.worker);
            }
        }
        j += 1;
    }
    if count == 1 && requests[first].expected_identity == c.identity {
        assert(completing_exact(c, s)) by {
            assert(0 <= first < s.len() && s[first as int].worker == c.worker
                && s[first as int].expected_identity == c.identity);
        }
        true
    } else {
        proof {
            if completing_exact(c, s) {
                let w = choose|w: int|
                    0 <= w < s.len() && s[w].worker == c.worker && s[w].expected_identity == c.identity
                        && forall|k: int| 0 <= k < s.len() && k != w ==> #[trigger] s[k].worker != c.worker;
                if count == 0 {
                    assert(s[w].worker != c.worker);
                } else if count == 1 {
                    if w != first as int {
                        assert(s[first as int].worker != c.worker);
                    }
                } else {
                    let k = choose|k: int| 0 <= k < j && k != first && #[trigger] s[k].worker == c.worker;
                    if w != first as int {
                        assert(s[first as int].worker != c.worker);
                    } else {
                        assert(s[k].worker != c.worker);
                    }
                }
            }
        }
        false
    }
}

} // verus!
