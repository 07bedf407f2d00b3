//! Scaling one process type of a deployment to a number of replicas: which
//! replicas to create, restart or remove so that exactly the replicas
//! `0..target` run afterwards.
use crate::models::{AppScale, ProcessContainer, ProcessStatus, ProcessType};
use crate::text::lit;
use vstd::prelude::*;
use vstd::set_lib::{lemma_int_range, lemma_len_subset, set_int_range};

verus! {

/// Why a scale request is refused.
#[derive(Clone, Copy, Debug, PartialEq, Eq, Structural)]
pub enum ScaleError {
    /// Release processes run once per deployment and are never scaled.
    ReleaseNotScalable,
    /// At least one web replica must stay.
    WebToZero,
    /// At least one replica must stay.
    ToZero,
}

impl ScaleError {
    /// The text the platform reports for the refusal.
    pub fn message(&self) -> (s: String)
        ensures
            s@ == scale_error_message(*self),
    {
        proof {
            reveal_strlit("Cannot scale release processes");
            reveal_strlit("Cannot scale web process to 0");
            reveal_strlit("Cannot scale to 0");
        }
        match self {
            ScaleError::ReleaseNotScalable => lit("Cannot scale release processes"),
            ScaleError::WebToZero => lit("Cannot scale web process to 0"),
            ScaleError::ToZero => lit("Cannot scale to 0"),
        }
    }
}

pub open spec fn scale_error_message(e: ScaleError) -> Seq<char> {
    match e {
        ScaleError::ReleaseNotScalable => "Cannot scale release processes"@,
        ScaleError::WebToZero => "Cannot scale web process to 0"@,
        ScaleError::ToZero => "Cannot scale to 0"@,
    }
}

/// One step of reconciling the replicas of a process type.
#[derive(Clone, Copy, Debug, PartialEq, Eq, Structural)]
pub enum ReplicaAction {
    /// Create the container of replica `i` and start it.
    Create(u32),
    /// Start the stopped container of replica `i`.
    Restart(u32),
    /// Stop and remove the container of replica `i`.
    Remove(u32),
}

/// The replicas of one process type: each index at most once.
pub open spec fn replicas_ok(existing: Seq<(u32, ProcessStatus)>) -> bool {
    forall|i: int, j: int| 0 <= i < j < existing.len() ==> existing[i].0 != existing[j].0
}

/// The status of replica `index`, if it exists.
pub open spec fn status_of(existing: Seq<(u32, ProcessStatus)>, index: u32) -> Option<ProcessStatus>
    decreases existing.len(),
{
    if existing.len() == 0 {
        None
    } else if existing.last().0 == index {
        Some(existing.last().1)
    } else {
        status_of(existing.drop_last(), index)
    }
}

/// The replicas as a map from index to status.
pub open spec fn replica_map(existing: Seq<(u32, ProcessStatus)>) -> Map<u32, ProcessStatus> {
    Map::new(|i: u32| status_of(existing, i) is Some, |i: u32| status_of(existing, i)->0)
}

/// The create and restart steps for the replicas `0..k`, in index order.
pub open spec fn start_steps(existing: Seq<(u32, ProcessStatus)>, k: nat) -> Seq<ReplicaAction>
    decreases k,
{
    if k == 0 {
        Seq::empty()
    } else {
        let prev = start_steps(existing, (k - 1) as nat);
        let i = (k - 1) as u32;
        match status_of(existing, i) {
            None => prev.push(ReplicaAction::Create(i)),
            Some(ProcessStatus::Stopped) => prev.push(ReplicaAction::Restart(i)),
            Some(ProcessStatus::Running) => prev,
        }
    }
}

/// The remove steps for the replicas at `target` or above, in listing order.
pub open spec fn excess_steps(existing: Seq<(u32, ProcessStatus)>, target: u32) -> Seq<ReplicaAction>
    decreases existing.len(),
{
    if existing.len() == 0 {
        Seq::empty()
    } else {
        let prev = excess_steps(existing.drop_last(), target);
        if existing.last().0 >= target {
            prev.push(ReplicaAction::Remove(existing.last().0))
        } else {
            prev
        }
    }
}

/// All steps that bring the replicas to exactly `0..target`, all running.
pub open spec fn reconcile_steps(existing: Seq<(u32, ProcessStatus)>, target: u32) -> Seq<ReplicaAction> {
    start_steps(existing, target as nat) + excess_steps(existing, target)
}

/// The replicas after one step: created and restarted replicas run, removed
/// ones are gone.
pub open spec fn apply_step(m: Map<u32, ProcessStatus>, a: ReplicaAction) -> Map<u32, ProcessStatus> {
    match a {
        ReplicaAction::Create(i) => m.insert(i, ProcessStatus::Running),
        ReplicaAction::Restart(i) => m.insert(i, ProcessStatus::Running),
        ReplicaAction::Remove(i) => m.remove(i),
    }
}

pub open spec fn apply_steps(m: Map<u32, ProcessStatus>, steps: Seq<ReplicaAction>) -> Map<u32, ProcessStatus>
    decreases steps.len(),
{
    if steps.len() == 0 {
        m
    } else {
        apply_step(apply_steps(m, steps.drop_last()), steps.last())
    }
}

/// Exactly the replicas `0..target`, all running.
pub open spec fn all_running(target: u32) -> Map<u32, ProcessStatus> {
    Map::new(|i: u32| i < target, |i: u32| ProcessStatus::Running)
}

/// The replicas `0..target` run and no other replica exists.
pub open spec fn in_sync(existing: Seq<(u32, ProcessStatus)>, target: u32) -> bool {
    &&& forall|i: u32| i < target ==> status_of(existing, i) == Some(ProcessStatus::Running)
    &&& existing.len() == target
}

/// The replicas of `process_type` among a deployment's containers, by index;
/// a later container with the same index replaces an earlier one.
pub open spec fn replicas_of(processes: Seq<ProcessContainer>, process_type: ProcessType) -> Seq<(u32, ProcessStatus)>
    decreases processes.len(),
{
    if processes.len() == 0 {
        Seq::empty()
    } else {
        let prev = replicas_of(processes.drop_last(), process_type);
        let p = processes.last();
        if p.process_type == process_type {
            without_index(prev, p.instance_index).push((p.instance_index, p.status))
        } else {
            prev
        }
    }
}

/// The entries whose index is not `index`.
pub open spec fn without_index(s: Seq<(u32, ProcessStatus)>, index: u32) -> Seq<(u32, ProcessStatus)> {
    s.filter(|e: (u32, ProcessStatus)| e.0 != index)
}

/// The replicas of `process_type` among a deployment's containers, each
/// index once with the status of the last container that has it.
pub fn existing_process_replicas(processes: &Vec<ProcessContainer>, process_type: ProcessType) -> (r: Vec<(u32, ProcessStatus)>)
    ensures
        r@ == replicas_of(processes@, process_type),
        replicas_ok(r@),
{
    let mut r: Vec<(u32, ProcessStatus)> = Vec::new();
    let mut k: usize = 0;
    while k < processes.len()
        invariant
            k <= processes@.len(),
            r@ == replicas_of(processes@.take(k as int), process_type),
            replicas_ok(r@),
        decreases processes@.len() - k,
    {
        let p = &processes[k];
        proof {
            assert(processes@.take(k + 1).drop_last() == processes@.take(k as int));
            assert(processes@.take(k + 1).last() == processes@[k as int]);
        }
        if p.process_type == process_type {
            let mut kept: Vec<(u32, ProcessStatus)> = Vec::new();
            let mut q: usize = 0;
            while q < r.len()
                invariant
                    q <= r@.len(),
                    replicas_ok(r@),
                    kept@ == without_index(r@.take(q as int), p.instance_index),
                    forall|a: int| 0 <= a < kept@.len() ==> exists|b: int| 0 <= b < q && #[trigger] kept@[a] == r@[b],
                    replicas_ok(kept@),
                decreases r@.len() - q,
            {
                let e = r[q];
                proof {
                    assert(r@.take(q + 1).drop_last() == r@.take(q as int));
                    reveal(Seq::filter);
                }
                if e.0 != p.instance_index {
                    proof {
                        assert forall|a: int| 0 <= a < kept@.len() implies kept@[a].0 != e.0 by {
                            let b = choose|b: int| 0 <= b < q && kept@[a] == r@[b];
                            assert(r@[b].0 != r@[q as int].0);
                        }
                    }
                    kept.push(e);
                }
                q = q + 1;
            }
            proof {
                assert(r@.take(r@.len() as int) == r@);
                assert forall|a: int| 0 <= a < kept@.len() implies kept@[a].0 != p.instance_index by {
                    assert(kept@.contains(kept@[a]));
                }
            }
            kept.push((p.instance_index, p.status));
            r = kept;
        }
        k = k + 1;
    }
    proof {
        assert(processes@.take(processes@.len() as int) == processes@);
    }
    r
}

/// The status of replica `index`, if it exists.
pub fn replica_status(existing: &Vec<(u32, ProcessStatus)>, index: u32) -> (r: Option<ProcessStatus>)
    ensures
        r == status_of(existing@, index),
{
    let mut k = existing.len();
    proof {
        assert(existing@.take(k as int) == existing@);
    }
    while k > 0
        invariant
            k <= existing@.len(),
            status_of(existing@, index) == status_of(existing@.take(k as int), index),
        decreases k,
    {
        proof {
            assert(existing@.take(k as int).drop_last() == existing@.take(k - 1));
            assert(existing@.take(k as int).last() == existing@[k - 1]);
        }
        let e = existing[k - 1];
        if e.0 == index {
            return Some(e.1);
        }
        k = k - 1;
    }
    proof {
        assert(existing@.take(0) == Seq::<(u32, ProcessStatus)>::empty());
    }
    None
}

/// The create and restart steps for the replicas `0..target`, in index order.
pub(crate) fn start_steps_exec(existing: &Vec<(u32, ProcessStatus)>, target: u32) -> (r: Vec<ReplicaAction>)
    ensures
        r@ == start_steps(existing@, target as nat),
{
    let mut r: Vec<ReplicaAction> = Vec::new();
    let mut i: u32 = 0;
    while i < target
        invariant
            i <= target,
            r@ == start_steps(existing@, i as nat),
        decreases target - i,
    {
        match replica_status(existing, i) {
            None => r.push(ReplicaAction::Create(i)),
            Some(ProcessStatus::Stopped) => r.push(ReplicaAction::Restart(i)),
            Some(ProcessStatus::Running) => {},
        }
        i = i + 1;
    }
    r
}

/// The remove steps for the replicas at `target` or above, in listing order.
pub(crate) fn excess_steps_exec(existing: &Vec<(u32, ProcessStatus)>, target: u32) -> (r: Vec<ReplicaAction>)
    ensures
        r@ == excess_steps(existing@, target),
{
    let mut r: Vec<ReplicaAction> = Vec::new();
    let mut k: usize = 0;
    while k < existing.len()
        invariant
            k <= existing@.len(),
            r@ == excess_steps(existing@.take(k as int), target),
        decreases existing@.len() - k,
    {
        proof {
            assert(existing@.take(k + 1).drop_last() == existing@.take(k as int));
            assert(existing@.take(k + 1).last() == existing@[k as int]);
        }
        let e = existing[k];
        if e.0 >= target {
            r.push(ReplicaAction::Remove(e.0));
        }
        k = k + 1;
    }
    proof {
        assert(existing@.take(existing@.len() as int) == existing@);
    }
    r
}

/// Whether the replicas `0..target` all run and no other replica exists.
fn in_sync_exec(existing: &Vec<(u32, ProcessStatus)>, target: u32) -> (b: bool)
    ensures
        b == in_sync(existing@, target),
{
    if existing.len() != target as usize {
        return false;
    }
    let mut i: u32 = 0;
    while i < target
        invariant
            i <= target,
            forall|j: u32| j < i ==> status_of(existing@, j) == Some(ProcessStatus::Running),
        decreases target - i,
    {
        if replica_status(existing, i) != Some(ProcessStatus::Running) {
            return false;
        }
        i = i + 1;
    }
    true
}

/// Decides how to bring the replicas of `process_type` (each index once) to
/// `target_count` running replicas `0..target_count`. Release processes are
/// never scaled and web processes never to zero; when the replicas already
/// match, nothing is to be done; otherwise the steps are: for each index
/// below the target in order, create the missing replica or restart a
/// stopped one, then remove every replica at or above the target.
pub fn scale_deployment_process(
    process_type: ProcessType,
    target_count: u32,
    existing: &Vec<(u32, ProcessStatus)>,
) -> (r: Result<Option<Vec<ReplicaAction>>, ScaleError>)
    ensures
        match r {
            Err(e) => e == (if process_type == ProcessType::Release {
                ScaleError::ReleaseNotScalable
            } else {
                ScaleError::WebToZero
            }) && (process_type == ProcessType::Release || (process_type == ProcessType::Web
                && target_count == 0)),
            Ok(None) => process_type != ProcessType::Release && !(process_type == ProcessType::Web
                && target_count == 0) && in_sync(existing@, target_count),
            Ok(Some(steps)) => process_type != ProcessType::Release && !(process_type
                == ProcessType::Web && target_count == 0) && !in_sync(existing@, target_count)
                && steps@ == reconcile_steps(existing@, target_count),
        },
{
    if process_type == ProcessType::Release {
        return Err(ScaleError::ReleaseNotScalable);
    }
    if process_type == ProcessType::Web && target_count == 0 {
        return Err(ScaleError::WebToZero);
    }
    if in_sync_exec(existing, target_count) {
        return Ok(None);
    }
    let mut steps = start_steps_exec(existing, target_count);
    let mut removes = excess_steps_exec(existing, target_count);
    steps.append(&mut removes);
    Ok(Some(steps))
}

/// A scale request as it is carried out: first the desired count is stored
/// for the application's process type (the record returned), then the
/// replicas are read and reconciled by the steps (none when they already
/// match). A refused request stores nothing.
pub fn scale_plan(
    process_type: ProcessType,
    target_count: u32,
    existing: &Vec<(u32, ProcessStatus)>,
) -> (r: Result<(AppScale, Option<Vec<ReplicaAction>>), ScaleError>)
    ensures
        match r {
            Err(e) => e == (if process_type == ProcessType::Release {
                ScaleError::ReleaseNotScalable
            } else {
                ScaleError::WebToZero
            }) && (process_type == ProcessType::Release || (process_type == ProcessType::Web
                && target_count == 0)),
            Ok((record, steps)) => {
                &&& process_type != ProcessType::Release
                &&& !(process_type == ProcessType::Web && target_count == 0)
                &&& record == AppScale { process_type, desired: target_count as i32 }
                &&& match steps {
                    None => in_sync(existing@, target_count),
                    Some(st) => !in_sync(existing@, target_count) && st@ == reconcile_steps(existing@, target_count),
                }
            },
        },
{
    match scale_deployment_process(process_type, target_count, existing) {
        Err(e) => Err(e),
        Ok(steps) => Ok((AppScale { process_type, desired: target_count as i32 }, steps)),
    }
}

proof fn lemma_apply_concat(m: Map<u32, ProcessStatus>, s1: Seq<ReplicaAction>, s2: Seq<ReplicaAction>)
    ensures
        apply_steps(m, s1 + s2) == apply_steps(apply_steps(m, s1), s2),
    decreases s2.len(),
{
    if s2.len() == 0 {
        assert(s1 + s2 == s1);
    } else {
        lemma_apply_concat(m, s1, s2.drop_last());
        assert((s1 + s2).drop_last() == s1 + s2.drop_last());
        assert((s1 + s2).last() == s2.last());
    }
}

pub open spec fn start_steps_effect(existing: Seq<(u32, ProcessStatus)>, k: nat, r: Map<u32, ProcessStatus>, i: u32) -> bool {
    &&& i < k ==> r.dom().contains(i) && r[i] == ProcessStatus::Running
    &&& i >= k ==> r.dom().contains(i) == (status_of(existing, i) is Some)
    &&& i >= k && status_of(existing, i) is Some ==> r[i] == status_of(existing, i)->0
}

proof fn lemma_start_steps(existing: Seq<(u32, ProcessStatus)>, k: nat)
    requires
        k <= u32::MAX + 1,
    ensures
        forall|i: u32|
            start_steps_effect(
                existing,
                k,
                #[trigger] apply_steps(replica_map(existing), start_steps(existing, k)),
                i,
            ),
    decreases k,
{
    let m = replica_map(existing);
    if k > 0 {
        lemma_start_steps(existing, (k - 1) as nat);
        let prev = start_steps(existing, (k - 1) as nat);
        let mp = apply_steps(m, prev);
        let j = (k - 1) as u32;
        let r = apply_steps(m, start_steps(existing, k));
        match status_of(existing, j) {
            None => {
                assert(start_steps(existing, k).drop_last() == prev);
                assert(r == mp.insert(j, ProcessStatus::Running));
            },
            Some(ProcessStatus::Stopped) => {
                assert(start_steps(existing, k).drop_last() == prev);
                assert(r == mp.insert(j, ProcessStatus::Running));
            },
            Some(ProcessStatus::Running) => {
                assert(r == mp);
            },
        }
        assert forall|i: u32| start_steps_effect(existing, k, r, i) by {
            assert(start_steps_effect(existing, (k - 1) as nat, mp, i));
        }
    } else {
        assert forall|i: u32|
            start_steps_effect(
                existing,
                k,
                #[trigger] apply_steps(replica_map(existing), start_steps(existing, k)),
                i,
            ) by {}
    }
}

pub open spec fn excess_effect(m: Map<u32, ProcessStatus>, existing: Seq<(u32, ProcessStatus)>, target: u32, r: Map<u32, ProcessStatus>, i: u32) -> bool {
    &&& r.dom().contains(i) == (m.dom().contains(i) && !(i >= target && status_of(existing, i) is Some))
    &&& r.dom().contains(i) ==> r[i] == m[i]
}

proof fn lemma_excess_steps(m: Map<u32, ProcessStatus>, existing: Seq<(u32, ProcessStatus)>, target: u32)
    ensures
        forall|i: u32| excess_effect(m, existing, target, #[trigger] apply_steps(m, excess_steps(existing, target)), i),
    decreases existing.len(),
{
    let r = apply_steps(m, excess_steps(existing, target));
    if existing.len() > 0 {
        lemma_excess_steps(m, existing.drop_last(), target);
        let prev = excess_steps(existing.drop_last(), target);
        let mp = apply_steps(m, prev);
        if existing.last().0 >= target {
            assert(excess_steps(existing, target).drop_last() == prev);
            assert(r == mp.remove(existing.last().0));
        } else {
            assert(r == mp);
        }
        assert forall|i: u32| excess_effect(m, existing, target, r, i) by {
            assert(excess_effect(m, existing.drop_last(), target, mp, i));
        }
    } else {
        assert forall|i: u32| excess_effect(m, existing, target, r, i) by {}
    }
}

proof fn lemma_status_of_some(existing: Seq<(u32, ProcessStatus)>, i: u32) -> (j: int)
    requires
        status_of(existing, i) is Some,
    ensures
        0 <= j < existing.len(),
        existing[j].0 == i,
        existing[j].1 == status_of(existing, i)->0,
    decreases existing.len(),
{
    if existing.last().0 == i {
        existing.len() - 1
    } else {
        let j = lemma_status_of_some(existing.drop_last(), i);
        j
    }
}

/// Replicas that are already in sync with a target are exactly the target's
/// replicas: nothing has to change when the scale decision is to do nothing.
pub proof fn lemma_in_sync_is_target(existing: Seq<(u32, ProcessStatus)>, target: u32)
    requires
        replicas_ok(existing),
        in_sync(existing, target),
    ensures
        replica_map(existing) == all_running(target),
{
    let m = replica_map(existing);
    assert forall|x: u32| #[trigger] m.dom().contains(x) implies x < target by {
        if x >= target {
            let s = existing.map_values(|p: (u32, ProcessStatus)| p.0 as int);
            let big = set_int_range(0, target as int).insert(x as int);
            assert forall|v: int| #[trigger] big.contains(v) implies s.to_set().contains(v) by {
                let iv: u32 = if v == x as int { x } else { v as u32 };
                let j = lemma_status_of_some(existing, iv);
                assert(s[j] == v);
            }
            lemma_int_range(0, target as int);
            s.lemma_cardinality_of_set();
            lemma_len_subset(big, s.to_set());
            assert(big.len() == target + 1);
        }
    }
    assert(m =~= all_running(target));
}

/// Scaling reaches its target: whatever replicas exist, applying the steps
/// of a reconciliation leaves exactly the replicas `0..target`, all running.
pub proof fn lemma_reconcile_reaches_target(existing: Seq<(u32, ProcessStatus)>, target: u32)
    ensures
        apply_steps(replica_map(existing), reconcile_steps(existing, target)) == all_running(target),
{
    let m = replica_map(existing);
    let s1 = start_steps(existing, target as nat);
    let s2 = excess_steps(existing, target);
    lemma_apply_concat(m, s1, s2);
    lemma_start_steps(existing, target as nat);
    let m1 = apply_steps(m, s1);
    lemma_excess_steps(m1, existing, target);
    let m2 = apply_steps(m1, s2);
    assert forall|i: u32| #[trigger] m2.dom().contains(i) == all_running(target).dom().contains(i) by {
        assert(start_steps_effect(existing, target as nat, m1, i));
        assert(excess_effect(m1, existing, target, m2, i));
    }
    assert forall|i: u32| #[trigger] m2.dom().contains(i) implies m2[i] == all_running(target)[i] by {
        assert(start_steps_effect(existing, target as nat, m1, i));
        assert(excess_effect(m1, existing, target, m2, i));
    }
    assert(m2 =~= all_running(target));
}

} // verus!
