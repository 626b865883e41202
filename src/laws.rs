//! What holds of a whole invocation: the controller is replayed over a
//! sequence of events, and the actions it asked for are examined.
use vstd::prelude::*;
use crate::controller::{ActionView, Controller, EventView, Outcome, Stage, step_spec, FAULT_MESSAGE};

verus! {

/// The controller after a sequence of events, and the actions it asked for,
/// one per event.
pub open spec fn replay(c: Controller, evs: Seq<EventView>) -> (Controller, Seq<ActionView>)
    decreases evs.len(),
{
    if evs.len() == 0 {
        (c, Seq::empty())
    } else {
        let prev = replay(c, evs.drop_last());
        let next = step_spec(prev.0, evs.last());
        (next.0, prev.1.push(next.1))
    }
}

/// An action that neither calls the dashboard nor touches a workload.
pub open spec fn quiet(a: ActionView) -> bool {
    a is Wait || a is Finish
}

/// An action that neither touches a workload nor reports a failure.
pub open spec fn no_new_work(a: ActionView) -> bool {
    !(a is LoadWorkload) && !(a is ExecuteWorkload) && !(a is MarkFailed)
}

/// A stage after which no workload is started and no failure reported, but
/// the one already pending.
pub open spec fn winding_down(s: Stage) -> bool {
    s is ReportingFailure || s is CancellingAfterFailure || s is Cancelling || s is Done
}

/// A stage after which the dashboard is called no more, but for the report
/// already pending.
pub open spec fn closing(s: Stage) -> bool {
    s is Cancelling || s is Done
}

/// Between the creation of an invocation and its end, the `j`-th action of a
/// successful run: odd positions load workload `(j - 1) / 2`, even ones
/// execute workload `(j - 2) / 2`.
pub open spec fn workload_call(j: int) -> ActionView {
    if j % 2 == 1 {
        ActionView::LoadWorkload { index: ((j - 1) / 2) as usize }
    } else {
        ActionView::ExecuteWorkload { index: ((j - 2) / 2) as usize }
    }
}

/// The events of a run whose first `k` workloads all succeed.
pub open spec fn success_events(k: nat) -> Seq<EventView>
    decreases k,
{
    if k == 0 {
        seq![EventView::Started { has_commit_message: true }, EventView::Created]
    } else {
        success_events((k - 1) as nat).push(EventView::Loaded).push(EventView::Executed)
    }
}

proof fn lemma_replay_len(c: Controller, evs: Seq<EventView>)
    ensures
        replay(c, evs).1.len() == evs.len(),
    decreases evs.len(),
{
    if evs.len() > 0 {
        lemma_replay_len(c, evs.drop_last());
    }
}

proof fn lemma_replay_append(c: Controller, a: Seq<EventView>, b: Seq<EventView>)
    ensures
        replay(c, a + b).0 == replay(replay(c, a).0, b).0,
        replay(c, a + b).1 == replay(c, a).1 + replay(replay(c, a).0, b).1,
    decreases b.len(),
{
    if b.len() == 0 {
        assert(a + b =~= a);
        assert(replay(c, a).1 + Seq::<ActionView>::empty() =~= replay(c, a).1);
    } else {
        lemma_replay_append(c, a, b.drop_last());
        assert((a + b).drop_last() =~= a + b.drop_last());
        assert((a + b).last() == b.last());
        let mid = replay(c, a).0;
        assert(replay(c, a).1 + replay(mid, b.drop_last()).1.push(
            step_spec(replay(mid, b.drop_last()).0, b.last()).1,
        ) =~= (replay(c, a).1 + replay(mid, b.drop_last()).1).push(
            step_spec(replay(mid, b.drop_last()).0, b.last()).1,
        ));
    }
}

proof fn lemma_winding_down(c: Controller, evs: Seq<EventView>)
    requires
        winding_down(c.stage),
    ensures
        winding_down(replay(c, evs).0.stage),
        forall|j: int|
            0 <= j < replay(c, evs).1.len() ==> no_new_work(#[trigger] replay(c, evs).1[j]),
    decreases evs.len(),
{
    if evs.len() > 0 {
        lemma_winding_down(c, evs.drop_last());
    }
}

proof fn lemma_closing(c: Controller, evs: Seq<EventView>)
    requires
        closing(c.stage),
    ensures
        closing(replay(c, evs).0.stage),
        forall|j: int| 0 <= j < replay(c, evs).1.len() ==> quiet(#[trigger] replay(c, evs).1[j]),
    decreases evs.len(),
{
    if evs.len() > 0 {
        lemma_closing(c, evs.drop_last());
    }
}

proof fn lemma_success_prefix(n: usize, k: nat)
    requires
        k <= n,
    ensures
        ({
            let r = replay(Controller::initial(n), success_events(k));
            &&& r.0.workload_count == n
            &&& r.0.stage == (if k < n {
                Stage::Loading { index: k as usize }
            } else {
                Stage::Done { outcome: Outcome::Success }
            })
            &&& r.1.len() == 2 * k + 2
            &&& r.1[0] == ActionView::CreateInvocation { max_workloads: n }
            &&& forall|j: int| 1 <= j < 2 * k + 1 ==> #[trigger] r.1[j] == workload_call(j)
            &&& r.1[2 * k + 1 as int] == (if k < n {
                ActionView::LoadWorkload { index: k as usize }
            } else {
                ActionView::Finish { outcome: Outcome::Success }
            })
            &&& forall|j: int|
                0 <= j < r.1.len() ==> !(#[trigger] r.1[j] is MarkFailed) && !(r.1[j] is CancelInvocation)
        }),
    decreases k,
{
    let init = Controller::initial(n);
    if k == 0 {
        let evs = success_events(0);
        let first = seq![EventView::Started { has_commit_message: true }];
        assert(evs.drop_last() =~= first);
        assert(first.drop_last() =~= Seq::<EventView>::empty());
        assert(first.last() == EventView::Started { has_commit_message: true });
        assert(replay(init, Seq::<EventView>::empty()).0 == init);
        let r1 = replay(init, first);
        assert(r1.1 =~= seq![ActionView::CreateInvocation { max_workloads: n }]);
        assert(r1.0.stage == Stage::Creating);
    } else {
        let km = (k - 1) as nat;
        lemma_success_prefix(n, km);
        let evs = success_events(k);
        let half = success_events(km).push(EventView::Loaded);
        assert(evs.drop_last() =~= half);
        assert(half.drop_last() =~= success_events(km));
        assert(evs.last() == EventView::Executed);
        assert(half.last() == EventView::Loaded);
        let prev = replay(init, success_events(km));
        let mid = replay(init, half);
        assert(mid.0.stage == Stage::Executing { index: km as usize });
        assert(mid.1 =~= prev.1.push(ActionView::ExecuteWorkload { index: km as usize }));
        let r = replay(init, evs);
        assert(r.1 =~= mid.1.push(r.1.last()));
        assert forall|j: int| 1 <= j < 2 * k + 1 implies #[trigger] r.1[j] == workload_call(j) by {
            if j < 2 * km + 1 {
                assert(r.1[j] == prev.1[j]);
            } else if j == 2 * km + 1 {
                assert(r.1[j] == prev.1[j]);
            } else {
                assert(r.1[j] == mid.1[j]);
            }
        }
        assert forall|j: int| 0 <= j < r.1.len() implies !(#[trigger] r.1[j] is MarkFailed) && !(
        r.1[j] is CancelInvocation) by {
            if j < prev.1.len() {
                assert(r.1[j] == prev.1[j]);
            } else if j < mid.1.len() {
                assert(r.1[j] == mid.1[j]);
            }
        }
    }
}

/// A run whose workloads all succeed creates the invocation, then loads and
/// executes each workload once, in list order, ends with success, and makes
/// neither a failure report nor a cancellation.
pub proof fn law_successful_run(n: usize)
    ensures
        ({
            let r = replay(Controller::initial(n), success_events(n as nat));
            &&& r.0.stage == Stage::Done { outcome: Outcome::Success }
            &&& r.1.len() == 2 * n + 2
            &&& r.1[0] == ActionView::CreateInvocation { max_workloads: n }
            &&& forall|j: int| 1 <= j < 2 * n + 1 ==> #[trigger] r.1[j] == workload_call(j)
            &&& r.1[2 * n + 1 as int] == ActionView::Finish { outcome: Outcome::Success }
            &&& forall|j: int|
                0 <= j < r.1.len() ==> !(#[trigger] r.1[j] is MarkFailed) && !(r.1[j] is CancelInvocation)
        }),
{
    lemma_success_prefix(n, n as nat);
}

/// The workload that an action loads or executes, if any.
pub open spec fn workload_of(a: ActionView) -> Option<usize> {
    match a {
        ActionView::LoadWorkload { index } => Some(index),
        ActionView::ExecuteWorkload { index } => Some(index),
        _ => None,
    }
}

proof fn lemma_replay_single(c: Controller, e: EventView)
    ensures
        replay(c, seq![e]).0 == step_spec(c, e).0,
        replay(c, seq![e]).1 =~= seq![step_spec(c, e).1],
{
    assert(seq![e].drop_last() =~= Seq::<EventView>::empty());
    assert(seq![e].last() == e);
    assert(replay(c, Seq::<EventView>::empty()).0 == c);
}

proof fn lemma_replay_pair(c: Controller, e1: EventView, e2: EventView)
    ensures
        replay(c, seq![e1, e2]).0 == step_spec(step_spec(c, e1).0, e2).0,
        replay(c, seq![e1, e2]).1 =~= seq![step_spec(c, e1).1, step_spec(step_spec(c, e1).0, e2).1],
{
    assert(seq![e1, e2] =~= seq![e1] + seq![e2]);
    lemma_replay_append(c, seq![e1], seq![e2]);
    lemma_replay_single(c, e1);
    lemma_replay_single(step_spec(c, e1).0, e2);
}

proof fn lemma_replay_first(c: Controller, evs: Seq<EventView>)
    requires
        evs.len() > 0,
    ensures
        replay(c, evs).1[0] == step_spec(c, evs[0]).1,
{
    let tail = evs.subrange(1, evs.len() as int);
    assert(evs =~= seq![evs[0]] + tail);
    lemma_replay_append(c, seq![evs[0]], tail);
    lemma_replay_single(c, evs[0]);
}

proof fn lemma_index3(a: Seq<ActionView>, b: Seq<ActionView>, c: Seq<ActionView>, j: int)
    requires
        0 <= j < a.len() + b.len() + c.len(),
    ensures
        (a + b + c)[j] == (if j < a.len() {
            a[j]
        } else if j < a.len() + b.len() {
            b[j - a.len()]
        } else {
            c[j - a.len() - b.len()]
        }),
{
}

/// The controller of `n` workloads after the first `k` succeeded, `k < n`.
pub open spec fn loading(n: usize, k: nat) -> Controller {
    Controller { workload_count: n, stage: Stage::Loading { index: k as usize } }
}

/// A run over three parts: the first `k` workloads succeed, then `mid`, then
/// `rest`. Splits what the controller asks for along the same lines.
proof fn lemma_split(n: usize, k: nat, mid: Seq<EventView>, rest: Seq<EventView>)
    requires
        k < n,
    ensures
        ({
            let pre = replay(Controller::initial(n), success_events(k));
            let m = replay(loading(n, k), mid);
            let t = replay(m.0, rest);
            let r = replay(Controller::initial(n), success_events(k) + mid + rest);
            &&& pre.0 == loading(n, k)
            &&& r.0 == t.0
            &&& r.1 == pre.1 + m.1 + t.1
        }),
{
    let init = Controller::initial(n);
    lemma_success_prefix(n, k);
    lemma_replay_append(init, success_events(k), mid);
    lemma_replay_append(init, success_events(k) + mid, rest);
}

/// When workload `k` (counted from one) fails to load or to run, the failure
/// is reported exactly once, with the workload's own error text, no later
/// workload is ever loaded or executed, whatever happens afterwards, and once
/// the report was attempted the run ends as a failure.
pub proof fn law_fail_fast(
    n: usize,
    k: nat,
    message: Seq<char>,
    at_load: bool,
    rest: Seq<EventView>,
)
    requires
        1 <= k <= n,
    ensures
        ({
            let failing = if at_load {
                seq![EventView::LoadFailed { message }]
            } else {
                seq![EventView::Loaded, EventView::ExecutionFailed { message }]
            };
            let r = replay(
                Controller::initial(n),
                success_events((k - 1) as nat) + failing + rest,
            );
            let p: int = if at_load {
                2 * k as int
            } else {
                2 * k + 1 as int
            };
            &&& r.1[p] == ActionView::MarkFailed { message }
            &&& forall|j: int|
                0 <= j < r.1.len() && j != p ==> !(#[trigger] r.1[j] is MarkFailed)
            &&& forall|j: int|
                0 <= j < r.1.len() ==> (workload_of(#[trigger] r.1[j]) matches Some(i) ==> i < k)
            &&& rest.len() > 0 && rest[0] == EventView::Reported ==> r.1[p + 1]
                == ActionView::Finish { outcome: Outcome::Failure }
        }),
{
    let km = (k - 1) as nat;
    let failing = if at_load {
        seq![EventView::LoadFailed { message }]
    } else {
        seq![EventView::Loaded, EventView::ExecutionFailed { message }]
    };
    lemma_split(n, km, failing, rest);
    lemma_success_prefix(n, km);
    let pre = replay(Controller::initial(n), success_events(km));
    let c = loading(n, km);
    if at_load {
        lemma_replay_single(c, EventView::LoadFailed { message });
    } else {
        lemma_replay_pair(c, EventView::Loaded, EventView::ExecutionFailed { message });
    }
    let m = replay(c, failing);
    assert(m.0.stage == Stage::ReportingFailure { fault: false, interrupted: false });
    lemma_winding_down(m.0, rest);
    let t = replay(m.0, rest);
    lemma_replay_len(m.0, rest);
    let r = replay(Controller::initial(n), success_events(km) + failing + rest);
    assert forall|j: int| 0 <= j < r.1.len() implies (workload_of(#[trigger] r.1[j]) matches Some(
        i,
    ) ==> i < k) by {
        lemma_index3(pre.1, m.1, t.1, j);
        if j < pre.1.len() {
            if 1 <= j < 2 * km + 1 {
                assert(pre.1[j] == workload_call(j));
            }
        } else if j >= pre.1.len() + m.1.len() {
            assert(no_new_work(t.1[j - pre.1.len() - m.1.len()]));
        }
    }
    assert forall|j: int| 0 <= j < r.1.len() && j != (if at_load {
        2 * k as int
    } else {
        2 * k + 1 as int
    }) implies !(#[trigger] r.1[j] is MarkFailed) by {
        lemma_index3(pre.1, m.1, t.1, j);
        if j < pre.1.len() {
        } else if j >= pre.1.len() + m.1.len() {
            assert(no_new_work(t.1[j - pre.1.len() - m.1.len()]));
        }
    }
    if rest.len() > 0 && rest[0] == EventView::Reported {
        lemma_replay_first(m.0, rest);
    }
}

/// A workload that faults is reported as failed exactly once, with the fixed
/// fault message and never the fault's own payload, and once the report was
/// attempted the run ends with the fault.
pub proof fn law_fault_reported(n: usize, k: nat, rest: Seq<EventView>)
    requires
        1 <= k <= n,
    ensures
        ({
            let r = replay(
                Controller::initial(n),
                success_events((k - 1) as nat) + seq![EventView::Loaded, EventView::Faulted]
                    + rest,
            );
            &&& r.1[2 * k + 1 as int] == ActionView::MarkFailed { message: FAULT_MESSAGE@ }
            &&& forall|j: int|
                0 <= j < r.1.len() && j != 2 * k + 1 ==> !(#[trigger] r.1[j] is MarkFailed)
            &&& rest.len() > 0 && rest[0] == EventView::Reported ==> r.1[2 * k + 2 as int]
                == ActionView::Finish { outcome: Outcome::Panic }
        }),
{
    let km = (k - 1) as nat;
    let faulting = seq![EventView::Loaded, EventView::Faulted];
    lemma_split(n, km, faulting, rest);
    lemma_success_prefix(n, km);
    let pre = replay(Controller::initial(n), success_events(km));
    let c = loading(n, km);
    lemma_replay_pair(c, EventView::Loaded, EventView::Faulted);
    let m = replay(c, faulting);
    lemma_winding_down(m.0, rest);
    let t = replay(m.0, rest);
    lemma_replay_len(m.0, rest);
    let r = replay(Controller::initial(n), success_events(km) + faulting + rest);
    assert forall|j: int| 0 <= j < r.1.len() && j != 2 * k + 1 implies !(
    #[trigger] r.1[j] is MarkFailed) by {
        lemma_index3(pre.1, m.1, t.1, j);
        if j < pre.1.len() {
        } else if j >= pre.1.len() + m.1.len() {
            assert(no_new_work(t.1[j - pre.1.len() - m.1.len()]));
        }
    }
    if rest.len() > 0 && rest[0] == EventView::Reported {
        lemma_replay_first(m.0, rest);
    }
}

/// An interrupt that comes before the first workload completed is reported
/// as exactly one cancellation and no failure; nothing after it loads or
/// executes a workload, and once the cancellation was attempted the run ends
/// as cancelled.
pub proof fn law_interrupt_before_completion(n: usize, loaded: bool, rest: Seq<EventView>)
    requires
        n >= 1,
    ensures
        ({
            let before = if loaded {
                seq![EventView::Loaded, EventView::Interrupted]
            } else {
                seq![EventView::Interrupted]
            };
            let r = replay(Controller::initial(n), success_events(0) + before + rest);
            let p: int = if loaded {
                3
            } else {
                2
            };
            &&& r.1[p] == ActionView::CancelInvocation
            &&& forall|j: int|
                0 <= j < r.1.len() && j != p ==> !(#[trigger] r.1[j] is CancelInvocation)
            &&& forall|j: int| 0 <= j < r.1.len() ==> !(#[trigger] r.1[j] is MarkFailed)
            &&& forall|j: int| p < j < r.1.len() ==> quiet(#[trigger] r.1[j])
            &&& rest.len() > 0 && rest[0] == EventView::Reported ==> r.1[p + 1]
                == ActionView::Finish { outcome: Outcome::Cancelled }
        }),
{
    let before = if loaded {
        seq![EventView::Loaded, EventView::Interrupted]
    } else {
        seq![EventView::Interrupted]
    };
    lemma_split(n, 0, before, rest);
    lemma_success_prefix(n, 0);
    let c = loading(n, 0);
    if loaded {
        lemma_replay_pair(c, EventView::Loaded, EventView::Interrupted);
    } else {
        lemma_replay_single(c, EventView::Interrupted);
    }
    let m = replay(c, before);
    assert(m.0.stage == Stage::Cancelling);
    lemma_closing(m.0, rest);
    let t = replay(m.0, rest);
    lemma_replay_len(m.0, rest);
    let pre = replay(Controller::initial(n), success_events(0));
    let r = replay(Controller::initial(n), success_events(0) + before + rest);
    assert forall|j: int| 0 <= j < r.1.len() implies !(#[trigger] r.1[j] is MarkFailed) && (j
        >= pre.1.len() + m.1.len() ==> quiet(r.1[j])) by {
        lemma_index3(pre.1, m.1, t.1, j);
        if j >= pre.1.len() + m.1.len() {
            assert(quiet(t.1[j - pre.1.len() - m.1.len()]));
        }
    }
    if rest.len() > 0 && rest[0] == EventView::Reported {
        lemma_replay_first(m.0, rest);
    }
}

/// When the invocation cannot be created, the run ends at once with a fatal
/// error and no workload is ever loaded or executed, whatever happens
/// afterwards.
pub proof fn law_creation_failure(n: usize, rest: Seq<EventView>)
    ensures
        ({
            let r = replay(
                Controller::initial(n),
                seq![EventView::Started { has_commit_message: true }, EventView::CreationFailed]
                    + rest,
            );
            &&& r.1[1] == ActionView::Finish { outcome: Outcome::Fatal }
            &&& forall|j: int| 0 <= j < r.1.len() ==> workload_of(#[trigger] r.1[j]) is None
        }),
{
    let init = Controller::initial(n);
    let start = seq![EventView::Started { has_commit_message: true }, EventView::CreationFailed];
    lemma_replay_pair(init, start[0], start[1]);
    lemma_replay_append(init, start, rest);
    let m = replay(init, start);
    lemma_closing(m.0, rest);
    let t = replay(m.0, rest);
    lemma_replay_len(m.0, rest);
    let r = replay(init, start + rest);
    assert forall|j: int| 0 <= j < r.1.len() implies workload_of(#[trigger] r.1[j]) is None by {
        if j >= 2 {
            assert(quiet(t.1[j - 2]));
        }
    }
}

} // verus!
