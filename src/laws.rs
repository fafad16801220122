use vstd::prelude::*;
use vstd::multiset::Multiset;

use crate::dispatcher::{
    admits, model_wf, shutdown_deliveries, shutdown_error, state_of, step_model, DispatcherModel,
    DispatcherState, DrainPolicy, EventModel, StepModel,
};
use crate::error::ErrorModel;
use crate::registry::{has_id, ids_unique, position_of, PendingEntry};
use crate::dispatcher::ReturnCodes;
use crate::registry::{lemma_position_of_found, lemma_push_keeps_unique, lemma_remove_keeps_unique};

verus! {

broadcast use vstd::seq_lib::group_to_multiset_ensures;

/// The entries that an event brings in: the submitted one, or none.
pub open spec fn arrivals<K>(ev: EventModel<K>) -> Seq<PendingEntry<K>> {
    match ev {
        EventModel::Submitted(e) => seq![e],
        _ => seq![],
    }
}

/// The entries whose continuations a step fires, in order.
pub open spec fn delivered_entries<K>(st: StepModel<K>) -> Seq<PendingEntry<K>> {
    st.delivered.map_values(|d: (PendingEntry<K>, Option<ErrorModel>)| d.0)
}

/// Every request is accounted for exactly once on every event: what was
/// pending, with what arrived, is what stays pending together with what was
/// delivered, counted with multiplicity. So no entry is lost, none is
/// delivered twice, and none is both delivered and kept.
pub proof fn law_each_request_resolved_once<K>(s: DispatcherModel<K>, ev: EventModel<K>)
    requires
        model_wf(s),
        admits(s, ev),
    ensures
        model_wf(step_model(s, ev).0),
        s.pending.to_multiset().add(arrivals(ev).to_multiset())
            == step_model(s, ev).0.pending.to_multiset().add(delivered_entries(step_model(s, ev).1).to_multiset()),
{
    let (t, st) = step_model(s, ev);
    let empty = Seq::<PendingEntry<K>>::empty();
    assert(empty.to_multiset() =~= Multiset::empty());
    match ev {
        EventModel::Submitted(e) => {
            assert(arrivals(ev) =~= empty.push(e));
            if has_id(s.pending, e.id) {
                assert(delivered_entries(st) =~= empty.push(e));
            } else {
                lemma_push_keeps_unique(s.pending, e);
                assert(delivered_entries(st) =~= empty);
            }
        },
        EventModel::Ticked => {
            assert(delivered_entries(st) =~= empty);
        },
        EventModel::Polled { ret, status, message, location } => {
            if ret >= 0 && has_id(s.pending, ret) {
                let p = position_of(s.pending, ret);
                lemma_position_of_found(s.pending, ret);
                lemma_remove_keeps_unique(s.pending, p);
                let e = s.pending[p];
                assert(delivered_entries(st) =~= empty.push(e));
                assert(s.pending.to_multiset() =~= s.pending.remove(p).to_multiset().insert(e));
            } else {
                assert(delivered_entries(st) =~= empty);
            }
        },
        EventModel::Closed => {
            match s.policy {
                DrainPolicy::FailPending => {
                    assert(delivered_entries(st) =~= s.pending);
                    assert(ids_unique(t.pending));
                },
                DrainPolicy::AwaitPending => {
                    assert(delivered_entries(st) =~= empty);
                    if s.pending.len() == 0 {
                        assert(s.pending =~= empty);
                    }
                },
            }
        },
    }
}

/// While an entry with a given id is pending no second entry is registered
/// under it: ids stay unique on every event, and a submission whose id is in
/// flight leaves the registry as it was.
pub proof fn law_ids_unique_while_pending<K>(s: DispatcherModel<K>, ev: EventModel<K>)
    requires
        model_wf(s),
        admits(s, ev),
    ensures
        ids_unique(step_model(s, ev).0.pending),
        ev matches EventModel::Submitted(e) && has_id(s.pending, e.id)
            ==> step_model(s, ev).0.pending == s.pending,
{
    law_each_request_resolved_once(s, ev);
}

/// A dispatcher polls only while something is in flight, and nothing but a
/// submission adds to what is in flight: once its registry is empty it issues
/// no poll until a new entry arrives, and an idle dispatcher stays idle on
/// every event but a submission or the closing of its intake.
pub proof fn law_idle_issues_no_poll<K>(s: DispatcherModel<K>, ev: EventModel<K>)
    requires
        model_wf(s),
        admits(s, ev),
    ensures
        step_model(s, ev).1.poll ==> step_model(s, ev).0.pending.len() > 0,
        !(ev is Submitted) ==> step_model(s, ev).0.pending.len() <= s.pending.len(),
        state_of(s) == DispatcherState::Idle && !(ev is Submitted) && !(ev is Closed)
            ==> state_of(step_model(s, ev).0) == DispatcherState::Idle,
        ev matches EventModel::Submitted(e) && !has_id(s.pending, e.id) ==> step_model(s, ev).1.poll,
        ev is Ticked && s.pending.len() > 0 ==> step_model(s, ev).1.poll,
{
    if let EventModel::Polled { ret, status, message, location } = ev {
        if ret >= 0 && has_id(s.pending, ret) {
            lemma_position_of_found(s.pending, ret);
        }
    }
}

/// Closing the intake under `FailPending` resolves every pending request with
/// the shutdown error, in the order they arrived, and destroys the handle in
/// the same step, after them; the dispatcher then admits no further event, so
/// the handle is destroyed once. Under either policy the handle is destroyed
/// only when nothing is left in flight, and only by a dispatcher that had not
/// stopped before.
pub proof fn law_shutdown_drains<K>(s: DispatcherModel<K>, ev: EventModel<K>)
    requires
        model_wf(s),
        admits(s, ev),
    ensures
        step_model(s, ev).1.destroy ==> step_model(s, ev).0.stopped && step_model(s, ev).0.pending.len() == 0,
        step_model(s, ev).0.stopped ==> step_model(s, ev).1.destroy,
        forall|ev2: EventModel<K>| step_model(s, ev).0.stopped ==> !admits(step_model(s, ev).0, ev2),
        ev is Closed && s.policy is FailPending ==> {
            &&& step_model(s, ev).1.delivered == shutdown_deliveries(s.codes, s.pending)
            &&& step_model(s, ev).1.delivered.len() == s.pending.len()
            &&& forall|i: int| 0 <= i < s.pending.len()
                ==> #[trigger] step_model(s, ev).1.delivered[i] == (s.pending[i], Some(shutdown_error(s.codes)))
            &&& step_model(s, ev).1.destroy
        },
{
    if let EventModel::Polled { ret, status, message, location } = ev {
        if ret >= 0 && has_id(s.pending, ret) {
            lemma_position_of_found(s.pending, ret);
        }
    }
}

/// A dispatcher that has just been made with `codes` and `policy`.
pub open spec fn fresh<K>(codes: ReturnCodes, policy: DrainPolicy) -> DispatcherModel<K> {
    DispatcherModel { codes, policy, pending: seq![], closed: false, stopped: false }
}

/// The state after each of `es` has come through the intake, in order.
pub open spec fn submit_all<K>(s: DispatcherModel<K>, es: Seq<PendingEntry<K>>) -> DispatcherModel<K>
    decreases es.len(),
{
    if es.len() == 0 {
        s
    } else {
        step_model(submit_all(s, es.drop_last()), EventModel::Submitted(es.last())).0
    }
}

proof fn lemma_submit_all_fresh<K>(codes: ReturnCodes, policy: DrainPolicy, es: Seq<PendingEntry<K>>)
    requires
        ids_unique(es),
    ensures
        submit_all(fresh(codes, policy), es) == (DispatcherModel { pending: es, ..fresh::<K>(codes, policy) }),
    decreases es.len(),
{
    if es.len() > 0 {
        let init = es.drop_last();
        assert(ids_unique(init)) by {
            assert forall|i: int, j: int|
                0 <= i < init.len() && 0 <= j < init.len() && i != j implies #[trigger] init[i].id != #[trigger] init[j].id by {
                assert(init[i] == es[i] && init[j] == es[j]);
            }
        }
        lemma_submit_all_fresh(codes, policy, init);
        let e = es.last();
        if has_id(init, e.id) {
            let k = choose|k: int| 0 <= k < init.len() && #[trigger] init[k].id == e.id;
            assert(es[k] == init[k]);
            assert(es[es.len() - 1] == e);
        }
        assert(init.push(e) =~= es);
    } else {
        assert(es =~= seq![]);
    }
}

/// Submitting requests with distinct ids to a fresh dispatcher and then
/// closing its intake under `FailPending`, before any of them completes,
/// resolves each of them with the shutdown error, in the order they were
/// submitted, in the same step that destroys the handle, after them.
pub proof fn law_submit_then_close<K>(codes: ReturnCodes, es: Seq<PendingEntry<K>>)
    requires
        ids_unique(es),
    ensures
        ({
            let s = submit_all(fresh::<K>(codes, DrainPolicy::FailPending), es);
            let (t, st) = step_model(s, EventModel::Closed);
            &&& s.pending == es
            &&& st.delivered == shutdown_deliveries(codes, es)
            &&& st.destroy
            &&& t.stopped
            &&& t.pending.len() == 0
        }),
{
    lemma_submit_all_fresh(codes, DrainPolicy::FailPending, es);
}

} // verus!
