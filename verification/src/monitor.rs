//! The monitor: the queue of intents in flight, their completion, and the
//! sweep that routes overdue sub-intents anew.
//!
//! Times and durations are whole milliseconds.

use crate::intent::{sub_views, Intent, IntentView, SubIntent, SubIntentView};
use crate::registry::{status_of, with_status, Registry};
use crate::resource::{changed_dealing, ResourceView, Status};
use crate::registry::{find, names};
use crate::router::{
    eligible, lemma_pick_exists, lemma_reroute_keeps_names, lemma_reroute_serves, order_views,
    pick, reroute, rerouted, RouteOrder, RouteOrderView,
};
use crate::text::{lemma_first_absent, lemma_first_at, opt_text};
use vstd::prelude::*;

verus! {

/// A sub-intent that was routed longer ago than this, and is not
/// complete, is routed anew by the sweep.
pub const EXPIRE_AFTER: u64 = 60000;

/// The sweep runs at this interval.
pub const SWEEP_INTERVAL: u64 = 60000;

/// The views of a sequence of intents, in order.
pub open spec fn intent_views(v: Seq<Intent>) -> Seq<IntentView> {
    v.map_values(|i: Intent| i@)
}

/// The place of the first sub-intent that has the identifier `id` and is
/// not complete.
pub open spec fn pending_match(subs: Seq<SubIntentView>, id: i64) -> Option<int> {
    subs.map_values(|s: SubIntentView| s.id == id && !s.complete).index_of_first(true)
}

/// The place of the first intent that holds a sub-intent with the
/// identifier `id` that is not complete.
pub open spec fn owner(queue: Seq<IntentView>, id: i64) -> Option<int> {
    queue.map_values(|i: IntentView| pending_match(i.sub_intents, id) is Some).index_of_first(
        true,
    )
}

/// The catalog after the resource named by `selected` has one sub-intent
/// fewer in flight.
pub open spec fn released(reg: Seq<ResourceView>, selected: Option<Seq<char>>) -> Seq<
    ResourceView,
> {
    match selected {
        Some(name) => match status_of(reg, name) {
            Some(s) => with_status(
                reg,
                name,
                Status { dealing: changed_dealing(s.dealing, false), ..s },
            ),
            None => reg,
        },
        None => reg,
    }
}

/// The intent with its sub-intent at place `j` complete.
pub open spec fn marked(intent: IntentView, j: int) -> IntentView {
    IntentView {
        sub_intents: intent.sub_intents.update(
            j,
            SubIntentView { complete: true, ..intent.sub_intents[j] },
        ),
        ..intent
    }
}

/// How the completion of a sub-intent ends.
pub struct Completion {
    pub queue: Seq<IntentView>,
    pub registry: Seq<ResourceView>,
    /// The intent that is finished and has left the queue.
    pub finished: Option<IntentView>,
}

/// Completing the sub-intent with the identifier `id`: its first
/// incomplete holder marks it complete. If that completes the intent, the
/// intent leaves the queue as finished and the resource that resolved the
/// sub-intent has one fewer in flight. Without such a sub-intent nothing
/// changes.
pub open spec fn completed(queue: Seq<IntentView>, reg: Seq<ResourceView>, id: i64) -> Completion {
    match owner(queue, id) {
        Some(i) => {
            let j = pending_match(queue[i].sub_intents, id)->0;
            let after = marked(queue[i], j);
            if after.is_complete() {
                Completion {
                    queue: queue.remove(i),
                    registry: released(reg, queue[i].sub_intents[j].selected),
                    finished: Some(IntentView { finished: true, ..after }),
                }
            } else {
                Completion { queue: queue.update(i, after), registry: reg, finished: None }
            }
        },
        None => Completion { queue, registry: reg, finished: None },
    }
}

/// The sub-intent is overdue at the time `now`.
pub open spec fn overdue(sub: SubIntentView, now: u64) -> bool {
    !sub.complete && now - sub.routed > EXPIRE_AFTER
}

/// The state after the first `n` sub-intents of an intent were swept.
pub struct SubSweep {
    pub subs: Seq<SubIntentView>,
    pub registry: Seq<ResourceView>,
    pub orders: Seq<RouteOrderView>,
    /// Whether an overdue sub-intent had no candidate left.
    pub stranded: bool,
}

/// Sweeps the first `n` sub-intents in order: each overdue one is routed
/// anew, and is stranded when there is no candidate to pick.
pub open spec fn swept_subs(subs: Seq<SubIntentView>, reg: Seq<ResourceView>, now: u64, n: int)
    -> SubSweep
    decreases n,
{
    if n <= 0 || n > subs.len() {
        SubSweep { subs, registry: reg, orders: Seq::empty(), stranded: false }
    } else {
        let before = swept_subs(subs, reg, now, n - 1);
        let sub = before.subs[n - 1];
        if overdue(sub, now) {
            let r = rerouted(sub, before.registry, now);
            match r.order {
                Some(order) => SubSweep {
                    subs: before.subs.update(n - 1, r.sub),
                    registry: r.registry,
                    orders: before.orders.push(order),
                    stranded: before.stranded,
                },
                None => SubSweep { stranded: true, ..before },
            }
        } else {
            before
        }
    }
}

/// A sweep of sub-intents keeps their number, leaves the sub-intents that
/// it has not reached as they are, and leaves the names of the catalog as
/// they are.
pub proof fn lemma_swept_subs_frame(
    subs: Seq<SubIntentView>,
    reg: Seq<ResourceView>,
    now: u64,
    n: int,
)
    requires
        0 <= n <= subs.len(),
    ensures
        swept_subs(subs, reg, now, n).subs.len() == subs.len(),
        forall|j: int| n <= j < subs.len() ==> swept_subs(subs, reg, now, n).subs[j] == subs[j],
        names(swept_subs(subs, reg, now, n).registry) == names(reg),
        forall|c: Seq<Seq<char>>, i: int|
            eligible(swept_subs(subs, reg, now, n).registry, c, i) <==> eligible(reg, c, i),
    decreases n,
{
    if n > 0 {
        lemma_swept_subs_frame(subs, reg, now, n - 1);
        let before = swept_subs(subs, reg, now, n - 1);
        lemma_reroute_keeps_names(before.subs[n - 1], before.registry, now);
    }
}

/// What a sweep does to the sub-intent at place `j`: an overdue one is
/// routed, on the catalog as the sweep found it there; any other stays as
/// it is.
pub proof fn lemma_swept_subs_at(
    subs: Seq<SubIntentView>,
    reg: Seq<ResourceView>,
    now: u64,
    n: int,
    j: int,
)
    requires
        0 <= j < n <= subs.len(),
    ensures
        swept_subs(subs, reg, now, n).subs[j] == if overdue(subs[j], now) {
            rerouted(subs[j], swept_subs(subs, reg, now, j).registry, now).sub
        } else {
            subs[j]
        },
        overdue(subs[j], now) ==> forall|o: RouteOrderView|
            rerouted(subs[j], swept_subs(subs, reg, now, j).registry, now).order == Some(o)
                ==> swept_subs(subs, reg, now, n).orders.contains(o),
    decreases n,
{
    lemma_swept_subs_frame(subs, reg, now, n - 1);
    let before = swept_subs(subs, reg, now, n - 1);
    if j < n - 1 {
        lemma_swept_subs_at(subs, reg, now, n - 1, j);
        let out = swept_subs(subs, reg, now, n);
        assert forall|o: RouteOrderView| before.orders.contains(o) implies out.orders.contains(
            o,
        ) by {
            let p = choose|p: int| 0 <= p < before.orders.len() && before.orders[p] == o;
            if out.orders.len() > before.orders.len() {
                assert(out.orders[p] == o);
            }
        }
    } else {
        let out = swept_subs(subs, reg, now, n);
        if overdue(subs[j], now) {
            match rerouted(subs[j], before.registry, now).order {
                Some(o) => {
                    assert(out.orders[before.orders.len() as int] == o);
                },
                None => {},
            }
        }
    }
}

/// A sweep strands an intent exactly when one of its overdue sub-intents
/// has no registered resource among its candidates.
pub proof fn lemma_stranded(subs: Seq<SubIntentView>, reg: Seq<ResourceView>, now: u64, n: int)
    requires
        0 <= n <= subs.len(),
    ensures
        swept_subs(subs, reg, now, n).stranded <==> exists|j: int|
            0 <= j < n && #[trigger] overdue(subs[j], now) && forall|i: int|
                !eligible(reg, subs[j].candidates, i),
    decreases n,
{
    if n > 0 {
        lemma_stranded(subs, reg, now, n - 1);
        lemma_swept_subs_frame(subs, reg, now, n - 1);
        let before = swept_subs(subs, reg, now, n - 1);
        let sub = subs[n - 1];
        assert(before.subs[n - 1] == sub);
        let served = exists|i: int| eligible(reg, sub.candidates, i);
        if overdue(sub, now) {
            if served {
                let i = choose|i: int| eligible(reg, sub.candidates, i);
                assert(eligible(before.registry, sub.candidates, i));
                lemma_pick_exists(before.registry, sub.candidates);
            } else {
                match pick(before.registry, sub.candidates) {
                    Some(k) => {
                        assert(crate::router::is_best(before.registry, sub.candidates, k));
                        assert(eligible(before.registry, sub.candidates, k));
                        assert(eligible(reg, sub.candidates, k));
                    },
                    None => {},
                }
            }
        }
        let here = overdue(sub, now) && !served;
        assert(swept_subs(subs, reg, now, n).stranded == (before.stranded || here));
        if here {
            assert(overdue(subs[n - 1], now));
        }
    }
}

/// An overdue sub-intent with a registered resource among its candidates
/// is routed anew by the sweep: it is assigned one of its candidates that
/// is registered, which leaves the candidates; it is stamped with the time
/// of the sweep and so is not overdue any more; the send to that resource is
/// ordered under its identifier. A sub-intent that kept its assigned
/// resource out of its candidates gets another resource.
pub proof fn lemma_overdue_is_rerouted(
    subs: Seq<SubIntentView>,
    reg: Seq<ResourceView>,
    now: u64,
    j: int,
)
    requires
        0 <= j < subs.len(),
        overdue(subs[j], now),
        exists|i: int| eligible(reg, subs[j].candidates, i),
    ensures
        ({
            let out = swept_subs(subs, reg, now, subs.len() as int);
            let s = out.subs[j];
            &&& s.selected is Some
            &&& subs[j].candidates.contains(s.selected->0)
            &&& find(reg, s.selected->0) is Some
            &&& !s.candidates.contains(s.selected->0)
            &&& s.routed == now
            &&& !overdue(s, now)
            &&& subs[j].exclusive() ==> s.selected != subs[j].selected
            &&& out.orders.contains(
                RouteOrderView {
                    resource: s.selected->0,
                    intent: subs[j].description,
                    id: subs[j].id,
                },
            )
        }),
{
    lemma_swept_subs_at(subs, reg, now, subs.len() as int, j);
    lemma_swept_subs_frame(subs, reg, now, j);
    let at = swept_subs(subs, reg, now, j);
    let i = choose|i: int| eligible(reg, subs[j].candidates, i);
    assert(eligible(at.registry, subs[j].candidates, i));
    lemma_reroute_serves(subs[j], at.registry, now);
}

/// What the sweep asks the transport to do.
#[derive(Debug)]
pub enum SweepAction {
    /// Send a sub-intent to the resource it was routed to.
    Send(RouteOrder),
    /// Tell the origin of an intent that the intent is turned down.
    Reject { origin: Option<String>, description: String, id: i64 },
}

/// What a sweep action holds.
pub enum SweepActionView {
    Send(RouteOrderView),
    Reject { origin: Option<Seq<char>>, description: Seq<char>, id: i64 },
}

impl View for SweepAction {
    type V = SweepActionView;

    open spec fn view(&self) -> SweepActionView {
        match self {
            SweepAction::Send(o) => SweepActionView::Send(o@),
            SweepAction::Reject { origin, description, id } => SweepActionView::Reject {
                origin: opt_text(*origin),
                description: description@,
                id: *id,
            },
        }
    }
}

/// The views of a sequence of sweep actions, in order.
pub open spec fn action_views(v: Seq<SweepAction>) -> Seq<SweepActionView> {
    v.map_values(|a: SweepAction| a@)
}

/// The orders as sweep actions.
pub open spec fn send_actions(orders: Seq<RouteOrderView>) -> Seq<SweepActionView> {
    orders.map_values(|o: RouteOrderView| SweepActionView::Send(o))
}

/// The action that turns an intent down.
pub open spec fn reject_action(intent: IntentView) -> SweepActionView {
    SweepActionView::Reject {
        origin: intent.resource,
        description: intent.description,
        id: intent.id,
    }
}

/// The state after the first `m` intents of a queue were swept.
pub struct Sweep {
    /// The swept intents that stay in the queue.
    pub queue: Seq<IntentView>,
    pub registry: Seq<ResourceView>,
    pub actions: Seq<SweepActionView>,
}

/// Sweeps the first `m` intents in order. The overdue sub-intents of each
/// are routed anew; an intent with a stranded sub-intent is turned down
/// and leaves the queue.
pub open spec fn swept(queue: Seq<IntentView>, reg: Seq<ResourceView>, now: u64, m: int) -> Sweep
    decreases m,
{
    if m <= 0 || m > queue.len() {
        Sweep { queue: Seq::empty(), registry: reg, actions: Seq::empty() }
    } else {
        let before = swept(queue, reg, now, m - 1);
        let intent = queue[m - 1];
        let one = swept_subs(
            intent.sub_intents,
            before.registry,
            now,
            intent.sub_intents.len() as int,
        );
        let sends = before.actions + send_actions(one.orders);
        if one.stranded {
            Sweep {
                queue: before.queue,
                registry: one.registry,
                actions: sends.push(reject_action(intent)),
            }
        } else {
            Sweep {
                queue: before.queue.push(IntentView { sub_intents: one.subs, ..intent }),
                registry: one.registry,
                actions: sends,
            }
        }
    }
}

/// A sweep of intents leaves the names of the catalog as they are.
pub proof fn lemma_swept_frame(queue: Seq<IntentView>, reg: Seq<ResourceView>, now: u64, m: int)
    requires
        0 <= m <= queue.len(),
    ensures
        names(swept(queue, reg, now, m).registry) == names(reg),
        forall|c: Seq<Seq<char>>, i: int|
            eligible(swept(queue, reg, now, m).registry, c, i) <==> eligible(reg, c, i),
    decreases m,
{
    if m > 0 {
        lemma_swept_frame(queue, reg, now, m - 1);
        let before = swept(queue, reg, now, m - 1);
        let subs = queue[m - 1].sub_intents;
        lemma_swept_subs_frame(subs, before.registry, now, subs.len() as int);
    }
}

/// What a sweep has kept and asked for after `m` intents, it still has
/// after `n` of them.
pub proof fn lemma_swept_grows(
    queue: Seq<IntentView>,
    reg: Seq<ResourceView>,
    now: u64,
    m: int,
    n: int,
)
    requires
        0 <= m <= n <= queue.len(),
    ensures
        forall|i: IntentView|
            swept(queue, reg, now, m).queue.contains(i) ==> swept(queue, reg, now, n).queue.contains(
                i,
            ),
        forall|a: SweepActionView|
            swept(queue, reg, now, m).actions.contains(a) ==> swept(
                queue,
                reg,
                now,
                n,
            ).actions.contains(a),
    decreases n - m,
{
    if m < n {
        lemma_swept_grows(queue, reg, now, m, n - 1);
        let before = swept(queue, reg, now, n - 1);
        let after = swept(queue, reg, now, n);
        assert forall|i: IntentView| before.queue.contains(i) implies after.queue.contains(i) by {
            let p = choose|p: int| 0 <= p < before.queue.len() && before.queue[p] == i;
            if after.queue.len() > before.queue.len() {
                assert(after.queue[p] == i);
            }
        }
        assert forall|a: SweepActionView| before.actions.contains(a) implies after.actions.contains(
            a,
        ) by {
            let p = choose|p: int| 0 <= p < before.actions.len() && before.actions[p] == a;
            assert(after.actions[p] == a);
        }
    }
}

/// An intent whose overdue sub-intents all have a registered resource among
/// their candidates stays in the queue through a sweep, with its
/// sub-intents swept, and every send that its sweep orders is asked for.
pub proof fn lemma_served_intent_stays(
    queue: Seq<IntentView>,
    reg: Seq<ResourceView>,
    now: u64,
    k: int,
)
    requires
        0 <= k < queue.len(),
        forall|l: int|
            0 <= l < queue[k].sub_intents.len() && #[trigger] overdue(
                queue[k].sub_intents[l],
                now,
            ) ==> exists|i: int| eligible(reg, queue[k].sub_intents[l].candidates, i),
    ensures
        ({
            let before = swept(queue, reg, now, k);
            let one = swept_subs(
                queue[k].sub_intents,
                before.registry,
                now,
                queue[k].sub_intents.len() as int,
            );
            let done = swept(queue, reg, now, queue.len() as int);
            &&& !one.stranded
            &&& done.queue.contains(IntentView { sub_intents: one.subs, ..queue[k] })
            &&& forall|o: RouteOrderView| #[trigger]
                one.orders.contains(o) ==> done.actions.contains(SweepActionView::Send(o))
        }),
{
    let subs = queue[k].sub_intents;
    let before = swept(queue, reg, now, k);
    let one = swept_subs(subs, before.registry, now, subs.len() as int);
    lemma_swept_frame(queue, reg, now, k);
    lemma_stranded(subs, before.registry, now, subs.len() as int);
    if one.stranded {
        let l = choose|l: int|
            0 <= l < subs.len() && #[trigger] overdue(subs[l], now) && forall|i: int|
                !eligible(before.registry, subs[l].candidates, i);
        let i = choose|i: int| eligible(reg, subs[l].candidates, i);
        assert(eligible(before.registry, subs[l].candidates, i));
    }
    let next = swept(queue, reg, now, k + 1);
    let kept = IntentView { sub_intents: one.subs, ..queue[k] };
    assert(next.queue[before.queue.len() as int] == kept);
    assert forall|o: RouteOrderView| #[trigger] one.orders.contains(o) implies next.actions.contains(
        SweepActionView::Send(o),
    ) by {
        let p = choose|p: int| 0 <= p < one.orders.len() && one.orders[p] == o;
        assert(send_actions(one.orders)[p] == SweepActionView::Send(o));
        assert(next.actions[before.actions.len() + p] == SweepActionView::Send(o));
    }
    lemma_swept_grows(queue, reg, now, k + 1, queue.len() as int);
}

/// An intent with an overdue sub-intent that has no registered resource
/// among its candidates is turned down by a sweep: its origin is to be told.
pub proof fn lemma_stranded_intent_is_rejected(
    queue: Seq<IntentView>,
    reg: Seq<ResourceView>,
    now: u64,
    k: int,
    l: int,
)
    requires
        0 <= k < queue.len(),
        0 <= l < queue[k].sub_intents.len(),
        overdue(queue[k].sub_intents[l], now),
        forall|i: int| !eligible(reg, queue[k].sub_intents[l].candidates, i),
    ensures
        swept(queue, reg, now, queue.len() as int).actions.contains(reject_action(queue[k])),
{
    let subs = queue[k].sub_intents;
    let before = swept(queue, reg, now, k);
    lemma_swept_frame(queue, reg, now, k);
    lemma_stranded(subs, before.registry, now, subs.len() as int);
    assert forall|i: int| !eligible(before.registry, subs[l].candidates, i) by {
        assert(eligible(before.registry, subs[l].candidates, i) == eligible(
            reg,
            subs[l].candidates,
            i,
        ));
    }
    let one = swept_subs(subs, before.registry, now, subs.len() as int);
    assert(one.stranded);
    let next = swept(queue, reg, now, k + 1);
    assert(next.actions.last() == reject_action(queue[k]));
    lemma_swept_grows(queue, reg, now, k + 1, queue.len() as int);
}

/// A sweep routes an overdue sub-intent anew wherever it can. Let every
/// overdue sub-intent of an intent have a registered resource among its
/// candidates. Then the intent stays in the queue, and each of its overdue
/// sub-intents is assigned a registered resource from its candidates,
/// which leaves the candidates; the sub-intent is stamped with the time of
/// the sweep, so that it is not overdue any more; and the send to that
/// resource is asked for under the sub-intent's identifier. A sub-intent
/// that kept its assigned resource out of its candidates, such as one
/// whose resource has left the catalog, gets another resource.
pub proof fn lemma_sweep_serves(
    queue: Seq<IntentView>,
    reg: Seq<ResourceView>,
    now: u64,
    k: int,
    j: int,
)
    requires
        0 <= k < queue.len(),
        0 <= j < queue[k].sub_intents.len(),
        overdue(queue[k].sub_intents[j], now),
        forall|l: int|
            0 <= l < queue[k].sub_intents.len() && #[trigger] overdue(
                queue[k].sub_intents[l],
                now,
            ) ==> exists|i: int| eligible(reg, queue[k].sub_intents[l].candidates, i),
    ensures
        ({
            let done = swept(queue, reg, now, queue.len() as int);
            let was = queue[k].sub_intents[j];
            exists|kept: IntentView|
                {
                    let s = kept.sub_intents[j];
                    &&& #[trigger] done.queue.contains(kept)
                    &&& kept == (IntentView { sub_intents: kept.sub_intents, ..queue[k] })
                    &&& kept.sub_intents.len() == queue[k].sub_intents.len()
                    &&& s.selected is Some
                    &&& was.candidates.contains(s.selected->0)
                    &&& find(reg, s.selected->0) is Some
                    &&& !s.candidates.contains(s.selected->0)
                    &&& s.routed == now
                    &&& !overdue(s, now)
                    &&& was.exclusive() ==> s.selected != was.selected
                    &&& done.actions.contains(
                        SweepActionView::Send(
                            RouteOrderView {
                                resource: s.selected->0,
                                intent: was.description,
                                id: was.id,
                            },
                        ),
                    )
                }
        }),
{
    let subs = queue[k].sub_intents;
    let before = swept(queue, reg, now, k);
    let one = swept_subs(subs, before.registry, now, subs.len() as int);
    lemma_swept_frame(queue, reg, now, k);
    lemma_served_intent_stays(queue, reg, now, k);
    let i = choose|i: int| eligible(reg, subs[j].candidates, i);
    assert(eligible(before.registry, subs[j].candidates, i));
    lemma_overdue_is_rerouted(subs, before.registry, now, j);
    lemma_swept_subs_frame(subs, before.registry, now, subs.len() as int);
    let kept = IntentView { sub_intents: one.subs, ..queue[k] };
    let s = one.subs[j];
    assert(one.orders.contains(
        RouteOrderView { resource: s.selected->0, intent: subs[j].description, id: subs[j].id },
    ));
    assert(find(before.registry, s.selected->0) == find(reg, s.selected->0));
    assert(swept(queue, reg, now, queue.len() as int).queue.contains(kept));
}

/// The place of the first sub-intent with the identifier `id`.
pub open spec fn sub_with_id(subs: Seq<SubIntentView>, id: i64) -> Option<int> {
    subs.map_values(|s: SubIntentView| s.id).index_of_first(id)
}

/// The place of the first intent that holds a sub-intent with the
/// identifier `id`.
pub open spec fn holder(queue: Seq<IntentView>, id: i64) -> Option<int> {
    queue.map_values(|i: IntentView| sub_with_id(i.sub_intents, id) is Some).index_of_first(true)
}

/// How the refusal of a sub-intent by its resource ends.
pub struct Refusal {
    pub queue: Seq<IntentView>,
    pub registry: Seq<ResourceView>,
    pub action: Option<SweepActionView>,
}

/// A resource has refused the sub-intent with the identifier `id`: the
/// sub-intent is routed anew; when there is no candidate to pick, its
/// intent is turned down and leaves the queue. Without such a sub-intent
/// nothing changes.
pub open spec fn refused(queue: Seq<IntentView>, reg: Seq<ResourceView>, id: i64, now: u64)
    -> Refusal {
    match holder(queue, id) {
        Some(i) => {
            let j = sub_with_id(queue[i].sub_intents, id)->0;
            let r = rerouted(queue[i].sub_intents[j], reg, now);
            match r.order {
                Some(order) => Refusal {
                    queue: queue.update(
                        i,
                        IntentView {
                            sub_intents: queue[i].sub_intents.update(j, r.sub),
                            ..queue[i]
                        },
                    ),
                    registry: r.registry,
                    action: Some(SweepActionView::Send(order)),
                },
                None => Refusal {
                    queue: queue.remove(i),
                    registry: reg,
                    action: Some(reject_action(queue[i])),
                },
            }
        },
        None => Refusal { queue, registry: reg, action: None },
    }
}

fn find_pending(subs: &Vec<SubIntent>, id: i64) -> (found: Option<usize>)
    ensures
        match found {
            Some(j) => pending_match(sub_views(subs@), id) == Some(j as int) && j < subs.len(),
            None => pending_match(sub_views(subs@), id) is None,
        },
{
    let ghost flags = sub_views(subs@).map_values(|s: SubIntentView| s.id == id && !s.complete);
    let mut j: usize = 0;
    while j < subs.len()
        invariant
            j <= subs.len(),
            flags == sub_views(subs@).map_values(|s: SubIntentView| s.id == id && !s.complete),
            forall|k: int| 0 <= k < j ==> !flags[k],
        decreases subs.len() - j,
    {
        if subs[j].get_id() == id && !subs[j].is_complete() {
            proof {
                lemma_first_at(flags, true, j as int);
            }
            return Some(j);
        }
        j = j + 1;
    }
    proof {
        lemma_first_absent(flags, true);
    }
    None
}

fn find_sub(subs: &Vec<SubIntent>, id: i64) -> (found: Option<usize>)
    ensures
        match found {
            Some(j) => sub_with_id(sub_views(subs@), id) == Some(j as int) && j < subs.len(),
            None => sub_with_id(sub_views(subs@), id) is None,
        },
{
    let ghost ids = sub_views(subs@).map_values(|s: SubIntentView| s.id);
    let mut j: usize = 0;
    while j < subs.len()
        invariant
            j <= subs.len(),
            ids == sub_views(subs@).map_values(|s: SubIntentView| s.id),
            forall|k: int| 0 <= k < j ==> ids[k] != id,
        decreases subs.len() - j,
    {
        if subs[j].get_id() == id {
            proof {
                lemma_first_at(ids, id, j as int);
            }
            return Some(j);
        }
        j = j + 1;
    }
    proof {
        lemma_first_absent(ids, id);
    }
    None
}

/// Routes the overdue sub-intents of an intent anew. Returns what is to
/// be sent and whether a sub-intent is stranded.
pub fn sweep_intent(intent: &mut Intent, registry: &mut Registry, now: u64) -> (r: (
    Vec<RouteOrder>,
    bool,
))
    ensures
        ({
            let one = swept_subs(
                old(intent)@.sub_intents,
                old(registry)@,
                now,
                old(intent)@.sub_intents.len() as int,
            );
            &&& final(intent)@ == (IntentView { sub_intents: one.subs, ..old(intent)@ })
            &&& final(registry)@ == one.registry
            &&& order_views(r.0@) == one.orders
            &&& r.1 == one.stranded
        }),
{
    let ghost subs0 = intent@.sub_intents;
    let ghost reg0 = registry@;
    let mut orders: Vec<RouteOrder> = Vec::new();
    let mut stranded = false;
    let subs = intent.iter_sub_intent();
    let mut k: usize = 0;
    while k < subs.len()
        invariant
            k <= subs.len(),
            subs.len() == subs0.len(),
            ({
                let one = swept_subs(subs0, reg0, now, k as int);
                &&& sub_views(subs@) == one.subs
                &&& registry@ == one.registry
                &&& order_views(orders@) == one.orders
                &&& stranded == one.stranded
            }),
        decreases subs.len() - k,
    {
        let routed = subs[k].get_routed();
        if !subs[k].is_complete() && now > routed && now - routed > EXPIRE_AFTER {
            match reroute(&mut subs[k], registry, now) {
                Ok(order) => {
                    orders.push(order);
                },
                Err(_) => {
                    stranded = true;
                },
            }
        }
        k = k + 1;
    }
    (orders, stranded)
}

/// The intents in flight, in the order in which they were enqueued.
#[derive(Debug)]
pub struct IntentQueue {
    intents: Vec<Intent>,
}

impl View for IntentQueue {
    type V = Seq<IntentView>;

    closed spec fn view(&self) -> Seq<IntentView> {
        intent_views(self.intents@)
    }
}

impl IntentQueue {
    /// An empty queue.
    pub fn new() -> (q: Self)
        ensures
            q@ == Seq::<IntentView>::empty(),
    {
        let q = Self { intents: Vec::new() };
        q
    }

    /// The number of intents in flight.
    pub fn len(&self) -> (n: usize)
        ensures
            n == self@.len(),
    {
        self.intents.len()
    }

    /// The intents in flight, in order.
    pub fn intents(&self) -> (v: &Vec<Intent>)
        ensures
            intent_views(v@) == self@,
    {
        &self.intents
    }

    /// Appends an intent.
    pub fn enqueue(&mut self, intent: Intent)
        ensures
            final(self)@ == old(self)@.push(intent@),
    {
        self.intents.push(intent);
    }

    fn find_owner(&self, id: i64) -> (found: Option<(usize, usize)>)
        ensures
            match found {
                Some(p) => {
                    &&& owner(self@, id) == Some(p.0 as int)
                    &&& p.0 < self@.len()
                    &&& pending_match(self@[p.0 as int].sub_intents, id) == Some(p.1 as int)
                    &&& p.1 < self@[p.0 as int].sub_intents.len()
                },
                None => owner(self@, id) is None,
            },
    {
        let ghost flags = self@.map_values(
            |i: IntentView| pending_match(i.sub_intents, id) is Some,
        );
        let mut i: usize = 0;
        while i < self.intents.len()
            invariant
                i <= self.intents.len(),
                flags == self@.map_values(
                    |i: IntentView| pending_match(i.sub_intents, id) is Some,
                ),
                forall|k: int| 0 <= k < i ==> !flags[k],
            decreases self.intents.len() - i,
        {
            match find_pending(self.intents[i].sub_intents(), id) {
                Some(j) => {
                    proof {
                        lemma_first_at(flags, true, i as int);
                    }
                    return Some((i, j));
                },
                None => {},
            }
            i = i + 1;
        }
        proof {
            lemma_first_absent(flags, true);
        }
        None
    }

    fn find_holder(&self, id: i64) -> (found: Option<(usize, usize)>)
        ensures
            match found {
                Some(p) => {
                    &&& holder(self@, id) == Some(p.0 as int)
                    &&& p.0 < self@.len()
                    &&& sub_with_id(self@[p.0 as int].sub_intents, id) == Some(p.1 as int)
                    &&& p.1 < self@[p.0 as int].sub_intents.len()
                },
                None => holder(self@, id) is None,
            },
    {
        let ghost flags = self@.map_values(
            |i: IntentView| sub_with_id(i.sub_intents, id) is Some,
        );
        let mut i: usize = 0;
        while i < self.intents.len()
            invariant
                i <= self.intents.len(),
                flags == self@.map_values(
                    |i: IntentView| sub_with_id(i.sub_intents, id) is Some,
                ),
                forall|k: int| 0 <= k < i ==> !flags[k],
            decreases self.intents.len() - i,
        {
            match find_sub(self.intents[i].sub_intents(), id) {
                Some(j) => {
                    proof {
                        lemma_first_at(flags, true, i as int);
                    }
                    return Some((i, j));
                },
                None => {},
            }
            i = i + 1;
        }
        proof {
            lemma_first_absent(flags, true);
        }
        None
    }

    /// Marks the sub-intent with the identifier `sub_id` complete. Returns
    /// the intent that this finished, which has left the queue. Marking a
    /// sub-intent that is complete already changes nothing.
    pub fn mark_complete(&mut self, sub_id: i64, registry: &mut Registry) -> (finished: Option<
        Intent,
    >)
        ensures
            ({
                let c = completed(old(self)@, old(registry)@, sub_id);
                &&& final(self)@ == c.queue
                &&& final(registry)@ == c.registry
                &&& match finished {
                    Some(intent) => c.finished == Some(intent@),
                    None => c.finished is None,
                }
            }),
    {
        match self.find_owner(sub_id) {
            Some((i, j)) => {
                let ghost before = self@;
                let subs = self.intents[i].iter_sub_intent();
                subs[j].complete();
                assert(sub_views(subs@) =~= before[i as int].sub_intents.update(
                    j as int,
                    SubIntentView { complete: true, ..before[i as int].sub_intents[j as int] },
                ));
                if self.intents[i].is_complete() {
                    let mut intent = self.intents.remove(i);
                    let resolved = intent.sub_intents();
                    assert(sub_views(resolved@)[j as int] == resolved@[j as int]@);
                    match resolved[j].get_selected_resource() {
                        Some(name) => {
                            registry.change_resource_dealing(name.as_str(), false);
                        },
                        None => {},
                    }
                    intent.complete();
                    Some(intent)
                } else {
                    None
                }
            },
            None => None,
        }
    }

    /// Sweeps the queue at the time `now`: every overdue sub-intent is
    /// routed anew, and an intent with a stranded sub-intent is turned down
    /// and leaves the queue. Returns what is to be sent and whom to tell, in
    /// order.
    pub fn try_reroute(&mut self, registry: &mut Registry, now: u64) -> (actions: Vec<SweepAction>)
        ensures
            ({
                let s = swept(old(self)@, old(registry)@, now, old(self)@.len() as int);
                &&& final(self)@ == s.queue
                &&& final(registry)@ == s.registry
                &&& action_views(actions@) == s.actions
            }),
    {
        let ghost queue0 = self@;
        let ghost reg0 = registry@;
        let total = self.intents.len();
        let mut actions: Vec<SweepAction> = Vec::new();
        let mut done: usize = 0;
        let mut at: usize = 0;
        while done < total
            invariant
                done <= total,
                total == queue0.len(),
                at <= done,
                ({
                    let s = swept(queue0, reg0, now, done as int);
                    &&& at == s.queue.len()
                    &&& self@ == s.queue + queue0.subrange(done as int, total as int)
                    &&& registry@ == s.registry
                    &&& action_views(actions@) == s.actions
                }),
            decreases total - done,
        {
            let ghost current = self@;
            let ghost acts = action_views(actions@);
            assert(current.len() == at + (total - done));
            assert(current[at as int] == queue0[done as int]);
            let (orders, stranded) = sweep_intent(&mut self.intents[at], registry, now);
            let ghost swept_one = self.intents@[at as int]@;
            assert(intent_views(self.intents@) =~= current.update(at as int, swept_one));
            let mut k: usize = 0;
            let mut orders = orders;
            let ghost order_list = order_views(orders@);
            while k < orders.len()
                invariant
                    k <= orders.len(),
                    order_views(orders@) == order_list,
                    action_views(actions@) == acts + send_actions(order_list).take(k as int),
                decreases orders.len() - k,
            {
                let order = RouteOrder {
                    resource: orders[k].resource.clone(),
                    intent: orders[k].intent.clone(),
                    id: orders[k].id,
                };
                proof {
                    assert(action_views(actions@.push(SweepAction::Send(order))) =~= action_views(
                        actions@,
                    ).push(SweepActionView::Send(order@)));
                }
                actions.push(SweepAction::Send(order));
                k = k + 1;
            }
            assert(send_actions(order_list).take(order_list.len() as int) =~= send_actions(
                order_list,
            ));
            if stranded {
                let intent = self.intents.remove(at);
                assert(intent_views(self.intents@) =~= current.remove(at as int));
                let origin = match intent.get_resource() {
                    Some(name) => Some(name.clone()),
                    None => None,
                };
                let action = SweepAction::Reject {
                    origin,
                    description: intent.get_description().to_owned(),
                    id: intent.get_id(),
                };
                actions.push(action);
            } else {
                at = at + 1;
            }
            done = done + 1;
        }
        actions
    }

    /// Takes the refusal of the sub-intent with the identifier `id` by
    /// its resource: the sub-intent is routed anew, or its intent is turned
    /// down and leaves the queue.
    pub fn on_reject(&mut self, id: i64, registry: &mut Registry, now: u64) -> (action: Option<
        SweepAction,
    >)
        ensures
            ({
                let r = refused(old(self)@, old(registry)@, id, now);
                &&& final(self)@ == r.queue
                &&& final(registry)@ == r.registry
                &&& match action {
                    Some(a) => r.action == Some(a@),
                    None => r.action is None,
                }
            }),
    {
        match self.find_holder(id) {
            Some((i, j)) => {
                let ghost before = self@;
                let subs = self.intents[i].iter_sub_intent();
                match reroute(&mut subs[j], registry, now) {
                    Ok(order) => {
                        assert(sub_views(subs@) =~= before[i as int].sub_intents.update(
                            j as int,
                            subs@[j as int]@,
                        ));
                        Some(SweepAction::Send(order))
                    },
                    Err(_) => {
                        let intent = self.intents.remove(i);
                        let origin = match intent.get_resource() {
                            Some(name) => Some(name.clone()),
                            None => None,
                        };
                        Some(
                            SweepAction::Reject {
                                origin,
                                description: intent.get_description().to_owned(),
                                id: intent.get_id(),
                            },
                        )
                    },
                }
            },
            None => None,
        }
    }
}

} // verus!
