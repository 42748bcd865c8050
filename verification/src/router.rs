//! The router: picks the least loaded candidate for a sub-intent, books
//! the load, and says what is to be sent where.

use crate::errort::RouteError;
use crate::intent::{sub_views, Intent, IntentView, SubIntent, SubIntentView};
use crate::registry::{distinct_names, find, lemma_found_at, Registry};
use crate::resource::{capped_sum, changed_dealing, load_score, ResourceView, Status};
use crate::text::{decimal, has_text, lemma_without, push_decimal, push_text, same_text, texts, without};
use vstd::prelude::*;

verus! {

/// How often a sub-intent is routed before the router gives it up.
pub const RETRY_COUNT: u32 = 3;

/// What the router answers when no candidate can be picked.
pub const NO_RESOURCE: &'static str = "no aviable resource now";

/// What the reasoner is told before it grades a resource.
pub const SCORE_PROMPT: &'static str =
    "score the resource for whether it is suitable to deal the sub-intent, return a score between 0 and 100.";

/// The best grade that the reasoner can give.
pub const MAX_SCORE: u64 = 100;

/// What the reasoner is asked when it grades a resource for a sub-intent.
pub open spec fn score_request(sub_intent: Seq<char>, description: Seq<char>, status: Seq<char>)
    -> Seq<char> {
    "\n        sub_intent: "@ + sub_intent + "\n        resource: "@ + description + ","@ + status
        + "\n        "@
}

/// Builds the request that has the reasoner grade the resource named
/// `resource` for a sub-intent. Of a resource that is not registered the
/// request says nothing.
pub fn score_by_ai(sub_intent: &str, resource: &str, registry: &Registry) -> (request: String)
    ensures
        request@ == match find(registry@, resource@) {
            Some(i) => score_request(
                sub_intent@,
                registry@[i].description,
                crate::resource::status_text(registry@[i].status),
            ),
            None => score_request(sub_intent@, Seq::empty(), Seq::empty()),
        },
{
    let description = registry.get_resource_description(resource);
    let status = registry.get_resource_status_str(resource);
    let mut request = "\n        sub_intent: ".to_owned();
    push_text(&mut request, sub_intent);
    push_text(&mut request, "\n        resource: ");
    push_text(&mut request, description.as_str());
    push_text(&mut request, ",");
    push_text(&mut request, status.as_str());
    push_text(&mut request, "\n        ");
    request
}

/// Reads the reasoner's grade: the answer has to be the decimal numeral
/// of a number up to `MAX_SCORE`.
pub fn read_score(answer: &str) -> (score: Option<u64>)
    ensures
        match score {
            Some(n) => {
                &&& n <= MAX_SCORE
                &&& answer@ == decimal(n as nat)
                &&& forall|m: nat| m < n ==> answer@ != decimal(m)
            },
            None => forall|m: nat| m <= MAX_SCORE ==> answer@ != decimal(m),
        },
{
    let mut n: u64 = 0;
    while n <= MAX_SCORE
        invariant
            n <= MAX_SCORE + 1,
            forall|m: nat| m < n ==> answer@ != decimal(m),
        decreases MAX_SCORE + 1 - n,
    {
        let mut numeral = String::new();
        push_decimal(&mut numeral, n);
        if same_text(answer, numeral.as_str()) {
            return Some(n);
        }
        n = n + 1;
    }
    None
}

/// A sub-intent on its way to a resource.
#[derive(Debug)]
pub struct RouteOrder {
    /// Name of the resource.
    pub resource: String,
    /// Text of the sub-intent.
    pub intent: String,
    /// Identifier of the sub-intent, by which the answer is matched.
    pub id: i64,
}

/// What a route order holds.
pub struct RouteOrderView {
    pub resource: Seq<char>,
    pub intent: Seq<char>,
    pub id: i64,
}

impl View for RouteOrder {
    type V = RouteOrderView;

    open spec fn view(&self) -> RouteOrderView {
        RouteOrderView { resource: self.resource@, intent: self.intent@, id: self.id }
    }
}

/// The views of a sequence of route orders, in order.
pub open spec fn order_views(v: Seq<RouteOrder>) -> Seq<RouteOrderView> {
    v.map_values(|o: RouteOrder| o@)
}

/// The catalog entry at place `i` is a candidate.
pub open spec fn eligible(reg: Seq<ResourceView>, candidates: Seq<Seq<char>>, i: int) -> bool {
    0 <= i < reg.len() && candidates.contains(reg[i].name)
}

/// The catalog entry at place `i` is the one to pick: it is a candidate,
/// no candidate has a lower load score, and every candidate before it in
/// the catalog has a higher one.
pub open spec fn is_best(reg: Seq<ResourceView>, candidates: Seq<Seq<char>>, i: int) -> bool {
    &&& eligible(reg, candidates, i)
    &&& forall|j: int| #[trigger]
        eligible(reg, candidates, j) ==> load_score(reg[i].status) <= load_score(reg[j].status)
    &&& forall|j: int| #[trigger]
        eligible(reg, candidates, j) && j < i ==> load_score(reg[i].status) < load_score(
            reg[j].status,
        )
}

/// The place of the catalog entry to pick, if any entry is a candidate.
pub open spec fn pick(reg: Seq<ResourceView>, candidates: Seq<Seq<char>>) -> Option<int> {
    if exists|i: int| is_best(reg, candidates, i) {
        Some(choose|i: int| is_best(reg, candidates, i))
    } else {
        None
    }
}

/// There is one entry to pick at most.
pub proof fn lemma_best_is_unique(
    reg: Seq<ResourceView>,
    candidates: Seq<Seq<char>>,
    a: int,
    b: int,
)
    requires
        is_best(reg, candidates, a),
        is_best(reg, candidates, b),
    ensures
        a == b,
{
}

/// The place to pick among the first `n` catalog entries.
pub open spec fn best_in(reg: Seq<ResourceView>, candidates: Seq<Seq<char>>, n: int) -> Option<
    int,
>
    decreases n,
{
    if n <= 0 {
        None
    } else {
        let before = best_in(reg, candidates, n - 1);
        if eligible(reg, candidates, n - 1) {
            match before {
                Some(b) => if load_score(reg[n - 1].status) < load_score(reg[b].status) {
                    Some(n - 1)
                } else {
                    before
                },
                None => Some(n - 1),
            }
        } else {
            before
        }
    }
}

/// What `best_in` gives: a candidate among the first `n` entries that none
/// of them beats and that beats every candidate before it; nothing when
/// none of them is a candidate.
pub proof fn lemma_best_in(reg: Seq<ResourceView>, candidates: Seq<Seq<char>>, n: int)
    requires
        0 <= n <= reg.len(),
    ensures
        match best_in(reg, candidates, n) {
            Some(b) => {
                &&& 0 <= b < n
                &&& eligible(reg, candidates, b)
                &&& forall|j: int|
                    0 <= j < n && #[trigger] eligible(reg, candidates, j) ==> load_score(
                        reg[b].status,
                    ) <= load_score(reg[j].status)
                &&& forall|j: int|
                    0 <= j < b && #[trigger] eligible(reg, candidates, j) ==> load_score(
                        reg[b].status,
                    ) < load_score(reg[j].status)
            },
            None => forall|j: int| 0 <= j < n ==> !#[trigger] eligible(reg, candidates, j),
        },
    decreases n,
{
    if n > 0 {
        lemma_best_in(reg, candidates, n - 1);
    }
}

/// Where a registered resource is among the candidates, there is one to
/// pick: `pick` gives a place, and the entry there is the best.
pub proof fn lemma_pick_exists(reg: Seq<ResourceView>, candidates: Seq<Seq<char>>)
    requires
        exists|i: int| eligible(reg, candidates, i),
    ensures
        pick(reg, candidates) is Some,
        is_best(reg, candidates, pick(reg, candidates)->0),
{
    lemma_best_in(reg, candidates, reg.len() as int);
    let i = choose|i: int| eligible(reg, candidates, i);
    assert(eligible(reg, candidates, i));
    let b = best_in(reg, candidates, reg.len() as int)->0;
    assert(is_best(reg, candidates, b));
}

/// The status of a resource after a sub-intent was booked on it: one more
/// in flight, and the running total of busy time grown by the average
/// execution time.
pub open spec fn booked(s: Status) -> Status {
    Status {
        dealing: changed_dealing(s.dealing, true),
        total_busy: capped_sum(s.total_busy, s.average_time),
        ..s
    }
}

/// How a routing ends.
pub struct Routing {
    pub sub: SubIntentView,
    pub registry: Seq<ResourceView>,
    /// What is to be sent; `None` when there was no candidate to pick.
    pub order: Option<RouteOrderView>,
}

/// Routing a sub-intent at the time `now`: the picked resource becomes the
/// assigned one and leaves the candidates, the sub-intent is stamped, and
/// the load is booked on the resource. Without a candidate to pick nothing
/// changes.
pub open spec fn rerouted(sub: SubIntentView, reg: Seq<ResourceView>, now: u64) -> Routing {
    match pick(reg, sub.candidates) {
        Some(k) => Routing {
            sub: SubIntentView {
                selected: Some(reg[k].name),
                candidates: without(sub.candidates, reg[k].name),
                routed: now,
                ..sub
            },
            registry: reg.update(k, ResourceView { status: booked(reg[k].status), ..reg[k] }),
            order: Some(
                RouteOrderView { resource: reg[k].name, intent: sub.description, id: sub.id },
            ),
        },
        None => Routing { sub, registry: reg, order: None },
    }
}

/// A routing leaves the names of the catalog as they are.
pub proof fn lemma_reroute_keeps_names(sub: SubIntentView, reg: Seq<ResourceView>, now: u64)
    ensures
        crate::registry::names(rerouted(sub, reg, now).registry) == crate::registry::names(reg),
        forall|c: Seq<Seq<char>>, i: int|
            eligible(rerouted(sub, reg, now).registry, c, i) <==> eligible(reg, c, i),
{
    let after = rerouted(sub, reg, now).registry;
    match pick(reg, sub.candidates) {
        Some(k) => {
            if exists|i: int| is_best(reg, sub.candidates, i) {
                assert(is_best(reg, sub.candidates, k));
                assert(eligible(reg, sub.candidates, k));
            }
            assert(crate::registry::names(after) =~= crate::registry::names(reg));
            assert forall|c: Seq<Seq<char>>, i: int|
                eligible(after, c, i) <==> eligible(reg, c, i) by {
                if 0 <= i < reg.len() {
                    assert(crate::registry::names(after)[i] == crate::registry::names(reg)[i]);
                }
            }
        },
        None => {},
    }
}

/// A sub-intent with a registered candidate is served: the routing
/// assigns one of its candidates that is registered, takes it out of the
/// candidates, stamps the sub-intent with the time, and orders the send to
/// that resource under the sub-intent's identifier. A sub-intent that kept
/// its assigned resource out of its candidates gets another resource.
pub proof fn lemma_reroute_serves(sub: SubIntentView, reg: Seq<ResourceView>, now: u64)
    requires
        exists|i: int| eligible(reg, sub.candidates, i),
    ensures
        ({
            let r = rerouted(sub, reg, now);
            &&& r.order is Some
            &&& r.sub.selected is Some
            &&& sub.candidates.contains(r.sub.selected->0)
            &&& crate::registry::find(reg, r.sub.selected->0) is Some
            &&& !r.sub.candidates.contains(r.sub.selected->0)
            &&& r.sub.routed == now
            &&& r.sub.complete == sub.complete
            &&& r.sub.id == sub.id
            &&& r.order->0 == (RouteOrderView {
                resource: r.sub.selected->0,
                intent: sub.description,
                id: sub.id,
            })
            &&& sub.exclusive() ==> r.sub.selected != sub.selected
        }),
{
    lemma_pick_exists(reg, sub.candidates);
    let k = pick(reg, sub.candidates)->0;
    assert(eligible(reg, sub.candidates, k));
    lemma_without(sub.candidates, reg[k].name);
    crate::registry::lemma_find(reg, reg[k].name);
}

/// Picks the catalog entry for the candidates: the least loaded one, the
/// earliest in the catalog among equals.
pub fn select_resource(candidates: &Vec<String>, registry: &Registry) -> (best: Option<usize>)
    ensures
        match best {
            Some(k) => pick(registry@, texts(candidates@)) == Some(k as int),
            None => pick(registry@, texts(candidates@)) is None,
        },
        best is Some ==> best->0 < registry@.len(),
{
    let resources = registry.resources();
    let ghost reg = registry@;
    let ghost names = texts(candidates@);
    let mut best: Option<usize> = None;
    let mut best_score: u64 = 0;
    let mut i: usize = 0;
    while i < resources.len()
        invariant
            i <= resources.len(),
            crate::registry::resource_views(resources@) == reg,
            names == texts(candidates@),
            match best {
                Some(k) => {
                    &&& k < i
                    &&& best_score == load_score(reg[k as int].status)
                    &&& eligible(reg, names, k as int)
                    &&& forall|j: int|
                        0 <= j < i && #[trigger] eligible(reg, names, j) ==> best_score
                            <= load_score(reg[j].status)
                    &&& forall|j: int|
                        0 <= j < k && #[trigger] eligible(reg, names, j) ==> best_score
                            < load_score(reg[j].status)
                },
                None => forall|j: int| 0 <= j < i ==> !#[trigger] eligible(reg, names, j),
            },
        decreases resources.len() - i,
    {
        if has_text(candidates, resources[i].get_name()) {
            let score = resources[i].status().score();
            match best {
                Some(_) => {
                    if score < best_score {
                        best = Some(i);
                        best_score = score;
                    }
                },
                None => {
                    best = Some(i);
                    best_score = score;
                },
            }
        }
        i = i + 1;
    }
    proof {
        match best {
            Some(k) => {
                assert(is_best(reg, names, k as int));
            },
            None => {
                assert(forall|c: int| !is_best(reg, names, c));
            },
        }
    }
    best
}

/// Routes the sub-intent to the best of its candidates and returns what
/// is to be sent; fails, and changes nothing, when there is no candidate to
/// pick. A routing that succeeds leaves fewer candidates than it found,
/// and the assigned resource is none of them.
pub fn reroute(s_intent: &mut SubIntent, registry: &mut Registry, now: u64) -> (sent: Result<
    RouteOrder,
    RouteError,
>)
    ensures
        ({
            let r = rerouted(old(s_intent)@, old(registry)@, now);
            &&& final(s_intent)@ == r.sub
            &&& final(registry)@ == r.registry
            &&& match sent {
                Ok(order) => r.order == Some(order@),
                Err(e) => r.order is None && e@ == NO_RESOURCE@,
            }
        }),
        sent is Ok ==> final(s_intent)@.exclusive() && final(s_intent)@.candidates.len() < old(
            s_intent,
        )@.candidates.len(),
{
    let picked = select_resource(s_intent.iter_available_resources(), registry);
    match picked {
        Some(k) => {
            let name = registry.resources()[k].get_name().to_owned();
            let mut status = *registry.resources()[k].status();
            proof {
                lemma_found_at_distinct(registry@, k as int);
                lemma_without(old(s_intent)@.candidates, name@);
            }
            status.change_dealing(true);
            status.add_total_busy(status.get_average_time());
            registry.fresh_resource_status(name.as_str(), status);
            s_intent.set_selected_resource(name.clone());
            s_intent.set_routed(now);
            Ok(
                RouteOrder {
                    resource: name,
                    intent: s_intent.get_description().to_owned(),
                    id: s_intent.get_id(),
                },
            )
        },
        None => Err(RouteError::new(NO_RESOURCE)),
    }
}

/// In a catalog without repeated names, the name at place `k` is found
/// at place `k`.
pub proof fn lemma_found_at_distinct(reg: Seq<ResourceView>, k: int)
    requires
        distinct_names(reg),
        0 <= k < reg.len(),
    ensures
        find(reg, reg[k].name) == Some(k),
{
    lemma_found_at(reg, reg[k].name, k);
}

/// The orders that send a sub-intent to each of the listed resources.
pub open spec fn broadcast_orders(sub: SubIntentView) -> Seq<RouteOrderView> {
    sub.candidates.map_values(
        |c: Seq<char>| RouteOrderView { resource: c, intent: sub.description, id: sub.id },
    )
}

/// Routes the sub-intent to every candidate at once, whatever their load,
/// and leaves no candidate.
pub fn route_all(s_intent: &mut SubIntent) -> (orders: Vec<RouteOrder>)
    ensures
        order_views(orders@) == broadcast_orders(old(s_intent)@),
        final(s_intent)@ == (SubIntentView { candidates: Seq::empty(), ..old(s_intent)@ }),
{
    let mut orders: Vec<RouteOrder> = Vec::new();
    let mut i: usize = 0;
    let candidates = s_intent.iter_available_resources();
    while i < candidates.len()
        invariant
            i <= candidates.len(),
            texts(candidates@) == s_intent@.candidates,
            s_intent@ == old(s_intent)@,
            order_views(orders@) == broadcast_orders(s_intent@).take(i as int),
        decreases candidates.len() - i,
    {
        let order = RouteOrder {
            resource: candidates[i].clone(),
            intent: s_intent.get_description().to_owned(),
            id: s_intent.get_id(),
        };
        proof {
            assert(order_views(orders@.push(order)) =~= order_views(orders@).push(order@));
        }
        orders.push(order);
        i = i + 1;
    }
    s_intent.remove_resource_all();
    orders
}

/// Whether a sub-intent that was routed `attempts` times without success
/// may be routed again.
pub fn may_retry(attempts: u32) -> (again: bool)
    ensures
        again == (attempts < RETRY_COUNT),
{
    attempts < RETRY_COUNT
}

/// The orders of a routing, none or one.
pub open spec fn order_seq(order: Option<RouteOrderView>) -> Seq<RouteOrderView> {
    match order {
        Some(o) => seq![o],
        None => Seq::empty(),
    }
}

/// The state after the first `n` sub-intents were routed, each once.
pub struct Dispatch {
    pub subs: Seq<SubIntentView>,
    pub registry: Seq<ResourceView>,
    pub orders: Seq<RouteOrderView>,
}

/// Routes the first `n` sub-intents in order: each to all its candidates
/// when the intent is urgent, and to the best of them otherwise.
pub open spec fn dispatched(
    subs: Seq<SubIntentView>,
    reg: Seq<ResourceView>,
    emergency: bool,
    now: u64,
    n: int,
) -> Dispatch
    decreases n,
{
    if n <= 0 || n > subs.len() {
        Dispatch { subs, registry: reg, orders: Seq::empty() }
    } else {
        let before = dispatched(subs, reg, emergency, now, n - 1);
        let sub = before.subs[n - 1];
        if emergency {
            Dispatch {
                subs: before.subs.update(
                    n - 1,
                    SubIntentView { candidates: Seq::empty(), ..sub },
                ),
                registry: before.registry,
                orders: before.orders + broadcast_orders(sub),
            }
        } else {
            let r = rerouted(sub, before.registry, now);
            Dispatch {
                subs: before.subs.update(n - 1, r.sub),
                registry: r.registry,
                orders: before.orders + order_seq(r.order),
            }
        }
    }
}

/// Routes every sub-intent of the intent once and returns what is to be
/// sent, in order. A sub-intent without a candidate to pick is passed
/// over.
pub fn router(i: &mut Intent, registry: &mut Registry, now: u64) -> (orders: Vec<RouteOrder>)
    ensures
        ({
            let d = dispatched(
                old(i)@.sub_intents,
                old(registry)@,
                old(i)@.emergency,
                now,
                old(i)@.sub_intents.len() as int,
            );
            &&& final(i)@ == (IntentView { sub_intents: d.subs, ..old(i)@ })
            &&& final(registry)@ == d.registry
            &&& order_views(orders@) == d.orders
        }),
{
    let emergency = i.get_emergency();
    let ghost subs0 = i@.sub_intents;
    let ghost reg0 = registry@;
    let mut orders: Vec<RouteOrder> = Vec::new();
    let subs = i.iter_sub_intent();
    let mut k: usize = 0;
    while k < subs.len()
        invariant
            k <= subs.len(),
            subs.len() == subs0.len(),
            ({
                let d = dispatched(subs0, reg0, emergency, now, k as int);
                &&& sub_views(subs@) == d.subs
                &&& registry@ == d.registry
                &&& order_views(orders@) == d.orders
            }),
        decreases subs.len() - k,
    {
        if emergency {
            let mut more = route_all(&mut subs[k]);
            orders.append(&mut more);
        } else {
            match reroute(&mut subs[k], registry, now) {
                Ok(order) => {
                    orders.push(order);
                },
                Err(_) => {},
            }
        }
        k = k + 1;
    }
    orders
}

/// A sub-intent with one candidate is routed once at most: whether or not
/// the first routing picks the candidate, a second one finds none to pick,
/// whatever the catalog holds by then.
pub proof fn lemma_reroute_exhaustion(
    sub: SubIntentView,
    reg: Seq<ResourceView>,
    now: u64,
    later_reg: Seq<ResourceView>,
    later: u64,
)
    requires
        sub.candidates.len() == 1,
        rerouted(sub, reg, now).order is Some,
    ensures
        rerouted(rerouted(sub, reg, now).sub, later_reg, later).order is None,
        rerouted(rerouted(sub, reg, now).sub, later_reg, later).sub == rerouted(sub, reg, now).sub,
        rerouted(rerouted(sub, reg, now).sub, later_reg, later).registry == later_reg,
{
    let first = rerouted(sub, reg, now);
    let k = pick(reg, sub.candidates)->0;
    let name = reg[k].name;
    lemma_without(sub.candidates, name);
    assert(forall|c: int| !is_best(later_reg, first.sub.candidates, c));
}

/// A name that is no candidate stays out: a routing neither picks it nor
/// brings it back among the candidates.
pub proof fn lemma_excluded_stays_out(
    sub: SubIntentView,
    reg: Seq<ResourceView>,
    now: u64,
    name: Seq<char>,
)
    requires
        !sub.candidates.contains(name),
    ensures
        !rerouted(sub, reg, now).sub.candidates.contains(name),
        rerouted(sub, reg, now).order is Some ==> rerouted(sub, reg, now).sub.selected != Some(
            name,
        ),
{
    match pick(reg, sub.candidates) {
        Some(k) => {
            lemma_without(sub.candidates, reg[k].name);
        },
        None => {},
    }
}

/// Once a routing has assigned a resource, that resource is no candidate
/// any more, and no later routing picks it again, whatever the catalog
/// holds by then.
pub proof fn lemma_never_selected_again(
    sub: SubIntentView,
    reg: Seq<ResourceView>,
    now: u64,
    later_reg: Seq<ResourceView>,
    later: u64,
)
    requires
        rerouted(sub, reg, now).order is Some,
    ensures
        rerouted(sub, reg, now).sub.exclusive(),
        !rerouted(rerouted(sub, reg, now).sub, later_reg, later).sub.candidates.contains(
            rerouted(sub, reg, now).sub.selected->0,
        ),
        rerouted(rerouted(sub, reg, now).sub, later_reg, later).order is Some ==> rerouted(
            rerouted(sub, reg, now).sub,
            later_reg,
            later,
        ).sub.selected != rerouted(sub, reg, now).sub.selected,
{
    let first = rerouted(sub, reg, now);
    let k = pick(reg, sub.candidates)->0;
    lemma_excluded_stays_out(first.sub, later_reg, later, reg[k].name);
}

} // verus!
