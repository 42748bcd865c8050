//! Admission rules: essential rules that never expire and user rules
//! that do.
//!
//! Times and durations are whole milliseconds.

use crate::idgen::{generate_id, IdType};
use crate::intent::IntentSource;
use crate::text::same_text;
use vstd::prelude::*;

verus! {

/// Identifiers below this one belong to essential rules, which never
/// expire.
pub const ESSENTIAL_ID_LIMIT: i64 = 1000;

/// How many identifiers `Rule::new` draws before it gives up.
pub const ID_DRAWS: u8 = 3;

/// A day of the week.
#[derive(Clone, Copy, Debug, PartialEq, Eq, Structural)]
pub enum Weekday {
    Mon,
    Tue,
    Wed,
    Thu,
    Fri,
    Sat,
    Sun,
}

/// A day of the week as it is written in a rule update.
#[derive(Clone, Copy, Debug, PartialEq, Eq, Structural)]
pub enum TransWeekday {
    Mon,
    Tue,
    Wed,
    Thu,
    Fri,
    Sat,
    Sun,
}

impl TransWeekday {
    /// The same day.
    pub open spec fn day(self) -> Weekday {
        match self {
            TransWeekday::Mon => Weekday::Mon,
            TransWeekday::Tue => Weekday::Tue,
            TransWeekday::Wed => Weekday::Wed,
            TransWeekday::Thu => Weekday::Thu,
            TransWeekday::Fri => Weekday::Fri,
            TransWeekday::Sat => Weekday::Sat,
            TransWeekday::Sun => Weekday::Sun,
        }
    }

    /// The same day.
    pub fn to_weekday(self) -> (d: Weekday)
        ensures
            d == self.day(),
    {
        match self {
            TransWeekday::Mon => Weekday::Mon,
            TransWeekday::Tue => Weekday::Tue,
            TransWeekday::Wed => Weekday::Wed,
            TransWeekday::Thu => Weekday::Thu,
            TransWeekday::Fri => Weekday::Fri,
            TransWeekday::Sat => Weekday::Sat,
            TransWeekday::Sun => Weekday::Sun,
        }
    }
}

/// The predicates that are built in.
#[derive(Clone, Copy, Debug, PartialEq, Eq, Structural)]
pub enum EssentialFunction {
    /// Holds of an intent that is itself a rejection.
    Reject,
    /// Never holds; marks an intent as urgent when its text says so.
    Emergency,
}

/// What a rule tests.
#[derive(Debug)]
pub enum RuleDetail {
    /// A built-in predicate.
    Function(EssentialFunction),
    /// An action with side effects, by name.
    AsyncF(String),
    /// A free text that the reasoner holds the intent against.
    Prompt(String),
    /// Holds of an intent from this source.
    Source(IntentSource),
    /// Holds once the rule itself has expired.
    Time,
    /// Holds on this day of the week.
    Weekday(Weekday),
    /// Holds of nothing.
    Undefine,
}

/// What a rule detail holds.
pub enum RuleDetailView {
    Function(EssentialFunction),
    AsyncF(Seq<char>),
    Prompt(Seq<char>),
    Source(IntentSource),
    Time,
    Weekday(Weekday),
    Undefine,
}

impl View for RuleDetail {
    type V = RuleDetailView;

    open spec fn view(&self) -> RuleDetailView {
        match self {
            RuleDetail::Function(f) => RuleDetailView::Function(*f),
            RuleDetail::AsyncF(s) => RuleDetailView::AsyncF(s@),
            RuleDetail::Prompt(s) => RuleDetailView::Prompt(s@),
            RuleDetail::Source(s) => RuleDetailView::Source(*s),
            RuleDetail::Time => RuleDetailView::Time,
            RuleDetail::Weekday(d) => RuleDetailView::Weekday(*d),
            RuleDetail::Undefine => RuleDetailView::Undefine,
        }
    }
}

impl RuleDetail {
    /// A copy of the detail.
    pub fn duplicate(&self) -> (d: Self)
        ensures
            d@ == self@,
    {
        match self {
            RuleDetail::Function(f) => RuleDetail::Function(*f),
            RuleDetail::AsyncF(s) => RuleDetail::AsyncF(s.clone()),
            RuleDetail::Prompt(s) => RuleDetail::Prompt(s.clone()),
            RuleDetail::Source(s) => RuleDetail::Source(*s),
            RuleDetail::Time => RuleDetail::Time,
            RuleDetail::Weekday(d) => RuleDetail::Weekday(*d),
            RuleDetail::Undefine => RuleDetail::Undefine,
        }
    }
}

/// What a user rule tests, as it is written in a rule update.
#[derive(Debug)]
pub enum TransRuleDetail {
    Prompt(String),
    Source(IntentSource),
    Time,
    Weekday(TransWeekday),
}

impl TransRuleDetail {
    /// The detail of the rule that the update asks for.
    pub open spec fn detail(self) -> RuleDetailView {
        match self {
            TransRuleDetail::Prompt(s) => RuleDetailView::Prompt(s@),
            TransRuleDetail::Source(s) => RuleDetailView::Source(s),
            TransRuleDetail::Time => RuleDetailView::Time,
            TransRuleDetail::Weekday(w) => RuleDetailView::Weekday(w.day()),
        }
    }

    /// The detail of the rule that the update asks for.
    pub fn into_detail(self) -> (d: RuleDetail)
        ensures
            d@ == self.detail(),
    {
        match self {
            TransRuleDetail::Prompt(s) => RuleDetail::Prompt(s),
            TransRuleDetail::Source(s) => RuleDetail::Source(s),
            TransRuleDetail::Time => RuleDetail::Time,
            TransRuleDetail::Weekday(w) => RuleDetail::Weekday(w.to_weekday()),
        }
    }
}

/// A rule update: the user rule that an intent asks to install.
#[derive(Debug)]
pub struct TransRule {
    pub name: String,
    pub description: String,
    pub valid_time: u64,
    pub detail: TransRuleDetail,
}

/// The first of the drawn identifiers that a user rule may have.
pub open spec fn first_usable_id(draws: Seq<i64>) -> Option<i64>
    decreases draws.len(),
{
    if draws.len() == 0 {
        None
    } else if draws[0] >= ESSENTIAL_ID_LIMIT {
        Some(draws[0])
    } else {
        first_usable_id(draws.drop_first())
    }
}

/// What `first_usable_id` gives: an identifier that is no reserved one and
/// stands among the draws behind reserved ones only; nothing when every
/// draw is reserved.
pub proof fn lemma_first_usable(draws: Seq<i64>)
    ensures
        match first_usable_id(draws) {
            Some(id) => id >= ESSENTIAL_ID_LIMIT && exists|k: int|
                0 <= k < draws.len() && #[trigger] draws[k] == id && forall|j: int|
                    0 <= j < k ==> draws[j] < ESSENTIAL_ID_LIMIT,
            None => forall|j: int| 0 <= j < draws.len() ==> draws[j] < ESSENTIAL_ID_LIMIT,
        },
    decreases draws.len(),
{
    if draws.len() > 0 && draws[0] < ESSENTIAL_ID_LIMIT {
        let rest = draws.drop_first();
        lemma_first_usable(rest);
        match first_usable_id(rest) {
            Some(id) => {
                let k = choose|k: int|
                    0 <= k < rest.len() && #[trigger] rest[k] == id && forall|j: int|
                        0 <= j < k ==> rest[j] < ESSENTIAL_ID_LIMIT;
                assert(draws[k + 1] == id);
                assert forall|j: int| 0 <= j < k + 1 implies draws[j] < ESSENTIAL_ID_LIMIT by {
                    if j > 0 {
                        assert(rest[j - 1] == draws[j]);
                    }
                }
            },
            None => {
                assert forall|j: int| 0 <= j < draws.len() implies draws[j]
                    < ESSENTIAL_ID_LIMIT by {
                    if j > 0 {
                        assert(rest[j - 1] == draws[j]);
                    }
                }
            },
        }
    } else if draws.len() > 0 {
        assert(draws[0] == draws[0]);
    }
}

/// Picks the first of the drawn identifiers that a user rule may have.
pub fn first_usable(draws: &Vec<i64>) -> (r: Option<i64>)
    ensures
        r == first_usable_id(draws@),
        r is Some ==> r->0 >= ESSENTIAL_ID_LIMIT,
{
    let mut i: usize = 0;
    assert(draws@.subrange(0, draws.len() as int) =~= draws@);
    while i < draws.len()
        invariant
            i <= draws.len(),
            first_usable_id(draws@) == first_usable_id(
                draws@.subrange(i as int, draws.len() as int),
            ),
        decreases draws.len() - i,
    {
        let ghost rest = draws@.subrange(i as int, draws.len() as int);
        assert(rest[0] == draws@[i as int]);
        match Rule::usable_id(draws[i]) {
            Some(id) => {
                return Some(id);
            },
            None => {},
        }
        assert(rest.drop_first() =~= draws@.subrange(i + 1, draws.len() as int));
        i = i + 1;
    }
    None
}

/// An admission rule.
#[derive(Debug)]
pub struct Rule {
    id: i64,
    name: String,
    description: String,
    detail: RuleDetail,
    valid_time: u64,
    created_time: u64,
}

/// What a rule holds.
pub struct RuleView {
    pub id: i64,
    pub name: Seq<char>,
    pub description: Seq<char>,
    pub detail: RuleDetailView,
    pub valid_time: u64,
    pub created_time: u64,
}

impl RuleView {
    /// The rule is essential: its identifier is reserved.
    pub open spec fn essential(self) -> bool {
        self.id < ESSENTIAL_ID_LIMIT
    }

    /// The rule has expired at the time `now`: it is no essential rule and
    /// its time of validity, counted from its creation, is over.
    pub open spec fn expired(self, now: u64) -> bool {
        !self.essential() && now >= self.created_time + self.valid_time
    }
}

impl View for Rule {
    type V = RuleView;

    closed spec fn view(&self) -> RuleView {
        RuleView {
            id: self.id,
            name: self.name@,
            description: self.description@,
            detail: self.detail@,
            valid_time: self.valid_time,
            created_time: self.created_time,
        }
    }
}

impl Rule {
    /// A rule with the given identifier, created at the time `now`.
    pub fn with_id(
        id: i64,
        name: String,
        description: String,
        detail: RuleDetail,
        valid_time: u64,
        now: u64,
    ) -> (r: Self)
        ensures
            r@ == (RuleView {
                id,
                name: name@,
                description: description@,
                detail: detail@,
                valid_time,
                created_time: now,
            }),
    {
        Self { id, name, description, detail, valid_time, created_time: now }
    }

    /// A user rule created at the time `now`, under an identifier drawn
    /// from the generator. Identifiers are drawn until one is no reserved
    /// one, `ID_DRAWS` times at most; what the draws give is said by
    /// `from_draws`.
    pub fn new(name: String, description: String, detail: RuleDetail, valid_time: u64, now: u64)
        -> (r: Option<Self>)
        ensures
            match r {
                Some(rule) => {
                    &&& rule@.id >= ESSENTIAL_ID_LIMIT
                    &&& rule@ == (RuleView {
                        id: rule@.id,
                        name: name@,
                        description: description@,
                        detail: detail@,
                        valid_time,
                        created_time: now,
                    })
                },
                None => true,
            },
    {
        let mut draws: Vec<i64> = Vec::new();
        while draws.len() < ID_DRAWS as usize && first_usable(&draws).is_none()
            invariant
                draws.len() <= ID_DRAWS,
            decreases ID_DRAWS - draws.len(),
        {
            draws.push(generate_id(IdType::Resource));
        }
        Self::from_draws(&draws, name, description, detail, valid_time, now)
    }

    /// The user rule for the identifiers that were drawn: it has the first
    /// of them that is no reserved one, and there is no rule when all of
    /// them are reserved.
    pub fn from_draws(
        draws: &Vec<i64>,
        name: String,
        description: String,
        detail: RuleDetail,
        valid_time: u64,
        now: u64,
    ) -> (r: Option<Self>)
        ensures
            match first_usable_id(draws@) {
                Some(id) => r is Some && r->0@ == (RuleView {
                    id,
                    name: name@,
                    description: description@,
                    detail: detail@,
                    valid_time,
                    created_time: now,
                }),
                None => r is None,
            },
            r is Some ==> r->0@.id >= ESSENTIAL_ID_LIMIT,
    {
        match first_usable(draws) {
            Some(id) => Some(Self::with_id(id, name, description, detail, valid_time, now)),
            None => None,
        }
    }

    /// The identifier, if a user rule may have it.
    pub fn usable_id(id: i64) -> (r: Option<i64>)
        ensures
            r == if id >= ESSENTIAL_ID_LIMIT {
                Some(id)
            } else {
                None
            },
    {
        if id >= ESSENTIAL_ID_LIMIT {
            Some(id)
        } else {
            None
        }
    }

    /// The user rule that a rule update asks for, created at the time `now`.
    pub fn from_trans(rule: TransRule, now: u64) -> (r: Option<Self>)
        ensures
            match r {
                Some(made) => {
                    &&& made@.id >= ESSENTIAL_ID_LIMIT
                    &&& made@ == (RuleView {
                        id: made@.id,
                        name: rule.name@,
                        description: rule.description@,
                        detail: rule.detail.detail(),
                        valid_time: rule.valid_time,
                        created_time: now,
                    })
                },
                None => true,
            },
    {
        let detail = rule.detail.into_detail();
        Self::new(rule.name, rule.description, detail, rule.valid_time, now)
    }

    pub fn get_id(&self) -> (id: i64)
        ensures
            id == self@.id,
    {
        self.id
    }

    pub fn get_name(&self) -> (n: &str)
        ensures
            n@ == self@.name,
    {
        self.name.as_str()
    }

    pub fn get_description(&self) -> (d: &str)
        ensures
            d@ == self@.description,
    {
        self.description.as_str()
    }

    pub fn get_rule_detail(&self) -> (d: &RuleDetail)
        ensures
            d@ == self@.detail,
    {
        &self.detail
    }

    pub fn get_valid_time(&self) -> (t: u64)
        ensures
            t == self@.valid_time,
    {
        self.valid_time
    }

    pub fn get_created_time(&self) -> (t: u64)
        ensures
            t == self@.created_time,
    {
        self.created_time
    }

    /// Whether the rule has expired at the time `now`. An essential rule
    /// never has.
    pub fn is_expired(&self, now: u64) -> (e: bool)
        ensures
            e == self@.expired(now),
            self@.id < ESSENTIAL_ID_LIMIT ==> !e,
    {
        if self.id < ESSENTIAL_ID_LIMIT {
            false
        } else {
            (now as u128) >= (self.created_time as u128) + (self.valid_time as u128)
        }
    }

    /// A copy of the rule.
    pub fn duplicate(&self) -> (r: Self)
        ensures
            r@ == self@,
    {
        Self {
            id: self.id,
            name: self.name.clone(),
            description: self.description.clone(),
            detail: self.detail.duplicate(),
            valid_time: self.valid_time,
            created_time: self.created_time,
        }
    }
}

/// The views of a sequence of rules, in order.
pub open spec fn rule_views(v: Seq<Rule>) -> Seq<RuleView> {
    v.map_values(|r: Rule| r@)
}

/// The views of a sequence of borrowed rules, in order.
pub open spec fn borrowed_rule_views(v: Seq<&Rule>) -> Seq<RuleView> {
    v.map_values(|r: &Rule| r@)
}

/// The rules named `name`, in order.
pub open spec fn named(rules: Seq<RuleView>, name: Seq<char>) -> Seq<RuleView> {
    rules.filter(|r: RuleView| r.name == name)
}

/// The rules whose identifier is not `id`, in order.
pub open spec fn without_id(rules: Seq<RuleView>, id: i64) -> Seq<RuleView> {
    rules.filter(|r: RuleView| r.id != id)
}

/// The rules that have not expired at the time `now`, in order.
pub open spec fn unexpired(rules: Seq<RuleView>, now: u64) -> Seq<RuleView> {
    rules.filter(|r: RuleView| !r.expired(now))
}

/// The place of the first rule with the identifier `id`.
pub open spec fn find_id(rules: Seq<RuleView>, id: i64) -> Option<int> {
    rules.map_values(|r: RuleView| r.id).index_of_first(id)
}

/// The user rules, in the order in which they were added.
#[derive(Debug)]
pub struct RuleSet {
    rules: Vec<Rule>,
}

impl View for RuleSet {
    type V = Seq<RuleView>;

    closed spec fn view(&self) -> Seq<RuleView> {
        rule_views(self.rules@)
    }
}

impl RuleSet {
    /// An empty rule set.
    pub fn new() -> (s: Self)
        ensures
            s@ == Seq::<RuleView>::empty(),
    {
        let s = Self { rules: Vec::new() };
        s
    }

    /// Appends a rule.
    pub fn add_rule(&mut self, rule: Rule)
        ensures
            final(self)@ == old(self)@.push(rule@),
    {
        self.rules.push(rule);
    }

    /// The rules named `name`, in order.
    pub fn get_rules_by_name(&self, name: &str) -> (found: Vec<&Rule>)
        ensures
            borrowed_rule_views(found@) == named(self@, name@),
    {
        let mut found: Vec<&Rule> = Vec::new();
        let mut i: usize = 0;
        while i < self.rules.len()
            invariant
                i <= self.rules.len(),
                borrowed_rule_views(found@) == named(self@.take(i as int), name@),
            decreases self.rules.len() - i,
        {
            proof {
                assert(self@.take(i + 1) =~= self@.take(i as int).push(self@[i as int]));
                self@.take(i as int).lemma_filter_push(
                    self@[i as int],
                    |r: RuleView| r.name == name@,
                );
            }
            if same_text(self.rules[i].get_name(), name) {
                let rule = &self.rules[i];
                found.push(rule);
            }
            i = i + 1;
        }
        assert(self@.take(self@.len() as int) =~= self@);
        found
    }

    /// The first rule with the identifier `id`.
    pub fn get_rule_by_id(&self, id: i64) -> (r: Option<&Rule>)
        ensures
            match r {
                Some(rule) => find_id(self@, id) is Some && rule@ == self@[find_id(self@, id)->0],
                None => find_id(self@, id) is None,
            },
    {
        let ghost ids = self@.map_values(|r: RuleView| r.id);
        let mut i: usize = 0;
        while i < self.rules.len()
            invariant
                i <= self.rules.len(),
                ids == self@.map_values(|r: RuleView| r.id),
                forall|j: int| 0 <= j < i ==> ids[j] != id,
            decreases self.rules.len() - i,
        {
            if self.rules[i].get_id() == id {
                proof {
                    crate::text::lemma_first_at(ids, id, i as int);
                }
                return Some(&self.rules[i]);
            }
            i = i + 1;
        }
        proof {
            crate::text::lemma_first_absent(ids, id);
        }
        None
    }

    /// Drops every rule with the identifier `id`.
    pub fn delete_rule(&mut self, id: i64)
        ensures
            final(self)@ == without_id(old(self)@, id),
    {
        let mut kept: Vec<Rule> = Vec::new();
        let mut i: usize = 0;
        while i < self.rules.len()
            invariant
                i <= self.rules.len(),
                self@ == old(self)@,
                rule_views(kept@) == without_id(self@.take(i as int), id),
            decreases self.rules.len() - i,
        {
            proof {
                assert(self@.take(i + 1) =~= self@.take(i as int).push(self@[i as int]));
                self@.take(i as int).lemma_filter_push(self@[i as int], |r: RuleView| r.id != id);
            }
            if self.rules[i].get_id() != id {
                let copy = self.rules[i].duplicate();
                kept.push(copy);
            }
            i = i + 1;
        }
        assert(self@.take(self@.len() as int) =~= self@);
        self.rules = kept;
    }

    /// Drops the rules that have expired at the time `now`. Essential
    /// rules stay.
    pub fn expire_rules(&mut self, now: u64)
        ensures
            final(self)@ == unexpired(old(self)@, now),
    {
        let mut kept: Vec<Rule> = Vec::new();
        let mut i: usize = 0;
        while i < self.rules.len()
            invariant
                i <= self.rules.len(),
                self@ == old(self)@,
                rule_views(kept@) == unexpired(self@.take(i as int), now),
            decreases self.rules.len() - i,
        {
            proof {
                assert(self@.take(i + 1) =~= self@.take(i as int).push(self@[i as int]));
                self@.take(i as int).lemma_filter_push(
                    self@[i as int],
                    |r: RuleView| !r.expired(now),
                );
            }
            if !self.rules[i].is_expired(now) {
                let copy = self.rules[i].duplicate();
                kept.push(copy);
            }
            i = i + 1;
        }
        assert(self@.take(self@.len() as int) =~= self@);
        self.rules = kept;
    }

    /// The rules, in order.
    pub fn iter_rules(&self) -> (v: &Vec<Rule>)
        ensures
            rule_views(v@) == self@,
    {
        &self.rules
    }
}

} // verus!
