//! Admission control: an intent is held against the essential rules, then
//! the user rules, then the special actions, and the first rule that holds
//! decides.
//!
//! Two kinds of rule cannot be decided here: a free-text rule needs the
//! reasoner's answer, and a direct send needs to know whether the send
//! went through. At such a rule `process` stops and says what it needs;
//! `resume` goes on with the answer.

use crate::errort::JudgeError;
use crate::intent::{Intent, IntentSource, IntentType, IntentView};
use crate::registry::{after_report, Registry};
use crate::resource::{ResourceView, Status};
use crate::rule::{
    rule_views, EssentialFunction, Rule, RuleDetail, RuleDetailView, RuleSet, RuleView, Weekday,
};
use crate::staticrule::{
    direct_target, essential_rule_views, essential_rules, is_urgent, parse_direct,
    special_rule_views, special_rules, EMERGENCY_MARKER,
};
use crate::text::{contains, push_text, same_text};
use chrono::{Datelike, Local};
use vstd::prelude::*;

verus! {

/// How the admission of an intent ended.
#[derive(Debug)]
pub enum JudgeResult {
    /// A rule holds of the intent; the text says which.
    Reject(String),
    /// No rule holds.
    Accept,
    /// A special action holds and its work is done: nothing is left to do
    /// for the intent.
    Execution,
}

/// What an admission result holds.
pub enum JudgeResultView {
    Reject(Seq<char>),
    Accept,
    Execution,
}

impl View for JudgeResult {
    type V = JudgeResultView;

    open spec fn view(&self) -> JudgeResultView {
        match self {
            JudgeResult::Reject(r) => JudgeResultView::Reject(r@),
            JudgeResult::Accept => JudgeResultView::Accept,
            JudgeResult::Execution => JudgeResultView::Execution,
        }
    }
}

/// The text that tells a source which intent was turned down and why.
pub open spec fn reject_text(intent: Seq<char>, reason: Seq<char>) -> Seq<char> {
    "intent: "@ + intent + "\nreject reason: "@ + reason
}

/// Builds the text that tells a source which intent was turned down and
/// why.
pub fn format_reject(intent: &str, reason: &str) -> (response: String)
    ensures
        response@ == reject_text(intent@, reason@),
{
    let mut response = "intent: ".to_owned();
    push_text(&mut response, intent);
    push_text(&mut response, "\nreject reason: ");
    push_text(&mut response, reason);
    response
}

/// The reason given when the rule named `name` holds.
pub open spec fn policy_reason(name: Seq<char>) -> Seq<char> {
    "policy "@ + name
}

/// The error for an intent that the rule `rule` turns down.
pub fn policy_error(rule: &Rule) -> (e: JudgeError)
    ensures
        e@ == policy_reason(rule@.name),
{
    let mut reason = "policy ".to_owned();
    push_text(&mut reason, rule.get_name());
    JudgeError::new(reason.as_str())
}

/// What the reasoner is told before a free-text rule.
pub open spec fn rule_system_prompt(rule: Seq<char>) -> Seq<char> {
    "User will give you some Intent, and you need to judge whether it conform to the sentences describe below\n                '"@
        + rule
        + "'\n\n                if it conform, return true, otherwise return false, do not ouput dot or any other things.\n                You need to be tolerant about some general intent."@
}

/// What the reasoner is asked for a free-text rule and an intent.
pub open spec fn rule_user_prompt(rule: Seq<char>, intent: Seq<char>) -> Seq<char> {
    "the rule description is: "@ + rule + "\n the intent description is: "@ + intent + "."@
}

/// What is known from outside when an intent is judged.
#[derive(Debug)]
pub struct Facts {
    /// The time, in milliseconds.
    pub now: u64,
    /// The day of the week.
    pub today: Weekday,
    /// The rule that the intent's text asks to install, if it reads as one.
    pub new_rule: Option<Rule>,
    /// The status that the intent's text reports, if it reads as one.
    pub status: Option<Status>,
}

/// What the facts hold.
pub struct FactsView {
    pub now: u64,
    pub today: Weekday,
    pub new_rule: Option<RuleView>,
    pub status: Option<Status>,
}

impl View for Facts {
    type V = FactsView;

    open spec fn view(&self) -> FactsView {
        FactsView {
            now: self.now,
            today: self.today,
            new_rule: match self.new_rule {
                Some(r) => Some(r@),
                None => None,
            },
            status: self.status,
        }
    }
}

/// Today's day of the week in the local time zone. Trusted: calls
/// `chrono::Local::now`, `DateTime::date_naive` and `Datelike::weekday` and
/// maps the answer variant by variant; nothing is claimed of the day.
#[verifier::external_body]
fn today() -> Weekday {
    match Local::now().date_naive().weekday() {
        chrono::Weekday::Mon => Weekday::Mon,
        chrono::Weekday::Tue => Weekday::Tue,
        chrono::Weekday::Wed => Weekday::Wed,
        chrono::Weekday::Thu => Weekday::Thu,
        chrono::Weekday::Fri => Weekday::Fri,
        chrono::Weekday::Sat => Weekday::Sat,
        chrono::Weekday::Sun => Weekday::Sun,
    }
}

impl Facts {
    /// The facts at the time `now`, with the day of the week read from the
    /// local calendar.
    pub fn gather(now: u64, new_rule: Option<Rule>, status: Option<Status>) -> (f: Self)
        ensures
            f.now == now,
            f.new_rule == new_rule,
            f.status == status,
    {
        Self { now, today: today(), new_rule, status }
    }
}

/// What one rule says of an intent.
#[derive(Debug)]
pub enum Verdict {
    /// The rule does not hold.
    Pass,
    /// The rule does not hold, and the intent is to be marked urgent.
    Mark,
    /// The rule holds.
    Hit,
    /// The rule holds and a user rule is to be installed.
    Install,
    /// The rule holds and the status of the intent's origin is to be
    /// refreshed.
    Refresh,
    /// The rule holds if the reasoner answers `true` to these prompts.
    Ask { system: String, user: String },
    /// The rule holds if this command can be sent to this resource.
    Direct { name: String, command: String },
}

/// What a verdict holds.
pub enum VerdictView {
    Pass,
    Mark,
    Hit,
    Install,
    Refresh,
    Ask { system: Seq<char>, user: Seq<char> },
    Direct { name: Seq<char>, command: Seq<char> },
}

impl View for Verdict {
    type V = VerdictView;

    open spec fn view(&self) -> VerdictView {
        match self {
            Verdict::Pass => VerdictView::Pass,
            Verdict::Mark => VerdictView::Mark,
            Verdict::Hit => VerdictView::Hit,
            Verdict::Install => VerdictView::Install,
            Verdict::Refresh => VerdictView::Refresh,
            Verdict::Ask { system, user } => VerdictView::Ask { system: system@, user: user@ },
            Verdict::Direct { name, command } => VerdictView::Direct {
                name: name@,
                command: command@,
            },
        }
    }
}

/// The parts of an intent that rules look at.
pub struct Subject {
    pub description: Seq<char>,
    pub source: IntentSource,
    pub itype: IntentType,
}

/// The parts of an intent that rules look at.
pub open spec fn subject(intent: IntentView) -> Subject {
    Subject { description: intent.description, source: intent.source, itype: intent.itype }
}

/// `Hit` if the condition holds, `Pass` if not.
pub open spec fn hit_if(holds: bool) -> VerdictView {
    if holds {
        VerdictView::Hit
    } else {
        VerdictView::Pass
    }
}

/// What the rule says of the intent, given the facts.
pub open spec fn verdict(s: Subject, rule: RuleView, facts: FactsView) -> VerdictView {
    match rule.detail {
        RuleDetailView::Source(source) => hit_if(s.source == source),
        RuleDetailView::Time => hit_if(rule.expired(facts.now)),
        RuleDetailView::Weekday(day) => hit_if(facts.today == day),
        RuleDetailView::Prompt(text) => VerdictView::Ask {
            system: rule_system_prompt(text),
            user: rule_user_prompt(text, s.description),
        },
        RuleDetailView::Function(EssentialFunction::Reject) => hit_if(s.itype == IntentType::Reject),
        RuleDetailView::Function(EssentialFunction::Emergency) => if is_urgent(s.description) {
            VerdictView::Mark
        } else {
            VerdictView::Pass
        },
        RuleDetailView::AsyncF(action) => if action == "rule"@ {
            if facts.new_rule is Some {
                VerdictView::Install
            } else {
                VerdictView::Pass
            }
        } else if action == "status"@ {
            if facts.status is Some {
                VerdictView::Refresh
            } else {
                VerdictView::Pass
            }
        } else if action == "direct"@ {
            match direct_target(s.description) {
                Some(target) => VerdictView::Direct { name: target.0, command: target.1 },
                None => VerdictView::Pass,
            }
        } else {
            VerdictView::Pass
        },
        RuleDetailView::Undefine => VerdictView::Pass,
    }
}

fn hit_or_pass(holds: bool) -> (v: Verdict)
    ensures
        v@ == hit_if(holds),
{
    if holds {
        Verdict::Hit
    } else {
        Verdict::Pass
    }
}

/// Holds one rule against an intent.
pub fn rule_judge(intent: &Intent, rule: &Rule, facts: &Facts) -> (v: Verdict)
    ensures
        v@ == verdict(subject(intent@), rule@, facts@),
{
    match rule.get_rule_detail() {
        RuleDetail::Source(source) => hit_or_pass(*intent.get_source() == *source),
        RuleDetail::Time => hit_or_pass(rule.is_expired(facts.now)),
        RuleDetail::Weekday(day) => hit_or_pass(facts.today == *day),
        RuleDetail::Prompt(text) => {
            let mut system =
                "User will give you some Intent, and you need to judge whether it conform to the sentences describe below\n                '".to_owned();
            push_text(&mut system, text.as_str());
            push_text(
                &mut system,
                "'\n\n                if it conform, return true, otherwise return false, do not ouput dot or any other things.\n                You need to be tolerant about some general intent.",
            );
            let mut user = "the rule description is: ".to_owned();
            push_text(&mut user, text.as_str());
            push_text(&mut user, "\n the intent description is: ");
            push_text(&mut user, intent.get_description());
            push_text(&mut user, ".");
            Verdict::Ask { system, user }
        },
        RuleDetail::Function(f) => match f {
            EssentialFunction::Reject => hit_or_pass(
                match intent.get_intent_type() {
                    IntentType::Reject => true,
                    _ => false,
                },
            ),
            EssentialFunction::Emergency => if contains(
                intent.get_description(),
                EMERGENCY_MARKER,
            ) {
                Verdict::Mark
            } else {
                Verdict::Pass
            },
        },
        RuleDetail::AsyncF(action) => {
            if same_text(action.as_str(), "rule") {
                if facts.new_rule.is_some() {
                    Verdict::Install
                } else {
                    Verdict::Pass
                }
            } else if same_text(action.as_str(), "status") {
                if facts.status.is_some() {
                    Verdict::Refresh
                } else {
                    Verdict::Pass
                }
            } else if same_text(action.as_str(), "direct") {
                match parse_direct(intent.get_description()) {
                    Some(target) => Verdict::Direct { name: target.0, command: target.1 },
                    None => Verdict::Pass,
                }
            } else {
                Verdict::Pass
            }
        },
        RuleDetail::Undefine => Verdict::Pass,
    }
}

/// Whether the reasoner's answer to a free-text rule says that the rule
/// holds: only the answer `true` does.
pub fn prompt_verdict(answer: &str) -> (hit: bool)
    ensures
        hit == (answer@ == "true"@),
{
    same_text(answer, "true")
}

/// Where the admission of an intent stands.
#[derive(Debug)]
pub enum JudgeStep {
    /// The admission has ended.
    Done(JudgeResult),
    /// The rule at this place holds if the reasoner answers `true`.
    Ask { at: usize, system: String, user: String },
    /// The rule at this place holds if this command can be sent to this
    /// resource.
    Send { at: usize, name: String, command: String },
}

/// What an admission step holds.
pub enum JudgeStepView {
    Done(JudgeResultView),
    Ask { at: int, system: Seq<char>, user: Seq<char> },
    Send { at: int, name: Seq<char>, command: Seq<char> },
}

impl View for JudgeStep {
    type V = JudgeStepView;

    open spec fn view(&self) -> JudgeStepView {
        match self {
            JudgeStep::Done(r) => JudgeStepView::Done(r@),
            JudgeStep::Ask { at, system, user } => JudgeStepView::Ask {
                at: *at as int,
                system: system@,
                user: user@,
            },
            JudgeStep::Send { at, name, command } => JudgeStepView::Send {
                at: *at as int,
                name: name@,
                command: command@,
            },
        }
    }
}

/// What a rule that holds does besides deciding.
pub enum Effect {
    Nothing,
    /// The rule of the facts joins the user rules.
    Install,
    /// The status of the facts is reported for the intent's origin.
    Refresh,
}

/// How a run over the rules ends.
pub struct Outcome {
    pub step: JudgeStepView,
    /// Whether the intent is urgent afterwards.
    pub emergency: bool,
    pub effect: Effect,
}

/// The result when `rule` holds: a special action has done the work, any
/// other rule turns the intent down and its name is the reason.
pub open spec fn hit_result(rule: RuleView, special: bool) -> JudgeResultView {
    if special {
        JudgeResultView::Execution
    } else {
        JudgeResultView::Reject(policy_reason(rule.name))
    }
}

/// Holds the intent against the rules from place `p` on, in order, up to
/// the first rule that holds or cannot be decided here. The rules from
/// place `boundary` on are special actions.
pub open spec fn run(
    judged: Seq<RuleView>,
    boundary: int,
    p: int,
    s: Subject,
    facts: FactsView,
    emergency: bool,
) -> Outcome
    decreases judged.len() - p,
{
    if p < 0 || p >= judged.len() {
        Outcome {
            step: JudgeStepView::Done(JudgeResultView::Accept),
            emergency,
            effect: Effect::Nothing,
        }
    } else {
        let done = JudgeStepView::Done(hit_result(judged[p], p >= boundary));
        match verdict(s, judged[p], facts) {
            VerdictView::Pass => run(judged, boundary, p + 1, s, facts, emergency),
            VerdictView::Mark => run(judged, boundary, p + 1, s, facts, true),
            VerdictView::Hit => Outcome { step: done, emergency, effect: Effect::Nothing },
            VerdictView::Install => Outcome { step: done, emergency, effect: Effect::Install },
            VerdictView::Refresh => Outcome { step: done, emergency, effect: Effect::Refresh },
            VerdictView::Ask { system, user } => Outcome {
                step: JudgeStepView::Ask { at: p, system, user },
                emergency,
                effect: Effect::Nothing,
            },
            VerdictView::Direct { name, command } => Outcome {
                step: JudgeStepView::Send { at: p, name, command },
                emergency,
                effect: Effect::Nothing,
            },
        }
    }
}

/// Goes on after the rule at place `at` was decided outside: it decides if
/// it holds, and the run goes on behind it if not.
pub open spec fn resumed(
    judged: Seq<RuleView>,
    boundary: int,
    at: int,
    hit: bool,
    s: Subject,
    facts: FactsView,
    emergency: bool,
) -> Outcome {
    if hit && 0 <= at < judged.len() {
        Outcome {
            step: JudgeStepView::Done(hit_result(judged[at], at >= boundary)),
            emergency,
            effect: Effect::Nothing,
        }
    } else {
        run(judged, boundary, at + 1, s, facts, emergency)
    }
}

/// The reason recorded in the intent after a run: that of the rejection
/// if the run ended in one.
pub open spec fn reason_after(reason: Option<Seq<char>>, out: Outcome) -> Option<Seq<char>> {
    match out.step {
        JudgeStepView::Done(JudgeResultView::Reject(r)) => Some(r),
        _ => reason,
    }
}

/// The intent after a run: marked urgent if a rule said so, and holding
/// the reason if it was turned down.
pub open spec fn intent_after(intent: IntentView, out: Outcome) -> IntentView {
    IntentView {
        emergency: out.emergency,
        reject_reason: reason_after(intent.reject_reason, out),
        ..intent
    }
}

/// The user rules after a run.
pub open spec fn users_after(users: Seq<RuleView>, facts: FactsView, out: Outcome) -> Seq<
    RuleView,
> {
    if out.effect is Install && facts.new_rule is Some {
        users.push(facts.new_rule->0)
    } else {
        users
    }
}

/// The registry after a run on an intent raised by `origin`.
pub open spec fn registry_after(
    registry: Seq<ResourceView>,
    origin: Option<Seq<char>>,
    facts: FactsView,
    out: Outcome,
) -> Seq<ResourceView> {
    if out.effect is Refresh && facts.status is Some && origin is Some {
        after_report(registry, origin->0, facts.status->0)
    } else {
        registry
    }
}

/// The facts after a run: an installed rule is used up.
pub open spec fn facts_after(facts: FactsView, out: Outcome) -> FactsView {
    if out.effect is Install {
        FactsView { new_rule: None, ..facts }
    } else {
        facts
    }
}

/// The rule engine: the essential rules, the user rules and the special
/// actions.
#[derive(Debug)]
pub struct Judge {
    essential: Vec<Rule>,
    users: RuleSet,
    special: Vec<Rule>,
}

impl Judge {
    /// The essential rules, which are tried first.
    pub closed spec fn essential(&self) -> Seq<RuleView> {
        rule_views(self.essential@)
    }

    /// The user rules, which are tried next.
    pub closed spec fn users(&self) -> Seq<RuleView> {
        self.users@
    }

    /// The special actions, which are tried last.
    pub closed spec fn special(&self) -> Seq<RuleView> {
        rule_views(self.special@)
    }

    /// All rules in the order in which they are tried.
    pub open spec fn judged(&self) -> Seq<RuleView> {
        self.essential() + self.users() + self.special()
    }

    /// The place of the first special action.
    pub open spec fn boundary(&self) -> int {
        (self.essential().len() + self.users().len()) as int
    }

    /// A rule engine with the built-in rules, created at the time `now`,
    /// and no user rule.
    pub fn new(now: u64) -> (j: Self)
        ensures
            j.essential() == essential_rule_views(now),
            j.users() == Seq::<RuleView>::empty(),
            j.special() == special_rule_views(now),
    {
        Self { essential: essential_rules(now), users: RuleSet::new(), special: special_rules(now) }
    }

    /// The user rules.
    pub fn rules(&self) -> (r: &RuleSet)
        ensures
            r@ == self.users(),
    {
        &self.users
    }

    /// The user rules, open to change.
    pub fn rules_mut(&mut self) -> (r: &mut RuleSet)
        ensures
            r@ == old(self).users(),
            final(self).users() == final(r)@,
            final(self).essential() == old(self).essential(),
            final(self).special() == old(self).special(),
    {
        &mut self.users
    }

    /// The number of rules, if the machine can count them.
    pub fn len(&self) -> (n: Option<usize>)
        ensures
            match n {
                Some(count) => count == self.judged().len(),
                None => self.judged().len() > usize::MAX,
            },
    {
        let users = self.users.iter_rules();
        match self.essential.len().checked_add(users.len()) {
            Some(some) => some.checked_add(self.special.len()),
            None => None,
        }
    }

    fn total(&self) -> (n: usize)
        requires
            self.judged().len() <= usize::MAX,
        ensures
            n == self.judged().len(),
    {
        self.essential.len() + self.users.iter_rules().len() + self.special.len()
    }

    fn rule_at(&self, p: usize) -> (r: &Rule)
        requires
            p < self.judged().len(),
        ensures
            r@ == self.judged()[p as int],
    {
        let users = self.users.iter_rules();
        if p < self.essential.len() {
            &self.essential[p]
        } else if p - self.essential.len() < users.len() {
            &users[p - self.essential.len()]
        } else {
            &self.special[p - self.essential.len() - users.len()]
        }
    }

    fn is_special(&self, p: usize) -> (s: bool)
        ensures
            s == (p >= self.boundary()),
    {
        let users = self.users.iter_rules();
        p >= self.essential.len() && p - self.essential.len() >= users.len()
    }

    fn decide(&self, intent: &mut Intent, p: usize) -> (r: JudgeResult)
        requires
            p < self.judged().len(),
        ensures
            r@ == hit_result(self.judged()[p as int], p >= self.boundary()),
            final(intent)@ == (IntentView {
                reject_reason: match r@ {
                    JudgeResultView::Reject(reason) => Some(reason),
                    _ => old(intent)@.reject_reason,
                },
                ..old(intent)@
            }),
    {
        if self.is_special(p) {
            JudgeResult::Execution
        } else {
            let error = policy_error(self.rule_at(p));
            intent.set_reject_reason(error.to_text());
            JudgeResult::Reject(error.to_text())
        }
    }

    /// Holds the intent against the rules from place `from` on. The run
    /// ends at the first rule that holds, or that needs an answer from
    /// outside, or behind the last rule. A rule that marks urgency marks the
    /// intent; a rule that turns the intent down leaves its reason in the
    /// intent; a rule update that holds installs the rule of the facts; a
    /// status report that holds is booked in the registry.
    pub fn process(
        &mut self,
        intent: &mut Intent,
        registry: &mut Registry,
        facts: &mut Facts,
        from: usize,
    ) -> (step: JudgeStep)
        requires
            old(self).judged().len() <= usize::MAX,
        ensures
            ({
                let out = run(
                    old(self).judged(),
                    old(self).boundary(),
                    from as int,
                    subject(old(intent)@),
                    old(facts)@,
                    old(intent)@.emergency,
                );
                &&& step@ == out.step
                &&& final(intent)@ == intent_after(old(intent)@, out)
                &&& final(self).essential() == old(self).essential()
                &&& final(self).special() == old(self).special()
                &&& final(self).users() == users_after(old(self).users(), old(facts)@, out)
                &&& final(registry)@ == registry_after(
                    old(registry)@,
                    old(intent)@.resource,
                    old(facts)@,
                    out,
                )
                &&& final(facts)@ == facts_after(old(facts)@, out)
            }),
    {
        let total = self.total();
        let mut p: usize = from;
        let ghost judged = self.judged();
        let ghost boundary = self.boundary();
        let ghost s = subject(intent@);
        let ghost emergency0 = intent@.emergency;
        let ghost facts0 = facts@;
        while p < total
            invariant
                total == judged.len(),
                judged == self.judged(),
                boundary == self.boundary(),
                self.essential() == old(self).essential(),
                self.special() == old(self).special(),
                self.users() == old(self).users(),
                registry@ == old(registry)@,
                facts@ == facts0,
                facts0 == old(facts)@,
                s == subject(old(intent)@),
                judged == old(self).judged(),
                boundary == old(self).boundary(),
                emergency0 == old(intent)@.emergency,
                intent@ == (IntentView { emergency: intent@.emergency, ..old(intent)@ }),
                run(judged, boundary, from as int, s, facts0, emergency0) == run(
                    judged,
                    boundary,
                    p as int,
                    s,
                    facts0,
                    intent@.emergency,
                ),
            decreases total - p,
        {
            let v = rule_judge(intent, self.rule_at(p), facts);
            match v {
                Verdict::Pass => {},
                Verdict::Mark => {
                    intent.set_emergency();
                },
                Verdict::Hit => {
                    return JudgeStep::Done(self.decide(intent, p));
                },
                Verdict::Install => {
                    let result = self.decide(intent, p);
                    match facts.new_rule.take() {
                        Some(rule) => {
                            self.users.add_rule(rule);
                        },
                        None => {},
                    }
                    return JudgeStep::Done(result);
                },
                Verdict::Refresh => {
                    let result = self.decide(intent, p);
                    match facts.status {
                        Some(status) => match intent.get_resource() {
                            Some(origin) => {
                                registry.update_status(origin.as_str(), status);
                            },
                            None => {},
                        },
                        None => {},
                    }
                    return JudgeStep::Done(result);
                },
                Verdict::Ask { system, user } => {
                    return JudgeStep::Ask { at: p, system, user };
                },
                Verdict::Direct { name, command } => {
                    return JudgeStep::Send { at: p, name, command };
                },
            }
            p = p + 1;
        }
        JudgeStep::Done(JudgeResult::Accept)
    }

    /// Goes on after the rule at place `at` was decided outside: `hit`
    /// says whether it holds.
    pub fn resume(
        &mut self,
        intent: &mut Intent,
        registry: &mut Registry,
        facts: &mut Facts,
        at: usize,
        hit: bool,
    ) -> (step: JudgeStep)
        requires
            old(self).judged().len() <= usize::MAX,
        ensures
            ({
                let out = resumed(
                    old(self).judged(),
                    old(self).boundary(),
                    at as int,
                    hit,
                    subject(old(intent)@),
                    old(facts)@,
                    old(intent)@.emergency,
                );
                &&& step@ == out.step
                &&& final(intent)@ == intent_after(old(intent)@, out)
                &&& final(self).essential() == old(self).essential()
                &&& final(self).special() == old(self).special()
                &&& final(self).users() == users_after(old(self).users(), old(facts)@, out)
                &&& final(registry)@ == registry_after(
                    old(registry)@,
                    old(intent)@.resource,
                    old(facts)@,
                    out,
                )
                &&& final(facts)@ == facts_after(old(facts)@, out)
            }),
    {
        let total = self.total();
        if hit && at < total {
            JudgeStep::Done(self.decide(intent, at))
        } else if at < total {
            self.process(intent, registry, facts, at + 1)
        } else {
            JudgeStep::Done(JudgeResult::Accept)
        }
    }
}

} // verus!
