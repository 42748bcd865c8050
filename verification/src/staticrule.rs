//! The rules that are built in: the essential rules, which every intent is
//! held against first, and the special actions, which are tried last.

use crate::intent::{Intent, IntentType, IntentView};
use crate::rule::{EssentialFunction, Rule, RuleDetail, RuleDetailView, RuleView};
use crate::text::{contains, is_substring, same_text, split_once, split_once_on};
use vstd::prelude::*;

verus! {

/// What the reasoner holds an intent against to find a risk.
pub const RISK_PROMPT: &'static str =
    "\n    This intent will do harm to systems or humans. For example, it will break some rule or its side effect will cause a disaster";

/// What the reasoner holds an intent against to find a missing privilege.
pub const PRIVILEGE_PROMPT: &'static str =
    "\n    check if the intent below have privilege to execute.\n    if yes return true, else return false.\n    intent: ";

/// The word that marks an intent as urgent.
pub const EMERGENCY_MARKER: &'static str = "emergency";

/// The first field of an intent that asks to be sent on as it is.
pub const DIRECT_MARKER: &'static str = "trick";

/// Built-in rules from this identifier on are special actions.
pub const SPECIAL_ID: i64 = 500;

/// Whether the intent is itself a rejection.
pub fn reject(intent: &mut Intent) -> (hit: bool)
    ensures
        hit == (old(intent)@.itype == IntentType::Reject),
        final(intent)@ == old(intent)@,
{
    match intent.get_intent_type() {
        IntentType::Reject => true,
        _ => false,
    }
}

/// The text names an emergency.
pub open spec fn is_urgent(description: Seq<char>) -> bool {
    is_substring(EMERGENCY_MARKER@, description)
}

/// Marks the intent as urgent when its text names an emergency. Never
/// holds.
pub fn emergency(intent: &mut Intent) -> (hit: bool)
    ensures
        !hit,
        final(intent)@ == (IntentView {
            emergency: old(intent)@.emergency || is_urgent(old(intent)@.description),
            ..old(intent)@
        }),
{
    if contains(intent.get_description(), EMERGENCY_MARKER) {
        intent.set_emergency();
    }
    false
}

/// The resource and the command of an intent that asks to be sent on as
/// it is: the text reads `trick`, `:`, the name, `:`, the command.
pub open spec fn direct_target(description: Seq<char>) -> Option<(Seq<char>, Seq<char>)> {
    match split_once_on(description, ':') {
        Some(outer) => match split_once_on(outer.1, ':') {
            Some(inner) => if outer.0 == DIRECT_MARKER@ {
                Some(inner)
            } else {
                None
            },
            None => None,
        },
        None => None,
    }
}

/// Reads the resource and the command of an intent that asks to be sent
/// on as it is.
pub fn parse_direct(description: &str) -> (target: Option<(String, String)>)
    ensures
        match target {
            Some(t) => direct_target(description@) == Some((t.0@, t.1@)),
            None => direct_target(description@) is None,
        },
{
    match split_once(description, ':') {
        Some(outer) => match split_once(outer.1.as_str(), ':') {
            Some(inner) => if same_text(outer.0.as_str(), DIRECT_MARKER) {
                Some(inner)
            } else {
                None
            },
            None => None,
        },
        None => None,
    }
}

/// A built-in rule: it is valid for no time at all and never expires.
pub open spec fn built_in(id: i64, name: Seq<char>, description: Seq<char>, detail: RuleDetailView, now: u64)
    -> RuleView {
    RuleView { id, name, description, detail, valid_time: 0, created_time: now }
}

/// The essential rules, in the order in which they are tried.
pub open spec fn essential_rule_views(now: u64) -> Seq<RuleView> {
    seq![
        built_in(0, "risk"@, "risk"@, RuleDetailView::Prompt(RISK_PROMPT@), now),
        built_in(
            2,
            "emergency"@,
            "emergency"@,
            RuleDetailView::Function(EssentialFunction::Emergency),
            now,
        ),
    ]
}

/// The special actions, in the order in which they are tried.
pub open spec fn special_rule_views(now: u64) -> Seq<RuleView> {
    seq![
        built_in(
            500,
            "reject"@,
            "reject"@,
            RuleDetailView::Function(EssentialFunction::Reject),
            now,
        ),
        built_in(501, "rule"@, "set new rule"@, RuleDetailView::AsyncF("rule"@), now),
        built_in(502, "status"@, "refresh status"@, RuleDetailView::AsyncF("status"@), now),
        built_in(
            502,
            "direct"@,
            "send directly to resource"@,
            RuleDetailView::AsyncF("direct"@),
            now,
        ),
    ]
}

fn make(id: i64, name: &str, description: &str, detail: RuleDetail, now: u64) -> (r: Rule)
    ensures
        r@ == built_in(id, name@, description@, detail@, now),
{
    Rule::with_id(id, name.to_owned(), description.to_owned(), detail, 0, now)
}

/// The essential rules, created at the time `now`.
pub fn essential_rules(now: u64) -> (rules: Vec<Rule>)
    ensures
        crate::rule::rule_views(rules@) == essential_rule_views(now),
{
    let mut rules: Vec<Rule> = Vec::new();
    rules.push(make(0, "risk", "risk", RuleDetail::Prompt(RISK_PROMPT.to_owned()), now));
    rules.push(
        make(2, "emergency", "emergency", RuleDetail::Function(EssentialFunction::Emergency), now),
    );
    rules
}

/// The special actions, created at the time `now`.
pub fn special_rules(now: u64) -> (rules: Vec<Rule>)
    ensures
        crate::rule::rule_views(rules@) == special_rule_views(now),
{
    let mut rules: Vec<Rule> = Vec::new();
    rules.push(make(500, "reject", "reject", RuleDetail::Function(EssentialFunction::Reject), now));
    rules.push(make(501, "rule", "set new rule", RuleDetail::AsyncF("rule".to_owned()), now));
    rules.push(
        make(502, "status", "refresh status", RuleDetail::AsyncF("status".to_owned()), now),
    );
    rules.push(
        make(
            502,
            "direct",
            "send directly to resource",
            RuleDetail::AsyncF("direct".to_owned()),
            now,
        ),
    );
    rules
}

/// Every built-in rule is essential, so none of them ever expires; the
/// essential rules lie below `SPECIAL_ID` and the special actions do not.
pub proof fn lemma_built_in_rules(now: u64, at: u64)
    ensures
        forall|i: int|
            0 <= i < essential_rule_views(now).len() ==> {
                &&& !(#[trigger] essential_rule_views(now)[i]).expired(at)
                &&& essential_rule_views(now)[i].id < SPECIAL_ID
            },
        forall|i: int|
            0 <= i < special_rule_views(now).len() ==> {
                &&& !(#[trigger] special_rule_views(now)[i]).expired(at)
                &&& special_rule_views(now)[i].id >= SPECIAL_ID
            },
{
}

} // verus!
