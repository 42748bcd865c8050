//! Disassembly: turning one intent into sub-intents with the reasoner's
//! help.
//!
//! The reasoner is asked for an answer of the form
//! `text:resource/resource;text:resource;`. An answer that fails the
//! format check is handed back with the next request, three requests at
//! most.

use crate::intent::{sub_views, Intent, IntentView, SubIntent, SubIntentView};
use crate::registry::{catalog, Registry};
use crate::text::{lemma_split_is_not_empty, push_text, same_text, split, split_on, texts};
use vstd::prelude::*;

verus! {

/// How many answers are checked before disassembly gives up.
pub const DISASSEMBLE_TRIES: u8 = 3;

/// The answer that says that no resource can serve the intent.
pub const NO_ANSWER: &'static str = "None";

/// What the reasoner is told before it disassembles an intent.
pub const DISASSEMBLE_PROMPT: &'static str =
    "\nThe user will provide description of Intent, last outcome and information about all available resources, Resources will be given in format: `type_name/description/status`.\nAnd your work is to Disassemble the Intent into sub-intents based on available resources, so that they can be solve by different resources parallel.\nHere are some rules you need to know when disassemble intents:\n    1. You must try your best to use resources to finish intents.\n    2. There may be fuzzy intent that even not tell what should do to finish the intent, but you must guess what the intent really want to do by life knowledge, and disassemble it into many excutable sub-intent so that it can be will finish with better experience. \n    3. You must know that not all resource must be used. So in the extreme case, if you judge that no resource can solve this intent, just return 'None'(without anything else);\n    4. Last outcome may be wrong, in error format or there are some hidden disassemble way you do not find(but if you still judge there are no ways to do that you can return None again.).\n    5. If different resources can finish same sub intent, but with different effect, the better way is disassemble it into multiple intent. \nOutcome should be given in format: sub-intent_1:available_device_1/available_device_2/.../available_device_n;sub-intent_2:available_device_1/available_device_2/.../available_device_m;...;sub-intent_n:available_device_1/available_device_2/.../available_device_k;\nYou should not add any blank except the name of resource have one, which means you should not change the resources' name as well.\n\nExample Input1:\nIntent: store my name 'BM' and my birthday '12.01'\nlast outcome: \nresources: 1. MySQL/MySQL can store, organize, and manage data in structured tables./avaiable; 2. MongoDB/MongoDB is a NoSQL database that stores data in flexible, JSON-like documents instead of tables./avaiable; 3. Google Drive/Google Drive is a cloud-based storage service that allows you to store, share, and access files from anywhere./avaiavle;\n \nExample Output1:\nstore name 'BM':MySQL/MongoDB/Google Drive;store birthday '12.01':MongoDB/Google Drive/MySQL;\n\nExample Wrong Ouput1:\nstore name 'BM': MySQL/MongoDB/Google Drive;store birthday '12.01':MongoDB/Google Drive/MySQL;    reason: wrong name, our resource is 'MySQL' not ' MySQL'\n\nExample Wrong Ouput2:\nstore name 'BM': MySQL/MongoDB/Google Drive;store birthday '12.01':MongoDB/Google Drive/MySQL     reason: lack of ';'\n\nExample Input2:\nIntent: Power on my computer\nlast outcome: \nresources: 1. MySQL/MySQL can store, organize, and manage data in structured tables./avaiable; 2. MongoDB/MongoDB is a NoSQL database that stores data in flexible, JSON-like documents instead of tables./avaiable; 3. Google Drive/Google Drive is a cloud-based storage service that allows you to store, share, and access files from anywhere./avaiavle;\n \nExample Output2:\nNone\n\nExample Wrong Ouput3:\nstore name 'BM': MySQL/MongoDB/Google Drive;    reason: no resourc can do that\n\nNone;                                           reason: use some things other than None\n";

/// The pieces of an answer that a `;` closes: all pieces but the last,
/// which is what stands behind the last `;`.
pub open spec fn closed_pieces(rough_intent: Seq<char>) -> Seq<Seq<char>> {
    split_on(rough_intent, ';').drop_last()
}

/// A piece names a sub-intent and its resources when `:` splits it in
/// two and neither part is empty.
pub open spec fn is_named_pair(piece: Seq<char>) -> bool {
    &&& is_pair(piece)
    &&& split_on(piece, ':')[0].len() > 0
    &&& split_on(piece, ':')[1].len() > 0
}

/// An answer passes the format check when it is not the answer `None` and
/// one of its closed pieces names a sub-intent and its resources.
pub open spec fn format_ok(rough_intent: Seq<char>) -> bool {
    &&& rough_intent != NO_ANSWER@
    &&& exists|i: int|
        0 <= i < closed_pieces(rough_intent).len() && is_named_pair(
            #[trigger] closed_pieces(rough_intent)[i],
        )
}

/// An answer that passes the format check gives a sub-intent.
pub proof fn lemma_checked_answer_parses(rough_intent: Seq<char>)
    requires
        format_ok(rough_intent),
    ensures
        parsed(rough_intent).len() > 0,
{
    let pieces = split_on(rough_intent, ';');
    let i = choose|i: int|
        0 <= i < closed_pieces(rough_intent).len() && is_named_pair(
            #[trigger] closed_pieces(rough_intent)[i],
        );
    assert(pieces[i] == closed_pieces(rough_intent)[i]);
    pieces.lemma_filter_contains(|p: Seq<char>| is_pair(p), i);
}

/// The format check of an answer.
pub fn format_check(rough_intent: &str) -> (ok: bool)
    ensures
        ok == format_ok(rough_intent@),
        ok ==> parsed(rough_intent@).len() > 0,
{
    if same_text(rough_intent, NO_ANSWER) {
        return false;
    }
    let pieces = split(rough_intent, ';');
    proof {
        lemma_split_is_not_empty(rough_intent@, ';');
    }
    let closed: usize = pieces.len() - 1;
    let mut i: usize = 0;
    while i < closed
        invariant
            i <= closed,
            closed == pieces.len() - 1,
            rough_intent@ != NO_ANSWER@,
            texts(pieces@) == split_on(rough_intent@, ';'),
            forall|k: int| 0 <= k < i ==> !is_named_pair(#[trigger] closed_pieces(rough_intent@)[k]),
        decreases closed - i,
    {
        let fields = split(pieces[i].as_str(), ':');
        assert(closed_pieces(rough_intent@)[i as int] == pieces@[i as int]@);
        if fields.len() == 2 && !fields[0].as_str().is_empty() && !fields[1].as_str().is_empty() {
            proof {
                assert(texts(fields@)[0] == fields@[0]@);
                assert(texts(fields@)[1] == fields@[1]@);
                assert(is_named_pair(closed_pieces(rough_intent@)[i as int]));
                lemma_checked_answer_parses(rough_intent@);
            }
            return true;
        }
        proof {
            if fields.len() == 2 {
                assert(texts(fields@)[0] == fields@[0]@);
                assert(texts(fields@)[1] == fields@[1]@);
            }
        }
        i = i + 1;
    }
    false
}

/// A piece of an answer is well formed when `:` splits it in two.
pub open spec fn is_pair(piece: Seq<char>) -> bool {
    split_on(piece, ':').len() == 2
}

/// The sub-intent text of a well-formed piece and the resource names
/// listed behind it.
pub open spec fn pair_of(piece: Seq<char>) -> (Seq<char>, Seq<Seq<char>>) {
    (split_on(piece, ':')[0], split_on(split_on(piece, ':')[1], '/'))
}

/// The pairs of the well-formed pieces, in order.
pub open spec fn pairs_of(pieces: Seq<Seq<char>>) -> Seq<(Seq<char>, Seq<Seq<char>>)> {
    pieces.filter(|p: Seq<char>| is_pair(p)).map_values(|p: Seq<char>| pair_of(p))
}

/// What an answer says: its pieces end at each `;`, and every piece that
/// `:` splits in two gives a sub-intent text and its candidates. Other
/// pieces, the empty ones among them, are skipped.
pub open spec fn parsed(rough_intent: Seq<char>) -> Seq<(Seq<char>, Seq<Seq<char>>)> {
    pairs_of(split_on(rough_intent, ';'))
}

/// The sub-intents are fresh ones for the pairs: one for each, in order,
/// with the pair's text and candidates, unassigned, not complete and stamped
/// with the time `now`.
pub open spec fn fresh_for(
    subs: Seq<SubIntentView>,
    pairs: Seq<(Seq<char>, Seq<Seq<char>>)>,
    now: u64,
) -> bool {
    &&& subs.len() == pairs.len()
    &&& forall|i: int|
        0 <= i < subs.len() ==> {
            &&& (#[trigger] subs[i]).description == pairs[i].0
            &&& subs[i].candidates == pairs[i].1
            &&& !subs[i].complete
            &&& subs[i].selected is None
            &&& subs[i].routed == now
        }
}

/// Reads the sub-intents out of an answer.
pub fn parse_rough_intent(rough_intent: String, now: u64) -> (sub_intents: Vec<SubIntent>)
    ensures
        fresh_for(sub_views(sub_intents@), parsed(rough_intent@), now),
{
    let mut sub_intents: Vec<SubIntent> = Vec::new();
    let pieces = split(rough_intent.as_str(), ';');
    let mut i: usize = 0;
    while i < pieces.len()
        invariant
            i <= pieces.len(),
            texts(pieces@) == split_on(rough_intent@, ';'),
            fresh_for(sub_views(sub_intents@), pairs_of(texts(pieces@).take(i as int)), now),
        decreases pieces.len() - i,
    {
        let ghost before = texts(pieces@).take(i as int);
        let ghost piece = pieces@[i as int]@;
        proof {
            assert(texts(pieces@).take(i + 1) =~= before.push(piece));
            before.lemma_filter_push(piece, |p: Seq<char>| is_pair(p));
        }
        let fields = split(pieces[i].as_str(), ':');
        if fields.len() == 2 {
            let name = fields[0].clone();
            let resources = split(fields[1].as_str(), '/');
            let sub = SubIntent::new(name, resources, now);
            assert(sub_views(sub_intents@.push(sub)) =~= sub_views(sub_intents@).push(sub@));
            sub_intents.push(sub);
        }
        i = i + 1;
    }
    assert(texts(pieces@).take(pieces@.len() as int) =~= texts(pieces@));
    sub_intents
}

/// What the reasoner is asked: the intent, the answer that failed last,
/// and the catalog of resources.
pub open spec fn disassemble_request(
    intent: Seq<char>,
    last_outcome: Seq<char>,
    resource_info: Seq<char>,
) -> Seq<char> {
    "Intent: "@ + intent + "\nLast Outcome: "@ + last_outcome + "\nAvailable Resources: "@
        + resource_info
}

/// The progress of one disassembly.
#[derive(Debug)]
pub struct Disassembler {
    tries_left: u8,
    last_outcome: String,
}

/// What a disassembly holds.
pub struct DisassemblerView {
    /// Answers that may still fail the check.
    pub tries_left: u8,
    /// The answer that failed last.
    pub last_outcome: Seq<char>,
}

impl View for Disassembler {
    type V = DisassemblerView;

    closed spec fn view(&self) -> DisassemblerView {
        DisassemblerView { tries_left: self.tries_left, last_outcome: self.last_outcome@ }
    }
}

/// How an answer moved a disassembly on.
#[derive(Clone, Copy, Debug, PartialEq, Eq, Structural)]
pub enum Disassembly {
    /// The answer passed the check and its sub-intents joined the intent.
    Done,
    /// The answer failed the check; the reasoner is to be asked again.
    Retry,
    /// The answer failed the check and no try is left.
    Failed,
}

/// What an answer does to a disassembly: `ok` says whether the answer
/// passed the format check.
pub open spec fn disassembly_step(d: DisassemblerView, answer: Seq<char>, ok: bool) -> (
    DisassemblerView,
    Disassembly,
) {
    if ok {
        (DisassemblerView { last_outcome: answer, ..d }, Disassembly::Done)
    } else if d.tries_left <= 1 {
        (DisassemblerView { tries_left: 0, last_outcome: answer }, Disassembly::Failed)
    } else {
        (
            DisassemblerView { tries_left: (d.tries_left - 1) as u8, last_outcome: answer },
            Disassembly::Retry,
        )
    }
}

/// A disassembly that sees `DISASSEMBLE_TRIES` answers fail the check is
/// told to ask again after each of them but the last, and fails at the last:
/// the reasoner is asked exactly `DISASSEMBLE_TRIES` times.
pub proof fn lemma_retry_bound(start: DisassemblerView, a1: Seq<char>, a2: Seq<char>, a3: Seq<char>)
    requires
        start.tries_left == DISASSEMBLE_TRIES,
    ensures
        disassembly_step(start, a1, false).1 == Disassembly::Retry,
        disassembly_step(disassembly_step(start, a1, false).0, a2, false).1 == Disassembly::Retry,
        disassembly_step(
            disassembly_step(disassembly_step(start, a1, false).0, a2, false).0,
            a3,
            false,
        ).1 == Disassembly::Failed,
{
}

impl Disassembler {
    /// A disassembly that has seen no answer.
    pub fn new() -> (d: Self)
        ensures
            d@ == (DisassemblerView { tries_left: DISASSEMBLE_TRIES, last_outcome: Seq::empty() }),
    {
        Self { tries_left: DISASSEMBLE_TRIES, last_outcome: String::new() }
    }

    /// Answers that may still fail the check.
    pub fn tries_left(&self) -> (n: u8)
        ensures
            n == self@.tries_left,
    {
        self.tries_left
    }

    /// What the reasoner is asked next about the intent described by
    /// `intent`.
    pub fn disassemble_intent(&self, intent: &str, registry: &Registry) -> (u_prompt: String)
        ensures
            u_prompt@ == disassemble_request(intent@, self@.last_outcome, catalog(registry@)),
    {
        let resource_info = registry.get_all_resource_info();
        let mut u_prompt = "Intent: ".to_owned();
        push_text(&mut u_prompt, intent);
        push_text(&mut u_prompt, "\nLast Outcome: ");
        push_text(&mut u_prompt, self.last_outcome.as_str());
        push_text(&mut u_prompt, "\nAvailable Resources: ");
        push_text(&mut u_prompt, resource_info.as_str());
        u_prompt
    }

    /// Takes an answer whose format check ended in `ok`: a good answer's
    /// sub-intents join the intent, a bad one costs a try.
    pub fn settle(&mut self, intent: &mut Intent, answer: String, ok: bool, now: u64) -> (outcome:
        Disassembly)
        ensures
            final(self)@ == disassembly_step(old(self)@, answer@, ok).0,
            outcome == disassembly_step(old(self)@, answer@, ok).1,
            !ok ==> final(intent)@ == old(intent)@,
            ok ==> final(intent)@.sub_intents.len() == old(intent)@.sub_intents.len() + parsed(
                answer@,
            ).len(),
            ok ==> final(intent)@ == (IntentView {
                sub_intents: final(intent)@.sub_intents,
                ..old(intent)@
            }),
            ok ==> final(intent)@.sub_intents.subrange(0, old(intent)@.sub_intents.len() as int)
                == old(intent)@.sub_intents,
            ok ==> fresh_for(
                final(intent)@.sub_intents.subrange(
                    old(intent)@.sub_intents.len() as int,
                    final(intent)@.sub_intents.len() as int,
                ),
                parsed(answer@),
                now,
            ),
    {
        self.last_outcome = answer.clone();
        if ok {
            let sub_intents = parse_rough_intent(answer, now);
            intent.add_sub_intent(sub_intents);
            Disassembly::Done
        } else if self.tries_left <= 1 {
            self.tries_left = 0;
            Disassembly::Failed
        } else {
            self.tries_left = self.tries_left - 1;
            Disassembly::Retry
        }
    }

    /// Takes the reasoner's answer: checks its format and settles it. An
    /// answer that passes gives the intent one sub-intent at least.
    pub fn accept(&mut self, intent: &mut Intent, answer: String, now: u64) -> (outcome:
        Disassembly)
        ensures
            ({
                let ok = format_ok(answer@);
                &&& ok ==> final(intent)@.sub_intents.len() > old(intent)@.sub_intents.len()
                &&& final(self)@ == disassembly_step(old(self)@, answer@, ok).0
                &&& outcome == disassembly_step(old(self)@, answer@, ok).1
                &&& !ok ==> final(intent)@ == old(intent)@
                &&& ok ==> final(intent)@ == (IntentView {
                    sub_intents: final(intent)@.sub_intents,
                    ..old(intent)@
                })
                &&& ok ==> final(intent)@.sub_intents.len() == old(intent)@.sub_intents.len()
                    + parsed(answer@).len()
                &&& ok ==> final(intent)@.sub_intents.subrange(
                    0,
                    old(intent)@.sub_intents.len() as int,
                ) == old(intent)@.sub_intents
                &&& ok ==> fresh_for(
                    final(intent)@.sub_intents.subrange(
                        old(intent)@.sub_intents.len() as int,
                        final(intent)@.sub_intents.len() as int,
                    ),
                    parsed(answer@),
                    now,
                )
            }),
    {
        let ok = format_check(answer.as_str());
        self.settle(intent, answer, ok, now)
    }
}

} // verus!
