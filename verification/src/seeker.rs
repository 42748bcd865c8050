//! The hub's side of the protocol: what the hub does with each message
//! from a resource, and what it sends to whom.

use crate::intent::{Intent, IntentSource, IntentType, IntentView};
use crate::message::{command_line, to_command_line, Message, MessageType, MessageView};
use crate::monitor::{completed, refused, IntentQueue, SweepAction};
use crate::preprocess::{format_reject, reject_text, Judge, JudgeResult, JudgeResultView};
use crate::registry::{find, find_address, Registration, Registry};
use crate::resource::{
    AddressView, Interpreter, InterpreterView, Resource, ResourceAddress, ResourceView,
};
use crate::monitor::{action_views, reject_action, send_actions, SweepActionView};
use crate::registry::after_answered;
use crate::router::{dispatched, may_retry, order_views, router, RouteOrder, RETRY_COUNT};
use crate::text::{push_text, same_text};
use vstd::prelude::*;

verus! {

/// The answer to an intent from an address that no resource registered.
pub const REGISTER_FIRST: &'static str = "Register First";

/// The answer to a completion report.
pub const SUCCESS: &'static str = "Success";

/// The body of the last completion report of a resource.
pub const EXECUTE_OVER: &'static str = "Execute Over";

/// The answer to the last completion report of a resource.
pub const FINISH_RECEIVED: &'static str = "Finish Received";

/// The body that tells the origin of an intent that the intent is done.
pub const FINISH: &'static str = "Finish";

/// The name that stands for the hub that this one is attached to.
pub const TAPE_NAME: &'static str = "TAPE";

/// The identifier under which a completion report without one is booked.
pub const NO_ID: i64 = 0;

/// What the reasoner is told before it chooses a command for a resource.
pub const INTERPRET_PROMPT: &'static str =
    "We'll give you some command with description in format: 'command_1:description;command_2:description;...;command_n:description'.\nAnd you need to choose one command base on the intent given by user to return. Remember, only choose one command and do not return anything others;\n\nExample Intent:\nI'll go into bedroom;\n\nExample Command:\nopen:open the door of bedroom;close:close the door of bedroom;\n\nExample Output:\nopen\n\nWrong Output:\nopen;       reason: ';' is not need.\nopen close  reason: two command is give, we only need one.\n\n\nThe target commands are '";

/// What the reasoner is told before it chooses among `commands`.
pub open spec fn interpret_system_prompt(commands: Seq<char>) -> Seq<char> {
    INTERPRET_PROMPT@ + commands + "'."@
}

/// What the reasoner is asked when it chooses a command for `intent`.
pub open spec fn interpret_user_prompt(intent: Seq<char>) -> Seq<char> {
    "intent: "@ + intent
}

/// How a text reaches a resource.
#[derive(Debug)]
pub enum Delivery {
    /// Nothing can be sent: there is no such resource, or the resource runs
    /// commands and there is no identifier to send along.
    Nothing,
    /// The message goes out in its structured form.
    Structured { address: ResourceAddress, message: Message },
    /// This line goes out as it is.
    Plain { address: ResourceAddress, text: String },
    /// The reasoner chooses a command, which goes out with the identifier
    /// as a command line.
    Interpret { address: ResourceAddress, system: String, user: String, id: i64 },
}

/// What a delivery holds.
pub enum DeliveryView {
    Nothing,
    Structured { address: AddressView, message: MessageView },
    Plain { address: AddressView, text: Seq<char> },
    Interpret { address: AddressView, system: Seq<char>, user: Seq<char>, id: i64 },
}

impl View for Delivery {
    type V = DeliveryView;

    open spec fn view(&self) -> DeliveryView {
        match self {
            Delivery::Nothing => DeliveryView::Nothing,
            Delivery::Structured { address, message } => DeliveryView::Structured {
                address: address@,
                message: message@,
            },
            Delivery::Plain { address, text } => DeliveryView::Plain {
                address: address@,
                text: text@,
            },
            Delivery::Interpret { address, system, user, id } => DeliveryView::Interpret {
                address: address@,
                system: system@,
                user: user@,
                id: *id,
            },
        }
    }
}

/// How a message reaches the resource `r`. A resource that reads intents
/// as they are gets the structured message. A resource on the network that
/// runs commands gets a message with an identifier as a command line, with
/// a command that the reasoner chooses where the resource has the reasoner
/// interpret and the empty command where not. In every other case a
/// resource that runs commands gets the message in plain text. There is
/// always something to send.
pub open spec fn delivery_to(r: ResourceView, m: MessageView) -> DeliveryView {
    if r.interpreter is Absent {
        DeliveryView::Structured { address: r.address, message: m }
    } else if r.address is Internet && m.id is Some {
        match r.interpreter {
            InterpreterView::LLM(commands) => DeliveryView::Interpret {
                address: r.address,
                system: interpret_system_prompt(commands),
                user: interpret_user_prompt(m.body),
                id: m.id->0,
            },
            _ => DeliveryView::Plain {
                address: r.address,
                text: command_line(Seq::empty(), m.id->0),
            },
        }
    } else {
        DeliveryView::Plain { address: r.address, text: crate::message::plain_text(m) }
    }
}

/// How a notice reaches the resource named `name`: as the structured
/// message, whatever the resource does with intents.
pub open spec fn notice_of(reg: Seq<ResourceView>, name: Seq<char>, m: MessageView)
    -> DeliveryView {
    match find(reg, name) {
        Some(i) => DeliveryView::Structured { address: reg[i].address, message: m },
        None => DeliveryView::Nothing,
    }
}

/// How a message for the resource named `name` reaches the hub that this
/// one is attached to: only the name `TAPE` stands for that hub.
pub open spec fn upward_delivery(tape: Option<ResourceView>, name: Seq<char>, m: MessageView)
    -> DeliveryView {
    match tape {
        Some(t) => if name == TAPE_NAME@ {
            delivery_to(t, m)
        } else {
            DeliveryView::Nothing
        },
        None => DeliveryView::Nothing,
    }
}

/// How a message reaches the resource named `name`.
pub open spec fn delivery_of(reg: Seq<ResourceView>, name: Seq<char>, m: MessageView)
    -> DeliveryView {
    match find(reg, name) {
        Some(i) => delivery_to(reg[i], m),
        None => DeliveryView::Nothing,
    }
}

fn copy_address(address: &ResourceAddress) -> (copy: ResourceAddress)
    ensures
        copy@ == address@,
{
    match address {
        ResourceAddress::Bluetooth(a) => ResourceAddress::Bluetooth(a.clone()),
        ResourceAddress::Wifi(a) => ResourceAddress::Wifi(a.clone()),
        ResourceAddress::Internet(a) => ResourceAddress::Internet(a.clone()),
    }
}

/// Works out how a message reaches a resource.
pub fn deliver_to(resource: &Resource, message: Message) -> (d: Delivery)
    ensures
        d@ == delivery_to(resource@, message@),
        !(d@ is Nothing),
{
    let address = copy_address(resource.get_address());
    if resource.is_interpreter_none() {
        return Delivery::Structured { address, message };
    }
    let internet = match resource.get_address() {
        ResourceAddress::Internet(_) => true,
        _ => false,
    };
    let id = match message.get_id() {
        Some(id) => if internet {
            id
        } else {
            return Delivery::Plain { address, text: message.to_plain_text() };
        },
        None => {
            return Delivery::Plain { address, text: message.to_plain_text() };
        },
    };
    match resource.get_interpreter() {
        Interpreter::LLM(commands) => {
            let mut system = INTERPRET_PROMPT.to_owned();
            push_text(&mut system, commands.as_str());
            push_text(&mut system, "'.");
            let mut user = "intent: ".to_owned();
            let body = message.get_body();
            push_text(&mut user, body.as_str());
            Delivery::Interpret { address, system, user, id }
        },
        _ => {
            proof {
                reveal_strlit("");
            }
            Delivery::Plain { address, text: to_command_line("", id) }
        },
    }
}

/// Works out how a message reaches the resource named `name`. There is
/// something to send to every registered resource.
pub fn deliver(registry: &Registry, name: &str, message: Message) -> (d: Delivery)
    ensures
        d@ == delivery_of(registry@, name@, message@),
        d@ is Nothing <==> find(registry@, name@) is None,
{
    match registry.lookup(name) {
        Some(resource) => deliver_to(resource, message),
        None => Delivery::Nothing,
    }
}

/// Works out how a notice reaches the resource named `name`: a notice
/// goes out in its structured form, whatever the resource does with
/// intents.
pub fn notify(registry: &Registry, name: &str, message: Message) -> (d: Delivery)
    ensures
        d@ == notice_of(registry@, name@, message@),
{
    match registry.lookup(name) {
        Some(resource) => Delivery::Structured {
            address: copy_address(resource.get_address()),
            message,
        },
        None => Delivery::Nothing,
    }
}

/// Works out how a message for the resource named `name` reaches the hub
/// that this one is attached to, if it is attached to one.
pub fn deliver_upward(tape: Option<&Resource>, name: &str, message: Message) -> (d: Delivery)
    ensures
        d@ == upward_delivery(opt_resource(tape), name@, message@),
{
    match tape {
        Some(t) => if same_text(name, TAPE_NAME) {
            deliver_to(t, message)
        } else {
            Delivery::Nothing
        },
        None => Delivery::Nothing,
    }
}

/// The view of an optional resource.
pub open spec fn opt_resource(r: Option<&Resource>) -> Option<ResourceView> {
    match r {
        Some(t) => Some(t@),
        None => None,
    }
}

/// How a sub-intent reaches the resource named `resource_name`: as an
/// `Intent` message under the sub-intent's identifier. The first delivery
/// goes to the registered resource of that name; the second goes to the hub
/// that this one is attached to, where the name stands for it.
pub fn send_intent(
    registry: &Registry,
    tape: Option<&Resource>,
    resource_name: &str,
    intent: &str,
    id: i64,
) -> (d: (Delivery, Delivery))
    ensures
        ({
            let m = MessageView { kind: MessageType::Intent, body: intent@, id: Some(id) };
            &&& d.0@ == delivery_of(registry@, resource_name@, m)
            &&& d.1@ == upward_delivery(opt_resource(tape), resource_name@, m)
        }),
        d.0@ is Nothing <==> find(registry@, resource_name@) is None,
{
    (
        deliver(
            registry,
            resource_name,
            Message::new(MessageType::Intent, intent.to_owned(), Some(id)),
        ),
        deliver_upward(
            tape,
            resource_name,
            Message::new(MessageType::Intent, intent.to_owned(), Some(id)),
        ),
    )
}

/// How a rejection reaches the resource named `resource_name`: as a
/// `Reject` message without an identifier. The first delivery goes to the
/// registered resource of that name, and there is one for every registered
/// resource; the second goes to the hub that this one is attached to, where
/// the name stands for it.
pub fn reject_intent(registry: &Registry, tape: Option<&Resource>, resource_name: &str, intent: &str)
    -> (d: (Delivery, Delivery))
    ensures
        ({
            let m = MessageView { kind: MessageType::Reject, body: intent@, id: None };
            &&& d.0@ == delivery_of(registry@, resource_name@, m)
            &&& d.1@ == upward_delivery(opt_resource(tape), resource_name@, m)
        }),
        d.0@ is Nothing <==> find(registry@, resource_name@) is None,
{
    (
        deliver(registry, resource_name, Message::new(MessageType::Reject, intent.to_owned(), None)),
        deliver_upward(
            tape,
            resource_name,
            Message::new(MessageType::Reject, intent.to_owned(), None),
        ),
    )
}

/// The message that asks a resource for a sign of life.
pub fn heartbeat_message() -> (m: Message)
    ensures
        m@ == (MessageView { kind: MessageType::Heartbeat, body: Seq::empty(), id: None }),
{
    Message::new(MessageType::Heartbeat, String::new(), None)
}

/// The message that asks a resource for its status.
pub fn status_message() -> (m: Message)
    ensures
        m@ == (MessageView { kind: MessageType::Status, body: Seq::empty(), id: None }),
{
    Message::new(MessageType::Status, String::new(), None)
}

/// The hub: the registry, the rule engine and the intents in flight.
#[derive(Debug)]
pub struct Orchestrator {
    pub registry: Registry,
    pub judge: Judge,
    pub queue: IntentQueue,
}

/// What is left to do for an intent after its admission.
#[derive(Debug)]
pub enum Admission {
    /// The intent is admitted: it is to be disassembled.
    Disassemble(Intent),
    /// The way of the intent ends here, and this is left to do.
    Stopped(Vec<SweepAction>),
}

/// What an admission holds.
pub enum AdmissionView {
    Disassemble(IntentView),
    Stopped(Seq<SweepActionView>),
}

impl View for Admission {
    type V = AdmissionView;

    open spec fn view(&self) -> AdmissionView {
        match self {
            Admission::Disassemble(i) => AdmissionView::Disassemble(i@),
            Admission::Stopped(actions) => AdmissionView::Stopped(action_views(actions@)),
        }
    }
}

/// What is left to do for an intent after the rule engine has decided. An
/// accepted intent goes on to disassembly. A special action has done all
/// there is to do. A rejected intent goes no further, and its origin is to
/// be told which intent was turned down and why.
pub open spec fn admission(intent: IntentView, result: JudgeResultView) -> AdmissionView {
    match result {
        JudgeResultView::Accept => AdmissionView::Disassemble(intent),
        JudgeResultView::Execution => AdmissionView::Stopped(Seq::empty()),
        JudgeResultView::Reject(reason) => AdmissionView::Stopped(
            seq![
                SweepActionView::Reject {
                    origin: intent.resource,
                    description: reject_text(intent.description, reason),
                    id: intent.id,
                },
            ],
        ),
    }
}

/// Says what is left to do for an intent after the rule engine has
/// decided. Nothing is routed and nothing is queued here.
pub fn after_admission(intent: Intent, result: &JudgeResult) -> (a: Admission)
    ensures
        a@ == admission(intent@, result@),
{
    match result {
        JudgeResult::Accept => Admission::Disassemble(intent),
        JudgeResult::Execution => {
            let actions: Vec<SweepAction> = Vec::new();
            assert(action_views(actions@) =~= Seq::<SweepActionView>::empty());
            Admission::Stopped(actions)
        },
        JudgeResult::Reject(reason) => {
            let origin = match intent.get_resource() {
                Some(name) => Some(name.clone()),
                None => None,
            };
            let action = SweepAction::Reject {
                origin,
                description: format_reject(intent.get_description(), reason.as_str()),
                id: intent.get_id(),
            };
            let mut actions: Vec<SweepAction> = Vec::new();
            actions.push(action);
            assert(action_views(actions@) =~= seq![action@]);
            Admission::Stopped(actions)
        },
    }
}

/// What the hub is to do after a message.
#[derive(Debug)]
pub enum HubStep {
    /// Run this new intent through admission.
    Admit(Intent),
    /// Send this answer back.
    Reply(Message),
    /// Send this answer back, and tell the origin of the intent that the
    /// report finished.
    Completed { reply: Message, finished: Option<Intent> },
    /// Send a sub-intent on, or tell an origin that its intent is turned down.
    Act(SweepAction),
    Nothing,
}

/// The catalog after a message came from `src`: the resource at that
/// address is under no suspicion.
pub open spec fn heard(reg: Seq<ResourceView>, src: Seq<char>) -> Seq<ResourceView> {
    match find_address(reg, src) {
        Some(i) => after_answered(reg, reg[i].name),
        None => reg,
    }
}

/// The answer to a completion report with the body `body`.
pub open spec fn completion_reply(body: Seq<char>) -> MessageView {
    MessageView {
        kind: MessageType::Response,
        body: if body == EXECUTE_OVER@ {
            FINISH_RECEIVED@
        } else {
            SUCCESS@
        },
        id: None,
    }
}

/// The identifier that a completion report speaks of.
pub open spec fn reported_id(id: Option<i64>) -> i64 {
    match id {
        Some(i) => i,
        None => NO_ID,
    }
}

impl Orchestrator {
    /// A hub without resources, without user rules and without intents in
    /// flight, with the built-in rules created at the time `now`.
    pub fn new(now: u64) -> (o: Self)
        ensures
            o.registry@ == Seq::<ResourceView>::empty(),
            o.queue@ == Seq::<IntentView>::empty(),
            o.judge.users() == Seq::<crate::rule::RuleView>::empty(),
            o.judge.essential() == crate::staticrule::essential_rule_views(now),
            o.judge.special() == crate::staticrule::special_rule_views(now),
    {
        Self { registry: Registry::new(), judge: Judge::new(now), queue: IntentQueue::new() }
    }

    /// Takes an `Intent` message that came from `src`. From the address of
    /// a registered resource it gives the new intent, raised by that
    /// resource and carrying the message's identifier if it has one. From
    /// any other address it gives the answer that asks to register first.
    pub fn on_intent(&self, m: &Message, src: &str) -> (r: Result<Intent, Message>)
        ensures
            match r {
                Ok(intent) => {
                    &&& find_address(self.registry@, src@) is Some
                    &&& intent@.resource == Some(
                        self.registry@[find_address(self.registry@, src@)->0].name,
                    )
                    &&& intent@.description == m@.body
                    &&& intent@.source == IntentSource::Resource
                    &&& intent@.itype == IntentType::Intent
                    &&& intent@.sub_intents.len() == 0
                    &&& !intent@.emergency
                    &&& !intent@.finished
                    &&& intent@.reject_reason is None
                    &&& m@.id is Some ==> intent@.id == m@.id->0
                },
                Err(reply) => {
                    &&& find_address(self.registry@, src@) is None
                    &&& reply@ == (MessageView {
                        kind: MessageType::Response,
                        body: REGISTER_FIRST@,
                        id: m@.id,
                    })
                },
            },
    {
        match self.registry.find_resource_by_addr(src) {
            Some(name) => {
                let mut intent = Intent::new(
                    m.get_body(),
                    IntentSource::Resource,
                    IntentType::Intent,
                    Some(name),
                );
                match m.get_id() {
                    Some(id) => {
                        intent.set_id(id);
                    },
                    None => {},
                }
                Ok(intent)
            },
            None => Err(
                Message::new(MessageType::Response, REGISTER_FIRST.to_owned(), m.get_id()),
            ),
        }
    }

    /// Takes a registration and gives the answer: the resource joins
    /// the registry unless its name is taken.
    pub fn on_register(&mut self, resource: Resource) -> (reply: Message)
        ensures
            final(self).judge == old(self).judge,
            final(self).queue == old(self).queue,
            find(old(self).registry@, resource@.name) is Some ==> final(self).registry@ == old(
                self,
            ).registry@ && reply@ == (MessageView {
                kind: MessageType::Response,
                body: Registration::Duplicate.reply(),
                id: None,
            }),
            find(old(self).registry@, resource@.name) is None ==> final(self).registry@ == old(
                self,
            ).registry@.push(resource@) && reply@ == (MessageView {
                kind: MessageType::Response,
                body: Registration::Registered.reply(),
                id: None,
            }),
    {
        let outcome = self.registry.register(resource);
        Message::new(MessageType::Response, outcome.reply_text().to_owned(), None)
    }

    /// Takes a completion report: the sub-intent it speaks of is marked
    /// complete. Gives the answer to the report, and the intent that the
    /// report finished.
    pub fn on_response(&mut self, m: &Message) -> (r: (Message, Option<Intent>))
        ensures
            final(self).judge == old(self).judge,
            ({
                let c = completed(old(self).queue@, old(self).registry@, reported_id(m@.id));
                &&& final(self).queue@ == c.queue
                &&& final(self).registry@ == c.registry
                &&& match r.1 {
                    Some(intent) => c.finished == Some(intent@),
                    None => c.finished is None,
                }
            }),
            r.0@ == completion_reply(m@.body),
    {
        let id = match m.get_id() {
            Some(id) => id,
            None => NO_ID,
        };
        let finished = self.queue.mark_complete(id, &mut self.registry);
        let body = m.get_body();
        let reply = if same_text(body.as_str(), EXECUTE_OVER) {
            FINISH_RECEIVED
        } else {
            SUCCESS
        };
        (Message::new(MessageType::Response, reply.to_owned(), None), finished)
    }

    /// Takes a `Reject` message: the sub-intent it names is routed anew,
    /// or its intent is turned down. A message without an identifier
    /// names no sub-intent.
    pub fn on_reject(&mut self, m: &Message, now: u64) -> (action: Option<SweepAction>)
        ensures
            final(self).judge == old(self).judge,
            match m@.id {
                Some(id) => {
                    let r = refused(old(self).queue@, old(self).registry@, id, now);
                    &&& final(self).queue@ == r.queue
                    &&& final(self).registry@ == r.registry
                    &&& match action {
                        Some(a) => r.action == Some(a@),
                        None => r.action is None,
                    }
                },
                None => {
                    &&& final(self).queue@ == old(self).queue@
                    &&& final(self).registry@ == old(self).registry@
                    &&& action is None
                },
            },
    {
        match m.get_id() {
            Some(id) => self.queue.on_reject(id, &mut self.registry, now),
            None => None,
        }
    }

    /// Routes the sub-intents of an admitted intent and puts the intent in
    /// the queue. Returns what is to be sent.
    pub fn dispatch(&mut self, intent: Intent, now: u64) -> (orders: Vec<RouteOrder>)
        ensures
            final(self).judge == old(self).judge,
            ({
                let d = dispatched(
                    intent@.sub_intents,
                    old(self).registry@,
                    intent@.emergency,
                    now,
                    intent@.sub_intents.len() as int,
                );
                &&& final(self).registry@ == d.registry
                &&& order_views(orders@) == d.orders
                &&& final(self).queue@ == old(self).queue@.push(
                    IntentView { sub_intents: d.subs, ..intent@ },
                )
            }),
    {
        let mut intent = intent;
        let orders = router(&mut intent, &mut self.registry, now);
        self.queue.enqueue(intent);
        orders
    }

    /// Ends the way of an admitted intent through the hub. An intent that
    /// was disassembled is routed and put in the queue, and what is to be
    /// sent comes back. An intent whose disassembly failed, and that the
    /// caller could not execute itself either, is turned down: it is not
    /// queued and its origin is to be told.
    pub fn conclude(&mut self, intent: Intent, disassembled: bool, now: u64) -> (actions: Vec<
        SweepAction,
    >)
        ensures
            final(self).judge == old(self).judge,
            disassembled ==> ({
                let d = dispatched(
                    intent@.sub_intents,
                    old(self).registry@,
                    intent@.emergency,
                    now,
                    intent@.sub_intents.len() as int,
                );
                &&& final(self).registry@ == d.registry
                &&& action_views(actions@) == send_actions(d.orders)
                &&& final(self).queue@ == old(self).queue@.push(
                    IntentView { sub_intents: d.subs, ..intent@ },
                )
            }),
            !disassembled ==> {
                &&& final(self).registry@ == old(self).registry@
                &&& final(self).queue@ == old(self).queue@
                &&& action_views(actions@) == seq![reject_action(intent@)]
            },
    {
        let mut actions: Vec<SweepAction> = Vec::new();
        if disassembled {
            let mut orders = self.dispatch(intent, now);
            let ghost wanted = send_actions(order_views(orders@));
            while orders.len() > 0
                invariant
                    action_views(actions@) + send_actions(order_views(orders@)) == wanted,
                decreases orders.len(),
            {
                let order = orders.remove(0);
                actions.push(SweepAction::Send(order));
            }
        } else {
            let origin = match intent.get_resource() {
                Some(name) => Some(name.clone()),
                None => None,
            };
            let action = SweepAction::Reject {
                origin,
                description: intent.get_description().to_owned(),
                id: intent.get_id(),
            };
            actions.push(action);
        }
        actions
    }

    /// Takes the news that the sub-intent with the identifier `id` could
    /// not be sent, after `attempts` routings. While the router allows
    /// another try the sub-intent is routed anew, or its intent is turned
    /// down for want of a candidate; after that it is given up and nothing
    /// changes.
    pub fn on_send_failed(&mut self, id: i64, attempts: u32, now: u64) -> (action: Option<
        SweepAction,
    >)
        ensures
            final(self).judge == old(self).judge,
            attempts < RETRY_COUNT ==> ({
                let r = refused(old(self).queue@, old(self).registry@, id, now);
                &&& final(self).queue@ == r.queue
                &&& final(self).registry@ == r.registry
                &&& match action {
                    Some(a) => r.action == Some(a@),
                    None => r.action is None,
                }
            }),
            attempts >= RETRY_COUNT ==> {
                &&& final(self).queue@ == old(self).queue@
                &&& final(self).registry@ == old(self).registry@
                &&& action is None
            },
    {
        if may_retry(attempts) {
            self.queue.on_reject(id, &mut self.registry, now)
        } else {
            None
        }
    }

    /// Takes note that a message came from `src`: whatever it says, the
    /// resource at that address is alive.
    pub fn heard_from(&mut self, src: &str)
        ensures
            final(self).judge == old(self).judge,
            final(self).queue == old(self).queue,
            final(self).registry@ == heard(old(self).registry@, src@),
    {
        match self.registry.find_resource_by_addr(src) {
            Some(name) => {
                self.registry.heartbeat_answered(name.as_str());
            },
            None => {},
        }
    }

    /// Takes a message that came from `src` and says what to do. Whatever
    /// the message says, its sender is alive. An `Intent` from a registered
    /// resource is to be admitted, from anyone else it is answered with the
    /// call to register first. A `Register` whose body read as the resource
    /// `announced` is answered with the outcome of the registration. A
    /// `Response` completes the sub-intent it names and is answered. A
    /// `Reject` has the sub-intent it names routed anew. Any other message,
    /// and a `Register` that did not read as a resource, changes nothing
    /// more.
    pub fn message_handler(
        &mut self,
        m: &Message,
        src: &str,
        announced: Option<Resource>,
        now: u64,
    ) -> (step: HubStep)
        ensures
            final(self).judge == old(self).judge,
            ({
                let reg = heard(old(self).registry@, src@);
                let queue = old(self).queue@;
                match m@.kind {
                    MessageType::Intent => {
                        &&& final(self).registry@ == reg
                        &&& final(self).queue@ == queue
                        &&& match step {
                            HubStep::Admit(intent) => {
                                &&& find_address(reg, src@) is Some
                                &&& intent@.resource == Some(reg[find_address(reg, src@)->0].name)
                                &&& intent@.description == m@.body
                                &&& intent@.source == IntentSource::Resource
                                &&& intent@.itype == IntentType::Intent
                                &&& intent@.sub_intents.len() == 0
                                &&& !intent@.emergency
                                &&& !intent@.finished
                                &&& intent@.reject_reason is None
                                &&& m@.id is Some ==> intent@.id == m@.id->0
                            },
                            HubStep::Reply(reply) => {
                                &&& find_address(reg, src@) is None
                                &&& reply@ == (MessageView {
                                    kind: MessageType::Response,
                                    body: REGISTER_FIRST@,
                                    id: m@.id,
                                })
                            },
                            _ => false,
                        }
                    },
                    MessageType::Register => {
                        &&& final(self).queue@ == queue
                        &&& match announced {
                            Some(resource) => {
                                let taken = find(reg, resource@.name) is Some;
                                &&& final(self).registry@ == if taken {
                                    reg
                                } else {
                                    reg.push(resource@)
                                }
                                &&& step matches HubStep::Reply(reply) && reply@ == (MessageView {
                                    kind: MessageType::Response,
                                    body: if taken {
                                        Registration::Duplicate.reply()
                                    } else {
                                        Registration::Registered.reply()
                                    },
                                    id: None,
                                })
                            },
                            None => final(self).registry@ == reg && step is Nothing,
                        }
                    },
                    MessageType::Response => {
                        let c = completed(queue, reg, reported_id(m@.id));
                        &&& final(self).queue@ == c.queue
                        &&& final(self).registry@ == c.registry
                        &&& step matches HubStep::Completed { reply, finished } && reply@
                            == completion_reply(m@.body) && match finished {
                            Some(intent) => c.finished == Some(intent@),
                            None => c.finished is None,
                        }
                    },
                    MessageType::Reject => match m@.id {
                        Some(id) => {
                            let r = refused(queue, reg, id, now);
                            &&& final(self).queue@ == r.queue
                            &&& final(self).registry@ == r.registry
                            &&& match step {
                                HubStep::Act(a) => r.action == Some(a@),
                                HubStep::Nothing => r.action is None,
                                _ => false,
                            }
                        },
                        None => {
                            &&& final(self).queue@ == queue
                            &&& final(self).registry@ == reg
                            &&& step is Nothing
                        },
                    },
                    _ => {
                        &&& final(self).queue@ == queue
                        &&& final(self).registry@ == reg
                        &&& step is Nothing
                    },
                }
            }),
    {
        self.heard_from(src);
        match m.get_type() {
            MessageType::Intent => match self.on_intent(m, src) {
                Ok(intent) => HubStep::Admit(intent),
                Err(reply) => HubStep::Reply(reply),
            },
            MessageType::Register => match announced {
                Some(resource) => HubStep::Reply(self.on_register(resource)),
                None => HubStep::Nothing,
            },
            MessageType::Response => {
                let (reply, finished) = self.on_response(m);
                HubStep::Completed { reply, finished }
            },
            MessageType::Reject => match self.on_reject(m, now) {
                Some(action) => HubStep::Act(action),
                None => HubStep::Nothing,
            },
            _ => HubStep::Nothing,
        }
    }

    /// What tells the origin of a finished intent that the intent is done:
    /// the structured `Response` with the body `Finish` under the intent's
    /// identifier, whatever the origin does with intents. Nothing is sent
    /// when the intent has no origin or the origin has left the registry.
    pub fn complete_intent(&self, intent: &Intent) -> (d: Delivery)
        ensures
            d@ == match intent@.resource {
                Some(origin) => notice_of(
                    self.registry@,
                    origin,
                    MessageView {
                        kind: MessageType::Response,
                        body: FINISH@,
                        id: Some(intent@.id),
                    },
                ),
                None => DeliveryView::Nothing,
            },
    {
        match intent.get_resource() {
            Some(origin) => notify(
                &self.registry,
                origin.as_str(),
                Message::new(MessageType::Response, FINISH.to_owned(), Some(intent.get_id())),
            ),
            None => Delivery::Nothing,
        }
    }
}

} // verus!
