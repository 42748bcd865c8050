//! The resource's side of the protocol: how an endpoint attaches to a
//! hub, answers it, and books the work it executes.
//!
//! Durations are whole milliseconds.

use crate::intent::{Intent, IntentSource, IntentType, IntentView};
use crate::message::{Message, MessageType, MessageView};
use crate::monitor::intent_views;
use crate::resource::{
    capped_sum, changed_dealing, floored_difference, moving_average, RegisterServer, Status,
    MILLIS_PER_SECOND,
};
use crate::text::{lemma_first_absent, lemma_first_at, opt_text, same_text};
use rand::Rng;
use vstd::prelude::*;
use vstd::string::StringSliceAdditionalSpecFns;

verus! {

/// The ways in which an endpoint can wait for a hub.
#[derive(Clone, Copy, Debug, PartialEq, Eq, Structural)]
pub enum WaitMethod {
    Bluetooth,
    Wifi,
    Internet,
    RFID,
    NFC,
}

/// The transport over which an endpoint is attached to a hub.
#[derive(Clone, Copy, Debug, PartialEq, Eq, Structural)]
pub enum ResourceType {
    /// The endpoint is attached to no hub.
    Absent,
    Bluetooth,
    Internet,
}

/// The hub's answer to a registration that it accepted.
pub const REGISTERED: &'static str = "Registered";

/// The hub's word that an intent of this endpoint is done.
pub const FINISH: &'static str = "Finish";

/// The hub's answer to an endpoint that it does not know.
pub const REGISTER_FIRST: &'static str = "Register First";

/// The body of the report that an execution is over.
pub const EXECUTE_OVER: &'static str = "Execute Over";

/// An endpoint: the hub it is attached to, its own load figures, and the
/// intents it has raised and not yet seen finished.
#[derive(Debug)]
pub struct Waiter {
    tape: ResourceType,
    tape_i: Option<String>,
    tape_o: Option<String>,
    status: Status,
    queue: Vec<Intent>,
}

/// What an endpoint holds.
pub struct WaiterView {
    pub tape: ResourceType,
    /// The address the hub listens on.
    pub tape_i: Option<Seq<char>>,
    /// The address the hub sends from.
    pub tape_o: Option<Seq<char>>,
    pub status: Status,
    pub queue: Seq<IntentView>,
}

impl View for Waiter {
    type V = WaiterView;

    closed spec fn view(&self) -> WaiterView {
        WaiterView {
            tape: self.tape,
            tape_i: opt_text(self.tape_i),
            tape_o: opt_text(self.tape_o),
            status: self.status,
            queue: intent_views(self.queue@),
        }
    }
}

/// What an endpoint is to do after a message.
#[derive(Debug)]
pub enum WaiterAction {
    Nothing,
    /// Report the status to the hub.
    ReportStatus { to: String, status: Status },
    /// Answer the hub's heartbeat.
    Heartbeat { to: String },
    /// Execute an intent and report to the hub under this identifier.
    Execute { to: String, intent: String, id: Option<i64> },
    /// An intent that this endpoint raised is done.
    Finished(Intent),
}

/// What a waiter action holds.
pub enum WaiterActionView {
    Nothing,
    ReportStatus { to: Seq<char>, status: Status },
    Heartbeat { to: Seq<char> },
    Execute { to: Seq<char>, intent: Seq<char>, id: Option<i64> },
    Finished(IntentView),
}

impl View for WaiterAction {
    type V = WaiterActionView;

    open spec fn view(&self) -> WaiterActionView {
        match self {
            WaiterAction::Nothing => WaiterActionView::Nothing,
            WaiterAction::ReportStatus { to, status } => WaiterActionView::ReportStatus {
                to: to@,
                status: *status,
            },
            WaiterAction::Heartbeat { to } => WaiterActionView::Heartbeat { to: to@ },
            WaiterAction::Execute { to, intent, id } => WaiterActionView::Execute {
                to: to@,
                intent: intent@,
                id: *id,
            },
            WaiterAction::Finished(i) => WaiterActionView::Finished(i@),
        }
    }
}

/// The endpoint attached to no hub.
pub open spec fn detached(w: WaiterView) -> WaiterView {
    WaiterView { tape: ResourceType::Absent, tape_i: None, tape_o: None, ..w }
}

/// The place of the first queued intent with the identifier `id`.
pub open spec fn queued(queue: Seq<IntentView>, id: i64) -> Option<int> {
    queue.map_values(|i: IntentView| i.id).index_of_first(id)
}

/// What the hub's word that the intent `id` is done does to an endpoint.
pub open spec fn finish_step(w: WaiterView, id: Option<i64>) -> (WaiterView, WaiterActionView) {
    match id {
        Some(i) => match queued(w.queue, i) {
            Some(k) => (
                WaiterView { queue: w.queue.remove(k), ..w },
                WaiterActionView::Finished(w.queue[k]),
            ),
            None => (w, WaiterActionView::Nothing),
        },
        None => (w, WaiterActionView::Nothing),
    }
}

/// What a message from `src` does to an endpoint. Only the hub that the
/// endpoint follows is heard.
pub open spec fn waiter_step(w: WaiterView, src: Seq<char>, m: MessageView) -> (
    WaiterView,
    WaiterActionView,
) {
    if w.tape_o != Some(src) || w.tape_i is None {
        (w, WaiterActionView::Nothing)
    } else {
        match m.kind {
            MessageType::Status => (
                w,
                WaiterActionView::ReportStatus { to: w.tape_i->0, status: w.status },
            ),
            MessageType::Heartbeat => (w, WaiterActionView::Heartbeat { to: w.tape_o->0 }),
            MessageType::Finish => (detached(w), WaiterActionView::Nothing),
            MessageType::Response => if m.body == REGISTERED@ {
                (WaiterView { tape: ResourceType::Internet, ..w }, WaiterActionView::Nothing)
            } else if m.body == FINISH@ {
                finish_step(w, m.id)
            } else if m.body == REGISTER_FIRST@ {
                (detached(w), WaiterActionView::Nothing)
            } else {
                (w, WaiterActionView::Nothing)
            },
            MessageType::Intent => (
                w,
                WaiterActionView::Execute { to: w.tape_i->0, intent: m.body, id: m.id },
            ),
            _ => (w, WaiterActionView::Nothing),
        }
    }
}

/// The status when an execution of the duration `t` starts.
pub open spec fn started(s: Status, t: u64) -> Status {
    Status {
        busy_time: capped_sum(s.busy_time, t),
        dealing: changed_dealing(s.dealing, true),
        average_time: moving_average(s.average_time, t),
        total_busy: capped_sum(s.total_busy, t),
        ..s
    }
}

/// The status when an execution of the duration `t` ends.
pub open spec fn stopped(s: Status, t: u64) -> Status {
    Status {
        busy_time: floored_difference(s.busy_time, t),
        dealing: changed_dealing(s.dealing, false),
        ..s
    }
}

/// The duration of `seconds` whole seconds, held at the largest duration.
pub open spec fn seconds_to_millis(seconds: nat) -> u64 {
    if seconds * MILLIS_PER_SECOND > u64::MAX {
        u64::MAX
    } else {
        (seconds * MILLIS_PER_SECOND) as u64
    }
}

/// A number between `low` and `high`, both included. Trusted: calls
/// `rand::thread_rng` and `Rng::gen_range` on the inclusive range, which
/// answers with a number of the range and panics on an empty one.
#[verifier::external_body]
fn random_between(low: usize, high: usize) -> (r: usize)
    requires
        low <= high,
    ensures
        low <= r <= high,
{
    rand::thread_rng().gen_range(low..=high)
}

/// Books the start of an execution of the duration `exec_time`.
pub fn begin_execution(status: &mut Status, exec_time: u64)
    ensures
        *final(status) == started(*old(status), exec_time),
{
    status.add_busy_time(exec_time);
    status.change_dealing(true);
    status.change_average_time(exec_time);
    status.add_total_busy(exec_time);
}

/// Books the end of an execution of the duration `exec_time`.
pub fn end_execution(status: &mut Status, exec_time: u64)
    ensures
        *final(status) == stopped(*old(status), exec_time),
{
    status.change_dealing(false);
    status.sub_busy_time(exec_time);
}

/// The duration for a draw of `seconds` whole seconds.
pub fn execution_time(seconds: usize) -> (t: u64)
    ensures
        t == seconds_to_millis(seconds as nat),
{
    let s: u64 = seconds as u64;
    if s > u64::MAX / MILLIS_PER_SECOND {
        u64::MAX
    } else {
        s * MILLIS_PER_SECOND
    }
}

/// Starts a stand-in execution of the intent: draws a duration of whole
/// seconds, one at least and as many as the text has bytes at most, and
/// books its start. There is no execution for a text without bytes.
pub fn random_execute(intent: &str, status: &mut Status) -> (exec_time: Option<u64>)
    ensures
        match exec_time {
            Some(t) => {
                &&& intent.spec_bytes().len() > 0
                &&& seconds_to_millis(1) <= t <= seconds_to_millis(intent.spec_bytes().len())
                &&& *final(status) == started(*old(status), t)
            },
            None => intent.spec_bytes().len() == 0 && *final(status) == *old(status),
        },
{
    let length = intent.as_bytes().len();
    if length == 0 {
        return None;
    }
    let seconds = random_between(1, length);
    let exec_time = execution_time(seconds);
    proof {
        assert(seconds * MILLIS_PER_SECOND <= length * MILLIS_PER_SECOND) by (nonlinear_arith)
            requires
                seconds <= length,
        ;
        assert(1 * MILLIS_PER_SECOND <= seconds * MILLIS_PER_SECOND) by (nonlinear_arith)
            requires
                1 <= seconds,
        ;
    }
    begin_execution(status, exec_time);
    Some(exec_time)
}

/// The report that the execution under the identifier `id` is over.
pub fn execute_over_message(id: Option<i64>) -> (m: Message)
    ensures
        m@ == (MessageView { kind: MessageType::Response, body: EXECUTE_OVER@, id }),
{
    Message::new(MessageType::Response, EXECUTE_OVER.to_owned(), id)
}

impl Waiter {
    /// An endpoint attached to no hub, with the given load figures.
    pub fn new(status: Status) -> (w: Self)
        ensures
            w@ == (WaiterView {
                tape: ResourceType::Absent,
                tape_i: None,
                tape_o: None,
                status,
                queue: Seq::empty(),
            }),
    {
        let w = Self {
            tape: ResourceType::Absent,
            tape_i: None,
            tape_o: None,
            status,
            queue: Vec::new(),
        };
        assert(intent_views(w.queue@) =~= Seq::<IntentView>::empty());
        w
    }

    /// Whether the endpoint is attached to a hub.
    pub fn is_attached(&self) -> (a: bool)
        ensures
            a == (self@.tape != ResourceType::Absent),
    {
        match self.tape {
            ResourceType::Absent => false,
            _ => true,
        }
    }

    /// The load figures, open to change.
    pub fn status_mut(&mut self) -> (s: &mut Status)
        ensures
            *s == old(self)@.status,
            final(self)@ == (WaiterView { status: *final(s), ..old(self)@ }),
    {
        &mut self.status
    }

    /// Takes the rendezvous service's word on the hub to follow. Returns
    /// the address to register at. An answer that lacks an address changes
    /// nothing.
    pub fn on_rendezvous(&mut self, tape: &RegisterServer) -> (register_at: Option<String>)
        ensures
            tape@.iaddr is Some && tape@.oaddr is Some ==> final(self)@ == (WaiterView {
                tape_i: tape@.iaddr,
                tape_o: tape@.oaddr,
                ..old(self)@
            }) && opt_text(register_at) == tape@.iaddr,
            tape@.iaddr is None || tape@.oaddr is None ==> final(self)@ == old(self)@
                && register_at is None,
    {
        let iaddr = tape.iaddr();
        let oaddr = tape.oaddr();
        if iaddr.is_some() && oaddr.is_some() {
            self.tape_i = iaddr.clone();
            self.tape_o = oaddr;
            iaddr
        } else {
            None
        }
    }

    /// Raises an intent with the text `text`. An attached endpoint queues
    /// it and gets the hub's address and the message to send there.
    pub fn submit(&mut self, text: String) -> (send: Option<(String, Message)>)
        ensures
            match send {
                Some(s) => {
                    &&& old(self)@.tape_i == Some(s.0@)
                    &&& s.1@.kind == MessageType::Intent
                    &&& s.1@.body == text@
                    &&& s.1@.id is Some
                    &&& final(self)@.queue.len() == old(self)@.queue.len() + 1
                    &&& final(self)@.queue.drop_last() == old(self)@.queue
                    &&& final(self)@.queue.last().id == s.1@.id->0
                    &&& final(self)@.queue.last().description == text@
                    &&& final(self)@.queue.last().source == IntentSource::Input
                    &&& final(self)@ == (WaiterView { queue: final(self)@.queue, ..old(self)@ })
                },
                None => old(self)@.tape_i is None && final(self)@ == old(self)@,
            },
    {
        match &self.tape_i {
            Some(to) => {
                let to = to.clone();
                let intent = Intent::new(
                    text.clone(),
                    IntentSource::Input,
                    IntentType::Intent,
                    None,
                );
                let m = Message::new(MessageType::Intent, text, Some(intent.get_id()));
                self.queue.push(intent);
                Some((to, m))
            },
            None => None,
        }
    }

    fn detach(&mut self)
        ensures
            final(self)@ == detached(old(self)@),
    {
        self.tape = ResourceType::Absent;
        self.tape_i = None;
        self.tape_o = None;
    }

    fn finish(&mut self, id: Option<i64>) -> (action: WaiterAction)
        ensures
            final(self)@ == finish_step(old(self)@, id).0,
            action@ == finish_step(old(self)@, id).1,
    {
        match id {
            Some(wanted) => {
                let ghost ids = self@.queue.map_values(|i: IntentView| i.id);
                let mut k: usize = 0;
                while k < self.queue.len()
                    invariant
                        k <= self.queue.len(),
                        id == Some(wanted),
                        self@ == old(self)@,
                        ids == self@.queue.map_values(|i: IntentView| i.id),
                        forall|j: int| 0 <= j < k ==> ids[j] != wanted,
                    decreases self.queue.len() - k,
                {
                    if self.queue[k].get_id() == wanted {
                        proof {
                            lemma_first_at(ids, wanted, k as int);
                        }
                        let ghost before = self@;
                        let intent = self.queue.remove(k);
                        proof {
                            assert(intent_views(self.queue@) =~= before.queue.remove(k as int));
                        }
                        return WaiterAction::Finished(intent);
                    }
                    k = k + 1;
                }
                proof {
                    lemma_first_absent(ids, wanted);
                }
                WaiterAction::Nothing
            },
            None => WaiterAction::Nothing,
        }
    }

    /// Takes a message that came from `src` and says what to do.
    pub fn on_message(&mut self, src: &str, m: &Message) -> (action: WaiterAction)
        ensures
            final(self)@ == waiter_step(old(self)@, src@, m@).0,
            action@ == waiter_step(old(self)@, src@, m@).1,
    {
        let from_hub = match &self.tape_o {
            Some(o) => same_text(o.as_str(), src),
            None => false,
        };
        if !from_hub {
            return WaiterAction::Nothing;
        }
        let hub_in = match &self.tape_i {
            Some(i) => i.clone(),
            None => {
                return WaiterAction::Nothing;
            },
        };
        match m.get_type() {
            MessageType::Status => WaiterAction::ReportStatus { to: hub_in, status: self.status },
            MessageType::Heartbeat => WaiterAction::Heartbeat { to: src.to_owned() },
            MessageType::Finish => {
                self.detach();
                WaiterAction::Nothing
            },
            MessageType::Response => {
                let body = m.get_body();
                if same_text(body.as_str(), REGISTERED) {
                    self.tape = ResourceType::Internet;
                    WaiterAction::Nothing
                } else if same_text(body.as_str(), FINISH) {
                    self.finish(m.get_id())
                } else if same_text(body.as_str(), REGISTER_FIRST) {
                    self.detach();
                    WaiterAction::Nothing
                } else {
                    WaiterAction::Nothing
                }
            },
            MessageType::Intent => WaiterAction::Execute {
                to: hub_in,
                intent: m.get_body(),
                id: m.get_id(),
            },
            _ => WaiterAction::Nothing,
        }
    }
}

} // verus!
