//! Resources: the registered endpoints that execute sub-intents, with
//! their load figures.
//!
//! Durations are whole milliseconds. Coordinates are thousandths of a
//! length unit.

use crate::text::{decimal, opt_text, push_decimal, push_signed, push_text, signed_decimal, texts};
use vstd::prelude::*;

verus! {

/// Average execution time of a resource that has not reported one yet.
pub const DEFAULT_AVERAGE_TIME: u64 = 5000;

/// Every coordinate of a valid position lies between `-POSITION_LIMIT`
/// and `POSITION_LIMIT`, both included: one hundred units each way.
pub const POSITION_LIMIT: i64 = 100000;

/// Milliseconds in a second.
pub const MILLIS_PER_SECOND: u64 = 1000;

/// A point in space.
#[derive(Clone, Copy, Debug, PartialEq, Eq, Structural)]
pub struct Position {
    pub x: i64,
    pub y: i64,
    pub z: i64,
}

impl Position {
    pub fn new(x: i64, y: i64, z: i64) -> (p: Self)
        ensures
            p == (Position { x, y, z }),
    {
        Self { x, y, z }
    }

    /// The position whose coordinates are the first three numbers.
    pub fn new_from_vec(position: Vec<i64>) -> (p: Self)
        requires
            position.len() >= 3,
        ensures
            p == (Position { x: position[0], y: position[1], z: position[2] }),
    {
        Self { x: position[0], y: position[1], z: position[2] }
    }

    /// Every coordinate lies in the valid volume, its faces included.
    pub open spec fn in_valid_volume(self) -> bool {
        &&& -POSITION_LIMIT <= self.x <= POSITION_LIMIT
        &&& -POSITION_LIMIT <= self.y <= POSITION_LIMIT
        &&& -POSITION_LIMIT <= self.z <= POSITION_LIMIT
    }
}

/// Whether a reported position lies inside the valid volume.
pub fn check_position(p: &Position) -> (ok: bool)
    ensures
        ok == p.in_valid_volume(),
{
    p.x >= -POSITION_LIMIT && p.x <= POSITION_LIMIT && p.y >= -POSITION_LIMIT && p.y
        <= POSITION_LIMIT && p.z >= -POSITION_LIMIT && p.z <= POSITION_LIMIT
}

/// The average after one more execution: nine parts of the old average and
/// one part of the last execution time, rounded down to the millisecond.
pub open spec fn moving_average(average: u64, last_execute: u64) -> u64 {
    ((9 * average + last_execute) / 10) as u64
}

/// The sum, held at the largest duration.
pub open spec fn capped_sum(a: u64, b: u64) -> u64 {
    if a + b > u64::MAX {
        u64::MAX
    } else {
        (a + b) as u64
    }
}

/// The difference, held at zero.
pub open spec fn floored_difference(a: u64, b: u64) -> u64 {
    if a < b {
        0
    } else {
        (a - b) as u64
    }
}

/// The count of sub-intents in flight after one more (`op`) or one fewer:
/// never below zero, never above the largest count.
pub open spec fn changed_dealing(dealing: u8, op: bool) -> u8 {
    if op {
        if dealing == u8::MAX {
            dealing
        } else {
            (dealing + 1) as u8
        }
    } else {
        if dealing == 0 {
            dealing
        } else {
            (dealing - 1) as u8
        }
    }
}

/// The load figures of a resource.
#[derive(Clone, Copy, Debug, PartialEq, Eq, Structural)]
pub struct Status {
    /// Whether the resource takes work.
    pub aviliability: bool,
    pub position: Position,
    /// Sub-intents in flight.
    pub dealing: u8,
    /// Time the resource needs before it can start the next sub-intent.
    pub busy_time: u64,
    /// Moving average of the execution time.
    pub average_time: u64,
    /// Running total of the busy time booked on the resource.
    pub total_busy: u64,
}

/// The load score: sub-intents in flight times the average execution time
/// in whole seconds, plus the busy time in whole seconds. Lower is better.
pub open spec fn load_score(s: Status) -> u64 {
    (s.dealing * (s.average_time / MILLIS_PER_SECOND) + s.busy_time / MILLIS_PER_SECOND) as u64
}

/// The load score fits its type.
pub proof fn lemma_load_score_fits(s: Status)
    ensures
        s.dealing * (s.average_time / MILLIS_PER_SECOND) + s.busy_time / MILLIS_PER_SECOND
            <= u64::MAX,
{
    let a = s.average_time / MILLIS_PER_SECOND;
    assert(s.dealing * a <= 255 * a) by (nonlinear_arith)
        requires
            s.dealing <= 255,
            a >= 0,
    ;
}

/// `true` or `false`.
pub open spec fn bool_text(b: bool) -> Seq<char> {
    if b {
        "true"@
    } else {
        "false"@
    }
}

/// The summary of a status that goes into the catalog.
pub open spec fn status_text(s: Status) -> Seq<char> {
    "aviliability: "@ + bool_text(s.aviliability) + ", position: ("@ + signed_decimal(
        s.position.x as int,
    ) + ", "@ + signed_decimal(s.position.y as int) + ", "@ + signed_decimal(s.position.z as int)
        + "), dealing: "@ + decimal(s.dealing as nat) + ", busy_time: "@ + decimal(
        s.busy_time as nat,
    ) + ", average_time: "@ + decimal(s.average_time as nat)
}

impl Status {
    /// The status of a resource that has executed nothing yet.
    pub fn new(aviliability: bool, position: (i64, i64, i64), busy_time: u64) -> (s: Self)
        ensures
            s == (Status {
                aviliability,
                position: Position { x: position.0, y: position.1, z: position.2 },
                dealing: 0,
                busy_time,
                average_time: DEFAULT_AVERAGE_TIME,
                total_busy: 0,
            }),
    {
        Self {
            aviliability,
            position: Position::new(position.0, position.1, position.2),
            dealing: 0,
            busy_time,
            average_time: DEFAULT_AVERAGE_TIME,
            total_busy: 0,
        }
    }

    pub fn get_aviliability(&self) -> (a: bool)
        ensures
            a == self.aviliability,
    {
        self.aviliability
    }

    pub fn get_position(&self) -> (p: &Position)
        ensures
            *p == self.position,
    {
        &self.position
    }

    pub fn get_dealing(&self) -> (d: u8)
        ensures
            d == self.dealing,
    {
        self.dealing
    }

    pub fn get_average_time(&self) -> (t: u64)
        ensures
            t == self.average_time,
    {
        self.average_time
    }

    pub fn set_aviliability(&mut self, aviliability: bool)
        ensures
            *final(self) == (Status { aviliability, ..*old(self) }),
    {
        self.aviliability = aviliability;
    }

    pub fn set_position(&mut self, position: Position)
        ensures
            *final(self) == (Status { position, ..*old(self) }),
    {
        self.position = position;
    }

    pub fn set_dealing(&mut self, dealing: u8)
        ensures
            *final(self) == (Status { dealing, ..*old(self) }),
    {
        self.dealing = dealing
    }

    /// Folds one execution time into the moving average.
    pub fn change_average_time(&mut self, last_execute: u64)
        ensures
            *final(self) == (Status {
                average_time: moving_average(old(self).average_time, last_execute),
                ..*old(self)
            }),
    {
        let sum: u128 = 9u128 * (self.average_time as u128) + (last_execute as u128);
        self.average_time = (sum / 10) as u64;
    }

    pub fn get_busy_time(&self) -> (t: u64)
        ensures
            t == self.busy_time,
    {
        self.busy_time
    }

    pub fn set_busy_time(&mut self, busy_time: u64)
        ensures
            *final(self) == (Status { busy_time, ..*old(self) }),
    {
        self.busy_time = busy_time;
    }

    /// Adds to the busy time, which stays at the largest duration once
    /// it is reached.
    pub fn add_busy_time(&mut self, busy_time: u64)
        ensures
            *final(self) == (Status {
                busy_time: capped_sum(old(self).busy_time, busy_time),
                ..*old(self)
            }),
    {
        self.busy_time = capped_add(self.busy_time, busy_time);
    }

    /// Adds to the running total of busy time and returns the new total.
    pub fn add_total_busy(&mut self, busy_time: u64) -> (total: u64)
        ensures
            *final(self) == (Status {
                total_busy: capped_sum(old(self).total_busy, busy_time),
                ..*old(self)
            }),
            total == final(self).total_busy,
    {
        self.total_busy = capped_add(self.total_busy, busy_time);
        self.total_busy
    }

    /// One more sub-intent in flight (`op`) or one fewer.
    pub fn change_dealing(&mut self, op: bool)
        ensures
            *final(self) == (Status {
                dealing: changed_dealing(old(self).dealing, op),
                ..*old(self)
            }),
    {
        if op {
            if self.dealing < u8::MAX {
                self.dealing = self.dealing + 1;
            }
        } else {
            if self.dealing > 0 {
                self.dealing = self.dealing - 1;
            }
        }
    }

    /// Takes from the busy time, which stays at zero once it is reached.
    pub fn sub_busy_time(&mut self, busy_time: u64)
        ensures
            *final(self) == (Status {
                busy_time: floored_difference(old(self).busy_time, busy_time),
                ..*old(self)
            }),
    {
        if self.busy_time < busy_time {
            self.busy_time = 0;
        } else {
            self.busy_time = self.busy_time - busy_time;
        }
    }

    /// The load score of the status.
    pub fn score(&self) -> (score: u64)
        ensures
            score == load_score(*self),
    {
        let average: u64 = self.average_time / MILLIS_PER_SECOND;
        let busy: u64 = self.busy_time / MILLIS_PER_SECOND;
        assert(self.dealing * average <= 255 * average) by (nonlinear_arith)
            requires
                self.dealing <= 255,
                average >= 0,
        ;
        (self.dealing as u64) * average + busy
    }

    /// The summary that goes into the catalog.
    pub fn display(&self) -> (s: String)
        ensures
            s@ == status_text(*self),
    {
        let mut s = "aviliability: ".to_owned();
        push_text(&mut s, if self.aviliability { "true" } else { "false" });
        push_text(&mut s, ", position: (");
        push_signed(&mut s, self.position.x);
        push_text(&mut s, ", ");
        push_signed(&mut s, self.position.y);
        push_text(&mut s, ", ");
        push_signed(&mut s, self.position.z);
        push_text(&mut s, "), dealing: ");
        push_decimal(&mut s, self.dealing as u64);
        push_text(&mut s, ", busy_time: ");
        push_decimal(&mut s, self.busy_time);
        push_text(&mut s, ", average_time: ");
        push_decimal(&mut s, self.average_time);
        s
    }
}

fn capped_add(a: u64, b: u64) -> (sum: u64)
    ensures
        sum == capped_sum(a, b),
{
    if a > u64::MAX - b {
        u64::MAX
    } else {
        a + b
    }
}

/// How a resource turns an intent into something it can run.
#[derive(Clone, Debug)]
pub enum Interpreter {
    /// A program at this path.
    PathBuf(String),
    /// The reasoner, choosing among the commands described by this text.
    LLM(String),
    /// A fixed set of commands.
    Classification(Vec<String>),
    Unknow,
    /// The resource reads intents as they are.
    Absent,
}

/// What an interpreter holds.
pub enum InterpreterView {
    PathBuf(Seq<char>),
    LLM(Seq<char>),
    Classification(Seq<Seq<char>>),
    Unknow,
    Absent,
}

impl View for Interpreter {
    type V = InterpreterView;

    open spec fn view(&self) -> InterpreterView {
        match self {
            Interpreter::PathBuf(p) => InterpreterView::PathBuf(p@),
            Interpreter::LLM(s) => InterpreterView::LLM(s@),
            Interpreter::Classification(c) => InterpreterView::Classification(texts(c@)),
            Interpreter::Unknow => InterpreterView::Unknow,
            Interpreter::Absent => InterpreterView::Absent,
        }
    }
}

/// Where a resource is reached, by kind of transport.
#[derive(Clone, Debug)]
pub enum ResourceAddress {
    Bluetooth(String),
    Wifi(String),
    Internet(String),
}

/// What an address holds.
pub enum AddressView {
    Bluetooth(Seq<char>),
    Wifi(Seq<char>),
    Internet(Seq<char>),
}

impl AddressView {
    /// The address text, whatever the transport.
    pub open spec fn text(self) -> Seq<char> {
        match self {
            AddressView::Bluetooth(a) => a,
            AddressView::Wifi(a) => a,
            AddressView::Internet(a) => a,
        }
    }
}

impl View for ResourceAddress {
    type V = AddressView;

    open spec fn view(&self) -> AddressView {
        match self {
            ResourceAddress::Bluetooth(a) => AddressView::Bluetooth(a@),
            ResourceAddress::Wifi(a) => AddressView::Wifi(a@),
            ResourceAddress::Internet(a) => AddressView::Internet(a@),
        }
    }
}

impl ResourceAddress {
    /// The address text, whatever the transport.
    pub fn text(&self) -> (s: &str)
        ensures
            s@ == self@.text(),
    {
        match self {
            ResourceAddress::Bluetooth(a) => a.as_str(),
            ResourceAddress::Wifi(a) => a.as_str(),
            ResourceAddress::Internet(a) => a.as_str(),
        }
    }
}

/// A registered endpoint.
#[derive(Debug)]
pub struct Resource {
    name: String,
    status: Status,
    description: String,
    address: ResourceAddress,
    interpreter: Interpreter,
    missed: u8,
}

/// What a resource holds.
pub struct ResourceView {
    pub name: Seq<char>,
    pub status: Status,
    pub description: Seq<char>,
    pub address: AddressView,
    pub interpreter: InterpreterView,
    /// Heartbeats in a row that went unanswered.
    pub missed: u8,
}

/// The catalog entry of a resource: name, description and status summary,
/// separated by `/` and closed by `;`.
pub open spec fn resource_info(r: ResourceView) -> Seq<char> {
    r.name + "/"@ + r.description + "/"@ + status_text(r.status) + ";"@
}

impl View for Resource {
    type V = ResourceView;

    closed spec fn view(&self) -> ResourceView {
        ResourceView {
            name: self.name@,
            status: self.status,
            description: self.description@,
            address: self.address@,
            interpreter: self.interpreter@,
            missed: self.missed,
        }
    }
}

impl Resource {
    /// A resource that reads intents as they are and has missed no
    /// heartbeat.
    pub fn new(name: String, description: String, address: ResourceAddress, status: Status) -> (r:
        Self)
        ensures
            r@ == (ResourceView {
                name: name@,
                status,
                description: description@,
                address: address@,
                interpreter: InterpreterView::Absent,
                missed: 0,
            }),
    {
        Self { name, description, address, status, interpreter: Interpreter::Absent, missed: 0 }
    }

    pub fn get_name(&self) -> (n: &str)
        ensures
            n@ == self@.name,
    {
        self.name.as_str()
    }

    pub fn get_description(&self) -> (d: &str)
        ensures
            d@ == self@.description,
    {
        self.description.as_str()
    }

    /// The status, open to change.
    pub fn get_status(&mut self) -> (s: &mut Status)
        ensures
            *s == old(self)@.status,
            final(self)@ == (ResourceView { status: *final(s), ..old(self)@ }),
    {
        &mut self.status
    }

    /// The status as it stands.
    pub fn status(&self) -> (s: &Status)
        ensures
            *s == self@.status,
    {
        &self.status
    }

    pub fn get_address(&self) -> (a: &ResourceAddress)
        ensures
            a@ == self@.address,
    {
        &self.address
    }

    pub fn set_address(&mut self, addr: ResourceAddress)
        ensures
            final(self)@ == (ResourceView { address: addr@, ..old(self)@ }),
    {
        self.address = addr;
    }

    pub fn get_interpreter(&self) -> (i: &Interpreter)
        ensures
            i@ == self@.interpreter,
    {
        &self.interpreter
    }

    /// The status summary.
    pub fn display_status(&self) -> (s: String)
        ensures
            s@ == status_text(self@.status),
    {
        self.status.display()
    }

    /// The catalog entry.
    pub fn info(&self) -> (s: String)
        ensures
            s@ == resource_info(self@),
    {
        let mut s = self.name.clone();
        push_text(&mut s, "/");
        push_text(&mut s, self.description.as_str());
        push_text(&mut s, "/");
        let status = self.status.display();
        push_text(&mut s, status.as_str());
        push_text(&mut s, ";");
        s
    }

    pub fn set_status(&mut self, status: Status)
        ensures
            final(self)@ == (ResourceView { status, ..old(self)@ }),
    {
        self.status = status
    }

    pub fn set_interpreter(&mut self, interpreter: Interpreter)
        ensures
            final(self)@ == (ResourceView { interpreter: interpreter@, ..old(self)@ }),
    {
        self.interpreter = interpreter;
    }

    pub fn set_description(&mut self, description: String)
        ensures
            final(self)@ == (ResourceView { description: description@, ..old(self)@ }),
    {
        self.description = description;
    }

    pub fn is_interpreter_none(&self) -> (b: bool)
        ensures
            b == (self@.interpreter is Absent),
    {
        match self.interpreter {
            Interpreter::Absent => true,
            _ => false,
        }
    }

    /// Heartbeats in a row that went unanswered.
    pub fn get_missed(&self) -> (m: u8)
        ensures
            m == self@.missed,
    {
        self.missed
    }

    pub fn set_missed(&mut self, missed: u8)
        ensures
            final(self)@ == (ResourceView { missed, ..old(self)@ }),
    {
        self.missed = missed;
    }
}

/// What a hub or a resource announces to the rendezvous service: its role,
/// where it listens and answers, and the volume it covers or stands in,
/// as a low and a high bound on each axis.
#[derive(Debug)]
pub struct RegisterServer {
    tape: bool,
    iaddr: Option<String>,
    oaddr: Option<String>,
    x_dis: (i64, i64),
    y_dis: (i64, i64),
    z_dis: (i64, i64),
}

/// What an announcement holds.
pub struct RegisterServerView {
    /// Whether the sender is a hub.
    pub tape: bool,
    pub iaddr: Option<Seq<char>>,
    pub oaddr: Option<Seq<char>>,
    pub x_dis: (i64, i64),
    pub y_dis: (i64, i64),
    pub z_dis: (i64, i64),
}

impl RegisterServerView {
    /// The volume of `self` holds the volume of `p` strictly inside it.
    pub open spec fn covers(self, p: RegisterServerView) -> bool {
        &&& p.x_dis.0 > self.x_dis.0
        &&& p.x_dis.1 < self.x_dis.1
        &&& p.y_dis.0 > self.y_dis.0
        &&& p.y_dis.1 < self.y_dis.1
        &&& p.z_dis.0 > self.z_dis.0
        &&& p.z_dis.1 < self.z_dis.1
    }
}

impl View for RegisterServer {
    type V = RegisterServerView;

    closed spec fn view(&self) -> RegisterServerView {
        RegisterServerView {
            tape: self.tape,
            iaddr: opt_text(self.iaddr),
            oaddr: opt_text(self.oaddr),
            x_dis: self.x_dis,
            y_dis: self.y_dis,
            z_dis: self.z_dis,
        }
    }
}

impl RegisterServer {
    pub fn new(
        tape: bool,
        iaddr: Option<String>,
        oaddr: Option<String>,
        dis: ((i64, i64), (i64, i64), (i64, i64)),
    ) -> (r: Self)
        ensures
            r@ == (RegisterServerView {
                tape,
                iaddr: opt_text(iaddr),
                oaddr: opt_text(oaddr),
                x_dis: dis.0,
                y_dis: dis.1,
                z_dis: dis.2,
            }),
    {
        Self { tape, iaddr, oaddr, x_dis: dis.0, y_dis: dis.1, z_dis: dis.2 }
    }

    pub fn is_tape(&self) -> (t: bool)
        ensures
            t == self@.tape,
    {
        self.tape
    }

    /// The volume: a low and a high bound on each axis.
    pub fn volume(&self) -> (v: ((i64, i64), (i64, i64), (i64, i64)))
        ensures
            v == (self@.x_dis, self@.y_dis, self@.z_dis),
    {
        (self.x_dis, self.y_dis, self.z_dis)
    }

    /// The address the sender listens on, if it gave one.
    pub fn iaddr(&self) -> (a: Option<String>)
        ensures
            opt_text(a) == self@.iaddr,
    {
        self.iaddr.clone()
    }

    /// The address the sender answers from, if it gave one.
    pub fn oaddr(&self) -> (a: Option<String>)
        ensures
            opt_text(a) == self@.oaddr,
    {
        self.oaddr.clone()
    }

    /// The address the sender listens on.
    pub fn get_iaddr(&self) -> (a: String)
        requires
            self@.iaddr is Some,
        ensures
            Some(a@) == self@.iaddr,
    {
        self.iaddr.clone().unwrap()
    }

    /// The address the sender answers from.
    pub fn get_oaddr(&self) -> (a: String)
        requires
            self@.oaddr is Some,
        ensures
            Some(a@) == self@.oaddr,
    {
        self.oaddr.clone().unwrap()
    }

    /// Whether the volume that `self` covers holds the volume of `p`.
    pub fn is_position_suit(&self, p: &RegisterServer) -> (suits: bool)
        ensures
            suits == self@.covers(p@),
    {
        p.x_dis.0 > self.x_dis.0 && p.x_dis.1 < self.x_dis.1 && p.y_dis.0 > self.y_dis.0
            && p.y_dis.1 < self.y_dis.1 && p.z_dis.0 > self.z_dis.0 && p.z_dis.1 < self.z_dis.1
    }

    /// A copy of the announcement.
    pub fn duplicate(&self) -> (r: Self)
        ensures
            r@ == self@,
    {
        Self {
            tape: self.tape,
            iaddr: self.iaddr.clone(),
            oaddr: self.oaddr.clone(),
            x_dis: self.x_dis,
            y_dis: self.y_dis,
            z_dis: self.z_dis,
        }
    }
}

} // verus!
