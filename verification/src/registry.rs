//! The resource registry: the catalog of registered resources, kept in
//! the order of registration, with their liveness and load figures.

use crate::resource::{
    capped_sum, changed_dealing, check_position, load_score, moving_average, resource_info,
    Resource, ResourceView, Status,
};
use crate::text::{push_text, same_text};
use vstd::prelude::*;

verus! {

/// Unanswered heartbeats in a row after which a resource is removed.
pub const HEARTBEAT_RETRIES: u8 = 3;

/// The resources are asked for a sign of life at this interval, in
/// milliseconds.
pub const HEARTBEAT_INTERVAL: u64 = 20000;

/// The resources are asked for their status at this interval, in
/// milliseconds.
pub const STATUS_INTERVAL: u64 = 10000;

/// The names of the catalog entries, in order.
pub open spec fn names(rs: Seq<ResourceView>) -> Seq<Seq<char>> {
    rs.map_values(|r: ResourceView| r.name)
}

/// No two entries share a name.
pub open spec fn distinct_names(rs: Seq<ResourceView>) -> bool {
    forall|i: int, j: int| 0 <= i < j < rs.len() ==> rs[i].name != rs[j].name
}

/// The place of the entry named `name`, if there is one.
pub open spec fn find(rs: Seq<ResourceView>, name: Seq<char>) -> Option<int> {
    names(rs).index_of_first(name)
}

/// What `find` returns: the first place that holds the name.
pub proof fn lemma_find(rs: Seq<ResourceView>, name: Seq<char>)
    ensures
        match find(rs, name) {
            Some(i) => {
                &&& 0 <= i < rs.len()
                &&& rs[i].name == name
                &&& forall|j: int| 0 <= j < i ==> rs[j].name != name
            },
            None => forall|j: int| 0 <= j < rs.len() ==> rs[j].name != name,
        },
{
    names(rs).index_of_first_ensures(name);
    match find(rs, name) {
        Some(i) => {
            assert forall|j: int| 0 <= j < i implies rs[j].name != name by {
                assert(names(rs)[j] != name);
            }
        },
        None => {
            assert forall|j: int| 0 <= j < rs.len() implies rs[j].name != name by {
                assert(names(rs)[j] == rs[j].name);
            }
        },
    }
}

/// The place `k` holds the name and no earlier place does: `find` gives `k`.
pub proof fn lemma_found_at(rs: Seq<ResourceView>, name: Seq<char>, k: int)
    requires
        0 <= k < rs.len(),
        rs[k].name == name,
        forall|j: int| 0 <= j < k ==> rs[j].name != name,
    ensures
        find(rs, name) == Some(k),
{
    lemma_find(rs, name);
}

/// The catalog with the status of the entry named `name` replaced; the
/// catalog as it is when there is no such entry.
pub open spec fn with_status(rs: Seq<ResourceView>, name: Seq<char>, status: Status) -> Seq<
    ResourceView,
> {
    match find(rs, name) {
        Some(i) => rs.update(i, ResourceView { status, ..rs[i] }),
        None => rs,
    }
}

/// The status of the entry named `name`.
pub open spec fn status_of(rs: Seq<ResourceView>, name: Seq<char>) -> Option<Status> {
    match find(rs, name) {
        Some(i) => Some(rs[i].status),
        None => None,
    }
}

/// The catalog without the entry named `name`.
pub open spec fn without_entry(rs: Seq<ResourceView>, name: Seq<char>) -> Seq<ResourceView> {
    match find(rs, name) {
        Some(i) => rs.remove(i),
        None => rs,
    }
}

/// The load score of the entry named `name`; the largest score when
/// there is no such entry.
pub open spec fn score_of(rs: Seq<ResourceView>, name: Seq<char>) -> u64 {
    match find(rs, name) {
        Some(i) => load_score(rs[i].status),
        None => u64::MAX,
    }
}

/// The catalog text: the entries' texts one after the other.
pub open spec fn catalog(rs: Seq<ResourceView>) -> Seq<char>
    decreases rs.len(),
{
    if rs.len() == 0 {
        Seq::empty()
    } else {
        catalog(rs.drop_last()) + resource_info(rs.last())
    }
}

/// The place of the first entry reached at `address`.
pub open spec fn find_address(rs: Seq<ResourceView>, address: Seq<char>) -> Option<int> {
    rs.map_values(|r: ResourceView| r.address.text()).index_of_first(address)
}

/// The status after an execution that took `duration`: the moving average
/// takes it in and the running total grows by it.
pub open spec fn after_execution(s: Status, duration: u64) -> Status {
    Status {
        average_time: moving_average(s.average_time, duration),
        total_busy: capped_sum(s.total_busy, duration),
        ..s
    }
}

/// The catalog after a status report for `name`: the entry leaves when the
/// reported position lies outside the valid volume, and takes the report as
/// its status otherwise.
pub open spec fn after_report(rs: Seq<ResourceView>, name: Seq<char>, status: Status) -> Seq<
    ResourceView,
> {
    if status.position.in_valid_volume() {
        with_status(rs, name, status)
    } else {
        without_entry(rs, name)
    }
}

/// The catalog after the entry named `name` left one more heartbeat
/// unanswered: at `HEARTBEAT_RETRIES` in a row the entry leaves.
pub open spec fn after_missed(rs: Seq<ResourceView>, name: Seq<char>) -> Seq<ResourceView> {
    match find(rs, name) {
        Some(i) => if rs[i].missed + 1 >= HEARTBEAT_RETRIES {
            rs.remove(i)
        } else {
            rs.update(i, ResourceView { missed: (rs[i].missed + 1) as u8, ..rs[i] })
        },
        None => rs,
    }
}

/// The catalog after a sign of life from the entry named `name`.
pub open spec fn after_answered(rs: Seq<ResourceView>, name: Seq<char>) -> Seq<ResourceView> {
    match find(rs, name) {
        Some(i) => rs.update(i, ResourceView { missed: 0, ..rs[i] }),
        None => rs,
    }
}

/// The views of a sequence of resources, in order.
pub open spec fn resource_views(v: Seq<Resource>) -> Seq<ResourceView> {
    v.map_values(|r: Resource| r@)
}

/// How a registration ended.
#[derive(Clone, Copy, Debug, PartialEq, Eq, Structural)]
pub enum Registration {
    Registered,
    Duplicate,
}

impl Registration {
    /// The body of the answer to a registration.
    pub open spec fn reply(self) -> Seq<char> {
        match self {
            Registration::Registered => "Registered"@,
            Registration::Duplicate => "Duplicate"@,
        }
    }

    /// The body of the answer to a registration.
    pub fn reply_text(&self) -> (s: &'static str)
        ensures
            s@ == self.reply(),
    {
        match self {
            Registration::Registered => "Registered",
            Registration::Duplicate => "Duplicate",
        }
    }
}

/// The catalog of registered resources.
#[derive(Debug)]
pub struct Registry {
    resources: Vec<Resource>,
}

impl View for Registry {
    type V = Seq<ResourceView>;

    closed spec fn view(&self) -> Seq<ResourceView> {
        resource_views(self.resources@)
    }
}

impl Registry {
    #[verifier::type_invariant]
    spec fn names_are_distinct(self) -> bool {
        distinct_names(resource_views(self.resources@))
    }

    /// An empty catalog.
    pub fn new() -> (r: Self)
        ensures
            r@ == Seq::<ResourceView>::empty(),
    {
        let r = Self { resources: Vec::new() };
        r
    }

    /// The number of entries; no two of them share a name.
    pub fn len(&self) -> (n: usize)
        ensures
            n == self@.len(),
            distinct_names(self@),
    {
        proof {
            use_type_invariant(self);
        }
        self.resources.len()
    }

    /// The entries, in order of registration.
    pub fn resources(&self) -> (v: &Vec<Resource>)
        ensures
            resource_views(v@) == self@,
            distinct_names(self@),
    {
        proof {
            use_type_invariant(self);
        }
        &self.resources
    }

    fn position(&self, name: &str) -> (p: Option<usize>)
        ensures
            match p {
                Some(i) => find(self@, name@) == Some(i as int) && i < self@.len(),
                None => find(self@, name@) is None,
            },
    {
        let mut i: usize = 0;
        while i < self.resources.len()
            invariant
                i <= self.resources.len(),
                forall|j: int| 0 <= j < i ==> self@[j].name != name@,
            decreases self.resources.len() - i,
        {
            if same_text(self.resources[i].get_name(), name) {
                proof {
                    lemma_found_at(self@, name@, i as int);
                }
                return Some(i);
            }
            i = i + 1;
        }
        proof {
            lemma_find(self@, name@);
        }
        None
    }

    /// Adds a resource under its name, unless the name is taken.
    pub fn register(&mut self, resource: Resource) -> (outcome: Registration)
        ensures
            find(old(self)@, resource@.name) is Some ==> outcome == Registration::Duplicate
                && final(self)@ == old(self)@,
            find(old(self)@, resource@.name) is None ==> outcome == Registration::Registered
                && final(self)@ == old(self)@.push(resource@),
            distinct_names(final(self)@),
    {
        proof {
            use_type_invariant(&*self);
        }
        match self.position(resource.get_name()) {
            Some(_) => Registration::Duplicate,
            None => {
                let mut entries = self.take_entries();
                proof {
                    lemma_find(old(self)@, resource@.name);
                    assert(resource_views(entries@.push(resource)) =~= old(self)@.push(
                        resource@,
                    ));
                }
                entries.push(resource);
                self.resources = entries;
                Registration::Registered
            },
        }
    }

    /// The entry named `name`.
    pub fn lookup(&self, name: &str) -> (r: Option<&Resource>)
        ensures
            match r {
                Some(res) => find(self@, name@) is Some && res@ == self@[find(self@, name@)->0],
                None => find(self@, name@) is None,
            },
    {
        match self.position(name) {
            Some(i) => Some(&self.resources[i]),
            None => None,
        }
    }

    /// The status of the entry named `name`.
    pub fn status(&self, name: &str) -> (s: Option<Status>)
        ensures
            s == status_of(self@, name@),
    {
        match self.position(name) {
            Some(i) => Some(*self.resources[i].status()),
            None => None,
        }
    }

    /// Takes the entries out, leaving the catalog empty.
    fn take_entries(&mut self) -> (entries: Vec<Resource>)
        ensures
            resource_views(entries@) == old(self)@,
            distinct_names(old(self)@),
            final(self)@.len() == 0,
    {
        proof {
            use_type_invariant(&*self);
        }
        let mut entries: Vec<Resource> = Vec::new();
        core::mem::swap(&mut self.resources, &mut entries);
        entries
    }

    fn put_status(&mut self, i: usize, status: Status)
        requires
            i < old(self)@.len(),
        ensures
            final(self)@ == old(self)@.update(
                i as int,
                ResourceView { status, ..old(self)@[i as int] },
            ),
    {
        let ghost before = self@;
        let mut entries = self.take_entries();
        entries[i].set_status(status);
        proof {
            assert(resource_views(entries@) =~= before.update(
                i as int,
                ResourceView { status, ..before[i as int] },
            ));
        }
        self.resources = entries;
    }

    fn put_missed(&mut self, i: usize, missed: u8)
        requires
            i < old(self)@.len(),
        ensures
            final(self)@ == old(self)@.update(
                i as int,
                ResourceView { missed, ..old(self)@[i as int] },
            ),
    {
        let ghost before = self@;
        let mut entries = self.take_entries();
        entries[i].set_missed(missed);
        proof {
            assert(resource_views(entries@) =~= before.update(
                i as int,
                ResourceView { missed, ..before[i as int] },
            ));
        }
        self.resources = entries;
    }

    fn take_out(&mut self, i: usize)
        requires
            i < old(self)@.len(),
        ensures
            final(self)@ == old(self)@.remove(i as int),
    {
        let ghost before = self@;
        let mut entries = self.take_entries();
        entries.remove(i);
        proof {
            assert(resource_views(entries@) =~= before.remove(i as int));
        }
        self.resources = entries;
    }

    /// Replaces the status of the entry named `name`. Returns whether
    /// there is such an entry.
    pub fn fresh_resource_status(&mut self, name: &str, s: Status) -> (known: bool)
        ensures
            final(self)@ == with_status(old(self)@, name@, s),
            known == find(old(self)@, name@) is Some,
    {
        match self.position(name) {
            Some(i) => {
                self.put_status(i, s);
                true
            },
            None => false,
        }
    }

    /// Takes a status report for the entry named `name`: a report from
    /// outside the valid volume removes the entry.
    pub fn update_status(&mut self, name: &str, status: Status)
        ensures
            final(self)@ == after_report(old(self)@, name@, status),
    {
        if check_position(status.get_position()) {
            self.fresh_resource_status(name, status);
        } else {
            self.remove_resource_by_name(name);
        }
    }

    /// One more sub-intent in flight (`op`) or one fewer on the entry
    /// named `name`.
    pub fn change_resource_dealing(&mut self, name: &str, op: bool)
        ensures
            final(self)@ == match status_of(old(self)@, name@) {
                Some(s) => with_status(
                    old(self)@,
                    name@,
                    Status { dealing: changed_dealing(s.dealing, op), ..s },
                ),
                None => old(self)@,
            },
    {
        match self.position(name) {
            Some(i) => {
                let mut s = *self.resources[i].status();
                s.change_dealing(op);
                self.put_status(i, s);
            },
            None => {},
        }
    }

    /// Adds `d` to the running total of busy time of the entry named
    /// `name`, and returns the new total; zero when there is no such entry.
    pub fn add_resource_total_busy(&mut self, name: &str, d: u64) -> (total: u64)
        ensures
            match status_of(old(self)@, name@) {
                Some(s) => total == capped_sum(s.total_busy, d) && final(self)@ == with_status(
                    old(self)@,
                    name@,
                    Status { total_busy: total, ..s },
                ),
                None => total == 0 && final(self)@ == old(self)@,
            },
    {
        match self.position(name) {
            Some(i) => {
                let mut s = *self.resources[i].status();
                let total = s.add_total_busy(d);
                self.put_status(i, s);
                total
            },
            None => 0,
        }
    }

    /// Adds `d` to the busy time of the entry named `name`.
    pub fn add_resource_busy(&mut self, name: &str, d: u64)
        ensures
            final(self)@ == match status_of(old(self)@, name@) {
                Some(s) => with_status(
                    old(self)@,
                    name@,
                    Status { busy_time: capped_sum(s.busy_time, d), ..s },
                ),
                None => old(self)@,
            },
    {
        match self.position(name) {
            Some(i) => {
                let mut s = *self.resources[i].status();
                s.add_busy_time(d);
                self.put_status(i, s);
            },
            None => {},
        }
    }

    /// Takes `d` from the busy time of the entry named `name`.
    pub fn sub_resource_busy(&mut self, name: &str, d: u64)
        ensures
            final(self)@ == match status_of(old(self)@, name@) {
                Some(s) => with_status(
                    old(self)@,
                    name@,
                    Status { busy_time: crate::resource::floored_difference(s.busy_time, d), ..s },
                ),
                None => old(self)@,
            },
    {
        match self.position(name) {
            Some(i) => {
                let mut s = *self.resources[i].status();
                s.sub_busy_time(d);
                self.put_status(i, s);
            },
            None => {},
        }
    }

    /// Books one execution of `duration` on the entry named `name`.
    pub fn record_execution(&mut self, name: &str, duration: u64)
        ensures
            final(self)@ == match status_of(old(self)@, name@) {
                Some(s) => with_status(old(self)@, name@, after_execution(s, duration)),
                None => old(self)@,
            },
    {
        match self.position(name) {
            Some(i) => {
                let mut s = *self.resources[i].status();
                s.change_average_time(duration);
                s.add_total_busy(duration);
                self.put_status(i, s);
            },
            None => {},
        }
    }

    /// The average execution time of the entry named `name`; zero when
    /// there is no such entry.
    pub fn get_resource_average_busy(&self, name: &str) -> (t: u64)
        ensures
            t == match status_of(self@, name@) {
                Some(s) => s.average_time,
                None => 0,
            },
    {
        match self.position(name) {
            Some(i) => self.resources[i].status().get_average_time(),
            None => 0,
        }
    }

    /// The load score of the entry named `name`; the largest score when
    /// there is no such entry.
    pub fn calculate_base_dealing(&self, name: &str) -> (score: u64)
        ensures
            score == score_of(self@, name@),
    {
        match self.position(name) {
            Some(i) => self.resources[i].status().score(),
            None => u64::MAX,
        }
    }

    /// Removes the entry named `name`.
    pub fn remove_resource_by_name(&mut self, name: &str)
        ensures
            final(self)@ == without_entry(old(self)@, name@),
    {
        match self.position(name) {
            Some(i) => {
                self.take_out(i);
            },
            None => {},
        }
    }

    /// The catalog text, used as context when an intent is split.
    pub fn get_all_resource_info(&self) -> (info: String)
        ensures
            info@ == catalog(self@),
    {
        let mut info = String::new();
        let mut i: usize = 0;
        while i < self.resources.len()
            invariant
                i <= self.resources.len(),
                info@ == catalog(self@.take(i as int)),
            decreases self.resources.len() - i,
        {
            let entry = self.resources[i].info();
            push_text(&mut info, entry.as_str());
            proof {
                assert(self@.take(i + 1).drop_last() =~= self@.take(i as int));
            }
            i = i + 1;
        }
        assert(self@.take(self@.len() as int) =~= self@);
        info
    }

    /// The catalog entry of the resource named `name`; empty when there
    /// is no such resource.
    pub fn get_resource_info(&self, name: &str) -> (info: String)
        ensures
            info@ == match find(self@, name@) {
                Some(i) => resource_info(self@[i]),
                None => Seq::empty(),
            },
    {
        match self.position(name) {
            Some(i) => self.resources[i].info(),
            None => String::new(),
        }
    }

    /// The description of the resource named `name`; empty when there is
    /// no such resource.
    pub fn get_resource_description(&self, name: &str) -> (d: String)
        ensures
            d@ == match find(self@, name@) {
                Some(i) => self@[i].description,
                None => Seq::empty(),
            },
    {
        match self.position(name) {
            Some(i) => self.resources[i].get_description().to_owned(),
            None => String::new(),
        }
    }

    /// The status summary of the resource named `name`; empty when
    /// there is no such resource.
    pub fn get_resource_status_str(&self, name: &str) -> (s: String)
        ensures
            s@ == match find(self@, name@) {
                Some(i) => crate::resource::status_text(self@[i].status),
                None => Seq::empty(),
            },
    {
        match self.position(name) {
            Some(i) => self.resources[i].display_status(),
            None => String::new(),
        }
    }

    /// The name of the first resource reached at `addr`.
    pub fn find_resource_by_addr(&self, addr: &str) -> (name: Option<String>)
        ensures
            match name {
                Some(n) => find_address(self@, addr@) is Some && n@ == self@[find_address(
                    self@,
                    addr@,
                )->0].name,
                None => find_address(self@, addr@) is None,
            },
    {
        let ghost addresses = self@.map_values(|r: ResourceView| r.address.text());
        let mut i: usize = 0;
        while i < self.resources.len()
            invariant
                i <= self.resources.len(),
                addresses == self@.map_values(|r: ResourceView| r.address.text()),
                forall|j: int| 0 <= j < i ==> addresses[j] != addr@,
            decreases self.resources.len() - i,
        {
            if same_text(self.resources[i].get_address().text(), addr) {
                proof {
                    crate::text::lemma_first_at(addresses, addr@, i as int);
                }
                return Some(self.resources[i].get_name().to_owned());
            }
            i = i + 1;
        }
        proof {
            crate::text::lemma_first_absent(addresses, addr@);
        }
        None
    }

    /// Books one unanswered heartbeat on the entry named `name`, and
    /// removes the entry at the third in a row. Returns whether an entry
    /// was removed.
    pub fn heartbeat_missed(&mut self, name: &str) -> (removed: bool)
        ensures
            final(self)@ == after_missed(old(self)@, name@),
            removed == (final(self)@.len() < old(self)@.len()),
    {
        match self.position(name) {
            Some(i) => {
                let missed = self.resources[i].get_missed();
                if missed >= HEARTBEAT_RETRIES - 1 {
                    self.take_out(i);
                    true
                } else {
                    self.put_missed(i, missed + 1);
                    false
                }
            },
            None => false,
        }
    }

    /// Books a sign of life from the entry named `name`.
    pub fn heartbeat_answered(&mut self, name: &str)
        ensures
            final(self)@ == after_answered(old(self)@, name@),
    {
        match self.position(name) {
            Some(i) => {
                self.put_missed(i, 0);
            },
            None => {},
        }
    }
}

} // verus!
