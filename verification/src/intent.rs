//! Intents and the sub-intents they are split into.

use crate::idgen::{generate_id, IdType};
use crate::text::{opt_text, remove_text, texts, without};
use vstd::prelude::*;

verus! {

/// Where an intent came from.
#[derive(Clone, Copy, Debug, PartialEq, Eq, Structural)]
pub enum IntentSource {
    Tape,
    Input,
    Resource,
    Subsystem,
}

/// What an intent asks for.
#[derive(Clone, Copy, Debug, PartialEq, Eq, Structural)]
pub enum IntentType {
    Intent,
    Response,
    Reject,
    Rule,
}

/// One executable fragment of an intent.
#[derive(Debug)]
pub struct SubIntent {
    id: i64,
    description: String,
    complete: bool,
    available_resources: Vec<String>,
    selected_resource: Option<String>,
    routed: u64,
}

/// What a sub-intent holds.
pub struct SubIntentView {
    pub id: i64,
    pub description: Seq<char>,
    pub complete: bool,
    /// Names of the resources still to be tried, in order.
    pub candidates: Seq<Seq<char>>,
    /// Name of the resource the sub-intent is assigned to.
    pub selected: Option<Seq<char>>,
    /// Time of the last routing, in milliseconds.
    pub routed: u64,
}

impl SubIntentView {
    /// The assigned resource is not among the candidates.
    pub open spec fn exclusive(self) -> bool {
        self.selected is Some ==> !self.candidates.contains(self.selected->0)
    }
}

impl View for SubIntent {
    type V = SubIntentView;

    closed spec fn view(&self) -> SubIntentView {
        SubIntentView {
            id: self.id,
            description: self.description@,
            complete: self.complete,
            candidates: texts(self.available_resources@),
            selected: opt_text(self.selected_resource),
            routed: self.routed,
        }
    }
}

impl SubIntent {
    /// A fresh sub-intent, not yet assigned and not complete, stamped with
    /// the time `now`. Its identifier is drawn from the intent generator.
    pub fn new(description: String, available_resources: Vec<String>, now: u64) -> (s: Self)
        ensures
            s@.description == description@,
            s@.candidates == texts(available_resources@),
            !s@.complete,
            s@.selected is None,
            s@.routed == now,
    {
        Self {
            id: generate_id(IdType::Intent),
            description,
            complete: false,
            available_resources,
            selected_resource: None,
            routed: now,
        }
    }

    pub fn get_id(&self) -> (id: i64)
        ensures
            id == self@.id,
    {
        self.id
    }

    pub fn get_routed(&self) -> (t: u64)
        ensures
            t == self@.routed,
    {
        self.routed
    }

    /// Stamps the sub-intent with the time of a routing.
    pub fn set_routed(&mut self, now: u64)
        ensures
            final(self)@ == (SubIntentView { routed: now, ..old(self)@ }),
    {
        self.routed = now;
    }

    /// The candidates, in order.
    pub fn iter_available_resources(&self) -> (v: &Vec<String>)
        ensures
            texts(v@) == self@.candidates,
    {
        &self.available_resources
    }

    /// Drops every occurrence of `name` from the candidates.
    pub fn remove_resource(&mut self, name: String)
        ensures
            final(self)@ == (SubIntentView {
                candidates: without(old(self)@.candidates, name@),
                ..old(self)@
            }),
    {
        remove_text(&mut self.available_resources, name.as_str());
    }

    /// Drops all candidates.
    pub fn remove_resource_all(&mut self)
        ensures
            final(self)@ == (SubIntentView { candidates: Seq::empty(), ..old(self)@ }),
    {
        self.available_resources.clear();
        assert(texts(self.available_resources@) =~= Seq::<Seq<char>>::empty());
    }

    pub fn get_selected_resource(&self) -> (r: Option<&String>)
        ensures
            match r {
                Some(s) => self@.selected == Some(s@),
                None => self@.selected is None,
            },
    {
        self.selected_resource.as_ref()
    }

    /// Assigns the sub-intent to `resource` and takes that name out of the
    /// candidates.
    pub fn set_selected_resource(&mut self, resource: String)
        ensures
            final(self)@ == (SubIntentView {
                selected: Some(resource@),
                candidates: without(old(self)@.candidates, resource@),
                ..old(self)@
            }),
            final(self)@.exclusive(),
    {
        remove_text(&mut self.available_resources, resource.as_str());
        self.selected_resource = Some(resource);
    }

    pub fn get_description(&self) -> (d: &str)
        ensures
            d@ == self@.description,
    {
        self.description.as_str()
    }

    pub fn is_complete(&self) -> (c: bool)
        ensures
            c == self@.complete,
    {
        self.complete
    }

    /// Marks the sub-intent complete; on a complete one nothing changes.
    pub fn complete(&mut self)
        ensures
            final(self)@ == (SubIntentView { complete: true, ..old(self)@ }),
    {
        self.complete = true;
    }

    /// Appends `resources` to the candidates, whether or not they were
    /// tried before.
    pub fn add(&mut self, resources: Vec<String>)
        ensures
            final(self)@ == (SubIntentView {
                candidates: old(self)@.candidates + texts(resources@),
                ..old(self)@
            }),
    {
        let mut resources = resources;
        let ghost added = resources@;
        self.available_resources.append(&mut resources);
        assert(texts(self.available_resources@) =~= old(self)@.candidates + texts(added));
    }

    /// Takes the last candidate out.
    pub fn pop(&mut self) -> (name: String)
        requires
            old(self)@.candidates.len() > 0,
        ensures
            name@ == old(self)@.candidates.last(),
            final(self)@ == (SubIntentView {
                candidates: old(self)@.candidates.drop_last(),
                ..old(self)@
            }),
    {
        let name = self.available_resources.pop().unwrap();
        assert(texts(self.available_resources@) =~= old(self)@.candidates.drop_last());
        name
    }

    pub fn is_empty(&self) -> (e: bool)
        ensures
            e == (self@.candidates.len() == 0),
    {
        self.available_resources.is_empty()
    }
}

/// The views of a sequence of sub-intents, in order.
pub open spec fn sub_views(v: Seq<SubIntent>) -> Seq<SubIntentView> {
    v.map_values(|s: SubIntent| s@)
}

/// Every sub-intent of the list is complete, and there is at least one.
pub open spec fn all_complete(subs: Seq<SubIntentView>) -> bool {
    &&& subs.len() > 0
    &&& forall|i: int| 0 <= i < subs.len() ==> (#[trigger] subs[i]).complete
}

/// A unit of work.
#[derive(Debug)]
pub struct Intent {
    id: i64,
    description: String,
    complete: bool,
    source: IntentSource,
    resource: Option<String>,
    itype: IntentType,
    sub_intent: Vec<SubIntent>,
    reject_reason: Option<String>,
    emergency: bool,
}

/// What an intent holds.
pub struct IntentView {
    pub id: i64,
    pub description: Seq<char>,
    /// Set when the intent has been reported back as finished.
    pub finished: bool,
    pub source: IntentSource,
    /// Name of the resource that raised the intent.
    pub resource: Option<Seq<char>>,
    pub itype: IntentType,
    pub sub_intents: Seq<SubIntentView>,
    pub reject_reason: Option<Seq<char>>,
    pub emergency: bool,
}

impl IntentView {
    /// The intent has sub-intents and each of them is complete.
    pub open spec fn is_complete(self) -> bool {
        all_complete(self.sub_intents)
    }
}

impl View for Intent {
    type V = IntentView;

    closed spec fn view(&self) -> IntentView {
        IntentView {
            id: self.id,
            description: self.description@,
            finished: self.complete,
            source: self.source,
            resource: opt_text(self.resource),
            itype: self.itype,
            sub_intents: sub_views(self.sub_intent@),
            reject_reason: opt_text(self.reject_reason),
            emergency: self.emergency,
        }
    }
}

impl Intent {
    /// A fresh intent without sub-intents; it is not complete. Its
    /// identifier is drawn from the intent generator.
    pub fn new(
        description: String,
        source: IntentSource,
        itype: IntentType,
        resource: Option<String>,
    ) -> (i: Self)
        ensures
            i@.description == description@,
            i@.source == source,
            i@.itype == itype,
            i@.resource == opt_text(resource),
            i@.sub_intents.len() == 0,
            i@.reject_reason is None,
            !i@.finished,
            !i@.emergency,
            !i@.is_complete(),
    {
        let i = Self {
            id: generate_id(IdType::Intent),
            description,
            complete: false,
            source,
            itype,
            resource,
            sub_intent: Vec::new(),
            reject_reason: None,
            emergency: false,
        };
        i
    }

    pub fn set_emergency(&mut self)
        ensures
            final(self)@ == (IntentView { emergency: true, ..old(self)@ }),
    {
        self.emergency = true;
    }

    pub fn get_emergency(&self) -> (e: bool)
        ensures
            e == self@.emergency,
    {
        self.emergency
    }

    pub fn get_id(&self) -> (id: i64)
        ensures
            id == self@.id,
    {
        self.id
    }

    pub fn set_id(&mut self, id: i64)
        ensures
            final(self)@ == (IntentView { id: id, ..old(self)@ }),
    {
        self.id = id
    }

    /// The sub-intents, open to change.
    pub fn iter_sub_intent(&mut self) -> (v: &mut Vec<SubIntent>)
        ensures
            sub_views(v@) == old(self)@.sub_intents,
            final(self)@ == (IntentView { sub_intents: sub_views(final(v)@), ..old(self)@ }),
    {
        &mut self.sub_intent
    }

    /// The sub-intents, in order.
    pub fn sub_intents(&self) -> (v: &Vec<SubIntent>)
        ensures
            sub_views(v@) == self@.sub_intents,
    {
        &self.sub_intent
    }

    pub fn get_description(&self) -> (d: &str)
        ensures
            d@ == self@.description,
    {
        self.description.as_str()
    }

    pub fn get_source(&self) -> (s: &IntentSource)
        ensures
            *s == self@.source,
    {
        &self.source
    }

    /// Whether the intent has at least one sub-intent and all of them are
    /// complete.
    pub fn is_complete(&self) -> (c: bool)
        ensures
            c == self@.is_complete(),
            c <==> self@.sub_intents.len() > 0 && forall|i: int|
                0 <= i < self@.sub_intents.len() ==> (#[trigger] self@.sub_intents[i]).complete,
    {
        if self.sub_intent.len() == 0 {
            return false;
        }
        let mut i: usize = 0;
        while i < self.sub_intent.len()
            invariant
                i <= self.sub_intent.len(),
                forall|k: int| 0 <= k < i ==> (#[trigger] self@.sub_intents[k]).complete,
            decreases self.sub_intent.len() - i,
        {
            if !self.sub_intent[i].is_complete() {
                assert(!self@.sub_intents[i as int].complete);
                return false;
            }
            i = i + 1;
        }
        true
    }

    /// Records that the intent has been reported back as finished.
    pub fn complete(&mut self)
        ensures
            final(self)@ == (IntentView { finished: true, ..old(self)@ }),
    {
        self.complete = true;
    }

    /// Whether the intent has been reported back as finished.
    pub fn is_finished(&self) -> (f: bool)
        ensures
            f == self@.finished,
    {
        self.complete
    }

    /// Appends sub-intents.
    pub fn add_sub_intent(&mut self, sub_intent: Vec<SubIntent>)
        ensures
            final(self)@ == (IntentView {
                sub_intents: old(self)@.sub_intents + sub_views(sub_intent@),
                ..old(self)@
            }),
    {
        let mut sub_intent = sub_intent;
        let ghost added = sub_intent@;
        self.sub_intent.append(&mut sub_intent);
        assert(sub_views(self.sub_intent@) =~= old(self)@.sub_intents + sub_views(added));
    }

    pub fn get_resource(&self) -> (r: Option<&String>)
        ensures
            match r {
                Some(s) => self@.resource == Some(s@),
                None => self@.resource is None,
            },
    {
        self.resource.as_ref()
    }

    pub fn get_reject_reason(&self) -> (r: Option<String>)
        ensures
            opt_text(r) == self@.reject_reason,
    {
        self.reject_reason.clone()
    }

    /// Records why the intent was turned down.
    pub fn set_reject_reason(&mut self, reason: String)
        ensures
            final(self)@ == (IntentView { reject_reason: Some(reason@), ..old(self)@ }),
    {
        self.reject_reason = Some(reason);
    }

    pub fn get_intent_type(&self) -> (t: &IntentType)
        ensures
            *t == self@.itype,
    {
        &self.itype
    }
}

} // verus!
