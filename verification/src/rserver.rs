//! The rendezvous service: hubs announce the volume they cover, and every
//! newcomer is pointed to a hub whose volume holds its own.

use crate::resource::{RegisterServer, RegisterServerView};
use vstd::prelude::*;

verus! {

/// The views of a sequence of announcements, in order.
pub open spec fn server_views(v: Seq<RegisterServer>) -> Seq<RegisterServerView> {
    v.map_values(|s: RegisterServer| s@)
}

/// The place of the hub that a newcomer is pointed to: the last of the
/// known hubs whose volume holds the newcomer's.
pub open spec fn best_suit(tapes: Seq<RegisterServerView>, p: RegisterServerView) -> Option<int> {
    tapes.map_values(|t: RegisterServerView| t.covers(p)).index_of_last(true)
}

/// The hubs known after an announcement: a hub that announces itself
/// joins them.
pub open spec fn after_announcement(tapes: Seq<RegisterServerView>, s: RegisterServerView) -> Seq<
    RegisterServerView,
> {
    if s.tape {
        tapes.push(s)
    } else {
        tapes
    }
}

/// The hubs that have announced themselves, in order.
#[derive(Debug)]
pub struct Rendezvous {
    tapes: Vec<RegisterServer>,
}

impl View for Rendezvous {
    type V = Seq<RegisterServerView>;

    closed spec fn view(&self) -> Seq<RegisterServerView> {
        server_views(self.tapes@)
    }
}

impl Rendezvous {
    /// A service that knows no hub.
    pub fn new() -> (r: Self)
        ensures
            r@ == Seq::<RegisterServerView>::empty(),
    {
        let r = Self { tapes: Vec::new() };
        r
    }

    /// Takes an announcement. Returns the hub that the sender is pointed
    /// to, chosen among the hubs known before, if one suits.
    pub fn announce(&mut self, s: RegisterServer) -> (suit: Option<RegisterServer>)
        ensures
            final(self)@ == after_announcement(old(self)@, s@),
            match suit {
                Some(t) => best_suit(old(self)@, s@) is Some && t@ == old(self)@[best_suit(
                    old(self)@,
                    s@,
                )->0],
                None => best_suit(old(self)@, s@) is None,
            },
    {
        let ghost flags = self@.map_values(|t: RegisterServerView| t.covers(s@));
        let mut found: Option<usize> = None;
        let mut i: usize = 0;
        while i < self.tapes.len()
            invariant
                i <= self.tapes.len(),
                self@ == old(self)@,
                flags == self@.map_values(|t: RegisterServerView| t.covers(s@)),
                match found {
                    Some(k) => k < i && flags[k as int] && forall|j: int| k < j < i ==> !flags[j],
                    None => forall|j: int| 0 <= j < i ==> !flags[j],
                },
            decreases self.tapes.len() - i,
        {
            if self.tapes[i].is_position_suit(&s) {
                found = Some(i);
            }
            i = i + 1;
        }
        proof {
            flags.index_of_last_ensures(true);
        }
        let suit = match found {
            Some(k) => Some(self.tapes[k].duplicate()),
            None => None,
        };
        if s.is_tape() {
            self.tapes.push(s);
        }
        suit
    }
}

} // verus!
