//! Error values of the admission and routing stages.

use vstd::prelude::*;

verus! {

/// Why the rule engine turned an intent down.
#[derive(Debug)]
pub struct JudgeError {
    details: String,
}

impl View for JudgeError {
    type V = Seq<char>;

    closed spec fn view(&self) -> Seq<char> {
        self.details@
    }
}

impl JudgeError {
    pub fn new(msg: &str) -> (e: Self)
        ensures
            e@ == msg@,
    {
        JudgeError { details: msg.to_owned() }
    }

    /// The message the error was made with.
    pub fn description(&self) -> (s: &str)
        ensures
            s@ == self@,
    {
        self.details.as_str()
    }

    /// The message as an owned string.
    pub fn to_text(&self) -> (s: String)
        ensures
            s@ == self@,
    {
        self.details.clone()
    }
}

/// Why a sub-intent could not be routed.
#[derive(Debug)]
pub struct RouteError {
    details: String,
}

impl View for RouteError {
    type V = Seq<char>;

    closed spec fn view(&self) -> Seq<char> {
        self.details@
    }
}

impl RouteError {
    pub fn new(msg: &str) -> (e: Self)
        ensures
            e@ == msg@,
    {
        RouteError { details: msg.to_owned() }
    }

    /// The message the error was made with.
    pub fn description(&self) -> (s: &str)
        ensures
            s@ == self@,
    {
        self.details.as_str()
    }

    /// The message as an owned string.
    pub fn to_text(&self) -> (s: String)
        ensures
            s@ == self@,
    {
        self.details.clone()
    }
}

} // verus!
