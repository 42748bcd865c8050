//! Checks on an intent before it is scheduled.

use crate::intent::Intent;
use vstd::prelude::*;

verus! {

/// Whether the intent is still to be scheduled: it is not complete.
pub fn schedule_intent(intent: &Intent) -> (ok: bool)
    ensures
        ok == !intent@.is_complete(),
{
    schedule_dependency(intent) && verify_resource(intent) && verify_subintent(intent)
}

fn schedule_dependency(intent: &Intent) -> (ok: bool)
    ensures
        ok == !intent@.is_complete(),
{
    !intent.is_complete()
}

fn verify_resource(intent: &Intent) -> (ok: bool)
    ensures
        ok == !intent@.is_complete(),
{
    !intent.is_complete()
}

fn verify_subintent(intent: &Intent) -> (ok: bool)
    ensures
        ok == !intent@.is_complete(),
{
    !intent.is_complete()
}

} // verus!
