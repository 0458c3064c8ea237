//! The properties of a task that a mutation can set.

use vstd::prelude::*;
use crate::datetime::DateTime;
use crate::id::Id;
use crate::recur::Recur;

verus! {

/// A property of a task together with its new value.
#[derive(Debug, Clone, PartialEq, Eq)]
pub enum Prop {
    Description(String),
    Depends(Option<Id>),
    Done(DateTime),
    Due(Option<DateTime>),
    Recur(Option<Recur>),
    Snooze(Option<DateTime>),
    Wait(Option<DateTime>),
}

} // verus!
