//! What the engine is asked to do: queries that select tasks, mutations that
//! change them, and the commands that combine the two.

use vstd::prelude::*;
use crate::id::Id;
use crate::prop::Prop;
use crate::tag::Tag;

verus! {

/// A change to one task.
#[derive(Debug, Clone, PartialEq, Eq)]
pub enum Mutation {
    SetProp(Prop),
    SetTag(Tag),
}

/// A selector of tasks: by (part of) an identifier, or by a tag that must be
/// present (`+`) or absent (`-`).
#[derive(Debug, Clone, PartialEq, Eq)]
pub enum Query {
    Id(Id),
    Tag(Tag),
}

/// A request to the engine.
#[derive(Debug, Clone, PartialEq, Eq)]
pub enum Command {
    Create(Vec<Mutation>),
    Read(Vec<Query>),
    Update(Vec<Query>, Vec<Mutation>),
    Delete(Vec<Query>),
}

} // verus!
