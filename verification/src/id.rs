//! Task identifiers: short strings drawn from an alphabet without look-alike
//! characters, matched against one another by containment.

use vstd::prelude::*;
use rand::seq::IteratorRandom;
use crate::text::{contains_str, contains_sub};

verus! {

/// The characters an identifier is generated from.
pub const VALID_ID_CHARS: &'static str = "23456789abcdefghkmnpqrstwxyz";

/// The length of a generated identifier.
pub const NUMBER_OF_CHARS_IN_FULL_ID: usize = 16;

/// Picks one character of `s` at random, through rand's `IteratorRandom::choose`
/// on `s.chars()` with the thread-local generator. rand documents that it returns
/// `None` exactly when the iterator is empty, and otherwise one of its items;
/// which one is left to chance.
#[verifier::external_body]
pub(crate) fn choose_char(s: &str) -> (r: Option<char>)
    ensures
        r is None <==> s@.len() == 0,
        r matches Some(c) ==> s@.contains(c),
{
    s.chars().choose(&mut rand::thread_rng())
}

/// A task identifier.
#[derive(Debug, Clone, PartialEq, Eq, Hash)]
pub struct Id(pub String);

impl View for Id {
    type V = Seq<char>;

    open spec fn view(&self) -> Seq<char> {
        self.0@
    }
}

/// `s` has the shape of a generated identifier: `NUMBER_OF_CHARS_IN_FULL_ID`
/// characters, each taken from `VALID_ID_CHARS`.
pub open spec fn is_generated_id(s: Seq<char>) -> bool {
    &&& s.len() == NUMBER_OF_CHARS_IN_FULL_ID
    &&& forall|i: int| 0 <= i < s.len() ==> VALID_ID_CHARS@.contains(#[trigger] s[i])
}

/// Two identifiers match when either one contains the other.
pub open spec fn sub_eq_spec(a: Seq<char>, b: Seq<char>) -> bool {
    contains_sub(a, b) || contains_sub(b, a)
}

impl Id {
    /// A fresh identifier of random characters from `VALID_ID_CHARS`.
    pub fn generate() -> (r: Id)
        ensures
            is_generated_id(r@),
    {
        proof {
            reveal_strlit("23456789abcdefghkmnpqrstwxyz");
        }
        let mut result = String::new();
        let mut i: usize = 0;
        while i < NUMBER_OF_CHARS_IN_FULL_ID
            invariant
                i <= NUMBER_OF_CHARS_IN_FULL_ID,
                result@.len() == i,
                VALID_ID_CHARS@.len() > 0,
                forall|k: int| 0 <= k < i ==> VALID_ID_CHARS@.contains(#[trigger] result@[k]),
            decreases NUMBER_OF_CHARS_IN_FULL_ID - i,
        {
            let picked = choose_char(VALID_ID_CHARS);
            match picked {
                Some(c) => {
                    crate::text::string_push(&mut result, c);
                },
                None => {
                    assert(false);
                },
            }
            i = i + 1;
        }
        Id(result)
    }

    /// Whether either identifier contains the other.
    pub fn sub_eq(&self, other: &Id) -> (r: bool)
        ensures
            r == sub_eq_spec(self@, other@),
    {
        contains_str(self.0.as_str(), other.0.as_str()) || contains_str(
            other.0.as_str(),
            self.0.as_str(),
        )
    }

    /// Whether the two identifiers are the same string.
    pub fn same_as(&self, other: &Id) -> (r: bool)
        ensures
            r == (self@ == other@),
    {
        self.0 == other.0
    }

    /// The identifier's text.
    pub fn get_string(&self) -> (r: &String)
        ensures
            r@ == self@,
    {
        &self.0
    }

    /// A copy of this identifier.
    pub fn duplicate(&self) -> (r: Id)
        ensures
            r@ == self@,
    {
        Id(self.0.clone())
    }
}

} // verus!
