//! The library's error type: a domain, an action, an optional message and an
//! optional source, with the text each of them displays as.

use vstd::prelude::*;
use crate::text::{i64_to_string, int_numeral, string_views, lemma_string_views_push};

verus! {

/// The part of the system in which an error arose.
#[derive(Debug, Clone, Copy, PartialEq, Eq, Structural)]
pub enum HyperTaskErrorDomain {
    Render,
    Config,
    Context,
    Input,
    Mutation,
    Query,
    ScoreCalculator,
    Task,
    Syncing,
}

/// The text a domain displays as.
pub open spec fn domain_text(d: HyperTaskErrorDomain) -> Seq<char> {
    match d {
        HyperTaskErrorDomain::Config => "config"@,
        HyperTaskErrorDomain::Syncing => "syncing"@,
        HyperTaskErrorDomain::Render => "render"@,
        HyperTaskErrorDomain::Context => "context"@,
        HyperTaskErrorDomain::Input => "input"@,
        HyperTaskErrorDomain::Mutation => "mutation"@,
        HyperTaskErrorDomain::Query => "query"@,
        HyperTaskErrorDomain::ScoreCalculator => "scoreCalculator"@,
        HyperTaskErrorDomain::Task => "task"@,
    }
}

impl HyperTaskErrorDomain {
    /// The text this domain displays as.
    pub fn as_str(&self) -> (r: &'static str)
        ensures
            r@ == domain_text(*self),
    {
        match self {
            HyperTaskErrorDomain::Config => "config",
            HyperTaskErrorDomain::Syncing => "syncing",
            HyperTaskErrorDomain::Render => "render",
            HyperTaskErrorDomain::Context => "context",
            HyperTaskErrorDomain::Input => "input",
            HyperTaskErrorDomain::Mutation => "mutation",
            HyperTaskErrorDomain::Query => "query",
            HyperTaskErrorDomain::ScoreCalculator => "scoreCalculator",
            HyperTaskErrorDomain::Task => "task",
        }
    }
}

/// What was being done when an error arose.
#[derive(Debug, Clone, Copy, PartialEq, Eq, Structural)]
pub enum HyperTaskErrorAction {
    Compare,
    Create,
    Delete,
    Parse,
    Read,
    Run,
    Write,
}

/// The text an action displays as.
pub open spec fn action_text(a: HyperTaskErrorAction) -> Seq<char> {
    match a {
        HyperTaskErrorAction::Compare => "compare"@,
        HyperTaskErrorAction::Create => "create"@,
        HyperTaskErrorAction::Delete => "delete"@,
        HyperTaskErrorAction::Parse => "parse"@,
        HyperTaskErrorAction::Read => "read"@,
        HyperTaskErrorAction::Run => "run"@,
        HyperTaskErrorAction::Write => "write"@,
    }
}

impl HyperTaskErrorAction {
    /// The text this action displays as.
    pub fn as_str(&self) -> (r: &'static str)
        ensures
            r@ == action_text(*self),
    {
        match self {
            HyperTaskErrorAction::Compare => "compare",
            HyperTaskErrorAction::Create => "create",
            HyperTaskErrorAction::Delete => "delete",
            HyperTaskErrorAction::Parse => "parse",
            HyperTaskErrorAction::Read => "read",
            HyperTaskErrorAction::Run => "run",
            HyperTaskErrorAction::Write => "write",
        }
    }
}

/// What caused an error: another error of this library, or an outside error
/// held by the texts that it and each of its sources in turn display as.
#[derive(Debug)]
pub enum ErrorSource {
    HyperTask(Box<HyperTaskError>),
    Other(Vec<String>),
}

/// An error of this library.
#[derive(Debug)]
pub struct HyperTaskError {
    pub domain: HyperTaskErrorDomain,
    pub action: HyperTaskErrorAction,
    pub meta: Option<String>,
    pub source: Option<ErrorSource>,
}

/// Results whose error is a [`HyperTaskError`].
pub type HyperTaskResult<T> = Result<T, HyperTaskError>;

/// The text an error displays as: `HyperTaskError[domain::action]`, followed by
/// `: message` when it carries a message.
pub open spec fn error_text(e: HyperTaskError) -> Seq<char> {
    let head = "HyperTaskError["@ + domain_text(e.domain) + "::"@ + action_text(e.action) + "]"@;
    match e.meta {
        Some(m) => head + ": "@ + m@,
        None => head,
    }
}

/// One line of an error chain: `Error i: text`.
pub open spec fn chain_line(i: int, text: Seq<char>) -> Seq<char> {
    "Error "@ + int_numeral(i) + ": "@ + text
}

/// The lines for the texts `ts` of an outside error chain, numbering the
/// first as `i`.
pub open spec fn text_lines(ts: Seq<Seq<char>>, i: int) -> Seq<Seq<char>> {
    Seq::new(ts.len(), |k: int| chain_line(i + k, ts[k]))
}

/// The lines printed for `e` and its sources, numbering `e` as `i`.
pub open spec fn chain_lines(e: HyperTaskError, i: int) -> Seq<Seq<char>>
    decreases e,
{
    let first = seq![chain_line(i, error_text(e))];
    match e.source {
        None => first,
        Some(ErrorSource::Other(v)) => first + text_lines(string_views(v@), i + 1),
        Some(ErrorSource::HyperTask(b)) => first + chain_lines(*b, i + 1),
    }
}

/// The number of errors in the chain that starts at `e`.
pub open spec fn chain_len(e: HyperTaskError) -> nat
    decreases e,
{
    match e.source {
        None => 1,
        Some(ErrorSource::Other(v)) => 1 + v@.len(),
        Some(ErrorSource::HyperTask(b)) => 1 + chain_len(*b),
    }
}

fn push_str_chars(r: &mut String, s: &str)
    ensures
        final(r)@ == old(r)@ + s@,
{
    r.append(s);
}

impl HyperTaskError {
    /// An error in `domain` while doing `action`, with no message and no source.
    pub fn new(domain: HyperTaskErrorDomain, action: HyperTaskErrorAction) -> (r: Self)
        ensures
            r.domain == domain,
            r.action == action,
            r.meta is None,
            r.source is None,
    {
        HyperTaskError { domain, action, meta: None, source: None }
    }

    /// This error with its message set to `meta`.
    pub fn msg(self, meta: &str) -> (r: Self)
        ensures
            r.domain == self.domain,
            r.action == self.action,
            r.meta matches Some(m) && m@ == meta@,
            r.source == self.source,
    {
        let mut e = self;
        e.meta = Some(String::from_str(meta));
        e
    }

    /// This error with its message set to what `meta_factory` returns.
    pub fn with_msg<F: Fn() -> String>(self, meta_factory: F) -> (r: Self)
        requires
            call_requires(meta_factory, ()),
        ensures
            r.domain == self.domain,
            r.action == self.action,
            r.meta matches Some(m) && call_ensures(meta_factory, (), m),
            r.source == self.source,
    {
        let mut e = self;
        e.meta = Some(meta_factory());
        e
    }

    /// This error with its source set to `source`.
    pub fn from(self, source: ErrorSource) -> (r: Self)
        ensures
            r.domain == self.domain,
            r.action == self.action,
            r.meta == self.meta,
            r.source == Some(source),
    {
        let mut e = self;
        e.source = Some(source);
        e
    }

    /// The text this error displays as.
    pub fn to_display_string(&self) -> (r: String)
        ensures
            r@ == error_text(*self),
    {
        let mut r = String::from_str("HyperTaskError[");
        push_str_chars(&mut r, self.domain.as_str());
        push_str_chars(&mut r, "::");
        push_str_chars(&mut r, self.action.as_str());
        push_str_chars(&mut r, "]");
        match &self.meta {
            Some(m) => {
                push_str_chars(&mut r, ": ");
                push_str_chars(&mut r, m.as_str());
            },
            None => {},
        }
        r
    }

    /// The lines that describe this error and each of its sources in turn,
    /// numbering this error as `i`.
    pub fn chain_lines_from(&self, i: i64) -> (r: Vec<String>)
        requires
            i + chain_len(*self) <= i64::MAX,
        ensures
            string_views(r@) == chain_lines(*self, i as int),
        decreases *self,
    {
        let mut first = String::from_str("Error ");
        let num = i64_to_string(i);
        push_str_chars(&mut first, num.as_str());
        push_str_chars(&mut first, ": ");
        let text = self.to_display_string();
        push_str_chars(&mut first, text.as_str());
        let mut r: Vec<String> = Vec::new();
        r.push(first);
        assert(string_views(r@) =~= seq![chain_line(i as int, error_text(*self))]);
        match &self.source {
            None => r,
            Some(ErrorSource::Other(v)) => {
                let ghost first_view = string_views(r@);
                let ghost tv = string_views(v@);
                let mut k: usize = 0;
                let mut n: i64 = i + 1;
                while k < v.len()
                    invariant
                        k <= v@.len(),
                        n == i + 1 + k,
                        tv == string_views(v@),
                        i + 1 + v@.len() <= i64::MAX,
                        first_view == seq![chain_line(i as int, error_text(*self))],
                        string_views(r@) == first_view + text_lines(tv, i + 1).subrange(0, k as int),
                    decreases v.len() - k,
                {
                    let mut line = String::from_str("Error ");
                    let num = i64_to_string(n);
                    push_str_chars(&mut line, num.as_str());
                    push_str_chars(&mut line, ": ");
                    push_str_chars(&mut line, v[k].as_str());
                    let ghost before = r@;
                    r.push(line);
                    proof {
                        lemma_string_views_push(before, line);
                        assert(tv[k as int] == v@[k as int]@);
                        assert(line@ == text_lines(tv, i + 1)[k as int]);
                    }
                    assert(string_views(r@) =~= first_view + text_lines(tv, i + 1).subrange(0, k + 1));
                    k = k + 1;
                    n = n + 1;
                }
                assert(text_lines(tv, i + 1).subrange(0, v@.len() as int) =~= text_lines(tv, i + 1));
                assert(string_views(r@) =~= chain_lines(*self, i as int));
                r
            },
            Some(ErrorSource::HyperTask(b)) => {
                let rest = b.chain_lines_from(i + 1);
                let ghost first_view = string_views(r@);
                let mut k: usize = 0;
                while k < rest.len()
                    invariant
                        k <= rest@.len(),
                        first_view == seq![chain_line(i as int, error_text(*self))],
                        string_views(r@) == first_view + string_views(rest@).subrange(0, k as int),
                    decreases rest.len() - k,
                {
                    let line = rest[k].clone();
                    let ghost before = r@;
                    r.push(line);
                    proof {
                        lemma_string_views_push(before, line);
                    }
                    assert(line@ == string_views(rest@)[k as int]);
                    assert(string_views(r@) =~= first_view + string_views(rest@).subrange(0, k + 1));
                    k = k + 1;
                }
                assert(string_views(rest@).subrange(0, rest@.len() as int)
                    =~= string_views(rest@));
                r
            },
        }
    }

    /// The lines that describe this error and its sources, numbered from 1.
    pub fn error_chain_lines(&self) -> (r: Vec<String>)
        requires
            chain_len(*self) < i64::MAX,
        ensures
            string_views(r@) == chain_lines(*self, 1),
    {
        self.chain_lines_from(1)
    }
}

impl PartialEq for HyperTaskError {
    fn eq(&self, other: &HyperTaskError) -> (r: bool) {
        self.domain == other.domain && self.action == other.action
    }
}

impl vstd::std_specs::cmp::PartialEqSpecImpl for HyperTaskError {
    open spec fn obeys_eq_spec() -> bool {
        true
    }

    open spec fn eq_spec(&self, other: &HyperTaskError) -> bool {
        self.domain == other.domain && self.action == other.action
    }
}

} // verus!
