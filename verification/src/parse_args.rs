//! Parsing of the command line of the task client: a list of query tokens,
//! then an optional command word, then mutation tokens.

use vstd::prelude::*;
use vstd::utf8::encode_utf8;
use crate::command::{Command, Mutation, Query};
use crate::dates::{
    date_spec, date_token_fits, date_token_ok, malformed_date_message, malformed_recur_message,
    parse_as_date_time, parse_as_recur, recur_spec, recur_token_fits, recur_token_ok,
};
use crate::datetime::DateTime;
use crate::id::{Id, NUMBER_OF_CHARS_IN_FULL_ID};
use crate::prop::Prop;
use crate::tag::{Sign, Tag};
use crate::text::{byte_boundary, chars_of, is_byte_boundary, str_eq, string_of, string_views};

verus! {

/// The command word of a command line.
#[derive(Debug, Clone, Copy, PartialEq, Eq, Structural)]
pub enum CliCommand {
    Add,
    Delete,
    Done,
    Modify,
    Snooze,
}

/// The command a word names, if any.
pub open spec fn command_spec(t: Seq<char>) -> Option<CliCommand> {
    if t == "add"@ {
        Some(CliCommand::Add)
    } else if t == "delete"@ {
        Some(CliCommand::Delete)
    } else if t == "done"@ {
        Some(CliCommand::Done)
    } else if t == "modify"@ {
        Some(CliCommand::Modify)
    } else if t == "snooze"@ {
        Some(CliCommand::Snooze)
    } else {
        None
    }
}

/// The command `token` names, if any.
pub fn parse_as_command(token: &str) -> (r: Option<CliCommand>)
    ensures
        r == command_spec(token@),
{
    if str_eq(token, "add") {
        Some(CliCommand::Add)
    } else if str_eq(token, "delete") {
        Some(CliCommand::Delete)
    } else if str_eq(token, "done") {
        Some(CliCommand::Done)
    } else if str_eq(token, "modify") {
        Some(CliCommand::Modify)
    } else if str_eq(token, "snooze") {
        Some(CliCommand::Snooze)
    } else {
        None
    }
}

/// The position of the first token that names a command, if any.
pub open spec fn first_command_at(ts: Seq<Seq<char>>) -> Option<int> {
    if exists|k: int| 0 <= k < ts.len() && (#[trigger] command_spec(ts[k])) is Some {
        Some(
            choose|k: int|
                0 <= k < ts.len() && (#[trigger] command_spec(ts[k])) is Some && forall|j: int|
                    0 <= j < k ==> command_spec(ts[j]) is None,
        )
    } else {
        None
    }
}

/// The tokens before the first command word, the command, and the tokens after
/// it; without a command word, every token is a query token.
pub open spec fn partition_spec(ts: Seq<Seq<char>>) -> (Seq<Seq<char>>, Option<CliCommand>, Seq<Seq<char>>) {
    match first_command_at(ts) {
        Some(k) => (ts.subrange(0, k), command_spec(ts[k]), ts.subrange(k + 1, ts.len() as int)),
        None => (ts, None, Seq::empty()),
    }
}

proof fn lemma_first_command_at(ts: Seq<Seq<char>>, k: int)
    requires
        0 <= k < ts.len(),
        command_spec(ts[k]) is Some,
        forall|j: int| 0 <= j < k ==> command_spec(ts[j]) is None,
    ensures
        first_command_at(ts) == Some(k),
{
    assert(command_spec(ts[k]) is Some);
    let c = choose|c: int|
        0 <= c < ts.len() && (#[trigger] command_spec(ts[c])) is Some && forall|j: int|
            0 <= j < c ==> command_spec(ts[j]) is None;
    if c < k {
        assert(command_spec(ts[c]) is None);
    }
    if c > k {
        assert(command_spec(ts[k]) is None);
    }
}

proof fn lemma_least_command(ts: Seq<Seq<char>>, k: int)
    requires
        0 <= k < ts.len(),
        command_spec(ts[k]) is Some,
    ensures
        exists|c: int|
            0 <= c < ts.len() && (#[trigger] command_spec(ts[c])) is Some && forall|j: int|
                0 <= j < c ==> command_spec(ts[j]) is None,
    decreases k,
{
    if exists|j: int| 0 <= j < k && (#[trigger] command_spec(ts[j])) is Some {
        let j = choose|j: int| 0 <= j < k && (#[trigger] command_spec(ts[j])) is Some;
        lemma_least_command(ts, j);
    } else {
        assert(forall|j: int| 0 <= j < k ==> command_spec(ts[j]) is None);
    }
}

/// The first command word is in range, names a command, and no word before it
/// does.
pub proof fn lemma_first_command_bounds(ts: Seq<Seq<char>>)
    ensures
        first_command_at(ts) matches Some(k) ==> 0 <= k < ts.len() && command_spec(ts[k]) is Some
            && forall|j: int| 0 <= j < k ==> command_spec(ts[j]) is None,
{
    if exists|k: int| 0 <= k < ts.len() && (#[trigger] command_spec(ts[k])) is Some {
        let k = choose|k: int| 0 <= k < ts.len() && (#[trigger] command_spec(ts[k])) is Some;
        lemma_least_command(ts, k);
    }
}

/// Splits the arguments at the first command word.
pub fn partition_args(args: &[String]) -> (r: (Vec<String>, Option<CliCommand>, Vec<String>))
    ensures
        ({
            let (q, c, m) = partition_spec(crate::text::string_views(args@));
            &&& crate::text::string_views(r.0@) == q
            &&& r.1 == c
            &&& crate::text::string_views(r.2@) == m
        }),
{
    let ghost ts = crate::text::string_views(args@);
    let mut query_tokens: Vec<String> = Vec::new();
    let mut mutation_tokens: Vec<String> = Vec::new();
    let mut command: Option<CliCommand> = None;
    let mut k: usize = 0;
    let mut i: usize = 0;
    while i < args.len()
        invariant
            ts == crate::text::string_views(args@),
            i <= args@.len(),
            k <= i,
            command is None ==> k == i && crate::text::string_views(query_tokens@) == ts.subrange(0, i as int)
                && forall|j: int| 0 <= j < i ==> command_spec(ts[j]) is None,
            command is Some ==> k < i && command == command_spec(ts[k as int]) && crate::text::string_views(
                query_tokens@,
            ) == ts.subrange(0, k as int) && forall|j: int| 0 <= j < k ==> command_spec(ts[j]) is None,
            command is Some ==> crate::text::string_views(mutation_tokens@) == ts.subrange(k + 1, i as int),
            command is None ==> mutation_tokens@.len() == 0,
        decreases args.len() - i,
    {
        let arg = &args[i];
        assert(ts[i as int] == arg@);
        if command.is_none() {
            match parse_as_command(arg.as_str()) {
                Some(c) => {
                    command = Some(c);
                    k = i;
                    assert(crate::text::string_views(mutation_tokens@) =~= ts.subrange(k + 1, i + 1));
                },
                None => {
                    let ghost before = query_tokens@;
                    query_tokens.push(arg.clone());
                    proof {
                        crate::text::lemma_string_views_push(before, query_tokens@.last());
                        assert(query_tokens@ == before.push(query_tokens@.last()));
                    }
                    assert(crate::text::string_views(query_tokens@) =~= ts.subrange(0, i + 1));
                    k = i + 1;
                },
            }
        } else {
            let ghost before = mutation_tokens@;
            mutation_tokens.push(arg.clone());
            proof {
                crate::text::lemma_string_views_push(before, mutation_tokens@.last());
                assert(mutation_tokens@ == before.push(mutation_tokens@.last()));
            }
            assert(crate::text::string_views(mutation_tokens@) =~= ts.subrange(k + 1, i + 1));
        }
        i = i + 1;
    }
    proof {
        if command is Some {
            lemma_first_command_at(ts, k as int);
        } else {
            assert(ts.subrange(0, i as int) =~= ts);
            assert(!(exists|j: int| 0 <= j < ts.len() && (#[trigger] command_spec(ts[j])) is Some));
            assert(crate::text::string_views(mutation_tokens@) =~= Seq::<Seq<char>>::empty());
        }
    }
    (query_tokens, command, mutation_tokens)
}

/// The character is in the ASCII range.
pub open spec fn is_ascii_char(c: char) -> bool {
    (c as u32) < 128
}

/// Slicing off the first byte of the token does not panic: the token is not
/// empty and its first character takes one byte.
pub open spec fn tag_token_ok(t: Seq<char>) -> bool {
    t.len() > 0 && is_ascii_char(t[0])
}

/// The tag a token denotes: `+name` or `-name`.
pub open spec fn tag_spec(t: Seq<char>) -> Option<(Sign, Seq<char>)> {
    if t.len() > 0 && t[0] == '+' {
        Some((Sign::Plus, t.drop_first()))
    } else if t.len() > 0 && t[0] == '-' {
        Some((Sign::Minus, t.drop_first()))
    } else {
        None
    }
}

/// The tag `token` denotes, if it starts with `+` or `-`.
pub fn parse_as_tag(token: &str) -> (r: Option<Tag>)
    requires
        tag_token_ok(token@),
    ensures
        match tag_spec(token@) {
            Some((s, n)) => r matches Some(tag) && tag.sign == s && tag.name@ == n,
            None => r is None,
        },
{
    let n = token.unicode_len();
    let first = token.get_char(0);
    let rest = String::from_str(token.substring_char(1, n));
    proof {
        assert(token@.subrange(1, n as int) =~= token@.drop_first());
    }
    if first == '+' {
        Some(Tag { sign: Sign::Plus, name: rest })
    } else if first == '-' {
        Some(Tag { sign: Sign::Minus, name: rest })
    } else {
        None
    }
}

/// A token names an identifier when its UTF-8 encoding is at most
/// `NUMBER_OF_CHARS_IN_FULL_ID` bytes long (`str::len` counts bytes).
pub open spec fn id_spec(t: Seq<char>) -> Option<Seq<char>> {
    if (encode_utf8(t).len() as usize) > NUMBER_OF_CHARS_IN_FULL_ID {
        None
    } else {
        Some(t)
    }
}

/// The identifier `token` names, if it is short enough.
pub fn parse_as_id(token: &str) -> (r: Option<Id>)
    ensures
        match id_spec(token@) {
            Some(i) => r matches Some(id) && id@ == i,
            None => r is None,
        },
{
    if token.len() > NUMBER_OF_CHARS_IN_FULL_ID {
        None
    } else {
        Some(Id(String::from_str(token)))
    }
}

/// The message for a token that is not a query.
pub open spec fn query_error_spec(t: Seq<char>) -> Seq<char> {
    "`"@ + t + "` is not a valid query parameter"@
}

/// `q` is the query that token `t` denotes: a tag, else an identifier.
pub open spec fn query_parses_to(t: Seq<char>, q: Query) -> bool {
    match tag_spec(t) {
        Some((s, n)) => q matches Query::Tag(tag) && tag.sign == s && tag.name@ == n,
        None => match id_spec(t) {
            Some(i) => q matches Query::Id(id) && id@ == i,
            None => false,
        },
    }
}

/// The token denotes a query.
pub open spec fn is_query(t: Seq<char>) -> bool {
    tag_spec(t) is Some || id_spec(t) is Some
}

/// The query `token` denotes, or the message saying that it denotes none.
pub fn parse_as_query(token: &str) -> (r: Result<Query, String>)
    requires
        tag_token_ok(token@),
    ensures
        is_query(token@) ==> (r matches Ok(q) && query_parses_to(token@, q)),
        !is_query(token@) ==> (r matches Err(e) && e@ == query_error_spec(token@)),
{
    match parse_as_tag(token) {
        Some(tag) => {
            return Ok(Query::Tag(tag));
        },
        None => {},
    }
    match parse_as_id(token) {
        Some(id) => {
            return Ok(Query::Id(id));
        },
        None => {},
    }
    let mut e = String::from_str("`");
    e.append(token);
    e.append("` is not a valid query parameter");
    Err(e)
}

/// `k` is the position of the first colon of the token.
pub open spec fn first_colon_at(t: Seq<char>, k: int) -> bool {
    &&& 0 <= k < t.len()
    &&& t[k] == ':'
    &&& forall|j: int| 0 <= j < k ==> t[j] != ':'
}

/// The position of the first colon of the token, if it has one.
pub open spec fn colon_index(t: Seq<char>) -> Option<int> {
    if exists|k: int| first_colon_at(t, k) {
        Some(choose|k: int| first_colon_at(t, k))
    } else {
        None
    }
}

/// Every character before position `k` is an ASCII character.
pub open spec fn ascii_before(t: Seq<char>, k: int) -> bool {
    forall|j: int| 0 <= j < k ==> is_ascii_char(#[trigger] t[j])
}

/// Cutting the token around its first colon does not panic. The cut is made at
/// the colon's character position taken as a byte offset, so when a non-ASCII
/// character comes before the colon both offsets must fall between characters
/// of the token's UTF-8 encoding.
pub open spec fn prop_token_ok(t: Seq<char>) -> bool {
    match colon_index(t) {
        Some(k) => ascii_before(t, k) || (is_byte_boundary(t, k) && is_byte_boundary(t, k + 1)),
        None => true,
    }
}

/// Reading the value of `key:value` at `now` does not panic: a date value
/// names an instant without overflow and a recurrence value fits.
pub open spec fn prop_value_ok(key: Seq<char>, value: Seq<char>, now: DateTime) -> bool {
    if value.len() == 0 {
        true
    } else if key == "due"@ || key == "wait"@ || key == "snooze"@ {
        date_token_ok(value, now)
    } else if key == "recur"@ {
        recur_token_ok(value)
    } else {
        true
    }
}

/// Reading the property a token sets at `now` does not panic.
pub open spec fn prop_dates_ok(t: Seq<char>, now: DateTime) -> bool {
    match colon_index(t) {
        Some(k) => !ascii_before(t, k) || prop_value_ok(
            t.subrange(0, k),
            t.subrange(k + 1, t.len() as int),
            now,
        ),
        None => true,
    }
}

/// The message for a token whose key is not a property.
pub open spec fn malformed_prop_message(t: Seq<char>) -> Seq<char> {
    "`"@ + t + "` is a malformed prop parameter"@
}

/// The property that `key:value` sets: `due`, `wait` and `snooze` take an
/// instant and `recur` a recurrence; an empty value clears the property.
pub open spec fn prop_value_spec(key: Seq<char>, value: Seq<char>, t: Seq<char>, now: DateTime) -> Result<
    Prop,
    Seq<char>,
> {
    if key == "due"@ || key == "wait"@ || key == "snooze"@ {
        let d = if value.len() == 0 {
            Ok(None)
        } else {
            match date_spec(value, now) {
                Some(d) => Ok(Some(d)),
                None => Err(malformed_date_message(value)),
            }
        };
        match d {
            Ok(v) => Ok(
                if key == "due"@ {
                    Prop::Due(v)
                } else if key == "wait"@ {
                    Prop::Wait(v)
                } else {
                    Prop::Snooze(v)
                },
            ),
            Err(e) => Err(e),
        }
    } else if key == "recur"@ {
        if value.len() == 0 {
            Ok(Prop::Recur(None))
        } else {
            match recur_spec(value) {
                Some(x) => Ok(Prop::Recur(Some(x))),
                None => Err(malformed_recur_message(value)),
            }
        }
    } else {
        Err(malformed_prop_message(t))
    }
}

/// What a token of the form `key:value` sets, or `None` for a token without a
/// colon. Only a key made of ASCII characters can name a property.
pub open spec fn prop_spec(t: Seq<char>, now: DateTime) -> Option<Result<Prop, Seq<char>>> {
    match colon_index(t) {
        None => None,
        Some(k) => Some(
            if ascii_before(t, k) {
                prop_value_spec(t.subrange(0, k), t.subrange(k + 1, t.len() as int), t, now)
            } else {
                Err(malformed_prop_message(t))
            },
        ),
    }
}

proof fn lemma_first_colon_unique(t: Seq<char>, k: int)
    requires
        first_colon_at(t, k),
    ensures
        colon_index(t) == Some(k),
{
    let c = choose|c: int| first_colon_at(t, c);
    assert(first_colon_at(t, c));
    if c < k {
        assert(t[c] == ':');
    }
    if k < c {
        assert(t[k] == ':');
    }
}

/// The position of the first colon of `token`, if any.
fn colon_position(token: &str) -> (r: Option<usize>)
    ensures
        match r {
            Some(k) => first_colon_at(token@, k as int),
            None => forall|j: int| 0 <= j < token@.len() ==> token@[j] != ':',
        },
{
    let n = token.unicode_len();
    let mut i: usize = 0;
    while i < n
        invariant
            n == token@.len(),
            i <= n,
            forall|j: int| 0 <= j < i ==> token@[j] != ':',
        decreases n - i,
    {
        if token.get_char(i) == ':' {
            return Some(i);
        }
        i = i + 1;
    }
    None
}

/// Whether every character of `token` before position `k` is ASCII.
fn is_ascii_prefix(token: &str, k: usize) -> (r: bool)
    requires
        k <= token@.len(),
    ensures
        r == ascii_before(token@, k as int),
{
    let mut i: usize = 0;
    while i < k
        invariant
            k <= token@.len(),
            i <= k,
            ascii_before(token@, i as int),
        decreases k - i,
    {
        let c = token.get_char(i);
        if (c as u32) >= 128 {
            assert(!is_ascii_char(token@[i as int]));
            return false;
        }
        i = i + 1;
    }
    true
}

fn malformed_prop(token: &str) -> (r: String)
    ensures
        r@ == malformed_prop_message(token@),
{
    let mut e = String::from_str("`");
    e.append(token);
    e.append("` is a malformed prop parameter");
    e
}

/// The instant a date value names, `None` for an empty value.
fn optional_date(value: &str, now: &DateTime) -> (r: Result<Option<DateTime>, String>)
    requires
        value@.len() > 0 ==> date_token_ok(value@, *now),
    ensures
        value@.len() == 0 ==> r == Ok::<Option<DateTime>, String>(None),
        value@.len() > 0 ==> match date_spec(value@, *now) {
            Some(d) => r == Ok::<Option<DateTime>, String>(Some(d)),
            None => r matches Err(e) && e@ == malformed_date_message(value@),
        },
{
    if value.unicode_len() == 0 {
        Ok(None)
    } else {
        match parse_as_date_time(value, now) {
            Ok(d) => Ok(Some(d)),
            Err(e) => Err(e),
        }
    }
}

/// The property that `key:value` sets, or the message saying why it sets none.
fn prop_value(key: &str, value: &str, token: &str, now: &DateTime) -> (r: Result<Prop, String>)
    requires
        prop_value_ok(key@, value@, *now),
    ensures
        match prop_value_spec(key@, value@, token@, *now) {
            Ok(p) => r == Ok::<Prop, String>(p),
            Err(m) => r matches Err(e) && e@ == m,
        },
{
    if str_eq(key, "due") || str_eq(key, "wait") || str_eq(key, "snooze") {
        match optional_date(value, now) {
            Ok(v) => {
                if str_eq(key, "due") {
                    Ok(Prop::Due(v))
                } else if str_eq(key, "wait") {
                    Ok(Prop::Wait(v))
                } else {
                    Ok(Prop::Snooze(v))
                }
            },
            Err(e) => Err(e),
        }
    } else if str_eq(key, "recur") {
        if value.unicode_len() == 0 {
            Ok(Prop::Recur(None))
        } else {
            match parse_as_recur(value) {
                Ok(x) => Ok(Prop::Recur(Some(x))),
                Err(e) => Err(e),
            }
        }
    } else {
        Err(malformed_prop(token))
    }
}

/// What `token` sets when it has the form `key:value`: `None` without a colon,
/// else the property or the message saying why the token is malformed.
pub fn parse_as_prop(token: &str, now: &DateTime) -> (r: Option<Result<Prop, String>>)
    requires
        prop_token_ok(token@),
        prop_dates_ok(token@, *now),
    ensures
        match prop_spec(token@, *now) {
            None => r is None,
            Some(Ok(p)) => r == Some(Ok::<Prop, String>(p)),
            Some(Err(m)) => r matches Some(Err(e)) && e@ == m,
        },
{
    match colon_position(token) {
        None => {
            assert(!exists|k: int| first_colon_at(token@, k));
            None
        },
        Some(k) => {
            proof {
                lemma_first_colon_unique(token@, k as int);
            }
            if !is_ascii_prefix(token, k) {
                return Some(Err(malformed_prop(token)));
            }
            let n = token.unicode_len();
            let key = token.substring_char(0, k);
            let value = token.substring_char(k + 1, n);
            Some(prop_value(key, value, token, now))
        },
    }
}

/// `m` is the mutation that token `t` denotes at `now`: a tag, else a
/// property, else a piece of the description.
pub open spec fn mutation_parses_to(t: Seq<char>, now: DateTime, m: Mutation) -> bool {
    match tag_spec(t) {
        Some((s, n)) => m matches Mutation::SetTag(tag) && tag.sign == s && tag.name@ == n,
        None => match prop_spec(t, now) {
            Some(Ok(p)) => m == Mutation::SetProp(p),
            Some(Err(_)) => false,
            None => m matches Mutation::SetProp(Prop::Description(d)) && d@ == t,
        },
    }
}

/// The message for a token that denotes no mutation, if it denotes none.
pub open spec fn mutation_error(t: Seq<char>, now: DateTime) -> Option<Seq<char>> {
    match tag_spec(t) {
        Some(_) => None,
        None => match prop_spec(t, now) {
            Some(Err(e)) => Some(e),
            _ => None,
        },
    }
}

/// Reading the mutation a token denotes at `now` does not panic.
pub open spec fn mutation_token_ok(t: Seq<char>, now: DateTime) -> bool {
    &&& tag_token_ok(t)
    &&& prop_token_ok(t)
    &&& tag_spec(t) is None ==> prop_dates_ok(t, now)
}

/// The mutation `token` denotes at `now`, or the message saying why it
/// denotes none.
pub fn parse_as_mutation(token: &str, now: &DateTime) -> (r: Result<Mutation, String>)
    requires
        mutation_token_ok(token@, *now),
    ensures
        match mutation_error(token@, *now) {
            Some(m) => r matches Err(e) && e@ == m,
            None => r matches Ok(x) && mutation_parses_to(token@, *now, x),
        },
{
    match parse_as_tag(token) {
        Some(tag) => {
            return Ok(Mutation::SetTag(tag));
        },
        None => {},
    }
    match parse_as_prop(token, now) {
        Some(Ok(prop)) => Ok(Mutation::SetProp(prop)),
        Some(Err(msg)) => Err(msg),
        None => Ok(Mutation::SetProp(Prop::Description(String::from_str(token)))),
    }
}

/// The mutation sets a piece of the description.
pub open spec fn is_description(m: Mutation) -> bool {
    m matches Mutation::SetProp(Prop::Description(_))
}

/// The text of a description mutation.
pub open spec fn description_text(m: Mutation) -> Seq<char> {
    match m {
        Mutation::SetProp(Prop::Description(d)) => d@,
        _ => Seq::empty(),
    }
}

/// The mutations other than descriptions, last first.
pub open spec fn others_reversed(ms: Seq<Mutation>) -> Seq<Mutation>
    decreases ms.len(),
{
    if ms.len() == 0 {
        Seq::empty()
    } else {
        let rest = others_reversed(ms.drop_first());
        if is_description(ms[0]) {
            rest
        } else {
            rest.push(ms[0])
        }
    }
}

/// The texts of the description mutations, in order.
pub open spec fn descriptions(ms: Seq<Mutation>) -> Seq<Seq<char>>
    decreases ms.len(),
{
    if ms.len() == 0 {
        Seq::empty()
    } else {
        let rest = descriptions(ms.drop_first());
        if is_description(ms[0]) {
            seq![description_text(ms[0])] + rest
        } else {
            rest
        }
    }
}

/// The texts joined with single spaces.
pub open spec fn join_words(ws: Seq<Seq<char>>) -> Seq<char>
    decreases ws.len(),
{
    if ws.len() == 0 {
        Seq::empty()
    } else if ws.len() == 1 {
        ws[0]
    } else {
        ws[0] + " "@ + join_words(ws.drop_first())
    }
}

/// `out` is `ms` with the descriptions merged: the other mutations last first,
/// then, when there is any description, one description that joins them all.
pub open spec fn merged(ms: Seq<Mutation>, out: Seq<Mutation>) -> bool {
    let o = others_reversed(ms);
    let ds = descriptions(ms);
    &&& out.subrange(0, o.len() as int) == o
    &&& ds.len() == 0 ==> out.len() == o.len()
    &&& ds.len() > 0 ==> out.len() == o.len() + 1 && (out.last() matches Mutation::SetProp(
        Prop::Description(d),
    ) && d@ == join_words(ds))
}

/// Merges the description pieces of `mutations` into one description.
pub fn merge_description_mutations(mutations: Vec<Mutation>) -> (r: Vec<Mutation>)
    ensures
        merged(mutations@, r@),
{
    let ghost ms = mutations@;
    let mut mutations = mutations;
    let mut output: Vec<Mutation> = Vec::new();
    let mut description: Option<String> = None;
    while mutations.len() > 0
        invariant
            mutations@.len() <= ms.len(),
            mutations@ == ms.subrange(0, mutations@.len() as int),
            output@ == others_reversed(ms.subrange(mutations@.len() as int, ms.len() as int)),
            ({
                let ds = descriptions(ms.subrange(mutations@.len() as int, ms.len() as int));
                &&& ds.len() == 0 <==> description is None
                &&& description matches Some(d) ==> d@ == join_words(ds)
            }),
        decreases mutations.len(),
    {
        let ghost k = mutations@.len() as int;
        let ghost tail = ms.subrange(k, ms.len() as int);
        let ghost longer = ms.subrange(k - 1, ms.len() as int);
        assert(longer.drop_first() =~= tail);
        assert(longer[0] == ms[k - 1]);
        let m = mutations.pop().unwrap();
        assert(m == ms[k - 1]);
        match m {
            Mutation::SetProp(Prop::Description(d)) => {
                let ghost old_ds = descriptions(tail);
                assert(descriptions(longer) == seq![d@] + old_ds);
                description = match description {
                    None => Some(d),
                    Some(ds) => {
                        let mut joined = d;
                        joined.append(" ");
                        joined.append(ds.as_str());
                        Some(joined)
                    },
                };
                proof {
                    let nds = seq![d@] + old_ds;
                    assert(nds.drop_first() =~= old_ds);
                }
            },
            other => {
                assert(!is_description(other));
                output.push(other);
            },
        }
    }
    assert(ms.subrange(0, ms.len() as int) =~= ms);
    let ghost o = output@;
    match description {
        Some(d) => {
            output.push(Mutation::SetProp(Prop::Description(d)));
            assert(output@.subrange(0, o.len() as int) =~= o);
        },
        None => {
            assert(output@.subrange(0, o.len() as int) =~= o);
        },
    }
    output
}

/// Token `i` is the first of the query tokens that denotes no query.
pub open spec fn first_bad_query_at(q: Seq<Seq<char>>, i: int) -> bool {
    &&& 0 <= i < q.len()
    &&& !is_query(q[i])
    &&& forall|j: int| 0 <= j < i ==> is_query(#[trigger] q[j])
}

/// Token `i` is the first of the mutation tokens that denotes no mutation.
pub open spec fn first_bad_mutation_at(m: Seq<Seq<char>>, now: DateTime, i: int) -> bool {
    &&& 0 <= i < m.len()
    &&& mutation_error(m[i], now) is Some
    &&& forall|j: int| 0 <= j < i ==> (#[trigger] mutation_error(m[j], now)) is None
}

/// `qs` holds the queries that the tokens denote, in order.
pub open spec fn queries_from(q: Seq<Seq<char>>, qs: Seq<Query>) -> bool {
    &&& qs.len() == q.len()
    &&& forall|i: int| 0 <= i < q.len() ==> query_parses_to(q[i], #[trigger] qs[i])
}

/// `out` holds the mutations that the tokens denote at `now`, with their
/// descriptions merged.
pub open spec fn mutations_from(m: Seq<Seq<char>>, now: DateTime, out: Seq<Mutation>) -> bool {
    exists|ps: Seq<Mutation>|
        #![trigger merged(ps, out)]
        ps.len() == m.len() && (forall|i: int| 0 <= i < m.len() ==> mutation_parses_to(m[i], now, #[trigger] ps[i]))
            && merged(ps, out)
}

/// The command a command line asks for, given its parsed queries and
/// mutations: `done` sets the done instant to `now`, `snooze` snoozes for an
/// hour, and a line without a command word reads.
pub open spec fn command_built(
    cmd: Command,
    c: Option<CliCommand>,
    q: Seq<Seq<char>>,
    m: Seq<Seq<char>>,
    now: DateTime,
) -> bool {
    match c {
        Some(CliCommand::Add) => cmd matches Command::Create(v) && mutations_from(m, now, v@),
        Some(CliCommand::Delete) => cmd matches Command::Delete(qs) && queries_from(q, qs@),
        Some(CliCommand::Done) => cmd matches Command::Update(qs, v) && queries_from(q, qs@) && v@
            == seq![Mutation::SetProp(Prop::Done(now))],
        Some(CliCommand::Snooze) => cmd matches Command::Update(qs, v) && queries_from(q, qs@) && v@
            == seq![Mutation::SetProp(Prop::Snooze(Some(now.plus(3600))))],
        Some(CliCommand::Modify) => cmd matches Command::Update(qs, v) && queries_from(q, qs@)
            && mutations_from(m, now, v@),
        None => cmd matches Command::Read(qs) && queries_from(q, qs@),
    }
}

/// What parsing the command line `ts` at `now` gives: the message of the first
/// query token that denotes no query; else that of the first malformed
/// mutation token; else the command.
pub open spec fn cli_result(ts: Seq<Seq<char>>, now: DateTime, r: Result<Command, String>) -> bool {
    let (q, c, m) = partition_spec(ts);
    if exists|i: int| first_bad_query_at(q, i) {
        r matches Err(e) && exists|i: int| first_bad_query_at(q, i) && e@ == query_error_spec(q[i])
    } else if exists|i: int| first_bad_mutation_at(m, now, i) {
        r matches Err(e) && exists|i: int|
            first_bad_mutation_at(m, now, i) && mutation_error(m[i], now) == Some(e@)
    } else {
        r matches Ok(cmd) && command_built(cmd, c, q, m, now)
    }
}

/// Parsing the query tokens does not panic: parsing stops at the first token
/// that denotes no query, and each token up to it is non-empty and starts with
/// an ASCII character.
pub open spec fn queries_safe(q: Seq<Seq<char>>) -> bool {
    forall|i: int|
        0 <= i < q.len() && (forall|j: int| 0 <= j < i ==> is_query(#[trigger] q[j])) ==> tag_token_ok(
            #[trigger] q[i],
        )
}

/// Parsing the mutation tokens at `now` does not panic: parsing stops at the
/// first malformed token, and reading each token up to it does not panic.
pub open spec fn mutations_safe(m: Seq<Seq<char>>, now: DateTime) -> bool {
    forall|i: int|
        0 <= i < m.len() && (forall|j: int| 0 <= j < i ==> (#[trigger] mutation_error(m[j], now)) is None)
            ==> mutation_token_ok(#[trigger] m[i], now)
}

/// Parsing the command line `ts` at `now` does not panic: the queries are
/// parsed first, and the mutations only when every query token denotes a query;
/// a well-formed `snooze` line moves `now` on by an hour.
pub open spec fn cli_ok(ts: Seq<Seq<char>>, now: DateTime) -> bool {
    let (q, c, m) = partition_spec(ts);
    &&& queries_safe(q)
    &&& (forall|i: int| 0 <= i < q.len() ==> is_query(#[trigger] q[i])) ==> mutations_safe(m, now)
    &&& (forall|i: int| 0 <= i < q.len() ==> is_query(#[trigger] q[i])) && (forall|i: int|
        0 <= i < m.len() ==> (#[trigger] mutation_error(m[i], now)) is None) && c == Some(
        CliCommand::Snooze,
    ) ==> now.can_add(3600)
}

proof fn lemma_queries_unsafe(q: Seq<Seq<char>>, i: int)
    requires
        0 <= i < q.len(),
        forall|j: int| 0 <= j < i ==> is_query(#[trigger] q[j]),
        !tag_token_ok(q[i]),
    ensures
        !queries_safe(q),
{
}

proof fn lemma_queries_safe_to(q: Seq<Seq<char>>, i: int)
    requires
        0 <= i <= q.len(),
        forall|j: int| 0 <= j < i ==> is_query(#[trigger] q[j]) && tag_token_ok(q[j]),
        i < q.len() ==> tag_token_ok(q[i]) && !is_query(q[i]),
    ensures
        queries_safe(q),
        (forall|j: int| 0 <= j < q.len() ==> is_query(#[trigger] q[j])) <==> i == q.len(),
{
    assert forall|a: int|
        0 <= a < q.len() && (forall|j: int| 0 <= j < a ==> is_query(#[trigger] q[j])) implies tag_token_ok(
        #[trigger] q[a],
    ) by {
        if a > i {
            assert(is_query(q[i]));
        } else if a < i {
            assert(is_query(q[a]));
        }
    }
}

proof fn lemma_mutations_unsafe(m: Seq<Seq<char>>, now: DateTime, k: int)
    requires
        0 <= k < m.len(),
        forall|j: int| 0 <= j < k ==> (#[trigger] mutation_error(m[j], now)) is None,
        !mutation_token_ok(m[k], now),
    ensures
        !mutations_safe(m, now),
{
}

proof fn lemma_mutations_safe_to(m: Seq<Seq<char>>, now: DateTime, k: int)
    requires
        0 <= k <= m.len(),
        forall|j: int| 0 <= j < k ==> (#[trigger] mutation_error(m[j], now)) is None && mutation_token_ok(m[j], now),
        k < m.len() ==> mutation_token_ok(m[k], now) && mutation_error(m[k], now) is Some,
    ensures
        mutations_safe(m, now),
{
    assert forall|a: int|
        0 <= a < m.len() && (forall|j: int| 0 <= j < a ==> (#[trigger] mutation_error(m[j], now)) is None)
            implies mutation_token_ok(#[trigger] m[a], now) by {
        if a > k {
            assert(mutation_error(m[k], now) is None);
        } else if a < k {
            assert(mutation_error(m[a], now) is None);
        }
    }
}

proof fn lemma_least_bad_query(q: Seq<Seq<char>>, i: int)
    requires
        0 <= i < q.len(),
        !is_query(q[i]),
    ensures
        exists|k: int| first_bad_query_at(q, k),
    decreases i,
{
    if exists|j: int| 0 <= j < i && !is_query(#[trigger] q[j]) {
        let j = choose|j: int| 0 <= j < i && !is_query(#[trigger] q[j]);
        lemma_least_bad_query(q, j);
    } else {
        assert(first_bad_query_at(q, i));
    }
}

/// The queries the tokens denote, or the message of the first one that
/// denotes none.
fn parse_queries(tokens: &Vec<String>) -> (r: Result<Vec<Query>, String>)
    requires
        queries_safe(string_views(tokens@)),
    ensures
        ({
            let q = string_views(tokens@);
            &&& (exists|i: int| first_bad_query_at(q, i)) ==> (r matches Err(e) && exists|i: int|
                first_bad_query_at(q, i) && e@ == query_error_spec(q[i]))
            &&& !(exists|i: int| first_bad_query_at(q, i)) ==> (r matches Ok(qs) && queries_from(q, qs@))
        }),
{
    let ghost q = string_views(tokens@);
    let mut out: Vec<Query> = Vec::new();
    let mut i: usize = 0;
    while i < tokens.len()
        invariant
            q == string_views(tokens@),
            queries_safe(q),
            i <= tokens@.len(),
            out@.len() == i,
            forall|j: int| 0 <= j < i ==> is_query(#[trigger] q[j]) && query_parses_to(q[j], out@[j]),
        decreases tokens.len() - i,
    {
        assert(q[i as int] == tokens@[i as int]@);
        assert(tag_token_ok(q[i as int]));
        match parse_as_query(tokens[i].as_str()) {
            Ok(x) => {
                out.push(x);
            },
            Err(e) => {
                assert(first_bad_query_at(q, i as int));
                return Err(e);
            },
        }
        i = i + 1;
    }
    proof {
        if exists|k: int| first_bad_query_at(q, k) {
            let k = choose|k: int| first_bad_query_at(q, k);
            assert(is_query(q[k]));
        }
    }
    Ok(out)
}

/// The mutations the tokens denote at `now`, or the message of the first one
/// that denotes none.
fn parse_mutations(tokens: &Vec<String>, now: &DateTime) -> (r: Result<Vec<Mutation>, String>)
    requires
        mutations_safe(string_views(tokens@), *now),
    ensures
        ({
            let m = string_views(tokens@);
            &&& (exists|i: int| first_bad_mutation_at(m, *now, i)) ==> (r matches Err(e) && exists|i: int|
                first_bad_mutation_at(m, *now, i) && mutation_error(m[i], *now) == Some(e@))
            &&& !(exists|i: int| first_bad_mutation_at(m, *now, i)) ==> (r matches Ok(ps) && ps@.len()
                == m.len() && forall|i: int| 0 <= i < m.len() ==> mutation_parses_to(m[i], *now, #[trigger] ps@[i]))
        }),
{
    let ghost m = string_views(tokens@);
    let mut out: Vec<Mutation> = Vec::new();
    let mut i: usize = 0;
    while i < tokens.len()
        invariant
            m == string_views(tokens@),
            mutations_safe(m, *now),
            i <= tokens@.len(),
            out@.len() == i,
            forall|j: int| 0 <= j < i ==> (#[trigger] mutation_error(m[j], *now)) is None,
            forall|j: int| 0 <= j < i ==> mutation_parses_to(m[j], *now, #[trigger] out@[j]),
        decreases tokens.len() - i,
    {
        assert(m[i as int] == tokens@[i as int]@);
        assert(mutation_token_ok(m[i as int], *now));
        match parse_as_mutation(tokens[i].as_str(), now) {
            Ok(x) => {
                out.push(x);
            },
            Err(e) => {
                assert(first_bad_mutation_at(m, *now, i as int));
                return Err(e);
            },
        }
        i = i + 1;
    }
    proof {
        if exists|k: int| first_bad_mutation_at(m, *now, k) {
            let k = choose|k: int| first_bad_mutation_at(m, *now, k);
            assert(mutation_error(m[k], *now) is None);
        }
    }
    Ok(out)
}

proof fn lemma_least_bad_mutation(m: Seq<Seq<char>>, now: DateTime, i: int)
    requires
        0 <= i < m.len(),
        mutation_error(m[i], now) is Some,
    ensures
        exists|k: int| first_bad_mutation_at(m, now, k),
    decreases i,
{
    if exists|j: int| 0 <= j < i && (#[trigger] mutation_error(m[j], now)) is Some {
        let j = choose|j: int| 0 <= j < i && (#[trigger] mutation_error(m[j], now)) is Some;
        lemma_least_bad_mutation(m, now, j);
    } else {
        assert(first_bad_mutation_at(m, now, i));
    }
}

/// A well-formed `snooze` line can move `now` on by an hour.
proof fn lemma_snooze_fits(ts: Seq<Seq<char>>, now: DateTime)
    requires
        cli_ok(ts, now),
        forall|i: int| 0 <= i < partition_spec(ts).0.len() ==> is_query(#[trigger] partition_spec(ts).0[i]),
        !exists|i: int| first_bad_mutation_at(partition_spec(ts).2, now, i),
        partition_spec(ts).1 == Some(CliCommand::Snooze),
    ensures
        now.can_add(3600),
{
    let (q, c, m) = partition_spec(ts);
    assert forall|i: int| 0 <= i < m.len() implies (#[trigger] mutation_error(m[i], now)) is None by {
        if mutation_error(m[i], now) is Some {
            lemma_least_bad_mutation(m, now, i);
        }
    }
    assert forall|i: int| 0 <= i < q.len() implies is_query(#[trigger] q[i]) by {
        assert(is_query(partition_spec(ts).0[i]));
    }
}

/// Parses the command line `args` at the instant `now`.
pub fn parse_cli_args_at(args: &[String], now: &DateTime) -> (r: Result<Command, String>)
    requires
        cli_ok(string_views(args@), *now),
    ensures
        cli_result(string_views(args@), *now, r),
{
    let ghost ts = string_views(args@);
    let (query_tokens, command, mutation_tokens) = partition_args(args);
    let ghost (q, c, m) = partition_spec(ts);
    let queries = match parse_queries(&query_tokens) {
        Ok(x) => x,
        Err(e) => {
            return Err(e);
        },
    };
    proof {
        assert forall|i: int| 0 <= i < q.len() implies is_query(#[trigger] q[i]) by {
            if !is_query(q[i]) {
                lemma_least_bad_query(q, i);
            }
        }
    }
    let mutations = match parse_mutations(&mutation_tokens, now) {
        Ok(x) => x,
        Err(e) => {
            return Err(e);
        },
    };
    assert(!exists|i: int| first_bad_mutation_at(m, *now, i));
    let ghost ps = mutations@;
    let merged_mutations = merge_description_mutations(mutations);
    assert(merged(ps, merged_mutations@));
    assert(mutations_from(m, *now, merged_mutations@));
    assert(queries_from(q, queries@));
    let cmd = match command {
        Some(CliCommand::Add) => Command::Create(merged_mutations),
        Some(CliCommand::Delete) => Command::Delete(queries),
        Some(CliCommand::Done) => {
            let mut v: Vec<Mutation> = Vec::new();
            v.push(Mutation::SetProp(Prop::Done(*now)));
            Command::Update(queries, v)
        },
        Some(CliCommand::Snooze) => {
            proof {
                lemma_snooze_fits(ts, *now);
            }
            let later = now.add_secs(3600);
            let mut v: Vec<Mutation> = Vec::new();
            v.push(Mutation::SetProp(Prop::Snooze(Some(later))));
            Command::Update(queries, v)
        },
        Some(CliCommand::Modify) => Command::Update(queries, merged_mutations),
        None => Command::Read(queries),
    };
    assert(command_built(cmd, c, q, m, *now));
    Ok(cmd)
}

/// Whether the token is non-empty and starts with an ASCII character.
pub fn tag_token_fits(token: &str) -> (r: bool)
    ensures
        r == tag_token_ok(token@),
{
    token.unicode_len() > 0 && (token.get_char(0) as u32) < 128
}

/// Whether the token can be cut around its first colon.
pub fn prop_token_fits(token: &str) -> (r: bool)
    ensures
        r == prop_token_ok(token@),
{
    match colon_position(token) {
        None => {
            assert(!exists|k: int| first_colon_at(token@, k));
            true
        },
        Some(k) => {
            proof {
                lemma_first_colon_unique(token@, k as int);
            }
            let n = token.unicode_len();
            assert(k < n);
            is_ascii_prefix(token, k) || (byte_boundary(token, k) && byte_boundary(token, k + 1))
        },
    }
}

/// Whether reading the property the token sets at `now` is free of panics.
fn prop_dates_fit(token: &str, now: &DateTime) -> (r: bool)
    ensures
        r == prop_dates_ok(token@, *now),
{
    match colon_position(token) {
        None => {
            assert(!exists|k: int| first_colon_at(token@, k));
            true
        },
        Some(k) => {
            proof {
                lemma_first_colon_unique(token@, k as int);
            }
            if !is_ascii_prefix(token, k) {
                return true;
            }
            let n = token.unicode_len();
            let key = token.substring_char(0, k);
            let value = token.substring_char(k + 1, n);
            if value.unicode_len() == 0 {
                true
            } else if str_eq(key, "due") || str_eq(key, "wait") || str_eq(key, "snooze") {
                date_token_fits(value, now)
            } else if str_eq(key, "recur") {
                recur_token_fits(value)
            } else {
                true
            }
        },
    }
}

/// Whether reading the mutation the token denotes at `now` is free of panics.
pub fn mutation_token_fits(token: &str, now: &DateTime) -> (r: bool)
    ensures
        r == mutation_token_ok(token@, *now),
{
    if !tag_token_fits(token) || !prop_token_fits(token) {
        return false;
    }
    parse_as_tag(token).is_some() || prop_dates_fit(token, now)
}

/// Whether parsing the command line `args` at `now` is free of panics.
pub fn cli_fits(args: &[String], now: &DateTime) -> (r: bool)
    ensures
        r == cli_ok(string_views(args@), *now),
{
    let ghost ts = string_views(args@);
    let (query_tokens, command, mutation_tokens) = partition_args(args);
    let ghost (q, c, m) = partition_spec(ts);
    assert(string_views(query_tokens@).len() == query_tokens@.len());
    assert(string_views(mutation_tokens@).len() == mutation_tokens@.len());
    let mut i: usize = 0;
    while i < query_tokens.len()
        invariant
            ts == string_views(args@),
            partition_spec(ts) == (q, c, m),
            q == string_views(query_tokens@),
            i <= q.len(),
            forall|j: int| 0 <= j < i ==> is_query(#[trigger] q[j]) && tag_token_ok(q[j]),
        decreases query_tokens.len() - i,
    {
        assert(q[i as int] == query_tokens@[i as int]@);
        if !tag_token_fits(query_tokens[i].as_str()) {
            proof {
                lemma_queries_unsafe(q, i as int);
            }
            return false;
        }
        if parse_as_query(query_tokens[i].as_str()).is_err() {
            proof {
                lemma_queries_safe_to(q, i as int);
            }
            return true;
        }
        i = i + 1;
    }
    proof {
        lemma_queries_safe_to(q, i as int);
    }
    let mut k: usize = 0;
    while k < mutation_tokens.len()
        invariant
            ts == string_views(args@),
            partition_spec(ts) == (q, c, m),
            queries_safe(q),
            forall|j: int| 0 <= j < q.len() ==> is_query(#[trigger] q[j]),
            m == string_views(mutation_tokens@),
            k <= m.len(),
            forall|j: int| 0 <= j < k ==> (#[trigger] mutation_error(m[j], *now)) is None && mutation_token_ok(m[j], *now),
        decreases mutation_tokens.len() - k,
    {
        assert(m[k as int] == mutation_tokens@[k as int]@);
        if !mutation_token_fits(mutation_tokens[k].as_str(), now) {
            proof {
                lemma_mutations_unsafe(m, *now, k as int);
            }
            return false;
        }
        if parse_as_mutation(mutation_tokens[k].as_str(), now).is_err() {
            proof {
                lemma_mutations_safe_to(m, *now, k as int);
            }
            return true;
        }
        k = k + 1;
    }
    proof {
        lemma_mutations_safe_to(m, *now, k as int);
    }
    match command {
        Some(CliCommand::Snooze) => crate::datetime::MIN_SECS - 3600 <= now.secs && now.secs
            <= crate::datetime::MAX_SECS - 3600,
        _ => true,
    }
}

/// Parses the command line `args` at the current instant: `None` when parsing
/// the line would panic at the instant the clock reads. A line that parses
/// without panic at every instant the clock can read is always parsed.
pub fn parse_cli_args(args: &[String]) -> (r: Option<Result<Command, String>>)
    ensures
        r matches Some(x) ==> exists|now: DateTime|
            now.valid() && cli_ok(string_views(args@), now) && cli_result(string_views(args@), now, x),
        r is None ==> exists|now: DateTime|
            now.valid() && now.secs >= 0 && !cli_ok(string_views(args@), now),
        (forall|now: DateTime| now.valid() && now.secs >= 0 ==> cli_ok(string_views(args@), now))
            ==> r is Some,
{
    let now = crate::dates::utc_now();
    if cli_fits(args, &now) {
        Some(parse_cli_args_at(args, &now))
    } else {
        None
    }
}

} // verus!
