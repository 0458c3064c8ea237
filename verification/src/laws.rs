//! Properties of the library as a whole: what every operation keeps, what one
//! call undoes, and how two calls relate.

use vstd::prelude::*;
use crate::command::{Mutation, Query};
use crate::dates::{day_number, weekday_index, weekday_spec};
use crate::datetime::{DateTime, SECS_PER_DAY};
use crate::id::sub_eq_spec;
use crate::parse_args::{command_spec, partition_spec, lemma_first_command_bounds};
use crate::sync::{lookup, needs_sync};
use crate::tag::{Sign, Tag};
use crate::task::{apply_mutation_spec, resolve_spec, satisfies_queries_spec, Task, TaskView};
use crate::text::contains_sub;

verus! {

/// Synchronising a task converges: when the server resolves the client's
/// version against its own and keeps the result, the client, resolving its
/// version against what the server answered, keeps that same result.
pub proof fn law_sync_converges(local: Option<Task>, remote: Option<Task>)
    ensures
        resolve_spec(local, remote) matches Some(v) ==> resolve_spec(local, v) == Some(v),
{
}

/// Conflict resolution does not depend on which version is passed first, as
/// long as the two versions were updated at different instants.
pub proof fn law_resolve_symmetric(a: Task, b: Task)
    requires
        a.updated_at.before(b.updated_at) || b.updated_at.before(a.updated_at),
    ensures
        resolve_spec(Some(a), Some(b)) == resolve_spec(Some(b), Some(a)),
{
}

/// Resolving a version against itself gives it back.
pub proof fn law_resolve_idempotent(t: Option<Task>)
    ensures
        resolve_spec(t, t) == Some(t),
{
}

/// Versions of two different tasks are refused in either order.
pub proof fn law_resolve_refuses_different_tasks(a: Task, b: Task)
    requires
        a.id@ != b.id@,
    ensures
        resolve_spec(Some(a), Some(b)) is None,
        resolve_spec(Some(b), Some(a)) is None,
{
}

/// A mutation stamps the task with the instant it was applied at and keeps
/// its identifier and creation instant.
pub proof fn law_mutation_stamps(t: TaskView, m: Mutation, now: DateTime)
    ensures
        apply_mutation_spec(t, m, now).updated_at == now,
        apply_mutation_spec(t, m, now).id == t.id,
        apply_mutation_spec(t, m, now).created_at == t.created_at,
{
}

/// After `+tag` a task has the tag, and the query `+tag` selects it.
pub proof fn law_added_tag_selects(t: TaskView, tag: Tag, now: DateTime)
    requires
        tag.sign == Sign::Plus,
    ensures
        apply_mutation_spec(t, Mutation::SetTag(tag), now).tags.contains(tag.name@),
        satisfies_queries_spec(apply_mutation_spec(t, Mutation::SetTag(tag), now), seq![Query::Tag(tag)]),
{
}

/// After `-tag` a task lacks the tag, and the query `-tag` selects it.
pub proof fn law_removed_tag_selects(t: TaskView, tag: Tag, now: DateTime)
    requires
        tag.sign == Sign::Minus,
    ensures
        !apply_mutation_spec(t, Mutation::SetTag(tag), now).tags.contains(tag.name@),
        satisfies_queries_spec(apply_mutation_spec(t, Mutation::SetTag(tag), now), seq![Query::Tag(tag)]),
{
    reveal_with_fuel(crate::task::queries_from, 2);
    assert(seq![Query::Tag(tag)].drop_first() =~= Seq::<Query>::empty());
}

/// Removing a tag undoes adding it to a task that lacked it.
pub proof fn law_remove_undoes_add(t: TaskView, plus: Tag, minus: Tag, now: DateTime)
    requires
        plus.sign == Sign::Plus,
        minus.sign == Sign::Minus,
        plus.name@ == minus.name@,
        !t.tags.contains(plus.name@),
    ensures
        apply_mutation_spec(apply_mutation_spec(t, Mutation::SetTag(plus), now), Mutation::SetTag(minus), now).tags
            == t.tags,
{
    assert(t.tags.insert(plus.name@).remove(minus.name@) =~= t.tags);
}

/// No query selects no task.
pub proof fn law_no_query_selects_nothing(t: TaskView)
    ensures
        !satisfies_queries_spec(t, Seq::empty()),
{
}

/// Every identifier matches itself.
pub proof fn law_sub_eq_reflexive(a: Seq<char>)
    ensures
        sub_eq_spec(a, a),
{
    assert(a.subrange(0, a.len() as int) =~= a);
    assert(crate::text::occurs_at(a, a, 0));
}

/// Matching identifiers does not depend on their order.
pub proof fn law_sub_eq_symmetric(a: Seq<char>, b: Seq<char>)
    ensures
        sub_eq_spec(a, b) == sub_eq_spec(b, a),
{
}

/// A weekday names an instant no earlier than now and at most a week ahead.
pub proof fn law_weekday_ahead(now: DateTime, w: int)
    requires
        now.valid(),
        0 <= w < 7,
    ensures
        !weekday_spec(now, w).before(now),
        weekday_spec(now, w).secs <= now.secs + 7 * SECS_PER_DAY,
{
    let day = day_number(now.secs as int);
    let k = weekday_index(day);
    assert(0 <= k < 7);
    assert(day * 86400 <= now.secs < day * 86400 + 86400);
    let start = (day - k + w) * 86400;
    assert(start <= now.secs + 6 * 86400);
    assert(start >= now.secs - 7 * 86400);
}

/// Whether a task is to be synchronised does not depend on which side is
/// local.
pub proof fn law_needs_sync_symmetric(
    local: Seq<(Seq<char>, u64)>,
    remote: Seq<(Seq<char>, u64)>,
    id: Seq<char>,
)
    ensures
        needs_sync(local, remote, id) == needs_sync(remote, local, id),
{
}

/// Nothing is to be synchronised exactly when the two sides give every
/// identifier the same hash.
pub proof fn law_in_sync_iff_same_hashes(local: Seq<(Seq<char>, u64)>, remote: Seq<(Seq<char>, u64)>)
    ensures
        (forall|id: Seq<char>| !#[trigger] needs_sync(local, remote, id)) <==> (forall|id: Seq<char>|
            #[trigger] lookup(local, id) == lookup(remote, id)),
{
    assert forall|id: Seq<char>| #[trigger] lookup(local, id) != lookup(remote, id) implies needs_sync(
        local,
        remote,
        id,
    ) by {
        crate::sync::lemma_lookup_has_key(local, id);
        crate::sync::lemma_lookup_has_key(remote, id);
    }
}

/// Splitting a command line and putting the parts back together gives the
/// line: the query tokens, the command word, then the mutation tokens.
pub proof fn law_partition_reassembles(ts: Seq<Seq<char>>)
    ensures
        ({
            let (q, c, m) = partition_spec(ts);
            match c {
                None => q == ts && m.len() == 0,
                Some(_) => exists|w: Seq<char>| command_spec(w) == c && ts == q.push(w) + m,
            }
        }),
{
    lemma_first_command_bounds(ts);
    let (q, c, m) = partition_spec(ts);
    match crate::parse_args::first_command_at(ts) {
        Some(k) => {
            assert(ts =~= q.push(ts[k]) + m);
        },
        None => {},
    }
}

} // verus!

verus! {

/// Writing an operator and reading the word back gives the operator.
pub proof fn law_operator_round_trip(op: crate::rpn::RPNOperator)
    ensures
        crate::rpn::operator_of(crate::rpn::operator_word(op)) == Some(op),
{
}

/// Reading an operator word and writing the operator back gives the word.
pub proof fn law_operator_word_round_trip(w: Seq<char>)
    requires
        crate::rpn::operator_of(w) is Some,
    ensures
        crate::rpn::operator_word(crate::rpn::operator_of(w)->0) == w,
{
}

} // verus!

verus! {

/// Every completion of a partial identifier starts with it.
pub proof fn law_completions_start_with_partial(ids: Seq<Seq<char>>, partial: Seq<char>)
    ensures
        forall|i: int|
            0 <= i < crate::complete::completions(ids, partial).len() ==> crate::text::starts_with(
                #[trigger] crate::complete::completions(ids, partial)[i],
                partial,
            ),
    decreases ids.len(),
{
    if ids.len() > 0 {
        let rest = crate::complete::completions(ids.drop_last(), partial);
        law_completions_start_with_partial(ids.drop_last(), partial);
        let all = crate::complete::completions(ids, partial);
        assert forall|i: int| 0 <= i < all.len() implies crate::text::starts_with(#[trigger] all[i], partial) by {
            if i < rest.len() {
                assert(all[i] == rest[i]);
            }
        }
    }
}

/// The end of the day is no earlier than the second of now, on the same day.
pub proof fn law_end_of_day_ahead(now: DateTime)
    requires
        now.valid(),
    ensures
        crate::dates::end_of_day_spec(now).secs >= now.secs,
        day_number(crate::dates::end_of_day_spec(now).secs as int) == day_number(now.secs as int),
{
    let day = day_number(now.secs as int);
    assert(day * 86400 <= now.secs < day * 86400 + 86400);
    assert(crate::dates::end_of_day_spec(now).secs == day * 86400 + 86399);
}

} // verus!

verus! {

/// The query settles whether the task is selected: an identifier query that
/// matches it, or a tag query for a tag it has.
pub open spec fn decides(t: TaskView, q: Query) -> bool {
    match q {
        Query::Id(id) => sub_eq_spec(id@, t.id),
        Query::Tag(tag) => t.tags.contains(tag.name@),
    }
}

/// The query asks for a tag to be absent.
pub open spec fn is_minus(q: Query) -> bool {
    q matches Query::Tag(tag) && tag.sign == Sign::Minus
}

proof fn lemma_first_decider(t: TaskView, qs: Seq<Query>, d: bool, k: int)
    requires
        0 <= k < qs.len(),
        decides(t, qs[k]),
        forall|j: int| 0 <= j < k ==> !decides(t, #[trigger] qs[j]),
    ensures
        crate::task::queries_from(t, qs, d) == !is_minus(qs[k]),
    decreases k,
{
    if k > 0 {
        assert(!decides(t, qs[0]));
        let rest = qs.drop_first();
        assert forall|j: int| 0 <= j < k - 1 implies !decides(t, #[trigger] rest[j]) by {
            assert(rest[j] == qs[j + 1]);
        }
        lemma_first_decider(t, rest, true, k - 1);
        lemma_first_decider(t, rest, d, k - 1);
    }
}

proof fn lemma_no_decider(t: TaskView, qs: Seq<Query>, d: bool)
    requires
        forall|j: int| 0 <= j < qs.len() ==> !decides(t, #[trigger] qs[j]),
    ensures
        crate::task::queries_from(t, qs, d) == (d || exists|j: int| 0 <= j < qs.len() && is_minus(#[trigger] qs[j])),
    decreases qs.len(),
{
    if qs.len() > 0 {
        assert(!decides(t, qs[0]));
        let rest = qs.drop_first();
        assert forall|j: int| 0 <= j < rest.len() implies !decides(t, #[trigger] rest[j]) by {
            assert(rest[j] == qs[j + 1]);
        }
        lemma_no_decider(t, rest, true);
        lemma_no_decider(t, rest, d);
        if exists|j: int| 0 <= j < rest.len() && is_minus(#[trigger] rest[j]) {
            let j = choose|j: int| 0 <= j < rest.len() && is_minus(#[trigger] rest[j]);
            assert(rest[j] == qs[j + 1]);
        }
        if exists|j: int| 0 <= j < qs.len() && is_minus(#[trigger] qs[j]) {
            let j = choose|j: int| 0 <= j < qs.len() && is_minus(#[trigger] qs[j]);
            if j > 0 {
                assert(rest[j - 1] == qs[j]);
            }
        }
    }
}

/// The queries select a task by their first query that settles it: an
/// identifier query that matches, or a tag query for a tag the task has. The
/// task is selected unless that query asks for the tag to be absent.
pub proof fn law_first_deciding_query(t: TaskView, qs: Seq<Query>, k: int)
    requires
        0 <= k < qs.len(),
        decides(t, qs[k]),
        forall|j: int| 0 <= j < k ==> !decides(t, #[trigger] qs[j]),
    ensures
        satisfies_queries_spec(t, qs) == !is_minus(qs[k]),
{
    lemma_first_decider(t, qs, false, k);
}

/// When no query settles a task, the task is selected exactly when some
/// query asks for a tag to be absent.
pub proof fn law_no_deciding_query(t: TaskView, qs: Seq<Query>)
    requires
        forall|j: int| 0 <= j < qs.len() ==> !decides(t, #[trigger] qs[j]),
    ensures
        satisfies_queries_spec(t, qs) == exists|j: int| 0 <= j < qs.len() && is_minus(#[trigger] qs[j]),
{
    lemma_no_decider(t, qs, false);
}

proof fn lemma_read_with_queries(
    ts: Seq<TaskView>,
    fs: Seq<Result<bool, crate::error::HyperTaskError>>,
    qs: Seq<Query>,
)
    requires
        qs.len() > 0,
    ensures
        crate::engine::read_result(ts, fs, qs) matches Ok(d) && forall|i: int|
            0 <= i < ts.len() && satisfies_queries_spec(ts[i], qs) ==> d.contains(#[trigger] ts[i]),
    decreases ts.len(),
{
    if ts.len() > 0 {
        let p = ts.drop_last();
        let pf = fs.subrange(0, ts.len() - 1);
        lemma_read_with_queries(p, pf, qs);
        let done = crate::engine::read_result(p, pf, qs)->Ok_0;
        let d = crate::engine::read_result(ts, fs, qs)->Ok_0;
        assert forall|i: int| 0 <= i < ts.len() && satisfies_queries_spec(ts[i], qs) implies d.contains(
            #[trigger] ts[i],
        ) by {
            if i < ts.len() - 1 {
                assert(p[i] == ts[i]);
                assert(done.contains(p[i]));
                let j = choose|j: int| 0 <= j < done.len() && done[j] == p[i];
                if satisfies_queries_spec(ts.last(), qs) {
                    assert(d[j] == ts[i]);
                }
            } else {
                assert(d[d.len() - 1] == ts[i]);
            }
        }
    }
}

/// A task that a creation adds to the collection (the collection becomes
/// `upsert(old, t)`, as `Engine::run` states) is displayed by a later read of
/// its identifier: reading with the query of its identifier succeeds and shows
/// the task.
pub proof fn law_created_task_is_read(
    ts: Seq<TaskView>,
    t: TaskView,
    fs: Seq<Result<bool, crate::error::HyperTaskError>>,
    id: crate::id::Id,
)
    requires
        id@ == t.id,
    ensures
        crate::engine::read_result(crate::engine::upsert(ts, t), fs, seq![Query::Id(id)]) matches Ok(d)
            && d.contains(t),
{
    let qs = seq![Query::Id(id)];
    let all = crate::engine::upsert(ts, t);
    law_sub_eq_reflexive(t.id);
    assert(satisfies_queries_spec(t, qs));
    lemma_read_with_queries(all, fs, qs);
    if exists|i: int| 0 <= i < ts.len() && ts[i].id == t.id {
        let i = choose|i: int| 0 <= i < ts.len() && ts[i].id == t.id;
        assert(all[i] == t);
    } else {
        assert(all[ts.len() as int] == t);
    }
}

} // verus!

verus! {

/// Reading the identifier back from the key a task is stored under gives the
/// identifier, when the identifier does not itself contain the key prefix.
pub proof fn law_storage_key_round_trip(id: Seq<char>)
    requires
        !crate::text::contains_sub(id, crate::storage::task_key_prefix()),
    ensures
        crate::text::starts_with(crate::storage::task_key_prefix() + id, crate::storage::task_key_prefix()),
        crate::storage::remove_all(crate::storage::task_key_prefix() + id, crate::storage::task_key_prefix())
            == id,
{
    let p = crate::storage::task_key_prefix();
    reveal_strlit("hypertask::task::");
    let k = p + id;
    assert(k.subrange(0, p.len() as int) =~= p);
    assert(k.subrange(p.len() as int, k.len() as int) =~= id);
    crate::storage::lemma_remove_all_absent(id, p);
}

} // verus!

verus! {

/// Each property a score or filter program reads has the value the task
/// holds: the seconds of its creation, done, due, snooze, update and wait
/// instants (0 for an instant it lacks), 1 when it is blocked and 0 when not,
/// and the number of tasks it blocks.
pub proof fn law_prop_values(t: Task, blocking: usize)
    ensures
        crate::rpn::prop_value_of(t, "created_at"@, blocking) == Some(t.created_at.secs),
        crate::rpn::prop_value_of(t, "done"@, blocking) == Some(
            (match t.done {
                Some(d) => d.secs,
                None => 0i64,
            }),
        ),
        crate::rpn::prop_value_of(t, "due"@, blocking) == Some(
            (match t.due {
                Some(d) => d.secs,
                None => 0i64,
            }),
        ),
        crate::rpn::prop_value_of(t, "snooze"@, blocking) == Some(
            (match t.snooze {
                Some(d) => d.secs,
                None => 0i64,
            }),
        ),
        crate::rpn::prop_value_of(t, "updated_at"@, blocking) == Some(t.updated_at.secs),
        crate::rpn::prop_value_of(t, "wait"@, blocking) == Some(
            (match t.wait {
                Some(d) => d.secs,
                None => 0i64,
            }),
        ),
        crate::rpn::prop_value_of(t, "blocked"@, blocking) == Some(
            (if t.blocked_by is Some {
                1i64
            } else {
                0i64
            }),
        ),
        crate::rpn::prop_value_of(t, "blocking"@, blocking) == Some(blocking as i64),
{
    reveal_strlit("created_at");
    reveal_strlit("done");
    reveal_strlit("due");
    reveal_strlit("snooze");
    reveal_strlit("updated_at");
    reveal_strlit("wait");
    reveal_strlit("blocked");
    reveal_strlit("blocking");
    assert("created_at"@.len() == 10 && "updated_at"@.len() == 10 && "done"@.len() == 4);
    assert("due"@.len() == 3 && "snooze"@.len() == 6 && "wait"@.len() == 4);
    assert("blocked"@.len() == 7 && "blocking"@.len() == 8);
    assert("created_at"@[0] != "updated_at"@[0] && "done"@[0] != "wait"@[0]);
}


/// Setting a property gives the task that value and changes nothing else but
/// the instant of the last update: a due, snooze or wait instant, a
/// recurrence, a description, or the task it depends on.
pub proof fn law_set_prop_sets(
    t: TaskView,
    now: DateTime,
    d: Option<DateTime>,
    r: Option<crate::recur::Recur>,
    text: String,
    dep: Option<crate::id::Id>,
)
    ensures
        apply_mutation_spec(t, Mutation::SetProp(crate::prop::Prop::Due(d)), now) == (TaskView {
            due: d,
            updated_at: now,
            ..t
        }),
        apply_mutation_spec(t, Mutation::SetProp(crate::prop::Prop::Snooze(d)), now) == (TaskView {
            snooze: d,
            updated_at: now,
            ..t
        }),
        apply_mutation_spec(t, Mutation::SetProp(crate::prop::Prop::Wait(d)), now) == (TaskView {
            wait: d,
            updated_at: now,
            ..t
        }),
        apply_mutation_spec(t, Mutation::SetProp(crate::prop::Prop::Recur(r)), now) == (TaskView {
            recur: r,
            updated_at: now,
            ..t
        }),
        apply_mutation_spec(t, Mutation::SetProp(crate::prop::Prop::Description(text)), now) == (
        TaskView { description: Some(text@), updated_at: now, ..t }),
        apply_mutation_spec(t, Mutation::SetProp(crate::prop::Prop::Depends(dep)), now).blocked_by == (
        match dep {
            Some(i) => Some(i@),
            None => None::<Seq<char>>,
        }),
{
}

/// Marking a task that does not recur done records the instant it was done
/// at; marking a recurring task done leaves it open and moves its due and
/// wait instants on by one period.
pub proof fn law_mark_done(t: TaskView, now: DateTime, at: DateTime)
    ensures
        t.recur is None ==> apply_mutation_spec(t, Mutation::SetProp(crate::prop::Prop::Done(at)), now) == (
        TaskView { done: Some(at), updated_at: now, ..t }),
        t.recur is Some ==> apply_mutation_spec(t, Mutation::SetProp(crate::prop::Prop::Done(at)), now).done
            == t.done,
        t.recur is Some ==> apply_mutation_spec(t, Mutation::SetProp(crate::prop::Prop::Done(at)), now).recur
            == t.recur,
        t.recur matches Some(r) ==> apply_mutation_spec(t, Mutation::SetProp(crate::prop::Prop::Done(at)), now).due
            == (match t.due {
            Some(a) => Some(DateTime { secs: (a.secs + crate::recur::recur_secs(r)) as i64, nanos: a.nanos }),
            None => None,
        }),
        t.recur matches Some(r) ==> apply_mutation_spec(t, Mutation::SetProp(crate::prop::Prop::Done(at)), now).wait
            == (match t.wait {
            Some(a) => Some(DateTime { secs: (a.secs + crate::recur::recur_secs(r)) as i64, nanos: a.nanos }),
            None => None,
        }),
{
}


/// `r` is the first midnight starting weekday `w` (0 for Monday to 6 for
/// Sunday) that is not before `now`: a midnight of that weekday, not before
/// `now`, and the same weekday a week earlier is before `now`.
pub open spec fn first_weekday_midnight(r: DateTime, now: DateTime, w: int) -> bool {
    &&& r.nanos == 0
    &&& r.secs % SECS_PER_DAY == 0
    &&& weekday_index(day_number(r.secs as int)) == w
    &&& !r.before(now)
    &&& (DateTime { secs: (r.secs - 7 * SECS_PER_DAY) as i64, nanos: 0 }).before(now)
}

proof fn lemma_weekday_is_first_midnight(now: DateTime, w: int)
    requires
        now.valid(),
        0 <= w < 7,
    ensures
        first_weekday_midnight(weekday_spec(now, w), now, w),
{
    let day = day_number(now.secs as int);
    let k = weekday_index(day);
    assert(day * 86400 <= now.secs < day * 86400 + 86400) by {
        vstd::arithmetic::div_mod::lemma_fundamental_div_mod(now.secs as int, 86400);
    }
    assert(0 <= k < 7);
    assert((day + 3 - k) % 7 == 0) by {
        vstd::arithmetic::div_mod::lemma_fundamental_div_mod(day + 3, 7);
        vstd::arithmetic::div_mod::lemma_mod_multiples_basic((day + 3) / 7, 7);
    }
    let d0 = day - k + w;
    let d = if (DateTime { secs: (d0 * 86400) as i64, nanos: 0 }).before(now) { d0 + 7 } else { d0 };
    assert(weekday_spec(now, w).secs == d * 86400);
    assert((d * 86400) / 86400 == d) by {
        vstd::arithmetic::div_mod::lemma_div_multiples_vanish(d, 86400);
    }
    assert((d * 86400) % 86400 == 0) by {
        vstd::arithmetic::div_mod::lemma_mod_multiples_basic(d, 86400);
    }
    assert((d + 3) % 7 == w) by {
        vstd::arithmetic::div_mod::lemma_fundamental_div_mod(day + 3, 7);
        let q = (day + 3) / 7;
        assert(d + 3 == 7 * q + w || d + 3 == 7 * (q + 1) + w);
        if d + 3 == 7 * q + w {
            vstd::arithmetic::div_mod::lemma_mod_multiples_vanish(q, w, 7);
        } else {
            vstd::arithmetic::div_mod::lemma_mod_multiples_vanish(q + 1, w, 7);
        }
        vstd::arithmetic::div_mod::lemma_small_mod(w as nat, 7);
    }
}

/// Each weekday word names the first midnight of that weekday that is not
/// before `now`: `mon` a Monday, `tue` a Tuesday, and so on to `sun`.
pub proof fn law_weekday_words(now: DateTime)
    requires
        now.valid(),
    ensures
        crate::dates::date_spec("mon"@, now) matches Some(r) && first_weekday_midnight(r, now, 0),
        crate::dates::date_spec("tue"@, now) matches Some(r) && first_weekday_midnight(r, now, 1),
        crate::dates::date_spec("wed"@, now) matches Some(r) && first_weekday_midnight(r, now, 2),
        crate::dates::date_spec("thu"@, now) matches Some(r) && first_weekday_midnight(r, now, 3),
        crate::dates::date_spec("fri"@, now) matches Some(r) && first_weekday_midnight(r, now, 4),
        crate::dates::date_spec("sat"@, now) matches Some(r) && first_weekday_midnight(r, now, 5),
        crate::dates::date_spec("sun"@, now) matches Some(r) && first_weekday_midnight(r, now, 6),
{
    reveal_strlit("now");
    reveal_strlit("mon");
    reveal_strlit("tue");
    reveal_strlit("wed");
    reveal_strlit("thu");
    reveal_strlit("fri");
    reveal_strlit("sat");
    reveal_strlit("sun");
    assert("now"@[0] != "mon"@[0] && "now"@[0] != "tue"@[0] && "now"@[0] != "wed"@[0]);
    assert("now"@[0] != "thu"@[0] && "now"@[0] != "fri"@[0] && "now"@[0] != "sat"@[0] && "now"@[0] != "sun"@[0]);
    assert("mon"@[0] != "tue"@[0] && "mon"@[0] != "wed"@[0] && "mon"@[0] != "thu"@[0]);
    assert("mon"@[0] != "fri"@[0] && "mon"@[0] != "sat"@[0] && "mon"@[0] != "sun"@[0]);
    assert("tue"@[0] != "wed"@[0] && "tue"@[0] != "fri"@[0] && "tue"@[0] != "sat"@[0] && "tue"@[0] != "sun"@[0]);
    assert("tue"@[1] != "thu"@[1] && "sat"@[1] != "sun"@[1]);
    assert("wed"@[0] != "thu"@[0] && "wed"@[0] != "fri"@[0] && "wed"@[0] != "sat"@[0] && "wed"@[0] != "sun"@[0]);
    assert("thu"@[0] != "fri"@[0] && "thu"@[0] != "sat"@[0] && "thu"@[0] != "sun"@[0]);
    assert("fri"@[0] != "sat"@[0] && "fri"@[0] != "sun"@[0]);
    lemma_weekday_is_first_midnight(now, 0);
    lemma_weekday_is_first_midnight(now, 1);
    lemma_weekday_is_first_midnight(now, 2);
    lemma_weekday_is_first_midnight(now, 3);
    lemma_weekday_is_first_midnight(now, 4);
    lemma_weekday_is_first_midnight(now, 5);
    lemma_weekday_is_first_midnight(now, 6);
}


/// Every task an update reports as mutated is a task of the collection that
/// the queries select and the filter admits, with the mutations applied; and
/// it is what the collection holds in that task's place after the update.
pub proof fn law_update_reports_mutated_tasks(
    ts: Seq<TaskView>,
    fs: Seq<Result<bool, crate::error::HyperTaskError>>,
    qs: Seq<Query>,
    ms: Seq<Mutation>,
    now: DateTime,
)
    requires
        fs.len() == ts.len(),
    ensures
        crate::engine::update_result(ts, fs, qs, ms, now) matches Ok(m) ==> forall|i: int|
            #![trigger m[i]]
            0 <= i < m.len() ==> exists|j: int|
                #![trigger ts[j]]
                0 <= j < ts.len() && crate::engine::selected_for_update(ts[j], fs[j], qs) && m[i]
                    == crate::task::apply_mutations_spec(ts[j], ms, now) && crate::engine::updated_tasks(
                    ts,
                    fs,
                    qs,
                    ms,
                    now,
                )[j] == m[i],
    decreases ts.len(),
{
    if ts.len() > 0 {
        let n = ts.len() - 1;
        let ts0 = ts.drop_last();
        let fs0 = fs.subrange(0, n);
        law_update_reports_mutated_tasks(ts0, fs0, qs, ms, now);
        if let Ok(m) = crate::engine::update_result(ts, fs, qs, ms, now) {
            if let Ok(done) = crate::engine::update_result(ts0, fs0, qs, ms, now) {
                assert forall|i: int| #![trigger m[i]] 0 <= i < m.len() implies exists|j: int|
                    #![trigger ts[j]]
                    0 <= j < ts.len() && crate::engine::selected_for_update(ts[j], fs[j], qs) && m[i]
                        == crate::task::apply_mutations_spec(ts[j], ms, now)
                        && crate::engine::updated_tasks(ts, fs, qs, ms, now)[j] == m[i] by {
                    if i < done.len() {
                        assert(m[i] == done[i]);
                        let j = choose|j: int|
                            #![trigger ts0[j]]
                            0 <= j < ts0.len() && crate::engine::selected_for_update(ts0[j], fs0[j], qs)
                                && done[i] == crate::task::apply_mutations_spec(ts0[j], ms, now)
                                && crate::engine::updated_tasks(ts0, fs0, qs, ms, now)[j] == done[i];
                        assert(ts0[j] == ts[j]);
                        assert(fs0[j] == fs[j]);
                    } else {
                        assert(i == n || i == done.len());
                        assert(ts[n] == ts.last());
                    }
                }
            }
        }
    }
}


proof fn lemma_digit_char(d: int)
    requires
        0 <= d < 10,
    ensures
        crate::text::is_digit(crate::text::digit_chars()[d]),
        crate::text::digit_value(crate::text::digit_chars()[d]) == d,
{
    let c = crate::text::digit_chars();
    if d == 0 {
        assert(c[0] == '0');
    } else if d == 1 {
        assert(c[1] == '1');
    } else if d == 2 {
        assert(c[2] == '2');
    } else if d == 3 {
        assert(c[3] == '3');
    } else if d == 4 {
        assert(c[4] == '4');
    } else if d == 5 {
        assert(c[5] == '5');
    } else if d == 6 {
        assert(c[6] == '6');
    } else if d == 7 {
        assert(c[7] == '7');
    } else if d == 8 {
        assert(c[8] == '8');
    } else {
        assert(c[9] == '9');
    }
}

/// The numeral of a natural number is a nonempty string of decimal digits,
/// without a leading zero unless the number is zero, that reads back, most
/// significant digit first, as the number.
pub proof fn law_numeral_reads_back(n: nat)
    ensures
        crate::text::nat_numeral(n).len() > 0,
        crate::text::all_digits(crate::text::nat_numeral(n)),
        crate::text::digits_value(crate::text::nat_numeral(n)) == n,
        n > 0 ==> crate::text::nat_numeral(n)[0] != '0',
    decreases n,
{
    let s = crate::text::nat_numeral(n);
    if n < 10 {
        lemma_digit_char(n as int);
        assert(s.drop_last() =~= Seq::<char>::empty());
        assert(s.last() == crate::text::digit_chars()[n as int]);
        assert(crate::text::digits_value(s) == crate::text::digits_value(s.drop_last()) * 10
            + crate::text::digit_value(s.last()));
        assert(crate::text::digits_value(Seq::<char>::empty()) == 0);
        if n > 0 {
            assert(crate::text::digit_value(s[0]) == n);
        }
    } else {
        let p = crate::text::nat_numeral(n / 10);
        law_numeral_reads_back(n / 10);
        lemma_digit_char((n % 10) as int);
        assert(s == p.push(crate::text::digit_chars()[(n % 10) as int]));
        assert(s.drop_last() =~= p);
        assert(s[0] == p[0]);
        assert(crate::text::digits_value(s) == (n / 10) * 10 + n % 10);
        assert((n / 10) * 10 + n % 10 == n) by {
            vstd::arithmetic::div_mod::lemma_fundamental_div_mod(n as int, 10);
        }
        assert forall|i: int| 0 <= i < s.len() implies crate::text::is_digit(#[trigger] s[i]) by {
            if i < p.len() {
                assert(s[i] == p[i]);
            }
        }
    }
}

/// The numeral of an integer is that of its magnitude, after a minus sign
/// when it is negative.
pub proof fn law_int_numeral_reads_back(n: int)
    ensures
        n >= 0 ==> crate::text::digits_value(crate::text::int_numeral(n)) == n,
        n < 0 ==> crate::text::int_numeral(n)[0] == '-' && crate::text::digits_value(
            crate::text::int_numeral(n).drop_first(),
        ) == -n,
{
    if n >= 0 {
        law_numeral_reads_back(n as nat);
    } else {
        law_numeral_reads_back((-n) as nat);
        assert((seq!['-'] + crate::text::nat_numeral((-n) as nat)).drop_first() =~= crate::text::nat_numeral(
            (-n) as nat,
        ));
    }
}


/// An update that succeeds reports every task that the queries select and the
/// filter admits, with the mutations applied.
pub proof fn law_update_reports_every_selected_task(
    ts: Seq<TaskView>,
    fs: Seq<Result<bool, crate::error::HyperTaskError>>,
    qs: Seq<Query>,
    ms: Seq<Mutation>,
    now: DateTime,
)
    requires
        fs.len() == ts.len(),
    ensures
        crate::engine::update_result(ts, fs, qs, ms, now) matches Ok(m) ==> forall|j: int|
            #![trigger ts[j]]
            0 <= j < ts.len() && crate::engine::selected_for_update(ts[j], fs[j], qs) ==> exists|i: int|
                #![trigger m[i]]
                0 <= i < m.len() && m[i] == crate::task::apply_mutations_spec(ts[j], ms, now),
    decreases ts.len(),
{
    if ts.len() > 0 {
        let n = ts.len() - 1;
        let ts0 = ts.drop_last();
        let fs0 = fs.subrange(0, n);
        law_update_reports_every_selected_task(ts0, fs0, qs, ms, now);
        if let Ok(m) = crate::engine::update_result(ts, fs, qs, ms, now) {
            if let Ok(done) = crate::engine::update_result(ts0, fs0, qs, ms, now) {
                assert forall|j: int|
                    #![trigger ts[j]]
                    0 <= j < ts.len() && crate::engine::selected_for_update(ts[j], fs[j], qs) implies exists|
                    i: int,
                |
                    #![trigger m[i]]
                    0 <= i < m.len() && m[i] == crate::task::apply_mutations_spec(ts[j], ms, now) by {
                    if j < n {
                        assert(ts0[j] == ts[j]);
                        assert(fs0[j] == fs[j]);
                        let i = choose|i: int|
                            #![trigger done[i]]
                            0 <= i < done.len() && done[i] == crate::task::apply_mutations_spec(ts0[j], ms, now);
                        assert(m[i] == done[i]);
                    } else {
                        assert(ts[j] == ts.last());
                        assert(m[done.len() as int] == crate::task::apply_mutations_spec(ts[j], ms, now));
                    }
                }
            }
        }
    }
}

} // verus!
