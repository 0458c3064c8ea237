//! Tasks, and what queries select and mutations change of them.

use vstd::prelude::*;
use crate::command::{Mutation, Query};
use crate::datetime::{DateTime, SECS_PER_DAY};
use crate::error::{HyperTaskError, HyperTaskErrorAction, HyperTaskErrorDomain, HyperTaskResult};
use crate::id::{Id, is_generated_id, sub_eq_spec};
use crate::prop::Prop;
use crate::recur::{Recur, recur_ok, recur_secs};
use crate::tag::{Sign, Tag, TagSet};

verus! {

/// A task.
#[derive(Debug, PartialEq, Eq)]
pub struct Task {
    pub created_at: DateTime,
    pub updated_at: DateTime,
    pub id: Id,
    pub description: Option<String>,
    pub blocked_by: Option<Id>,
    pub done: Option<DateTime>,
    pub due: Option<DateTime>,
    pub recur: Option<Recur>,
    pub snooze: Option<DateTime>,
    pub wait: Option<DateTime>,
    pub tags: TagSet,
}

/// What a task holds, as plain values.
pub struct TaskView {
    pub created_at: DateTime,
    pub updated_at: DateTime,
    pub id: Seq<char>,
    pub description: Option<Seq<char>>,
    pub blocked_by: Option<Seq<char>>,
    pub done: Option<DateTime>,
    pub due: Option<DateTime>,
    pub recur: Option<Recur>,
    pub snooze: Option<DateTime>,
    pub wait: Option<DateTime>,
    pub tags: Set<Seq<char>>,
}

/// The contents of an optional string.
pub open spec fn opt_str(o: Option<String>) -> Option<Seq<char>> {
    match o {
        Some(s) => Some(s@),
        None => None,
    }
}

/// The contents of an optional identifier.
pub open spec fn opt_id(o: Option<Id>) -> Option<Seq<char>> {
    match o {
        Some(i) => Some(i@),
        None => None,
    }
}

impl View for Task {
    type V = TaskView;

    open spec fn view(&self) -> TaskView {
        TaskView {
            created_at: self.created_at,
            updated_at: self.updated_at,
            id: self.id@,
            description: opt_str(self.description),
            blocked_by: opt_id(self.blocked_by),
            done: self.done,
            due: self.due,
            recur: self.recur,
            snooze: self.snooze,
            wait: self.wait,
            tags: self.tags@,
        }
    }
}

/// An optional instant moved by `secs` seconds.
pub open spec fn shift(o: Option<DateTime>, secs: int) -> Option<DateTime> {
    match o {
        Some(d) => Some(d.plus(secs)),
        None => None,
    }
}

/// An optional instant can be moved by `secs` seconds.
pub open spec fn can_shift(o: Option<DateTime>, secs: int) -> bool {
    match o {
        Some(d) => d.can_add(secs),
        None => true,
    }
}

/// The task after one mutation at `now`: tags are added or removed, properties
/// set; marking a recurring task done moves its due and wait instants on by one
/// period instead of setting its done instant; `updated_at` becomes `now`.
pub open spec fn apply_mutation_spec(t: TaskView, m: Mutation, now: DateTime) -> TaskView {
    let changed = match m {
        Mutation::SetTag(tag) => match tag.sign {
            Sign::Plus => TaskView { tags: t.tags.insert(tag.name@), ..t },
            Sign::Minus => TaskView { tags: t.tags.remove(tag.name@), ..t },
        },
        Mutation::SetProp(p) => match p {
            Prop::Description(d) => TaskView { description: Some(d@), ..t },
            Prop::Depends(d) => TaskView { blocked_by: opt_id(d), ..t },
            Prop::Done(done) => match t.recur {
                Some(r) => TaskView {
                    due: shift(t.due, recur_secs(r)),
                    wait: shift(t.wait, recur_secs(r)),
                    ..t
                },
                None => TaskView { done: Some(done), ..t },
            },
            Prop::Due(d) => TaskView { due: d, ..t },
            Prop::Snooze(s) => TaskView { snooze: s, ..t },
            Prop::Wait(w) => TaskView { wait: w, ..t },
            Prop::Recur(r) => TaskView { recur: r, ..t },
        },
    };
    TaskView { updated_at: now, ..changed }
}

/// The mutation can be applied without overflow: marking a recurring task done
/// needs a period that fits in a time span, and due and wait instants that stay
/// in range when moved by it.
pub open spec fn mutation_ok(t: TaskView, m: Mutation) -> bool {
    match m {
        Mutation::SetProp(Prop::Done(_)) => match t.recur {
            Some(r) => recur_ok(r) && can_shift(t.due, recur_secs(r)) && can_shift(
                t.wait,
                recur_secs(r),
            ),
            None => true,
        },
        _ => true,
    }
}

/// The task after the mutations `ms`, applied in order.
pub open spec fn apply_mutations_spec(t: TaskView, ms: Seq<Mutation>, now: DateTime) -> TaskView
    decreases ms.len(),
{
    if ms.len() == 0 {
        t
    } else {
        apply_mutation_spec(apply_mutations_spec(t, ms.drop_last(), now), ms.last(), now)
    }
}

/// Each of the mutations `ms`, applied in order, can be applied without overflow.
pub open spec fn mutations_ok(t: TaskView, ms: Seq<Mutation>, now: DateTime) -> bool
    decreases ms.len(),
{
    ms.len() == 0 || (mutations_ok(t, ms.drop_last(), now) && mutation_ok(
        apply_mutations_spec(t, ms.drop_last(), now),
        ms.last(),
    ))
}

/// Runs through the queries in order: an identifier query that matches, or a
/// `+tag` the task has, selects the task; a `-tag` the task has rejects it; a
/// `-tag` it lacks makes the task selected unless a later query decides.
pub open spec fn queries_from(t: TaskView, qs: Seq<Query>, default: bool) -> bool
    decreases qs.len(),
{
    if qs.len() == 0 {
        default
    } else {
        match qs[0] {
            Query::Id(id) => if sub_eq_spec(id@, t.id) {
                true
            } else {
                queries_from(t, qs.drop_first(), default)
            },
            Query::Tag(tag) => match tag.sign {
                Sign::Plus => if t.tags.contains(tag.name@) {
                    true
                } else {
                    queries_from(t, qs.drop_first(), default)
                },
                Sign::Minus => if t.tags.contains(tag.name@) {
                    false
                } else {
                    queries_from(t, qs.drop_first(), true)
                },
            },
        }
    }
}

/// Whether the queries select the task; no query selects nothing.
pub open spec fn satisfies_queries_spec(t: TaskView, qs: Seq<Query>) -> bool {
    qs.len() > 0 && queries_from(t, qs, false)
}

/// The message of the error for two tasks with different identifiers.
pub open spec fn conflict_message() -> Seq<char> {
    "tried to resolve a conflict between two different tasks"@
}

/// The error for two tasks with different identifiers: a `Task` error while
/// comparing, with the conflict message and no source.
pub open spec fn is_conflict_error(e: HyperTaskError) -> bool {
    &&& e.domain == HyperTaskErrorDomain::Task
    &&& e.action == HyperTaskErrorAction::Compare
    &&& e.meta matches Some(m) && m@ == conflict_message()
    &&& e.source is None
}

/// The version of a task that two replicas agree on: the one present if only
/// one is, the later updated one if both are (the right one on a tie).
pub open spec fn resolve_spec(lhs: Option<Task>, rhs: Option<Task>) -> Option<Option<Task>> {
    match (lhs, rhs) {
        (None, None) => Some(None),
        (Some(t), None) => Some(Some(t)),
        (None, Some(t)) => Some(Some(t)),
        (Some(a), Some(b)) => if a.id@ != b.id@ {
            None
        } else if b.updated_at.before(a.updated_at) {
            Some(Some(a))
        } else {
            Some(Some(b))
        },
    }
}

fn copy_opt_string(o: &Option<String>) -> (r: Option<String>)
    ensures
        opt_str(r) == opt_str(*o),
{
    match o {
        Some(s) => Some(s.clone()),
        None => None,
    }
}

fn copy_opt_id(o: &Option<Id>) -> (r: Option<Id>)
    ensures
        opt_id(r) == opt_id(*o),
{
    match o {
        Some(i) => Some(i.duplicate()),
        None => None,
    }
}

impl Task {
    /// A new task created at `now`, with a freshly generated identifier and no
    /// other property.
    pub fn generate(now: &DateTime) -> (r: Task)
        ensures
            r@.created_at == *now,
            r@.updated_at == *now,
            is_generated_id(r@.id),
            r@.description is None,
            r@.blocked_by is None,
            r@.done is None,
            r@.due is None,
            r@.recur is None,
            r@.snooze is None,
            r@.wait is None,
            r@.tags == Set::<Seq<char>>::empty(),
    {
        Task {
            created_at: *now,
            updated_at: *now,
            id: Id::generate(),
            description: None,
            blocked_by: None,
            done: None,
            due: None,
            recur: None,
            snooze: None,
            wait: None,
            tags: TagSet::new(),
        }
    }

    /// A copy of the task, field by field.
    pub fn duplicate(&self) -> (r: Task)
        ensures
            r@ == self@,
    {
        Task {
            created_at: self.created_at,
            updated_at: self.updated_at,
            id: self.id.duplicate(),
            description: copy_opt_string(&self.description),
            blocked_by: copy_opt_id(&self.blocked_by),
            done: self.done,
            due: self.due,
            recur: self.recur,
            snooze: self.snooze,
            wait: self.wait,
            tags: self.tags.duplicate(),
        }
    }

    pub fn get_created_at(&self) -> (r: &DateTime)
        ensures
            *r == self.created_at,
    {
        &self.created_at
    }

    pub fn get_description(&self) -> (r: &Option<String>)
        ensures
            *r == self.description,
    {
        &self.description
    }

    pub fn get_done(&self) -> (r: &Option<DateTime>)
        ensures
            *r == self.done,
    {
        &self.done
    }

    pub fn get_due(&self) -> (r: &Option<DateTime>)
        ensures
            *r == self.due,
    {
        &self.due
    }

    pub fn get_id(&self) -> (r: &Id)
        ensures
            *r == self.id,
    {
        &self.id
    }

    pub fn get_blocked_by(&self) -> (r: &Option<Id>)
        ensures
            *r == self.blocked_by,
    {
        &self.blocked_by
    }

    pub fn get_recur(&self) -> (r: &Option<Recur>)
        ensures
            *r == self.recur,
    {
        &self.recur
    }

    pub fn get_snooze(&self) -> (r: &Option<DateTime>)
        ensures
            *r == self.snooze,
    {
        &self.snooze
    }

    pub fn get_tags(&self) -> (r: &TagSet)
        ensures
            *r == self.tags,
    {
        &self.tags
    }

    pub fn get_updated_at(&self) -> (r: &DateTime)
        ensures
            *r == self.updated_at,
    {
        &self.updated_at
    }

    pub fn get_wait(&self) -> (r: &Option<DateTime>)
        ensures
            *r == self.wait,
    {
        &self.wait
    }

    /// Whether the queries select the task.
    pub fn satisfies_queries(&self, queries: &[Query]) -> (r: bool)
        ensures
            r == satisfies_queries_spec(self@, queries@),
    {
        if queries.len() == 0 {
            return false;
        }
        let mut default = false;
        let mut i: usize = 0;
        assert(queries@.subrange(0, queries@.len() as int) =~= queries@);
        while i < queries.len()
            invariant
                0 < queries@.len(),
                i <= queries@.len(),
                queries_from(self@, queries@, false) == queries_from(
                    self@,
                    queries@.subrange(i as int, queries@.len() as int),
                    default,
                ),
            decreases queries.len() - i,
        {
            let ghost rest = queries@.subrange(i as int, queries@.len() as int);
            assert(rest[0] == queries@[i as int]);
            assert(rest.drop_first() =~= queries@.subrange(i + 1, queries@.len() as int));
            match &queries[i] {
                Query::Id(id) => {
                    if id.sub_eq(&self.id) {
                        return true;
                    }
                },
                Query::Tag(tag) => {
                    let present = self.tags.contains(tag.name.as_str());
                    match tag.sign {
                        Sign::Plus => {
                            if present {
                                return true;
                            }
                        },
                        Sign::Minus => {
                            if present {
                                return false;
                            } else {
                                default = true;
                            }
                        },
                    }
                },
            }
            i = i + 1;
        }
        default
    }

    /// Applies one mutation at `now`.
    pub fn apply_mutation(&mut self, mutation: &Mutation, now: &DateTime)
        requires
            mutation_ok(old(self)@, *mutation),
        ensures
            final(self)@ == apply_mutation_spec(old(self)@, *mutation, *now),
    {
        match mutation {
            Mutation::SetTag(Tag { sign: Sign::Plus, name }) => {
                self.tags.insert(name.clone());
            },
            Mutation::SetTag(Tag { sign: Sign::Minus, name }) => {
                self.tags.remove(name.as_str());
            },
            Mutation::SetProp(Prop::Description(description)) => {
                self.description = Some(description.clone());
            },
            Mutation::SetProp(Prop::Depends(depends)) => {
                self.blocked_by = copy_opt_id(depends);
            },
            Mutation::SetProp(Prop::Done(done)) => {
                match self.recur {
                    Some(recur) => {
                        let dt = recur.duration_secs();
                        match self.due {
                            Some(due) => {
                                self.due = Some(due.add_secs(dt));
                            },
                            None => {},
                        }
                        match self.wait {
                            Some(wait) => {
                                self.wait = Some(wait.add_secs(dt));
                            },
                            None => {},
                        }
                    },
                    None => {
                        self.done = Some(*done);
                    },
                }
            },
            Mutation::SetProp(Prop::Due(due)) => {
                self.due = *due;
            },
            Mutation::SetProp(Prop::Snooze(snooze)) => {
                self.snooze = *snooze;
            },
            Mutation::SetProp(Prop::Wait(wait)) => {
                self.wait = *wait;
            },
            Mutation::SetProp(Prop::Recur(recur)) => {
                self.recur = *recur;
            },
        }
        self.updated_at = *now;
    }

    /// Applies the mutations in order at `now`.
    pub fn apply_mutations(&mut self, mutations: &[Mutation], now: &DateTime)
        requires
            mutations_ok(old(self)@, mutations@, *now),
        ensures
            final(self)@ == apply_mutations_spec(old(self)@, mutations@, *now),
    {
        let mut i: usize = 0;
        while i < mutations.len()
            invariant
                i <= mutations@.len(),
                mutations_ok(old(self)@, mutations@, *now),
                self@ == apply_mutations_spec(
                    old(self)@,
                    mutations@.subrange(0, i as int),
                    *now,
                ),
            decreases mutations.len() - i,
        {
            proof {
                lemma_mutations_ok_prefix(old(self)@, mutations@, *now, i as int + 1);
                let p = mutations@.subrange(0, i + 1);
                assert(p.drop_last() =~= mutations@.subrange(0, i as int));
                assert(p.last() == mutations@[i as int]);
            }
            self.apply_mutation(&mutations[i], now);
            i = i + 1;
        }
        assert(mutations@.subrange(0, i as int) =~= mutations@);
    }

    /// Whether the task was due before `now`.
    pub fn is_overdue(&self, now: &DateTime) -> (r: bool)
        ensures
            r == (self.due matches Some(d) && d.before(*now)),
    {
        match self.due {
            Some(due) => due.is_before(now),
            None => false,
        }
    }

    /// Whether the task is due before three days after `now`.
    pub fn is_soon_due(&self, now: &DateTime) -> (r: bool)
        requires
            self.due is Some ==> now.can_add(3 * SECS_PER_DAY),
        ensures
            r == (self.due matches Some(d) && d.before(now.plus(3 * SECS_PER_DAY))),
    {
        match self.due {
            Some(due) => due.is_before(&now.add_secs(3 * SECS_PER_DAY)),
            None => false,
        }
    }

    /// Resolves a conflict between two versions of one task, either of which
    /// may be missing: a lone version wins, and of two the later updated wins.
    /// Versions of two different tasks are refused.
    pub fn resolve_task_conflict(lhs: Option<Task>, rhs: Option<Task>) -> (r: HyperTaskResult<
        Option<Task>,
    >)
        ensures
            resolve_spec(lhs, rhs) matches Some(v) ==> r == Ok::<Option<Task>, HyperTaskError>(v),
            resolve_spec(lhs, rhs) is None ==> (r matches Err(e) && is_conflict_error(e)),
    {
        match (lhs, rhs) {
            (None, None) => Ok(None),
            (Some(task), None) => Ok(Some(task)),
            (None, Some(task)) => Ok(Some(task)),
            (Some(t1), Some(t2)) => {
                if !t1.id.same_as(&t2.id) {
                    return Err(
                        HyperTaskError::new(
                            HyperTaskErrorDomain::Task,
                            HyperTaskErrorAction::Compare,
                        ).msg("tried to resolve a conflict between two different tasks"),
                    );
                }
                if t2.updated_at.is_before(&t1.updated_at) {
                    Ok(Some(t1))
                } else {
                    Ok(Some(t2))
                }
            },
        }
    }
}

/// Each prefix of mutations that can be applied can be applied.
pub proof fn lemma_mutations_ok_prefix(t: TaskView, ms: Seq<Mutation>, now: DateTime, k: int)
    requires
        mutations_ok(t, ms, now),
        0 <= k <= ms.len(),
    ensures
        mutations_ok(t, ms.subrange(0, k), now),
    decreases ms.len() - k,
{
    if k < ms.len() {
        lemma_mutations_ok_prefix(t, ms.drop_last(), now, k);
        assert(ms.drop_last().subrange(0, k) =~= ms.subrange(0, k));
    } else {
        assert(ms.subrange(0, k) =~= ms);
    }
}

/// Whether one period of `r` fits in a time span.
pub fn recur_fits(r: &Recur) -> (b: bool)
    ensures
        b == recur_ok(*r),
{
    let limit: i64 = crate::datetime::MAX_SPAN_SECS;
    let (n, unit): (i64, i64) = match *r {
        Recur::Day(n) => (n, 86400),
        Recur::Week(n) => (n, 604800),
        Recur::Month(n) => {
            assert(n * 31536000 / 12 == n * 2628000) by (nonlinear_arith);
            (n, 2628000)
        },
        Recur::Year(n) => {
            assert(n * 365 * 86400 == n * 31536000) by (nonlinear_arith);
            (n, 31536000)
        },
    };
    assert(recur_secs(*r) == n * unit);
    let bound = limit / unit;
    assert(n * unit <= limit <==> n <= bound) by (nonlinear_arith)
        requires
            unit > 0,
            limit >= 0,
            bound == limit / unit,
    ;
    assert(-limit <= n * unit <==> -bound <= n) by (nonlinear_arith)
        requires
            unit > 0,
            limit >= 0,
            bound == limit / unit,
    ;
    -bound <= n && n <= bound
}

/// Whether the optional instant can be moved by `secs` seconds.
fn shift_fits(o: &Option<DateTime>, secs: i64) -> (b: bool)
    requires
        crate::datetime::span_ok(secs as int),
    ensures
        b == can_shift(*o, secs as int),
{
    match o {
        Some(d) => crate::datetime::MIN_SECS - secs <= d.secs && d.secs <= crate::datetime::MAX_SECS - secs,
        None => true,
    }
}

impl Task {
    /// Whether the mutation can be applied to the task without overflow.
    pub fn mutation_fits(&self, mutation: &Mutation) -> (r: bool)
        ensures
            r == mutation_ok(self@, *mutation),
    {
        match mutation {
            Mutation::SetProp(Prop::Done(_)) => match &self.recur {
                Some(r) => {
                    if !recur_fits(r) {
                        return false;
                    }
                    let secs = r.duration_secs();
                    shift_fits(&self.due, secs) && shift_fits(&self.wait, secs)
                },
                None => true,
            },
            _ => true,
        }
    }

    /// Whether the mutations can be applied in order at `now` without overflow.
    pub fn mutations_fit(&self, mutations: &[Mutation], now: &DateTime) -> (r: bool)
        ensures
            r == mutations_ok(self@, mutations@, *now),
    {
        let mut cur = self.duplicate();
        let mut i: usize = 0;
        assert(mutations@.subrange(0, 0) =~= Seq::<Mutation>::empty());
        while i < mutations.len()
            invariant
                i <= mutations@.len(),
                mutations_ok(self@, mutations@.subrange(0, i as int), *now),
                cur@ == apply_mutations_spec(self@, mutations@.subrange(0, i as int), *now),
            decreases mutations.len() - i,
        {
            let ghost p = mutations@.subrange(0, i + 1);
            assert(p.drop_last() =~= mutations@.subrange(0, i as int));
            assert(p.last() == mutations@[i as int]);
            if !cur.mutation_fits(&mutations[i]) {
                proof {
                    if mutations_ok(self@, mutations@, *now) {
                        lemma_mutations_ok_prefix(self@, mutations@, *now, i + 1);
                    }
                }
                return false;
            }
            cur.apply_mutation(&mutations[i], now);
            i = i + 1;
        }
        assert(mutations@.subrange(0, i as int) =~= mutations@);
        true
    }
}

} // verus!
