//! The engine: a collection of tasks with distinct identifiers, and the
//! commands that create, read and update them.
//!
//! Scores and filters are numbers computed by a stack machine outside this
//! library; `run` takes the filter's verdict for each task as an argument.

use vstd::prelude::*;
use crate::command::{Command, Mutation, Query};
use crate::datetime::DateTime;
use crate::error::{HyperTaskError, HyperTaskResult};
use crate::id::{Id, is_generated_id};
use crate::task::{
    Task, TaskView, apply_mutations_spec, mutations_ok, satisfies_queries_spec,
};

verus! {

/// The identifiers of the tasks are pairwise distinct.
pub open spec fn distinct_ids(ts: Seq<TaskView>) -> bool {
    forall|i: int, j: int| 0 <= i < j < ts.len() ==> #[trigger] ts[i].id != #[trigger] ts[j].id
}

/// The contents of a sequence of tasks.
pub open spec fn task_views(ts: Seq<Task>) -> Seq<TaskView> {
    ts.map_values(|t: Task| t@)
}

/// The filter admits the task: the filter's number for it is positive.
pub open spec fn admitted(f: Result<bool, HyperTaskError>) -> bool {
    f == Ok::<bool, HyperTaskError>(true)
}

/// `update` selects task `t`: the queries select it and the filter admits it.
pub open spec fn selected_for_update(t: TaskView, f: Result<bool, HyperTaskError>, qs: Seq<Query>) -> bool {
    satisfies_queries_spec(t, qs) && admitted(f)
}

/// Updating the first `ts.len()` tasks: the tasks the queries select and the
/// filter admits, each with the mutations applied, in order; or the first
/// filter error met on a task the queries select.
pub open spec fn update_result(
    ts: Seq<TaskView>,
    fs: Seq<Result<bool, HyperTaskError>>,
    qs: Seq<Query>,
    ms: Seq<Mutation>,
    now: DateTime,
) -> Result<Seq<TaskView>, HyperTaskError>
    decreases ts.len(),
{
    if ts.len() == 0 {
        Ok(Seq::empty())
    } else {
        match update_result(ts.drop_last(), fs.subrange(0, ts.len() - 1), qs, ms, now) {
            Err(e) => Err(e),
            Ok(done) => {
                let t = ts.last();
                if satisfies_queries_spec(t, qs) {
                    match fs[ts.len() - 1] {
                        Err(e) => Err(e),
                        Ok(b) => if b {
                            Ok(done.push(apply_mutations_spec(t, ms, now)))
                        } else {
                            Ok(done)
                        },
                    }
                } else {
                    Ok(done)
                }
            },
        }
    }
}

/// The collection after an update: each selected task replaced by its
/// mutated version.
pub open spec fn updated_tasks(
    ts: Seq<TaskView>,
    fs: Seq<Result<bool, HyperTaskError>>,
    qs: Seq<Query>,
    ms: Seq<Mutation>,
    now: DateTime,
) -> Seq<TaskView> {
    Seq::new(
        ts.len(),
        |i: int|
            if selected_for_update(ts[i], fs[i], qs) {
                apply_mutations_spec(ts[i], ms, now)
            } else {
                ts[i]
            },
    )
}

/// No task before position `i` that the queries select has a filter error.
pub open spec fn no_error_before(
    ts: Seq<TaskView>,
    fs: Seq<Result<bool, HyperTaskError>>,
    qs: Seq<Query>,
    i: int,
) -> bool {
    forall|j: int| 0 <= j < i ==> !(satisfies_queries_spec(ts[j], qs) && #[trigger] fs[j] is Err)
}

/// Reading the first `ts.len()` tasks: with queries, the tasks they select;
/// without, the tasks the filter admits, or the first filter error.
pub open spec fn read_result(
    ts: Seq<TaskView>,
    fs: Seq<Result<bool, HyperTaskError>>,
    qs: Seq<Query>,
) -> Result<Seq<TaskView>, HyperTaskError>
    decreases ts.len(),
{
    if ts.len() == 0 {
        Ok(Seq::empty())
    } else {
        match read_result(ts.drop_last(), fs.subrange(0, ts.len() - 1), qs) {
            Err(e) => Err(e),
            Ok(done) => {
                let t = ts.last();
                if qs.len() > 0 {
                    if satisfies_queries_spec(t, qs) {
                        Ok(done.push(t))
                    } else {
                        Ok(done)
                    }
                } else {
                    match fs[ts.len() - 1] {
                        Err(e) => Err(e),
                        Ok(b) => if b {
                            Ok(done.push(t))
                        } else {
                            Ok(done)
                        },
                    }
                }
            },
        }
    }
}

/// The collection with `t` in it: in place of the task with the same
/// identifier if there is one, else added at the end.
pub open spec fn upsert(ts: Seq<TaskView>, t: TaskView) -> Seq<TaskView> {
    if exists|i: int| 0 <= i < ts.len() && ts[i].id == t.id {
        ts.update(choose|i: int| 0 <= i < ts.len() && ts[i].id == t.id, t)
    } else {
        ts.push(t)
    }
}

/// A newly generated task at `now` with identifier `id`, before mutations.
pub open spec fn fresh_task(id: Seq<char>, now: DateTime) -> TaskView {
    TaskView {
        created_at: now,
        updated_at: now,
        id: id,
        description: None,
        blocked_by: None,
        done: None,
        due: None,
        recur: None,
        snooze: None,
        wait: None,
        tags: Set::empty(),
    }
}

/// What a command hands back: the tasks it changed, and the tasks to display.
pub struct EnginePlan {
    pub mutated_tasks: Vec<Task>,
    pub display_tasks: Vec<Task>,
}

/// The engine over a collection of tasks.
pub struct Engine {
    tasks: Vec<Task>,
    blockers: Vec<Id>,
    now: DateTime,
}

impl View for Engine {
    type V = Seq<TaskView>;

    closed spec fn view(&self) -> Seq<TaskView> {
        task_views(self.tasks@)
    }
}

/// The number of times `id` occurs in `ids`.
pub open spec fn count_id(ids: Seq<Seq<char>>, id: Seq<char>) -> nat
    decreases ids.len(),
{
    if ids.len() == 0 {
        0
    } else {
        count_id(ids.drop_last(), id) + if ids.last() == id {
            1nat
        } else {
            0nat
        }
    }
}

/// The tasks in `ts` that are blocked by the task with identifier `id`.
pub open spec fn blocked_by_ids(ts: Seq<TaskView>) -> Seq<Seq<char>>
    decreases ts.len(),
{
    if ts.len() == 0 {
        Seq::empty()
    } else {
        match ts.last().blocked_by {
            Some(b) => blocked_by_ids(ts.drop_last()).push(b),
            None => blocked_by_ids(ts.drop_last()),
        }
    }
}

/// Applying mutations never changes a task's identifier.
pub proof fn lemma_mutations_keep_id(t: TaskView, ms: Seq<Mutation>, now: DateTime)
    ensures
        apply_mutations_spec(t, ms, now).id == t.id,
    decreases ms.len(),
{
    if ms.len() > 0 {
        lemma_mutations_keep_id(t, ms.drop_last(), now);
    }
}

impl Engine {
    #[verifier::type_invariant]
    spec fn wf(self) -> bool {
        distinct_ids(task_views(self.tasks@))
    }

    /// The instant commands run at.
    pub closed spec fn now_spec(self) -> DateTime {
        self.now
    }

    /// The identifiers that tasks were blocked by when the engine was made,
    /// one for each blocked task.
    pub closed spec fn blockers_spec(self) -> Seq<Seq<char>> {
        self.blockers@.map_values(|i: Id| i@)
    }

    /// An engine over `tasks`, running commands at `now`, that records which
    /// task each task is blocked by.
    pub fn new(tasks: Vec<Task>, now: DateTime) -> (r: Engine)
        requires
            distinct_ids(task_views(tasks@)),
        ensures
            r@ == task_views(tasks@),
            r.now_spec() == now,
            r.blockers_spec() == blocked_by_ids(task_views(tasks@)),
    {
        let mut blockers: Vec<Id> = Vec::new();
        let mut i: usize = 0;
        while i < tasks.len()
            invariant
                i <= tasks@.len(),
                blockers@.map_values(|x: Id| x@) == blocked_by_ids(
                    task_views(tasks@).subrange(0, i as int),
                ),
            decreases tasks.len() - i,
        {
            let ghost before = blockers@;
            proof {
                let p = task_views(tasks@).subrange(0, i + 1);
                assert(p.drop_last() =~= task_views(tasks@).subrange(0, i as int));
                assert(p.last() == tasks@[i as int]@);
            }
            match &tasks[i].blocked_by {
                Some(b) => {
                    blockers.push(b.duplicate());
                    assert(blockers@.map_values(|x: Id| x@) =~= before.map_values(|x: Id| x@).push(
                        b@,
                    ));
                },
                None => {},
            }
            i = i + 1;
        }
        assert(task_views(tasks@).subrange(0, tasks@.len() as int) =~= task_views(tasks@));
        Engine { tasks, blockers, now }
    }

    /// The tasks, in the engine's order.
    pub fn tasks(&self) -> (r: &Vec<Task>)
        ensures
            task_views(r@) == self@,
            distinct_ids(self@),
    {
        proof {
            use_type_invariant(self);
        }
        &self.tasks
    }

    /// How many tasks were blocked by the task `id` when the engine was made.
    pub fn blocking_count(&self, id: &Id) -> (r: usize)
        ensures
            r == count_id(self.blockers_spec(), id@),
    {
        let mut n: usize = 0;
        let mut i: usize = 0;
        while i < self.blockers.len()
            invariant
                i <= self.blockers@.len(),
                n == count_id(self.blockers@.map_values(|x: Id| x@).subrange(0, i as int), id@),
                n <= i,
            decreases self.blockers.len() - i,
        {
            proof {
                let p = self.blockers@.map_values(|x: Id| x@).subrange(0, i + 1);
                assert(p.drop_last() =~= self.blockers@.map_values(|x: Id| x@).subrange(0, i as int));
            }
            if self.blockers[i].same_as(id) {
                n = n + 1;
            }
            i = i + 1;
        }
        assert(self.blockers@.map_values(|x: Id| x@).subrange(0, i as int) =~= self.blockers@.map_values(|x: Id| x@));
        n
    }
}

} // verus!

verus! {

/// Once updating a prefix fails, updating the whole fails the same way.
proof fn lemma_update_err_extends(
    ts: Seq<TaskView>,
    fs: Seq<Result<bool, HyperTaskError>>,
    qs: Seq<Query>,
    ms: Seq<Mutation>,
    now: DateTime,
    k: int,
)
    requires
        0 <= k <= ts.len(),
        fs.len() == ts.len(),
        update_result(ts.subrange(0, k), fs.subrange(0, k), qs, ms, now) is Err,
    ensures
        update_result(ts, fs, qs, ms, now) == update_result(ts.subrange(0, k), fs.subrange(0, k), qs, ms, now),
    decreases ts.len() - k,
{
    if k == ts.len() {
        assert(ts.subrange(0, k) =~= ts);
        assert(fs.subrange(0, k) =~= fs);
    } else {
        assert(ts.drop_last().subrange(0, k) =~= ts.subrange(0, k));
        assert(fs.subrange(0, ts.len() - 1).subrange(0, k) =~= fs.subrange(0, k));
        lemma_update_err_extends(ts.drop_last(), fs.subrange(0, ts.len() - 1), qs, ms, now, k);
    }
}

/// Once reading a prefix fails, reading the whole fails the same way.
proof fn lemma_read_err_extends(
    ts: Seq<TaskView>,
    fs: Seq<Result<bool, HyperTaskError>>,
    qs: Seq<Query>,
    k: int,
)
    requires
        0 <= k <= ts.len(),
        fs.len() == ts.len(),
        read_result(ts.subrange(0, k), fs.subrange(0, k), qs) is Err,
    ensures
        read_result(ts, fs, qs) == read_result(ts.subrange(0, k), fs.subrange(0, k), qs),
    decreases ts.len() - k,
{
    if k == ts.len() {
        assert(ts.subrange(0, k) =~= ts);
        assert(fs.subrange(0, k) =~= fs);
    } else {
        assert(ts.drop_last().subrange(0, k) =~= ts.subrange(0, k));
        assert(fs.subrange(0, ts.len() - 1).subrange(0, k) =~= fs.subrange(0, k));
        lemma_read_err_extends(ts.drop_last(), fs.subrange(0, ts.len() - 1), qs, k);
    }
}

/// Appending a task appends its contents.
pub proof fn lemma_task_views_push(ts: Seq<Task>, t: Task)
    ensures
        task_views(ts.push(t)) == task_views(ts).push(t@),
{
    assert(task_views(ts.push(t)) =~= task_views(ts).push(t@));
}

/// Copies of the tasks, in order.
fn duplicate_all(ts: &Vec<Task>) -> (r: Vec<Task>)
    ensures
        task_views(r@) == task_views(ts@),
{
    let mut r: Vec<Task> = Vec::new();
    let mut i: usize = 0;
    while i < ts.len()
        invariant
            i <= ts@.len(),
            task_views(r@) == task_views(ts@).subrange(0, i as int),
        decreases ts.len() - i,
    {
        let ghost before = r@;
        let t = ts[i].duplicate();
        r.push(t);
        proof {
            lemma_task_views_push(before, t);
        }
        assert(task_views(r@) =~= task_views(ts@).subrange(0, i + 1));
        i = i + 1;
    }
    assert(task_views(ts@).subrange(0, i as int) =~= task_views(ts@));
    r
}

impl Engine {
    /// Updates, into new vectors, the tasks that `queries` select and the filter
    /// admits; `Err` at the first filter error on a selected task.
    fn update_all(
        &self,
        queries: &Vec<Query>,
        mutations: &Vec<Mutation>,
        verdicts: Vec<Result<bool, HyperTaskError>>,
    ) -> (r: Result<(Vec<Task>, Vec<Task>), HyperTaskError>)
        requires
            verdicts@.len() == self@.len(),
            forall|i: int|
                0 <= i < self@.len() && selected_for_update(self@[i], verdicts@[i], queries@)
                    && no_error_before(self@, verdicts@, queries@, i) ==> mutations_ok(
                    #[trigger] self@[i],
                    mutations@,
                    self.now_spec(),
                ),
        ensures
            match update_result(self@, verdicts@, queries@, mutations@, self.now_spec()) {
                Err(e) => r == Err::<(Vec<Task>, Vec<Task>), HyperTaskError>(e),
                Ok(m) => r matches Ok((all, changed)) && task_views(changed@) == m && task_views(
                    all@,
                ) == updated_tasks(self@, verdicts@, queries@, mutations@, self.now_spec()),
            },
    {
        let ghost ts = self@;
        let ghost fs = verdicts@;
        let ghost now = self.now;
        let mut filter = verdicts;
        let mut all: Vec<Task> = Vec::new();
        let mut changed: Vec<Task> = Vec::new();
        let mut i: usize = 0;
        assert(ts.subrange(0, 0) =~= Seq::<TaskView>::empty());
        assert(task_views(changed@) =~= Seq::<TaskView>::empty());
        assert(task_views(all@) =~= Seq::<TaskView>::empty());
        while i < self.tasks.len()
            invariant
                ts == self@,
                ts == task_views(self.tasks@),
                fs == filter@,
                fs == verdicts@,
                now == self.now,
                fs.len() == ts.len(),
                i <= ts.len(),
                no_error_before(ts, fs, queries@, i as int),
                update_result(ts.subrange(0, i as int), fs.subrange(0, i as int), queries@, mutations@, now)
                    == Ok::<Seq<TaskView>, HyperTaskError>(task_views(changed@)),
                task_views(all@) == updated_tasks(ts, fs, queries@, mutations@, now).subrange(0, i as int),
                forall|k: int|
                    0 <= k < ts.len() && selected_for_update(ts[k], fs[k], queries@)
                        && no_error_before(ts, fs, queries@, k) ==> mutations_ok(
                        #[trigger] ts[k],
                        mutations@,
                        now,
                    ),
            decreases self.tasks.len() - i,
        {
            let ghost t = ts[i as int];
            proof {
                let p = ts.subrange(0, i + 1);
                assert(p.drop_last() =~= ts.subrange(0, i as int));
                assert(fs.subrange(0, i + 1).subrange(0, i as int) =~= fs.subrange(0, i as int));
                assert(p.last() == t);
                assert(self.tasks@[i as int]@ == t);
            }
            let task = &self.tasks[i];
            let mut next = task.duplicate();
            if task.satisfies_queries(queries.as_slice()) {
                let verdict: Option<bool> = match &filter[i] {
                    Ok(b) => Some(*b),
                    Err(_) => None,
                };
                match verdict {
                    None => {
                        let x = filter.remove(i);
                        assert(x == fs[i as int]);
                        match x {
                            Err(e) => {
                                proof {
                                    assert(update_result(ts.subrange(0, i + 1), fs.subrange(0, i + 1), queries@, mutations@, now)
                                        == Err::<Seq<TaskView>, HyperTaskError>(e));
                                    lemma_update_err_extends(ts, fs, queries@, mutations@, now, i + 1);
                                    assert(update_result(self@, fs, queries@, mutations@, self.now_spec()) == Err::<Seq<TaskView>, HyperTaskError>(e));
                                    assert(verdicts@ == fs);
                                }
                                return Err(e);
                            },
                            Ok(_) => {
                                assert(false);
                                return Err(HyperTaskError::new(
                                    crate::error::HyperTaskErrorDomain::ScoreCalculator,
                                    crate::error::HyperTaskErrorAction::Run,
                                ));
                            },
                        }
                    },
                    Some(passes) => {
                        if passes {
                            next.apply_mutations(mutations.as_slice(), &self.now);
                            let ghost before = changed@;
                            let copy = next.duplicate();
                            changed.push(copy);
                            proof {
                                lemma_task_views_push(before, copy);
                            }
                        }
                    },
                }
            }
            let ghost before_all = all@;
            let ghost next_view = next@;
            all.push(next);
            proof {
                lemma_task_views_push(before_all, all@.last());
                assert(all@ == before_all.push(all@.last()));
                assert(task_views(changed@) == update_result(
                    ts.subrange(0, i + 1),
                    fs.subrange(0, i + 1),
                    queries@,
                    mutations@,
                    now,
                )->Ok_0) by {
                    assert(task_views(changed@) =~= task_views(changed@));
                }
                assert(task_views(all@) =~= updated_tasks(ts, fs, queries@, mutations@, now).subrange(0, i + 1));
                assert(no_error_before(ts, fs, queries@, i + 1));
            }
            i = i + 1;
        }
        proof {
            assert(ts.subrange(0, i as int) =~= ts);
            assert(fs.subrange(0, i as int) =~= fs);
            assert(updated_tasks(ts, fs, queries@, mutations@, now).subrange(0, i as int)
                =~= updated_tasks(ts, fs, queries@, mutations@, now));
        }
        Ok((all, changed))
    }
}

} // verus!

verus! {

impl Engine {
    /// Copies of the tasks to display for a read; `Err` at the first filter
    /// error met when no query is given.
    fn read_all(&self, queries: &Vec<Query>, verdicts: Vec<Result<bool, HyperTaskError>>) -> (r: Result<
        Vec<Task>,
        HyperTaskError,
    >)
        requires
            verdicts@.len() == self@.len(),
        ensures
            match read_result(self@, verdicts@, queries@) {
                Err(e) => r == Err::<Vec<Task>, HyperTaskError>(e),
                Ok(d) => r matches Ok(shown) && task_views(shown@) == d,
            },
    {
        let ghost ts = self@;
        let ghost fs = verdicts@;
        let mut filter = verdicts;
        let mut shown: Vec<Task> = Vec::new();
        let mut i: usize = 0;
        assert(ts.subrange(0, 0) =~= Seq::<TaskView>::empty());
        assert(task_views(shown@) =~= Seq::<TaskView>::empty());
        while i < self.tasks.len()
            invariant
                ts == self@,
                ts == task_views(self.tasks@),
                fs == filter@,
                fs == verdicts@,
                fs.len() == ts.len(),
                i <= ts.len(),
                read_result(ts.subrange(0, i as int), fs.subrange(0, i as int), queries@)
                    == Ok::<Seq<TaskView>, HyperTaskError>(task_views(shown@)),
            decreases self.tasks.len() - i,
        {
            proof {
                let p = ts.subrange(0, i + 1);
                assert(p.drop_last() =~= ts.subrange(0, i as int));
                assert(fs.subrange(0, i + 1).subrange(0, i as int) =~= fs.subrange(0, i as int));
                assert(p.last() == ts[i as int]);
                assert(self.tasks@[i as int]@ == ts[i as int]);
            }
            let task = &self.tasks[i];
            let show = if queries.len() > 0 {
                task.satisfies_queries(queries.as_slice())
            } else {
                let verdict: Option<bool> = match &filter[i] {
                    Ok(b) => Some(*b),
                    Err(_) => None,
                };
                match verdict {
                    None => {
                        let x = filter.remove(i);
                        assert(x == fs[i as int]);
                        match x {
                            Err(e) => {
                                proof {
                                    assert(read_result(ts.subrange(0, i + 1), fs.subrange(0, i + 1), queries@)
                                        == Err::<Seq<TaskView>, HyperTaskError>(e));
                                    lemma_read_err_extends(ts, fs, queries@, i + 1);
                                }
                                return Err(e);
                            },
                            Ok(_) => {
                                assert(false);
                                return Err(HyperTaskError::new(
                                    crate::error::HyperTaskErrorDomain::ScoreCalculator,
                                    crate::error::HyperTaskErrorAction::Run,
                                ));
                            },
                        }
                    },
                    Some(passes) => passes,
                }
            };
            if show {
                let ghost before = shown@;
                let copy = task.duplicate();
                shown.push(copy);
                proof {
                    lemma_task_views_push(before, copy);
                }
            }
            i = i + 1;
        }
        proof {
            assert(ts.subrange(0, i as int) =~= ts);
            assert(fs.subrange(0, i as int) =~= fs);
        }
        Ok(shown)
    }

    /// The collection with `task` in place of the task of the same identifier,
    /// or added at the end if there is none.
    fn upsert_task(&mut self, task: Task)
        ensures
            final(self)@ == upsert(old(self)@, task@),
            final(self).now_spec() == old(self).now_spec(),
            final(self).blockers_spec() == old(self).blockers_spec(),
    {
        proof {
            use_type_invariant(&*self);
        }
        let mut tasks: Vec<Task> = Vec::new();
        std::mem::swap(&mut tasks, &mut self.tasks);
        upsert_vec(&mut tasks, task);
        self.tasks = tasks;
    }

    /// Runs `command` at the engine's instant. `verdicts` holds, for each task in
    /// the engine's order, whether the filter admits it, or the error the filter
    /// gave on it. A creation adds a task with a fresh identifier and the given
    /// mutations; an update mutates the tasks the queries select and the filter
    /// admits; a read shows the tasks the queries select, or without queries the
    /// tasks the filter admits; a deletion does nothing. On an error the
    /// collection is unchanged.
    pub fn run(&mut self, command: Command, verdicts: Vec<Result<bool, HyperTaskError>>) -> (r:
        HyperTaskResult<EnginePlan>)
        requires
            verdicts@.len() == old(self)@.len(),
            match command {
                Command::Create(ms) => forall|id: Seq<char>|
                    mutations_ok(#[trigger] fresh_task(id, old(self).now_spec()), ms@, old(self).now_spec()),
                Command::Update(qs, ms) => forall|i: int|
                    0 <= i < old(self)@.len() && selected_for_update(old(self)@[i], verdicts@[i], qs@)
                        && no_error_before(old(self)@, verdicts@, qs@, i) ==> mutations_ok(
                        #[trigger] old(self)@[i],
                        ms@,
                        old(self).now_spec(),
                    ),
                _ => true,
            },
        ensures
            final(self).now_spec() == old(self).now_spec(),
            final(self).blockers_spec() == old(self).blockers_spec(),
            match command {
                Command::Create(ms) => r matches Ok(p) && p.mutated_tasks@.len() == 1 && {
                    let t = p.mutated_tasks@[0]@;
                    &&& is_generated_id(t.id)
                    &&& t == apply_mutations_spec(
                        fresh_task(t.id, old(self).now_spec()),
                        ms@,
                        old(self).now_spec(),
                    )
                    &&& task_views(p.display_tasks@) == seq![t]
                    &&& final(self)@ == upsert(old(self)@, t)
                },
                Command::Update(qs, ms) => match update_result(
                    old(self)@,
                    verdicts@,
                    qs@,
                    ms@,
                    old(self).now_spec(),
                ) {
                    Err(e) => r == Err::<EnginePlan, HyperTaskError>(e) && final(self)@ == old(self)@,
                    Ok(m) => final(self)@ == updated_tasks(
                        old(self)@,
                        verdicts@,
                        qs@,
                        ms@,
                        old(self).now_spec(),
                    ) && (r matches Ok(p) && task_views(p.mutated_tasks@) == m && task_views(
                        p.display_tasks@,
                    ) == m),
                },
                Command::Read(qs) => final(self)@ == old(self)@ && (match read_result(
                    old(self)@,
                    verdicts@,
                    qs@,
                ) {
                    Err(e) => r == Err::<EnginePlan, HyperTaskError>(e),
                    Ok(d) => r matches Ok(p) && p.mutated_tasks@.len() == 0 && task_views(
                        p.display_tasks@,
                    ) == d,
                }),
                Command::Delete(_) => final(self)@ == old(self)@ && (r matches Ok(p)
                    && p.mutated_tasks@.len() == 0 && p.display_tasks@.len() == 0),
            },
    {
        proof {
            use_type_invariant(&*self);
        }
        match command {
            Command::Create(mutations) => {
                let mut task = Task::generate(&self.now);
                let ghost t0 = task@;
                proof {
                    assert(task@ == fresh_task(task@.id, self.now));
                }
                task.apply_mutations(mutations.as_slice(), &self.now);
                proof {
                    lemma_mutations_keep_id(t0, mutations@, self.now);
                }
                let copy = task.duplicate();
                let shown = task.duplicate();
                self.upsert_task(task);
                let mut mutated_tasks: Vec<Task> = Vec::new();
                mutated_tasks.push(copy);
                let mut display_tasks: Vec<Task> = Vec::new();
                display_tasks.push(shown);
                assert(task_views(display_tasks@) =~= seq![shown@]);
                assert(mutated_tasks@[0]@ == copy@);
                assert(copy@.id == shown@.id);
                assert(is_generated_id(copy@.id));
                assert(copy@ == apply_mutations_spec(fresh_task(copy@.id, self.now), mutations@, self.now));
                assert(self@ == upsert(old(self)@, copy@));
                Ok(EnginePlan { mutated_tasks, display_tasks })
            },
            Command::Update(queries, mutations) => {
                match self.update_all(&queries, &mutations, verdicts) {
                    Err(e) => Err(e),
                    Ok((all, changed)) => {
                        proof {
                            assert forall|a: int, b: int|
                                0 <= a < b < task_views(all@).len() implies #[trigger] task_views(all@)[a].id
                                != #[trigger] task_views(all@)[b].id by {
                                lemma_mutations_keep_id(self@[a], mutations@, self.now);
                                lemma_mutations_keep_id(self@[b], mutations@, self.now);
                            }
                        }
                        let display_tasks = duplicate_all(&changed);
                        self.tasks = all;
                        Ok(EnginePlan { mutated_tasks: changed, display_tasks })
                    },
                }
            },
            Command::Read(queries) => {
                match self.read_all(&queries, verdicts) {
                    Err(e) => Err(e),
                    Ok(shown) => Ok(EnginePlan { mutated_tasks: Vec::new(), display_tasks: shown }),
                }
            },
            Command::Delete(_) => Ok(EnginePlan { mutated_tasks: Vec::new(), display_tasks: Vec::new() }),
        }
    }
}

/// `tasks` with `task` in place of the task of the same identifier, or added at
/// the end if there is none.
pub fn upsert_vec(tasks: &mut Vec<Task>, task: Task)
    requires
        distinct_ids(task_views(old(tasks)@)),
    ensures
        task_views(final(tasks)@) == upsert(task_views(old(tasks)@), task@),
        distinct_ids(task_views(final(tasks)@)),
{
    let ghost ts = task_views(tasks@);
    let mut i: usize = 0;
    while i < tasks.len()
        invariant
            ts == task_views(tasks@),
            ts == task_views(old(tasks)@),
            distinct_ids(ts),
            i <= ts.len(),
            forall|k: int| 0 <= k < i ==> ts[k].id != task@.id,
        decreases tasks.len() - i,
    {
        if tasks[i].id.same_as(&task.id) {
            proof {
                assert(ts[i as int].id == task@.id);
                assert(forall|k: int| 0 <= k < ts.len() && ts[k].id == task@.id ==> k == i);
                assert(exists|k: int| 0 <= k < ts.len() && ts[k].id == task@.id);
                let c = choose|k: int| 0 <= k < ts.len() && ts[k].id == task@.id;
                assert(c == i);
                assert(upsert(ts, task@) == ts.update(i as int, task@));
            }
            tasks.set(i, task);
            proof {
                assert(task_views(tasks@) =~= ts.update(i as int, task@));
                assert forall|a: int, b: int| 0 <= a < b < task_views(tasks@).len() implies
                    #[trigger] task_views(tasks@)[a].id != #[trigger] task_views(tasks@)[b].id by {
                    assert(task_views(tasks@)[a].id == ts[a].id);
                    assert(task_views(tasks@)[b].id == ts[b].id);
                }
            }
            return;
        }
        i = i + 1;
    }
    let ghost before = tasks@;
    tasks.push(task);
    proof {
        lemma_task_views_push(before, task);
        assert forall|a: int, b: int| 0 <= a < b < task_views(tasks@).len() implies
            #[trigger] task_views(tasks@)[a].id != #[trigger] task_views(tasks@)[b].id by {
            if b == ts.len() {
                assert(task_views(tasks@)[a].id == ts[a].id);
            } else {
                assert(task_views(tasks@)[a].id == ts[a].id);
                assert(task_views(tasks@)[b].id == ts[b].id);
            }
        }
        assert(!(exists|k: int| 0 <= k < ts.len() && ts[k].id == task@.id));
    }
}

/// The tasks keyed by identifier, as loaded one after another: a later task
/// replaces an earlier one with the same identifier.
pub open spec fn upsert_all(ts: Seq<TaskView>) -> Seq<TaskView>
    decreases ts.len(),
{
    if ts.len() == 0 {
        Seq::empty()
    } else {
        upsert(upsert_all(ts.drop_last()), ts.last())
    }
}

/// Indexes loaded tasks by identifier: each identifier once, with the last
/// task loaded for it.
pub fn index_by_id(tasks: Vec<Task>) -> (r: Vec<Task>)
    ensures
        task_views(r@) == upsert_all(task_views(tasks@)),
        distinct_ids(task_views(r@)),
{
    let ghost all = task_views(tasks@);
    let ghost orig = tasks@;
    let mut rest = tasks;
    let mut out: Vec<Task> = Vec::new();
    let mut n: usize = 0;
    assert(orig.subrange(0, orig.len() as int) =~= orig);
    assert(orig.len() == rest.len());
    while rest.len() > 0
        invariant
            orig.len() <= usize::MAX,
            orig.len() == all.len(),
            all == task_views(orig),
            n <= all.len(),
            rest@ == orig.subrange(n as int, orig.len() as int),
            task_views(out@) == upsert_all(all.subrange(0, n as int)),
            distinct_ids(task_views(out@)),
        decreases rest.len(),
    {
        let t = rest.remove(0);
        assert(t == orig[n as int]);
        assert(rest@ =~= orig.subrange(n + 1, orig.len() as int));
        let ghost pre = all.subrange(0, n + 1);
        assert(pre.drop_last() =~= all.subrange(0, n as int));
        assert(pre.last() == t@);
        upsert_vec(&mut out, t);
        n = n + 1;
    }
    assert(all.subrange(0, all.len() as int) =~= all);
    out
}

} // verus!
