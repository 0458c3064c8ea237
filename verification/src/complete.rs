//! Completion of task identifiers on the command line.

use vstd::prelude::*;
use crate::task::Task;
use crate::text::{has_prefix, starts_with, string_views};

verus! {

/// The identifiers among `ids` that start with `partial`, in order.
pub open spec fn completions(ids: Seq<Seq<char>>, partial: Seq<char>) -> Seq<Seq<char>>
    decreases ids.len(),
{
    if ids.len() == 0 {
        Seq::empty()
    } else {
        let rest = completions(ids.drop_last(), partial);
        if starts_with(ids.last(), partial) {
            rest.push(ids.last())
        } else {
            rest
        }
    }
}

/// The identifiers of the tasks, in order.
pub open spec fn task_ids(tasks: Seq<Task>) -> Seq<Seq<char>> {
    tasks.map_values(|t: Task| t.id@)
}

/// The identifiers of the tasks that start with `partial`.
pub fn complete_id(tasks: &[Task], partial: &str) -> (r: Vec<String>)
    ensures
        string_views(r@) == completions(task_ids(tasks@), partial@),
{
    let ghost ids = task_ids(tasks@);
    let mut output: Vec<String> = Vec::new();
    let mut i: usize = 0;
    while i < tasks.len()
        invariant
            ids == task_ids(tasks@),
            i <= tasks@.len(),
            string_views(output@) == completions(ids.subrange(0, i as int), partial@),
        decreases tasks.len() - i,
    {
        let ghost pre = ids.subrange(0, i + 1);
        assert(pre.drop_last() =~= ids.subrange(0, i as int));
        assert(pre.last() == tasks@[i as int].id@);
        let id = tasks[i].id.get_string();
        if has_prefix(id.as_str(), partial) {
            let ghost before = output@;
            output.push(id.clone());
            assert(string_views(output@) =~= string_views(before).push(id@));
        }
        i = i + 1;
    }
    assert(ids.subrange(0, ids.len() as int) =~= ids);
    output
}

} // verus!
