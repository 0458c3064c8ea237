//! The keys under which tasks are stored in a key-value store: each task under
//! `hypertask::task::` followed by its identifier.

use vstd::prelude::*;
use crate::id::Id;
use crate::text::{contains_sub, has_prefix, occurs_at, starts_with};

verus! {

/// The prefix of the keys of stored tasks.
pub open spec fn task_key_prefix() -> Seq<char> {
    "hypertask::task::"@
}

/// `s` with every occurrence of `p` removed, scanning from the left and
/// removing matches that do not overlap (as `str::replace` with an empty
/// replacement does).
pub open spec fn remove_all(s: Seq<char>, p: Seq<char>) -> Seq<char>
    decreases s.len(),
{
    if s.len() == 0 {
        Seq::empty()
    } else if p.len() > 0 && starts_with(s, p) {
        remove_all(s.subrange(p.len() as int, s.len() as int), p)
    } else {
        seq![s[0]] + remove_all(s.drop_first(), p)
    }
}

/// The key a task with identifier `id` is stored under.
pub fn task_storage_key(id: &Id) -> (r: String)
    ensures
        r@ == task_key_prefix() + id@,
{
    let mut k = String::from_str("hypertask::task::");
    k.append(id.0.as_str());
    k
}

/// The identifier of the task stored under `key`: for a key that starts with
/// the task prefix, the key with every occurrence of the prefix removed;
/// `None` for any other key.
pub fn task_id_of_key(key: &str) -> (r: Option<Id>)
    ensures
        starts_with(key@, task_key_prefix()) ==> (r matches Some(id) && id@ == remove_all(
            key@,
            task_key_prefix(),
        )),
        !starts_with(key@, task_key_prefix()) ==> r is None,
{
    let prefix = "hypertask::task::";
    if !has_prefix(key, prefix) {
        return None;
    }
    proof {
        reveal_strlit("hypertask::task::");
    }
    let n = key.unicode_len();
    let m = prefix.unicode_len();
    let mut out = String::new();
    let mut i: usize = 0;
    assert(key@.subrange(0, n as int) =~= key@);
    while i < n
        invariant
            n == key@.len(),
            m == prefix@.len(),
            m == 17,
            prefix@ == task_key_prefix(),
            i <= n,
            out@ + remove_all(key@.subrange(i as int, n as int), prefix@) == remove_all(key@, prefix@),
        decreases n - i,
    {
        let rest = key.substring_char(i, n);
        let ghost suffix = key@.subrange(i as int, n as int);
        assert(rest@ == suffix);
        if has_prefix(rest, prefix) {
            assert(suffix.subrange(m as int, suffix.len() as int) =~= key@.subrange(i + m, n as int));
            i = i + m;
        } else {
            let c = key.get_char(i);
            assert(suffix[0] == c);
            assert(suffix.drop_first() =~= key@.subrange(i + 1, n as int));
            let ghost before = out@;
            crate::text::string_push(&mut out, c);
            assert(out@ + remove_all(key@.subrange(i + 1, n as int), prefix@) =~= before + (seq![c]
                + remove_all(key@.subrange(i + 1, n as int), prefix@)));
            i = i + 1;
        }
    }
    assert(out@ + remove_all(key@.subrange(n as int, n as int), prefix@) =~= out@);
    Some(Id(out))
}

/// Removing a pattern from a text that does not contain it leaves the text.
pub proof fn lemma_remove_all_absent(s: Seq<char>, p: Seq<char>)
    requires
        p.len() > 0,
        !contains_sub(s, p),
    ensures
        remove_all(s, p) == s,
    decreases s.len(),
{
    if s.len() > 0 {
        if starts_with(s, p) {
            assert(occurs_at(s, p, 0));
        }
        let t = s.drop_first();
        assert forall|i: int| !occurs_at(t, p, i) by {
            if occurs_at(t, p, i) {
                assert(t.subrange(i, i + p.len()) =~= s.subrange(i + 1, i + 1 + p.len()));
                assert(occurs_at(s, p, i + 1));
            }
        }
        lemma_remove_all_absent(t, p);
        assert(seq![s[0]] + t =~= s);
    }
}

} // verus!
