//! The decisions of task synchronisation: which tasks a client and the sync
//! server disagree on, what each side does with the version both agree on, how
//! the server answers a request, and the search for a free port.

use vstd::prelude::*;
use crate::error::{HyperTaskError, HyperTaskResult};
use crate::task::{is_conflict_error, resolve_spec, Task};
use crate::text::{str_eq, string_views};

verus! {

/// The characters a sync secret is generated from.
pub const SECRET_CHARS: &'static str = "0123456789ABCDEFGHIJKLNMOPQRSTUVWXYZabcdefghijklmnopqrstuvwxyz";

/// The length of a generated sync secret.
pub const SECRET_LEN: usize = 64;

/// `s` has the shape of a generated secret: `SECRET_LEN` characters, each taken
/// from `SECRET_CHARS`.
pub open spec fn is_generated_secret(s: Seq<char>) -> bool {
    &&& s.len() == SECRET_LEN
    &&& forall|i: int| 0 <= i < s.len() ==> SECRET_CHARS@.contains(#[trigger] s[i])
}

/// A fresh secret of random characters from `SECRET_CHARS`.
pub fn generate_sync_secret() -> (r: String)
    ensures
        is_generated_secret(r@),
{
    proof {
        reveal_strlit("0123456789ABCDEFGHIJKLNMOPQRSTUVWXYZabcdefghijklmnopqrstuvwxyz");
    }
    let mut result = String::new();
    let mut i: usize = 0;
    while i < SECRET_LEN
        invariant
            i <= SECRET_LEN,
            result@.len() == i,
            SECRET_CHARS@.len() > 0,
            forall|k: int| 0 <= k < i ==> SECRET_CHARS@.contains(#[trigger] result@[k]),
        decreases SECRET_LEN - i,
    {
        match crate::id::choose_char(SECRET_CHARS) {
            Some(c) => {
                crate::text::string_push(&mut result, c);
            },
            None => {
                assert(false);
            },
        }
        i = i + 1;
    }
    result
}

/// A reply of the sync server: a status code and a body.
#[derive(Debug, Clone, PartialEq, Eq)]
pub struct HttpReply {
    pub status: u16,
    pub body: String,
}

/// The `Authorization` header that carries `secret`.
pub open spec fn auth_header_text(secret: Seq<char>) -> Seq<char> {
    "hypertask "@ + secret
}

/// The reply the server gives a request with the `Authorization` header
/// `header` when its secret is `secret`: `None` lets the request through.
pub open spec fn auth_reply_spec(header: Option<Seq<char>>, secret: Seq<char>) -> Option<(u16, Seq<char>)> {
    match header {
        None => Some((400, "no Authorization header provided"@)),
        Some(h) => if h == auth_header_text(secret) {
            None
        } else {
            Some((401, "incorect Authorization header provided"@))
        },
    }
}

/// Checks the `Authorization` header of a request: a missing header is
/// answered 400, one that does not carry the secret 401.
pub fn check_authorization(header: Option<&str>, secret: &str) -> (r: Option<HttpReply>)
    ensures
        match auth_reply_spec(
            match header {
                Some(h) => Some(h@),
                None => None,
            },
            secret@,
        ) {
            None => r is None,
            Some((s, b)) => r matches Some(x) && x.status == s && x.body@ == b,
        },
{
    match header {
        None => Some(
            HttpReply { status: 400, body: String::from_str("no Authorization header provided") },
        ),
        Some(h) => {
            let mut expected = String::from_str("hypertask ");
            expected.append(secret);
            if str_eq(h, expected.as_str()) {
                None
            } else {
                Some(
                    HttpReply {
                        status: 401,
                        body: String::from_str("incorect Authorization header provided"),
                    },
                )
            }
        },
    }
}

/// The ways a request to post a task can fail.
#[derive(Debug, Clone, Copy, PartialEq, Eq, Structural)]
pub enum PostTaskFailure {
    MissingId,
    InvalidTask,
    ReadFailed,
    Conflict,
    WriteFailed,
}

/// The status and body the server answers a failed post with.
pub open spec fn failure_reply_spec(f: PostTaskFailure) -> (u16, Seq<char>) {
    match f {
        PostTaskFailure::MissingId => (400, "no id provided"@),
        PostTaskFailure::InvalidTask => (400, "invalid task recieved"@),
        PostTaskFailure::ReadFailed => (500, "could not read local task"@),
        PostTaskFailure::Conflict => (400, "tasks did not match"@),
        PostTaskFailure::WriteFailed => (500, "could not write local task"@),
    }
}

/// The reply to a failed post.
pub fn failure_reply(f: PostTaskFailure) -> (r: HttpReply)
    ensures
        (r.status, r.body@) == failure_reply_spec(f),
{
    match f {
        PostTaskFailure::MissingId => HttpReply { status: 400, body: String::from_str("no id provided") },
        PostTaskFailure::InvalidTask => HttpReply {
            status: 400,
            body: String::from_str("invalid task recieved"),
        },
        PostTaskFailure::ReadFailed => HttpReply {
            status: 500,
            body: String::from_str("could not read local task"),
        },
        PostTaskFailure::Conflict => HttpReply { status: 400, body: String::from_str("tasks did not match") },
        PostTaskFailure::WriteFailed => HttpReply {
            status: 500,
            body: String::from_str("could not write local task"),
        },
    }
}

/// The version the server keeps of a posted task: the client's version and
/// the server's are resolved, the client's taken as the left one. Versions of
/// two different tasks are answered with the conflict reply.
pub fn resolve_posted_task(client_task: Option<Task>, server_task: Option<Task>) -> (r: Result<
    Option<Task>,
    HttpReply,
>)
    ensures
        match resolve_spec(client_task, server_task) {
            Some(v) => r == Ok::<Option<Task>, HttpReply>(v),
            None => r matches Err(x) && (x.status, x.body@) == failure_reply_spec(PostTaskFailure::Conflict),
        },
{
    match Task::resolve_task_conflict(client_task, server_task) {
        Ok(v) => Ok(v),
        Err(_) => Err(failure_reply(PostTaskFailure::Conflict)),
    }
}

/// What a client does with a task after asking the server for its version.
#[derive(Debug, PartialEq, Eq)]
pub enum SyncAction {
    Put(Task),
    Delete,
}

/// The action that settles a task whose local and remote versions are
/// `local` and `remote`: store the resolved version, or delete the task when
/// neither side has it.
pub fn sync_action(local: Option<Task>, remote: Option<Task>) -> (r: HyperTaskResult<SyncAction>)
    ensures
        match resolve_spec(local, remote) {
            Some(Some(t)) => r == Ok::<SyncAction, HyperTaskError>(SyncAction::Put(t)),
            Some(None) => r == Ok::<SyncAction, HyperTaskError>(SyncAction::Delete),
            None => r matches Err(e) && is_conflict_error(e),
        },
{
    match Task::resolve_task_conflict(local, remote) {
        Ok(Some(t)) => Ok(SyncAction::Put(t)),
        Ok(None) => Ok(SyncAction::Delete),
        Err(e) => Err(e),
    }
}

/// The contents of a table of task hashes.
pub open spec fn hash_entries(v: Seq<(String, u64)>) -> Seq<(Seq<char>, u64)> {
    v.map_values(|p: (String, u64)| (p.0@, p.1))
}

/// The hash a table gives identifier `id`: that of its first entry for `id`.
pub open spec fn lookup(v: Seq<(Seq<char>, u64)>, id: Seq<char>) -> Option<u64>
    decreases v.len(),
{
    if v.len() == 0 {
        None
    } else if v[0].0 == id {
        Some(v[0].1)
    } else {
        lookup(v.drop_first(), id)
    }
}

/// The identifier is in the table.
pub open spec fn has_key(v: Seq<(Seq<char>, u64)>, id: Seq<char>) -> bool {
    exists|i: int| 0 <= i < v.len() && (#[trigger] v[i]).0 == id
}

/// An identifier has a hash exactly when the table has an entry for it.
pub proof fn lemma_lookup_has_key(v: Seq<(Seq<char>, u64)>, id: Seq<char>)
    ensures
        lookup(v, id) is Some <==> has_key(v, id),
    decreases v.len(),
{
    if v.len() > 0 {
        lemma_lookup_has_key(v.drop_first(), id);
        if has_key(v.drop_first(), id) {
            let i = choose|i: int| 0 <= i < v.drop_first().len() && (#[trigger] v.drop_first()[i]).0 == id;
            assert(v[i + 1].0 == id);
        }
        if has_key(v, id) && v[0].0 != id {
            let i = choose|i: int| 0 <= i < v.len() && (#[trigger] v[i]).0 == id;
            assert(v.drop_first()[i - 1].0 == id);
        }
    }
}

/// The hash the table gives `id`.
fn find_hash(table: &Vec<(String, u64)>, id: &str) -> (r: Option<u64>)
    ensures
        r == lookup(hash_entries(table@), id@),
{
    let ghost v = hash_entries(table@);
    assert(v.subrange(0, v.len() as int) =~= v);
    let mut i: usize = 0;
    while i < table.len()
        invariant
            v == hash_entries(table@),
            i <= table@.len(),
            lookup(v, id@) == lookup(v.subrange(i as int, v.len() as int), id@),
        decreases table.len() - i,
    {
        let ghost rest = v.subrange(i as int, v.len() as int);
        assert(rest[0] == (table@[i as int].0@, table@[i as int].1));
        if str_eq(table[i].0.as_str(), id) {
            return Some(table[i].1);
        }
        assert(rest.drop_first() =~= v.subrange(i + 1, v.len() as int));
        i = i + 1;
    }
    None
}

/// `id` is to be synchronised: a side has it and the two sides give it
/// different hashes.
pub open spec fn needs_sync(
    local: Seq<(Seq<char>, u64)>,
    remote: Seq<(Seq<char>, u64)>,
    id: Seq<char>,
) -> bool {
    &&& has_key(local, id) || has_key(remote, id)
    &&& lookup(local, id) != lookup(remote, id)
}

/// Appends the identifiers of `table` to be synchronised that `out` lacks.
fn add_ids_to_sync(
    table: &Vec<(String, u64)>,
    local: &Vec<(String, u64)>,
    remote: &Vec<(String, u64)>,
    out: &mut Vec<String>,
)
    requires
        forall|i: int, j: int|
            0 <= i < j < old(out)@.len() ==> (#[trigger] old(out)@[i])@ != (#[trigger] old(out)@[j])@,
        forall|i: int|
            0 <= i < old(out)@.len() ==> needs_sync(
                hash_entries(local@),
                hash_entries(remote@),
                (#[trigger] old(out)@[i])@,
            ),
    ensures
        forall|i: int, j: int| 0 <= i < j < final(out)@.len() ==> (#[trigger] final(out)@[i])@ != (
        #[trigger] final(out)@[j])@,
        forall|i: int|
            0 <= i < final(out)@.len() ==> needs_sync(
                hash_entries(local@),
                hash_entries(remote@),
                (#[trigger] final(out)@[i])@,
            ),
        forall|s: Seq<char>|
            string_views(old(out)@).contains(s) ==> string_views(final(out)@).contains(s),
        forall|i: int|
            0 <= i < table@.len() && needs_sync(
                hash_entries(local@),
                hash_entries(remote@),
                (#[trigger] table@[i]).0@,
            ) ==> string_views(final(out)@).contains(table@[i].0@),
{
    let ghost l = hash_entries(local@);
    let ghost rm = hash_entries(remote@);
    let ghost start = string_views(out@);
    let mut i: usize = 0;
    while i < table.len()
        invariant
            l == hash_entries(local@),
            rm == hash_entries(remote@),
            i <= table@.len(),
            forall|a: int, b: int| 0 <= a < b < out@.len() ==> (#[trigger] out@[a])@ != (#[trigger] out@[b])@,
            forall|a: int| 0 <= a < out@.len() ==> needs_sync(l, rm, (#[trigger] out@[a])@),
            forall|s: Seq<char>| start.contains(s) ==> string_views(out@).contains(s),
            forall|a: int|
                0 <= a < i && needs_sync(l, rm, (#[trigger] table@[a]).0@) ==> string_views(out@).contains(
                    table@[a].0@,
                ),
        decreases table.len() - i,
    {
        let id = table[i].0.as_str();
        let lh = find_hash(local, id);
        let rh = find_hash(remote, id);
        proof {
            lemma_lookup_has_key(l, id@);
            lemma_lookup_has_key(rm, id@);
        }
        if lh != rh {
            let mut present = false;
            let mut k: usize = 0;
            while k < out.len()
                invariant
                    k <= out@.len(),
                    present <==> exists|a: int| 0 <= a < k && (#[trigger] out@[a])@ == id@,
                decreases out.len() - k,
            {
                if str_eq(out[k].as_str(), id) {
                    present = true;
                }
                k = k + 1;
            }
            let ghost before = out@;
            if !present {
                out.push(String::from_str(id));
                proof {
                    assert(string_views(out@) =~= string_views(before).push(id@));
                    assert(out@[before.len() as int]@ == id@);
                    assert(string_views(out@)[before.len() as int] == id@);
                    assert forall|s: Seq<char>| string_views(before).contains(s) implies string_views(
                        out@,
                    ).contains(s) by {
                        let j = choose|j: int|
                            0 <= j < string_views(before).len() && string_views(before)[j] == s;
                        assert(string_views(out@)[j] == s);
                    }
                }
            } else {
                proof {
                    let a = choose|a: int| 0 <= a < before.len() && (#[trigger] before[a])@ == id@;
                    assert(string_views(out@)[a] == id@);
                }
            }
            assert(string_views(out@).contains(id@));
        }
        proof {
            assert forall|a: int|
                0 <= a < i + 1 && needs_sync(l, rm, (#[trigger] table@[a]).0@) implies string_views(
                out@,
            ).contains(table@[a].0@) by {
                if a == i {
                    assert(table@[a].0@ == id@);
                    assert(lookup(l, id@) != lookup(rm, id@));
                }
            }
        }
        i = i + 1;
    }
}

/// The identifiers whose tasks differ between the local table of hashes and
/// the remote one, each once: those of the local table first, in its order.
pub fn ids_to_sync(local: &Vec<(String, u64)>, remote: &Vec<(String, u64)>) -> (r: Vec<String>)
    ensures
        forall|i: int, j: int| 0 <= i < j < r@.len() ==> (#[trigger] r@[i])@ != (#[trigger] r@[j])@,
        forall|id: Seq<char>|
            string_views(r@).contains(id) <==> needs_sync(hash_entries(local@), hash_entries(remote@), id),
{
    let ghost l = hash_entries(local@);
    let ghost rm = hash_entries(remote@);
    let mut out: Vec<String> = Vec::new();
    add_ids_to_sync(local, local, remote, &mut out);
    add_ids_to_sync(remote, local, remote, &mut out);
    proof {
        assert forall|id: Seq<char>| string_views(out@).contains(id) implies needs_sync(l, rm, id) by {
            let a = choose|a: int| 0 <= a < string_views(out@).len() && string_views(out@)[a] == id;
            assert(out@[a]@ == id);
        }
        assert forall|id: Seq<char>| needs_sync(l, rm, id) implies string_views(out@).contains(id) by {
            if has_key(l, id) {
                let i = choose|i: int| 0 <= i < l.len() && (#[trigger] l[i]).0 == id;
                assert(local@[i].0@ == id);
            } else {
                let i = choose|i: int| 0 <= i < rm.len() && (#[trigger] rm[i]).0 == id;
                assert(remote@[i].0@ == id);
            }
        }
    }
    out
}

/// The first port from 10000 up to 20000 that `port_is_available` reports
/// free, asking about each port in turn.
pub fn get_available_port<F: Fn(u16) -> bool>(port_is_available: F) -> (r: Option<u16>)
    requires
        forall|p: u16| call_requires(port_is_available, (p,)),
    ensures
        r matches Some(p) ==> 10000 <= p < 20000 && call_ensures(port_is_available, (p,), true)
            && forall|q: u16| 10000 <= q < p ==> call_ensures(port_is_available, (q,), false),
        r is None ==> forall|q: u16| 10000 <= q < 20000 ==> call_ensures(port_is_available, (q,), false),
{
    let mut port: u16 = 10000;
    while port < 20000
        invariant
            10000 <= port <= 20000,
            forall|p: u16| call_requires(port_is_available, (p,)),
            forall|q: u16| 10000 <= q < port ==> call_ensures(port_is_available, (q,), false),
        decreases 20000 - port,
    {
        let free = port_is_available(port);
        if free {
            return Some(port);
        }
        port = port + 1;
    }
    None
}

} // verus!
