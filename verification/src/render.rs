//! The text of a task's row in the task table: its identifier, the task that
//! blocks it, its recurrence, due date, tags and description. The score column
//! and the row's colour are left to the caller.

use vstd::prelude::*;
use crate::datetime::DateTime;
use crate::parse_args::join_words;
use crate::recur::recur_text;
use crate::tag::TagSet;
use crate::task::Task;
use crate::text::{chars_of, string_views};

verus! {

/// `a` comes before `b` in the order of their characters' code points, a
/// proper prefix first (the order of `str`, since UTF-8 keeps code point order).
pub open spec fn text_lt(a: Seq<char>, b: Seq<char>) -> bool
    decreases a.len(),
{
    if a.len() == 0 {
        b.len() > 0
    } else if b.len() == 0 {
        false
    } else if a[0] != b[0] {
        (a[0] as int) < (b[0] as int)
    } else {
        text_lt(a.drop_first(), b.drop_first())
    }
}

/// The order is transitive.
pub proof fn lemma_text_lt_transitive(a: Seq<char>, b: Seq<char>, c: Seq<char>)
    requires
        text_lt(a, b),
        text_lt(b, c),
    ensures
        text_lt(a, c),
    decreases a.len(),
{
    if a.len() > 0 && b.len() > 0 && c.len() > 0 && a[0] == b[0] && b[0] == c[0] {
        lemma_text_lt_transitive(a.drop_first(), b.drop_first(), c.drop_first());
    }
}

/// Of two different texts, one comes before the other, and never both.
pub proof fn lemma_text_lt_total(a: Seq<char>, b: Seq<char>)
    ensures
        a != b ==> text_lt(a, b) || text_lt(b, a),
        !(text_lt(a, b) && text_lt(b, a)),
        !text_lt(a, a),
    decreases a.len(),
{
    if a.len() > 0 && b.len() > 0 {
        if a[0] != b[0] {
            assert((a[0] as int) != (b[0] as int));
        }
        lemma_text_lt_total(a.drop_first(), b.drop_first());
        lemma_text_lt_total(a.drop_first(), a.drop_first());
        if a[0] == b[0] && a.drop_first() == b.drop_first() {
            assert forall|i: int| 0 <= i < a.len() implies a[i] == b[i] by {
                if i > 0 {
                    assert(a[i] == a.drop_first()[i - 1]);
                    assert(b[i] == b.drop_first()[i - 1]);
                }
            }
            assert(a =~= b);
        }
    } else if a.len() > 0 {
        lemma_text_lt_total(a.drop_first(), a.drop_first());
    } else if b.len() == 0 {
        assert(a =~= b);
    }
}

/// Whether `a` comes before `b`.
pub fn text_less(a: &str, b: &str) -> (r: bool)
    ensures
        r == text_lt(a@, b@),
{
    let x = chars_of(a);
    let y = chars_of(b);
    let mut i: usize = 0;
    assert(a@.subrange(0, a@.len() as int) =~= a@);
    assert(b@.subrange(0, b@.len() as int) =~= b@);
    while i < x.len() && i < y.len()
        invariant
            x@ == a@,
            y@ == b@,
            i <= x@.len(),
            i <= y@.len(),
            text_lt(a@, b@) == text_lt(a@.subrange(i as int, a@.len() as int), b@.subrange(i as int, b@.len() as int)),
        decreases x.len() - i,
    {
        let ghost sa = a@.subrange(i as int, a@.len() as int);
        let ghost sb = b@.subrange(i as int, b@.len() as int);
        assert(sa[0] == x@[i as int] && sb[0] == y@[i as int]);
        if x[i] != y[i] {
            return x[i] < y[i];
        }
        assert(sa.drop_first() =~= a@.subrange(i + 1, a@.len() as int));
        assert(sb.drop_first() =~= b@.subrange(i + 1, b@.len() as int));
        i = i + 1;
    }
    i < y.len()
}

/// The texts are in strictly increasing order.
pub open spec fn strictly_sorted(s: Seq<Seq<char>>) -> bool {
    forall|i: int, j: int| 0 <= i < j < s.len() ==> text_lt(#[trigger] s[i], #[trigger] s[j])
}

/// The number of texts of `v`, from the front, that come before `x`.
fn insert_position(v: &Vec<String>, x: &String) -> (k: usize)
    ensures
        k <= v@.len(),
        forall|a: int| 0 <= a < k ==> text_lt(#[trigger] string_views(v@)[a], x@),
        k < v@.len() ==> !text_lt(string_views(v@)[k as int], x@),
{
    let mut k: usize = 0;
    while k < v.len()
        invariant
            k <= v@.len(),
            forall|a: int| 0 <= a < k ==> text_lt(#[trigger] string_views(v@)[a], x@),
        decreases v.len() - k,
    {
        if !text_less(v[k].as_str(), x.as_str()) {
            return k;
        }
        k = k + 1;
    }
    k
}

/// Inserts `x` into the sorted `v` at its place.
fn sorted_insert(v: &mut Vec<String>, x: String)
    requires
        strictly_sorted(string_views(old(v)@)),
        !string_views(old(v)@).contains(x@),
    ensures
        strictly_sorted(string_views(final(v)@)),
        forall|s: Seq<char>|
            string_views(final(v)@).contains(s) <==> (string_views(old(v)@).contains(s) || s == x@),
{
    let ghost before = string_views(v@);
    let k = insert_position(v, &x);
    proof {
        if k < before.len() {
            assert(before[k as int] != x@);
            lemma_text_lt_total(before[k as int], x@);
        }
    }
    v.insert(k, x);
    let ghost after = string_views(v@);
    proof {
        assert(after =~= before.insert(k as int, x@));
        assert forall|i: int, j: int| 0 <= i < j < after.len() implies text_lt(
            #[trigger] after[i],
            #[trigger] after[j],
        ) by {
            if j < k {
                assert(text_lt(before[i], before[j]));
            } else if j == k {
            } else if i < k {
                assert(after[j] == before[j - 1]);
                assert(text_lt(x@, before[k as int]));
                if j - 1 > k {
                    assert(text_lt(before[k as int], before[j - 1]));
                    lemma_text_lt_transitive(x@, before[k as int], before[j - 1]);
                }
                lemma_text_lt_transitive(before[i], x@, before[j - 1]);
            } else if i == k {
                assert(after[j] == before[j - 1]);
                if j - 1 > k {
                    assert(text_lt(before[k as int], before[j - 1]));
                    lemma_text_lt_transitive(x@, before[k as int], before[j - 1]);
                }
            } else {
                assert(text_lt(before[i - 1], before[j - 1]));
            }
        }
        assert forall|s: Seq<char>| after.contains(s) <==> (before.contains(s) || s == x@) by {
            if after.contains(s) {
                let i = choose|i: int| 0 <= i < after.len() && after[i] == s;
                if i < k {
                    assert(before[i] == s);
                } else if i > k {
                    assert(before[i - 1] == s);
                }
            }
            if before.contains(s) {
                let i = choose|i: int| 0 <= i < before.len() && before[i] == s;
                if i < k {
                    assert(after[i] == s);
                } else {
                    assert(after[i + 1] == s);
                }
            }
            if s == x@ {
                assert(after[k as int] == s);
            }
        }
    }
}

/// The label a tag is shown with: its name after a `+`.
pub open spec fn tag_label(name: Seq<char>) -> Seq<char> {
    "+"@ + name
}

/// The labels of the tags, sorted.
pub fn tag_labels(tags: &TagSet) -> (r: Vec<String>)
    ensures
        strictly_sorted(string_views(r@)),
        forall|s: Seq<char>|
            string_views(r@).contains(s) <==> exists|n: Seq<char>| tags@.contains(n) && s == tag_label(n),
{
    let names = tags.names();
    let ghost ns = string_views(names@);
    proof {
        reveal_strlit("+");
    }
    let mut out: Vec<String> = Vec::new();
    let mut i: usize = 0;
    while i < names.len()
        invariant
            ns == string_views(names@),
            ns.to_set() == tags@,
            forall|a: int, b: int| 0 <= a < b < names@.len() ==> #[trigger] names@[a]@ != #[trigger] names@[b]@,
            i <= names@.len(),
            strictly_sorted(string_views(out@)),
            forall|s: Seq<char>|
                string_views(out@).contains(s) <==> exists|a: int| 0 <= a < i && s == tag_label(#[trigger] ns[a]),
        decreases names.len() - i,
    {
        let mut label = String::from_str("+");
        label.append(names[i].as_str());
        assert(label@ == tag_label(ns[i as int]));
        proof {
            reveal_strlit("+");
            if string_views(out@).contains(label@) {
                let a = choose|a: int| 0 <= a < i && label@ == tag_label(#[trigger] ns[a]);
                assert(tag_label(ns[a]).drop_first() =~= ns[a]);
                assert(tag_label(ns[i as int]).drop_first() =~= ns[i as int]);
                assert(names@[a]@ != names@[i as int]@);
            }
        }
        sorted_insert(&mut out, label);
        i = i + 1;
    }
    proof {
        assert forall|s: Seq<char>|
            string_views(out@).contains(s) <==> exists|n: Seq<char>| tags@.contains(n) && s == tag_label(n) by {
            if string_views(out@).contains(s) {
                let a = choose|a: int| 0 <= a < names@.len() && s == tag_label(#[trigger] ns[a]);
                assert(ns.to_set().contains(ns[a]));
            }
            if exists|n: Seq<char>| tags@.contains(n) && s == tag_label(n) {
                let n = choose|n: Seq<char>| tags@.contains(n) && s == tag_label(n);
                assert(ns.contains(n));
                let a = choose|a: int| 0 <= a < ns.len() && ns[a] == n;
                assert(s == tag_label(ns[a]));
            }
        }
    }
    out
}

/// The texts joined with single spaces.
pub fn join_with_spaces(v: &Vec<String>) -> (r: String)
    ensures
        r@ == join_words(string_views(v@)),
{
    let ghost ws = string_views(v@);
    let n = v.len();
    if n == 0 {
        return String::new();
    }
    let mut acc = v[n - 1].clone();
    let mut i: usize = n - 1;
    assert(ws.subrange(i as int, n as int).drop_first().len() == 0);
    while i > 0
        invariant
            ws == string_views(v@),
            n == v@.len(),
            i < n,
            acc@ == join_words(ws.subrange(i as int, n as int)),
        decreases i,
    {
        let mut t = v[i - 1].clone();
        t.append(" ");
        t.append(acc.as_str());
        let ghost longer = ws.subrange(i - 1, n as int);
        assert(longer.drop_first() =~= ws.subrange(i as int, n as int));
        assert(longer[0] == v@[i - 1]@);
        acc = t;
        i = i - 1;
    }
    assert(ws.subrange(0, n as int) =~= ws);
    acc
}

/// The text of a task's tags: their labels, sorted, joined with spaces.
pub open spec fn tags_text(tags: Set<Seq<char>>, text: Seq<char>) -> bool {
    exists|labels: Seq<Seq<char>>|
        #![trigger join_words(labels)]
        strictly_sorted(labels) && (forall|s: Seq<char>|
            labels.contains(s) <==> exists|n: Seq<char>| tags.contains(n) && s == tag_label(n)) && text
            == join_words(labels)
}

/// The minutes of an instant in the form `YYYY-MM-DD HH:MM`.
pub uninterp spec fn minute_text(dt: DateTime) -> Seq<char>;

/// The instant formatted by chrono with `%Y-%m-%d %H:%M`. What the text is,
/// chrono's calendar decides; it is named, not described.
#[verifier::external_body]
fn format_date_time(dt: &DateTime) -> (r: String)
    requires
        dt.valid(),
    ensures
        r@ == minute_text(*dt),
{
    chrono::DateTime::from_timestamp(dt.secs, dt.nanos).unwrap().format("%Y-%m-%d %H:%M").to_string()
}

/// The text columns of a task's row.
#[derive(Debug, Clone, PartialEq, Eq)]
pub struct TaskRow {
    pub id: String,
    pub blocked: String,
    pub recur: String,
    pub due: String,
    pub tags: String,
    pub description: String,
}

/// The text of an optional value: its text, or nothing.
pub open spec fn or_empty(o: Option<Seq<char>>) -> Seq<char> {
    match o {
        Some(s) => s,
        None => Seq::empty(),
    }
}

/// The text columns of `task`'s row: its identifier, the identifier of the
/// task blocking it, its recurrence, its due minute, its sorted tag labels and
/// its description, each empty when the task has none.
pub fn task_row(task: &Task) -> (r: TaskRow)
    requires
        task.due matches Some(d) ==> d.valid(),
    ensures
        r.id@ == task.id@,
        r.blocked@ == or_empty(
            match task.blocked_by {
                Some(b) => Some(b@),
                None => None,
            },
        ),
        r.recur@ == or_empty(
            match task.recur {
                Some(x) => Some(recur_text(x)),
                None => None,
            },
        ),
        r.due@ == or_empty(
            match task.due {
                Some(d) => Some(minute_text(d)),
                None => None,
            },
        ),
        tags_text(task.tags@, r.tags@),
        r.description@ == or_empty(
            match task.description {
                Some(d) => Some(d@),
                None => None,
            },
        ),
{
    let blocked = match &task.blocked_by {
        Some(b) => b.get_string().clone(),
        None => String::new(),
    };
    let recur = match &task.recur {
        Some(x) => x.to_display_string(),
        None => String::new(),
    };
    let due = match &task.due {
        Some(d) => format_date_time(d),
        None => String::new(),
    };
    let labels = tag_labels(&task.tags);
    let tags = join_with_spaces(&labels);
    let description = match &task.description {
        Some(d) => d.clone(),
        None => String::new(),
    };
    TaskRow { id: task.id.get_string().clone(), blocked, recur, due, tags, description }
}

/// The columns of the task table.
#[derive(Debug, Clone, Copy, PartialEq, Eq, Structural)]
pub enum RenderColumns {
    Id,
    Score,
    Description,
    Blocked,
    Tags,
    Due,
    Recur,
}

impl RenderColumns {
    /// The column's heading.
    pub fn heading(&self) -> (r: &'static str)
        ensures
            r@ == match *self {
                RenderColumns::Id => "Id"@,
                RenderColumns::Score => "Score"@,
                RenderColumns::Description => "Description"@,
                RenderColumns::Blocked => "Blocked By"@,
                RenderColumns::Tags => "Tags"@,
                RenderColumns::Due => "Due"@,
                RenderColumns::Recur => "Recur"@,
            },
    {
        match self {
            RenderColumns::Id => "Id",
            RenderColumns::Score => "Score",
            RenderColumns::Description => "Description",
            RenderColumns::Blocked => "Blocked By",
            RenderColumns::Tags => "Tags",
            RenderColumns::Due => "Due",
            RenderColumns::Recur => "Recur",
        }
    }
}

} // verus!
