use hypertask::command::{Command, Mutation, Query};
use hypertask::complete::complete_id;
use hypertask::datetime::DateTime;
use hypertask::engine::{index_by_id, Engine};
use hypertask::error::{ErrorSource, HyperTaskError, HyperTaskErrorAction, HyperTaskErrorDomain};
use hypertask::id::{Id, NUMBER_OF_CHARS_IN_FULL_ID, VALID_ID_CHARS};
use hypertask::prop::Prop;
use hypertask::recur::Recur;
use hypertask::render::{tag_labels, task_row, text_less, RenderColumns};
use hypertask::tag::{Sign, Tag, TagSet};
use hypertask::task::{recur_fits, Task};

fn t0() -> DateTime {
    DateTime::new(1577880000, 0)
}

fn task(id: &str) -> Task {
    Task { id: Id(id.to_string()), ..Task::generate(&t0()) }
}

fn tag(sign: Sign, name: &str) -> Tag {
    Tag { sign, name: name.to_string() }
}

#[test]
fn generated_ids_use_the_alphabet() {
    let id = Id::generate();
    assert_eq!(id.0.len(), NUMBER_OF_CHARS_IN_FULL_ID);
    assert!(id.0.chars().all(|c| VALID_ID_CHARS.contains(c)));
}

#[test]
fn ids_match_by_containment() {
    let a = Id("abcdef".to_string());
    let b = Id("cde".to_string());
    assert!(a.sub_eq(&b));
    assert!(b.sub_eq(&a));
    assert!(a.sub_eq(&a));
    assert!(!a.sub_eq(&Id("xyz".to_string())));
}

#[test]
fn tag_added_then_queried() {
    let mut t = task("t1");
    let later = DateTime::new(1577890000, 0);
    t.apply_mutation(&Mutation::SetTag(tag(Sign::Plus, "work")), &later);
    assert!(t.tags.contains("work"));
    assert_eq!(t.updated_at, later);
    assert!(t.satisfies_queries(&[Query::Tag(tag(Sign::Plus, "work"))]));
    assert!(!t.satisfies_queries(&[Query::Tag(tag(Sign::Minus, "work"))]));
    t.apply_mutation(&Mutation::SetTag(tag(Sign::Minus, "work")), &later);
    assert!(!t.tags.contains("work"));
    assert!(t.satisfies_queries(&[Query::Tag(tag(Sign::Minus, "work"))]));
    assert!(!t.satisfies_queries(&[]));
}

#[test]
fn done_moves_a_recurring_task_on() {
    let mut t = task("r");
    t.recur = Some(Recur::Week(1));
    t.due = Some(t0());
    t.apply_mutation(&Mutation::SetProp(Prop::Done(t0())), &t0());
    assert_eq!(t.due, Some(DateTime::new(1577880000 + 7 * 86400, 0)));
    assert_eq!(t.done, None);
    let mut u = task("u");
    u.apply_mutation(&Mutation::SetProp(Prop::Done(t0())), &t0());
    assert_eq!(u.done, Some(t0()));
}

#[test]
fn due_soon_and_overdue() {
    let mut t = task("d");
    t.due = Some(DateTime::new(1577880000 + 86400, 0));
    assert!(t.is_soon_due(&t0()));
    assert!(!t.is_overdue(&t0()));
    assert!(t.is_overdue(&DateTime::new(1577880000 + 2 * 86400, 0)));
}

#[test]
fn engine_creates_reads_and_updates() {
    let mut e = Engine::new(vec![task("aaa"), task("bbb")], t0());
    let p = e
        .run(
            Command::Create(vec![Mutation::SetProp(Prop::Description("new".to_string()))]),
            vec![Ok(true), Ok(true)],
        )
        .unwrap();
    assert_eq!(p.mutated_tasks.len(), 1);
    assert_eq!(p.mutated_tasks[0].description.as_deref(), Some("new"));
    assert_eq!(e.tasks().len(), 3);

    let p = e
        .run(Command::Read(vec![Query::Id(Id("bb".to_string()))]), vec![Ok(true), Ok(true), Ok(true)])
        .unwrap();
    assert_eq!(p.display_tasks.len(), 1);
    assert_eq!(p.display_tasks[0].id, Id("bbb".to_string()));
    assert!(p.mutated_tasks.is_empty());
    assert_eq!(e.tasks().len(), 3);

    let p = e
        .run(
            Command::Update(
                vec![Query::Id(Id("aaa".to_string()))],
                vec![Mutation::SetTag(tag(Sign::Plus, "x"))],
            ),
            vec![Ok(true), Ok(true), Ok(true)],
        )
        .unwrap();
    assert_eq!(p.mutated_tasks.len(), 1);
    assert!(e.tasks()[0].tags.contains("x"));
    assert!(!e.tasks()[1].tags.contains("x"));
}

#[test]
fn engine_reports_filter_errors() {
    let mut e = Engine::new(vec![task("aaa")], t0());
    let err = HyperTaskError::new(HyperTaskErrorDomain::Query, HyperTaskErrorAction::Run);
    let r = e.run(Command::Read(vec![]), vec![Err(err)]);
    assert!(r.is_err());
    let p = e.run(Command::Read(vec![]), vec![Ok(false)]).unwrap();
    assert!(p.display_tasks.is_empty());
}

#[test]
fn engine_counts_blocked_tasks() {
    let mut b = task("b");
    b.blocked_by = Some(Id("a".to_string()));
    let mut c = task("c");
    c.blocked_by = Some(Id("a".to_string()));
    let e = Engine::new(vec![task("a"), b, c], t0());
    assert_eq!(e.blocking_count(&Id("a".to_string())), 2);
    assert_eq!(e.blocking_count(&Id("b".to_string())), 0);
}

#[test]
fn indexing_keeps_the_last_task_per_id() {
    let mut first = task("a");
    first.description = Some("first".to_string());
    let mut second = task("a");
    second.description = Some("second".to_string());
    let r = index_by_id(vec![first, task("b"), second]);
    assert_eq!(r.len(), 2);
    assert_eq!(r[0].description.as_deref(), Some("second"));
    assert_eq!(r[1].id, Id("b".to_string()));
}

#[test]
fn completes_ids_by_prefix() {
    let tasks = vec![task("abc"), task("abd"), task("xyz")];
    assert_eq!(complete_id(&tasks, "ab"), vec!["abc".to_string(), "abd".to_string()]);
    assert!(complete_id(&tasks, "q").is_empty());
    assert_eq!(complete_id(&tasks, "").len(), 3);
}

#[test]
fn rows_show_sorted_tags() {
    let mut t = task("row");
    t.tags.insert("zeta".to_string());
    t.tags.insert("alpha".to_string());
    t.recur = Some(Recur::Week(2));
    t.due = Some(t0());
    t.blocked_by = Some(Id("blk".to_string()));
    t.description = Some("desc".to_string());
    let r = task_row(&t);
    assert_eq!(r.id, "row");
    assert_eq!(r.tags, "+alpha +zeta");
    assert_eq!(r.recur, "2 weeks");
    assert_eq!(r.due, "2020-01-01 12:00");
    assert_eq!(r.blocked, "blk");
    assert_eq!(r.description, "desc");
    let empty = task_row(&task("e"));
    assert_eq!(empty.tags, "");
    assert_eq!(empty.due, "");
    assert_eq!(empty.recur, "");
}

#[test]
fn labels_sort_like_strings() {
    let mut s = TagSet::new();
    for n in ["b", "B", "ab", "a", "é"] {
        s.insert(n.to_string());
    }
    let labels = tag_labels(&s);
    let mut expected: Vec<String> = ["b", "B", "ab", "a", "é"].iter().map(|n| format!("+{}", n)).collect();
    expected.sort();
    assert_eq!(labels, expected);
    assert!(text_less("a", "ab"));
    assert!(!text_less("ab", "a"));
    assert!(!text_less("a", "a"));
}

#[test]
fn column_headings() {
    assert_eq!(RenderColumns::Blocked.heading(), "Blocked By");
    assert_eq!(RenderColumns::Score.heading(), "Score");
}

#[test]
fn recurrence_text() {
    assert_eq!(Recur::Day(3).to_display_string(), "3 days");
    assert_eq!(Recur::Month(1).to_display_string(), "1 months");
    assert_eq!(Recur::Year(-2).to_display_string(), "-2 years");
    assert_eq!(Recur::Week(2).duration_secs(), 14 * 86400);
    assert_eq!(Recur::Month(1).duration_secs(), 2628000);
}

#[test]
fn error_text_and_chain() {
    let inner = HyperTaskError::new(HyperTaskErrorDomain::Task, HyperTaskErrorAction::Read)
        .msg("inner");
    let outer = HyperTaskError::new(HyperTaskErrorDomain::Context, HyperTaskErrorAction::Run)
        .with_msg(|| "outer".to_string())
        .from(ErrorSource::HyperTask(Box::new(inner)));
    assert_eq!(outer.to_display_string(), "HyperTaskError[context::run]: outer");
    assert_eq!(
        outer.error_chain_lines(),
        vec![
            "Error 1: HyperTaskError[context::run]: outer".to_string(),
            "Error 2: HyperTaskError[task::read]: inner".to_string(),
        ]
    );
    let plain = HyperTaskError::new(HyperTaskErrorDomain::Config, HyperTaskErrorAction::Parse)
        .from(ErrorSource::Other(vec!["bad toml".to_string(), "unexpected end of file".to_string()]));
    assert_eq!(
        plain.error_chain_lines(),
        vec![
            "Error 1: HyperTaskError[config::parse]".to_string(),
            "Error 2: bad toml".to_string(),
            "Error 3: unexpected end of file".to_string(),
        ]
    );
}

#[test]
fn overflowing_mutations_are_detected() {
    assert!(recur_fits(&Recur::Year(1000)));
    assert!(!recur_fits(&Recur::Day(i64::MAX)));
    assert!(!recur_fits(&Recur::Week(-i64::MAX)));
    let mut t = task("o");
    t.recur = Some(Recur::Year(1));
    t.due = Some(DateTime::new(8210266876799 - 100, 0));
    let done = vec![Mutation::SetProp(Prop::Done(t0()))];
    assert!(!t.mutations_fit(&done, &t0()));
    assert!(!t.mutation_fits(&done[0]));
    t.due = Some(t0());
    assert!(t.mutations_fit(&done, &t0()));
    let clear = vec![Mutation::SetProp(Prop::Recur(None)), Mutation::SetProp(Prop::Done(t0()))];
    t.due = Some(DateTime::new(8210266876799 - 100, 0));
    assert!(t.mutations_fit(&clear, &t0()));
}

#[test]
fn task_getters() {
    let mut t = task("g");
    t.description = Some("d".to_string());
    t.due = Some(DateTime::new(10, 0));
    t.recur = Some(Recur::Day(1));
    t.tags.insert("x".to_string());
    assert_eq!(t.get_id(), &Id("g".to_string()));
    assert_eq!(t.get_created_at(), &t0());
    assert_eq!(t.get_updated_at(), &t0());
    assert_eq!(t.get_description().as_deref(), Some("d"));
    assert_eq!(t.get_due(), &Some(DateTime::new(10, 0)));
    assert_eq!(t.get_done(), &None);
    assert_eq!(t.get_snooze(), &None);
    assert_eq!(t.get_wait(), &None);
    assert_eq!(t.get_blocked_by(), &None);
    assert_eq!(t.get_recur(), &Some(Recur::Day(1)));
    assert!(t.get_tags().contains("x"));
}

#[test]
fn created_task_is_found_by_a_later_read() {
    let mut e = Engine::new(vec![task("aaa")], t0());
    let p = e
        .run(
            Command::Create(vec![Mutation::SetProp(Prop::Description("fresh".to_string()))]),
            vec![Ok(true)],
        )
        .unwrap();
    let id = p.mutated_tasks[0].id.duplicate();
    // the filter verdicts play no part in a read with queries
    let shown = e
        .run(Command::Read(vec![Query::Id(id.duplicate())]), vec![Ok(false), Ok(false)])
        .unwrap();
    assert!(shown.display_tasks.iter().any(|t| t.id == id && t.description.as_deref() == Some("fresh")));
}

#[test]
fn first_settling_query_decides() {
    let mut t = task("abc");
    t.tags.insert("work".to_string());
    // `-work` settles first: not selected, whatever follows
    assert!(!t.satisfies_queries(&[
        Query::Id(Id("zz".to_string())),
        Query::Tag(tag(Sign::Minus, "work")),
        Query::Id(Id("abc".to_string())),
    ]));
    // the matching id settles first: selected
    assert!(t.satisfies_queries(&[
        Query::Tag(tag(Sign::Plus, "home")),
        Query::Id(Id("bc".to_string())),
        Query::Tag(tag(Sign::Minus, "work")),
    ]));
    // nothing settles: selected exactly when some query is a `-tag`
    assert!(t.satisfies_queries(&[Query::Tag(tag(Sign::Plus, "home")), Query::Tag(tag(Sign::Minus, "x"))]));
    assert!(!t.satisfies_queries(&[Query::Tag(tag(Sign::Plus, "home")), Query::Id(Id("q".to_string()))]));
}

#[test]
fn storage_keys() {
    let id = Id("abc123".to_string());
    let key = hypertask::storage::task_storage_key(&id);
    assert_eq!(key, "hypertask::task::abc123");
    assert_eq!(hypertask::storage::task_id_of_key(&key), Some(id));
    assert_eq!(hypertask::storage::task_id_of_key("other::abc"), None);
    // every occurrence of the prefix goes, as `str::replace` removes them all
    assert_eq!(
        hypertask::storage::task_id_of_key("hypertask::task::a-hypertask::task::b"),
        Some(Id("a-b".to_string()))
    );
}
