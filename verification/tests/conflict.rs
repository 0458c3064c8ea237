use chrono::TimeZone;
use hypertask::datetime::DateTime;
use hypertask::error::{HyperTaskError, HyperTaskErrorAction, HyperTaskErrorDomain};
use hypertask::id::Id;
use hypertask::task::Task;

fn at(year: i32, month: u32, day: u32, hour: u32, min: u32, sec: u32) -> DateTime {
    let t = chrono::Utc
        .with_ymd_and_hms(year, month, day, hour, min, sec)
        .unwrap();
    DateTime::new(t.timestamp(), 0)
}

#[test]
fn always_returns_none() {
    assert_eq!(Ok(None), Task::resolve_task_conflict(None, None),)
}

#[test]
fn when_some_is_not_done_returns_task() {
    let task = Task {
        id: Id("test_id".to_owned()),
        description: Some("realy old test task".to_owned()),

        ..Task::generate(&at(2015, 11, 15, 9, 10, 11))
    };

    assert_eq!(
        Ok(Some(task.duplicate())),
        Task::resolve_task_conflict(None, Some(task.duplicate()))
    );
    assert_eq!(
        Ok(Some(task.duplicate())),
        Task::resolve_task_conflict(Some(task.duplicate()), None)
    );
}

#[test]
fn returns_err_when_tasks_do_not_have_matching_ids() {
    let task_1 = Task {
        id: Id("test_id_1".to_owned()),

        ..Task::generate(&at(2015, 11, 15, 9, 10, 11))
    };

    let task_2 = Task {
        id: Id("test_id_2".to_owned()),

        ..Task::generate(&at(2015, 11, 15, 9, 10, 11))
    };

    assert_eq!(
        Err(HyperTaskError::new(
            HyperTaskErrorDomain::Task,
            HyperTaskErrorAction::Compare
        )),
        Task::resolve_task_conflict(Some(task_2.duplicate()), Some(task_1.duplicate()))
    );
    assert_eq!(
        Err(HyperTaskError::new(
            HyperTaskErrorDomain::Task,
            HyperTaskErrorAction::Compare
        )),
        Task::resolve_task_conflict(Some(task_1.duplicate()), Some(task_2.duplicate()))
    );
}

#[test]
fn when_both_are_not_done_returns_most_recently_updated() {
    let task_1 = Task {
        id: Id("test_id_1".to_owned()),
        updated_at: at(2016, 11, 15, 9, 10, 11),

        ..Task::generate(&at(2015, 11, 15, 9, 10, 11))
    };

    let task_2 = Task {
        id: Id("test_id_1".to_owned()),
        updated_at: at(2017, 11, 15, 9, 10, 11),

        ..Task::generate(&at(2015, 11, 15, 9, 10, 11))
    };

    assert_eq!(
        Ok(Some(task_2.duplicate())),
        Task::resolve_task_conflict(Some(task_2.duplicate()), Some(task_1.duplicate()))
    );
    assert_eq!(
        Ok(Some(task_2.duplicate())),
        Task::resolve_task_conflict(Some(task_1.duplicate()), Some(task_2.duplicate()))
    );
}

#[test]
fn conflict_error_carries_message() {
    let a = Task { id: Id("a".to_owned()), ..Task::generate(&at(2015, 1, 1, 0, 0, 0)) };
    let b = Task { id: Id("b".to_owned()), ..Task::generate(&at(2015, 1, 1, 0, 0, 0)) };
    let e = Task::resolve_task_conflict(Some(a), Some(b)).unwrap_err();
    assert_eq!(
        e.meta.as_deref(),
        Some("tried to resolve a conflict between two different tasks")
    );
    assert!(e.source.is_none());
}

#[test]
fn tie_keeps_right_version() {
    let a = Task {
        id: Id("same".to_owned()),
        description: Some("left".to_owned()),
        ..Task::generate(&at(2015, 1, 1, 0, 0, 0))
    };
    let b = Task {
        id: Id("same".to_owned()),
        description: Some("right".to_owned()),
        ..Task::generate(&at(2015, 1, 1, 0, 0, 0))
    };
    let r = Task::resolve_task_conflict(Some(a.duplicate()), Some(b.duplicate()))
        .unwrap()
        .unwrap();
    assert_eq!(r.description.as_deref(), Some("right"));
    let r = Task::resolve_task_conflict(Some(b), Some(a)).unwrap().unwrap();
    assert_eq!(r.description.as_deref(), Some("left"));
}
