use hypertask::datetime::DateTime;
use hypertask::error::{HyperTaskErrorAction, HyperTaskErrorDomain};
use hypertask::id::Id;
use hypertask::rpn::{prop_number, RPNOperator};
use hypertask::task::Task;

#[test]
fn operator_words_round_trip() {
    for w in ["+", "?", "|", "/", "&", "=", "$", ":", "#", ">", "<", "~", "*", "^", "%", "_", "-", "@"] {
        let op = RPNOperator::parse(w).unwrap();
        assert_eq!(op.stringify(), w);
    }
    assert_eq!(RPNOperator::parse("+"), Some(RPNOperator::Add));
    assert_eq!(RPNOperator::parse(":"), Some(RPNOperator::GetProp));
    assert_eq!(RPNOperator::parse("1.5"), None);
    assert_eq!(RPNOperator::parse("due"), None);
    assert_eq!(RPNOperator::parse("++"), None);
}

#[test]
fn task_prop_numbers() {
    let mut t = Task {
        id: Id("p".to_string()),
        ..Task::generate(&DateTime::new(1000, 0))
    };
    t.due = Some(DateTime::new(5000, 0));
    assert_eq!(prop_number(&t, "created_at", 0), Ok(1000));
    assert_eq!(prop_number(&t, "updated_at", 0), Ok(1000));
    assert_eq!(prop_number(&t, "due", 0), Ok(5000));
    assert_eq!(prop_number(&t, "wait", 0), Ok(0));
    assert_eq!(prop_number(&t, "done", 0), Ok(0));
    assert_eq!(prop_number(&t, "snooze", 0), Ok(0));
    assert_eq!(prop_number(&t, "blocked", 0), Ok(0));
    assert_eq!(prop_number(&t, "blocking", 3), Ok(3));
    t.blocked_by = Some(Id("q".to_string()));
    assert_eq!(prop_number(&t, "blocked", 0), Ok(1));
    let e = prop_number(&t, "colour", 0).unwrap_err();
    assert_eq!(e.domain, HyperTaskErrorDomain::ScoreCalculator);
    assert_eq!(e.action, HyperTaskErrorAction::Run);
    assert_eq!(e.meta.as_deref(), Some("`colour` is not a valid prop name"));
}
