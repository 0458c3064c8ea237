use hypertask::command::{Command, Mutation, Query};
use hypertask::dates::{
    date_from_captures, date_token_fits, end_of_day, recur_from_captures, end_of_month, end_of_week, end_of_year, parse_as_date_time,
    parse_as_recur, parse_weekday, recur_token_fits,
};
use hypertask::datetime::DateTime;
use hypertask::id::Id;
use hypertask::parse_args::{
    cli_fits, merge_description_mutations, mutation_token_fits, parse_as_command, parse_as_id,
    parse_as_mutation, parse_as_prop, parse_as_query, parse_as_tag, parse_cli_args,
    parse_cli_args_at, partition_args, prop_token_fits, tag_token_fits, CliCommand,
};
use hypertask::prop::Prop;
use hypertask::recur::Recur;
use hypertask::tag::{Sign, Tag};

// 2020-01-01T12:00:00Z, a Wednesday.
fn now() -> DateTime {
    DateTime::new(1577880000, 0)
}

fn args(xs: &[&str]) -> Vec<String> {
    xs.iter().map(|s| s.to_string()).collect()
}

fn tag(sign: Sign, name: &str) -> Tag {
    Tag { sign, name: name.to_string() }
}

#[test]
fn command_words() {
    assert_eq!(parse_as_command("add"), Some(CliCommand::Add));
    assert_eq!(parse_as_command("delete"), Some(CliCommand::Delete));
    assert_eq!(parse_as_command("done"), Some(CliCommand::Done));
    assert_eq!(parse_as_command("modify"), Some(CliCommand::Modify));
    assert_eq!(parse_as_command("snooze"), Some(CliCommand::Snooze));
    assert_eq!(parse_as_command("Add"), None);
}

#[test]
fn partition_at_first_command() {
    let (q, c, m) = partition_args(&args(&["+a", "x", "done", "add", "y"]));
    assert_eq!(q, args(&["+a", "x"]));
    assert_eq!(c, Some(CliCommand::Done));
    assert_eq!(m, args(&["add", "y"]));
    let (q, c, m) = partition_args(&args(&["+a", "x"]));
    assert_eq!(q, args(&["+a", "x"]));
    assert_eq!(c, None);
    assert!(m.is_empty());
}

#[test]
fn tags_and_ids() {
    assert_eq!(parse_as_tag("+work"), Some(tag(Sign::Plus, "work")));
    assert_eq!(parse_as_tag("-work"), Some(tag(Sign::Minus, "work")));
    assert_eq!(parse_as_tag("work"), None);
    assert_eq!(parse_as_id("abc"), Some(Id("abc".to_string())));
    assert_eq!(parse_as_id("1234567890123456"), Some(Id("1234567890123456".to_string())));
    assert_eq!(parse_as_id("12345678901234567"), None);
}

#[test]
fn queries() {
    assert_eq!(parse_as_query("+x"), Ok(Query::Tag(tag(Sign::Plus, "x"))));
    assert_eq!(parse_as_query("abc"), Ok(Query::Id(Id("abc".to_string()))));
    assert_eq!(
        parse_as_query("12345678901234567"),
        Err("`12345678901234567` is not a valid query parameter".to_string())
    );
}

#[test]
fn date_names() {
    let n = now();
    assert_eq!(parse_as_date_time("now", &n), Ok(n));
    assert_eq!(parse_as_date_time("mon", &n), Ok(DateTime::new(1578268800, 0)));
    assert_eq!(parse_as_date_time("wed", &n), Ok(DateTime::new(1578441600, 0)));
    assert_eq!(parse_as_date_time("thu", &n), Ok(DateTime::new(1577923200, 0)));
    assert_eq!(parse_as_date_time("eod", &n), Ok(DateTime::new(1577923199, 0)));
    assert_eq!(parse_as_date_time("eow", &n), Ok(DateTime::new(1578268799, 0)));
    assert_eq!(parse_as_date_time("eom", &n), Ok(DateTime::new(1580515199, 0)));
    assert_eq!(parse_as_date_time("eoy", &n), Ok(DateTime::new(1609459199, 0)));
    assert_eq!(parse_weekday(0, &n), DateTime::new(1578268800, 0));
    assert_eq!(end_of_day(&n), DateTime::new(1577923199, 0));
    assert_eq!(end_of_week(&n), DateTime::new(1578268799, 0));
    assert_eq!(end_of_month(&n), DateTime::new(1580515199, 0));
    assert_eq!(end_of_year(&n), DateTime::new(1609459199, 0));
}

#[test]
fn date_shortcuts() {
    let n = now();
    assert_eq!(parse_as_date_time("3d", &n), Ok(DateTime::new(1577880000 + 3 * 86400, 0)));
    assert_eq!(parse_as_date_time("2w", &n), Ok(DateTime::new(1577880000 + 14 * 86400, 0)));
    assert_eq!(parse_as_date_time("1m", &n), Ok(DateTime::new(1577880000 + 2628000, 0)));
    assert_eq!(parse_as_date_time("1y", &n), Ok(DateTime::new(1577880000 + 365 * 86400, 0)));
    assert_eq!(
        parse_as_date_time("soon", &n),
        Err("`soon` is a malformed DateTime value".to_string())
    );
    assert!(date_token_fits("3d", &n));
    assert!(date_token_fits("soon", &n));
    assert!(date_token_fits("eom", &n));
    assert!(!date_token_fits("99999999999999999999d", &n));
    assert!(!date_token_fits("9999999999999d", &n));
}

#[test]
fn recurrences() {
    assert_eq!(parse_as_recur("3d"), Ok(Recur::Day(3)));
    assert_eq!(parse_as_recur("2w"), Ok(Recur::Week(2)));
    assert_eq!(parse_as_recur("6m"), Ok(Recur::Month(6)));
    assert_eq!(parse_as_recur("1y"), Ok(Recur::Year(1)));
    assert_eq!(
        parse_as_recur("often"),
        Err("often is not a valid recurence format".to_string())
    );
    assert!(recur_token_fits("2w"));
    assert!(recur_token_fits("often"));
    assert!(!recur_token_fits("99999999999999999999y"));
}

#[test]
fn props() {
    let n = now();
    assert_eq!(parse_as_prop("plain", &n), None);
    assert_eq!(parse_as_prop("due:", &n), Some(Ok(Prop::Due(None))));
    assert_eq!(parse_as_prop("wait:", &n), Some(Ok(Prop::Wait(None))));
    assert_eq!(parse_as_prop("snooze:", &n), Some(Ok(Prop::Snooze(None))));
    assert_eq!(parse_as_prop("recur:", &n), Some(Ok(Prop::Recur(None))));
    assert_eq!(parse_as_prop("due:now", &n), Some(Ok(Prop::Due(Some(n)))));
    assert_eq!(
        parse_as_prop("wait:1d", &n),
        Some(Ok(Prop::Wait(Some(DateTime::new(1577880000 + 86400, 0)))))
    );
    assert_eq!(parse_as_prop("recur:2w", &n), Some(Ok(Prop::Recur(Some(Recur::Week(2))))));
    assert_eq!(
        parse_as_prop("due:xyz", &n),
        Some(Err("`xyz` is a malformed DateTime value".to_string()))
    );
    assert_eq!(
        parse_as_prop("recur:x", &n),
        Some(Err("x is not a valid recurence format".to_string()))
    );
    assert_eq!(
        parse_as_prop("colour:red", &n),
        Some(Err("`colour:red` is a malformed prop parameter".to_string()))
    );
    assert_eq!(
        parse_as_prop("éa:x", &n),
        Some(Err("`éa:x` is a malformed prop parameter".to_string()))
    );
}

#[test]
fn tokens_that_cannot_be_cut() {
    let n = now();
    assert!(tag_token_fits("+a"));
    assert!(!tag_token_fits(""));
    assert!(!tag_token_fits("éa"));
    assert!(prop_token_fits("due:x"));
    assert!(prop_token_fits("plain"));
    assert!(prop_token_fits("éa:x"));
    assert!(!prop_token_fits("aé:x"));
    assert!(!prop_token_fits("dué:x"));
    assert!(mutation_token_fits("due:3d", &n));
    assert!(!mutation_token_fits("due:99999999999999999999d", &n));
    assert!(mutation_token_fits("+due:99999999999999999999d", &n));
    assert!(cli_fits(&args(&["abc", "add", "x"]), &n));
    assert!(!cli_fits(&args(&["abc", "add", "due:99999999999999999999d"]), &n));
    assert!(!cli_fits(&args(&["", "add"]), &n));
    // parsing stops at the first token that is not a query, and at the first
    // malformed mutation, so later tokens are never cut
    assert!(cli_fits(&args(&["12345678901234567", "", "add", "due:99999999999999999999d"]), &n));
    assert!(cli_fits(&args(&["add", "due:xyz", "due:99999999999999999999d"]), &n));
}

#[test]
fn parses_at_the_current_instant() {
    assert_eq!(
        parse_cli_args(&args(&["+work"])),
        Some(Ok(Command::Read(vec![Query::Tag(tag(Sign::Plus, "work"))])))
    );
    assert_eq!(parse_cli_args(&args(&["add", "due:99999999999999999999d"])), None);
}

#[test]
fn mutations() {
    let n = now();
    assert_eq!(parse_as_mutation("+home", &n), Ok(Mutation::SetTag(tag(Sign::Plus, "home"))));
    assert_eq!(parse_as_mutation("due:", &n), Ok(Mutation::SetProp(Prop::Due(None))));
    assert_eq!(
        parse_as_mutation("milk", &n),
        Ok(Mutation::SetProp(Prop::Description("milk".to_string())))
    );
    assert_eq!(
        parse_as_mutation("due:xyz", &n),
        Err("`xyz` is a malformed DateTime value".to_string())
    );
}

#[test]
fn merges_descriptions() {
    let merged = merge_description_mutations(vec![
        Mutation::SetProp(Prop::Description("buy".to_string())),
        Mutation::SetTag(tag(Sign::Plus, "a")),
        Mutation::SetProp(Prop::Description("milk".to_string())),
        Mutation::SetTag(tag(Sign::Minus, "b")),
        Mutation::SetProp(Prop::Description("now".to_string())),
    ]);
    assert_eq!(
        merged,
        vec![
            Mutation::SetTag(tag(Sign::Minus, "b")),
            Mutation::SetTag(tag(Sign::Plus, "a")),
            Mutation::SetProp(Prop::Description("buy milk now".to_string())),
        ]
    );
    assert_eq!(merge_description_mutations(vec![]), vec![]);
}

#[test]
fn command_lines() {
    let n = now();
    assert_eq!(
        parse_cli_args_at(&args(&["+work", "add", "buy", "milk", "+home", "due:3d"]), &n),
        Ok(Command::Create(vec![
            Mutation::SetProp(Prop::Due(Some(DateTime::new(1577880000 + 3 * 86400, 0)))),
            Mutation::SetTag(tag(Sign::Plus, "home")),
            Mutation::SetProp(Prop::Description("buy milk".to_string())),
        ]))
    );
    assert_eq!(
        parse_cli_args_at(&args(&["abc", "done"]), &n),
        Ok(Command::Update(
            vec![Query::Id(Id("abc".to_string()))],
            vec![Mutation::SetProp(Prop::Done(n))]
        ))
    );
    assert_eq!(
        parse_cli_args_at(&args(&["snooze"]), &n),
        Ok(Command::Update(
            vec![],
            vec![Mutation::SetProp(Prop::Snooze(Some(DateTime::new(1577880000 + 3600, 0))))]
        ))
    );
    assert_eq!(
        parse_cli_args_at(&args(&["abc", "modify", "-old", "new", "text"]), &n),
        Ok(Command::Update(
            vec![Query::Id(Id("abc".to_string()))],
            vec![
                Mutation::SetTag(tag(Sign::Minus, "old")),
                Mutation::SetProp(Prop::Description("new text".to_string())),
            ]
        ))
    );
    assert_eq!(
        parse_cli_args_at(&args(&["abc", "delete"]), &n),
        Ok(Command::Delete(vec![Query::Id(Id("abc".to_string()))]))
    );
    assert_eq!(
        parse_cli_args_at(&args(&["+work"]), &n),
        Ok(Command::Read(vec![Query::Tag(tag(Sign::Plus, "work"))]))
    );
    assert_eq!(parse_cli_args_at(&args(&[]), &n), Ok(Command::Read(vec![])));
}

#[test]
fn command_line_errors() {
    let n = now();
    assert_eq!(
        parse_cli_args_at(&args(&["12345678901234567", "add", "due:xyz"]), &n),
        Err("`12345678901234567` is not a valid query parameter".to_string())
    );
    assert_eq!(
        parse_cli_args_at(&args(&["add", "ok", "due:xyz", "recur:q"]), &n),
        Err("`xyz` is a malformed DateTime value".to_string())
    );
}

#[test]
fn shortcut_matches() {
    let n = now();
    assert_eq!(
        date_from_captures(Ok(Some((Some("3".to_string()), Some("d".to_string())))), "x3dx", &n),
        Ok(DateTime::new(1577880000 + 3 * 86400, 0))
    );
    assert_eq!(
        date_from_captures(Ok(Some((Some("12".to_string()), Some("m".to_string())))), "12m", &n),
        Ok(DateTime::new(1577880000 + 12 * 2628000, 0))
    );
    assert_eq!(
        date_from_captures(Ok(None), "later", &n),
        Err("`later` is a malformed DateTime value".to_string())
    );
    assert_eq!(
        recur_from_captures(Ok(Some((Some("2".to_string()), Some("w".to_string())))), "2w"),
        Ok(Recur::Week(2))
    );
    assert_eq!(
        recur_from_captures(Ok(Some((Some("7".to_string()), Some("y".to_string())))), "7y"),
        Ok(Recur::Year(7))
    );
    assert_eq!(
        recur_from_captures(Ok(None), "never"),
        Err("never is not a valid recurence format".to_string())
    );
    assert_eq!(
        recur_from_captures(Ok(Some((Some("2".to_string()), None))), "2"),
        Err("2 is not a valid recurence format".to_string())
    );
    // the leftmost match is taken, wherever it stands in the token
    assert_eq!(parse_as_date_time("in2d", &n), Ok(DateTime::new(1577880000 + 2 * 86400, 0)));
    assert_eq!(parse_as_recur("every 3d and 4w"), Ok(Recur::Day(3)));
}

#[test]
fn lines_near_the_end_of_time() {
    let late = DateTime::new(8210266876799 - 100, 0);
    assert!(cli_fits(&args(&["+work"]), &late));
    assert!(cli_fits(&args(&["add", "due:now"]), &late));
    assert!(!cli_fits(&args(&["add", "due:mon"]), &late));
    assert!(!cli_fits(&args(&["add", "due:eow"]), &late));
    assert!(cli_fits(&args(&["add", "due:eod"]), &late));
    assert!(cli_fits(&args(&["add", "wait:eom"]), &late));
    assert!(cli_fits(&args(&["add", "snooze:eoy"]), &late));
    assert_eq!(parse_as_date_time("eod", &late), Ok(DateTime::new(8210266876799, 0)));
    // a weekday needs only that the day it names is still in the range
    let ten_days_before = DateTime::new(8210266876799 - 10 * 86400, 0);
    assert!(cli_fits(&args(&["add", "due:mon"]), &ten_days_before));
    assert!(cli_fits(&args(&["add", "due:eow"]), &ten_days_before));
    let first = DateTime::new(-8334601315200, 0);
    assert!(cli_fits(&args(&["add", "due:sun"]), &first));
    assert!(cli_fits(&args(&["add", "due:eow"]), &first));
    assert!(!cli_fits(&args(&["snooze"]), &late));
    assert!(cli_fits(&args(&["12345678901234567", "snooze"]), &late));
    assert_eq!(parse_cli_args_at(&args(&["+work"]), &late), Ok(Command::Read(vec![Query::Tag(tag(Sign::Plus, "work"))])));
}
