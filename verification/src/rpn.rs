//! The parts of the score and filter programs that involve no arithmetic on
//! fractional numbers: the operator words of a program, and the whole-number
//! properties of a task that a program can read.

use vstd::prelude::*;
use crate::datetime::DateTime;
use crate::error::{HyperTaskError, HyperTaskErrorAction, HyperTaskErrorDomain, HyperTaskResult};
use crate::task::Task;
use crate::text::str_eq;

verus! {

/// An operator of a score or filter program.
#[derive(Debug, Clone, Copy, PartialEq, Eq, Structural)]
pub enum RPNOperator {
    Add,
    Branch,
    Count,
    Divide,
    Duplicate,
    Equal,
    GetEnvironment,
    GetProp,
    GetTag,
    GreaterThan,
    LessThan,
    Log,
    Multiply,
    Pow,
    Rem,
    Sqrt,
    Subtract,
    Swap,
}

/// The character an operator is written as.
pub open spec fn operator_char(op: RPNOperator) -> char {
    match op {
        RPNOperator::Add => '+',
        RPNOperator::Branch => '?',
        RPNOperator::Count => '|',
        RPNOperator::Divide => '/',
        RPNOperator::Duplicate => '&',
        RPNOperator::Equal => '=',
        RPNOperator::GetEnvironment => '$',
        RPNOperator::GetProp => ':',
        RPNOperator::GetTag => '#',
        RPNOperator::GreaterThan => '>',
        RPNOperator::LessThan => '<',
        RPNOperator::Log => '~',
        RPNOperator::Multiply => '*',
        RPNOperator::Pow => '^',
        RPNOperator::Rem => '%',
        RPNOperator::Sqrt => '_',
        RPNOperator::Subtract => '-',
        RPNOperator::Swap => '@',
    }
}

/// The word an operator is written as: its character alone.
pub open spec fn operator_word(op: RPNOperator) -> Seq<char> {
    seq![operator_char(op)]
}

/// The operator a character names, if any.
pub open spec fn operator_of_char(c: char) -> Option<RPNOperator> {
    match c {
        '+' => Some(RPNOperator::Add),
        '?' => Some(RPNOperator::Branch),
        '|' => Some(RPNOperator::Count),
        '/' => Some(RPNOperator::Divide),
        '&' => Some(RPNOperator::Duplicate),
        '=' => Some(RPNOperator::Equal),
        '$' => Some(RPNOperator::GetEnvironment),
        ':' => Some(RPNOperator::GetProp),
        '#' => Some(RPNOperator::GetTag),
        '>' => Some(RPNOperator::GreaterThan),
        '<' => Some(RPNOperator::LessThan),
        '~' => Some(RPNOperator::Log),
        '*' => Some(RPNOperator::Multiply),
        '^' => Some(RPNOperator::Pow),
        '%' => Some(RPNOperator::Rem),
        '_' => Some(RPNOperator::Sqrt),
        '-' => Some(RPNOperator::Subtract),
        '@' => Some(RPNOperator::Swap),
        _ => None,
    }
}

/// The operator a word names, if any: a word of one character that names one.
pub open spec fn operator_of(w: Seq<char>) -> Option<RPNOperator> {
    if w.len() == 1 {
        operator_of_char(w[0])
    } else {
        None
    }
}

impl RPNOperator {
    /// The operator `word` names, if any; any other word is a number or a
    /// symbol.
    pub fn parse(word: &str) -> (r: Option<RPNOperator>)
        ensures
            r == operator_of(word@),
    {
        if word.unicode_len() != 1 {
            return None;
        }
        match word.get_char(0) {
            '+' => Some(RPNOperator::Add),
            '?' => Some(RPNOperator::Branch),
            '|' => Some(RPNOperator::Count),
            '/' => Some(RPNOperator::Divide),
            '&' => Some(RPNOperator::Duplicate),
            '=' => Some(RPNOperator::Equal),
            '$' => Some(RPNOperator::GetEnvironment),
            ':' => Some(RPNOperator::GetProp),
            '#' => Some(RPNOperator::GetTag),
            '>' => Some(RPNOperator::GreaterThan),
            '<' => Some(RPNOperator::LessThan),
            '~' => Some(RPNOperator::Log),
            '*' => Some(RPNOperator::Multiply),
            '^' => Some(RPNOperator::Pow),
            '%' => Some(RPNOperator::Rem),
            '_' => Some(RPNOperator::Sqrt),
            '-' => Some(RPNOperator::Subtract),
            '@' => Some(RPNOperator::Swap),
            _ => None,
        }
    }

    /// The word the operator is written as.
    pub fn stringify(&self) -> (r: &'static str)
        ensures
            r@ == operator_word(*self),
    {
        match self {
            RPNOperator::Add => {
                let w = "+";
                proof {
                    reveal_strlit("+");
                }
                assert(w@ =~= seq!['+']);
                w
            },
            RPNOperator::Branch => {
                let w = "?";
                proof {
                    reveal_strlit("?");
                }
                assert(w@ =~= seq!['?']);
                w
            },
            RPNOperator::Count => {
                let w = "|";
                proof {
                    reveal_strlit("|");
                }
                assert(w@ =~= seq!['|']);
                w
            },
            RPNOperator::Divide => {
                let w = "/";
                proof {
                    reveal_strlit("/");
                }
                assert(w@ =~= seq!['/']);
                w
            },
            RPNOperator::Duplicate => {
                let w = "&";
                proof {
                    reveal_strlit("&");
                }
                assert(w@ =~= seq!['&']);
                w
            },
            RPNOperator::Equal => {
                let w = "=";
                proof {
                    reveal_strlit("=");
                }
                assert(w@ =~= seq!['=']);
                w
            },
            RPNOperator::GetEnvironment => {
                let w = "$";
                proof {
                    reveal_strlit("$");
                }
                assert(w@ =~= seq!['$']);
                w
            },
            RPNOperator::GetProp => {
                let w = ":";
                proof {
                    reveal_strlit(":");
                }
                assert(w@ =~= seq![':']);
                w
            },
            RPNOperator::GetTag => {
                let w = "#";
                proof {
                    reveal_strlit("#");
                }
                assert(w@ =~= seq!['#']);
                w
            },
            RPNOperator::GreaterThan => {
                let w = ">";
                proof {
                    reveal_strlit(">");
                }
                assert(w@ =~= seq!['>']);
                w
            },
            RPNOperator::LessThan => {
                let w = "<";
                proof {
                    reveal_strlit("<");
                }
                assert(w@ =~= seq!['<']);
                w
            },
            RPNOperator::Log => {
                let w = "~";
                proof {
                    reveal_strlit("~");
                }
                assert(w@ =~= seq!['~']);
                w
            },
            RPNOperator::Multiply => {
                let w = "*";
                proof {
                    reveal_strlit("*");
                }
                assert(w@ =~= seq!['*']);
                w
            },
            RPNOperator::Pow => {
                let w = "^";
                proof {
                    reveal_strlit("^");
                }
                assert(w@ =~= seq!['^']);
                w
            },
            RPNOperator::Rem => {
                let w = "%";
                proof {
                    reveal_strlit("%");
                }
                assert(w@ =~= seq!['%']);
                w
            },
            RPNOperator::Sqrt => {
                let w = "_";
                proof {
                    reveal_strlit("_");
                }
                assert(w@ =~= seq!['_']);
                w
            },
            RPNOperator::Subtract => {
                let w = "-";
                proof {
                    reveal_strlit("-");
                }
                assert(w@ =~= seq!['-']);
                w
            },
            RPNOperator::Swap => {
                let w = "@";
                proof {
                    reveal_strlit("@");
                }
                assert(w@ =~= seq!['@']);
                w
            },
        }
    }
}

/// The seconds of an optional instant, 0 for none.
pub open spec fn secs_or_zero(d: Option<DateTime>) -> i64 {
    match d {
        Some(x) => x.secs,
        None => 0,
    }
}

/// The value a program reads for the property `name` of a task: the seconds
/// of its instants (0 for an instant it lacks), whether it is blocked (1 or
/// 0), and how many tasks it blocks.
pub open spec fn prop_value_of(task: Task, name: Seq<char>, blocking: usize) -> Option<i64> {
    if name == "created_at"@ {
        Some(task.created_at.secs)
    } else if name == "done"@ {
        Some(secs_or_zero(task.done))
    } else if name == "due"@ {
        Some(secs_or_zero(task.due))
    } else if name == "snooze"@ {
        Some(secs_or_zero(task.snooze))
    } else if name == "updated_at"@ {
        Some(task.updated_at.secs)
    } else if name == "wait"@ {
        Some(secs_or_zero(task.wait))
    } else if name == "blocked"@ {
        Some(
            if task.blocked_by is Some {
                1
            } else {
                0
            },
        )
    } else if name == "blocking"@ {
        Some(blocking as i64)
    } else {
        None
    }
}

/// The message of the error for a property a program cannot read.
pub open spec fn invalid_prop_message(name: Seq<char>) -> Seq<char> {
    "`"@ + name + "` is not a valid prop name"@
}

fn seconds_or_zero(d: &Option<DateTime>) -> (r: i64)
    ensures
        r == secs_or_zero(*d),
{
    match d {
        Some(x) => x.secs,
        None => 0,
    }
}

/// The value a program reads for the property `name` of `task`, which blocks
/// `blocking` tasks; a `ScoreCalculator` error while running for any other
/// name.
pub fn prop_number(task: &Task, name: &str, blocking: usize) -> (r: HyperTaskResult<i64>)
    requires
        blocking <= i64::MAX,
    ensures
        match prop_value_of(*task, name@, blocking) {
            Some(v) => r == Ok::<i64, HyperTaskError>(v),
            None => r matches Err(e) && e.domain == HyperTaskErrorDomain::ScoreCalculator && e.action
                == HyperTaskErrorAction::Run && (e.meta matches Some(m) && m@ == invalid_prop_message(
                name@,
            )) && e.source is None,
        },
{
    if str_eq(name, "created_at") {
        Ok(task.created_at.secs)
    } else if str_eq(name, "done") {
        Ok(seconds_or_zero(&task.done))
    } else if str_eq(name, "due") {
        Ok(seconds_or_zero(&task.due))
    } else if str_eq(name, "snooze") {
        Ok(seconds_or_zero(&task.snooze))
    } else if str_eq(name, "updated_at") {
        Ok(task.updated_at.secs)
    } else if str_eq(name, "wait") {
        Ok(seconds_or_zero(&task.wait))
    } else if str_eq(name, "blocked") {
        Ok(
            if task.blocked_by.is_some() {
                1
            } else {
                0
            },
        )
    } else if str_eq(name, "blocking") {
        Ok(blocking as i64)
    } else {
        let mut m = String::from_str("`");
        m.append(name);
        m.append("` is not a valid prop name");
        Err(
            HyperTaskError::new(HyperTaskErrorDomain::ScoreCalculator, HyperTaskErrorAction::Run).msg(
                m.as_str(),
            ),
        )
    }
}

} // verus!
