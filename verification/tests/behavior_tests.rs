use habits::error::{DateParseError, ParseError, ParseErrorKind};
use habits::parser::{configuration, field, habit_configuration};
use habits::text::{parse_u32, u32_to_string};
use habits::types::{Configuration, Date, Frequency, Habit, HabitType};

#[test]
fn test_empty_configuration() {
    assert_eq!(configuration(""), Ok(("", Vec::new())));
}

#[test]
fn test_whitespace_only_configuration() {
    assert_eq!(configuration("   "), Ok(("   ", Vec::new())));
}

#[test]
fn test_two_block_configuration() {
    let input = "alpha:\n  goal: 1\n  unit: km\n  type: time\n  frequency: monthly\n  start: 2020-01-01\n  end: 2020-12-31\n\nbeta:\n  goal: 2\n  unit: kg\n  type: abstain\n  frequency: yearly\n  start: bad\n  end: 2021-06-30\n";
    let (rest, habits) = configuration(input).unwrap();
    assert_eq!(rest, "");
    assert_eq!(habits.len(), 2);
    assert_eq!(habits[0].name, "alpha");
    assert_eq!(habits[0].habit_type, HabitType::Time);
    assert_eq!(habits[0].frequency, Frequency::Monthly);
    assert_eq!(habits[1].name, "beta");
    assert_eq!(habits[1].goal, Some(2));
    assert_eq!(habits[1].start, None);
    assert_eq!(
        habits[1].end,
        Some(Date {
            year: 2021,
            month: 6,
            day: 30
        })
    );
}

#[test]
fn test_trailing_garbage_left_unconsumed() {
    let input = "run:\n  goal: 3\n  unit: km\n  type: counter\n  frequency: daily\n  start: 2020-01-01\n  end: 2020-12-31\n???";
    let (rest, habits) = configuration(input).unwrap();
    assert_eq!(rest, "???");
    assert_eq!(habits.len(), 1);
}

#[test]
fn test_field_error_kinds() {
    assert_eq!(
        field("goal: 1"),
        Err(ParseError {
            remainder: "goal: 1".to_string(),
            kind: ParseErrorKind::ExpectedSpace
        })
    );
    assert_eq!(
        field(" xyz: 1"),
        Err(ParseError {
            remainder: "xyz: 1".to_string(),
            kind: ParseErrorKind::ExpectedTag
        })
    );
    assert_eq!(
        field(" goal 10"),
        Err(ParseError {
            remainder: " 10".to_string(),
            kind: ParseErrorKind::ExpectedChar
        })
    );
    assert_eq!(
        field(" goal: \n"),
        Err(ParseError {
            remainder: "".to_string(),
            kind: ParseErrorKind::ExpectedToken
        })
    );
}

#[test]
fn test_field_token_too_long() {
    let input = " goal: aaaaaaaaaaaaaaaaaaaaa\n";
    assert_eq!(
        field(input),
        Err(ParseError {
            remainder: "aaaaaaaaaaaaaaaaaaaaa\n".to_string(),
            kind: ParseErrorKind::TokenTooLong
        })
    );
    let ok = field(" goal: aaaaaaaaaaaaaaaaaaaa\n");
    assert_eq!(
        ok,
        Ok(("", ("goal".to_string(), "aaaaaaaaaaaaaaaaaaaa".to_string())))
    );
}

#[test]
fn test_unknown_habit_type_is_surfaced() {
    let input = "r:\n  goal: 1\n  unit: x\n  type: nope\n  frequency: daily\n  start: a\n  end: b\n";
    assert_eq!(
        configuration(input),
        Err(ParseError {
            remainder: "nope".to_string(),
            kind: ParseErrorKind::UnknownHabitType
        })
    );
}

#[test]
fn test_unknown_frequency_is_surfaced() {
    let input = "r:\n  goal: 1\n  unit: x\n  type: counter\n  frequency: never\n  start: a\n  end: b\n";
    assert_eq!(
        configuration(input),
        Err(ParseError {
            remainder: "never".to_string(),
            kind: ParseErrorKind::UnknownFrequency
        })
    );
}

#[test]
fn test_misordered_fields_fail() {
    let input = "r:\n  unit: km\n  goal: 1\n  type: counter\n  frequency: daily\n  start: a\n  end: b\n";
    assert_eq!(
        habit_configuration(input),
        Err(ParseError {
            remainder: "\n  unit: km\n  goal: 1\n  type: counter\n  frequency: daily\n  start: a\n  end: b\n"
                .to_string(),
            kind: ParseErrorKind::ExpectedLabel
        })
    );
}

#[test]
fn test_best_effort_optional_fields() {
    let input = "w:\n  goal: abc\n  unit: kg\n  type: done\n  frequency: weekly\n  start: 2020-99-01\n  end: x\n";
    let (rest, h) = habit_configuration(input).unwrap();
    assert_eq!(rest, "");
    assert_eq!(h.goal, None);
    assert_eq!(h.unit, Some("kg".to_string()));
    assert_eq!(h.habit_type, HabitType::Done);
    assert_eq!(h.frequency, Frequency::Weekly);
    assert_eq!(h.start, None);
    assert_eq!(h.end, None);
}

#[test]
fn test_date_error_variants() {
    assert_eq!(Date::from_str("x-1-1"), Err(DateParseError::InvalidYear));
    assert_eq!(Date::from_str("2021-x-1"), Err(DateParseError::InvalidMonth));
    assert_eq!(Date::from_str("2021-1-x"), Err(DateParseError::InvalidDay));
    assert_eq!(Date::from_str("2021-13-31"), Err(DateParseError::InvalidMonth));
    assert_eq!(Date::from_str("2021-12-32"), Err(DateParseError::InvalidDay));
    assert_eq!(Date::from_str("2021"), Err(DateParseError::InvalidFormat));
    assert_eq!(Date::from_str("2021-12"), Err(DateParseError::InvalidFormat));
    assert_eq!(Date::from_str("2021-12-31-"), Err(DateParseError::InvalidFormat));
}

#[test]
fn test_date_display_round_trip() {
    let d = Date::from_str("2021-01-01").unwrap();
    assert_eq!(d.to_string(), "2021-1-1");
    assert_eq!(Date::from_str(&d.to_string()), Ok(d));
}

#[test]
fn test_parse_u32_edges() {
    assert_eq!(parse_u32("10"), Some(10));
    assert_eq!(parse_u32("+10"), Some(10));
    assert_eq!(parse_u32("007"), Some(7));
    assert_eq!(parse_u32("4294967295"), Some(4294967295));
    assert_eq!(parse_u32("4294967296"), None);
    assert_eq!(parse_u32(""), None);
    assert_eq!(parse_u32("+"), None);
    assert_eq!(parse_u32("1a"), None);
}

#[test]
fn test_u32_to_string() {
    assert_eq!(u32_to_string(0), "0");
    assert_eq!(u32_to_string(7), "7");
    assert_eq!(u32_to_string(1234), "1234");
    assert_eq!(u32_to_string(4294967295), "4294967295");
}

#[test]
fn test_display_habit() {
    let full = Habit {
        name: "running".to_string(),
        goal: Some(10),
        unit: Some("km".to_string()),
        habit_type: HabitType::Counter,
        frequency: Frequency::Daily,
        start: Some(Date {
            year: 2020,
            month: 1,
            day: 1,
        }),
        end: Some(Date {
            year: 2020,
            month: 12,
            day: 31,
        }),
    };
    assert_eq!(
        full.to_string(),
        "Habit: running\nType: Counter\nFrequency: Daily\nGoal: 10\nUnit: km\nStart: 2020-1-1\nEnd: 2020-12-31\n"
    );
    let bare = Habit {
        name: "rest".to_string(),
        goal: None,
        unit: None,
        habit_type: HabitType::Done,
        frequency: Frequency::Weekly,
        start: None,
        end: None,
    };
    assert_eq!(bare.to_string(), "Habit: rest\nType: Done\nFrequency: Weekly\n");
}

#[test]
fn test_configuration_struct_holds_habits() {
    let (_, habits) = configuration(
        "run:\n  goal: 3\n  unit: km\n  type: counter\n  frequency: daily\n  start: 2020-01-01\n  end: 2020-12-31\n",
    )
    .unwrap();
    let config = Configuration { habits };
    assert_eq!(config.habits.len(), 1);
    assert_eq!(config.habits[0].name, "run");
}
