use habits::error::{ParseError, ParseErrorKind};
use habits::parser::{configuration, field, frequency, habit_configuration, habit_type, identifier};
use habits::types::{Date, Frequency, Habit, HabitType};

#[test]
fn test_parse_identifier() {
    assert_eq!(identifier("running:"), Ok(("", "running".to_string())));
    assert_eq!(identifier("running-1:"), Ok(("", "running-1".to_string())));
    assert_eq!(
        identifier("running-1: somethingh somthign"),
        Ok((" somethingh somthign", "running-1".to_string()))
    );
    assert_eq!(
        identifier("running_2"),
        Err(ParseError {
            remainder: "_2".to_string(),
            kind: ParseErrorKind::ExpectedChar
        })
    );
}

#[test]
fn mod_test_parse_habit_type() {
    assert_eq!(habit_type("counter"), Ok(("", HabitType::Counter)));
    assert_eq!(habit_type("done"), Ok(("", HabitType::Done)));
    assert_eq!(habit_type("time"), Ok(("", HabitType::Time)));
    assert_eq!(habit_type("abstain"), Ok(("", HabitType::Abstain)));
    assert_eq!(
        habit_type("asstain "),
        Err(ParseError {
            remainder: "asstain ".to_string(),
            kind: ParseErrorKind::ExpectedTag
        })
    );
}

#[test]
fn mod_test_parse_frequency() {
    assert_eq!(frequency("daily"), Ok(("", Frequency::Daily)));
    assert_eq!(frequency("weekly"), Ok(("", Frequency::Weekly)));
    assert_eq!(frequency("monthly"), Ok(("", Frequency::Monthly)));
    assert_eq!(frequency("yearly"), Ok(("", Frequency::Yearly)));
    assert_eq!(
        frequency("yeerly "),
        Err(ParseError {
            remainder: "yeerly ".to_string(),
            kind: ParseErrorKind::ExpectedTag
        })
    );
}

#[test]
fn test_parse_field() {
    assert_eq!(
        field(" goal:  10\n"),
        Ok(("", ("goal".to_string(), "10".to_string())))
    );
    assert_eq!(
        field("  unit: kg\n"),
        Ok(("", ("unit".to_string(), "kg".to_string())))
    );
    assert_eq!(
        field("   type: counter\n"),
        Ok(("", ("type".to_string(), "counter".to_string())))
    );
    assert_eq!(
        field(" frequency: daily\n"),
        Ok(("", ("frequency".to_string(), "daily".to_string())))
    );
    assert_eq!(
        field("     start: 2020-01-01\n"),
        Ok(("", ("start".to_string(), "2020-01-01".to_string())))
    );
    assert_eq!(
        field("  end: 2020-12-31\n"),
        Ok(("", ("end".to_string(), "2020-12-31".to_string())))
    );
}

#[test]
fn test_habit_configuration() {
    assert_eq!(
        habit_configuration(
            "running:\n  goal: 10\n  unit: km\n  type: counter\n  frequency: daily\n  start: 2020-01-01\n  end: 2020-12-31\n"
        ),
        Ok((
            "",
            Habit {
                name: "running".to_string(),
                goal: Some(10),
                unit: Some("km".to_string()),
                habit_type: HabitType::Counter,
                frequency: Frequency::Daily,
                start: Some(Date::from_str("2020-01-01").unwrap()),
                end: Some(Date::from_str("2020-12-31").unwrap()),
            }
        ))
    );
}

#[test]
fn test_configuration() {
    assert_eq!(
        configuration(
            "running:\n  goal: 10\n  unit: km\n  type: counter\n  frequency: daily\n  start: 2020-01-01\n  end: 2020-12-31\n"
        ),
        Ok((
            "",
            vec![Habit {
                name: "running".to_string(),
                goal: Some(10),
                unit: Some("km".to_string()),
                habit_type: HabitType::Counter,
                frequency: Frequency::Daily,
                start: Some(Date::from_str("2020-01-01").unwrap()),
                end: Some(Date::from_str("2020-12-31").unwrap()),
            }]
        ))
    );
}
