use habits::types::{Date, Frequency, HabitType};

#[test]
fn test_parse_date() {
    assert_eq!(
        Date::from_str("2021-01-01"),
        Ok(Date {
            year: 2021,
            month: 1,
            day: 1
        })
    );
    assert_eq!(
        Date::from_str("2021-12-31"),
        Ok(Date {
            year: 2021,
            month: 12,
            day: 31
        })
    );
    assert!(Date::from_str("2021-12-32").is_err());
    assert!(Date::from_str("2021-13-31").is_err());
    assert!(Date::from_str("2021-12-31-").is_err());
}

#[test]
fn types_test_parse_habit_type() {
    assert_eq!(HabitType::from_str("counter"), Ok(HabitType::Counter));
    assert_eq!(HabitType::from_str("done"), Ok(HabitType::Done));
    assert_eq!(HabitType::from_str("time"), Ok(HabitType::Time));
    assert_eq!(HabitType::from_str("abstain"), Ok(HabitType::Abstain));
    assert!(HabitType::from_str("counter ").is_err());
}

#[test]
fn types_test_parse_frequency() {
    assert_eq!(Frequency::from_str("daily"), Ok(Frequency::Daily));
    assert_eq!(Frequency::from_str("weekly"), Ok(Frequency::Weekly));
    assert_eq!(Frequency::from_str("monthly"), Ok(Frequency::Monthly));
    assert_eq!(Frequency::from_str("yearly"), Ok(Frequency::Yearly));
    assert!(Frequency::from_str("daily ").is_err());
}

#[test]
fn test_display_date() {
    assert_eq!(
        Date {
            year: 2021,
            month: 1,
            day: 1
        }
        .to_string(),
        "2021-1-1"
    );
    assert_eq!(
        Date {
            year: 2021,
            month: 12,
            day: 31
        }
        .to_string(),
        "2021-12-31"
    );
}

#[test]
fn test_display_habit_type() {
    assert_eq!(HabitType::Counter.to_string(), "Counter");
    assert_eq!(HabitType::Done.to_string(), "Done");
    assert_eq!(HabitType::Time.to_string(), "Time");
    assert_eq!(HabitType::Abstain.to_string(), "Abstain");
}

#[test]
fn test_display_frequency() {
    assert_eq!(Frequency::Daily.to_string(), "Daily");
    assert_eq!(Frequency::Weekly.to_string(), "Weekly");
    assert_eq!(Frequency::Monthly.to_string(), "Monthly");
    assert_eq!(Frequency::Yearly.to_string(), "Yearly");
}
