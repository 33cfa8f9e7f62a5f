//! The value types a parsed configuration is made of: dates, the two
//! enumerated tags, habit records and whole configurations.

use vstd::prelude::*;

use crate::error::DateParseError;
use crate::text::{
    parse_u32, scan_seg, seg_run, spec_parse_u32, spec_u32_string, str_eq, u32_to_string,
};

verus! {

/// A calendar date with range-checked month and day. Day-of-month is checked
/// only against 1–31; no days-in-month or leap-year rule applies.
#[derive(Debug, PartialEq, Eq, Structural, Clone, Copy)]
pub struct Date {
    pub year: u32,
    pub month: u32,
    pub day: u32,
}

/// What a date token means: split on `-`, require exactly three parts, read
/// each as an unsigned integer, then range-check month (1–12) and day (1–31).
pub open spec fn spec_parse_date(s: Seq<char>) -> Result<Date, DateParseError> {
    let a = seg_run(s) as int;
    if a == s.len() {
        Err(DateParseError::InvalidFormat)
    } else {
        let s2 = s.skip(a + 1);
        let b = seg_run(s2) as int;
        if b == s2.len() {
            Err(DateParseError::InvalidFormat)
        } else {
            let s3 = s2.skip(b + 1);
            if (seg_run(s3) as int) < s3.len() {
                Err(DateParseError::InvalidFormat)
            } else {
                match spec_parse_u32(s.take(a)) {
                    None => Err(DateParseError::InvalidYear),
                    Some(y) => match spec_parse_u32(s2.take(b)) {
                        None => Err(DateParseError::InvalidMonth),
                        Some(m) => match spec_parse_u32(s3) {
                            None => Err(DateParseError::InvalidDay),
                            Some(d) => if m < 1 || m > 12 {
                                Err(DateParseError::InvalidMonth)
                            } else if d < 1 || d > 31 {
                                Err(DateParseError::InvalidDay)
                            } else {
                                Ok(Date { year: y, month: m, day: d })
                            },
                        },
                    },
                }
            }
        }
    }
}

impl Date {
    /// Parse a `year-month-day` token, with the errors `spec_parse_date` names.
    pub fn from_str(s: &str) -> (r: Result<Date, DateParseError>)
        ensures
            r == spec_parse_date(s@),
    {
        let n = s.unicode_len();
        let a = scan_seg(s);
        if a == n {
            return Err(DateParseError::InvalidFormat);
        }
        let s2 = s.substring_char(a + 1, n);
        proof {
            assert(s2@ =~= s@.skip(a + 1));
        }
        let n2 = s2.unicode_len();
        let b = scan_seg(s2);
        if b == n2 {
            return Err(DateParseError::InvalidFormat);
        }
        let s3 = s2.substring_char(b + 1, n2);
        proof {
            assert(s3@ =~= s2@.skip(b + 1));
        }
        let c = scan_seg(s3);
        if c < s3.unicode_len() {
            return Err(DateParseError::InvalidFormat);
        }
        let year_s = s.substring_char(0, a);
        let month_s = s2.substring_char(0, b);
        proof {
            assert(year_s@ =~= s@.take(a as int));
            assert(month_s@ =~= s2@.take(b as int));
        }
        let y = match parse_u32(year_s) {
            Some(y) => y,
            None => {
                return Err(DateParseError::InvalidYear);
            },
        };
        let m = match parse_u32(month_s) {
            Some(m) => m,
            None => {
                return Err(DateParseError::InvalidMonth);
            },
        };
        let d = match parse_u32(s3) {
            Some(d) => d,
            None => {
                return Err(DateParseError::InvalidDay);
            },
        };
        if m < 1 || m > 12 {
            Err(DateParseError::InvalidMonth)
        } else if d < 1 || d > 31 {
            Err(DateParseError::InvalidDay)
        } else {
            Ok(Date { year: y, month: m, day: d })
        }
    }

    /// The display form `year-month-day`, each number unpadded.
    pub open spec fn spec_string(self) -> Seq<char> {
        spec_u32_string(self.year as nat) + "-"@ + spec_u32_string(self.month as nat) + "-"@
            + spec_u32_string(self.day as nat)
    }

    pub fn to_string(&self) -> (r: String)
        ensures
            r@ == self.spec_string(),
    {
        let mut s = u32_to_string(self.year);
        s.append("-");
        let m = u32_to_string(self.month);
        s.append(m.as_str());
        s.append("-");
        let d = u32_to_string(self.day);
        s.append(d.as_str());
        s
    }
}

/// The four kinds of habit the format enumerates.
#[derive(Debug, PartialEq, Eq, Structural, Clone, Copy)]
pub enum HabitType {
    Counter,
    Done,
    Time,
    Abstain,
}

/// Exact, case-sensitive mapping from a whole token to a habit type.
pub open spec fn spec_habit_type_from(s: Seq<char>) -> Result<HabitType, ()> {
    if s == "counter"@ {
        Ok(HabitType::Counter)
    } else if s == "done"@ {
        Ok(HabitType::Done)
    } else if s == "time"@ {
        Ok(HabitType::Time)
    } else if s == "abstain"@ {
        Ok(HabitType::Abstain)
    } else {
        Err(())
    }
}

impl HabitType {
    pub fn from_str(s: &str) -> (r: Result<HabitType, ()>)
        ensures
            r == spec_habit_type_from(s@),
    {
        if str_eq(s, "counter") {
            Ok(HabitType::Counter)
        } else if str_eq(s, "done") {
            Ok(HabitType::Done)
        } else if str_eq(s, "time") {
            Ok(HabitType::Time)
        } else if str_eq(s, "abstain") {
            Ok(HabitType::Abstain)
        } else {
            Err(())
        }
    }

    /// The display name of the variant.
    pub open spec fn spec_string(self) -> Seq<char> {
        match self {
            HabitType::Counter => "Counter"@,
            HabitType::Done => "Done"@,
            HabitType::Time => "Time"@,
            HabitType::Abstain => "Abstain"@,
        }
    }

    pub fn to_string(&self) -> (r: String)
        ensures
            r@ == self.spec_string(),
    {
        match self {
            HabitType::Counter => "Counter".to_owned(),
            HabitType::Done => "Done".to_owned(),
            HabitType::Time => "Time".to_owned(),
            HabitType::Abstain => "Abstain".to_owned(),
        }
    }
}

/// How often a habit recurs.
#[derive(Debug, PartialEq, Eq, Structural, Clone, Copy)]
pub enum Frequency {
    Daily,
    Weekly,
    Monthly,
    Yearly,
}

/// Exact, case-sensitive mapping from a whole token to a frequency.
pub open spec fn spec_frequency_from(s: Seq<char>) -> Result<Frequency, ()> {
    if s == "daily"@ {
        Ok(Frequency::Daily)
    } else if s == "weekly"@ {
        Ok(Frequency::Weekly)
    } else if s == "monthly"@ {
        Ok(Frequency::Monthly)
    } else if s == "yearly"@ {
        Ok(Frequency::Yearly)
    } else {
        Err(())
    }
}

impl Frequency {
    pub fn from_str(s: &str) -> (r: Result<Frequency, ()>)
        ensures
            r == spec_frequency_from(s@),
    {
        if str_eq(s, "daily") {
            Ok(Frequency::Daily)
        } else if str_eq(s, "weekly") {
            Ok(Frequency::Weekly)
        } else if str_eq(s, "monthly") {
            Ok(Frequency::Monthly)
        } else if str_eq(s, "yearly") {
            Ok(Frequency::Yearly)
        } else {
            Err(())
        }
    }

    /// The display name of the variant.
    pub open spec fn spec_string(self) -> Seq<char> {
        match self {
            Frequency::Daily => "Daily"@,
            Frequency::Weekly => "Weekly"@,
            Frequency::Monthly => "Monthly"@,
            Frequency::Yearly => "Yearly"@,
        }
    }

    pub fn to_string(&self) -> (r: String)
        ensures
            r@ == self.spec_string(),
    {
        match self {
            Frequency::Daily => "Daily".to_owned(),
            Frequency::Weekly => "Weekly".to_owned(),
            Frequency::Monthly => "Monthly".to_owned(),
            Frequency::Yearly => "Yearly".to_owned(),
        }
    }
}

/// The mathematical shape of a habit record.
pub struct HabitView {
    pub name: Seq<char>,
    pub goal: Option<u32>,
    pub unit: Option<Seq<char>>,
    pub habit_type: HabitType,
    pub frequency: Frequency,
    pub start: Option<Date>,
    pub end: Option<Date>,
}

/// One parsed habit record. `habit_type` and `frequency` are always valid;
/// the remaining fields are absent where their tokens failed to validate.
#[derive(Debug, PartialEq)]
pub struct Habit {
    pub name: String,
    pub goal: Option<u32>,
    pub unit: Option<String>,
    pub habit_type: HabitType,
    pub frequency: Frequency,
    pub start: Option<Date>,
    pub end: Option<Date>,
}

impl View for Habit {
    type V = HabitView;

    open spec fn view(&self) -> HabitView {
        HabitView {
            name: self.name@,
            goal: self.goal,
            unit: match self.unit {
                Some(u) => Some(u@),
                None => None,
            },
            habit_type: self.habit_type,
            frequency: self.frequency,
            start: self.start,
            end: self.end,
        }
    }
}

impl DeepView for Habit {
    type V = HabitView;

    open spec fn deep_view(&self) -> HabitView {
        self@
    }
}

impl HabitView {
    /// The display form of a record: name, type and frequency, then each
    /// present optional field on a line of its own.
    pub open spec fn spec_string(self) -> Seq<char> {
        "Habit: "@ + self.name + "\nType: "@ + self.habit_type.spec_string() + "\nFrequency: "@
            + self.frequency.spec_string() + (match self.goal {
            Some(g) => "\nGoal: "@ + spec_u32_string(g as nat),
            None => Seq::<char>::empty(),
        }) + (match self.unit {
            Some(u) => "\nUnit: "@ + u,
            None => Seq::<char>::empty(),
        }) + (match self.start {
            Some(d) => "\nStart: "@ + d.spec_string(),
            None => Seq::<char>::empty(),
        }) + (match self.end {
            Some(d) => "\nEnd: "@ + d.spec_string(),
            None => Seq::<char>::empty(),
        }) + "\n"@
    }
}

impl Habit {
    pub fn to_string(&self) -> (r: String)
        ensures
            r@ == self@.spec_string(),
    {
        let mut s = String::new();
        s.append("Habit: ");
        s.append(self.name.as_str());
        s.append("\nType: ");
        let t = self.habit_type.to_string();
        s.append(t.as_str());
        s.append("\nFrequency: ");
        let f = self.frequency.to_string();
        s.append(f.as_str());
        if let Some(g) = self.goal {
            s.append("\nGoal: ");
            let gs = u32_to_string(g);
            s.append(gs.as_str());
        }
        if let Some(u) = &self.unit {
            s.append("\nUnit: ");
            s.append(u.as_str());
        }
        if let Some(d) = self.start {
            s.append("\nStart: ");
            let ds = d.to_string();
            s.append(ds.as_str());
        }
        if let Some(d) = self.end {
            s.append("\nEnd: ");
            let ds = d.to_string();
            s.append(ds.as_str());
        }
        s.append("\n");
        proof {
            assert(s@ =~= self@.spec_string());
        }
        s
    }
}

/// An ordered sequence of habit records, in file order.
#[derive(Debug, PartialEq)]
pub struct Configuration {
    pub habits: Vec<Habit>,
}

impl View for Configuration {
    type V = Seq<HabitView>;

    open spec fn view(&self) -> Seq<HabitView> {
        self.habits.deep_view()
    }
}

} // verus!
