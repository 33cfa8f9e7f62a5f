//! The habit-block grammar: an identifier header followed by six positional
//! fields, repeated across the file with whitespace between blocks.
//!
//! Each executable parser returns the unconsumed remainder beside its result
//! and is proved equal to a spec function describing the grammar over
//! sequences of characters.

use vstd::prelude::*;

use crate::error::{ParseError, ParseErrorKind};
use crate::text::{
    alpha_char, ident_run, is_alpha_char, lemma_ident_run_le, lemma_tok_run_le, lemma_ws_run_le,
    scan_ident, scan_tok, scan_ws, spec_parse_u32, spec_starts_with, str_eq, str_starts_with,
    tok_run, ws_run,
};
use crate::types::{
    spec_frequency_from, spec_habit_type_from, spec_parse_date, Date, Frequency, Habit, HabitType,
    HabitView,
};

verus! {

/// What the identifier rule recognizes: a letter, then letters, digits or
/// hyphens, greedily, then a `:` that is consumed but not kept.
pub open spec fn spec_identifier(s: Seq<char>) -> Result<
    (Seq<char>, Seq<char>),
    (Seq<char>, ParseErrorKind),
> {
    if s.len() == 0 || !is_alpha_char(s[0]) {
        Err((s, ParseErrorKind::ExpectedAlpha))
    } else {
        let j = ident_run(s) as int;
        if j < s.len() && s[j] == ':' {
            Ok((s.skip(j + 1), s.take(j)))
        } else {
            Err((s.skip(j), ParseErrorKind::ExpectedChar))
        }
    }
}

/// Recognize one identifier header, returning the name without its colon
/// and the unconsumed remainder.
pub fn identifier<'a>(input: &'a str) -> (r: Result<(&'a str, String), ParseError>)
    ensures
        match (r, spec_identifier(input@)) {
            (Ok((rem, name)), Ok((srem, sname))) => rem@ == srem && name@ == sname,
            (Err(e), Err(se)) => e@ == se,
            _ => false,
        },
{
    let n = input.unicode_len();
    if n == 0 || !alpha_char(input.get_char(0)) {
        return Err(ParseError { remainder: input.to_owned(), kind: ParseErrorKind::ExpectedAlpha });
    }
    let j = scan_ident(input);
    if j < n && input.get_char(j) == ':' {
        let rem = input.substring_char(j + 1, n);
        let name = input.substring_char(0, j).to_owned();
        proof {
            assert(rem@ =~= input@.skip(j + 1));
            assert(name@ =~= input@.take(j as int));
        }
        Ok((rem, name))
    } else {
        let rem = input.substring_char(j, n).to_owned();
        proof {
            assert(rem@ =~= input@.skip(j as int));
        }
        Err(ParseError { remainder: rem, kind: ParseErrorKind::ExpectedChar })
    }
}

/// What the habit-type rule recognizes: one of the four tags as a prefix.
pub open spec fn spec_habit_type(s: Seq<char>) -> Result<
    (Seq<char>, HabitType),
    (Seq<char>, ParseErrorKind),
> {
    if spec_starts_with(s, "counter"@) {
        Ok((s.skip("counter"@.len() as int), HabitType::Counter))
    } else if spec_starts_with(s, "done"@) {
        Ok((s.skip("done"@.len() as int), HabitType::Done))
    } else if spec_starts_with(s, "time"@) {
        Ok((s.skip("time"@.len() as int), HabitType::Time))
    } else if spec_starts_with(s, "abstain"@) {
        Ok((s.skip("abstain"@.len() as int), HabitType::Abstain))
    } else {
        Err((s, ParseErrorKind::ExpectedTag))
    }
}

/// Recognize a habit-type tag at the head of the input.
pub fn habit_type<'a>(input: &'a str) -> (r: Result<(&'a str, HabitType), ParseError>)
    ensures
        match (r, spec_habit_type(input@)) {
            (Ok((rem, t)), Ok((srem, st))) => rem@ == srem && t == st,
            (Err(e), Err(se)) => e@ == se,
            _ => false,
        },
{
    let n = input.unicode_len();
    if str_starts_with(input, "counter") {
        let k = "counter".unicode_len();
        let rem = input.substring_char(k, n);
        proof {
            assert(rem@ =~= input@.skip("counter"@.len() as int));
        }
        Ok((rem, HabitType::Counter))
    } else if str_starts_with(input, "done") {
        let k = "done".unicode_len();
        let rem = input.substring_char(k, n);
        proof {
            assert(rem@ =~= input@.skip("done"@.len() as int));
        }
        Ok((rem, HabitType::Done))
    } else if str_starts_with(input, "time") {
        let k = "time".unicode_len();
        let rem = input.substring_char(k, n);
        proof {
            assert(rem@ =~= input@.skip("time"@.len() as int));
        }
        Ok((rem, HabitType::Time))
    } else if str_starts_with(input, "abstain") {
        let k = "abstain".unicode_len();
        let rem = input.substring_char(k, n);
        proof {
            assert(rem@ =~= input@.skip("abstain"@.len() as int));
        }
        Ok((rem, HabitType::Abstain))
    } else {
        Err(ParseError { remainder: input.to_owned(), kind: ParseErrorKind::ExpectedTag })
    }
}

/// What the frequency rule recognizes: one of the four tags as a prefix.
pub open spec fn spec_frequency(s: Seq<char>) -> Result<
    (Seq<char>, Frequency),
    (Seq<char>, ParseErrorKind),
> {
    if spec_starts_with(s, "daily"@) {
        Ok((s.skip("daily"@.len() as int), Frequency::Daily))
    } else if spec_starts_with(s, "weekly"@) {
        Ok((s.skip("weekly"@.len() as int), Frequency::Weekly))
    } else if spec_starts_with(s, "monthly"@) {
        Ok((s.skip("monthly"@.len() as int), Frequency::Monthly))
    } else if spec_starts_with(s, "yearly"@) {
        Ok((s.skip("yearly"@.len() as int), Frequency::Yearly))
    } else {
        Err((s, ParseErrorKind::ExpectedTag))
    }
}

/// Recognize a frequency tag at the head of the input.
pub fn frequency<'a>(input: &'a str) -> (r: Result<(&'a str, Frequency), ParseError>)
    ensures
        match (r, spec_frequency(input@)) {
            (Ok((rem, t)), Ok((srem, st))) => rem@ == srem && t == st,
            (Err(e), Err(se)) => e@ == se,
            _ => false,
        },
{
    let n = input.unicode_len();
    if str_starts_with(input, "daily") {
        let k = "daily".unicode_len();
        let rem = input.substring_char(k, n);
        proof {
            assert(rem@ =~= input@.skip("daily"@.len() as int));
        }
        Ok((rem, Frequency::Daily))
    } else if str_starts_with(input, "weekly") {
        let k = "weekly".unicode_len();
        let rem = input.substring_char(k, n);
        proof {
            assert(rem@ =~= input@.skip("weekly"@.len() as int));
        }
        Ok((rem, Frequency::Weekly))
    } else if str_starts_with(input, "monthly") {
        let k = "monthly".unicode_len();
        let rem = input.substring_char(k, n);
        proof {
            assert(rem@ =~= input@.skip("monthly"@.len() as int));
        }
        Ok((rem, Frequency::Monthly))
    } else if str_starts_with(input, "yearly") {
        let k = "yearly".unicode_len();
        let rem = input.substring_char(k, n);
        proof {
            assert(rem@ =~= input@.skip("yearly"@.len() as int));
        }
        Ok((rem, Frequency::Yearly))
    } else {
        Err(ParseError { remainder: input.to_owned(), kind: ParseErrorKind::ExpectedTag })
    }
}

/// The field label at the head of `t`, if any.
pub open spec fn spec_field_label(t: Seq<char>) -> Option<Seq<char>> {
    if spec_starts_with(t, "goal"@) {
        Some("goal"@)
    } else if spec_starts_with(t, "unit"@) {
        Some("unit"@)
    } else if spec_starts_with(t, "type"@) {
        Some("type"@)
    } else if spec_starts_with(t, "frequency"@) {
        Some("frequency"@)
    } else if spec_starts_with(t, "start"@) {
        Some("start"@)
    } else if spec_starts_with(t, "end"@) {
        Some("end"@)
    } else {
        None
    }
}

/// What the field rule recognizes: leading whitespace, a known label, a
/// colon, optional whitespace, a token of one to twenty non-whitespace
/// characters, and an optional trailing newline.
pub open spec fn spec_field(s: Seq<char>) -> Result<
    (Seq<char>, (Seq<char>, Seq<char>)),
    (Seq<char>, ParseErrorKind),
> {
    let w = ws_run(s) as int;
    if w == 0 {
        Err((s, ParseErrorKind::ExpectedSpace))
    } else {
        let t = s.skip(w);
        match spec_field_label(t) {
            None => Err((t, ParseErrorKind::ExpectedTag)),
            Some(lab) => {
                let t2 = t.skip(lab.len() as int);
                if t2.len() == 0 || t2[0] != ':' {
                    Err((t2, ParseErrorKind::ExpectedChar))
                } else {
                    let t3 = t2.skip(1);
                    let t4 = t3.skip(ws_run(t3) as int);
                    let k = tok_run(t4) as int;
                    if k == 0 {
                        Err((t4, ParseErrorKind::ExpectedToken))
                    } else if k > 20 {
                        Err((t4, ParseErrorKind::TokenTooLong))
                    } else {
                        let t5 = t4.skip(k);
                        let rem = if t5.len() > 0 && t5[0] == '\n' {
                            t5.skip(1)
                        } else {
                            t5
                        };
                        Ok((rem, (lab, t4.take(k))))
                    }
                }
            },
        }
    }
}

/// Recognize one field line, returning its label and raw token text.
pub fn field<'a>(input: &'a str) -> (r: Result<(&'a str, (String, String)), ParseError>)
    ensures
        match (r, spec_field(input@)) {
            (Ok((rem, f)), Ok((srem, sf))) => rem@ == srem && f.0@ == sf.0 && f.1@ == sf.1,
            (Err(e), Err(se)) => e@ == se,
            _ => false,
        },
{
    let n = input.unicode_len();
    let w = scan_ws(input);
    if w == 0 {
        return Err(ParseError { remainder: input.to_owned(), kind: ParseErrorKind::ExpectedSpace });
    }
    let t = input.substring_char(w, n);
    proof {
        assert(t@ =~= input@.skip(w as int));
    }
    let lab: &str = if str_starts_with(t, "goal") {
        "goal"
    } else if str_starts_with(t, "unit") {
        "unit"
    } else if str_starts_with(t, "type") {
        "type"
    } else if str_starts_with(t, "frequency") {
        "frequency"
    } else if str_starts_with(t, "start") {
        "start"
    } else if str_starts_with(t, "end") {
        "end"
    } else {
        return Err(ParseError { remainder: t.to_owned(), kind: ParseErrorKind::ExpectedTag });
    };
    let nt = t.unicode_len();
    let lab_len = lab.unicode_len();
    let t2 = t.substring_char(lab_len, nt);
    proof {
        assert(t2@ =~= t@.skip(lab@.len() as int));
    }
    let n2 = t2.unicode_len();
    if n2 == 0 || t2.get_char(0) != ':' {
        return Err(ParseError { remainder: t2.to_owned(), kind: ParseErrorKind::ExpectedChar });
    }
    let t3 = t2.substring_char(1, n2);
    proof {
        assert(t3@ =~= t2@.skip(1));
    }
    let w2 = scan_ws(t3);
    let t4 = t3.substring_char(w2, t3.unicode_len());
    proof {
        assert(t4@ =~= t3@.skip(ws_run(t3@) as int));
    }
    let k = scan_tok(t4);
    if k == 0 {
        return Err(ParseError { remainder: t4.to_owned(), kind: ParseErrorKind::ExpectedToken });
    }
    if k > 20 {
        return Err(ParseError { remainder: t4.to_owned(), kind: ParseErrorKind::TokenTooLong });
    }
    let n4 = t4.unicode_len();
    let value = t4.substring_char(0, k).to_owned();
    let t5 = t4.substring_char(k, n4);
    proof {
        assert(value@ =~= t4@.take(k as int));
        assert(t5@ =~= t4@.skip(k as int));
    }
    let rem = if t5.unicode_len() > 0 && t5.get_char(0) == '\n' {
        let r2 = t5.substring_char(1, t5.unicode_len());
        proof {
            assert(r2@ =~= t5@.skip(1));
        }
        r2
    } else {
        t5
    };
    Ok((rem, (lab.to_owned(), value)))
}

/// Turn a date token into an optional date: best-effort, absent on failure.
pub open spec fn spec_date_opt(s: Seq<char>) -> Option<Date> {
    match spec_parse_date(s) {
        Ok(d) => Some(d),
        Err(_) => None,
    }
}

/// What one whole habit block means: the identifier header, then the six
/// fields in the fixed order goal, unit, type, frequency, start, end. The
/// goal, start and end tokens degrade to absent fields when invalid; an
/// unrecognized type or frequency tag is a distinct, fatal failure.
pub open spec fn spec_habit_block(s: Seq<char>) -> Result<
    (Seq<char>, HabitView),
    (Seq<char>, ParseErrorKind),
> {
    match spec_identifier(s) {
        Err(e) => Err(e),
        Ok((t0, name)) => match spec_field(t0) {
            Err(e) => Err(e),
            Ok((t1, f1)) => if f1.0 != "goal"@ {
                Err((t0, ParseErrorKind::ExpectedLabel))
            } else {
                match spec_field(t1) {
                    Err(e) => Err(e),
                    Ok((t2, f2)) => if f2.0 != "unit"@ {
                        Err((t1, ParseErrorKind::ExpectedLabel))
                    } else {
                        match spec_field(t2) {
                            Err(e) => Err(e),
                            Ok((t3, f3)) => if f3.0 != "type"@ {
                                Err((t2, ParseErrorKind::ExpectedLabel))
                            } else {
                                match spec_field(t3) {
                                    Err(e) => Err(e),
                                    Ok((t4, f4)) => if f4.0 != "frequency"@ {
                                        Err((t3, ParseErrorKind::ExpectedLabel))
                                    } else {
                                        match spec_field(t4) {
                                            Err(e) => Err(e),
                                            Ok((t5, f5)) => if f5.0 != "start"@ {
                                                Err((t4, ParseErrorKind::ExpectedLabel))
                                            } else {
                                                match spec_field(t5) {
                                                    Err(e) => Err(e),
                                                    Ok((t6, f6)) => if f6.0 != "end"@ {
                                                        Err((t5, ParseErrorKind::ExpectedLabel))
                                                    } else {
                                                        spec_assemble(
                                                            t6,
                                                            name,
                                                            f1.1,
                                                            f2.1,
                                                            f3.1,
                                                            f4.1,
                                                            f5.1,
                                                            f6.1,
                                                        )
                                                    },
                                                }
                                            },
                                        }
                                    },
                                }
                            },
                        }
                    },
                }
            },
        },
    }
}

/// Combine the six validated field tokens into a record, or fail on an
/// unrecognized type or frequency tag.
pub open spec fn spec_assemble(
    rem: Seq<char>,
    name: Seq<char>,
    goal: Seq<char>,
    unit: Seq<char>,
    htype: Seq<char>,
    freq: Seq<char>,
    start: Seq<char>,
    end: Seq<char>,
) -> Result<(Seq<char>, HabitView), (Seq<char>, ParseErrorKind)> {
    match spec_habit_type_from(htype) {
        Err(_) => Err((htype, ParseErrorKind::UnknownHabitType)),
        Ok(ht) => match spec_frequency_from(freq) {
            Err(_) => Err((freq, ParseErrorKind::UnknownFrequency)),
            Ok(fr) => Ok(
                (
                    rem,
                    HabitView {
                        name: name,
                        goal: spec_parse_u32(goal),
                        unit: Some(unit),
                        habit_type: ht,
                        frequency: fr,
                        start: spec_date_opt(start),
                        end: spec_date_opt(end),
                    },
                ),
            ),
        },
    }
}

/// Recognize one whole habit block and assemble its record.
pub fn habit_configuration<'a>(input: &'a str) -> (r: Result<(&'a str, Habit), ParseError>)
    ensures
        match (r, spec_habit_block(input@)) {
            (Ok((rem, h)), Ok((srem, sh))) => rem@ == srem && h@ == sh,
            (Err(e), Err(se)) => e@ == se,
            _ => false,
        },
{
    let (t0, name) = match identifier(input) {
        Ok(v) => v,
        Err(e) => {
            return Err(e);
        },
    };
    let (t1, f1) = match field(t0) {
        Ok(v) => v,
        Err(e) => {
            return Err(e);
        },
    };
    if !str_eq(f1.0.as_str(), "goal") {
        return Err(ParseError { remainder: t0.to_owned(), kind: ParseErrorKind::ExpectedLabel });
    }
    let (t2, f2) = match field(t1) {
        Ok(v) => v,
        Err(e) => {
            return Err(e);
        },
    };
    if !str_eq(f2.0.as_str(), "unit") {
        return Err(ParseError { remainder: t1.to_owned(), kind: ParseErrorKind::ExpectedLabel });
    }
    let (t3, f3) = match field(t2) {
        Ok(v) => v,
        Err(e) => {
            return Err(e);
        },
    };
    if !str_eq(f3.0.as_str(), "type") {
        return Err(ParseError { remainder: t2.to_owned(), kind: ParseErrorKind::ExpectedLabel });
    }
    let (t4, f4) = match field(t3) {
        Ok(v) => v,
        Err(e) => {
            return Err(e);
        },
    };
    if !str_eq(f4.0.as_str(), "frequency") {
        return Err(ParseError { remainder: t3.to_owned(), kind: ParseErrorKind::ExpectedLabel });
    }
    let (t5, f5) = match field(t4) {
        Ok(v) => v,
        Err(e) => {
            return Err(e);
        },
    };
    if !str_eq(f5.0.as_str(), "start") {
        return Err(ParseError { remainder: t4.to_owned(), kind: ParseErrorKind::ExpectedLabel });
    }
    let (t6, f6) = match field(t5) {
        Ok(v) => v,
        Err(e) => {
            return Err(e);
        },
    };
    if !str_eq(f6.0.as_str(), "end") {
        return Err(ParseError { remainder: t5.to_owned(), kind: ParseErrorKind::ExpectedLabel });
    }
    let habit_type = match HabitType::from_str(f3.1.as_str()) {
        Ok(ht) => ht,
        Err(_) => {
            return Err(ParseError { remainder: f3.1, kind: ParseErrorKind::UnknownHabitType });
        },
    };
    let frequency = match Frequency::from_str(f4.1.as_str()) {
        Ok(fr) => fr,
        Err(_) => {
            return Err(ParseError { remainder: f4.1, kind: ParseErrorKind::UnknownFrequency });
        },
    };
    let goal = crate::text::parse_u32(f1.1.as_str());
    let start = match Date::from_str(f5.1.as_str()) {
        Ok(d) => Some(d),
        Err(_) => None,
    };
    let end = match Date::from_str(f6.1.as_str()) {
        Ok(d) => Some(d),
        Err(_) => None,
    };
    Ok(
        (
            t6,
            Habit {
                name,
                goal,
                unit: Some(f2.1),
                habit_type,
                frequency,
                start,
                end,
            },
        ),
    )
}

/// A successful identifier consumes at least its colon.
pub proof fn lemma_identifier_consumes(s: Seq<char>, rem: Seq<char>, name: Seq<char>)
    requires
        spec_identifier(s) == Ok::<(Seq<char>, Seq<char>), (Seq<char>, ParseErrorKind)>(
            (rem, name),
        ),
    ensures
        rem.len() < s.len(),
{
    lemma_ident_run_le(s);
}

/// A successful field consumes at least one character, and its token holds
/// between one and twenty characters.
pub proof fn lemma_field_consumes(s: Seq<char>, rem: Seq<char>, f: (Seq<char>, Seq<char>))
    requires
        spec_field(s) == Ok::<(Seq<char>, (Seq<char>, Seq<char>)), (Seq<char>, ParseErrorKind)>(
            (rem, f),
        ),
    ensures
        rem.len() < s.len(),
        1 <= f.1.len() <= 20,
{
    let w = ws_run(s) as int;
    lemma_ws_run_le(s);
    if w != 0 {
        let t = s.skip(w);
        match spec_field_label(t) {
            None => {},
            Some(lab) => {
                let t2 = t.skip(lab.len() as int);
                if t2.len() != 0 && t2[0] == ':' {
                    let t3 = t2.skip(1);
                    lemma_ws_run_le(t3);
                    let t4 = t3.skip(ws_run(t3) as int);
                    lemma_tok_run_le(t4);
                }
            },
        }
    }
}

/// A successful habit block consumes at least one character.
pub proof fn lemma_block_consumes(s: Seq<char>, rem: Seq<char>, h: HabitView)
    requires
        spec_habit_block(s) == Ok::<(Seq<char>, HabitView), (Seq<char>, ParseErrorKind)>((rem, h)),
    ensures
        rem.len() < s.len(),
{
    match spec_identifier(s) {
        Err(_) => {},
        Ok((t0, _name)) => {
            lemma_identifier_consumes(s, t0, _name);
            match spec_field(t0) {
                Err(_) => {},
                Ok((t1, f1)) => {
                    lemma_field_consumes(t0, t1, f1);
                    match spec_field(t1) {
                        Err(_) => {},
                        Ok((t2, f2)) => {
                            lemma_field_consumes(t1, t2, f2);
                            match spec_field(t2) {
                                Err(_) => {},
                                Ok((t3, f3)) => {
                                    lemma_field_consumes(t2, t3, f3);
                                    match spec_field(t3) {
                                        Err(_) => {},
                                        Ok((t4, f4)) => {
                                            lemma_field_consumes(t3, t4, f4);
                                            match spec_field(t4) {
                                                Err(_) => {},
                                                Ok((t5, f5)) => {
                                                    lemma_field_consumes(t4, t5, f5);
                                                    match spec_field(t5) {
                                                        Err(_) => {},
                                                        Ok((t6, f6)) => {
                                                            lemma_field_consumes(t5, t6, f6);
                                                        },
                                                    }
                                                },
                                            }
                                        },
                                    }
                                },
                            }
                        },
                    }
                },
            }
        },
    }
}

/// What the whole file means: blocks with whitespace around them, gathered
/// in file order. A grammar failure stops the gathering and leaves the rest
/// of the input unconsumed; an unrecognized type or frequency tag inside an
/// otherwise well-formed block fails the whole parse.
pub open spec fn spec_configuration(s: Seq<char>) -> Result<
    (Seq<char>, Seq<HabitView>),
    (Seq<char>, ParseErrorKind),
>
    decreases s.len(),
{
    let t = s.skip(ws_run(s) as int);
    match spec_habit_block(t) {
        Err((rem, kind)) => {
            if kind == ParseErrorKind::UnknownHabitType || kind == ParseErrorKind::UnknownFrequency {
                Err((rem, kind))
            } else {
                Ok((s, Seq::empty()))
            }
        },
        Ok((t2, h)) => {
            let t3 = t2.skip(ws_run(t2) as int);
            if t3.len() < s.len() {
                match spec_configuration(t3) {
                    Err(e) => Err(e),
                    Ok((rem, hs)) => Ok((rem, seq![h] + hs)),
                }
            } else {
                Ok((s, Seq::empty()))
            }
        },
    }
}

/// Parse a whole configuration file: zero or more habit blocks surrounded
/// by whitespace, returned in file order beside the unconsumed remainder.
pub fn configuration<'a>(input: &'a str) -> (r: Result<(&'a str, Vec<Habit>), ParseError>)
    ensures
        match (r, spec_configuration(input@)) {
            (Ok((rem, hs)), Ok((srem, shs))) => rem@ == srem && hs.deep_view() == shs,
            (Err(e), Err(se)) => e@ == se,
            _ => false,
        },
{
    let mut habits: Vec<Habit> = Vec::new();
    let mut cur: &str = input;
    proof {
        assert(habits.deep_view() =~= Seq::<HabitView>::empty());
        match spec_configuration(input@) {
            Ok((rem, hs)) => {
                assert(Seq::<HabitView>::empty() + hs =~= hs);
            },
            Err(_) => {},
        }
    }
    loop
        invariant
            ({
                let whole = spec_configuration(input@);
                match spec_configuration(cur@) {
                    Ok((rem, hs)) => whole == Ok::<
                        (Seq<char>, Seq<HabitView>),
                        (Seq<char>, ParseErrorKind),
                    >((rem, habits.deep_view() + hs)),
                    Err(e) => whole == Err::<
                        (Seq<char>, Seq<HabitView>),
                        (Seq<char>, ParseErrorKind),
                    >(e),
                }
            }),
        decreases cur@.len(),
    {
        let n = cur.unicode_len();
        let w = scan_ws(cur);
        let t = cur.substring_char(w, n);
        proof {
            assert(t@ =~= cur@.skip(ws_run(cur@) as int));
        }
        match habit_configuration(t) {
            Err(e) => {
                if matches!(e.kind, ParseErrorKind::UnknownHabitType)
                    || matches!(e.kind, ParseErrorKind::UnknownFrequency) {
                    return Err(e);
                } else {
                    proof {
                        match spec_configuration(cur@) {
                            Ok((rem, hs)) => {
                                assert(habits.deep_view() + hs =~= habits.deep_view());
                            },
                            Err(_) => {},
                        }
                    }
                    return Ok((cur, habits));
                }
            },
            Ok((t2, h)) => {
                let w2 = scan_ws(t2);
                let t3 = t2.substring_char(w2, t2.unicode_len());
                proof {
                    assert(t3@ =~= t2@.skip(ws_run(t2@) as int));
                    lemma_block_consumes(t@, t2@, h@);
                    lemma_ws_run_le(t2@);
                    lemma_ws_run_le(cur@);
                    assert(t3@.len() < cur@.len());
                }
                let ghost pre = habits.deep_view();
                habits.push(h);
                proof {
                    assert(habits.deep_view() =~= pre.push(h@));
                    match spec_configuration(t3@) {
                        Ok((rem, hs)) => {
                            assert(pre + (seq![h@] + hs) =~= pre.push(h@) + hs);
                        },
                        Err(_) => {},
                    }
                }
                cur = t3;
            },
        }
    }
}

} // verus!
