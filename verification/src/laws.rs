//! General properties of the grammar, proved once and for all inputs.

use vstd::prelude::*;

use crate::error::ParseErrorKind;
use crate::text::{
    is_alpha_char, is_ident_char, is_space_char, is_token_char, lemma_ident_run_is,
    lemma_ident_run_le, spec_starts_with,
};
use crate::types::{
    spec_frequency_from, spec_habit_type_from, Frequency, HabitType, HabitView,
};
use crate::parser::{
    lemma_field_consumes, lemma_block_consumes, spec_configuration, spec_field, spec_frequency,
    spec_habit_block, spec_habit_type, spec_identifier,
};

verus! {

/// For every valid identifier — a letter followed by letters, digits or
/// hyphens, then a colon — the identifier rule returns exactly the name,
/// consumes the colon, and leaves the rest of the input untouched.
pub proof fn lemma_identifier_accepts_valid(name: Seq<char>, rest: Seq<char>)
    requires
        name.len() >= 1,
        is_alpha_char(name[0]),
        forall|i: int| 0 <= i < name.len() ==> is_ident_char(name[i]),
    ensures
        spec_identifier(name + seq![':'] + rest) == Ok::<
            (Seq<char>, Seq<char>),
            (Seq<char>, ParseErrorKind),
        >((rest, name)),
{
    let s = name + seq![':'] + rest;
    assert(s[0] == name[0]);
    assert forall|j: int| 0 <= j < name.len() implies is_ident_char(s[j]) by {
        assert(s[j] == name[j]);
    }
    assert(s[name.len() as int] == ':');
    assert(!is_ident_char(':'));
    lemma_ident_run_is(s, name.len() as int);
    assert(s.skip(name.len() as int + 1) =~= rest);
    assert(s.take(name.len() as int) =~= name);
}

/// The identifier rule rejects any input whose first character is not a
/// letter — a digit, an underscore, or anything else — and empty input.
pub proof fn lemma_identifier_rejects_nonletter(s: Seq<char>)
    requires
        s.len() == 0 || !is_alpha_char(s[0]),
    ensures
        spec_identifier(s) == Err::<(Seq<char>, Seq<char>), (Seq<char>, ParseErrorKind)>(
            (s, ParseErrorKind::ExpectedAlpha),
        ),
{
}

/// The identifier rule rejects input in which no colon follows the
/// identifier characters.
pub proof fn lemma_identifier_rejects_missing_colon(s: Seq<char>)
    requires
        s.len() >= 1,
        is_alpha_char(s[0]),
        forall|i: int| 0 <= i < s.len() ==> s[i] != ':',
    ensures
        spec_identifier(s) is Err,
{
    lemma_ident_run_le(s);
}

/// Each habit-type tag round-trips through the habit-type rule to exactly
/// its variant, with the rest of the input untouched; and the whole-token
/// validator maps each exact tag to the same variant.
pub proof fn lemma_habit_type_round_trip(rest: Seq<char>)
    ensures
        spec_habit_type("counter"@ + rest) == Ok::<
            (Seq<char>, HabitType),
            (Seq<char>, ParseErrorKind),
        >((rest, HabitType::Counter)),
        spec_habit_type("done"@ + rest) == Ok::<
            (Seq<char>, HabitType),
            (Seq<char>, ParseErrorKind),
        >((rest, HabitType::Done)),
        spec_habit_type("time"@ + rest) == Ok::<
            (Seq<char>, HabitType),
            (Seq<char>, ParseErrorKind),
        >((rest, HabitType::Time)),
        spec_habit_type("abstain"@ + rest) == Ok::<
            (Seq<char>, HabitType),
            (Seq<char>, ParseErrorKind),
        >((rest, HabitType::Abstain)),
        spec_habit_type_from("counter"@) == Ok::<HabitType, ()>(HabitType::Counter),
        spec_habit_type_from("done"@) == Ok::<HabitType, ()>(HabitType::Done),
        spec_habit_type_from("time"@) == Ok::<HabitType, ()>(HabitType::Time),
        spec_habit_type_from("abstain"@) == Ok::<HabitType, ()>(HabitType::Abstain),
{
    reveal_strlit("counter");
    reveal_strlit("done");
    reveal_strlit("time");
    reveal_strlit("abstain");
    lemma_tag_prefix("counter"@, rest);
    lemma_tag_prefix("done"@, rest);
    lemma_tag_prefix("time"@, rest);
    lemma_tag_prefix("abstain"@, rest);
    lemma_tag_distinct("done"@ + rest, "done"@, "counter"@);
    lemma_tag_distinct("time"@ + rest, "time"@, "counter"@);
    lemma_tag_distinct("time"@ + rest, "time"@, "done"@);
    lemma_tag_distinct("abstain"@ + rest, "abstain"@, "counter"@);
    lemma_tag_distinct("abstain"@ + rest, "abstain"@, "done"@);
    lemma_tag_distinct("abstain"@ + rest, "abstain"@, "time"@);
}

/// Text that begins with none of the four habit-type tags fails the
/// habit-type rule with a tag-mismatch diagnostic.
pub proof fn lemma_habit_type_rejects_other(s: Seq<char>)
    requires
        !spec_starts_with(s, "counter"@),
        !spec_starts_with(s, "done"@),
        !spec_starts_with(s, "time"@),
        !spec_starts_with(s, "abstain"@),
    ensures
        spec_habit_type(s) == Err::<(Seq<char>, HabitType), (Seq<char>, ParseErrorKind)>(
            (s, ParseErrorKind::ExpectedTag),
        ),
{
}

/// Each frequency tag round-trips through the frequency rule to exactly
/// its variant, with the rest of the input untouched; and the whole-token
/// validator maps each exact tag to the same variant.
pub proof fn lemma_frequency_round_trip(rest: Seq<char>)
    ensures
        spec_frequency("daily"@ + rest) == Ok::<
            (Seq<char>, Frequency),
            (Seq<char>, ParseErrorKind),
        >((rest, Frequency::Daily)),
        spec_frequency("weekly"@ + rest) == Ok::<
            (Seq<char>, Frequency),
            (Seq<char>, ParseErrorKind),
        >((rest, Frequency::Weekly)),
        spec_frequency("monthly"@ + rest) == Ok::<
            (Seq<char>, Frequency),
            (Seq<char>, ParseErrorKind),
        >((rest, Frequency::Monthly)),
        spec_frequency("yearly"@ + rest) == Ok::<
            (Seq<char>, Frequency),
            (Seq<char>, ParseErrorKind),
        >((rest, Frequency::Yearly)),
        spec_frequency_from("daily"@) == Ok::<Frequency, ()>(Frequency::Daily),
        spec_frequency_from("weekly"@) == Ok::<Frequency, ()>(Frequency::Weekly),
        spec_frequency_from("monthly"@) == Ok::<Frequency, ()>(Frequency::Monthly),
        spec_frequency_from("yearly"@) == Ok::<Frequency, ()>(Frequency::Yearly),
{
    reveal_strlit("daily");
    reveal_strlit("weekly");
    reveal_strlit("monthly");
    reveal_strlit("yearly");
    lemma_tag_prefix("daily"@, rest);
    lemma_tag_prefix("weekly"@, rest);
    lemma_tag_prefix("monthly"@, rest);
    lemma_tag_prefix("yearly"@, rest);
    lemma_tag_distinct("weekly"@ + rest, "weekly"@, "daily"@);
    lemma_tag_distinct("monthly"@ + rest, "monthly"@, "daily"@);
    lemma_tag_distinct("monthly"@ + rest, "monthly"@, "weekly"@);
    lemma_tag_distinct("yearly"@ + rest, "yearly"@, "daily"@);
    lemma_tag_distinct("yearly"@ + rest, "yearly"@, "weekly"@);
    lemma_tag_distinct("yearly"@ + rest, "yearly"@, "monthly"@);
}

/// Text that begins with none of the four frequency tags fails the
/// frequency rule with a tag-mismatch diagnostic.
pub proof fn lemma_frequency_rejects_other(s: Seq<char>)
    requires
        !spec_starts_with(s, "daily"@),
        !spec_starts_with(s, "weekly"@),
        !spec_starts_with(s, "monthly"@),
        !spec_starts_with(s, "yearly"@),
    ensures
        spec_frequency(s) == Err::<(Seq<char>, Frequency), (Seq<char>, ParseErrorKind)>(
            (s, ParseErrorKind::ExpectedTag),
        ),
{
}

/// A tag followed by anything starts with that tag.
proof fn lemma_tag_prefix(tag: Seq<char>, rest: Seq<char>)
    ensures
        spec_starts_with(tag + rest, tag),
        (tag + rest).skip(tag.len() as int) =~= rest,
{
    assert((tag + rest).subrange(0, tag.len() as int) =~= tag);
}

/// A string cannot start with two tags whose first characters differ.
proof fn lemma_tag_distinct(s: Seq<char>, yes: Seq<char>, no: Seq<char>)
    requires
        yes.len() >= 1,
        no.len() >= 1,
        spec_starts_with(s, yes),
        yes[0] != no[0],
    ensures
        !spec_starts_with(s, no),
{
    assert(s.subrange(0, yes.len() as int)[0] == s[0]);
    if spec_starts_with(s, no) {
        assert(s.subrange(0, no.len() as int)[0] == s[0]);
    }
}

/// Every field line made of leading whitespace, a known label, a colon,
/// optional whitespace, a token of one to twenty non-whitespace characters
/// and a newline parses to exactly that label and token, whatever the
/// whitespace widths, and leaves whatever follows the newline untouched.
#[verifier::rlimit(50)]
pub proof fn lemma_field_accepts_valid(
    ws1: Seq<char>,
    lab: Seq<char>,
    ws2: Seq<char>,
    tok: Seq<char>,
    rest: Seq<char>,
)
    requires
        ws1.len() >= 1,
        forall|i: int| 0 <= i < ws1.len() ==> is_space_char(ws1[i]),
        lab == "goal"@ || lab == "unit"@ || lab == "type"@ || lab == "frequency"@
            || lab == "start"@ || lab == "end"@,
        forall|i: int| 0 <= i < ws2.len() ==> is_space_char(ws2[i]),
        1 <= tok.len() <= 20,
        forall|i: int| 0 <= i < tok.len() ==> is_token_char(tok[i]),
    ensures
        spec_field(ws1 + lab + seq![':'] + ws2 + tok + seq!['\n'] + rest) == Ok::<
            (Seq<char>, (Seq<char>, Seq<char>)),
            (Seq<char>, ParseErrorKind),
        >((rest, (lab, tok))),
{
    reveal_strlit("goal");
    reveal_strlit("unit");
    reveal_strlit("type");
    reveal_strlit("frequency");
    reveal_strlit("start");
    reveal_strlit("end");
    let s = ws1 + lab + seq![':'] + ws2 + tok + seq!['\n'] + rest;
    let tail = lab + seq![':'] + ws2 + tok + seq!['\n'] + rest;
    assert(s =~= ws1 + tail);
    assert(s[ws1.len() as int] == lab[0]);
    assert(!is_space_char(lab[0]));
    assert forall|j: int| 0 <= j < ws1.len() implies is_space_char(s[j]) by {
        assert(s[j] == ws1[j]);
    }
    crate::text::lemma_ws_run_is(s, ws1.len() as int);
    let t = s.skip(ws1.len() as int);
    assert(t =~= tail);
    assert(spec_starts_with(t, lab)) by {
        assert(t.subrange(0, lab.len() as int) =~= lab);
    }
    if lab == "unit"@ {
        lemma_tag_distinct(t, lab, "goal"@);
    }
    if lab == "type"@ {
        lemma_tag_distinct(t, lab, "goal"@);
        lemma_tag_distinct(t, lab, "unit"@);
    }
    if lab == "frequency"@ {
        lemma_tag_distinct(t, lab, "goal"@);
        lemma_tag_distinct(t, lab, "unit"@);
        lemma_tag_distinct(t, lab, "type"@);
    }
    if lab == "start"@ {
        lemma_tag_distinct(t, lab, "goal"@);
        lemma_tag_distinct(t, lab, "unit"@);
        lemma_tag_distinct(t, lab, "type"@);
        lemma_tag_distinct(t, lab, "frequency"@);
    }
    if lab == "end"@ {
        lemma_tag_distinct(t, lab, "goal"@);
        lemma_tag_distinct(t, lab, "unit"@);
        lemma_tag_distinct(t, lab, "type"@);
        lemma_tag_distinct(t, lab, "frequency"@);
        lemma_tag_distinct(t, lab, "start"@);
    }
    assert(crate::parser::spec_field_label(t) == Some(lab));
    let t2 = t.skip(lab.len() as int);
    assert(t2 =~= seq![':'] + ws2 + tok + seq!['\n'] + rest);
    assert(t2[0] == ':');
    let t3 = t2.skip(1);
    assert(t3 =~= ws2 + tok + seq!['\n'] + rest);
    assert(t3[ws2.len() as int] == tok[0]);
    assert(!is_space_char(tok[0]));
    assert forall|j: int| 0 <= j < ws2.len() implies is_space_char(t3[j]) by {
        assert(t3[j] == ws2[j]);
    }
    crate::text::lemma_ws_run_is(t3, ws2.len() as int);
    let t4 = t3.skip(ws2.len() as int);
    assert(t4 =~= tok + seq!['\n'] + rest);
    assert(t4[tok.len() as int] == '\n');
    assert(!crate::text::is_token_char('\n'));
    assert forall|j: int| 0 <= j < tok.len() implies crate::text::is_token_char(t4[j]) by {
        assert(t4[j] == tok[j]);
    }
    crate::text::lemma_tok_run_is(t4, tok.len() as int);
    let t5 = t4.skip(tok.len() as int);
    assert(t5 =~= seq!['\n'] + rest);
    assert(t4.take(tok.len() as int) =~= tok);
    assert(t5.skip(1) =~= rest);
}

/// The text of one field line: leading whitespace, the label, a colon,
/// optional whitespace, the token, a newline.
pub open spec fn field_text(
    lab: Seq<char>,
    ws1: Seq<char>,
    ws2: Seq<char>,
    tok: Seq<char>,
) -> Seq<char> {
    ws1 + lab + seq![':'] + ws2 + tok + seq!['\n']
}

/// The parts of a well-formed field line: non-empty leading whitespace,
/// optional whitespace after the colon, and a bounded non-whitespace token.
pub open spec fn field_parts_ok(ws1: Seq<char>, ws2: Seq<char>, tok: Seq<char>) -> bool {
    ws1.len() >= 1 && (forall|i: int| 0 <= i < ws1.len() ==> is_space_char(ws1[i])) && (forall|
        i: int,
    |
        0 <= i < ws2.len() ==> is_space_char(ws2[i])) && 1 <= tok.len() <= 20 && (forall|i: int|
        0 <= i < tok.len() ==> is_token_char(tok[i]))
}

/// Every block text made of a valid identifier header and six well-formed
/// field lines labelled goal, unit, type, frequency, start and end in that
/// order — with recognized type and frequency tags — parses to the record
/// assembled from its tokens, leaving what follows untouched.
#[verifier::rlimit(100)]
pub proof fn lemma_block_accepts_valid(
    name: Seq<char>,
    a1: Seq<char>, b1: Seq<char>, k1: Seq<char>,
    a2: Seq<char>, b2: Seq<char>, k2: Seq<char>,
    a3: Seq<char>, b3: Seq<char>, k3: Seq<char>,
    a4: Seq<char>, b4: Seq<char>, k4: Seq<char>,
    a5: Seq<char>, b5: Seq<char>, k5: Seq<char>,
    a6: Seq<char>, b6: Seq<char>, k6: Seq<char>,
    rest: Seq<char>,
)
    requires
        name.len() >= 1,
        is_alpha_char(name[0]),
        forall|i: int| 0 <= i < name.len() ==> is_ident_char(name[i]),
        field_parts_ok(a1, b1, k1),
        field_parts_ok(a2, b2, k2),
        field_parts_ok(a3, b3, k3),
        field_parts_ok(a4, b4, k4),
        field_parts_ok(a5, b5, k5),
        field_parts_ok(a6, b6, k6),
        spec_habit_type_from(k3) is Ok,
        spec_frequency_from(k4) is Ok,
    ensures
        spec_habit_block(
            name + seq![':'] + field_text("goal"@, a1, b1, k1) + field_text("unit"@, a2, b2, k2)
                + field_text("type"@, a3, b3, k3) + field_text("frequency"@, a4, b4, k4)
                + field_text("start"@, a5, b5, k5) + field_text("end"@, a6, b6, k6) + rest,
        ) == Ok::<(Seq<char>, HabitView), (Seq<char>, ParseErrorKind)>(
            (
                rest,
                HabitView {
                    name: name,
                    goal: crate::text::spec_parse_u32(k1),
                    unit: Some(k2),
                    habit_type: spec_habit_type_from(k3)->Ok_0,
                    frequency: spec_frequency_from(k4)->Ok_0,
                    start: crate::parser::spec_date_opt(k5),
                    end: crate::parser::spec_date_opt(k6),
                },
            ),
        ),
{
    let f1 = field_text("goal"@, a1, b1, k1);
    let f2 = field_text("unit"@, a2, b2, k2);
    let f3 = field_text("type"@, a3, b3, k3);
    let f4 = field_text("frequency"@, a4, b4, k4);
    let f5 = field_text("start"@, a5, b5, k5);
    let f6 = field_text("end"@, a6, b6, k6);
    let s = name + seq![':'] + f1 + f2 + f3 + f4 + f5 + f6 + rest;
    let r0 = f1 + f2 + f3 + f4 + f5 + f6 + rest;
    let r1 = f2 + f3 + f4 + f5 + f6 + rest;
    let r2 = f3 + f4 + f5 + f6 + rest;
    let r3 = f4 + f5 + f6 + rest;
    let r4 = f5 + f6 + rest;
    let r5 = f6 + rest;
    assert(s =~= name + seq![':'] + r0);
    lemma_identifier_accepts_valid(name, r0);
    assert(r0 =~= a1 + "goal"@ + seq![':'] + b1 + k1 + seq!['\n'] + r1);
    lemma_field_accepts_valid(a1, "goal"@, b1, k1, r1);
    assert(r1 =~= a2 + "unit"@ + seq![':'] + b2 + k2 + seq!['\n'] + r2);
    lemma_field_accepts_valid(a2, "unit"@, b2, k2, r2);
    assert(r2 =~= a3 + "type"@ + seq![':'] + b3 + k3 + seq!['\n'] + r3);
    lemma_field_accepts_valid(a3, "type"@, b3, k3, r3);
    assert(r3 =~= a4 + "frequency"@ + seq![':'] + b4 + k4 + seq!['\n'] + r4);
    lemma_field_accepts_valid(a4, "frequency"@, b4, k4, r4);
    assert(r4 =~= a5 + "start"@ + seq![':'] + b5 + k5 + seq!['\n'] + r5);
    lemma_field_accepts_valid(a5, "start"@, b5, k5, r5);
    assert(r5 =~= a6 + "end"@ + seq![':'] + b6 + k6 + seq!['\n'] + rest);
    lemma_field_accepts_valid(a6, "end"@, b6, k6, rest);
}

/// A field that parses carries a token of one to twenty non-whitespace
/// characters: longer runs never match the token rule.
pub proof fn lemma_field_token_bounded(
    s: Seq<char>,
    rem: Seq<char>,
    f: (Seq<char>, Seq<char>),
)
    requires
        spec_field(s) == Ok::<(Seq<char>, (Seq<char>, Seq<char>)), (Seq<char>, ParseErrorKind)>(
            (rem, f),
        ),
    ensures
        1 <= f.1.len() <= 20,
{
    lemma_field_consumes(s, rem, f);
}

/// Two valid blocks in sequence, each followed by whitespace, parse to a
/// two-element configuration in file order when no further block follows.
pub proof fn lemma_configuration_two_blocks(
    s: Seq<char>,
    t2: Seq<char>,
    h1: HabitView,
    t4: Seq<char>,
    h2: HabitView,
)
    requires
        spec_habit_block(s.skip(crate::text::ws_run(s) as int)) == Ok::<
            (Seq<char>, HabitView),
            (Seq<char>, ParseErrorKind),
        >((t2, h1)),
        spec_habit_block(t2.skip(crate::text::ws_run(t2) as int)) == Ok::<
            (Seq<char>, HabitView),
            (Seq<char>, ParseErrorKind),
        >((t4, h2)),
        ({
            let t5 = t4.skip(crate::text::ws_run(t4) as int);
            let t6 = t5.skip(crate::text::ws_run(t5) as int);
            spec_habit_block(t6) is Err && spec_habit_block(t6)->Err_0.1
                != ParseErrorKind::UnknownHabitType && spec_habit_block(t6)->Err_0.1
                != ParseErrorKind::UnknownFrequency
        }),
    ensures
        spec_configuration(s) == Ok::<(Seq<char>, Seq<HabitView>), (Seq<char>, ParseErrorKind)>(
            (t4.skip(crate::text::ws_run(t4) as int), seq![h1, h2]),
        ),
{
    let t1 = s.skip(crate::text::ws_run(s) as int);
    let t3 = t2.skip(crate::text::ws_run(t2) as int);
    let t5 = t4.skip(crate::text::ws_run(t4) as int);
    crate::text::lemma_ws_run_le(s);
    crate::text::lemma_ws_run_le(t4);
    lemma_block_consumes(t1, t2, h1);
    lemma_block_consumes(t3, t4, h2);
    crate::text::lemma_ws_run_props(t2);
    if t3.len() > 0 {
        assert(t3[0] == t2[crate::text::ws_run(t2) as int]);
    }
    crate::text::lemma_ws_run_is(t3, 0);
    assert(t3.skip(0) =~= t3);
    assert(spec_configuration(t5) == Ok::<
        (Seq<char>, Seq<HabitView>),
        (Seq<char>, ParseErrorKind),
    >((t5, Seq::<HabitView>::empty())));
    assert(spec_configuration(t3) == Ok::<
        (Seq<char>, Seq<HabitView>),
        (Seq<char>, ParseErrorKind),
    >((t5, seq![h2]))) by {
        assert(seq![h2] + Seq::<HabitView>::empty() =~= seq![h2]);
    }
    assert(seq![h1] + seq![h2] =~= seq![h1, h2]);
}

} // verus!
