//! The shared field validators: enumerated tokens (case-insensitive),
//! recurrence expressions, money amounts in hundredths, and calorie
//! counts, each with the message naming the field and its accepted
//! domain.

use vstd::prelude::*;
use crate::date::{spec_parse_date, spec_parse_time, Date, Time};
use crate::model::{HabitStatus, Recurrence, TaskPriority};
use crate::num::{
    all_digits, dec_rep, digits_val, lemma_dec_rep, lemma_digits_val_bound,
    lemma_digits_val_nonneg, lemma_pow10_small, lemma_zero_pad_dec, parse_uint, pow10, push_all,
    u64_to_dec, u64_to_dec_pad, zero_pad,
};
use crate::text::find_sub;
use crate::text::{
    chars_of, eq_str, find_char, find_char_exec, has_prefix, lit_string, lower_chars, lower_seq,
    starts_with_lit, strip_pat, strip_pat_exec, sub_chars, trim_chars, trim_spec,
};

verus! {

/// Largest accepted money amount, in hundredths: 999,999,999.99.
pub const MAX_AMOUNT_CENTS: u64 = 99999999999;

/// Largest accepted calorie count for one entry.
pub const MAX_CALORIES: u32 = 50000;

pub open spec fn msg_invalid_status() -> Seq<char> {
    "Invalid Status. Valid options: Pending|Completed"@
}

pub open spec fn msg_invalid_priority() -> Seq<char> {
    "Invalid Priority. Valid options: High|Medium|Low"@
}

pub open spec fn msg_invalid_range() -> Seq<char> {
    "Invalid range format. Use: range YYYY-MM-DD to YYYY-MM-DD at HH:MM"@
}

pub open spec fn msg_invalid_repeat() -> Seq<char> {
    "Invalid Repeat. Valid options: none|daily|weekly|monthly|range YYYY-MM-DD to YYYY-MM-DD at HH:MM"@
}

pub open spec fn msg_invalid_frequency() -> Seq<char> {
    "Invalid Frequency. Valid options: daily|weekly|monthly|range YYYY-MM-DD to YYYY-MM-DD at HH:MM"@
}

pub open spec fn msg_invalid_habit_status() -> Seq<char> {
    "Invalid Status. Valid options: Active|Paused"@
}

// ---------------------------------------------------------------------------
// Enumerated tokens
// ---------------------------------------------------------------------------

/// Case-insensitive `Pending`/`Completed`, on an already-trimmed value.
pub open spec fn spec_status_value(s: Seq<char>) -> Option<bool> {
    let low = lower_seq(s);
    if low == "pending"@ {
        Some(false)
    } else if low == "completed"@ {
        Some(true)
    } else {
        None
    }
}

pub fn status_value_chars(v: &Vec<char>) -> (r: Option<bool>)
    ensures
        r == spec_status_value(v@),
{
    let low = lower_chars(v);
    if eq_str(&low, "pending") {
        Some(false)
    } else if eq_str(&low, "completed") {
        Some(true)
    } else {
        None
    }
}

/// Case-insensitive `High`/`Medium`/`Low`, on an already-trimmed value.
pub open spec fn spec_priority_value(s: Seq<char>) -> Option<TaskPriority> {
    let low = lower_seq(s);
    if low == "high"@ {
        Some(TaskPriority::High)
    } else if low == "medium"@ {
        Some(TaskPriority::Medium)
    } else if low == "low"@ {
        Some(TaskPriority::Low)
    } else {
        None
    }
}

pub fn priority_value_chars(v: &Vec<char>) -> (r: Option<TaskPriority>)
    ensures
        r == spec_priority_value(v@),
{
    let low = lower_chars(v);
    if eq_str(&low, "high") {
        Some(TaskPriority::High)
    } else if eq_str(&low, "medium") {
        Some(TaskPriority::Medium)
    } else if eq_str(&low, "low") {
        Some(TaskPriority::Low)
    } else {
        None
    }
}

/// Case-insensitive `Active`/`Paused`, on an already-trimmed value.
pub open spec fn spec_habit_status_value(s: Seq<char>) -> Option<HabitStatus> {
    let low = lower_seq(s);
    if low == "active"@ {
        Some(HabitStatus::Active)
    } else if low == "paused"@ {
        Some(HabitStatus::Paused)
    } else {
        None
    }
}

pub fn habit_status_value_chars(v: &Vec<char>) -> (r: Option<HabitStatus>)
    ensures
        r == spec_habit_status_value(v@),
{
    let low = lower_chars(v);
    if eq_str(&low, "active") {
        Some(HabitStatus::Active)
    } else if eq_str(&low, "paused") {
        Some(HabitStatus::Paused)
    } else {
        None
    }
}

/// `Paused` selects the paused state; anything else is read as active.
pub fn parse_habit_status(text: &str) -> (r: HabitStatus)
    ensures
        r == (if lower_seq(trim_spec(text@)) == "paused"@ {
            HabitStatus::Paused
        } else {
            HabitStatus::Active
        }),
{
    let v = chars_of(text);
    let t = trim_chars(&v);
    let low = lower_chars(&t);
    if eq_str(&low, "paused") {
        HabitStatus::Paused
    } else {
        HabitStatus::Active
    }
}

// ---------------------------------------------------------------------------
// Validators with messages
// ---------------------------------------------------------------------------

pub fn validate_task_status(text: &str) -> (r: Result<bool, String>)
    ensures
        r matches Ok(b) ==> spec_status_value(trim_spec(text@)) == Some(b),
        r matches Err(e) ==> spec_status_value(trim_spec(text@)) is None && e@
            == msg_invalid_status(),
{
    let v = chars_of(text);
    let t = trim_chars(&v);
    match status_value_chars(&t) {
        Some(b) => Ok(b),
        None => Err(lit_string("Invalid Status. Valid options: Pending|Completed")),
    }
}

pub fn validate_task_priority(text: &str) -> (r: Result<TaskPriority, String>)
    ensures
        r matches Ok(p) ==> spec_priority_value(trim_spec(text@)) == Some(p),
        r matches Err(e) ==> spec_priority_value(trim_spec(text@)) is None && e@
            == msg_invalid_priority(),
{
    let v = chars_of(text);
    let t = trim_chars(&v);
    match priority_value_chars(&t) {
        Some(p) => Ok(p),
        None => Err(lit_string("Invalid Priority. Valid options: High|Medium|Low")),
    }
}

pub fn validate_habit_status(text: &str) -> (r: Result<HabitStatus, String>)
    ensures
        r matches Ok(s) ==> spec_habit_status_value(trim_spec(text@)) == Some(s),
        r matches Err(e) ==> spec_habit_status_value(trim_spec(text@)) is None && e@
            == msg_invalid_habit_status(),
{
    let v = chars_of(text);
    let t = trim_chars(&v);
    match habit_status_value_chars(&t) {
        Some(s) => Ok(s),
        None => Err(lit_string("Invalid Status. Valid options: Active|Paused")),
    }
}

// ---------------------------------------------------------------------------
// Recurrence expressions
// ---------------------------------------------------------------------------

/// The lenient recurrence reading: `daily`/`weekly`/`monthly`, or a
/// `range <date> to <date> [at <HH:MM>]` clause (also introduced by
/// `from`); anything else, and any malformed clause, reads as no
/// repetition.
pub open spec fn spec_parse_recurrence(s: Seq<char>) -> Recurrence {
    let low = lower_seq(trim_spec(s));
    if low == "daily"@ {
        Recurrence::Daily
    } else if low == "weekly"@ {
        Recurrence::Weekly
    } else if low == "monthly"@ {
        Recurrence::Monthly
    } else if has_prefix(low, "range"@) || has_prefix(low, "from"@) {
        let cleaned = trim_spec(
            if has_prefix(low, "range"@) {
                low.skip(5)
            } else {
                low.skip(4)
            },
        );
        spec_parse_range_clause(cleaned)
    } else {
        Recurrence::NoRepeat
    }
}

/// `<date> to <date> [at <HH:MM>]`, already trimmed and lowercased.
pub open spec fn spec_parse_range_clause(cleaned: Seq<char>) -> Recurrence {
    let j = find_sub(cleaned, "to"@);
    if j == cleaned.len() {
        Recurrence::NoRepeat
    } else {
        let left = trim_spec(cleaned.take(j));
        let right = trim_spec(cleaned.skip(j + 2));
        let k = find_sub(right, "at "@);
        if k == right.len() {
            match (spec_parse_date(left), spec_parse_date(right)) {
                (Some(a), Some(b)) => Recurrence::Range { start: a, end: b, time: None },
                _ => Recurrence::NoRepeat,
            }
        } else {
            let end_s = trim_spec(right.take(k));
            let time_s = trim_spec(right.skip(k + 3));
            match (spec_parse_date(left), spec_parse_date(end_s), spec_parse_time(time_s)) {
                (Some(a), Some(b), Some(t)) => Recurrence::Range {
                    start: a,
                    end: b,
                    time: Some(t),
                },
                _ => Recurrence::NoRepeat,
            }
        }
    }
}

pub fn parse_recurrence_chars(v: &Vec<char>) -> (r: Recurrence)
    ensures
        r == spec_parse_recurrence(v@),
{
    let t = trim_chars(v);
    let low = lower_chars(&t);
    if eq_str(&low, "daily") {
        Recurrence::Daily
    } else if eq_str(&low, "weekly") {
        Recurrence::Weekly
    } else if eq_str(&low, "monthly") {
        Recurrence::Monthly
    } else if starts_with_lit(&low, "range") || starts_with_lit(&low, "from") {
        proof {
            reveal_strlit("range");
            reveal_strlit("from");
        }
        let skip_n: usize = if starts_with_lit(&low, "range") {
            5
        } else {
            4
        };
        let rest = sub_chars(&low, skip_n, low.len());
        proof {
            assert(rest@ =~= low@.skip(skip_n as int));
        }
        let cleaned = trim_chars(&rest);
        parse_range_clause(&cleaned)
    } else {
        Recurrence::NoRepeat
    }
}

fn parse_range_clause(cleaned: &Vec<char>) -> (r: Recurrence)
    ensures
        r == spec_parse_range_clause(cleaned@),
{
    let j = crate::text::find_sub_exec(cleaned, "to");
    if j == cleaned.len() {
        return Recurrence::NoRepeat;
    }
    proof {
        crate::text::lemma_find_sub_le(cleaned@, "to"@, 0);
        reveal_strlit("to");
    }
    let head = sub_chars(cleaned, 0, j);
    let left = trim_chars(&head);
    let tail = sub_chars(cleaned, j + 2, cleaned.len());
    proof {
        assert(head@ =~= cleaned@.take(j as int));
        assert(tail@ =~= cleaned@.skip(j + 2));
    }
    let right = trim_chars(&tail);
    let k = crate::text::find_sub_exec(&right, "at ");
    if k == right.len() {
        match (crate::date::parse_date(&left), crate::date::parse_date(&right)) {
            (Some(a), Some(b)) => Recurrence::Range { start: a, end: b, time: None },
            _ => Recurrence::NoRepeat,
        }
    } else {
        proof {
            crate::text::lemma_find_sub_le(right@, "at "@, 0);
            reveal_strlit("at ");
        }
        let rhead = sub_chars(&right, 0, k);
        let end_v = trim_chars(&rhead);
        let rtail = sub_chars(&right, k + 3, right.len());
        proof {
            assert(rhead@ =~= right@.take(k as int));
            assert(rtail@ =~= right@.skip(k + 3));
        }
        let time_v = trim_chars(&rtail);
        match (
            crate::date::parse_date(&left),
            crate::date::parse_date(&end_v),
            crate::date::parse_time(&time_v),
        ) {
            (Some(a), Some(b), Some(t)) => Recurrence::Range { start: a, end: b, time: Some(t) },
            _ => Recurrence::NoRepeat,
        }
    }
}

/// The lenient recurrence reading on a string.
pub fn parse_recurrence(text: &str) -> (r: Recurrence)
    ensures
        r == spec_parse_recurrence(text@),
{
    let v = chars_of(text);
    parse_recurrence_chars(&v)
}

/// The strict reading for a task's `Repeat` field: `none` is accepted,
/// a malformed range clause is an error rather than a silent `none`.
pub open spec fn spec_validate_recurrence(s: Seq<char>, allow_none: bool) -> Result<
    Recurrence,
    Seq<char>,
> {
    let low = lower_seq(trim_spec(s));
    if allow_none && low == "none"@ {
        Ok(Recurrence::NoRepeat)
    } else if low == "daily"@ {
        Ok(Recurrence::Daily)
    } else if low == "weekly"@ {
        Ok(Recurrence::Weekly)
    } else if low == "monthly"@ {
        Ok(Recurrence::Monthly)
    } else if has_prefix(low, "range"@) || has_prefix(low, "from"@) {
        if spec_parse_recurrence(s) is NoRepeat {
            Err(msg_invalid_range())
        } else {
            Ok(spec_parse_recurrence(s))
        }
    } else {
        if allow_none {
            Err(msg_invalid_repeat())
        } else {
            Err(msg_invalid_frequency())
        }
    }
}

/// The strict recurrence reading on a character value: `none` only when
/// `allow_none` (the task `Repeat` field); a malformed range clause is
/// an error rather than a silent `none`.
pub fn validate_recurrence_chars(v: &Vec<char>, allow_none: bool) -> (r: Result<
    Recurrence,
    String,
>)
    ensures
        r matches Ok(rec) ==> spec_validate_recurrence(v@, allow_none) == Ok::<
            Recurrence,
            Seq<char>,
        >(rec),
        r matches Err(e) ==> (spec_validate_recurrence(v@, allow_none) matches Err(m) && m == e@),
{
    let t = trim_chars(v);
    let low = lower_chars(&t);
    if allow_none && eq_str(&low, "none") {
        Ok(Recurrence::NoRepeat)
    } else if eq_str(&low, "daily") {
        Ok(Recurrence::Daily)
    } else if eq_str(&low, "weekly") {
        Ok(Recurrence::Weekly)
    } else if eq_str(&low, "monthly") {
        Ok(Recurrence::Monthly)
    } else if starts_with_lit(&low, "range") || starts_with_lit(&low, "from") {
        let rec = parse_recurrence_chars(v);
        match rec {
            Recurrence::NoRepeat => Err(
                lit_string("Invalid range format. Use: range YYYY-MM-DD to YYYY-MM-DD at HH:MM"),
            ),
            _ => Ok(rec),
        }
    } else {
        if allow_none {
            if eq_str(&low, "none") {
                Ok(Recurrence::NoRepeat)
            } else {
                Err(
                    lit_string(
                        "Invalid Repeat. Valid options: none|daily|weekly|monthly|range YYYY-MM-DD to YYYY-MM-DD at HH:MM",
                    ),
                )
            }
        } else {
            Err(
                lit_string(
                    "Invalid Frequency. Valid options: daily|weekly|monthly|range YYYY-MM-DD to YYYY-MM-DD at HH:MM",
                ),
            )
        }
    }
}

pub fn validate_task_recurrence(text: &str) -> (r: Result<Recurrence, String>)
    ensures
        r matches Ok(rec) ==> spec_validate_recurrence(text@, true) == Ok::<Recurrence, Seq<char>>(
            rec,
        ),
        r matches Err(e) ==> (spec_validate_recurrence(text@, true) matches Err(m) && m == e@),
{
    let v = chars_of(text);
    validate_recurrence_chars(&v, true)
}

/// The strict reading for a habit's `Frequency` field, where `none` is
/// not an accepted frequency.
pub fn validate_frequency(text: &str) -> (r: Result<Recurrence, String>)
    ensures
        r matches Ok(rec) ==> spec_validate_recurrence(text@, false) == Ok::<
            Recurrence,
            Seq<char>,
        >(rec),
        r matches Err(e) ==> (spec_validate_recurrence(text@, false) matches Err(m) && m == e@),
{
    let v = chars_of(text);
    validate_recurrence_chars(&v, false)
}

// ---------------------------------------------------------------------------
// The enumerated labels read back as themselves
// ---------------------------------------------------------------------------

/// A value as the formatters write it: trimmed, one line, and free of
/// parentheses (so hint stripping leaves it alone).
pub open spec fn plain_value(s: Seq<char>) -> bool {
    &&& trim_spec(s) == s
    &&& crate::text::no_newline(s)
    &&& s.len() > 0
    &&& forall|k: int| 0 <= k < s.len() ==> s[k] != '('
}

pub proof fn lemma_status_label_value(completed: bool)
    ensures
        plain_value(crate::model::spec_status_label(completed)),
        spec_status_value(crate::model::spec_status_label(completed)) == Some(completed),
{
    reveal_strlit("Pending");
    reveal_strlit("pending");
    reveal_strlit("Completed");
    reveal_strlit("completed");
    let s = crate::model::spec_status_label(completed);
    if completed {
        assert(lower_seq(s) =~= "completed"@);
        assert(lower_seq(s) != "pending"@);
    } else {
        assert(lower_seq(s) =~= "pending"@);
    }
}

pub proof fn lemma_priority_label_value(p: crate::model::TaskPriority)
    ensures
        plain_value(crate::model::spec_priority_label(p)),
        spec_priority_value(crate::model::spec_priority_label(p)) == Some(p),
{
    reveal_strlit("High");
    reveal_strlit("high");
    reveal_strlit("Medium");
    reveal_strlit("medium");
    reveal_strlit("Low");
    reveal_strlit("low");
    let s = crate::model::spec_priority_label(p);
    match p {
        crate::model::TaskPriority::High => {
            assert(lower_seq(s) =~= "high"@);
        },
        crate::model::TaskPriority::Medium => {
            assert(lower_seq(s) =~= "medium"@);
            assert(lower_seq(s) != "high"@);
        },
        crate::model::TaskPriority::Low => {
            assert(lower_seq(s) =~= "low"@);
            assert(lower_seq(s) != "high"@);
            assert(lower_seq(s) != "medium"@);
        },
    }
}

pub proof fn lemma_habit_status_label_value(st: HabitStatus)
    ensures
        plain_value(crate::model::spec_habit_status_label(st)),
        spec_habit_status_value(crate::model::spec_habit_status_label(st)) == Some(st),
{
    reveal_strlit("Active");
    reveal_strlit("active");
    reveal_strlit("Paused");
    reveal_strlit("paused");
    let s = crate::model::spec_habit_status_label(st);
    match st {
        HabitStatus::Active => {
            assert(lower_seq(s) =~= "active"@);
        },
        HabitStatus::Paused => {
            assert(lower_seq(s) =~= "paused"@);
            assert(lower_seq(s) != "active"@) by {
                assert(lower_seq(s)[0] == 'p');
                assert("active"@[0] == 'a');
            }
        },
    }
}

/// The rendering of a well-formed recurrence is a plain value and reads
/// back as the same recurrence, both leniently and strictly.
pub proof fn lemma_recurrence_label_round_trip(r: Recurrence)
    requires
        crate::model::recurrence_wf(r),
    ensures
        plain_value(crate::model::spec_recurrence_label(r)),
        spec_parse_recurrence(crate::model::spec_recurrence_label(r)) == r,
        spec_validate_recurrence(crate::model::spec_recurrence_label(r), true) == Ok::<
            Recurrence,
            Seq<char>,
        >(r),
        !(r is NoRepeat) ==> spec_validate_recurrence(
            crate::model::spec_recurrence_label(r),
            false,
        ) == Ok::<Recurrence, Seq<char>>(r),
{
    reveal_strlit("None");
    reveal_strlit("none");
    reveal_strlit("Daily");
    reveal_strlit("daily");
    reveal_strlit("Weekly");
    reveal_strlit("weekly");
    reveal_strlit("Monthly");
    reveal_strlit("monthly");
    reveal_strlit("Range ");
    reveal_strlit("range ");
    reveal_strlit("range");
    reveal_strlit("from");
    reveal_strlit(" to ");
    reveal_strlit(" at ");
    reveal_strlit("to");
    reveal_strlit("at ");
    let s = crate::model::spec_recurrence_label(r);
    match r {
        Recurrence::NoRepeat => {
            assert(trim_spec(s) == s);
            assert(lower_seq(s) =~= "none"@);
            assert(lower_seq(s) != "daily"@);
            assert(lower_seq(s) != "weekly"@);
            assert(lower_seq(s) != "monthly"@);
            assert(!has_prefix(lower_seq(s), "range"@));
            assert(!has_prefix(lower_seq(s), "from"@)) by {
                let low = lower_seq(s);
                if has_prefix(low, "from"@) {
                    assert(low.subrange(0, 4)[0] == low[0]);
                    assert(low[0] == 'n');
                    assert("from"@[0] == 'f');
                    assert(false);
                }
            }
        },
        Recurrence::Daily => {
            assert(trim_spec(s) == s);
            assert(lower_seq(s) =~= "daily"@);
        },
        Recurrence::Weekly => {
            assert(trim_spec(s) == s);
            assert(lower_seq(s) =~= "weekly"@);
            assert(lower_seq(s) != "daily"@);
        },
        Recurrence::Monthly => {
            assert(trim_spec(s) == s);
            assert(lower_seq(s) =~= "monthly"@);
            assert(lower_seq(s) != "daily"@);
            assert(lower_seq(s) != "weekly"@);
        },
        Recurrence::Range { start, end, time } => {
            lemma_range_label_round_trip(start, end, time);
        },
    }
}

proof fn lemma_range_label_round_trip(start: Date, end: Date, time: Option<Time>)
    requires
        start.wf(),
        end.wf(),
        (time matches Some(t) ==> t.wf()),
    ensures
        plain_value(
            crate::model::spec_recurrence_label(Recurrence::Range { start, end, time }),
        ),
        spec_parse_recurrence(
            crate::model::spec_recurrence_label(Recurrence::Range { start, end, time }),
        ) == (Recurrence::Range { start, end, time }),
        spec_validate_recurrence(
            crate::model::spec_recurrence_label(Recurrence::Range { start, end, time }),
            true,
        ) == Ok::<Recurrence, Seq<char>>(Recurrence::Range { start, end, time }),
        spec_validate_recurrence(
            crate::model::spec_recurrence_label(Recurrence::Range { start, end, time }),
            false,
        ) == Ok::<Recurrence, Seq<char>>(Recurrence::Range { start, end, time }),
{
    reveal_strlit("Range ");
    reveal_strlit("range ");
    reveal_strlit("range");
    reveal_strlit("from");
    reveal_strlit(" to ");
    reveal_strlit(" at ");
    reveal_strlit("to");
    reveal_strlit("at ");
    reveal_strlit("daily");
    reveal_strlit("weekly");
    reveal_strlit("monthly");
    reveal_strlit("none");
    let fds = crate::date::spec_format_date(start);
    let fde = crate::date::spec_format_date(end);
    crate::date::lemma_format_date_chars(start);
    crate::date::lemma_format_date_chars(end);
    crate::date::lemma_date_round_trip(start);
    crate::date::lemma_date_round_trip(end);
    let tail = match time {
        Some(t) => " at "@ + crate::date::spec_format_time(t),
        None => Seq::<char>::empty(),
    };
    if time is Some {
        crate::date::lemma_format_time_chars(time->0);
        crate::date::lemma_time_round_trip(time->0);
    }
    let s = crate::model::spec_recurrence_label(Recurrence::Range { start, end, time });
    assert(s =~= "Range "@ + fds + " to "@ + fde + tail);

    // Character classes: no parenthesis, no newline, trimmed ends.
    assert(forall|k: int| 0 <= k < s.len() ==> s[k] != '(' && s[k] != '\n' && !('A' <= s[k]
        && s[k] <= 'Z') == (k >= 1)) by {
        assert(forall|k: int| 0 <= k < 6 ==> s[k] == "Range "@[k]);
    }
    assert(s.len() > 0);
    assert(!crate::text::is_ws(s[0]));
    assert(!crate::text::is_ws(s.last())) by {
        if time is Some {
            let ft = crate::date::spec_format_time(time->0);
            assert(s.last() == ft[4]);
        } else {
            assert(s.last() == fde[9]);
        }
    }
    crate::codec::lemma_trim_noop(s);

    // Lowercasing maps the head to "range " and fixes the rest.
    let low = lower_seq(s);
    assert(low =~= "range "@ + fds + " to "@ + fde + tail) by {
        assert(forall|k: int|
            0 <= k < s.len() ==> low[k] == crate::text::lower_char(s[k]));
    }
    assert(low != "daily"@);
    assert(low != "weekly"@);
    assert(low != "monthly"@);
    assert(low != "none"@);
    assert(has_prefix(low, "range"@)) by {
        assert(low.subrange(0, 5) =~= "range"@);
    }

    // The clause after the introducer.
    let cleaned0 = low.skip(5);
    assert(cleaned0 =~= seq![' '] + (fds + " to "@ + fde + tail));
    let clause = fds + " to "@ + fde + tail;
    assert(!crate::text::is_ws(clause[0]));
    assert(!crate::text::is_ws(clause.last()));
    crate::codec::lemma_trim_noop(clause);
    crate::text::lemma_trim_space_prefix(clause);
    assert(trim_spec(cleaned0) == clause);

    // The "to" separator.
    assert(clause.subrange(11, 13) =~= "to"@);
    assert(forall|k: int| 0 <= k < 11 ==> clause[k] != 't') by {
        assert(forall|k: int| 0 <= k < 10 ==> clause[k] == fds[k]);
        assert(clause[10] == ' ');
    }
    crate::text::lemma_find_sub_at(clause, "to"@, 11, 0);
    assert(find_sub(clause, "to"@) == 11);

    // The left-hand date.
    let left0 = clause.take(11);
    assert(left0 =~= fds + seq![' ']);
    assert(forall|k: int| 11 <= k < left0.len() ==> crate::text::is_ws(left0[k]));
    crate::text::lemma_trim_end_take(left0, 10);
    assert(left0.take(10) =~= fds);
    assert(crate::text::trim_start_rec(left0) == left0);
    assert(trim_spec(left0) == fds);

    // The right-hand side.
    let right0 = clause.skip(13);
    let rhs = fde + tail;
    assert(right0 =~= seq![' '] + rhs);
    assert(!crate::text::is_ws(rhs[0]));
    assert(!crate::text::is_ws(rhs.last()));
    crate::codec::lemma_trim_noop(rhs);
    crate::text::lemma_trim_space_prefix(rhs);
    assert(trim_spec(right0) == rhs);

    match time {
        None => {
            assert(rhs =~= fde);
            assert(forall|k: int| 0 <= k < rhs.len() ==> rhs[k] != 'a');
            crate::text::lemma_find_sub_absent(rhs, "at "@, 0, 0);
            assert(find_sub(rhs, "at "@) == rhs.len());
        },
        Some(t) => {
            let ft = crate::date::spec_format_time(t);
            assert(rhs =~= fde + " at "@ + ft);
            assert(rhs.subrange(11, 14) =~= "at "@);
            assert(forall|k: int| 0 <= k < 11 ==> rhs[k] != 'a') by {
                assert(forall|k: int| 0 <= k < 10 ==> rhs[k] == fde[k]);
                assert(rhs[10] == ' ');
            }
            crate::text::lemma_find_sub_at(rhs, "at "@, 11, 0);
            assert(find_sub(rhs, "at "@) == 11);
            let end0 = rhs.take(11);
            assert(end0 =~= fde + seq![' ']);
            assert(forall|k: int| 11 <= k < end0.len() ==> crate::text::is_ws(end0[k]));
            crate::text::lemma_trim_end_take(end0, 10);
            assert(end0.take(10) =~= fde);
            assert(crate::text::trim_start_rec(end0) == end0);
            assert(trim_spec(end0) == fde);
            let time0 = rhs.skip(14);
            assert(time0 =~= ft);
            assert(!crate::text::is_ws(ft[0]));
            assert(!crate::text::is_ws(ft.last()));
            crate::codec::lemma_trim_noop(ft);
        },
    }
}

// ---------------------------------------------------------------------------
// Money amounts (hundredths) and calorie counts
// ---------------------------------------------------------------------------

/// A non-negative decimal with at most two fraction digits and at most
/// 999,999,999.99, read as a count of hundredths.
pub open spec fn spec_parse_amount(s: Seq<char>) -> Option<u64> {
    let j = find_char(s, '.');
    if j == s.len() {
        if s.len() > 0 && all_digits(s) && digits_val(s) <= 999999999 {
            Some((digits_val(s) * 100) as u64)
        } else {
            None
        }
    } else {
        let ip = s.take(j);
        let fp = s.skip(j + 1);
        if ip.len() > 0 && all_digits(ip) && digits_val(ip) <= 999999999 && (fp.len() == 1
            || fp.len() == 2) && all_digits(fp) {
            if fp.len() == 1 {
                Some((digits_val(ip) * 100 + digits_val(fp) * 10) as u64)
            } else {
                Some((digits_val(ip) * 100 + digits_val(fp)) as u64)
            }
        } else {
            None
        }
    }
}

pub fn parse_amount_chars(v: &Vec<char>) -> (r: Option<u64>)
    ensures
        r == spec_parse_amount(v@),
        r matches Some(c) ==> c <= MAX_AMOUNT_CENTS,
{
    let j = find_char_exec(v, '.');
    proof {
        crate::text::lemma_find_from(v@, '.', 0);
    }
    if j == v.len() {
        match parse_uint(v, 999999999) {
            Some(x) => {
                proof {
                    lemma_digits_val_nonneg(v@);
                }
                Some(x * 100)
            },
            None => None,
        }
    } else {
        let ip = sub_chars(v, 0, j);
        let fp = sub_chars(v, j + 1, v.len());
        proof {
            assert(ip@ =~= v@.take(j as int));
            assert(fp@ =~= v@.skip(j + 1));
        }
        let whole = match parse_uint(&ip, 999999999) {
            Some(x) => x,
            None => {
                return None;
            },
        };
        proof {
            lemma_digits_val_nonneg(ip@);
        }
        if fp.len() == 1 {
            match parse_uint(&fp, 9) {
                Some(f) => {
                    proof {
                        lemma_digits_val_nonneg(fp@);
                        lemma_digits_val_bound(fp@);
                        lemma_pow10_small();
                        assert(pow10(1) == 10) by {
                            reveal_with_fuel(pow10, 3);
                        }
                    }
                    Some(whole * 100 + f * 10)
                },
                None => {
                    proof {
                        if all_digits(fp@) {
                            lemma_digits_val_bound(fp@);
                            assert(pow10(1) == 10) by {
                                reveal_with_fuel(pow10, 3);
                            }
                        }
                    }
                    None
                },
            }
        } else if fp.len() == 2 {
            match parse_uint(&fp, 99) {
                Some(f) => {
                    proof {
                        lemma_digits_val_nonneg(fp@);
                    }
                    Some(whole * 100 + f)
                },
                None => {
                    proof {
                        if all_digits(fp@) {
                            lemma_digits_val_bound(fp@);
                            lemma_pow10_small();
                        }
                    }
                    None
                },
            }
        } else {
            None
        }
    }
}

/// A whole number of calories, at most 50,000.
pub open spec fn spec_parse_calories(s: Seq<char>) -> Option<u32> {
    if s.len() > 0 && all_digits(s) && digits_val(s) <= MAX_CALORIES {
        Some(digits_val(s) as u32)
    } else {
        None
    }
}

pub fn parse_calories_chars(v: &Vec<char>) -> (r: Option<u32>)
    ensures
        r == spec_parse_calories(v@),
{
    match parse_uint(v, 50000) {
        Some(x) => {
            proof {
                lemma_digits_val_nonneg(v@);
            }
            Some(x as u32)
        },
        None => None,
    }
}

/// Rendering a calorie count and reading it back gives the count.
pub proof fn lemma_calories_round_trip(n: u32)
    requires
        n <= MAX_CALORIES,
    ensures
        spec_parse_calories(dec_rep(n as nat)) == Some(n),
{
    lemma_dec_rep(n as nat);
}

/// The canonical rendering of an amount: no thousands separators, a dot,
/// exactly two fraction digits.
pub open spec fn spec_format_amount(cents: u64) -> Seq<char> {
    dec_rep((cents / 100) as nat) + seq!['.'] + zero_pad(dec_rep((cents % 100) as nat), 2)
}

pub fn format_amount_chars(cents: u64) -> (r: Vec<char>)
    ensures
        r@ == spec_format_amount(cents),
{
    let mut r = u64_to_dec(cents / 100);
    r.push('.');
    let f = u64_to_dec_pad(cents % 100, 2);
    push_all(&mut r, &f);
    proof {
        assert(r@ =~= spec_format_amount(cents));
    }
    r
}

/// Parsing a formatted amount gives the amount back.
pub proof fn lemma_amount_round_trip(cents: u64)
    requires
        cents <= MAX_AMOUNT_CENTS,
    ensures
        spec_parse_amount(spec_format_amount(cents)) == Some(cents),
{
    let s = spec_format_amount(cents);
    let ip = dec_rep((cents / 100) as nat);
    let fp = zero_pad(dec_rep((cents % 100) as nat), 2);
    lemma_dec_rep((cents / 100) as nat);
    lemma_pow10_small();
    lemma_zero_pad_dec((cents % 100) as nat, 2);
    assert forall|i: int| 0 <= i < ip.len() implies ip[i] != '.' by {
        assert(crate::num::is_digit(ip[i]));
    }
    assert(s[ip.len() as int] == '.');
    crate::text::lemma_find_from_is(s, '.', 0, ip.len() as int);
    assert(find_char(s, '.') == ip.len());
    assert(s.take(ip.len() as int) =~= ip);
    assert(s.skip(ip.len() as int + 1) =~= fp);
    vstd::arithmetic::div_mod::lemma_fundamental_div_mod(cents as int, 100);
}

} // verus!
