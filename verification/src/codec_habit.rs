//! The habit editor: `Name:`, `Frequency:`, `Status:` and `Start Date:`
//! lines and a free-text `Notes:` body. Frequency and status values may
//! carry an `(options: ...)` hint, which is stripped before validation;
//! the start date must not lie in the future. A habit's streak and marks
//! are not part of the editable text and are preserved.

use vstd::prelude::*;
use crate::codec::{
    body_text, label_line, label_ok, lemma_body_text_lines, lemma_label_line, lemma_label_only,
};
use crate::date::{
    date_le, format_date, lemma_date_round_trip, lemma_format_date_chars, parse_date,
    spec_date_le, spec_epoch, spec_format_date, spec_parse_date, Date,
};
use crate::model::{
    body_ok, recurrence_label_chars, recurrence_wf, single_line, spec_habit_status_label,
    spec_recurrence_label, Habit, HabitStatus, HabitV, Recurrence,
};
use crate::text::{
    chars_of, eq_str, find_char, find_char_exec, lines_of, lit_string, no_newline,
    lemma_strip_pat_id, split_lines, string_from_chars, strip_pat, strip_pat_exec, sub_chars,
    trim_chars, trim_spec, trim_start_chars, trim_start_rec,
};
use crate::validate::{
    habit_status_value_chars, lemma_habit_status_label_value, lemma_recurrence_label_round_trip,
    msg_invalid_habit_status, spec_habit_status_value, spec_validate_recurrence,
    validate_recurrence_chars,
};

verus! {

pub open spec fn msg_name_long() -> Seq<char> {
    "Invalid Name. Maximum length is 100 characters"@
}

pub open spec fn msg_name_required() -> Seq<char> {
    "Name is required"@
}

pub open spec fn msg_start_invalid() -> Seq<char> {
    "Invalid Start Date. Use YYYY-MM-DD between 1970-01-01 and today"@
}

pub open spec fn msg_habit_notes_long() -> Seq<char> {
    "Invalid Notes. Maximum length is 10000 characters"@
}

#[verifier::ext_equal]
pub struct HabitSt {
    pub name: Option<Seq<char>>,
    pub freq: Option<Recurrence>,
    pub status: Option<HabitStatus>,
    pub start: Option<Date>,
    pub seen_label: bool,
    pub in_body: bool,
    pub body: Seq<Seq<char>>,
}

pub open spec fn habit_init() -> HabitSt {
    HabitSt {
        name: None,
        freq: None,
        status: None,
        start: None,
        seen_label: false,
        in_body: false,
        body: Seq::empty(),
    }
}

pub open spec fn habit_fallback(st: HabitSt, t: Seq<char>) -> Result<HabitSt, Seq<char>> {
    if !st.seen_label && st.name is None {
        if t.len() <= 100 {
            Ok(HabitSt { name: Some(t), ..st })
        } else {
            Err(msg_name_long())
        }
    } else {
        Ok(st)
    }
}

pub open spec fn habit_step(st: HabitSt, line: Seq<char>, today: Date) -> Result<
    HabitSt,
    Seq<char>,
> {
    if st.in_body {
        Ok(HabitSt { body: st.body.push(line), ..st })
    } else {
        let t = trim_spec(line);
        if t.len() == 0 {
            Ok(st)
        } else {
            let j = find_char(t, ':');
            if j == t.len() {
                habit_fallback(st, t)
            } else {
                let key = t.take(j + 1);
                let raw = t.skip(j + 1);
                let v = trim_spec(raw);
                if key == "Name:"@ {
                    if v.len() <= 100 {
                        Ok(HabitSt { name: Some(v), seen_label: true, ..st })
                    } else {
                        Err(msg_name_long())
                    }
                } else if key == "Frequency:"@ {
                    let sv = strip_pat(v, " (options:"@);
                    if sv.len() == 0 {
                        Ok(HabitSt { seen_label: true, ..st })
                    } else {
                        match spec_validate_recurrence(sv, false) {
                            Ok(rec) => Ok(HabitSt { freq: Some(rec), seen_label: true, ..st }),
                            Err(m) => Err(m),
                        }
                    }
                } else if key == "Status:"@ {
                    let sv = strip_pat(v, " (options:"@);
                    if sv.len() == 0 {
                        Ok(HabitSt { seen_label: true, ..st })
                    } else {
                        match spec_habit_status_value(sv) {
                            Some(hs) => Ok(HabitSt { status: Some(hs), seen_label: true, ..st }),
                            None => Err(msg_invalid_habit_status()),
                        }
                    }
                } else if key == "Start Date:"@ {
                    if v.len() == 0 {
                        Ok(HabitSt { seen_label: true, ..st })
                    } else {
                        match spec_parse_date(v) {
                            Some(d) => if spec_date_le(spec_epoch(), d) && spec_date_le(
                                d,
                                today,
                            ) {
                                Ok(HabitSt { start: Some(d), seen_label: true, ..st })
                            } else {
                                Err(msg_start_invalid())
                            },
                            None => Err(msg_start_invalid()),
                        }
                    }
                } else if key == "Notes:"@ {
                    Ok(
                        HabitSt {
                            seen_label: true,
                            in_body: true,
                            body: if v.len() > 0 {
                                seq![trim_start_rec(raw)]
                            } else {
                                Seq::empty()
                            },
                            ..st
                        },
                    )
                } else {
                    habit_fallback(st, t)
                }
            }
        }
    }
}

pub open spec fn habit_scan(lines: Seq<Seq<char>>, i: int, st: HabitSt, today: Date) -> Result<
    HabitSt,
    Seq<char>,
>
    decreases lines.len() - i,
{
    if i < 0 || i >= lines.len() {
        Ok(st)
    } else {
        match habit_step(st, lines[i], today) {
            Ok(s2) => habit_scan(lines, i + 1, s2, today),
            Err(e) => Err(e),
        }
    }
}

pub open spec fn habit_finalize(
    st: HabitSt,
    existing: Option<HabitV>,
    default_start: Date,
) -> Result<HabitV, Seq<char>> {
    let note_r: Result<Seq<char>, Seq<char>> = if st.in_body {
        if body_text(st.body).len() <= 10000 {
            Ok(body_text(st.body))
        } else {
            Err(msg_habit_notes_long())
        }
    } else {
        match existing {
            Some(e) => Ok(e.notes),
            None => Ok(Seq::empty()),
        }
    };
    match note_r {
        Err(e) => Err(e),
        Ok(notes) => {
            let name_opt: Option<Seq<char>> = match st.name {
                Some(nm) => if nm.len() > 0 {
                    Some(nm)
                } else {
                    match existing {
                        Some(e) => Some(e.name),
                        None => None,
                    }
                },
                None => match existing {
                    Some(e) => Some(e.name),
                    None => None,
                },
            };
            match name_opt {
                None => Err(msg_name_required()),
                Some(name) => if name.len() == 0 {
                    Err(msg_name_required())
                } else {
                    Ok(
                        HabitV {
                            name,
                            frequency: match st.freq {
                                Some(f) => f,
                                None => match existing {
                                    Some(e) => e.frequency,
                                    None => Recurrence::Daily,
                                },
                            },
                            streak: match existing {
                                Some(e) => e.streak,
                                None => 0,
                            },
                            marks: match existing {
                                Some(e) => e.marks,
                                None => Seq::empty(),
                            },
                            status: match st.status {
                                Some(hs) => hs,
                                None => match existing {
                                    Some(e) => e.status,
                                    None => HabitStatus::Active,
                                },
                            },
                            start_date: match st.start {
                                Some(d) => d,
                                None => match existing {
                                    Some(e) => e.start_date,
                                    None => default_start,
                                },
                            },
                            notes,
                        },
                    )
                },
            }
        },
    }
}

pub open spec fn spec_parse_habit(
    text: Seq<char>,
    existing: Option<HabitV>,
    default_start: Date,
    today: Date,
) -> Result<HabitV, Seq<char>> {
    match habit_scan(lines_of(text), 0, habit_init(), today) {
        Ok(st) => habit_finalize(st, existing, default_start),
        Err(e) => Err(e),
    }
}

pub open spec fn spec_format_habit(c: HabitV) -> Seq<char> {
    label_line("Name:"@, c.name) + seq!['\n'] + label_line(
        "Frequency:"@,
        spec_recurrence_label(c.frequency),
    ) + seq!['\n'] + label_line("Status:"@, spec_habit_status_label(c.status)) + seq!['\n']
        + label_line("Start Date:"@, spec_format_date(c.start_date)) + seq!['\n'] + "Notes:"@
        + seq!['\n'] + c.notes
}

/// A habit the editor can faithfully show and read back: its frequency
/// is never `none`, and its start date is not in the future.
pub open spec fn habit_wf(c: HabitV, today: Date) -> bool {
    &&& single_line(c.name)
    &&& 1 <= c.name.len() <= 100
    &&& body_ok(c.notes, 10000)
    &&& recurrence_wf(c.frequency)
    &&& !(c.frequency is NoRepeat)
    &&& c.start_date.wf()
    &&& spec_date_le(spec_epoch(), c.start_date)
    &&& spec_date_le(c.start_date, today)
}

// ---------------------------------------------------------------------------
// Executable codec
// ---------------------------------------------------------------------------

pub open spec fn opt_habit_view(o: Option<&Habit>) -> Option<HabitV> {
    match o {
        Some(c) => Some(c@),
        None => None,
    }
}

spec fn ost(o: Option<Vec<char>>) -> Option<Seq<char>> {
    match o {
        Some(v) => Some(v@),
        None => None,
    }
}

/// Parse the habit editor text against an optional existing habit.
pub fn parse_habit_editor_content(
    input: &str,
    existing: Option<&Habit>,
    default_start: Date,
    today: Date,
) -> (r: Result<Habit, String>)
    ensures
        r matches Ok(c) ==> spec_parse_habit(input@, opt_habit_view(existing), default_start, today)
            == Ok::<HabitV, Seq<char>>(c@),
        r matches Err(e) ==> spec_parse_habit(
            input@,
            opt_habit_view(existing),
            default_start,
            today,
        ) == Err::<HabitV, Seq<char>>(e@),
{
    let chars = chars_of(input);
    let lines = split_lines(&chars);
    let ghost linesv = lines_of(input@);
    let epoch = crate::date::epoch_date();
    let mut name: Option<Vec<char>> = None;
    let mut freq: Option<Recurrence> = None;
    let mut status: Option<HabitStatus> = None;
    let mut start: Option<Date> = None;
    let mut seen_label: bool = false;
    let mut in_body: bool = false;
    let mut body: Vec<Vec<char>> = Vec::new();
    let n = lines.len();
    let mut i: usize = 0;
    proof {
        assert(HabitSt {
            name: ost(name),
            freq,
            status,
            start,
            seen_label,
            in_body,
            body: body.deep_view(),
        } =~= habit_init());
    }
    while i < n
        invariant
            i <= n,
            n == lines@.len(),
            lines.deep_view() == linesv,
            linesv == lines_of(input@),
            epoch == spec_epoch(),
            habit_scan(linesv, 0, habit_init(), today) == habit_scan(
                linesv,
                i as int,
                HabitSt {
                    name: ost(name),
                    freq,
                    status,
                    start,
                    seen_label,
                    in_body,
                    body: body.deep_view(),
                },
                today,
            ),
        decreases n - i,
    {
        let ghost st_old = HabitSt {
            name: ost(name),
            freq,
            status,
            start,
            seen_label,
            in_body,
            body: body.deep_view(),
        };
        let line = &lines[i];
        proof {
            assert(line@ == linesv[i as int]);
        }
        if in_body {
            let copy = sub_chars(line, 0, line.len());
            let ghost old_body = body.deep_view();
            proof {
                assert(copy@ =~= line@);
            }
            body.push(copy);
            proof {
                assert(body.deep_view() =~~= old_body.push(line@));
            }
        } else {
            let t = trim_chars(line);
            if t.len() == 0 {
            } else {
                let j = find_char_exec(&t, ':');
                proof {
                    crate::text::lemma_find_from(t@, ':', 0);
                }
                if j == t.len() {
                    if !seen_label && name.is_none() {
                        if t.len() <= 100 {
                            name = Some(t);
                        } else {
                            proof {
                                lemma_habit_scan_err(linesv, i as int, st_old, today, msg_name_long());
                            }
                            return Err(lit_string("Invalid Name. Maximum length is 100 characters"));
                        }
                    }
                } else {
                    let key = sub_chars(&t, 0, j + 1);
                    let raw = sub_chars(&t, j + 1, t.len());
                    let v = trim_chars(&raw);
                    proof {
                        assert(key@ =~= t@.take(j as int + 1));
                        assert(raw@ =~= t@.skip(j as int + 1));
                    }
                    if eq_str(&key, "Name:") {
                        if v.len() <= 100 {
                            name = Some(v);
                            seen_label = true;
                        } else {
                            proof {
                                lemma_habit_scan_err(linesv, i as int, st_old, today, msg_name_long());
                            }
                            return Err(lit_string("Invalid Name. Maximum length is 100 characters"));
                        }
                    } else if eq_str(&key, "Frequency:") {
                        let sv = strip_pat_exec(&v, " (options:");
                        if sv.len() == 0 {
                            seen_label = true;
                        } else {
                            match validate_recurrence_chars(&sv, false) {
                                Ok(rec) => {
                                    freq = Some(rec);
                                    seen_label = true;
                                },
                                Err(e) => {
                                    proof {
                                        lemma_habit_scan_err(linesv, i as int, st_old, today, e@);
                                    }
                                    return Err(e);
                                },
                            }
                        }
                    } else if eq_str(&key, "Status:") {
                        let sv = strip_pat_exec(&v, " (options:");
                        if sv.len() == 0 {
                            seen_label = true;
                        } else {
                            match habit_status_value_chars(&sv) {
                                Some(hs) => {
                                    status = Some(hs);
                                    seen_label = true;
                                },
                                None => {
                                    proof {
                                        lemma_habit_scan_err(
                                            linesv,
                                            i as int,
                                            st_old,
                                            today,
                                            msg_invalid_habit_status(),
                                        );
                                    }
                                    return Err(
                                        lit_string("Invalid Status. Valid options: Active|Paused"),
                                    );
                                },
                            }
                        }
                    } else if eq_str(&key, "Start Date:") {
                        if v.len() == 0 {
                            seen_label = true;
                        } else {
                            match parse_date(&v) {
                                Some(d) => {
                                    if date_le(&epoch, &d) && date_le(&d, &today) {
                                        start = Some(d);
                                        seen_label = true;
                                    } else {
                                        proof {
                                            lemma_habit_scan_err(
                                                linesv,
                                                i as int,
                                                st_old,
                                                today,
                                                msg_start_invalid(),
                                            );
                                        }
                                        return Err(
                                            lit_string(
                                                "Invalid Start Date. Use YYYY-MM-DD between 1970-01-01 and today",
                                            ),
                                        );
                                    }
                                },
                                None => {
                                    proof {
                                        lemma_habit_scan_err(
                                            linesv,
                                            i as int,
                                            st_old,
                                            today,
                                            msg_start_invalid(),
                                        );
                                    }
                                    return Err(
                                        lit_string(
                                            "Invalid Start Date. Use YYYY-MM-DD between 1970-01-01 and today",
                                        ),
                                    );
                                },
                            }
                        }
                    } else if eq_str(&key, "Notes:") {
                        in_body = true;
                        seen_label = true;
                        body = Vec::new();
                        if v.len() > 0 {
                            let fb = trim_start_chars(&raw);
                            body.push(fb);
                            proof {
                                assert(body.deep_view() =~~= seq![trim_start_rec(raw@)]);
                            }
                        } else {
                            proof {
                                assert(body.deep_view() =~= Seq::<Seq<char>>::empty());
                            }
                        }
                    } else {
                        if !seen_label && name.is_none() {
                            if t.len() <= 100 {
                                name = Some(t);
                            } else {
                                proof {
                                    lemma_habit_scan_err(
                                        linesv,
                                        i as int,
                                        st_old,
                                        today,
                                        msg_name_long(),
                                    );
                                }
                                return Err(
                                    lit_string("Invalid Name. Maximum length is 100 characters"),
                                );
                            }
                        }
                    }
                }
            }
        }
        proof {
            let st_new = HabitSt {
                name: ost(name),
                freq,
                status,
                start,
                seen_label,
                in_body,
                body: body.deep_view(),
            };
            assert(habit_step(st_old, linesv[i as int], today) == Ok::<HabitSt, Seq<char>>(st_new));
            assert(habit_scan(linesv, i as int, st_old, today) == habit_scan(
                linesv,
                i + 1,
                st_new,
                today,
            ));
        }
        i = i + 1;
    }
    let ghost st_fin = HabitSt {
        name: ost(name),
        freq,
        status,
        start,
        seen_label,
        in_body,
        body: body.deep_view(),
    };
    proof {
        assert(habit_scan(linesv, n as int, st_fin, today) == Ok::<HabitSt, Seq<char>>(st_fin));
    }
    let notes_chars: Vec<char> = if in_body {
        if body.len() > 0 && body[body.len() - 1].len() == 0 {
            proof {
                assert(body.deep_view().last().len() == 0);
            }
            let ghost pre = body.deep_view();
            body.pop();
            proof {
                assert(body.deep_view() =~~= pre.drop_last());
            }
        }
        let n2 = crate::text::join_text(&body);
        proof {
            assert(n2@ == body_text(st_fin.body));
        }
        if n2.len() > 10000 {
            return Err(lit_string("Invalid Notes. Maximum length is 10000 characters"));
        }
        n2
    } else {
        match existing {
            Some(e) => chars_of(e.notes.as_str()),
            None => Vec::new(),
        }
    };
    let name_chars: Vec<char> = match name {
        Some(nm) => {
            if nm.len() > 0 {
                nm
            } else {
                match existing {
                    Some(e) => chars_of(e.name.as_str()),
                    None => {
                        return Err(lit_string("Name is required"));
                    },
                }
            }
        },
        None => {
            match existing {
                Some(e) => chars_of(e.name.as_str()),
                None => {
                    return Err(lit_string("Name is required"));
                },
            }
        },
    };
    if name_chars.len() == 0 {
        return Err(lit_string("Name is required"));
    }
    let habit = Habit {
        name: string_from_chars(&name_chars),
        frequency: match freq {
            Some(f) => f,
            None => match existing {
                Some(e) => e.frequency,
                None => Recurrence::Daily,
            },
        },
        streak: match existing {
            Some(e) => e.streak,
            None => 0,
        },
        marks: match existing {
            Some(e) => copy_marks(&e.marks),
            None => Vec::new(),
        },
        status: match status {
            Some(hs) => hs,
            None => match existing {
                Some(e) => e.status,
                None => HabitStatus::Active,
            },
        },
        start_date: match start {
            Some(d) => d,
            None => match existing {
                Some(e) => e.start_date,
                None => default_start,
            },
        },
        notes: string_from_chars(&notes_chars),
    };
    proof {
        assert(habit_finalize(st_fin, opt_habit_view(existing), default_start) == Ok::<
            HabitV,
            Seq<char>,
        >(habit@)) by {
            assert(habit@ =~~= (match habit_finalize(st_fin, opt_habit_view(existing), default_start) {
                Ok(c) => c,
                Err(_) => habit@,
            }));
        }
    }
    Ok(habit)
}

fn copy_marks(marks: &Vec<Date>) -> (r: Vec<Date>)
    ensures
        r@ == marks@,
{
    let mut r: Vec<Date> = Vec::new();
    let mut i: usize = 0;
    while i < marks.len()
        invariant
            i <= marks@.len(),
            r@ =~= marks@.take(i as int),
        decreases marks@.len() - i,
    {
        r.push(marks[i]);
        assert(r@ =~= marks@.take(i + 1));
        i = i + 1;
    }
    assert(marks@.take(marks@.len() as int) =~= marks@);
    r
}

/// Parse and validate in one step: the habit editor's commit path.
pub fn parse_and_validate_habit(
    input: &str,
    existing: Option<&Habit>,
    default_start: Date,
    today: Date,
) -> (r: Result<Habit, String>)
    ensures
        r matches Ok(c) ==> spec_parse_habit(input@, opt_habit_view(existing), default_start, today)
            == Ok::<HabitV, Seq<char>>(c@),
        r matches Err(e) ==> spec_parse_habit(
            input@,
            opt_habit_view(existing),
            default_start,
            today,
        ) == Err::<HabitV, Seq<char>>(e@),
{
    parse_habit_editor_content(input, existing, default_start, today)
}

proof fn lemma_habit_scan_err(lines: Seq<Seq<char>>, i: int, st: HabitSt, today: Date, e: Seq<char>)
    requires
        0 <= i < lines.len(),
        habit_step(st, lines[i], today) == Err::<HabitSt, Seq<char>>(e),
    ensures
        habit_scan(lines, i, st, today) == Err::<HabitSt, Seq<char>>(e),
{
}

/// The text for a brand-new habit, starting on `selected_date`.
pub fn new_habit_editor_template(selected_date: Date) -> (r: String)
    requires
        selected_date.wf(),
    ensures
        r@
            == "Name: \nFrequency: daily (options: daily|weekly|monthly|range YYYY-MM-DD to YYYY-MM-DD at HH:MM)\nStatus: Active (options: Active|Paused)\nStart Date: "@
            + spec_format_date(selected_date) + "\nNotes:\n"@,
{
    let mut out = chars_of(
        "Name: \nFrequency: daily (options: daily|weekly|monthly|range YYYY-MM-DD to YYYY-MM-DD at HH:MM)\nStatus: Active (options: Active|Paused)\nStart Date: ",
    );
    let d = format_date(&selected_date);
    crate::num::push_all(&mut out, &d);
    crate::num::push_str(&mut out, "\nNotes:\n");
    proof {
        assert(out@
            =~= "Name: \nFrequency: daily (options: daily|weekly|monthly|range YYYY-MM-DD to YYYY-MM-DD at HH:MM)\nStatus: Active (options: Active|Paused)\nStart Date: "@
            + spec_format_date(selected_date) + "\nNotes:\n"@);
    }
    string_from_chars(&out)
}

/// Render a habit into its editor text.
pub fn format_habit_editor_content(habit: &Habit) -> (r: String)
    requires
        habit.start_date.wf(),
        recurrence_wf(habit.frequency),
    ensures
        r@ == spec_format_habit(habit@),
{
    let mut out = chars_of("Name: ");
    let nc = chars_of(habit.name.as_str());
    crate::num::push_all(&mut out, &nc);
    crate::num::push_str(&mut out, "\nFrequency: ");
    let fc = recurrence_label_chars(&habit.frequency);
    crate::num::push_all(&mut out, &fc);
    crate::num::push_str(&mut out, "\nStatus: ");
    let sc = crate::model::habit_status_label(habit.status);
    let scv = chars_of(sc);
    crate::num::push_all(&mut out, &scv);
    crate::num::push_str(&mut out, "\nStart Date: ");
    let dc = format_date(&habit.start_date);
    crate::num::push_all(&mut out, &dc);
    crate::num::push_str(&mut out, "\nNotes:\n");
    let bc = chars_of(habit.notes.as_str());
    crate::num::push_all(&mut out, &bc);
    proof {
        reveal_strlit("Name: ");
        reveal_strlit("Name:");
        reveal_strlit("\nFrequency: ");
        reveal_strlit("Frequency:");
        reveal_strlit("\nStatus: ");
        reveal_strlit("Status:");
        reveal_strlit("\nStart Date: ");
        reveal_strlit("Start Date:");
        reveal_strlit("\nNotes:\n");
        reveal_strlit("Notes:");
        assert(out@ =~= spec_format_habit(habit@));
    }
    string_from_chars(&out)
}

// ---------------------------------------------------------------------------
// The round trip
// ---------------------------------------------------------------------------

/// Parsing the rendering of a well-formed habit against itself yields
/// the habit unchanged.
#[verifier::rlimit(80)]
pub proof fn lemma_habit_round_trip(c: HabitV, default_start: Date, today: Date)
    requires
        habit_wf(c, today),
    ensures
        spec_parse_habit(spec_format_habit(c), Some(c), default_start, today) == Ok::<
            HabitV,
            Seq<char>,
        >(c),
{
    reveal_strlit("Name:");
    reveal_strlit("Frequency:");
    reveal_strlit("Status:");
    reveal_strlit("Start Date:");
    reveal_strlit("Notes:");
    reveal_strlit(" (options:");
    let nl = "Name:"@;
    let fl = "Frequency:"@;
    let sl = "Status:"@;
    let dl = "Start Date:"@;
    let bl = "Notes:"@;
    assert(label_ok(nl));
    assert(label_ok(fl));
    assert(label_ok(sl));
    assert(label_ok(dl));
    assert(label_ok(bl));
    let fv = spec_recurrence_label(c.frequency);
    let sv = spec_habit_status_label(c.status);
    let dv = spec_format_date(c.start_date);
    lemma_recurrence_label_round_trip(c.frequency);
    lemma_habit_status_label_value(c.status);
    lemma_format_date_chars(c.start_date);
    lemma_date_round_trip(c.start_date);
    crate::codec::lemma_trim_noop(dv);
    assert(no_newline(dv));
    assert((" (options:"@)[1] == '(');
    lemma_strip_pat_id(fv, " (options:"@, 1);
    lemma_strip_pat_id(sv, " (options:"@, 1);

    let l0 = label_line(nl, c.name);
    let l1 = label_line(fl, fv);
    let l2 = label_line(sl, sv);
    let l3 = label_line(dl, dv);
    let text = spec_format_habit(c);
    assert(no_newline(l0));
    assert(no_newline(l1));
    assert(no_newline(l2));
    assert(no_newline(l3));
    let rest3 = bl + seq!['\n'] + c.notes;
    let rest2 = l3 + seq!['\n'] + rest3;
    let rest1 = l2 + seq!['\n'] + rest2;
    let rest0 = l1 + seq!['\n'] + rest1;
    assert(text =~= l0 + seq!['\n'] + rest0);
    crate::text::lemma_lines_of_concat(l0, rest0);
    crate::text::lemma_lines_of_concat(l1, rest1);
    crate::text::lemma_lines_of_concat(l2, rest2);
    crate::text::lemma_lines_of_concat(l3, rest3);
    crate::text::lemma_lines_of_concat(bl, c.notes);
    let lines = lines_of(text);
    assert(lines =~~= seq![l0, l1, l2, l3, bl] + lines_of(c.notes));
    assert(lines[0] == l0);
    assert(lines[1] == l1);
    assert(lines[2] == l2);
    assert(lines[3] == l3);
    assert(lines[4] == bl);
    assert(lines.skip(5) =~~= lines_of(c.notes));

    let st0 = habit_init();
    lemma_label_line(nl, c.name);
    let st1 = HabitSt {
        name: Some(c.name),
        freq: None,
        status: None,
        start: None,
        seen_label: true,
        in_body: false,
        body: Seq::empty(),
    };
    assert(habit_step(st0, l0, today) == Ok::<HabitSt, Seq<char>>(st1));
    lemma_label_line(fl, fv);
    let st2 = HabitSt { freq: Some(c.frequency), ..st1 };
    assert(habit_step(st1, l1, today) == Ok::<HabitSt, Seq<char>>(st2));
    lemma_label_line(sl, sv);
    let st3 = HabitSt { status: Some(c.status), ..st2 };
    assert(habit_step(st2, l2, today) == Ok::<HabitSt, Seq<char>>(st3));
    lemma_label_line(dl, dv);
    let st4 = HabitSt { start: Some(c.start_date), ..st3 };
    assert(habit_step(st3, l3, today) == Ok::<HabitSt, Seq<char>>(st4));
    lemma_label_only(bl);
    let st5 = HabitSt { in_body: true, body: Seq::empty(), ..st4 };
    assert(habit_step(st4, bl, today) == Ok::<HabitSt, Seq<char>>(st5));
    lemma_habit_scan_body(lines, 5, st5, today);
    let st6 = HabitSt { body: lines_of(c.notes), ..st5 };
    assert(st5.body + lines.skip(5) =~~= lines_of(c.notes));
    assert(habit_scan(lines, 5, st5, today) == Ok::<HabitSt, Seq<char>>(st6));
    assert(habit_scan(lines, 4, st4, today) == Ok::<HabitSt, Seq<char>>(st6));
    assert(habit_scan(lines, 3, st3, today) == Ok::<HabitSt, Seq<char>>(st6));
    assert(habit_scan(lines, 2, st2, today) == Ok::<HabitSt, Seq<char>>(st6));
    assert(habit_scan(lines, 1, st1, today) == Ok::<HabitSt, Seq<char>>(st6));
    assert(habit_scan(lines, 0, st0, today) == Ok::<HabitSt, Seq<char>>(st6));

    lemma_body_text_lines(c.notes);
    assert(habit_finalize(st6, Some(c), default_start) == Ok::<HabitV, Seq<char>>(c)) by {
        assert((match habit_finalize(st6, Some(c), default_start) {
            Ok(x) => x,
            Err(_) => c,
        }) =~~= c);
    }
}

proof fn lemma_habit_scan_body(lines: Seq<Seq<char>>, i: int, st: HabitSt, today: Date)
    requires
        0 <= i <= lines.len(),
        st.in_body,
    ensures
        habit_scan(lines, i, st, today) == Ok::<HabitSt, Seq<char>>(
            HabitSt { body: st.body + lines.skip(i), ..st },
        ),
    decreases lines.len() - i,
{
    if i == lines.len() {
        assert(st.body + lines.skip(i) =~~= st.body);
        assert(HabitSt { body: st.body + lines.skip(i), ..st } =~= st);
    } else {
        let st2 = HabitSt { body: st.body.push(lines[i]), ..st };
        lemma_habit_scan_body(lines, i + 1, st2, today);
        assert(st2.body + lines.skip(i + 1) =~~= st.body + lines.skip(i));
        assert(HabitSt { body: st2.body + lines.skip(i + 1), ..st2 } =~= HabitSt {
            body: st.body + lines.skip(i),
            ..st
        });
    }
}

} // verus!
