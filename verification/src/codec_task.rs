//! The task editor: `Title:`, `Status:`, `Priority:`, `Created:`,
//! `Due:`, `Reminder:` and `Repeat:` lines and a free-text
//! `Description:` body. Enumerated values may carry an `(options: ...)`
//! hint; the reminder value may carry an `(e.g. ...)` hint. A reminder
//! is a date, a date with an `HH:MM` time, the word `None`, or free
//! text; dates must lie in their allowed windows.

use vstd::prelude::*;
use crate::codec::{
    body_text, label_line, label_ok, lemma_body_text_lines, lemma_label_line, lemma_label_only,
    lemma_trim_noop,
};
use crate::date::{
    date_le, format_date, format_time, lemma_date_round_trip, lemma_format_date_chars,
    lemma_format_time_chars, lemma_time_round_trip, parse_date, parse_time, spec_add_days,
    spec_date_le, spec_epoch, spec_format_date, spec_format_time, spec_parse_date,
    spec_parse_time, Date, Time,
};
use crate::model::{
    body_ok, recurrence_label_chars, recurrence_wf, single_line, spec_priority_label,
    spec_recurrence_label, spec_status_label, Recurrence, Task, TaskPriority, TaskV,
};
use crate::text::{
    chars_of, eq_str, find_char, find_char_exec, lemma_find_from_is, lemma_strip_pat_id, lines_of,
    lit_string, lower_chars, lower_seq, no_newline, split_lines, string_from_chars, strip_pat,
    strip_pat_exec, sub_chars, trim_chars, trim_spec, trim_start_chars, trim_start_rec,
};
use crate::validate::{
    lemma_priority_label_value, lemma_recurrence_label_round_trip, lemma_status_label_value,
    msg_invalid_priority, msg_invalid_status, plain_value, priority_value_chars,
    spec_priority_value, spec_status_value, spec_validate_recurrence, status_value_chars,
    validate_recurrence_chars,
};

verus! {

pub open spec fn msg_title_long() -> Seq<char> {
    "Invalid Title. Maximum length is 200 characters"@
}

pub open spec fn msg_title_required() -> Seq<char> {
    "Title is required"@
}

pub open spec fn msg_created_invalid() -> Seq<char> {
    "Invalid Created date. Use YYYY-MM-DD between 1970-01-01 and ten years from today"@
}

pub open spec fn msg_due_invalid() -> Seq<char> {
    "Invalid Due date. Use YYYY-MM-DD between 1970-01-01 and ten years from today"@
}

pub open spec fn msg_description_long() -> Seq<char> {
    "Invalid Description. Maximum length is 10000 characters"@
}

/// What a non-empty reminder value denotes.
#[verifier::ext_equal]
pub enum RemV {
    /// The explicit words `None` or `Not set`: clear the reminder.
    Cleared,
    /// A date, optionally followed by an `HH:MM` time.
    At(Date, Option<Time>),
    /// Anything else is kept as free reminder text.
    Text(Seq<char>),
}

/// Read a reminder value: a leading `YYYY-MM-DD` token within
/// `[today, today + 10 years]`, optionally followed by a valid time,
/// makes a dated reminder; everything else is free text.
pub open spec fn classify_reminder(s: Seq<char>, today: Date) -> RemV {
    let sp = find_char(s, ' ');
    let date_part = s.take(sp);
    let rest = trim_spec(s.skip(sp));
    match spec_parse_date(date_part) {
        Some(d) => if spec_date_le(today, d) && spec_date_le(d, spec_add_days(today, 3650)) {
            if rest.len() == 0 {
                RemV::At(d, None)
            } else {
                match spec_parse_time(rest) {
                    Some(t) => RemV::At(d, Some(t)),
                    None => RemV::Text(s),
                }
            }
        } else {
            RemV::Text(s)
        },
        None => RemV::Text(s),
    }
}

#[verifier::ext_equal]
pub struct TaskSt {
    pub title: Option<Seq<char>>,
    pub completed: Option<bool>,
    pub priority: Option<TaskPriority>,
    pub created: Option<Date>,
    pub due: Option<Option<Date>>,
    pub rem: Option<RemV>,
    pub recur: Option<Recurrence>,
    pub seen_label: bool,
    pub in_body: bool,
    pub body: Seq<Seq<char>>,
}

pub open spec fn task_init() -> TaskSt {
    TaskSt {
        title: None,
        completed: None,
        priority: None,
        created: None,
        due: None,
        rem: None,
        recur: None,
        seen_label: false,
        in_body: false,
        body: Seq::empty(),
    }
}

pub open spec fn task_fallback(st: TaskSt, t: Seq<char>) -> Result<TaskSt, Seq<char>> {
    if !st.seen_label && st.title is None {
        if t.len() <= 200 {
            Ok(TaskSt { title: Some(t), ..st })
        } else {
            Err(msg_title_long())
        }
    } else {
        Ok(st)
    }
}

pub open spec fn in_ten_year_window(d: Date, today: Date) -> bool {
    spec_date_le(spec_epoch(), d) && spec_date_le(d, spec_add_days(today, 3650))
}

pub open spec fn task_step(st: TaskSt, line: Seq<char>, today: Date) -> Result<TaskSt, Seq<char>> {
    if st.in_body {
        Ok(TaskSt { body: st.body.push(line), ..st })
    } else {
        let t = trim_spec(line);
        if t.len() == 0 {
            Ok(st)
        } else {
            let j = find_char(t, ':');
            if j == t.len() {
                task_fallback(st, t)
            } else {
                let key = t.take(j + 1);
                let raw = t.skip(j + 1);
                let v = trim_spec(raw);
                if key == "Title:"@ {
                    if v.len() <= 200 {
                        Ok(TaskSt { title: Some(v), seen_label: true, ..st })
                    } else {
                        Err(msg_title_long())
                    }
                } else if key == "Status:"@ {
                    let sv = strip_pat(v, " (options:"@);
                    if sv.len() == 0 {
                        Ok(TaskSt { seen_label: true, ..st })
                    } else {
                        match spec_status_value(sv) {
                            Some(b) => Ok(TaskSt { completed: Some(b), seen_label: true, ..st }),
                            None => Err(msg_invalid_status()),
                        }
                    }
                } else if key == "Priority:"@ {
                    let sv = strip_pat(v, " (options:"@);
                    if sv.len() == 0 {
                        Ok(TaskSt { seen_label: true, ..st })
                    } else {
                        match spec_priority_value(sv) {
                            Some(p) => Ok(TaskSt { priority: Some(p), seen_label: true, ..st }),
                            None => Err(msg_invalid_priority()),
                        }
                    }
                } else if key == "Created:"@ {
                    if v.len() == 0 {
                        Ok(TaskSt { seen_label: true, ..st })
                    } else {
                        match spec_parse_date(v) {
                            Some(d) => if in_ten_year_window(d, today) {
                                Ok(TaskSt { created: Some(d), seen_label: true, ..st })
                            } else {
                                Err(msg_created_invalid())
                            },
                            None => Err(msg_created_invalid()),
                        }
                    }
                } else if key == "Due:"@ {
                    if v.len() == 0 {
                        Ok(TaskSt { seen_label: true, ..st })
                    } else if lower_seq(v) == "not set"@ {
                        Ok(TaskSt { due: Some(None), seen_label: true, ..st })
                    } else {
                        match spec_parse_date(v) {
                            Some(d) => if in_ten_year_window(d, today) {
                                Ok(TaskSt { due: Some(Some(d)), seen_label: true, ..st })
                            } else {
                                Err(msg_due_invalid())
                            },
                            None => Err(msg_due_invalid()),
                        }
                    }
                } else if key == "Reminder:"@ {
                    let sv = strip_pat(v, " (e.g."@);
                    if sv.len() == 0 {
                        Ok(TaskSt { seen_label: true, ..st })
                    } else if lower_seq(sv) == "none"@ || lower_seq(sv) == "not set"@ {
                        Ok(TaskSt { rem: Some(RemV::Cleared), seen_label: true, ..st })
                    } else {
                        Ok(
                            TaskSt {
                                rem: Some(classify_reminder(sv, today)),
                                seen_label: true,
                                ..st
                            },
                        )
                    }
                } else if key == "Repeat:"@ {
                    let sv = strip_pat(v, " (options:"@);
                    if sv.len() == 0 {
                        Ok(TaskSt { seen_label: true, ..st })
                    } else {
                        match spec_validate_recurrence(sv, true) {
                            Ok(rec) => Ok(TaskSt { recur: Some(rec), seen_label: true, ..st }),
                            Err(m) => Err(m),
                        }
                    }
                } else if key == "Description:"@ {
                    Ok(
                        TaskSt {
                            seen_label: true,
                            in_body: true,
                            body: if v.len() > 0 {
                                seq![trim_start_rec(raw)]
                            } else {
                                Seq::empty()
                            },
                            ..st
                        },
                    )
                } else {
                    task_fallback(st, t)
                }
            }
        }
    }
}

pub open spec fn task_scan(lines: Seq<Seq<char>>, i: int, st: TaskSt, today: Date) -> Result<
    TaskSt,
    Seq<char>,
>
    decreases lines.len() - i,
{
    if i < 0 || i >= lines.len() {
        Ok(st)
    } else {
        match task_step(st, lines[i], today) {
            Ok(s2) => task_scan(lines, i + 1, s2, today),
            Err(e) => Err(e),
        }
    }
}

pub open spec fn task_finalize(st: TaskSt, existing: Option<TaskV>, today: Date) -> Result<
    TaskV,
    Seq<char>,
> {
    let desc_r: Result<Seq<char>, Seq<char>> = if st.in_body {
        if body_text(st.body).len() <= 10000 {
            Ok(body_text(st.body))
        } else {
            Err(msg_description_long())
        }
    } else {
        match existing {
            Some(e) => Ok(e.description),
            None => Ok(Seq::empty()),
        }
    };
    match desc_r {
        Err(e) => Err(e),
        Ok(description) => {
            let title_opt: Option<Seq<char>> = match st.title {
                Some(tl) => if tl.len() > 0 {
                    Some(tl)
                } else {
                    match existing {
                        Some(e) => Some(e.title),
                        None => None,
                    }
                },
                None => match existing {
                    Some(e) => Some(e.title),
                    None => None,
                },
            };
            match title_opt {
                None => Err(msg_title_required()),
                Some(title) => if title.len() == 0 {
                    Err(msg_title_required())
                } else {
                    let rem3: (Option<Date>, Option<Time>, Option<Seq<char>>) = match st.rem {
                        Some(RemV::Cleared) => (None, None, None),
                        Some(RemV::At(d, t)) => (Some(d), t, None),
                        Some(RemV::Text(s)) => (None, None, Some(s)),
                        None => match existing {
                            Some(e) => (e.reminder_date, e.reminder_time, e.reminder_text),
                            None => (None, None, None),
                        },
                    };
                    Ok(
                        TaskV {
                            title,
                            description,
                            completed: match st.completed {
                                Some(b) => b,
                                None => match existing {
                                    Some(e) => e.completed,
                                    None => false,
                                },
                            },
                            priority: match st.priority {
                                Some(p) => p,
                                None => match existing {
                                    Some(e) => e.priority,
                                    None => TaskPriority::Medium,
                                },
                            },
                            due_date: match st.due {
                                Some(x) => x,
                                None => match existing {
                                    Some(e) => e.due_date,
                                    None => None,
                                },
                            },
                            reminder_text: rem3.2,
                            reminder_date: rem3.0,
                            reminder_time: rem3.1,
                            recurrence: match st.recur {
                                Some(r) => r,
                                None => match existing {
                                    Some(e) => e.recurrence,
                                    None => Recurrence::NoRepeat,
                                },
                            },
                            created_at: match st.created {
                                Some(d) => d,
                                None => match existing {
                                    Some(e) => e.created_at,
                                    None => today,
                                },
                            },
                        },
                    )
                },
            }
        },
    }
}

pub open spec fn spec_parse_task(text: Seq<char>, existing: Option<TaskV>, today: Date) -> Result<
    TaskV,
    Seq<char>,
> {
    match task_scan(lines_of(text), 0, task_init(), today) {
        Ok(st) => task_finalize(st, existing, today),
        Err(e) => Err(e),
    }
}

/// The reminder value as the formatter writes it.
pub open spec fn spec_reminder_value(c: TaskV) -> Seq<char> {
    match (c.reminder_date, c.reminder_time, c.reminder_text) {
        (Some(d), Some(t), _) => spec_format_date(d) + seq![' '] + spec_format_time(t),
        (Some(d), None, _) => spec_format_date(d),
        (None, _, Some(s)) => s,
        (None, _, None) => "None"@,
    }
}

pub open spec fn spec_due_value(c: TaskV) -> Seq<char> {
    match c.due_date {
        Some(d) => spec_format_date(d),
        None => "Not set"@,
    }
}

pub open spec fn spec_format_task(c: TaskV) -> Seq<char> {
    label_line("Title:"@, c.title) + seq!['\n'] + label_line(
        "Status:"@,
        spec_status_label(c.completed),
    ) + seq!['\n'] + label_line("Priority:"@, spec_priority_label(c.priority)) + seq!['\n']
        + label_line("Created:"@, spec_format_date(c.created_at)) + seq!['\n'] + label_line(
        "Due:"@,
        spec_due_value(c),
    ) + seq!['\n'] + label_line("Reminder:"@, spec_reminder_value(c)) + seq!['\n'] + label_line(
        "Repeat:"@,
        spec_recurrence_label(c.recurrence),
    ) + seq!['\n'] + seq!['\n'] + "Description:"@ + seq!['\n'] + c.description
}

/// A task the editor can faithfully show and read back, relative to
/// `today`'s validation windows.
pub open spec fn task_wf(c: TaskV, today: Date) -> bool {
    &&& single_line(c.title)
    &&& 1 <= c.title.len() <= 200
    &&& body_ok(c.description, 10000)
    &&& c.created_at.wf()
    &&& in_ten_year_window(c.created_at, today)
    &&& (c.due_date matches Some(d) ==> d.wf() && in_ten_year_window(d, today))
    &&& recurrence_wf(c.recurrence)
    &&& (c.reminder_time is Some ==> c.reminder_date is Some)
    &&& (c.reminder_date matches Some(d) ==> d.wf() && spec_date_le(today, d) && spec_date_le(
        d,
        spec_add_days(today, 3650),
    ) && c.reminder_text is None)
    &&& (c.reminder_time matches Some(t) ==> t.wf())
    &&& (c.reminder_text matches Some(s) ==> {
        &&& single_line(s)
        &&& s.len() > 0
        &&& (forall|k: int| 0 <= k < s.len() ==> s[k] != '(')
        &&& lower_seq(s) != "none"@
        &&& lower_seq(s) != "not set"@
        &&& classify_reminder(s, today) == RemV::Text(s)
        &&& c.reminder_date is None
        &&& c.reminder_time is None
    })
}

// ---------------------------------------------------------------------------
// Executable codec
// ---------------------------------------------------------------------------

pub enum RemX {
    Cleared,
    At(Date, Option<Time>),
    Text(Vec<char>),
}

pub open spec fn remx_view(o: Option<RemX>) -> Option<RemV> {
    match o {
        Some(RemX::Cleared) => Some(RemV::Cleared),
        Some(RemX::At(d, t)) => Some(RemV::At(d, t)),
        Some(RemX::Text(v)) => Some(RemV::Text(v@)),
        None => None,
    }
}

pub open spec fn opt_task_view(o: Option<&Task>) -> Option<TaskV> {
    match o {
        Some(c) => Some(c@),
        None => None,
    }
}

spec fn ost(o: Option<Vec<char>>) -> Option<Seq<char>> {
    match o {
        Some(v) => Some(v@),
        None => None,
    }
}

/// Read a non-empty reminder value into its classification.
fn classify_reminder_exec(s: &Vec<char>, today: Date, max_date: &Date) -> (r: RemX)
    requires
        *max_date == spec_add_days(today, 3650),
    ensures
        remx_view(Some(r)) == Some(classify_reminder(s@, today)),
{
    let sp = find_char_exec(s, ' ');
    proof {
        crate::text::lemma_find_from(s@, ' ', 0);
    }
    let date_part = sub_chars(s, 0, sp);
    let rest_raw = sub_chars(s, sp, s.len());
    proof {
        assert(date_part@ =~= s@.take(sp as int));
        assert(rest_raw@ =~= s@.skip(sp as int));
    }
    let rest = trim_chars(&rest_raw);
    match parse_date(&date_part) {
        Some(d) => {
            if date_le(&today, &d) && date_le(&d, max_date) {
                if rest.len() == 0 {
                    RemX::At(d, None)
                } else {
                    match parse_time(&rest) {
                        Some(t) => RemX::At(d, Some(t)),
                        None => {
                            let copy = sub_chars(s, 0, s.len());
                            proof {
                                assert(copy@ =~= s@);
                            }
                            RemX::Text(copy)
                        },
                    }
                }
            } else {
                let copy = sub_chars(s, 0, s.len());
                proof {
                    assert(copy@ =~= s@);
                }
                RemX::Text(copy)
            }
        },
        None => {
            let copy = sub_chars(s, 0, s.len());
            proof {
                assert(copy@ =~= s@);
            }
            RemX::Text(copy)
        },
    }
}

/// Parse the task editor text against an optional existing task.
#[verifier::rlimit(80)]
pub fn parse_task_editor_content(input: &str, existing: Option<&Task>, today: Date) -> (r: Result<
    Task,
    String,
>)
    requires
        today.wf(),
    ensures
        r matches Ok(c) ==> spec_parse_task(input@, opt_task_view(existing), today) == Ok::<
            TaskV,
            Seq<char>,
        >(c@),
        r matches Err(e) ==> spec_parse_task(input@, opt_task_view(existing), today) == Err::<
            TaskV,
            Seq<char>,
        >(e@),
{
    let chars = chars_of(input);
    let lines = split_lines(&chars);
    let ghost linesv = lines_of(input@);
    let epoch = crate::date::epoch_date();
    let max_date = crate::date::add_days(&today, 3650);
    let mut title: Option<Vec<char>> = None;
    let mut completed: Option<bool> = None;
    let mut priority: Option<TaskPriority> = None;
    let mut created: Option<Date> = None;
    let mut due: Option<Option<Date>> = None;
    let mut rem: Option<RemX> = None;
    let mut recur: Option<Recurrence> = None;
    let mut seen_label: bool = false;
    let mut in_body: bool = false;
    let mut body: Vec<Vec<char>> = Vec::new();
    let n = lines.len();
    let mut i: usize = 0;
    proof {
        assert(TaskSt {
            title: ost(title),
            completed,
            priority,
            created,
            due,
            rem: remx_view(rem),
            recur,
            seen_label,
            in_body,
            body: body.deep_view(),
        } =~= task_init());
    }
    while i < n
        invariant
            i <= n,
            n == lines@.len(),
            lines.deep_view() == linesv,
            linesv == lines_of(input@),
            epoch == spec_epoch(),
            max_date == spec_add_days(today, 3650),
            task_scan(linesv, 0, task_init(), today) == task_scan(
                linesv,
                i as int,
                TaskSt {
                    title: ost(title),
                    completed,
                    priority,
                    created,
                    due,
                    rem: remx_view(rem),
                    recur,
                    seen_label,
                    in_body,
                    body: body.deep_view(),
                },
                today,
            ),
        decreases n - i,
    {
        let ghost st_old = TaskSt {
            title: ost(title),
            completed,
            priority,
            created,
            due,
            rem: remx_view(rem),
            recur,
            seen_label,
            in_body,
            body: body.deep_view(),
        };
        let line = &lines[i];
        proof {
            assert(line@ == linesv[i as int]);
        }
        if in_body {
            let copy = sub_chars(line, 0, line.len());
            let ghost old_body = body.deep_view();
            proof {
                assert(copy@ =~= line@);
            }
            body.push(copy);
            proof {
                assert(body.deep_view() =~~= old_body.push(line@));
            }
        } else {
            let t = trim_chars(line);
            if t.len() == 0 {
            } else {
                let j = find_char_exec(&t, ':');
                proof {
                    crate::text::lemma_find_from(t@, ':', 0);
                }
                if j == t.len() {
                    if !seen_label && title.is_none() {
                        if t.len() <= 200 {
                            title = Some(t);
                        } else {
                            proof {
                                lemma_task_scan_err(linesv, i as int, st_old, today, msg_title_long());
                            }
                            return Err(lit_string("Invalid Title. Maximum length is 200 characters"));
                        }
                    }
                } else {
                    let key = sub_chars(&t, 0, j + 1);
                    let raw = sub_chars(&t, j + 1, t.len());
                    let v = trim_chars(&raw);
                    proof {
                        assert(key@ =~= t@.take(j as int + 1));
                        assert(raw@ =~= t@.skip(j as int + 1));
                    }
                    if eq_str(&key, "Title:") {
                        if v.len() <= 200 {
                            title = Some(v);
                            seen_label = true;
                        } else {
                            proof {
                                lemma_task_scan_err(linesv, i as int, st_old, today, msg_title_long());
                            }
                            return Err(lit_string("Invalid Title. Maximum length is 200 characters"));
                        }
                    } else if eq_str(&key, "Status:") {
                        let sv = strip_pat_exec(&v, " (options:");
                        if sv.len() == 0 {
                            seen_label = true;
                        } else {
                            match status_value_chars(&sv) {
                                Some(b) => {
                                    completed = Some(b);
                                    seen_label = true;
                                },
                                None => {
                                    proof {
                                        lemma_task_scan_err(
                                            linesv,
                                            i as int,
                                            st_old,
                                            today,
                                            msg_invalid_status(),
                                        );
                                    }
                                    return Err(
                                        lit_string(
                                            "Invalid Status. Valid options: Pending|Completed",
                                        ),
                                    );
                                },
                            }
                        }
                    } else if eq_str(&key, "Priority:") {
                        let sv = strip_pat_exec(&v, " (options:");
                        if sv.len() == 0 {
                            seen_label = true;
                        } else {
                            match priority_value_chars(&sv) {
                                Some(p) => {
                                    priority = Some(p);
                                    seen_label = true;
                                },
                                None => {
                                    proof {
                                        lemma_task_scan_err(
                                            linesv,
                                            i as int,
                                            st_old,
                                            today,
                                            msg_invalid_priority(),
                                        );
                                    }
                                    return Err(
                                        lit_string("Invalid Priority. Valid options: High|Medium|Low"),
                                    );
                                },
                            }
                        }
                    } else if eq_str(&key, "Created:") {
                        if v.len() == 0 {
                            seen_label = true;
                        } else {
                            match parse_date(&v) {
                                Some(d) => {
                                    if date_le(&epoch, &d) && date_le(&d, &max_date) {
                                        created = Some(d);
                                        seen_label = true;
                                    } else {
                                        proof {
                                            lemma_task_scan_err(
                                                linesv,
                                                i as int,
                                                st_old,
                                                today,
                                                msg_created_invalid(),
                                            );
                                        }
                                        return Err(
                                            lit_string(
                                                "Invalid Created date. Use YYYY-MM-DD between 1970-01-01 and ten years from today",
                                            ),
                                        );
                                    }
                                },
                                None => {
                                    proof {
                                        lemma_task_scan_err(
                                            linesv,
                                            i as int,
                                            st_old,
                                            today,
                                            msg_created_invalid(),
                                        );
                                    }
                                    return Err(
                                        lit_string(
                                            "Invalid Created date. Use YYYY-MM-DD between 1970-01-01 and ten years from today",
                                        ),
                                    );
                                },
                            }
                        }
                    } else if eq_str(&key, "Due:") {
                        let lowv = lower_chars(&v);
                        if v.len() == 0 {
                            seen_label = true;
                        } else if eq_str(&lowv, "not set") {
                            due = Some(None);
                            seen_label = true;
                        } else {
                            match parse_date(&v) {
                                Some(d) => {
                                    if date_le(&epoch, &d) && date_le(&d, &max_date) {
                                        due = Some(Some(d));
                                        seen_label = true;
                                    } else {
                                        proof {
                                            lemma_task_scan_err(
                                                linesv,
                                                i as int,
                                                st_old,
                                                today,
                                                msg_due_invalid(),
                                            );
                                        }
                                        return Err(
                                            lit_string(
                                                "Invalid Due date. Use YYYY-MM-DD between 1970-01-01 and ten years from today",
                                            ),
                                        );
                                    }
                                },
                                None => {
                                    proof {
                                        lemma_task_scan_err(
                                            linesv,
                                            i as int,
                                            st_old,
                                            today,
                                            msg_due_invalid(),
                                        );
                                    }
                                    return Err(
                                        lit_string(
                                            "Invalid Due date. Use YYYY-MM-DD between 1970-01-01 and ten years from today",
                                        ),
                                    );
                                },
                            }
                        }
                    } else if eq_str(&key, "Reminder:") {
                        let sv = strip_pat_exec(&v, " (e.g.");
                        let lowsv = lower_chars(&sv);
                        if sv.len() == 0 {
                            seen_label = true;
                        } else if eq_str(&lowsv, "none") || eq_str(&lowsv, "not set") {
                            rem = Some(RemX::Cleared);
                            seen_label = true;
                        } else {
                            rem = Some(classify_reminder_exec(&sv, today, &max_date));
                            seen_label = true;
                        }
                    } else if eq_str(&key, "Repeat:") {
                        let sv = strip_pat_exec(&v, " (options:");
                        if sv.len() == 0 {
                            seen_label = true;
                        } else {
                            match validate_recurrence_chars(&sv, true) {
                                Ok(rec) => {
                                    recur = Some(rec);
                                    seen_label = true;
                                },
                                Err(e) => {
                                    proof {
                                        lemma_task_scan_err(linesv, i as int, st_old, today, e@);
                                    }
                                    return Err(e);
                                },
                            }
                        }
                    } else if eq_str(&key, "Description:") {
                        in_body = true;
                        seen_label = true;
                        body = Vec::new();
                        if v.len() > 0 {
                            let fb = trim_start_chars(&raw);
                            body.push(fb);
                            proof {
                                assert(body.deep_view() =~~= seq![trim_start_rec(raw@)]);
                            }
                        } else {
                            proof {
                                assert(body.deep_view() =~= Seq::<Seq<char>>::empty());
                            }
                        }
                    } else {
                        if !seen_label && title.is_none() {
                            if t.len() <= 200 {
                                title = Some(t);
                            } else {
                                proof {
                                    lemma_task_scan_err(
                                        linesv,
                                        i as int,
                                        st_old,
                                        today,
                                        msg_title_long(),
                                    );
                                }
                                return Err(
                                    lit_string("Invalid Title. Maximum length is 200 characters"),
                                );
                            }
                        }
                    }
                }
            }
        }
        proof {
            let st_new = TaskSt {
                title: ost(title),
                completed,
                priority,
                created,
                due,
                rem: remx_view(rem),
                recur,
                seen_label,
                in_body,
                body: body.deep_view(),
            };
            assert(task_step(st_old, linesv[i as int], today) == Ok::<TaskSt, Seq<char>>(st_new));
            assert(task_scan(linesv, i as int, st_old, today) == task_scan(
                linesv,
                i + 1,
                st_new,
                today,
            ));
        }
        i = i + 1;
    }
    let ghost st_fin = TaskSt {
        title: ost(title),
        completed,
        priority,
        created,
        due,
        rem: remx_view(rem),
        recur,
        seen_label,
        in_body,
        body: body.deep_view(),
    };
    proof {
        assert(task_scan(linesv, n as int, st_fin, today) == Ok::<TaskSt, Seq<char>>(st_fin));
    }
    let desc_chars: Vec<char> = if in_body {
        if body.len() > 0 && body[body.len() - 1].len() == 0 {
            proof {
                assert(body.deep_view().last().len() == 0);
            }
            let ghost pre = body.deep_view();
            body.pop();
            proof {
                assert(body.deep_view() =~~= pre.drop_last());
            }
        }
        let n2 = crate::text::join_text(&body);
        proof {
            assert(n2@ == body_text(st_fin.body));
        }
        if n2.len() > 10000 {
            return Err(lit_string("Invalid Description. Maximum length is 10000 characters"));
        }
        n2
    } else {
        match existing {
            Some(e) => chars_of(e.description.as_str()),
            None => Vec::new(),
        }
    };
    let title_chars: Vec<char> = match title {
        Some(tl) => {
            if tl.len() > 0 {
                tl
            } else {
                match existing {
                    Some(e) => chars_of(e.title.as_str()),
                    None => {
                        return Err(lit_string("Title is required"));
                    },
                }
            }
        },
        None => {
            match existing {
                Some(e) => chars_of(e.title.as_str()),
                None => {
                    return Err(lit_string("Title is required"));
                },
            }
        },
    };
    if title_chars.len() == 0 {
        return Err(lit_string("Title is required"));
    }
    let rem3: (Option<Date>, Option<Time>, Option<String>) = match rem {
        Some(RemX::Cleared) => (None, None, None),
        Some(RemX::At(d, tm)) => (Some(d), tm, None),
        Some(RemX::Text(s)) => (None, None, Some(string_from_chars(&s))),
        None => {
            match existing {
                Some(e) => (
                    e.reminder_date,
                    e.reminder_time,
                    match &e.reminder_text {
                        Some(s0) => {
                            let cv = chars_of(s0.as_str());
                            Some(string_from_chars(&cv))
                        },
                        None => None,
                    },
                ),
                None => (None, None, None),
            }
        },
    };
    let task = Task {
        title: string_from_chars(&title_chars),
        description: string_from_chars(&desc_chars),
        completed: match completed {
            Some(b) => b,
            None => match existing {
                Some(e) => e.completed,
                None => false,
            },
        },
        priority: match priority {
            Some(p) => p,
            None => match existing {
                Some(e) => e.priority,
                None => TaskPriority::Medium,
            },
        },
        due_date: match due {
            Some(x) => x,
            None => match existing {
                Some(e) => e.due_date,
                None => None,
            },
        },
        reminder_text: rem3.2,
        reminder_date: rem3.0,
        reminder_time: rem3.1,
        recurrence: match recur {
            Some(r0) => r0,
            None => match existing {
                Some(e) => e.recurrence,
                None => Recurrence::NoRepeat,
            },
        },
        created_at: match created {
            Some(d) => d,
            None => match existing {
                Some(e) => e.created_at,
                None => today,
            },
        },
    };
    proof {
        assert(task_finalize(st_fin, opt_task_view(existing), today) == Ok::<TaskV, Seq<char>>(
            task@,
        )) by {
            assert(task@ =~~= (match task_finalize(st_fin, opt_task_view(existing), today) {
                Ok(c) => c,
                Err(_) => task@,
            }));
        }
    }
    Ok(task)
}

proof fn lemma_task_scan_err(lines: Seq<Seq<char>>, i: int, st: TaskSt, today: Date, e: Seq<char>)
    requires
        0 <= i < lines.len(),
        task_step(st, lines[i], today) == Err::<TaskSt, Seq<char>>(e),
    ensures
        task_scan(lines, i, st, today) == Err::<TaskSt, Seq<char>>(e),
{
}

/// The text for a brand-new task, created today.
pub fn new_task_editor_template(today: Date) -> (r: String)
    requires
        today.wf(),
    ensures
        r@
            == "Title: \nStatus: Pending (options: Pending|Completed)\nPriority: Medium (options: High|Medium|Low)\nCreated: "@
            + spec_format_date(today)
            + "\nDue: Not set\nReminder: None (e.g. 2025-12-25 09:30)\nRepeat: none (options: none|daily|weekly|monthly|range YYYY-MM-DD to YYYY-MM-DD at HH:MM)\n\nDescription:\n"@,
{
    let mut out = chars_of(
        "Title: \nStatus: Pending (options: Pending|Completed)\nPriority: Medium (options: High|Medium|Low)\nCreated: ",
    );
    let d = format_date(&today);
    crate::num::push_all(&mut out, &d);
    crate::num::push_str(
        &mut out,
        "\nDue: Not set\nReminder: None (e.g. 2025-12-25 09:30)\nRepeat: none (options: none|daily|weekly|monthly|range YYYY-MM-DD to YYYY-MM-DD at HH:MM)\n\nDescription:\n",
    );
    proof {
        assert(out@
            =~= "Title: \nStatus: Pending (options: Pending|Completed)\nPriority: Medium (options: High|Medium|Low)\nCreated: "@
            + spec_format_date(today)
            + "\nDue: Not set\nReminder: None (e.g. 2025-12-25 09:30)\nRepeat: none (options: none|daily|weekly|monthly|range YYYY-MM-DD to YYYY-MM-DD at HH:MM)\n\nDescription:\n"@);
    }
    string_from_chars(&out)
}

fn status_label_chars(completed: bool) -> (r: Vec<char>)
    ensures
        r@ == spec_status_label(completed),
{
    if completed {
        chars_of("Completed")
    } else {
        chars_of("Pending")
    }
}

fn priority_label_chars(p: &TaskPriority) -> (r: Vec<char>)
    ensures
        r@ == spec_priority_label(*p),
{
    match p {
        TaskPriority::High => chars_of("High"),
        TaskPriority::Medium => chars_of("Medium"),
        TaskPriority::Low => chars_of("Low"),
    }
}

fn due_value_chars(task: &Task) -> (r: Vec<char>)
    requires
        (task.due_date matches Some(d) ==> d.wf()),
    ensures
        r@ == spec_due_value(task@),
{
    match &task.due_date {
        Some(d) => format_date(d),
        None => chars_of("Not set"),
    }
}

fn reminder_value_chars(task: &Task) -> (r: Vec<char>)
    requires
        (task.reminder_date matches Some(d) ==> d.wf()),
        (task.reminder_time matches Some(t) ==> t.wf()),
    ensures
        r@ == spec_reminder_value(task@),
{
    match (&task.reminder_date, &task.reminder_time, &task.reminder_text) {
        (Some(d), Some(t), _) => {
            let mut out = format_date(d);
            out.push(' ');
            let tt = format_time(t);
            crate::num::push_all(&mut out, &tt);
            proof {
                assert(out@ =~= spec_reminder_value(task@));
            }
            out
        },
        (Some(d), None, _) => format_date(d),
        (None, _, Some(s)) => chars_of(s.as_str()),
        (None, _, None) => chars_of("None"),
    }
}

/// Render a task into its editor text.
#[verifier::rlimit(100)]
#[verifier::spinoff_prover]
pub fn format_task_editor_content(task: &Task) -> (r: String)
    requires
        task.created_at.wf(),
        (task.due_date matches Some(d) ==> d.wf()),
        (task.reminder_date matches Some(d) ==> d.wf()),
        (task.reminder_time matches Some(t) ==> t.wf()),
        recurrence_wf(task.recurrence),
    ensures
        r@ == spec_format_task(task@),
{
    let mut out = chars_of("Title: ");
    let tc = chars_of(task.title.as_str());
    crate::num::push_all(&mut out, &tc);
    crate::num::push_str(&mut out, "\nStatus: ");
    let sc = status_label_chars(task.completed);
    crate::num::push_all(&mut out, &sc);
    crate::num::push_str(&mut out, "\nPriority: ");
    let pc = priority_label_chars(&task.priority);
    crate::num::push_all(&mut out, &pc);
    crate::num::push_str(&mut out, "\nCreated: ");
    let cd = format_date(&task.created_at);
    crate::num::push_all(&mut out, &cd);
    crate::num::push_str(&mut out, "\nDue: ");
    let dv = due_value_chars(task);
    crate::num::push_all(&mut out, &dv);
    crate::num::push_str(&mut out, "\nReminder: ");
    let rv = reminder_value_chars(task);
    crate::num::push_all(&mut out, &rv);
    crate::num::push_str(&mut out, "\nRepeat: ");
    let rc = recurrence_label_chars(&task.recurrence);
    crate::num::push_all(&mut out, &rc);
    crate::num::push_str(&mut out, "\n\nDescription:\n");
    let bc = chars_of(task.description.as_str());
    crate::num::push_all(&mut out, &bc);
    proof {
        reveal_strlit("Title: ");
        reveal_strlit("Title:");
        reveal_strlit("\nStatus: ");
        reveal_strlit("Status:");
        reveal_strlit("\nPriority: ");
        reveal_strlit("Priority:");
        reveal_strlit("\nCreated: ");
        reveal_strlit("Created:");
        reveal_strlit("\nDue: ");
        reveal_strlit("Due:");
        reveal_strlit("\nReminder: ");
        reveal_strlit("Reminder:");
        reveal_strlit("\nRepeat: ");
        reveal_strlit("Repeat:");
        reveal_strlit("\n\nDescription:\n");
        reveal_strlit("Description:");
        assert("Title: "@ =~= "Title:"@ + seq![' ']);
        assert("\nStatus: "@ =~= seq!['\n'] + "Status:"@ + seq![' ']);
        assert("\nPriority: "@ =~= seq!['\n'] + "Priority:"@ + seq![' ']);
        assert("\nCreated: "@ =~= seq!['\n'] + "Created:"@ + seq![' ']);
        assert("\nDue: "@ =~= seq!['\n'] + "Due:"@ + seq![' ']);
        assert("\nReminder: "@ =~= seq!['\n'] + "Reminder:"@ + seq![' ']);
        assert("\nRepeat: "@ =~= seq!['\n'] + "Repeat:"@ + seq![' ']);
        assert("\n\nDescription:\n"@ =~= seq!['\n'] + seq!['\n'] + "Description:"@
            + seq!['\n']);
        assert(out@ =~= spec_format_task(task@));
    }
    string_from_chars(&out)
}

// ---------------------------------------------------------------------------
// The round trip
// ---------------------------------------------------------------------------

/// The rendering of a task, line by line.
pub open spec fn task_format_lines(c: TaskV) -> Seq<Seq<char>> {
    seq![
        label_line("Title:"@, c.title),
        label_line("Status:"@, spec_status_label(c.completed)),
        label_line("Priority:"@, spec_priority_label(c.priority)),
        label_line("Created:"@, spec_format_date(c.created_at)),
        label_line("Due:"@, spec_due_value(c)),
        label_line("Reminder:"@, spec_reminder_value(c)),
        label_line("Repeat:"@, spec_recurrence_label(c.recurrence)),
        Seq::<char>::empty(),
        "Description:"@,
    ]
}

#[verifier::rlimit(100)]
#[verifier::spinoff_prover]
proof fn lemma_task_format_split_tail(c: TaskV, today: Date)
    requires
        task_wf(c, today),
    ensures
        lines_of(
            label_line("Due:"@, spec_due_value(c)) + seq!['\n'] + (label_line(
                "Reminder:"@,
                spec_reminder_value(c),
            ) + seq!['\n'] + (label_line("Repeat:"@, spec_recurrence_label(c.recurrence))
                + seq!['\n'] + (Seq::<char>::empty() + seq!['\n'] + ("Description:"@
                + seq!['\n'] + c.description)))),
        ) == seq![
            label_line("Due:"@, spec_due_value(c)),
            label_line("Reminder:"@, spec_reminder_value(c)),
            label_line("Repeat:"@, spec_recurrence_label(c.recurrence)),
            Seq::<char>::empty(),
            "Description:"@,
        ] + lines_of(c.description),
{
    reveal_strlit("Due:");
    reveal_strlit("Reminder:");
    reveal_strlit("Repeat:");
    reveal_strlit("Description:");
    let uv = spec_due_value(c);
    let rv = spec_reminder_value(c);
    let ev = spec_recurrence_label(c.recurrence);
    lemma_due_value(c, today);
    lemma_reminder_value(c, today);
    lemma_recurrence_label_round_trip(c.recurrence);
    let l4 = label_line("Due:"@, uv);
    let l5 = label_line("Reminder:"@, rv);
    let l6 = label_line("Repeat:"@, ev);
    let bl = "Description:"@;
    assert(no_newline(l4));
    assert(no_newline(l5));
    assert(no_newline(l6));
    assert(no_newline(Seq::<char>::empty()));
    assert(no_newline(bl));
    let rest7 = bl + seq!['\n'] + c.description;
    let rest6 = Seq::<char>::empty() + seq!['\n'] + rest7;
    let rest5 = l6 + seq!['\n'] + rest6;
    let rest4 = l5 + seq!['\n'] + rest5;
    crate::codec::lemma_lines_cons(bl, c.description);
    crate::codec::lemma_lines_cons(Seq::<char>::empty(), rest7);
    crate::codec::lemma_lines_cons(l6, rest6);
    crate::codec::lemma_lines_cons(l5, rest5);
    crate::codec::lemma_lines_cons(l4, rest4);
    assert(lines_of(l4 + seq!['\n'] + rest4) =~~= seq![l4, l5, l6, Seq::<char>::empty(), bl]
        + lines_of(c.description));
}

#[verifier::rlimit(100)]
#[verifier::spinoff_prover]
proof fn lemma_task_format_split(c: TaskV, today: Date)
    requires
        task_wf(c, today),
    ensures
        lines_of(spec_format_task(c)) =~~= task_format_lines(c) + lines_of(c.description),
{
    reveal_strlit("Title:");
    reveal_strlit("Status:");
    reveal_strlit("Priority:");
    reveal_strlit("Created:");
    let sv = spec_status_label(c.completed);
    let pv = spec_priority_label(c.priority);
    let cv = spec_format_date(c.created_at);
    lemma_status_label_value(c.completed);
    lemma_priority_label_value(c.priority);
    lemma_format_date_chars(c.created_at);
    let l0 = label_line("Title:"@, c.title);
    let l1 = label_line("Status:"@, sv);
    let l2 = label_line("Priority:"@, pv);
    let l3 = label_line("Created:"@, cv);
    let l4 = label_line("Due:"@, spec_due_value(c));
    let l5 = label_line("Reminder:"@, spec_reminder_value(c));
    let l6 = label_line("Repeat:"@, spec_recurrence_label(c.recurrence));
    let bl = "Description:"@;
    assert(no_newline(l0));
    assert(no_newline(l1));
    assert(no_newline(l2));
    assert(no_newline(l3));
    let rest7 = bl + seq!['\n'] + c.description;
    let rest6 = Seq::<char>::empty() + seq!['\n'] + rest7;
    let rest5 = l6 + seq!['\n'] + rest6;
    let rest4 = l5 + seq!['\n'] + rest5;
    let rest3 = l4 + seq!['\n'] + rest4;
    let rest2 = l3 + seq!['\n'] + rest3;
    let rest1 = l2 + seq!['\n'] + rest2;
    let rest0 = l1 + seq!['\n'] + rest1;
    lemma_task_format_split_tail(c, today);
    assert(lines_of(rest3) == seq![l4, l5, l6, Seq::<char>::empty(), bl] + lines_of(
        c.description,
    ));
    crate::codec::lemma_lines_cons(l3, rest3);
    crate::codec::lemma_lines_cons(l2, rest2);
    crate::codec::lemma_lines_cons(l1, rest1);
    crate::codec::lemma_lines_cons(l0, rest0);
    assert(spec_format_task(c) =~= l0 + seq!['\n'] + rest0);
    assert(lines_of(spec_format_task(c)) =~~= task_format_lines(c) + lines_of(c.description));
}

/// The scanner state after the five head lines.
pub open spec fn task_mid_st(c: TaskV) -> TaskSt {
    TaskSt {
        title: Some(c.title),
        completed: Some(c.completed),
        priority: Some(c.priority),
        created: Some(c.created_at),
        due: Some(c.due_date),
        rem: None,
        recur: None,
        seen_label: true,
        in_body: false,
        body: Seq::empty(),
    }
}

/// The scanner state after the whole rendering.
pub open spec fn task_fin_st(c: TaskV) -> TaskSt {
    TaskSt {
        title: Some(c.title),
        completed: Some(c.completed),
        priority: Some(c.priority),
        created: Some(c.created_at),
        due: Some(c.due_date),
        rem: Some(
            match (c.reminder_date, c.reminder_time, c.reminder_text) {
                (Some(d), t, _) => RemV::At(d, t),
                (None, _, Some(s)) => RemV::Text(s),
                (None, _, None) => RemV::Cleared,
            },
        ),
        recur: Some(c.recurrence),
        seen_label: true,
        in_body: true,
        body: lines_of(c.description),
    }
}

#[verifier::rlimit(100)]
proof fn lemma_task_scan_front(c: TaskV, today: Date, lines: Seq<Seq<char>>)
    requires
        task_wf(c, today),
        lines == task_format_lines(c) + lines_of(c.description),
    ensures
        task_scan(lines, 0, task_init(), today) == task_scan(lines, 5, task_mid_st(c), today),
{
    reveal_strlit("Title:");
    reveal_strlit("Status:");
    reveal_strlit("Priority:");
    reveal_strlit("Created:");
    reveal_strlit("Due:");
    reveal_strlit("Reminder:");
    reveal_strlit("Repeat:");
    reveal_strlit("Description:");
    reveal_strlit(" (options:");
    reveal_strlit("Not set");
    reveal_strlit("not set");
    let sv = spec_status_label(c.completed);
    let pv = spec_priority_label(c.priority);
    let cv = spec_format_date(c.created_at);
    let uv = spec_due_value(c);
    lemma_status_label_value(c.completed);
    lemma_priority_label_value(c.priority);
    lemma_format_date_chars(c.created_at);
    lemma_date_round_trip(c.created_at);
    lemma_trim_noop(cv);
    lemma_due_value(c, today);
    lemma_strip_pat_id(sv, " (options:"@, 1);
    lemma_strip_pat_id(pv, " (options:"@, 1);
    let l0 = label_line("Title:"@, c.title);
    let l1 = label_line("Status:"@, sv);
    let l2 = label_line("Priority:"@, pv);
    let l3 = label_line("Created:"@, cv);
    let l4 = label_line("Due:"@, uv);
    assert(lines[0] == l0);
    assert(lines[1] == l1);
    assert(lines[2] == l2);
    assert(lines[3] == l3);
    assert(lines[4] == l4);
    let st0 = task_init();
    lemma_label_line("Title:"@, c.title);
    let st1 = TaskSt { title: Some(c.title), seen_label: true, ..st0 };
    assert(task_step(st0, l0, today) == Ok::<TaskSt, Seq<char>>(st1));
    lemma_label_line("Status:"@, sv);
    let st2 = TaskSt { completed: Some(c.completed), ..st1 };
    assert(task_step(st1, l1, today) == Ok::<TaskSt, Seq<char>>(st2));
    lemma_label_line("Priority:"@, pv);
    let st3 = TaskSt { priority: Some(c.priority), ..st2 };
    assert(task_step(st2, l2, today) == Ok::<TaskSt, Seq<char>>(st3));
    lemma_label_line("Created:"@, cv);
    let st4 = TaskSt { created: Some(c.created_at), ..st3 };
    assert(task_step(st3, l3, today) == Ok::<TaskSt, Seq<char>>(st4));
    lemma_label_line("Due:"@, uv);
    let st5 = TaskSt { due: Some(c.due_date), ..st4 };
    assert(task_step(st4, l4, today) == Ok::<TaskSt, Seq<char>>(st5));
    assert(st5 =~= task_mid_st(c));
    assert(task_scan(lines, 0, st0, today) == task_scan(lines, 1, st1, today));
    assert(task_scan(lines, 1, st1, today) == task_scan(lines, 2, st2, today));
    assert(task_scan(lines, 2, st2, today) == task_scan(lines, 3, st3, today));
    assert(task_scan(lines, 3, st3, today) == task_scan(lines, 4, st4, today));
    assert(task_scan(lines, 4, st4, today) == task_scan(lines, 5, st5, today));
}

#[verifier::rlimit(100)]
proof fn lemma_task_scan_back(c: TaskV, today: Date, lines: Seq<Seq<char>>)
    requires
        task_wf(c, today),
        lines == task_format_lines(c) + lines_of(c.description),
    ensures
        task_scan(lines, 5, task_mid_st(c), today) == Ok::<TaskSt, Seq<char>>(task_fin_st(c)),
{
    reveal_strlit("Title:");
    reveal_strlit("Status:");
    reveal_strlit("Priority:");
    reveal_strlit("Created:");
    reveal_strlit("Due:");
    reveal_strlit("Reminder:");
    reveal_strlit("Repeat:");
    reveal_strlit("Description:");
    reveal_strlit(" (options:");
    reveal_strlit(" (e.g.");
    reveal_strlit("None");
    reveal_strlit("none");
    reveal_strlit("not set");
    let rv = spec_reminder_value(c);
    let ev = spec_recurrence_label(c.recurrence);
    lemma_reminder_value(c, today);
    lemma_recurrence_label_round_trip(c.recurrence);
    lemma_strip_pat_id(rv, " (e.g."@, 1);
    lemma_strip_pat_id(ev, " (options:"@, 1);
    let l5 = label_line("Reminder:"@, rv);
    let l6 = label_line("Repeat:"@, ev);
    let bl = "Description:"@;
    assert(lines[5] == l5);
    assert(lines[6] == l6);
    assert(lines[7] == Seq::<char>::empty());
    assert(lines[8] == bl);
    assert(lines.skip(9) =~~= lines_of(c.description));
    let st5 = task_mid_st(c);
    lemma_label_line("Reminder:"@, rv);
    let st6 = TaskSt {
        rem: Some(
            match (c.reminder_date, c.reminder_time, c.reminder_text) {
                (Some(d), t, _) => RemV::At(d, t),
                (None, _, Some(s)) => RemV::Text(s),
                (None, _, None) => RemV::Cleared,
            },
        ),
        ..st5
    };
    assert(task_step(st5, l5, today) == Ok::<TaskSt, Seq<char>>(st6));
    lemma_label_line("Repeat:"@, ev);
    let st7 = TaskSt { recur: Some(c.recurrence), ..st6 };
    assert(task_step(st6, l6, today) == Ok::<TaskSt, Seq<char>>(st7));
    assert(task_step(st7, Seq::<char>::empty(), today) == Ok::<TaskSt, Seq<char>>(st7)) by {
        assert(trim_spec(Seq::<char>::empty()) =~= Seq::<char>::empty());
    }
    lemma_label_only(bl);
    let st8 = TaskSt { in_body: true, body: Seq::empty(), ..st7 };
    assert(task_step(st7, bl, today) == Ok::<TaskSt, Seq<char>>(st8));
    lemma_task_scan_body(lines, 9, st8, today);
    assert(st8.body + lines.skip(9) =~~= lines_of(c.description));
    assert(task_scan(lines, 9, st8, today) == Ok::<TaskSt, Seq<char>>(task_fin_st(c))) by {
        assert(TaskSt { body: st8.body + lines.skip(9), ..st8 } =~= task_fin_st(c));
    }
    assert(task_scan(lines, 8, st7, today) == Ok::<TaskSt, Seq<char>>(task_fin_st(c)));
    assert(task_scan(lines, 7, st7, today) == Ok::<TaskSt, Seq<char>>(task_fin_st(c)));
    assert(task_scan(lines, 6, st6, today) == Ok::<TaskSt, Seq<char>>(task_fin_st(c)));
    assert(task_scan(lines, 5, st5, today) == Ok::<TaskSt, Seq<char>>(task_fin_st(c)));
}

/// Parsing the rendering of a well-formed task against itself yields the
/// task unchanged.
#[verifier::rlimit(100)]
pub proof fn lemma_task_round_trip(c: TaskV, today: Date)
    requires
        task_wf(c, today),
    ensures
        spec_parse_task(spec_format_task(c), Some(c), today) == Ok::<TaskV, Seq<char>>(c),
{
    lemma_task_format_split(c, today);
    let text = spec_format_task(c);
    let lines = lines_of(text);
    assert(lines == task_format_lines(c) + lines_of(c.description));
    lemma_task_scan_front(c, today, lines);
    lemma_task_scan_back(c, today, lines);
    assert(task_scan(lines, 0, task_init(), today) == Ok::<TaskSt, Seq<char>>(task_fin_st(c)));
    lemma_body_text_lines(c.description);
    assert(task_finalize(task_fin_st(c), Some(c), today) == Ok::<TaskV, Seq<char>>(c)) by {
        assert((match task_finalize(task_fin_st(c), Some(c), today) {
            Ok(x) => x,
            Err(_) => c,
        }) =~~= c);
    }
}

/// The due value written by the formatter is a plain value that the
/// `Due:` step reads back as the task's due date.
proof fn lemma_due_value(c: TaskV, today: Date)
    requires
        task_wf(c, today),
    ensures
        plain_value(spec_due_value(c)),
        ({
            let uv = spec_due_value(c);
            match c.due_date {
                Some(d) => lower_seq(uv) != "not set"@ && spec_parse_date(uv) == Some(d)
                    && in_ten_year_window(d, today),
                None => lower_seq(uv) == "not set"@,
            }
        }),
{
    reveal_strlit("Not set");
    reveal_strlit("not set");
    let uv = spec_due_value(c);
    match c.due_date {
        Some(d) => {
            lemma_format_date_chars(d);
            lemma_date_round_trip(d);
            lemma_trim_noop(uv);
            assert(lower_seq(uv) != "not set"@) by {
                assert(uv.len() == 10);
                assert(lower_seq(uv).len() == 10);
            }
        },
        None => {
            assert(lower_seq(uv) =~= "not set"@);
            lemma_trim_noop(uv);
        },
    }
}

/// The reminder value written by the formatter is a plain value that the
/// `Reminder:` step reads back as the task's reminder.
proof fn lemma_reminder_value(c: TaskV, today: Date)
    requires
        task_wf(c, today),
    ensures
        plain_value(spec_reminder_value(c)),
        ({
            let rv = spec_reminder_value(c);
            match (c.reminder_date, c.reminder_time, c.reminder_text) {
                (Some(d), t, _) => lower_seq(rv) != "none"@ && lower_seq(rv) != "not set"@
                    && classify_reminder(rv, today) == RemV::At(d, t),
                (None, _, Some(s)) => lower_seq(rv) != "none"@ && lower_seq(rv) != "not set"@
                    && classify_reminder(rv, today) == RemV::Text(s),
                (None, _, None) => lower_seq(rv) == "none"@,
            }
        }),
{
    reveal_strlit("None");
    reveal_strlit("none");
    reveal_strlit("not set");
    let rv = spec_reminder_value(c);
    match (c.reminder_date, c.reminder_time, c.reminder_text) {
        (Some(d), Some(t), _) => {
            lemma_format_date_chars(d);
            lemma_format_time_chars(t);
            lemma_date_round_trip(d);
            lemma_time_round_trip(t);
            let fd = spec_format_date(d);
            let ft = spec_format_time(t);
            assert(rv =~= fd + seq![' '] + ft);
            lemma_trim_noop(rv);
            assert(lower_seq(rv) != "none"@) by {
                assert(lower_seq(rv).len() == 16);
            }
            assert(lower_seq(rv) != "not set"@) by {
                assert(lower_seq(rv).len() == 16);
            }
            assert(rv[10] == ' ');
            assert(forall|k: int| 0 <= k < 10 ==> rv[k] != ' ');
            lemma_find_from_is(rv, ' ', 0, 10);
            assert(find_char(rv, ' ') == 10);
            assert(rv.take(10) =~= fd);
            assert(rv.skip(10) =~= seq![' '] + ft);
            lemma_trim_noop(ft);
            crate::text::lemma_trim_space_prefix(ft);
            assert(classify_reminder(rv, today) == RemV::At(d, Some(t)));
        },
        (Some(d), None, _) => {
            lemma_format_date_chars(d);
            lemma_date_round_trip(d);
            assert(rv =~= spec_format_date(d));
            lemma_trim_noop(rv);
            assert(lower_seq(rv) != "none"@) by {
                assert(lower_seq(rv).len() == 10);
            }
            assert(lower_seq(rv) != "not set"@) by {
                assert(lower_seq(rv).len() == 10);
            }
            assert(forall|k: int| 0 <= k < 10 ==> rv[k] != ' ');
            lemma_find_from_is(rv, ' ', 0, 10);
            assert(find_char(rv, ' ') == 10);
            assert(rv.take(10) =~= rv);
            assert(rv.skip(10) =~= Seq::<char>::empty());
            assert(trim_spec(Seq::<char>::empty()) =~= Seq::<char>::empty());
            assert(classify_reminder(rv, today) == RemV::At(d, None));
        },
        (None, _, Some(s)) => {
            assert(rv == s);
        },
        (None, _, None) => {
            assert(rv =~= "None"@);
            assert(lower_seq(rv) =~= "none"@);
            lemma_trim_noop(rv);
        },
    }
}

proof fn lemma_task_scan_body(lines: Seq<Seq<char>>, i: int, st: TaskSt, today: Date)
    requires
        0 <= i <= lines.len(),
        st.in_body,
    ensures
        task_scan(lines, i, st, today) == Ok::<TaskSt, Seq<char>>(
            TaskSt { body: st.body + lines.skip(i), ..st },
        ),
    decreases lines.len() - i,
{
    if i == lines.len() {
        assert(st.body + lines.skip(i) =~~= st.body);
        assert(TaskSt { body: st.body + lines.skip(i), ..st } =~= st);
    } else {
        let st2 = TaskSt { body: st.body.push(lines[i]), ..st };
        lemma_task_scan_body(lines, i + 1, st2, today);
        assert(st2.body + lines.skip(i + 1) =~~= st.body + lines.skip(i));
        assert(TaskSt { body: st2.body + lines.skip(i + 1), ..st2 } =~= TaskSt {
            body: st.body + lines.skip(i),
            ..st
        });
    }
}

/// Parse and validate in one step: the task editor's commit path.
pub fn parse_and_validate_task(input: &str, existing: Option<&Task>, today: Date) -> (r: Result<
    Task,
    String,
>)
    requires
        today.wf(),
    ensures
        r matches Ok(c) ==> spec_parse_task(input@, opt_task_view(existing), today) == Ok::<
            TaskV,
            Seq<char>,
        >(c@),
        r matches Err(e) ==> spec_parse_task(input@, opt_task_view(existing), today) == Err::<
            TaskV,
            Seq<char>,
        >(e@),
{
    parse_task_editor_content(input, existing, today)
}

} // verus!
