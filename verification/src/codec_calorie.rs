//! The calorie entry editor: `Meal:`, `Calories:` and `Date:` lines and
//! a free-text `Notes:` body. Calorie counts are whole numbers of at
//! most 50,000; dates must lie between the epoch and ten years from
//! today.

use vstd::prelude::*;
use crate::codec::{
    body_text, label_line, label_ok, lemma_body_text_lines, lemma_label_line, lemma_label_only,
    lemma_trim_noop,
};
use crate::date::{
    date_le, format_date, lemma_date_round_trip, lemma_format_date_chars, parse_date, spec_add_days,
    spec_date_le, spec_epoch, spec_format_date, spec_parse_date, Date,
};
use crate::model::{body_ok, single_line, CalorieEntry, CalorieV};
use crate::codec_finance::date_in_window;
use crate::num::is_digit;
use crate::text::{
    chars_of, eq_str, find_char, find_char_exec, lines_of, lit_string, no_newline, split_lines,
    string_from_chars, sub_chars, trim_chars, trim_spec, trim_start_chars, trim_start_rec,
};
use crate::validate::{
    lemma_calories_round_trip, parse_calories_chars, spec_parse_calories, MAX_CALORIES,
};

verus! {

pub open spec fn msg_meal_long() -> Seq<char> {
    "Invalid Meal. Maximum length is 200 characters"@
}

pub open spec fn msg_meal_required() -> Seq<char> {
    "Meal is required"@
}

pub open spec fn msg_calories_invalid() -> Seq<char> {
    "Invalid Calories. Use a whole number up to 50000"@
}

pub open spec fn msg_calories_required() -> Seq<char> {
    "Calories is required"@
}

pub open spec fn msg_date_invalid() -> Seq<char> {
    "Invalid Date. Use YYYY-MM-DD between 1970-01-01 and ten years from today"@
}

pub open spec fn msg_notes_long() -> Seq<char> {
    "Invalid Notes. Maximum length is 10000 characters"@
}

#[verifier::ext_equal]
pub struct CalSt {
    pub meal: Option<Seq<char>>,
    pub calories: Option<u32>,
    pub date: Option<Date>,
    pub seen_label: bool,
    pub in_body: bool,
    pub body: Seq<Seq<char>>,
}

pub open spec fn cal_init() -> CalSt {
    CalSt {
        meal: None,
        calories: None,
        date: None,
        seen_label: false,
        in_body: false,
        body: Seq::empty(),
    }
}

pub open spec fn cal_fallback(st: CalSt, t: Seq<char>) -> Result<CalSt, Seq<char>> {
    if !st.seen_label && st.meal is None {
        if t.len() <= 200 {
            Ok(CalSt { meal: Some(t), ..st })
        } else {
            Err(msg_meal_long())
        }
    } else {
        Ok(st)
    }
}

pub open spec fn cal_step(st: CalSt, line: Seq<char>, today: Date) -> Result<CalSt, Seq<char>> {
    if st.in_body {
        Ok(CalSt { body: st.body.push(line), ..st })
    } else {
        let t = trim_spec(line);
        if t.len() == 0 {
            Ok(st)
        } else {
            let j = find_char(t, ':');
            if j == t.len() {
                cal_fallback(st, t)
            } else {
                let key = t.take(j + 1);
                let raw = t.skip(j + 1);
                let v = trim_spec(raw);
                if key == "Meal:"@ {
                    if v.len() <= 200 {
                        Ok(CalSt { meal: Some(v), seen_label: true, ..st })
                    } else {
                        Err(msg_meal_long())
                    }
                } else if key == "Calories:"@ {
                    if v.len() == 0 {
                        Ok(CalSt { seen_label: true, ..st })
                    } else {
                        match spec_parse_calories(v) {
                            Some(kcal) => Ok(
                                CalSt { calories: Some(kcal), seen_label: true, ..st },
                            ),
                            None => Err(msg_calories_invalid()),
                        }
                    }
                } else if key == "Date:"@ {
                    if v.len() == 0 {
                        Ok(CalSt { seen_label: true, ..st })
                    } else {
                        match spec_parse_date(v) {
                            Some(d) => if date_in_window(d, today) {
                                Ok(CalSt { date: Some(d), seen_label: true, ..st })
                            } else {
                                Err(msg_date_invalid())
                            },
                            None => Err(msg_date_invalid()),
                        }
                    }
                } else if key == "Notes:"@ {
                    Ok(
                        CalSt {
                            seen_label: true,
                            in_body: true,
                            body: if v.len() > 0 {
                                seq![trim_start_rec(raw)]
                            } else {
                                Seq::empty()
                            },
                            ..st
                        },
                    )
                } else {
                    cal_fallback(st, t)
                }
            }
        }
    }
}

pub open spec fn cal_scan(lines: Seq<Seq<char>>, i: int, st: CalSt, today: Date) -> Result<
    CalSt,
    Seq<char>,
>
    decreases lines.len() - i,
{
    if i < 0 || i >= lines.len() {
        Ok(st)
    } else {
        match cal_step(st, lines[i], today) {
            Ok(s2) => cal_scan(lines, i + 1, s2, today),
            Err(e) => Err(e),
        }
    }
}

pub open spec fn cal_finalize(
    st: CalSt,
    existing: Option<CalorieV>,
    default_date: Date,
) -> Result<CalorieV, Seq<char>> {
    let note_r: Result<Seq<char>, Seq<char>> = if st.in_body {
        if body_text(st.body).len() <= 10000 {
            Ok(body_text(st.body))
        } else {
            Err(msg_notes_long())
        }
    } else {
        match existing {
            Some(e) => Ok(e.note),
            None => Ok(Seq::empty()),
        }
    };
    match note_r {
        Err(e) => Err(e),
        Ok(note) => {
            let meal_opt: Option<Seq<char>> = match st.meal {
                Some(c) => if c.len() > 0 {
                    Some(c)
                } else {
                    match existing {
                        Some(e) => Some(e.meal),
                        None => None,
                    }
                },
                None => match existing {
                    Some(e) => Some(e.meal),
                    None => None,
                },
            };
            match meal_opt {
                None => Err(msg_meal_required()),
                Some(meal) => if meal.len() == 0 {
                    Err(msg_meal_required())
                } else {
                    let calories_opt: Option<u32> = match st.calories {
                        Some(a) => Some(a),
                        None => match existing {
                            Some(e) => Some(e.calories),
                            None => None,
                        },
                    };
                    match calories_opt {
                        None => Err(msg_calories_required()),
                        Some(calories) => Ok(
                            CalorieV {
                                date: match st.date {
                                    Some(d) => d,
                                    None => match existing {
                                        Some(e) => e.date,
                                        None => default_date,
                                    },
                                },
                                meal,
                                note,
                                calories,
                            },
                        ),
                    }
                },
            }
        },
    }
}

pub open spec fn spec_parse_calorie(
    text: Seq<char>,
    existing: Option<CalorieV>,
    default_date: Date,
    today: Date,
) -> Result<CalorieV, Seq<char>> {
    match cal_scan(lines_of(text), 0, cal_init(), today) {
        Ok(st) => cal_finalize(st, existing, default_date),
        Err(e) => Err(e),
    }
}

pub open spec fn spec_format_calorie(c: CalorieV) -> Seq<char> {
    label_line("Meal:"@, c.meal) + seq!['\n'] + label_line(
        "Calories:"@,
        crate::num::dec_rep(c.calories as nat),
    ) + seq!['\n'] + label_line("Date:"@, spec_format_date(c.date)) + seq!['\n'] + "Notes:"@
        + seq!['\n'] + c.note
}

/// An entry the editor can faithfully show and read back, relative to
/// `today`'s validation window.
pub open spec fn calorie_wf(c: CalorieV, today: Date) -> bool {
    &&& single_line(c.meal)
    &&& 1 <= c.meal.len() <= 200
    &&& body_ok(c.note, 10000)
    &&& c.date.wf()
    &&& date_in_window(c.date, today)
    &&& c.calories <= MAX_CALORIES
}

// ---------------------------------------------------------------------------
// Executable codec
// ---------------------------------------------------------------------------

pub open spec fn opt_cal_view(o: Option<&CalorieEntry>) -> Option<CalorieV> {
    match o {
        Some(c) => Some(c@),
        None => None,
    }
}

spec fn ost(o: Option<Vec<char>>) -> Option<Seq<char>> {
    match o {
        Some(v) => Some(v@),
        None => None,
    }
}

/// Parse the calorie editor text against an optional existing entry.
/// `default_date` fills the date of a new entry whose `Date:` is blank.
pub fn parse_calorie_editor_content(
    input: &str,
    existing: Option<&CalorieEntry>,
    default_date: Date,
    today: Date,
) -> (r: Result<CalorieEntry, String>)
    requires
        today.wf(),
    ensures
        r matches Ok(c) ==> spec_parse_calorie(input@, opt_cal_view(existing), default_date, today)
            == Ok::<CalorieV, Seq<char>>(c@),
        r matches Err(e) ==> spec_parse_calorie(
            input@,
            opt_cal_view(existing),
            default_date,
            today,
        ) == Err::<CalorieV, Seq<char>>(e@),
{
    let chars = chars_of(input);
    let lines = split_lines(&chars);
    let ghost linesv = lines_of(input@);
    let max_date = crate::date::add_days(&today, 3650);
    let epoch = crate::date::epoch_date();
    let mut meal: Option<Vec<char>> = None;
    let mut calories: Option<u32> = None;
    let mut date: Option<Date> = None;
    let mut seen_label: bool = false;
    let mut in_body: bool = false;
    let mut body: Vec<Vec<char>> = Vec::new();
    let n = lines.len();
    let mut i: usize = 0;
    proof {
        assert(CalSt {
            meal: ost(meal),
            calories,
            date,
            seen_label,
            in_body,
            body: body.deep_view(),
        } =~= cal_init());
    }
    while i < n
        invariant
            i <= n,
            n == lines@.len(),
            lines.deep_view() == linesv,
            linesv == lines_of(input@),
            max_date == spec_add_days(today, 3650),
            epoch == spec_epoch(),
            cal_scan(linesv, 0, cal_init(), today) == cal_scan(
                linesv,
                i as int,
                CalSt {
                    meal: ost(meal),
                    calories,
                    date,
                    seen_label,
                    in_body,
                    body: body.deep_view(),
                },
                today,
            ),
        decreases n - i,
    {
        let ghost st_old = CalSt {
            meal: ost(meal),
            calories,
            date,
            seen_label,
            in_body,
            body: body.deep_view(),
        };
        let line = &lines[i];
        proof {
            assert(line@ == linesv[i as int]);
        }
        if in_body {
            let copy = sub_chars(line, 0, line.len());
            let ghost old_body = body.deep_view();
            proof {
                assert(copy@ =~= line@);
            }
            body.push(copy);
            proof {
                assert(body.deep_view() =~~= old_body.push(line@));
            }
        } else {
            let t = trim_chars(line);
            if t.len() == 0 {
            } else {
                let j = find_char_exec(&t, ':');
                proof {
                    crate::text::lemma_find_from(t@, ':', 0);
                }
                if j == t.len() {
                    if !seen_label && meal.is_none() {
                        if t.len() <= 200 {
                            meal = Some(t);
                        } else {
                            proof {
                                lemma_cal_scan_err(
                                    linesv,
                                    i as int,
                                    st_old,
                                    today,
                                    msg_meal_long(),
                                );
                            }
                            return Err(
                                lit_string("Invalid Meal. Maximum length is 200 characters"),
                            );
                        }
                    }
                } else {
                    let key = sub_chars(&t, 0, j + 1);
                    let raw = sub_chars(&t, j + 1, t.len());
                    let v = trim_chars(&raw);
                    proof {
                        assert(key@ =~= t@.take(j as int + 1));
                        assert(raw@ =~= t@.skip(j as int + 1));
                    }
                    if eq_str(&key, "Meal:") {
                        if v.len() <= 200 {
                            meal = Some(v);
                            seen_label = true;
                        } else {
                            proof {
                                lemma_cal_scan_err(
                                    linesv,
                                    i as int,
                                    st_old,
                                    today,
                                    msg_meal_long(),
                                );
                            }
                            return Err(
                                lit_string("Invalid Meal. Maximum length is 200 characters"),
                            );
                        }
                    } else if eq_str(&key, "Calories:") {
                        if v.len() == 0 {
                            seen_label = true;
                        } else {
                            match parse_calories_chars(&v) {
                                Some(kcal) => {
                                    calories = Some(kcal);
                                    seen_label = true;
                                },
                                None => {
                                    proof {
                                        lemma_cal_scan_err(
                                            linesv,
                                            i as int,
                                            st_old,
                                            today,
                                            msg_calories_invalid(),
                                        );
                                    }
                                    return Err(
                                        lit_string(
                                            "Invalid Calories. Use a whole number up to 50000",
                                        ),
                                    );
                                },
                            }
                        }
                    } else if eq_str(&key, "Date:") {
                        if v.len() == 0 {
                            seen_label = true;
                        } else {
                            match parse_date(&v) {
                                Some(d) => {
                                    if date_le(&epoch, &d) && date_le(&d, &max_date) {
                                        date = Some(d);
                                        seen_label = true;
                                    } else {
                                        proof {
                                            lemma_cal_scan_err(
                                                linesv,
                                                i as int,
                                                st_old,
                                                today,
                                                msg_date_invalid(),
                                            );
                                        }
                                        return Err(
                                            lit_string(
                                                "Invalid Date. Use YYYY-MM-DD between 1970-01-01 and ten years from today",
                                            ),
                                        );
                                    }
                                },
                                None => {
                                    proof {
                                        lemma_cal_scan_err(
                                            linesv,
                                            i as int,
                                            st_old,
                                            today,
                                            msg_date_invalid(),
                                        );
                                    }
                                    return Err(
                                        lit_string(
                                            "Invalid Date. Use YYYY-MM-DD between 1970-01-01 and ten years from today",
                                        ),
                                    );
                                },
                            }
                        }
                    } else if eq_str(&key, "Notes:") {
                        in_body = true;
                        seen_label = true;
                        body = Vec::new();
                        if v.len() > 0 {
                            let fb = trim_start_chars(&raw);
                            body.push(fb);
                            proof {
                                assert(body.deep_view() =~~= seq![trim_start_rec(raw@)]);
                            }
                        } else {
                            proof {
                                assert(body.deep_view() =~= Seq::<Seq<char>>::empty());
                            }
                        }
                    } else {
                        if !seen_label && meal.is_none() {
                            if t.len() <= 200 {
                                meal = Some(t);
                            } else {
                                proof {
                                    lemma_cal_scan_err(
                                        linesv,
                                        i as int,
                                        st_old,
                                        today,
                                        msg_meal_long(),
                                    );
                                }
                                return Err(
                                    lit_string(
                                        "Invalid Meal. Maximum length is 200 characters",
                                    ),
                                );
                            }
                        }
                    }
                }
            }
        }
        proof {
            let st_new = CalSt {
                meal: ost(meal),
                calories,
                date,
                seen_label,
                in_body,
                body: body.deep_view(),
            };
            assert(cal_step(st_old, linesv[i as int], today) == Ok::<CalSt, Seq<char>>(st_new));
            assert(cal_scan(linesv, i as int, st_old, today) == cal_scan(
                linesv,
                i + 1,
                st_new,
                today,
            ));
        }
        i = i + 1;
    }
    let ghost st_fin = CalSt {
        meal: ost(meal),
        calories,
        date,
        seen_label,
        in_body,
        body: body.deep_view(),
    };
    proof {
        assert(cal_scan(linesv, n as int, st_fin, today) == Ok::<CalSt, Seq<char>>(st_fin));
    }
    let note_chars: Vec<char> = if in_body {
        if body.len() > 0 && body[body.len() - 1].len() == 0 {
            proof {
                assert(body.deep_view().last().len() == 0);
            }
            let ghost pre = body.deep_view();
            body.pop();
            proof {
                assert(body.deep_view() =~~= pre.drop_last());
            }
        }
        let n2 = crate::text::join_text(&body);
        proof {
            assert(n2@ == body_text(st_fin.body));
        }
        if n2.len() > 10000 {
            return Err(lit_string("Invalid Notes. Maximum length is 10000 characters"));
        }
        n2
    } else {
        match existing {
            Some(e) => chars_of(e.note.as_str()),
            None => Vec::new(),
        }
    };
    let meal_chars: Vec<char> = match meal {
        Some(c) => {
            if c.len() > 0 {
                c
            } else {
                match existing {
                    Some(e) => chars_of(e.meal.as_str()),
                    None => {
                        return Err(lit_string("Meal is required"));
                    },
                }
            }
        },
        None => {
            match existing {
                Some(e) => chars_of(e.meal.as_str()),
                None => {
                    return Err(lit_string("Meal is required"));
                },
            }
        },
    };
    if meal_chars.len() == 0 {
        return Err(lit_string("Meal is required"));
    }
    let kcal: u32 = match calories {
        Some(a) => a,
        None => {
            match existing {
                Some(e) => e.calories,
                None => {
                    return Err(lit_string("Calories is required"));
                },
            }
        },
    };
    let entry = CalorieEntry {
        date: match date {
            Some(d) => d,
            None => match existing {
                Some(e) => e.date,
                None => default_date,
            },
        },
        meal: string_from_chars(&meal_chars),
        note: string_from_chars(&note_chars),
        calories: kcal,
    };
    proof {
        assert(cal_finalize(st_fin, opt_cal_view(existing), default_date) == Ok::<
            CalorieV,
            Seq<char>,
        >(entry@)) by {
            assert(entry@ =~~= (match cal_finalize(st_fin, opt_cal_view(existing), default_date) {
                Ok(c) => c,
                Err(_) => entry@,
            }));
        }
    }
    Ok(entry)
}

proof fn lemma_cal_scan_err(lines: Seq<Seq<char>>, i: int, st: CalSt, today: Date, e: Seq<char>)
    requires
        0 <= i < lines.len(),
        cal_step(st, lines[i], today) == Err::<CalSt, Seq<char>>(e),
    ensures
        cal_scan(lines, i, st, today) == Err::<CalSt, Seq<char>>(e),
{
}

/// The text for a brand-new calorie entry, dated `selected_date`.
pub fn new_calorie_editor_template(selected_date: Date) -> (r: String)
    requires
        selected_date.wf(),
    ensures
        r@ == "Meal: \nCalories: \nDate: "@ + spec_format_date(selected_date) + "\nNotes:\n"@,
{
    let mut out = chars_of("Meal: \nCalories: \nDate: ");
    let d = format_date(&selected_date);
    crate::num::push_all(&mut out, &d);
    crate::num::push_str(&mut out, "\nNotes:\n");
    proof {
        assert(out@ =~= "Meal: \nCalories: \nDate: "@ + spec_format_date(selected_date)
            + "\nNotes:\n"@);
    }
    string_from_chars(&out)
}

/// Render a calorie entry into its editor text.
pub fn format_calorie_editor_content(entry: &CalorieEntry) -> (r: String)
    requires
        entry.date.wf(),
    ensures
        r@ == spec_format_calorie(entry@),
{
    let mut out = chars_of("Meal: ");
    let cc = chars_of(entry.meal.as_str());
    crate::num::push_all(&mut out, &cc);
    crate::num::push_str(&mut out, "\nCalories: ");
    let ac = crate::num::u64_to_dec(entry.calories as u64);
    crate::num::push_all(&mut out, &ac);
    crate::num::push_str(&mut out, "\nDate: ");
    let dc = format_date(&entry.date);
    crate::num::push_all(&mut out, &dc);
    crate::num::push_str(&mut out, "\nNotes:\n");
    let nc = chars_of(entry.note.as_str());
    crate::num::push_all(&mut out, &nc);
    proof {
        reveal_strlit("Meal: ");
        reveal_strlit("Meal:");
        reveal_strlit("\nCalories: ");
        reveal_strlit("Calories:");
        reveal_strlit("\nDate: ");
        reveal_strlit("Date:");
        reveal_strlit("\nNotes:\n");
        reveal_strlit("Notes:");
        assert(out@ =~= spec_format_calorie(entry@));
    }
    string_from_chars(&out)
}

// ---------------------------------------------------------------------------
// The round trip
// ---------------------------------------------------------------------------

/// Parsing the rendering of a well-formed calorie entry against itself
/// yields the entry unchanged.
pub proof fn lemma_calorie_round_trip_law(c: CalorieV, default_date: Date, today: Date)
    requires
        calorie_wf(c, today),
    ensures
        spec_parse_calorie(spec_format_calorie(c), Some(c), default_date, today) == Ok::<
            CalorieV,
            Seq<char>,
        >(c),
{
    reveal_strlit("Meal:");
    reveal_strlit("Calories:");
    reveal_strlit("Date:");
    reveal_strlit("Notes:");
    let cl = "Meal:"@;
    let al = "Calories:"@;
    let dl = "Date:"@;
    let nl = "Notes:"@;
    assert(label_ok(cl));
    assert(label_ok(al));
    assert(label_ok(dl));
    assert(label_ok(nl));
    let av = crate::num::dec_rep(c.calories as nat);
    let dv = spec_format_date(c.date);
    lemma_calories_round_trip(c.calories);
    crate::num::lemma_dec_rep(c.calories as nat);
    assert(forall|k: int| 0 <= k < av.len() ==> is_digit(#[trigger] av[k]));
    assert(av.len() > 0);
    lemma_trim_noop(av);
    assert(no_newline(av));
    lemma_format_date_chars(c.date);
    lemma_date_round_trip(c.date);
    lemma_trim_noop(dv);
    assert(no_newline(dv));
    let l0 = label_line(cl, c.meal);
    let l1 = label_line(al, av);
    let l2 = label_line(dl, dv);
    let text = spec_format_calorie(c);
    assert(no_newline(l0));
    assert(no_newline(l1));
    assert(no_newline(l2));
    let rest2 = nl + seq!['\n'] + c.note;
    let rest1 = l2 + seq!['\n'] + rest2;
    let rest0 = l1 + seq!['\n'] + rest1;
    assert(text =~= l0 + seq!['\n'] + rest0);
    crate::text::lemma_lines_of_concat(l0, rest0);
    crate::text::lemma_lines_of_concat(l1, rest1);
    crate::text::lemma_lines_of_concat(l2, rest2);
    crate::text::lemma_lines_of_concat(nl, c.note);
    let lines = lines_of(text);
    assert(lines =~~= seq![l0, l1, l2, nl] + lines_of(c.note));
    assert(lines[0] == l0);
    assert(lines[1] == l1);
    assert(lines[2] == l2);
    assert(lines[3] == nl);
    assert(lines.skip(4) =~~= lines_of(c.note));

    let st0 = cal_init();
    lemma_label_line(cl, c.meal);
    let st1 = CalSt {
        meal: Some(c.meal),
        calories: None,
        date: None,
        seen_label: true,
        in_body: false,
        body: Seq::empty(),
    };
    assert(cal_step(st0, l0, today) == Ok::<CalSt, Seq<char>>(st1));
    lemma_label_line(al, av);
    let st2 = CalSt { calories: Some(c.calories), ..st1 };
    assert(cal_step(st1, l1, today) == Ok::<CalSt, Seq<char>>(st2));
    lemma_label_line(dl, dv);
    let st3 = CalSt { date: Some(c.date), ..st2 };
    assert(cal_step(st2, l2, today) == Ok::<CalSt, Seq<char>>(st3));
    lemma_label_only(nl);
    let st4 = CalSt { in_body: true, body: Seq::empty(), ..st3 };
    assert(cal_step(st3, nl, today) == Ok::<CalSt, Seq<char>>(st4));
    lemma_cal_scan_body(lines, 4, st4, today);
    let st5 = CalSt { body: lines_of(c.note), ..st4 };
    assert(st4.body + lines.skip(4) =~~= lines_of(c.note));
    assert(cal_scan(lines, 4, st4, today) == Ok::<CalSt, Seq<char>>(st5));
    assert(cal_scan(lines, 3, st3, today) == Ok::<CalSt, Seq<char>>(st5));
    assert(cal_scan(lines, 2, st2, today) == Ok::<CalSt, Seq<char>>(st5));
    assert(cal_scan(lines, 1, st1, today) == Ok::<CalSt, Seq<char>>(st5));
    assert(cal_scan(lines, 0, st0, today) == Ok::<CalSt, Seq<char>>(st5));

    lemma_body_text_lines(c.note);
    assert(cal_finalize(st5, Some(c), default_date) == Ok::<CalorieV, Seq<char>>(c)) by {
        assert((match cal_finalize(st5, Some(c), default_date) {
            Ok(x) => x,
            Err(_) => c,
        }) =~~= c);
    }
}

proof fn lemma_cal_scan_body(lines: Seq<Seq<char>>, i: int, st: CalSt, today: Date)
    requires
        0 <= i <= lines.len(),
        st.in_body,
    ensures
        cal_scan(lines, i, st, today) == Ok::<CalSt, Seq<char>>(
            CalSt { body: st.body + lines.skip(i), ..st },
        ),
    decreases lines.len() - i,
{
    if i == lines.len() {
        assert(st.body + lines.skip(i) =~~= st.body);
        assert(CalSt { body: st.body + lines.skip(i), ..st } =~= st);
    } else {
        let st2 = CalSt { body: st.body.push(lines[i]), ..st };
        lemma_cal_scan_body(lines, i + 1, st2, today);
        assert(st2.body + lines.skip(i + 1) =~~= st.body + lines.skip(i));
        assert(CalSt { body: st2.body + lines.skip(i + 1), ..st2 } =~= CalSt {
            body: st.body + lines.skip(i),
            ..st
        });
    }
}

} // verus!
