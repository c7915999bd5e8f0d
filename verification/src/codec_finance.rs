//! The finance entry editor: `Category:`, `Amount:` and `Date:` lines
//! and a free-text `Notes:` body. Amounts are non-negative decimals with
//! at most two fraction digits; dates must lie between the epoch and ten
//! years from today.

use vstd::prelude::*;
use crate::codec::{
    body_text, label_line, label_ok, lemma_body_text_lines, lemma_label_line, lemma_label_only,
    lemma_trim_noop,
};
use crate::date::{
    date_le, format_date, lemma_date_round_trip, lemma_format_date_chars, parse_date, spec_add_days,
    spec_date_le, spec_epoch, spec_format_date, spec_parse_date, Date,
};
use crate::model::{body_ok, single_line, FinanceEntry, FinanceV};
use crate::num::is_digit;
use crate::text::{
    chars_of, eq_str, find_char, find_char_exec, lines_of, lit_string, no_newline, split_lines,
    string_from_chars, sub_chars, trim_chars, trim_spec, trim_start_chars, trim_start_rec,
};
use crate::validate::{
    format_amount_chars, lemma_amount_round_trip, parse_amount_chars, spec_format_amount,
    spec_parse_amount, MAX_AMOUNT_CENTS,
};

verus! {

pub open spec fn msg_category_long() -> Seq<char> {
    "Invalid Category. Maximum length is 100 characters"@
}

pub open spec fn msg_category_required() -> Seq<char> {
    "Category is required"@
}

pub open spec fn msg_amount_invalid() -> Seq<char> {
    "Invalid Amount. Use a non-negative number up to 999999999.99"@
}

pub open spec fn msg_amount_required() -> Seq<char> {
    "Amount is required"@
}

pub open spec fn msg_date_invalid() -> Seq<char> {
    "Invalid Date. Use YYYY-MM-DD between 1970-01-01 and ten years from today"@
}

pub open spec fn msg_notes_long() -> Seq<char> {
    "Invalid Notes. Maximum length is 10000 characters"@
}

/// Is `d` within the editors' accepted window ending ten years from today?
pub open spec fn date_in_window(d: Date, today: Date) -> bool {
    spec_date_le(spec_epoch(), d) && spec_date_le(d, spec_add_days(today, 3650))
}

#[verifier::ext_equal]
pub struct FinSt {
    pub category: Option<Seq<char>>,
    pub amount: Option<u64>,
    pub date: Option<Date>,
    pub seen_label: bool,
    pub in_body: bool,
    pub body: Seq<Seq<char>>,
}

pub open spec fn fin_init() -> FinSt {
    FinSt {
        category: None,
        amount: None,
        date: None,
        seen_label: false,
        in_body: false,
        body: Seq::empty(),
    }
}

pub open spec fn fin_fallback(st: FinSt, t: Seq<char>) -> Result<FinSt, Seq<char>> {
    if !st.seen_label && st.category is None {
        if t.len() <= 100 {
            Ok(FinSt { category: Some(t), ..st })
        } else {
            Err(msg_category_long())
        }
    } else {
        Ok(st)
    }
}

pub open spec fn fin_step(st: FinSt, line: Seq<char>, today: Date) -> Result<FinSt, Seq<char>> {
    if st.in_body {
        Ok(FinSt { body: st.body.push(line), ..st })
    } else {
        let t = trim_spec(line);
        if t.len() == 0 {
            Ok(st)
        } else {
            let j = find_char(t, ':');
            if j == t.len() {
                fin_fallback(st, t)
            } else {
                let key = t.take(j + 1);
                let raw = t.skip(j + 1);
                let v = trim_spec(raw);
                if key == "Category:"@ {
                    if v.len() <= 100 {
                        Ok(FinSt { category: Some(v), seen_label: true, ..st })
                    } else {
                        Err(msg_category_long())
                    }
                } else if key == "Amount:"@ {
                    if v.len() == 0 {
                        Ok(FinSt { seen_label: true, ..st })
                    } else {
                        match spec_parse_amount(v) {
                            Some(cents) => Ok(
                                FinSt { amount: Some(cents), seen_label: true, ..st },
                            ),
                            None => Err(msg_amount_invalid()),
                        }
                    }
                } else if key == "Date:"@ {
                    if v.len() == 0 {
                        Ok(FinSt { seen_label: true, ..st })
                    } else {
                        match spec_parse_date(v) {
                            Some(d) => if date_in_window(d, today) {
                                Ok(FinSt { date: Some(d), seen_label: true, ..st })
                            } else {
                                Err(msg_date_invalid())
                            },
                            None => Err(msg_date_invalid()),
                        }
                    }
                } else if key == "Notes:"@ {
                    Ok(
                        FinSt {
                            seen_label: true,
                            in_body: true,
                            body: if v.len() > 0 {
                                seq![trim_start_rec(raw)]
                            } else {
                                Seq::empty()
                            },
                            ..st
                        },
                    )
                } else {
                    fin_fallback(st, t)
                }
            }
        }
    }
}

pub open spec fn fin_scan(lines: Seq<Seq<char>>, i: int, st: FinSt, today: Date) -> Result<
    FinSt,
    Seq<char>,
>
    decreases lines.len() - i,
{
    if i < 0 || i >= lines.len() {
        Ok(st)
    } else {
        match fin_step(st, lines[i], today) {
            Ok(s2) => fin_scan(lines, i + 1, s2, today),
            Err(e) => Err(e),
        }
    }
}

pub open spec fn fin_finalize(
    st: FinSt,
    existing: Option<FinanceV>,
    default_date: Date,
) -> Result<FinanceV, Seq<char>> {
    let note_r: Result<Seq<char>, Seq<char>> = if st.in_body {
        if body_text(st.body).len() <= 10000 {
            Ok(body_text(st.body))
        } else {
            Err(msg_notes_long())
        }
    } else {
        match existing {
            Some(e) => Ok(e.note),
            None => Ok(Seq::empty()),
        }
    };
    match note_r {
        Err(e) => Err(e),
        Ok(note) => {
            let category_opt: Option<Seq<char>> = match st.category {
                Some(c) => if c.len() > 0 {
                    Some(c)
                } else {
                    match existing {
                        Some(e) => Some(e.category),
                        None => None,
                    }
                },
                None => match existing {
                    Some(e) => Some(e.category),
                    None => None,
                },
            };
            match category_opt {
                None => Err(msg_category_required()),
                Some(category) => if category.len() == 0 {
                    Err(msg_category_required())
                } else {
                    let amount_opt: Option<u64> = match st.amount {
                        Some(a) => Some(a),
                        None => match existing {
                            Some(e) => Some(e.amount_cents),
                            None => None,
                        },
                    };
                    match amount_opt {
                        None => Err(msg_amount_required()),
                        Some(amount_cents) => Ok(
                            FinanceV {
                                date: match st.date {
                                    Some(d) => d,
                                    None => match existing {
                                        Some(e) => e.date,
                                        None => default_date,
                                    },
                                },
                                category,
                                note,
                                amount_cents,
                            },
                        ),
                    }
                },
            }
        },
    }
}

pub open spec fn spec_parse_finance(
    text: Seq<char>,
    existing: Option<FinanceV>,
    default_date: Date,
    today: Date,
) -> Result<FinanceV, Seq<char>> {
    match fin_scan(lines_of(text), 0, fin_init(), today) {
        Ok(st) => fin_finalize(st, existing, default_date),
        Err(e) => Err(e),
    }
}

pub open spec fn spec_format_finance(c: FinanceV) -> Seq<char> {
    label_line("Category:"@, c.category) + seq!['\n'] + label_line(
        "Amount:"@,
        spec_format_amount(c.amount_cents),
    ) + seq!['\n'] + label_line("Date:"@, spec_format_date(c.date)) + seq!['\n'] + "Notes:"@
        + seq!['\n'] + c.note
}

/// An entry the editor can faithfully show and read back, relative to
/// `today`'s validation window.
pub open spec fn finance_wf(c: FinanceV, today: Date) -> bool {
    &&& single_line(c.category)
    &&& 1 <= c.category.len() <= 100
    &&& body_ok(c.note, 10000)
    &&& c.date.wf()
    &&& date_in_window(c.date, today)
    &&& c.amount_cents <= MAX_AMOUNT_CENTS
}

// ---------------------------------------------------------------------------
// Executable codec
// ---------------------------------------------------------------------------

pub open spec fn opt_fin_view(o: Option<&FinanceEntry>) -> Option<FinanceV> {
    match o {
        Some(c) => Some(c@),
        None => None,
    }
}

spec fn ost(o: Option<Vec<char>>) -> Option<Seq<char>> {
    match o {
        Some(v) => Some(v@),
        None => None,
    }
}

/// Parse the finance editor text against an optional existing entry.
/// `default_date` fills the date of a new entry whose `Date:` is blank.
pub fn parse_finance_editor_content(
    input: &str,
    existing: Option<&FinanceEntry>,
    default_date: Date,
    today: Date,
) -> (r: Result<FinanceEntry, String>)
    requires
        today.wf(),
    ensures
        r matches Ok(c) ==> spec_parse_finance(input@, opt_fin_view(existing), default_date, today)
            == Ok::<FinanceV, Seq<char>>(c@),
        r matches Err(e) ==> spec_parse_finance(
            input@,
            opt_fin_view(existing),
            default_date,
            today,
        ) == Err::<FinanceV, Seq<char>>(e@),
{
    let chars = chars_of(input);
    let lines = split_lines(&chars);
    let ghost linesv = lines_of(input@);
    let max_date = crate::date::add_days(&today, 3650);
    let epoch = crate::date::epoch_date();
    let mut category: Option<Vec<char>> = None;
    let mut amount: Option<u64> = None;
    let mut date: Option<Date> = None;
    let mut seen_label: bool = false;
    let mut in_body: bool = false;
    let mut body: Vec<Vec<char>> = Vec::new();
    let n = lines.len();
    let mut i: usize = 0;
    proof {
        assert(FinSt {
            category: ost(category),
            amount,
            date,
            seen_label,
            in_body,
            body: body.deep_view(),
        } =~= fin_init());
    }
    while i < n
        invariant
            i <= n,
            n == lines@.len(),
            lines.deep_view() == linesv,
            linesv == lines_of(input@),
            max_date == spec_add_days(today, 3650),
            epoch == spec_epoch(),
            fin_scan(linesv, 0, fin_init(), today) == fin_scan(
                linesv,
                i as int,
                FinSt {
                    category: ost(category),
                    amount,
                    date,
                    seen_label,
                    in_body,
                    body: body.deep_view(),
                },
                today,
            ),
        decreases n - i,
    {
        let ghost st_old = FinSt {
            category: ost(category),
            amount,
            date,
            seen_label,
            in_body,
            body: body.deep_view(),
        };
        let line = &lines[i];
        proof {
            assert(line@ == linesv[i as int]);
        }
        if in_body {
            let copy = sub_chars(line, 0, line.len());
            let ghost old_body = body.deep_view();
            proof {
                assert(copy@ =~= line@);
            }
            body.push(copy);
            proof {
                assert(body.deep_view() =~~= old_body.push(line@));
            }
        } else {
            let t = trim_chars(line);
            if t.len() == 0 {
            } else {
                let j = find_char_exec(&t, ':');
                proof {
                    crate::text::lemma_find_from(t@, ':', 0);
                }
                if j == t.len() {
                    if !seen_label && category.is_none() {
                        if t.len() <= 100 {
                            category = Some(t);
                        } else {
                            proof {
                                lemma_fin_scan_err(
                                    linesv,
                                    i as int,
                                    st_old,
                                    today,
                                    msg_category_long(),
                                );
                            }
                            return Err(
                                lit_string("Invalid Category. Maximum length is 100 characters"),
                            );
                        }
                    }
                } else {
                    let key = sub_chars(&t, 0, j + 1);
                    let raw = sub_chars(&t, j + 1, t.len());
                    let v = trim_chars(&raw);
                    proof {
                        assert(key@ =~= t@.take(j as int + 1));
                        assert(raw@ =~= t@.skip(j as int + 1));
                    }
                    if eq_str(&key, "Category:") {
                        if v.len() <= 100 {
                            category = Some(v);
                            seen_label = true;
                        } else {
                            proof {
                                lemma_fin_scan_err(
                                    linesv,
                                    i as int,
                                    st_old,
                                    today,
                                    msg_category_long(),
                                );
                            }
                            return Err(
                                lit_string("Invalid Category. Maximum length is 100 characters"),
                            );
                        }
                    } else if eq_str(&key, "Amount:") {
                        if v.len() == 0 {
                            seen_label = true;
                        } else {
                            match parse_amount_chars(&v) {
                                Some(cents) => {
                                    amount = Some(cents);
                                    seen_label = true;
                                },
                                None => {
                                    proof {
                                        lemma_fin_scan_err(
                                            linesv,
                                            i as int,
                                            st_old,
                                            today,
                                            msg_amount_invalid(),
                                        );
                                    }
                                    return Err(
                                        lit_string(
                                            "Invalid Amount. Use a non-negative number up to 999999999.99",
                                        ),
                                    );
                                },
                            }
                        }
                    } else if eq_str(&key, "Date:") {
                        if v.len() == 0 {
                            seen_label = true;
                        } else {
                            match parse_date(&v) {
                                Some(d) => {
                                    if date_le(&epoch, &d) && date_le(&d, &max_date) {
                                        date = Some(d);
                                        seen_label = true;
                                    } else {
                                        proof {
                                            lemma_fin_scan_err(
                                                linesv,
                                                i as int,
                                                st_old,
                                                today,
                                                msg_date_invalid(),
                                            );
                                        }
                                        return Err(
                                            lit_string(
                                                "Invalid Date. Use YYYY-MM-DD between 1970-01-01 and ten years from today",
                                            ),
                                        );
                                    }
                                },
                                None => {
                                    proof {
                                        lemma_fin_scan_err(
                                            linesv,
                                            i as int,
                                            st_old,
                                            today,
                                            msg_date_invalid(),
                                        );
                                    }
                                    return Err(
                                        lit_string(
                                            "Invalid Date. Use YYYY-MM-DD between 1970-01-01 and ten years from today",
                                        ),
                                    );
                                },
                            }
                        }
                    } else if eq_str(&key, "Notes:") {
                        in_body = true;
                        seen_label = true;
                        body = Vec::new();
                        if v.len() > 0 {
                            let fb = trim_start_chars(&raw);
                            body.push(fb);
                            proof {
                                assert(body.deep_view() =~~= seq![trim_start_rec(raw@)]);
                            }
                        } else {
                            proof {
                                assert(body.deep_view() =~= Seq::<Seq<char>>::empty());
                            }
                        }
                    } else {
                        if !seen_label && category.is_none() {
                            if t.len() <= 100 {
                                category = Some(t);
                            } else {
                                proof {
                                    lemma_fin_scan_err(
                                        linesv,
                                        i as int,
                                        st_old,
                                        today,
                                        msg_category_long(),
                                    );
                                }
                                return Err(
                                    lit_string(
                                        "Invalid Category. Maximum length is 100 characters",
                                    ),
                                );
                            }
                        }
                    }
                }
            }
        }
        proof {
            let st_new = FinSt {
                category: ost(category),
                amount,
                date,
                seen_label,
                in_body,
                body: body.deep_view(),
            };
            assert(fin_step(st_old, linesv[i as int], today) == Ok::<FinSt, Seq<char>>(st_new));
            assert(fin_scan(linesv, i as int, st_old, today) == fin_scan(
                linesv,
                i + 1,
                st_new,
                today,
            ));
        }
        i = i + 1;
    }
    let ghost st_fin = FinSt {
        category: ost(category),
        amount,
        date,
        seen_label,
        in_body,
        body: body.deep_view(),
    };
    proof {
        assert(fin_scan(linesv, n as int, st_fin, today) == Ok::<FinSt, Seq<char>>(st_fin));
    }
    let note_chars: Vec<char> = if in_body {
        if body.len() > 0 && body[body.len() - 1].len() == 0 {
            proof {
                assert(body.deep_view().last().len() == 0);
            }
            let ghost pre = body.deep_view();
            body.pop();
            proof {
                assert(body.deep_view() =~~= pre.drop_last());
            }
        }
        let n2 = crate::text::join_text(&body);
        proof {
            assert(n2@ == body_text(st_fin.body));
        }
        if n2.len() > 10000 {
            return Err(lit_string("Invalid Notes. Maximum length is 10000 characters"));
        }
        n2
    } else {
        match existing {
            Some(e) => chars_of(e.note.as_str()),
            None => Vec::new(),
        }
    };
    let category_chars: Vec<char> = match category {
        Some(c) => {
            if c.len() > 0 {
                c
            } else {
                match existing {
                    Some(e) => chars_of(e.category.as_str()),
                    None => {
                        return Err(lit_string("Category is required"));
                    },
                }
            }
        },
        None => {
            match existing {
                Some(e) => chars_of(e.category.as_str()),
                None => {
                    return Err(lit_string("Category is required"));
                },
            }
        },
    };
    if category_chars.len() == 0 {
        return Err(lit_string("Category is required"));
    }
    let amount_cents: u64 = match amount {
        Some(a) => a,
        None => {
            match existing {
                Some(e) => e.amount_cents,
                None => {
                    return Err(lit_string("Amount is required"));
                },
            }
        },
    };
    let entry = FinanceEntry {
        date: match date {
            Some(d) => d,
            None => match existing {
                Some(e) => e.date,
                None => default_date,
            },
        },
        category: string_from_chars(&category_chars),
        note: string_from_chars(&note_chars),
        amount_cents,
    };
    proof {
        assert(fin_finalize(st_fin, opt_fin_view(existing), default_date) == Ok::<
            FinanceV,
            Seq<char>,
        >(entry@)) by {
            assert(entry@ =~~= (match fin_finalize(st_fin, opt_fin_view(existing), default_date) {
                Ok(c) => c,
                Err(_) => entry@,
            }));
        }
    }
    Ok(entry)
}

proof fn lemma_fin_scan_err(lines: Seq<Seq<char>>, i: int, st: FinSt, today: Date, e: Seq<char>)
    requires
        0 <= i < lines.len(),
        fin_step(st, lines[i], today) == Err::<FinSt, Seq<char>>(e),
    ensures
        fin_scan(lines, i, st, today) == Err::<FinSt, Seq<char>>(e),
{
}

/// The text for a brand-new finance entry, dated `selected_date`.
pub fn new_finance_editor_template(selected_date: Date) -> (r: String)
    requires
        selected_date.wf(),
    ensures
        r@ == "Category: \nAmount: \nDate: "@ + spec_format_date(selected_date) + "\nNotes:\n"@,
{
    let mut out = chars_of("Category: \nAmount: \nDate: ");
    let d = format_date(&selected_date);
    crate::num::push_all(&mut out, &d);
    crate::num::push_str(&mut out, "\nNotes:\n");
    proof {
        assert(out@ =~= "Category: \nAmount: \nDate: "@ + spec_format_date(selected_date)
            + "\nNotes:\n"@);
    }
    string_from_chars(&out)
}

/// Render a finance entry into its editor text.
pub fn format_finance_editor_content(entry: &FinanceEntry) -> (r: String)
    requires
        entry.date.wf(),
    ensures
        r@ == spec_format_finance(entry@),
{
    let mut out = chars_of("Category: ");
    let cc = chars_of(entry.category.as_str());
    crate::num::push_all(&mut out, &cc);
    crate::num::push_str(&mut out, "\nAmount: ");
    let ac = format_amount_chars(entry.amount_cents);
    crate::num::push_all(&mut out, &ac);
    crate::num::push_str(&mut out, "\nDate: ");
    let dc = format_date(&entry.date);
    crate::num::push_all(&mut out, &dc);
    crate::num::push_str(&mut out, "\nNotes:\n");
    let nc = chars_of(entry.note.as_str());
    crate::num::push_all(&mut out, &nc);
    proof {
        reveal_strlit("Category: ");
        reveal_strlit("Category:");
        reveal_strlit("\nAmount: ");
        reveal_strlit("Amount:");
        reveal_strlit("\nDate: ");
        reveal_strlit("Date:");
        reveal_strlit("\nNotes:\n");
        reveal_strlit("Notes:");
        assert(out@ =~= spec_format_finance(entry@));
    }
    string_from_chars(&out)
}

// ---------------------------------------------------------------------------
// The round trip
// ---------------------------------------------------------------------------

/// Parsing the rendering of a well-formed finance entry against itself
/// yields the entry unchanged.
pub proof fn lemma_finance_round_trip(c: FinanceV, default_date: Date, today: Date)
    requires
        finance_wf(c, today),
    ensures
        spec_parse_finance(spec_format_finance(c), Some(c), default_date, today) == Ok::<
            FinanceV,
            Seq<char>,
        >(c),
{
    reveal_strlit("Category:");
    reveal_strlit("Amount:");
    reveal_strlit("Date:");
    reveal_strlit("Notes:");
    let cl = "Category:"@;
    let al = "Amount:"@;
    let dl = "Date:"@;
    let nl = "Notes:"@;
    assert(label_ok(cl));
    assert(label_ok(al));
    assert(label_ok(dl));
    assert(label_ok(nl));
    let av = spec_format_amount(c.amount_cents);
    let dv = spec_format_date(c.date);
    lemma_amount_round_trip(c.amount_cents);
    crate::num::lemma_dec_rep((c.amount_cents / 100) as nat);
    crate::num::lemma_pow10_small();
    crate::num::lemma_zero_pad_dec((c.amount_cents % 100) as nat, 2);
    assert(forall|k: int| 0 <= k < av.len() ==> (is_digit(#[trigger] av[k]) || av[k] == '.'));
    assert(av.len() > 0);
    lemma_trim_noop(av);
    assert(no_newline(av));
    lemma_format_date_chars(c.date);
    lemma_date_round_trip(c.date);
    lemma_trim_noop(dv);
    assert(no_newline(dv));
    let l0 = label_line(cl, c.category);
    let l1 = label_line(al, av);
    let l2 = label_line(dl, dv);
    let text = spec_format_finance(c);
    assert(no_newline(l0));
    assert(no_newline(l1));
    assert(no_newline(l2));
    let rest2 = nl + seq!['\n'] + c.note;
    let rest1 = l2 + seq!['\n'] + rest2;
    let rest0 = l1 + seq!['\n'] + rest1;
    assert(text =~= l0 + seq!['\n'] + rest0);
    crate::text::lemma_lines_of_concat(l0, rest0);
    crate::text::lemma_lines_of_concat(l1, rest1);
    crate::text::lemma_lines_of_concat(l2, rest2);
    crate::text::lemma_lines_of_concat(nl, c.note);
    let lines = lines_of(text);
    assert(lines =~~= seq![l0, l1, l2, nl] + lines_of(c.note));
    assert(lines[0] == l0);
    assert(lines[1] == l1);
    assert(lines[2] == l2);
    assert(lines[3] == nl);
    assert(lines.skip(4) =~~= lines_of(c.note));

    let st0 = fin_init();
    lemma_label_line(cl, c.category);
    let st1 = FinSt {
        category: Some(c.category),
        amount: None,
        date: None,
        seen_label: true,
        in_body: false,
        body: Seq::empty(),
    };
    assert(fin_step(st0, l0, today) == Ok::<FinSt, Seq<char>>(st1));
    lemma_label_line(al, av);
    let st2 = FinSt { amount: Some(c.amount_cents), ..st1 };
    assert(fin_step(st1, l1, today) == Ok::<FinSt, Seq<char>>(st2));
    lemma_label_line(dl, dv);
    let st3 = FinSt { date: Some(c.date), ..st2 };
    assert(fin_step(st2, l2, today) == Ok::<FinSt, Seq<char>>(st3));
    lemma_label_only(nl);
    let st4 = FinSt { in_body: true, body: Seq::empty(), ..st3 };
    assert(fin_step(st3, nl, today) == Ok::<FinSt, Seq<char>>(st4));
    lemma_fin_scan_body(lines, 4, st4, today);
    let st5 = FinSt { body: lines_of(c.note), ..st4 };
    assert(st4.body + lines.skip(4) =~~= lines_of(c.note));
    assert(fin_scan(lines, 4, st4, today) == Ok::<FinSt, Seq<char>>(st5));
    assert(fin_scan(lines, 3, st3, today) == Ok::<FinSt, Seq<char>>(st5));
    assert(fin_scan(lines, 2, st2, today) == Ok::<FinSt, Seq<char>>(st5));
    assert(fin_scan(lines, 1, st1, today) == Ok::<FinSt, Seq<char>>(st5));
    assert(fin_scan(lines, 0, st0, today) == Ok::<FinSt, Seq<char>>(st5));

    lemma_body_text_lines(c.note);
    assert(fin_finalize(st5, Some(c), default_date) == Ok::<FinanceV, Seq<char>>(c)) by {
        assert((match fin_finalize(st5, Some(c), default_date) {
            Ok(x) => x,
            Err(_) => c,
        }) =~~= c);
    }
}

proof fn lemma_fin_scan_body(lines: Seq<Seq<char>>, i: int, st: FinSt, today: Date)
    requires
        0 <= i <= lines.len(),
        st.in_body,
    ensures
        fin_scan(lines, i, st, today) == Ok::<FinSt, Seq<char>>(
            FinSt { body: st.body + lines.skip(i), ..st },
        ),
    decreases lines.len() - i,
{
    if i == lines.len() {
        assert(st.body + lines.skip(i) =~~= st.body);
        assert(FinSt { body: st.body + lines.skip(i), ..st } =~= st);
    } else {
        let st2 = FinSt { body: st.body.push(lines[i]), ..st };
        lemma_fin_scan_body(lines, i + 1, st2, today);
        assert(st2.body + lines.skip(i + 1) =~~= st.body + lines.skip(i));
        assert(FinSt { body: st2.body + lines.skip(i + 1), ..st2 } =~= FinSt {
            body: st.body + lines.skip(i),
            ..st
        });
    }
}

} // verus!
