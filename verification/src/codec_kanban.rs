//! The kanban card editor: a `Title:` line and a free-text `Note:` body.
//! Parsing is all-or-nothing with a message naming the offending field;
//! a card's stage and creation date are not part of the editable text
//! and are preserved from the existing card.

use vstd::prelude::*;
use crate::codec::{body_text, label_line, label_ok, lemma_label_line, lemma_label_only};
use crate::date::Date;
use crate::model::{body_ok, single_line, KanbanCard, KanbanStage, KanbanV};
use crate::text::{
    chars_of, eq_str, find_char, find_char_exec, join_lines, join_text, lemma_join_split,
    lemma_split_last_nonempty, lines_of, lit_string, no_newline, split_lines, string_from_chars,
    sub_chars, trim_chars, trim_spec, trim_start_chars, trim_start_rec,
};

verus! {

pub open spec fn msg_kanban_title_long() -> Seq<char> {
    "Invalid Title. Maximum length is 200 characters"@
}

pub open spec fn msg_kanban_title_required() -> Seq<char> {
    "Title is required"@
}

pub open spec fn msg_kanban_note_long() -> Seq<char> {
    "Invalid Note. Maximum length is 10000 characters"@
}

/// The scanner state: the title seen so far, whether any known label has
/// been recognized, and the body capture.
#[verifier::ext_equal]
pub struct KanbanSt {
    pub title: Option<Seq<char>>,
    pub seen_label: bool,
    pub in_body: bool,
    pub body: Seq<Seq<char>>,
}

pub open spec fn kanban_init() -> KanbanSt {
    KanbanSt { title: None, seen_label: false, in_body: false, body: Seq::empty() }
}

/// An unrecognized non-empty line before any label is the quick-entry
/// title; later unrecognized lines are ignored.
pub open spec fn kanban_fallback(st: KanbanSt, t: Seq<char>) -> Result<KanbanSt, Seq<char>> {
    if !st.seen_label && st.title is None {
        if t.len() <= 200 {
            Ok(KanbanSt { title: Some(t), seen_label: st.seen_label, in_body: st.in_body, body: st.body })
        } else {
            Err(msg_kanban_title_long())
        }
    } else {
        Ok(st)
    }
}

pub open spec fn kanban_step(st: KanbanSt, line: Seq<char>) -> Result<KanbanSt, Seq<char>> {
    if st.in_body {
        Ok(KanbanSt { title: st.title, seen_label: st.seen_label, in_body: true, body: st.body.push(line) })
    } else {
        let t = trim_spec(line);
        if t.len() == 0 {
            Ok(st)
        } else {
            let j = find_char(t, ':');
            if j == t.len() {
                kanban_fallback(st, t)
            } else {
                let key = t.take(j + 1);
                let raw = t.skip(j + 1);
                let v = trim_spec(raw);
                if key == "Title:"@ {
                    if v.len() <= 200 {
                        Ok(KanbanSt { title: Some(v), seen_label: true, in_body: st.in_body, body: st.body })
                    } else {
                        Err(msg_kanban_title_long())
                    }
                } else if key == "Note:"@ {
                    Ok(KanbanSt {
                        title: st.title,
                        seen_label: true,
                        in_body: true,
                        body: if v.len() > 0 {
                            seq![trim_start_rec(raw)]
                        } else {
                            Seq::empty()
                        },
                    })
                } else {
                    kanban_fallback(st, t)
                }
            }
        }
    }
}

pub open spec fn kanban_scan(lines: Seq<Seq<char>>, i: int, st: KanbanSt) -> Result<
    KanbanSt,
    Seq<char>,
>
    decreases lines.len() - i,
{
    if i < 0 || i >= lines.len() {
        Ok(st)
    } else {
        match kanban_step(st, lines[i]) {
            Ok(s2) => kanban_scan(lines, i + 1, s2),
            Err(e) => Err(e),
        }
    }
}

pub open spec fn kanban_finalize(st: KanbanSt, existing: Option<KanbanV>, today: Date) -> Result<
    KanbanV,
    Seq<char>,
> {
    let note_r: Result<Seq<char>, Seq<char>> = if st.in_body {
        if body_text(st.body).len() <= 10000 {
            Ok(body_text(st.body))
        } else {
            Err(msg_kanban_note_long())
        }
    } else {
        match existing {
            Some(e) => Ok(e.note),
            None => Ok(Seq::empty()),
        }
    };
    match note_r {
        Err(e) => Err(e),
        Ok(note) => {
            let title_opt: Option<Seq<char>> = match st.title {
                Some(tl) => if tl.len() > 0 {
                    Some(tl)
                } else {
                    match existing {
                        Some(e) => Some(e.title),
                        None => None,
                    }
                },
                None => match existing {
                    Some(e) => Some(e.title),
                    None => None,
                },
            };
            match title_opt {
                None => Err(msg_kanban_title_required()),
                Some(title) => if title.len() == 0 {
                    Err(msg_kanban_title_required())
                } else {
                    Ok(
                        KanbanV {
                            title,
                            note,
                            stage: match existing {
                                Some(e) => e.stage,
                                None => KanbanStage::Todo,
                            },
                            created_at: match existing {
                                Some(e) => e.created_at,
                                None => today,
                            },
                        },
                    )
                },
            }
        },
    }
}

/// What parsing a kanban editor text yields: a card, or the first
/// field's message.
pub open spec fn spec_parse_kanban(
    text: Seq<char>,
    existing: Option<KanbanV>,
    today: Date,
) -> Result<KanbanV, Seq<char>> {
    match kanban_scan(lines_of(text), 0, kanban_init()) {
        Ok(st) => kanban_finalize(st, existing, today),
        Err(e) => Err(e),
    }
}

/// The text a kanban card renders to.
pub open spec fn spec_format_kanban(c: KanbanV) -> Seq<char> {
    label_line("Title:"@, c.title) + seq!['\n'] + "Note:"@ + seq!['\n'] + c.note
}

/// A card the editor can faithfully show and read back.
pub open spec fn kanban_wf(c: KanbanV) -> bool {
    single_line(c.title) && 1 <= c.title.len() <= 200 && body_ok(c.note, 10000)
}

// ---------------------------------------------------------------------------
// Executable codec
// ---------------------------------------------------------------------------

pub open spec fn opt_chars_view(o: Option<Vec<char>>) -> Option<Seq<char>> {
    match o {
        Some(v) => Some(v@),
        None => None,
    }
}

pub open spec fn opt_kanban_view(o: Option<&KanbanCard>) -> Option<KanbanV> {
    match o {
        Some(c) => Some(c@),
        None => None,
    }
}

/// Parse the kanban editor text against an optional existing card.
pub fn parse_kanban_editor_content(
    input: &str,
    existing: Option<&KanbanCard>,
    today: Date,
) -> (r: Result<KanbanCard, String>)
    ensures
        r matches Ok(c) ==> spec_parse_kanban(input@, opt_kanban_view(existing), today) == Ok::<
            KanbanV,
            Seq<char>,
        >(c@),
        r matches Err(e) ==> spec_parse_kanban(input@, opt_kanban_view(existing), today) == Err::<
            KanbanV,
            Seq<char>,
        >(e@),
{
    let chars = chars_of(input);
    let lines = split_lines(&chars);
    let ghost linesv = lines_of(input@);
    let mut title: Option<Vec<char>> = None;
    let mut seen_label: bool = false;
    let mut in_body: bool = false;
    let mut body: Vec<Vec<char>> = Vec::new();
    let n = lines.len();
    let mut i: usize = 0;
    proof {
        assert(body.deep_view() =~= Seq::<Seq<char>>::empty());
        assert(KanbanSt {
            title: opt_chars_view(title),
            seen_label,
            in_body,
            body: body.deep_view(),
        } =~= kanban_init());
    }
    while i < n
        invariant
            i <= n,
            n == lines@.len(),
            lines.deep_view() == linesv,
            linesv == lines_of(input@),
            kanban_scan(linesv, 0, kanban_init()) == kanban_scan(
                linesv,
                i as int,
                KanbanSt {
                    title: opt_chars_view(title),
                    seen_label,
                    in_body,
                    body: body.deep_view(),
                },
            ),
        decreases n - i,
    {
        let ghost st_old = KanbanSt {
            title: opt_chars_view(title),
            seen_label,
            in_body,
            body: body.deep_view(),
        };
        let line = &lines[i];
        proof {
            assert(line@ == linesv[i as int]);
        }
        if in_body {
            let copy = sub_chars(line, 0, line.len());
            proof {
                assert(copy@ =~= line@);
            }
            let ghost old_body = body.deep_view();
            body.push(copy);
            proof {
                assert(body.deep_view() =~~= old_body.push(line@));
                assert(kanban_step(st_old, linesv[i as int]) == Ok::<KanbanSt, Seq<char>>(
                    KanbanSt {
                        title: opt_chars_view(title),
                        seen_label,
                        in_body,
                        body: body.deep_view(),
                    },
                ));
            }
        } else {
            let t = trim_chars(line);
            if t.len() == 0 {
            } else {
                let j = find_char_exec(&t, ':');
                proof {
                    crate::text::lemma_find_from(t@, ':', 0);
                }
                if j == t.len() {
                    if !seen_label && title.is_none() {
                        if t.len() <= 200 {
                            title = Some(t);
                        } else {
                            proof {
                                lemma_scan_err(linesv, i as int, st_old, msg_kanban_title_long());
                            }
                            return Err(
                                lit_string("Invalid Title. Maximum length is 200 characters"),
                            );
                        }
                    }
                } else {
                    let key = sub_chars(&t, 0, j + 1);
                    let raw = sub_chars(&t, j + 1, t.len());
                    let v = trim_chars(&raw);
                    proof {
                        assert(key@ =~= t@.take(j as int + 1));
                        assert(raw@ =~= t@.skip(j as int + 1));
                    }
                    if eq_str(&key, "Title:") {
                        if v.len() <= 200 {
                            title = Some(v);
                            seen_label = true;
                        } else {
                            proof {
                                lemma_scan_err(linesv, i as int, st_old, msg_kanban_title_long());
                            }
                            return Err(
                                lit_string("Invalid Title. Maximum length is 200 characters"),
                            );
                        }
                    } else if eq_str(&key, "Note:") {
                        in_body = true;
                        seen_label = true;
                        body = Vec::new();
                        if v.len() > 0 {
                            let fb = trim_start_chars(&raw);
                            body.push(fb);
                            proof {
                                assert(body.deep_view() =~~= seq![trim_start_rec(raw@)]);
                            }
                        } else {
                            proof {
                                assert(body.deep_view() =~= Seq::<Seq<char>>::empty());
                            }
                        }
                    } else {
                        if !seen_label && title.is_none() {
                            if t.len() <= 200 {
                                title = Some(t);
                            } else {
                                proof {
                                    lemma_scan_err(
                                        linesv,
                                        i as int,
                                        st_old,
                                        msg_kanban_title_long(),
                                    );
                                }
                                return Err(
                                    lit_string("Invalid Title. Maximum length is 200 characters"),
                                );
                            }
                        }
                    }
                }
            }
        }
        proof {
            let st_new = KanbanSt {
                title: opt_chars_view(title),
                seen_label,
                in_body,
                body: body.deep_view(),
            };
            assert(kanban_step(st_old, linesv[i as int]) == Ok::<KanbanSt, Seq<char>>(st_new));
            assert(kanban_scan(linesv, i as int, st_old) == kanban_scan(linesv, i + 1, st_new));
        }
        i = i + 1;
    }
    let ghost st_fin = KanbanSt {
        title: opt_chars_view(title),
        seen_label,
        in_body,
        body: body.deep_view(),
    };
    proof {
        assert(kanban_scan(linesv, n as int, st_fin) == Ok::<KanbanSt, Seq<char>>(st_fin));
    }
    // Finalize: the body first (its message takes precedence), then the title.
    let note_chars: Vec<char> = if in_body {
        if body.len() > 0 && body[body.len() - 1].len() == 0 {
            proof {
                assert(body.deep_view().last().len() == 0);
                assert(body.deep_view().drop_last() =~~= body.deep_view().take(
                    body.deep_view().len() - 1,
                ));
            }
            let ghost pre = body.deep_view();
            body.pop();
            proof {
                assert(body.deep_view() =~~= pre.drop_last());
            }
        }
        let n2 = join_text(&body);
        proof {
            assert(n2@ == body_text(st_fin.body));
        }
        if n2.len() > 10000 {
            return Err(lit_string("Invalid Note. Maximum length is 10000 characters"));
        }
        n2
    } else {
        match existing {
            Some(e) => chars_of(e.note.as_str()),
            None => Vec::new(),
        }
    };
    proof {
        assert(note_chars@ == Seq::<char>::empty() ==> note_chars@ =~= Seq::<char>::empty());
    }
    let title_chars: Vec<char> = match title {
        Some(tl) => {
            if tl.len() > 0 {
                tl
            } else {
                match existing {
                    Some(e) => chars_of(e.title.as_str()),
                    None => {
                        return Err(lit_string("Title is required"));
                    },
                }
            }
        },
        None => {
            match existing {
                Some(e) => chars_of(e.title.as_str()),
                None => {
                    return Err(lit_string("Title is required"));
                },
            }
        },
    };
    if title_chars.len() == 0 {
        return Err(lit_string("Title is required"));
    }
    let card = KanbanCard {
        title: string_from_chars(&title_chars),
        note: string_from_chars(&note_chars),
        stage: match existing {
            Some(e) => e.stage,
            None => KanbanStage::Todo,
        },
        created_at: match existing {
            Some(e) => e.created_at,
            None => today,
        },
    };
    proof {
        assert(kanban_finalize(st_fin, opt_kanban_view(existing), today) == Ok::<
            KanbanV,
            Seq<char>,
        >(card@)) by {
            assert(card@ =~= (match kanban_finalize(st_fin, opt_kanban_view(existing), today) {
                Ok(c) => c,
                Err(_) => card@,
            }));
        }
    }
    Ok(card)
}

/// Once a step fails, the whole scan fails with that message.
proof fn lemma_scan_err(lines: Seq<Seq<char>>, i: int, st: KanbanSt, e: Seq<char>)
    requires
        0 <= i < lines.len(),
        kanban_step(st, lines[i]) == Err::<KanbanSt, Seq<char>>(e),
    ensures
        kanban_scan(lines, i, st) == Err::<KanbanSt, Seq<char>>(e),
{
}

/// The text for a brand-new kanban card.
pub fn new_kanban_editor_template() -> (r: String)
    ensures
        r@ == "Title: \nNote:\n"@,
{
    lit_string("Title: \nNote:\n")
}

/// Render a card into its editor text.
pub fn format_kanban_editor_content(card: &KanbanCard) -> (r: String)
    ensures
        r@ == spec_format_kanban(card@),
{
    let mut out = chars_of("Title: ");
    let tc = chars_of(card.title.as_str());
    crate::num::push_all(&mut out, &tc);
    crate::num::push_str(&mut out, "\nNote:\n");
    let nc = chars_of(card.note.as_str());
    crate::num::push_all(&mut out, &nc);
    proof {
        reveal_strlit("Title: ");
        reveal_strlit("Title:");
        reveal_strlit("\nNote:\n");
        reveal_strlit("Note:");
        assert(out@ =~= spec_format_kanban(card@));
    }
    string_from_chars(&out)
}

// ---------------------------------------------------------------------------
// The round trip
// ---------------------------------------------------------------------------

/// Parsing the rendering of a well-formed card against itself yields the
/// card unchanged.
pub proof fn lemma_kanban_round_trip(c: KanbanV, today: Date)
    requires
        kanban_wf(c),
    ensures
        spec_parse_kanban(spec_format_kanban(c), Some(c), today) == Ok::<KanbanV, Seq<char>>(c),
{
    reveal_strlit("Title:");
    reveal_strlit("Note:");
    let tl = "Title:"@;
    let nl = "Note:"@;
    assert(label_ok(tl));
    assert(label_ok(nl));
    let l0 = label_line(tl, c.title);
    let text = spec_format_kanban(c);
    assert(no_newline(l0)) by {
        assert(forall|k: int| 0 <= k < tl.len() ==> l0[k] == tl[k]);
        assert(l0[tl.len() as int] == ' ');
        assert(forall|k: int|
            tl.len() + 1 <= k < l0.len() ==> l0[k] == c.title[k - tl.len() - 1]);
    }
    let rest1 = nl + seq!['\n'] + c.note;
    assert(text =~= l0 + seq!['\n'] + rest1);
    crate::text::lemma_lines_of_concat(l0, rest1);
    crate::text::lemma_lines_of_concat(nl, c.note);
    let lines = lines_of(text);
    assert(lines =~~= seq![l0, nl] + lines_of(c.note));
    assert(lines[0] == l0);
    assert(lines[1] == nl);
    assert(lines.skip(2) =~~= lines_of(c.note));

    // Step on the title line.
    let st0 = kanban_init();
    lemma_label_line(tl, c.title);
    let t0 = trim_spec(l0);
    assert(t0 == l0);
    assert(find_char(t0, ':') == tl.len() - 1);
    assert(t0.take(tl.len() as int) == tl);
    assert(trim_spec(t0.skip(tl.len() as int)) == c.title);
    let st1 = KanbanSt {
        title: Some(c.title),
        seen_label: true,
        in_body: false,
        body: Seq::empty(),
    };
    assert(kanban_step(st0, l0) == Ok::<KanbanSt, Seq<char>>(st1)) by {
        assert(st0.body =~= Seq::<Seq<char>>::empty());
    }

    // Step on the body label line.
    lemma_label_only(nl);
    assert(find_char(nl, ':') == nl.len() - 1);
    let st2 = KanbanSt { title: Some(c.title), seen_label: true, in_body: true, body: Seq::empty() };
    assert(kanban_step(st1, nl) == Ok::<KanbanSt, Seq<char>>(st2));

    // The rest of the lines are captured verbatim.
    lemma_kanban_scan_body(lines, 2, st2);
    let st3 = KanbanSt {
        title: Some(c.title),
        seen_label: true,
        in_body: true,
        body: lines_of(c.note),
    };
    assert(st2.body + lines.skip(2) =~~= lines_of(c.note));
    assert(kanban_scan(lines, 2, st2) == Ok::<KanbanSt, Seq<char>>(st3));
    assert(kanban_scan(lines, 1, st1) == Ok::<KanbanSt, Seq<char>>(st3));
    assert(kanban_scan(lines, 0, st0) == Ok::<KanbanSt, Seq<char>>(st3));

    // Finalize.
    if c.note.len() == 0 {
        assert(lines_of(c.note) =~~= Seq::<Seq<char>>::empty());
        assert(body_text(st3.body) =~= c.note);
    } else {
        lemma_split_last_nonempty(c.note);
        assert(st3.body.last().len() > 0);
        lemma_join_split(c.note);
        assert(body_text(st3.body) =~= c.note);
    }
    assert(kanban_finalize(st3, Some(c), today) == Ok::<KanbanV, Seq<char>>(c)) by {
        assert((match kanban_finalize(st3, Some(c), today) {
            Ok(x) => x,
            Err(_) => c,
        }) =~= c);
    }
}

proof fn lemma_kanban_scan_body(lines: Seq<Seq<char>>, i: int, st: KanbanSt)
    requires
        0 <= i <= lines.len(),
        st.in_body,
    ensures
        kanban_scan(lines, i, st) == Ok::<KanbanSt, Seq<char>>(
            KanbanSt {
                title: st.title,
                seen_label: st.seen_label,
                in_body: true,
                body: st.body + lines.skip(i),
            },
        ),
    decreases lines.len() - i,
{
    if i == lines.len() {
        assert(st.body + lines.skip(i) =~~= st.body);
        assert(KanbanSt {
            title: st.title,
            seen_label: st.seen_label,
            in_body: true,
            body: st.body + lines.skip(i),
        } =~= st);
    } else {
        let st2 = KanbanSt {
            title: st.title,
            seen_label: st.seen_label,
            in_body: true,
            body: st.body.push(lines[i]),
        };
        lemma_kanban_scan_body(lines, i + 1, st2);
        assert(st2.body + lines.skip(i + 1) =~~= st.body + lines.skip(i));
        assert(KanbanSt {
            title: st.title,
            seen_label: st.seen_label,
            in_body: true,
            body: st2.body + lines.skip(i + 1),
        } =~= KanbanSt {
            title: st.title,
            seen_label: st.seen_label,
            in_body: true,
            body: st.body + lines.skip(i),
        });
    }
}

} // verus!
