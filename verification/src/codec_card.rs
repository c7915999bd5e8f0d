//! The flashcard editor: `Front:`, `Back:` and `Collection:` lines. The
//! scheduling state (ease factor, interval, review dates) is not part of
//! the editable text and is preserved from the existing card.

use vstd::prelude::*;
use crate::codec::{label_line, label_ok, lemma_label_line};
use crate::date::Date;
use crate::model::{single_line, Card, CardType, CardV};
use crate::text::{
    chars_of, eq_str, find_char, find_char_exec, lemma_find_from_is, lines_of, lit_string,
    no_newline, split_lines, string_from_chars, sub_chars, trim_chars, trim_spec,
};

verus! {

pub open spec fn msg_front_long() -> Seq<char> {
    "Invalid Front. Maximum length is 1000 characters"@
}

pub open spec fn msg_back_long() -> Seq<char> {
    "Invalid Back. Maximum length is 1000 characters"@
}

pub open spec fn msg_collection_long() -> Seq<char> {
    "Invalid Collection. Maximum length is 100 characters"@
}

pub open spec fn msg_front_required() -> Seq<char> {
    "Front is required"@
}

pub open spec fn msg_back_required() -> Seq<char> {
    "Back is required"@
}

#[verifier::ext_equal]
pub struct CardSt {
    pub front: Option<Seq<char>>,
    pub back: Option<Seq<char>>,
    pub collection: Option<Option<Seq<char>>>,
    pub seen_label: bool,
}

pub open spec fn card_init() -> CardSt {
    CardSt { front: None, back: None, collection: None, seen_label: false }
}

pub open spec fn card_fallback(st: CardSt, t: Seq<char>) -> Result<CardSt, Seq<char>> {
    if !st.seen_label && st.front is None {
        if t.len() <= 1000 {
            Ok(CardSt { front: Some(t), ..st })
        } else {
            Err(msg_front_long())
        }
    } else {
        Ok(st)
    }
}

pub open spec fn card_step(st: CardSt, line: Seq<char>) -> Result<CardSt, Seq<char>> {
    let t = trim_spec(line);
    if t.len() == 0 {
        Ok(st)
    } else {
        let j = find_char(t, ':');
        if j == t.len() {
            card_fallback(st, t)
        } else {
            let key = t.take(j + 1);
            let v = trim_spec(t.skip(j + 1));
            if key == "Front:"@ {
                if v.len() <= 1000 {
                    Ok(CardSt { front: Some(v), seen_label: true, ..st })
                } else {
                    Err(msg_front_long())
                }
            } else if key == "Back:"@ {
                if v.len() <= 1000 {
                    Ok(CardSt { back: Some(v), seen_label: true, ..st })
                } else {
                    Err(msg_back_long())
                }
            } else if key == "Collection:"@ {
                if v.len() <= 100 {
                    Ok(
                        CardSt {
                            collection: Some(
                                if v.len() == 0 {
                                    None
                                } else {
                                    Some(v)
                                },
                            ),
                            seen_label: true,
                            ..st
                        },
                    )
                } else {
                    Err(msg_collection_long())
                }
            } else {
                card_fallback(st, t)
            }
        }
    }
}

pub open spec fn card_scan(lines: Seq<Seq<char>>, i: int, st: CardSt) -> Result<CardSt, Seq<char>>
    decreases lines.len() - i,
{
    if i < 0 || i >= lines.len() {
        Ok(st)
    } else {
        match card_step(st, lines[i]) {
            Ok(s2) => card_scan(lines, i + 1, s2),
            Err(e) => Err(e),
        }
    }
}

pub open spec fn card_finalize(st: CardSt, existing: Option<CardV>, today: Date) -> Result<
    CardV,
    Seq<char>,
> {
    let front_opt: Option<Seq<char>> = match st.front {
        Some(f) => if f.len() > 0 {
            Some(f)
        } else {
            match existing {
                Some(e) => Some(e.front),
                None => None,
            }
        },
        None => match existing {
            Some(e) => Some(e.front),
            None => None,
        },
    };
    let back_opt: Option<Seq<char>> = match st.back {
        Some(b) => if b.len() > 0 {
            Some(b)
        } else {
            match existing {
                Some(e) => Some(e.back),
                None => None,
            }
        },
        None => match existing {
            Some(e) => Some(e.back),
            None => None,
        },
    };
    match (front_opt, back_opt) {
        (Some(front), Some(back)) => if front.len() == 0 {
            Err(msg_front_required())
        } else if back.len() == 0 {
            Err(msg_back_required())
        } else {
            Ok(
                CardV {
                    front,
                    back,
                    collection: match st.collection {
                        Some(c) => c,
                        None => match existing {
                            Some(e) => e.collection,
                            None => None,
                        },
                    },
                    card_type: match existing {
                        Some(e) => e.card_type,
                        None => CardType::Basic,
                    },
                    created_at: match existing {
                        Some(e) => e.created_at,
                        None => today,
                    },
                    last_reviewed: match existing {
                        Some(e) => e.last_reviewed,
                        None => None,
                    },
                    next_review: match existing {
                        Some(e) => e.next_review,
                        None => today,
                    },
                    ease_milli: match existing {
                        Some(e) => e.ease_milli,
                        None => 2500,
                    },
                    interval: match existing {
                        Some(e) => e.interval,
                        None => 0,
                    },
                    repetitions: match existing {
                        Some(e) => e.repetitions,
                        None => 0,
                    },
                    tags: match existing {
                        Some(e) => e.tags,
                        None => Seq::empty(),
                    },
                },
            )
        },
        (None, _) => Err(msg_front_required()),
        (_, None) => Err(msg_back_required()),
    }
}

pub open spec fn spec_parse_card(text: Seq<char>, existing: Option<CardV>, today: Date) -> Result<
    CardV,
    Seq<char>,
> {
    match card_scan(lines_of(text), 0, card_init()) {
        Ok(st) => card_finalize(st, existing, today),
        Err(e) => Err(e),
    }
}

pub open spec fn spec_format_card(c: CardV) -> Seq<char> {
    label_line("Front:"@, c.front) + seq!['\n'] + label_line("Back:"@, c.back) + seq!['\n']
        + label_line(
        "Collection:"@,
        match c.collection {
            Some(col) => col,
            None => Seq::empty(),
        },
    )
}

pub open spec fn card_text_wf(c: CardV) -> bool {
    &&& single_line(c.front)
    &&& 1 <= c.front.len() <= 1000
    &&& single_line(c.back)
    &&& 1 <= c.back.len() <= 1000
    &&& match c.collection {
        Some(col) => single_line(col) && 1 <= col.len() <= 100,
        None => true,
    }
}

// ---------------------------------------------------------------------------
// Executable codec
// ---------------------------------------------------------------------------

pub open spec fn opt_card_view(o: Option<&Card>) -> Option<CardV> {
    match o {
        Some(c) => Some(c@),
        None => None,
    }
}

spec fn ost(o: Option<Vec<char>>) -> Option<Seq<char>> {
    match o {
        Some(v) => Some(v@),
        None => None,
    }
}

spec fn oost(o: Option<Option<Vec<char>>>) -> Option<Option<Seq<char>>> {
    match o {
        Some(Some(v)) => Some(Some(v@)),
        Some(None) => Some(None),
        None => None,
    }
}

/// Parse the flashcard editor text against an optional existing card.
pub fn parse_card_editor_content_structured(
    input: &str,
    existing: Option<&Card>,
    today: Date,
) -> (r: Result<Card, String>)
    ensures
        r matches Ok(c) ==> spec_parse_card(input@, opt_card_view(existing), today) == Ok::<
            CardV,
            Seq<char>,
        >(c@),
        r matches Err(e) ==> spec_parse_card(input@, opt_card_view(existing), today) == Err::<
            CardV,
            Seq<char>,
        >(e@),
{
    let chars = chars_of(input);
    let lines = split_lines(&chars);
    let ghost linesv = lines_of(input@);
    let mut front: Option<Vec<char>> = None;
    let mut back: Option<Vec<char>> = None;
    let mut collection: Option<Option<Vec<char>>> = None;
    let mut seen_label: bool = false;
    let n = lines.len();
    let mut i: usize = 0;
    proof {
        assert(CardSt { front: ost(front), back: ost(back), collection: oost(collection), seen_label }
            =~= card_init());
    }
    while i < n
        invariant
            i <= n,
            n == lines@.len(),
            lines.deep_view() == linesv,
            linesv == lines_of(input@),
            card_scan(linesv, 0, card_init()) == card_scan(
                linesv,
                i as int,
                CardSt {
                    front: ost(front),
                    back: ost(back),
                    collection: oost(collection),
                    seen_label,
                },
            ),
        decreases n - i,
    {
        let ghost st_old = CardSt {
            front: ost(front),
            back: ost(back),
            collection: oost(collection),
            seen_label,
        };
        let line = &lines[i];
        proof {
            assert(line@ == linesv[i as int]);
        }
        let t = trim_chars(line);
        if t.len() == 0 {
        } else {
            let j = find_char_exec(&t, ':');
            proof {
                crate::text::lemma_find_from(t@, ':', 0);
            }
            if j == t.len() {
                if !seen_label && front.is_none() {
                    if t.len() <= 1000 {
                        front = Some(t);
                    } else {
                        proof {
                            lemma_card_scan_err(linesv, i as int, st_old, msg_front_long());
                        }
                        return Err(lit_string("Invalid Front. Maximum length is 1000 characters"));
                    }
                }
            } else {
                let key = sub_chars(&t, 0, j + 1);
                let raw = sub_chars(&t, j + 1, t.len());
                let v = trim_chars(&raw);
                proof {
                    assert(key@ =~= t@.take(j as int + 1));
                    assert(raw@ =~= t@.skip(j as int + 1));
                }
                if eq_str(&key, "Front:") {
                    if v.len() <= 1000 {
                        front = Some(v);
                        seen_label = true;
                    } else {
                        proof {
                            lemma_card_scan_err(linesv, i as int, st_old, msg_front_long());
                        }
                        return Err(lit_string("Invalid Front. Maximum length is 1000 characters"));
                    }
                } else if eq_str(&key, "Back:") {
                    if v.len() <= 1000 {
                        back = Some(v);
                        seen_label = true;
                    } else {
                        proof {
                            lemma_card_scan_err(linesv, i as int, st_old, msg_back_long());
                        }
                        return Err(lit_string("Invalid Back. Maximum length is 1000 characters"));
                    }
                } else if eq_str(&key, "Collection:") {
                    if v.len() <= 100 {
                        if v.len() == 0 {
                            collection = Some(None);
                        } else {
                            collection = Some(Some(v));
                        }
                        seen_label = true;
                    } else {
                        proof {
                            lemma_card_scan_err(linesv, i as int, st_old, msg_collection_long());
                        }
                        return Err(
                            lit_string("Invalid Collection. Maximum length is 100 characters"),
                        );
                    }
                } else {
                    if !seen_label && front.is_none() {
                        if t.len() <= 1000 {
                            front = Some(t);
                        } else {
                            proof {
                                lemma_card_scan_err(linesv, i as int, st_old, msg_front_long());
                            }
                            return Err(
                                lit_string("Invalid Front. Maximum length is 1000 characters"),
                            );
                        }
                    }
                }
            }
        }
        proof {
            let st_new = CardSt {
                front: ost(front),
                back: ost(back),
                collection: oost(collection),
                seen_label,
            };
            assert(card_step(st_old, linesv[i as int]) == Ok::<CardSt, Seq<char>>(st_new));
            assert(card_scan(linesv, i as int, st_old) == card_scan(linesv, i + 1, st_new));
        }
        i = i + 1;
    }
    let ghost st_fin = CardSt {
        front: ost(front),
        back: ost(back),
        collection: oost(collection),
        seen_label,
    };
    proof {
        assert(card_scan(linesv, n as int, st_fin) == Ok::<CardSt, Seq<char>>(st_fin));
    }
    let front_chars: Vec<char> = match front {
        Some(f) => {
            if f.len() > 0 {
                f
            } else {
                match existing {
                    Some(e) => chars_of(e.front.as_str()),
                    None => {
                        return Err(lit_string("Front is required"));
                    },
                }
            }
        },
        None => {
            match existing {
                Some(e) => chars_of(e.front.as_str()),
                None => {
                    return Err(lit_string("Front is required"));
                },
            }
        },
    };
    let back_chars: Vec<char> = match back {
        Some(b) => {
            if b.len() > 0 {
                b
            } else {
                match existing {
                    Some(e) => chars_of(e.back.as_str()),
                    None => {
                        return Err(lit_string("Back is required"));
                    },
                }
            }
        },
        None => {
            match existing {
                Some(e) => chars_of(e.back.as_str()),
                None => {
                    return Err(lit_string("Back is required"));
                },
            }
        },
    };
    if front_chars.len() == 0 {
        return Err(lit_string("Front is required"));
    }
    if back_chars.len() == 0 {
        return Err(lit_string("Back is required"));
    }
    let coll: Option<String> = match collection {
        Some(c) => {
            match c {
                Some(cv) => Some(string_from_chars(&cv)),
                None => None,
            }
        },
        None => {
            match existing {
                Some(e) => {
                    match &e.collection {
                        Some(c0) => Some(lit_clone(c0)),
                        None => None,
                    }
                },
                None => None,
            }
        },
    };
    let card = Card {
        front: string_from_chars(&front_chars),
        back: string_from_chars(&back_chars),
        collection: coll,
        card_type: match existing {
            Some(e) => e.card_type,
            None => CardType::Basic,
        },
        created_at: match existing {
            Some(e) => e.created_at,
            None => today,
        },
        last_reviewed: match existing {
            Some(e) => e.last_reviewed,
            None => None,
        },
        next_review: match existing {
            Some(e) => e.next_review,
            None => today,
        },
        ease_milli: match existing {
            Some(e) => e.ease_milli,
            None => 2500,
        },
        interval: match existing {
            Some(e) => e.interval,
            None => 0,
        },
        repetitions: match existing {
            Some(e) => e.repetitions,
            None => 0,
        },
        tags: match existing {
            Some(e) => clone_tags(&e.tags),
            None => Vec::new(),
        },
    };
    proof {
        assert(card_finalize(st_fin, opt_card_view(existing), today) == Ok::<CardV, Seq<char>>(
            card@,
        )) by {
            assert(card@ =~~= (match card_finalize(st_fin, opt_card_view(existing), today) {
                Ok(c) => c,
                Err(_) => card@,
            }));
        }
    }
    Ok(card)
}

fn lit_clone(s: &String) -> (r: String)
    ensures
        r@ == s@,
{
    let v = chars_of(s.as_str());
    string_from_chars(&v)
}

fn clone_tags(tags: &Vec<String>) -> (r: Vec<String>)
    ensures
        r.deep_view() == tags.deep_view(),
{
    let mut r: Vec<String> = Vec::new();
    let mut i: usize = 0;
    while i < tags.len()
        invariant
            i <= tags@.len(),
            r.deep_view() =~~= tags.deep_view().take(i as int),
        decreases tags@.len() - i,
    {
        let ghost pre = r.deep_view();
        r.push(lit_clone(&tags[i]));
        proof {
            assert(r.deep_view() =~~= pre.push(tags@[i as int]@));
            assert(r.deep_view() =~~= tags.deep_view().take(i + 1));
        }
        i = i + 1;
    }
    proof {
        assert(tags.deep_view().take(tags@.len() as int) =~~= tags.deep_view());
    }
    r
}

proof fn lemma_card_scan_err(lines: Seq<Seq<char>>, i: int, st: CardSt, e: Seq<char>)
    requires
        0 <= i < lines.len(),
        card_step(st, lines[i]) == Err::<CardSt, Seq<char>>(e),
    ensures
        card_scan(lines, i, st) == Err::<CardSt, Seq<char>>(e),
{
}

/// The text for a brand-new flashcard.
pub fn new_card_editor_template() -> (r: String)
    ensures
        r@ == "Front: \nBack: \nCollection: \n"@,
{
    lit_string("Front: \nBack: \nCollection: \n")
}

/// Render a flashcard into its editor text.
pub fn format_card_editor_content(card: &Card) -> (r: String)
    ensures
        r@ == spec_format_card(card@),
{
    let mut out = chars_of("Front: ");
    let fc = chars_of(card.front.as_str());
    crate::num::push_all(&mut out, &fc);
    crate::num::push_str(&mut out, "\nBack: ");
    let bc = chars_of(card.back.as_str());
    crate::num::push_all(&mut out, &bc);
    crate::num::push_str(&mut out, "\nCollection: ");
    match &card.collection {
        Some(c) => {
            let cc = chars_of(c.as_str());
            crate::num::push_all(&mut out, &cc);
        },
        None => {},
    }
    proof {
        reveal_strlit("Front: ");
        reveal_strlit("Front:");
        reveal_strlit("\nBack: ");
        reveal_strlit("Back:");
        reveal_strlit("\nCollection: ");
        reveal_strlit("Collection:");
        assert(out@ =~= spec_format_card(card@));
    }
    string_from_chars(&out)
}

// ---------------------------------------------------------------------------
// The round trip
// ---------------------------------------------------------------------------

/// Parsing the rendering of a well-formed flashcard against itself
/// yields the card unchanged.
pub proof fn lemma_card_round_trip(c: CardV, today: Date)
    requires
        card_text_wf(c),
    ensures
        spec_parse_card(spec_format_card(c), Some(c), today) == Ok::<CardV, Seq<char>>(c),
{
    reveal_strlit("Front:");
    reveal_strlit("Back:");
    reveal_strlit("Collection:");
    let fl = "Front:"@;
    let bl = "Back:"@;
    let cl = "Collection:"@;
    assert(label_ok(fl));
    assert(label_ok(bl));
    assert(label_ok(cl));
    let colv = match c.collection {
        Some(col) => col,
        None => Seq::<char>::empty(),
    };
    assert(trim_spec(colv) == colv) by {
        if c.collection is None {
            assert(trim_spec(Seq::<char>::empty()) =~= Seq::<char>::empty());
        }
    }
    let l0 = label_line(fl, c.front);
    let l1 = label_line(bl, c.back);
    let l2 = label_line(cl, colv);
    let text = spec_format_card(c);
    assert(no_newline(l0));
    assert(no_newline(l1));
    assert(no_newline(l2));
    assert(text =~= l0 + seq!['\n'] + (l1 + seq!['\n'] + l2));
    crate::text::lemma_lines_of_concat(l0, l1 + seq!['\n'] + l2);
    crate::text::lemma_lines_of_concat(l1, l2);
    assert(l2.len() > 0);
    assert(lines_of(l2) =~~= seq![l2]) by {
        if l2.last() == '\n' {
            assert(false);
        }
        lemma_find_from_is(l2, '\n', 0, l2.len() as int);
    }
    let lines = lines_of(text);
    assert(lines =~~= seq![l0, l1, l2]);

    let st0 = card_init();
    lemma_label_line(fl, c.front);
    let st1 = CardSt { front: Some(c.front), back: None, collection: None, seen_label: true };
    assert(card_step(st0, l0) == Ok::<CardSt, Seq<char>>(st1));
    lemma_label_line(bl, c.back);
    let st2 = CardSt { front: Some(c.front), back: Some(c.back), collection: None, seen_label: true };
    assert(card_step(st1, l1) == Ok::<CardSt, Seq<char>>(st2));
    lemma_label_line(cl, colv);
    let st3 = CardSt {
        front: Some(c.front),
        back: Some(c.back),
        collection: Some(c.collection),
        seen_label: true,
    };
    assert(card_step(st2, l2) == Ok::<CardSt, Seq<char>>(st3));
    assert(card_scan(lines, 3, st3) == Ok::<CardSt, Seq<char>>(st3));
    assert(card_scan(lines, 2, st2) == Ok::<CardSt, Seq<char>>(st3));
    assert(card_scan(lines, 1, st1) == Ok::<CardSt, Seq<char>>(st3));
    assert(card_scan(lines, 0, st0) == Ok::<CardSt, Seq<char>>(st3));
    assert(card_finalize(st3, Some(c), today) == Ok::<CardV, Seq<char>>(c)) by {
        assert((match card_finalize(st3, Some(c), today) {
            Ok(x) => x,
            Err(_) => c,
        }) =~~= c);
    }
}

} // verus!
