//! Machinery shared by the six record codecs: every editor text is a
//! stack of `Label: value` lines followed, for most kinds, by a
//! free-text body introduced by its own label. A line is classified by
//! the text up to and including its first colon.

use vstd::prelude::*;
use crate::text::{
    find_char, is_ws, lemma_find_from_is, lemma_trim_end_take, lemma_trim_space_prefix,
    lemma_trimmed_parts, no_newline, trim_spec,
};

verus! {

/// A well-shaped field label: at least one character before the final
/// colon, no interior colon, and no leading whitespace.
pub open spec fn label_ok(lbl: Seq<char>) -> bool {
    lbl.len() >= 2 && lbl.last() == ':' && !is_ws(lbl[0]) && no_newline(lbl) && forall|k: int|
        0 <= k < lbl.len() - 1 ==> lbl[k] != ':'
}

/// The line a formatter writes for a field: the label, one space, the value.
pub open spec fn label_line(lbl: Seq<char>, v: Seq<char>) -> Seq<char> {
    lbl + seq![' '] + v
}

/// How the scanner takes a formatted field line apart: it trims to the
/// label-and-value form, finds the colon ending the label, and recovers
/// the trimmed value.
pub proof fn lemma_label_line(lbl: Seq<char>, v: Seq<char>)
    requires
        label_ok(lbl),
        trim_spec(v) == v,
    ensures
        trim_spec(label_line(lbl, v)) == if v.len() == 0 {
            lbl
        } else {
            label_line(lbl, v)
        },
        ({
            let t = trim_spec(label_line(lbl, v));
            &&& find_char(t, ':') == lbl.len() - 1
            &&& t.len() >= lbl.len()
            &&& t.take(lbl.len() as int) == lbl
            &&& trim_spec(t.skip(lbl.len() as int)) == v
        }),
{
    let line = label_line(lbl, v);
    lemma_trimmed_parts(v);
    assert(line[0] == lbl[0]);
    assert(crate::text::trim_start_rec(line) == line);
    if v.len() == 0 {
        assert(forall|k: int| lbl.len() <= k < line.len() ==> is_ws(line[k]));
        assert(line[lbl.len() - 1] == lbl.last());
        lemma_trim_end_take(line, lbl.len() as int);
        assert(line.take(lbl.len() as int) =~= lbl);
        let t = lbl;
        assert(t[lbl.len() - 1] == ':');
        lemma_find_from_is(t, ':', 0, lbl.len() - 1);
        assert(t.take(lbl.len() as int) =~= lbl);
        assert(t.skip(lbl.len() as int) =~= Seq::<char>::empty());
        assert(trim_spec(Seq::<char>::empty()) =~= Seq::<char>::empty());
    } else {
        assert(line.last() == v.last());
        assert(!is_ws(line.last()));
        lemma_trim_end_take(line, line.len() as int);
        assert(line.take(line.len() as int) =~= line);
        assert(trim_spec(line) == line);
        let t = line;
        assert(t[lbl.len() - 1] == lbl.last());
        assert(forall|k: int| 0 <= k < lbl.len() - 1 ==> t[k] == lbl[k]);
        lemma_find_from_is(t, ':', 0, lbl.len() - 1);
        assert(t.take(lbl.len() as int) =~= lbl);
        assert(t.skip(lbl.len() as int) =~= seq![' '] + v);
        lemma_trim_space_prefix(v);
    }
}

/// A value whose ends are not whitespace is its own trim.
pub proof fn lemma_trim_noop(s: Seq<char>)
    requires
        s.len() == 0 || (!is_ws(s[0]) && !is_ws(s.last())),
    ensures
        trim_spec(s) == s,
{
    assert(crate::text::trim_start_rec(s) == s);
    assert(crate::text::trim_end_rec(s) == s);
}

/// The captured body of a free-text section, with one trailing blank
/// line trimmed.
pub open spec fn body_text(body: Seq<Seq<char>>) -> Seq<char> {
    if body.len() > 0 && body.last().len() == 0 {
        crate::text::join_lines(body.drop_last())
    } else {
        crate::text::join_lines(body)
    }
}

/// Capturing the lines of a body with no trailing blank line gives the
/// body back.
pub proof fn lemma_body_text_lines(s: Seq<char>)
    requires
        s.len() == 0 || s.last() != '\n',
    ensures
        body_text(crate::text::lines_of(s)) == s,
{
    if s.len() == 0 {
        assert(crate::text::lines_of(s) =~~= Seq::<Seq<char>>::empty());
        assert(body_text(crate::text::lines_of(s)) =~= s);
    } else {
        crate::text::lemma_split_last_nonempty(s);
        crate::text::lemma_join_split(s);
        assert(body_text(crate::text::lines_of(s)) =~= s);
    }
}

/// Peeling one newline-terminated line off the front of a text.
pub proof fn lemma_lines_cons(x: Seq<char>, rest: Seq<char>)
    requires
        no_newline(x),
    ensures
        crate::text::lines_of(x + seq!['\n'] + rest) == seq![x] + crate::text::lines_of(rest),
{
    crate::text::lemma_lines_of_concat(x, rest);
}

/// A line that is exactly a label (as formatters write before a body
/// section) classifies as that label with an empty value.
pub proof fn lemma_label_only(lbl: Seq<char>)
    requires
        label_ok(lbl),
    ensures
        trim_spec(lbl) == lbl,
        find_char(lbl, ':') == lbl.len() - 1,
        lbl.take(lbl.len() as int) == lbl,
        trim_spec(lbl.skip(lbl.len() as int)) == Seq::<char>::empty(),
{
    assert(crate::text::trim_start_rec(lbl) == lbl);
    assert(!is_ws(lbl.last()));
    assert(crate::text::trim_end_rec(lbl) == lbl);
    assert(lbl[lbl.len() - 1] == ':');
    lemma_find_from_is(lbl, ':', 0, lbl.len() - 1);
    assert(lbl.take(lbl.len() as int) =~= lbl);
    assert(lbl.skip(lbl.len() as int) =~= Seq::<char>::empty());
}

} // verus!
