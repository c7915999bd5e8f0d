//! Character-sequence utilities shared by every record codec: whitespace
//! trimming, line splitting and joining, ASCII lowercasing, and substring
//! search, each with a specification-level definition that the executable
//! code is proved against.

use vstd::prelude::*;
use vstd::string::*;

verus! {

/// Whitespace characters recognized inside a single line.
pub open spec fn is_ws(c: char) -> bool {
    c == ' ' || c == '\t' || c == '\r'
}

pub open spec fn trim_start_rec(s: Seq<char>) -> Seq<char>
    decreases s.len(),
{
    if s.len() > 0 && is_ws(s[0]) {
        trim_start_rec(s.drop_first())
    } else {
        s
    }
}

pub open spec fn trim_end_rec(s: Seq<char>) -> Seq<char>
    decreases s.len(),
{
    if s.len() > 0 && is_ws(s.last()) {
        trim_end_rec(s.drop_last())
    } else {
        s
    }
}

/// Both ends trimmed of spaces, tabs and carriage returns.
pub open spec fn trim_spec(s: Seq<char>) -> Seq<char> {
    trim_end_rec(trim_start_rec(s))
}

/// Index of the first occurrence of `c` at or after `i`, or `s.len()` when absent.
pub open spec fn find_from(s: Seq<char>, c: char, i: int) -> int
    decreases s.len() - i,
{
    if i < 0 {
        find_from(s, c, 0)
    } else if i >= s.len() {
        s.len() as int
    } else if s[i] == c {
        i
    } else {
        find_from(s, c, i + 1)
    }
}

pub open spec fn find_char(s: Seq<char>, c: char) -> int {
    find_from(s, c, 0)
}

pub proof fn lemma_find_from(s: Seq<char>, c: char, i: int)
    requires
        0 <= i <= s.len(),
    ensures
        i <= find_from(s, c, i) <= s.len(),
        find_from(s, c, i) < s.len() ==> s[find_from(s, c, i)] == c,
        forall|k: int| i <= k < find_from(s, c, i) ==> s[k] != c,
    decreases s.len() - i,
{
    if i < s.len() && s[i] != c {
        lemma_find_from(s, c, i + 1);
    }
}

pub proof fn lemma_find_from_is(s: Seq<char>, c: char, i: int, j: int)
    requires
        0 <= i <= j <= s.len(),
        j < s.len() ==> s[j] == c,
        j == s.len() ==> true,
        forall|k: int| i <= k < j ==> s[k] != c,
    ensures
        j < s.len() ==> find_from(s, c, i) == j,
        (forall|k: int| i <= k < s.len() ==> s[k] != c) ==> find_from(s, c, i) == s.len(),
    decreases j - i,
{
    if i < j {
        lemma_find_from_is(s, c, i + 1, j);
    } else {
        if j == s.len() {
            lemma_find_from(s, c, i);
        }
    }
}

pub open spec fn lower_char(c: char) -> char {
    if 'A' <= c && c <= 'Z' {
        (((c as u8) + 32) as char)
    } else {
        c
    }
}

pub open spec fn lower_seq(s: Seq<char>) -> Seq<char> {
    s.map_values(|c: char| lower_char(c))
}

/// Splitting on every newline; the result always has at least one element.
pub open spec fn split_all(s: Seq<char>) -> Seq<Seq<char>>
    decreases s.len(),
{
    let j = find_char(s, '\n');
    if 0 <= j < s.len() {
        seq![s.take(j)] + split_all(s.skip(j + 1))
    } else {
        seq![s]
    }
}

/// The lines of a text, with the convention of `str::lines`: the empty
/// text has no lines, and one final newline does not open a last, empty
/// line.
pub open spec fn lines_of(s: Seq<char>) -> Seq<Seq<char>> {
    if s.len() == 0 {
        Seq::<Seq<char>>::empty()
    } else if s.last() == '\n' {
        split_all(s.drop_last())
    } else {
        split_all(s)
    }
}

pub open spec fn join_lines(ls: Seq<Seq<char>>) -> Seq<char>
    decreases ls.len(),
{
    if ls.len() == 0 {
        Seq::<char>::empty()
    } else if ls.len() == 1 {
        ls[0]
    } else {
        ls[0] + seq!['\n'] + join_lines(ls.drop_first())
    }
}

pub open spec fn no_newline(s: Seq<char>) -> bool {
    forall|i: int| 0 <= i < s.len() ==> s[i] != '\n'
}

pub proof fn lemma_split_concat(x: Seq<char>, rest: Seq<char>)
    requires
        no_newline(x),
    ensures
        split_all(x + seq!['\n'] + rest) =~~= seq![x] + split_all(rest),
{
    let s = x + seq!['\n'] + rest;
    assert(s[x.len() as int] == '\n');
    lemma_find_from_is(s, '\n', 0, x.len() as int);
    assert(find_char(s, '\n') == x.len());
    assert(s.take(x.len() as int) =~= x);
    assert(s.skip(x.len() as int + 1) =~= rest);
}

pub proof fn lemma_lines_of_concat(x: Seq<char>, rest: Seq<char>)
    requires
        no_newline(x),
    ensures
        lines_of(x + seq!['\n'] + rest) =~~= seq![x] + lines_of(rest),
{
    let s = x + seq!['\n'] + rest;
    if rest.len() == 0 {
        assert(s.last() == '\n');
        assert(s.drop_last() =~= x);
        assert(find_char(x, '\n') == x.len()) by {
            lemma_find_from_is(x, '\n', 0, x.len() as int);
        }
        assert(split_all(x) =~= seq![x]);
    } else if rest.last() == '\n' {
        assert(s.last() == '\n');
        assert(s.drop_last() =~= x + seq!['\n'] + rest.drop_last());
        lemma_split_concat(x, rest.drop_last());
    } else {
        assert(s.last() != '\n');
        lemma_split_concat(x, rest);
    }
}

/// Joining the split of a text gives the text back.
pub proof fn lemma_join_split(s: Seq<char>)
    ensures
        join_lines(split_all(s)) =~= s,
    decreases s.len(),
{
    let j = find_char(s, '\n');
    lemma_find_from(s, '\n', 0);
    if 0 <= j < s.len() {
        lemma_join_split(s.skip(j + 1));
        let ls = seq![s.take(j)] + split_all(s.skip(j + 1));
        assert(split_all(s.skip(j + 1)).len() >= 1) by {
            lemma_split_len(s.skip(j + 1));
        }
        assert(ls.drop_first() =~= split_all(s.skip(j + 1)));
        assert(join_lines(ls) =~= s.take(j) + seq!['\n'] + s.skip(j + 1));
        assert(s.take(j) + seq!['\n'] + s.skip(j + 1) =~= s);
    }
}

pub proof fn lemma_split_len(s: Seq<char>)
    ensures
        split_all(s).len() >= 1,
    decreases s.len(),
{
    let j = find_char(s, '\n');
    if 0 <= j < s.len() {
    }
}

/// A non-empty text that does not end in a newline splits into lines of
/// which the last is non-empty.
pub proof fn lemma_split_last_nonempty(s: Seq<char>)
    requires
        s.len() > 0,
        s.last() != '\n',
    ensures
        split_all(s).last().len() > 0,
    decreases s.len(),
{
    let j = find_char(s, '\n');
    lemma_find_from(s, '\n', 0);
    if 0 <= j < s.len() {
        let tail = s.skip(j + 1);
        assert(s[j] == '\n');
        assert(j != s.len() - 1);
        assert(tail.len() > 0);
        assert(tail.last() == s.last());
        lemma_split_last_nonempty(tail);
        lemma_split_len(tail);
        assert(split_all(s).last() == split_all(tail).last());
    }
}

// ---------------------------------------------------------------------------
// Executable counterparts
// ---------------------------------------------------------------------------

/// The characters of a string slice, in order.
pub fn chars_of(s: &str) -> (r: Vec<char>)
    ensures
        r@ == s@,
{
    let n = s.unicode_len();
    let mut r: Vec<char> = Vec::new();
    let mut i: usize = 0;
    while i < n
        invariant
            i <= n,
            n == s@.len(),
            r@ =~= s@.take(i as int),
        decreases n - i,
    {
        let c = s.get_char(i);
        r.push(c);
        assert(r@ =~= s@.take(i + 1));
        i = i + 1;
    }
    assert(s@.take(n as int) =~= s@);
    r
}

/// Relies on `String: FromIterator<char>`: collecting characters yields
/// the string of exactly those characters, in order.
#[verifier::external_body]
pub fn string_from_chars(v: &Vec<char>) -> (r: String)
    ensures
        r@ == v@,
{
    v.iter().collect()
}

/// Copy of the characters in `[a, b)`.
pub fn sub_chars(v: &Vec<char>, a: usize, b: usize) -> (r: Vec<char>)
    requires
        a <= b <= v@.len(),
    ensures
        r@ == v@.subrange(a as int, b as int),
{
    let mut r: Vec<char> = Vec::new();
    let mut i: usize = a;
    while i < b
        invariant
            a <= i <= b <= v@.len(),
            r@ =~= v@.subrange(a as int, i as int),
        decreases b - i,
    {
        r.push(v[i]);
        assert(r@ =~= v@.subrange(a as int, i + 1));
        i = i + 1;
    }
    r
}

pub fn is_ws_exec(c: char) -> (r: bool)
    ensures
        r == is_ws(c),
{
    c == ' ' || c == '\t' || c == '\r'
}

pub proof fn lemma_trim_start_len(s: Seq<char>)
    ensures
        trim_start_rec(s).len() <= s.len(),
    decreases s.len(),
{
    if s.len() > 0 && is_ws(s[0]) {
        lemma_trim_start_len(s.drop_first());
    }
}

pub proof fn lemma_trim_end_len(s: Seq<char>)
    ensures
        trim_end_rec(s).len() <= s.len(),
    decreases s.len(),
{
    if s.len() > 0 && is_ws(s.last()) {
        lemma_trim_end_len(s.drop_last());
    }
}

/// A sequence equal to its own trim neither starts nor ends with
/// whitespace, and each one-sided trim leaves it unchanged.
pub proof fn lemma_trimmed_parts(s: Seq<char>)
    requires
        trim_spec(s) == s,
    ensures
        trim_start_rec(s) == s,
        trim_end_rec(s) == s,
        s.len() > 0 ==> !is_ws(s[0]) && !is_ws(s.last()),
{
    if s.len() > 0 && is_ws(s[0]) {
        lemma_trim_start_len(s.drop_first());
        lemma_trim_end_len(trim_start_rec(s.drop_first()));
        assert(trim_spec(s).len() < s.len());
        assert(false);
    }
    if s.len() > 0 && is_ws(s.last()) {
        lemma_trim_end_len(s.drop_last());
        assert(trim_end_rec(s).len() < s.len());
        assert(false);
    }
}

/// Trimming eats one leading space in front of an already-trimmed value.
pub proof fn lemma_trim_space_prefix(v: Seq<char>)
    requires
        trim_spec(v) == v,
    ensures
        trim_spec(seq![' '] + v) == v,
{
    let sv = seq![' '] + v;
    assert(is_ws(sv[0]));
    assert(sv.drop_first() =~= v);
    lemma_trimmed_parts(v);
}

proof fn lemma_trim_start_skip(s: Seq<char>, i: int)
    requires
        0 <= i <= s.len(),
        forall|k: int| 0 <= k < i ==> is_ws(s[k]),
        i < s.len() ==> !is_ws(s[i]),
    ensures
        trim_start_rec(s) =~= s.skip(i),
    decreases i,
{
    if i > 0 {
        assert(is_ws(s[0]));
        lemma_trim_start_skip(s.drop_first(), i - 1);
        assert(s.drop_first().skip(i - 1) =~= s.skip(i));
    } else {
        if s.len() > 0 {
            assert(!is_ws(s[0]));
        }
        assert(s.skip(0) =~= s);
    }
}

pub proof fn lemma_trim_end_take(s: Seq<char>, j: int)
    requires
        0 <= j <= s.len(),
        forall|k: int| j <= k < s.len() ==> is_ws(s[k]),
        j > 0 ==> !is_ws(s[j - 1]),
    ensures
        trim_end_rec(s) =~= s.take(j),
    decreases s.len(),
{
    if j < s.len() {
        assert(is_ws(s.last()));
        lemma_trim_end_take(s.drop_last(), j);
        assert(s.drop_last().take(j) =~= s.take(j));
    } else {
        if s.len() > 0 {
            assert(!is_ws(s.last()));
        }
        assert(s.take(s.len() as int) =~= s);
    }
}

/// Both ends trimmed, computed by scanning for the first and last
/// non-whitespace characters.
pub fn trim_chars(v: &Vec<char>) -> (r: Vec<char>)
    ensures
        r@ == trim_spec(v@),
{
    let n = v.len();
    let mut i: usize = 0;
    while i < n && is_ws_exec(v[i])
        invariant
            i <= n,
            n == v@.len(),
            forall|k: int| 0 <= k < i ==> is_ws(v@[k]),
        decreases n - i,
    {
        i = i + 1;
    }
    proof {
        lemma_trim_start_skip(v@, i as int);
    }
    let mut j: usize = n;
    while j > i && is_ws_exec(v[j - 1])
        invariant
            i <= j <= n,
            n == v@.len(),
            forall|k: int| j <= k < n ==> is_ws(v@[k]),
        decreases j,
    {
        j = j - 1;
    }
    proof {
        let t = v@.skip(i as int);
        lemma_trim_end_take(t, j - i);
        assert(t.take(j - i) =~= v@.subrange(i as int, j as int));
    }
    sub_chars(v, i, j)
}

/// trim leading whitespace only.
pub fn trim_start_chars(v: &Vec<char>) -> (r: Vec<char>)
    ensures
        r@ == trim_start_rec(v@),
{
    let n = v.len();
    let mut i: usize = 0;
    while i < n && is_ws_exec(v[i])
        invariant
            i <= n,
            n == v@.len(),
            forall|k: int| 0 <= k < i ==> is_ws(v@[k]),
        decreases n - i,
    {
        i = i + 1;
    }
    proof {
        lemma_trim_start_skip(v@, i as int);
    }
    sub_chars(v, i, n)
}

/// Index of the first occurrence of `c`, or the length when absent.
pub fn find_char_exec(v: &Vec<char>, c: char) -> (r: usize)
    ensures
        r as int == find_char(v@, c),
{
    let n = v.len();
    let mut i: usize = 0;
    while i < n && v[i] != c
        invariant
            i <= n,
            n == v@.len(),
            forall|k: int| 0 <= k < i ==> v@[k] != c,
        decreases n - i,
    {
        i = i + 1;
    }
    proof {
        lemma_find_from_is(v@, c, 0, i as int);
    }
    i
}

/// Does `v` read exactly as the literal `s`?
pub fn eq_str(v: &Vec<char>, s: &str) -> (r: bool)
    ensures
        r == (v@ == s@),
{
    let n = s.unicode_len();
    if v.len() != n {
        proof {
            assert(v@.len() != s@.len());
        }
        return false;
    }
    let mut i: usize = 0;
    while i < n
        invariant
            i <= n,
            n == s@.len(),
            n == v@.len(),
            forall|k: int| 0 <= k < i ==> v@[k] == s@[k],
        decreases n - i,
    {
        if v[i] != s.get_char(i) {
            return false;
        }
        i = i + 1;
    }
    proof {
        assert(v@ =~= s@);
    }
    true
}

pub fn lower_chars(v: &Vec<char>) -> (r: Vec<char>)
    ensures
        r@ == lower_seq(v@),
{
    let n = v.len();
    let mut r: Vec<char> = Vec::new();
    let mut i: usize = 0;
    while i < n
        invariant
            i <= n,
            n == v@.len(),
            r@ =~= lower_seq(v@).take(i as int),
        decreases n - i,
    {
        let c = v[i];
        let lc = if 'A' <= c && c <= 'Z' {
            ((c as u8) + 32) as char
        } else {
            c
        };
        assert(lc == lower_char(v@[i as int]));
        r.push(lc);
        assert(r@ =~= lower_seq(v@).take(i + 1));
        i = i + 1;
    }
    assert(lower_seq(v@).take(n as int) =~= lower_seq(v@));
    r
}

/// Split a text into its lines (the `lines_of` convention).
pub fn split_lines(text: &Vec<char>) -> (r: Vec<Vec<char>>)
    ensures
        r.deep_view() == lines_of(text@),
{
    let n = text.len();
    let mut r: Vec<Vec<char>> = Vec::new();
    let mut start: usize = 0;
    let mut i: usize = 0;
    proof {
        assert(text@.skip(0) =~= text@);
        assert(r.deep_view() =~= Seq::<Seq<char>>::empty());
        assert(r.deep_view() + lines_of(text@) =~~= lines_of(text@));
    }
    while i < n
        invariant
            start <= i <= n,
            n == text@.len(),
            forall|k: int| start <= k < i ==> text@[k] != '\n',
            lines_of(text@) =~~= r.deep_view() + lines_of(text@.skip(start as int)),
        decreases n - i,
    {
        if text[i] == '\n' {
            let seg = sub_chars(text, start, i);
            let ghost old_dv = r.deep_view();
            proof {
                let tail = text@.skip(start as int);
                let rest = text@.skip(i + 1);
                assert(tail =~= seg@ + seq!['\n'] + rest);
                lemma_lines_of_concat(seg@, rest);
            }
            r.push(seg);
            proof {
                assert(r.deep_view() =~~= old_dv.push(seg@));
                assert(old_dv.push(seg@) =~~= old_dv + seq![seg@]);
                assert(lines_of(text@) =~~= r.deep_view() + lines_of(text@.skip(i + 1)));
            }
            start = i + 1;
        }
        i = i + 1;
    }
    if start < n {
        let seg = sub_chars(text, start, n);
        let ghost old_dv = r.deep_view();
        proof {
            let tail = text@.skip(start as int);
            assert(tail =~= seg@);
            assert(tail.len() > 0 && tail.last() != '\n');
            lemma_find_from_is(tail, '\n', 0, tail.len() as int);
            assert(split_all(tail) =~= seq![tail]);
            assert(lines_of(tail) =~~= seq![seg@]);
        }
        r.push(seg);
        proof {
            assert(r.deep_view() =~~= old_dv.push(seg@));
            assert(old_dv.push(seg@) =~~= old_dv + seq![seg@]);
            assert(lines_of(text@) =~~= r.deep_view());
        }
    } else {
        proof {
            assert(text@.skip(start as int).len() == 0);
            assert(lines_of(text@.skip(start as int)) =~~= Seq::<Seq<char>>::empty());
            assert(lines_of(text@) =~~= r.deep_view());
        }
    }
    r
}

pub proof fn lemma_join_push(ls: Seq<Seq<char>>, x: Seq<char>)
    requires
        ls.len() > 0,
    ensures
        join_lines(ls.push(x)) =~= join_lines(ls) + seq!['\n'] + x,
    decreases ls.len(),
{
    if ls.len() == 1 {
        let p = ls.push(x);
        assert(p.len() == 2);
        assert(p.drop_first() =~= seq![x]);
        assert(join_lines(p.drop_first()) =~= x);
    } else {
        lemma_join_push(ls.drop_first(), x);
        assert(ls.push(x).drop_first() =~= ls.drop_first().push(x));
    }
}

/// Join lines with newline separators.
pub fn join_text(lines: &Vec<Vec<char>>) -> (r: Vec<char>)
    ensures
        r@ == join_lines(lines.deep_view()),
{
    let n = lines.len();
    let mut r: Vec<char> = Vec::new();
    if n == 0 {
        proof {
            assert(r@ =~= join_lines(lines.deep_view()));
        }
        return r;
    }
    let mut i: usize = 0;
    while i < n
        invariant
            i <= n,
            n == lines@.len(),
            i > 0 ==> r@ =~= join_lines(lines.deep_view().take(i as int)),
            i == 0 ==> r@ =~= Seq::<char>::empty(),
        decreases n - i,
    {
        if i > 0 {
            r.push('\n');
        }
        let line = &lines[i];
        let mut k: usize = 0;
        let ghost rbase = r@;
        while k < line.len()
            invariant
                k <= line@.len(),
                line@ == lines@[i as int]@,
                r@ =~= rbase + line@.take(k as int),
            decreases line@.len() - k,
        {
            r.push(line[k]);
            assert(r@ =~= rbase + line@.take(k + 1));
            k = k + 1;
        }
        proof {
            assert(line@.take(line@.len() as int) =~= line@);
            let dv = lines.deep_view();
            assert(dv[i as int] == line@);
            if i == 0 {
                assert(dv.take(1) =~= seq![line@]);
                assert(join_lines(dv.take(1)) =~= line@);
                assert(r@ =~= line@);
            } else {
                assert(dv.take(i as int).len() > 0);
                lemma_join_push(dv.take(i as int), line@);
                assert(dv.take(i + 1) =~= dv.take(i as int).push(line@));
            }
        }
        i = i + 1;
    }
    proof {
        assert(lines.deep_view().take(n as int) =~= lines.deep_view());
    }
    r
}

/// Index of the first whitespace character at or after `i`, or the
/// length when there is none.
pub open spec fn find_ws_from(s: Seq<char>, i: int) -> int
    decreases s.len() - i,
{
    if i < 0 {
        find_ws_from(s, 0)
    } else if i >= s.len() {
        s.len() as int
    } else if is_ws(s[i]) {
        i
    } else {
        find_ws_from(s, i + 1)
    }
}

pub proof fn lemma_find_ws_from_is(s: Seq<char>, i: int, j: int)
    requires
        0 <= i <= j <= s.len(),
        j < s.len() ==> is_ws(s[j]),
        forall|k: int| i <= k < j ==> !is_ws(s[k]),
    ensures
        j < s.len() ==> find_ws_from(s, i) == j,
        (forall|k: int| i <= k < s.len() ==> !is_ws(s[k])) ==> find_ws_from(s, i) == s.len(),
    decreases j - i,
{
    if i < j {
        lemma_find_ws_from_is(s, i + 1, j);
    }
}

/// The whitespace-separated words of a line, in order, without the
/// whitespace.
pub open spec fn split_ws_from(s: Seq<char>, i: int) -> Seq<Seq<char>>
    decreases s.len() - i,
{
    if i < 0 {
        split_ws_from(s, 0)
    } else if i >= s.len() {
        Seq::empty()
    } else if is_ws(s[i]) {
        split_ws_from(s, i + 1)
    } else {
        let j0 = find_ws_from(s, i);
        // The guard is never taken: a word's end lies past its first
        // character and within the line; it only makes the recursion
        // structurally smaller.
        let j = if i < j0 <= s.len() {
            j0
        } else {
            i + 1
        };
        seq![s.subrange(i, j)] + split_ws_from(s, j)
    }
}

/// Words joined with single spaces.
pub open spec fn join_space(ws: Seq<Seq<char>>) -> Seq<char>
    decreases ws.len(),
{
    if ws.len() == 0 {
        Seq::<char>::empty()
    } else if ws.len() == 1 {
        ws[0]
    } else {
        ws[0] + seq![' '] + join_space(ws.drop_first())
    }
}

pub proof fn lemma_join_space_push(ws: Seq<Seq<char>>, x: Seq<char>)
    requires
        ws.len() > 0,
    ensures
        join_space(ws.push(x)) =~= join_space(ws) + seq![' '] + x,
    decreases ws.len(),
{
    if ws.len() == 1 {
        let p = ws.push(x);
        assert(p.drop_first() =~= seq![x]);
        assert(join_space(p.drop_first()) =~= x);
    } else {
        lemma_join_space_push(ws.drop_first(), x);
        assert(ws.push(x).drop_first() =~= ws.drop_first().push(x));
    }
}

/// Tokenize a line into its whitespace-separated words.
pub fn split_ws_exec(v: &Vec<char>) -> (r: Vec<Vec<char>>)
    ensures
        r.deep_view() == split_ws_from(v@, 0),
{
    let n = v.len();
    let mut r: Vec<Vec<char>> = Vec::new();
    let mut i: usize = 0;
    proof {
        assert(r.deep_view() =~~= Seq::<Seq<char>>::empty());
        assert(split_ws_from(v@, 0) =~~= r.deep_view() + split_ws_from(v@, 0));
    }
    while i < n
        invariant
            i <= n,
            n == v@.len(),
            split_ws_from(v@, 0) =~~= r.deep_view() + split_ws_from(v@, i as int),
        decreases n - i,
    {
        if is_ws_exec(v[i]) {
            proof {
                assert(split_ws_from(v@, i as int) == split_ws_from(v@, i + 1));
            }
            i = i + 1;
        } else {
            let mut j: usize = i + 1;
            while j < n && !is_ws_exec(v[j])
                invariant
                    i < j <= n,
                    n == v@.len(),
                    !is_ws(v@[i as int]),
                    forall|k: int| i <= k < j ==> !is_ws(v@[k]),
                decreases n - j,
            {
                j = j + 1;
            }
            proof {
                lemma_find_ws_from_is(v@, i as int, j as int);
                assert(find_ws_from(v@, i as int) == j as int);
            }
            let word = sub_chars(v, i, j);
            let ghost old_dv = r.deep_view();
            proof {
                assert(word@ =~= v@.subrange(i as int, j as int));
                assert(split_ws_from(v@, i as int) == seq![v@.subrange(i as int, j as int)]
                    + split_ws_from(v@, j as int));
            }
            r.push(word);
            proof {
                assert(r.deep_view() =~~= old_dv.push(word@));
                assert(old_dv.push(word@) =~~= old_dv + seq![word@]);
                assert(split_ws_from(v@, 0) =~~= r.deep_view() + split_ws_from(v@, j as int));
            }
            i = j;
        }
    }
    proof {
        assert(split_ws_from(v@, n as int) =~~= Seq::<Seq<char>>::empty());
        assert(split_ws_from(v@, 0) =~~= r.deep_view());
    }
    r
}

pub open spec fn has_prefix(s: Seq<char>, p: Seq<char>) -> bool {
    p.len() <= s.len() && s.subrange(0, p.len() as int) == p
}

pub fn starts_with_lit(v: &Vec<char>, p: &str) -> (r: bool)
    ensures
        r == has_prefix(v@, p@),
{
    let m = p.unicode_len();
    if v.len() < m {
        return false;
    }
    let mut i: usize = 0;
    while i < m
        invariant
            i <= m,
            m == p@.len(),
            m <= v@.len(),
            forall|k: int| 0 <= k < i ==> v@[k] == p@[k],
        decreases m - i,
    {
        if v[i] != p.get_char(i) {
            proof {
                assert(v@.subrange(0, m as int)[i as int] != p@[i as int]);
            }
            return false;
        }
        i = i + 1;
    }
    proof {
        assert(v@.subrange(0, m as int) =~= p@);
    }
    true
}

/// A `String` whose characters are those of the literal.
pub fn lit_string(s: &str) -> (r: String)
    ensures
        r@ == s@,
{
    s.to_owned()
}

// ---------------------------------------------------------------------------
// Substring search (for stripping "(options: ...)" style hints)
// ---------------------------------------------------------------------------

/// Index of the first occurrence of `pat` at or after `i`, or `s.len()`
/// when there is none.
pub open spec fn find_sub_from(s: Seq<char>, pat: Seq<char>, i: int) -> int
    decreases s.len() - i,
{
    if i < 0 {
        find_sub_from(s, pat, 0)
    } else if pat.len() == 0 {
        if i <= s.len() {
            i
        } else {
            s.len() as int
        }
    } else if i + pat.len() > s.len() {
        s.len() as int
    } else if s.subrange(i, i + pat.len()) == pat {
        i
    } else {
        find_sub_from(s, pat, i + 1)
    }
}

pub open spec fn find_sub(s: Seq<char>, pat: Seq<char>) -> int {
    find_sub_from(s, pat, 0)
}

/// When some character of the pattern occurs nowhere in `s`, the pattern
/// occurs nowhere in `s`.
pub proof fn lemma_find_sub_absent(s: Seq<char>, pat: Seq<char>, p: int, i: int)
    requires
        0 <= p < pat.len(),
        forall|k: int| 0 <= k < s.len() ==> s[k] != pat[p],
        0 <= i,
    ensures
        find_sub_from(s, pat, i) == s.len(),
    decreases s.len() - i,
{
    if i + pat.len() <= s.len() {
        assert(s.subrange(i, i + pat.len()) != pat) by {
            assert(s[i + p] != pat[p]);
            assert(s.subrange(i, i + pat.len())[p] == s[i + p]);
        }
        lemma_find_sub_absent(s, pat, p, i + 1);
    }
}

pub fn find_sub_exec(v: &Vec<char>, pat: &str) -> (r: usize)
    ensures
        r as int == find_sub(v@, pat@),
{
    let n = v.len();
    let m = pat.unicode_len();
    let mut i: usize = 0;
    while m <= n && i <= n - m
        invariant
            0 <= i,
            i <= n + 1,
            m > n ==> i == 0,
            n == v@.len(),
            m == pat@.len(),
            find_sub(v@, pat@) == find_sub_from(v@, pat@, i as int),
        decreases n - i,
    {
        let mut k: usize = 0;
        let mut hit = true;
        while k < m
            invariant
                k <= m,
                i + m <= n,
                n == v@.len(),
                m == pat@.len(),
                hit == (forall|q: int| 0 <= q < k ==> v@[i + q] == pat@[q]),
            decreases m - k,
        {
            if v[i + k] != pat.get_char(k) {
                hit = false;
                k = m;
            } else {
                k = k + 1;
            }
        }
        if hit {
            proof {
                assert(v@.subrange(i as int, i + m) =~= pat@);
            }
            return i;
        }
        proof {
            assert(v@.subrange(i as int, i + m) != pat@) by {
                assert(exists|q: int| 0 <= q < m && v@[i + q] != pat@[q]);
                let q = choose|q: int| 0 <= q < m && v@[i + q] != pat@[q];
                assert(v@.subrange(i as int, i + m)[q] == v@[i + q]);
            }
        }
        i = i + 1;
    }
    n
}

/// Pin down the first occurrence of a pattern when every earlier
/// position differs already in the first character.
pub proof fn lemma_find_sub_at(s: Seq<char>, pat: Seq<char>, j: int, i: int)
    requires
        pat.len() > 0,
        0 <= i <= j,
        j + pat.len() <= s.len(),
        s.subrange(j, j + pat.len()) == pat,
        forall|k: int| 0 <= k < j ==> s[k] != pat[0],
    ensures
        find_sub_from(s, pat, i) == j,
    decreases j - i,
{
    if i < j {
        assert(s.subrange(i, i + pat.len()) != pat) by {
            assert(s.subrange(i, i + pat.len())[0] == s[i]);
        }
        lemma_find_sub_at(s, pat, j, i + 1);
    }
}

/// When one character of the pattern occurs nowhere in `s`, stripping at
/// the pattern leaves `s` unchanged.
pub proof fn lemma_strip_pat_id(s: Seq<char>, pat: Seq<char>, p: int)
    requires
        0 <= p < pat.len(),
        forall|k: int| 0 <= k < s.len() ==> s[k] != pat[p],
    ensures
        strip_pat(s, pat) == s,
{
    lemma_find_sub_absent(s, pat, p, 0);
}

/// Everything before the first occurrence of `pat`, trimmed at the end;
/// the whole sequence when `pat` does not occur.
pub open spec fn strip_pat(s: Seq<char>, pat: Seq<char>) -> Seq<char> {
    let j = find_sub(s, pat);
    if j == s.len() {
        s
    } else {
        trim_end_rec(s.take(j))
    }
}

pub fn strip_pat_exec(v: &Vec<char>, pat: &str) -> (r: Vec<char>)
    ensures
        r@ == strip_pat(v@, pat@),
{
    let j = find_sub_exec(v, pat);
    if j == v.len() {
        let mut r: Vec<char> = Vec::new();
        push_all_chars(&mut r, v);
        proof {
            assert(r@ =~= v@);
        }
        r
    } else {
        proof {
            lemma_find_sub_le(v@, pat@, 0);
        }
        let head = sub_chars(v, 0, j);
        proof {
            assert(head@ =~= v@.take(j as int));
        }
        trim_end_chars(&head)
    }
}

fn push_all_chars(dst: &mut Vec<char>, src: &Vec<char>)
    ensures
        final(dst)@ == old(dst)@ + src@,
{
    let mut i: usize = 0;
    while i < src.len()
        invariant
            i <= src@.len(),
            dst@ =~= old(dst)@ + src@.take(i as int),
        decreases src@.len() - i,
    {
        dst.push(src[i]);
        assert(dst@ =~= old(dst)@ + src@.take(i + 1));
        i = i + 1;
    }
    assert(src@.take(src@.len() as int) =~= src@);
}

pub fn trim_end_chars(v: &Vec<char>) -> (r: Vec<char>)
    ensures
        r@ == trim_end_rec(v@),
{
    let n = v.len();
    let mut j: usize = n;
    while j > 0 && is_ws_exec(v[j - 1])
        invariant
            j <= n,
            n == v@.len(),
            forall|k: int| j <= k < n ==> is_ws(v@[k]),
        decreases j,
    {
        j = j - 1;
    }
    proof {
        lemma_trim_end_take(v@, j as int);
        assert(v@.take(j as int) =~= v@.subrange(0, j as int));
    }
    sub_chars(v, 0, j)
}

/// The bound `find_sub` returns is within the sequence's length.
pub proof fn lemma_find_sub_le(s: Seq<char>, pat: Seq<char>, i: int)
    requires
        0 <= i,
    ensures
        find_sub_from(s, pat, i) <= s.len(),
        pat.len() > 0 && find_sub_from(s, pat, i) < s.len() ==> find_sub_from(s, pat, i) + pat.len()
            <= s.len() && s.subrange(
            find_sub_from(s, pat, i),
            find_sub_from(s, pat, i) + pat.len(),
        ) == pat,
    decreases s.len() - i,
{
    if pat.len() == 0 {
    } else if i + pat.len() > s.len() {
    } else if s.subrange(i, i + pat.len()) == pat {
    } else {
        lemma_find_sub_le(s, pat, i + 1);
    }
}

} // verus!
