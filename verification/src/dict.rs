//! The spell-check word list and the note-taking path helpers: a
//! dictionary built from a newline-separated word list, membership
//! checks against it and a custom list, and the token cleanup used when
//! recognizing file paths in note text.

use vstd::prelude::*;
use crate::text::{
    chars_of, eq_str, lines_of, lower_chars, lower_seq, split_lines, string_from_chars, sub_chars,
    trim_chars, trim_spec,
};

verus! {

/// Trim characters of `set` off the front, repeatedly.
pub open spec fn trim_set_start(s: Seq<char>, set: Seq<char>) -> Seq<char>
    decreases s.len(),
{
    if s.len() > 0 && set.contains(s[0]) {
        trim_set_start(s.drop_first(), set)
    } else {
        s
    }
}

pub open spec fn trim_set_end(s: Seq<char>, set: Seq<char>) -> Seq<char>
    decreases s.len(),
{
    if s.len() > 0 && set.contains(s.last()) {
        trim_set_end(s.drop_last(), set)
    } else {
        s
    }
}

/// Both ends trimmed of the characters in `set`.
pub open spec fn trim_set(s: Seq<char>, set: Seq<char>) -> Seq<char> {
    trim_set_end(trim_set_start(s, set), set)
}

proof fn lemma_trim_set_start_skip(s: Seq<char>, set: Seq<char>, i: int)
    requires
        0 <= i <= s.len(),
        forall|k: int| 0 <= k < i ==> set.contains(s[k]),
        i < s.len() ==> !set.contains(s[i]),
    ensures
        trim_set_start(s, set) =~= s.skip(i),
    decreases i,
{
    if i > 0 {
        lemma_trim_set_start_skip(s.drop_first(), set, i - 1);
        assert(s.drop_first().skip(i - 1) =~= s.skip(i));
    } else {
        if s.len() > 0 {
            assert(!set.contains(s[0]));
        }
        assert(s.skip(0) =~= s);
    }
}

proof fn lemma_trim_set_end_take(s: Seq<char>, set: Seq<char>, j: int)
    requires
        0 <= j <= s.len(),
        forall|k: int| j <= k < s.len() ==> set.contains(s[k]),
        j > 0 ==> !set.contains(s[j - 1]),
    ensures
        trim_set_end(s, set) =~= s.take(j),
    decreases s.len(),
{
    if j < s.len() {
        lemma_trim_set_end_take(s.drop_last(), set, j);
        assert(s.drop_last().take(j) =~= s.take(j));
    } else {
        if s.len() > 0 {
            assert(!set.contains(s.last()));
        }
        assert(s.take(s.len() as int) =~= s);
    }
}

fn char_in_lit(c: char, set: &str) -> (r: bool)
    ensures
        r == set@.contains(c),
{
    let n = set.unicode_len();
    let mut i: usize = 0;
    while i < n
        invariant
            i <= n,
            n == set@.len(),
            forall|k: int| 0 <= k < i ==> set@[k] != c,
        decreases n - i,
    {
        if set.get_char(i) == c {
            return true;
        }
        i = i + 1;
    }
    proof {
        assert(forall|k: int| 0 <= k < set@.len() ==> set@[k] != c);
    }
    false
}

/// Trim the characters of the literal `set` off both ends of `v`.
pub fn trim_set_chars(v: &Vec<char>, set: &str) -> (r: Vec<char>)
    ensures
        r@ == trim_set(v@, set@),
{
    let n = v.len();
    let mut i: usize = 0;
    while i < n && char_in_lit(v[i], set)
        invariant
            i <= n,
            n == v@.len(),
            forall|k: int| 0 <= k < i ==> set@.contains(v@[k]),
        decreases n - i,
    {
        i = i + 1;
    }
    proof {
        lemma_trim_set_start_skip(v@, set@, i as int);
    }
    let mut j: usize = n;
    while j > i && char_in_lit(v[j - 1], set)
        invariant
            i <= j <= n,
            n == v@.len(),
            forall|k: int| j <= k < n ==> set@.contains(v@[k]),
        decreases j,
    {
        j = j - 1;
    }
    proof {
        let t = v@.skip(i as int);
        lemma_trim_set_end_take(t, set@, j - i);
        assert(t.take(j - i) =~= v@.subrange(i as int, j as int));
    }
    sub_chars(v, i, j)
}

/// Does the token look like a file-system path once surrounding quotes
/// are stripped: does it start with `/` or `~`?
pub fn looks_like_path(path: &str) -> (r: bool)
    ensures
        r == ({
            let t = trim_set(path@, "\""@);
            t.len() > 0 && (t[0] == '/' || t[0] == '~')
        }),
{
    let v = chars_of(path);
    let t = trim_set_chars(&v, "\"");
    t.len() > 0 && (t[0] == '/' || t[0] == '~')
}

/// The cleanup applied to a whitespace-separated token before testing it
/// as a path: punctuation and bracket characters are trimmed from both
/// ends.
pub open spec fn spec_normalize_token(s: Seq<char>) -> Seq<char> {
    trim_set(trim_set(trim_set(trim_set(s, " ,;')\"].["@), "("@), "["@), "]"@)
}

pub fn normalize_token(token: &str) -> (r: String)
    ensures
        r@ == spec_normalize_token(token@),
{
    let v = chars_of(token);
    let t1 = trim_set_chars(&v, " ,;')\"].[");
    let t2 = trim_set_chars(&t1, "(");
    let t3 = trim_set_chars(&t2, "[");
    let t4 = trim_set_chars(&t3, "]");
    string_from_chars(&t4)
}

// ---------------------------------------------------------------------------
// The word list
// ---------------------------------------------------------------------------

/// The words a list contributes, in order of first appearance: each
/// line trimmed and lowercased, empty lines dropped, and a word that
/// already appeared is not added again.
pub open spec fn dict_words(lines: Seq<Seq<char>>) -> Seq<Seq<char>>
    decreases lines.len(),
{
    if lines.len() == 0 {
        Seq::empty()
    } else {
        let prev = dict_words(lines.drop_last());
        let w = lower_seq(trim_spec(lines.last()));
        if w.len() > 0 && !prev.contains(w) {
            prev.push(w)
        } else {
            prev
        }
    }
}

/// The word list holds no duplicates, and holds exactly the non-empty
/// lowercased trimmed lines.
pub proof fn lemma_dict_words_props(lines: Seq<Seq<char>>)
    ensures
        forall|i: int, j: int|
            0 <= i < j < dict_words(lines).len() ==> dict_words(lines)[i] != dict_words(
                lines,
            )[j],
        forall|w: Seq<char>|
            dict_words(lines).contains(w) <==> (w.len() > 0 && exists|k: int|
                0 <= k < lines.len() && lower_seq(trim_spec(#[trigger] lines[k])) == w),
    decreases lines.len(),
{
    if lines.len() > 0 {
        lemma_dict_words_props(lines.drop_last());
        let prev = dict_words(lines.drop_last());
        let w = lower_seq(trim_spec(lines.last()));
        assert forall|x: Seq<char>| dict_words(lines).contains(x) implies (x.len() > 0
            && exists|k: int|
            0 <= k < lines.len() && lower_seq(trim_spec(#[trigger] lines[k])) == x) by {
            if prev.contains(x) {
                let k = choose|k: int|
                    0 <= k < lines.drop_last().len() && lower_seq(
                        trim_spec(#[trigger] lines.drop_last()[k]),
                    ) == x;
                assert(lines[k] == lines.drop_last()[k]);
            } else {
                assert(x == w);
                assert(lines[lines.len() - 1] == lines.last());
            }
        }
        assert forall|x: Seq<char>|
            (x.len() > 0 && exists|k: int|
                0 <= k < lines.len() && lower_seq(trim_spec(#[trigger] lines[k]))
                    == x) implies dict_words(lines).contains(x) by {
            let k = choose|k: int|
                0 <= k < lines.len() && lower_seq(trim_spec(#[trigger] lines[k])) == x;
            if k < lines.len() - 1 {
                assert(lines.drop_last()[k] == lines[k]);
                assert(prev.contains(x));
                if w.len() > 0 && !prev.contains(w) {
                    assert(dict_words(lines)[choose|i: int|
                        0 <= i < prev.len() && prev[i] == x] == x);
                }
            } else {
                assert(x == w);
                if !prev.contains(w) {
                    assert(dict_words(lines).last() == w);
                }
            }
        }
    }
}

/// A spell-check dictionary: the lowercased words of a word list.
pub struct SimpleDictionary {
    pub words: Vec<String>,
}

impl SimpleDictionary {
    /// Build a dictionary from a newline-separated word list; each word
    /// appears once, however often the list repeats it.
    pub fn from_wordlist(list: &str) -> (r: SimpleDictionary)
        ensures
            r.words.deep_view() == dict_words(lines_of(list@)),
            forall|i: int, j: int|
                0 <= i < j < r.words.deep_view().len() ==> r.words.deep_view()[i]
                    != r.words.deep_view()[j],
    {
        let chars = chars_of(list);
        let lines = split_lines(&chars);
        let ghost linesv = lines_of(list@);
        let mut words: Vec<String> = Vec::new();
        let n = lines.len();
        let mut i: usize = 0;
        proof {
            assert(linesv.take(0) =~~= Seq::<Seq<char>>::empty());
            assert(words.deep_view() =~~= dict_words(linesv.take(0)));
        }
        while i < n
            invariant
                i <= n,
                n == lines@.len(),
                lines.deep_view() == linesv,
                words.deep_view() =~~= dict_words(linesv.take(i as int)),
            decreases n - i,
        {
            let t = trim_chars(&lines[i]);
            let w = lower_chars(&t);
            let ghost pre = words.deep_view();
            proof {
                assert(lines.deep_view()[i as int] =~= lines@[i as int]@);
                assert(linesv[i as int] == lines@[i as int]@);
                assert(w@ == lower_seq(trim_spec(linesv[i as int])));
            }
            if w.len() > 0 && !contains_string(&words, &w) {
                words.push(string_from_chars(&w));
                proof {
                    assert(words.deep_view() =~~= pre.push(w@));
                }
            }
            proof {
                assert(linesv.take(i + 1).drop_last() =~~= linesv.take(i as int));
                assert(linesv.take(i + 1).last() == linesv[i as int]);
                assert(words.deep_view() =~~= dict_words(linesv.take(i + 1)));
            }
            i = i + 1;
        }
        proof {
            assert(linesv.take(n as int) =~~= linesv);
            lemma_dict_words_props(linesv);
        }
        SimpleDictionary { words }
    }

    /// Is the lowercased word in the custom list or the dictionary?
    pub fn check_word(&self, word: &str, custom: &Vec<String>) -> (r: bool)
        ensures
            r == (custom.deep_view().contains(lower_seq(word@)) || self.words.deep_view().contains(
                lower_seq(word@),
            )),
    {
        let v = chars_of(word);
        let w = lower_chars(&v);
        if contains_string(custom, &w) {
            return true;
        }
        contains_string(&self.words, &w)
    }
}

fn contains_string(hay: &Vec<String>, needle: &Vec<char>) -> (r: bool)
    ensures
        r == hay.deep_view().contains(needle@),
{
    let n = hay.len();
    let mut i: usize = 0;
    while i < n
        invariant
            i <= n,
            n == hay@.len(),
            forall|k: int| 0 <= k < i ==> hay.deep_view()[k] != needle@,
        decreases n - i,
    {
        if eq_str(needle, hay[i].as_str()) {
            proof {
                assert(hay.deep_view()[i as int] == needle@);
            }
            return true;
        }
        proof {
            assert(hay.deep_view()[i as int] == hay@[i as int]@);
        }
        i = i + 1;
    }
    proof {
        if hay.deep_view().contains(needle@) {
            let k = choose|k: int|
                0 <= k < hay.deep_view().len() && hay.deep_view()[k] == needle@;
            assert(false);
        }
    }
    false
}

} // verus!
