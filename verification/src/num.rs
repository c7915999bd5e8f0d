//! Decimal digit strings: parsing bounded unsigned numbers and rendering
//! numbers back, with the round-trip proved.

use vstd::prelude::*;

verus! {

pub open spec fn is_digit(c: char) -> bool {
    '0' <= c && c <= '9'
}

pub open spec fn all_digits(s: Seq<char>) -> bool {
    forall|i: int| 0 <= i < s.len() ==> is_digit(#[trigger] s[i])
}

pub open spec fn digit_val(c: char) -> int {
    (c as u32) - 48
}

pub open spec fn digit_char(d: int) -> char {
    ((48 + d) as u8) as char
}

/// Numeric value of a digit string, most significant digit first.
pub open spec fn digits_val(s: Seq<char>) -> int
    decreases s.len(),
{
    if s.len() == 0 {
        0
    } else {
        digits_val(s.drop_last()) * 10 + digit_val(s.last())
    }
}

/// Shortest decimal rendering of `n` (just "0" for zero).
pub open spec fn dec_rep(n: nat) -> Seq<char>
    decreases n,
{
    if n < 10 {
        seq![digit_char(n as int)]
    } else {
        dec_rep(n / 10).push(digit_char((n % 10) as int))
    }
}

pub open spec fn pow10(k: nat) -> int
    decreases k,
{
    if k == 0 {
        1
    } else {
        10 * pow10((k - 1) as nat)
    }
}

/// `s` left-padded with zeros to width `w` (unchanged when already wide enough).
pub open spec fn zero_pad(s: Seq<char>, w: int) -> Seq<char> {
    if s.len() >= w {
        s
    } else {
        Seq::new((w - s.len()) as nat, |i: int| '0') + s
    }
}

/// The powers of ten the record editors care about.
pub proof fn lemma_pow10_small()
    ensures
        pow10(2) == 100,
        pow10(4) == 10000,
        pow10(5) == 100000,
        pow10(9) == 1000000000,
        pow10(11) == 100000000000,
{
    reveal_with_fuel(pow10, 12);
}

pub proof fn lemma_digit_char(d: int)
    requires
        0 <= d < 10,
    ensures
        is_digit(digit_char(d)),
        digit_val(digit_char(d)) == d,
{
}

pub proof fn lemma_digits_val_nonneg(s: Seq<char>)
    requires
        all_digits(s),
    ensures
        digits_val(s) >= 0,
    decreases s.len(),
{
    if s.len() > 0 {
        lemma_digits_val_nonneg(s.drop_last());
    }
}

pub proof fn lemma_digits_val_bound(s: Seq<char>)
    requires
        all_digits(s),
    ensures
        digits_val(s) < pow10(s.len()),
    decreases s.len(),
{
    if s.len() > 0 {
        lemma_digits_val_bound(s.drop_last());
        lemma_digits_val_nonneg(s.drop_last());
    }
}

pub proof fn lemma_digits_val_take(s: Seq<char>, i: int)
    requires
        all_digits(s),
        0 <= i <= s.len(),
    ensures
        digits_val(s.take(i)) <= digits_val(s),
    decreases s.len(),
{
    if i < s.len() {
        assert(s.drop_last().take(i) =~= s.take(i));
        lemma_digits_val_take(s.drop_last(), i);
        lemma_digits_val_nonneg(s.drop_last());
    } else {
        assert(s.take(i) =~= s);
    }
}

pub proof fn lemma_dec_rep(n: nat)
    ensures
        dec_rep(n).len() >= 1,
        all_digits(dec_rep(n)),
        digits_val(dec_rep(n)) == n,
    decreases n,
{
    if n < 10 {
        lemma_digit_char(n as int);
        assert(dec_rep(n) == seq![digit_char(n as int)]);
        assert(dec_rep(n).drop_last() =~= Seq::<char>::empty());
        assert(digits_val(Seq::<char>::empty()) == 0);
        assert(digits_val(dec_rep(n)) == digits_val(dec_rep(n).drop_last()) * 10 + digit_val(
            dec_rep(n).last(),
        ));
        assert(dec_rep(n).last() == digit_char(n as int));
        assert(digits_val(dec_rep(n)) == n);
    } else {
        lemma_dec_rep(n / 10);
        vstd::arithmetic::div_mod::lemma_fundamental_div_mod(n as int, 10);
        assert(0 <= n % 10 < 10);
        lemma_digit_char((n % 10) as int);
        assert(dec_rep(n).drop_last() =~= dec_rep(n / 10));
        assert(dec_rep(n).last() == digit_char((n % 10) as int));
        assert(digits_val(dec_rep(n)) == digits_val(dec_rep(n / 10)) * 10 + (n % 10));
        assert(digits_val(dec_rep(n)) == n);
    }
}

pub proof fn lemma_dec_rep_len(n: nat, k: nat)
    requires
        k >= 1,
        n < pow10(k),
    ensures
        dec_rep(n).len() <= k,
    decreases n,
{
    if n >= 10 {
        assert(pow10(k) == 10 * pow10((k - 1) as nat));
        assert(n / 10 < pow10((k - 1) as nat));
        lemma_dec_rep_len(n / 10, (k - 1) as nat);
    }
}

pub proof fn lemma_digits_val_prepend_zeros(z: Seq<char>, s: Seq<char>)
    requires
        forall|i: int| 0 <= i < z.len() ==> z[i] == '0',
    ensures
        digits_val(z + s) == digits_val(s),
    decreases s.len(),
{
    if s.len() == 0 {
        assert(z + s =~= z);
        lemma_digits_val_all_zeros(z);
    } else {
        assert((z + s).drop_last() =~= z + s.drop_last());
        assert((z + s).last() == s.last());
        lemma_digits_val_prepend_zeros(z, s.drop_last());
    }
}

pub proof fn lemma_digits_val_all_zeros(z: Seq<char>)
    requires
        forall|i: int| 0 <= i < z.len() ==> z[i] == '0',
    ensures
        digits_val(z) == 0,
    decreases z.len(),
{
    if z.len() > 0 {
        lemma_digits_val_all_zeros(z.drop_last());
    }
}

/// Padded rendering of `n`: exactly width `w` when `n < pow10(w)`,
/// all digits, and its value is `n`.
pub proof fn lemma_zero_pad_dec(n: nat, w: nat)
    requires
        w >= 1,
        n < pow10(w),
    ensures
        zero_pad(dec_rep(n), w as int).len() == w,
        all_digits(zero_pad(dec_rep(n), w as int)),
        digits_val(zero_pad(dec_rep(n), w as int)) == n,
{
    lemma_dec_rep(n);
    lemma_dec_rep_len(n, w);
    let s = dec_rep(n);
    if s.len() < w {
        let z = Seq::new((w - s.len()) as nat, |i: int| '0');
        lemma_digits_val_prepend_zeros(z, s);
        assert(forall|i: int|
            0 <= i < (z + s).len() ==> is_digit(#[trigger] (z + s)[i])) by {
            assert(forall|i: int| 0 <= i < z.len() ==> (z + s)[i] == '0');
            assert(forall|i: int|
                z.len() <= i < (z + s).len() ==> (z + s)[i] == s[i - z.len()]);
        }
    }
}

// ---------------------------------------------------------------------------
// Executable counterparts
// ---------------------------------------------------------------------------

pub fn push_all(dst: &mut Vec<char>, src: &Vec<char>)
    ensures
        final(dst)@ == old(dst)@ + src@,
{
    let mut i: usize = 0;
    while i < src.len()
        invariant
            i <= src@.len(),
            dst@ =~= old(dst)@ + src@.take(i as int),
        decreases src@.len() - i,
    {
        dst.push(src[i]);
        assert(dst@ =~= old(dst)@ + src@.take(i + 1));
        i = i + 1;
    }
    assert(src@.take(src@.len() as int) =~= src@);
    assert(dst@ =~= old(dst)@ + src@);
}

pub fn push_str(dst: &mut Vec<char>, src: &str)
    ensures
        final(dst)@ == old(dst)@ + src@,
{
    let v = crate::text::chars_of(src);
    push_all(dst, &v);
}

pub fn u64_to_dec(n: u64) -> (r: Vec<char>)
    ensures
        r@ == dec_rep(n as nat),
    decreases n,
{
    if n < 10 {
        let c = ((48 + n as u8)) as char;
        proof {
            assert(c == digit_char(n as int));
        }
        let mut r: Vec<char> = Vec::new();
        r.push(c);
        assert(r@ =~= seq![digit_char(n as int)]);
        r
    } else {
        let mut r = u64_to_dec(n / 10);
        let c = ((48 + (n % 10) as u8)) as char;
        proof {
            assert(c == digit_char((n % 10) as int));
        }
        r.push(c);
        r
    }
}

/// Rendering of `n` left-padded with zeros to width `w`.
pub fn u64_to_dec_pad(n: u64, w: usize) -> (r: Vec<char>)
    ensures
        r@ == zero_pad(dec_rep(n as nat), w as int),
{
    let digits = u64_to_dec(n);
    if digits.len() >= w {
        proof {
            assert(digits@.len() >= w);
        }
        digits
    } else {
        let mut r: Vec<char> = Vec::new();
        let pad = w - digits.len();
        let mut i: usize = 0;
        while i < pad
            invariant
                i <= pad,
                r@ =~= Seq::new(i as nat, |k: int| '0'),
            decreases pad - i,
        {
            r.push('0');
            assert(r@ =~= Seq::new((i + 1) as nat, |k: int| '0'));
            i = i + 1;
        }
        push_all(&mut r, &digits);
        proof {
            assert(r@ =~= zero_pad(dec_rep(n as nat), w as int));
        }
        r
    }
}

/// Parse an unsigned decimal with a ceiling. `Some` exactly when the
/// input is non-empty, all digits, and its value is at most `bound`.
pub fn parse_uint(v: &Vec<char>, bound: u64) -> (r: Option<u64>)
    requires
        bound <= 1000000000000,
    ensures
        r is Some <==> (v@.len() > 0 && all_digits(v@) && digits_val(v@) <= bound),
        r matches Some(x) ==> x as int == digits_val(v@),
{
    let n = v.len();
    if n == 0 {
        return None;
    }
    let mut acc: u64 = 0;
    let mut i: usize = 0;
    while i < n
        invariant
            i <= n,
            n == v@.len(),
            n > 0,
            bound <= 1000000000000,
            all_digits(v@.take(i as int)),
            acc as int == digits_val(v@.take(i as int)),
            acc <= bound,
        decreases n - i,
    {
        let c = v[i];
        if !('0' <= c && c <= '9') {
            proof {
                assert(!is_digit(v@[i as int]));
            }
            return None;
        }
        let d: u64 = (c as u8 - 48) as u64;
        proof {
            assert(d as int == digit_val(v@[i as int]));
            assert(d < 10);
        }
        let next = acc * 10 + d;
        proof {
            assert(v@.take(i + 1).drop_last() =~= v@.take(i as int));
            assert(v@.take(i + 1).last() == v@[i as int]);
            assert(digits_val(v@.take(i + 1)) == next as int);
        }
        if next > bound {
            proof {
                lemma_digits_val_take_full(v@, i + 1, bound as int);
            }
            return None;
        }
        acc = next;
        i = i + 1;
    }
    proof {
        assert(v@.take(n as int) =~= v@);
    }
    Some(acc)
}

/// If some prefix of a digit string already exceeds the bound, so does the
/// whole string (provided the rest is digits too); contrapositively, a
/// string within the bound has all prefixes within the bound. Stated in
/// the form the parser needs: a prefix value above the bound refutes
/// `Some`.
proof fn lemma_digits_val_take_full(s: Seq<char>, i: int, bound: int)
    requires
        0 <= i <= s.len(),
        all_digits(s.take(i)),
        digits_val(s.take(i)) > bound,
    ensures
        all_digits(s) ==> digits_val(s) > bound,
{
    if all_digits(s) {
        lemma_digits_val_take(s, i);
    }
}

} // verus!
