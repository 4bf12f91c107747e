//! Values of digit strings, and decimal rendering of values.

use vstd::arithmetic::div_mod::lemma_fundamental_div_mod_converse;
use vstd::prelude::*;

use crate::chars::digit_val;

verus! {

/// The value of a digit string read in the given base, most significant
/// digit first.
pub open spec fn digits_val(s: Seq<char>, base: int) -> int
    decreases s.len(),
{
    if s.len() == 0 {
        0
    } else {
        digits_val(s.drop_last(), base) * base + digit_val(s.last())
    }
}

/// The character for one decimal digit.
pub open spec fn dec_digit(d: int) -> char {
    if d == 0 { '0' }
    else if d == 1 { '1' }
    else if d == 2 { '2' }
    else if d == 3 { '3' }
    else if d == 4 { '4' }
    else if d == 5 { '5' }
    else if d == 6 { '6' }
    else if d == 7 { '7' }
    else if d == 8 { '8' }
    else if d == 9 { '9' }
    else { '?' }
}

/// The canonical decimal text of a non-negative value: no sign, no leading
/// zero except for the value zero itself.
pub open spec fn dec_rep(n: int) -> Seq<char>
    decreases n,
{
    if n < 10 {
        seq![dec_digit(n)]
    } else {
        dec_rep(n / 10).push(dec_digit(n % 10))
    }
}

/// A digit string with its leading zeros removed; a string of zeros alone
/// keeps its last one.
pub open spec fn strip_zeros(s: Seq<char>) -> Seq<char>
    decreases s.len(),
{
    if s.len() > 1 && s[0] == '0' {
        strip_zeros(s.drop_first())
    } else {
        s
    }
}

/// A digit string's value is never negative.
pub proof fn lemma_digits_val_nonneg(s: Seq<char>, base: int)
    requires
        base >= 2,
    ensures
        digits_val(s, base) >= 0,
    decreases s.len(),
{
    if s.len() > 0 {
        lemma_digits_val_nonneg(s.drop_last(), base);
        assert(digits_val(s.drop_last(), base) * base >= 0) by (nonlinear_arith)
            requires
                digits_val(s.drop_last(), base) >= 0,
                base >= 2,
        ;
    }
}

/// Appending a digit multiplies the value by the base and adds the digit.
pub proof fn lemma_digits_val_push(s: Seq<char>, c: char, base: int)
    ensures
        digits_val(s.push(c), base) == digits_val(s, base) * base + digit_val(c),
{
    assert(s.push(c).drop_last() =~= s);
    assert(s.push(c).last() == c);
}

/// Appending a digit never shrinks the value.
pub proof fn lemma_digits_val_grows(s: Seq<char>, c: char, base: int)
    requires
        base >= 2,
    ensures
        digits_val(s.push(c), base) >= digits_val(s, base),
{
    lemma_digits_val_nonneg(s, base);
    lemma_digits_val_push(s, c, base);
    assert(digits_val(s, base) * base + digit_val(c) >= digits_val(s, base)) by (nonlinear_arith)
        requires
            digits_val(s, base) >= 0,
            base >= 2,
            digit_val(c) >= 0,
    ;
}

/// A leading zero does not change a digit string's value.
proof fn lemma_leading_zero(s: Seq<char>, base: int)
    requires
        s.len() >= 1,
        s[0] == '0',
    ensures
        digits_val(s, base) == digits_val(s.drop_first(), base),
    decreases s.len(),
{
    if s.len() == 1 {
        assert(s.drop_last() =~= Seq::<char>::empty());
        assert(s.drop_first() =~= Seq::<char>::empty());
        assert(s.last() == '0');
    } else {
        lemma_leading_zero(s.drop_last(), base);
        assert(s.drop_last().drop_first() =~= s.drop_first().drop_last());
        assert(s.drop_first().last() == s.last());
    }
}

/// Removing all leading zeros does not change a digit string's value.
pub proof fn lemma_strip_zeros_val(s: Seq<char>, base: int)
    ensures
        digits_val(strip_zeros(s), base) == digits_val(s, base),
    decreases s.len(),
{
    if s.len() > 1 && s[0] == '0' {
        lemma_leading_zero(s, base);
        lemma_strip_zeros_val(s.drop_first(), base);
    }
}

/// What stripping leading zeros leaves: a non-empty suffix of the string,
/// with no leading zero unless it is the single digit `0`.
pub proof fn lemma_strip_zeros_shape(s: Seq<char>)
    requires
        s.len() >= 1,
    ensures
        1 <= strip_zeros(s).len() <= s.len(),
        strip_zeros(s) == s.skip(s.len() - strip_zeros(s).len()),
        strip_zeros(s).len() > 1 ==> strip_zeros(s)[0] != '0',
        strip_zeros(s).len() == 1 ==> (strip_zeros(s)[0] == s.last()),
    decreases s.len(),
{
    if s.len() > 1 && s[0] == '0' {
        lemma_strip_zeros_shape(s.drop_first());
        assert(s.drop_first() =~= s.skip(1));
        assert(s.skip(1).skip(s.skip(1).len() - strip_zeros(s.skip(1)).len()) =~= s.skip(
            s.len() - strip_zeros(s.skip(1)).len(),
        ));
    } else {
        assert(strip_zeros(s) == s);
        assert(s.skip(0) =~= s);
    }
}

/// A digit string with a non-zero leading digit has a value of at least one.
proof fn lemma_nonzero_lead(s: Seq<char>)
    requires
        s.len() >= 1,
        s[0] != '0',
        forall|i: int| 0 <= i < s.len() ==> digit_val(s[i]) < 10,
    ensures
        digits_val(s, 10) >= 1,
    decreases s.len(),
{
    if s.len() == 1 {
        assert(s.drop_last() =~= Seq::<char>::empty());
        assert(digit_val(s.last()) >= 1);
    } else {
        lemma_nonzero_lead(s.drop_last());
        assert(digits_val(s.drop_last(), 10) * 10 >= 10) by (nonlinear_arith)
            requires
                digits_val(s.drop_last(), 10) >= 1,
        ;
    }
}

/// Rendering the value of a digit string without a leading zero gives that
/// string back.
proof fn lemma_dec_rep_exact(s: Seq<char>)
    requires
        s.len() >= 1,
        s.len() > 1 ==> s[0] != '0',
        forall|i: int| 0 <= i < s.len() ==> digit_val(s[i]) < 10,
    ensures
        dec_rep(digits_val(s, 10)) == s,
    decreases s.len(),
{
    if s.len() == 1 {
        assert(s.drop_last() =~= Seq::<char>::empty());
        assert(s.last() == s[0]);
        assert(digits_val(Seq::<char>::empty(), 10) == 0);
        assert(digits_val(s, 10) == digits_val(s.drop_last(), 10) * 10 + digit_val(s.last()));
        assert(digits_val(s, 10) == digit_val(s[0]));
        assert(dec_digit(digit_val(s[0])) == s[0]);
        assert(seq![dec_digit(digits_val(s, 10))] =~= s);
    } else {
        let t = s.drop_last();
        let d = digit_val(s.last());
        let v = digits_val(s, 10);
        let w = digits_val(t, 10);
        lemma_nonzero_lead(t);
        assert(w * 10 >= 10) by (nonlinear_arith)
            requires
                w >= 1,
        ;
        lemma_fundamental_div_mod_converse(v, 10, w, d);
        lemma_dec_rep_exact(t);
        assert(dec_rep(v) == dec_rep(w).push(dec_digit(d)));
        assert(dec_digit(digit_val(s.last())) == s.last());
        assert(t.push(s.last()) =~= s);
    }
}

/// Rendering the value of any decimal digit string gives the string with
/// its leading zeros normalized away.
pub proof fn lemma_dec_rep_strip(s: Seq<char>)
    requires
        s.len() >= 1,
        forall|i: int| 0 <= i < s.len() ==> digit_val(s[i]) < 10,
    ensures
        dec_rep(digits_val(s, 10)) == strip_zeros(s),
{
    lemma_strip_zeros_val(s, 10);
    lemma_strip_zeros_shape(s);
    let t = strip_zeros(s);
    assert(forall|i: int| 0 <= i < t.len() ==> digit_val(#[trigger] t[i]) < 10) by {
        assert(forall|i: int| 0 <= i < t.len() ==> #[trigger] t[i] == s[s.len() - t.len() + i]);
    }
    lemma_dec_rep_exact(t);
}

/// The decimal digit character for a value below ten.
pub fn dec_digit_char(d: u64) -> (c: char)
    requires
        d < 10,
    ensures
        c == dec_digit(d as int),
{
    match d {
        0 => '0',
        1 => '1',
        2 => '2',
        3 => '3',
        4 => '4',
        5 => '5',
        6 => '6',
        7 => '7',
        8 => '8',
        _ => '9',
    }
}

/// Appends the decimal text of `n` to `s`.
fn push_dec(n: u64, s: &mut String)
    ensures
        final(s)@ == old(s)@ + dec_rep(n as int),
    decreases n,
{
    if n < 10 {
        s.push(dec_digit_char(n));
        proof {
            assert(old(s)@.push(dec_digit(n as int)) =~= old(s)@ + seq![dec_digit(n as int)]);
        }
    } else {
        push_dec(n / 10, s);
        s.push(dec_digit_char(n % 10));
        proof {
            assert((old(s)@ + dec_rep(n as int / 10)).push(dec_digit(n as int % 10)) =~= old(s)@
                + dec_rep(n as int / 10).push(dec_digit(n as int % 10)));
        }
    }
}

/// The canonical decimal text of `n`.
pub fn dec_string(n: u64) -> (s: String)
    ensures
        s@ == dec_rep(n as int),
{
    let mut s = String::new();
    push_dec(n, &mut s);
    proof {
        assert(Seq::<char>::empty() + dec_rep(n as int) =~= dec_rep(n as int));
    }
    s
}

} // verus!
