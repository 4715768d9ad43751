//! Decimal renderings of natural numbers, as used for CSV fields.

use vstd::prelude::*;

verus! {

/// The character of a decimal digit `d` (`d < 10`).
pub open spec fn digit_char(d: nat) -> char {
    (48 + d) as char
}

/// The shortest decimal rendering of `n` (no sign, no leading zero).
pub open spec fn decimal(n: nat) -> Seq<char>
    decreases n,
{
    if n < 10 {
        seq![digit_char(n)]
    } else {
        decimal(n / 10).push(digit_char(n % 10))
    }
}

/// The last `width` decimal digits of `n`, padded on the left with zeros.
pub open spec fn padded_decimal(n: nat, width: nat) -> Seq<char>
    decreases width,
{
    if width == 0 {
        Seq::empty()
    } else {
        padded_decimal(n / 10, (width - 1) as nat).push(digit_char(n % 10))
    }
}

/// Distinct numbers have distinct decimal renderings.
pub proof fn lemma_decimal_injective(a: nat, b: nat)
    requires
        decimal(a) == decimal(b),
    ensures
        a == b,
    decreases a,
{
    if a < 10 || b < 10 {
        if a >= 10 {
            assert(decimal(a).len() == decimal(a / 10).len() + 1);
            assert(decimal(a / 10).len() >= 1) by {
                lemma_decimal_nonempty(a / 10);
            }
            assert(decimal(b).len() == 1);
        } else if b >= 10 {
            assert(decimal(b).len() == decimal(b / 10).len() + 1);
            assert(decimal(b / 10).len() >= 1) by {
                lemma_decimal_nonempty(b / 10);
            }
            assert(decimal(a).len() == 1);
        } else {
            assert(decimal(a) == seq![digit_char(a)]);
            assert(decimal(b) == seq![digit_char(b)]);
            assert(decimal(a)[0] == decimal(b)[0]);
            lemma_digit_char_value(a);
            lemma_digit_char_value(b);
            assert(seq![digit_char(a)][0] == digit_char(a));
            assert(seq![digit_char(b)][0] == digit_char(b));
            assert(digit_char(a) == digit_char(b));
            assert(digit_char(a) as nat == digit_char(b) as nat);
        }
    } else {
        assert(decimal(a) == decimal(a / 10).push(digit_char(a % 10)));
        assert(decimal(b) == decimal(b / 10).push(digit_char(b % 10)));
        assert(decimal(a).last() == digit_char(a % 10));
        assert(decimal(b).last() == digit_char(b % 10));
        lemma_digit_char_value(a % 10);
        lemma_digit_char_value(b % 10);
        assert(a % 10 == b % 10);
        assert(decimal(a).drop_last() =~= decimal(a / 10));
        assert(decimal(b).drop_last() =~= decimal(b / 10));
        lemma_decimal_injective(a / 10, b / 10);
        assert(a == 10 * (a / 10) + a % 10) by (nonlinear_arith);
        assert(b == 10 * (b / 10) + b % 10) by (nonlinear_arith);
    }
}

/// A digit's character determines the digit.
pub proof fn lemma_digit_char_value(d: nat)
    requires
        d < 10,
    ensures
        digit_char(d) as nat == 48 + d,
{
}

/// A decimal rendering holds at least one digit.
pub proof fn lemma_decimal_nonempty(n: nat)
    ensures
        decimal(n).len() >= 1,
    decreases n,
{
    if n >= 10 {
        lemma_decimal_nonempty(n / 10);
    }
}

/// The number written by a string of decimal digits, most significant first.
pub open spec fn digits_value(s: Seq<char>) -> int
    decreases s.len(),
{
    if s.len() == 0 {
        0
    } else {
        digits_value(s.drop_last()) * 10 + (s.last() as int - 48)
    }
}

/// Whether every character of `s` is a decimal digit.
pub open spec fn all_digits(s: Seq<char>) -> bool {
    forall|i: int| 0 <= i < s.len() ==> '0' <= #[trigger] s[i] && s[i] <= '9'
}

/// `10` to the power `w`.
pub open spec fn pow10(w: nat) -> nat
    decreases w,
{
    if w == 0 {
        1
    } else {
        10 * pow10((w - 1) as nat)
    }
}

/// The decimal rendering of `n` is made of digits, reads back as `n`, and
/// starts with `0` only for `n == 0`.
pub proof fn lemma_decimal_reads_back(n: nat)
    ensures
        all_digits(decimal(n)),
        digits_value(decimal(n)) == n,
        decimal(n).len() >= 1,
        decimal(n)[0] == '0' ==> n == 0,
    decreases n,
{
    if n < 10 {
        lemma_digit_char_value(n);
        assert(decimal(n).drop_last() =~= Seq::<char>::empty());
        assert(digits_value(Seq::<char>::empty()) == 0);
        assert(decimal(n).last() == digit_char(n));
        assert(digits_value(decimal(n)) == digits_value(decimal(n).drop_last()) * 10 + (decimal(n).last() as int - 48));
    } else {
        lemma_decimal_reads_back(n / 10);
        lemma_digit_char_value(n % 10);
        assert(decimal(n).drop_last() =~= decimal(n / 10));
        assert(decimal(n).last() == digit_char(n % 10));
        assert(digits_value(decimal(n)) == digits_value(decimal(n).drop_last()) * 10 + (decimal(n).last() as int - 48));
        assert(decimal(n)[0] == decimal(n / 10)[0]);
        assert(n == 10 * (n / 10) + n % 10) by (nonlinear_arith);
        assert(n / 10 > 0);
    }
}

/// The zero-padded rendering of `n` on `width` digits has exactly `width`
/// digits and reads back as the remainder of `n` by `10^width`.
pub proof fn lemma_padded_decimal_reads_back(n: nat, width: nat)
    ensures
        padded_decimal(n, width).len() == width,
        all_digits(padded_decimal(n, width)),
        digits_value(padded_decimal(n, width)) == n % pow10(width),
    decreases width,
{
    if width == 0 {
        assert(n % 1 == 0) by (nonlinear_arith);
    } else {
        let w1 = (width - 1) as nat;
        lemma_padded_decimal_reads_back(n / 10, w1);
        lemma_digit_char_value(n % 10);
        assert(padded_decimal(n, width).drop_last() =~= padded_decimal(n / 10, w1));
        assert(pow10(w1) > 0) by {
            lemma_pow10_positive(w1);
        }
        vstd::arithmetic::div_mod::lemma_mod_breakdown(n as int, 10, pow10(w1) as int);
        assert(digits_value(padded_decimal(n, width)) == (n / 10) % pow10(w1) * 10 + n % 10);
        assert((n / 10) % pow10(w1) * 10 == 10 * ((n / 10) % pow10(w1))) by (nonlinear_arith);
    }
}

/// Powers of ten are positive.
pub proof fn lemma_pow10_positive(w: nat)
    ensures
        pow10(w) > 0,
    decreases w,
{
    if w > 0 {
        lemma_pow10_positive((w - 1) as nat);
    }
}

/// The one-character string of the digit `d`.
fn digit_str(d: usize) -> (s: &'static str)
    requires
        d < 10,
    ensures
        s@ == seq![digit_char(d as nat)],
{
    let digits = "0123456789";
    proof {
        reveal_strlit("0123456789");
    }
    digits.substring_char(d, d + 1)
}

/// Appends the decimal rendering of `n` to `out`.
pub fn push_decimal(out: &mut String, n: usize)
    ensures
        final(out)@ == old(out)@ + decimal(n as nat),
    decreases n,
{
    if n >= 10 {
        push_decimal(out, n / 10);
    }
    out.append(digit_str(n % 10));
}

/// Appends the last `width` digits of `n`, zero-padded, to `out`.
pub fn push_padded_decimal(out: &mut String, n: usize, width: usize)
    ensures
        final(out)@ == old(out)@ + padded_decimal(n as nat, width as nat),
    decreases width,
{
    if width > 0 {
        push_padded_decimal(out, n / 10, width - 1);
        out.append(digit_str(n % 10));
    }
}

/// The decimal rendering of `n`, as `n.to_string()` writes it.
pub fn decimal_string(n: usize) -> (s: String)
    ensures
        s@ == decimal(n as nat),
{
    let mut s = String::new();
    push_decimal(&mut s, n);
    s
}

} // verus!
