//! Decimal rendering and parsing on strings, and zero-padding of page
//! numbers, together with the lemmas about them that the download
//! planner relies on.

use vstd::prelude::*;
use vstd::string::StringExecFns;
use vstd::arithmetic::div_mod::lemma_fundamental_div_mod;
use vstd::arithmetic::div_mod::lemma_div_is_ordered;

verus! {

/// The character for a single decimal digit.
pub open spec fn digit_char(d: nat) -> char {
    if d == 0 {
        '0'
    } else if d == 1 {
        '1'
    } else if d == 2 {
        '2'
    } else if d == 3 {
        '3'
    } else if d == 4 {
        '4'
    } else if d == 5 {
        '5'
    } else if d == 6 {
        '6'
    } else if d == 7 {
        '7'
    } else if d == 8 {
        '8'
    } else {
        '9'
    }
}

/// The decimal representation of `n`, most significant digit first,
/// without leading zeros (except for `n == 0` itself).
pub open spec fn dec_rep(n: nat) -> Seq<char>
    decreases n,
{
    if n < 10 {
        seq![digit_char(n)]
    } else {
        dec_rep(n / 10).push(digit_char(n % 10))
    }
}

/// Whether `c` is a decimal digit.
pub open spec fn is_digit_char(c: char) -> bool {
    48 <= c as int <= 57
}

/// The numeric value of a digit character.
pub open spec fn char_digit(c: char) -> nat {
    (c as int - 48) as nat
}

/// Whether every character of `s` is a decimal digit.
pub open spec fn all_digits(s: Seq<char>) -> bool {
    forall|i: int| 0 <= i < s.len() ==> is_digit_char(#[trigger] s[i])
}

/// The number denoted by a string of decimal digits (0 for the empty
/// string).
pub open spec fn dec_value(s: Seq<char>) -> nat
    decreases s.len(),
{
    if s.len() == 0 {
        0
    } else {
        dec_value(s.drop_last()) * 10 + char_digit(s.last())
    }
}

/// A one-character string slice for the digit `d`.
fn digit_str(d: u64) -> (r: &'static str)
    requires
        d < 10,
    ensures
        r@ =~= seq![digit_char(d as nat)],
{
    proof {
        reveal_strlit("0");
        reveal_strlit("1");
        reveal_strlit("2");
        reveal_strlit("3");
        reveal_strlit("4");
        reveal_strlit("5");
        reveal_strlit("6");
        reveal_strlit("7");
        reveal_strlit("8");
        reveal_strlit("9");
    }
    if d == 0 {
        "0"
    } else if d == 1 {
        "1"
    } else if d == 2 {
        "2"
    } else if d == 3 {
        "3"
    } else if d == 4 {
        "4"
    } else if d == 5 {
        "5"
    } else if d == 6 {
        "6"
    } else if d == 7 {
        "7"
    } else if d == 8 {
        "8"
    } else {
        "9"
    }
}

/// Renders `n` in decimal.
pub fn u64_to_dec(n: u64) -> (r: String)
    ensures
        r@ == dec_rep(n as nat),
    decreases n,
{
    if n < 10 {
        digit_str(n).to_owned()
    } else {
        let mut r = u64_to_dec(n / 10);
        r.append(digit_str(n % 10));
        assert(r@ =~= dec_rep(n as nat));
        r
    }
}

/// Renders `n` in decimal.
pub fn usize_to_dec(n: usize) -> (r: String)
    ensures
        r@ == dec_rep(n as nat),
{
    u64_to_dec(n as u64)
}

/// The number of digits in the decimal representation of `n`.
pub fn dec_width(n: usize) -> (w: usize)
    ensures
        w == dec_rep(n as nat).len(),
{
    let s = usize_to_dec(n);
    s.as_str().unicode_len()
}


/// Compares two string slices by their character content.
pub fn str_eq(a: &str, b: &str) -> (r: bool)
    ensures
        r == (a@ == b@),
{
    let x: String = a.to_owned();
    let y: String = b.to_owned();
    x == y
}

/// Why a string failed to parse as a decimal number.
#[derive(Debug, Clone, Copy, PartialEq, Eq, Structural)]
pub enum DigitParseError {
    /// The string was empty.
    Empty,
    /// A character was not a decimal digit.
    NonDigit,
    /// The denoted number does not fit in the target type.
    Overflow,
}

/// Parses a string of decimal digits into a `u64`, saying exactly why
/// the string is rejected otherwise.
pub fn parse_digits(s: &str) -> (r: Result<u64, DigitParseError>)
    ensures
        r matches Ok(n) <==> s@.len() > 0 && all_digits(s@) && dec_value(s@) <= u64::MAX,
        r matches Ok(n) ==> n == dec_value(s@),
        r == Err::<u64, _>(DigitParseError::Empty) <==> s@.len() == 0,
        r == Err::<u64, _>(DigitParseError::NonDigit) <==> s@.len() > 0 && !all_digits(s@),
        r == Err::<u64, _>(DigitParseError::Overflow) <==> s@.len() > 0 && all_digits(s@)
            && dec_value(s@) > u64::MAX,
{
    let n = s.unicode_len();
    if n == 0 {
        return Err(DigitParseError::Empty);
    }
    let mut i: usize = 0;
    while i < n
        invariant
            0 <= i <= n,
            n == s@.len(),
            all_digits(s@.take(i as int)),
        decreases n - i,
    {
        let c = s.get_char(i);
        let cv = c as u32;
        if cv < 48 || cv > 57 {
            assert(!is_digit_char(s@[i as int]));
            return Err(DigitParseError::NonDigit);
        }
        assert(s@.take(i + 1 as int) =~= s@.take(i as int).push(s@[i as int]));
        i += 1;
    }
    assert(s@.take(n as int) =~= s@);
    assert(all_digits(s@));
    let mut acc: u64 = 0;
    i = 0;
    while i < n
        invariant
            0 <= i <= n,
            n == s@.len(),
            all_digits(s@),
            acc == dec_value(s@.take(i as int)),
        decreases n - i,
    {
        let c = s.get_char(i);
        let cv = c as u32;
        assert(is_digit_char(s@[i as int]));
        assert(48 <= cv <= 57);
        let d = (cv - 48) as u64;
        proof {
            assert(s@.take(i + 1 as int).drop_last() =~= s@.take(i as int));
            assert(s@.take(i + 1 as int).last() == s@[i as int]);
        }
        if acc > (u64::MAX - d) / 10 {
            proof {
                let m = u64::MAX as nat;
                assert(acc * 10 + d > m) by (nonlinear_arith)
                    requires
                        acc > (m - d) / 10,
                        d <= m,
                        acc >= 0,
                ;
                assert(char_digit(s@[i as int]) == d);
                assert(dec_value(s@.take(i + 1 as int)) == acc * 10 + d);
                lemma_dec_value_take_monotonic(s@, i + 1 as int, n as int);
                assert(s@.take(n as int) =~= s@);
                assert(dec_value(s@) > m);
            }
            return Err(DigitParseError::Overflow);
        }
        proof {
            assert(acc * 10 + d <= u64::MAX as nat) by (nonlinear_arith)
                requires
                    acc <= (u64::MAX as nat - d) / 10,
                    d <= 9,
                    acc >= 0,
            ;
        }
        acc = acc * 10 + d;
        i += 1;
    }
    assert(s@.take(n as int) =~= s@);
    Ok(acc)
}

/// Parses a string of decimal digits into a `u32`.
pub fn parse_digits_u32(s: &str) -> (r: Result<u32, DigitParseError>)
    ensures
        r matches Ok(n) <==> s@.len() > 0 && all_digits(s@) && dec_value(s@) <= u32::MAX,
        r matches Ok(n) ==> n == dec_value(s@),
        r == Err::<u32, _>(DigitParseError::Empty) <==> s@.len() == 0,
        r == Err::<u32, _>(DigitParseError::NonDigit) <==> s@.len() > 0 && !all_digits(s@),
        r == Err::<u32, _>(DigitParseError::Overflow) <==> s@.len() > 0 && all_digits(s@)
            && dec_value(s@) > u32::MAX,
{
    match parse_digits(s) {
        Ok(v) => {
            if v > u32::MAX as u64 {
                Err(DigitParseError::Overflow)
            } else {
                Ok(v as u32)
            }
        },
        Err(e) => Err(e),
    }
}

/// A sequence of `k` zero characters.
pub open spec fn zero_seq(k: nat) -> Seq<char> {
    Seq::new(k, |i: int| '0')
}

/// `s` left-padded with zeros to width `w` (unchanged if already that
/// wide).
pub open spec fn padded(s: Seq<char>, w: nat) -> Seq<char> {
    if s.len() < w {
        zero_seq((w - s.len()) as nat) + s
    } else {
        s
    }
}

/// Left-pads `s` with `'0'` characters to the requested width.
pub fn pad_left_zeros(s: &str, width: usize) -> (r: String)
    ensures
        r@ == padded(s@, width as nat),
{
    let len = s.unicode_len();
    if len >= width {
        return s.to_owned();
    }
    let need = width - len;
    let mut r = String::new();
    let mut k: usize = 0;
    while k < need
        invariant
            0 <= k <= need,
            r@ =~= zero_seq(k as nat),
        decreases need - k,
    {
        proof {
            reveal_strlit("0");
        }
        r.append("0");
        assert(r@ =~= zero_seq((k + 1) as nat));
        k += 1;
    }
    r.append(s);
    assert(r@ =~= padded(s@, width as nat));
    r
}

/// Growing a digit string never shrinks the number it denotes.
pub proof fn lemma_dec_value_take_monotonic(s: Seq<char>, i: int, j: int)
    requires
        0 <= i <= j <= s.len(),
    ensures
        dec_value(s.take(i)) <= dec_value(s.take(j)),
    decreases j - i,
{
    if i < j {
        lemma_dec_value_take_monotonic(s, i, j - 1);
        assert(s.take(j).drop_last() =~= s.take(j - 1));
        let v = dec_value(s.take(j - 1));
        assert(v * 10 >= v) by (nonlinear_arith)
            requires
                v >= 0,
        ;
    }
}

/// The decimal representation of a number is never empty.
pub proof fn lemma_dec_rep_len_pos(n: nat)
    ensures
        dec_rep(n).len() >= 1,
    decreases n,
{
    if n >= 10 {
        lemma_dec_rep_len_pos(n / 10);
    }
}

/// The decimal representation denotes the number it was built from.
pub proof fn lemma_dec_value_of_dec_rep(n: nat)
    ensures
        dec_value(dec_rep(n)) == n,
    decreases n,
{
    if n < 10 {
        assert(dec_rep(n) =~= seq![digit_char(n)]);
        assert(dec_rep(n).drop_last() =~= Seq::<char>::empty());
        assert(char_digit(digit_char(n)) == n);
        assert(dec_value(dec_rep(n)) == dec_value(dec_rep(n).drop_last()) * 10 + char_digit(
            dec_rep(n).last(),
        ));
    } else {
        lemma_dec_value_of_dec_rep(n / 10);
        assert(dec_rep(n).drop_last() =~= dec_rep(n / 10));
        assert(dec_rep(n).last() == digit_char(n % 10));
        assert(char_digit(digit_char(n % 10)) == n % 10);
        assert(dec_rep(n).len() == dec_rep(n / 10).len() + 1);
        assert(dec_value(dec_rep(n)) == dec_value(dec_rep(n).drop_last()) * 10 + char_digit(
            dec_rep(n).last(),
        ));
        lemma_fundamental_div_mod(n as int, 10);
    }
}

/// Larger numbers never have shorter decimal representations.
pub proof fn lemma_dec_rep_len_monotonic(m: nat, n: nat)
    requires
        m <= n,
    ensures
        dec_rep(m).len() <= dec_rep(n).len(),
    decreases n,
{
    if n < 10 {
        // both are single digits
    } else if m < 10 {
        lemma_dec_rep_len_pos(n / 10);
    } else {
        lemma_div_is_ordered(m as int, n as int, 10);
        lemma_dec_rep_len_monotonic(m / 10, n / 10);
    }
}

/// Leading zeros do not change the number a digit string denotes.
pub proof fn lemma_dec_value_zero_prefix(k: nat, s: Seq<char>)
    ensures
        dec_value(zero_seq(k) + s) == dec_value(s),
    decreases s.len(),
{
    if s.len() == 0 {
        assert(zero_seq(k) + s =~= zero_seq(k));
        lemma_dec_value_all_zeros(k);
    } else {
        lemma_dec_value_zero_prefix(k, s.drop_last());
        assert((zero_seq(k) + s).drop_last() =~= zero_seq(k) + s.drop_last());
        assert((zero_seq(k) + s).last() == s.last());
    }
}

/// A string of zeros denotes zero.
pub proof fn lemma_dec_value_all_zeros(k: nat)
    ensures
        dec_value(zero_seq(k)) == 0,
    decreases k,
{
    if k > 0 {
        lemma_dec_value_all_zeros((k - 1) as nat);
        assert(zero_seq(k).drop_last() =~= zero_seq((k - 1) as nat));
        assert(zero_seq(k).last() == '0');
        assert(char_digit('0') == 0);
    }
}

/// Zero-padding two different numbers to a common width keeps them
/// different: the padded labels still denote the original numbers.
pub proof fn lemma_padded_dec_value(n: nat, w: nat)
    ensures
        dec_value(padded(dec_rep(n), w)) == n,
{
    lemma_dec_value_of_dec_rep(n);
    if dec_rep(n).len() < w {
        lemma_dec_value_zero_prefix((w - dec_rep(n).len()) as nat, dec_rep(n));
    }
}

/// Distinct page indices get distinct zero-padded labels.
pub proof fn lemma_padded_injective(m: nat, n: nat, w: nat)
    requires
        m != n,
    ensures
        padded(dec_rep(m), w) != padded(dec_rep(n), w),
{
    lemma_padded_dec_value(m, w);
    lemma_padded_dec_value(n, w);
}

} // verus!
