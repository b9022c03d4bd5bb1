//! Decimal rendering of unsigned integers: plain, zero-padded to a fixed
//! width, and two-decimal fixed-point.

use vstd::prelude::*;

verus! {

/// The decimal digit character for `d` (0 ..= 9).
pub open spec fn dec_digit(d: int) -> char {
    if d == 0 {
        '0'
    } else if d == 1 {
        '1'
    } else if d == 2 {
        '2'
    } else if d == 3 {
        '3'
    } else if d == 4 {
        '4'
    } else if d == 5 {
        '5'
    } else if d == 6 {
        '6'
    } else if d == 7 {
        '7'
    } else if d == 8 {
        '8'
    } else {
        '9'
    }
}

/// The decimal digits of `n`, most significant first, no sign and no
/// leading zero (`0` itself is "0").
pub open spec fn dec_str(n: int) -> Seq<char>
    decreases n,
{
    if n < 10 {
        seq![dec_digit(n)]
    } else {
        dec_str(n / 10).push(dec_digit(n % 10))
    }
}

/// `n` zero-padded to at least two digits.
pub open spec fn pad2_str(n: int) -> Seq<char> {
    if n < 10 {
        seq!['0'] + dec_str(n)
    } else {
        dec_str(n)
    }
}

/// `n` zero-padded to at least three digits.
pub open spec fn pad3_str(n: int) -> Seq<char> {
    if n < 10 {
        seq!['0', '0'] + dec_str(n)
    } else if n < 100 {
        seq!['0'] + dec_str(n)
    } else {
        dec_str(n)
    }
}

/// `n` zero-padded to at least four digits.
pub open spec fn pad4_str(n: int) -> Seq<char> {
    if n < 10 {
        seq!['0', '0', '0'] + dec_str(n)
    } else if n < 100 {
        seq!['0', '0'] + dec_str(n)
    } else if n < 1000 {
        seq!['0'] + dec_str(n)
    } else {
        dec_str(n)
    }
}

/// A count of hundredths rendered with exactly two decimals: the whole
/// part, a point, and the fraction zero-padded to width two.
pub open spec fn fixed2_str(h: int) -> Seq<char> {
    dec_str(h / 100) + seq!['.'] + pad2_str(h % 100)
}

/// The value a digit character denotes, or ten for any other character.
pub open spec fn char_val(c: char) -> int {
    if c == '0' {
        0
    } else if c == '1' {
        1
    } else if c == '2' {
        2
    } else if c == '3' {
        3
    } else if c == '4' {
        4
    } else if c == '5' {
        5
    } else if c == '6' {
        6
    } else if c == '7' {
        7
    } else if c == '8' {
        8
    } else if c == '9' {
        9
    } else {
        10
    }
}

/// Every character is a decimal digit.
pub open spec fn all_digits(s: Seq<char>) -> bool {
    forall|i: int| 0 <= i < s.len() ==> char_val(s[i]) <= 9
}

/// The number a run of digit characters denotes, most significant first.
pub open spec fn digits_val(s: Seq<char>) -> int
    decreases s.len(),
{
    if s.len() == 0 {
        0
    } else {
        digits_val(s.drop_last()) * 10 + char_val(s.last())
    }
}

/// Reading the decimal rendering of `n` back gives `n`: the digits are
/// digits and denote the number itself.
pub proof fn lemma_dec_str_digits(n: int)
    requires
        n >= 0,
    ensures
        all_digits(dec_str(n)),
        digits_val(dec_str(n)) == n,
        dec_str(n).len() >= 1,
    decreases n,
{
    if n < 10 {
        assert(dec_str(n).drop_last() =~= Seq::<char>::empty());
        assert(dec_str(n).last() == dec_digit(n));
        assert(digits_val(Seq::<char>::empty()) == 0);
        assert(char_val(dec_digit(n)) == n);
        assert(digits_val(dec_str(n)) == digits_val(dec_str(n).drop_last()) * 10 + char_val(
            dec_str(n).last(),
        ));
    } else {
        lemma_dec_str_digits(n / 10);
        assert(dec_str(n).drop_last() =~= dec_str(n / 10));
        assert(dec_str(n).last() == dec_digit(n % 10));
        assert(char_val(dec_digit(n % 10)) == n % 10);
        assert(digits_val(dec_str(n)) == (n / 10) * 10 + n % 10);
        assert((n / 10) * 10 + n % 10 == n) by (nonlinear_arith);
        assert forall|i: int| 0 <= i < dec_str(n).len() implies char_val(dec_str(n)[i]) <= 9 by {
            if i < dec_str(n).len() - 1 {
                assert(dec_str(n)[i] == dec_str(n / 10)[i]);
            }
        }
    }
}

/// A leading zero does not change the number the digits denote.
pub proof fn lemma_zero_prefix(t: Seq<char>)
    ensures
        digits_val(seq!['0'] + t) == digits_val(t),
    decreases t.len(),
{
    if t.len() == 0 {
        assert((seq!['0'] + t) =~= seq!['0']);
        assert(seq!['0'].drop_last() =~= Seq::<char>::empty());
        assert(digits_val(seq!['0']) == digits_val(Seq::<char>::empty()) * 10 + char_val('0'));
        assert(char_val('0') == 0);
    } else {
        lemma_zero_prefix(t.drop_last());
        assert((seq!['0'] + t).drop_last() =~= seq!['0'] + t.drop_last());
        assert((seq!['0'] + t).last() == t.last());
        assert(digits_val(seq!['0'] + t) == digits_val(seq!['0'] + t.drop_last()) * 10
            + char_val(t.last()));
        assert(digits_val(t) == digits_val(t.drop_last()) * 10 + char_val(t.last()));
    }
}

/// Reading a two-padded rendering back gives the number itself.
pub proof fn lemma_pad2_digits(n: int)
    requires
        n >= 0,
    ensures
        all_digits(pad2_str(n)),
        digits_val(pad2_str(n)) == n,
        pad2_str(n).len() >= 1,
{
    lemma_dec_str_digits(n);
    if n < 10 {
        lemma_zero_prefix(dec_str(n));
        assert forall|i: int| 0 <= i < pad2_str(n).len() implies char_val(pad2_str(n)[i]) <= 9 by {
            if i >= 1 {
                assert(pad2_str(n)[i] == dec_str(n)[i - 1]);
            }
        }
    }
}

/// Reading a three-padded rendering back gives the number itself.
pub proof fn lemma_pad3_digits(n: int)
    requires
        n >= 0,
    ensures
        all_digits(pad3_str(n)),
        digits_val(pad3_str(n)) == n,
        pad3_str(n).len() >= 1,
{
    lemma_dec_str_digits(n);
    if n < 10 {
        assert(pad3_str(n) =~= seq!['0'] + (seq!['0'] + dec_str(n)));
        lemma_zero_prefix(seq!['0'] + dec_str(n));
        lemma_zero_prefix(dec_str(n));
        assert forall|i: int| 0 <= i < pad3_str(n).len() implies char_val(pad3_str(n)[i]) <= 9 by {
            if i >= 2 {
                assert(pad3_str(n)[i] == dec_str(n)[i - 2]);
            }
        }
    } else if n < 100 {
        lemma_zero_prefix(dec_str(n));
        assert forall|i: int| 0 <= i < pad3_str(n).len() implies char_val(pad3_str(n)[i]) <= 9 by {
            if i >= 1 {
                assert(pad3_str(n)[i] == dec_str(n)[i - 1]);
            }
        }
    }
}

fn push_digit(s: &mut String, d: u64)
    requires
        d < 10,
    ensures
        final(s)@ == old(s)@ + seq![dec_digit(d as int)],
{
    proof {
        reveal_strlit("0");
        reveal_strlit("1");
        reveal_strlit("2");
        reveal_strlit("3");
        reveal_strlit("4");
        reveal_strlit("5");
        reveal_strlit("6");
        reveal_strlit("7");
        reveal_strlit("8");
        reveal_strlit("9");
    }
    match d {
        0 => s.append("0"),
        1 => s.append("1"),
        2 => s.append("2"),
        3 => s.append("3"),
        4 => s.append("4"),
        5 => s.append("5"),
        6 => s.append("6"),
        7 => s.append("7"),
        8 => s.append("8"),
        _ => s.append("9"),
    }
    proof {
        assert(final(s)@ =~= old(s)@ + seq![dec_digit(d as int)]);
    }
}

/// Appends the decimal digits of `n`.
pub fn push_u64(s: &mut String, n: u64)
    ensures
        final(s)@ == old(s)@ + dec_str(n as int),
    decreases n,
{
    if n >= 10 {
        push_u64(s, n / 10);
    }
    push_digit(s, n % 10);
    proof {
        assert(final(s)@ =~= old(s)@ + dec_str(n as int));
    }
}

/// The decimal digits of `n` as a fresh string.
pub fn u64_to_string(n: u64) -> (r: String)
    ensures
        r@ == dec_str(n as int),
{
    let mut s = String::new();
    push_u64(&mut s, n);
    proof {
        assert(s@ =~= dec_str(n as int));
    }
    s
}

/// Appends `n` zero-padded to at least two digits.
pub fn push_pad2(s: &mut String, n: u64)
    ensures
        final(s)@ == old(s)@ + pad2_str(n as int),
{
    if n < 10 {
        proof {
            reveal_strlit("0");
        }
        s.append("0");
    }
    push_u64(s, n);
    proof {
        assert(final(s)@ =~= old(s)@ + pad2_str(n as int));
    }
}

/// Appends `n` zero-padded to at least three digits.
pub fn push_pad3(s: &mut String, n: u64)
    ensures
        final(s)@ == old(s)@ + pad3_str(n as int),
{
    proof {
        reveal_strlit("00");
        reveal_strlit("0");
    }
    if n < 10 {
        s.append("00");
    } else if n < 100 {
        s.append("0");
    }
    push_u64(s, n);
    proof {
        assert(final(s)@ =~= old(s)@ + pad3_str(n as int));
    }
}

/// Appends `n` zero-padded to at least four digits.
pub fn push_pad4(s: &mut String, n: u64)
    ensures
        final(s)@ == old(s)@ + pad4_str(n as int),
{
    proof {
        reveal_strlit("000");
        reveal_strlit("00");
        reveal_strlit("0");
    }
    if n < 10 {
        s.append("000");
    } else if n < 100 {
        s.append("00");
    } else if n < 1000 {
        s.append("0");
    }
    push_u64(s, n);
    proof {
        assert(final(s)@ =~= old(s)@ + pad4_str(n as int));
    }
}

/// Appends a count of hundredths with exactly two decimals.
pub fn push_fixed2(s: &mut String, h: u64)
    ensures
        final(s)@ == old(s)@ + fixed2_str(h as int),
{
    push_u64(s, h / 100);
    proof {
        reveal_strlit(".");
    }
    s.append(".");
    push_pad2(s, h % 100);
    proof {
        assert(final(s)@ =~= old(s)@ + fixed2_str(h as int));
    }
}

} // verus!
