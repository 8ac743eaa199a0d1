//! Decimal rendering of indices, with the zero-padding used for destination
//! file names, and the decoding lemmas that make the rendering injective.

use vstd::prelude::*;
use vstd::string::StringExecFns;

verus! {

/// The character for one decimal digit.
pub open spec fn digit_char(d: nat) -> char {
    if d == 0 {
        '0'
    } else if d == 1 {
        '1'
    } else if d == 2 {
        '2'
    } else if d == 3 {
        '3'
    } else if d == 4 {
        '4'
    } else if d == 5 {
        '5'
    } else if d == 6 {
        '6'
    } else if d == 7 {
        '7'
    } else if d == 8 {
        '8'
    } else {
        '9'
    }
}

/// The numeric value of a decimal digit character.
pub open spec fn char_val(c: char) -> nat {
    if c == '0' {
        0
    } else if c == '1' {
        1
    } else if c == '2' {
        2
    } else if c == '3' {
        3
    } else if c == '4' {
        4
    } else if c == '5' {
        5
    } else if c == '6' {
        6
    } else if c == '7' {
        7
    } else if c == '8' {
        8
    } else {
        9
    }
}

/// Decimal digit string of `n`, most significant digit first, no padding.
pub open spec fn spec_decimal(n: nat) -> Seq<char>
    decreases n,
{
    if n < 10 {
        seq![digit_char(n)]
    } else {
        spec_decimal(n / 10).push(digit_char(n % 10))
    }
}

/// `k` copies of the padding character.
pub open spec fn zeros(k: nat) -> Seq<char> {
    Seq::new(k, |i: int| '0')
}

/// Decimal digit string of `n` left-padded with zeros to at least four
/// characters, as destination file names use it.
pub open spec fn spec_padded4(n: nat) -> Seq<char> {
    let d = spec_decimal(n);
    if d.len() >= 4 {
        d
    } else {
        zeros((4 - d.len()) as nat) + d
    }
}

/// Value encoded by a digit string, last character least significant.
pub open spec fn spec_value(s: Seq<char>) -> nat
    decreases s.len(),
{
    if s.len() == 0 {
        0
    } else {
        spec_value(s.drop_last()) * 10 + char_val(s.last())
    }
}

/// Rendering then decoding gives the number back.
pub proof fn lemma_value_of_decimal(n: nat)
    ensures
        spec_value(spec_decimal(n)) == n,
    decreases n,
{
    if n < 10 {
        let s = seq![digit_char(n)];
        assert(s.drop_last() =~= Seq::<char>::empty());
        assert(spec_value(Seq::<char>::empty()) == 0);
        assert(char_val(digit_char(n)) == n);
        assert(spec_value(s) == char_val(digit_char(n)));
    } else {
        let s = spec_decimal(n);
        assert(s.drop_last() =~= spec_decimal(n / 10));
        lemma_value_of_decimal(n / 10);
        assert(spec_value(s) == (n / 10) * 10 + n % 10);
        assert((n / 10) * 10 + n % 10 == n) by (nonlinear_arith);
    }
}

/// A run of zeros encodes zero.
proof fn lemma_value_of_zeros(k: nat)
    ensures
        spec_value(zeros(k)) == 0,
    decreases k,
{
    if k > 0 {
        assert(zeros(k).drop_last() =~= zeros((k - 1) as nat));
        lemma_value_of_zeros((k - 1) as nat);
    }
}

/// Leading zeros do not change the encoded value.
pub proof fn lemma_value_ignores_leading_zeros(k: nat, d: Seq<char>)
    ensures
        spec_value(zeros(k) + d) == spec_value(d),
    decreases d.len(),
{
    if d.len() == 0 {
        assert(zeros(k) + d =~= zeros(k));
        lemma_value_of_zeros(k);
    } else {
        assert((zeros(k) + d).drop_last() =~= zeros(k) + d.drop_last());
        assert((zeros(k) + d).last() == d.last());
        lemma_value_ignores_leading_zeros(k, d.drop_last());
    }
}

/// Decoding a padded rendering also gives the number back.
pub proof fn lemma_value_of_padded4(n: nat)
    ensures
        spec_value(spec_padded4(n)) == n,
{
    let d = spec_decimal(n);
    lemma_value_of_decimal(n);
    if d.len() < 4 {
        lemma_value_ignores_leading_zeros((4 - d.len()) as nat, d);
    }
}

/// How many digits the unpadded rendering has, by range of `n`.
pub proof fn lemma_decimal_len(n: nat)
    ensures
        n < 10 ==> spec_decimal(n).len() == 1,
        10 <= n < 100 ==> spec_decimal(n).len() == 2,
        100 <= n < 1000 ==> spec_decimal(n).len() == 3,
        n >= 1000 ==> spec_decimal(n).len() >= 4,
    decreases n,
{
    if n >= 10 {
        lemma_decimal_len(n / 10);
    }
}

/// The padded rendering is never shorter than four characters.
pub proof fn lemma_padded4_len(n: nat)
    ensures
        spec_padded4(n).len() >= 4,
        spec_padded4(n).len() == 4 <==> n < 10000,
    decreases n,
{
    lemma_decimal_len(n);
    if n >= 1000 {
        if n < 10000 {
            lemma_decimal_len(n / 10);
        } else {
            lemma_decimal_len(n / 10);
            lemma_padded4_len(n / 10);
        }
    }
}

/// The single-character string for one decimal digit.
pub fn digit_str(d: usize) -> (r: &'static str)
    requires
        d < 10,
    ensures
        r@ == seq![digit_char(d as nat)],
{
    proof {
        reveal_strlit("0");
        reveal_strlit("1");
        reveal_strlit("2");
        reveal_strlit("3");
        reveal_strlit("4");
        reveal_strlit("5");
        reveal_strlit("6");
        reveal_strlit("7");
        reveal_strlit("8");
        reveal_strlit("9");
    }
    let r: &'static str = if d == 0 {
        "0"
    } else if d == 1 {
        "1"
    } else if d == 2 {
        "2"
    } else if d == 3 {
        "3"
    } else if d == 4 {
        "4"
    } else if d == 5 {
        "5"
    } else if d == 6 {
        "6"
    } else if d == 7 {
        "7"
    } else {
        "8"
    };
    let r: &'static str = if d == 9 {
        "9"
    } else {
        r
    };
    proof {
        assert(r@ =~= seq![digit_char(d as nat)]);
    }
    r
}

/// Append the decimal rendering of `n` to `s`.
pub fn push_decimal(s: &mut String, n: usize)
    ensures
        final(s)@ == old(s)@ + spec_decimal(n as nat),
    decreases n,
{
    if n < 10 {
        s.append(digit_str(n));
        proof {
            assert(s@ =~= old(s)@ + spec_decimal(n as nat));
        }
    } else {
        push_decimal(s, n / 10);
        s.append(digit_str(n % 10));
        proof {
            assert(spec_decimal(n as nat) =~= spec_decimal(n as nat / 10) + seq![
                digit_char(n as nat % 10),
            ]);
            assert(s@ =~= old(s)@ + spec_decimal(n as nat));
        }
    }
}

/// Append the rendering of `n` zero-padded to at least four characters.
pub fn push_padded4(s: &mut String, n: usize)
    ensures
        final(s)@ == old(s)@ + spec_padded4(n as nat),
{
    proof {
        lemma_decimal_len(n as nat);
        reveal_strlit("000");
        reveal_strlit("00");
        reveal_strlit("0");
    }
    if n < 10 {
        s.append("000");
        proof {
            assert("000"@ =~= zeros(3));
        }
    } else if n < 100 {
        s.append("00");
        proof {
            assert("00"@ =~= zeros(2));
        }
    } else if n < 1000 {
        s.append("0");
        proof {
            assert("0"@ =~= zeros(1));
        }
    }
    push_decimal(s, n);
    proof {
        assert(s@ =~= old(s)@ + spec_padded4(n as nat));
    }
}

} // verus!
