//! Decimal rendering of bucket numbers.
//!
//! Hash-prefix bucket keys are small unsigned integers rendered in decimal.
//! The rendering is specified by `dec_digits`, and it is injective, so
//! distinct bucket numbers always yield distinct bucket keys.

use vstd::prelude::*;

verus! {

/// The character for a single decimal digit.
pub open spec fn dec_digit_char(d: nat) -> char {
    if d == 0 {
        '0'
    } else if d == 1 {
        '1'
    } else if d == 2 {
        '2'
    } else if d == 3 {
        '3'
    } else if d == 4 {
        '4'
    } else if d == 5 {
        '5'
    } else if d == 6 {
        '6'
    } else if d == 7 {
        '7'
    } else if d == 8 {
        '8'
    } else {
        '9'
    }
}

/// The decimal rendering of a natural number, most significant digit first,
/// with no leading zeros (and `0` rendered as "0").
pub open spec fn dec_digits(n: nat) -> Seq<char>
    decreases n,
{
    if n < 10 {
        seq![dec_digit_char(n)]
    } else {
        dec_digits(n / 10) + seq![dec_digit_char(n % 10)]
    }
}

fn dec_digit_str(d: u32) -> (r: &'static str)
    requires
        d < 10,
    ensures
        r@ == seq![dec_digit_char(d as nat)],
{
    let r: &'static str = match d {
        0 => "0",
        1 => "1",
        2 => "2",
        3 => "3",
        4 => "4",
        5 => "5",
        6 => "6",
        7 => "7",
        8 => "8",
        _ => "9",
    };
    proof {
        reveal_strlit("0");
        reveal_strlit("1");
        reveal_strlit("2");
        reveal_strlit("3");
        reveal_strlit("4");
        reveal_strlit("5");
        reveal_strlit("6");
        reveal_strlit("7");
        reveal_strlit("8");
        reveal_strlit("9");
        assert(r@ =~= seq![dec_digit_char(d as nat)]);
    }
    r
}

fn push_dec(v: u32, out: &mut String)
    ensures
        final(out)@ == old(out)@ + dec_digits(v as nat),
    decreases v,
{
    if v < 10 {
        let d = dec_digit_str(v);
        out.append(d);
    } else {
        push_dec(v / 10, out);
        let d = dec_digit_str(v % 10);
        out.append(d);
        proof {
            assert((old(out)@ + dec_digits((v / 10) as nat)) + seq![
                dec_digit_char((v % 10) as nat),
            ] =~= old(out)@ + dec_digits(v as nat));
        }
    }
}

/// Renders `v` in decimal.
pub fn u32_to_decimal(v: u32) -> (r: String)
    ensures
        r@ == dec_digits(v as nat),
{
    let mut s = String::new();
    push_dec(v, &mut s);
    proof {
        assert(Seq::<char>::empty() + dec_digits(v as nat) =~= dec_digits(v as nat));
    }
    s
}

/// A decimal rendering has at least one digit, and at least two once the
/// number reaches ten.
pub proof fn lemma_dec_digits_len(n: nat)
    ensures
        dec_digits(n).len() >= 1,
        n >= 10 ==> dec_digits(n).len() >= 2,
    decreases n,
{
    if n >= 10 {
        lemma_dec_digits_len(n / 10);
    }
}

/// Decimal rendering is injective: distinct numbers have distinct renderings.
pub proof fn lemma_dec_digits_injective(a: nat, b: nat)
    ensures
        dec_digits(a) == dec_digits(b) ==> a == b,
    decreases a,
{
    if dec_digits(a) == dec_digits(b) {
        lemma_dec_digits_len(a);
        lemma_dec_digits_len(b);
        if a < 10 && b < 10 {
            assert(dec_digits(a)[0] == dec_digit_char(a));
            assert(dec_digits(b)[0] == dec_digit_char(b));
        } else if a >= 10 && b >= 10 {
            assert(dec_digits(a).last() == dec_digit_char(a % 10));
            assert(dec_digits(b).last() == dec_digit_char(b % 10));
            assert(dec_digits(a).drop_last() =~= dec_digits(a / 10));
            assert(dec_digits(b).drop_last() =~= dec_digits(b / 10));
            lemma_dec_digits_injective(a / 10, b / 10);
            vstd::arithmetic::div_mod::lemma_fundamental_div_mod(a as int, 10);
            vstd::arithmetic::div_mod::lemma_fundamental_div_mod(b as int, 10);
        } else if a < 10 {
            assert(dec_digits(a).len() == 1);
            assert(false);
        } else {
            assert(dec_digits(b).len() == 1);
            assert(false);
        }
    }
}

} // verus!
