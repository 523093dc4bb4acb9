//! Human-readable byte counts: a value with one decimal place and a unit
//! drawn from B, KB, MB, GB, TB, with 1024 as the divisor between units.

use vstd::prelude::*;
use vstd::string::StringExecFns;

verus! {

/// Index of the unit chosen for `n` bytes: 0 = B, 1 = KB, 2 = MB, 3 = GB,
/// 4 = TB. The unit is the largest one that keeps the displayed value below
/// 1024; a petabyte and beyond stay in TB.
pub open spec fn unit_of(n: nat) -> nat {
    if n < 1024 {
        0
    } else if n < 1048576 {
        1
    } else if n < 1073741824 {
        2
    } else if n < 1099511627776 {
        3
    } else {
        4
    }
}

/// How many bytes one whole unit is: 1024 raised to the unit index.
pub open spec fn unit_div(u: nat) -> nat {
    if u == 0 {
        1
    } else if u == 1 {
        1024
    } else if u == 2 {
        1048576
    } else if u == 3 {
        1073741824
    } else {
        1099511627776
    }
}

/// `n` bytes expressed in tenths of the unit chosen for `n`, rounded to the
/// nearest tenth with ties rounded to the even tenth — the way a value
/// exactly between two decimals is printed.
pub open spec fn tenths_of(n: nat) -> nat {
    let div = unit_div(unit_of(n));
    let q = n * 10 / div;
    let r = n * 10 % div;
    if 2 * r > div || (2 * r == div && q % 2 == 1) {
        q + 1
    } else {
        q
    }
}

/// The decimal digit character for `d` in 0 ..= 9.
pub open spec fn digit_char(d: nat) -> char {
    if d == 0 {
        '0'
    } else if d == 1 {
        '1'
    } else if d == 2 {
        '2'
    } else if d == 3 {
        '3'
    } else if d == 4 {
        '4'
    } else if d == 5 {
        '5'
    } else if d == 6 {
        '6'
    } else if d == 7 {
        '7'
    } else if d == 8 {
        '8'
    } else {
        '9'
    }
}

/// The decimal digits of `n`, most significant first, with no leading zero
/// except for `n == 0` itself.
pub open spec fn dec_digits(n: nat) -> Seq<char>
    decreases n,
{
    if n < 10 {
        seq![digit_char(n)]
    } else {
        dec_digits(n / 10).push(digit_char(n % 10))
    }
}

/// The suffix written after the number for unit index `u`.
pub open spec fn unit_suffix(u: nat) -> Seq<char> {
    if u == 0 {
        seq!['B']
    } else if u == 1 {
        seq!['K', 'B']
    } else if u == 2 {
        seq!['M', 'B']
    } else if u == 3 {
        seq!['G', 'B']
    } else {
        seq!['T', 'B']
    }
}

/// The whole rendered size: integer part, a dot, exactly one decimal digit,
/// and the unit suffix.
pub open spec fn spec_human_size(n: nat) -> Seq<char> {
    dec_digits(tenths_of(n) / 10) + seq!['.', digit_char(tenths_of(n) % 10)] + unit_suffix(
        unit_of(n),
    )
}

/// Appends the character for the single decimal digit `d`.
fn append_digit(s: &mut String, d: u64)
    requires
        d < 10,
    ensures
        final(s)@ == old(s)@ + seq![digit_char(d as nat)],
{
    proof {
        reveal_strlit("0");
        reveal_strlit("1");
        reveal_strlit("2");
        reveal_strlit("3");
        reveal_strlit("4");
        reveal_strlit("5");
        reveal_strlit("6");
        reveal_strlit("7");
        reveal_strlit("8");
        reveal_strlit("9");
    }
    if d == 0 {
        s.append("0");
    } else if d == 1 {
        s.append("1");
    } else if d == 2 {
        s.append("2");
    } else if d == 3 {
        s.append("3");
    } else if d == 4 {
        s.append("4");
    } else if d == 5 {
        s.append("5");
    } else if d == 6 {
        s.append("6");
    } else if d == 7 {
        s.append("7");
    } else if d == 8 {
        s.append("8");
    } else {
        s.append("9");
    }
}

/// Appends the decimal digits of `n`, most significant first.
fn push_decimal(s: &mut String, n: u64)
    ensures
        final(s)@ == old(s)@ + dec_digits(n as nat),
    decreases n,
{
    if n >= 10 {
        proof {
            vstd::arithmetic::div_mod::lemma_div_decreases(n as int, 10);
        }
        push_decimal(s, n / 10);
    }
    append_digit(s, n % 10);
    proof {
        if n >= 10 {
            assert(dec_digits(n as nat) =~= dec_digits((n as nat) / 10) + seq![
                digit_char((n as nat) % 10),
            ]);
        }
    }
}

/// Renders `size` bytes with one decimal place and the largest unit from
/// B, KB, MB, GB, TB that keeps the value under 1024 (TB saturates).
pub fn human_size(size: u64) -> (r: String)
    ensures
        r@ == spec_human_size(size as nat),
{
    let ghost u: nat = unit_of(size as nat);
    let div: u64 = if size < 1024 {
        1
    } else if size < 1048576 {
        1024
    } else if size < 1073741824 {
        1048576
    } else if size < 1099511627776 {
        1073741824
    } else {
        1099511627776
    };
    proof {
        assert(div == unit_div(u));
    }
    let n10: u128 = (size as u128) * 10;
    let q: u128 = n10 / (div as u128);
    let r: u128 = n10 % (div as u128);
    let t_wide: u128 = if 2 * r > div as u128 || (2 * r == div as u128 && q % 2 == 1) {
        q + 1
    } else {
        q
    };
    proof {
        assert(t_wide == tenths_of(size as nat));
        assert(t_wide <= 18446744073709551615u128) by {
            vstd::arithmetic::div_mod::lemma_div_is_ordered(
                size as int * 10,
                u64::MAX as int * 10,
                div as int,
            );
        };
    }
    let t: u64 = t_wide as u64;
    let mut s = String::new();
    push_decimal(&mut s, t / 10);
    proof {
        reveal_strlit(".");
        reveal_strlit("B");
        reveal_strlit("KB");
        reveal_strlit("MB");
        reveal_strlit("GB");
        reveal_strlit("TB");
    }
    s.append(".");
    append_digit(&mut s, t % 10);
    if size < 1024 {
        s.append("B");
    } else if size < 1048576 {
        s.append("KB");
    } else if size < 1073741824 {
        s.append("MB");
    } else if size < 1099511627776 {
        s.append("GB");
    } else {
        s.append("TB");
    }
    proof {
        assert(s@ =~= spec_human_size(size as nat));
    }
    s
}

/// A larger byte count never renders as a smaller magnitude: the unit
/// index grows, or stays the same while the displayed count of tenths
/// grows.
pub proof fn lemma_human_size_monotone(a: nat, b: nat)
    requires
        a <= b,
    ensures
        unit_of(a) <= unit_of(b),
        unit_of(a) == unit_of(b) ==> tenths_of(a) <= tenths_of(b),
{
    if unit_of(a) == unit_of(b) {
        let div = unit_div(unit_of(a)) as int;
        let xa = a as int * 10;
        let xb = b as int * 10;
        vstd::arithmetic::div_mod::lemma_div_is_ordered(xa, xb, div);
        vstd::arithmetic::div_mod::lemma_fundamental_div_mod(xa, div);
        vstd::arithmetic::div_mod::lemma_fundamental_div_mod(xb, div);
        if xa / div == xb / div {
            assert(xa % div <= xb % div);
        }
    }
}

/// Consecutive units differ by a factor of exactly 1024.
pub proof fn lemma_unit_divisor_1024(u: nat)
    requires
        u < 4,
    ensures
        unit_div(u + 1) == 1024 * unit_div(u),
{
}

/// The unit saturates: every byte count, however large, renders with a
/// unit index of at most 4, which is TB.
pub proof fn lemma_unit_saturates(n: nat)
    ensures
        unit_of(n) <= 4,
{
}

/// The rendered text always has the shape: the decimal digits of the
/// integer part, one dot, exactly one decimal digit, then the unit suffix.
pub proof fn lemma_human_size_shape(n: nat)
    ensures
        spec_human_size(n) == dec_digits(tenths_of(n) / 10) + seq!['.'] + seq![
            digit_char(tenths_of(n) % 10),
        ] + unit_suffix(unit_of(n)),
        dec_digits(tenths_of(n) / 10).len() >= 1,
{
    assert(spec_human_size(n) =~= dec_digits(tenths_of(n) / 10) + seq!['.'] + seq![
        digit_char(tenths_of(n) % 10),
    ] + unit_suffix(unit_of(n)));
}

} // verus!
