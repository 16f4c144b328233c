//! Decimal numerals: the `Content-Length` header carries the byte count of
//! the body written in decimal.

use vstd::prelude::*;

verus! {

use vstd::string::StringExecFns;

/// The character for one decimal digit.
pub open spec fn digit_char(d: nat) -> char {
    if d == 0 {
        '0'
    } else if d == 1 {
        '1'
    } else if d == 2 {
        '2'
    } else if d == 3 {
        '3'
    } else if d == 4 {
        '4'
    } else if d == 5 {
        '5'
    } else if d == 6 {
        '6'
    } else if d == 7 {
        '7'
    } else if d == 8 {
        '8'
    } else {
        '9'
    }
}

/// The decimal numeral of `n`, most significant digit first, with no
/// leading zeros (only `0` itself starts with `'0'`).
pub open spec fn dec_chars(n: nat) -> Seq<char>
    decreases n,
{
    if n < 10 {
        seq![digit_char(n)]
    } else {
        dec_chars(n / 10) + seq![digit_char(n % 10)]
    }
}

fn digit_str(d: u64) -> (s: &'static str)
    requires
        d < 10,
    ensures
        s@ == seq![digit_char(d as nat)],
{
    proof {
        reveal_strlit("0");
        reveal_strlit("1");
        reveal_strlit("2");
        reveal_strlit("3");
        reveal_strlit("4");
        reveal_strlit("5");
        reveal_strlit("6");
        reveal_strlit("7");
        reveal_strlit("8");
        reveal_strlit("9");
    }
    let r = match d {
        0 => "0",
        1 => "1",
        2 => "2",
        3 => "3",
        4 => "4",
        5 => "5",
        6 => "6",
        7 => "7",
        8 => "8",
        _ => "9",
    };
    proof {
        assert(r@ =~= seq![digit_char(d as nat)]);
    }
    r
}

/// A numeral of a number below ten is one digit; of any other, at least
/// two.
pub proof fn lemma_dec_chars_len(n: nat)
    ensures
        n < 10 ==> dec_chars(n).len() == 1,
        n >= 10 ==> dec_chars(n).len() >= 2,
    decreases n,
{
    if n >= 10 {
        lemma_dec_chars_len(n / 10);
    }
}

/// Two numbers with the same decimal numeral are the same number: the
/// numeral in a `Content-Length` line determines the byte count.
pub proof fn lemma_dec_chars_injective(m: nat, n: nat)
    requires
        dec_chars(m) == dec_chars(n),
    ensures
        m == n,
    decreases m,
{
    lemma_dec_chars_len(m);
    lemma_dec_chars_len(n);
    if m < 10 && n < 10 {
        assert(dec_chars(m) == seq![digit_char(m)]);
        assert(dec_chars(n) == seq![digit_char(n)]);
        assert(dec_chars(m)[0] == digit_char(m));
        assert(dec_chars(n)[0] == digit_char(n));
        assert(digit_char(m) == digit_char(n));
        assert(m == n);
    } else if m >= 10 && n >= 10 {
        let dm = dec_chars(m / 10);
        let dn = dec_chars(n / 10);
        assert(dec_chars(m) == dm + seq![digit_char(m % 10)]);
        assert(dec_chars(n) == dn + seq![digit_char(n % 10)]);
        assert(dm.len() == dn.len());
        assert(dm =~= dec_chars(m).take(dm.len() as int));
        assert(dn =~= dec_chars(n).take(dn.len() as int));
        lemma_dec_chars_injective(m / 10, n / 10);
        assert(dec_chars(m)[dm.len() as int] == digit_char(m % 10));
        assert(dec_chars(n)[dn.len() as int] == digit_char(n % 10));
        assert(digit_char(m % 10) == digit_char(n % 10));
        assert(m % 10 < 10 && n % 10 < 10);
        assert(m % 10 == n % 10);
        assert(m / 10 == n / 10);
        vstd::arithmetic::div_mod::lemma_fundamental_div_mod(m as int, 10);
        vstd::arithmetic::div_mod::lemma_fundamental_div_mod(n as int, 10);
        assert(m == 10 * (m as int / 10) + (m as int % 10));
        assert(n == 10 * (n as int / 10) + (n as int % 10));
        assert(m == n);
    } else {
        assert(dec_chars(m).len() != dec_chars(n).len());
        assert(false);
    }
}

/// Writes `n` as its decimal numeral.
pub fn u64_to_dec(n: u64) -> (s: String)
    ensures
        s@ == dec_chars(n as nat),
    decreases n,
{
    if n < 10 {
        String::from_str(digit_str(n))
    } else {
        let mut s = u64_to_dec(n / 10);
        s.append(digit_str(n % 10));
        s
    }
}

} // verus!
