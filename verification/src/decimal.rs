//! Decimal numerals: parsing the numeric credential header and printing
//! numbers into the JSON wire format, each against a mathematical
//! definition of the decimal value.

use vstd::prelude::*;
use vstd::string::*;

verus! {

/// Whether `c` is an ASCII decimal digit.
pub open spec fn is_decimal_digit(c: char) -> bool {
    48 <= c as int <= 57
}

/// The numeric value of the digit `c`.
pub open spec fn digit_val(c: char) -> nat
    recommends
        is_decimal_digit(c),
{
    (c as int - 48) as nat
}

/// Every character of `s` is a decimal digit.
pub open spec fn is_digit_seq(s: Seq<char>) -> bool {
    forall|i: int| 0 <= i < s.len() ==> is_decimal_digit(s[i])
}

/// The value of `s` read as a big-endian decimal numeral.
pub open spec fn dec_value(s: Seq<char>) -> nat
    decreases s.len(),
{
    if s.len() == 0 {
        0
    } else {
        dec_value(s.drop_last()) * 10 + digit_val(s.last())
    }
}

/// The digits of `s` read as a numeral name a value no larger than the
/// whole of `s` does: appending digits never shrinks the value.
proof fn lemma_dec_value_prefix(s: Seq<char>, a: int, b: int, c: int)
    requires
        0 <= a <= b <= c <= s.len(),
    ensures
        dec_value(s.subrange(a, b)) <= dec_value(s.subrange(a, c)),
    decreases c - b,
{
    if b < c {
        assert(s.subrange(a, b + 1).drop_last() =~= s.subrange(a, b));
        assert(dec_value(s.subrange(a, b + 1)) == dec_value(s.subrange(a, b)) * 10 + digit_val(
            s.subrange(a, b + 1).last(),
        ));
        lemma_dec_value_prefix(s, a, b + 1, c);
    }
}

/// What a nonempty, all-digit numeral that fits in 32 bits parses to.
pub open spec fn parse_digits(s: Seq<char>) -> Option<u32> {
    if s.len() > 0 && is_digit_seq(s) && dec_value(s) <= u32::MAX {
        Some(dec_value(s) as u32)
    } else {
        None
    }
}

/// What `s` parses to as an unsigned 32-bit numeral: an optional leading
/// plus sign, then one or more decimal digits naming a value that fits.
pub open spec fn spec_parse_u32(s: Seq<char>) -> Option<u32> {
    if s.len() > 0 && s[0] == '+' {
        parse_digits(s.skip(1))
    } else {
        parse_digits(s)
    }
}

/// Parses `s` as an unsigned 32-bit decimal numeral.
pub fn parse_u32(s: &str) -> (r: Option<u32>)
    ensures
        r == spec_parse_u32(s@),
{
    let n: usize = s.unicode_len();
    let mut start: usize = 0;
    if n > 0 && s.get_char(0) == '+' {
        start = 1;
    }
    let ghost digits = s@.skip(start as int);
    proof {
        if start == 0 {
            assert(s@.skip(0) =~= s@);
        }
        assert(spec_parse_u32(s@) == parse_digits(digits));
    }
    if start == n {
        return None;
    }
    let mut i: usize = start;
    let mut val: u32 = 0;
    while i < n
        invariant
            start <= i <= n,
            n == s@.len(),
            n > start,
            digits == s@.skip(start as int),
            spec_parse_u32(s@) == parse_digits(digits),
            forall|j: int| start <= j < i ==> is_decimal_digit(s@[j]),
            val as nat == dec_value(s@.subrange(start as int, i as int)),
        decreases n - i,
    {
        let c = s.get_char(i);
        let u: u32 = c as u32;
        if u < 48 || u > 57 {
            proof {
                assert(digits[i - start] == s@[i as int]);
                assert(!is_digit_seq(digits));
            }
            return None;
        }
        let d: u32 = u - 48;
        proof {
            let prefix = s@.subrange(start as int, i as int);
            let next = s@.subrange(start as int, i as int + 1);
            assert(next.drop_last() =~= prefix);
            assert(next.last() == s@[i as int]);
            assert(dec_value(next) == val as nat * 10 + d as nat);
            if val > (u32::MAX - d) / 10 {
                assert(val as int * 10 + d as int > u32::MAX as int) by {
                    let m = (u32::MAX - d) as int;
                    assert(val as int >= m / 10 + 1);
                    assert((m / 10) * 10 + m % 10 == m);
                };
                lemma_dec_value_prefix(s@, start as int, i as int + 1, n as int);
                assert(s@.subrange(start as int, n as int) =~= digits);
                assert(dec_value(digits) > u32::MAX);
            }
        }
        if val > (u32::MAX - d) / 10 {
            return None;
        }
        val = val * 10 + d;
        i = i + 1;
    }
    proof {
        assert(s@.subrange(start as int, n as int) =~= digits);
        assert forall|j: int| 0 <= j < digits.len() implies is_decimal_digit(digits[j]) by {
            assert(digits[j] == s@[start + j]);
        }
    }
    Some(val)
}

/// The digit character naming `d`.
pub open spec fn digit_char(d: nat) -> char {
    if d == 0 {
        '0'
    } else if d == 1 {
        '1'
    } else if d == 2 {
        '2'
    } else if d == 3 {
        '3'
    } else if d == 4 {
        '4'
    } else if d == 5 {
        '5'
    } else if d == 6 {
        '6'
    } else if d == 7 {
        '7'
    } else if d == 8 {
        '8'
    } else {
        '9'
    }
}

/// The decimal numeral naming `n`, most significant digit first, without
/// sign or leading zeros.
pub open spec fn dec_seq(n: nat) -> Seq<char>
    decreases n,
{
    if n < 10 {
        seq![digit_char(n)]
    } else {
        dec_seq(n / 10).push(digit_char(n % 10))
    }
}

/// A printed numeral is nonempty and consists of digits alone.
proof fn lemma_dec_seq_digits(n: nat)
    ensures
        dec_seq(n).len() > 0,
        is_digit_seq(dec_seq(n)),
    decreases n,
{
    if n >= 10 {
        lemma_dec_seq_digits(n / 10);
        assert forall|i: int| 0 <= i < dec_seq(n).len() implies is_decimal_digit(
            dec_seq(n)[i],
        ) by {
            if i < dec_seq(n / 10).len() {
                assert(dec_seq(n)[i] == dec_seq(n / 10)[i]);
            }
        }
    }
}

/// A printed numeral reads back as the number it was printed from.
proof fn lemma_dec_seq_value(n: nat)
    ensures
        dec_value(dec_seq(n)) == n,
    decreases n,
{
    if n < 10 {
        assert(dec_seq(n) == seq![digit_char(n)]);
        assert(dec_seq(n).drop_last() =~= Seq::<char>::empty());
        assert(dec_value(Seq::<char>::empty()) == 0);
        assert(dec_seq(n).last() == digit_char(n));
        assert(digit_val(digit_char(n)) == n);
        assert(dec_value(dec_seq(n)) == dec_value(dec_seq(n).drop_last()) * 10 + digit_val(
            dec_seq(n).last(),
        ));
    } else {
        lemma_dec_seq_value(n / 10);
        assert(dec_seq(n).drop_last() =~= dec_seq(n / 10));
        assert(dec_seq(n).last() == digit_char(n % 10));
        assert(digit_val(digit_char(n % 10)) == n % 10);
        assert(dec_value(dec_seq(n)) == dec_value(dec_seq(n / 10)) * 10 + digit_val(
            digit_char(n % 10),
        ));
    }
}

/// Law: printing and parsing agree — the numeral printed for any 32-bit
/// value parses back to exactly that value.
pub proof fn lemma_decimal_round_trip(n: u32)
    ensures
        spec_parse_u32(dec_seq(n as nat)) == Some(n),
{
    lemma_dec_seq_digits(n as nat);
    lemma_dec_seq_value(n as nat);
    assert(is_decimal_digit(dec_seq(n as nat)[0]));
    assert(dec_seq(n as nat)[0] != '+');
}

/// The one-character string naming the digit `d`.
fn digit_str(d: u32) -> (r: &'static str)
    requires
        d < 10,
    ensures
        r@ == seq![digit_char(d as nat)],
{
    proof {
        reveal_strlit("0");
        reveal_strlit("1");
        reveal_strlit("2");
        reveal_strlit("3");
        reveal_strlit("4");
        reveal_strlit("5");
        reveal_strlit("6");
        reveal_strlit("7");
        reveal_strlit("8");
        reveal_strlit("9");
    }
    let r = match d {
        0 => "0",
        1 => "1",
        2 => "2",
        3 => "3",
        4 => "4",
        5 => "5",
        6 => "6",
        7 => "7",
        8 => "8",
        _ => "9",
    };
    proof {
        assert(r@ =~= seq![digit_char(d as nat)]);
    }
    r
}

/// Prints `n` as a decimal numeral.
pub fn u32_to_string(n: u32) -> (r: String)
    ensures
        r@ == dec_seq(n as nat),
    decreases n,
{
    if n < 10 {
        String::from_str(digit_str(n))
    } else {
        let prefix = u32_to_string(n / 10);
        let r = prefix.concat(digit_str(n % 10));
        proof {
            assert(r@ =~= dec_seq(n as nat));
        }
        r
    }
}

} // verus!
