//! Decimal text of integers: the grammar that `str::parse` accepts for `u32`
//! and `i32`, and the text that `i32`'s `to_string` writes.

use std::num::ParseIntError;
use vstd::prelude::*;

use crate::text::chars_of;

verus! {

/// `std::num::ParseIntError`, the error of integer parsing; it is carried
/// through unopened.
#[verifier::external_type_specification]
#[verifier::external_body]
pub struct ExParseIntError(ParseIntError);

/// An ASCII decimal digit.
pub open spec fn is_digit(c: char) -> bool {
    '0' <= c && c <= '9'
}

/// The value of the digit `c`.
pub open spec fn digit_value(c: char) -> nat {
    ((c as int) - ('0' as int)) as nat
}

/// The digit that stands for `d < 10`.
pub open spec fn digit_char(d: nat) -> char {
    (('0' as int) + d) as char
}

/// A non-empty run of ASCII decimal digits.
pub open spec fn all_digits(d: Seq<char>) -> bool {
    d.len() > 0 && forall|i: int| 0 <= i < d.len() ==> is_digit(#[trigger] d[i])
}

/// The value of a run of decimal digits, the most significant first.
pub open spec fn digits_value(d: Seq<char>) -> nat
    decreases d.len(),
{
    if d.len() == 0 {
        0
    } else {
        digits_value(d.drop_last()) * 10 + digit_value(d.last())
    }
}

/// The digits of an unsigned number's text: the text without a leading `+`.
pub open spec fn unsigned_digits(s: Seq<char>) -> Seq<char> {
    if s.len() > 0 && s[0] == '+' {
        s.drop_first()
    } else {
        s
    }
}

/// Texts that `str::parse::<u32>` accepts: an optional `+`, then decimal
/// digits whose value fits in a `u32`.
pub open spec fn is_u32_text(s: Seq<char>) -> bool {
    all_digits(unsigned_digits(s)) && digits_value(unsigned_digits(s)) <= u32::MAX
}

/// The digits of a signed number's text: the text without a leading sign.
pub open spec fn signed_digits(s: Seq<char>) -> Seq<char> {
    if s.len() > 0 && (s[0] == '+' || s[0] == '-') {
        s.drop_first()
    } else {
        s
    }
}

/// The value that a signed number's text stands for.
pub open spec fn signed_value(s: Seq<char>) -> int {
    if s.len() > 0 && s[0] == '-' {
        -(digits_value(signed_digits(s)) as int)
    } else {
        digits_value(signed_digits(s)) as int
    }
}

/// Texts that `str::parse::<i32>` accepts: an optional `+` or `-`, then
/// decimal digits, the value in the range of `i32`.
pub open spec fn is_i32_text(s: Seq<char>) -> bool {
    all_digits(signed_digits(s)) && i32::MIN <= signed_value(s) <= i32::MAX
}

/// The decimal text of a natural number, without leading zeros.
pub open spec fn nat_text(n: nat) -> Seq<char>
    decreases n,
{
    if n < 10 {
        seq![digit_char(n)]
    } else {
        nat_text(n / 10).push(digit_char(n % 10))
    }
}

/// The decimal text of an integer, `-` before it when it is negative.
pub open spec fn int_text(x: int) -> Seq<char> {
    if x < 0 {
        seq!['-'] + nat_text((-x) as nat)
    } else {
        nat_text(x as nat)
    }
}

/// Parses `s` as a `u32` with `str::parse::<u32>`: std documents that the
/// text must be an optional `+` followed by decimal digits only, and that a
/// value out of range is an error. The contract claims exactly that: `Ok`
/// on those texts, with their decimal value, and an error otherwise; what
/// the error holds is left unsaid.
#[verifier::external_body]
pub(crate) fn parse_u32(s: &str) -> (r: Result<u32, ParseIntError>)
    ensures
        r is Ok <==> is_u32_text(s@),
        r matches Ok(v) ==> v == digits_value(unsigned_digits(s@)),
{
    s.parse::<u32>()
}

/// Reads `s` as an `i32`: an optional `+` or `-`, then decimal digits
/// whose signed value is in the range of `i32`; any other text is refused.
pub fn parse_i32(s: &str) -> (r: Option<i32>)
    ensures
        r is Some <==> is_i32_text(s@),
        r matches Some(v) ==> v == signed_value(s@),
{
    let cs = chars_of(s);
    let n = cs.len();
    let neg = n > 0 && cs[0] == '-';
    let start: usize = if n > 0 && (cs[0] == '+' || cs[0] == '-') {
        1
    } else {
        0
    };
    let ghost d = signed_digits(s@);
    assert(d =~= s@.skip(start as int));
    if start == n {
        return None;
    }
    let mut acc: u64 = 0;
    let mut big = false;
    let mut i: usize = start;
    assert(d.take(0) =~= Seq::<char>::empty());
    while i < n
        invariant
            cs@ == s@,
            n == cs.len(),
            start <= i <= n,
            d == s@.skip(start as int),
            d == signed_digits(s@),
            neg == (s@.len() > 0 && s@[0] == '-'),
            forall|k: int| 0 <= k < i - start ==> is_digit(#[trigger] d[k]),
            big ==> digits_value(d.take(i - start)) > 2147483648,
            !big ==> acc == digits_value(d.take(i - start)) && acc <= 2147483648,
        decreases n - i,
    {
        let c = cs[i];
        assert(d[i - start] == c);
        if !('0' <= c && c <= '9') {
            assert(!all_digits(d));
            return None;
        }
        let ghost k = i - start;
        assert(d.take(k + 1).drop_last() =~= d.take(k));
        assert(d.take(k + 1).last() == c);
        let dv = (c as u32 - '0' as u32) as u64;
        assert(dv == digit_value(c));
        if !big {
            acc = acc * 10 + dv;
            if acc > 2147483648 {
                big = true;
            }
        }
        i = i + 1;
    }
    assert(d.take(n - start) =~= d);
    assert(all_digits(d));
    if big {
        return None;
    }
    if neg {
        Some((0 - (acc as i64)) as i32)
    } else if acc <= 2147483647 {
        Some(acc as i32)
    } else {
        None
    }
}

/// The text of one digit.
fn digit_str(d: u64) -> (r: &'static str)
    requires
        d < 10,
    ensures
        r@ == seq![digit_char(d as nat)],
{
    proof {
        reveal_strlit("0");
        reveal_strlit("1");
        reveal_strlit("2");
        reveal_strlit("3");
        reveal_strlit("4");
        reveal_strlit("5");
        reveal_strlit("6");
        reveal_strlit("7");
        reveal_strlit("8");
        reveal_strlit("9");
    }
    let r = if d == 0 {
        "0"
    } else if d == 1 {
        "1"
    } else if d == 2 {
        "2"
    } else if d == 3 {
        "3"
    } else if d == 4 {
        "4"
    } else if d == 5 {
        "5"
    } else if d == 6 {
        "6"
    } else if d == 7 {
        "7"
    } else if d == 8 {
        "8"
    } else {
        "9"
    };
    assert(r@ =~= seq![digit_char(d as nat)]);
    r
}

/// The decimal text of `n`.
fn nat_to_string(n: u64) -> (r: String)
    ensures
        r@ == nat_text(n as nat),
    decreases n,
{
    if n < 10 {
        String::from_str(digit_str(n))
    } else {
        let mut r = nat_to_string(n / 10);
        r.append(digit_str(n % 10));
        r
    }
}

/// The decimal text of `x`, digits without leading zeros and a `-` before
/// a negative number, as `i32`'s `to_string` writes it.
pub fn i32_to_string(x: i32) -> (r: String)
    ensures
        r@ == int_text(x as int),
{
    if x < 0 {
        proof {
            reveal_strlit("-");
        }
        let mut r = String::from_str("-");
        let m = (0 - (x as i64)) as u64;
        r.append(nat_to_string(m).as_str());
        r
    } else {
        nat_to_string(x as u64)
    }
}

/// A digit character stands for the number it was made from.
pub proof fn lemma_digit_char(d: nat)
    requires
        d < 10,
    ensures
        is_digit(digit_char(d)),
        digit_value(digit_char(d)) == d,
{
    assert(digit_char(d) as int == 48 + d);
}

/// The text of a natural number is a run of digits whose value is that
/// number.
pub proof fn lemma_nat_text(n: nat)
    ensures
        all_digits(nat_text(n)),
        digits_value(nat_text(n)) == n,
        nat_text(n)[0] != '-' && nat_text(n)[0] != '+',
    decreases n,
{
    lemma_digit_char(n % 10);
    if n < 10 {
        assert(nat_text(n).drop_last() =~= Seq::<char>::empty());
        assert(digits_value(Seq::<char>::empty()) == 0);
        assert(n % 10 == n);
    } else {
        lemma_nat_text(n / 10);
        let t = nat_text(n);
        assert(t.drop_last() =~= nat_text(n / 10));
        assert(t.last() == digit_char(n % 10));
        assert(digits_value(t) == digits_value(t.drop_last()) * 10 + digit_value(t.last()));
        assert((n / 10) * 10 + n % 10 == n);
        assert forall|i: int| 0 <= i < t.len() implies is_digit(#[trigger] t[i]) by {
            if i < t.len() - 1 {
                assert(t[i] == nat_text(n / 10)[i]);
            }
        }
        assert(t[0] == nat_text(n / 10)[0]);
    }
}

/// The text that `i32_to_string` writes is read back by `parse_i32` as the
/// same number.
pub proof fn lemma_int_text_reads_back(x: i32)
    ensures
        is_i32_text(int_text(x as int)),
        signed_value(int_text(x as int)) == x,
{
    let t = int_text(x as int);
    if x < 0 {
        let n = (-(x as int)) as nat;
        lemma_nat_text(n);
        assert(t.drop_first() =~= nat_text(n));
    } else {
        lemma_nat_text(x as nat);
    }
}

} // verus!
