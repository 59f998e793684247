//! Reading integers out of text, as `str::parse::<i32>` does: an optional `+`
//! or `-` sign followed by one or more ASCII digits, the value in range.

use vstd::prelude::*;

verus! {

/// Whether `c` is an ASCII digit.
pub open spec fn is_digit(c: char) -> bool {
    '0' <= c && c <= '9'
}

/// The value of an ASCII digit.
pub open spec fn digit_value(c: char) -> int {
    (c as int) - ('0' as int)
}

/// The value of a sequence of ASCII digits, read in base ten.
pub open spec fn digits_value(s: Seq<char>) -> int
    decreases s.len(),
{
    if s.len() == 0 {
        0
    } else {
        digits_value(s.drop_last()) * 10 + digit_value(s.last())
    }
}

/// Whether every character of `s` is an ASCII digit.
pub open spec fn all_digits(s: Seq<char>) -> bool {
    forall|i: int| 0 <= i < s.len() ==> is_digit(s[i])
}

/// The integer that `s` spells: an optional sign and at least one digit.
pub open spec fn integer_literal(s: Seq<char>) -> Option<int> {
    let negative = s.len() > 0 && s[0] == '-';
    let signed = s.len() > 0 && (s[0] == '-' || s[0] == '+');
    let digits = if signed { s.drop_first() } else { s };
    if digits.len() == 0 || !all_digits(digits) {
        None
    } else if negative {
        Some(-digits_value(digits))
    } else {
        Some(digits_value(digits))
    }
}

/// The `i32` that `s` spells, as `str::parse::<i32>` reads it.
pub open spec fn i32_literal(s: Seq<char>) -> Option<i32> {
    match integer_literal(s) {
        Some(n) => if i32::MIN <= n <= i32::MAX { Some(n as i32) } else { None },
        None => None,
    }
}

proof fn lemma_digits_value_nonneg(s: Seq<char>)
    requires
        all_digits(s),
    ensures
        digits_value(s) >= 0,
    decreases s.len(),
{
    if s.len() > 0 {
        lemma_digits_value_nonneg(s.drop_last());
    }
}

proof fn lemma_digits_value_grows(s: Seq<char>, i: int)
    requires
        all_digits(s),
        0 <= i <= s.len(),
    ensures
        digits_value(s.take(i)) <= digits_value(s),
    decreases s.len() - i,
{
    if i < s.len() {
        lemma_digits_value_grows(s, i + 1);
        assert(s.take(i + 1).drop_last() == s.take(i));
        lemma_digits_value_nonneg(s.take(i));
    } else {
        assert(s.take(i) == s);
    }
}

/// Reads an `i32` written in decimal, with an optional sign; `None` for any
/// other text or a value out of range.
pub fn parse_i32(v: &[char]) -> (r: Option<i32>)
    ensures
        r == i32_literal(v@),
{
    let ghost s = v@;
    let negative = v.len() > 0 && v[0] == '-';
    let signed = v.len() > 0 && (v[0] == '-' || v[0] == '+');
    let start: usize = if signed { 1 } else { 0 };
    let ghost digits = if signed { s.drop_first() } else { s };
    if start >= v.len() {
        return None;
    }
    let mut acc: i64 = 0;
    let mut i: usize = start;
    let mut too_big = false;
    while i < v.len()
        invariant
            start <= i <= v@.len(),
            s == v@,
            signed == (s.len() > 0 && (s[0] == '-' || s[0] == '+')),
            negative == (s.len() > 0 && s[0] == '-'),
            start == (if signed { 1usize } else { 0usize }),
            digits == (if signed { s.drop_first() } else { s }),
            digits == s.skip(start as int),
            forall|j: int| start <= j < i ==> is_digit(s[j]),
            too_big ==> digits_value(digits.take(i - start)) > 2147483648,
            !too_big ==> acc == digits_value(digits.take(i - start)),
            0 <= acc <= 2147483648,
        decreases v@.len() - i,
    {
        let c = v[i];
        if !('0' <= c && c <= '9') {
            assert(!all_digits(digits)) by {
                assert(digits[i - start] == c);
            }
            assert(digits == (if signed { s.drop_first() } else { s }));
            return None;
        }
        let d = (c as u32 - '0' as u32) as i64;
        proof {
            assert(digits.take(i - start + 1).drop_last() == digits.take(i - start));
            assert(digits.take(i - start + 1).last() == c);
        }
        if !too_big {
            let next = acc * 10 + d;
            if next > 2147483648 {
                too_big = true;
            } else {
                acc = next;
            }
        } else {
            proof {
                let t = digits.take(i - start);
                assert(all_digits(t));
                lemma_digits_value_nonneg(t);
                assert(digits_value(digits.take(i - start + 1)) == digits_value(t) * 10 + digit_value(c));
            }
        }
        i = i + 1;
    }
    assert(digits.take(i - start) == digits);
    assert(all_digits(digits));
    if too_big {
        return None;
    }
    if negative {
        Some((-acc) as i32)
    } else if acc <= 2147483647 {
        Some(acc as i32)
    } else {
        None
    }
}

/// `parse_i32` on a string.
pub fn parse_i32_str(s: &str) -> (r: Option<i32>)
    ensures
        r == i32_literal(s@),
{
    let v = crate::text::chars_of(s);
    parse_i32(v.as_slice())
}

/// The decimal notation of an `i32` reads back as the same number.
pub proof fn lemma_i32_decimal_round_trip(n: i32)
    ensures
        i32_literal(crate::text::signed_decimal(n as int)) == Some(n),
{
    let m: nat = if n < 0 { (-(n as int)) as nat } else { n as nat };
    lemma_decimal_reads_back(m);
    let s = crate::text::signed_decimal(n as int);
    if n < 0 {
        assert(s.drop_first() == crate::text::decimal(m));
    } else {
        assert(crate::text::decimal(m)[0] != '-' && crate::text::decimal(m)[0] != '+') by {
            lemma_decimal_first_is_digit(m);
        }
    }
}

proof fn lemma_decimal_first_is_digit(n: nat)
    ensures
        crate::text::decimal(n).len() > 0,
        is_digit(crate::text::decimal(n)[0]),
    decreases n,
{
    if n >= 10 {
        lemma_decimal_first_is_digit(n / 10);
    }
}

proof fn lemma_digit_char_value(d: nat)
    requires
        d < 10,
    ensures
        is_digit(crate::text::digit_char(d)),
        digit_value(crate::text::digit_char(d)) == d,
{
}

/// The decimal notation of a natural number is made of digits and reads back as that number.
pub proof fn lemma_decimal_reads_back(n: nat)
    ensures
        crate::text::decimal(n).len() > 0,
        all_digits(crate::text::decimal(n)),
        digits_value(crate::text::decimal(n)) == n,
    decreases n,
{
    let s = crate::text::decimal(n);
    lemma_digit_char_value(n % 10);
    if n < 10 {
        assert(s.drop_last() == Seq::<char>::empty());
        assert(digits_value(Seq::<char>::empty()) == 0);
        assert(s.last() == crate::text::digit_char(n));
        assert(n % 10 == n);
        assert(digits_value(s) == n);
    }
    if n >= 10 {
        lemma_decimal_reads_back(n / 10);
        assert(s.drop_last() == crate::text::decimal(n / 10));
        assert(s.last() == crate::text::digit_char(n % 10));
        assert(digits_value(s) == (n / 10) * 10 + (n % 10) as int);
        assert((n / 10) * 10 + (n % 10) as int == n);
        assert(all_digits(s)) by {
            assert forall|i: int| 0 <= i < s.len() implies is_digit(s[i]) by {
                if i < s.len() - 1 {
                    assert(s[i] == crate::text::decimal(n / 10)[i]);
                }
            }
        }
    }
}

proof fn lemma_zeros_value(k: int)
    ensures
        digits_value(crate::text::zeros(k)) == 0,
    decreases if k > 0 { k } else { 0 },
{
    if k > 0 {
        lemma_zeros_value(k - 1);
        assert(crate::text::zeros(k).drop_last() =~= crate::text::zeros(k - 1));
    } else {
        assert(crate::text::zeros(k) =~= Seq::<char>::empty());
    }
}

proof fn lemma_leading_zeros_value(k: int, d: Seq<char>)
    ensures
        digits_value(crate::text::zeros(k) + d) == digits_value(d),
    decreases d.len(),
{
    let z = crate::text::zeros(k);
    if d.len() == 0 {
        assert(z + d =~= z);
        lemma_zeros_value(k);
    } else {
        assert((z + d).drop_last() =~= z + d.drop_last());
        assert((z + d).last() == d.last());
        lemma_leading_zeros_value(k, d.drop_last());
    }
}

proof fn lemma_decimal_len(n: nat)
    ensures
        n < 10 ==> crate::text::decimal(n).len() == 1,
        n < 100 ==> crate::text::decimal(n).len() <= 2,
        n < 1000 ==> crate::text::decimal(n).len() <= 3,
        n >= 10 ==> crate::text::decimal(n).len() >= 2,
        n >= 100 ==> crate::text::decimal(n).len() >= 3,
        n >= 1000 ==> crate::text::decimal(n).len() >= 4,
    decreases n,
{
    if n >= 10 {
        lemma_decimal_len(n / 10);
        assert(crate::text::decimal(n).len() == crate::text::decimal(n / 10).len() + 1);
    }
}

/// The three-digit notation of a natural number `n` (as `format!("{:03}", n)`
/// writes it) is made of digits and reads back as `n`; it is exactly three
/// characters long when `n` is below 1000, and the plain decimal notation of
/// `n`, without padding, otherwise.
pub proof fn lemma_pad3_natural(n: int)
    requires
        n >= 0,
    ensures
        all_digits(crate::text::pad3(n)),
        digits_value(crate::text::pad3(n)) == n,
        n < 1000 ==> crate::text::pad3(n).len() == 3,
        n >= 1000 ==> crate::text::pad3(n) == crate::text::decimal(n as nat),
{
    let d = crate::text::decimal(n as nat);
    let z = crate::text::zeros(3 - d.len());
    lemma_decimal_reads_back(n as nat);
    lemma_decimal_len(n as nat);
    lemma_leading_zeros_value(3 - d.len(), d);
    let p = crate::text::pad3(n);
    assert(p == z + d);
    assert forall|i: int| 0 <= i < p.len() implies is_digit(p[i]) by {
        if i < z.len() {
            assert(p[i] == '0');
        } else {
            assert(p[i] == d[i - z.len()]);
        }
    }
    if n >= 1000 {
        assert(z =~= Seq::<char>::empty());
        assert(p =~= d);
    }
}

} // verus!
