//! Character-level helpers shared by the parsers and formatters of the library.

use vstd::prelude::*;

verus! {

broadcast use vstd::string::group_string_axioms;

/// The characters of `s`, in order.
pub fn chars_of(s: &str) -> (v: Vec<char>)
    ensures
        v@ == s@,
{
    let mut v: Vec<char> = Vec::new();
    for c in it: s.chars()
        invariant
            v@ == it.seq().take(it.index()),
            it.seq() == s@,
    {
        v.push(c);
    }
    v
}

/// `String::push` of std: appends one character at the end of the string.
#[verifier::external_body]
fn push_char(s: &mut String, c: char)
    ensures
        final(s)@ == old(s)@.push(c),
{
    s.push(c);
}

/// The string made of the characters of `v`, in order.
pub fn string_from_chars(v: &[char]) -> (s: String)
    ensures
        s@ == v@,
{
    let mut s = String::new();
    let mut i: usize = 0;
    while i < v.len()
        invariant
            i <= v@.len(),
            s@ == v@.take(i as int),
        decreases v@.len() - i,
    {
        push_char(&mut s, v[i]);
        i = i + 1;
        assert(v@.take(i as int) == v@.take((i - 1) as int).push(v@[i - 1]));
    }
    assert(v@.take(v@.len() as int) == v@);
    s
}

/// A copy of `s` as an owned string.
pub fn string_of(s: &str) -> (r: String)
    ensures
        r@ == s@,
{
    let v = chars_of(s);
    string_from_chars(v.as_slice())
}

/// Appends the characters of `t` to `s`.
pub fn append_chars(s: &mut Vec<char>, t: &str)
    ensures
        final(s)@ == old(s)@ + t@,
{
    let v = chars_of(t);
    let mut i: usize = 0;
    while i < v.len()
        invariant
            i <= v@.len(),
            v@ == t@,
            s@ == old(s)@ + v@.take(i as int),
        decreases v@.len() - i,
    {
        s.push(v[i]);
        i = i + 1;
        assert(v@.take(i as int) == v@.take((i - 1) as int).push(v@[i - 1]));
    }
    assert(v@.take(v@.len() as int) == v@);
}

/// Whether two character sequences are equal.
pub fn chars_eq(a: &[char], b: &[char]) -> (r: bool)
    ensures
        r == (a@ == b@),
{
    if a.len() != b.len() {
        return false;
    }
    let mut i: usize = 0;
    while i < a.len()
        invariant
            i <= a@.len(),
            a@.len() == b@.len(),
            forall|j: int| 0 <= j < i ==> a@[j] == b@[j],
        decreases a@.len() - i,
    {
        if a[i] != b[i] {
            return false;
        }
        i = i + 1;
    }
    assert(a@ == b@);
    true
}

/// Whether two strings hold the same characters.
pub fn str_eq(a: &str, b: &str) -> (r: bool)
    ensures
        r == (a@ == b@),
{
    let va = chars_of(a);
    let vb = chars_of(b);
    chars_eq(va.as_slice(), vb.as_slice())
}

/// The decimal digit character of `d`.
pub open spec fn digit_char(d: nat) -> char {
    if d == 0 { '0' }
    else if d == 1 { '1' }
    else if d == 2 { '2' }
    else if d == 3 { '3' }
    else if d == 4 { '4' }
    else if d == 5 { '5' }
    else if d == 6 { '6' }
    else if d == 7 { '7' }
    else if d == 8 { '8' }
    else { '9' }
}

/// The decimal notation of a natural number, without leading zeros.
pub open spec fn decimal(n: nat) -> Seq<char>
    decreases n,
{
    if n < 10 {
        seq![digit_char(n)]
    } else {
        decimal(n / 10).push(digit_char(n % 10))
    }
}

/// The decimal notation of an integer, with a leading `-` when it is negative.
pub open spec fn signed_decimal(n: int) -> Seq<char> {
    if n < 0 {
        seq!['-'] + decimal((-n) as nat)
    } else {
        decimal(n as nat)
    }
}

fn digit_of(d: u64) -> (c: char)
    requires
        d < 10,
    ensures
        c == digit_char(d as nat),
{
    if d == 0 { '0' }
    else if d == 1 { '1' }
    else if d == 2 { '2' }
    else if d == 3 { '3' }
    else if d == 4 { '4' }
    else if d == 5 { '5' }
    else if d == 6 { '6' }
    else if d == 7 { '7' }
    else if d == 8 { '8' }
    else { '9' }
}

/// The decimal digits of `n`.
pub fn decimal_chars(n: u64) -> (v: Vec<char>)
    ensures
        v@ == decimal(n as nat),
    decreases n,
{
    if n < 10 {
        let mut v = Vec::new();
        v.push(digit_of(n));
        v
    } else {
        let mut v = decimal_chars(n / 10);
        v.push(digit_of(n % 10));
        v
    }
}

/// The decimal notation of a signed integer, as `i64::to_string` writes it.
pub fn signed_decimal_chars(n: i64) -> (v: Vec<char>)
    ensures
        v@ == signed_decimal(n as int),
{
    if n < 0 {
        let mag: u64 = if n == i64::MIN { 9223372036854775808u64 } else { (-n) as u64 };
        let digits = decimal_chars(mag);
        let mut v = Vec::new();
        v.push('-');
        let mut i: usize = 0;
        while i < digits.len()
            invariant
                i <= digits@.len(),
                v@ == seq!['-'] + digits@.take(i as int),
            decreases digits@.len() - i,
        {
            v.push(digits[i]);
            i = i + 1;
            assert(digits@.take(i as int) == digits@.take((i - 1) as int).push(digits@[i - 1]));
        }
        assert(digits@.take(digits@.len() as int) == digits@);
        v
    } else {
        decimal_chars(n as u64)
    }
}

/// `n` zeros (none when `n` is not positive).
pub open spec fn zeros(n: int) -> Seq<char> {
    Seq::new(if n > 0 { n as nat } else { 0 }, |i: int| '0')
}

/// The notation of `n` that `format!("{:03}", n)` writes: the sign, if any,
/// then the digits, zero-padded so that the whole is at least three characters.
pub open spec fn pad3(n: int) -> Seq<char> {
    if n < 0 {
        let d = decimal((-n) as nat);
        seq!['-'] + zeros(2 - d.len()) + d
    } else {
        let d = decimal(n as nat);
        zeros(3 - d.len()) + d
    }
}

/// Appends the characters of `t` to `s`.
pub fn append_slice(s: &mut Vec<char>, t: &[char])
    ensures
        final(s)@ == old(s)@ + t@,
{
    let mut i: usize = 0;
    while i < t.len()
        invariant
            i <= t@.len(),
            s@ == old(s)@ + t@.take(i as int),
        decreases t@.len() - i,
    {
        s.push(t[i]);
        i = i + 1;
        assert(t@.take(i as int) == t@.take((i - 1) as int).push(t@[i - 1]));
    }
    assert(t@.take(t@.len() as int) == t@);
}

/// Appends `n` zeros to `s`.
fn push_zeros(s: &mut Vec<char>, n: usize)
    ensures
        final(s)@ == old(s)@ + zeros(n as int),
{
    let mut i: usize = 0;
    while i < n
        invariant
            i <= n,
            s@ == old(s)@ + zeros(i as int),
        decreases n - i,
    {
        s.push('0');
        i = i + 1;
        assert(zeros(i as int) == zeros((i - 1) as int).push('0'));
    }
}

/// `n` written as `format!("{:03}", n)` writes it.
pub fn pad3_chars(n: i32) -> (v: Vec<char>)
    ensures
        v@ == pad3(n as int),
{
    let mut v: Vec<char> = Vec::new();
    if n < 0 {
        let mag: u64 = if n == i32::MIN { 2147483648u64 } else { (-n) as u64 };
        let d = decimal_chars(mag);
        v.push('-');
        if d.len() < 2 {
            push_zeros(&mut v, 2 - d.len());
        } else {
            assert(zeros(2 - d@.len()) == Seq::<char>::empty());
        }
        append_slice(&mut v, d.as_slice());
    } else {
        let d = decimal_chars(n as u64);
        if d.len() < 3 {
            push_zeros(&mut v, 3 - d.len());
        } else {
            assert(zeros(3 - d@.len()) == Seq::<char>::empty());
        }
        append_slice(&mut v, d.as_slice());
    }
    v
}

/// `pre`, the decimal digits of `n`, then `post`.
pub fn framed_number(pre: &str, n: u64, post: &str) -> (r: String)
    ensures
        r@ == pre@ + decimal(n as nat) + post@,
{
    let mut v: Vec<char> = Vec::new();
    append_chars(&mut v, pre);
    let d = decimal_chars(n);
    append_slice(&mut v, d.as_slice());
    append_chars(&mut v, post);
    string_from_chars(v.as_slice())
}

/// `pre` followed by `s`.
pub fn prefixed(pre: &str, s: &str) -> (r: String)
    ensures
        r@ == pre@ + s@,
{
    let mut v: Vec<char> = Vec::new();
    append_chars(&mut v, pre);
    append_chars(&mut v, s);
    string_from_chars(v.as_slice())
}

/// `pre`, then `s`, then `post`.
pub fn framed(pre: &str, s: &str, post: &str) -> (r: String)
    ensures
        r@ == pre@ + s@ + post@,
{
    let mut v: Vec<char> = Vec::new();
    append_chars(&mut v, pre);
    append_chars(&mut v, s);
    append_chars(&mut v, post);
    string_from_chars(v.as_slice())
}

/// `pre`, then `a`, then `mid`, then `b`, then `post`.
pub fn framed_pair(pre: &str, a: &[char], mid: &str, b: &str, post: &str) -> (r: String)
    ensures
        r@ == pre@ + a@ + mid@ + b@ + post@,
{
    let mut v: Vec<char> = Vec::new();
    append_chars(&mut v, pre);
    append_slice(&mut v, a);
    append_chars(&mut v, mid);
    append_chars(&mut v, b);
    append_chars(&mut v, post);
    string_from_chars(v.as_slice())
}

} // verus!
