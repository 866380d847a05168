//! Decimal numbers in text: writing them (as `{}` and `{:02}` format them)
//! and reading them back (as `str::parse::<u64>` does).
use vstd::prelude::*;

verus! {

/// The digit character of `d` (0 to 9).
pub open spec fn digit_char(d: int) -> char
    recommends
        0 <= d < 10,
{
    (d + 48) as char
}

/// The character is one of `0` to `9`.
pub open spec fn is_digit(c: char) -> bool {
    48 <= (c as u32) <= 57
}

/// The value of a digit character.
pub open spec fn digit_value(c: char) -> int {
    (c as u32) - 48
}

/// The decimal writing of `n`, with no leading zero (what `{}` prints).
pub open spec fn decimal(n: nat) -> Seq<char>
    decreases n,
{
    if n < 10 {
        seq![digit_char(n as int)]
    } else {
        decimal(n / 10).push(digit_char((n % 10) as int))
    }
}

/// The decimal writing of `n` padded with zeros to two characters (what `{:02}` prints).
pub open spec fn decimal_two(n: nat) -> Seq<char> {
    if n < 10 {
        seq!['0'] + decimal(n)
    } else {
        decimal(n)
    }
}

/// The value of a sequence of digits.
pub open spec fn digits_value(s: Seq<char>) -> int
    decreases s.len(),
{
    if s.len() == 0 {
        0
    } else {
        digits_value(s.drop_last()) * 10 + digit_value(s.last())
    }
}

/// The digits after the optional leading `+`.
pub open spec fn unsigned_digits(s: Seq<char>) -> Seq<char> {
    if s.len() > 0 && s[0] == '+' {
        s.drop_first()
    } else {
        s
    }
}

/// What `str::parse::<u64>` gives: an optional `+`, then one or more digits
/// whose value fits in a `u64`; `None` for anything else.
pub open spec fn parse_u64(s: Seq<char>) -> Option<u64> {
    let d = unsigned_digits(s);
    if d.len() > 0 && (forall|i: int| 0 <= i < d.len() ==> is_digit(#[trigger] d[i]))
        && digits_value(d) <= u64::MAX {
        Some(digits_value(d) as u64)
    } else {
        None
    }
}

fn digit_exec(d: u64) -> (c: char)
    requires
        d < 10,
    ensures
        c == digit_char(d as int),
{
    let b: u8 = (d as u8) + 48;
    b as char
}

/// The decimal writing of `n`.
pub fn decimal_exec(n: u64) -> (res: Vec<char>)
    ensures
        res@ == decimal(n as nat),
    decreases n,
{
    if n < 10 {
        let mut v: Vec<char> = Vec::new();
        v.push(digit_exec(n));
        assert(v@ =~= seq![digit_char(n as int)]);
        v
    } else {
        let mut v = decimal_exec(n / 10);
        v.push(digit_exec(n % 10));
        v
    }
}

/// The decimal writing of `n` padded with zeros to two characters.
pub fn decimal_two_exec(n: u64) -> (res: Vec<char>)
    ensures
        res@ == decimal_two(n as nat),
{
    let d = decimal_exec(n);
    if n < 10 {
        let mut v: Vec<char> = Vec::new();
        v.push('0');
        v.extend_from_slice(d.as_slice());
        assert(v@ =~= seq!['0'] + decimal(n as nat));
        v
    } else {
        d
    }
}

/// Reads a `u64` from its decimal writing, as `str::parse::<u64>` does.
pub fn parse_u64_exec(s: &[char]) -> (res: Option<u64>)
    ensures
        res == parse_u64(s@),
{
    let start: usize = if s.len() > 0 && s[0] == '+' {
        1
    } else {
        0
    };
    let ghost d = unsigned_digits(s@);
    assert(d == s@.subrange(start as int, s@.len() as int));
    if start == s.len() {
        return None;
    }
    let mut i: usize = start;
    while i < s.len()
        invariant
            start <= i <= s@.len(),
            d == s@.subrange(start as int, s@.len() as int),
            d == unsigned_digits(s@),
            forall|j: int| 0 <= j < i - start ==> is_digit(#[trigger] d[j]),
        decreases s@.len() - i,
    {
        let u = s[i] as u32;
        assert(d[i - start] == s@[i as int]);
        if u < 48 || u > 57 {
            assert(!is_digit(d[(i - start) as int]));
            return None;
        }
        i = i + 1;
    }
    let mut value: u64 = 0;
    let mut i: usize = start;
    while i < s.len()
        invariant
            start <= i <= s@.len(),
            d == s@.subrange(start as int, s@.len() as int),
            d == unsigned_digits(s@),
            forall|j: int| 0 <= j < d.len() ==> is_digit(#[trigger] d[j]),
            value == digits_value(d.take(i - start)),
        decreases s@.len() - i,
    {
        let u = s[i] as u32;
        assert(d[i - start] == s@[i as int]);
        let digit = (u - 48) as u64;
        assert(d.take(i - start + 1).drop_last() == d.take(i - start));
        assert(digit_value(d[i - start]) == digit);
        assert(digits_value(d.take(i - start + 1)) == value * 10 + digit);
        if value > (u64::MAX - digit) / 10 {
            proof {
                lemma_overflow(value as int, digit as int);
                lemma_digits_value_grows(d, (i - start + 1) as int);
            }
            return None;
        }
        value = value * 10 + digit;
        i = i + 1;
    }
    assert(d.take(d.len() as int) == d);
    Some(value)
}

proof fn lemma_overflow(value: int, digit: int)
    requires
        0 <= digit < 10,
        value > (u64::MAX - digit) / 10,
    ensures
        value * 10 + digit > u64::MAX,
{
    let m = u64::MAX - digit;
    assert(m == 10 * (m / 10) + m % 10 && 0 <= m % 10 < 10) by (nonlinear_arith)
        requires m >= 0;
    assert(value >= m / 10 + 1);
    assert(value * 10 >= (m / 10 + 1) * 10) by (nonlinear_arith)
        requires value >= m / 10 + 1;
}

/// A longer prefix of digits never has a smaller value.
proof fn lemma_digits_value_grows(d: Seq<char>, k: int)
    requires
        0 <= k <= d.len(),
        forall|j: int| 0 <= j < d.len() ==> is_digit(#[trigger] d[j]),
    ensures
        digits_value(d.take(k)) <= digits_value(d),
    decreases d.len() - k,
{
    lemma_digits_value_nonneg(d.take(k));
    if k < d.len() {
        lemma_digits_value_grows(d, k + 1);
        assert(d.take(k + 1).drop_last() == d.take(k));
        assert(d.take(k + 1).last() == d[k]);
    } else {
        assert(d.take(k) == d);
    }
}

proof fn lemma_digits_value_nonneg(d: Seq<char>)
    requires
        forall|j: int| 0 <= j < d.len() ==> is_digit(#[trigger] d[j]),
    ensures
        digits_value(d) >= 0,
    decreases d.len(),
{
    if d.len() > 0 {
        lemma_digits_value_nonneg(d.drop_last());
        assert(is_digit(d[d.len() - 1]));
    }
}

proof fn lemma_digit_char(k: int)
    requires
        0 <= k < 10,
    ensures
        is_digit(digit_char(k)),
        digit_value(digit_char(k)) == k,
        digit_char(k) != '+',
{
    assert(((k + 48) as char) as u32 == k + 48);
}

pub proof fn lemma_decimal_digits(n: nat)
    ensures
        decimal(n).len() > 0,
        forall|j: int| 0 <= j < decimal(n).len() ==> is_digit(#[trigger] decimal(n)[j]),
        digits_value(decimal(n)) == n,
        decimal(n)[0] != '+',
    decreases n,
{
    if n < 10 {
        lemma_digit_char(n as int);
        assert(decimal(n).drop_last() == Seq::<char>::empty());
        assert(digits_value(Seq::<char>::empty()) == 0);
        assert(decimal(n).last() == digit_char(n as int));
    } else {
        lemma_digit_char((n % 10) as int);
        lemma_decimal_digits(n / 10);
        let d = decimal(n / 10);
        assert(decimal(n).drop_last() == d);
        assert(decimal(n).last() == digit_char((n % 10) as int));
        assert(digits_value(decimal(n)) == digits_value(d) * 10 + (n % 10));
        assert(decimal(n)[0] == d[0]);
        assert forall|j: int| 0 <= j < decimal(n).len() implies is_digit(#[trigger] decimal(n)[j]) by {
            if j < d.len() {
                assert(decimal(n)[j] == d[j]);
            }
        }
    }
}

/// Reading back the decimal writing of a number gives the number.
pub proof fn lemma_parse_decimal(n: u64)
    ensures
        parse_u64(decimal(n as nat)) == Some(n),
{
    lemma_decimal_digits(n as nat);
    assert(unsigned_digits(decimal(n as nat)) == decimal(n as nat));
}

/// Reading back the zero-padded writing of a number gives the number.
pub proof fn lemma_parse_decimal_two(n: u64)
    ensures
        parse_u64(decimal_two(n as nat)) == Some(n),
{
    lemma_decimal_digits(n as nat);
    if n < 10 {
        let s = decimal_two(n as nat);
        let d = decimal(n as nat);
        assert(s == seq!['0'] + d);
        assert(unsigned_digits(s) == s);
        assert(is_digit('0'));
        assert forall|i: int| 0 <= i < s.len() implies is_digit(#[trigger] s[i]) by {
            if i > 0 {
                assert(s[i] == d[i - 1]);
            }
        }
        lemma_digits_value_prepend_zero(d);
    } else {
        assert(unsigned_digits(decimal(n as nat)) == decimal(n as nat));
    }
}

/// A leading zero does not change the value of digits.
proof fn lemma_digits_value_prepend_zero(d: Seq<char>)
    ensures
        digits_value(seq!['0'] + d) == digits_value(d),
    decreases d.len(),
{
    if d.len() == 0 {
        assert(seq!['0'] + d == seq!['0']);
        assert(seq!['0'].drop_last() == Seq::<char>::empty());
        assert(digits_value(Seq::<char>::empty()) == 0);
    } else {
        lemma_digits_value_prepend_zero(d.drop_last());
        assert((seq!['0'] + d).drop_last() == seq!['0'] + d.drop_last());
        assert((seq!['0'] + d).last() == d.last());
    }
}

/// Different numbers have different zero-padded writings.
pub proof fn lemma_decimal_two_injective(a: u64, b: u64)
    requires
        decimal_two(a as nat) == decimal_two(b as nat),
    ensures
        a == b,
{
    lemma_parse_decimal_two(a);
    lemma_parse_decimal_two(b);
}

/// The decimal writing of a number is one or more digits, with no leading
/// zero but for 0 itself; the zero-padded writing has two characters at
/// least, with a leading zero below 10.
pub proof fn lemma_decimal_shape(n: u64)
    ensures
        decimal(n as nat).len() > 0,
        forall|j: int| 0 <= j < decimal(n as nat).len() ==> is_digit(#[trigger] decimal(n as nat)[j]),
        n > 0 ==> decimal(n as nat)[0] != '0',
        n == 0 ==> decimal(n as nat) == seq!['0'],
        decimal_two(n as nat).len() >= 2,
        n < 10 ==> decimal_two(n as nat)[0] == '0',
        n >= 10 ==> decimal_two(n as nat) == decimal(n as nat),
    decreases n,
{
    lemma_decimal_digits(n as nat);
    if n >= 10 {
        lemma_decimal_shape(n / 10);
        let d = decimal((n / 10) as nat);
        assert(decimal(n as nat)[0] == d[0]);
        assert(decimal(n as nat).len() >= 2);
    } else if n > 0 {
        assert(decimal(n as nat)[0] == digit_char(n as int));
        assert((((n as int) + 48) as char) as u32 == (n as int) + 48);
    } else {
        assert(decimal(0) =~= seq!['0']);
    }
}

/// Reading a number fails where a character other than a digit stands,
/// but for one leading `+`, and for an empty text or a lone `+`.
pub proof fn lemma_parse_rejects(s: Seq<char>, i: int)
    requires
        0 <= i < s.len(),
        !is_digit(s[i]),
        !(i == 0 && s[0] == '+'),
    ensures
        parse_u64(s) is None,
{
    let d = unsigned_digits(s);
    if s[0] == '+' {
        assert(d[i - 1] == s[i]);
    } else {
        assert(d[i] == s[i]);
    }
}

/// Reading nothing, or a lone `+`, gives no number.
pub proof fn lemma_parse_empty()
    ensures
        parse_u64(Seq::<char>::empty()) is None,
        parse_u64(seq!['+']) is None,
{
    assert(seq!['+'].drop_first().len() == 0);
}

/// A leading `+` does not change the number read.
pub proof fn lemma_parse_plus(d: Seq<char>)
    requires
        d.len() > 0,
        d[0] != '+',
    ensures
        parse_u64(seq!['+'] + d) == parse_u64(d),
{
    assert((seq!['+'] + d).drop_first() =~= d);
}

} // verus!
