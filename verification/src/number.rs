//! Decimal integers as text: reading them the way `str::parse` does, and
//! writing them out.

use crate::text::to_chars;
use vstd::prelude::*;

verus! {

pub open spec fn is_digit(c: char) -> bool {
    '0' <= c <= '9'
}

/// The value of one decimal digit.
pub open spec fn digit_value(c: char) -> int {
    c as int - '0' as int
}

pub open spec fn all_digits(s: Seq<char>) -> bool {
    forall|i: int| 0 <= i < s.len() ==> is_digit(#[trigger] s[i])
}

/// The number that a run of decimal digits stands for.
pub open spec fn digits_value(s: Seq<char>) -> int
    decreases s.len(),
{
    if s.len() == 0 {
        0
    } else {
        10 * digits_value(s.drop_last()) + digit_value(s.last())
    }
}

/// The number written as one or more digits.
pub open spec fn plain_number(s: Seq<char>) -> Option<int> {
    if s.len() > 0 && all_digits(s) {
        Some(digits_value(s))
    } else {
        None
    }
}

/// The number written as digits with an optional `+` or `-` in front.
pub open spec fn signed_number(s: Seq<char>) -> Option<int> {
    if s.len() > 0 && s[0] == '-' {
        match plain_number(s.skip(1)) {
            Some(n) => Some(-n),
            None => None,
        }
    } else {
        unsigned_number(s)
    }
}

/// The number written as digits with an optional `+` in front.
pub open spec fn unsigned_number(s: Seq<char>) -> Option<int> {
    if s.len() > 0 && s[0] == '+' {
        plain_number(s.skip(1))
    } else {
        plain_number(s)
    }
}

/// The number, where it lies between the bounds.
pub open spec fn within(n: Option<int>, lo: int, hi: int) -> Option<int> {
    match n {
        Some(v) if lo <= v <= hi => Some(v),
        _ => None,
    }
}

/// The text read as a 64-bit signed integer.
pub open spec fn i64_of(s: Seq<char>) -> Option<i64> {
    match within(signed_number(s), i64::MIN as int, i64::MAX as int) {
        Some(v) => Some(v as i64),
        None => None,
    }
}

/// The text read as an unsigned integer of at most `max`.
pub open spec fn unsigned_of(s: Seq<char>, max: u64) -> Option<u64> {
    match within(unsigned_number(s), 0, max as int) {
        Some(v) => Some(v as u64),
        None => None,
    }
}

/// The digit that stands for `d`, which is between 0 and 9.
pub open spec fn digit_char(d: int) -> char {
    ('0' as int + d) as char
}

/// A natural number in decimal, without leading zeros.
pub open spec fn decimal(n: int) -> Seq<char>
    decreases n,
{
    if n < 10 {
        seq![digit_char(n)]
    } else {
        decimal(n / 10).push(digit_char(n % 10))
    }
}

/// An integer in decimal, with `-` in front where it is negative.
pub open spec fn signed_decimal(n: int) -> Seq<char> {
    if n < 0 {
        seq!['-'] + decimal(-n)
    } else {
        decimal(n)
    }
}

proof fn lemma_digits_value_grows(s: Seq<char>, k: int)
    requires
        all_digits(s),
        0 <= k <= s.len(),
    ensures
        0 <= digits_value(s.take(k)) <= digits_value(s),
    decreases s.len(),
{
    if k == s.len() {
        assert(s.take(k) =~= s);
        if s.len() > 0 {
            lemma_digits_value_grows(s.drop_last(), 0);
            lemma_digits_value_grows(s.drop_last(), s.len() - 1);
        }
    } else {
        assert(s.drop_last().take(k) =~= s.take(k));
        lemma_digits_value_grows(s.drop_last(), k);
        assert(is_digit(s[s.len() - 1]));
    }
}

/// Reads the digits from position `from` on as a number up to `u64::MAX`.
fn parse_digits(chars: &Vec<char>, from: usize) -> (r: Option<u64>)
    requires
        from <= chars@.len(),
    ensures
        match r {
            Some(n) => plain_number(chars@.skip(from as int)) == Some(n as int),
            None => within(plain_number(chars@.skip(from as int)), 0, u64::MAX as int) is None,
        },
{
    let n: usize = chars.len();
    let ghost body = chars@.skip(from as int);
    if from == n {
        return None;
    }
    let mut acc: u64 = 0;
    let mut over: bool = false;
    let mut i: usize = from;
    assert(body.take(0) =~= Seq::empty());
    while i < n
        invariant
            from <= i <= n,
            n == chars@.len(),
            body == chars@.skip(from as int),
            all_digits(body.take(i - from)),
            !over ==> digits_value(body.take(i - from)) == acc,
            over ==> digits_value(body.take(i - from)) > u64::MAX,
        decreases n - i,
    {
        let c = chars[i];
        let ghost next = body.take(i - from + 1);
        assert(next.drop_last() =~= body.take(i - from));
        assert(next.last() == c);
        if c < '0' || c > '9' {
            assert(body[i - from] == c);
            return None;
        }
        let d: u64 = (c as u64) - ('0' as u64);
        assert(all_digits(next)) by {
            assert forall|k: int| 0 <= k < next.len() implies is_digit(#[trigger] next[k]) by {
                if k < i - from {
                    assert(next[k] == body.take(i - from)[k]);
                }
            }
        }
        if !over {
            if acc > (u64::MAX - d) / 10 {
                over = true;
            } else {
                acc = acc * 10 + d;
            }
        }
        i = i + 1;
    }
    assert(body.take(n - from) =~= body);
    if over {
        None
    } else {
        Some(acc)
    }
}

/// Reads a signed integer; `None` where the text is no number or the number
/// does not fit.
pub fn parse_i64(s: &str) -> (r: Option<i64>)
    ensures
        r == i64_of(s@),
{
    let chars = to_chars(s);
    assert(s@.skip(0) =~= s@);
    if chars.len() == 0 {
        return None;
    }
    if chars[0] == '-' {
        match parse_digits(&chars, 1) {
            Some(n) => {
                if n < 9223372036854775808 {
                    Some(-(n as i64))
                } else if n == 9223372036854775808 {
                    Some(i64::MIN)
                } else {
                    None
                }
            },
            None => {
                proof {
                    lemma_digits_value_grows_if(chars@.skip(1));
                }
                None
            },
        }
    } else {
        let from: usize = if chars[0] == '+' { 1 } else { 0 };
        match parse_digits(&chars, from) {
            Some(n) => if n <= 9223372036854775807 {
                Some(n as i64)
            } else {
                None
            },
            None => {
                proof {
                    lemma_digits_value_grows_if(chars@.skip(from as int));
                }
                None
            },
        }
    }
}

proof fn lemma_digits_value_grows_if(s: Seq<char>)
    ensures
        plain_number(s) matches Some(n) ==> n >= 0,
{
    if all_digits(s) {
        lemma_digits_value_grows(s, 0);
    }
}

/// Reads an unsigned integer up to `max`; `None` where the text is no such
/// number.
pub fn parse_unsigned(s: &str, max: u64) -> (r: Option<u64>)
    ensures
        r == unsigned_of(s@, max),
{
    let chars = to_chars(s);
    assert(s@.skip(0) =~= s@);
    if chars.len() == 0 {
        return None;
    }
    let from: usize = if chars[0] == '+' { 1 } else { 0 };
    match parse_digits(&chars, from) {
        Some(n) => if n <= max {
            Some(n)
        } else {
            None
        },
        None => None,
    }
}

/// A natural number as decimal text.
pub fn u64_text(n: u64) -> (r: String)
    ensures
        r@ == decimal(n as int),
    decreases n,
{
    let mut r = if n < 10 {
        String::new()
    } else {
        u64_text(n / 10)
    };
    let d: u8 = (n % 10) as u8;
    r.push((48 + d) as char);
    r
}

/// An integer as decimal text.
pub fn i64_text(n: i64) -> (r: String)
    ensures
        r@ == signed_decimal(n as int),
{
    if n >= 0 {
        return u64_text(n as u64);
    }
    let magnitude: u64 = if n == i64::MIN {
        9223372036854775808
    } else {
        (-n) as u64
    };
    let mut r = String::new();
    r.push('-');
    r.append(u64_text(magnitude).as_str());
    assert(r@ =~= seq!['-'] + decimal(-(n as int)));
    r
}

/// Decimal text is made of digits alone, and reads back as the number.
pub proof fn lemma_decimal_reads_back(n: int)
    requires
        n >= 0,
    ensures
        decimal(n).len() > 0,
        all_digits(decimal(n)),
        plain_number(decimal(n)) == Some(n),
    decreases n,
{
    if n >= 10 {
        lemma_decimal_reads_back(n / 10);
        assert(decimal(n).drop_last() =~= decimal(n / 10));
        assert(decimal(n).last() == digit_char(n % 10));
        assert(digits_value(decimal(n)) == 10 * digits_value(decimal(n / 10)) + n % 10);
    } else {
        assert(decimal(n).drop_last() =~= Seq::empty());
        assert(decimal(n).last() == digit_char(n));
        assert(digits_value(decimal(n)) == 10 * digits_value(decimal(n).drop_last()) + n);
    }
}

/// A 64-bit integer written out and read again is the same integer.
pub proof fn integer_text_reads_back(n: i64)
    ensures
        i64_of(signed_decimal(n as int)) == Some(n),
{
    let t = signed_decimal(n as int);
    if n < 0 {
        lemma_decimal_reads_back(-(n as int));
        assert(t.skip(1) =~= decimal(-(n as int)));
    } else {
        lemma_decimal_reads_back(n as int);
        assert(is_digit(t[0]));
    }
}

/// Two numbers with the same decimal text are the same number.
pub proof fn decimal_is_injective(m: int, n: int)
    requires
        m >= 0,
        n >= 0,
        decimal(m) == decimal(n),
    ensures
        m == n,
{
    lemma_decimal_reads_back(m);
    lemma_decimal_reads_back(n);
}

} // verus!
