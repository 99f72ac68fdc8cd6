use vstd::prelude::*;

verus! {

/// Whether two string slices hold the same characters, by `str`'s `==`.
/// Trusted: `str` equality compares the two texts character for character.
#[verifier::external_body]
pub fn str_eq(a: &str, b: &str) -> (r: bool)
    ensures
        r == (a@ == b@),
{
    a == b
}

/// Appends one character, by `String::push`.
/// Trusted: `push` appends the character at the end of the string.
#[verifier::external_body]
pub fn push_char(s: &mut String, c: char)
    ensures
        final(s)@ == old(s)@.push(c),
{
    s.push(c)
}

/// The digit character for `d` in `0..10`.
pub open spec fn digit_char(d: int) -> char {
    if d == 0 {
        '0'
    } else if d == 1 {
        '1'
    } else if d == 2 {
        '2'
    } else if d == 3 {
        '3'
    } else if d == 4 {
        '4'
    } else if d == 5 {
        '5'
    } else if d == 6 {
        '6'
    } else if d == 7 {
        '7'
    } else if d == 8 {
        '8'
    } else {
        '9'
    }
}

/// The value of a digit character, if it is one.
pub open spec fn digit_value(c: char) -> Option<int> {
    if c == '0' {
        Some(0)
    } else if c == '1' {
        Some(1)
    } else if c == '2' {
        Some(2)
    } else if c == '3' {
        Some(3)
    } else if c == '4' {
        Some(4)
    } else if c == '5' {
        Some(5)
    } else if c == '6' {
        Some(6)
    } else if c == '7' {
        Some(7)
    } else if c == '8' {
        Some(8)
    } else if c == '9' {
        Some(9)
    } else {
        None
    }
}

/// `n` written in decimal, without leading zeros.
pub open spec fn decimal_text(n: nat) -> Seq<char>
    decreases n,
{
    if n < 10 {
        seq![digit_char(n as int)]
    } else {
        decimal_text(n / 10).push(digit_char((n % 10) as int))
    }
}

/// `n` in decimal with a comma between each group of three digits, counted from the right.
pub open spec fn grouped_text(n: nat) -> Seq<char>
    decreases n,
{
    if n < 1000 {
        decimal_text(n)
    } else {
        grouped_text(n / 1000) + seq![','] + three_digits((n % 1000) as nat)
    }
}

/// `n < 1000` written with exactly three digits.
pub open spec fn three_digits(n: nat) -> Seq<char> {
    seq![digit_char((n / 100) as int), digit_char(((n / 10) % 10) as int), digit_char((n % 10) as int)]
}

/// The value of a non-empty run of decimal digits; `None` if any character is not a digit.
pub open spec fn digits_value(s: Seq<char>) -> Option<nat>
    decreases s.len(),
{
    if s.len() == 0 {
        Some(0)
    } else {
        match (digits_value(s.drop_last()), digit_value(s.last())) {
            (Some(v), Some(d)) => Some((v * 10 + d) as nat),
            _ => None,
        }
    }
}

/// The number an unsigned integer text denotes, as `str::parse` reads it: an optional `+`
/// then at least one decimal digit, nothing else.
pub open spec fn unsigned_text_value(s: Seq<char>) -> Option<nat> {
    let body = if s.len() > 0 && s[0] == '+' {
        s.drop_first()
    } else {
        s
    };
    if body.len() == 0 {
        None
    } else {
        digits_value(body)
    }
}

/// The character for the digit `d`.
fn digit_to_char(d: u64) -> (c: char)
    requires
        d < 10,
    ensures
        c == digit_char(d as int),
{
    if d == 0 {
        '0'
    } else if d == 1 {
        '1'
    } else if d == 2 {
        '2'
    } else if d == 3 {
        '3'
    } else if d == 4 {
        '4'
    } else if d == 5 {
        '5'
    } else if d == 6 {
        '6'
    } else if d == 7 {
        '7'
    } else if d == 8 {
        '8'
    } else {
        '9'
    }
}

/// The value of a digit character.
fn char_to_digit(c: char) -> (r: Option<u64>)
    ensures
        r matches Some(d) ==> digit_value(c) == Some(d as int) && d < 10,
        r is None ==> digit_value(c) is None,
{
    if c == '0' {
        Some(0)
    } else if c == '1' {
        Some(1)
    } else if c == '2' {
        Some(2)
    } else if c == '3' {
        Some(3)
    } else if c == '4' {
        Some(4)
    } else if c == '5' {
        Some(5)
    } else if c == '6' {
        Some(6)
    } else if c == '7' {
        Some(7)
    } else if c == '8' {
        Some(8)
    } else if c == '9' {
        Some(9)
    } else {
        None
    }
}

/// Appends `n` in decimal.
pub fn push_decimal(s: &mut String, n: u64)
    ensures
        final(s)@ == old(s)@ + decimal_text(n as nat),
    decreases n,
{
    if n < 10 {
        push_char(s, digit_to_char(n));
        assert(old(s)@.push(digit_char(n as int)) =~= old(s)@ + decimal_text(n as nat));
    } else {
        push_decimal(s, n / 10);
        push_char(s, digit_to_char(n % 10));
        assert(old(s)@ + decimal_text((n / 10) as nat) + seq![digit_char((n % 10) as int)] =~= old(s)@
            + decimal_text(n as nat));
    }
}

/// `n` in decimal.
pub fn decimal_string(n: u64) -> (r: String)
    ensures
        r@ == decimal_text(n as nat),
{
    let mut s = String::new();
    push_decimal(&mut s, n);
    assert(Seq::<char>::empty() + decimal_text(n as nat) =~= decimal_text(n as nat));
    s
}

/// Appends `n` with thousands separators.
pub fn push_grouped(s: &mut String, n: u64)
    ensures
        final(s)@ == old(s)@ + grouped_text(n as nat),
    decreases n,
{
    if n < 1000 {
        push_decimal(s, n);
    } else {
        push_grouped(s, n / 1000);
        let low = n % 1000;
        push_char(s, ',');
        push_char(s, digit_to_char(low / 100));
        push_char(s, digit_to_char((low / 10) % 10));
        push_char(s, digit_to_char(low % 10));
        assert(old(s)@ + grouped_text((n / 1000) as nat) + seq![','] + three_digits(low as nat) =~= old(s)@
            + grouped_text(n as nat));
    }
}

/// `n` with a comma between each group of three digits, counted from the right.
pub fn grouped_string(n: u64) -> (r: String)
    ensures
        r@ == grouped_text(n as nat),
{
    let mut s = String::new();
    push_grouped(&mut s, n);
    assert(Seq::<char>::empty() + grouped_text(n as nat) =~= grouped_text(n as nat));
    s
}

/// A longer run of digits is worth at least as much as its prefix.
proof fn lemma_digits_value_grows(s: Seq<char>, i: int)
    requires
        0 <= i <= s.len(),
        digits_value(s) is Some,
    ensures
        digits_value(s.take(i)) is Some,
        digits_value(s.take(i)).unwrap() <= digits_value(s).unwrap(),
    decreases s.len(),
{
    if i < s.len() {
        assert(s.drop_last().take(i) =~= s.take(i));
        lemma_digits_value_grows(s.drop_last(), i);
    } else {
        assert(s.take(i) =~= s);
    }
}

/// Reads an unsigned integer as `str::parse::<u64>` does: an optional `+` and at least one
/// decimal digit, worth at most `u64::MAX`; anything else is `None`.
pub fn parse_u64_text(text: &str) -> (r: Option<u64>)
    ensures
        r matches Some(v) ==> unsigned_text_value(text@) == Some(v as nat),
        r is None ==> match unsigned_text_value(text@) {
            None => true,
            Some(v) => v > u64::MAX,
        },
{
    let len = text.unicode_len();
    let mut i: usize = 0;
    if len > 0 && text.get_char(0) == '+' {
        i = 1;
    }
    let start = i;
    let ghost body = text@.skip(start as int);
    proof {
        if start == 1 {
            assert(body =~= text@.drop_first());
        } else {
            assert(body =~= text@);
        }
    }
    if i == len {
        return None;
    }
    assert(body.take(0) =~= Seq::<char>::empty());
    let mut acc: u64 = 0;
    while i < len
        invariant
            start <= i <= len,
            len == text@.len(),
            body == text@.skip(start as int),
            digits_value(body.take(i - start)) == Some(acc as nat),
            body.len() > 0,
            unsigned_text_value(text@) == digits_value(body),
        decreases len - i,
    {
        let c = text.get_char(i);
        let d = match char_to_digit(c) {
            Some(d) => d,
            None => {
                proof {
                    let k = i - start + 1;
                    assert(body.take(k).last() == c);
                    assert(body.take(k).drop_last() =~= body.take(i - start));
                    assert(digits_value(body.take(k)) is None);
                    if digits_value(body) is Some {
                        lemma_digits_value_grows(body, k);
                    }
                }
                return None;
            },
        };
        proof {
            let k = i - start + 1;
            assert(body.take(k).last() == c);
            assert(body.take(k).drop_last() =~= body.take(i - start));
        }
        if acc > (u64::MAX - d) / 10 {
            proof {
                let k = i - start + 1;
                assert(acc * 10 + d > u64::MAX) by (nonlinear_arith)
                    requires
                        acc > (u64::MAX - d) / 10,
                        d < 10,
                ;
                if digits_value(body) is Some {
                    lemma_digits_value_grows(body, k);
                }
            }
            return None;
        }
        proof {
            assert(acc * 10 + d <= u64::MAX) by (nonlinear_arith)
                requires
                    acc <= (u64::MAX - d) / 10,
                    d < 10,
            ;
        }
        acc = acc * 10 + d;
        i = i + 1;
    }
    proof {
        assert(body.take(len - start) =~= body);
    }
    Some(acc)
}

} // verus!
