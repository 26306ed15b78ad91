//! Decimal formatting and parsing of integers, verified against sequence
//! specifications.

use vstd::prelude::*;

verus! {

/// The decimal digit character for `d`.
pub open spec fn digit_char(d: int) -> char {
    if d == 0 {
        '0'
    } else if d == 1 {
        '1'
    } else if d == 2 {
        '2'
    } else if d == 3 {
        '3'
    } else if d == 4 {
        '4'
    } else if d == 5 {
        '5'
    } else if d == 6 {
        '6'
    } else if d == 7 {
        '7'
    } else if d == 8 {
        '8'
    } else {
        '9'
    }
}

/// The decimal digits of `n`, most significant first.
pub open spec fn dec_digits(n: nat) -> Seq<char>
    decreases n,
{
    if n < 10 {
        seq![digit_char(n as int)]
    } else {
        dec_digits(n / 10).push(digit_char((n % 10) as int))
    }
}

/// The decimal form of a signed integer.
pub open spec fn spec_i64_digits(n: int) -> Seq<char> {
    if n < 0 {
        seq!['-'] + dec_digits((-n) as nat)
    } else {
        dec_digits(n as nat)
    }
}

fn digit_char_of(d: u64) -> (r: char)
    requires
        d < 10,
    ensures
        r == digit_char(d as int),
{
    if d == 0 {
        '0'
    } else if d == 1 {
        '1'
    } else if d == 2 {
        '2'
    } else if d == 3 {
        '3'
    } else if d == 4 {
        '4'
    } else if d == 5 {
        '5'
    } else if d == 6 {
        '6'
    } else if d == 7 {
        '7'
    } else if d == 8 {
        '8'
    } else {
        '9'
    }
}

fn push_dec(out: &mut Vec<char>, n: u64)
    ensures
        final(out)@ == old(out)@ + dec_digits(n as nat),
    decreases n,
{
    if n < 10 {
        out.push(digit_char_of(n));
        proof {
            assert(out@ =~= old(out)@ + dec_digits(n as nat));
        }
    } else {
        push_dec(out, n / 10);
        out.push(digit_char_of(n % 10));
        proof {
            assert(out@ =~= old(out)@ + dec_digits(n as nat));
        }
    }
}

/// The decimal text of `n`.
pub fn u64_to_string(n: u64) -> (r: String)
    ensures
        r@ == dec_digits(n as nat),
{
    let mut out: Vec<char> = Vec::new();
    push_dec(&mut out, n);
    crate::text::string_from_chars(out.as_slice())
}

/// The decimal text of `n`, with a leading minus sign when negative.
pub fn i64_to_string(n: i64) -> (r: String)
    ensures
        r@ == spec_i64_digits(n as int),
{
    let mut out: Vec<char> = Vec::new();
    if n < 0 {
        out.push('-');
        let wide: i128 = n as i128;
        let mag: u64 = (-wide) as u64;
        push_dec(&mut out, mag);
    } else {
        push_dec(&mut out, n as u64);
    }
    crate::text::string_from_chars(out.as_slice())
}

/// Whether `c` is a decimal digit.
pub open spec fn is_digit(c: char) -> bool {
    '0' <= c && c <= '9'
}

/// The numeric value of digit `c`.
pub open spec fn digit_val(c: char) -> int {
    c as int - '0' as int
}

/// The value of the digit string `s` (most significant first).
pub open spec fn dec_val(s: Seq<char>) -> int
    decreases s.len(),
{
    if s.len() == 0 {
        0
    } else {
        dec_val(s.drop_last()) * 10 + digit_val(s.last())
    }
}

/// Whether every character of `s` is a decimal digit.
pub open spec fn all_digits(s: Seq<char>) -> bool {
    forall|i: int| 0 <= i < s.len() ==> is_digit(#[trigger] s[i])
}

/// What `str::parse::<u64>` accepts: an optional plus sign followed by at
/// least one digit, with a value that fits in a `u64`.
pub open spec fn spec_parse_u64(s: Seq<char>) -> Option<u64> {
    let body = if s.len() > 0 && s[0] == '+' {
        s.drop_first()
    } else {
        s
    };
    if body.len() > 0 && all_digits(body) && dec_val(body) <= u64::MAX {
        Some(dec_val(body) as u64)
    } else {
        None
    }
}

proof fn lemma_dec_val_nonneg(s: Seq<char>)
    requires
        all_digits(s),
    ensures
        dec_val(s) >= 0,
    decreases s.len(),
{
    if s.len() > 0 {
        assert(all_digits(s.drop_last()));
        lemma_dec_val_nonneg(s.drop_last());
    }
}

proof fn lemma_dec_val_take_step(s: Seq<char>, i: int)
    requires
        0 <= i < s.len(),
    ensures
        dec_val(s.take(i + 1)) == dec_val(s.take(i)) * 10 + digit_val(s[i]),
{
    assert(s.take(i + 1).drop_last() =~= s.take(i));
    assert(s.take(i + 1).last() == s[i]);
}

proof fn lemma_dec_val_grows(s: Seq<char>, i: int, j: int)
    requires
        all_digits(s),
        0 <= i <= j <= s.len(),
    ensures
        dec_val(s.take(i)) <= dec_val(s.take(j)),
    decreases j - i,
{
    if i < j {
        assert(all_digits(s.take(i)));
        lemma_dec_val_nonneg(s.take(i));
        lemma_dec_val_take_step(s, i);
        lemma_dec_val_grows(s, i + 1, j);
    }
}

fn digit_value_of(c: char) -> (r: Option<u64>)
    ensures
        match r {
            Some(d) => is_digit(c) && d == digit_val(c) && d < 10,
            None => !is_digit(c),
        },
{
    if '0' <= c && c <= '9' {
        Some((c as u32 as u64) - ('0' as u32 as u64))
    } else {
        None
    }
}

fn parse_digits(v: &Vec<char>, start: usize) -> (r: Option<u64>)
    requires
        start <= v@.len(),
    ensures
        ({
            let body = v@.skip(start as int);
            match r {
                Some(u) => body.len() > 0 && all_digits(body) && dec_val(body) <= u64::MAX && u
                    == dec_val(body),
                None => !(body.len() > 0 && all_digits(body) && dec_val(body) <= u64::MAX),
            }
        }),
{
    let ghost body = v@.skip(start as int);
    let n = v.len();
    if start >= n {
        return None;
    }
    let mut acc: u128 = 0;
    let mut i = start;
    while i < n
        invariant
            start <= i <= n == v@.len(),
            body == v@.skip(start as int),
            all_digits(body.take(i - start as int)),
            acc == dec_val(body.take(i - start as int)),
            acc <= u64::MAX,
        decreases n - i,
    {
        match digit_value_of(v[i]) {
            None => {
                proof {
                    assert(body[i - start as int] == v@[i as int]);
                }
                return None;
            },
            Some(d) => {
                proof {
                    lemma_dec_val_take_step(body, i - start as int);
                    assert(body.take(i - start as int + 1).drop_last() =~= body.take(
                        i - start as int,
                    ));
                }
                acc = acc * 10 + (d as u128);
                i = i + 1;
                proof {
                    assert(all_digits(body.take(i - start as int)));
                }
                if acc > u64::MAX as u128 {
                    proof {
                        if all_digits(body) {
                            lemma_dec_val_grows(body, i - start as int, body.len() as int);
                            assert(body.take(body.len() as int) =~= body);
                        }
                    }
                    return None;
                }
            },
        }
    }
    proof {
        assert(body.take(body.len() as int) =~= body);
    }
    Some(acc as u64)
}

/// Parses an unsigned decimal integer as `str::parse::<u64>` does
/// (see [`spec_parse_u64`]).
pub fn parse_u64_chars(v: &Vec<char>) -> (r: Option<u64>)
    ensures
        r == spec_parse_u64(v@),
{
    if v.len() > 0 && v[0] == '+' {
        parse_digits(v, 1)
    } else {
        let r = parse_digits(v, 0);
        proof {
            assert(v@.skip(0) =~= v@);
        }
        r
    }
}

/// What `str::parse::<i64>` accepts: an optional sign followed by at least
/// one digit, with a value that fits in an `i64`.
pub open spec fn spec_parse_i64(s: Seq<char>) -> Option<i64> {
    if s.len() > 0 && s[0] == '-' {
        let body = s.drop_first();
        if body.len() > 0 && all_digits(body) && -dec_val(body) >= i64::MIN {
            Some((-dec_val(body)) as i64)
        } else {
            None
        }
    } else {
        let body = if s.len() > 0 && s[0] == '+' {
            s.drop_first()
        } else {
            s
        };
        if body.len() > 0 && all_digits(body) && dec_val(body) <= i64::MAX {
            Some(dec_val(body) as i64)
        } else {
            None
        }
    }
}

/// Parses a signed decimal integer as `str::parse::<i64>` does
/// (see [`spec_parse_i64`]).
pub fn parse_i64_chars(v: &Vec<char>) -> (r: Option<i64>)
    ensures
        r == spec_parse_i64(v@),
{
    if v.len() > 0 && v[0] == '-' {
        match parse_digits(v, 1) {
            None => {
                proof {
                    if v@.drop_first().len() > 0 && all_digits(v@.drop_first()) {
                        lemma_dec_val_nonneg(v@.drop_first());
                        assert(v@.skip(1) =~= v@.drop_first());
                    }
                }
                None
            },
            Some(u) => {
                proof {
                    assert(v@.skip(1) =~= v@.drop_first());
                    lemma_dec_val_nonneg(v@.drop_first());
                }
                if u <= i64::MAX as u64 {
                    Some(-(u as i64))
                } else if u == (i64::MAX as u64) + 1 {
                    Some(i64::MIN)
                } else {
                    None
                }
            },
        }
    } else if v.len() > 0 && v[0] == '+' {
        match parse_digits(v, 1) {
            None => {
                proof {
                    assert(v@.skip(1) =~= v@.drop_first());
                }
                None
            },
            Some(u) => {
                proof {
                    assert(v@.skip(1) =~= v@.drop_first());
                }
                if u <= i64::MAX as u64 {
                    Some(u as i64)
                } else {
                    None
                }
            },
        }
    } else {
        match parse_digits(v, 0) {
            None => {
                proof {
                    assert(v@.skip(0) =~= v@);
                }
                None
            },
            Some(u) => {
                proof {
                    assert(v@.skip(0) =~= v@);
                }
                if u <= i64::MAX as u64 {
                    Some(u as i64)
                } else {
                    None
                }
            },
        }
    }
}

} // verus!
