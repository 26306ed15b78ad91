//! Calendar arithmetic: folding an RFC 3339 timestamp into epoch
//! milliseconds without a calendar library.

use vstd::prelude::*;
use vstd::arithmetic::div_mod::{lemma_fundamental_div_mod, lemma_fundamental_div_mod_converse};
use crate::text::{spec_trim, find_char_from, trim_chars, find_char_at, subrange_chars, chars_of};
use crate::num::{spec_parse_i64, parse_i64_chars};

verus! {

/// Days since 1970-01-01 of the civil date `y-m-d`, by the era/day-of-era
/// decomposition of the proleptic Gregorian calendar.
pub open spec fn spec_days_from_civil(y: int, m: int, d: int) -> int {
    let yy = if m <= 2 {
        y - 1
    } else {
        y
    };
    let era = yy / 400;
    let yoe = yy - era * 400;
    let mp = m + (if m > 2 {
        -3
    } else {
        9
    });
    let doy = (153 * mp + 2) / 5 + d - 1;
    let doe = yoe * 365 + yoe / 4 - yoe / 100 + doy;
    era * 146097 + doe - 719468
}

/// Computes [`spec_days_from_civil`]. The bounds keep every intermediate
/// value inside `i64`.
pub fn days_from_civil(y: i64, m: i64, d: i64) -> (r: i64)
    requires
        -1000000 <= y <= 1000000,
        1 <= m <= 12,
        -1000000000 <= d <= 1000000000,
    ensures
        r == spec_days_from_civil(y as int, m as int, d as int),
{
    let yy: i64 = if m <= 2 {
        y - 1
    } else {
        y
    };
    let era: i64 = if yy >= 0 {
        yy / 400
    } else {
        let pos: i64 = 399 - yy;
        let t: i64 = pos / 400;
        proof {
            lemma_fundamental_div_mod(pos as int, 400);
            lemma_fundamental_div_mod_converse(
                yy as int,
                400,
                -(t as int),
                399 - (pos as int % 400),
            );
        }
        -t
    };
    let yoe: i64 = yy - era * 400;
    proof {
        lemma_fundamental_div_mod(yy as int, 400);
    }
    let mp: i64 = m + (if m > 2 {
        -3i64
    } else {
        9i64
    });
    let doy: i64 = (153 * mp + 2) / 5 + d - 1;
    let doe: i64 = yoe * 365 + yoe / 4 - yoe / 100 + doy;
    era * 146097 + doe - 719468
}

/// Pads or cuts a fractional-seconds field to exactly three digits before
/// it is read as milliseconds.
pub open spec fn spec_pad3(f: Seq<char>) -> Seq<char> {
    if f.len() >= 3 {
        f.take(3)
    } else if f.len() == 2 {
        f.push('0')
    } else if f.len() == 1 {
        f.push('0').push('0')
    } else {
        f
    }
}

/// The seven numeric fields of `b`, the body of an RFC 3339 timestamp with
/// the trailing `Z` removed: year, month, day, hour, minute, second,
/// millisecond. Text after a third date dash or third time colon is
/// ignored, as reading only the first pieces of a `str::split` ignores it.
pub open spec fn spec_rfc3339_fields(b: Seq<char>) -> Option<(int, int, int, int, int, int, int)> {
    match find_char_from(b, 'T', 0) {
        Option::None => None,
        Option::Some(t) => {
            let date = b.take(t);
            let time = b.skip(t + 1);
            match find_char_from(date, '-', 0) {
                Option::None => None,
                Option::Some(i1) => match find_char_from(date, '-', i1 + 1) {
                    Option::None => None,
                    Option::Some(i2) => {
                        let dend = match find_char_from(date, '-', i2 + 1) {
                            Option::Some(i3) => i3,
                            Option::None => date.len() as int,
                        };
                        match find_char_from(time, ':', 0) {
                            Option::None => None,
                            Option::Some(j1) => match find_char_from(time, ':', j1 + 1) {
                                Option::None => None,
                                Option::Some(j2) => {
                                    let send = match find_char_from(time, ':', j2 + 1) {
                                        Option::Some(j3) => j3,
                                        Option::None => time.len() as int,
                                    };
                                    let secpart = time.subrange(j2 + 1, send);
                                    let dot = find_char_from(secpart, '.', 0);
                                    let ss_str = match dot {
                                        Option::Some(p) => secpart.take(p),
                                        Option::None => secpart,
                                    };
                                    let frac = match dot {
                                        Option::Some(p) => secpart.skip(p + 1),
                                        Option::None => Seq::empty(),
                                    };
                                    let ys = spec_parse_i64(date.take(i1));
                                    let ms_ = spec_parse_i64(date.subrange(i1 + 1, i2));
                                    let ds = spec_parse_i64(date.subrange(i2 + 1, dend));
                                    let hs = spec_parse_i64(time.take(j1));
                                    let mins = spec_parse_i64(time.subrange(j1 + 1, j2));
                                    let ss = spec_parse_i64(ss_str);
                                    let frs: Option<i64> = if frac.len() == 0 {
                                        Some(0i64)
                                    } else {
                                        spec_parse_i64(spec_pad3(frac))
                                    };
                                    if ys is Some && ms_ is Some && ds is Some && hs is Some
                                        && mins is Some && ss is Some && frs is Some {
                                        Some(
                                            (
                                                ys->0 as int,
                                                ms_->0 as int,
                                                ds->0 as int,
                                                hs->0 as int,
                                                mins->0 as int,
                                                ss->0 as int,
                                                frs->0 as int,
                                            ),
                                        )
                                    } else {
                                        None
                                    }
                                },
                            },
                        }
                    },
                },
            }
        },
    }
}

/// Whether the seven fields form a date and time of day this service
/// accepts: a calendar-plausible value whose epoch milliseconds fit the
/// arithmetic below.
pub open spec fn fields_in_range(f: (int, int, int, int, int, int, int)) -> bool {
    &&& -999999 <= f.0 <= 999999
    &&& 1 <= f.1 <= 12
    &&& 1 <= f.2 <= 31
    &&& 0 <= f.3 <= 23
    &&& 0 <= f.4 <= 59
    &&& 0 <= f.5 <= 60
    &&& 0 <= f.6 <= 999
}

/// Epoch milliseconds read from an RFC 3339 `Z`-suffixed timestamp, or
/// `None` when the text does not parse, the fields are not
/// calendar-plausible, or the result would be negative or exceed `i64`.
pub open spec fn spec_parse_rfc3339_ms(ts: Seq<char>) -> Option<u64> {
    let s = spec_trim(ts);
    if s.len() == 0 || s.last() != 'Z' {
        None
    } else {
        match spec_rfc3339_fields(s.drop_last()) {
            Option::None => None,
            Option::Some(f) => {
                if !fields_in_range(f) {
                    None
                } else {
                    let total = spec_days_from_civil(f.0, f.1, f.2) * 86400000 + f.3 * 3600000
                        + f.4 * 60000 + f.5 * 1000 + f.6;
                    if total < 0 || total > i64::MAX {
                        None
                    } else {
                        Some(total as u64)
                    }
                }
            },
        }
    }
}

fn parse_field(v: &Vec<char>, a: usize, b: usize) -> (r: Option<i64>)
    requires
        a <= b <= v@.len(),
    ensures
        r == spec_parse_i64(v@.subrange(a as int, b as int)),
{
    let part = subrange_chars(v, a, b);
    parse_i64_chars(&part)
}

/// Parses an RFC 3339 `Z`-suffixed timestamp into epoch milliseconds
/// (see [`spec_parse_rfc3339_ms`]).
#[verifier::rlimit(100)]
pub fn parse_rfc3339_ms(ts: &str) -> (r: Option<u64>)
    ensures
        r == spec_parse_rfc3339_ms(ts@),
{
    let raw = chars_of(ts);
    let s = trim_chars(&raw);
    let n = s.len();
    if n == 0 || s[n - 1] != 'Z' {
        return None;
    }
    let b = subrange_chars(&s, 0, n - 1);
    proof {
        assert(s@.subrange(0, n - 1 as int) =~= s@.drop_last());
    }
    let bn = b.len();
    let t = match find_char_at(&b, 'T', 0) {
        Some(t) => t,
        None => {
            return None;
        },
    };
    let date = subrange_chars(&b, 0, t);
    let time = subrange_chars(&b, t + 1, bn);
    proof {
        assert(b@.subrange(0, t as int) =~= b@.take(t as int));
        assert(b@.subrange(t + 1 as int, bn as int) =~= b@.skip(t + 1));
    }
    let dn = date.len();
    let tn = time.len();
    let i1 = match find_char_at(&date, '-', 0) {
        Some(k) => k,
        None => {
            return None;
        },
    };
    let i2 = match find_char_at(&date, '-', i1 + 1) {
        Some(k) => k,
        None => {
            return None;
        },
    };
    let dend = match find_char_at(&date, '-', i2 + 1) {
        Some(i3) => i3,
        None => dn,
    };
    let j1 = match find_char_at(&time, ':', 0) {
        Some(k) => k,
        None => {
            return None;
        },
    };
    let j2 = match find_char_at(&time, ':', j1 + 1) {
        Some(k) => k,
        None => {
            return None;
        },
    };
    let send = match find_char_at(&time, ':', j2 + 1) {
        Some(j3) => j3,
        None => tn,
    };
    let secpart = subrange_chars(&time, j2 + 1, send);
    proof {
        assert(time@.subrange(j2 + 1 as int, send as int) =~= time@.subrange(
            j2 + 1,
            send as int,
        ));
    }
    let spn = secpart.len();
    let dot = find_char_at(&secpart, '.', 0);
    let (ss_a, ss_b, frac): (usize, usize, Vec<char>) = match dot {
        Some(p) => {
            let f = subrange_chars(&secpart, p + 1, spn);
            proof {
                assert(secpart@.subrange(p + 1 as int, spn as int) =~= secpart@.skip(p + 1));
            }
            (0, p, f)
        },
        None => (0, spn, Vec::new()),
    };
    proof {
        if dot is Some {
            assert(secpart@.subrange(0, dot->0 as int) =~= secpart@.take(dot->0 as int));
        } else {
            assert(secpart@.subrange(0, spn as int) =~= secpart@);
        }
    }
    let ys = parse_field(&date, 0, i1);
    proof {
        assert(date@.subrange(0, i1 as int) =~= date@.take(i1 as int));
    }
    let ms_ = parse_field(&date, i1 + 1, i2);
    let ds = parse_field(&date, i2 + 1, dend);
    let hs = parse_field(&time, 0, j1);
    proof {
        assert(time@.subrange(0, j1 as int) =~= time@.take(j1 as int));
    }
    let mins = parse_field(&time, j1 + 1, j2);
    let ss = parse_field(&secpart, ss_a, ss_b);
    let frs: Option<i64> = if frac.len() == 0 {
        Some(0i64)
    } else {
        let mut padded = frac;
        if padded.len() > 3 {
            padded.truncate(3);
            proof {
                assert(spec_pad3(frac@) =~= padded@);
                assert(spec_pad3(padded@) =~= padded@);
            }
        }
        while padded.len() < 3
            invariant
                spec_pad3(frac@) == spec_pad3(padded@),
                1 <= padded@.len() <= 3,
            decreases 3 - padded@.len(),
        {
            padded.push('0');
            proof {
                if padded@.len() == 3 {
                    assert(spec_pad3(padded@) =~= padded@);
                }
            }
        }
        proof {
            assert(spec_pad3(padded@) =~= padded@);
        }
        parse_i64_chars(&padded)
    };
    let fields = match (ys, ms_, ds, hs, mins, ss, frs) {
        (Some(y), Some(m), Some(d), Some(hh), Some(mm), Some(sec), Some(msv)) => (
            y,
            m,
            d,
            hh,
            mm,
            sec,
            msv,
        ),
        _ => {
            return None;
        },
    };
    let (y, m, d, hh, mm, sec, msv) = fields;
    if !(-999999 <= y && y <= 999999 && 1 <= m && m <= 12 && 1 <= d && d <= 31 && 0 <= hh && hh
        <= 23 && 0 <= mm && mm <= 59 && 0 <= sec && sec <= 60 && 0 <= msv && msv <= 999) {
        return None;
    }
    let days = days_from_civil(y, m, d);
    let total: i128 = (days as i128) * 86400000 + (hh as i128) * 3600000 + (mm as i128) * 60000
        + (sec as i128) * 1000 + (msv as i128);
    if total < 0 || total > i64::MAX as i128 {
        return None;
    }
    Some(total as u64)
}

} // verus!
