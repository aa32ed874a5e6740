//! Calendar arithmetic and the byte-level date handling the period statistics
//! rely on: `str::get` on byte ranges and decimal integer parsing as `str::parse`
//! performs it.
use vstd::prelude::*;
use vstd::utf8::is_char_boundary;
use vstd::string::StringSliceAdditionalSpecFns;
use crate::text::{decimal, u64_zero_padded, zero_padded, append_chars};

verus! {

/// `str::get(a..b)` on a string's UTF-8 bytes: the bytes of the range when it
/// lies inside the string and both ends fall on character boundaries.
pub open spec fn str_get(bytes: Seq<u8>, a: int, b: int) -> Option<Seq<u8>> {
    if a <= b && b <= bytes.len() && is_char_boundary(bytes, a) && is_char_boundary(bytes, b) {
        Some(bytes.subrange(a, b))
    } else {
        None
    }
}

/// Executable `str_get`, returning the bytes of the slice.
pub fn str_get_bytes(s: &str, a: usize, b: usize) -> (r: Option<Vec<u8>>)
    ensures
        r matches Some(v) ==> str_get(s.spec_bytes(), a as int, b as int) == Some(v@),
        r is None ==> str_get(s.spec_bytes(), a as int, b as int) is None,
{
    let bytes = s.as_bytes();
    if a <= b && b <= bytes.len() && s.is_char_boundary(a) && s.is_char_boundary(b) {
        let mut v: Vec<u8> = Vec::new();
        let mut i: usize = a;
        while i < b
            invariant
                a <= i <= b <= bytes@.len(),
                v@ == bytes@.subrange(a as int, i as int),
            decreases b - i,
        {
            v.push(bytes[i]);
            i = i + 1;
            assert(v@ =~= bytes@.subrange(a as int, i as int));
        }
        Some(v)
    } else {
        None
    }
}

/// Lexicographic order on byte strings (how `&str` values compare).
pub open spec fn bytes_le(a: Seq<u8>, b: Seq<u8>) -> bool
    decreases a.len(),
{
    if a.len() == 0 {
        true
    } else if b.len() == 0 {
        false
    } else if a[0] != b[0] {
        a[0] < b[0]
    } else {
        bytes_le(a.drop_first(), b.drop_first())
    }
}

/// `Option<&str>` ordering: `None` before every `Some`, then by contents.
pub open spec fn opt_bytes_gt(a: Option<Seq<u8>>, b: Option<Seq<u8>>) -> bool {
    match (a, b) {
        (None, _) => false,
        (Some(_), None) => true,
        (Some(x), Some(y)) => !bytes_le(x, y),
    }
}

pub fn bytes_le_exec(a: &[u8], b: &[u8]) -> (r: bool)
    ensures
        r == bytes_le(a@, b@),
{
    let mut i: usize = 0;
    assert(a@.subrange(0, a@.len() as int) =~= a@);
    assert(b@.subrange(0, b@.len() as int) =~= b@);
    while i < a.len() && i < b.len() && a[i] == b[i]
        invariant
            i <= a@.len(),
            i <= b@.len(),
            bytes_le(a@, b@) == bytes_le(a@.subrange(i as int, a@.len() as int), b@.subrange(
                i as int,
                b@.len() as int,
            )),
        decreases a.len() - i,
    {
        proof {
            let sa = a@.subrange(i as int, a@.len() as int);
            let sb = b@.subrange(i as int, b@.len() as int);
            assert(sa.drop_first() =~= a@.subrange(i + 1, a@.len() as int));
            assert(sb.drop_first() =~= b@.subrange(i + 1, b@.len() as int));
        }
        i = i + 1;
    }
    let ghost sa = a@.subrange(i as int, a@.len() as int);
    let ghost sb = b@.subrange(i as int, b@.len() as int);
    if i == a.len() {
        true
    } else if i == b.len() {
        false
    } else {
        assert(sa[0] == a@[i as int] && sb[0] == b@[i as int]);
        a[i] < b[i]
    }
}

pub fn opt_bytes_gt_exec(a: &Option<Vec<u8>>, b: &Option<Vec<u8>>) -> (r: bool)
    ensures
        r == opt_bytes_gt(
            match a {
                Some(x) => Some(x@),
                None => None,
            },
            match b {
                Some(x) => Some(x@),
                None => None,
            },
        ),
{
    match (a, b) {
        (None, _) => false,
        (Some(_), None) => true,
        (Some(x), Some(y)) => !bytes_le_exec(x.as_slice(), y.as_slice()),
    }
}

pub open spec fn is_digit_byte(b: u8) -> bool {
    48 <= b <= 57
}

pub open spec fn all_digits(d: Seq<u8>) -> bool {
    forall|i: int| 0 <= i < d.len() ==> is_digit_byte(#[trigger] d[i])
}

/// Value of a run of decimal digits.
pub open spec fn digits_value(d: Seq<u8>) -> int
    decreases d.len(),
{
    if d.len() == 0 {
        0
    } else {
        digits_value(d.drop_last()) * 10 + (d.last() - 48)
    }
}

/// `str::parse` for a decimal integer type with bounds `lo..=hi`: an optional
/// '+' (or '-' when `signed`), then at least one digit, and nothing else.
pub open spec fn parse_int(s: Seq<u8>, signed: bool, lo: int, hi: int) -> Option<int> {
    let v = if s.len() == 0 || (s.len() == 1 && (s[0] == 43u8 || s[0] == 45u8)) {
        None
    } else if s[0] == 43u8 {
        if all_digits(s.drop_first()) { Some(digits_value(s.drop_first())) } else { None }
    } else if s[0] == 45u8 && signed {
        if all_digits(s.drop_first()) { Some(-digits_value(s.drop_first())) } else { None }
    } else if all_digits(s) {
        Some(digits_value(s))
    } else {
        None
    };
    match v {
        Some(x) => if lo <= x <= hi { Some(x) } else { None },
        None => None,
    }
}

proof fn lemma_digits_value_bound(d: Seq<u8>)
    requires
        all_digits(d),
    ensures
        0 <= digits_value(d) < pow10(d.len()),
    decreases d.len(),
{
    if d.len() > 0 {
        assert(all_digits(d.drop_last())) by {
            assert forall|i: int| 0 <= i < d.len() - 1 implies is_digit_byte(#[trigger] d.drop_last()[i]) by {
                assert(d.drop_last()[i] == d[i]);
            }
        }
        assert(is_digit_byte(d[d.len() - 1]));
        lemma_digits_value_bound(d.drop_last());
    }
}

pub open spec fn pow10(n: nat) -> int
    decreases n,
{
    if n == 0 { 1 } else { 10 * pow10((n - 1) as nat) }
}

/// Value of a short run of digits, computed left to right.
fn digits_value_exec(d: &[u8], from: usize) -> (r: Option<i64>)
    requires
        from <= d@.len(),
        d@.len() - from <= 9,
    ensures
        r matches Some(x) ==> all_digits(d@.subrange(from as int, d@.len() as int)) && x == digits_value(
            d@.subrange(from as int, d@.len() as int),
        ) && 0 <= x,
        r is None ==> !all_digits(d@.subrange(from as int, d@.len() as int)),
{
    let mut acc: i64 = 0;
    let mut i: usize = from;
    assert(d@.subrange(from as int, from as int) =~= seq![]);
    while i < d.len()
        invariant
            from <= i <= d@.len(),
            d@.len() - from <= 9,
            all_digits(d@.subrange(from as int, i as int)),
            acc == digits_value(d@.subrange(from as int, i as int)),
            0 <= acc < pow10((i - from) as nat),
        decreases d.len() - i,
    {
        let b = d[i];
        let ghost sub = d@.subrange(from as int, i + 1);
        assert(sub.drop_last() =~= d@.subrange(from as int, i as int));
        assert(sub.last() == b);
        if b < 48 || b > 57 {
            assert(!is_digit_byte(d@.subrange(from as int, d@.len() as int)[i - from]));
            return None;
        }
        proof {
            lemma_pow10_small((i - from) as nat);
        }
        acc = acc * 10 + ((b - 48) as i64);
        i = i + 1;
        assert(all_digits(d@.subrange(from as int, i as int))) by {
            assert forall|k: int| 0 <= k < i - from implies is_digit_byte(
                #[trigger] d@.subrange(from as int, i as int)[k],
            ) by {
                if k < i - 1 - from {
                    assert(d@.subrange(from as int, i as int)[k] == d@.subrange(from as int, i - 1)[k]);
                }
            }
        }
    }
    Some(acc)
}

proof fn lemma_pow10_mono(n: nat, m: nat)
    requires
        n <= m,
    ensures
        1 <= pow10(n) <= pow10(m),
    decreases m,
{
    if n < m {
        lemma_pow10_mono(n, (m - 1) as nat);
    } else if n > 0 {
        lemma_pow10_mono((n - 1) as nat, (n - 1) as nat);
    }
}

proof fn lemma_pow10_small(n: nat)
    requires
        n <= 9,
    ensures
        pow10(n) <= 1_000_000_000,
        pow10(n + 1) == 10 * pow10(n),
{
    assert(pow10(0) == 1);
    assert(pow10(1) == 10);
    assert(pow10(2) == 100);
    assert(pow10(3) == 1000);
    assert(pow10(4) == 10000);
    assert(pow10(5) == 100000);
    assert(pow10(6) == 1000000);
    assert(pow10(7) == 10000000);
    assert(pow10(8) == 100000000);
    assert(pow10(9) == 1000000000);
    lemma_pow10_mono(n, 9);
}

/// `str::parse::<i64-range>` over at most nine bytes with the given bounds.
pub fn parse_int_exec(s: &[u8], signed: bool, lo: i64, hi: i64) -> (r: Option<i64>)
    requires
        s@.len() <= 9,
    ensures
        r matches Some(x) ==> parse_int(s@, signed, lo as int, hi as int) == Some(x as int),
        r is None ==> parse_int(s@, signed, lo as int, hi as int) is None,
{
    if s.len() == 0 || (s.len() == 1 && (s[0] == 43u8 || s[0] == 45u8)) {
        return None;
    }
    assert(s@.drop_first() =~= s@.subrange(1, s@.len() as int));
    assert(s@ =~= s@.subrange(0, s@.len() as int));
    let v: Option<i64> = if s[0] == 43u8 {
        digits_value_exec(s, 1)
    } else if s[0] == 45u8 && signed {
        match digits_value_exec(s, 1) {
            Some(x) => Some(-x),
            None => None,
        }
    } else {
        digits_value_exec(s, 0)
    };
    match v {
        Some(x) => if lo <= x && x <= hi {
            Some(x)
        } else {
            None
        },
        None => None,
    }
}

pub open spec fn is_leap(year: int) -> bool {
    (year % 4 == 0 && year % 100 != 0) || year % 400 == 0
}

/// Days in a calendar month (anything outside 1..=12 other than the 31- and
/// 30-day months is treated as February).
pub open spec fn spec_days_in_month(year: int, month: int) -> int {
    if month == 1 || month == 3 || month == 5 || month == 7 || month == 8 || month == 10 || month == 12 {
        31
    } else if month == 4 || month == 6 || month == 9 || month == 11 {
        30
    } else if is_leap(year) {
        29
    } else {
        28
    }
}

#[verifier::spinoff_prover]
pub fn days_in_month(year: i32, month: u32) -> (d: u32)
    ensures
        d == spec_days_in_month(year as int, month as int),
{
    match month {
        1 | 3 | 5 | 7 | 8 | 10 | 12 => 31,
        4 | 6 | 9 | 11 => 30,
        _ => {
            if (year % 4 == 0 && year % 100 != 0) || year % 400 == 0 {
                29
            } else {
                28
            }
        },
    }
}

/// Days at the end of a month treated as "month-end" for paycheck attribution.
pub const MONTH_END_WINDOW_DAYS: u32 = 4;

/// Signed decimal zero-padded to `width` with the sign counted in the width,
/// as `{:0w}` formats an integer.
pub open spec fn signed_zero_padded(n: int, width: nat) -> Seq<char> {
    if n < 0 {
        seq!['-'] + zero_padded((-n) as nat, if width >= 1 { (width - 1) as nat } else { 0 })
    } else {
        zero_padded(n as nat, width)
    }
}

pub fn i64_signed_zero_padded(n: i64, width: usize) -> (r: Vec<char>)
    requires
        n > i64::MIN,
    ensures
        r@ == signed_zero_padded(n as int, width as nat),
{
    if n < 0 {
        let mut r: Vec<char> = Vec::new();
        r.push('-');
        let w = if width >= 1 { width - 1 } else { 0 };
        let d = u64_zero_padded((-n) as u64, w);
        append_chars(&mut r, d.as_slice());
        assert(r@ =~= seq!['-'] + d@);
        r
    } else {
        u64_zero_padded(n as u64, width)
    }
}

/// The period key ("YYYY-MM", or "YYYY" when grouping by year) of the month
/// after `date`, when `date` falls in the last `MONTH_END_WINDOW_DAYS` days of
/// its month; `None` otherwise or when the date does not parse. Year, month and
/// day are read from bytes 0..4, 5..7 and 8..10.
pub open spec fn spec_funded_period(date: Seq<u8>, group_by: Seq<char>) -> Option<Seq<char>> {
    match (str_get(date, 0, 4), str_get(date, 5, 7), str_get(date, 8, 10)) {
        (Some(ys), Some(ms), Some(ds)) => match (
            parse_int(ys, true, i32::MIN as int, i32::MAX as int),
            parse_int(ms, false, 0, u32::MAX as int),
            parse_int(ds, false, 0, u32::MAX as int),
        ) {
            (Some(year), Some(month), Some(day)) => {
                if !(1 <= month <= 12) || day <= spec_days_in_month(year, month) - MONTH_END_WINDOW_DAYS {
                    None
                } else {
                    let ny = if month == 12 { year + 1 } else { year };
                    let nm = if month == 12 { 1 } else { month + 1 };
                    if group_by == "year"@ {
                        Some(signed_zero_padded(ny, 4))
                    } else {
                        Some(signed_zero_padded(ny, 4) + seq!['-'] + zero_padded(nm as nat, 2))
                    }
                }
            },
            _ => None,
        },
        _ => None,
    }
}

/// Period key of the month a month-end date funds (see `spec_funded_period`).
pub fn funded_period(date: &str, group_by: &str) -> (r: Option<String>)
    ensures
        r matches Some(s) ==> spec_funded_period(date.spec_bytes(), group_by@) == Some(s@),
        r is None ==> spec_funded_period(date.spec_bytes(), group_by@) is None,
{
    let ys = match str_get_bytes(date, 0, 4) {
        Some(v) => v,
        None => return None,
    };
    let ms = match str_get_bytes(date, 5, 7) {
        Some(v) => v,
        None => return None,
    };
    let ds = match str_get_bytes(date, 8, 10) {
        Some(v) => v,
        None => return None,
    };
    let year = match parse_int_exec(ys.as_slice(), true, i32::MIN as i64, i32::MAX as i64) {
        Some(v) => v,
        None => return None,
    };
    let month = match parse_int_exec(ms.as_slice(), false, 0, u32::MAX as i64) {
        Some(v) => v,
        None => return None,
    };
    let day = match parse_int_exec(ds.as_slice(), false, 0, u32::MAX as i64) {
        Some(v) => v,
        None => return None,
    };
    if month < 1 || month > 12 {
        return None;
    }
    let dim = days_in_month(year as i32, month as u32);
    if day <= (dim - MONTH_END_WINDOW_DAYS) as i64 {
        return None;
    }
    let (ny, nm) = if month == 12 { (year + 1, 1i64) } else { (year, month + 1) };
    let mut out = i64_signed_zero_padded(ny, 4);
    if !crate::text::str_eq(group_by, "year") {
        out.push('-');
        let m = u64_zero_padded(nm as u64, 2);
        append_chars(&mut out, m.as_slice());
    }
    Some(crate::text::from_chars(out.as_slice()))
}

} // verus!
