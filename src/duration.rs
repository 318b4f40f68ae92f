//! Reading duration tokens: a decimal number followed by an optional unit.
use vstd::prelude::*;

verus! {

/// A character that belongs to the numeric part of a token.
pub open spec fn is_digit(c: char) -> bool {
    '0' <= c && c <= '9'
}

/// A digit or a decimal point.
pub open spec fn is_numeric(c: char) -> bool {
    is_digit(c) || c == '.'
}

/// How many characters of `s`, from index `i` on, are digits in a row.
pub open spec fn digit_run(s: Seq<char>, i: int) -> nat
    decreases s.len() - i,
{
    if 0 <= i < s.len() && is_digit(s[i]) {
        1 + digit_run(s, i + 1)
    } else {
        0
    }
}

/// How many characters of `s`, from index `i` on, are digits or points in a row.
pub open spec fn numeric_run(s: Seq<char>, i: int) -> nat
    decreases s.len() - i,
{
    if 0 <= i < s.len() && is_numeric(s[i]) {
        1 + numeric_run(s, i + 1)
    } else {
        0
    }
}

/// Seconds in one unit: `s`, `m`, `h` and `d` are known.
pub open spec fn unit_seconds(c: char) -> Option<nat> {
    if c == 's' {
        Some(1)
    } else if c == 'm' {
        Some(60)
    } else if c == 'h' {
        Some(3600)
    } else if c == 'd' {
        Some(86400)
    } else {
        None
    }
}

/// The unit of a token: the first character that is neither a digit nor a
/// point, which must be a known unit and the last character; seconds when
/// there is no such character.
pub open spec fn suffix_of(s: Seq<char>) -> Option<char> {
    let k = numeric_run(s, 0);
    if k == s.len() {
        Some('s')
    } else if k + 1 == s.len() && unit_seconds(s[k as int]) is Some {
        Some(s[k as int])
    } else {
        None
    }
}

fn is_numeric_char(c: char) -> (r: bool)
    ensures
        r == is_numeric(c),
{
    ('0' <= c && c <= '9') || c == '.'
}

/// The unit of `input`, as [`suffix_of`] describes it.
pub fn get_suffix(input: &str) -> (r: Option<char>)
    ensures
        r == suffix_of(input@),
{
    let len = input.unicode_len();
    let mut i: usize = 0;
    while i < len && is_numeric_char(input.get_char(i))
        invariant
            i <= len,
            len == input@.len(),
            numeric_run(input@, 0) == i + numeric_run(input@, i as int),
        decreases len - i,
    {
        i += 1;
    }
    if i == len {
        return Some('s');
    }
    let c = input.get_char(i);
    if i + 1 == len && (c == 's' || c == 'm' || c == 'h' || c == 'd') {
        Some(c)
    } else {
        None
    }
}


/// Nanoseconds in one second.
pub const NANOS_PER_SEC: u64 = 1_000_000_000;

/// The value of an ASCII digit.
pub open spec fn digit_value(c: char) -> nat {
    (c as int - '0' as int) as nat
}

/// The integer that a string of digits writes in base ten.
pub open spec fn digits_value(ds: Seq<char>) -> nat
    decreases ds.len(),
{
    if ds.len() == 0 {
        0
    } else {
        digits_value(ds.drop_last()) * 10 + digit_value(ds.last())
    }
}

/// The first `n` digits of `ds` after a decimal point, padded with zeros: the
/// fraction in units of ten to the minus `n`, rounded down.
pub open spec fn fraction_value(ds: Seq<char>, n: nat) -> nat
    decreases n,
{
    if n == 0 {
        0
    } else {
        fraction_value(ds, (n - 1) as nat) * 10 + if n - 1 < ds.len() {
            digit_value(ds[n - 1])
        } else {
            0
        }
    }
}

/// The digits before the point.
pub open spec fn int_digits(s: Seq<char>) -> Seq<char> {
    s.take(digit_run(s, 0) as int)
}

/// Whether the leading digits are followed by a decimal point.
pub open spec fn has_point(s: Seq<char>) -> bool {
    digit_run(s, 0) < s.len() && s[digit_run(s, 0) as int] == '.'
}

/// The digits that follow the first point, up to the next character that is
/// not a digit (a second point ends the number).
pub open spec fn frac_digits(s: Seq<char>) -> Seq<char> {
    if has_point(s) {
        let k = digit_run(s, 0) + 1int;
        s.subrange(k, k + digit_run(s, k))
    } else {
        Seq::empty()
    }
}

/// The leading number of a token in nanoseconds (digits past the ninth
/// decimal place are dropped); `None` when it holds no digit at all.
pub open spec fn number_nanos(s: Seq<char>) -> Option<nat> {
    if int_digits(s).len() + frac_digits(s).len() == 0 {
        None
    } else {
        Some(
            (digits_value(int_digits(s)) * NANOS_PER_SEC + fraction_value(frac_digits(s), 9)) as nat,
        )
    }
}

/// `n`, or the largest `u64` where `n` does not fit.
pub open spec fn saturate(n: int) -> u64 {
    if n > u64::MAX {
        u64::MAX
    } else {
        n as u64
    }
}

proof fn lemma_saturate_scale(v: int, k: int, d: int)
    requires
        v >= 0,
        k >= 1,
        d >= 0,
    ensures
        saturate(saturate(v) * k + d) == saturate(v * k + d),
{
    if v > u64::MAX {
        assert(v * k >= v) by (nonlinear_arith)
            requires
                v >= 0,
                k >= 1,
        ;
        assert(u64::MAX * k >= u64::MAX) by (nonlinear_arith)
            requires
                k >= 1,
        ;
    }
}

/// `a * b`, or the largest `u64` where it does not fit.
fn saturating_product(a: u64, b: u64) -> (r: u64)
    ensures
        r == saturate(a * b),
{
    match a.checked_mul(b) {
        Some(p) => p,
        None => u64::MAX,
    }
}

fn is_digit_char(c: char) -> (r: bool)
    ensures
        r == is_digit(c),
{
    '0' <= c && c <= '9'
}

fn digit_of(c: char) -> (r: u64)
    requires
        is_digit(c),
    ensures
        r == digit_value(c),
        r < 10,
{
    (c as u32 - '0' as u32) as u64
}

/// How many digits `input` holds in a row from `start` on.
fn count_digits(input: &str, len: usize, start: usize) -> (r: usize)
    requires
        len == input@.len(),
        start <= len,
    ensures
        start + r <= len,
        r == digit_run(input@, start as int),
{
    let mut i: usize = start;
    while i < len && is_digit_char(input.get_char(i))
        invariant
            start <= i <= len,
            len == input@.len(),
            digit_run(input@, start as int) == (i - start) + digit_run(input@, i as int),
        decreases len - i,
    {
        i += 1;
    }
    i - start
}


proof fn lemma_saturate_sum(a: int, b: int)
    requires
        a >= 0,
        b >= 0,
    ensures
        saturate(saturate(a) + saturate(b)) == saturate(a + b),
{
}

/// Every character within the digit run that starts at `i` is a digit.
proof fn lemma_digit_run_digits(s: Seq<char>, i: int, j: int)
    requires
        0 <= i <= j < i + digit_run(s, i),
    ensures
        0 <= j < s.len(),
        is_digit(s[j]),
    decreases j - i,
{
    if i < j {
        lemma_digit_run_digits(s, i + 1, j);
    }
}

/// `acc * k + d`, or the largest `u64` where it does not fit.
fn shift_in(acc: u64, k: u64, d: u64) -> (r: u64)
    ensures
        r == saturate(acc * k + d),
{
    let p = saturating_product(acc, k);
    proof {
        lemma_saturate_sum(acc * k, d as int);
    }
    p.saturating_add(d)
}

/// The leading number of `input` in nanoseconds, as [`number_nanos`] reads
/// it, saturated at the largest `u64`; `None` when it holds no digit.
pub fn parse_number(input: &str) -> (r: Option<u64>)
    ensures
        r == match number_nanos(input@) {
            Some(v) => Some(saturate(v as int)),
            None => None::<u64>,
        },
{
    let ghost s = input@;
    let len = input.unicode_len();
    let n_int = count_digits(input, len, 0);
    let point = n_int < len && input.get_char(n_int) == '.';
    let frac_start: usize = if point {
        n_int + 1
    } else {
        len
    };
    let n_frac = count_digits(input, len, frac_start);
    let n_frac = if point {
        n_frac
    } else {
        0
    };
    let ghost ints = int_digits(s);
    let ghost fracs = frac_digits(s);
    if n_int == 0 && n_frac == 0 {
        return None;
    }
    let mut whole: u64 = 0;
    let mut i: usize = 0;
    while i < n_int
        invariant
            i <= n_int,
            n_int == digit_run(s, 0),
            s == input@,
            whole == saturate(digits_value(s.take(i as int)) as int),
        decreases n_int - i,
    {
        proof {
            lemma_digit_run_digits(s, 0, i as int);
            assert(s.take(i + 1).drop_last() =~= s.take(i as int));
            lemma_saturate_scale(digits_value(s.take(i as int)) as int, 10, digit_value(s[i as int]) as int);
        }
        let d = digit_of(input.get_char(i));
        whole = shift_in(whole, 10, d);
        i += 1;
    }
    let mut frac: u64 = 0;
    let mut j: usize = 0;
    while j < 9
        invariant
            j <= 9,
            len == s.len(),
            n_frac == fracs.len(),
            n_frac > 0 ==> frac_start + n_frac <= s.len() && fracs == s.subrange(
                frac_start as int,
                frac_start + n_frac,
            ) && digit_run(s, frac_start as int) == n_frac,
            s == input@,
            frac == saturate(fraction_value(fracs, j as nat) as int),
        decreases 9 - j,
    {
        let d: u64 = if j < n_frac {
            proof {
                lemma_digit_run_digits(s, frac_start as int, frac_start + j);
            }
            digit_of(input.get_char(frac_start + j))
        } else {
            0
        };
        proof {
            lemma_saturate_scale(fraction_value(fracs, j as nat) as int, 10, d as int);
        }
        frac = shift_in(frac, 10, d);
        j += 1;
    }
    let whole_nanos = saturating_product(whole, NANOS_PER_SEC);
    proof {
        lemma_saturate_scale(digits_value(ints) as int, NANOS_PER_SEC as int, 0);
        lemma_saturate_sum(
            digits_value(ints) * NANOS_PER_SEC,
            fraction_value(fracs, 9) as int,
        );
    }
    Some(whole_nanos.saturating_add(frac))
}


/// Why a token adds nothing to the wait.
#[derive(Clone, Copy, Debug, PartialEq, Eq)]
pub enum ParseError {
    /// The token does not start with a number.
    NotANumber,
    /// The number is followed by something other than one known unit.
    UnknownSuffix,
}

/// What a token stands for, in nanoseconds, or why it stands for nothing.
pub open spec fn token_nanos(s: Seq<char>) -> Result<nat, ParseError> {
    match number_nanos(s) {
        None => Err(ParseError::NotANumber),
        Some(v) => match suffix_of(s) {
            None => Err(ParseError::UnknownSuffix),
            Some(c) => Ok(v * unit_seconds(c)->Some_0),
        },
    }
}

/// What a token adds to the wait: a token that cannot be read adds nothing.
pub open spec fn contribution(s: Seq<char>) -> nat {
    match token_nanos(s) {
        Ok(v) => v,
        Err(_) => 0,
    }
}

/// The whole wait that a list of tokens asks for, in nanoseconds.
pub open spec fn total_nanos(ts: Seq<Seq<char>>) -> nat
    decreases ts.len(),
{
    if ts.len() == 0 {
        0
    } else {
        total_nanos(ts.drop_last()) + contribution(ts.last())
    }
}

/// The text of each token.
pub open spec fn token_views(tokens: Seq<String>) -> Seq<Seq<char>> {
    tokens.map_values(|t: String| t@)
}

fn unit_factor(c: char) -> (r: u64)
    requires
        unit_seconds(c) is Some,
    ensures
        r == unit_seconds(c)->Some_0,
{
    if c == 's' {
        1
    } else if c == 'm' {
        60
    } else if c == 'h' {
        3600
    } else {
        86400
    }
}

/// What `input` stands for in nanoseconds, saturated at the largest `u64`,
/// or why it cannot be read; a bad number is reported before a bad unit.
pub fn parse_token(input: &str) -> (r: Result<u64, ParseError>)
    ensures
        r == match token_nanos(input@) {
            Ok(v) => Ok::<u64, ParseError>(saturate(v as int)),
            Err(e) => Err::<u64, ParseError>(e),
        },
{
    let number = match parse_number(input) {
        Some(n) => n,
        None => return Err(ParseError::NotANumber),
    };
    let unit = match get_suffix(input) {
        Some(c) => c,
        None => return Err(ParseError::UnknownSuffix),
    };
    proof {
        let v = number_nanos(input@)->Some_0;
        lemma_saturate_scale(v as int, unit_seconds(unit)->Some_0 as int, 0);
    }
    Ok(saturating_product(number, unit_factor(unit)))
}

/// The sum of what each token stands for, in nanoseconds, saturated at the
/// largest `u64`. A token that cannot be read adds nothing.
pub fn resolve(tokens: &Vec<String>) -> (r: u64)
    ensures
        r == saturate(total_nanos(token_views(tokens@)) as int),
{
    let ghost views = token_views(tokens@);
    let mut total: u64 = 0;
    let mut i: usize = 0;
    while i < tokens.len()
        invariant
            i <= tokens@.len(),
            views == token_views(tokens@),
            total == saturate(total_nanos(views.take(i as int)) as int),
        decreases tokens@.len() - i,
    {
        let part: u64 = match parse_token(tokens[i].as_str()) {
            Ok(n) => n,
            Err(_) => 0,
        };
        proof {
            assert(views.take(i + 1).drop_last() =~= views.take(i as int));
            lemma_saturate_sum(
                total_nanos(views.take(i as int)) as int,
                contribution(views[i as int]) as int,
            );
        }
        total = total.saturating_add(part);
        i += 1;
    }
    assert(views.take(tokens@.len() as int) =~= views);
    total
}

} // verus!
