//! Temperatures, sensor errors, and the parsers for the two sensor files.
//!
//! A temperature is carried as an integer count of hundredths of a degree
//! Fahrenheit, the resolution the rest of the controller needs: the sensors
//! report thousandths of a degree Celsius, and published readings are
//! rounded to two decimals anyway.
//!
//! The probe (one-wire) file is read as: take the second line, take what
//! follows the last `t=` on it, and parse that as a signed decimal count of
//! millidegrees Celsius. The board (thermal zone) file is the count alone,
//! surrounded by optional whitespace.

use vstd::prelude::*;

verus! {

/// A temperature, in hundredths of a degree Fahrenheit.
#[derive(Clone, Copy, Debug, PartialEq, Eq, Structural)]
pub struct Temperature {
    pub centi_f: i64,
}

/// Why a sensor read failed.
#[derive(Clone, Copy, Debug, PartialEq, Eq, Structural)]
pub enum SensorError {
    /// No sensor device was found to read from.
    NotFound,
    /// The sensor file's content was not in the expected format.
    MalformedData,
    /// The device could not be read.
    Io,
}

pub const NEWLINE: u8 = 10;

pub const CARRIAGE_RETURN: u8 = 13;

pub const LOWER_T: u8 = 116;

pub const EQUALS_SIGN: u8 = 61;

pub const MINUS_SIGN: u8 = 45;

pub const PLUS_SIGN: u8 = 43;

pub const DIGIT_ZERO: u8 = 48;

pub const DIGIT_NINE: u8 = 57;

/// Index of the first occurrence of `b` in `s` at or after `from`.
pub open spec fn find_byte(s: Seq<u8>, b: u8, from: int) -> Option<int>
    decreases s.len() - from when 0 <= from <= s.len()
{
    if from >= s.len() {
        None
    } else if s[from] == b {
        Some(from)
    } else {
        find_byte(s, b, from + 1)
    }
}

/// The second line of `s`, as a line iterator would hand it out: the bytes
/// between the first newline and the next one (or the end), with a carriage
/// return before that next newline stripped. `None` when nothing follows
/// the first newline.
pub open spec fn second_line(s: Seq<u8>) -> Option<Seq<u8>> {
    match find_byte(s, NEWLINE, 0) {
        None => None,
        Some(i) => if i + 1 < s.len() {
            match find_byte(s, NEWLINE, i + 1) {
                Some(j) => if j > i + 1 && s[j - 1] == CARRIAGE_RETURN {
                    Some(s.subrange(i + 1, j - 1))
                } else {
                    Some(s.subrange(i + 1, j))
                },
                None => Some(s.subrange(i + 1, s.len() as int)),
            }
        } else {
            None
        },
    }
}

/// Index of the last `t=` in `line` starting at or before position `i`.
pub open spec fn rfind_t_eq(line: Seq<u8>, i: int) -> Option<int>
    decreases i + 1 when i < line.len()
{
    if i < 0 {
        None
    } else if line[i] == LOWER_T && i + 1 < line.len() && line[i + 1] == EQUALS_SIGN {
        Some(i)
    } else {
        rfind_t_eq(line, i - 1)
    }
}

/// What follows the last `t=` on `line`, the probe's millidegree token.
pub open spec fn probe_millic_token(line: Seq<u8>) -> Option<Seq<u8>> {
    match rfind_t_eq(line, line.len() - 2) {
        None => None,
        Some(i) => Some(line.subrange(i + 2, line.len() as int)),
    }
}

pub open spec fn is_digit(b: u8) -> bool {
    DIGIT_ZERO <= b <= DIGIT_NINE
}

pub open spec fn all_digits(s: Seq<u8>) -> bool {
    forall|i: int| 0 <= i < s.len() ==> is_digit(#[trigger] s[i])
}

/// Value of a string of decimal digits, most significant first.
pub open spec fn digits_val(s: Seq<u8>) -> int
    decreases s.len(),
{
    if s.len() == 0 {
        0
    } else {
        digits_val(s.drop_last()) * 10 + (s.last() - DIGIT_ZERO)
    }
}

/// Split an optional leading sign off a decimal token: whether the value is
/// negated, and the digits that should follow.
pub open spec fn signed_digits(s: Seq<u8>) -> (bool, Seq<u8>) {
    if s.len() > 0 && s[0] == MINUS_SIGN {
        (true, s.subrange(1, s.len() as int))
    } else if s.len() > 0 && s[0] == PLUS_SIGN {
        (false, s.subrange(1, s.len() as int))
    } else {
        (false, s)
    }
}

/// Value of a signed decimal token: an optional sign, then one or more
/// digits and nothing else.
pub open spec fn int_token_val(s: Seq<u8>) -> Option<int> {
    let neg = signed_digits(s).0;
    let ds = signed_digits(s).1;
    if ds.len() > 0 && all_digits(ds) {
        Some(
            if neg {
                -digits_val(ds)
            } else {
                digits_val(ds)
            },
        )
    } else {
        None
    }
}

/// A signed decimal token's value, provided it fits a 32-bit signed
/// integer; what a string parse to that type accepts.
pub open spec fn parse_i32_spec(s: Seq<u8>) -> Option<int> {
    match int_token_val(s) {
        Some(v) => if i32::MIN <= v <= i32::MAX {
            Some(v)
        } else {
            None
        },
        None => None,
    }
}

/// Millidegrees Celsius to hundredths of a degree Fahrenheit: divide by
/// 1000, multiply by 9/5, add 32 — folded into integer arithmetic whose
/// division truncates toward zero.
pub open spec fn centi_f_of_milli_c(mc: int) -> int {
    if mc >= 0 {
        (mc * 9) / 50 + 3200
    } else {
        3200 - ((-mc) * 9) / 50
    }
}

/// What the probe sensor file's content denotes: a temperature read from
/// the millidegree token of the second line, or a malformed-data error.
pub open spec fn probe_reading(content: Seq<u8>) -> Result<Temperature, SensorError> {
    match second_line(content) {
        None => Err(SensorError::MalformedData),
        Some(line) => match probe_millic_token(line) {
            None => Err(SensorError::MalformedData),
            Some(token) => match parse_i32_spec(token) {
                None => Err(SensorError::MalformedData),
                Some(mc) => Ok(Temperature { centi_f: centi_f_of_milli_c(mc) as i64 }),
            },
        },
    }
}

pub open spec fn is_ascii_ws(b: u8) -> bool {
    b == 32 || (9 <= b <= 13)
}

pub open spec fn trim_start(s: Seq<u8>) -> Seq<u8>
    decreases s.len(),
{
    if s.len() > 0 && is_ascii_ws(s[0]) {
        trim_start(s.drop_first())
    } else {
        s
    }
}

pub open spec fn trim_end(s: Seq<u8>) -> Seq<u8>
    decreases s.len(),
{
    if s.len() > 0 && is_ascii_ws(s.last()) {
        trim_end(s.drop_last())
    } else {
        s
    }
}

/// `s` with leading and trailing ASCII whitespace removed.
pub open spec fn trimmed(s: Seq<u8>) -> Seq<u8> {
    trim_end(trim_start(s))
}

/// What the board sensor file's content denotes: a whitespace-trimmed
/// millidegree count, or a malformed-data error.
pub open spec fn board_reading(content: Seq<u8>) -> Result<Temperature, SensorError> {
    match parse_i32_spec(trimmed(content)) {
        None => Err(SensorError::MalformedData),
        Some(mc) => Ok(Temperature { centi_f: centi_f_of_milli_c(mc) as i64 }),
    }
}

fn find_byte_from(s: &[u8], b: u8, from: usize) -> (r: Option<usize>)
    requires
        from <= s@.len(),
    ensures
        match r {
            Some(i) => from <= i < s@.len() && find_byte(s@, b, from as int) == Some(i as int),
            None => find_byte(s@, b, from as int) is None,
        },
{
    let mut i: usize = from;
    while i < s.len()
        invariant
            from <= i <= s@.len(),
            find_byte(s@, b, from as int) == find_byte(s@, b, i as int),
        decreases s@.len() - i,
    {
        if s[i] == b {
            return Some(i);
        }
        i += 1;
    }
    None
}

/// Every digit appended on the right can only grow an unsigned decimal
/// value: the value of a prefix never exceeds the value of the whole.
proof fn lemma_digits_val_nonneg(s: Seq<u8>)
    requires
        all_digits(s),
    ensures
        digits_val(s) >= 0,
    decreases s.len(),
{
    if s.len() > 0 {
        assert(all_digits(s.drop_last()));
        lemma_digits_val_nonneg(s.drop_last());
    }
}

proof fn lemma_digits_val_prefix_le(s: Seq<u8>, n: int)
    requires
        all_digits(s),
        0 <= n <= s.len(),
    ensures
        digits_val(s.subrange(0, n)) <= digits_val(s),
    decreases s.len(),
{
    if n == s.len() {
        assert(s.subrange(0, n) =~= s);
    } else {
        let head = s.drop_last();
        assert(all_digits(head));
        assert(s.subrange(0, n) =~= head.subrange(0, n));
        lemma_digits_val_prefix_le(head, n);
        lemma_digits_val_nonneg(head);
    }
}

/// Parse a signed decimal token as a 32-bit signed integer; `None` exactly
/// when the token is not an optional sign followed by digits only, or its
/// value does not fit.
pub fn parse_i32_bytes(s: &[u8]) -> (r: Option<i32>)
    ensures
        match r {
            Some(v) => parse_i32_spec(s@) == Some(v as int),
            None => parse_i32_spec(s@) is None,
        },
{
    let (neg, start): (bool, usize) = if s.len() > 0 && s[0] == MINUS_SIGN {
        (true, 1)
    } else if s.len() > 0 && s[0] == PLUS_SIGN {
        (false, 1)
    } else {
        (false, 0)
    };
    let ghost ds = s@.subrange(start as int, s@.len() as int);
    proof {
        if start == 0 {
            assert(s@.subrange(0, s@.len() as int) =~= s@);
        }
        assert(signed_digits(s@).0 == neg);
        assert(signed_digits(s@).1 == ds);
    }
    if s.len() == start {
        return None;
    }
    let mut magnitude: u64 = 0;
    let mut i: usize = start;
    while i < s.len()
        invariant
            start <= i <= s@.len(),
            start < s@.len(),
            signed_digits(s@).0 == neg,
            signed_digits(s@).1 == ds,
            ds == s@.subrange(start as int, s@.len() as int),
            all_digits(s@.subrange(start as int, i as int)),
            magnitude == digits_val(s@.subrange(start as int, i as int)),
            magnitude <= 0x8000_0000,
        decreases s@.len() - i,
    {
        let b = s[i];
        if b < DIGIT_ZERO || b > DIGIT_NINE {
            proof {
                assert(ds[i - start] == b);
                assert(!all_digits(ds));
            }
            return None;
        }
        let d: u64 = (b - DIGIT_ZERO) as u64;
        let ghost seen = s@.subrange(start as int, i as int);
        let ghost seen_next = s@.subrange(start as int, i + 1 as int);
        proof {
            assert(seen_next.drop_last() =~= seen);
            assert(seen_next.last() == b);
        }
        if magnitude > 214748364 || (magnitude == 214748364 && d > 8) {
            proof {
                // The digits seen so far already exceed the 32-bit range,
                // and further digits cannot shrink the value.
                assert(all_digits(seen_next));
                if all_digits(ds) {
                    assert(ds.subrange(0, i + 1 - start) =~= seen_next);
                    lemma_digits_val_prefix_le(ds, i + 1 - start);
                    assert(digits_val(ds) > 0x8000_0000);
                }
            }
            return None;
        }
        magnitude = magnitude * 10 + d;
        i += 1;
    }
    proof {
        assert(s@.subrange(start as int, i as int) =~= ds);
    }
    if neg {
        Some((-(magnitude as i64)) as i32)
    } else {
        if magnitude > 2147483647 {
            return None;
        }
        Some(magnitude as i32)
    }
}

/// Millidegrees Celsius to hundredths of a degree Fahrenheit.
pub fn fahrenheit_centi_from_milli_c(mc: i32) -> (r: i64)
    ensures
        r == centi_f_of_milli_c(mc as int),
{
    if mc >= 0 {
        let m: u64 = mc as u64;
        ((m * 9 / 50) as i64) + 3200
    } else {
        let m: u64 = (-(mc as i64)) as u64;
        3200 - ((m * 9 / 50) as i64)
    }
}

/// Read the probe temperature out of the one-wire sensor file's content:
/// the value of the last `t=` token on the second line, converted to
/// hundredths of a degree Fahrenheit.
pub fn read_probe_temp(content: &[u8]) -> (r: Result<Temperature, SensorError>)
    ensures
        r == probe_reading(content@),
{
    let first_nl = match find_byte_from(content, NEWLINE, 0) {
        None => {
            return Err(SensorError::MalformedData);
        },
        Some(i) => i,
    };
    let n = content.len();
    if first_nl >= n - 1 {
        return Err(SensorError::MalformedData);
    }
    let line_start = first_nl + 1;
    let line_end = match find_byte_from(content, NEWLINE, line_start) {
        None => content.len(),
        Some(j) => if j > line_start && content[j - 1] == CARRIAGE_RETURN {
            j - 1
        } else {
            j
        },
    };
    let line: &[u8] = &content[line_start..line_end];
    proof {
        assert(second_line(content@) == Some(line@));
    }
    if line.len() < 2 {
        return Err(SensorError::MalformedData);
    }
    let mut i: usize = line.len() - 2;
    loop
        invariant
            line@.len() >= 2,
            i <= line@.len() - 2,
            second_line(content@) == Some(line@),
            rfind_t_eq(line@, line@.len() - 2) == rfind_t_eq(line@, i as int),
        decreases i + 1,
    {
        if line[i] == LOWER_T && line[i + 1] == EQUALS_SIGN {
            let token: &[u8] = &line[i + 2..line.len()];
            let mc = match parse_i32_bytes(token) {
                None => {
                    return Err(SensorError::MalformedData);
                },
                Some(v) => v,
            };
            return Ok(Temperature { centi_f: fahrenheit_centi_from_milli_c(mc) });
        }
        if i == 0 {
            proof {
                assert(rfind_t_eq(line@, -1) is None);
            }
            return Err(SensorError::MalformedData);
        }
        i -= 1;
    }
}

/// `s` with leading and trailing ASCII whitespace removed.
pub fn trim_ascii(s: &[u8]) -> (r: &[u8])
    ensures
        r@ == trimmed(s@),
{
    let mut lo: usize = 0;
    proof {
        assert(s@.skip(0) =~= s@);
    }
    while lo < s.len() && (s[lo] == 32 || (9 <= s[lo] && s[lo] <= 13))
        invariant
            lo <= s@.len(),
            trim_start(s@) == trim_start(s@.skip(lo as int)),
        decreases s@.len() - lo,
    {
        proof {
            assert(s@.skip(lo as int)[0] == s@[lo as int]);
            assert(s@.skip(lo as int).drop_first() =~= s@.skip(lo as int + 1));
        }
        lo += 1;
    }
    proof {
        if lo < s@.len() {
            assert(s@.skip(lo as int)[0] == s@[lo as int]);
        }
        assert(trim_start(s@) == s@.skip(lo as int));
        assert(s@.skip(lo as int) =~= s@.subrange(lo as int, s@.len() as int));
    }
    let mut hi: usize = s.len();
    while hi > lo && (s[hi - 1] == 32 || (9 <= s[hi - 1] && s[hi - 1] <= 13))
        invariant
            lo <= hi <= s@.len(),
            trim_start(s@) == s@.subrange(lo as int, s@.len() as int),
            trim_end(s@.subrange(lo as int, s@.len() as int)) == trim_end(
                s@.subrange(lo as int, hi as int),
            ),
        decreases hi,
    {
        proof {
            let cur = s@.subrange(lo as int, hi as int);
            assert(cur.last() == s@[hi - 1]);
            assert(cur.drop_last() =~= s@.subrange(lo as int, hi - 1));
        }
        hi -= 1;
    }
    proof {
        let cur = s@.subrange(lo as int, hi as int);
        if hi > lo {
            assert(cur.last() == s@[hi - 1]);
        }
        assert(trim_end(cur) == cur);
    }
    &s[lo..hi]
}

/// Read the board temperature out of the thermal-zone file's content: a
/// whitespace-trimmed millidegree count, converted to hundredths of a
/// degree Fahrenheit.
pub fn read_cpu_temp(content: &[u8]) -> (r: Result<Temperature, SensorError>)
    ensures
        r == board_reading(content@),
{
    let token = trim_ascii(content);
    match parse_i32_bytes(token) {
        None => Err(SensorError::MalformedData),
        Some(mc) => Ok(Temperature { centi_f: fahrenheit_centi_from_milli_c(mc) }),
    }
}

} // verus!
