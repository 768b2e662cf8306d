//! Reading and writing numbers.
use vstd::prelude::*;

verus! {

/// Why a text is not a number of the wanted type.
#[derive(Clone, Copy, Debug, PartialEq, Eq, Structural)]
pub enum IntError {
    /// There is nothing to read.
    Empty,
    /// A character is not a digit.
    InvalidDigit,
    /// The number is larger than the type holds.
    Overflow,
}

impl IntError {
    pub open spec fn spec_text(self) -> Seq<char> {
        match self {
            IntError::Empty => "cannot parse integer from empty string"@,
            IntError::InvalidDigit => "invalid digit found in string"@,
            IntError::Overflow => "number too large to fit in target type"@,
        }
    }

    pub fn message(&self) -> (r: &'static str)
        ensures
            r@ == self.spec_text(),
    {
        match self {
            IntError::Empty => "cannot parse integer from empty string",
            IntError::InvalidDigit => "invalid digit found in string",
            IntError::Overflow => "number too large to fit in target type",
        }
    }
}

/// The value of `c` as a digit in base `radix`.
pub open spec fn digit_value(c: char, radix: int) -> Option<int> {
    let v = if '0' <= c && c <= '9' {
        c as int - '0' as int
    } else if 'a' <= c && c <= 'z' {
        c as int - 'a' as int + 10
    } else if 'A' <= c && c <= 'Z' {
        c as int - 'A' as int + 10
    } else {
        radix
    };
    if v < radix {
        Some(v)
    } else {
        None
    }
}

/// The number that these digits write in base `radix`. The first position at
/// which it goes wrong decides the error.
pub open spec fn digits_value(s: Seq<char>, radix: int, max: int) -> Result<int, IntError>
    decreases s.len(),
{
    if s.len() == 0 {
        Ok(0)
    } else {
        match digits_value(s.drop_last(), radix, max) {
            Err(e) => Err(e),
            Ok(high) => match digit_value(s.last(), radix) {
                None => Err(IntError::InvalidDigit),
                Some(d) => if high * radix + d <= max {
                    Ok(high * radix + d)
                } else {
                    Err(IntError::Overflow)
                },
            },
        }
    }
}

/// Reading an unsigned number that may have a plus sign in front.
pub open spec fn parsed(s: Seq<char>, radix: int, max: int) -> Result<int, IntError> {
    if s.len() == 0 {
        Err(IntError::Empty)
    } else if s[0] == '+' && s.len() > 1 {
        digits_value(s.drop_first(), radix, max)
    } else {
        digits_value(s, radix, max)
    }
}

pub fn digit(c: char, radix: u32) -> (r: Option<u32>)
    requires
        radix <= 36,
    ensures
        match r {
            Some(v) => v < radix && digit_value(c, radix as int) == Some(v as int),
            None => digit_value(c, radix as int) is None,
        },
{
    let v: u32 = if '0' <= c && c <= '9' {
        c as u32 - 48
    } else if 'a' <= c && c <= 'z' {
        c as u32 - 97 + 10
    } else if 'A' <= c && c <= 'Z' {
        c as u32 - 65 + 10
    } else {
        radix
    };
    if v < radix {
        Some(v)
    } else {
        None
    }
}

/// An error among the first characters stays the error of the whole.
pub proof fn lemma_first_error_stays(s: Seq<char>, k: int, radix: int, max: int)
    requires
        0 <= k <= s.len(),
        digits_value(s.take(k), radix, max) is Err,
    ensures
        digits_value(s, radix, max) == digits_value(s.take(k), radix, max),
    decreases s.len() - k,
{
    if k == s.len() {
        assert(s.take(k) =~= s);
    } else {
        assert(s.take(k + 1).drop_last() =~= s.take(k));
        lemma_first_error_stays(s, k + 1, radix, max);
    }
}

/// Reads an unsigned number in base `radix` that is at most `max`.
pub fn parse_uint(s: &[char], radix: u32, max: u32) -> (r: Result<u32, IntError>)
    requires
        2 <= radix <= 36,
    ensures
        match r {
            Ok(v) => v <= max && parsed(s@, radix as int, max as int) == Ok::<int, IntError>(
                v as int,
            ),
            Err(e) => parsed(s@, radix as int, max as int) == Err::<int, IntError>(e),
        },
{
    if s.len() == 0 {
        return Err(IntError::Empty);
    }
    let from: usize = if s[0] == '+' && s.len() > 1 {
        1
    } else {
        0
    };
    let ghost digits = s@.skip(from as int);
    assert(from == 0 ==> digits =~= s@);
    assert(from == 1 ==> digits =~= s@.drop_first());
    let mut value: u32 = 0;
    let mut i: usize = from;
    assert(digits.take(0) =~= Seq::<char>::empty());
    while i < s.len()
        invariant
            2 <= radix <= 36,
            from <= i <= s@.len(),
            digits == s@.skip(from as int),
            value <= max,
            digits_value(digits.take(i - from), radix as int, max as int) == Ok::<int, IntError>(
                value as int,
            ),
            parsed(s@, radix as int, max as int) == digits_value(digits, radix as int, max as int),
        decreases s@.len() - i,
    {
        let ghost next = digits.take(i - from + 1);
        assert(next.drop_last() =~= digits.take(i - from));
        assert(next.last() == s@[i as int]);
        match digit(s[i], radix) {
            None => {
                proof {
                    lemma_first_error_stays(digits, i - from + 1, radix as int, max as int);
                }
                return Err(IntError::InvalidDigit);
            },
            Some(d) => {
                assert(value * radix <= u32::MAX * 36) by (nonlinear_arith)
                    requires
                        value <= u32::MAX,
                        radix <= 36,
                ;
                let wide: u64 = value as u64 * radix as u64 + d as u64;
                if wide > max as u64 {
                    proof {
                        lemma_first_error_stays(digits, i - from + 1, radix as int, max as int);
                    }
                    return Err(IntError::Overflow);
                }
                value = wide as u32;
            },
        }
        i = i + 1;
    }
    assert(digits.take(i - from) =~= digits);
    Ok(value)
}

// ---------------------------------------------------------------- writing
/// The character of a digit, in lower case.
pub open spec fn digit_char(d: int) -> char {
    if d < 10 {
        ('0' as int + d) as char
    } else {
        ('a' as int + (d - 10)) as char
    }
}

/// `n` in base `radix`, without leading zeros.
pub open spec fn written(n: nat, radix: nat) -> Seq<char>
    decreases n,
{
    if radix < 2 || n < radix {
        seq![digit_char(n as int)]
    } else {
        proof {
            assert(n / radix < n) by (nonlinear_arith)
                requires
                    2 <= radix <= n,
            ;
        }
        written(n / radix, radix).push(digit_char((n % radix) as int))
    }
}

/// `n` in decimal.
pub open spec fn dec(n: nat) -> Seq<char> {
    written(n, 10)
}

/// `n` in decimal, with a minus sign where it is negative.
pub open spec fn dec_int(n: int) -> Seq<char> {
    if n < 0 {
        "-"@ + dec((-n) as nat)
    } else {
        dec(n as nat)
    }
}

/// `n` in hexadecimal.
pub open spec fn hex(n: nat) -> Seq<char> {
    written(n, 16)
}

/// `n` in hexadecimal, with at least two digits.
pub open spec fn hex2(n: nat) -> Seq<char> {
    if n < 16 {
        seq!['0'] + hex(n)
    } else {
        hex(n)
    }
}

/// `n`, below 65536, in four hexadecimal digits.
pub open spec fn hex4(n: nat) -> Seq<char> {
    seq![
        digit_char((n / 4096) as int),
        digit_char((n / 256 % 16) as int),
        digit_char((n / 16 % 16) as int),
        digit_char((n % 16) as int),
    ]
}

fn to_digit_char(d: u64) -> (r: char)
    requires
        d < 16,
    ensures
        r == digit_char(d as int),
{
    if d < 10 {
        (48 + d as u8) as char
    } else {
        (97 + (d as u8 - 10)) as char
    }
}

fn write_uint(n: u64, radix: u64) -> (r: String)
    requires
        2 <= radix <= 16,
    ensures
        r@ == written(n as nat, radix as nat),
    decreases n,
{
    if n < radix {
        let mut out = String::new();
        out.push(to_digit_char(n));
        assert(out@ =~= seq![digit_char(n as int)]);
        out
    } else {
        assert(n / radix < n && n % radix < radix) by (nonlinear_arith)
            requires
                2 <= radix <= n,
        ;
        let mut out = write_uint(n / radix, radix);
        out.push(to_digit_char(n % radix));
        out
    }
}

pub fn to_dec(n: u64) -> (r: String)
    ensures
        r@ == dec(n as nat),
{
    write_uint(n, 10)
}

pub fn to_dec_int(n: i32) -> (r: String)
    ensures
        r@ == dec_int(n as int),
{
    if n < 0 {
        let mut out = "-".to_owned();
        let size: u64 = (-(n as i64)) as u64;
        out.append(to_dec(size).as_str());
        out
    } else {
        to_dec(n as u64)
    }
}

pub fn to_hex(n: u64) -> (r: String)
    ensures
        r@ == hex(n as nat),
{
    write_uint(n, 16)
}

pub fn to_hex2(n: u64) -> (r: String)
    ensures
        r@ == hex2(n as nat),
{
    if n < 16 {
        let mut out = String::new();
        out.push('0');
        assert(out@ =~= seq!['0']);
        out.append(to_hex(n).as_str());
        out
    } else {
        to_hex(n)
    }
}

pub fn to_hex4(n: u16) -> (r: String)
    ensures
        r@ == hex4(n as nat),
{
    let mut out = String::new();
    out.push(to_digit_char((n / 4096) as u64));
    out.push(to_digit_char((n / 256 % 16) as u64));
    out.push(to_digit_char((n / 16 % 16) as u64));
    out.push(to_digit_char((n % 16) as u64));
    assert(out@ =~= hex4(n as nat));
    out
}

// ---------------------------------------------------------------- reading back
pub proof fn lemma_digit_char_value(d: int, radix: int)
    requires
        0 <= d < radix <= 16,
    ensures
        digit_value(digit_char(d), radix) == Some(d),
        digit_char(d) != '+',
{
}

/// Reading the digits that were written gives the number back.
pub proof fn lemma_written_digits(n: nat, radix: nat, max: int)
    requires
        2 <= radix <= 16,
        n <= max,
    ensures
        digits_value(written(n, radix), radix as int, max) == Ok::<int, IntError>(n as int),
        written(n, radix).len() >= 1,
        written(n, radix)[0] != '+',
    decreases n,
{
    let w = written(n, radix);
    if n < radix {
        lemma_digit_char_value(n as int, radix as int);
        assert(w.drop_last() =~= Seq::<char>::empty());
        assert(digits_value(w.drop_last(), radix as int, max) == Ok::<int, IntError>(0));
        assert(0 * (radix as int) == 0) by (nonlinear_arith);
    } else {
        assert(n / radix < n && n % radix < radix && (n / radix) * radix + n % radix == n)
            by (nonlinear_arith)
            requires
                2 <= radix <= n,
        ;
        lemma_written_digits(n / radix, radix, max);
        lemma_digit_char_value((n % radix) as int, radix as int);
        assert(w.drop_last() =~= written(n / radix, radix));
        assert(w.last() == digit_char((n % radix) as int));
    }
}

/// A number that was written reads back as itself.
pub proof fn lemma_written_parses(n: nat, radix: nat, max: int)
    requires
        2 <= radix <= 16,
        n <= max,
    ensures
        parsed(written(n, radix), radix as int, max) == Ok::<int, IntError>(n as int),
{
    lemma_written_digits(n, radix, max);
}

} // verus!
