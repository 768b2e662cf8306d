//! Numbers as text.
use crate::number;
use crate::number::IntError;
use crate::text;
use vstd::prelude::*;

verus! {

/// Decimal numbers end with their last digit, and what is before it is the
/// number without it.
pub proof fn law_decimal_digits(n: nat)
    ensures
        n < 10 ==> number::dec(n).len() == 1 && number::dec(n)[0] as int == 48 + n,
        n >= 10 ==> {
            let w = number::dec(n);
            &&& w.len() == number::dec(n / 10).len() + 1
            &&& w.drop_last() == number::dec(n / 10)
            &&& w.last() as int == 48 + n % 10
        },
{
    if n >= 10 {
        assert(number::dec(n).drop_last() =~= number::dec(n / 10));
    }
}

/// Negative numbers are written with a minus sign in front.
pub proof fn law_decimal_sign(n: int)
    ensures
        n >= 0 ==> number::dec_int(n) == number::dec(n as nat),
        n < 0 ==> number::dec_int(n).len() > 0 && number::dec_int(n)[0] == '-'
            && number::dec_int(n).drop_first() == number::dec((-n) as nat),
{
    if n < 0 {
        reveal_strlit("-");
        assert(number::dec_int(n).drop_first() =~= number::dec((-n) as nat));
    }
}

/// The same of hexadecimal numbers: `0` to `9`, then `a` to `f`.
pub proof fn law_hexadecimal_digits(n: nat)
    ensures
        n < 10 ==> number::hex(n).len() == 1 && number::hex(n)[0] as int == 48 + n,
        10 <= n < 16 ==> number::hex(n).len() == 1 && number::hex(n)[0] as int == 87 + n,
        n >= 16 ==> {
            let w = number::hex(n);
            &&& w.drop_last() == number::hex(n / 16)
            &&& w.last() as int == (if n % 16 < 10 {
                48 + n % 16
            } else {
                87 + n % 16
            })
        },
{
    if n >= 16 {
        assert(number::hex(n).drop_last() =~= number::hex(n / 16));
    }
}

/// Two digits at least, four digits exactly: zeros stand in front.
pub proof fn law_hexadecimal_width(n: nat)
    ensures
        n < 16 ==> number::hex2(n) == seq!['0'] + number::hex(n),
        n >= 16 ==> number::hex2(n) == number::hex(n),
        n < 16 ==> number::hex4(n) == seq!['0', '0', '0'] + number::hex(n),
        16 <= n < 256 ==> number::hex4(n) == seq!['0', '0'] + number::hex(n),
        256 <= n < 4096 ==> number::hex4(n) == seq!['0'] + number::hex(n),
        4096 <= n < 65536 ==> number::hex4(n) == number::hex(n),
{
    reveal_with_fuel(number::written, 5);
    assert(n < 16 ==> number::hex4(n) =~= seq!['0', '0', '0'] + number::hex(n));
    assert(16 <= n < 256 ==> number::hex4(n) =~= seq!['0', '0'] + number::hex(n));
    assert(256 <= n < 4096 ==> number::hex4(n) =~= seq!['0'] + number::hex(n));
    assert(4096 <= n < 65536 ==> number::hex4(n) =~= number::hex(n));
}

/// Reading one digit, and one digit more: the value grows tenfold, as long as
/// it fits. Anything else is no number.
pub proof fn law_reading_decimal(s: Seq<char>, c: char, max: int)
    requires
        9 <= max,
    ensures
        '0' <= c <= '9' ==> number::parsed(seq![c], 10, max) == Ok::<int, IntError>(
            c as int - 48,
        ),
        !('0' <= c <= '9') ==> number::parsed(seq![c], 10, max) == Err::<int, IntError>(
            IntError::InvalidDigit,
        ),
        number::parsed(s, 10, max) matches Ok(v) ==> number::parsed(s.push(c), 10, max) == (if !('0'
            <= c <= '9') {
            Err::<int, IntError>(IntError::InvalidDigit)
        } else if v * 10 + (c as int - 48) <= max {
            Ok::<int, IntError>(v * 10 + (c as int - 48))
        } else {
            Err::<int, IntError>(IntError::Overflow)
        }),
        number::parsed(Seq::empty(), 10, max) == Err::<int, IntError>(IntError::Empty),
{
    lemma_one_digit(c, 10, max);
    lemma_more_digits(s, c, 10, max);
}

/// The same in hexadecimal, with letters in either case.
pub proof fn law_reading_hexadecimal(s: Seq<char>, c: char, max: int)
    requires
        15 <= max,
    ensures
        ({
            let d = if '0' <= c <= '9' {
                Some(c as int - 48)
            } else if 'a' <= c <= 'f' {
                Some(c as int - 87)
            } else if 'A' <= c <= 'F' {
                Some(c as int - 55)
            } else {
                None
            };
            &&& number::parsed(seq![c], 16, max) == (match d {
                Some(v) => Ok::<int, IntError>(v),
                None => Err::<int, IntError>(IntError::InvalidDigit),
            })
            &&& number::parsed(s, 16, max) matches Ok(v) ==> number::parsed(s.push(c), 16, max) == (
            match d {
                None => Err::<int, IntError>(IntError::InvalidDigit),
                Some(d) => if v * 16 + d <= max {
                    Ok::<int, IntError>(v * 16 + d)
                } else {
                    Err::<int, IntError>(IntError::Overflow)
                },
            })
        }),
{
    lemma_one_digit(c, 16, max);
    lemma_more_digits(s, c, 16, max);
}

proof fn lemma_one_digit(c: char, radix: int, max: int)
    requires
        radix == 10 || radix == 16,
        radix - 1 <= max,
    ensures
        number::parsed(seq![c], radix, max) == (match number::digit_value(c, radix) {
            Some(v) => Ok::<int, IntError>(v),
            None => Err::<int, IntError>(IntError::InvalidDigit),
        }),
{
    let one = seq![c];
    assert(one.drop_last() =~= Seq::<char>::empty());
    assert(number::digits_value(one.drop_last(), radix, max) == Ok::<int, IntError>(0));
    assert(0 * radix == 0) by (nonlinear_arith);
}

proof fn lemma_more_digits(s: Seq<char>, c: char, radix: int, max: int)
    requires
        radix == 10 || radix == 16,
    ensures
        number::parsed(s, radix, max) matches Ok(v) ==> number::parsed(s.push(c), radix, max) == (
        match number::digit_value(c, radix) {
            None => Err::<int, IntError>(IntError::InvalidDigit),
            Some(d) => if v * radix + d <= max {
                Ok::<int, IntError>(v * radix + d)
            } else {
                Err::<int, IntError>(IntError::Overflow)
            },
        }),
{
    if number::parsed(s, radix, max) is Ok {
        let t = s.push(c);
        assert(t.drop_last() =~= s);
        if s[0] == '+' && s.len() == 1 {
            assert(s =~= seq!['+']);
            assert(s.drop_last() =~= Seq::<char>::empty());
        } else if s[0] == '+' {
            assert(t.drop_first().drop_last() =~= s.drop_first());
            assert(t.drop_first().last() == c);
        }
    }
}

/// What is wrong with the first characters is wrong with the whole; a plus
/// sign in front of a number changes nothing, and alone it is no number.
pub proof fn law_reading_errors(s: Seq<char>, c: char, radix: int, max: int)
    requires
        radix == 10 || radix == 16,
        s.len() > 0,
        s[0] != '+',
    ensures
        number::parsed(s, radix, max) matches Err(e) ==> number::parsed(s.push(c), radix, max)
            == Err::<int, IntError>(e),
        number::parsed(seq!['+'] + s, radix, max) == number::parsed(s, radix, max),
        number::parsed(seq!['+'], radix, max) == Err::<int, IntError>(IntError::InvalidDigit),
{
    assert(s.push(c).drop_last() =~= s);
    assert((seq!['+'] + s).drop_first() =~= s);
    let plus = seq!['+'];
    assert(plus.drop_last() =~= Seq::<char>::empty());
    assert(number::digits_value(plus.drop_last(), radix, max) == Ok::<int, IntError>(0));
}

/// What is written reads back as the same number.
pub proof fn law_written_reads_back(n: nat, max: int)
    requires
        n <= max,
    ensures
        number::parsed(number::dec(n), 10, max) == Ok::<int, IntError>(n as int),
        number::parsed(number::hex(n), 16, max) == Ok::<int, IntError>(n as int),
{
    number::lemma_written_parses(n, 10, max);
    number::lemma_written_parses(n, 16, max);
}

/// The messages of the three errors differ in what they say is wrong.
pub proof fn law_number_messages()
    ensures
        text::contains_text(IntError::Empty.spec_text(), "empty string"@),
        text::contains_text(IntError::InvalidDigit.spec_text(), "invalid digit"@),
        text::contains_text(IntError::Overflow.spec_text(), "too large"@),
{
    reveal_strlit("empty string");
    reveal_strlit("invalid digit");
    reveal_strlit("too large");
    reveal_strlit("cannot parse integer from empty string");
    reveal_strlit("invalid digit found in string");
    reveal_strlit("number too large to fit in target type");
    let a = IntError::Empty.spec_text();
    let b = IntError::InvalidDigit.spec_text();
    let c = IntError::Overflow.spec_text();
    assert(a.subrange(26, 38) =~= "empty string"@);
    assert(text::occurs_at(a, "empty string"@, 26));
    assert(b.subrange(0, 13) =~= "invalid digit"@);
    assert(text::occurs_at(b, "invalid digit"@, 0));
    assert(c.subrange(7, 16) =~= "too large"@);
    assert(text::occurs_at(c, "too large"@, 7));
}

/// Two signs are no number.
pub proof fn law_two_signs(rest: Seq<char>, radix: int, max: int)
    requires
        radix == 10 || radix == 16,
    ensures
        number::parsed(seq!['+', '+'] + rest, radix, max) == Err::<int, IntError>(
            IntError::InvalidDigit,
        ),
        number::parsed(seq!['-'] + rest, radix, max) == Err::<int, IntError>(
            IntError::InvalidDigit,
        ),
{
    let s = seq!['+', '+'] + rest;
    let t = s.drop_first();
    let m = seq!['-'] + rest;
    assert(t.take(1).drop_last() =~= Seq::<char>::empty());
    assert(m.take(1).drop_last() =~= Seq::<char>::empty());
    assert(number::digits_value(t.take(1).drop_last(), radix, max) == Ok::<int, IntError>(0));
    assert(number::digits_value(m.take(1).drop_last(), radix, max) == Ok::<int, IntError>(0));
    assert(t.take(1).last() == '+');
    assert(m.take(1).last() == '-');
    number::lemma_first_error_stays(t, 1, radix, max);
    number::lemma_first_error_stays(m, 1, radix, max);
}

} // verus!
