//! Buttons by name and by code.
use crate::keys;
use crate::keys::{ButtonError, ButtonFault};
use crate::number;
use crate::number::IntError;
use crate::probe::names;
use crate::text;
use vstd::prelude::*;

verus! {

/// `F` and a number, in either case, is that function key: F1 to F10 have the
/// codes 59 to 68, F11 and F12 have 87 and 88, F13 to F24 have 183 to 194, and
/// there are no others.
pub proof fn law_function_key_codes(n: nat)
    requires
        n <= 65535,
    ensures
        1 <= n <= 10 ==> keys::button_code("F"@ + number::dec(n)) == Ok::<u16, ButtonFault>(
            (58 + n) as u16,
        ),
        11 <= n <= 12 ==> keys::button_code("F"@ + number::dec(n)) == Ok::<u16, ButtonFault>(
            (76 + n) as u16,
        ),
        13 <= n <= 24 ==> keys::button_code("F"@ + number::dec(n)) == Ok::<u16, ButtonFault>(
            (170 + n) as u16,
        ),
        n == 0 || n > 24 ==> keys::button_code("F"@ + number::dec(n)) == Err::<u16, ButtonFault>(
            ButtonFault::UnsupportedFKey,
        ),
        keys::button_code("f"@ + number::dec(n)) == keys::button_code("F"@ + number::dec(n)),
{
    reveal_strlit("F");
    reveal_strlit("f");
    let name = "F"@ + number::dec(n);
    let small = "f"@ + number::dec(n);
    keys::lemma_written_is_digits(n);
    assert(name[0] == 'F' && small[0] == 'f');
    assert(name.drop_first() =~= number::dec(n));
    keys::lemma_not_decimal(name);
    assert forall|i: int| 0 <= i < name.len() implies text::upper_char(#[trigger] name[i]) == name[i]
        && text::upper_char(small[i]) == name[i] by {
        if i > 0 {
            assert(name[i] == number::dec(n)[i - 1]);
            assert(small[i] == number::dec(n)[i - 1]);
        }
    }
    assert(text::ascii_upper(name) =~= name);
    assert(text::ascii_upper(small) =~= name);
    keys::law_button_in_any_case(small);
    number::lemma_written_parses(n, 10, 0xffff);
}

/// The names of keys and buttons and their codes, in any case.
pub proof fn law_named_codes(s: Seq<char>)
    ensures
        text::ascii_upper(s) == "ESC"@ ==> keys::button_code(s) == Ok::<u16, ButtonFault>(1),
        text::ascii_upper(s) == "PAUSE"@ ==> keys::button_code(s) == Ok::<u16, ButtonFault>(19),
        text::ascii_upper(s) == "PRINT"@ ==> keys::button_code(s) == Ok::<u16, ButtonFault>(69),
        text::ascii_upper(s) == "NUMLOCK"@ ==> keys::button_code(s) == Ok::<u16, ButtonFault>(69),
        text::ascii_upper(s) == "SCROLLLOCK"@ ==> keys::button_code(s) == Ok::<u16, ButtonFault>(
            70,
        ),
        text::ascii_upper(s) == "CAPSLOCK"@ ==> keys::button_code(s) == Ok::<u16, ButtonFault>(58),
        text::ascii_upper(s) == "BTN_LEFT"@ ==> keys::button_code(s) == Ok::<u16, ButtonFault>(
            272,
        ),
        text::ascii_upper(s) == "BTN_RIGHT"@ ==> keys::button_code(s) == Ok::<u16, ButtonFault>(
            273,
        ),
        text::ascii_upper(s) == "BTN_MIDDLE"@ ==> keys::button_code(s) == Ok::<u16, ButtonFault>(
            274,
        ),
        text::ascii_upper(s) == "BTN_SIDE"@ ==> keys::button_code(s) == Ok::<u16, ButtonFault>(
            275,
        ),
        text::ascii_upper(s) == "BTN_EXTRA"@ ==> keys::button_code(s) == Ok::<u16, ButtonFault>(
            276,
        ),
        text::ascii_upper(s) == "BTN_FORWARD"@ ==> keys::button_code(s) == Ok::<u16, ButtonFault>(
            277,
        ),
        text::ascii_upper(s) == "BTN_BACK"@ ==> keys::button_code(s) == Ok::<u16, ButtonFault>(
            278,
        ),
        text::ascii_upper(s) == "BTN_TASK"@ ==> keys::button_code(s) == Ok::<u16, ButtonFault>(
            279,
        ),
{
    keys::law_button_in_any_case(s);
    keys::lemma_plain_names();
}

/// What is no number, no function key and none of the names is no button.
pub proof fn law_nothing_else_is_a_button(s: Seq<char>)
    requires
        number::parsed(s, 10, 65535) is Err,
        !(s.len() >= 2 && s[0] == '0' && (s[1] == 'x' || s[1] == 'X') && number::parsed(
            s.skip(2),
            16,
            65535,
        ) is Ok),
    ensures
        ({
            let up = text::ascii_upper(s);
            &&& up.len() > 0 && up[0] == 'F' ==> (match number::parsed(up.drop_first(), 10, 65535) {
                Err(e) => keys::button_code(s) == Err::<u16, ButtonFault>(ButtonFault::BadFKey(e)),
                Ok(n) => n == 0 || n > 24 ==> keys::button_code(s) == Err::<u16, ButtonFault>(
                    ButtonFault::UnsupportedFKey,
                ),
            })
            &&& !(up.len() > 0 && up[0] == 'F') && up != "ESC"@ && up != "PAUSE"@ && up != "PRINT"@
                && up != "NUMLOCK"@ && up != "SCROLLLOCK"@ && up != "CAPSLOCK"@ && up != "BTN_LEFT"@
                && up != "BTN_RIGHT"@ && up != "BTN_MIDDLE"@ && up != "BTN_SIDE"@ && up
                != "BTN_EXTRA"@ && up != "BTN_FORWARD"@ && up != "BTN_BACK"@ && up != "BTN_TASK"@
                ==> keys::button_code(s) == Err::<u16, ButtonFault>(ButtonFault::Unrecognized)
        }),
{
}

/// A number is the code itself: decimal first, then hexadecimal behind `0x`.
pub proof fn law_codes_are_numbers(s: Seq<char>, h: Seq<char>, upper: bool)
    ensures
        number::parsed(s, 10, 65535) matches Ok(v) ==> keys::button_code(s) == Ok::<
            u16,
            ButtonFault,
        >(v as u16) && 0 <= v <= 65535,
        number::parsed(h, 16, 65535) matches Ok(v) ==> keys::button_code(
            (if upper {
                seq!['0', 'X']
            } else {
                seq!['0', 'x']
            }) + h,
        ) == Ok::<u16, ButtonFault>(v as u16),
{
    lemma_parsed_range(s, 10);
    let mark = if upper {
        seq!['0', 'X']
    } else {
        seq!['0', 'x']
    };
    let t = mark + h;
    assert(t.skip(2) =~= h);
    assert(t[0] == '0' && t[1] == mark[1]);
    let two = t.take(2);
    let one = two.drop_last();
    assert(one.drop_last() =~= Seq::<char>::empty());
    assert(number::digits_value(one.drop_last(), 10, 0xffff) == Ok::<int, IntError>(0));
    assert(one.last() == '0');
    assert(number::digits_value(one, 10, 0xffff) == Ok::<int, IntError>(0));
    assert(two.last() == mark[1]);
    number::lemma_first_error_stays(t, 2, 10, 0xffff);
}

proof fn lemma_digits_range(s: Seq<char>, radix: int)
    requires
        radix == 10 || radix == 16,
    ensures
        number::digits_value(s, radix, 65535) matches Ok(v) ==> 0 <= v <= 65535,
    decreases s.len(),
{
    if s.len() > 0 {
        lemma_digits_range(s.drop_last(), radix);
    }
}

proof fn lemma_parsed_range(s: Seq<char>, radix: int)
    requires
        radix == 10 || radix == 16,
    ensures
        number::parsed(s, radix, 65535) matches Ok(v) ==> 0 <= v <= 65535,
{
    lemma_digits_range(s, radix);
    lemma_digits_range(s.drop_first(), radix);
}

/// How the daemon shows a key: by its name if it has one, else by its code.
pub proof fn law_daemon_key_names(code: u16)
    ensures
        ({
            let shown = keys::key_text(code);
            &&& 59 <= code <= 68 ==> shown == "F"@ + number::dec((code - 58) as nat)
            &&& 87 <= code <= 88 ==> shown == "F"@ + number::dec((code - 76) as nat)
            &&& 183 <= code <= 194 ==> shown == "F"@ + number::dec((code - 170) as nat)
            &&& code == 1 ==> shown == "ESC"@
            &&& code == 19 ==> shown == "PAUSE"@
            &&& code == 58 ==> shown == "CAPSLOCK"@
            &&& code == 69 ==> shown == "PRINT/NUMLOCK"@
            &&& code == 70 ==> shown == "SCROLLLOCK"@
            &&& code == 272 ==> shown == "BTN_LEFT"@
            &&& code == 273 ==> shown == "BTN_RIGHT"@
            &&& code == 274 ==> shown == "BTN_MIDDLE"@
            &&& code == 275 ==> shown == "BTN_SIDE"@
            &&& code == 276 ==> shown == "BTN_EXTRA"@
            &&& code == 277 ==> shown == "BTN_FORWARD"@
            &&& code == 278 ==> shown == "BTN_BACK"@
            &&& code == 279 ==> shown == "BTN_TASK"@
            &&& !(59 <= code <= 68 || 87 <= code <= 88 || 183 <= code <= 194 || code == 1 || code
                == 19 || code == 58 || code == 69 || code == 70 || 272 <= code <= 279) ==> shown
                == number::dec(code as nat)
        }),
{
}

/// How the probe shows a key. It knows the space bar, and shows Num Lock alone.
pub proof fn law_probe_key_names(code: u16)
    ensures
        code == 57 ==> names::key_text(code) == "SPACE"@,
        code == 69 ==> names::key_text(code) == "NUMLOCK"@,
        code != 57 && code != 69 ==> names::key_text(code) == keys::key_text(code),
{
}

/// The messages begin with what is wrong and hold the text as it was given.
pub proof fn law_button_messages(e: ButtonError)
    ensures
        e.fault matches ButtonFault::BadFKey(cause) ==> {
            &&& e.spec_text() == "bad F-key name: "@ + e.given@
            &&& e.spec_chain() == "bad F-key name: "@ + e.given@ + ": "@ + cause.spec_text()
        },
        e.fault == ButtonFault::UnsupportedFKey ==> e.spec_text() == "unsupported F-key: "@
            + e.given@ + " (F1-F24)"@ && e.spec_chain() == e.spec_text(),
        e.fault == ButtonFault::Unrecognized ==> e.spec_chain() == e.spec_text()
            && "unrecognized button "@.is_prefix_of(e.spec_text()) && text::contains_text(
            e.spec_text(),
            keys::quoted(e.given@),
        ),
{
    broadcast use text::lemma_part_in_whole;

    if e.fault == ButtonFault::Unrecognized {
        let q = keys::quoted(e.given@);
        text::lemma_whole_in_itself(q);
        let head = "unrecognized button "@;
        assert(text::contains_text(head + q, q));
        assert(head =~= e.spec_text().subrange(0, head.len() as int));
    }
}

/// The messages of a stage that is none: the text in quotes, or the number.
pub proof fn law_stage_messages(quoted: Seq<char>, v: nat)
    ensures
        keys::not_a_number_text(quoted) == quoted + " is not a number"@,
        keys::bad_stage_text(v) == number::dec(v) + " not in 1..=6"@,
{
}

/// However the number behind the `F` is spelled, it is the number that counts.
pub proof fn law_function_keys_by_number(s: Seq<char>, n: int)
    requires
        s.len() > 0,
        s[0] == 'F' || s[0] == 'f',
        number::parsed(text::ascii_upper(s).drop_first(), 10, 65535) == Ok::<int, IntError>(n),
    ensures
        1 <= n <= 10 ==> keys::button_code(s) == Ok::<u16, ButtonFault>((58 + n) as u16),
        11 <= n <= 12 ==> keys::button_code(s) == Ok::<u16, ButtonFault>((76 + n) as u16),
        13 <= n <= 24 ==> keys::button_code(s) == Ok::<u16, ButtonFault>((170 + n) as u16),
        n < 1 || n > 24 ==> keys::button_code(s) == Err::<u16, ButtonFault>(
            ButtonFault::UnsupportedFKey,
        ),
{
    keys::lemma_not_decimal(s);
    assert(text::ascii_upper(s)[0] == 'F');
}

} // verus!
