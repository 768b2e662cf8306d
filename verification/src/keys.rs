//! Button keys: their codes, their names, and the DPI stages.
use crate::number;
use crate::number::IntError;
use crate::text;
use vstd::prelude::*;

verus! {

/// Event type of key events (input-event-codes.h).
pub const EV_KEY: u16 = 1;

/// KEY_SCROLLLOCK.
pub const DEFAULT_BUTTON: u16 = 70;

/// Why a text names no button.
#[derive(Clone, Copy, Debug, PartialEq, Eq, Structural)]
pub enum ButtonFault {
    /// It starts with `F`, and what follows is no number.
    BadFKey(IntError),
    /// It is an F-key, and not one of F1 to F24.
    UnsupportedFKey,
    /// It is none of the known names.
    Unrecognized,
}

/// A text that names no button.
#[derive(Debug)]
pub struct ButtonError {
    pub fault: ButtonFault,
    /// The text as it was given.
    pub given: String,
}

// ---------------------------------------------------------------- codes
/// The code of function key `n`: F1 to F10 are 59 to 68, F11 and F12 are 87
/// and 88, F13 to F24 are 183 to 194.
pub open spec fn f_key_code(n: int) -> Option<u16> {
    if 1 <= n <= 10 {
        Some((58 + n) as u16)
    } else if 11 <= n <= 12 {
        Some((76 + n) as u16)
    } else if 13 <= n <= 24 {
        Some((170 + n) as u16)
    } else {
        None
    }
}

/// The code of a key or button by its name.
pub open spec fn known_code(name: Seq<char>) -> Option<u16> {
    if name == "ESC"@ {
        Some(1u16)
    } else if name == "PAUSE"@ {
        Some(19u16)
    } else if name == "PRINT"@ || name == "NUMLOCK"@ {
        Some(69u16)
    } else if name == "SCROLLLOCK"@ {
        Some(70u16)
    } else if name == "CAPSLOCK"@ {
        Some(58u16)
    } else if name == "BTN_LEFT"@ {
        Some(0x110u16)
    } else if name == "BTN_RIGHT"@ {
        Some(0x111u16)
    } else if name == "BTN_MIDDLE"@ {
        Some(0x112u16)
    } else if name == "BTN_SIDE"@ {
        Some(0x113u16)
    } else if name == "BTN_EXTRA"@ {
        Some(0x114u16)
    } else if name == "BTN_FORWARD"@ {
        Some(0x115u16)
    } else if name == "BTN_BACK"@ {
        Some(0x116u16)
    } else if name == "BTN_TASK"@ {
        Some(0x117u16)
    } else {
        None
    }
}

/// A name in upper case.
pub open spec fn named_code(name: Seq<char>) -> Result<u16, ButtonFault> {
    if name.len() > 0 && name[0] == 'F' {
        match number::parsed(name.drop_first(), 10, 0xffff) {
            Err(e) => Err(ButtonFault::BadFKey(e)),
            Ok(n) => match f_key_code(n) {
                Some(code) => Ok(code),
                None => Err(ButtonFault::UnsupportedFKey),
            },
        }
    } else {
        match known_code(name) {
            Some(code) => Ok(code),
            None => Err(ButtonFault::Unrecognized),
        }
    }
}

/// `s` starts with `0x` or `0X`.
pub open spec fn has_hex_mark(s: Seq<char>) -> bool {
    s.len() >= 2 && s[0] == '0' && (s[1] == 'x' || s[1] == 'X')
}

/// The code that `s` stands for: a decimal code, else a hexadecimal one, else
/// a name in any case.
pub open spec fn button_code(s: Seq<char>) -> Result<u16, ButtonFault> {
    match number::parsed(s, 10, 0xffff) {
        Ok(v) => Ok(v as u16),
        Err(_) => match number::parsed(s.skip(2), 16, 0xffff) {
            Ok(v) if has_hex_mark(s) => Ok(v as u16),
            _ => named_code(text::ascii_upper(s)),
        },
    }
}

fn is_name(name: &[char], known: &str) -> (r: bool)
    ensures
        r == (name@ == known@),
{
    text::same_chars(name, text::chars_of(known).as_slice())
}

fn find_known(name: &[char]) -> (r: Option<u16>)
    ensures
        r == known_code(name@),
{
    if is_name(name, "ESC") {
        Some(1)
    } else if is_name(name, "PAUSE") {
        Some(19)
    } else if is_name(name, "PRINT") || is_name(name, "NUMLOCK") {
        Some(69)
    } else if is_name(name, "SCROLLLOCK") {
        Some(70)
    } else if is_name(name, "CAPSLOCK") {
        Some(58)
    } else if is_name(name, "BTN_LEFT") {
        Some(0x110)
    } else if is_name(name, "BTN_RIGHT") {
        Some(0x111)
    } else if is_name(name, "BTN_MIDDLE") {
        Some(0x112)
    } else if is_name(name, "BTN_SIDE") {
        Some(0x113)
    } else if is_name(name, "BTN_EXTRA") {
        Some(0x114)
    } else if is_name(name, "BTN_FORWARD") {
        Some(0x115)
    } else if is_name(name, "BTN_BACK") {
        Some(0x116)
    } else if is_name(name, "BTN_TASK") {
        Some(0x117)
    } else {
        None
    }
}

fn find_f_key(n: u32) -> (r: Option<u16>)
    ensures
        r == f_key_code(n as int),
{
    if 1 <= n && n <= 10 {
        Some((58 + n) as u16)
    } else if 11 <= n && n <= 12 {
        Some((76 + n) as u16)
    } else if 13 <= n && n <= 24 {
        Some((170 + n) as u16)
    } else {
        None
    }
}

fn find_named(name: &[char]) -> (r: Result<u16, ButtonFault>)
    ensures
        r == named_code(name@),
{
    if name.len() > 0 && name[0] == 'F' {
        let rest = vstd::slice::slice_subrange(name, 1, name.len());
        assert(rest@ =~= name@.drop_first());
        match number::parse_uint(rest, 10, 0xffff) {
            Err(e) => Err(ButtonFault::BadFKey(e)),
            Ok(n) => match find_f_key(n) {
                Some(code) => Ok(code),
                None => Err(ButtonFault::UnsupportedFKey),
            },
        }
    } else {
        match find_known(name) {
            Some(code) => Ok(code),
            None => Err(ButtonFault::Unrecognized),
        }
    }
}

fn find_button(given: &str) -> (r: Result<u16, ButtonFault>)
    ensures
        r == button_code(given@),
{
    let chars = text::chars_of(given);
    match number::parse_uint(chars.as_slice(), 10, 0xffff) {
        Ok(v) => {
            return Ok(v as u16);
        },
        Err(_) => {},
    }
    if chars.len() >= 2 && chars[0] == '0' && (chars[1] == 'x' || chars[1] == 'X') {
        let rest = vstd::slice::slice_subrange(chars.as_slice(), 2, chars.len());
        assert(rest@ =~= given@.skip(2));
        match number::parse_uint(rest, 16, 0xffff) {
            Ok(v) => {
                return Ok(v as u16);
            },
            Err(_) => {},
        }
    }
    find_named(text::to_ascii_upper(given).as_slice())
}

/// `SCROLLLOCK`, `f12`, `BTN_EXTRA`, `70`, `0x46` → evdev code.
pub fn parse_button(given: &str) -> (r: Result<u16, ButtonError>)
    ensures
        match r {
            Ok(code) => button_code(given@) == Ok::<u16, ButtonFault>(code),
            Err(e) => button_code(given@) == Err::<u16, ButtonFault>(e.fault) && e.given@
                == given@,
        },
{
    match find_button(given) {
        Ok(code) => Ok(code),
        Err(fault) => Err(ButtonError { fault, given: given.to_owned() }),
    }
}

/// The button to watch: the one that was asked for, or the default.
pub fn button_or_default(given: Option<&str>) -> (r: Result<u16, ButtonError>)
    ensures
        match given {
            None => r == Ok::<u16, ButtonError>(DEFAULT_BUTTON),
            Some(g) => match r {
                Ok(code) => button_code(g@) == Ok::<u16, ButtonFault>(code),
                Err(e) => button_code(g@) == Err::<u16, ButtonFault>(e.fault) && e.given@ == g@,
            },
        },
{
    match given {
        None => Ok(DEFAULT_BUTTON),
        Some(g) => parse_button(g),
    }
}

// ---------------------------------------------------------------- messages
/// How `{:?}` shows a text: in quotes, with escapes.
pub uninterp spec fn quoted(s: Seq<char>) -> Seq<char>;

/// `format!("{:?}", s)` on a `str`: the text in double quotes with escapes as
/// the standard library's `Debug` writes them. Only named here.
#[verifier::external_body]
fn quote(s: &str) -> (r: String)
    ensures
        r@ == quoted(s@),
{
    format!("{s:?}")
}

pub open spec fn unrecognized_text(quoted_name: Seq<char>) -> Seq<char> {
    "unrecognized button "@ + quoted_name
        + " — use an evdev name (SCROLLLOCK, F12, BTN_EXTRA, ...), a decimal code (70) or hex (0x46)"@
}

/// The message for an unknown name, given the name in quotes.
pub fn unrecognized_message(quoted_name: &str) -> (r: String)
    ensures
        r@ == unrecognized_text(quoted_name@),
{
    let mut out = "unrecognized button ".to_owned();
    out.append(quoted_name);
    out.append(
        " — use an evdev name (SCROLLLOCK, F12, BTN_EXTRA, ...), a decimal code (70) or hex (0x46)",
    );
    out
}

impl ButtonError {
    pub open spec fn spec_text(self) -> Seq<char> {
        match self.fault {
            ButtonFault::BadFKey(_) => "bad F-key name: "@ + self.given@,
            ButtonFault::UnsupportedFKey => "unsupported F-key: "@ + self.given@ + " (F1-F24)"@,
            ButtonFault::Unrecognized => unrecognized_text(quoted(self.given@)),
        }
    }

    /// The message with its cause, where it has one.
    pub open spec fn spec_chain(self) -> Seq<char> {
        match self.fault {
            ButtonFault::BadFKey(cause) => self.spec_text() + ": "@ + cause.spec_text(),
            _ => self.spec_text(),
        }
    }

    pub fn message(&self) -> (r: String)
        ensures
            r@ == self.spec_text(),
    {
        match self.fault {
            ButtonFault::BadFKey(_) => {
                let mut out = "bad F-key name: ".to_owned();
                out.append(self.given.as_str());
                out
            },
            ButtonFault::UnsupportedFKey => {
                let mut out = "unsupported F-key: ".to_owned();
                out.append(self.given.as_str());
                out.append(" (F1-F24)");
                out
            },
            ButtonFault::Unrecognized => unrecognized_message(quote(self.given.as_str()).as_str()),
        }
    }

    pub fn chain(&self) -> (r: String)
        ensures
            r@ == self.spec_chain(),
    {
        let mut out = self.message();
        match self.fault {
            ButtonFault::BadFKey(cause) => {
                out.append(": ");
                out.append(cause.message());
            },
            _ => {},
        }
        out
    }
}

// ---------------------------------------------------------------- stages
/// A DPI stage is numbered 1 to 6.
pub open spec fn is_stage(v: int) -> bool {
    1 <= v <= 6
}

pub open spec fn not_a_number_text(quoted_text: Seq<char>) -> Seq<char> {
    quoted_text + " is not a number"@
}

pub fn not_a_number(quoted_text: &str) -> (r: String)
    ensures
        r@ == not_a_number_text(quoted_text@),
{
    let mut out = quoted_text.to_owned();
    out.append(" is not a number");
    out
}

pub open spec fn bad_stage_text(v: nat) -> Seq<char> {
    number::dec(v) + " not in 1..=6"@
}

/// Reads a DPI stage, 1 to 6.
pub fn parse_stage(s: &str) -> (r: Result<u8, String>)
    ensures
        match number::parsed(s@, 10, 0xff) {
            Err(_) => r matches Err(e) && e@ == not_a_number_text(quoted(s@)),
            Ok(v) => if is_stage(v) {
                r matches Ok(stage) && stage == v && 1 <= stage <= 6
            } else {
                r matches Err(e) && e@ == bad_stage_text(v as nat) && !(1 <= v <= 6)
            },
        },
{
    let chars = text::chars_of(s);
    match number::parse_uint(chars.as_slice(), 10, 0xff) {
        Err(_) => Err(not_a_number(quote(s).as_str())),
        Ok(v) => {
            if 1 <= v && v <= 6 {
                Ok(v as u8)
            } else {
                let mut out = number::to_dec(v as u64);
                out.append(" not in 1..=6");
                Err(out)
            }
        },
    }
}

// ---------------------------------------------------------------- names
/// Which function key has this code. The codes are not contiguous: F1 to F10
/// are 59 to 68, F11 and F12 are 87 and 88, F13 to F24 are 183 to 194.
pub open spec fn f_key_number(code: u16) -> Option<nat> {
    if 59 <= code <= 68 {
        Some((code - 58) as nat)
    } else if 87 <= code <= 88 {
        Some((code - 76) as nat)
    } else if 183 <= code <= 194 {
        Some((code - 170) as nat)
    } else {
        None
    }
}

pub fn find_f_number(code: u16) -> (r: Option<u16>)
    ensures
        match r {
            Some(n) => f_key_number(code) == Some(n as nat),
            None => f_key_number(code) is None,
        },
{
    if 59 <= code && code <= 68 {
        Some((code - 58) as u16)
    } else if 87 <= code && code <= 88 {
        Some((code - 76) as u16)
    } else if 183 <= code && code <= 194 {
        Some((code - 170) as u16)
    } else {
        None
    }
}

/// The names of the keys that are neither function keys nor shown by code.
pub open spec fn plain_name(code: u16) -> Option<Seq<char>> {
    if code == 1 {
        Some("ESC"@)
    } else if code == 19 {
        Some("PAUSE"@)
    } else if code == 69 {
        Some("PRINT/NUMLOCK"@)
    } else if code == 70 {
        Some("SCROLLLOCK"@)
    } else if code == 58 {
        Some("CAPSLOCK"@)
    } else if code == 0x110 {
        Some("BTN_LEFT"@)
    } else if code == 0x111 {
        Some("BTN_RIGHT"@)
    } else if code == 0x112 {
        Some("BTN_MIDDLE"@)
    } else if code == 0x113 {
        Some("BTN_SIDE"@)
    } else if code == 0x114 {
        Some("BTN_EXTRA"@)
    } else if code == 0x115 {
        Some("BTN_FORWARD"@)
    } else if code == 0x116 {
        Some("BTN_BACK"@)
    } else if code == 0x117 {
        Some("BTN_TASK"@)
    } else {
        None
    }
}

/// What `key_name` shows for a code.
pub open spec fn key_text(code: u16) -> Seq<char> {
    match f_key_number(code) {
        Some(n) => "F"@ + number::dec(n),
        None => match plain_name(code) {
            Some(name) => name,
            None => number::dec(code as nat),
        },
    }
}

fn find_plain_name(code: u16) -> (r: Option<&'static str>)
    ensures
        match r {
            Some(name) => plain_name(code) == Some(name@),
            None => plain_name(code) is None,
        },
{
    if code == 1 {
        Some("ESC")
    } else if code == 19 {
        Some("PAUSE")
    } else if code == 69 {
        Some("PRINT/NUMLOCK")
    } else if code == 70 {
        Some("SCROLLLOCK")
    } else if code == 58 {
        Some("CAPSLOCK")
    } else if code == 0x110 {
        Some("BTN_LEFT")
    } else if code == 0x111 {
        Some("BTN_RIGHT")
    } else if code == 0x112 {
        Some("BTN_MIDDLE")
    } else if code == 0x113 {
        Some("BTN_SIDE")
    } else if code == 0x114 {
        Some("BTN_EXTRA")
    } else if code == 0x115 {
        Some("BTN_FORWARD")
    } else if code == 0x116 {
        Some("BTN_BACK")
    } else if code == 0x117 {
        Some("BTN_TASK")
    } else {
        None
    }
}

/// The name of a key for messages: `F12`, `SCROLLLOCK`, or the bare code.
pub fn key_name(code: u16) -> (r: String)
    ensures
        r@ == key_text(code),
{
    match find_f_number(code) {
        Some(n) => {
            let mut out = "F".to_owned();
            out.append(number::to_dec(n as u64).as_str());
            out
        },
        None => match find_plain_name(code) {
            Some(name) => name.to_owned(),
            None => number::to_dec(code as u64),
        },
    }
}

// ---------------------------------------------------------------- laws
pub proof fn lemma_written_is_digits(n: nat)
    ensures
        number::dec(n).len() >= 1,
        forall|i: int|
            0 <= i < number::dec(n).len() ==> '0' <= #[trigger] number::dec(n)[i] && number::dec(
                n,
            )[i] <= '9',
    decreases n,
{
    let w = number::dec(n);
    if n >= 10 {
        lemma_written_is_digits(n / 10);
        let front = number::dec(n / 10);
        assert(w == front.push(number::digit_char((n % 10) as int)));
        assert forall|i: int| 0 <= i < w.len() implies '0' <= #[trigger] w[i] && w[i] <= '9' by {
            if i < front.len() {
                assert(w[i] == front[i]);
            }
        }
    }
}

/// A text whose first character is no digit is no number.
pub proof fn lemma_not_decimal(s: Seq<char>)
    requires
        s.len() >= 1,
        !('0' <= s[0] && s[0] <= '9'),
        s[0] != '+',
    ensures
        number::parsed(s, 10, 0xffff) is Err,
{
    let first = s.take(1);
    assert(first.drop_last() =~= Seq::<char>::empty());
    assert(number::digits_value(first.drop_last(), 10, 0xffff) == Ok::<int, IntError>(0));
    assert(first.last() == s[0]);
    assert(number::digit_value(s[0], 10) is None);
    number::lemma_first_error_stays(s, 1, 10, 0xffff);
}

/// Case makes no difference to a digit.
proof fn lemma_upper_digits(s: Seq<char>, radix: int, max: int)
    requires
        2 <= radix <= 36,
    ensures
        number::digits_value(text::ascii_upper(s), radix, max) == number::digits_value(
            s,
            radix,
            max,
        ),
    decreases s.len(),
{
    let up = text::ascii_upper(s);
    if s.len() > 0 {
        assert(up.drop_last() =~= text::ascii_upper(s.drop_last()));
        lemma_upper_digits(s.drop_last(), radix, max);
        assert(up.last() == text::upper_char(s.last()));
        assert(number::digit_value(up.last(), radix) == number::digit_value(s.last(), radix));
    }
}

proof fn lemma_upper_parses(s: Seq<char>, radix: int, max: int)
    requires
        2 <= radix <= 36,
    ensures
        number::parsed(text::ascii_upper(s), radix, max) == number::parsed(s, radix, max),
{
    lemma_upper_digits(s, radix, max);
    if s.len() > 0 {
        assert(text::ascii_upper(s)[0] == text::upper_char(s[0]));
        assert(text::ascii_upper(s).drop_first() =~= text::ascii_upper(s.drop_first()));
        lemma_upper_digits(s.drop_first(), radix, max);
    }
}

/// A button can be given in any case: upper and lower case letters mean the
/// same key, or the same fault.
pub proof fn law_button_in_any_case(s: Seq<char>)
    ensures
        button_code(text::ascii_upper(s)) == button_code(s),
{
    let up = text::ascii_upper(s);
    lemma_upper_parses(s, 10, 0xffff);
    if s.len() >= 2 {
        assert(up[0] == text::upper_char(s[0]));
        assert(up[1] == text::upper_char(s[1]));
        assert(up.skip(2) =~= text::ascii_upper(s.skip(2)));
        lemma_upper_parses(s.skip(2), 16, 0xffff);
    }
    assert(text::ascii_upper(up) =~= up);
}

/// Every code can be given in decimal.
pub proof fn law_decimal_button(code: u16)
    ensures
        button_code(number::dec(code as nat)) == Ok::<u16, ButtonFault>(code),
{
    number::lemma_written_parses(code as nat, 10, 0xffff);
}

/// Every code can be given in hexadecimal.
pub proof fn law_hexadecimal_button(code: u16)
    ensures
        button_code("0x"@ + number::hex(code as nat)) == Ok::<u16, ButtonFault>(code),
{
    reveal_strlit("0x");
    let s = "0x"@ + number::hex(code as nat);
    assert(s[0] == '0' && s[1] == 'x');
    assert(s.skip(2) =~= number::hex(code as nat));
    number::lemma_written_parses(code as nat, 16, 0xffff);
    let two = s.take(2);
    let one = two.drop_last();
    assert(one.drop_last() =~= Seq::<char>::empty());
    assert(number::digits_value(one.drop_last(), 10, 0xffff) == Ok::<int, IntError>(0));
    assert(one.last() == '0');
    assert(number::digits_value(one, 10, 0xffff) == Ok::<int, IntError>(0));
    assert(two.last() == 'x');
    number::lemma_first_error_stays(s, 2, 10, 0xffff);
}

/// A known name in capitals stands for its code.
proof fn lemma_known_name(name: Seq<char>, code: u16)
    requires
        name.len() >= 1,
        !('0' <= name[0] && name[0] <= '9'),
        name[0] != '+',
        name[0] != 'F',
        forall|i: int| 0 <= i < name.len() ==> !('a' <= #[trigger] name[i] && name[i] <= 'z'),
        known_code(name) == Some(code),
    ensures
        button_code(name) == Ok::<u16, ButtonFault>(code),
{
    lemma_not_decimal(name);
    assert(text::ascii_upper(name) =~= name);
}

/// A function key's name stands for its code.
pub proof fn lemma_f_key_name(code: u16, n: nat)
    requires
        f_key_number(code) == Some(n),
    ensures
        button_code("F"@ + number::dec(n)) == Ok::<u16, ButtonFault>(code),
{
    reveal_strlit("F");
    let name = "F"@ + number::dec(n);
    lemma_written_is_digits(n);
    assert(name[0] == 'F');
    assert(name.drop_first() =~= number::dec(n));
    lemma_not_decimal(name);
    assert forall|i: int| 0 <= i < name.len() implies text::upper_char(#[trigger] name[i])
        == name[i] by {
        if i > 0 {
            assert(name[i] == number::dec(n)[i - 1]);
        }
    }
    assert(text::ascii_upper(name) =~= name);
    number::lemma_written_parses(n, 10, 0xffff);
}

/// The names with a code of their own, as `plain_name` shows them.
pub proof fn lemma_plain_names()
    ensures
        button_code("ESC"@) == Ok::<u16, ButtonFault>(1),
        button_code("PAUSE"@) == Ok::<u16, ButtonFault>(19),
        button_code("PRINT"@) == Ok::<u16, ButtonFault>(69),
        button_code("NUMLOCK"@) == Ok::<u16, ButtonFault>(69),
        button_code("SCROLLLOCK"@) == Ok::<u16, ButtonFault>(70),
        button_code("CAPSLOCK"@) == Ok::<u16, ButtonFault>(58),
        button_code("BTN_LEFT"@) == Ok::<u16, ButtonFault>(0x110),
        button_code("BTN_RIGHT"@) == Ok::<u16, ButtonFault>(0x111),
        button_code("BTN_MIDDLE"@) == Ok::<u16, ButtonFault>(0x112),
        button_code("BTN_SIDE"@) == Ok::<u16, ButtonFault>(0x113),
        button_code("BTN_EXTRA"@) == Ok::<u16, ButtonFault>(0x114),
        button_code("BTN_FORWARD"@) == Ok::<u16, ButtonFault>(0x115),
        button_code("BTN_BACK"@) == Ok::<u16, ButtonFault>(0x116),
        button_code("BTN_TASK"@) == Ok::<u16, ButtonFault>(0x117),
{
    reveal_strlit("ESC");
    reveal_strlit("PAUSE");
    reveal_strlit("PRINT");
    reveal_strlit("NUMLOCK");
    reveal_strlit("SCROLLLOCK");
    reveal_strlit("CAPSLOCK");
    reveal_strlit("BTN_LEFT");
    reveal_strlit("BTN_RIGHT");
    reveal_strlit("BTN_MIDDLE");
    reveal_strlit("BTN_SIDE");
    reveal_strlit("BTN_EXTRA");
    reveal_strlit("BTN_FORWARD");
    reveal_strlit("BTN_BACK");
    reveal_strlit("BTN_TASK");
    lemma_known_name("ESC"@, 1);
    lemma_known_name("PAUSE"@, 19);
    lemma_known_name("PRINT"@, 69);
    lemma_known_name("NUMLOCK"@, 69);
    lemma_known_name("SCROLLLOCK"@, 70);
    lemma_known_name("CAPSLOCK"@, 58);
    assert("BTN_LEFT"@[0] == 'B' && "BTN_LEFT"@[4] == 'L');
    assert("BTN_SIDE"@[0] == 'B' && "BTN_SIDE"@[4] == 'S');
    assert("BTN_BACK"@[0] == 'B' && "BTN_BACK"@[4] == 'B');
    assert("BTN_TASK"@[0] == 'B' && "BTN_TASK"@[4] == 'T');
    assert("BTN_RIGHT"@[4] == 'R' && "BTN_EXTRA"@[4] == 'E');
    assert("CAPSLOCK"@[0] == 'C');
    lemma_known_name("BTN_LEFT"@, 0x110);
    lemma_known_name("BTN_RIGHT"@, 0x111);
    lemma_known_name("BTN_MIDDLE"@, 0x112);
    lemma_known_name("BTN_SIDE"@, 0x113);
    lemma_known_name("BTN_EXTRA"@, 0x114);
    lemma_known_name("BTN_FORWARD"@, 0x115);
    lemma_known_name("BTN_BACK"@, 0x116);
    lemma_known_name("BTN_TASK"@, 0x117);
}

/// What `key_name` shows for a key, the user can give for it. The one name
/// that is no button is that of code 69, which stands for two keys.
pub proof fn law_shown_name_is_a_button(code: u16)
    requires
        code != 69,
    ensures
        button_code(key_text(code)) == Ok::<u16, ButtonFault>(code),
{
    match f_key_number(code) {
        Some(n) => {
            lemma_f_key_name(code, n);
        },
        None => {
            lemma_plain_names();
            law_decimal_button(code);
        },
    }
}

/// The function keys and their codes belong together one to one.
pub proof fn law_f_keys_one_to_one(n: nat)
    requires
        1 <= n <= 24,
    ensures
        f_key_code(n as int) matches Some(code) && f_key_number(code) == Some(n),
{
}

} // verus!
