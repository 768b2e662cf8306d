//! How the probe shows codes, answers and paths.
use crate::keys;
use crate::number;
use crate::text;
use vstd::prelude::*;

verus! {

pub open spec fn yn_text(b: bool) -> Seq<char> {
    if b {
        "ok"@
    } else {
        "NO"@
    }
}

pub fn yn(b: bool) -> (r: &'static str)
    ensures
        r@ == yn_text(b),
{
    if b {
        "ok"
    } else {
        "NO"
    }
}

// ---------------------------------------------------------------- paths
/// How many bytes a path may have to be shown in full.
pub const FULL_BYTES: usize = 88;

/// How many bytes are shown of a longer one.
pub const TAIL_BYTES: usize = 80;

/// The bytes of a text.
pub open spec fn bytes_of(p: Seq<char>) -> Seq<u8> {
    vstd::utf8::encode_utf8(p)
}

/// A long path can be cut where the tail begins: not inside a character.
pub open spec fn can_shorten(p: Seq<char>) -> bool {
    bytes_of(p).len() > FULL_BYTES ==> vstd::utf8::is_char_boundary(
        bytes_of(p),
        bytes_of(p).len() - TAIL_BYTES,
    )
}

/// A path, or the last bytes of a long one behind an ellipsis.
pub open spec fn shortened(p: Seq<char>) -> Seq<char> {
    let bytes = bytes_of(p);
    if bytes.len() <= FULL_BYTES {
        p
    } else {
        "…/"@ + vstd::utf8::decode_utf8(bytes.skip(bytes.len() - TAIL_BYTES))
    }
}

/// Cuts the front off a long path.
pub fn shorten(p: &str) -> (r: String)
    requires
        can_shorten(p@),
    ensures
        r@ == shortened(p@),
{
    let size: usize = p.as_bytes().len();
    if size <= FULL_BYTES {
        p.to_owned()
    } else {
        let (_, tail) = p.split_at(size - TAIL_BYTES);
        proof {
            vstd::utf8::encode_utf8_decode_utf8(tail@);
            assert(bytes_of(tail@) =~= bytes_of(p@).skip(size - TAIL_BYTES));
        }
        let mut out = "…/".to_owned();
        out.append(tail);
        out
    }
}

/// The bytes of the ellipsis and of what follows it.
proof fn lemma_ellipsis_bytes(tail: Seq<char>)
    ensures
        bytes_of("…/"@ + tail).len() == 4 + bytes_of(tail).len(),
        bytes_of("…/"@ + tail).skip(4) == bytes_of(tail),
{
    reveal_strlit("…/");
    let s = "…/"@ + tail;
    let rest = s.drop_first();
    assert(s[0] == '…' && rest[0] == '/');
    assert(rest.drop_first() =~= tail);
    assert(bytes_of(s) =~= vstd::utf8::encode_scalar('…' as u32) + bytes_of(rest));
    assert(bytes_of(rest) =~= vstd::utf8::encode_scalar('/' as u32) + bytes_of(tail));
    assert(vstd::utf8::encode_scalar('…' as u32).len() == 3);
    assert(vstd::utf8::encode_scalar('/' as u32).len() == 1);
    assert(bytes_of(s).skip(4) =~= bytes_of(tail));
}

/// What is shown of a path is never long, so it is shown in full if it is
/// shortened again; of a long path it ends with the last bytes.
pub proof fn law_shortened_is_short(p: Seq<char>)
    requires
        can_shorten(p),
    ensures
        bytes_of(shortened(p)).len() <= FULL_BYTES,
        can_shorten(shortened(p)),
        shortened(shortened(p)) == shortened(p),
        bytes_of(p).len() > FULL_BYTES ==> bytes_of(shortened(p)).len() == 4 + TAIL_BYTES,
        bytes_of(p).len() > FULL_BYTES ==> bytes_of(shortened(p)).skip(4) == bytes_of(p).skip(
            bytes_of(p).len() - TAIL_BYTES,
        ),
{
    let bytes = bytes_of(p);
    if bytes.len() > FULL_BYTES {
        let at = bytes.len() - TAIL_BYTES;
        let end = bytes.skip(at);
        vstd::utf8::encode_utf8_valid_utf8(p);
        vstd::utf8::valid_utf8_split(bytes, at);
        assert(end =~= bytes.subrange(at, bytes.len() as int));
        vstd::utf8::decode_utf8_encode_utf8(end);
        lemma_ellipsis_bytes(vstd::utf8::decode_utf8(end));
    }
}

/// On ASCII text bytes are characters: any path can be shortened, and of a
/// long one the last 80 characters are shown.
pub proof fn law_shorten_ascii(p: Seq<char>)
    requires
        text::is_ascii(p),
    ensures
        can_shorten(p),
        p.len() <= FULL_BYTES ==> shortened(p) == p,
        p.len() > FULL_BYTES ==> shortened(p) == "…/"@ + p.skip(p.len() - TAIL_BYTES),
{
    vstd::utf8::is_ascii_chars_encode_utf8(p);
    vstd::utf8::encode_utf8_valid_utf8(p);
    let bytes = bytes_of(p);
    if p.len() > FULL_BYTES {
        let at = bytes.len() - TAIL_BYTES;
        let tail = p.skip(at);
        assert(vstd::utf8::is_ascii_chars(tail)) by {
            assert forall|i: int| 0 <= i < tail.len() implies '\0' <= #[trigger] tail[i]
                <= '\u{7f}' by {
                assert(tail[i] == p[at + i]);
            }
        }
        vstd::utf8::is_ascii_chars_encode_utf8(tail);
        vstd::utf8::encode_utf8_decode_utf8(tail);
        assert(bytes_of(tail) =~= bytes.skip(at));
        vstd::utf8::is_char_boundary_iff_not_is_continuation_byte(bytes, at);
    }
}

// ---------------------------------------------------------------- event types
pub open spec fn ev_text(t: u16) -> Seq<char> {
    if t == 0 {
        "SYN"@
    } else if t == 1 {
        "KEY"@
    } else if t == 2 {
        "REL"@
    } else if t == 3 {
        "ABS"@
    } else if t == 4 {
        "MSC"@
    } else if t == 5 {
        "SW"@
    } else if t == 0x0e {
        "REP"@
    } else if t == 0x11 {
        "LED"@
    } else if t == 0x14 {
        "SND"@
    } else if t == 0x15 {
        "FF"@
    } else if t == 0x16 {
        "PWR"@
    } else {
        "??"@
    }
}

pub fn ev_name(t: u16) -> (r: &'static str)
    ensures
        r@ == ev_text(t),
{
    match t {
        0 => "SYN",
        1 => "KEY",
        2 => "REL",
        3 => "ABS",
        4 => "MSC",
        5 => "SW",
        0x0e => "REP",
        0x11 => "LED",
        0x14 => "SND",
        0x15 => "FF",
        0x16 => "PWR",
        _ => "??",
    }
}

pub open spec fn rel_text(c: u16) -> Seq<char> {
    if c == 0 {
        "X"@
    } else if c == 1 {
        "Y"@
    } else if c == 2 {
        "Z"@
    } else if c == 6 {
        "HWHEEL"@
    } else if c == 8 {
        "WHEEL"@
    } else {
        "REL"@ + number::dec(c as nat)
    }
}

pub fn rel_name(c: u16) -> (r: String)
    ensures
        r@ == rel_text(c),
{
    match c {
        0 => "X".to_owned(),
        1 => "Y".to_owned(),
        2 => "Z".to_owned(),
        6 => "HWHEEL".to_owned(),
        8 => "WHEEL".to_owned(),
        _ => {
            let mut out = "REL".to_owned();
            out.append(number::to_dec(c as u64).as_str());
            out
        },
    }
}

pub open spec fn abs_text(c: u16) -> Seq<char> {
    if c == 0 {
        "X"@
    } else if c == 1 {
        "Y"@
    } else if c == 2 {
        "Z"@
    } else if c == 11 {
        "HAT0X"@
    } else if c == 12 {
        "HAT0Y"@
    } else if c == 54 {
        "VOLUME"@
    } else {
        "ABS"@ + number::dec(c as nat)
    }
}

pub fn abs_name(c: u16) -> (r: String)
    ensures
        r@ == abs_text(c),
{
    match c {
        0 => "X".to_owned(),
        1 => "Y".to_owned(),
        2 => "Z".to_owned(),
        11 => "HAT0X".to_owned(),
        12 => "HAT0Y".to_owned(),
        54 => "VOLUME".to_owned(),
        _ => {
            let mut out = "ABS".to_owned();
            out.append(number::to_dec(c as u64).as_str());
            out
        },
    }
}

// ---------------------------------------------------------------- keys
/// The names of the keys that are neither function keys nor shown by code.
pub open spec fn plain_name(code: u16) -> Option<Seq<char>> {
    if code == 1 {
        Some("ESC"@)
    } else if code == 19 {
        Some("PAUSE"@)
    } else if code == 57 {
        Some("SPACE"@)
    } else if code == 58 {
        Some("CAPSLOCK"@)
    } else if code == 69 {
        Some("NUMLOCK"@)
    } else if code == 70 {
        Some("SCROLLLOCK"@)
    } else if code == 0x110 {
        Some("BTN_LEFT"@)
    } else if code == 0x111 {
        Some("BTN_RIGHT"@)
    } else if code == 0x112 {
        Some("BTN_MIDDLE"@)
    } else if code == 0x113 {
        Some("BTN_SIDE"@)
    } else if code == 0x114 {
        Some("BTN_EXTRA"@)
    } else if code == 0x115 {
        Some("BTN_FORWARD"@)
    } else if code == 0x116 {
        Some("BTN_BACK"@)
    } else if code == 0x117 {
        Some("BTN_TASK"@)
    } else {
        None
    }
}

/// What the probe's `key_name` shows for a code.
pub open spec fn key_text(code: u16) -> Seq<char> {
    match keys::f_key_number(code) {
        Some(n) => "F"@ + number::dec(n),
        None => match plain_name(code) {
            Some(name) => name,
            None => number::dec(code as nat),
        },
    }
}

pub fn key_name(code: u16) -> (r: String)
    ensures
        r@ == key_text(code),
{
    match keys::find_f_number(code) {
        Some(n) => {
            let mut out = "F".to_owned();
            out.append(number::to_dec(n as u64).as_str());
            return out;
        },
        None => {},
    }
    match code {
        1 => "ESC".to_owned(),
        19 => "PAUSE".to_owned(),
        57 => "SPACE".to_owned(),
        58 => "CAPSLOCK".to_owned(),
        69 => "NUMLOCK".to_owned(),
        70 => "SCROLLLOCK".to_owned(),
        0x110 => "BTN_LEFT".to_owned(),
        0x111 => "BTN_RIGHT".to_owned(),
        0x112 => "BTN_MIDDLE".to_owned(),
        0x113 => "BTN_SIDE".to_owned(),
        0x114 => "BTN_EXTRA".to_owned(),
        0x115 => "BTN_FORWARD".to_owned(),
        0x116 => "BTN_BACK".to_owned(),
        0x117 => "BTN_TASK".to_owned(),
        _ => number::to_dec(code as u64),
    }
}

/// What the probe shows for a key, the user can give for it, to the probe and
/// to the daemon. Only the space bar's name is no button.
pub proof fn law_shown_name_is_a_button(code: u16)
    requires
        code != 57,
    ensures
        keys::button_code(key_text(code)) == Ok::<u16, keys::ButtonFault>(code),
{
    match keys::f_key_number(code) {
        Some(n) => {
            keys::lemma_f_key_name(code, n);
        },
        None => {
            keys::lemma_plain_names();
            keys::law_decimal_button(code);
        },
    }
}

// ---------------------------------------------------------------- key lists
/// `SCROLLLOCK(70)`.
pub open spec fn key_label(code: u16) -> Seq<char> {
    key_text(code) + "("@ + number::dec(code as nat) + ")"@
}

pub open spec fn key_labels(codes: Seq<u16>) -> Seq<Seq<char>> {
    Seq::new(codes.len(), |i: int| key_label(codes[i]))
}

/// The keys of a node, or that it has none.
pub open spec fn keys_text(codes: Seq<u16>) -> Seq<char> {
    if codes.len() == 0 {
        "(none)"@
    } else {
        text::joined(key_labels(codes), " "@)
    }
}

pub fn show_keys(codes: &Vec<u16>) -> (r: String)
    ensures
        r@ == keys_text(codes@),
{
    if codes.len() == 0 {
        return "(none)".to_owned();
    }
    let mut labels: Vec<String> = Vec::new();
    for i in 0..codes.len()
        invariant
            labels@.len() == i,
            forall|j: int| 0 <= j < i ==> (#[trigger] labels@[j])@ == key_label(codes@[j]),
    {
        let mut label = key_name(codes[i]);
        label.append("(");
        label.append(number::to_dec(codes[i] as u64).as_str());
        label.append(")");
        labels.push(label);
    }
    assert(text::texts(labels@) =~= key_labels(codes@));
    text::join(&labels, " ")
}

} // verus!
