//! The live tail: key events of the dongle's nodes as they come.
use crate::keys::EV_KEY;
use crate::number;
use crate::probe::names;
use crate::text;
use vstd::prelude::*;

verus! {

/// What is said before events are watched.
pub open spec fn head_text(nodes: Seq<Seq<char>>) -> Seq<char> {
    if nodes.len() == 0 {
        "\n== live EV_KEY tail ==\n"@
            + "  no openable dongle evdev nodes — nothing to watch (fix the openability problem from the verdict above first)\n"@
    } else {
        "\n== live EV_KEY tail ==\n"@ + "  watching: "@ + text::joined(nodes, ", "@)
            + "\n  press the sniper button now (and the other buttons, to compare). Ctrl-C to stop.\n"@
    }
}

pub fn head(nodes: &Vec<String>) -> (r: String)
    ensures
        r@ == head_text(text::texts(nodes@)),
{
    let mut out = "\n== live EV_KEY tail ==\n".to_owned();
    if nodes.len() == 0 {
        out.append(
            "  no openable dongle evdev nodes — nothing to watch (fix the openability problem from the verdict above first)\n",
        );
    } else {
        out.append("  watching: ");
        out.append(text::join(nodes, ", ").as_str());
        out.append(
            "\n  press the sniper button now (and the other buttons, to compare). Ctrl-C to stop.\n",
        );
    }
    out
}

/// Only key events are shown.
pub fn is_shown(event_type: u16) -> (r: bool)
    ensures
        r == (event_type == EV_KEY),
{
    event_type == EV_KEY
}

/// What a value says of a key.
pub open spec fn verb_text(value: i32) -> Option<Seq<char>> {
    if value == 1 {
        Some("press  "@)
    } else if value == 0 {
        Some("release"@)
    } else if value == 2 {
        Some("repeat "@)
    } else {
        None
    }
}

pub open spec fn unexpected_text(value: i32) -> Seq<char> {
    "  unexpected EV_KEY value "@ + number::dec_int(value as int)
}

/// `  t+  1.250s  event6    press    SCROLLLOCK (70/0x46)`.
pub open spec fn event_text(
    stamp: Seq<char>,
    node: Seq<char>,
    verb: Seq<char>,
    code: u16,
) -> Seq<char> {
    "  t+"@ + stamp + "s  "@ + text::padded(text::without_prefix(node, "/dev/input/"@), 8) + "  "@
        + verb + "  "@ + names::key_text(code) + " ("@ + number::dec(code as nat) + "/0x"@
        + number::hex(code as nat) + ")"@
}

fn verb(value: i32) -> (r: Option<&'static str>)
    ensures
        match r {
            Some(v) => verb_text(value) == Some(v@),
            None => verb_text(value) is None,
        },
{
    match value {
        1 => Some("press  "),
        0 => Some("release"),
        2 => Some("repeat "),
        _ => None,
    }
}

/// The line of a key event, or the warning where its value says nothing.
/// `stamp` is the time in seconds as it is to be shown.
pub fn event_line(stamp: &str, node: &str, code: u16, value: i32) -> (r: Result<String, String>)
    ensures
        match verb_text(value) {
            Some(verb) => match r {
                Ok(line) => line@ == event_text(stamp@, node@, verb, code),
                Err(_) => false,
            },
            None => match r {
                Ok(_) => false,
                Err(warning) => warning@ == unexpected_text(value),
            },
        },
{
    match verb(value) {
        None => {
            let mut out = "  unexpected EV_KEY value ".to_owned();
            out.append(number::to_dec_int(value).as_str());
            Err(out)
        },
        Some(v) => {
            let label = text::trim_prefix(node, "/dev/input/");
            let mut out = "  t+".to_owned();
            out.append(stamp);
            out.append("s  ");
            out.append(text::pad_right(label.as_str(), 8).as_str());
            out.append("  ");
            out.append(v);
            out.append("  ");
            out.append(names::key_name(code).as_str());
            out.append(" (");
            out.append(number::to_dec(code as u64).as_str());
            out.append("/0x");
            out.append(number::to_hex(code as u64).as_str());
            out.append(")");
            Ok(out)
        },
    }
}

/// That a node cannot be watched.
pub fn open_failed_line(node: &str, error: &str) -> (r: String)
    ensures
        r@ == "  "@ + node@ + ": failed to open for tail: "@ + error@,
{
    let mut out = "  ".to_owned();
    out.append(node);
    out.append(": failed to open for tail: ");
    out.append(error);
    out
}

/// That a node has no more events to give.
pub fn read_failed_line(node: &str, error: &str) -> (r: String)
    ensures
        r@ == "  "@ + node@ + ": read error: "@ + error@,
{
    let mut out = "  ".to_owned();
    out.append(node);
    out.append(": read error: ");
    out.append(error);
    out
}

} // verus!
