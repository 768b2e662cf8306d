//! Whether the daemon will start, and if not, what to do about it.
use crate::number;
use crate::probe::env::Env;
use crate::probe::hidraw;
use crate::probe::hidraw::HidrawNode;
use crate::probe::input;
use crate::probe::input::{InputNode, Want};
use crate::probe::names;
use crate::text;
use vstd::prelude::*;

verus! {

/// There is one node for commands, and it can be written to.
pub open spec fn vendor_ok(vendors: Seq<HidrawNode>) -> bool {
    vendors.len() == 1 && vendors[0].rw_open
}

/// The node that the daemon will grab and the one that it will send commands
/// to, where nothing is in its way.
pub open spec fn promised(
    rows: Seq<InputNode>,
    hidraw_rows: Seq<HidrawNode>,
    button: u16,
) -> Option<(Seq<char>, Seq<char>)> {
    let vendors = hidraw_rows.filter(hidraw::taking_commands());
    let carriers = rows.filter(input::meeting(Want::Key(button)));
    if vendor_ok(vendors) && carriers.len() == 1 {
        Some((carriers[0].path@, vendors[0].path@))
    } else {
        None
    }
}

// ---------------------------------------------------------------- the lines
pub open spec fn title(button: u16) -> Seq<char> {
    "\n== verdict for: wl-sniper --button "@ + number::dec(button as nat)
        + " --sniper-stage <A> --normal-stage <B> ==\n"@
}

pub open spec fn vendor_line(vendors: Seq<HidrawNode>) -> Seq<char> {
    if vendors.len() == 0 {
        "  ✗ no 36A7 vendor command interface (usage_page 0xffff/usage 0) — is the dongle connected? (lsusb | grep -i 36a7)\n"@
    } else if vendors.len() == 1 {
        if vendors[0].rw_open {
            "  ✓ vendor command iface: "@ + vendors[0].path@ + " (read+write openable)\n"@
        } else {
            "  ✗ vendor iface "@ + vendors[0].path@
                + " found but NOT read+write openable — udev rule / input-group issue\n"@
        }
    } else {
        "  ✗ "@ + number::dec(vendors.len()) + " vendor ifaces ("@ + text::joined(
            hidraw::node_paths(vendors),
            ", "@,
        ) + ") — multiple dongles? wl-sniper requires exactly one\n"@
    }
}

pub open spec fn count_line(dongles: nat, openable: nat, paths: Seq<Seq<char>>) -> Seq<char> {
    "  dongle evdev nodes: "@ + number::dec(dongles) + " ("@ + number::dec(openable)
        + " openable by you): "@ + text::joined(paths, ", "@) + "\n"@
}

pub open spec fn advice_line(openable: nat, euid: u32, user: Seq<char>) -> Seq<char> {
    if openable == 0 && euid != 0 {
        "  ✗ none openable → 'sudo usermod -aG input "@ + user
            + "' then a FULL re-login (or test once with sudo)\n"@
    } else {
        ""@
    }
}

/// The keys of one node.
pub open spec fn keys_line(node: InputNode) -> Seq<char> {
    "      "@ + node.spec_label() + ": "@ + names::keys_text(node.keys@) + "\n"@
}

/// That no node has the key, and which keys there are instead.
pub open spec fn no_key_lines(openable: Seq<InputNode>, button: u16) -> Seq<char>
    decreases openable.len(),
{
    if openable.len() == 0 {
        "  ✗ no openable dongle node advertises key "@ + number::dec(button as nat) + " ("@
            + names::key_text(button)
            + ") — in the gm.wlmouse.gg web UI, is the mouse button bound to "@ + names::key_text(
            button,
        ) + " in KEY mode?\n    keys advertised by the dongle's openable nodes:\n"@
    } else {
        no_key_lines(openable.drop_last(), button) + keys_line(openable.last())
    }
}

pub open spec fn start_line(node: Seq<char>, vendor: Seq<char>) -> Seq<char> {
    "  ✓ wl-sniper should start: it will grab "@ + node + " and switch stages over "@ + vendor
        + ".\n"@
}

pub open spec fn almost_line(node: Seq<char>) -> Seq<char> {
    "  ~ button node "@ + node
        + " is fine, but the vendor iface problem above must be fixed first\n"@
}

pub open spec fn ambiguous_line(carriers: Seq<InputNode>, button: u16) -> Seq<char> {
    "  ✗ "@ + number::dec(carriers.len()) + " dongle nodes advertise key "@ + number::dec(
        button as nat,
    ) + " ("@ + text::joined(input::paths_of(carriers), ", "@)
        + ") — ambiguous, wl-sniper will refuse: "@ + names::key_text(button) + "\n"@
}

/// The conclusion, where the dongle has nodes.
pub open spec fn conclusion(
    rows: Seq<InputNode>,
    hidraw_rows: Seq<HidrawNode>,
    button: u16,
) -> Seq<char> {
    let openable = rows.filter(input::meeting(Want::Openable));
    let carriers = rows.filter(input::meeting(Want::Key(button)));
    match promised(rows, hidraw_rows, button) {
        Some((node, vendor)) => start_line(node, vendor),
        None => if carriers.len() == 0 {
            no_key_lines(openable, button)
                + "    → run again with the right key: wl-probe <KEY>\n"@
        } else if carriers.len() == 1 {
            almost_line(carriers[0].path@)
        } else {
            ambiguous_line(carriers, button)
        },
    }
}

pub open spec fn node_lines(
    env: Env,
    rows: Seq<InputNode>,
    dongle_paths: Seq<Seq<char>>,
    hidraw_rows: Seq<HidrawNode>,
    button: u16,
) -> Seq<char> {
    let dongles = rows.filter(input::meeting(Want::Dongle)).len();
    let openable = rows.filter(input::meeting(Want::Openable)).len();
    if dongles == 0 {
        "  ✗ no dongle evdev nodes found in sysfs at all — dongle disconnected, or kernel hid-parsing issue\n"@
    } else {
        count_line(dongles, openable, dongle_paths) + advice_line(openable, env.euid, env.user@)
            + conclusion(rows, hidraw_rows, button)
    }
}

pub open spec fn verdict_text(
    env: Env,
    rows: Seq<InputNode>,
    dongle_paths: Seq<Seq<char>>,
    hidraw_rows: Seq<HidrawNode>,
    button: u16,
) -> Seq<char> {
    title(button) + vendor_line(hidraw_rows.filter(hidraw::taking_commands())) + node_lines(
        env,
        rows,
        dongle_paths,
        hidraw_rows,
        button,
    )
}

// ---------------------------------------------------------------- writing them
fn show_vendor(rows: &Vec<HidrawNode>, places: &Vec<usize>) -> (r: String)
    requires
        forall|i: int| 0 <= i < places@.len() ==> (#[trigger] places@[i]) < rows@.len(),
    ensures
        r@ == vendor_line(hidraw::nodes_at(rows@, places@)),
{
    if places.len() == 0 {
        "  ✗ no 36A7 vendor command interface (usage_page 0xffff/usage 0) — is the dongle connected? (lsusb | grep -i 36a7)\n".to_owned()
    } else if places.len() == 1 {
        let v = &rows[places[0]];
        if v.rw_open {
            let mut out = "  ✓ vendor command iface: ".to_owned();
            out.append(v.path.as_str());
            out.append(" (read+write openable)\n");
            out
        } else {
            let mut out = "  ✗ vendor iface ".to_owned();
            out.append(v.path.as_str());
            out.append(" found but NOT read+write openable — udev rule / input-group issue\n");
            out
        }
    } else {
        let mut out = "  ✗ ".to_owned();
        out.append(number::to_dec(places.len() as u64).as_str());
        out.append(" vendor ifaces (");
        out.append(text::join(&hidraw::paths_at(rows, places), ", ").as_str());
        out.append(") — multiple dongles? wl-sniper requires exactly one\n");
        out
    }
}

fn show_count(dongles: usize, openable: usize, paths: &Vec<String>) -> (r: String)
    ensures
        r@ == count_line(dongles as nat, openable as nat, text::texts(paths@)),
{
    let mut out = "  dongle evdev nodes: ".to_owned();
    out.append(number::to_dec(dongles as u64).as_str());
    out.append(" (");
    out.append(number::to_dec(openable as u64).as_str());
    out.append(" openable by you): ");
    out.append(text::join(paths, ", ").as_str());
    out.append("\n");
    out
}

fn show_advice(openable: usize, env: &Env) -> (r: String)
    ensures
        r@ == advice_line(openable as nat, env.euid, env.user@),
{
    if openable == 0 && env.euid != 0 {
        let mut out = "  ✗ none openable → 'sudo usermod -aG input ".to_owned();
        out.append(env.user.as_str());
        out.append("' then a FULL re-login (or test once with sudo)\n");
        out
    } else {
        "".to_owned()
    }
}

fn show_no_key(rows: &Vec<InputNode>, openable: &Vec<usize>, button: u16) -> (r: String)
    requires
        forall|i: int| 0 <= i < openable@.len() ==> (#[trigger] openable@[i]) < rows@.len(),
    ensures
        r@ == no_key_lines(input::nodes_at(rows@, openable@), button),
{
    let ghost nodes = input::nodes_at(rows@, openable@);
    let mut out = "  ✗ no openable dongle node advertises key ".to_owned();
    out.append(number::to_dec(button as u64).as_str());
    out.append(" (");
    out.append(names::key_name(button).as_str());
    out.append(") — in the gm.wlmouse.gg web UI, is the mouse button bound to ");
    out.append(names::key_name(button).as_str());
    out.append(" in KEY mode?\n    keys advertised by the dongle's openable nodes:\n");
    for i in 0..openable.len()
        invariant
            nodes == input::nodes_at(rows@, openable@),
            forall|j: int| 0 <= j < openable@.len() ==> (#[trigger] openable@[j]) < rows@.len(),
            out@ == no_key_lines(nodes.take(i as int), button),
    {
        let node = &rows[openable[i]];
        assert(nodes.take(i + 1).drop_last() =~= nodes.take(i as int));
        assert(nodes.take(i + 1).last() == *node);
        let mut line = "      ".to_owned();
        line.append(node.label().as_str());
        line.append(": ");
        line.append(names::show_keys(&node.keys).as_str());
        line.append("\n");
        out.append(line.as_str());
    }
    assert(nodes.take(nodes.len() as int) =~= nodes);
    out
}

fn show_ambiguous(rows: &Vec<InputNode>, carriers: &Vec<usize>, button: u16) -> (r: String)
    requires
        forall|i: int| 0 <= i < carriers@.len() ==> (#[trigger] carriers@[i]) < rows@.len(),
    ensures
        r@ == ambiguous_line(input::nodes_at(rows@, carriers@), button),
{
    let mut out = "  ✗ ".to_owned();
    out.append(number::to_dec(carriers.len() as u64).as_str());
    out.append(" dongle nodes advertise key ");
    out.append(number::to_dec(button as u64).as_str());
    out.append(" (");
    out.append(text::join(&input::paths_at(rows, carriers), ", ").as_str());
    out.append(") — ambiguous, wl-sniper will refuse: ");
    out.append(names::key_name(button).as_str());
    out.append("\n");
    out
}

fn show_conclusion(
    rows: &Vec<InputNode>,
    openable: &Vec<usize>,
    hidraw_rows: &Vec<HidrawNode>,
    vendors: &Vec<usize>,
    button: u16,
) -> (r: String)
    requires
        forall|i: int| 0 <= i < openable@.len() ==> (#[trigger] openable@[i]) < rows@.len(),
        forall|i: int| 0 <= i < vendors@.len() ==> (#[trigger] vendors@[i]) < hidraw_rows@.len(),
        input::nodes_at(rows@, openable@) == rows@.filter(input::meeting(Want::Openable)),
        hidraw::nodes_at(hidraw_rows@, vendors@) == hidraw_rows@.filter(hidraw::taking_commands()),
    ensures
        r@ == conclusion(rows@, hidraw_rows@, button),
{
    let ghost found = hidraw::nodes_at(hidraw_rows@, vendors@);
    let carriers = input::find_nodes(rows, Want::Key(button));
    let ghost carrying = input::nodes_at(rows@, carriers@);
    assert(found.len() == vendors@.len());
    assert(carrying.len() == carriers@.len());
    if carriers.len() == 0 {
        let mut out = show_no_key(rows, openable, button);
        out.append("    → run again with the right key: wl-probe <KEY>\n");
        out
    } else if carriers.len() == 1 {
        let node = &rows[carriers[0]];
        assert(carrying[0] == *node);
        if vendors.len() == 1 && hidraw_rows[vendors[0]].rw_open {
            assert(found[0] == hidraw_rows@[vendors@[0] as int]);
            let mut out = "  ✓ wl-sniper should start: it will grab ".to_owned();
            out.append(node.path.as_str());
            out.append(" and switch stages over ");
            out.append(hidraw_rows[vendors[0]].path.as_str());
            out.append(".\n");
            out
        } else {
            let mut out = "  ~ button node ".to_owned();
            out.append(node.path.as_str());
            out.append(" is fine, but the vendor iface problem above must be fixed first\n");
            out
        }
    } else {
        show_ambiguous(rows, &carriers, button)
    }
}

/// The last section: the state of the node for commands, the event nodes,
/// and whether the daemon will start.
pub fn verdict(
    env: &Env,
    rows: &Vec<InputNode>,
    dongle_paths: &Vec<String>,
    hidraw_rows: &Vec<HidrawNode>,
    button: u16,
) -> (r: String)
    ensures
        r@ == verdict_text(*env, rows@, text::texts(dongle_paths@), hidraw_rows@, button),
{
    let vendors = hidraw::find_vendor(hidraw_rows);
    let dongles = input::find_nodes(rows, Want::Dongle);
    let openable = input::find_nodes(rows, Want::Openable);
    assert(input::nodes_at(rows@, dongles@).len() == dongles@.len());
    assert(input::nodes_at(rows@, openable@).len() == openable@.len());
    let lines = if dongles.len() == 0 {
        "  ✗ no dongle evdev nodes found in sysfs at all — dongle disconnected, or kernel hid-parsing issue\n".to_owned()
    } else {
        let mut lines = show_count(dongles.len(), openable.len(), dongle_paths);
        lines.append(show_advice(openable.len(), env).as_str());
        lines.append(
            show_conclusion(rows, &openable, hidraw_rows, &vendors, button).as_str(),
        );
        lines
    };
    let mut out = "\n== verdict for: wl-sniper --button ".to_owned();
    out.append(number::to_dec(button as u64).as_str());
    out.append(" --sniper-stage <A> --normal-stage <B> ==\n");
    out.append(show_vendor(hidraw_rows, &vendors).as_str());
    out.append(lines.as_str());
    out
}

} // verus!
