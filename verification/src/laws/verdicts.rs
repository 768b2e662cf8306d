//! What the probe's verdict says, by the nodes that it was given.
use crate::filter;
use crate::laws::paths;
use crate::number;
use crate::probe::env::Env;
use crate::probe::hidraw;
use crate::probe::hidraw::HidrawNode;
use crate::probe::input;
use crate::probe::input::{InputNode, Want};
use crate::probe::names;
use crate::probe::verdict;
use crate::text;
use vstd::prelude::*;

verus! {

/// A node of a WLmouse dongle that takes commands.
pub open spec fn is_command_node(node: HidrawNode) -> bool {
    node.vid == 0x36A7 && node.usages@.contains((0xFFFFu16, 0u16))
}

/// A node of a WLmouse dongle.
pub open spec fn is_dongle_node(node: InputNode) -> bool {
    node.vidpid matches Some(m) && m@.len() >= 4 && m@[0] == '3' && m@[1] == '6' && m@[2] == 'a'
        && m@[3] == '7'
}

/// A node of a WLmouse dongle that could be opened and has the key.
pub open spec fn is_carrier(node: InputNode, button: u16) -> bool {
    is_dongle_node(node) && node.open_err is None && node.keys@.contains(button)
}

/// Which nodes are counted: those of the dongle, those of them that could be
/// opened, and those of these that have the key.
pub proof fn law_which_nodes_count(node: InputNode, button: u16)
    ensures
        node.spec_is_dongle() <==> is_dongle_node(node),
        input::wanted(node, Want::Dongle) <==> is_dongle_node(node),
        input::wanted(node, Want::Openable) <==> is_dongle_node(node) && node.open_err is None,
        input::wanted(node, Want::Key(button)) <==> is_carrier(node, button),
        input::meeting(Want::Dongle)(node) <==> is_dongle_node(node),
        input::meeting(Want::Openable)(node) <==> is_dongle_node(node) && node.open_err is None,
        input::meeting(Want::Key(button))(node) <==> is_carrier(node, button),
{
    reveal_strlit("36a7");
    paths::law_vendor_id_in_paths();
    if let Some(m) = node.vidpid {
        let vid = "36a7"@;
        if is_dongle_node(node) {
            assert(m@.subrange(0, 4) =~= vid);
        }
        if vid.is_prefix_of(m@) {
            assert(m@.subrange(0, 4) == vid);
            assert(m@.subrange(0, 4)[0] == m@[0]);
            assert(m@.subrange(0, 4)[1] == m@[1]);
            assert(m@.subrange(0, 4)[2] == m@[2]);
            assert(m@.subrange(0, 4)[3] == m@[3]);
        }
    }
}

/// Which nodes commands can go to.
pub proof fn law_which_nodes_take_commands(node: HidrawNode)
    ensures
        node.spec_is_vendor() <==> is_command_node(node),
        node.spec_is_ours() <==> node.vid == 0x36A7,
        hidraw::taking_commands()(node) <==> is_command_node(node),
{
}

/// How many nodes are counted grows by one with each that counts.
pub proof fn law_counting_nodes(rows: Seq<InputNode>, node: InputNode, button: u16)
    ensures
        rows.push(node).filter(input::meeting(Want::Dongle)).len() == rows.filter(
            input::meeting(Want::Dongle),
        ).len() + (if is_dongle_node(node) {
            1int
        } else {
            0int
        }),
        rows.push(node).filter(input::meeting(Want::Openable)).len() == rows.filter(
            input::meeting(Want::Openable),
        ).len() + (if is_dongle_node(node) && node.open_err is None {
            1int
        } else {
            0int
        }),
        rows.push(node).filter(input::meeting(Want::Key(button))).len() == rows.filter(
            input::meeting(Want::Key(button)),
        ).len() + (if is_carrier(node, button) {
            1int
        } else {
            0int
        }),
{
    reveal(Seq::filter);
    law_which_nodes_count(node, button);
    assert(rows.push(node).drop_last() =~= rows);
}

/// A promise is about the only node that carries the key, and the only node
/// that takes commands, which can be written to.
pub proof fn law_promise_is_about_the_only_nodes(
    rows: Seq<InputNode>,
    hidraw_rows: Seq<HidrawNode>,
    button: u16,
) -> (r: (int, int))
    requires
        verdict::promised(rows, hidraw_rows, button) is Some,
    ensures
        0 <= r.0 < rows.len(),
        0 <= r.1 < hidraw_rows.len(),
        verdict::promised(rows, hidraw_rows, button) == Some(
            (rows[r.0].path@, hidraw_rows[r.1].path@),
        ),
        is_carrier(rows[r.0], button),
        is_command_node(hidraw_rows[r.1]),
        hidraw_rows[r.1].rw_open,
        forall|j: int| 0 <= j < rows.len() && j != r.0 ==> !is_carrier(#[trigger] rows[j], button),
        forall|j: int|
            0 <= j < hidraw_rows.len() && j != r.1 ==> !is_command_node(#[trigger] hidraw_rows[j]),
{
    let i = filter::lemma_one_in_filter(rows, input::meeting(Want::Key(button)));
    let k = filter::lemma_one_in_filter(hidraw_rows, hidraw::taking_commands());
    law_which_nodes_count(rows[i], button);
    law_which_nodes_take_commands(hidraw_rows[k]);
    assert forall|j: int| 0 <= j < rows.len() && j != i implies !is_carrier(
        #[trigger] rows[j],
        button,
    ) by {
        law_which_nodes_count(rows[j], button);
    }
    assert forall|j: int| 0 <= j < hidraw_rows.len() && j != k implies !is_command_node(
        #[trigger] hidraw_rows[j],
    ) by {
        law_which_nodes_take_commands(hidraw_rows[j]);
    }
    (i, k)
}

/// Where there is one such node each, the promise is made, of these two.
pub proof fn law_promise_is_made(
    rows: Seq<InputNode>,
    hidraw_rows: Seq<HidrawNode>,
    button: u16,
    i: int,
    k: int,
)
    requires
        0 <= i < rows.len(),
        0 <= k < hidraw_rows.len(),
        is_carrier(rows[i], button),
        is_command_node(hidraw_rows[k]),
        forall|j: int| 0 <= j < rows.len() && j != i ==> !is_carrier(#[trigger] rows[j], button),
        forall|j: int|
            0 <= j < hidraw_rows.len() && j != k ==> !is_command_node(#[trigger] hidraw_rows[j]),
    ensures
        hidraw_rows[k].rw_open ==> verdict::promised(rows, hidraw_rows, button) == Some(
            (rows[i].path@, hidraw_rows[k].path@),
        ),
        !hidraw_rows[k].rw_open ==> verdict::promised(rows, hidraw_rows, button) is None,
        rows.filter(input::meeting(Want::Key(button))) == seq![rows[i]],
        hidraw_rows.filter(hidraw::taking_commands()) == seq![hidraw_rows[k]],
{
    law_which_nodes_count(rows[i], button);
    law_which_nodes_take_commands(hidraw_rows[k]);
    assert forall|j: int| 0 <= j < rows.len() && j != i implies !input::meeting(Want::Key(button))(
        #[trigger] rows[j],
    ) by {
        law_which_nodes_count(rows[j], button);
    }
    assert forall|j: int| 0 <= j < hidraw_rows.len() && j != k implies !hidraw::taking_commands()(
        #[trigger] hidraw_rows[j],
    ) by {
        law_which_nodes_take_commands(hidraw_rows[j]);
    }
    filter::lemma_filter_of_one(rows, input::meeting(Want::Key(button)), i);
    filter::lemma_filter_of_one(hidraw_rows, hidraw::taking_commands(), k);
}

proof fn lemma_has_dongle(rows: Seq<InputNode>, button: u16, i: int)
    requires
        0 <= i < rows.len(),
        is_dongle_node(rows[i]),
    ensures
        rows.filter(input::meeting(Want::Dongle)).len() > 0,
{
    law_which_nodes_count(rows[i], button);
    rows.lemma_filter_contains(input::meeting(Want::Dongle), i);
}

proof fn lemma_start_line(node: Seq<char>, vendor: Seq<char>)
    ensures
        text::contains_text(
            verdict::start_line(node, vendor),
            "it will grab "@ + node + " and switch stages over "@ + vendor,
        ),
{
    reveal_strlit("it will grab ");
    reveal_strlit("  ✓ wl-sniper should start: it will grab ");
    reveal_strlit("  ✓ wl-sniper should start: ");
    let head = "  ✓ wl-sniper should start: "@;
    let grab = "it will grab "@;
    let over = " and switch stages over "@;
    assert("  ✓ wl-sniper should start: it will grab "@ =~= head + grab);
    let said = grab + node + over + vendor;
    lemma_grouped(head, grab, node, over, vendor);
    text::lemma_whole_in_itself(said);
    text::lemma_part_in_whole(head, said, said);
    text::lemma_part_in_whole(head + said, ".\n"@, said);
}

proof fn lemma_grouped(
    a: Seq<char>,
    b: Seq<char>,
    c: Seq<char>,
    d: Seq<char>,
    e: Seq<char>,
)
    ensures
        a + b + c + d + e == a + (b + c + d + e),
{
}

/// What is promised is what the verdict says: the node that it says will be
/// grabbed, and the node that it says commands will go to, are those of the
/// promise.
pub proof fn law_verdict_names_what_is_promised(
    env: Env,
    rows: Seq<InputNode>,
    dongle_paths: Seq<Seq<char>>,
    hidraw_rows: Seq<HidrawNode>,
    button: u16,
    node: Seq<char>,
    vendor: Seq<char>,
)
    requires
        verdict::promised(rows, hidraw_rows, button) == Some((node, vendor)),
    ensures
        text::contains_text(
            verdict::verdict_text(env, rows, dongle_paths, hidraw_rows, button),
            "it will grab "@ + node + " and switch stages over "@ + vendor,
        ),
        text::contains_text(
            verdict::conclusion(rows, hidraw_rows, button),
            "it will grab "@ + node + " and switch stages over "@ + vendor,
        ),
{
    broadcast use text::lemma_part_in_whole;

    let (i, k) = law_promise_is_about_the_only_nodes(rows, hidraw_rows, button);
    lemma_has_dongle(rows, button, i);
    lemma_start_line(node, vendor);
}

/// So where one openable node of the dongle has the key, and one node takes
/// commands and can be written to, the verdict says that these two will be
/// used, and no other: the node that it names has the key.
pub proof fn law_verdict_names_the_carrier(
    env: Env,
    rows: Seq<InputNode>,
    dongle_paths: Seq<Seq<char>>,
    hidraw_rows: Seq<HidrawNode>,
    button: u16,
    i: int,
    k: int,
)
    requires
        0 <= i < rows.len(),
        0 <= k < hidraw_rows.len(),
        is_carrier(rows[i], button),
        is_command_node(hidraw_rows[k]),
        hidraw_rows[k].rw_open,
        forall|j: int| 0 <= j < rows.len() && j != i ==> !is_carrier(#[trigger] rows[j], button),
        forall|j: int|
            0 <= j < hidraw_rows.len() && j != k ==> !is_command_node(#[trigger] hidraw_rows[j]),
    ensures
        text::contains_text(
            verdict::verdict_text(env, rows, dongle_paths, hidraw_rows, button),
            "it will grab "@ + rows[i].path@ + " and switch stages over "@ + hidraw_rows[k].path@,
        ),
        verdict::conclusion(rows, hidraw_rows, button)
            == "  ✓ wl-sniper should start: it will grab "@ + rows[i].path@
            + " and switch stages over "@ + hidraw_rows[k].path@ + ".\n"@,
{
    law_promise_is_made(rows, hidraw_rows, button, i, k);
    law_verdict_names_what_is_promised(
        env,
        rows,
        dongle_paths,
        hidraw_rows,
        button,
        rows[i].path@,
        hidraw_rows[k].path@,
    );
}

/// Where one node has the key and nothing can be written to, the verdict names
/// the node and promises nothing.
pub proof fn law_verdict_without_commands(
    rows: Seq<InputNode>,
    hidraw_rows: Seq<HidrawNode>,
    button: u16,
    i: int,
)
    requires
        0 <= i < rows.len(),
        is_carrier(rows[i], button),
        forall|j: int| 0 <= j < rows.len() && j != i ==> !is_carrier(#[trigger] rows[j], button),
        verdict::promised(rows, hidraw_rows, button) is None,
    ensures
        verdict::conclusion(rows, hidraw_rows, button) == "  ~ button node "@ + rows[i].path@
            + " is fine, but the vendor iface problem above must be fixed first\n"@,
{
    law_which_nodes_count(rows[i], button);
    assert forall|j: int| 0 <= j < rows.len() && j != i implies !input::meeting(Want::Key(button))(
        #[trigger] rows[j],
    ) by {
        law_which_nodes_count(rows[j], button);
    }
    filter::lemma_filter_of_one(rows, input::meeting(Want::Key(button)), i);
}

proof fn lemma_two_in_filter<A>(s: Seq<A>, p: spec_fn(A) -> bool, i: int, j: int)
    requires
        0 <= i < j < s.len(),
        p(s[i]),
        p(s[j]),
    ensures
        s.filter(p).len() >= 2,
    decreases s.len(),
{
    reveal(Seq::filter);
    let front = s.drop_last();
    if j < front.len() {
        lemma_two_in_filter(front, p, i, j);
    } else {
        front.lemma_filter_contains(p, i);
        assert(front[i] == s[i]);
        assert(front.filter(p).len() >= 1);
    }
}

/// Where two nodes have the key, the verdict names both, and promises nothing.
pub proof fn law_verdict_on_two_carriers(
    rows: Seq<InputNode>,
    hidraw_rows: Seq<HidrawNode>,
    button: u16,
    i: int,
    j: int,
)
    requires
        0 <= i < j < rows.len(),
        is_carrier(rows[i], button),
        is_carrier(rows[j], button),
    ensures
        verdict::promised(rows, hidraw_rows, button) is None,
        text::contains_text(verdict::conclusion(rows, hidraw_rows, button), rows[i].path@),
        text::contains_text(verdict::conclusion(rows, hidraw_rows, button), rows[j].path@),
        text::contains_text(
            verdict::conclusion(rows, hidraw_rows, button),
            "ambiguous, wl-sniper will refuse: "@,
        ),
{
    law_which_nodes_count(rows[i], button);
    law_which_nodes_count(rows[j], button);
    let p = input::meeting(Want::Key(button));
    lemma_two_in_filter(rows, p, i, j);
    lemma_named_carrier(rows, button, i);
    lemma_named_carrier(rows, button, j);
    reveal_strlit(") — ambiguous, wl-sniper will refuse: ");
    reveal_strlit(") — ");
    reveal_strlit("ambiguous, wl-sniper will refuse: ");
    let carriers = rows.filter(p);
    let said = "ambiguous, wl-sniper will refuse: "@;
    assert(") — ambiguous, wl-sniper will refuse: "@ =~= ") — "@ + said);
    text::lemma_whole_in_itself(said);
    text::lemma_part_in_whole(") — "@, said, said);
    let list = text::joined(input::paths_of(carriers), ", "@);
    let head = "  ✗ "@ + number::dec(carriers.len()) + " dongle nodes advertise key "@
        + number::dec(button as nat) + " ("@ + list;
    text::lemma_part_in_whole(head, ") — ambiguous, wl-sniper will refuse: "@, said);
    let more = head + ") — ambiguous, wl-sniper will refuse: "@;
    text::lemma_part_in_whole(more, names::key_text(button), said);
    text::lemma_part_in_whole(more + names::key_text(button), "\n"@, said);
}

proof fn lemma_named_carrier(rows: Seq<InputNode>, button: u16, i: int)
    requires
        0 <= i < rows.len(),
        is_carrier(rows[i], button),
    ensures
        text::contains_text(
            verdict::ambiguous_line(rows.filter(input::meeting(Want::Key(button))), button),
            rows[i].path@,
        ),
{
    let p = input::meeting(Want::Key(button));
    let carriers = rows.filter(p);
    law_which_nodes_count(rows[i], button);
    rows.lemma_filter_contains(p, i);
    let k = choose|k: int| 0 <= k < carriers.len() && carriers[k] == rows[i];
    let all = input::paths_of(carriers);
    let path = rows[i].path@;
    let list = text::joined(all, ", "@);
    assert(all[k] == path);
    text::lemma_part_in_joined(all, ", "@, k);
    let head = "  ✗ "@ + number::dec(carriers.len()) + " dongle nodes advertise key "@
        + number::dec(button as nat) + " ("@;
    text::lemma_part_in_whole(head, list, path);
    text::lemma_part_in_whole(head + list, ") — ambiguous, wl-sniper will refuse: "@, path);
    let more = head + list + ") — ambiguous, wl-sniper will refuse: "@;
    text::lemma_part_in_whole(more, names::key_text(button), path);
    text::lemma_part_in_whole(more + names::key_text(button), "\n"@, path);
}

proof fn lemma_none_in_filter(rows: Seq<InputNode>, button: u16)
    requires
        forall|j: int| 0 <= j < rows.len() ==> !is_carrier(#[trigger] rows[j], button),
    ensures
        rows.filter(input::meeting(Want::Key(button))).len() == 0,
    decreases rows.len(),
{
    reveal(Seq::filter);
    if rows.len() > 0 {
        let front = rows.drop_last();
        assert forall|j: int| 0 <= j < front.len() implies !is_carrier(
            #[trigger] front[j],
            button,
        ) by {
            assert(front[j] == rows[j]);
        }
        lemma_none_in_filter(front, button);
        law_which_nodes_count(rows[rows.len() - 1], button);
        assert(!is_carrier(rows[rows.len() - 1], button));
    }
}

proof fn lemma_keys_listed(openable: Seq<InputNode>, button: u16, k: int)
    requires
        0 <= k < openable.len(),
    ensures
        text::contains_text(
            verdict::no_key_lines(openable, button),
            verdict::keys_line(openable[k]),
        ),
    decreases openable.len(),
{
    let front = openable.drop_last();
    let line = verdict::keys_line(openable[k]);
    text::lemma_whole_in_itself(line);
    if k < front.len() {
        lemma_keys_listed(front, button, k);
    }
    text::lemma_part_in_whole(
        verdict::no_key_lines(front, button),
        verdict::keys_line(openable.last()),
        line,
    );
}

/// Where no node has the key, the verdict promises nothing, and lists the keys
/// of every openable node of the dongle.
pub proof fn law_verdict_without_the_key(
    rows: Seq<InputNode>,
    hidraw_rows: Seq<HidrawNode>,
    button: u16,
    i: int,
)
    requires
        forall|j: int| 0 <= j < rows.len() ==> !is_carrier(#[trigger] rows[j], button),
        0 <= i < rows.len(),
        is_dongle_node(rows[i]),
        rows[i].open_err is None,
    ensures
        verdict::promised(rows, hidraw_rows, button) is None,
        text::contains_text(
            verdict::conclusion(rows, hidraw_rows, button),
            "      "@ + text::without_prefix(rows[i].path@, "/dev/input/"@) + ": "@
                + names::keys_text(rows[i].keys@) + "\n"@,
        ),
{
    lemma_none_in_filter(rows, button);
    law_which_nodes_count(rows[i], button);
    let p = input::meeting(Want::Openable);
    let openable = rows.filter(p);
    rows.lemma_filter_contains(p, i);
    let k = choose|k: int| 0 <= k < openable.len() && openable[k] == rows[i];
    lemma_keys_listed(openable, button, k);
    text::lemma_part_in_whole(
        verdict::no_key_lines(openable, button),
        "    → run again with the right key: wl-probe <KEY>\n"@,
        verdict::keys_line(rows[i]),
    );
}

/// The tick stands in front of the conclusion exactly if something is
/// promised.
pub proof fn law_tick_means_promise(
    rows: Seq<InputNode>,
    hidraw_rows: Seq<HidrawNode>,
    button: u16,
)
    ensures
        verdict::conclusion(rows, hidraw_rows, button).len() > 2,
        verdict::conclusion(rows, hidraw_rows, button)[2] == '✓' <==> verdict::promised(
            rows,
            hidraw_rows,
            button,
        ) is Some,
{
    reveal_strlit("  ✓ wl-sniper should start: it will grab ");
    reveal_strlit("  ~ button node ");
    reveal_strlit("  ✗ ");
    lemma_no_key_begins(rows.filter(input::meeting(Want::Openable)), button);
}

proof fn lemma_no_key_begins(openable: Seq<InputNode>, button: u16)
    ensures
        verdict::no_key_lines(openable, button).len() > 2,
        verdict::no_key_lines(openable, button)[2] == '✗',
    decreases openable.len(),
{
    reveal_strlit("  ✗ no openable dongle node advertises key ");
    if openable.len() > 0 {
        lemma_no_key_begins(openable.drop_last(), button);
    }
}

/// The line on the node for commands: a tick and its path exactly if there is
/// one and it can be written to.
pub proof fn law_line_on_commands(vendors: Seq<HidrawNode>)
    ensures
        verdict::vendor_ok(vendors) <==> vendors.len() == 1 && vendors[0].rw_open,
        verdict::vendor_line(vendors).len() > 2,
        verdict::vendor_line(vendors)[2] == '✓' <==> vendors.len() == 1 && vendors[0].rw_open,
        vendors.len() == 1 ==> text::contains_text(
            verdict::vendor_line(vendors),
            vendors[0].path@,
        ),
        vendors.len() > 1 ==> text::contains_text(
            verdict::vendor_line(vendors),
            number::dec(vendors.len()),
        ),
        vendors.len() > 1 ==> forall|i: int|
            0 <= i < vendors.len() ==> text::contains_text(
                verdict::vendor_line(vendors),
                (#[trigger] vendors[i]).path@,
            ),
{
    broadcast use text::lemma_part_in_whole;

    reveal_strlit(
        "  ✗ no 36A7 vendor command interface (usage_page 0xffff/usage 0) — is the dongle connected? (lsusb | grep -i 36a7)\n",
    );
    reveal_strlit("  ✓ vendor command iface: ");
    reveal_strlit("  ✗ vendor iface ");
    reveal_strlit("  ✗ ");
    text::lemma_whole_in_itself(number::dec(vendors.len()));
    if vendors.len() == 1 {
        text::lemma_whole_in_itself(vendors[0].path@);
    }
    if vendors.len() > 1 {
        assert forall|i: int| 0 <= i < vendors.len() implies text::contains_text(
            verdict::vendor_line(vendors),
            (#[trigger] vendors[i]).path@,
        ) by {
            assert(hidraw::node_paths(vendors)[i] == vendors[i].path@);
            text::lemma_part_in_joined(hidraw::node_paths(vendors), ", "@, i);
        }
    }
}

/// The verdict begins with the button that was asked for, and goes on with the
/// line on the node for commands.
pub proof fn law_verdict_begins_with_the_button(
    env: Env,
    rows: Seq<InputNode>,
    dongle_paths: Seq<Seq<char>>,
    hidraw_rows: Seq<HidrawNode>,
    button: u16,
)
    ensures
        ({
            let v = verdict::verdict_text(env, rows, dongle_paths, hidraw_rows, button);
            let head = "\n== verdict for: wl-sniper --button "@ + number::dec(button as nat)
                + " --sniper-stage <A> --normal-stage <B> ==\n"@;
            &&& head.is_prefix_of(v)
            &&& text::contains_text(
                v,
                verdict::vendor_line(hidraw_rows.filter(hidraw::taking_commands())),
            )
        }),
{
    broadcast use text::lemma_part_in_whole;

    let v = verdict::verdict_text(env, rows, dongle_paths, hidraw_rows, button);
    let head = "\n== verdict for: wl-sniper --button "@ + number::dec(button as nat)
        + " --sniper-stage <A> --normal-stage <B> ==\n"@;
    assert(v.subrange(0, head.len() as int) =~= head);
    text::lemma_whole_in_itself(
        verdict::vendor_line(hidraw_rows.filter(hidraw::taking_commands())),
    );
}

/// The lines on the nodes: that there are none; or how many there are, how
/// many can be opened, and their paths; and who cannot open any is told of the
/// group, by name, unless it is root.
pub proof fn law_lines_on_nodes(
    env: Env,
    rows: Seq<InputNode>,
    dongle_paths: Seq<Seq<char>>,
    hidraw_rows: Seq<HidrawNode>,
    button: u16,
)
    ensures
        ({
            let lines = verdict::node_lines(env, rows, dongle_paths, hidraw_rows, button);
            let dongles = rows.filter(input::meeting(Want::Dongle)).len();
            let openable = rows.filter(input::meeting(Want::Openable)).len();
            let count = "  dongle evdev nodes: "@ + number::dec(dongles) + " ("@ + number::dec(
                openable,
            ) + " openable by you): "@ + text::joined(dongle_paths, ", "@) + "\n"@;
            let end = verdict::conclusion(rows, hidraw_rows, button);
            &&& dongles == 0 ==> lines
                == "  ✗ no dongle evdev nodes found in sysfs at all — dongle disconnected, or kernel hid-parsing issue\n"@
            &&& dongles > 0 && openable == 0 && env.euid != 0 ==> lines == count
                + ("  ✗ none openable → 'sudo usermod -aG input "@ + env.user@
                + "' then a FULL re-login (or test once with sudo)\n"@) + end
            &&& dongles > 0 && (openable > 0 || env.euid == 0) ==> lines == count + ""@ + end
        }),
{
}

/// Where no node has the key, the conclusion lists the keys of the openable
/// nodes, one line each, and says what to do.
pub proof fn law_list_of_other_keys(
    rows: Seq<InputNode>,
    hidraw_rows: Seq<HidrawNode>,
    button: u16,
    openable: Seq<InputNode>,
    node: InputNode,
)
    ensures
        (forall|j: int| 0 <= j < rows.len() ==> !is_carrier(#[trigger] rows[j], button))
            ==> verdict::conclusion(rows, hidraw_rows, button) == verdict::no_key_lines(
            rows.filter(input::meeting(Want::Openable)),
            button,
        ) + "    → run again with the right key: wl-probe <KEY>\n"@,
        verdict::no_key_lines(Seq::empty(), button)
            == "  ✗ no openable dongle node advertises key "@ + number::dec(button as nat) + " ("@
            + names::key_text(button)
            + ") — in the gm.wlmouse.gg web UI, is the mouse button bound to "@ + names::key_text(
            button,
        ) + " in KEY mode?\n    keys advertised by the dongle's openable nodes:\n"@,
        verdict::no_key_lines(openable.push(node), button) == verdict::no_key_lines(
            openable,
            button,
        ) + ("      "@ + text::without_prefix(node.path@, "/dev/input/"@) + ": "@
            + names::keys_text(node.keys@) + "\n"@),
{
    assert(openable.push(node).drop_last() =~= openable);
    if forall|j: int| 0 <= j < rows.len() ==> !is_carrier(#[trigger] rows[j], button) {
        lemma_none_in_filter(rows, button);
    }
}

/// Where several nodes have the key, the conclusion counts them and names them
/// all.
pub proof fn law_conclusion_on_several(
    rows: Seq<InputNode>,
    hidraw_rows: Seq<HidrawNode>,
    button: u16,
)
    requires
        rows.filter(input::meeting(Want::Key(button))).len() > 1,
    ensures
        ({
            let carriers = rows.filter(input::meeting(Want::Key(button)));
            &&& verdict::conclusion(rows, hidraw_rows, button) == "  ✗ "@ + number::dec(
                carriers.len(),
            ) + " dongle nodes advertise key "@ + number::dec(button as nat) + " ("@ + text::joined(
                input::paths_of(carriers),
                ", "@,
            ) + ") — ambiguous, wl-sniper will refuse: "@ + names::key_text(button) + "\n"@
            &&& input::paths_of(carriers).len() == carriers.len()
            &&& forall|i: int|
                0 <= i < carriers.len() ==> input::paths_of(carriers)[i] == (
                #[trigger] carriers[i]).path@
        }),
{
}

/// The line on the node for commands, word by word.
pub proof fn law_line_on_commands_word_by_word(vendors: Seq<HidrawNode>)
    ensures
        vendors.len() == 0 ==> verdict::vendor_line(vendors)
            == "  ✗ no 36A7 vendor command interface (usage_page 0xffff/usage 0) — is the dongle connected? (lsusb | grep -i 36a7)\n"@,
        vendors.len() == 1 && vendors[0].rw_open ==> verdict::vendor_line(vendors)
            == "  ✓ vendor command iface: "@ + vendors[0].path@ + " (read+write openable)\n"@,
        vendors.len() == 1 && !vendors[0].rw_open ==> verdict::vendor_line(vendors)
            == "  ✗ vendor iface "@ + vendors[0].path@
            + " found but NOT read+write openable — udev rule / input-group issue\n"@,
        vendors.len() > 1 ==> verdict::vendor_line(vendors) == "  ✗ "@ + number::dec(vendors.len())
            + " vendor ifaces ("@ + text::joined(hidraw::node_paths(vendors), ", "@)
            + ") — multiple dongles? wl-sniper requires exactly one\n"@,
{
}

} // verus!
