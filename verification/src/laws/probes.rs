//! What the probe reads and shows.
use crate::filter;
use crate::keys;
use crate::keys::ButtonFault;
use crate::laws::verdicts;
use crate::number;
use crate::order;
use crate::probe::args;
use crate::probe::args::ProbeArgs;
use crate::probe::env;
use crate::probe::env::{Env, Ids};
use crate::probe::hidraw;
use crate::probe::hidraw::{HidrawInfo, HidrawNode};
use crate::probe::input;
use crate::probe::input::InputNode;
use crate::probe::names;
use crate::probe::tail;
use crate::split;
use crate::text;
use crate::usb;
use vstd::prelude::*;

verus! {

// ---------------------------------------------------------------- command line
pub open spec fn asks_help(arg: Seq<char>) -> bool {
    arg == "-h"@ || arg == "--help"@
}

pub open spec fn asks_tail(arg: Seq<char>) -> bool {
    arg == "--tail"@
}

/// Help and the tail are asked for exactly by their words, anywhere.
pub proof fn law_flags_anywhere(words: Seq<Seq<char>>, a: ProbeArgs)
    requires
        args::asked(words) == Ok::<ProbeArgs, (ButtonFault, Seq<char>)>(a),
    ensures
        a.help <==> exists|i: int| 0 <= i < words.len() && asks_help(#[trigger] words[i]),
        a.tail <==> exists|i: int| 0 <= i < words.len() && asks_tail(#[trigger] words[i]),
        (forall|i: int|
            0 <= i < words.len() ==> asks_help(#[trigger] words[i]) || asks_tail(words[i]))
            ==> a.button == 70,
    decreases words.len(),
{
    reveal_strlit("-h");
    reveal_strlit("--help");
    reveal_strlit("--tail");
    if words.len() > 0 {
        let front = words.drop_last();
        let before = args::asked(front)->Ok_0;
        law_flags_anywhere(front, before);
        assert forall|i: int| 0 <= i < front.len() implies front[i] == #[trigger] words[i] by {}
        let last = words.len() - 1;
        assert("--tail"@[2] == 't' && "--help"@[2] == 'h' && "-h"@.len() == 2);
        if before.help {
            let i = choose|i: int| 0 <= i < front.len() && asks_help(#[trigger] front[i]);
            assert(asks_help(words[i]));
        }
        if before.tail {
            let i = choose|i: int| 0 <= i < front.len() && asks_tail(#[trigger] front[i]);
            assert(asks_tail(words[i]));
        }
        if asks_help(words[last]) {
            assert(a.help);
        }
        if exists|i: int| 0 <= i < words.len() && asks_help(#[trigger] words[i]) {
            let i = choose|i: int| 0 <= i < words.len() && asks_help(#[trigger] words[i]);
            if i < last {
                assert(asks_help(front[i]));
            }
        }
        if exists|i: int| 0 <= i < words.len() && asks_tail(#[trigger] words[i]) {
            let i = choose|i: int| 0 <= i < words.len() && asks_tail(#[trigger] words[i]);
            if i < last {
                assert(asks_tail(front[i]));
            }
        }
        if forall|i: int|
            0 <= i < words.len() ==> asks_help(#[trigger] words[i]) || asks_tail(words[i]) {
            assert forall|i: int| 0 <= i < front.len() implies asks_help(#[trigger] front[i])
                || asks_tail(front[i]) by {
                assert(front[i] == words[i]);
            }
            assert(asks_help(words[last]) || asks_tail(words[last]));
        }
    }
}

/// The button is the last one that was named: flags behind it change nothing.
pub proof fn law_last_button_counts(words: Seq<Seq<char>>, k: int, button: u16, a: ProbeArgs)
    requires
        args::asked(words) == Ok::<ProbeArgs, (ButtonFault, Seq<char>)>(a),
        0 <= k < words.len(),
        !asks_help(words[k]) && !asks_tail(words[k]),
        keys::button_code(words[k]) == Ok::<u16, ButtonFault>(button),
        forall|i: int|
            k < i < words.len() ==> asks_help(#[trigger] words[i]) || asks_tail(words[i]),
    ensures
        a.button == button,
    decreases words.len(),
{
    let last = words.len() - 1;
    if k < last {
        let front = words.drop_last();
        assert(asks_help(words[last]) || asks_tail(words[last]));
        law_last_button_counts(front, k, button, args::asked(front)->Ok_0);
    }
}

/// The reading fails exactly if some word is neither a flag nor a button, and
/// then with the first such word and what is wrong with it.
pub proof fn law_first_bad_word_counts(words: Seq<Seq<char>>, k: int, fault: ButtonFault)
    requires
        0 <= k < words.len(),
        !asks_help(words[k]) && !asks_tail(words[k]),
        keys::button_code(words[k]) == Err::<u16, ButtonFault>(fault),
        forall|i: int|
            0 <= i < k ==> asks_help(#[trigger] words[i]) || asks_tail(words[i])
                || keys::button_code(words[i]) is Ok,
    ensures
        args::asked(words) == Err::<ProbeArgs, (ButtonFault, Seq<char>)>((fault, words[k])),
    decreases words.len(),
{
    let front = words.drop_last();
    if k < words.len() - 1 {
        law_first_bad_word_counts(front, k, fault);
    } else {
        law_good_words_are_read(front);
    }
}

/// Flags and buttons alone are always read.
pub proof fn law_good_words_are_read(words: Seq<Seq<char>>)
    requires
        forall|i: int|
            0 <= i < words.len() ==> asks_help(#[trigger] words[i]) || asks_tail(words[i])
                || keys::button_code(words[i]) is Ok,
    ensures
        args::asked(words) is Ok,
    decreases words.len(),
{
    if words.len() > 0 {
        let front = words.drop_last();
        assert forall|i: int| 0 <= i < front.len() implies asks_help(#[trigger] front[i])
            || asks_tail(front[i]) || keys::button_code(front[i]) is Ok by {
            assert(front[i] == words[i]);
        }
        law_good_words_are_read(front);
        let last = words[words.len() - 1];
        assert(asks_help(last) || asks_tail(last) || keys::button_code(last) is Ok);
    }
}

// ---------------------------------------------------------------- the user
/// Words that are numbers are read, in order; others are passed over.
pub proof fn law_numbers_among_words(words: Seq<Seq<char>>, word: Seq<char>)
    ensures
        env::numbers(Seq::empty()) == Seq::<u32>::empty(),
        number::parsed(word, 10, 4294967295) matches Ok(v) ==> env::numbers(words.push(word))
            == env::numbers(words).push(v as u32),
        number::parsed(word, 10, 4294967295) is Err ==> env::numbers(words.push(word))
            == env::numbers(words),
{
    assert(words.push(word).drop_last() =~= words);
}

/// The line with the user has the user first and the effective user second;
/// the line with the groups has all of them; others say nothing.
pub proof fn law_lines_of_the_status(ids: Ids, rest: Seq<char>, other: Seq<char>)
    requires
        !"Uid:"@.is_prefix_of(other),
        !"Supplementary groups:"@.is_prefix_of(other),
    ensures
        ({
            let n = env::numbers(split::words_of(rest));
            let users = env::with_line(ids, "Uid:"@ + rest);
            let groups = env::with_line(ids, "Supplementary groups:"@ + rest);
            &&& n.len() >= 2 ==> users.uid == n[0] && users.euid == n[1]
            &&& n.len() < 2 ==> users.uid == ids.uid && users.euid == ids.euid
            &&& users.gids == ids.gids
            &&& groups.uid == ids.uid && groups.euid == ids.euid
            &&& groups.gids == n
        }),
        env::with_line(ids, other) == ids,
        env::ids_in(Seq::empty()).uid == 0 && env::ids_in(Seq::empty()).euid == 0,
        env::ids_in(Seq::empty()).gids.len() == 0,
{
    reveal_strlit("Uid:");
    reveal_strlit("Supplementary groups:");
    let u = "Uid:"@ + rest;
    let g = "Supplementary groups:"@ + rest;
    assert("Uid:"@.is_prefix_of(u));
    assert(u.skip(4) =~= rest);
    assert("Supplementary groups:"@.is_prefix_of(g));
    assert(g.skip("Supplementary groups:"@.len() as int) =~= rest);
    assert(!"Uid:"@.is_prefix_of(g)) by {
        assert(g[0] == 'S');
        assert("Uid:"@[0] == 'U');
    }
}

/// Lines are taken in one after the other.
pub proof fn law_one_more_status_line(lines: Seq<Seq<char>>, line: Seq<char>)
    ensures
        env::ids_in(lines.push(line)) == env::with_line(env::ids_in(lines), line),
        env::groups_in(lines.push(line)) == env::with_group(env::groups_in(lines), line),
        env::groups_in(Seq::empty()) == Map::<u32, Seq<char>>::empty(),
{
    assert(lines.push(line).drop_last() =~= lines);
}

/// A line of the group file with four fields or more gives its name to the
/// number in the fourth; where that is no number, or there are fewer fields,
/// the line says nothing.
pub proof fn law_lines_of_the_group_file(
    table: Map<u32, Seq<char>>,
    name: Seq<char>,
    a: Seq<char>,
    b: Seq<char>,
    d: Seq<char>,
    rest: Seq<char>,
    other: Seq<char>,
)
    requires
        !name.contains(':'),
        !a.contains(':'),
        !b.contains(':'),
        !d.contains(':'),
        split::split_on(other, ':').len() < 4,
    ensures
        ({
            let four = name.push(':') + a.push(':') + b.push(':') + d;
            let more = four.push(':') + rest;
            &&& number::parsed(d, 10, 4294967295) matches Ok(g) ==> env::with_group(table, four)
                == table.insert(g as u32, name) && env::with_group(table, more) == table.insert(
                g as u32,
                name,
            )
            &&& number::parsed(d, 10, 4294967295) is Err ==> env::with_group(table, four) == table
                && env::with_group(table, more) == table
        }),
        env::with_group(table, other) == table,
{
    let four = name.push(':') + a.push(':') + b.push(':') + d;
    let more = four.push(':') + rest;
    assert(four =~= (((name.push(':') + a).push(':') + b).push(':') + d));
    split::lemma_split_single(name, ':');
    split::lemma_split_append(name, ':', a);
    split::lemma_split_append(name.push(':') + a, ':', b);
    split::lemma_split_append((name.push(':') + a).push(':') + b, ':', d);
    let fields = split::split_on(four, ':');
    assert(fields =~= seq![name, a, b, d]);
    split::lemma_split_concat(four, ':', rest);
    split::lemma_split_not_empty(rest, ':');
    let all = split::split_on(more, ':');
    assert(all[0] == name && all[3] == d);
}

/// A group is shown by its name, or by its number.
pub proof fn law_names_of_groups(table: Map<u32, Seq<char>>, gids: Seq<u32>, i: int)
    requires
        0 <= i < gids.len(),
    ensures
        env::group_texts(table, gids).len() == gids.len(),
        table.dom().contains(gids[i]) ==> env::group_texts(table, gids)[i] == table[gids[i]],
        !table.dom().contains(gids[i]) ==> env::group_texts(table, gids)[i] == "gid"@ + number::dec(
            gids[i] as nat,
        ),
{
}

/// The user's name: the first variable, then the second, then nothing known.
pub proof fn law_name_of_the_user(a: String, other: Option<String>)
    ensures
        env::user_text(Some(a), other) == a@,
        env::user_text(None, Some(a)) == a@,
        env::user_text(None, None) == "?"@,
{
}

/// Nodes can be opened by root, and by members of `input`: by no one else.
pub proof fn law_who_can_open(e: Env)
    ensures
        e.spec_can_open() <==> e.euid == 0 || exists|i: int|
            0 <= i < e.groups@.len() && (#[trigger] e.groups@[i])@ == "input"@,
{
    let all = text::texts(e.groups@);
    if all.contains("input"@) {
        let i = choose|i: int| 0 <= i < all.len() && all[i] == "input"@;
        assert(e.groups@[i]@ == "input"@);
    }
    if exists|i: int| 0 <= i < e.groups@.len() && (#[trigger] e.groups@[i])@ == "input"@ {
        let i = choose|i: int| 0 <= i < e.groups@.len() && (#[trigger] e.groups@[i])@ == "input"@;
        assert(all[i] == "input"@);
    }
}

/// The section on the user names the user, both ids and every group, and ends
/// with YES exactly if the nodes can be opened.
pub proof fn law_section_on_the_user(e: Env)
    ensures
        ({
            let r = e.spec_report();
            let head = "\n== whoami / permissions ==\n  user: "@ + e.user@ + "  uid: "@
                + number::dec(e.uid as nat) + "  euid: "@ + number::dec(e.euid as nat)
                + "\n  groups: "@ + text::joined(text::texts(e.groups@), " "@);
            &&& (e.euid == 0 || text::texts(e.groups@).contains("input"@)) ==> r == head
                + "\n  input group: YES (evdev + hidraw nodes should be openable)\n"@
            &&& !(e.euid == 0 || text::texts(e.groups@).contains("input"@)) ==> r == head
                + "\n  input group: NO — wl-sniper will not be able to open /dev/input/* or /dev/hidraw*\n"@
        }),
{
}

// ---------------------------------------------------------------- names
/// The names of event types.
pub proof fn law_names_of_types(t: u16)
    ensures
        names::ev_text(0) == "SYN"@ && names::ev_text(1) == "KEY"@ && names::ev_text(2) == "REL"@,
        names::ev_text(3) == "ABS"@ && names::ev_text(4) == "MSC"@ && names::ev_text(5) == "SW"@,
        names::ev_text(0x0e) == "REP"@ && names::ev_text(0x11) == "LED"@,
        names::ev_text(0x14) == "SND"@ && names::ev_text(0x15) == "FF"@,
        names::ev_text(0x16) == "PWR"@,
        !(t <= 5 || t == 0x0e || t == 0x11 || t == 0x14 || t == 0x15 || t == 0x16)
            ==> names::ev_text(t) == "??"@,
{
}

/// The names of axes; an axis without a name has its number.
pub proof fn law_names_of_axes(c: u16)
    ensures
        names::rel_text(0) == "X"@ && names::rel_text(1) == "Y"@ && names::rel_text(2) == "Z"@,
        names::rel_text(6) == "HWHEEL"@ && names::rel_text(8) == "WHEEL"@,
        !(c <= 2 || c == 6 || c == 8) ==> names::rel_text(c) == "REL"@ + number::dec(c as nat),
        names::abs_text(0) == "X"@ && names::abs_text(1) == "Y"@ && names::abs_text(2) == "Z"@,
        names::abs_text(11) == "HAT0X"@ && names::abs_text(12) == "HAT0Y"@,
        names::abs_text(54) == "VOLUME"@,
        !(c <= 2 || c == 11 || c == 12 || c == 54) ==> names::abs_text(c) == "ABS"@ + number::dec(
            c as nat,
        ),
        names::yn_text(true) == "ok"@,
        names::yn_text(false) == "NO"@,
{
}

/// The keys of a node: name and code of each, in order.
pub proof fn law_list_of_keys(codes: Seq<u16>, c: u16)
    ensures
        names::keys_text(Seq::empty()) == "(none)"@,
        codes.len() == 0 ==> names::keys_text(codes.push(c)) == names::key_text(c) + "("@
            + number::dec(c as nat) + ")"@,
        codes.len() > 0 ==> names::keys_text(codes.push(c)) == names::keys_text(codes) + " "@ + (
        names::key_text(c) + "("@ + number::dec(c as nat) + ")"@),
{
    let all = names::key_labels(codes.push(c));
    assert(all.drop_last() =~= names::key_labels(codes));
}

/// A path of at most 88 bytes is shown in full; of a longer one the last 80
/// bytes are shown.
pub proof fn law_how_paths_are_shown(p: Seq<char>)
    requires
        names::can_shorten(p),
    ensures
        names::bytes_of(p).len() <= 88 ==> names::shortened(p) == p,
        names::bytes_of(p).len() > 88 ==> names::bytes_of(names::shortened(p)).len() == 84
            && names::bytes_of(names::shortened(p)).skip(4) == names::bytes_of(p).skip(
            names::bytes_of(p).len() - 80,
        ) && names::shortened(p)[0] == '…' && names::shortened(p)[1] == '/',
{
    names::law_shortened_is_short(p);
    reveal_strlit("…/");
}

// ---------------------------------------------------------------- event nodes
/// The event nodes are those named `event` and a number, and no others.
pub proof fn law_numbers_of_nodes(rest: Seq<char>, other: Seq<char>)
    requires
        !"event"@.is_prefix_of(other),
    ensures
        number::parsed(rest, 10, 4294967295) matches Ok(n) ==> input::event_number("event"@ + rest)
            == Some(n as u32),
        number::parsed(rest, 10, 4294967295) is Err ==> input::event_number("event"@ + rest)
            is None,
        input::event_number(other) is None,
{
    reveal_strlit("event");
    let name = "event"@ + rest;
    assert("event"@.is_prefix_of(name));
    assert(name.skip(5) =~= rest);
}

/// Every such name is listed, with its path.
pub proof fn law_one_more_name(list: Seq<Seq<char>>, name: Seq<char>)
    ensures
        input::event_paths(Seq::empty()).len() == 0,
        input::event_number(name) is None ==> input::event_paths(list.push(name))
            == input::event_paths(list),
        input::event_number(name) matches Some(n) ==> input::event_paths(list.push(name))
            == input::event_paths(list).push((n, "/dev/input/"@ + name)),
{
    assert(list.push(name).drop_last() =~= list);
}

/// The first line of a node: its name, whether it was opened or why not,
/// whether it is the dongle's, whether it is grabbed, whether it has the key,
/// and what it is.
pub proof fn law_first_line_of_a_node(node: InputNode, button: u16)
    ensures
        ({
            let label = text::padded(text::without_prefix(node.path@, "/dev/input/"@), 8);
            let tag = if verdicts::is_dongle_node(node) {
                " [36A7 dongle]"@
            } else {
                ""@
            };
            let grabbed = if node.grabbed {
                "grabbed"@
            } else {
                ""@
            };
            let has = if node.keys@.contains(button) {
                "  advertises "@ + names::key_text(button) + " ("@ + number::dec(button as nat)
                    + ")"@
            } else {
                ""@
            };
            let ids = match node.vidpid {
                Some(m) => "  hid: "@ + m@,
                None => ""@,
            };
            &&& node.open_err is None ==> input::first_line(node, button) == "  "@ + label + " ok"@
                + tag + grabbed + has + ids
            &&& node.open_err matches Some(e) ==> input::first_line(node, button) == "  "@ + label
                + " OPEN FAILED ("@ + e@ + ")"@ + tag + ids
        }),
{
    verdicts::law_which_nodes_count(node, button);
}

/// The lines of a node begin with the first one and have everything that is
/// known of it; of one that could not be opened there is only its path.
pub proof fn law_lines_of_a_node(node: InputNode, button: u16)
    ensures
        ({
            let r = input::node_report(node, button);
            &&& input::first_line(node, button).is_prefix_of(r)
            &&& node.sysfs matches Some(s) ==> text::contains_text(r, names::shortened(s@))
            &&& node.open_err is None ==> text::contains_text(r, names::keys_text(node.keys@))
            &&& node.open_err is None ==> (node.name matches Some(n) ==> text::contains_text(
                r,
                n@,
            ))
            &&& node.open_err is None ==> forall|i: int|
                0 <= i < node.ev@.len() ==> text::contains_text(
                    r,
                    names::ev_text(#[trigger] node.ev@[i]),
                )
            &&& node.open_err is None ==> forall|i: int|
                0 <= i < node.rel@.len() ==> text::contains_text(
                    r,
                    names::rel_text(#[trigger] node.rel@[i]),
                )
            &&& node.open_err is None ==> forall|i: int|
                0 <= i < node.abs@.len() ==> text::contains_text(
                    r,
                    names::abs_text(#[trigger] node.abs@[i]),
                )
        }),
{
    broadcast use text::lemma_part_in_whole;

    let r = input::node_report(node, button);
    let first = input::first_line(node, button);
    assert(r.subrange(0, first.len() as int) =~= first);
    text::lemma_whole_in_itself(names::keys_text(node.keys@));
    if let Some(s) = node.sysfs {
        text::lemma_whole_in_itself(names::shortened(s@));
    }
    if let Some(n) = node.name {
        text::lemma_whole_in_itself(n@);
    }
    if node.open_err is None {
        assert forall|i: int| 0 <= i < node.ev@.len() implies text::contains_text(
            r,
            names::ev_text(#[trigger] node.ev@[i]),
        ) by {
            let all = input::ev_texts(node.ev@);
            assert(all[i] == names::ev_text(node.ev@[i]));
            text::lemma_part_in_joined(all, " "@, i);
        }
        assert forall|i: int| 0 <= i < node.rel@.len() implies text::contains_text(
            r,
            names::rel_text(#[trigger] node.rel@[i]),
        ) by {
            let all = input::rel_texts(node.rel@);
            assert(all[i] == names::rel_text(node.rel@[i]));
            text::lemma_part_in_joined(all, ","@, i);
        }
        assert forall|i: int| 0 <= i < node.abs@.len() implies text::contains_text(
            r,
            names::abs_text(#[trigger] node.abs@[i]),
        ) by {
            let all = input::abs_texts(node.abs@);
            assert(all[i] == names::abs_text(node.abs@[i]));
            text::lemma_part_in_joined(all, ","@, i);
        }
    }
}

// ---------------------------------------------------------------- hidraw nodes
/// One node stands for all interfaces with its path: its ids and its name are
/// those of the first, and its usages are those of all.
pub proof fn law_one_node_per_path(
    nodes: Seq<HidrawNode>,
    infos: Seq<HidrawInfo>,
    i: int,
) -> (k: int)
    requires
        hidraw::is_gathered(nodes, infos),
        0 <= i < infos.len(),
        forall|j: int| 0 <= j < i ==> (#[trigger] infos[j]).path@ != infos[i].path@,
    ensures
        0 <= k < nodes.len(),
        nodes[k].path@ == infos[i].path@,
        nodes[k].vid == infos[i].vid,
        nodes[k].pid == infos[i].pid,
        infos[i].product matches Some(p) ==> nodes[k].name@ == p@,
        infos[i].product is None ==> nodes[k].name@.len() == 0,
        forall|m: int|
            0 <= m < infos.len() && (#[trigger] infos[m]).path@ == infos[i].path@
                ==> nodes[k].usages@.contains((infos[m].usage_page, infos[m].usage)),
        forall|u: int|
            0 <= u < nodes[k].usages@.len() ==> exists|m: int|
                0 <= m < infos.len() && (#[trigger] infos[m]).path@ == infos[i].path@
                    && #[trigger] nodes[k].usages@[u] == (infos[m].usage_page, infos[m].usage),
        forall|j: int| 0 <= j < nodes.len() && j != k ==> (#[trigger] nodes[j]).path@
            != nodes[k].path@,
{
    let all = hidraw::node_paths(nodes);
    assert(all.contains(infos[i].path@));
    let k = choose|k: int| 0 <= k < all.len() && all[k] == infos[i].path@;
    let node = nodes[k];
    assert(hidraw::sums_up(node, infos));
    let f = choose|f: int| #[trigger]
        hidraw::is_first(infos, node.path@, f) && node.vid == infos[f].vid && node.pid
            == infos[f].pid && node.name@ == hidraw::product_text(infos[f].product);
    assert(f == i) by {
        if f < i {
            assert(infos[f].path@ != infos[i].path@);
        }
        if i < f {
            assert(infos[i].path@ != node.path@);
        }
    }
    assert forall|m: int| 0 <= m < infos.len() && (#[trigger] infos[m]).path@
        == infos[i].path@ implies node.usages@.contains(
        (infos[m].usage_page, infos[m].usage),
    ) by {
        assert(hidraw::has_usage(infos, node.path@, (infos[m].usage_page, infos[m].usage)));
    }
    assert forall|u: int| 0 <= u < node.usages@.len() implies exists|m: int|
        0 <= m < infos.len() && (#[trigger] infos[m]).path@ == infos[i].path@
            && #[trigger] node.usages@[u] == (infos[m].usage_page, infos[m].usage) by {
        assert(node.usages@.contains(node.usages@[u]));
        assert(hidraw::has_usage(infos, node.path@, node.usages@[u]));
    }
    assert forall|j: int| 0 <= j < nodes.len() && j != k implies (#[trigger] nodes[j]).path@
        != node.path@ by {
        order::lemma_precedes_total(all[j], all[k]);
        if j < k {
            assert(order::precedes(all[j], all[k]));
        } else {
            assert(order::precedes(all[k], all[j]));
        }
    }
    k
}

/// Nodes are in alphabetical order of their paths, and usages in the order of
/// pages, then of usages; nothing is there twice.
pub proof fn law_order_of_nodes_and_usages(
    nodes: Seq<HidrawNode>,
    infos: Seq<HidrawInfo>,
    i: int,
    j: int,
)
    requires
        hidraw::is_gathered(nodes, infos),
        0 <= i < nodes.len(),
    ensures
        i < j < nodes.len() ==> order::precedes(nodes[i].path@, nodes[j].path@),
        forall|a: int, b: int|
            0 <= a < b < nodes[i].usages@.len() ==> (#[trigger] nodes[i].usages@[a]).0 < (
            #[trigger] nodes[i].usages@[b]).0 || (nodes[i].usages@[a].0 == nodes[i].usages@[b].0
                && nodes[i].usages@[a].1 < nodes[i].usages@[b].1),
{
    let all = hidraw::node_paths(nodes);
    if i < j < nodes.len() {
        assert(order::precedes(all[i], all[j]));
    }
    assert(hidraw::sums_up(nodes[i], infos));
    let u = nodes[i].usages@;
    assert forall|a: int, b: int| 0 <= a < b < u.len() implies (#[trigger] u[a]).0 < (
    #[trigger] u[b]).0 || (u[a].0 == u[b].0 && u[a].1 < u[b].1) by {
        assert(hidraw::pair_before(u[a], u[b]));
    }
}

/// A list sorted by number has the same entries, each as often, and no number
/// in front of a smaller one.
pub proof fn law_sorted_by_number(
    sorted: Seq<(u32, Seq<char>)>,
    list: Seq<(u32, Seq<char>)>,
)
    requires
        order::is_sort_of(sorted, list),
    ensures
        forall|i: int, j: int|
            0 <= i < j < sorted.len() ==> (#[trigger] sorted[i]).0 <= (#[trigger] sorted[j]).0,
        sorted.to_multiset() == list.to_multiset(),
        forall|k: u32, e: (u32, Seq<char>)| #[trigger] order::has_number(k)(e) <==> e.0 == k,
        forall|k: u32|
            sorted.filter(#[trigger] order::has_number(k)) == list.filter(order::has_number(k)),
{
    broadcast use vstd::multiset::group_multiset_axioms;

    assert forall|k: u32| sorted.filter(#[trigger] order::has_number(k)) == list.filter(
        order::has_number(k),
    ) by {
        assert(order::with_number(sorted, k) == order::with_number(list, k));
    }
    let a = sorted.to_multiset();
    let b = list.to_multiset();
    assert forall|e: (u32, Seq<char>)| a.count(e) == b.count(e) by {
        let p = order::has_number(e.0);
        filter::lemma_filter_of_multiset(sorted, p);
        filter::lemma_filter_of_multiset(list, p);
        assert(order::with_number(sorted, e.0) == order::with_number(list, e.0));
        assert(a.filter(p) == b.filter(p));
        assert(a.filter(p).count(e) == a.count(e));
        assert(b.filter(p).count(e) == b.count(e));
    }
    assert(a =~= b);
}

/// A usage is shown as page and usage in hexadecimal.
pub proof fn law_how_usages_are_shown(page: u16, usage: u16)
    ensures
        hidraw::usage_label((page, usage)) == "0x"@ + number::hex4(page as nat) + "/0x"@
            + number::hex2(usage as nat),
{
}

/// The lines of a node: its path, its ids, its name, its usages, the mark
/// exactly if it takes commands, and whether it can be opened, for writing
/// only if it is the vendor's.
pub proof fn law_lines_of_a_hidraw_node(node: HidrawNode)
    ensures
        ({
            let mark = if node.vid == 0x36A7 && node.usages@.contains((0xFFFFu16, 0u16)) {
                "   << VENDOR COMMAND IFACE"@
            } else {
                ""@
            };
            let opens = if node.vid == 0x36A7 {
                "RO open: "@ + names::yn_text(node.ro_open) + "   RW open: "@ + names::yn_text(
                    node.rw_open,
                )
            } else {
                "RO open: "@ + names::yn_text(node.ro_open)
            };
            hidraw::node_report(node) == "  "@ + node.path@ + "  "@ + number::hex4(node.vid as nat)
                + ":"@ + number::hex4(node.pid as nat) + "  \""@ + node.name@ + "\"  usages: "@
                + text::joined(hidraw::usage_labels(node.usages@), " "@) + mark + "\n"@
                + input::sysfs_line(node.sysfs) + "           "@ + opens + "\n"@
        }),
        hidraw::opens_text(node) == (if node.vid == 0x36A7 {
            "RO open: "@ + names::yn_text(node.ro_open) + "   RW open: "@ + names::yn_text(
                node.rw_open,
            )
        } else {
            "RO open: "@ + names::yn_text(node.ro_open)
        }),
{
}

/// The lines of the nodes follow each other.
pub proof fn law_lines_of_the_nodes(
    rows: Seq<InputNode>,
    node: InputNode,
    button: u16,
    init_error: Option<&str>,
    hidraw_rows: Seq<HidrawNode>,
    hidraw_node: HidrawNode,
)
    ensures
        input::nodes_report(rows.push(node), button) == input::nodes_report(rows, button)
            + input::node_report(node, button),
        hidraw::nodes_report(init_error, hidraw_rows.push(hidraw_node)) == hidraw::nodes_report(
            init_error,
            hidraw_rows,
        ) + hidraw::node_report(hidraw_node),
        input::nodes_report(Seq::empty(), button) == "\n== /dev/input nodes ==\n"@,
        init_error is None ==> hidraw::nodes_report(init_error, Seq::empty())
            == "\n== /dev/hidraw nodes ==\n"@,
        init_error matches Some(e) ==> hidraw::nodes_report(init_error, Seq::empty())
            == "\n== /dev/hidraw nodes ==\n"@ + "  hidapi init failed: "@ + e@ + "\n"@,
{
    assert(rows.push(node).drop_last() =~= rows);
    assert(hidraw_rows.push(hidraw_node).drop_last() =~= hidraw_rows);
}

// ---------------------------------------------------------------- tail
/// What a value of a key event is called.
pub proof fn law_names_of_values(value: i32)
    ensures
        tail::verb_text(1) == Some("press  "@),
        tail::verb_text(0) == Some("release"@),
        tail::verb_text(2) == Some("repeat "@),
        value < 0 || value > 2 ==> tail::verb_text(value) is None,
        tail::unexpected_text(value) == "  unexpected EV_KEY value "@ + number::dec_int(
            value as int,
        ),
{
}

/// The line of a key event has the time, the node, what happened, and the key
/// by its name and by its code, in decimal and in hexadecimal.
pub proof fn law_line_of_a_key_event(
    stamp: Seq<char>,
    node: Seq<char>,
    other: Seq<char>,
    verb: Seq<char>,
    code: u16,
)
    requires
        !"/dev/input/"@.is_prefix_of(other),
    ensures
        tail::event_text(stamp, "/dev/input/"@ + node, verb, code) == "  t+"@ + stamp + "s  "@
            + text::padded(node, 8) + "  "@ + verb + "  "@ + names::key_text(code) + " ("@
            + number::dec(code as nat) + "/0x"@ + number::hex(code as nat) + ")"@,
        tail::event_text(stamp, other, verb, code) == "  t+"@ + stamp + "s  "@ + text::padded(
            other,
            8,
        ) + "  "@ + verb + "  "@ + names::key_text(code) + " ("@ + number::dec(code as nat)
            + "/0x"@ + number::hex(code as nat) + ")"@,
{
    let path = "/dev/input/"@ + node;
    assert("/dev/input/"@.is_prefix_of(path));
    assert(path.skip("/dev/input/"@.len() as int) =~= node);
}

/// The head of the tail names every node that is watched.
pub proof fn law_head_of_the_tail(nodes: Seq<Seq<char>>)
    ensures
        forall|i: int|
            0 <= i < nodes.len() ==> text::contains_text(
                tail::head_text(nodes),
                #[trigger] nodes[i],
            ),
        nodes.len() == 0 ==> text::contains_text(
            tail::head_text(nodes),
            "  no openable dongle evdev nodes — nothing to watch (fix the openability problem from the verdict above first)\n"@,
        ),
{
    broadcast use text::lemma_part_in_whole;

    assert forall|i: int| 0 <= i < nodes.len() implies text::contains_text(
        tail::head_text(nodes),
        #[trigger] nodes[i],
    ) by {
        text::lemma_part_in_joined(nodes, ", "@, i);
    }
    text::lemma_whole_in_itself(
        "  no openable dongle evdev nodes — nothing to watch (fix the openability problem from the verdict above first)\n"@,
    );
}

/// The lines of a node, one behind the other: of one that could not be opened
/// the first and its place in sysfs; of others also the name, the types, the
/// axes it has, and the keys.
pub proof fn law_order_of_the_lines(node: InputNode, button: u16)
    ensures
        ({
            let first = input::first_line(node, button) + "\n"@;
            let sysfs = match node.sysfs {
                Some(s) => "           sysfs: "@ + names::shortened(s@) + "\n"@,
                None => ""@,
            };
            let name = match node.name {
                Some(n) => "           name:  \""@ + n@ + "\"\n"@,
                None => ""@,
            };
            let rel = if node.rel@.len() == 0 {
                ""@
            } else {
                "  rel: "@ + text::joined(input::rel_texts(node.rel@), ","@)
            };
            let abs = if node.abs@.len() == 0 {
                ""@
            } else {
                "  abs: "@ + text::joined(input::abs_texts(node.abs@), ","@)
            };
            &&& node.open_err is Some ==> input::node_report(node, button) == first + sysfs
            &&& node.open_err is None ==> input::node_report(node, button) == first + sysfs + name
                + "           EV: "@ + text::joined(input::ev_texts(node.ev@), " "@) + rel + abs
                + "\n           keys: "@ + names::keys_text(node.keys@) + "\n"@
        }),
        input::ev_texts(node.ev@).len() == node.ev@.len(),
        forall|i: int|
            0 <= i < node.ev@.len() ==> input::ev_texts(node.ev@)[i] == names::ev_text(
                #[trigger] node.ev@[i],
            ),
        input::rel_texts(node.rel@).len() == node.rel@.len(),
        forall|i: int|
            0 <= i < node.rel@.len() ==> input::rel_texts(node.rel@)[i] == names::rel_text(
                #[trigger] node.rel@[i],
            ),
        input::abs_texts(node.abs@).len() == node.abs@.len(),
        forall|i: int|
            0 <= i < node.abs@.len() ==> input::abs_texts(node.abs@)[i] == names::abs_text(
                #[trigger] node.abs@[i],
            ),
{
}

/// The product of a node is the marker in its place in sysfs.
pub proof fn law_product_of_a_node(path: String)
    ensures
        input::marker_in(Some(path)) == usb::first_marker(usb::segments(path@)),
        input::marker_in(None) is None,
{
}

/// What stands above the events: that there is nothing to watch, or the nodes
/// and what to do.
pub proof fn law_what_the_tail_begins_with(nodes: Seq<Seq<char>>)
    ensures
        nodes.len() > 0 ==> tail::head_text(nodes) == "\n== live EV_KEY tail ==\n"@
            + "  watching: "@ + text::joined(nodes, ", "@)
            + "\n  press the sniper button now (and the other buttons, to compare). Ctrl-C to stop.\n"@,
{
}

/// Lists are shown entry by entry.
pub proof fn law_lists_entry_by_entry(
    usages: Seq<(u16, u16)>,
    nodes: Seq<HidrawNode>,
    list: Seq<order::Numbered>,
    table: Map<u32, String>,
    g: u32,
    i: int,
)
    ensures
        hidraw::usage_labels(usages).len() == usages.len(),
        0 <= i < usages.len() ==> hidraw::usage_labels(usages)[i] == "0x"@ + number::hex4(
            usages[i].0 as nat,
        ) + "/0x"@ + number::hex2(usages[i].1 as nat),
        hidraw::node_paths(nodes).len() == nodes.len(),
        0 <= i < nodes.len() ==> hidraw::node_paths(nodes)[i] == nodes[i].path@,
        order::numbered(list).len() == list.len(),
        0 <= i < list.len() ==> order::numbered(list)[i] == (list[i].number, list[i].text@),
        env::table_texts(table).dom().contains(g) <==> table.dom().contains(g),
        table.dom().contains(g) ==> env::table_texts(table)[g] == table[g]@,
{
}

} // verus!
