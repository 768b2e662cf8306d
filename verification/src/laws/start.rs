//! What a start does with the options, the interfaces and the mouse's answers.
use crate::capability;
use crate::daemon;
use crate::daemon::Config;
use crate::keys;
use crate::laws::exchanges;
use crate::laws::paths;
use crate::number;
use crate::protocol;
use crate::sniper;
use crate::sniper::{Candidate, HidInfo, ScanView, VendorNode};
use crate::startup;
use crate::startup::{Options, Outcome, Startup};
use crate::text;
use crate::transport::{Event, Exchange, HidTransport, Phase};
use crate::usb;
use crate::usb::NeedleView;
use vstd::prelude::*;

verus! {

/// The configuration for a profile has each of the options in its own place.
pub proof fn law_configuration_field_by_field(options: Options, profile: u8)
    ensures
        options.spec_config(profile).button == options.button,
        options.spec_config(profile).sniper_stage == options.sniper_stage,
        options.spec_config(profile).normal_stage == options.normal_stage,
        options.spec_config(profile).quiet == options.quiet,
        options.spec_config(profile).profile == profile,
{
}

/// However a start goes, once the configuration is known, down to a daemon
/// that runs, its button, its two stages and its quietness are those of the
/// options, each in its own place, and so is the profile if one was given.
pub proof fn law_start_arrives_at_the_options(
    options: Options,
    states: Seq<Startup>,
    outcomes: Seq<Outcome>,
    config: Config,
)
    requires
        startup::is_start(options, states, outcomes),
        startup::known_config(states.last()) == Some(config),
    ensures
        config.button == options.button,
        config.sniper_stage == options.sniper_stage,
        config.normal_stage == options.normal_stage,
        config.quiet == options.quiet,
        options.profile matches Some(p) ==> config.profile == p,
{
    startup::law_start_keeps_options(options, states, outcomes);
}

/// Every state of a start after the questions holds a configuration, and none
/// before does: a daemon that runs has one.
pub proof fn law_configuration_is_known(s: Startup)
    ensures
        startup::known_config(s) is None <==> s is ListInterfaces || s is OpenVendor || s is Detect
            || s is AskProfile || s is Refused,
        s matches Startup::Resolve(c, _) ==> startup::known_config(s) == Some(c),
        s matches Startup::Scan(c, _, _) ==> startup::known_config(s) == Some(c),
        s matches Startup::Baseline(c, _, _) ==> startup::known_config(s) == Some(c),
        s matches Startup::Unblock(c, _) ==> startup::known_config(s) == Some(c),
        s matches Startup::Ready(c, _) ==> startup::known_config(s) == Some(c),
        s matches Startup::Ready(_, n) ==> startup::grabbed_node(s) == Some(n),
        s matches Startup::Baseline(_, _, n) ==> startup::grabbed_node(s) == Some(n),
        startup::grabbed_node(s) is Some ==> startup::chosen_node(s) == startup::grabbed_node(s),
{
}

/// What the mouse's reply to the detection leads to, by its bytes as they were
/// read: a status in the first byte of the reply, or one in the second.
pub proof fn law_detection_by_bytes(
    options: Options,
    vendor: VendorNode,
    x: Exchange,
    buffer: [u8; 65],
    next: Startup,
)
    requires
        Startup::Detect(options, vendor, x).wf(),
        x.phase is Read,
        Startup::Detect(options, vendor, x).moves(Outcome::Exchange(Event::Reply(buffer)), next),
        buffer@[1] == 0xA1 || buffer@[2] == 0xA1,
    ensures
        options.profile matches Some(p) ==> {
            &&& next matches Startup::Resolve(config, v)
            &&& v == vendor
            &&& config.button == options.button
            &&& config.sniper_stage == options.sniper_stage
            &&& config.normal_stage == options.normal_stage
            &&& config.quiet == options.quiet
            &&& config.profile == p
        },
        options.profile is None ==> {
            &&& next matches Startup::AskProfile(o, v, t, y)
            &&& o == options
            &&& v == vendor
            &&& t.hid_index == (if buffer@[1] == 0xA1 {
                1u8
            } else {
                0u8
            })
            &&& y.attempt == 0
            &&& y.phase is Write
        },
{
    exchanges::law_reply_stands_behind_the_id(buffer@);
}

/// What the mouse's reply to the question for the profile leads to, by its
/// bytes as they were read.
pub proof fn law_profile_by_bytes(
    options: Options,
    vendor: VendorNode,
    t: HidTransport,
    x: Exchange,
    buffer: [u8; 65],
    next: Startup,
)
    requires
        Startup::AskProfile(options, vendor, t, x).wf(),
        x.phase is Read,
        Startup::AskProfile(options, vendor, t, x).moves(
            Outcome::Exchange(Event::Reply(buffer)),
            next,
        ),
        buffer@[6] == 0x85,
        t.hid_index == 0 ==> buffer@[2] == 0xA1,
        t.hid_index == 1 ==> buffer@[1] == 0xA1,
    ensures
        next matches Startup::Resolve(config, v) && v == vendor && config.button == options.button
            && config.sniper_stage == options.sniper_stage && config.normal_stage
            == options.normal_stage && config.quiet == options.quiet && config.profile == (
        if t.hid_index == 0 {
            buffer@[8]
        } else {
            buffer@[7]
        }),
{
    exchanges::law_reply_stands_behind_the_id(buffer@);
}

/// A start whose exchange fails is refused, with the reason.
pub proof fn law_silent_mouse_is_refused(
    s: Startup,
    error: String,
    next: Startup,
)
    requires
        s.wf(),
        (s matches Startup::Detect(_, _, x) && x.phase is Read) || (s matches Startup::AskProfile(
            _,
            _,
            _,
            x,
        ) && x.phase is Read),
        s.moves(Outcome::Exchange(Event::Failed(error)), next),
    ensures
        next matches Startup::Refused(m) && text::contains_text(m@, error@),
        s is Detect ==> (next matches Startup::Refused(m) && text::contains_text(
            m@,
            "mouse did not answer the vendor interface (asleep or out of range? wiggle it)"@,
        )),
        s is AskProfile ==> (next matches Startup::Refused(m) && text::contains_text(
            m@,
            "get_profile_id failed"@,
        )),
{
    broadcast use text::lemma_part_in_whole;

    text::lemma_whole_in_itself(error@);
    text::lemma_whole_in_itself(
        "mouse did not answer the vendor interface (asleep or out of range? wiggle it)"@,
    );
    text::lemma_whole_in_itself("get_profile_id failed"@);
}

// ---------------------------------------------------------------- interfaces
/// An interface of a WLmouse dongle that takes commands.
pub open spec fn is_command_interface(d: HidInfo) -> bool {
    d.vendor_id == 0x36A7 && d.usage_page == 0xFFFF && d.usage == 0
}

proof fn lemma_command_interfaces(devices: Seq<HidInfo>)
    ensures
        forall|k: int|
            0 <= k < sniper::vendor_nodes(devices).len() ==> exists|i: int|
                0 <= i < devices.len() && is_command_interface(#[trigger] devices[i])
                    && #[trigger] sniper::vendor_nodes(devices)[k] == (
                    devices[i].path@,
                    devices[i].product_id,
                ),
        sniper::vendor_nodes(devices).len() == 0 ==> forall|i: int|
            0 <= i < devices.len() ==> !is_command_interface(#[trigger] devices[i]),
        sniper::vendor_nodes(devices).len() <= 1 ==> forall|i: int, j: int|
            0 <= i < j < devices.len() ==> !(is_command_interface(#[trigger] devices[i])
                && is_command_interface(#[trigger] devices[j])),
        sniper::vendor_nodes(devices).len() >= 2 ==> exists|i: int, j: int|
            0 <= i < j < devices.len() && is_command_interface(#[trigger] devices[i])
                && is_command_interface(#[trigger] devices[j]),
    decreases devices.len(),
{
    if devices.len() > 0 {
        let front = devices.drop_last();
        let found = sniper::vendor_nodes(devices);
        let before = sniper::vendor_nodes(front);
        lemma_command_interfaces(front);
        assert forall|i: int| 0 <= i < front.len() implies front[i] == #[trigger] devices[i] by {}
        assert forall|k: int| 0 <= k < found.len() implies exists|i: int|
            0 <= i < devices.len() && is_command_interface(#[trigger] devices[i])
                && #[trigger] found[k] == (devices[i].path@, devices[i].product_id) by {
            if k < before.len() {
                assert(found[k] == before[k]);
                let i = choose|i: int|
                    0 <= i < front.len() && is_command_interface(#[trigger] front[i]) && before[k]
                        == (front[i].path@, front[i].product_id);
                assert(devices[i] == front[i]);
            } else {
                assert(is_command_interface(devices[devices.len() - 1]));
            }
        }
        if found.len() >= 2 {
            if before.len() >= 2 {
                let (i, j) = choose|i: int, j: int|
                    0 <= i < j < front.len() && is_command_interface(#[trigger] front[i])
                        && is_command_interface(#[trigger] front[j]);
                assert(is_command_interface(devices[i]) && is_command_interface(devices[j]));
            } else {
                assert(before[0] == before[0]);
                let i = choose|i: int|
                    0 <= i < front.len() && is_command_interface(#[trigger] front[i]) && before[0]
                        == (front[i].path@, front[i].product_id);
                assert(is_command_interface(devices[i]));
                assert(is_command_interface(devices[devices.len() - 1]));
            }
        }
    }
}

/// Where exactly one interface takes commands, that one is opened, whatever
/// stands around it.
pub proof fn law_only_command_interface_is_opened(
    options: Options,
    devices: Vec<HidInfo>,
    i: int,
    next: Startup,
)
    requires
        Startup::ListInterfaces(options).moves(Outcome::Interfaces(devices), next),
        0 <= i < devices@.len(),
        devices@[i].vendor_id == 0x36A7,
        devices@[i].usage_page == 0xFFFF,
        devices@[i].usage == 0,
        forall|j: int|
            0 <= j < devices@.len() && j != i ==> !is_command_interface(#[trigger] devices@[j]),
    ensures
        next matches Startup::OpenVendor(o, v) && o == options && v.path@ == devices@[i].path@
            && v.pid == devices@[i].product_id,
{
    lemma_command_interfaces(devices@);
    let found = sniper::vendor_nodes(devices@);
    assert(is_command_interface(devices@[i]));
    if found.len() == 1 {
        assert(found[0] == found[0]);
        let k = choose|k: int|
            0 <= k < devices@.len() && is_command_interface(#[trigger] devices@[k]) && found[0] == (
                devices@[k].path@,
                devices@[k].product_id,
            );
        assert(k == i);
    }
}

/// Where no interface takes commands, or more than one does, the start is
/// refused.
pub proof fn law_one_command_interface_is_needed(
    options: Options,
    devices: Vec<HidInfo>,
    next: Startup,
)
    requires
        Startup::ListInterfaces(options).moves(Outcome::Interfaces(devices), next),
    ensures
        (forall|j: int| 0 <= j < devices@.len() ==> !is_command_interface(#[trigger] devices@[j]))
            ==> next is Refused,
        (exists|i: int, j: int|
            0 <= i < j < devices@.len() && is_command_interface(#[trigger] devices@[i])
                && is_command_interface(#[trigger] devices@[j])) ==> next is Refused,
        next is Refused || next is OpenVendor,
{
    lemma_command_interfaces(devices@);
    let found = sniper::vendor_nodes(devices@);
    if found.len() == 1 {
        assert(found[0] == found[0]);
    }
}

// ---------------------------------------------------------------- event nodes
/// Looking at one more node: out of scope it changes nothing; in scope it is
/// listed with its path and its name; and it is a candidate exactly if it has
/// the button too.
pub proof fn law_one_more_node(scan: ScanView, c: Candidate)
    ensures
        !scan.needle.finds(c.canon_lower) ==> scan.with(c) == scan,
        scan.needle.finds(c.canon_lower) ==> scan.with(c).dongle_nodes == scan.dongle_nodes.push(
            c.path + " (\""@ + c.name + "\")"@,
        ),
        scan.needle.finds(c.canon_lower) && c.has_button ==> scan.with(c).matchers
            == scan.matchers.push((c.path, c.name)),
        !c.has_button ==> scan.with(c).matchers == scan.matchers,
        scan.with(c).needle == scan.needle,
{
}

/// Node `i` is in scope, has the button, and has this path and this name.
pub open spec fn is_button_node(
    nodes: Seq<Candidate>,
    needle: NeedleView,
    pair: (Seq<char>, Seq<char>),
    i: int,
) -> bool {
    &&& 0 <= i < nodes.len()
    &&& needle.finds(nodes[i].canon_lower)
    &&& nodes[i].has_button
    &&& pair.0 == nodes[i].path
    &&& pair.1 == nodes[i].name
}

/// Every candidate of a scan is a node that was looked at, in scope and with
/// the button.
pub proof fn law_candidates_have_the_button(start: ScanView, nodes: Seq<Candidate>, k: int) -> (i:
    int)
    requires
        start.matchers.len() == 0,
        0 <= k < sniper::scanned(start, nodes).matchers.len(),
    ensures
        is_button_node(nodes, start.needle, sniper::scanned(start, nodes).matchers[k], i),
    decreases nodes.len(),
{
    let front = nodes.drop_last();
    lemma_needle_stays(start, front);
    if k < sniper::scanned(start, front).matchers.len() {
        let i = law_candidates_have_the_button(start, front, k);
        assert(nodes[i] == front[i]);
        i
    } else {
        nodes.len() - 1
    }
}

/// Every node that is in scope and has the button is a candidate.
pub proof fn law_button_nodes_are_candidates(start: ScanView, nodes: Seq<Candidate>, i: int) -> (k:
    int)
    requires
        0 <= i < nodes.len(),
        start.needle.finds(nodes[i].canon_lower),
        nodes[i].has_button,
    ensures
        0 <= k < sniper::scanned(start, nodes).matchers.len(),
        sniper::scanned(start, nodes).matchers[k] == (nodes[i].path, nodes[i].name),
    decreases nodes.len(),
{
    let front = nodes.drop_last();
    lemma_needle_stays(start, front);
    if i < front.len() {
        law_button_nodes_are_candidates(start, front, i)
    } else {
        sniper::scanned(start, nodes).matchers.len() - 1
    }
}

proof fn lemma_needle_stays(start: ScanView, nodes: Seq<Candidate>)
    ensures
        sniper::scanned(start, nodes).needle == start.needle,
    decreases nodes.len(),
{
    if nodes.len() > 0 {
        lemma_needle_stays(start, nodes.drop_last());
    }
}

/// A scan begins with no node, and looks for what the scope tells.
pub proof fn law_scan_begins_empty(scope: usb::Scope, canon_lower: Seq<char>)
    ensures
        startup::fresh_scan(scope).dongle_nodes.len() == 0,
        startup::fresh_scan(scope).matchers.len() == 0,
        startup::fresh_scan(scope).needle.finds(canon_lower) <==> match scope.usb_prefix {
            Some(p) => usb::under(canon_lower, text::lowercase(p@)),
            None => text::contains_text(canon_lower, text::lowercase(scope.vidpid_marker@)),
        },
{
}

/// A node without a path in sysfs has an empty one, and one without a name is
/// shown with a question mark.
pub proof fn law_what_is_unknown_of_a_node(path: &str, name: &str)
    ensures
        sniper::canon_text(None) == Seq::<char>::empty(),
        sniper::canon_text(Some(path)) == text::lowercase(path@),
        sniper::shown_name(Some(name)) == name@,
        sniper::shown_name(None) == "?"@,
{
    assert(sniper::canon_text(None) =~= Seq::<char>::empty());
}

/// What the end of a scan leads to: one candidate, and it is opened; several,
/// and the start is refused; none, and the nodes in sysfs are asked for.
pub proof fn law_one_candidate_is_needed(s: Startup, scan: sniper::NodeScan, next: Startup)
    requires
        s is Scan,
        s.moves(Outcome::Scanned(scan), next),
    ensures
        scan.matchers@.len() == 1 ==> (next matches Startup::OpenNode(c, v, n) && n.path@
            == scan.matchers@[0].path@ && n.name@ == scan.matchers@[0].name@ && c == s->Scan_0 && v
            == s->Scan_1),
        scan.matchers@.len() > 1 ==> next is Refused,
        scan.matchers@.len() == 0 ==> (next matches Startup::ListSysfs(c, _, w) && c == s->Scan_0
            && w == s->Scan_2.vidpid_marker),
{
}

/// A node that someone has grabbed is refused, by its path; a free one is
/// grabbed, and only then is the mouse put on its normal stage.
pub proof fn law_grabbed_node_is_refused(
    config: Config,
    vendor: VendorNode,
    node: sniper::EventNode,
    grabbed: bool,
    next: Startup,
)
    requires
        Startup::OpenNode(config, vendor, node).moves(Outcome::Opened(grabbed), next),
    ensures
        grabbed ==> (next matches Startup::Refused(m) && m@ == node.path@
            + " is already grabbed — is another wl-sniper already running?"@),
        !grabbed ==> next == Startup::Grab(config, vendor, node),
        forall|after: Startup|
            #[trigger] Startup::Grab(config, vendor, node).moves(Outcome::Done, after) ==> after
                == Startup::Baseline(config, vendor, node),
{
}

/// A mouse that could not be put on its normal stage is a warning, never a
/// refusal; either way the daemon goes on to run.
pub proof fn law_baseline_never_refuses(s: Startup, outcome: Outcome, next: Startup)
    requires
        s is Baseline || s is Warn || s is Announce,
        s.moves(outcome, next),
    ensures
        !(next is Refused),
        s matches Startup::Baseline(c, v, n) ==> (outcome matches Outcome::Failed(e) ==> next
            == Startup::Warn(c, v, n, e)),
        s matches Startup::Baseline(c, _, n) ==> (outcome is Done && c.quiet ==> next
            == Startup::Unblock(c, n)),
        s matches Startup::Warn(c, _, n, _) ==> (outcome is Done && c.quiet ==> next
            == Startup::Unblock(c, n)),
        s matches Startup::Announce(c, n, _) ==> (outcome is Done ==> next == Startup::Unblock(
            c,
            n,
        )),
        forall|c: Config, n: sniper::EventNode, after: Startup|
            #[trigger] Startup::Unblock(c, n).moves(Outcome::Done, after) ==> after
                == Startup::Ready(c, n),
{
}

/// The scope of the scan: the dongle's own place in the canonical path, where
/// there is one, and the marker of the product.
pub proof fn law_scope_of_the_scan(
    config: Config,
    vendor: VendorNode,
    canon: Option<String>,
    next: Startup,
)
    requires
        Startup::Resolve(config, vendor).moves(Outcome::Canonical(canon), next),
    ensures
        next matches Startup::Scan(c, v, scope) && c == config && v == vendor
            && scope.vidpid_marker@ == usb::marker(vendor.pid) && (canon is None
            ==> scope.usb_prefix is None) && (canon matches Some(path) ==> text::opt_text(
            scope.usb_prefix,
        ) == usb::device_prefix(path@)),
{
}

// ---------------------------------------------------------------- refusals
/// A message with its cause has both, the message first.
pub proof fn law_cause_follows_the_message(message: Seq<char>, cause: Seq<char>)
    ensures
        startup::caused(message, cause).len() == message.len() + 2 + cause.len(),
        startup::caused(message, cause).take(message.len() as int) == message,
        startup::caused(message, cause)[message.len() as int] == ':',
        startup::caused(message, cause)[message.len() as int + 1] == ' ',
        startup::caused(message, cause).skip(message.len() as int + 2) == cause,
{
    reveal_strlit(": ");
    let whole = startup::caused(message, cause);
    assert(whole.take(message.len() as int) =~= message);
    assert(whole.skip(message.len() as int + 2) =~= cause);
}

/// What failed is named in the refusal, with its path and the reason.
pub proof fn law_refusals_name_path_and_reason(s: Startup, error: String, next: Startup)
    requires
        s is ListInterfaces || s is OpenVendor || s is OpenNode || s is Grab || s is Unblock,
        s.moves(Outcome::Failed(error), next),
    ensures
        next matches Startup::Refused(m) && text::contains_text(m@, error@),
        s matches Startup::OpenVendor(_, v) ==> (next matches Startup::Refused(m)
            && text::contains_text(m@, "could not open "@ + v.path@)),
        s matches Startup::OpenNode(_, _, n) ==> (next matches Startup::Refused(m)
            && text::contains_text(m@, "could not open "@ + n.path@)),
        s matches Startup::Grab(_, _, n) ==> (next matches Startup::Refused(m)
            && text::contains_text(m@, "could not grab "@ + n.path@)),
        s matches Startup::Unblock(_, n) ==> (next matches Startup::Refused(m)
            && text::contains_text(m@, "set_nonblocking on "@ + n.path@)),
        s is ListInterfaces ==> (next matches Startup::Refused(m) && text::contains_text(
            m@,
            "hidapi init failed"@,
        )),
{
    broadcast use text::lemma_part_in_whole;

    text::lemma_whole_in_itself(error@);
    text::lemma_whole_in_itself("hidapi init failed"@);
    match s {
        Startup::OpenVendor(_, v) => text::lemma_whole_in_itself("could not open "@ + v.path@),
        Startup::OpenNode(_, _, n) => text::lemma_whole_in_itself("could not open "@ + n.path@),
        Startup::Grab(_, _, n) => text::lemma_whole_in_itself("could not grab "@ + n.path@),
        Startup::Unblock(_, n) => text::lemma_whole_in_itself("set_nonblocking on "@ + n.path@),
        _ => {},
    }
}

/// A refusal for several interfaces says how many there are and names each,
/// with its product.
pub proof fn law_many_interfaces_are_named(nodes: Seq<(Seq<char>, u16)>, i: int)
    requires
        0 <= i < nodes.len(),
    ensures
        ({
            let m = sniper::many_vendors_text(nodes);
            &&& text::contains_text(m, number::dec(nodes.len()))
            &&& text::contains_text(
                m,
                nodes[i].0 + " (0x"@ + number::hex4(nodes[i].1 as nat) + ")"@,
            )
        }),
        text::contains_text(sniper::no_vendor_text(), "36a7"@),
{
    broadcast use text::lemma_part_in_whole;

    text::lemma_whole_in_itself(number::dec(nodes.len()));
    text::lemma_part_in_joined(sniper::vendor_labels(nodes), ", "@, i);
    lemma_contained_again(
        sniper::many_vendors_text(nodes),
        text::joined(sniper::vendor_labels(nodes), ", "@),
        sniper::vendor_label(nodes[i]),
    );
    paths::law_vendor_id_in_paths();
    text::lemma_whole_in_itself("36a7"@);
}

/// A refusal for several nodes says how many there are, names each by its
/// path, and names the button.
pub proof fn law_many_nodes_are_named(
    matchers: Seq<(Seq<char>, Seq<char>)>,
    button: u16,
    i: int,
)
    requires
        0 <= i < matchers.len(),
    ensures
        ({
            let m = sniper::many_nodes_text(matchers, button);
            &&& text::contains_text(m, number::dec(matchers.len()))
            &&& text::contains_text(m, matchers[i].0)
            &&& text::contains_text(m, keys::key_text(button))
            &&& text::contains_text(m, number::dec(button as nat))
        }),
{
    broadcast use text::lemma_part_in_whole;

    text::lemma_whole_in_itself(number::dec(matchers.len()));
    text::lemma_whole_in_itself(number::dec(button as nat));
    text::lemma_whole_in_itself(keys::key_text(button));
    text::lemma_part_in_joined(sniper::first_texts(matchers), ", "@, i);
    lemma_contained_again(
        sniper::many_nodes_text(matchers, button),
        text::joined(sniper::first_texts(matchers), ", "@),
        matchers[i].0,
    );
}

/// A refusal for want of a node names the button, and every node of the dongle
/// that was seen; if none was, those that sysfs lists.
pub proof fn law_seen_nodes_are_named(
    dongle_nodes: Seq<Seq<char>>,
    sysfs_nodes: Seq<Seq<char>>,
    button: u16,
)
    ensures
        ({
            let seen = sniper::seen_text(dongle_nodes, sysfs_nodes, button);
            let m = sniper::no_node_text(seen, button);
            &&& text::contains_text(m, keys::key_text(button))
            &&& text::contains_text(m, number::dec(button as nat))
            &&& text::contains_text(m, seen)
            &&& forall|i: int|
                0 <= i < dongle_nodes.len() ==> text::contains_text(seen, #[trigger] dongle_nodes[i])
            &&& dongle_nodes.len() == 0 ==> forall|i: int|
                0 <= i < sysfs_nodes.len() ==> text::contains_text(seen, #[trigger] sysfs_nodes[i])
            &&& dongle_nodes.len() == 0 && sysfs_nodes.len() == 0 ==> text::contains_text(
                seen,
                " (and sysfs lists no dongle evdev nodes at all — dongle disconnected?)"@,
            )
        }),
{
    broadcast use text::lemma_part_in_whole;

    let seen = sniper::seen_text(dongle_nodes, sysfs_nodes, button);
    text::lemma_whole_in_itself(number::dec(button as nat));
    text::lemma_whole_in_itself(keys::key_text(button));
    text::lemma_whole_in_itself(seen);
    text::lemma_whole_in_itself(
        " (and sysfs lists no dongle evdev nodes at all — dongle disconnected?)"@,
    );
    assert forall|i: int| 0 <= i < dongle_nodes.len() implies text::contains_text(
        seen,
        #[trigger] dongle_nodes[i],
    ) by {
        text::lemma_part_in_joined(dongle_nodes, ", "@, i);
    }
    if dongle_nodes.len() == 0 {
        assert forall|i: int| 0 <= i < sysfs_nodes.len() implies text::contains_text(
            seen,
            #[trigger] sysfs_nodes[i],
        ) by {
            text::lemma_part_in_joined(sysfs_nodes, ", "@, i);
        }
    }
}

proof fn lemma_contained_again(whole: Seq<char>, part: Seq<char>, x: Seq<char>)
    requires
        text::contains_text(part, x),
    ensures
        text::contains_text(whole, part) ==> text::contains_text(whole, x),
{
    if text::contains_text(whole, part) {
        let a = choose|a: int| #[trigger] text::occurs_at(whole, part, a);
        let b = choose|b: int| #[trigger] text::occurs_at(part, x, b);
        let there = a + b;
        assert(whole.subrange(there, there + x.len()) =~= part.subrange(b, b + x.len()));
        assert(text::occurs_at(whole, x, there));
    }
}

/// A path that the system cannot take is named in the refusal, with the
/// reason.
pub proof fn law_bad_path_is_named(
    options: Options,
    vendor: VendorNode,
    error: String,
    next: Startup,
)
    requires
        Startup::OpenVendor(options, vendor).moves(Outcome::BadPath(error), next),
    ensures
        next matches Startup::Refused(m) && m@ == "bad vendor path "@ + vendor.path@ + ": "@
            + error@,
{
}

/// Where no node fits, the refusal names the button, and the nodes of the
/// dongle that were seen, or those that sysfs lists.
pub proof fn law_no_node_is_refused(
    config: Config,
    scan: sniper::NodeScan,
    wanted: String,
    entries: Vec<usb::SysfsEntry>,
    next: Startup,
)
    requires
        Startup::ListSysfs(config, scan, wanted).moves(Outcome::Sysfs(entries), next),
    ensures
        next matches Startup::Refused(m) && text::contains_text(m@, keys::key_text(config.button))
            && text::contains_text(
            m@,
            sniper::seen_text(
                text::texts(scan.dongle_nodes@),
                usb::event_nodes(entries@, wanted@),
                config.button,
            ),
        ),
{
    law_seen_nodes_are_named(
        text::texts(scan.dongle_nodes@),
        usb::event_nodes(entries@, wanted@),
        config.button,
    );
}

/// A daemon that is not quiet says what it does, of the node that it grabbed
/// and the interface that it opened; then it runs.
pub proof fn law_announcement(
    config: Config,
    vendor: VendorNode,
    node: sniper::EventNode,
    error: String,
    next: Startup,
)
    requires
        !config.quiet,
        Startup::Baseline(config, vendor, node).moves(Outcome::Done, next) || Startup::Warn(
            config,
            vendor,
            node,
            error,
        ).moves(Outcome::Done, next),
    ensures
        next matches Startup::Announce(c, n, line) && c == config && n == node && line@
            == daemon::banner_text(
            config,
            (vendor.path@, vendor.pid),
            (node.path@, node.name@),
        ),
{
}

/// What is out of place changes nothing.
pub proof fn law_outcomes_out_of_place(s: Startup, outcome: Outcome, next: Startup)
    requires
        s.moves(outcome, next),
    ensures
        s is ListInterfaces && !(outcome is Interfaces || outcome is Failed) ==> next == s,
        s is OpenVendor && !(outcome is Done || outcome is BadPath || outcome is Failed) ==> next
            == s,
        s is Detect && !(outcome is Exchange) ==> next == s,
        s is AskProfile && !(outcome is Exchange) ==> next == s,
        s is Resolve && !(outcome is Canonical) ==> next == s,
        s is Scan && !(outcome is Scanned) ==> next == s,
        s is ListSysfs && !(outcome is Sysfs) ==> next == s,
        s is OpenNode && !(outcome is Opened || outcome is Failed) ==> next == s,
        s is Grab && !(outcome is Done || outcome is Failed) ==> next == s,
        s is Baseline && !(outcome is Done || outcome is Failed) ==> next == s,
        s is Warn && !(outcome is Done) ==> next == s,
        s is Announce && !(outcome is Done) ==> next == s,
        s is Unblock && !(outcome is Done || outcome is Failed) ==> next == s,
        s is Ready ==> next == s,
        s is Refused ==> next == s,
{
}

/// An open vendor interface is followed by the detection, for the same
/// options and the same interface.
pub proof fn law_detection_follows_the_opening(
    options: Options,
    vendor: VendorNode,
    next: Startup,
)
    requires
        Startup::OpenVendor(options, vendor).moves(Outcome::Done, next),
    ensures
        next matches Startup::Detect(o, v, x) && o == options && v == vendor && x.attempt == 0
            && x.phase is Write,
{
}

/// A device that tells of no keys advertises none.
pub proof fn law_no_keys_none_advertised(button: u16)
    ensures
        !capability::advertised(None).contains(button),
{
}

/// The interfaces that take commands are found in the order in which they are
/// listed.
pub proof fn law_one_more_interface(devices: Seq<HidInfo>, d: HidInfo)
    ensures
        sniper::vendor_nodes(Seq::empty()).len() == 0,
        d.vendor_id == 0x36A7 && d.usage_page == 0xFFFF && d.usage == 0 ==> sniper::vendor_nodes(
            devices.push(d),
        ) == sniper::vendor_nodes(devices).push((d.path@, d.product_id)),
        !(d.vendor_id == 0x36A7 && d.usage_page == 0xFFFF && d.usage == 0) ==> sniper::vendor_nodes(
            devices.push(d),
        ) == sniper::vendor_nodes(devices),
{
    assert(devices.push(d).drop_last() =~= devices);
}

/// As long as an exchange is not over, the start goes on with it; when it has
/// failed, the start is refused, with the reason.
pub proof fn law_start_goes_on_with_the_exchange(
    s: Startup,
    x: Exchange,
    e: Event,
    next: Startup,
) -> (y: Exchange)
    requires
        (s matches Startup::Detect(_, _, z) && z == x) || (s matches Startup::AskProfile(_, _, _, z)
            && z == x),
        s.moves(Outcome::Exchange(e), next),
    ensures
        x.moves(e, y),
        !(y.phase is Finished || y.phase is Failed) ==> match s {
            Startup::Detect(o, v, _) => next == Startup::Detect(o, v, y),
            Startup::AskProfile(o, v, t, _) => next == Startup::AskProfile(o, v, t, y),
            _ => false,
        },
        y.phase matches Phase::Failed(error) ==> match s {
            Startup::Detect(..) => next matches Startup::Refused(m) && m@
                == "mouse did not answer the vendor interface (asleep or out of range? wiggle it)"@
                + ": "@ + error.spec_text(),
            _ => next matches Startup::Refused(m) && m@ == "get_profile_id failed"@ + ": "@
                + error.spec_text(),
        },
{
    match s {
        Startup::Detect(o, v, _) => choose|y: Exchange|
            x.moves(e, y) && #[trigger] Startup::detected(o, v, y, next),
        Startup::AskProfile(o, v, t, _) => choose|y: Exchange|
            x.moves(e, y) && #[trigger] Startup::answered(o, v, t, y, next),
        _ => x,
    }
}

/// The refusals of a start that finds too many or too few.
pub proof fn law_refusals_word_by_word(
    vendors: Seq<(Seq<char>, u16)>,
    matchers: Seq<(Seq<char>, Seq<char>)>,
    seen: Seq<char>,
    button: u16,
    i: int,
)
    ensures
        sniper::many_vendors_text(vendors) == number::dec(vendors.len())
            + " WLmouse vendor command interfaces found ("@ + text::joined(
            sniper::vendor_labels(vendors),
            ", "@,
        ) + ") — exactly one is required"@,
        sniper::vendor_labels(vendors).len() == vendors.len(),
        0 <= i < vendors.len() ==> sniper::vendor_labels(vendors)[i] == vendors[i].0 + " (0x"@
            + number::hex4(vendors[i].1 as nat) + ")"@,
        sniper::many_nodes_text(matchers, button) == number::dec(matchers.len())
            + " dongle nodes advertise key "@ + keys::key_text(button) + " ("@ + number::dec(
            button as nat,
        ) + "): "@ + text::joined(sniper::first_texts(matchers), ", "@)
            + " — ambiguous, cannot proceed"@,
        sniper::first_texts(matchers).len() == matchers.len(),
        0 <= i < matchers.len() ==> sniper::first_texts(matchers)[i] == matchers[i].0,
        sniper::no_node_text(seen, button) == "no dongle evdev node advertises key "@
            + keys::key_text(button) + " ("@ + number::dec(button as nat)
            + "). Is the mouse button bound to that key in the gm.wlmouse.gg web UI? Dongle nodes seen: "@
            + seen,
{
}

/// The report that a start puts the mouse on its normal stage with holds the
/// normal stage of the options, and their profile if they give one.
pub proof fn law_baseline_bytes(
    options: Options,
    states: Seq<Startup>,
    outcomes: Seq<Outcome>,
    config: Config,
)
    requires
        startup::is_start(options, states, outcomes),
        states.last() matches Startup::Baseline(c, _, _) && c == config,
    ensures
        ({
            let f = protocol::framed(protocol::set_active_dpi(config.profile, config.normal_stage));
            &&& f.len() == 65
            &&& f[3] == 2 && f[4] == 2 && f[5] == 1 && f[6] == 2
            &&& f[8] == options.normal_stage
            &&& options.profile matches Some(p) ==> f[7] == p
        }),
{
    law_start_arrives_at_the_options(options, states, outcomes, config);
}

} // verus!
