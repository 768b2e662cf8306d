//! Starting the daemon: the one vendor interface, the one event node that
//! carries the button, and the refusals where there is not exactly one.
use crate::capability;
use crate::keys;
use crate::number;
use crate::protocol::WL_VID;
use crate::text;
use crate::usb;
use crate::usb::{Needle, NeedleView, Scope};
use evdev::{AttributeSetRef, KeyCode};
use vstd::prelude::*;

verus! {

/// Why the daemon does not start.
#[derive(Clone, Copy, Debug, PartialEq, Eq, Structural)]
pub enum StartFault {
    NoVendorInterface,
    ManyVendorInterfaces,
    NoButtonNode,
    ManyButtonNodes,
    AlreadyGrabbed,
}

/// A refusal to start, with what the user is told.
#[derive(Debug)]
pub struct StartError {
    pub fault: StartFault,
    pub message: String,
}

// ---------------------------------------------------------------- vendor interface
/// A HID interface as enumeration shows it.
#[derive(Debug)]
pub struct HidInfo {
    pub path: String,
    pub vendor_id: u16,
    pub product_id: u16,
    pub usage_page: u16,
    pub usage: u16,
}

/// The interface that commands go to.
#[derive(Debug)]
pub struct VendorNode {
    pub path: String,
    pub pid: u16,
}

impl HidInfo {
    pub open spec fn spec_is_vendor(self) -> bool {
        self.vendor_id == WL_VID && self.usage_page == 0xFFFF && self.usage == 0
    }
}

/// Path and product id of the vendor command interfaces, in order.
pub open spec fn vendor_nodes(devices: Seq<HidInfo>) -> Seq<(Seq<char>, u16)>
    decreases devices.len(),
{
    if devices.len() == 0 {
        Seq::empty()
    } else {
        let before = vendor_nodes(devices.drop_last());
        let last = devices.last();
        if last.spec_is_vendor() {
            before.push((last.path@, last.product_id))
        } else {
            before
        }
    }
}

pub open spec fn node_pairs(nodes: Seq<VendorNode>) -> Seq<(Seq<char>, u16)> {
    Seq::new(nodes.len(), |i: int| (nodes[i].path@, nodes[i].pid))
}

/// `/dev/hidraw3 (0xa863)`.
pub open spec fn vendor_label(node: (Seq<char>, u16)) -> Seq<char> {
    node.0 + " (0x"@ + number::hex4(node.1 as nat) + ")"@
}

pub open spec fn vendor_labels(nodes: Seq<(Seq<char>, u16)>) -> Seq<Seq<char>> {
    Seq::new(nodes.len(), |i: int| vendor_label(nodes[i]))
}

pub open spec fn no_vendor_text() -> Seq<char> {
    "no WLmouse vendor command interface found (VID 0x"@ + usb::vid_text()
        + ", usage_page 0xffff/usage 0). Is the dongle connected? (check: lsusb | grep -i 36a7)"@
}

pub open spec fn many_vendors_text(nodes: Seq<(Seq<char>, u16)>) -> Seq<char> {
    number::dec(nodes.len()) + " WLmouse vendor command interfaces found ("@ + text::joined(
        vendor_labels(nodes),
        ", "@,
    ) + ") — exactly one is required"@
}

fn find_vendor_nodes(devices: &Vec<HidInfo>) -> (r: Vec<VendorNode>)
    ensures
        node_pairs(r@) == vendor_nodes(devices@),
{
    let mut out: Vec<VendorNode> = Vec::new();
    assert(node_pairs(out@) =~= vendor_nodes(devices@.take(0)));
    for i in 0..devices.len()
        invariant
            node_pairs(out@) == vendor_nodes(devices@.take(i as int)),
    {
        let ghost before = node_pairs(out@);
        assert(devices@.take(i + 1).drop_last() =~= devices@.take(i as int));
        let d = &devices[i];
        if d.vendor_id == WL_VID && d.usage_page == 0xFFFF && d.usage == 0 {
            out.push(VendorNode { path: d.path.clone(), pid: d.product_id });
            assert(node_pairs(out@) =~= before.push((d.path@, d.product_id)));
        }
    }
    assert(devices@.take(devices@.len() as int) =~= devices@);
    out
}

fn many_vendors_message(nodes: &Vec<VendorNode>) -> (r: String)
    ensures
        r@ == many_vendors_text(node_pairs(nodes@)),
{
    let mut labels: Vec<String> = Vec::new();
    for i in 0..nodes.len()
        invariant
            labels@.len() == i,
            forall|j: int| 0 <= j < i ==> (#[trigger] labels@[j])@ == vendor_label(
                node_pairs(nodes@)[j],
            ),
    {
        let mut label = nodes[i].path.clone();
        label.append(" (0x");
        label.append(number::to_hex4(nodes[i].pid).as_str());
        label.append(")");
        labels.push(label);
    }
    assert(text::texts(labels@) =~= vendor_labels(node_pairs(nodes@)));
    let mut out = number::to_dec(nodes.len() as u64);
    out.append(" WLmouse vendor command interfaces found (");
    out.append(text::join(&labels, ", ").as_str());
    out.append(") — exactly one is required");
    out
}

/// The single vendor command interface (usage_page 0xffff / usage 0).
pub fn select_vendor(devices: &Vec<HidInfo>) -> (r: Result<VendorNode, StartError>)
    ensures
        ({
            let found = vendor_nodes(devices@);
            match r {
                Ok(node) => found == seq![(node.path@, node.pid)],
                Err(e) => if found.len() == 0 {
                    e.fault == StartFault::NoVendorInterface && e.message@ == no_vendor_text()
                } else {
                    &&& found.len() > 1
                    &&& e.fault == StartFault::ManyVendorInterfaces
                    &&& e.message@ == many_vendors_text(found)
                },
            }
        }),
{
    let mut found = find_vendor_nodes(devices);
    let ghost pairs = node_pairs(found@);
    if found.len() == 0 {
        let mut message =
            "no WLmouse vendor command interface found (VID 0x".to_owned();
        message.append(usb::vid_marker().as_str());
        message.append(
            ", usage_page 0xffff/usage 0). Is the dongle connected? (check: lsusb | grep -i 36a7)",
        );
        return Err(StartError { fault: StartFault::NoVendorInterface, message });
    }
    if found.len() > 1 {
        return Err(
            StartError {
                fault: StartFault::ManyVendorInterfaces,
                message: many_vendors_message(&found),
            },
        );
    }
    let node = found.remove(0);
    assert(pairs =~= seq![(node.path@, node.pid)]);
    Ok(node)
}

// ---------------------------------------------------------------- event node
/// An event node that may be grabbed.
#[derive(Debug)]
pub struct EventNode {
    pub path: String,
    pub name: String,
}

/// The dongle's event nodes as far as they were looked at.
#[derive(Debug)]
pub struct NodeScan {
    /// What tells the sysfs paths of the dongle's nodes.
    pub needle: Needle,
    /// The dongle's nodes, for messages.
    pub dongle_nodes: Vec<String>,
    /// Those that advertise the button.
    pub matchers: Vec<EventNode>,
}

pub open spec fn event_pairs(nodes: Seq<EventNode>) -> Seq<(Seq<char>, Seq<char>)> {
    Seq::new(nodes.len(), |i: int| (nodes[i].path@, nodes[i].name@))
}

pub open spec fn shown_name(name: Option<&str>) -> Seq<char> {
    match name {
        Some(n) => n@,
        None => "?"@,
    }
}

/// `/dev/input/event6 ("HUAN 8K RECEIVER")`.
pub open spec fn event_label(path: Seq<char>, name: Seq<char>) -> Seq<char> {
    path + " (\""@ + name + "\")"@
}

/// What is known of an event node when it is looked at.
pub struct Candidate {
    pub path: Seq<char>,
    pub name: Seq<char>,
    /// The canonical sysfs path in lower case; empty where there is none.
    pub canon_lower: Seq<char>,
    pub has_button: bool,
}

/// A scan: labels of the dongle's nodes, and path and name of those with the
/// button.
#[verifier::ext_equal]
pub struct ScanView {
    pub needle: NeedleView,
    pub dongle_nodes: Seq<Seq<char>>,
    pub matchers: Seq<(Seq<char>, Seq<char>)>,
}

impl ScanView {
    pub open spec fn with(self, c: Candidate) -> ScanView {
        if !self.needle.finds(c.canon_lower) {
            self
        } else {
            ScanView {
                needle: self.needle,
                dongle_nodes: self.dongle_nodes.push(event_label(c.path, c.name)),
                matchers: if c.has_button {
                    self.matchers.push((c.path, c.name))
                } else {
                    self.matchers
                },
            }
        }
    }
}

/// The lower case of a canonical path, empty where there is none.
pub open spec fn canon_text(canon: Option<&str>) -> Seq<char> {
    match canon {
        Some(path) => text::lowercase(path@),
        None => text::lowercase(Seq::empty()),
    }
}

impl View for NodeScan {
    type V = ScanView;

    open spec fn view(&self) -> ScanView {
        ScanView {
            needle: self.needle@,
            dongle_nodes: text::texts(self.dongle_nodes@),
            matchers: event_pairs(self.matchers@),
        }
    }
}

impl NodeScan {
    pub fn new(scope: &Scope) -> (r: NodeScan)
        ensures
            r@ == (ScanView {
                needle: scope.spec_needle(),
                dongle_nodes: Seq::empty(),
                matchers: Seq::empty(),
            }),
    {
        let r = NodeScan {
            needle: scope.needle(),
            dongle_nodes: Vec::new(),
            matchers: Vec::new(),
        };
        assert(r@ =~= ScanView {
            needle: scope.spec_needle(),
            dongle_nodes: Seq::empty(),
            matchers: Seq::empty(),
        });
        r
    }

    /// Looks at one node, given the lower case of its canonical path.
    pub fn visit_lowered(
        &mut self,
        canon_lower: &str,
        path: &str,
        name: Option<&str>,
        has_button: bool,
    )
        ensures
            final(self)@ == old(self)@.with(
                Candidate {
                    path: path@,
                    name: shown_name(name),
                    canon_lower: canon_lower@,
                    has_button,
                },
            ),
    {
        let ghost before = self@;
        let ghost c = Candidate {
            path: path@,
            name: shown_name(name),
            canon_lower: canon_lower@,
            has_button,
        };
        if !self.needle.find_in(canon_lower) {
            return ;
        }
        let shown: String = match name {
            Some(n) => n.to_owned(),
            None => "?".to_owned(),
        };
        let mut label = path.to_owned();
        label.append(" (\"");
        label.append(shown.as_str());
        label.append("\")");
        self.dongle_nodes.push(label);
        assert(text::texts(self.dongle_nodes@) =~= before.dongle_nodes.push(
            event_label(c.path, c.name),
        ));
        if has_button {
            self.matchers.push(EventNode { path: path.to_owned(), name: shown });
            assert(event_pairs(self.matchers@) =~= before.matchers.push((c.path, c.name)));
        }
    }

    /// Looks at one node: in scope it is one of the dongle's, and it matches
    /// if it advertises the button.
    pub fn visit(
        &mut self,
        canon: Option<&str>,
        path: &str,
        name: Option<&str>,
        supported: Option<&AttributeSetRef<KeyCode>>,
        button: u16,
    )
        ensures
            final(self)@ == old(self)@.with(
                Candidate {
                    path: path@,
                    name: shown_name(name),
                    canon_lower: canon_text(canon),
                    has_button: capability::advertised(supported).contains(button),
                },
            ),
    {
        let lower = match canon {
            Some(c) => text::to_lowercase(c),
            None => {
                let empty = String::new();
                text::to_lowercase(empty.as_str())
            },
        };
        self.visit_lowered(lower.as_str(), path, name, capability::advertises(supported, button));
    }

    /// Whether a list of nodes from sysfs is needed to explain the refusal.
    pub fn needs_sysfs(&self) -> (r: bool)
        ensures
            r == (self@.matchers.len() == 0),
    {
        self.matchers.len() == 0
    }
}

/// What the refusal says of the nodes that were seen.
pub open spec fn seen_text(
    dongle_nodes: Seq<Seq<char>>,
    sysfs_nodes: Seq<Seq<char>>,
    button: u16,
) -> Seq<char> {
    if dongle_nodes.len() != 0 {
        text::joined(dongle_nodes, ", "@) + " (none advertises "@ + keys::key_text(button) + ")"@
    } else if sysfs_nodes.len() != 0 {
        "none openable"@ + " — but sysfs lists dongle nodes "@ + text::joined(sysfs_nodes, ", "@)
            + " (not openable by you: are you in the 'input' group? full re-login after usermod; or run with sudo to test)"@
    } else {
        "none openable"@
            + " (and sysfs lists no dongle evdev nodes at all — dongle disconnected?)"@
    }
}

pub open spec fn no_node_text(seen: Seq<char>, button: u16) -> Seq<char> {
    "no dongle evdev node advertises key "@ + keys::key_text(button) + " ("@ + number::dec(
        button as nat,
    )
        + "). Is the mouse button bound to that key in the gm.wlmouse.gg web UI? Dongle nodes seen: "@
        + seen
}

pub open spec fn first_texts(pairs: Seq<(Seq<char>, Seq<char>)>) -> Seq<Seq<char>> {
    Seq::new(pairs.len(), |i: int| pairs[i].0)
}

pub open spec fn many_nodes_text(matchers: Seq<(Seq<char>, Seq<char>)>, button: u16) -> Seq<char> {
    number::dec(matchers.len()) + " dongle nodes advertise key "@ + keys::key_text(button) + " ("@
        + number::dec(button as nat) + "): "@ + text::joined(first_texts(matchers), ", "@)
        + " — ambiguous, cannot proceed"@
}

fn seen_message(dongle_nodes: &Vec<String>, sysfs_nodes: &Vec<String>, button: u16) -> (r: String)
    ensures
        r@ == seen_text(text::texts(dongle_nodes@), text::texts(sysfs_nodes@), button),
{
    if dongle_nodes.len() != 0 {
        let mut out = text::join(dongle_nodes, ", ");
        out.append(" (none advertises ");
        out.append(keys::key_name(button).as_str());
        out.append(")");
        out
    } else if sysfs_nodes.len() != 0 {
        let mut out = "none openable".to_owned();
        out.append(" — but sysfs lists dongle nodes ");
        out.append(text::join(sysfs_nodes, ", ").as_str());
        out.append(
            " (not openable by you: are you in the 'input' group? full re-login after usermod; or run with sudo to test)",
        );
        out
    } else {
        let mut out = "none openable".to_owned();
        out.append(" (and sysfs lists no dongle evdev nodes at all — dongle disconnected?)");
        out
    }
}

/// Why there is no node to grab.
pub fn no_node_message(dongle_nodes: &Vec<String>, sysfs_nodes: &Vec<String>, button: u16) -> (r:
    String)
    ensures
        r@ == no_node_text(
            seen_text(text::texts(dongle_nodes@), text::texts(sysfs_nodes@), button),
            button,
        ),
{
    let mut out = "no dongle evdev node advertises key ".to_owned();
    out.append(keys::key_name(button).as_str());
    out.append(" (");
    out.append(number::to_dec(button as u64).as_str());
    out.append(
        "). Is the mouse button bound to that key in the gm.wlmouse.gg web UI? Dongle nodes seen: ",
    );
    out.append(seen_message(dongle_nodes, sysfs_nodes, button).as_str());
    out
}

fn many_nodes_message(matchers: &Vec<EventNode>, button: u16) -> (r: String)
    ensures
        r@ == many_nodes_text(event_pairs(matchers@), button),
{
    let mut paths: Vec<String> = Vec::new();
    for i in 0..matchers.len()
        invariant
            paths@.len() == i,
            forall|j: int| 0 <= j < i ==> (#[trigger] paths@[j])@ == matchers@[j].path@,
    {
        paths.push(matchers[i].path.clone());
    }
    assert(text::texts(paths@) =~= first_texts(event_pairs(matchers@)));
    let mut out = number::to_dec(matchers.len() as u64);
    out.append(" dongle nodes advertise key ");
    out.append(keys::key_name(button).as_str());
    out.append(" (");
    out.append(number::to_dec(button as u64).as_str());
    out.append("): ");
    out.append(text::join(&paths, ", ").as_str());
    out.append(" — ambiguous, cannot proceed");
    out
}

/// The single dongle event node that advertises the button.
pub fn select_node(scan: NodeScan, button: u16, sysfs_nodes: &Vec<String>) -> (r: Result<
    EventNode,
    StartError,
>)
    ensures
        ({
            let found = scan@.matchers;
            match r {
                Ok(node) => found == seq![(node.path@, node.name@)],
                Err(e) => if found.len() == 0 {
                    &&& e.fault == StartFault::NoButtonNode
                    &&& e.message@ == no_node_text(
                        seen_text(scan@.dongle_nodes, text::texts(sysfs_nodes@), button),
                        button,
                    )
                } else {
                    &&& found.len() > 1
                    &&& e.fault == StartFault::ManyButtonNodes
                    &&& e.message@ == many_nodes_text(found, button)
                },
            }
        }),
{
    let ghost pairs = event_pairs(scan.matchers@);
    if scan.matchers.len() == 0 {
        return Err(
            StartError {
                fault: StartFault::NoButtonNode,
                message: no_node_message(&scan.dongle_nodes, sysfs_nodes, button),
            },
        );
    }
    if scan.matchers.len() > 1 {
        return Err(
            StartError {
                fault: StartFault::ManyButtonNodes,
                message: many_nodes_message(&scan.matchers, button),
            },
        );
    }
    let mut matchers = scan.matchers;
    let node = matchers.remove(0);
    assert(pairs =~= seq![(node.path@, node.name@)]);
    Ok(node)
}

pub open spec fn grabbed_text(path: Seq<char>) -> Seq<char> {
    path + " is already grabbed — is another wl-sniper already running?"@
}

/// A node that someone else has grabbed is not for us.
pub fn check_grab(path: &str, grabbed: bool) -> (r: Result<(), StartError>)
    ensures
        match r {
            Ok(_) => !grabbed,
            Err(e) => grabbed && e.fault == StartFault::AlreadyGrabbed && e.message@
                == grabbed_text(path@),
        },
{
    if grabbed {
        let mut message = path.to_owned();
        message.append(" is already grabbed — is another wl-sniper already running?");
        Err(StartError { fault: StartFault::AlreadyGrabbed, message })
    } else {
        Ok(())
    }
}

// ---------------------------------------------------------------- laws
/// A scan of these candidates, one after the other.
pub open spec fn scanned(start: ScanView, nodes: Seq<Candidate>) -> ScanView
    decreases nodes.len(),
{
    if nodes.len() == 0 {
        start
    } else {
        scanned(start, nodes.drop_last()).with(nodes.last())
    }
}

/// A candidate to grab: one of the dongle's nodes that advertises the button.
pub open spec fn fits(c: Candidate, needle: NeedleView) -> bool {
    needle.finds(c.canon_lower) && c.has_button
}

/// The test for candidates to grab.
pub open spec fn fitting(needle: NeedleView) -> spec_fn(Candidate) -> bool {
    |c: Candidate| fits(c, needle)
}

/// Path and name of the candidates.
pub open spec fn pairs_of(nodes: Seq<Candidate>) -> Seq<(Seq<char>, Seq<char>)> {
    Seq::new(nodes.len(), |i: int| (nodes[i].path, nodes[i].name))
}

/// However many nodes there are, the scan ends with exactly those in scope
/// that advertise the button, in the order in which they were seen: a node out
/// of scope is never among them.
pub proof fn law_scan_finds_exactly_the_button_nodes(start: ScanView, nodes: Seq<Candidate>)
    requires
        start.matchers.len() == 0,
    ensures
        scanned(start, nodes).needle == start.needle,
        scanned(start, nodes).matchers == pairs_of(nodes.filter(fitting(start.needle))),
    decreases nodes.len(),
{
    let p = fitting(start.needle);
    reveal(Seq::filter);
    if nodes.len() == 0 {
        assert(pairs_of(nodes.filter(p)) =~= start.matchers);
    } else {
        law_scan_finds_exactly_the_button_nodes(start, nodes.drop_last());
        let front = nodes.drop_last().filter(p);
        if p(nodes.last()) {
            assert(nodes.filter(p) =~= front.push(nodes.last()));
            assert(pairs_of(front.push(nodes.last())) =~= pairs_of(front).push(
                (nodes.last().path, nodes.last().name),
            ));
        }
    }
}

} // verus!
