//! The daemon's start, as a machine that says what to do next and is told how
//! it went: find the vendor interface, ask the mouse, find and grab the node
//! that carries the button, put the mouse on its normal stage.
use crate::daemon;
use crate::daemon::Config;
use crate::protocol;
use crate::protocol::FRAME_SIZE;
use crate::sniper;
use crate::sniper::{EventNode, HidInfo, NodeScan, VendorNode};
use crate::text;
use crate::transport;
use crate::transport::{Exchange, Goal, HidTransport, Phase};
use crate::usb;
use crate::usb::{Scope, SysfsEntry};
use vstd::prelude::*;

verus! {

/// What the user asked for.
#[derive(Clone, Copy, Debug, PartialEq, Eq, Structural)]
pub struct Options {
    pub button: u16,
    pub sniper_stage: u8,
    pub normal_stage: u8,
    /// Profile to modify; the active one where none is given.
    pub profile: Option<u8>,
    pub quiet: bool,
}

impl Options {
    pub open spec fn spec_config(self, profile: u8) -> Config {
        Config {
            button: self.button,
            sniper_stage: self.sniper_stage,
            normal_stage: self.normal_stage,
            profile,
            quiet: self.quiet,
        }
    }

    fn config(&self, profile: u8) -> (r: Config)
        ensures
            r == self.spec_config(profile),
    {
        Config {
            button: self.button,
            sniper_stage: self.sniper_stage,
            normal_stage: self.normal_stage,
            profile,
            quiet: self.quiet,
        }
    }
}

/// Where the start stands.
#[derive(Debug)]
pub enum Startup {
    /// The HID interfaces are to be listed.
    ListInterfaces(Options),
    /// The vendor interface is to be opened.
    OpenVendor(Options, VendorNode),
    /// The mouse is asked where it puts the status of its replies.
    Detect(Options, VendorNode, Exchange),
    /// The mouse is asked for its active profile.
    AskProfile(Options, VendorNode, HidTransport, Exchange),
    /// The sysfs path of the vendor interface is to be found.
    Resolve(Config, VendorNode),
    /// The event nodes are to be looked at.
    Scan(Config, VendorNode, Scope),
    /// No node fits: the nodes that sysfs lists are to be found.
    ListSysfs(Config, NodeScan, String),
    /// The node that carries the button is to be opened.
    OpenNode(Config, VendorNode, EventNode),
    /// It is to be grabbed.
    Grab(Config, VendorNode, EventNode),
    /// The mouse is to be put on its normal stage.
    Baseline(Config, VendorNode, EventNode),
    /// That failed for this reason, and the user is to be warned.
    Warn(Config, VendorNode, EventNode, String),
    /// The user is to be told that everything is in place.
    Announce(Config, EventNode, String),
    /// The node is to be read without waiting.
    Unblock(Config, EventNode),
    /// The start is over; events of the node count from now on.
    Ready(Config, EventNode),
    /// The start is over; this is why.
    Refused(String),
}

/// What is to be done next.
#[derive(Debug)]
pub enum Step {
    ListInterfaces,
    /// Open the HID interface with this path.
    OpenVendor(String),
    /// Go on with the exchange.
    Exchange(transport::Action),
    /// Find the canonical form of this path.
    Canonicalize(String),
    /// Look at every event node with a scan of this scope.
    ScanNodes(NodeScan),
    /// List /sys/class/input.
    ListSysfs,
    /// Open the event node with this path, and see whether it is grabbed.
    OpenNode(String),
    /// Grab the open event node.
    Grab,
    /// Write this feature report.
    Write([u8; FRAME_SIZE]),
    /// Warn that the mouse could not be put on this stage, and why. The line is
    /// `daemon::baseline_failed_line`, with the time.
    Warn { stage: u8, error: String },
    /// Print this line.
    Print(String),
    /// Make the open event node non-blocking.
    Unblock,
    /// Run.
    Run,
    /// Stop with this message.
    Refuse(String),
}

/// How it went.
#[derive(Debug)]
pub enum Outcome {
    Done,
    Failed(String),
    /// The path of the vendor interface cannot be handed to the system.
    BadPath(String),
    Interfaces(Vec<HidInfo>),
    Exchange(transport::Event),
    Canonical(Option<String>),
    Scanned(NodeScan),
    Sysfs(Vec<SysfsEntry>),
    /// The event node is open; someone may have grabbed it.
    Opened(bool),
}

// ---------------------------------------------------------------- messages
/// A message and its cause.
pub open spec fn caused(message: Seq<char>, cause: Seq<char>) -> Seq<char> {
    message + ": "@ + cause
}

pub open spec fn vendor_open_text(path: Seq<char>) -> Seq<char> {
    "could not open "@ + path
        + " (no /dev/hidraw* in a container, or missing permissions — input group + udev rule, see README)"@
}

pub open spec fn node_open_text(path: Seq<char>) -> Seq<char> {
    "could not open "@ + path
        + " — permission? (are you in the 'input' group? full re-login after usermod)"@
}

pub open spec fn node_grab_text(path: Seq<char>) -> Seq<char> {
    "could not grab "@ + path + " (another process may have grabbed it in between)"@
}

/// A refusal: `before`, `path`, `after`, and the cause.
fn refuse(before: &str, path: &str, after: &str, cause: &str) -> (r: Startup)
    ensures
        r matches Startup::Refused(m) && m@ == caused(before@ + path@ + after@, cause@),
{
    let mut message = before.to_owned();
    message.append(path);
    message.append(after);
    message.append(": ");
    message.append(cause);
    Startup::Refused(message)
}

/// A refusal with a message and its cause.
fn refuse_for(before: &str, cause: &str) -> (r: Startup)
    ensures
        r matches Startup::Refused(m) && m@ == caused(before@, cause@),
{
    let mut message = before.to_owned();
    message.append(": ");
    message.append(cause);
    Startup::Refused(message)
}

pub open spec fn is_refused(s: Startup, message: Seq<char>) -> bool {
    s matches Startup::Refused(m) && m@ == message
}

// ---------------------------------------------------------------- steps
/// A fresh scan for the nodes of a dongle.
pub open spec fn fresh_scan(scope: Scope) -> sniper::ScanView {
    sniper::ScanView {
        needle: scope.spec_needle(),
        dongle_nodes: Seq::empty(),
        matchers: Seq::empty(),
    }
}

/// The prefix behind an optional canonical path.
pub open spec fn prefix_behind(canon: Option<String>) -> Option<Seq<char>> {
    match canon {
        Some(path) => usb::device_prefix(path@),
        None => None,
    }
}

/// The mouse is known well enough to look for the node.
pub open spec fn resolves(next: Startup, config: Config, vendor: VendorNode) -> bool {
    next == Startup::Resolve(config, vendor)
}

/// The node is grabbed and the baseline done with.
pub open spec fn announces(
    next: Startup,
    config: Config,
    vendor: VendorNode,
    node: EventNode,
) -> bool {
    if config.quiet {
        next == Startup::Unblock(config, node)
    } else {
        next matches Startup::Announce(c, n, line) && c == config && n == node && line@
            == daemon::banner_text(
            config,
            (vendor.path@, vendor.pid),
            (node.path@, node.name@),
        )
    }
}

impl Startup {
    /// The exchanges are those that the start makes.
    pub open spec fn wf(self) -> bool {
        match self {
            Startup::Detect(_, _, x) => {
                &&& x.wf()
                &&& x.goal == Goal::Detect
                &&& x.report@ == protocol::report(seq![0x02u8, 0x10u8, 0x00u8, 0x81u8])
                &&& !x.is_over()
            },
            Startup::AskProfile(options, _, t, x) => {
                &&& x.wf()
                &&& t.wf()
                &&& options.profile is None
                &&& x.goal == Goal::Command { cmd: 0x85u8, hid_index: t.hid_index }
                &&& x.report@ == protocol::report(seq![0x02u8, 0x01u8, 0x00u8, 0x85u8])
                &&& !x.is_over()
            },
            _ => true,
        }
    }

    /// After a detection that went on to `x`.
    pub open spec fn detected(
        options: Options,
        vendor: VendorNode,
        x: Exchange,
        next: Startup,
    ) -> bool {
        match x.phase {
            Phase::Finished(resp) => {
                let hid_index = if resp@[0] == protocol::RESPONSE_OK {
                    1u8
                } else {
                    0u8
                };
                match options.profile {
                    Some(profile) => resolves(next, options.spec_config(profile), vendor),
                    None => {
                        &&& next matches Startup::AskProfile(o, v, t, y)
                        &&& o == options
                        &&& v == vendor
                        &&& t.hid_index == hid_index
                        &&& y.attempt == 0
                        &&& y.phase == Phase::Write
                    },
                }
            },
            Phase::Failed(error) => is_refused(
                next,
                caused(
                    "mouse did not answer the vendor interface (asleep or out of range? wiggle it)"@,
                    error.spec_text(),
                ),
            ),
            _ => next == Startup::Detect(options, vendor, x),
        }
    }

    /// After a question for the profile that went on to `x`.
    pub open spec fn answered(
        options: Options,
        vendor: VendorNode,
        t: HidTransport,
        x: Exchange,
        next: Startup,
    ) -> bool {
        match x.phase {
            Phase::Finished(resp) => resolves(
                next,
                options.spec_config(resp@[7 - t.hid_index]),
                vendor,
            ),
            Phase::Failed(error) => is_refused(
                next,
                caused("get_profile_id failed"@, error.spec_text()),
            ),
            _ => next == Startup::AskProfile(options, vendor, t, x),
        }
    }

    /// `next` is where the start stands after `outcome`. An outcome that does
    /// not belong to the step changes nothing.
    pub open spec fn moves(self, outcome: Outcome, next: Startup) -> bool {
        match (self, outcome) {
            (Startup::ListInterfaces(options), Outcome::Interfaces(devices)) => {
                let found = sniper::vendor_nodes(devices@);
                if found.len() == 1 {
                    next matches Startup::OpenVendor(o, v) && o == options && (v.path@, v.pid)
                        == found[0]
                } else if found.len() == 0 {
                    is_refused(next, sniper::no_vendor_text())
                } else {
                    is_refused(next, sniper::many_vendors_text(found))
                }
            },
            (Startup::ListInterfaces(_), Outcome::Failed(e)) => is_refused(
                next,
                caused("hidapi init failed"@, e@),
            ),
            (Startup::OpenVendor(options, vendor), Outcome::Done) => {
                &&& next matches Startup::Detect(o, v, x)
                &&& o == options
                &&& v == vendor
                &&& x.attempt == 0
                &&& x.phase == Phase::Write
            },
            (Startup::OpenVendor(_, vendor), Outcome::BadPath(e)) => is_refused(
                next,
                caused("bad vendor path "@ + vendor.path@, e@),
            ),
            (Startup::OpenVendor(_, vendor), Outcome::Failed(e)) => is_refused(
                next,
                caused(vendor_open_text(vendor.path@), e@),
            ),
            (Startup::Detect(options, vendor, x), Outcome::Exchange(e)) => exists|y: Exchange|
                x.moves(e, y) && #[trigger] Startup::detected(options, vendor, y, next),
            (Startup::AskProfile(options, vendor, t, x), Outcome::Exchange(e)) => exists|
                y: Exchange,
            |
                x.moves(e, y) && #[trigger] Startup::answered(options, vendor, t, y, next),
            (Startup::Resolve(config, vendor), Outcome::Canonical(canon)) => {
                &&& next matches Startup::Scan(c, v, scope)
                &&& c == config
                &&& v == vendor
                &&& text::opt_text(scope.usb_prefix) == prefix_behind(canon)
                &&& scope.vidpid_marker@ == usb::marker(vendor.pid)
            },
            (Startup::Scan(config, vendor, scope), Outcome::Scanned(scan)) => {
                let found = scan@.matchers;
                if found.len() == 0 {
                    next == Startup::ListSysfs(config, scan, scope.vidpid_marker)
                } else if found.len() == 1 {
                    &&& next matches Startup::OpenNode(c, v, node)
                    &&& c == config
                    &&& v == vendor
                    &&& (node.path@, node.name@) == found[0]
                } else {
                    is_refused(next, sniper::many_nodes_text(found, config.button))
                }
            },
            (Startup::ListSysfs(config, scan, wanted), Outcome::Sysfs(entries)) => is_refused(
                next,
                sniper::no_node_text(
                    sniper::seen_text(
                        scan@.dongle_nodes,
                        usb::event_nodes(entries@, wanted@),
                        config.button,
                    ),
                    config.button,
                ),
            ),
            (Startup::OpenNode(config, vendor, node), Outcome::Opened(grabbed)) => if grabbed {
                is_refused(next, sniper::grabbed_text(node.path@))
            } else {
                next == Startup::Grab(config, vendor, node)
            },
            (Startup::OpenNode(_, _, node), Outcome::Failed(e)) => is_refused(
                next,
                caused(node_open_text(node.path@), e@),
            ),
            (Startup::Grab(config, vendor, node), Outcome::Done) => next == Startup::Baseline(
                config,
                vendor,
                node,
            ),
            (Startup::Grab(_, _, node), Outcome::Failed(e)) => is_refused(
                next,
                caused(node_grab_text(node.path@), e@),
            ),
            (Startup::Baseline(config, vendor, node), Outcome::Done) => announces(
                next,
                config,
                vendor,
                node,
            ),
            (Startup::Baseline(config, vendor, node), Outcome::Failed(e)) => {
                &&& next matches Startup::Warn(c, v, n, error)
                &&& c == config
                &&& v == vendor
                &&& n == node
                &&& error == e
            },
            (Startup::Warn(config, vendor, node, _), Outcome::Done) => announces(
                next,
                config,
                vendor,
                node,
            ),
            (Startup::Announce(config, node, _), Outcome::Done) => next == Startup::Unblock(
                config,
                node,
            ),
            (Startup::Unblock(config, node), Outcome::Done) => next == Startup::Ready(config, node),
            (Startup::Unblock(_, node), Outcome::Failed(e)) => is_refused(
                next,
                caused("set_nonblocking on "@ + node.path@, e@),
            ),
            _ => next == self,
        }
    }

    pub fn new(options: Options) -> (r: Startup)
        ensures
            r == Startup::ListInterfaces(options),
            r.wf(),
    {
        Startup::ListInterfaces(options)
    }

    /// What to do now.
    pub fn step(&self) -> (r: Step)
        ensures
            match *self {
                Startup::ListInterfaces(_) => r == Step::ListInterfaces,
                Startup::OpenVendor(_, vendor) => r matches Step::OpenVendor(p) && p@
                    == vendor.path@,
                Startup::Detect(_, _, x) => r matches Step::Exchange(a) && x.acts(a),
                Startup::AskProfile(_, _, _, x) => r matches Step::Exchange(a) && x.acts(a),
                Startup::Resolve(_, vendor) => r matches Step::Canonicalize(p) && p@
                    == usb::sysfs_link(vendor.path@),
                Startup::Scan(_, _, scope) => r matches Step::ScanNodes(scan) && scan@
                    == fresh_scan(scope),
                Startup::ListSysfs(_, _, _) => r == Step::ListSysfs,
                Startup::OpenNode(_, _, node) => r matches Step::OpenNode(p) && p@ == node.path@,
                Startup::Grab(_, _, _) => r == Step::Grab,
                Startup::Baseline(config, _, _) => r matches Step::Write(f) && f@
                    == protocol::framed(
                    protocol::set_active_dpi(config.profile, config.normal_stage),
                ),
                Startup::Warn(config, _, _, error) => r matches Step::Warn { stage, error: e }
                    && stage == config.normal_stage && e@ == error@,
                Startup::Announce(_, _, line) => r matches Step::Print(l) && l@ == line@,
                Startup::Unblock(_, _) => r == Step::Unblock,
                Startup::Ready(_, _) => r == Step::Run,
                Startup::Refused(message) => r matches Step::Refuse(m) && m@ == message@,
            },
    {
        match self {
            Startup::ListInterfaces(_) => Step::ListInterfaces,
            Startup::OpenVendor(_, vendor) => Step::OpenVendor(vendor.path.clone()),
            Startup::Detect(_, _, x) => Step::Exchange(x.action()),
            Startup::AskProfile(_, _, _, x) => Step::Exchange(x.action()),
            Startup::Resolve(_, vendor) => Step::Canonicalize(
                usb::sysfs_canon(vendor.path.as_str()),
            ),
            Startup::Scan(_, _, scope) => Step::ScanNodes(NodeScan::new(scope)),
            Startup::ListSysfs(_, _, _) => Step::ListSysfs,
            Startup::OpenNode(_, _, node) => Step::OpenNode(node.path.clone()),
            Startup::Grab(_, _, _) => Step::Grab,
            Startup::Baseline(config, _, _) => Step::Write(
                HidTransport::new().send_only(&config.baseline_report()),
            ),
            Startup::Warn(config, _, _, error) => Step::Warn {
                stage: config.normal_stage,
                error: error.clone(),
            },
            Startup::Announce(_, _, line) => Step::Print(line.clone()),
            Startup::Unblock(_, _) => Step::Unblock,
            Startup::Ready(_, _) => Step::Run,
            Startup::Refused(message) => Step::Refuse(message.clone()),
        }
    }

    fn after_detect(options: Options, vendor: VendorNode, x: Exchange) -> (next: Startup)
        requires
            x.wf(),
            x.goal == Goal::Detect,
            x.report@ == protocol::report(seq![0x02u8, 0x10u8, 0x00u8, 0x81u8]),
        ensures
            Startup::detected(options, vendor, x, next),
            next.wf(),
    {
        match &x.phase {
            Phase::Finished(resp) => {
                let mut t = HidTransport::new();
                t.use_detected(resp);
                match options.profile {
                    Some(profile) => Startup::Resolve(options.config(profile), vendor),
                    None => {
                        let ask = protocol::build_get_profile_id();
                        Startup::AskProfile(options, vendor, t, t.send_and_recv(&ask))
                    },
                }
            },
            Phase::Failed(error) => refuse_for(
                "mouse did not answer the vendor interface (asleep or out of range? wiggle it)",
                error.message().as_str(),
            ),
            _ => Startup::Detect(options, vendor, x),
        }
    }

    fn after_answer(
        options: Options,
        vendor: VendorNode,
        t: HidTransport,
        x: Exchange,
    ) -> (next: Startup)
        requires
            x.wf(),
            t.wf(),
            options.profile is None,
            x.goal == (Goal::Command { cmd: 0x85u8, hid_index: t.hid_index }),
            x.report@ == protocol::report(seq![0x02u8, 0x01u8, 0x00u8, 0x85u8]),
        ensures
            Startup::answered(options, vendor, t, x, next),
            next.wf(),
    {
        match &x.phase {
            Phase::Finished(resp) => {
                let profile: u8 = daemon::choose_profile(options.profile, resp, &t);
                Startup::Resolve(options.config(profile), vendor)
            },
            Phase::Failed(error) => refuse_for(
                "get_profile_id failed",
                error.message().as_str(),
            ),
            _ => Startup::AskProfile(options, vendor, t, x),
        }
    }

    fn announce(config: Config, vendor: VendorNode, node: EventNode) -> (next: Startup)
        ensures
            announces(next, config, vendor, node),
            next.wf(),
    {
        match config.banner(&vendor, &node) {
            Some(line) => Startup::Announce(config, node, line),
            None => Startup::Unblock(config, node),
        }
    }

    /// Takes in how the step went.
    pub fn advance(self, outcome: Outcome) -> (next: Startup)
        requires
            self.wf(),
        ensures
            self.moves(outcome, next),
            next.wf(),
    {
        match (self, outcome) {
            (Startup::ListInterfaces(options), Outcome::Interfaces(devices)) => {
                match sniper::select_vendor(&devices) {
                    Ok(vendor) => Startup::OpenVendor(options, vendor),
                    Err(e) => Startup::Refused(e.message),
                }
            },
            (Startup::ListInterfaces(_), Outcome::Failed(e)) => refuse_for(
                "hidapi init failed",
                e.as_str(),
            ),
            (Startup::OpenVendor(options, vendor), Outcome::Done) => {
                let t = HidTransport::new();
                Startup::Detect(options, vendor, t.detect_hid_index())
            },
            (Startup::OpenVendor(_, vendor), Outcome::BadPath(e)) => {
                let mut message = "bad vendor path ".to_owned();
                message.append(vendor.path.as_str());
                refuse_for(message.as_str(), e.as_str())
            },
            (Startup::OpenVendor(_, vendor), Outcome::Failed(e)) => refuse(
                "could not open ",
                vendor.path.as_str(),
                " (no /dev/hidraw* in a container, or missing permissions — input group + udev rule, see README)",
                e.as_str(),
            ),
            (Startup::Detect(options, vendor, x), Outcome::Exchange(e)) => {
                let mut y = x;
                y.advance(e);
                Startup::after_detect(options, vendor, y)
            },
            (Startup::AskProfile(options, vendor, t, x), Outcome::Exchange(e)) => {
                let mut y = x;
                y.advance(e);
                Startup::after_answer(options, vendor, t, y)
            },
            (Startup::Resolve(config, vendor), Outcome::Canonical(canon)) => {
                let scope = match &canon {
                    Some(path) => usb::dongle_scope(Some(path.as_str()), vendor.pid),
                    None => usb::dongle_scope(None, vendor.pid),
                };
                Startup::Scan(config, vendor, scope)
            },
            (Startup::Scan(config, vendor, scope), Outcome::Scanned(scan)) => {
                if scan.needs_sysfs() {
                    return Startup::ListSysfs(config, scan, scope.vidpid_marker);
                }
                let none: Vec<String> = Vec::new();
                match sniper::select_node(scan, config.button, &none) {
                    Ok(node) => Startup::OpenNode(config, vendor, node),
                    Err(e) => Startup::Refused(e.message),
                }
            },
            (Startup::ListSysfs(config, scan, wanted), Outcome::Sysfs(entries)) => {
                let nodes = usb::dongle_event_nodes_from_sysfs(&entries, wanted.as_str());
                Startup::Refused(
                    sniper::no_node_message(&scan.dongle_nodes, &nodes, config.button),
                )
            },
            (Startup::OpenNode(config, vendor, node), Outcome::Opened(grabbed)) => {
                match sniper::check_grab(node.path.as_str(), grabbed) {
                    Ok(_) => Startup::Grab(config, vendor, node),
                    Err(e) => Startup::Refused(e.message),
                }
            },
            (Startup::OpenNode(_, _, node), Outcome::Failed(e)) => refuse(
                "could not open ",
                node.path.as_str(),
                " — permission? (are you in the 'input' group? full re-login after usermod)",
                e.as_str(),
            ),
            (Startup::Grab(config, vendor, node), Outcome::Done) => Startup::Baseline(
                config,
                vendor,
                node,
            ),
            (Startup::Grab(_, _, node), Outcome::Failed(e)) => refuse(
                "could not grab ",
                node.path.as_str(),
                " (another process may have grabbed it in between)",
                e.as_str(),
            ),
            (Startup::Baseline(config, vendor, node), Outcome::Done) => Startup::announce(
                config,
                vendor,
                node,
            ),
            (Startup::Baseline(config, vendor, node), Outcome::Failed(e)) => Startup::Warn(
                config,
                vendor,
                node,
                e,
            ),
            (Startup::Warn(config, vendor, node, _), Outcome::Done) => Startup::announce(
                config,
                vendor,
                node,
            ),
            (Startup::Announce(config, node, _), Outcome::Done) => Startup::Unblock(config, node),
            (Startup::Unblock(config, node), Outcome::Done) => Startup::Ready(config, node),
            (Startup::Unblock(_, node), Outcome::Failed(e)) => {
                let mut message = "set_nonblocking on ".to_owned();
                message.append(node.path.as_str());
                refuse_for(message.as_str(), e.as_str())
            },
            (same, _) => same,
        }
    }
}

// ---------------------------------------------------------------- laws
/// Until the node is grabbed the mouse is only asked: no report that the
/// exchanges write sets a stage.
pub proof fn law_start_only_asks_before_the_grab(s: Startup, x: Exchange, action: transport::Action)
    requires
        s.wf(),
        (s matches Startup::Detect(_, _, y) && y == x) || (s matches Startup::AskProfile(_, _, _, y)
            && y == x),
        x.acts(action),
    ensures
        action matches transport::Action::Write(f) ==> daemon::stage_set_by(f@.skip(1)) is None,
{
    daemon::law_queries_set_no_stage(0x02);
    if action is Write {
        let f = action->Write_0;
        assert(f@.skip(1) =~= x.report@);
    }
}

/// The start is over for good once it is refused or ready.
pub proof fn law_end_is_final(s: Startup, outcome: Outcome, next: Startup)
    requires
        s is Refused || s is Ready,
        s.moves(outcome, next),
    ensures
        next == s,
{
}

/// The configuration is what the options ask for.
pub open spec fn serves(options: Options, config: Config) -> bool {
    &&& config.button == options.button
    &&& config.sniper_stage == options.sniper_stage
    &&& config.normal_stage == options.normal_stage
    &&& config.quiet == options.quiet
    &&& options.profile matches Some(p) ==> config.profile == p
}

/// The start is for these options, and what it knows of the configuration is
/// what they ask for.
pub open spec fn keeps_options(options: Options, s: Startup) -> bool {
    match s {
        Startup::ListInterfaces(o) => o == options,
        Startup::OpenVendor(o, _) => o == options,
        Startup::Detect(o, _, _) => o == options,
        Startup::AskProfile(o, _, _, _) => o == options,
        Startup::Resolve(c, _) => serves(options, c),
        Startup::Scan(c, _, _) => serves(options, c),
        Startup::ListSysfs(c, _, _) => serves(options, c),
        Startup::OpenNode(c, _, _) => serves(options, c),
        Startup::Grab(c, _, _) => serves(options, c),
        Startup::Baseline(c, _, _) => serves(options, c),
        Startup::Warn(c, _, _, _) => serves(options, c),
        Startup::Announce(c, _, _) => serves(options, c),
        Startup::Unblock(c, _) => serves(options, c),
        Startup::Ready(c, _) => serves(options, c),
        Startup::Refused(_) => true,
    }
}

/// `states` is a start with these options, in which `outcomes[i]` leads from
/// one state to the next.
pub open spec fn is_start(
    options: Options,
    states: Seq<Startup>,
    outcomes: Seq<Outcome>,
) -> bool {
    &&& states.len() == outcomes.len() + 1
    &&& states[0] == Startup::ListInterfaces(options)
    &&& forall|i: int|
        0 <= i < outcomes.len() ==> #[trigger] states[i].moves(outcomes[i], states[i + 1])
    &&& forall|i: int| 0 <= i < states.len() ==> (#[trigger] states[i]).wf()
}

pub proof fn lemma_shorter_start(options: Options, states: Seq<Startup>, outcomes: Seq<Outcome>)
    requires
        is_start(options, states, outcomes),
        outcomes.len() > 0,
    ensures
        is_start(options, states.drop_last(), outcomes.drop_last()),
        states[states.len() - 2].moves(outcomes.last(), states.last()),
{
    let s = states.drop_last();
    let o = outcomes.drop_last();
    let last = outcomes.len() - 1;
    assert(states[last].moves(outcomes[last], states[last + 1]));
    assert forall|i: int| 0 <= i < o.len() implies #[trigger] s[i].moves(o[i], s[i + 1]) by {
        assert(states[i].moves(outcomes[i], states[i + 1]));
    }
    assert forall|i: int| 0 <= i < s.len() implies (#[trigger] s[i]).wf() by {
        assert(states[i].wf());
    }
}

proof fn lemma_keeps_options(options: Options, states: Seq<Startup>, outcomes: Seq<Outcome>)
    requires
        is_start(options, states, outcomes),
    ensures
        keeps_options(options, states.last()),
    decreases outcomes.len(),
{
    if outcomes.len() > 0 {
        lemma_shorter_start(options, states, outcomes);
        lemma_keeps_options(options, states.drop_last(), outcomes.drop_last());
    }
}

/// The configuration, once it is known.
pub open spec fn known_config(s: Startup) -> Option<Config> {
    match s {
        Startup::Resolve(c, _) => Some(c),
        Startup::Scan(c, _, _) => Some(c),
        Startup::ListSysfs(c, _, _) => Some(c),
        Startup::OpenNode(c, _, _) => Some(c),
        Startup::Grab(c, _, _) => Some(c),
        Startup::Baseline(c, _, _) => Some(c),
        Startup::Warn(c, _, _, _) => Some(c),
        Startup::Announce(c, _, _) => Some(c),
        Startup::Unblock(c, _) => Some(c),
        Startup::Ready(c, _) => Some(c),
        _ => None,
    }
}

/// At step `j` the detection accepts a reply whose status stands where
/// `hid_index` says.
pub open spec fn detects(
    states: Seq<Startup>,
    outcomes: Seq<Outcome>,
    hid_index: u8,
    j: int,
) -> bool {
    &&& 0 <= j < outcomes.len()
    &&& states[j] matches Startup::Detect(_, _, x) && x.phase is Read
    &&& outcomes[j] matches Outcome::Exchange(transport::Event::Reply(buffer)) && {
        let resp = transport::reply_in(buffer@);
        &&& transport::judgement(Goal::Detect, resp) == transport::Judgement::Accepted
        &&& hid_index == (if resp[0] == protocol::RESPONSE_OK {
            1u8
        } else {
            0u8
        })
    }
}

/// At step `i` the question for the profile accepts a reply that names it, of
/// a mouse that puts its status where `hid_index` says.
pub open spec fn names_profile(
    states: Seq<Startup>,
    outcomes: Seq<Outcome>,
    profile: u8,
    hid_index: u8,
    i: int,
) -> bool {
    &&& 0 <= i < outcomes.len()
    &&& states[i] matches Startup::AskProfile(_, _, t, x) && t.hid_index == hid_index
        && x.phase is Read
    &&& outcomes[i] matches Outcome::Exchange(transport::Event::Reply(buffer)) && {
        let resp = transport::reply_in(buffer@);
        &&& transport::judgement(Goal::Command { cmd: 0x85, hid_index }, resp)
            == transport::Judgement::Accepted
        &&& resp[7 - hid_index] == profile
    }
}

/// The mouse was asked, and `profile` is what it answered.
pub open spec fn is_active_profile(
    states: Seq<Startup>,
    outcomes: Seq<Outcome>,
    profile: u8,
) -> bool {
    exists|hid_index: u8, i: int, j: int|
        #![trigger names_profile(states, outcomes, profile, hid_index, i), detects(states, outcomes, hid_index, j)]
        j < i && names_profile(states, outcomes, profile, hid_index, i) && detects(
            states,
            outcomes,
            hid_index,
            j,
        )
}

/// An exchange comes to its end only by a read that brings an accepted reply.
proof fn lemma_finished_by_reply(x: Exchange, e: transport::Event, y: Exchange)
    requires
        x.moves(e, y),
        !x.is_over(),
        y.phase is Finished,
    ensures
        x.phase is Read,
        e matches transport::Event::Reply(buffer) && transport::reply_in(buffer@)
            == y.phase->Finished_0@ && transport::judgement(
            x.goal,
            transport::reply_in(buffer@),
        ) == transport::Judgement::Accepted,
{
}

proof fn lemma_index_is_detected(
    options: Options,
    states: Seq<Startup>,
    outcomes: Seq<Outcome>,
    hid_index: u8,
)
    requires
        is_start(options, states, outcomes),
        states.last() matches Startup::AskProfile(_, _, t, _) && t.hid_index == hid_index,
    ensures
        exists|j: int| #[trigger] detects(states, outcomes, hid_index, j),
    decreases outcomes.len(),
{
    lemma_shorter_start(options, states, outcomes);
    let s = states.drop_last();
    let o = outcomes.drop_last();
    let k = states.len() - 2;
    let before = states[k];
    assert(s.last() == before);
    assert(before.wf());
    assert(outcomes[k] == outcomes.last());
    match (before, outcomes[k]) {
        (Startup::Detect(options, vendor, x), Outcome::Exchange(e)) => {
            let y = choose|y: Exchange|
                x.moves(e, y) && #[trigger] Startup::detected(options, vendor, y, states.last());
            lemma_finished_by_reply(x, e, y);
            assert(detects(states, outcomes, hid_index, k));
        },
        _ => {
            lemma_index_is_detected(options, s, o, hid_index);
            let j = choose|j: int| #[trigger] detects(s, o, hid_index, j);
            assert(states[j] == s[j]);
            assert(detects(states, outcomes, hid_index, j));
        },
    }
}

proof fn lemma_profile_is_answered(
    options: Options,
    states: Seq<Startup>,
    outcomes: Seq<Outcome>,
    config: Config,
)
    requires
        is_start(options, states, outcomes),
        options.profile is None,
        known_config(states.last()) == Some(config),
    ensures
        is_active_profile(states, outcomes, config.profile),
    decreases outcomes.len(),
{
    lemma_shorter_start(options, states, outcomes);
    let s = states.drop_last();
    let o = outcomes.drop_last();
    let k = states.len() - 2;
    let before = states[k];
    let profile = config.profile;
    assert(s.last() == before);
    assert(before.wf());
    assert(outcomes[k] == outcomes.last());
    lemma_keeps_options(options, s, o);
    if known_config(before) is Some {
        lemma_profile_is_answered(options, s, o, config);
        let (h, i, j) = choose|h: u8, i: int, j: int|
            #![trigger names_profile(s, o, profile, h, i), detects(s, o, h, j)]
            j < i && names_profile(s, o, profile, h, i) && detects(s, o, h, j);
        assert(states[i] == s[i] && states[j] == s[j]);
        assert(names_profile(states, outcomes, profile, h, i));
        assert(detects(states, outcomes, h, j));
    } else {
        match (before, outcomes[k]) {
            (Startup::Detect(p, vendor, x), Outcome::Exchange(e)) => {
                let y = choose|y: Exchange|
                    x.moves(e, y) && #[trigger] Startup::detected(p, vendor, y, states.last());
                assert(p.profile is None);
            },
            (Startup::AskProfile(p, vendor, t, x), Outcome::Exchange(e)) => {
                let y = choose|y: Exchange|
                    x.moves(e, y) && #[trigger] Startup::answered(p, vendor, t, y, states.last());
                lemma_finished_by_reply(x, e, y);
                let h = t.hid_index;
                lemma_index_is_detected(options, s, o, h);
                let j = choose|j: int| #[trigger] detects(s, o, h, j);
                assert(states[j] == s[j]);
                assert(detects(states, outcomes, h, j));
                assert(names_profile(states, outcomes, profile, h, k));
            },
            _ => {},
        }
    }
}

/// However the start goes, a daemon that runs watches the button that was
/// asked for and switches between the stages that were asked for, in the
/// profile that was asked for if one was, and else in the one that the mouse
/// named when it was asked, read where its status was detected.
pub proof fn law_start_keeps_options(
    options: Options,
    states: Seq<Startup>,
    outcomes: Seq<Outcome>,
)
    requires
        is_start(options, states, outcomes),
    ensures
        keeps_options(options, states.last()),
        options.profile is None ==> (known_config(states.last()) matches Some(config)
            ==> is_active_profile(states, outcomes, config.profile)),
{
    lemma_keeps_options(options, states, outcomes);
    if options.profile is None {
        match known_config(states.last()) {
            Some(config) => {
                lemma_profile_is_answered(options, states, outcomes, config);
            },
            None => {},
        }
    }
}

/// The node that the daemon is about to read or reads.
pub open spec fn grabbed_node(s: Startup) -> Option<EventNode> {
    match s {
        Startup::Baseline(_, _, n) => Some(n),
        Startup::Warn(_, _, n, _) => Some(n),
        Startup::Announce(_, n, _) => Some(n),
        Startup::Unblock(_, n) => Some(n),
        Startup::Ready(_, n) => Some(n),
        _ => None,
    }
}

/// The node that the start has settled on.
pub open spec fn chosen_node(s: Startup) -> Option<EventNode> {
    match s {
        Startup::OpenNode(_, _, n) => Some(n),
        Startup::Grab(_, _, n) => Some(n),
        _ => grabbed_node(s),
    }
}

/// At step `i` the scan of the event nodes ends with this node alone.
pub open spec fn only_match(
    states: Seq<Startup>,
    outcomes: Seq<Outcome>,
    node: EventNode,
    i: int,
) -> bool {
    &&& 0 <= i < outcomes.len()
    &&& states[i] is Scan
    &&& outcomes[i] matches Outcome::Scanned(scan) && scan@.matchers =~= seq![
        (node.path@, node.name@),
    ]
}

/// The node that the daemon grabs and reads is the only one that the scan
/// found: there is no choice among several, and none is made up.
pub proof fn law_node_is_the_only_match(
    options: Options,
    states: Seq<Startup>,
    outcomes: Seq<Outcome>,
    node: EventNode,
)
    requires
        is_start(options, states, outcomes),
        chosen_node(states.last()) == Some(node),
    ensures
        exists|i: int| #[trigger] only_match(states, outcomes, node, i),
    decreases outcomes.len(),
{
    lemma_shorter_start(options, states, outcomes);
    let s = states.drop_last();
    let o = outcomes.drop_last();
    let k = states.len() - 2;
    let before = states[k];
    assert(s.last() == before);
    assert(outcomes[k] == outcomes.last());
    if chosen_node(before) is Some {
        law_node_is_the_only_match(options, s, o, node);
        let i = choose|i: int| #[trigger] only_match(s, o, node, i);
        assert(states[i] == s[i]);
        assert(only_match(states, outcomes, node, i));
    } else {
        assert(only_match(states, outcomes, node, k));
    }
}

/// The node is found free at step `i` and grabbed at step `k`, and between
/// the two the start only waits for the grab.
pub open spec fn grabbed_between(
    states: Seq<Startup>,
    outcomes: Seq<Outcome>,
    node: EventNode,
    i: int,
    k: int,
) -> bool {
    &&& 0 <= i < k < outcomes.len()
    &&& states[i] matches Startup::OpenNode(_, _, n) && n == node
    &&& outcomes[i] == Outcome::Opened(false)
    &&& forall|j: int|
        i < j <= k ==> (#[trigger] states[j] matches Startup::Grab(_, _, n) && n == node)
    &&& outcomes[k] is Done
}

proof fn lemma_grab_follows_open(
    options: Options,
    states: Seq<Startup>,
    outcomes: Seq<Outcome>,
    node: EventNode,
)
    requires
        is_start(options, states, outcomes),
        states.last() matches Startup::Grab(_, _, n) && n == node,
    ensures
        exists|i: int|
            0 <= i < outcomes.len() && outcomes[i] == Outcome::Opened(false) && (
            #[trigger] states[i] matches Startup::OpenNode(_, _, n) && n == node) && (forall|j: int|
                i < j < states.len() ==> (#[trigger] states[j] matches Startup::Grab(_, _, n) && n
                    == node)),
    decreases outcomes.len(),
{
    lemma_shorter_start(options, states, outcomes);
    let s = states.drop_last();
    let o = outcomes.drop_last();
    let before = states[states.len() - 2];
    assert(s.last() == before);
    if before is Grab {
        lemma_grab_follows_open(options, s, o, node);
        let i = choose|i: int|
            0 <= i < o.len() && o[i] == Outcome::Opened(false) && (
            #[trigger] s[i] matches Startup::OpenNode(_, _, n) && n == node) && (forall|j: int|
                i < j < s.len() ==> (#[trigger] s[j] matches Startup::Grab(_, _, n) && n == node));
        assert(states[i] == s[i]);
        assert forall|j: int| i < j < states.len() implies (
        #[trigger] states[j] matches Startup::Grab(_, _, n) && n == node) by {
            if j < s.len() {
                assert(states[j] == s[j]);
            }
        }
    } else {
        let i = states.len() - 2;
        assert(states[i] == before);
    }
}

/// A daemon that runs has grabbed the node that it reads: at some step the
/// node was found free, and what followed, until it was grabbed, was nothing
/// but the wish to grab it.
pub proof fn law_ready_means_grabbed(
    options: Options,
    states: Seq<Startup>,
    outcomes: Seq<Outcome>,
    node: EventNode,
)
    requires
        is_start(options, states, outcomes),
        grabbed_node(states.last()) == Some(node),
    ensures
        exists|i: int, k: int| #[trigger]
            grabbed_between(states, outcomes, node, i, k),
    decreases outcomes.len(),
{
    lemma_shorter_start(options, states, outcomes);
    let s = states.drop_last();
    let o = outcomes.drop_last();
    let before = states[states.len() - 2];
    assert(s.last() == before);
    if grabbed_node(before) is Some {
        law_ready_means_grabbed(options, s, o, node);
        let (i, k) = choose|i: int, k: int| #[trigger] grabbed_between(s, o, node, i, k);
        assert(grabbed_between(states, outcomes, node, i, k)) by {
            assert(states[i] == s[i]);
            assert forall|j: int| i < j <= k implies (
            #[trigger] states[j] matches Startup::Grab(_, _, n) && n == node) by {
                assert(states[j] == s[j]);
            }
        }
    } else {
        lemma_grab_follows_open(options, s, o, node);
        let i = choose|i: int|
            0 <= i < o.len() && o[i] == Outcome::Opened(false) && (
            #[trigger] s[i] matches Startup::OpenNode(_, _, n) && n == node) && (forall|j: int|
                i < j < s.len() ==> (#[trigger] s[j] matches Startup::Grab(_, _, n) && n == node));
        let k = s.len() - 1;
        assert(states[i] == s[i]);
        assert forall|j: int| i < j <= k implies (
        #[trigger] states[j] matches Startup::Grab(_, _, n) && n == node) by {
            assert(states[j] == s[j]);
        }
        assert(states[k] == before);
        assert(outcomes[k] == outcomes.last());
        assert(grabbed_between(states, outcomes, node, i, k));
    }
}

} // verus!
