//! The running daemon: what each key event makes it send, and what it tells
//! the user.
use crate::keys;
use crate::keys::EV_KEY;
use crate::number;
use crate::protocol;
use crate::protocol::REPORT_SIZE;
use crate::sniper::{EventNode, VendorNode};
use crate::transport::HidTransport;
use vstd::prelude::*;

verus! {

/// Between two looks at the event queue.
pub const POLL_MS: u64 = 2;

/// At least this long between two warnings about a node that cannot be read.
pub const WARN_EVERY_NS: u64 = 5_000_000_000;

/// What the daemon was told at its start.
#[derive(Clone, Copy, Debug, PartialEq, Eq, Structural)]
pub struct Config {
    pub button: u16,
    /// DPI stage while the button is held.
    pub sniper_stage: u8,
    /// DPI stage otherwise.
    pub normal_stage: u8,
    pub profile: u8,
    /// Only print errors.
    pub quiet: bool,
}

/// An input event.
#[derive(Clone, Copy, Debug, PartialEq, Eq, Structural)]
pub struct KeyEvent {
    pub event_type: u16,
    pub code: u16,
    pub value: i32,
}

/// What an event calls for.
#[derive(Clone, Copy, Debug, PartialEq, Eq, Structural)]
pub enum Reaction {
    /// Nothing: another key, or auto-repeat.
    Ignore,
    /// A value that key events do not have.
    Unexpected(i32),
    /// Make this the active DPI stage.
    SetStage(u8),
}

/// Reaction to an event: a press of the button calls for the sniper stage, a
/// release for the normal one, whatever came before.
pub open spec fn reaction(config: Config, event: KeyEvent) -> Reaction {
    if event.event_type != EV_KEY || event.code != config.button {
        Reaction::Ignore
    } else if event.value == 1 {
        Reaction::SetStage(config.sniper_stage)
    } else if event.value == 0 {
        Reaction::SetStage(config.normal_stage)
    } else if event.value == 2 {
        Reaction::Ignore
    } else {
        Reaction::Unexpected(event.value)
    }
}

/// The profile to modify: the one asked for, or the active one as the reply to
/// `build_get_profile_id` gives it.
pub fn choose_profile(
    asked: Option<u8>,
    reply: &[u8; REPORT_SIZE],
    transport: &HidTransport,
) -> (r: u8)
    requires
        transport.hid_index <= 7,
    ensures
        r == (match asked {
            Some(p) => p,
            None => reply@[7 - transport.hid_index],
        }),
{
    match asked {
        Some(p) => p,
        None => protocol::resp_profile(reply, transport.hid_index),
    }
}

pub open spec fn banner_text(
    config: Config,
    vendor: (Seq<char>, u16),
    node: (Seq<char>, Seq<char>),
) -> Seq<char> {
    "wl-sniper: "@ + protocol::model_text(vendor.1) + " (0x"@ + number::hex4(vendor.1 as nat) + ") "@
        + vendor.0 + " · "@ + keys::key_text(config.button) + " ("@ + number::dec(
        config.button as nat,
    ) + ") "@ + node.0 + " \""@ + node.1 + "\" (grabbed) · stages "@ + number::dec(
        config.normal_stage as nat,
    ) + "→"@ + number::dec(config.sniper_stage as nat) + ", profile "@ + number::dec(
        config.profile as nat,
    ) + " — Ctrl-C to stop"@
}

/// `wl-sniper: [t=12.34] `.
pub open spec fn stamped(stamp: Seq<char>) -> Seq<char> {
    "wl-sniper: [t="@ + stamp + "] "@
}

/// An edge by its stage: the sniper stage is set by a press.
pub open spec fn stage_text(config: Config, stamp: Seq<char>, stage: u8) -> Seq<char> {
    stamped(stamp) + (if stage == config.sniper_stage {
        "press"@
    } else {
        "release"@
    }) + " -> stage "@ + number::dec(stage as nat)
}

pub open spec fn unexpected_text(config: Config, stamp: Seq<char>, value: i32) -> Seq<char> {
    stamped(stamp) + "unexpected EV_KEY value "@ + number::dec_int(value as int) + " for "@
        + keys::key_text(config.button) + " — ignored"@
}

pub open spec fn stage_failed_text(stamp: Seq<char>, stage: u8, error: Seq<char>) -> Seq<char> {
    stamped(stamp) + "warning: set stage "@ + number::dec(stage as nat) + " failed: "@ + error
        + " (keeps running; next edge retries)"@
}

pub open spec fn read_failed_text(
    stamp: Seq<char>,
    node_path: Seq<char>,
    error: Seq<char>,
) -> Seq<char> {
    stamped(stamp) + "warning: read "@ + node_path + " failed: "@ + error + " (keeps running)"@
}

fn start_line(stamp: &str) -> (r: String)
    ensures
        r@ == stamped(stamp@),
{
    let mut out = "wl-sniper: [t=".to_owned();
    out.append(stamp);
    out.append("] ");
    out
}

impl Config {
    pub fn react(&self, event: &KeyEvent) -> (r: Reaction)
        ensures
            r == reaction(*self, *event),
    {
        if event.event_type != EV_KEY || event.code != self.button {
            return Reaction::Ignore;
        }
        match event.value {
            1 => Reaction::SetStage(self.sniper_stage),
            0 => Reaction::SetStage(self.normal_stage),
            2 => Reaction::Ignore,
            v => Reaction::Unexpected(v),
        }
    }

    /// The report to write for a stage.
    pub fn stage_report(&self, stage: u8) -> (r: [u8; REPORT_SIZE])
        ensures
            r@ == protocol::set_active_dpi(self.profile, stage),
    {
        protocol::build_set_active_dpi(self.profile, stage)
    }

    /// The report to write at the start. The dongle may be sitting on any
    /// stage, including an unconfigured one; this is what the first release
    /// would send.
    pub fn baseline_report(&self) -> (r: [u8; REPORT_SIZE])
        ensures
            r@ == protocol::set_active_dpi(self.profile, self.normal_stage),
    {
        self.stage_report(self.normal_stage)
    }

    /// What is printed when everything is in place; nothing if quiet.
    pub fn banner(&self, vendor: &VendorNode, node: &EventNode) -> (r: Option<String>)
        ensures
            match r {
                Some(line) => !self.quiet && line@ == banner_text(
                    *self,
                    (vendor.path@, vendor.pid),
                    (node.path@, node.name@),
                ),
                None => self.quiet,
            },
    {
        if self.quiet {
            return None;
        }
        let mut out = "wl-sniper: ".to_owned();
        out.append(protocol::model_name(vendor.pid));
        out.append(" (0x");
        out.append(number::to_hex4(vendor.pid).as_str());
        out.append(") ");
        out.append(vendor.path.as_str());
        out.append(" · ");
        out.append(keys::key_name(self.button).as_str());
        out.append(" (");
        out.append(number::to_dec(self.button as u64).as_str());
        out.append(") ");
        out.append(node.path.as_str());
        out.append(" \"");
        out.append(node.name.as_str());
        out.append("\" (grabbed) · stages ");
        out.append(number::to_dec(self.normal_stage as u64).as_str());
        out.append("→");
        out.append(number::to_dec(self.sniper_stage as u64).as_str());
        out.append(", profile ");
        out.append(number::to_dec(self.profile as u64).as_str());
        out.append(" — Ctrl-C to stop");
        Some(out)
    }

    /// The line for a stage that was set.
    pub fn stage_line(&self, stamp: &str, stage: u8) -> (r: String)
        ensures
            r@ == stage_text(*self, stamp@, stage),
    {
        let mut out = start_line(stamp);
        out.append(
            if stage == self.sniper_stage {
                "press"
            } else {
                "release"
            },
        );
        out.append(" -> stage ");
        out.append(number::to_dec(stage as u64).as_str());
        out
    }

    /// The line for a value that key events do not have.
    pub fn unexpected_line(&self, stamp: &str, value: i32) -> (r: String)
        ensures
            r@ == unexpected_text(*self, stamp@, value),
    {
        let mut out = start_line(stamp);
        out.append("unexpected EV_KEY value ");
        out.append(number::to_dec_int(value).as_str());
        out.append(" for ");
        out.append(keys::key_name(self.button).as_str());
        out.append(" — ignored");
        out
    }
}

/// The warning for a stage that could not be set.
pub fn stage_failed_line(stamp: &str, stage: u8, error: &str) -> (r: String)
    ensures
        r@ == stage_failed_text(stamp@, stage, error@),
{
    let mut out = start_line(stamp);
    out.append("warning: set stage ");
    out.append(number::to_dec(stage as u64).as_str());
    out.append(" failed: ");
    out.append(error);
    out.append(" (keeps running; next edge retries)");
    out
}

pub open spec fn baseline_failed_text(stamp: Seq<char>, stage: u8, error: Seq<char>) -> Seq<char> {
    stamped(stamp) + "warning: initial set stage "@ + number::dec(stage as nat) + " failed: "@
        + error + " (keeps running; next edge retries)"@
}

/// The warning where the stage could not be set at the start.
pub fn baseline_failed_line(stamp: &str, stage: u8, error: &str) -> (r: String)
    ensures
        r@ == baseline_failed_text(stamp@, stage, error@),
{
    let mut out = start_line(stamp);
    out.append("warning: initial set stage ");
    out.append(number::to_dec(stage as u64).as_str());
    out.append(" failed: ");
    out.append(error);
    out.append(" (keeps running; next edge retries)");
    out
}

/// The warning for a node that cannot be read.
pub fn read_failed_line(stamp: &str, node_path: &str, error: &str) -> (r: String)
    ensures
        r@ == read_failed_text(stamp@, node_path@, error@),
{
    let mut out = start_line(stamp);
    out.append("warning: read ");
    out.append(node_path);
    out.append(" failed: ");
    out.append(error);
    out.append(" (keeps running)");
    out
}

/// When the user was last warned that the node cannot be read.
#[derive(Clone, Copy, Debug, PartialEq, Eq, Structural)]
pub struct ReadWarnings {
    pub last_ns: Option<u64>,
}

impl ReadWarnings {
    /// The first failure is warned about; a later one only when the last
    /// warning is more than `WARN_EVERY_NS` back.
    pub open spec fn spec_due(self, now_ns: u64) -> bool {
        match self.last_ns {
            None => true,
            Some(last) => now_ns - last > WARN_EVERY_NS,
        }
    }

    pub fn new() -> (r: ReadWarnings)
        ensures
            r.last_ns is None,
    {
        ReadWarnings { last_ns: None }
    }

    /// Whether to warn of a failure at this time; the time runs from the
    /// daemon's start.
    pub fn on_failure(&mut self, now_ns: u64) -> (r: bool)
        ensures
            r == old(self).spec_due(now_ns),
            final(self).last_ns == (if r {
                Some(now_ns)
            } else {
                old(self).last_ns
            }),
    {
        let due = match self.last_ns {
            None => true,
            Some(last) => now_ns > last && now_ns - last > WARN_EVERY_NS,
        };
        if due {
            self.last_ns = Some(now_ns);
        }
        due
    }
}

// ---------------------------------------------------------------- laws
/// What a report makes the mouse do: with a set-stage command, this stage
/// becomes the active one of this profile.
pub open spec fn stage_set_by(report: Seq<u8>) -> Option<(u8, u8)> {
    if report[2] == 0x02 && report[3] == 0x02 && report[4] == 0x01 && report[5] == 0x02 {
        Some((report[6], report[7]))
    } else {
        None
    }
}

/// The stage of `profile` after one more report that reached the mouse.
pub open spec fn stage_with(profile: u8, stage: u8, report: Seq<u8>) -> u8 {
    match stage_set_by(report) {
        Some((p, s)) if p == profile => s,
        _ => stage,
    }
}

/// An event, and whether the write that it calls for reaches the mouse.
pub struct Edge {
    pub event: KeyEvent,
    pub delivered: bool,
}

/// The mouse's stage in the daemon's profile after these events, starting from
/// `stage`.
pub open spec fn stage_after(config: Config, stage: u8, edges: Seq<Edge>) -> u8
    decreases edges.len(),
{
    if edges.len() == 0 {
        stage
    } else {
        let before = stage_after(config, stage, edges.drop_last());
        match reaction(config, edges.last().event) {
            Reaction::SetStage(s) if edges.last().delivered => stage_with(
                config.profile,
                before,
                protocol::set_active_dpi(config.profile, s),
            ),
            _ => before,
        }
    }
}

/// The set-stage report does to the mouse what it says: this stage, sent
/// verbatim, in this profile.
pub proof fn law_set_report_carries_profile_and_stage(profile: u8, stage: u8)
    ensures
        stage_set_by(protocol::set_active_dpi(profile, stage)) == Some((profile, stage)),
{
}

/// The reports that the start asks with leave every stage alone.
pub proof fn law_queries_set_no_stage(device_id: u8)
    ensures
        stage_set_by(protocol::report(seq![device_id, 0x10u8, 0x00u8, 0x81u8])) is None,
        stage_set_by(protocol::report(seq![0x02u8, 0x01u8, 0x00u8, 0x85u8])) is None,
{
}

/// A dropped write heals itself: when the write of an edge reaches the mouse,
/// the mouse is on that edge's stage, whatever stage it started on, whatever
/// came before, and whichever earlier writes were lost.
pub proof fn law_next_edge_heals(config: Config, stage: u8, edges: Seq<Edge>)
    requires
        edges.len() > 0,
        edges.last().delivered,
        edges.last().event.event_type == EV_KEY,
        edges.last().event.code == config.button,
        edges.last().event.value == 0 || edges.last().event.value == 1,
    ensures
        stage_after(config, stage, edges) == (if edges.last().event.value == 1 {
            config.sniper_stage
        } else {
            config.normal_stage
        }),
{
    law_set_report_carries_profile_and_stage(config.profile, config.sniper_stage);
    law_set_report_carries_profile_and_stage(config.profile, config.normal_stage);
}

/// Events of other keys, other event types and auto-repeat change nothing.
pub proof fn law_other_events_change_nothing(config: Config, stage: u8, edges: Seq<Edge>)
    requires
        forall|i: int|
            0 <= i < edges.len() ==> (#[trigger] edges[i]).event.event_type != EV_KEY
                || edges[i].event.code != config.button || edges[i].event.value == 2,
    ensures
        stage_after(config, stage, edges) == stage,
    decreases edges.len(),
{
    if edges.len() > 0 {
        let front = edges.drop_last();
        assert forall|i: int| 0 <= i < front.len() implies (#[trigger] front[i]).event.event_type
            != EV_KEY || front[i].event.code != config.button || front[i].event.value == 2 by {
            assert(front[i] == edges[i]);
        }
        law_other_events_change_nothing(config, stage, front);
        assert(edges.last() == edges[edges.len() - 1]);
    }
}

/// Writing a stage again changes nothing.
pub proof fn law_setting_a_stage_is_idempotent(profile: u8, stage: u8, wanted: u8)
    ensures
        ({
            let set = protocol::set_active_dpi(profile, wanted);
            stage_with(profile, stage_with(profile, stage, set), set) == stage_with(
                profile,
                stage,
                set,
            )
        }),
{
    law_set_report_carries_profile_and_stage(profile, wanted);
}

/// Once the baseline is written the mouse is on the normal stage, the stage
/// that a release restores.
pub proof fn law_baseline_is_a_release(config: Config, stage: u8, release: Edge)
    requires
        release.delivered,
        release.event.event_type == EV_KEY,
        release.event.code == config.button,
        release.event.value == 0,
    ensures
        stage_with(
            config.profile,
            stage,
            protocol::set_active_dpi(config.profile, config.normal_stage),
        ) == config.normal_stage,
        stage_after(config, stage, seq![release]) == config.normal_stage,
{
    law_set_report_carries_profile_and_stage(config.profile, config.normal_stage);
    law_next_edge_heals(config, stage, seq![release]);
}

} // verus!
