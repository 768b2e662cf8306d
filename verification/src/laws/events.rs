//! What key events make the daemon do and say.
use crate::daemon;
use crate::daemon::{Config, KeyEvent, Reaction, ReadWarnings};
use crate::keys;
use crate::number;
use crate::protocol;
use crate::text;
use crate::watch;
use crate::watch::{Notice, Watch, WatchEvent, WatchPhase};
use vstd::prelude::*;

verus! {

/// A press of the button calls for the sniper stage, a release for the normal
/// one; auto-repeat, other keys and other events call for nothing.
pub proof fn law_press_and_release(config: Config, event: KeyEvent)
    ensures
        ({
            let ours = event.event_type == 1 && event.code == config.button;
            let r = daemon::reaction(config, event);
            &&& ours && event.value == 1 ==> r == Reaction::SetStage(config.sniper_stage)
            &&& ours && event.value == 0 ==> r == Reaction::SetStage(config.normal_stage)
            &&& ours && event.value == 2 ==> r == Reaction::Ignore
            &&& ours && event.value != 0 && event.value != 1 && event.value != 2 ==> r
                == Reaction::Unexpected(event.value)
            &&& !ours ==> r == Reaction::Ignore
        }),
{
}

/// One event among those that were fetched: for a press of the button the
/// report with the sniper stage is written, for a release the one with the
/// normal stage, byte for byte; for nothing else is a report written.
pub proof fn law_one_edge_one_report(w: Watch, event: KeyEvent, events: Vec<KeyEvent>)
    requires
        w.wf(),
        w.phase is Fetch,
        events@ == seq![event],
    ensures
        ({
            let next = w.moved(WatchEvent::Fetched(events));
            let ours = event.event_type == 1 && event.code == w.config.button;
            &&& ours && event.value == 1 ==> next.phase == WatchPhase::Write(w.config.sniper_stage)
            &&& ours && event.value == 0 ==> next.phase == WatchPhase::Write(w.config.normal_stage)
            &&& !ours || event.value == 2 ==> next.phase is Rest
            &&& ours && event.value != 0 && event.value != 1 && event.value != 2 ==> next.phase
                == WatchPhase::Tell(Notice::Unexpected(event.value))
            &&& next.config == w.config
        }),
{
    reveal_with_fuel(watch::first_due, 3);
    assert(events@[0] == event);
}

/// The stages that a list of events calls for: one for each press and release
/// of the button, in order.
pub proof fn law_stages_of_events(config: Config, events: Seq<KeyEvent>, event: KeyEvent)
    ensures
        watch::stages(config, seq![event] + events, 0) == (if event.event_type == 1 && event.code
            == config.button && event.value == 1 {
            seq![config.sniper_stage] + watch::stages(config, events, 0)
        } else if event.event_type == 1 && event.code == config.button && event.value == 0 {
            seq![config.normal_stage] + watch::stages(config, events, 0)
        } else {
            watch::stages(config, events, 0)
        }),
        watch::stages(config, Seq::empty(), 0) == Seq::<u8>::empty(),
{
    lemma_stages_shift(config, events, event, 0);
}

proof fn lemma_stages_shift(config: Config, events: Seq<KeyEvent>, event: KeyEvent, from: int)
    requires
        0 <= from <= events.len(),
    ensures
        watch::stages(config, seq![event] + events, from + 1) == watch::stages(
            config,
            events,
            from,
        ),
    decreases events.len() - from,
{
    if from < events.len() {
        lemma_stages_shift(config, events, event, from + 1);
        assert((seq![event] + events)[from + 1] == events[from]);
    }
}

/// The events are dealt with one by one, in order: a press or a release of the
/// button is written, a strange value is told of, anything else is passed
/// over; behind the last one the loop rests.
pub proof fn law_events_one_by_one(w: Watch)
    requires
        w.taken <= w.events@.len(),
    ensures
        w.taken == w.events@.len() ==> w.resumed().phase is Rest,
        w.taken < w.events@.len() ==> {
            let e = w.events@[w.taken as int];
            let ours = e.event_type == 1 && e.code == w.config.button;
            let next = w.resumed();
            &&& ours && e.value == 1 ==> next.phase == WatchPhase::Write(w.config.sniper_stage)
                && next.taken == w.taken + 1
            &&& ours && e.value == 0 ==> next.phase == WatchPhase::Write(w.config.normal_stage)
                && next.taken == w.taken + 1
            &&& ours && (e.value < 0 || e.value > 2) ==> next.phase == WatchPhase::Tell(
                Notice::Unexpected(e.value),
            ) && next.taken == w.taken + 1
            &&& !ours || e.value == 2 ==> next == (Watch {
                taken: (w.taken + 1) as usize,
                ..w
            }).resumed()
        },
        w.resumed().config == w.config,
        w.resumed().events == w.events,
        w.resumed().warnings == w.warnings,
        w.resumed().node_path == w.node_path,
{
    watch::lemma_resumed(w);
    assert(w.events.len() == w.events@.len());
}

/// Events that have come are dealt with from the first one on.
pub proof fn law_fetched_events_are_dealt_with(w: Watch, events: Vec<KeyEvent>)
    requires
        w.phase is Fetch,
    ensures
        w.moved(WatchEvent::Fetched(events)) == (Watch { events, taken: 0, ..w }).resumed(),
        w.moved(WatchEvent::Fetched(events)).events@ == events@,
{
}

/// A failure to read is told of, with the reason, the first time and again
/// after more than five seconds; in between the loop only rests.
pub proof fn law_failures_to_read(w: Watch, error: String, now_ns: u64)
    requires
        w.phase is Fetch,
    ensures
        ({
            let next = w.moved(WatchEvent::ReadFailed { error, now_ns });
            let told = next.phase == WatchPhase::Tell(Notice::ReadFailed(error))
                && next.warnings.last_ns == Some(now_ns);
            &&& w.warnings.last_ns is None ==> told
            &&& w.warnings.last_ns matches Some(last) ==> {
                &&& now_ns - last > 5_000_000_000 ==> told
                &&& now_ns - last <= 5_000_000_000 ==> next.phase is Rest && next.warnings
                    == w.warnings
            }
            &&& next.events == w.events && next.taken == w.taken && next.config == w.config
        }),
{
}

/// A loop that has not begun looks for events first, and tells of the first
/// failure to read.
pub proof fn law_fresh_loop(w: Watch, config: Config, node_path: Seq<char>, now_ns: u64)
    requires
        w.is_fresh(config, node_path),
    ensures
        w.phase is Fetch,
        w.config == config,
        w.node_path@ == node_path,
        w.events@.len() == 0,
        w.warnings.spec_due(now_ns),
{
}

/// A report reaches the profile that it names, and no other.
pub proof fn law_reports_reach_their_profile(p: u8, s: u8, profile: u8, before: u8)
    ensures
        daemon::stage_with(p, before, protocol::set_active_dpi(p, s)) == s,
        profile != p ==> daemon::stage_with(profile, before, protocol::set_active_dpi(p, s))
            == before,
{
}

/// What follows a write: done, a line unless quiet; failed, a warning with the
/// error. A write is never repeated.
pub proof fn law_what_follows_a_write(w: Watch, error: String)
    requires
        w.wf(),
        w.phase is Write,
        w.taken == w.events@.len(),
    ensures
        w.moved(WatchEvent::WriteFailed(error)).phase == WatchPhase::Tell(
            Notice::StageFailed(w.phase->Write_0, error),
        ),
        !w.config.quiet ==> w.moved(WatchEvent::Done).phase == WatchPhase::Tell(
            Notice::StageSet(w.phase->Write_0),
        ),
        w.config.quiet ==> w.moved(WatchEvent::Done).phase is Rest,
        w.moved(WatchEvent::Done).moved(WatchEvent::Done).phase is Fetch
            || w.moved(WatchEvent::Done).moved(WatchEvent::Done).phase is Rest,
{
    watch::lemma_resumed(w);
    watch::lemma_resumed(w.moved(WatchEvent::Done));
}

/// The loop looks for events, and rests 2 ms in between whatever it found.
pub proof fn law_loop_goes_round(w: Watch)
    requires
        w.wf(),
    ensures
        w.phase is Rest ==> w.moved(WatchEvent::Done).phase is Fetch,
        w.phase is Fetch ==> w.moved(WatchEvent::Empty).phase is Rest,
        daemon::POLL_MS == 2,
{
}

/// Failures to read are told of at once, then not for five seconds.
pub proof fn law_read_warnings(last_ns: u64, now_ns: u64)
    ensures
        (ReadWarnings { last_ns: None }).spec_due(now_ns),
        (ReadWarnings { last_ns: Some(last_ns) }).spec_due(now_ns) <==> now_ns - last_ns
            > 5_000_000_000,
{
}

/// The daemon's lines: the time in brackets, then what happened, with the
/// stage, the value, the node and the error that it happened with.
pub proof fn law_daemon_lines(
    w: Watch,
    stamp: Seq<char>,
    stage: u8,
    value: i32,
    error: String,
)
    ensures
        ({
            let head = "wl-sniper: [t="@ + stamp + "] "@;
            let word = if stage == w.config.sniper_stage {
                "press"@
            } else {
                "release"@
            };
            &&& Notice::StageSet(stage).spec_line(w, stamp) == head + word + " -> stage "@
                + number::dec(stage as nat)
            &&& Notice::Unexpected(value).spec_line(w, stamp) == head + "unexpected EV_KEY value "@
                + number::dec_int(value as int) + " for "@ + keys::key_text(w.config.button)
                + " — ignored"@
            &&& Notice::StageFailed(stage, error).spec_line(w, stamp) == head
                + "warning: set stage "@ + number::dec(stage as nat) + " failed: "@ + error@
                + " (keeps running; next edge retries)"@
            &&& Notice::ReadFailed(error).spec_line(w, stamp) == head + "warning: read "@
                + w.node_path@ + " failed: "@ + error@ + " (keeps running)"@
            &&& daemon::baseline_failed_text(stamp, stage, error@) == head
                + "warning: initial set stage "@ + number::dec(stage as nat) + " failed: "@
                + error@ + " (keeps running; next edge retries)"@
        }),
{
}

/// The line about the start names the model, the interface, the button and
/// the node.
pub proof fn law_banner_names_the_devices(
    config: Config,
    vendor: (Seq<char>, u16),
    node: (Seq<char>, Seq<char>),
)
    ensures
        ({
            let line = daemon::banner_text(config, vendor, node);
            &&& text::contains_text(line, protocol::model_text(vendor.1))
            &&& text::contains_text(line, number::hex4(vendor.1 as nat))
            &&& text::contains_text(line, vendor.0)
            &&& text::contains_text(line, keys::key_text(config.button))
            &&& text::contains_text(line, number::dec(config.button as nat))
            &&& text::contains_text(line, node.0)
            &&& text::contains_text(line, node.1)
        }),
{
    broadcast use text::lemma_part_in_whole;

    text::lemma_whole_in_itself(protocol::model_text(vendor.1));
    text::lemma_whole_in_itself(number::hex4(vendor.1 as nat));
    text::lemma_whole_in_itself(vendor.0);
    text::lemma_whole_in_itself(keys::key_text(config.button));
    text::lemma_whole_in_itself(number::dec(config.button as nat));
    text::lemma_whole_in_itself(node.0);
    text::lemma_whole_in_itself(node.1);
}

proof fn lemma_grouped(
    a: Seq<char>,
    b: Seq<char>,
    c: Seq<char>,
    d: Seq<char>,
    e: Seq<char>,
    f: Seq<char>,
    g: Seq<char>,
)
    ensures
        a + b + c + d + e + f + g == a + (b + c + d + e + f + g),
{
}

/// The line about the start ends with the stages, the normal one first, and
/// the profile.
pub proof fn law_banner_names_the_stages(
    config: Config,
    vendor: (Seq<char>, u16),
    node: (Seq<char>, Seq<char>),
)
    ensures
        text::contains_text(
            daemon::banner_text(config, vendor, node),
            "\" (grabbed) · stages "@ + number::dec(config.normal_stage as nat) + "→"@
                + number::dec(config.sniper_stage as nat) + ", profile "@ + number::dec(
                config.profile as nat,
            ),
        ),
{
    let before = "wl-sniper: "@ + protocol::model_text(vendor.1) + " (0x"@ + number::hex4(
        vendor.1 as nat,
    ) + ") "@ + vendor.0 + " · "@ + keys::key_text(config.button) + " ("@ + number::dec(
        config.button as nat,
    ) + ") "@ + node.0 + " \""@ + node.1;
    let normal = number::dec(config.normal_stage as nat);
    let sniper = number::dec(config.sniper_stage as nat);
    let profile = number::dec(config.profile as nat);
    lemma_grouped(before, "\" (grabbed) · stages "@, normal, "→"@, sniper, ", profile "@, profile);
    let stages = "\" (grabbed) · stages "@ + normal + "→"@ + sniper + ", profile "@ + profile;
    text::lemma_whole_in_itself(stages);
    text::lemma_part_in_whole(before, stages, stages);
    text::lemma_part_in_whole(before + stages, " — Ctrl-C to stop"@, stages);
}

/// What is out of place changes nothing.
pub proof fn law_loop_events_out_of_place(w: Watch, event: WatchEvent)
    ensures
        w.phase is Fetch && (event is Done || event is WriteFailed) ==> w.moved(event) == w,
        w.phase is Write && (event is Fetched || event is Empty || event is ReadFailed) ==> w.moved(
            event,
        ) == w,
        w.phase is Tell && !(event is Done) ==> w.moved(event) == w,
        w.phase is Rest && !(event is Done) ==> w.moved(event) == w,
        w.phase is Tell && event is Done ==> w.moved(event) == w.resumed(),
{
}

} // verus!
