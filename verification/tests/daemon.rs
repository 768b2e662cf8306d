use wl_sniper::daemon::{
    baseline_failed_line, choose_profile, read_failed_line, stage_failed_line, Config, KeyEvent, Reaction,
    ReadWarnings, POLL_MS,
};
use wl_sniper::protocol::{build_get_firmware, build_get_profile_id, build_set_active_dpi, frame};
use wl_sniper::sniper::{EventNode, VendorNode};
use wl_sniper::transport::HidTransport;
use wl_sniper::watch::{Watch, WatchAction, WatchEvent};

fn config() -> Config {
    Config { button: 70, sniper_stage: 1, normal_stage: 2, profile: 3, quiet: false }
}

fn event(event_type: u16, code: u16, value: i32) -> KeyEvent {
    KeyEvent { event_type, code, value }
}

#[test]
fn press_release_and_the_rest() {
    let c = config();
    assert_eq!(c.react(&event(1, 70, 1)), Reaction::SetStage(1));
    assert_eq!(c.react(&event(1, 70, 0)), Reaction::SetStage(2));
    assert_eq!(c.react(&event(1, 70, 2)), Reaction::Ignore);
    assert_eq!(c.react(&event(1, 70, 3)), Reaction::Unexpected(3));
    assert_eq!(c.react(&event(1, 70, -1)), Reaction::Unexpected(-1));
    assert_eq!(c.react(&event(1, 71, 1)), Reaction::Ignore);
    assert_eq!(c.react(&event(0, 70, 1)), Reaction::Ignore);
    assert_eq!(c.react(&event(4, 70, 9)), Reaction::Ignore);
}

#[test]
fn reports_for_stages() {
    let c = config();
    assert_eq!(c.stage_report(6), build_set_active_dpi(3, 6));
    assert_eq!(c.baseline_report(), build_set_active_dpi(3, 2));
    // What the first release would send.
    assert_eq!(c.react(&event(1, 70, 0)), Reaction::SetStage(2));
    assert_eq!(c.baseline_report(), c.stage_report(2));
}

/// A mouse that knows the set-stage command.
fn apply(stages: &mut [u8; 8], report: &[u8; 64]) {
    if report[2..6] == [0x02, 0x02, 0x01, 0x02] {
        stages[report[6] as usize] = report[7];
    }
}

#[test]
fn a_lost_write_heals_at_the_next_edge() {
    let c = config();
    let mut stages = [5u8; 8];
    // The press is lost, another key and auto-repeat come, the release arrives.
    let edges = [(70, 1, false), (71, 1, true), (70, 2, true), (70, 0, true)];
    for (code, value, delivered) in edges {
        if let Reaction::SetStage(s) = c.react(&event(1, code, value)) {
            if delivered {
                apply(&mut stages, &c.stage_report(s));
            }
        }
    }
    assert_eq!(stages, [5, 5, 5, 2, 5, 5, 5, 5]);
    // Again changes nothing.
    apply(&mut stages, &c.stage_report(2));
    assert_eq!(stages[3], 2);
    // The questions of the start change nothing either.
    apply(&mut stages, &build_get_firmware(2));
    apply(&mut stages, &build_get_profile_id());
    assert_eq!(stages, [5, 5, 5, 2, 5, 5, 5, 5]);
}

#[test]
fn profile_asked_for_or_active() {
    let mut reply = [0u8; 64];
    reply[6] = 11;
    reply[7] = 12;
    assert_eq!(choose_profile(Some(5), &reply, &HidTransport { hid_index: 0 }), 5);
    assert_eq!(choose_profile(None, &reply, &HidTransport { hid_index: 0 }), 12);
    assert_eq!(choose_profile(None, &reply, &HidTransport { hid_index: 1 }), 11);
}

#[test]
fn what_the_daemon_prints() {
    let c = config();
    let quiet = Config { quiet: true, ..config() };
    let vendor = VendorNode { path: "/dev/hidraw3".to_string(), pid: 0x0042 };
    let node = EventNode { path: "/dev/input/event6".to_string(), name: "N".to_string() };
    assert_eq!(
        c.banner(&vendor, &node).unwrap(),
        "wl-sniper: unknown model (0x0042) /dev/hidraw3 · SCROLLLOCK (70) /dev/input/event6 \"N\" (grabbed) · stages 2→1, profile 3 — Ctrl-C to stop"
    );
    assert_eq!(quiet.banner(&vendor, &node), None);
    assert_eq!(c.stage_line("12.34", 1), "wl-sniper: [t=12.34] press -> stage 1");
    assert_eq!(c.stage_line("12.34", 2), "wl-sniper: [t=12.34] release -> stage 2");
    assert_eq!(
        c.unexpected_line("0.50", -3),
        "wl-sniper: [t=0.50] unexpected EV_KEY value -3 for SCROLLLOCK — ignored"
    );
    assert_eq!(
        stage_failed_line("0.50", 2, "E"),
        "wl-sniper: [t=0.50] warning: set stage 2 failed: E (keeps running; next edge retries)"
    );
    assert_eq!(
        baseline_failed_line("0.50", 2, "E"),
        "wl-sniper: [t=0.50] warning: initial set stage 2 failed: E (keeps running; next edge retries)"
    );
    assert_eq!(
        read_failed_line("0.50", "/dev/input/event6", "E"),
        "wl-sniper: [t=0.50] warning: read /dev/input/event6 failed: E (keeps running)"
    );
}

#[test]
fn read_warnings_are_rare() {
    assert_eq!(POLL_MS, 2);
    let second = 1_000_000_000u64;
    let mut w = ReadWarnings::new();
    assert!(w.on_failure(0));
    assert!(!w.on_failure(2_000_000));
    assert!(!w.on_failure(5 * second));
    assert!(w.on_failure(5 * second + 1));
    assert!(!w.on_failure(10 * second + 1));
    assert!(w.on_failure(10 * second + 2));
}

/// Deals with these events; the writes in `fail` do not arrive. Gives a log.
fn batch(w: &mut Watch, events: Vec<KeyEvent>, fail: &[usize]) -> Vec<String> {
    let mut log = Vec::new();
    let mut writes = 0;
    assert!(matches!(w.action(), WatchAction::Fetch));
    w.advance(WatchEvent::Fetched(events));
    loop {
        let event = match w.action() {
            WatchAction::Fetch => return log,
            WatchAction::Write(f) => {
                log.push(format!("write {} {}", f[7], f[8]));
                assert_eq!(f, frame(&build_set_active_dpi(f[7], f[8])));
                writes += 1;
                if fail.contains(&(writes - 1)) {
                    WatchEvent::WriteFailed("E".to_string())
                } else {
                    WatchEvent::Done
                }
            }
            WatchAction::Tell(n) => {
                let to = if n.is_warning() { "err" } else { "out" };
                log.push(format!("{to} {}", w.line(&n, "1.00")));
                WatchEvent::Done
            }
            WatchAction::Pause(ms) => {
                log.push(format!("pause {ms}"));
                WatchEvent::Done
            }
        };
        w.advance(event);
    }
}

#[test]
fn each_edge_is_written_in_order() {
    let mut w = Watch::new(config(), "/dev/input/event6".to_string());
    let events = vec![
        event(1, 71, 1),
        event(1, 70, 1),
        event(0, 0, 0),
        event(1, 70, 2),
        event(1, 70, 5),
        event(1, 70, 0),
        event(1, 70, 1),
    ];
    assert_eq!(
        batch(&mut w, events, &[1]),
        [
            "write 3 1",
            "out wl-sniper: [t=1.00] press -> stage 1",
            "err wl-sniper: [t=1.00] unexpected EV_KEY value 5 for SCROLLLOCK — ignored",
            "write 3 2",
            "err wl-sniper: [t=1.00] warning: set stage 2 failed: E (keeps running; next edge retries)",
            "write 3 1",
            "out wl-sniper: [t=1.00] press -> stage 1",
            "pause 2",
        ]
    );
    assert_eq!(batch(&mut w, vec![event(1, 70, 0)], &[]), ["write 3 2", "out wl-sniper: [t=1.00] release -> stage 2", "pause 2"]);
    assert_eq!(batch(&mut w, vec![], &[]), ["pause 2"]);
}

#[test]
fn a_quiet_loop_tells_only_of_errors() {
    let mut w = Watch::new(Config { quiet: true, ..config() }, "/dev/input/event6".to_string());
    let events = vec![event(1, 70, 1), event(1, 70, 0), event(1, 70, 9)];
    assert_eq!(
        batch(&mut w, events, &[0]),
        [
            "write 3 1",
            "err wl-sniper: [t=1.00] warning: set stage 1 failed: E (keeps running; next edge retries)",
            "write 3 2",
            "err wl-sniper: [t=1.00] unexpected EV_KEY value 9 for SCROLLLOCK — ignored",
            "pause 2",
        ]
    );
}

#[test]
fn the_loop_goes_on_when_the_node_cannot_be_read() {
    let second = 1_000_000_000u64;
    let mut w = Watch::new(config(), "/dev/input/event6".to_string());
    let mut told = Vec::new();
    for now_ns in [0, second, 5 * second + 1, 6 * second] {
        assert!(matches!(w.action(), WatchAction::Fetch));
        w.advance(WatchEvent::ReadFailed { error: "No such device".to_string(), now_ns });
        if let WatchAction::Tell(n) = w.action() {
            assert!(n.is_warning());
            assert_eq!(
                w.line(&n, "9.99"),
                "wl-sniper: [t=9.99] warning: read /dev/input/event6 failed: No such device (keeps running)"
            );
            told.push(now_ns);
            w.advance(WatchEvent::Done);
        }
        assert!(matches!(w.action(), WatchAction::Pause(2)));
        w.advance(WatchEvent::Done);
    }
    assert_eq!(told, [0, 5 * second + 1]);
    // Nothing there is no failure.
    w.advance(WatchEvent::Empty);
    assert!(matches!(w.action(), WatchAction::Pause(2)));
    // An event out of place changes nothing.
    w.advance(WatchEvent::Fetched(vec![event(1, 70, 1)]));
    assert!(matches!(w.action(), WatchAction::Pause(2)));
}

#[test]
fn a_quiet_loop_writes_the_same_reports() {
    let events = || vec![event(1, 70, 1), event(1, 70, 7), event(1, 70, 0), event(1, 70, 1)];
    let mut loud = Watch::new(config(), "/dev/input/event6".to_string());
    let mut quiet = Watch::new(Config { quiet: true, ..config() }, "/dev/input/event6".to_string());
    let heard = batch(&mut loud, events(), &[1]);
    let hushed = batch(&mut quiet, events(), &[1]);
    let without: Vec<String> = heard.iter().filter(|l| !l.starts_with("out ")).cloned().collect();
    assert_eq!(without, hushed);
    // One line for each of the two writes that arrived.
    assert_eq!(heard.len() - hushed.len(), 2);
}

#[test]
fn over_many_batches_no_edge_is_lost_or_doubled() {
    let mut w = Watch::new(config(), "/dev/input/event6".to_string());
    let batches = vec![
        vec![event(1, 70, 1), event(1, 71, 1)],
        vec![],
        vec![event(1, 70, 0), event(1, 70, 1), event(1, 70, 2)],
        vec![event(1, 70, 0)],
    ];
    let mut wanted = Vec::new();
    let mut written = Vec::new();
    for events in batches {
        for e in &events {
            if let Reaction::SetStage(s) = config().react(e) {
                wanted.push(format!("write 3 {s}"));
            }
        }
        written.extend(batch(&mut w, events, &[0]).into_iter().filter(|l| l.starts_with("write")));
        // A read that fails in between changes nothing.
        w.advance(WatchEvent::ReadFailed { error: "E".to_string(), now_ns: 0 });
        while !matches!(w.action(), WatchAction::Fetch) {
            w.advance(WatchEvent::Done);
        }
    }
    assert_eq!(written, wanted);
    assert_eq!(written.len(), 4);
}
