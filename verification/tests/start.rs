use evdev::{AttributeSet, KeyCode};
use wl_sniper::capability::{advertised_keys, advertises};
use wl_sniper::daemon::baseline_failed_line;
use wl_sniper::protocol::{build_get_firmware, build_get_profile_id, build_set_active_dpi, frame};
use wl_sniper::sniper::{
    check_grab, no_node_message, select_node, select_vendor, HidInfo, NodeScan, StartFault,
};
use wl_sniper::startup::{Options, Outcome, Startup, Step};
use wl_sniper::transport::{Action, Event};
use wl_sniper::usb::{dongle_scope, Needle, SysfsEntry};

const VENDOR_CANON: &str =
    "/sys/devices/pci0000:00/0000:00:08.1/0000:74:00.4/usb5/5-2/5-2:1.2/0003:36A7:A863.0004/hidraw/hidraw3";
const EVENT6_CANON: &str =
    "/sys/devices/pci0000:00/0000:00:08.1/0000:74:00.4/usb5/5-2/5-2:1.1/0003:36A7:A863.0002/input/input5/event6";
const KEYBOARD_CANON: &str = "/sys/devices/pci0000:00/0000:00:08.1/0000:74:00.4/usb5/5-3/5-3:1.0/0003:046D:C31C.0001/input/input2/event2";

fn info(path: &str, vendor_id: u16, product_id: u16, usage_page: u16, usage: u16) -> HidInfo {
    HidInfo { path: path.to_string(), vendor_id, product_id, usage_page, usage }
}

fn keys(codes: &[u16]) -> AttributeSet<KeyCode> {
    let mut set = AttributeSet::new();
    for c in codes {
        set.insert(KeyCode::new(*c));
    }
    set
}

#[test]
fn advertised_keys_come_from_the_device_set() {
    let set = keys(&[0x114, 70, 30]);
    assert!(advertises(Some(&set), 70));
    assert!(advertises(Some(&set), 0x114));
    assert!(!advertises(Some(&set), 71));
    assert!(!advertises(Some(&set), 0xffff));
    assert!(!advertises(None, 70));
    assert_eq!(advertised_keys(Some(&set)), [30, 70, 0x114]);
    assert_eq!(advertised_keys(Some(&keys(&[]))), []);
    assert_eq!(advertised_keys(None), []);
}

#[test]
fn one_vendor_interface_is_required() {
    let others = vec![
        info("/dev/hidraw0", 0x046D, 0xC31C, 0xFFFF, 0),
        info("/dev/hidraw1", 0x36A7, 0xA863, 1, 2),
        info("/dev/hidraw2", 0x36A7, 0xA863, 0xFFFF, 1),
    ];
    let e = select_vendor(&others).unwrap_err();
    assert_eq!(e.fault, StartFault::NoVendorInterface);
    assert_eq!(
        e.message,
        "no WLmouse vendor command interface found (VID 0x36a7, usage_page 0xffff/usage 0). Is the dongle connected? (check: lsusb | grep -i 36a7)"
    );

    let mut one = others;
    one.push(info("/dev/hidraw3", 0x36A7, 0xA863, 0xFFFF, 0));
    let node = select_vendor(&one).unwrap();
    assert_eq!(node.path, "/dev/hidraw3");
    assert_eq!(node.pid, 0xA863);

    one.push(info("/dev/hidraw7", 0x36A7, 0x00AB, 0xFFFF, 0));
    let e = select_vendor(&one).unwrap_err();
    assert_eq!(e.fault, StartFault::ManyVendorInterfaces);
    assert_eq!(
        e.message,
        "2 WLmouse vendor command interfaces found (/dev/hidraw3 (0xa863), /dev/hidraw7 (0x00ab)) — exactly one is required"
    );
}

#[test]
fn only_the_dongle_s_nodes_are_considered() {
    let set = keys(&[70]);
    let mut scan = NodeScan::new(&dongle_scope(Some(VENDOR_CANON), 0xA863));
    // The physical keyboard has the key too.
    scan.visit(Some(KEYBOARD_CANON), "/dev/input/event2", Some("Keyboard"), Some(&set), 70);
    scan.visit(None, "/dev/input/event3", Some("Nowhere"), Some(&set), 70);
    assert!(scan.needs_sysfs());
    assert!(scan.dongle_nodes.is_empty());
    scan.visit(Some(EVENT6_CANON), "/dev/input/event6", Some("HUAN 8K RECEIVER"), Some(&set), 70);
    scan.visit(Some(EVENT6_CANON), "/dev/input/event7", None, None, 70);
    assert!(!scan.needs_sysfs());
    assert_eq!(scan.dongle_nodes, ["/dev/input/event6 (\"HUAN 8K RECEIVER\")", "/dev/input/event7 (\"?\")"]);
    let node = select_node(scan, 70, &vec![]).unwrap();
    assert_eq!(node.path, "/dev/input/event6");
    assert_eq!(node.name, "HUAN 8K RECEIVER");
}

#[test]
fn a_keyboard_on_a_port_that_begins_alike_is_left_alone() {
    let set = keys(&[70]);
    let mut scan = NodeScan::new(&dongle_scope(Some("/sys/devices/x/usb5/5-2/5-2:1.2/hidraw/hidraw3"), 0xA863));
    scan.visit(
        Some("/sys/devices/x/usb5/5-20/5-20:1.0/0003:046D:C31C.0001/input/input3/event3"),
        "/dev/input/event3",
        Some("Keyboard"),
        Some(&set),
        70,
    );
    assert!(scan.dongle_nodes.is_empty());
    let e = select_node(scan, 70, &vec![]).unwrap_err();
    assert_eq!(e.fault, StartFault::NoButtonNode);
}

#[test]
fn scope_and_path_are_compared_in_lower_case() {
    let set = keys(&[70]);
    let mut scan = NodeScan::new(&dongle_scope(Some("/sys/ÉCRAN/usb5/5-2/5-2:1.2/x"), 0xA863));
    assert!(matches!(&scan.needle, Needle::Port(p) if p == "/sys/écran/usb5/5-2"));
    scan.visit(Some("/SYS/écRAN/usb5/5-2/5-2:1.0/y"), "/dev/input/event1", Some("a"), Some(&set), 70);
    assert_eq!(scan.matchers.len(), 1);
    // The lowered path is taken as it is.
    scan.visit_lowered("/SYS/écran/usb5/5-2", "/dev/input/event2", Some("b"), true);
    assert_eq!(scan.matchers.len(), 1);
    scan.visit_lowered("/sys/écran/usb5/5-2", "/dev/input/event2", Some("b"), false);
    assert_eq!(scan.matchers.len(), 1);
    assert_eq!(scan.dongle_nodes.len(), 2);
}

#[test]
fn refusals_for_want_of_one_node() {
    let mut scan = NodeScan::new(&dongle_scope(None, 0xA863));
    scan.visit_lowered("/0003:36a7:a863.1", "/dev/input/event6", Some("A"), false);
    scan.visit_lowered("/0003:36a7:a863.2", "/dev/input/event7", None, false);
    let e = select_node(scan, 88, &vec![]).unwrap_err();
    assert_eq!(e.fault, StartFault::NoButtonNode);
    assert_eq!(
        e.message,
        "no dongle evdev node advertises key F12 (88). Is the mouse button bound to that key in the gm.wlmouse.gg web UI? Dongle nodes seen: /dev/input/event6 (\"A\"), /dev/input/event7 (\"?\") (none advertises F12)"
    );
    assert_eq!(
        no_node_message(&vec![], &vec!["/dev/input/event6".to_string(), "/dev/input/event7".to_string()], 70),
        "no dongle evdev node advertises key SCROLLLOCK (70). Is the mouse button bound to that key in the gm.wlmouse.gg web UI? Dongle nodes seen: none openable — but sysfs lists dongle nodes /dev/input/event6, /dev/input/event7 (not openable by you: are you in the 'input' group? full re-login after usermod; or run with sudo to test)"
    );
    assert_eq!(
        no_node_message(&vec![], &vec![], 70),
        "no dongle evdev node advertises key SCROLLLOCK (70). Is the mouse button bound to that key in the gm.wlmouse.gg web UI? Dongle nodes seen: none openable (and sysfs lists no dongle evdev nodes at all — dongle disconnected?)"
    );

    let mut scan = NodeScan::new(&dongle_scope(None, 0xA863));
    scan.visit_lowered("/0003:36a7:a863.1", "/dev/input/event6", Some("A"), true);
    scan.visit_lowered("/0003:36a7:a863.2", "/dev/input/event7", Some("B"), true);
    let e = select_node(scan, 70, &vec![]).unwrap_err();
    assert_eq!(e.fault, StartFault::ManyButtonNodes);
    assert_eq!(
        e.message,
        "2 dongle nodes advertise key SCROLLLOCK (70): /dev/input/event6, /dev/input/event7 — ambiguous, cannot proceed"
    );
}

#[test]
fn a_grabbed_node_is_left_alone() {
    assert!(check_grab("/dev/input/event6", false).is_ok());
    let e = check_grab("/dev/input/event6", true).unwrap_err();
    assert_eq!(e.fault, StartFault::AlreadyGrabbed);
    assert_eq!(e.message, "/dev/input/event6 is already grabbed — is another wl-sniper already running?");
}

// ---------------------------------------------------------------- the machine

fn options(profile: Option<u8>, quiet: bool) -> Options {
    Options { button: 70, sniper_stage: 1, normal_stage: 2, profile, quiet }
}

fn interfaces() -> Outcome {
    Outcome::Interfaces(vec![info("/dev/hidraw3", 0x36A7, 0xA863, 0xFFFF, 0)])
}

fn reply(status0: u8, status1: u8, cmd: u8, profile: u8, hid_index: usize) -> Outcome {
    let mut b = [0u8; 65];
    b[1] = status0;
    b[2] = status1;
    b[6] = cmd;
    b[8 - hid_index] = profile;
    Outcome::Exchange(Event::Reply(b))
}

/// Goes through an exchange that is accepted at once; gives what it wrote.
fn exchange(mut s: Startup, answer: Outcome) -> (Startup, [u8; 65]) {
    let wire = match s.step() {
        Step::Exchange(Action::Write(f)) => f,
        other => panic!("{other:?}"),
    };
    s = s.advance(Outcome::Exchange(Event::Done));
    assert!(matches!(s.step(), Step::Exchange(Action::Pause(30))));
    s = s.advance(Outcome::Exchange(Event::Done));
    assert!(matches!(s.step(), Step::Exchange(Action::Read(_))));
    (s.advance(answer), wire)
}

fn to_scan(options: Options) -> Startup {
    let s = Startup::new(options);
    assert!(matches!(s.step(), Step::ListInterfaces));
    let s = s.advance(interfaces());
    match s.step() {
        Step::OpenVendor(p) => assert_eq!(p, "/dev/hidraw3"),
        other => panic!("{other:?}"),
    }
    let s = s.advance(Outcome::Done);
    let (s, wire) = exchange(s, reply(0xA1, 0, 0x81, 0, 0));
    assert_eq!(wire, frame(&build_get_firmware(2)));
    let s = if options.profile.is_none() {
        let (s, wire) = exchange(s, reply(0xA1, 0, 0x85, 4, 1));
        assert_eq!(wire, frame(&build_get_profile_id()));
        s
    } else {
        s
    };
    match s.step() {
        Step::Canonicalize(p) => assert_eq!(p, "/sys/class/hidraw/hidraw3"),
        other => panic!("{other:?}"),
    }
    s.advance(Outcome::Canonical(Some(VENDOR_CANON.to_string())))
}

fn scan_of(s: &Startup, nodes: &[(&str, &str, bool)]) -> Outcome {
    match s.step() {
        Step::ScanNodes(mut scan) => {
            for (canon, path, has_button) in nodes {
                scan.visit_lowered(&canon.to_lowercase(), path, Some("HUAN 8K RECEIVER"), *has_button);
            }
            Outcome::Scanned(scan)
        }
        other => panic!("{other:?}"),
    }
}

fn to_open(options: Options) -> Startup {
    let s = to_scan(options);
    let seen = scan_of(
        &s,
        &[(KEYBOARD_CANON, "/dev/input/event2", true), (EVENT6_CANON, "/dev/input/event6", true)],
    );
    let s = s.advance(seen);
    match s.step() {
        Step::OpenNode(p) => assert_eq!(p, "/dev/input/event6"),
        other => panic!("{other:?}"),
    }
    s
}

fn refused(s: &Startup) -> String {
    match s.step() {
        Step::Refuse(m) => m,
        other => panic!("{other:?}"),
    }
}

#[test]
fn a_start_that_goes_well() {
    let s = to_open(options(None, false)).advance(Outcome::Opened(false));
    assert!(matches!(s.step(), Step::Grab));
    let s = s.advance(Outcome::Done);
    match s.step() {
        // The active profile, and the stage that a release would set.
        Step::Write(f) => assert_eq!(f, frame(&build_set_active_dpi(4, 2))),
        other => panic!("{other:?}"),
    }
    let s = s.advance(Outcome::Done);
    match s.step() {
        Step::Print(line) => assert_eq!(
            line,
            "wl-sniper: HUAN (dongle) (0xa863) /dev/hidraw3 · SCROLLLOCK (70) /dev/input/event6 \"HUAN 8K RECEIVER\" (grabbed) · stages 2→1, profile 4 — Ctrl-C to stop"
        ),
        other => panic!("{other:?}"),
    }
    let s = s.advance(Outcome::Done);
    assert!(matches!(s.step(), Step::Unblock));
    let s = s.advance(Outcome::Done);
    assert!(matches!(s.step(), Step::Run));
    match &s {
        Startup::Ready(config, node) => {
            assert_eq!(config.button, 70);
            assert_eq!(config.sniper_stage, 1);
            assert_eq!(config.normal_stage, 2);
            assert_eq!(config.profile, 4);
            assert!(!config.quiet);
            assert_eq!(node.path, "/dev/input/event6");
        }
        other => panic!("{other:?}"),
    }
    // Nothing moves it any more.
    let s = s.advance(Outcome::Failed("x".to_string()));
    assert!(matches!(s.step(), Step::Run));
}

#[test]
fn a_given_profile_is_not_asked_for() {
    let s = to_open(options(Some(9), true)).advance(Outcome::Opened(false)).advance(Outcome::Done);
    match s.step() {
        Step::Write(f) => assert_eq!(f, frame(&build_set_active_dpi(9, 2))),
        other => panic!("{other:?}"),
    }
    // Quiet: no line is printed.
    assert!(matches!(s.advance(Outcome::Done).step(), Step::Unblock));
}

#[test]
fn a_failed_baseline_is_no_reason_to_stop() {
    let s = to_open(options(Some(1), false)).advance(Outcome::Opened(false)).advance(Outcome::Done);
    let s = s.advance(Outcome::Failed("broken pipe".to_string()));
    match s.step() {
        Step::Warn { stage, error } => assert_eq!(
            baseline_failed_line("1.50", stage, &error),
            "wl-sniper: [t=1.50] warning: initial set stage 2 failed: broken pipe (keeps running; next edge retries)"
        ),
        other => panic!("{other:?}"),
    }
    assert!(matches!(s.advance(Outcome::Done).step(), Step::Print(_)));
}

#[test]
fn each_refusal_of_the_start() {
    let failed = || Outcome::Failed("E".to_string());

    let s = Startup::new(options(None, false)).advance(failed());
    assert_eq!(refused(&s), "hidapi init failed: E");

    let s = Startup::new(options(None, false)).advance(Outcome::Interfaces(vec![]));
    assert!(refused(&s).starts_with("no WLmouse vendor command interface found"));

    let two = vec![info("/a", 0x36A7, 1, 0xFFFF, 0), info("/b", 0x36A7, 2, 0xFFFF, 0)];
    let s = Startup::new(options(None, false)).advance(Outcome::Interfaces(two));
    assert!(refused(&s).starts_with("2 WLmouse vendor command interfaces found (/a (0x0001), /b (0x0002))"));

    let s = Startup::new(options(None, false)).advance(interfaces()).advance(failed());
    assert_eq!(
        refused(&s),
        "could not open /dev/hidraw3 (no /dev/hidraw* in a container, or missing permissions — input group + udev rule, see README): E"
    );

    let s = Startup::new(options(None, false)).advance(interfaces()).advance(Outcome::BadPath("nul".to_string()));
    assert_eq!(refused(&s), "bad vendor path /dev/hidraw3: nul");

    let s = Startup::new(options(None, false)).advance(interfaces()).advance(Outcome::Done);
    let s = s.advance(Outcome::Exchange(Event::Failed("E".to_string())));
    assert_eq!(
        refused(&s),
        "mouse did not answer the vendor interface (asleep or out of range? wiggle it): E"
    );

    let s = Startup::new(options(None, false)).advance(interfaces()).advance(Outcome::Done);
    let (s, _) = exchange(s, reply(0, 0xA1, 0x81, 0, 0));
    let s = s.advance(Outcome::Exchange(Event::Failed("E".to_string())));
    assert_eq!(refused(&s), "get_profile_id failed: E");

    let s = to_open(options(Some(1), false)).advance(Outcome::Opened(true));
    assert_eq!(refused(&s), "/dev/input/event6 is already grabbed — is another wl-sniper already running?");

    let s = to_open(options(Some(1), false)).advance(failed());
    assert_eq!(
        refused(&s),
        "could not open /dev/input/event6 — permission? (are you in the 'input' group? full re-login after usermod): E"
    );

    let s = to_open(options(Some(1), false)).advance(Outcome::Opened(false)).advance(failed());
    assert_eq!(
        refused(&s),
        "could not grab /dev/input/event6 (another process may have grabbed it in between): E"
    );

    let s = to_open(options(Some(1), true)).advance(Outcome::Opened(false)).advance(Outcome::Done);
    let s = s.advance(Outcome::Done).advance(failed());
    assert_eq!(refused(&s), "set_nonblocking on /dev/input/event6: E");
    // A refusal is final.
    let s = s.advance(Outcome::Done);
    assert_eq!(refused(&s), "set_nonblocking on /dev/input/event6: E");
}

#[test]
fn no_node_is_explained_with_sysfs() {
    let s = to_scan(options(Some(1), false));
    let seen = scan_of(&s, &[(KEYBOARD_CANON, "/dev/input/event2", true)]);
    let s = s.advance(seen);
    assert!(matches!(s.step(), Step::ListSysfs));
    let s = s.advance(Outcome::Sysfs(vec![SysfsEntry {
        name: "event6".to_string(),
        canon: Some(EVENT6_CANON.to_string()),
    }]));
    assert_eq!(
        refused(&s),
        "no dongle evdev node advertises key SCROLLLOCK (70). Is the mouse button bound to that key in the gm.wlmouse.gg web UI? Dongle nodes seen: none openable — but sysfs lists dongle nodes /dev/input/event6 (not openable by you: are you in the 'input' group? full re-login after usermod; or run with sudo to test)"
    );
}

#[test]
fn two_nodes_are_ambiguous() {
    let s = to_scan(options(Some(1), false));
    let seen = scan_of(&s, &[(EVENT6_CANON, "/dev/input/event6", true), (EVENT6_CANON, "/dev/input/event8", true)]);
    assert_eq!(
        refused(&s.advance(seen)),
        "2 dongle nodes advertise key SCROLLLOCK (70): /dev/input/event6, /dev/input/event8 — ambiguous, cannot proceed"
    );
}

#[test]
fn the_scope_is_the_port_of_the_vendor_interface() {
    let s = to_scan(options(Some(1), false));
    match &s {
        Startup::Scan(_, _, scope) => {
            assert_eq!(
                scope.usb_prefix.as_deref(),
                Some("/sys/devices/pci0000:00/0000:00:08.1/0000:74:00.4/usb5/5-2")
            );
            assert_eq!(scope.vidpid_marker, "36a7:a863");
        }
        other => panic!("{other:?}"),
    }
}

#[test]
fn an_outcome_out_of_place_changes_nothing() {
    let s = Startup::new(options(None, false));
    let s = s.advance(Outcome::Opened(false)).advance(Outcome::Canonical(None)).advance(Outcome::Done);
    assert!(matches!(s.step(), Step::ListInterfaces));
    let s = to_open(options(Some(1), false)).advance(Outcome::Done);
    assert!(matches!(s.step(), Step::OpenNode(_)));
}

/// What a start that goes well writes after the grab and prints.
fn finish(quiet: bool) -> (Vec<[u8; 65]>, Vec<String>, String) {
    let mut s = to_open(options(None, quiet)).advance(Outcome::Opened(false));
    let mut writes = Vec::new();
    let mut lines = Vec::new();
    loop {
        match s.step() {
            Step::Run => break,
            Step::Write(f) => writes.push(f),
            Step::Print(line) => lines.push(line),
            Step::Grab | Step::Unblock => {}
            other => panic!("{other:?}"),
        }
        s = s.advance(Outcome::Done);
    }
    match s {
        Startup::Ready(config, node) => {
            assert_eq!(config.quiet, quiet);
            (writes, lines, node.path)
        }
        other => panic!("{other:?}"),
    }
}

#[test]
fn a_quiet_start_does_the_same() {
    let (writes, lines, node) = finish(false);
    let (quiet_writes, quiet_lines, quiet_node) = finish(true);
    assert_eq!(writes, quiet_writes);
    assert_eq!(node, quiet_node);
    assert_eq!(lines.len(), 1);
    assert!(quiet_lines.is_empty());
}

#[test]
fn the_active_profile_is_read_where_the_status_was_detected() {
    for (detect, hid_index) in [((0xA1u8, 0u8), 1usize), ((0, 0xA1), 0)] {
        let s = Startup::new(options(None, true)).advance(interfaces()).advance(Outcome::Done);
        let (s, _) = exchange(s, reply(detect.0, detect.1, 0x81, 0, 0));
        let mut b = [9u8; 65];
        b[1] = detect.0;
        b[2] = detect.1;
        b[6] = 0x85;
        b[8 - hid_index] = 4;
        let (s, _) = exchange(s, Outcome::Exchange(Event::Reply(b)));
        match &s {
            Startup::Resolve(config, _) => assert_eq!(config.profile, 4),
            other => panic!("{other:?}"),
        }
    }
}

#[test]
fn the_grabbed_node_is_the_only_one_that_fits() {
    let s = to_scan(options(Some(1), true));
    let seen = scan_of(
        &s,
        &[
            (KEYBOARD_CANON, "/dev/input/event2", true),
            (EVENT6_CANON, "/dev/input/event5", false),
            (EVENT6_CANON, "/dev/input/event6", true),
            ("", "/dev/input/event7", true),
        ],
    );
    match s.advance(seen).step() {
        Step::OpenNode(p) => assert_eq!(p, "/dev/input/event6"),
        other => panic!("{other:?}"),
    }
}
