use wl_sniper::probe::args::{parse_args, usage, ProbeArgs};
use wl_sniper::probe::env::{read_env, read_groups, read_ids, Env};
use wl_sniper::probe::hidraw::{find_vendor, gather, section_hidraw, show_node as show_hidraw, HidrawInfo, HidrawNode};
use wl_sniper::probe::input::{
    dongle_paths, event_nodes, find_nodes, section_input, show_node, watchable, InputNode, Opened, Want,
};
use wl_sniper::probe::names::{abs_name, ev_name, rel_name, shorten, show_keys, yn};
use wl_sniper::probe::tail;
use wl_sniper::probe::verdict::verdict;
use wl_sniper::sniper::{select_node, select_vendor, HidInfo, NodeScan};
use wl_sniper::usb::dongle_scope;

fn texts(list: &[&str]) -> Vec<String> {
    list.iter().map(|s| s.to_string()).collect()
}

#[test]
fn arguments() {
    assert_eq!(parse_args(&vec![]).unwrap(), ProbeArgs { button: 70, help: false, tail: false });
    assert_eq!(
        parse_args(&texts(&["F12", "--tail", "-h"])).unwrap(),
        ProbeArgs { button: 88, help: true, tail: true }
    );
    assert_eq!(parse_args(&texts(&["F12", "--help", "0x46"])).unwrap(), ProbeArgs { button: 70, help: true, tail: false });
    let e = parse_args(&texts(&["--tail", "F99", "bogus"])).unwrap_err();
    assert_eq!(e.given, "F99");
    assert_eq!(e.message(), "unsupported F-key: F99 (F1-F24)");
    assert_eq!(parse_args(&texts(&["--quiet"])).unwrap_err().given, "--quiet");
    assert_eq!(
        usage(),
        "usage: wl-probe [BUTTON] [--tail] | -h\n\nRead-only capability probe for wl-sniper. Never writes to any device.\n\nBUTTON  evdev key name (SCROLLLOCK, F12, BTN_EXTRA, ...) or code (70, 0x46).\nDefault: SCROLLLOCK (70).\n--tail  after the static report, tail EV_KEY events from the dongle's\nnodes: press the sniper button and see which node emits which\nkey. Ctrl-C to stop."
    );
}

#[test]
fn ids_from_a_process_status() {
    let status = "Name:\tx\nUid:\t1000\t1001\t1002\t1003\nSupplementary groups:\t4 998 bad 1000\n";
    assert_eq!(read_ids(status), (1000, 1001, vec![4, 998, 1000]));
    assert_eq!(read_ids(""), (0, 0, vec![]));
    // One number is not enough, and the last line counts.
    assert_eq!(read_ids("Uid: 5\n"), (0, 0, vec![]));
    assert_eq!(read_ids("Uid: 5 6\nUid: 7\nUid: 8 9"), (8, 9, vec![]));
    assert_eq!(read_ids("Uid:x 5 6").0, 5);
    assert_eq!(read_ids(" Uid: 5 6"), (0, 0, vec![]));
}

#[test]
fn names_from_the_group_file() {
    let table = read_groups("a:x:1:10\nb:x:2:20:more\nc:x:3\nd:x:4:nan\ne:x:5:10\n:::30\n");
    assert_eq!(table.len(), 3);
    assert_eq!(table[&10], "e");
    assert_eq!(table[&20], "b");
    assert_eq!(table[&30], "");
}

#[test]
fn who_runs_the_probe() {
    let status = "Uid:\t1000\t1000\nSupplementary groups: 10 20\n";
    let env = read_env(status, "input:x:0:10\n", Some("kim".to_string()), Some("other".to_string()));
    assert_eq!(env.user, "kim");
    assert_eq!(env.groups, ["input", "gid20"]);
    assert!(env.can_open());
    assert_eq!(
        env.report(),
        "\n== whoami / permissions ==\n  user: kim  uid: 1000  euid: 1000\n  groups: input gid20\n  input group: YES (evdev + hidraw nodes should be openable)\n"
    );
    let env = read_env(status, "", None, Some("other".to_string()));
    assert_eq!(env.user, "other");
    assert!(!env.can_open());
    assert!(env
        .report()
        .ends_with("  groups: gid10 gid20\n  input group: NO — wl-sniper will not be able to open /dev/input/* or /dev/hidraw*\n"));
    let root = read_env("", "", None, None);
    assert_eq!(root.user, "?");
    assert!(root.can_open());
    assert_eq!(
        root.report(),
        "\n== whoami / permissions ==\n  user: ?  uid: 0  euid: 0\n  groups: \n  input group: YES (evdev + hidraw nodes should be openable)\n"
    );
}

#[test]
fn names_of_codes() {
    let evs: Vec<&str> = [0u16, 1, 2, 3, 4, 5, 0x0e, 0x11, 0x14, 0x15, 0x16, 6].iter().map(|t| ev_name(*t)).collect();
    assert_eq!(evs, ["SYN", "KEY", "REL", "ABS", "MSC", "SW", "REP", "LED", "SND", "FF", "PWR", "??"]);
    let rels: Vec<String> = [0u16, 1, 2, 6, 8, 11].iter().map(|c| rel_name(*c)).collect();
    assert_eq!(rels, ["X", "Y", "Z", "HWHEEL", "WHEEL", "REL11"]);
    let abss: Vec<String> = [0u16, 1, 2, 11, 12, 54, 40].iter().map(|c| abs_name(*c)).collect();
    assert_eq!(abss, ["X", "Y", "Z", "HAT0X", "HAT0Y", "VOLUME", "ABS40"]);
    assert_eq!(yn(true), "ok");
    assert_eq!(yn(false), "NO");
    assert_eq!(show_keys(&vec![]), "(none)");
    assert_eq!(show_keys(&vec![70, 57, 400]), "SCROLLLOCK(70) SPACE(57) 400(400)");
}

#[test]
fn long_paths_lose_their_front() {
    let short = "p".repeat(88);
    assert_eq!(shorten(&short), short);
    let long = format!("{}{}", "a".repeat(9), "b".repeat(80));
    assert_eq!(shorten(&long), format!("…/{}", "b".repeat(80)));
    // Bytes count: 45 characters of two bytes are long.
    let wide = "é".repeat(45);
    assert_eq!(shorten(&wide), format!("…/{}", "é".repeat(40)));
    // What is shown is never long, and is not cut again.
    for p in [short, long, wide, "/→".repeat(60)] {
        let shown = shorten(&p);
        assert!(shown.len() <= 88);
        assert_eq!(shorten(&shown), shown);
    }
    assert_eq!(shorten(""), "");
}

#[test]
fn event_nodes_by_number() {
    let found = event_nodes(&texts(&["event10", "mouse0", "event2", "event", "eventx", "event+3", "by-id", "event02"]));
    let shown: Vec<(u32, &str)> = found.iter().map(|n| (n.number, n.text.as_str())).collect();
    assert_eq!(
        shown,
        [(2, "/dev/input/event2"), (2, "/dev/input/event02"), (3, "/dev/input/event+3"), (10, "/dev/input/event10")]
    );
}

const DONGLE_SYSFS: &str = "/sys/x/0003:36A7:A863.0002/input/input5/event6";

fn opened(name: Option<&str>, keys: &[u16]) -> Opened {
    Opened {
        name: name.map(|n| n.to_string()),
        grabbed: false,
        ev: vec![0, 1],
        keys: keys.to_vec(),
        rel: vec![],
        abs: vec![],
    }
}

fn node(path: &str, sysfs: &str, keys: &[u16]) -> InputNode {
    InputNode::new(path.to_string(), Some(sysfs.to_string()), Ok(opened(Some("R"), keys)))
}

fn locked(path: &str, sysfs: &str) -> InputNode {
    InputNode::new(path.to_string(), Some(sysfs.to_string()), Err("Permission denied (os error 13)".to_string()))
}

#[test]
fn nodes_know_what_they_are() {
    let n = node("/dev/input/event6", DONGLE_SYSFS, &[70]);
    assert_eq!(n.vidpid.as_deref(), Some("36a7:a863"));
    assert!(n.is_dongle());
    assert!(n.has_key(70));
    assert!(!n.has_key(71));
    assert_eq!(n.label(), "event6");
    let other = node("/dev/input/event1", "/sys/x/0003:046D:C31C.0001/input/input1/event1", &[70]);
    assert_eq!(other.vidpid.as_deref(), Some("046d:c31c"));
    assert!(!other.is_dongle());
    let bare = InputNode::new("/x/event9".to_string(), None, Ok(opened(None, &[])));
    assert!(!bare.is_dongle());
    assert_eq!(bare.label(), "/x/event9");
    let shut = locked("/dev/input/event7", DONGLE_SYSFS);
    assert!(shut.is_dongle());
    assert_eq!(shut.open_err.as_deref(), Some("Permission denied (os error 13)"));
    assert!(shut.keys.is_empty());
}

#[test]
fn section_of_event_nodes() {
    let mut full = opened(Some("HUAN"), &[70, 88]);
    full.grabbed = true;
    full.ev = vec![0, 1, 2, 3];
    full.rel = vec![0, 1, 8];
    full.abs = vec![40];
    let full = InputNode::new("/dev/input/event6".to_string(), Some(DONGLE_SYSFS.to_string()), Ok(full));
    let text = show_node(&full, 70);
    assert_eq!(
        text,
        "  event6   ok [36A7 dongle]grabbed  advertises SCROLLLOCK (70)  hid: 36a7:a863\n           sysfs: /sys/x/0003:36A7:A863.0002/input/input5/event6\n           name:  \"HUAN\"\n           EV: SYN KEY REL ABS  rel: X,Y,WHEEL  abs: ABS40\n           keys: SCROLLLOCK(70) F12(88)\n"
    );
    let bare = InputNode::new("/dev/input/event10".to_string(), None, Ok(opened(None, &[])));
    let rows = vec![bare, locked("/dev/input/event7", DONGLE_SYSFS), locked("/dev/input/event123", "/sys/y")];
    assert_eq!(
        section_input(&rows, 70),
        "\n== /dev/input nodes ==\n  event10  ok\n           EV: SYN KEY\n           keys: (none)\n  event7   OPEN FAILED (Permission denied (os error 13)) [36A7 dongle]  hid: 36a7:a863\n           sysfs: /sys/x/0003:36A7:A863.0002/input/input5/event6\n  event123 OPEN FAILED (Permission denied (os error 13))\n           sysfs: /sys/y\n"
    );
    assert_eq!(section_input(&vec![], 70), "\n== /dev/input nodes ==\n");
    // A node of another vendor shows whose it is too.
    let other = node("/dev/input/event1", "/sys/x/0003:046D:C31C.0001/input/input1/event1", &[]);
    assert!(show_node(&other, 70).starts_with("  event1   ok  hid: 046d:c31c\n"));
}

#[test]
fn selections_of_event_nodes() {
    let rows = vec![
        node("/dev/input/event9", DONGLE_SYSFS, &[30]),
        node("/dev/input/event10", DONGLE_SYSFS, &[70]),
        locked("/dev/input/event11", DONGLE_SYSFS),
        node("/dev/input/event2", "/sys/y", &[70]),
    ];
    assert_eq!(find_nodes(&rows, Want::Dongle), [0, 1, 2]);
    assert_eq!(find_nodes(&rows, Want::Openable), [0, 1]);
    assert_eq!(find_nodes(&rows, Want::Key(70)), [1]);
    assert_eq!(watchable(&rows), ["/dev/input/event9", "/dev/input/event10"]);
    // By text, not by number.
    assert_eq!(dongle_paths(&rows), ["/dev/input/event10", "/dev/input/event11", "/dev/input/event9"]);
}

fn hid(path: &str, vid: u16, usage_page: u16, usage: u16, product: Option<&str>) -> HidrawInfo {
    HidrawInfo {
        path: path.to_string(),
        vid,
        pid: 0xA863,
        product: product.map(|p| p.to_string()),
        usage_page,
        usage,
    }
}

#[test]
fn interfaces_are_gathered_by_path() {
    let rows = gather(&vec![
        hid("/dev/hidraw3", 0x36A7, 0xFFFF, 0, Some("HUAN")),
        hid("/dev/hidraw10", 0x046D, 1, 6, None),
        hid("/dev/hidraw3", 0x1111, 1, 2, Some("later")),
        hid("/dev/hidraw3", 0x36A7, 1, 1, None),
        hid("/dev/hidraw3", 0x36A7, 1, 2, None),
    ]);
    assert_eq!(rows.len(), 2);
    assert_eq!(rows[0].path, "/dev/hidraw10");
    assert_eq!(rows[0].name, "");
    assert_eq!(rows[0].usages, [(1, 6)]);
    assert_eq!(rows[1].path, "/dev/hidraw3");
    assert_eq!((rows[1].vid, rows[1].pid), (0x36A7, 0xA863));
    assert_eq!(rows[1].name, "HUAN");
    assert_eq!(rows[1].usages, [(1, 1), (1, 2), (0xFFFF, 0)]);
    assert!(rows.iter().all(|r| r.sysfs.is_none() && !r.ro_open && !r.rw_open));
    assert!(rows[1].is_vendor() && rows[1].is_ours());
    assert!(!rows[0].is_vendor() && !rows[0].is_ours());
    assert_eq!(find_vendor(&rows), [1]);
    assert!(gather(&vec![]).is_empty());
}

fn vendor(path: &str, rw_open: bool) -> HidrawNode {
    HidrawNode {
        path: path.to_string(),
        vid: 0x36A7,
        pid: 0xA863,
        name: "HUAN".to_string(),
        usages: vec![(1, 2), (0xFFFF, 0)],
        sysfs: Some("/sys/h".to_string()),
        ro_open: true,
        rw_open,
    }
}

#[test]
fn section_of_hidraw_nodes() {
    let v = vendor("/dev/hidraw3", false);
    assert_eq!(
        show_hidraw(&v),
        "  /dev/hidraw3  36a7:a863  \"HUAN\"  usages: 0x0001/0x02 0xffff/0x00   << VENDOR COMMAND IFACE\n           sysfs: /sys/h\n           RO open: ok   RW open: NO\n"
    );
    let other = HidrawNode {
        path: "/dev/hidraw0".to_string(),
        vid: 0x46D,
        pid: 0xC,
        name: String::new(),
        usages: vec![(0xFFFF, 0)],
        sysfs: None,
        ro_open: false,
        rw_open: false,
    };
    assert_eq!(
        section_hidraw(None, &vec![other]),
        "\n== /dev/hidraw nodes ==\n  /dev/hidraw0  046d:000c  \"\"  usages: 0xffff/0x00\n           RO open: NO\n"
    );
    assert_eq!(
        section_hidraw(Some("no udev"), &vec![]),
        "\n== /dev/hidraw nodes ==\n  hidapi init failed: no udev\n"
    );
}

fn env(euid: u32) -> Env {
    Env { user: "kim".to_string(), uid: 1000, euid, groups: vec![] }
}

fn judge(euid: u32, rows: Vec<InputNode>, hidraw: Vec<HidrawNode>) -> String {
    let paths = dongle_paths(&rows);
    verdict(&env(euid), &rows, &paths, &hidraw, 70)
}

const TITLE: &str = "\n== verdict for: wl-sniper --button 70 --sniper-stage <A> --normal-stage <B> ==\n";

#[test]
fn the_daemon_should_start() {
    let rows = vec![node("/dev/input/event6", DONGLE_SYSFS, &[70]), node("/dev/input/event2", "/sys/y", &[70])];
    assert_eq!(
        judge(1000, rows, vec![vendor("/dev/hidraw3", true)]),
        format!("{TITLE}  ✓ vendor command iface: /dev/hidraw3 (read+write openable)\n  dongle evdev nodes: 1 (1 openable by you): /dev/input/event6\n  ✓ wl-sniper should start: it will grab /dev/input/event6 and switch stages over /dev/hidraw3.\n")
    );
}

#[test]
fn what_is_in_the_daemon_s_way() {
    assert_eq!(
        judge(1000, vec![], vec![]),
        format!("{TITLE}  ✗ no 36A7 vendor command interface (usage_page 0xffff/usage 0) — is the dongle connected? (lsusb | grep -i 36a7)\n  ✗ no dongle evdev nodes found in sysfs at all — dongle disconnected, or kernel hid-parsing issue\n")
    );
    let rows = vec![node("/dev/input/event6", DONGLE_SYSFS, &[70])];
    assert_eq!(
        judge(1000, rows, vec![vendor("/dev/hidraw3", false)]),
        format!("{TITLE}  ✗ vendor iface /dev/hidraw3 found but NOT read+write openable — udev rule / input-group issue\n  dongle evdev nodes: 1 (1 openable by you): /dev/input/event6\n  ~ button node /dev/input/event6 is fine, but the vendor iface problem above must be fixed first\n")
    );
    let rows = vec![node("/dev/input/event6", DONGLE_SYSFS, &[70]), node("/dev/input/event7", DONGLE_SYSFS, &[70])];
    assert_eq!(
        judge(1000, rows, vec![vendor("/dev/hidraw3", true), vendor("/dev/hidraw4", true)]),
        format!("{TITLE}  ✗ 2 vendor ifaces (/dev/hidraw3, /dev/hidraw4) — multiple dongles? wl-sniper requires exactly one\n  dongle evdev nodes: 2 (2 openable by you): /dev/input/event6, /dev/input/event7\n  ✗ 2 dongle nodes advertise key 70 (/dev/input/event6, /dev/input/event7) — ambiguous, wl-sniper will refuse: SCROLLLOCK\n")
    );
}

#[test]
fn no_node_has_the_key() {
    let rows = vec![node("/dev/input/event6", DONGLE_SYSFS, &[88]), node("/dev/input/event7", DONGLE_SYSFS, &[])];
    assert_eq!(
        judge(1000, rows, vec![vendor("/dev/hidraw3", true)]),
        format!("{TITLE}  ✓ vendor command iface: /dev/hidraw3 (read+write openable)\n  dongle evdev nodes: 2 (2 openable by you): /dev/input/event6, /dev/input/event7\n  ✗ no openable dongle node advertises key 70 (SCROLLLOCK) — in the gm.wlmouse.gg web UI, is the mouse button bound to SCROLLLOCK in KEY mode?\n    keys advertised by the dongle's openable nodes:\n      event6: F12(88)\n      event7: (none)\n    → run again with the right key: wl-probe <KEY>\n")
    );
    let tail = "  ✗ no openable dongle node advertises key 70 (SCROLLLOCK) — in the gm.wlmouse.gg web UI, is the mouse button bound to SCROLLLOCK in KEY mode?\n    keys advertised by the dongle's openable nodes:\n    → run again with the right key: wl-probe <KEY>\n";
    let count = "  dongle evdev nodes: 1 (0 openable by you): /dev/input/event6\n";
    let iface = "  ✓ vendor command iface: /dev/hidraw3 (read+write openable)\n";
    let advice = "  ✗ none openable → 'sudo usermod -aG input kim' then a FULL re-login (or test once with sudo)\n";
    assert_eq!(
        judge(1000, vec![locked("/dev/input/event6", DONGLE_SYSFS)], vec![vendor("/dev/hidraw3", true)]),
        format!("{TITLE}{iface}{count}{advice}{tail}")
    );
    // Root needs no advice.
    assert_eq!(
        judge(0, vec![locked("/dev/input/event6", DONGLE_SYSFS)], vec![vendor("/dev/hidraw3", true)]),
        format!("{TITLE}{iface}{count}{tail}")
    );
}

#[test]
fn the_promise_is_kept() {
    // The same devices, as the probe and as the daemon's start see them.
    let infos = vec![hid("/dev/hidraw3", 0x36A7, 0xFFFF, 0, None), hid("/dev/hidraw3", 0x36A7, 1, 2, None)];
    let devices: Vec<HidInfo> = infos
        .iter()
        .map(|i| HidInfo {
            path: i.path.clone(),
            vendor_id: i.vid,
            product_id: i.pid,
            usage_page: i.usage_page,
            usage: i.usage,
        })
        .collect();
    let mut hidraw = gather(&infos);
    hidraw[0].rw_open = true;
    let rows = vec![
        node("/dev/input/event2", "/sys/y/0003:046D:C31C.0001/event2", &[70]),
        node("/dev/input/event6", DONGLE_SYSFS, &[70]),
        locked("/dev/input/event7", DONGLE_SYSFS),
    ];
    let vendor = select_vendor(&devices).unwrap();
    let mut scan = NodeScan::new(&dongle_scope(None, vendor.pid));
    for r in rows.iter().rev().filter(|r| r.open_err.is_none()) {
        scan.visit_lowered(&r.sysfs.as_ref().unwrap().to_lowercase(), &r.path, r.name.as_deref(), r.has_key(70));
    }
    let found = select_node(scan, 70, &vec![]).unwrap();
    let text = judge(1000, rows, hidraw);
    assert!(text.ends_with(&format!(
        "should start: it will grab {} and switch stages over {}.\n",
        found.path, vendor.path
    )));
}

#[test]
fn the_live_tail() {
    assert_eq!(
        tail::head(&vec![]),
        "\n== live EV_KEY tail ==\n  no openable dongle evdev nodes — nothing to watch (fix the openability problem from the verdict above first)\n"
    );
    assert_eq!(
        tail::head(&texts(&["/dev/input/event6", "/dev/input/event7"])),
        "\n== live EV_KEY tail ==\n  watching: /dev/input/event6, /dev/input/event7\n  press the sniper button now (and the other buttons, to compare). Ctrl-C to stop.\n"
    );
    assert!(tail::is_shown(1));
    assert!(!tail::is_shown(0));
    let stamp = format!("{:7.3}", 1.25f64);
    assert_eq!(
        tail::event_line(&stamp, "/dev/input/event6", 70, 1).unwrap(),
        "  t+  1.250s  event6    press    SCROLLLOCK (70/0x46)"
    );
    assert_eq!(
        tail::event_line("1", "/dev/input/event6", 88, 0).unwrap(),
        "  t+1s  event6    release  F12 (88/0x58)"
    );
    assert_eq!(
        tail::event_line("1", "/x", 300, 2).unwrap(),
        "  t+1s  /x        repeat   300 (300/0x12c)"
    );
    assert_eq!(tail::event_line("1", "/x", 70, 7), Err("  unexpected EV_KEY value 7".to_string()));
    assert_eq!(tail::open_failed_line("/dev/input/event6", "E"), "  /dev/input/event6: failed to open for tail: E");
    assert_eq!(tail::read_failed_line("/dev/input/event6", "E"), "  /dev/input/event6: read error: E");
}
