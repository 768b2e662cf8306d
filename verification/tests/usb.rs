use wl_sniper::usb::{
    dongle_event_nodes_from_sysfs, dongle_scope, extract_usb_device_prefix, find_event_node, hid_marker,
    in_scope, is_under, sysfs_canon, usb_segment, vid_marker, SysfsEntry,
};

#[test]
fn usb_segments() {
    // device segments
    assert!(usb_segment("5-2", false));
    assert!(usb_segment("3-1.2", false)); // hub port
    assert!(usb_segment("1-1.1.3", false)); // nested hub ports
    assert!(!usb_segment("usb5", false));
    assert!(!usb_segment("5-2:1.3", false));
    // interface segments (config.interface)
    assert!(usb_segment("5-2:1.3", true));
    assert!(usb_segment("3-1.2:2.0", true));
    assert!(!usb_segment("5-2", true));
    assert!(!usb_segment("5-2:1", true)); // bare interface is not USB sysfs format
    assert!(!usb_segment("5-2:1.3.4", true));
}

#[test]
fn extract_prefix_dongle_paths() {
    let p = "/sys/devices/pci0000:00/0000:00:14.0/usb5/5-2/5-2:1.3/0003:36A7:A863.0005/hidraw3";
    assert_eq!(
        extract_usb_device_prefix(p),
        Some("/sys/devices/pci0000:00/0000:00:14.0/usb5/5-2".to_string())
    );
    let evdev_p = "/sys/devices/pci0000:00/0000:00:14.0/usb5/5-2/5-2:1.3/0003:36A7:A863.0005/input7/event6";
    assert_eq!(
        extract_usb_device_prefix(evdev_p),
        Some("/sys/devices/pci0000:00/0000:00:14.0/usb5/5-2".to_string())
    );
}

#[test]
fn extract_prefix_real_host_paths() {
    // Real sysfs paths from the reporter's host (CachyOS, 7.2.0 kernel).
    let vendor = "/sys/devices/pci0000:00/0000:00:08.1/0000:74:00.4/usb5/5-2/5-2:1.2/0003:36A7:A863.0004/hidraw/hidraw3";
    let evdev = "/sys/devices/pci0000:00/0000:00:08.1/0000:74:00.4/usb5/5-2/5-2:1.1/0003:36A7:A863.0002/input/input5/event6";
    let want = "/sys/devices/pci0000:00/0000:00:08.1/0000:74:00.4/usb5/5-2";
    assert_eq!(extract_usb_device_prefix(vendor), Some(want.to_string()));
    assert_eq!(extract_usb_device_prefix(evdev), Some(want.to_string()));
    // Fallback marker also matches both.
    let marker = "36a7:a863";
    assert!(vendor.to_lowercase().contains(marker));
    assert!(evdev.to_lowercase().contains(marker));
    // A different 36A7 model (wired, 0xa864) must NOT match the dongle marker.
    assert!(
        !"/sys/devices/x/usb1/1-1/1-1:1.0/0003:36A7:A864.0009/input/input9/event9"
            .to_lowercase()
            .contains(marker)
    );
    // The same of the scopes that are made from these paths.
    let fallback = dongle_scope(None, 0xA863);
    assert_eq!(fallback.vidpid_marker, marker);
    assert!(in_scope(&vendor.to_lowercase(), &fallback));
    assert!(in_scope(&evdev.to_lowercase(), &fallback));
    assert!(!in_scope(
        &"/sys/devices/x/usb1/1-1/1-1:1.0/0003:36A7:A864.0009/input/input9/event9".to_lowercase(),
        &fallback
    ));
    let scope = dongle_scope(Some(vendor), 0xA863);
    assert_eq!(scope.usb_prefix, Some(want.to_string()));
    assert!(in_scope(&evdev.to_lowercase(), &scope));
}

#[test]
fn extract_prefix_rejects_non_usb() {
    // A /dev path (real device node, not a symlink) has no USB segments.
    assert_eq!(extract_usb_device_prefix("/dev/hidraw3"), None);
    assert_eq!(extract_usb_device_prefix("/dev/input/event6"), None);
}

#[test]
fn hid_marker_real_paths() {
    assert_eq!(
        hid_marker("/sys/devices/pci0000:00/0000:00:08.1/0000:74:00.4/usb5/5-2/5-2:1.2/0003:36A7:A863.0004/hidraw/hidraw3"),
        Some("36a7:a863".to_string())
    );
    assert_eq!(
        hid_marker("/sys/devices/pci0000:00/0000:00:08.1/0000:74:00.4/usb5/5-2/5-2:1.1/0003:36A7:A863.0002/input/input5/event6"),
        Some("36a7:a863".to_string())
    );
    assert_eq!(hid_marker("/sys/devices/platform/PNP0C0C:00/input/input0/event0"), None);
}

#[test]
fn odd_segments() {
    assert!(!usb_segment("", false));
    assert!(!usb_segment("", true));
    assert!(!usb_segment("5", false));
    assert!(!usb_segment("-", false));
    assert!(!usb_segment("5-", false));
    assert!(!usb_segment("5-2.", false));
    assert!(!usb_segment("5-.2", false));
    assert!(usb_segment("5-2-3", false));
    assert!(!usb_segment("5-a", false));
    assert!(!usb_segment("٥-٢", false));
    assert!(!usb_segment(":1.0", true));
    assert!(!usb_segment("5-2:", true));
    assert!(!usb_segment("5-2:.", true));
    assert!(!usb_segment("5-2:1.0:2", true));
    assert!(!usb_segment("5-2:", false));
}

#[test]
fn no_segment_is_both() {
    for s in ["5-2", "5-2:1.3", "3-1.2", "usb5", "", "1-1.1.3:1.0", "0000:00:14.0"] {
        assert!(!(usb_segment(s, true) && usb_segment(s, false)));
    }
}

#[test]
fn the_first_interface_counts() {
    // A hub's interface, further down that of the device on it.
    assert_eq!(
        extract_usb_device_prefix("/sys/usb1/1-1/1-1:1.0/x/1-1.2/1-1.2:1.0/y"),
        Some("/sys/usb1/1-1".to_string())
    );
    // Doubled slashes are dropped, and a path need not begin with one.
    assert_eq!(extract_usb_device_prefix("sys//usb1///1-1/1-1:1.0"), Some("/sys/usb1/1-1".to_string()));
    // An interface without its device in front does not count.
    assert_eq!(extract_usb_device_prefix("/1-1:1.0/x"), None);
    assert_eq!(extract_usb_device_prefix("/x/1-1:1.0"), None);
    assert_eq!(extract_usb_device_prefix(""), None);
}

#[test]
fn markers_in_odd_paths() {
    assert_eq!(hid_marker("0003:AB:cd.1"), Some("ab:cd".to_string()));
    assert_eq!(hid_marker("/0003:36A7:A863"), None);
    assert_eq!(hid_marker("/0003:36A7.0001"), None);
    assert_eq!(hid_marker("/0003:36A7:A863:1.0001"), None);
    assert_eq!(hid_marker("/0005:36A7:A863.0001"), None);
    // The first segment that has one counts.
    assert_eq!(hid_marker("/0003:1.2/0003:1:2.3/0003:3:4.5"), Some("1:2".to_string()));
    assert_eq!(hid_marker("/0003::."), Some(":".to_string()));
    assert_eq!(hid_marker(""), None);
    assert_eq!(vid_marker(), "36a7");
}

#[test]
fn class_links_of_nodes() {
    assert_eq!(sysfs_canon("/dev/input/event6"), "/sys/class/input/event6");
    assert_eq!(sysfs_canon("/dev/hidraw3"), "/sys/class/hidraw/hidraw3");
    assert_eq!(sysfs_canon("/dev/input/by-id/usb"), "/sys/class/input/usb");
    assert_eq!(sysfs_canon("/dev/ttyS0"), "/dev/ttyS0");
    assert_eq!(sysfs_canon("/dev/input"), "/dev/input");
}

#[test]
fn interfaces_of_one_device_share_the_prefix() {
    let scope = dongle_scope(Some("/sys/devices/PCI/usb5/5-2/5-2:1.2/0003:36A7:A863.0004/hidraw/hidraw3"), 0xA863);
    assert_eq!(scope.usb_prefix.as_deref(), Some("/sys/devices/PCI/usb5/5-2"));
    // Any node under the device is in scope, whatever its interface.
    assert!(in_scope("/sys/devices/pci/usb5/5-2/5-2:1.0/input/event1", &scope));
    assert!(in_scope("/sys/devices/pci/usb5/5-2/5-2:1.1/input/event2", &scope));
    // Another port is not.
    assert!(!in_scope("/sys/devices/pci/usb5/5-3/5-3:1.0/input/event1", &scope));
    assert!(!in_scope("", &scope));
}

#[test]
fn markers_of_two_products_differ() {
    assert_ne!(dongle_scope(None, 0xA863).vidpid_marker, dongle_scope(None, 0xA864).vidpid_marker);
    assert_eq!(dongle_scope(Some("/dev/x"), 0x000F).vidpid_marker, "36a7:000f");
    let m = dongle_scope(None, 0xFFFF).vidpid_marker;
    assert_eq!(m, m.to_lowercase());
    // A path whose marker is read as the product's is in the fallback scope.
    let path = "/sys/x/0003:36A7:A863.0002/input/input5/event6";
    assert_eq!(hid_marker(path), Some("36a7:a863".to_string()));
    assert!(in_scope(&path.to_lowercase(), &dongle_scope(None, 0xA863)));
}

fn entry(name: &str, canon: Option<&str>) -> SysfsEntry {
    SysfsEntry { name: name.to_string(), canon: canon.map(|c| c.to_string()) }
}

#[test]
fn nodes_that_sysfs_lists() {
    let entries = vec![
        entry("event6", Some("/sys/x/0003:36A7:A863.0002/input/input5/event6")),
        entry("mouse0", Some("/sys/x/0003:36A7:A863.0002/input/input5/mouse0")),
        entry("event1", Some("/sys/x/0003:046D:C52B.0001/input/input1/event1")),
        entry("event7", None),
        entry("event12", Some("/sys/É/0003:36a7:a863.0003/input/input6/event12")),
    ];
    assert_eq!(
        dongle_event_nodes_from_sysfs(&entries, "36a7:a863"),
        ["/dev/input/event6", "/dev/input/event12"]
    );
    assert!(dongle_event_nodes_from_sysfs(&vec![], "36a7:a863").is_empty());
    // Case is dropped as Unicode has it.
    assert_eq!(dongle_event_nodes_from_sysfs(&entries, "/é/"), ["/dev/input/event12"]);
}

#[test]
fn one_node_given_the_lowered_path() {
    assert_eq!(find_event_node("event3", Some("/sys/a"), "a"), Some("/dev/input/event3".to_string()));
    assert_eq!(find_event_node("event3", Some("/sys/A"), "a"), None);
    assert_eq!(find_event_node("event3", None, "a"), None);
    assert_eq!(find_event_node("js0", Some("/sys/a"), "a"), None);
}

#[test]
fn scope_is_the_port() {
    let scope = dongle_scope(Some("/sys/devices/usb5/5-2/5-2:1.2/hidraw/hidraw3"), 0xA863);
    assert_eq!(scope.usb_prefix.as_deref(), Some("/sys/devices/usb5/5-2"));
    assert!(in_scope("/sys/devices/usb5/5-2", &scope));
    assert!(in_scope("/sys/devices/usb5/5-2/5-2:1.0/event1", &scope));
    // Another port, another bus, the hub itself.
    assert!(!in_scope("/sys/devices/usb5/5-3/5-3:1.0/event1", &scope));
    assert!(!in_scope("/sys/devices/usb6/5-2/5-2:1.0/event1", &scope));
    assert!(!in_scope("/sys/devices/usb5/event1", &scope));
    // Names that only begin or end like the port's.
    assert!(!in_scope("/sys/devices/usb5/5-21/5-21:1.0/event1", &scope));
    assert!(!in_scope("/sys/devices/usb5/5-2.1/5-2.1:1.0/event1", &scope));
    assert!(!in_scope("/sys/devices/usb5/5-20", &scope));
    assert!(!in_scope("/sys/devices/usb5/15-2/event1", &scope));
    // The first place where the path stands need not be the one that counts.
    assert!(in_scope("/sys/devices/usb5/5-21/sys/devices/usb5/5-2", &scope));
    let known = dongle_scope(Some("/sys/devices/x/usb5/5-2/5-2:1.0"), 0xA863);
    assert!(!in_scope("/sys/devices/x/usb5/5-20/5-20:1.0/0003:046d:c31c.0001/input/input3/event3", &known));
    assert!(is_under("/a/b/c", "/a/b"));
    assert!(is_under("/a/b", "/a/b"));
    assert!(!is_under("/a/bc", "/a/b"));
    assert!(!is_under("/a", "/a/b"));
}

#[test]
fn the_marker_of_a_path_and_of_its_lower_case() {
    for p in [
        "/sys/devices/pci0000:00/usb5/5-2/5-2:1.2/0003:36A7:A863.0004/hidraw/hidraw3",
        "/0003:AB.c:D/0003:Ab:cD.Ef",
        "/0003:1:2:3.4",
        "/É/0003:É:b.c",
        "/sys/0005:36A7:A863.0004",
        "",
    ] {
        assert_eq!(hid_marker(p), hid_marker(&p.to_ascii_lowercase()));
    }
    assert_eq!(hid_marker("/0003:AB.c:D/0003:Ab:cD.Ef"), Some("ab:cd".to_string()));
    assert_eq!(hid_marker("/0003:::x"), None);
}
