//! Paths of devices, character by character and name by name.
use crate::laws::texts;
use crate::number;
use crate::split;
use crate::text;
use crate::usb;
use crate::usb::{NeedleView, Scope, SysfsEntry};
use vstd::prelude::*;

verus! {

// ---------------------------------------------------------------- segments
pub open spec fn is_digit(c: char) -> bool {
    '0' <= c <= '9'
}

/// Digits with single dashes and dots between them.
pub open spec fn is_spaced(s: Seq<char>) -> bool {
    &&& s.len() > 0
    &&& is_digit(s[0])
    &&& is_digit(s[s.len() - 1])
    &&& forall|i: int|
        0 <= i < s.len() ==> is_digit(#[trigger] s[i]) || ((s[i] == '-' || s[i] == '.') && is_digit(
            s[i - 1],
        ))
}

/// What is spaced is so in front of a separator and behind it, and the other
/// way round.
proof fn lemma_spaced_parts(a: Seq<char>, sep: char, b: Seq<char>)
    requires
        sep == '-' || sep == '.',
    ensures
        is_spaced(a.push(sep) + b) <==> is_spaced(a) && is_spaced(b),
{
    let s = a.push(sep) + b;
    let n = a.len() as int;
    assert(forall|i: int| 0 <= i < n ==> s[i] == #[trigger] a[i]);
    assert(s[n] == sep);
    assert(forall|i: int| 0 <= i < b.len() ==> s[n + 1 + i] == #[trigger] b[i]);
    if is_spaced(s) {
        assert(n > 0) by {
            if n == 0 {
                assert(s[0] == sep);
            }
        }
        assert(is_digit(s[n - 1])) by {
            assert(is_digit(s[n]) || is_digit(s[n - 1]));
        }
        assert(b.len() > 0) by {
            if b.len() == 0 {
                assert(s[s.len() - 1] == sep);
            }
        }
        assert forall|i: int| 0 <= i < n implies is_digit(#[trigger] a[i]) || ((a[i] == '-' || a[i]
            == '.') && is_digit(a[i - 1])) by {
            assert(s[i] == a[i]);
            if i > 0 {
                assert(s[i - 1] == a[i - 1]);
            }
        }
        assert(is_digit(b[0])) by {
            assert(s[n + 1] == b[0]);
            assert(is_digit(s[n + 1]) || is_digit(s[n]));
        }
        assert(s[s.len() - 1] == b[b.len() - 1]);
        assert forall|i: int| 0 <= i < b.len() implies is_digit(#[trigger] b[i]) || ((b[i] == '-'
            || b[i] == '.') && is_digit(b[i - 1])) by {
            assert(s[n + 1 + i] == b[i]);
            if i > 0 {
                assert(s[n + i] == b[i - 1]);
            }
        }
        assert(s[0] == a[0]);
    }
    if is_spaced(a) && is_spaced(b) {
        assert(s[0] == a[0]);
        assert(s[s.len() - 1] == b[b.len() - 1]);
        assert forall|i: int| 0 <= i < s.len() implies is_digit(#[trigger] s[i]) || ((s[i] == '-'
            || s[i] == '.') && is_digit(s[i - 1])) by {
            if i < n {
                assert(s[i] == a[i]);
                if i > 0 {
                    assert(s[i - 1] == a[i - 1]);
                }
            } else if i == n {
                assert(s[i - 1] == a[n - 1]);
            } else {
                assert(s[i] == b[i - n - 1]);
                if i > n + 1 {
                    assert(s[i - 1] == b[i - n - 2]);
                }
            }
        }
    }
}

pub open spec fn all_spaced(parts: Seq<Seq<char>>) -> bool {
    forall|i: int| 0 <= i < parts.len() ==> is_spaced(#[trigger] parts[i])
}

/// What holds a separator falls into what is in front of the last one and what
/// is behind it.
proof fn lemma_cut(s: Seq<char>, sep: char) -> (r: (Seq<char>, Seq<char>))
    requires
        s.contains(sep),
    ensures
        s == r.0.push(sep) + r.1,
        !r.1.contains(sep),
        r.0.len() < s.len(),
        split::split_on(s, sep) == split::split_on(r.0, sep).push(r.1),
    decreases s.len(),
{
    let front = s.drop_last();
    if s.last() == sep {
        let r = (front, Seq::<char>::empty());
        assert(s =~= r.0.push(sep) + r.1);
        split::lemma_split_append(r.0, sep, r.1);
        r
    } else {
        let k = choose|k: int| 0 <= k < s.len() && s[k] == sep;
        assert(front[k] == sep);
        let before = lemma_cut(front, sep);
        let r = (before.0, before.1.push(s.last()));
        assert(s =~= front.push(s.last()));
        assert(front == before.0.push(sep) + before.1);
        assert(front.push(s.last()) =~= r.0.push(sep) + r.1);
        assert(!r.1.contains(sep)) by {
            if r.1.contains(sep) {
                let j = choose|j: int| 0 <= j < r.1.len() && r.1[j] == sep;
                if j < before.1.len() {
                    assert(before.1[j] == sep);
                }
            }
        }
        split::lemma_split_append(r.0, sep, r.1);
        r
    }
}

proof fn lemma_spaced_split(s: Seq<char>, sep: char)
    requires
        sep == '-' || sep == '.',
    ensures
        is_spaced(s) <==> all_spaced(split::split_on(s, sep)),
    decreases s.len(),
{
    let parts = split::split_on(s, sep);
    if s.contains(sep) {
        let (a, b) = lemma_cut(s, sep);
        let before = split::split_on(a, sep);
        lemma_spaced_parts(a, sep, b);
        lemma_spaced_split(a, sep);
        assert(parts[before.len() as int] == b);
        assert forall|i: int| 0 <= i < before.len() implies parts[i] == #[trigger] before[i] by {}
        if all_spaced(parts) {
            assert forall|i: int| 0 <= i < before.len() implies is_spaced(
                #[trigger] before[i],
            ) by {
                assert(parts[i] == before[i]);
            }
        }
    } else {
        split::lemma_split_single(s, sep);
        assert(parts[0] == s);
    }
}

/// No piece holds the separator.
proof fn lemma_pieces_are_free(s: Seq<char>, sep: char, i: int)
    requires
        0 <= i < split::split_on(s, sep).len(),
    ensures
        !split::split_on(s, sep)[i].contains(sep),
    decreases s.len(),
{
    if s.contains(sep) {
        let (a, b) = lemma_cut(s, sep);
        if i < split::split_on(a, sep).len() {
            lemma_pieces_are_free(a, sep, i);
        }
    } else {
        split::lemma_split_single(s, sep);
    }
}

/// No piece holds what the text does not hold.
proof fn lemma_pieces_hold_no_more(s: Seq<char>, sep: char, i: int, c: char)
    requires
        0 <= i < split::split_on(s, sep).len(),
        !s.contains(c),
    ensures
        !split::split_on(s, sep)[i].contains(c),
{
    let piece = split::split_on(s, sep)[i];
    split::lemma_piece_occurs(s, sep, i);
    let at = choose|at: int| #[trigger] text::occurs_at(s, piece, at);
    if piece.contains(c) {
        let k = choose|k: int| 0 <= k < piece.len() && piece[k] == c;
        assert(s.subrange(at, at + piece.len())[k] == c);
        assert(s[at + k] == c);
    }
}

/// A number is one digit or more, and nothing else.
pub proof fn law_numbers_are_digits(s: Seq<char>)
    ensures
        usb::is_number(s) <==> is_spaced(s) && !s.contains('-') && !s.contains('.'),
        usb::is_number(s) <==> s.len() > 0 && forall|i: int|
            0 <= i < s.len() ==> '0' <= #[trigger] s[i] <= '9',
{
    if usb::is_number(s) {
        assert(is_digit(s[0]));
        assert(is_digit(s[s.len() - 1]));
        assert forall|i: int| 0 <= i < s.len() implies is_digit(#[trigger] s[i]) by {}
    }
    if is_spaced(s) && !s.contains('-') && !s.contains('.') {
        assert forall|i: int| 0 <= i < s.len() implies '0' <= #[trigger] s[i] && s[i] <= '9' by {
            assert(s.contains(s[i]));
        }
    }
}

proof fn lemma_port_chain(s: Seq<char>)
    ensures
        usb::is_port_chain(s) <==> is_spaced(s) && !s.contains('-'),
{
    let parts = split::split_on(s, '.');
    lemma_spaced_split(s, '.');
    if usb::is_port_chain(s) {
        assert forall|i: int| 0 <= i < parts.len() implies is_spaced(#[trigger] parts[i])
            && !parts[i].contains('-') by {
            assert(usb::is_number(parts[i]));
            law_numbers_are_digits(parts[i]);
        }
        if s.contains('-') {
            split::lemma_piece_holds(s, '.', '-');
        }
    }
    if is_spaced(s) && !s.contains('-') {
        assert forall|i: int| 0 <= i < parts.len() implies usb::is_number(#[trigger] parts[i]) by {
            assert(is_spaced(parts[i]));
            lemma_pieces_are_free(s, '.', i);
            lemma_pieces_hold_no_more(s, '.', i, '-');
            law_numbers_are_digits(parts[i]);
        }
    }
}

/// The name of a USB device: digits, with dashes and dots between them, never
/// two together, and at least one dash.
pub proof fn law_device_names(s: Seq<char>)
    ensures
        usb::is_device_segment(s) <==> is_spaced(s) && s.contains('-'),
{
    let parts = split::split_on(s, '-');
    lemma_spaced_split(s, '-');
    if usb::is_device_segment(s) {
        assert forall|i: int| 0 <= i < parts.len() implies is_spaced(#[trigger] parts[i]) by {
            lemma_port_chain(parts[i]);
        }
        if !s.contains('-') {
            split::lemma_split_single(s, '-');
        }
    }
    if is_spaced(s) && s.contains('-') {
        let (a, b) = lemma_cut(s, '-');
        split::lemma_split_not_empty(a, '-');
        assert forall|i: int| 0 <= i < parts.len() implies usb::is_port_chain(
            #[trigger] parts[i],
        ) by {
            assert(is_spaced(parts[i]));
            lemma_pieces_are_free(s, '-', i);
            lemma_port_chain(parts[i]);
        }
    }
}

proof fn lemma_spaced_has_no_colon(s: Seq<char>)
    requires
        is_spaced(s),
    ensures
        !s.contains(':'),
{
    if s.contains(':') {
        let k = choose|k: int| 0 <= k < s.len() && s[k] == ':';
        assert(is_digit(s[k]) || s[k] == '-' || s[k] == '.');
    }
}

proof fn lemma_two_numbers(a: Seq<char>, b: Seq<char>)
    requires
        usb::is_number(a),
        usb::is_number(b),
    ensures
        split::split_on(a.push('.') + b, '.') == seq![a, b],
{
    law_numbers_are_digits(a);
    law_numbers_are_digits(b);
    split::lemma_split_append(a, '.', b);
    split::lemma_split_single(a, '.');
    assert(seq![a].push(b) =~= seq![a, b]);
}

/// The name of an interface: the name of a device, a colon, a number, a dot
/// and a number.
pub proof fn law_interface_names(device: Seq<char>, a: Seq<char>, b: Seq<char>)
    requires
        is_spaced(device),
        device.contains('-'),
        usb::is_number(a),
        usb::is_number(b),
    ensures
        usb::is_interface_segment(device.push(':') + (a.push('.') + b)),
{
    let s = device.push(':') + (a.push('.') + b);
    law_device_names(device);
    lemma_spaced_has_no_colon(device);
    let n = device.len() as int;
    assert forall|j: int| 0 <= j < n implies s[j] != ':' by {
        assert(device.contains(device[j]));
    }
    split::lemma_first_at_is(s, ':', n);
    assert(s.take(n) =~= device);
    assert(s.skip(n + 1) =~= a.push('.') + b);
    lemma_two_numbers(a, b);
}

/// Nothing else is the name of an interface.
pub proof fn law_interface_names_only(s: Seq<char>) -> (r: (Seq<char>, Seq<char>, Seq<char>))
    requires
        usb::is_interface_segment(s),
    ensures
        s == r.0.push(':') + (r.1.push('.') + r.2),
        is_spaced(r.0),
        r.0.contains('-'),
        usb::is_number(r.1),
        usb::is_number(r.2),
{
    let colon = split::first_at(s, ':');
    split::lemma_first_at(s, ':');
    let device = s.take(colon);
    let rest = s.skip(colon + 1);
    law_device_names(device);
    let parts = split::split_on(rest, '.');
    if !rest.contains('.') {
        split::lemma_split_single(rest, '.');
    }
    let (a, b) = lemma_cut(rest, '.');
    if a.contains('.') {
        let (c, d) = lemma_cut(a, '.');
        split::lemma_split_not_empty(c, '.');
    }
    split::lemma_split_single(a, '.');
    assert(parts =~= seq![a, b]);
    assert(usb::is_number(parts[0]) && usb::is_number(parts[1]));
    assert(s =~= device.push(':') + rest);
    (device, a, b)
}

// ---------------------------------------------------------------- the device
/// Segment `i` of the path of an interface is the first one that is the name
/// of an interface right behind the name of a device.
pub open spec fn is_first_interface(segs: Seq<Seq<char>>, i: int) -> bool {
    &&& 1 <= i < segs.len()
    &&& usb::is_interface_segment(segs[i])
    &&& usb::is_device_segment(segs[i - 1])
    &&& forall|j: int|
        1 <= j < i ==> !(usb::is_interface_segment(#[trigger] segs[j]) && usb::is_device_segment(
            segs[j - 1],
        ))
}

proof fn lemma_found_interface(segs: Seq<Seq<char>>, from: int)
    requires
        1 <= from,
        forall|j: int|
            1 <= j < from && j < segs.len() ==> !(usb::is_interface_segment(#[trigger] segs[j])
                && usb::is_device_segment(segs[j - 1])),
    ensures
        match usb::first_interface(segs, from) {
            Some(i) => is_first_interface(segs, i),
            None => forall|j: int|
                1 <= j < segs.len() ==> !(usb::is_interface_segment(#[trigger] segs[j])
                    && usb::is_device_segment(segs[j - 1])),
        },
    decreases segs.len() - from,
{
    if from < segs.len() && !usb::interface_at(segs, from) {
        lemma_found_interface(segs, from + 1);
    }
}

/// The path of the device is there exactly if some segment is the name of an
/// interface right behind the name of a device, and it is what stands in front
/// of the first such segment.
pub proof fn law_device_is_in_front_of_its_interface(path: Seq<char>)
    ensures
        ({
            let segs = usb::segments(path);
            match usb::device_prefix(path) {
                Some(q) => exists|i: int| #[trigger]
                    is_first_interface(segs, i) && q == usb::path_of(segs.take(i)),
                None => forall|i: int|
                    1 <= i < segs.len() ==> !(usb::is_interface_segment(#[trigger] segs[i])
                        && usb::is_device_segment(segs[i - 1])),
            }
        }),
{
    lemma_found_interface(usb::segments(path), 1);
}

/// A device below any chain of hubs: whatever is below one of its interfaces
/// leads to the path of the device itself, and never to that of a hub.
pub proof fn law_device_behind_hubs(
    device: Seq<Seq<char>>,
    interface: Seq<char>,
    below: Seq<Seq<char>>,
)
    requires
        device.len() >= 1,
        usb::are_names(device + seq![interface] + below),
        usb::is_device_segment(device.last()),
        usb::is_interface_segment(interface),
        forall|i: int| 0 <= i < device.len() ==> !usb::is_interface_segment(#[trigger] device[i]),
    ensures
        usb::device_prefix(usb::path_of(device + seq![interface] + below)) == Some(
            usb::path_of(device),
        ),
{
    let segs = device + seq![interface] + below;
    usb::law_path_has_its_segments(segs);
    let path = usb::path_of(segs);
    law_device_is_in_front_of_its_interface(path);
    let k = device.len() as int;
    assert(segs[k] == interface && segs[k - 1] == device.last());
    match usb::device_prefix(path) {
        Some(q) => {
            let i = choose|i: int| #[trigger]
                is_first_interface(segs, i) && q == usb::path_of(segs.take(i));
            if i < k {
                assert(segs[i] == device[i]);
            }
            assert(i == k);
            assert(segs.take(k) =~= device);
        },
        None => {},
    }
}

/// A path without the name of an interface leads to no device.
pub proof fn law_no_interface_no_device(segs: Seq<Seq<char>>)
    requires
        segs.len() >= 1,
        usb::are_names(segs),
        forall|i: int| 0 <= i < segs.len() ==> !usb::is_interface_segment(#[trigger] segs[i]),
    ensures
        usb::device_prefix(usb::path_of(segs)) is None,
{
    usb::law_path_has_its_segments(segs);
    law_device_is_in_front_of_its_interface(usb::path_of(segs));
}

/// Paths grow by a slash and a name.
pub proof fn law_paths_grow(segs: Seq<Seq<char>>, name: Seq<char>)
    ensures
        segs.len() > 0 ==> usb::path_of(segs.push(name)) == usb::path_of(segs).push('/') + name,
        segs.len() == 0 ==> usb::path_of(segs.push(name)) == seq!['/'] + name,
{
    reveal_strlit("/");
    let all = segs.push(name);
    assert(all.drop_last() =~= segs);
    if segs.len() > 0 {
        assert(usb::path_of(all) =~= usb::path_of(segs).push('/') + name);
    } else {
        assert(usb::path_of(all) =~= seq!['/'] + name);
    }
}

// ---------------------------------------------------------------- /dev to /sys
proof fn lemma_base(dir: Seq<char>, base: Seq<char>)
    requires
        !base.contains('/'),
    ensures
        usb::base_name(dir.push('/') + base) == base,
{
    split::lemma_split_append(dir, '/', base);
}

/// The name of a file is what stands behind the last slash.
pub proof fn law_name_of_a_file(dir: Seq<char>, base: Seq<char>)
    requires
        !base.contains('/'),
    ensures
        usb::base_name(dir.push('/') + base) == base,
        usb::base_name(base) == base,
{
    lemma_base(dir, base);
    split::lemma_split_single(base, '/');
}

/// An event node and a hidraw node are found in sysfs by their names, whatever
/// directory they are listed in; any other path is taken as it is.
pub proof fn law_sysfs_by_name(dir: Seq<char>, base: Seq<char>, other: Seq<char>)
    requires
        !base.contains('/'),
        !"/dev/input/"@.is_prefix_of(other),
        !"/dev/hidraw"@.is_prefix_of(other),
    ensures
        "/dev/input/"@.is_prefix_of(dir.push('/') + base) ==> usb::sysfs_link(dir.push('/') + base)
            == "/sys/class/input/"@ + base,
        "/dev/hidraw"@.is_prefix_of(dir.push('/') + base) ==> usb::sysfs_link(dir.push('/') + base)
            == "/sys/class/hidraw/"@ + base,
        usb::sysfs_link(other) == other,
{
    reveal_strlit("/dev/input/");
    reveal_strlit("/dev/hidraw");
    lemma_base(dir, base);
    let p = dir.push('/') + base;
    if "/dev/hidraw"@.is_prefix_of(p) && "/dev/input/"@.is_prefix_of(p) {
        assert(p.subrange(0, 11)[5] == 'h');
        assert(p.subrange(0, 11)[5] == 'i');
    }
}

// ---------------------------------------------------------------- markers
/// The vendor is 36a7 in every path.
pub proof fn law_vendor_id_in_paths()
    ensures
        usb::vid_text() == "36a7"@,
{
    reveal_strlit("36a7");
    assert(usb::vid_text() =~= "36a7"@);
}

/// The marker of a product: the vendor, a colon and the four digits of the
/// product.
pub proof fn law_marker_of_a_product(pid: u16)
    ensures
        usb::marker(pid) == "36a7:"@ + number::hex4(pid as nat),
        usb::marker(pid).len() == 9,
{
    reveal_strlit("36a7:");
    reveal_strlit("36a7");
    reveal_strlit(":");
    law_vendor_id_in_paths();
    assert(usb::marker(pid) =~= "36a7:"@ + number::hex4(pid as nat));
}

// ---------------------------------------------------------------- scope
/// A path goes through a directory that stands in it and is followed by a
/// slash or by nothing.
pub proof fn law_under_a_directory(a: Seq<char>, p: Seq<char>, b: Seq<char>)
    requires
        b.len() == 0 || b[0] == '/',
    ensures
        usb::under(a + p + b, p),
{
    let canon = a + p + b;
    let at = a.len() as int;
    assert(canon.subrange(at, at + p.len()) =~= p);
    assert(text::occurs_at(canon, p, at));
}

/// And through no other.
pub proof fn law_under_a_directory_only(canon: Seq<char>, p: Seq<char>) -> (r: (
    Seq<char>,
    Seq<char>,
))
    requires
        usb::under(canon, p),
    ensures
        canon == r.0 + p + r.1,
        r.1.len() == 0 || r.1[0] == '/',
{
    let at = choose|at: int| #[trigger]
        text::occurs_at(canon, p, at) && (at + p.len() == canon.len() || canon[at + p.len()]
            == '/');
    let a = canon.take(at);
    let b = canon.skip(at + p.len());
    assert(canon.subrange(at, at + p.len()) == p);
    assert forall|i: int| 0 <= i < p.len() implies canon[at + i] == #[trigger] p[i] by {
        assert(canon.subrange(at, at + p.len())[i] == canon[at + i]);
    }
    assert(canon =~= a + p + b);
    (a, b)
}

/// Where the place of the dongle is known, only that counts, and the marker
/// does not; where it is not known, the marker does. In both the letters are
/// small.
pub proof fn law_place_before_marker(scope: Scope, canon_lower: Seq<char>)
    ensures
        scope.usb_prefix matches Some(p) ==> (scope.spec_needle().finds(canon_lower)
            <==> usb::under(canon_lower, text::lowercase(p@))),
        scope.usb_prefix is None ==> (scope.spec_needle().finds(canon_lower)
            <==> text::contains_text(canon_lower, text::lowercase(scope.vidpid_marker@))),
{
}

/// The two ways to tell a path.
pub proof fn law_needles(x: Seq<char>, canon_lower: Seq<char>)
    ensures
        NeedleView::Port(x).finds(canon_lower) <==> usb::under(canon_lower, x),
        NeedleView::Marker(x).finds(canon_lower) <==> text::contains_text(canon_lower, x),
{
}

// ---------------------------------------------------------------- nodes by sysfs
/// An entry is a node of the dongle exactly if its name begins with `event`
/// and its path holds what is wanted; the node is the one of that name.
pub proof fn law_node_of_an_entry(number: Seq<char>, other: Seq<char>, path: Seq<char>, wanted: Seq<char>)
    requires
        !"event"@.is_prefix_of(other),
    ensures
        text::contains_text(path, wanted) ==> usb::event_node("event"@ + number, Some(path), wanted)
            == Some("/dev/input/event"@ + number),
        !text::contains_text(path, wanted) ==> usb::event_node(
            "event"@ + number,
            Some(path),
            wanted,
        ) is None,
        usb::event_node("event"@ + number, None, wanted) is None,
        usb::event_node(other, Some(path), wanted) is None,
        usb::event_node(other, None, wanted) is None,
{
    reveal_strlit("event");
    reveal_strlit("/dev/input/");
    reveal_strlit("/dev/input/event");
    let name = "event"@ + number;
    assert("event"@.is_prefix_of(name));
    assert("/dev/input/"@ + name =~= "/dev/input/event"@ + number);
}

/// What one more entry adds to the nodes: its node, behind the others, if it
/// has one.
pub proof fn law_one_more_entry(entries: Seq<SysfsEntry>, e: SysfsEntry, wanted: Seq<char>)
    ensures
        usb::event_nodes(Seq::empty(), wanted) == Seq::<Seq<char>>::empty(),
        "event"@.is_prefix_of(e.name@) && (e.canon matches Some(p) && text::contains_text(
            text::lowercase(p@),
            wanted,
        )) ==> usb::event_nodes(entries.push(e), wanted) == usb::event_nodes(entries, wanted).push(
            "/dev/input/"@ + e.name@,
        ),
        !("event"@.is_prefix_of(e.name@) && (e.canon matches Some(p) && text::contains_text(
            text::lowercase(p@),
            wanted,
        ))) ==> usb::event_nodes(entries.push(e), wanted) == usb::event_nodes(entries, wanted),
{
    assert(entries.push(e).drop_last() =~= entries);
}

/// The names in any path, doubled slashes and all: those in front of a slash,
/// then those behind it; what has no slash is a name unless it is empty.
pub proof fn law_names_in_a_path(a: Seq<char>, b: Seq<char>, name: Seq<char>)
    requires
        !name.contains('/'),
    ensures
        usb::segments(a.push('/') + b) == usb::segments(a) + usb::segments(b),
        name.len() > 0 ==> usb::segments(name) == seq![name],
        name.len() == 0 ==> usb::segments(name) == Seq::<Seq<char>>::empty(),
{
    split::lemma_split_concat(a, '/', b);
    texts::lemma_non_empty_concat(split::split_on(a, '/'), split::split_on(b, '/'));
    split::lemma_split_single(name, '/');
    let one = seq![name];
    assert(one.drop_last() =~= Seq::<Seq<char>>::empty());
    assert(split::non_empty(one.drop_last()) =~= Seq::<Seq<char>>::empty());
    if name.len() > 0 {
        assert(split::non_empty(one) =~= one);
    }
}

/// The place of the dongle comes from the path of its vendor node, where that
/// is known.
pub proof fn law_place_of_the_dongle(path: &str)
    ensures
        usb::known_prefix(Some(path)) == usb::device_prefix(path@),
        usb::known_prefix(None) is None,
{
}

} // verus!
