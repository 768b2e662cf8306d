//! Finding the dongle's nodes: sysfs paths, the USB device behind a path, and
//! the scope that ties event nodes to the dongle that was opened.
use crate::number;
use crate::protocol::WL_VID;
use crate::split;
use crate::text;
use vstd::prelude::*;

verus! {

// ---------------------------------------------------------------- /dev to /sys
/// What stands behind the last slash.
pub open spec fn base_name(path: Seq<char>) -> Seq<char> {
    split::split_on(path, '/').last()
}

/// The path whose canonical form is the sysfs path of a device node.
pub open spec fn sysfs_link(dev_path: Seq<char>) -> Seq<char> {
    if "/dev/input/"@.is_prefix_of(dev_path) {
        "/sys/class/input/"@ + base_name(dev_path)
    } else if "/dev/hidraw"@.is_prefix_of(dev_path) {
        "/sys/class/hidraw/"@ + base_name(dev_path)
    } else {
        dev_path
    }
}

fn file_name(path: &str) -> (r: String)
    ensures
        r@ == base_name(path@),
{
    let chars = text::chars_of(path);
    let parts = split::split(chars.as_slice(), '/');
    proof {
        split::lemma_split_not_empty(path@, '/');
        assert(split::pieces(parts@).len() >= 1);
    }
    text::string_of(parts[parts.len() - 1].as_slice())
}

/// The path to canonicalize for a /dev node. /dev/input/eventN and
/// /dev/hidrawN are real character devices, NOT symlinks — canonicalizing
/// them returns the /dev path unchanged. The class symlinks are what point
/// into /sys, so go through those.
pub fn sysfs_canon(dev_path: &str) -> (r: String)
    ensures
        r@ == sysfs_link(dev_path@),
{
    if text::starts_with(dev_path, "/dev/input/") {
        let mut out = "/sys/class/input/".to_owned();
        out.append(file_name(dev_path).as_str());
        out
    } else if text::starts_with(dev_path, "/dev/hidraw") {
        let mut out = "/sys/class/hidraw/".to_owned();
        out.append(file_name(dev_path).as_str());
        out
    } else {
        dev_path.to_owned()
    }
}

// ---------------------------------------------------------------- USB segments
/// One or more decimal digits.
pub open spec fn is_number(s: Seq<char>) -> bool {
    &&& s.len() > 0
    &&& forall|i: int| 0 <= i < s.len() ==> '0' <= #[trigger] s[i] && s[i] <= '9'
}

pub open spec fn all_numbers(parts: Seq<Seq<char>>) -> bool {
    forall|i: int| 0 <= i < parts.len() ==> is_number(#[trigger] parts[i])
}

/// Numbers with dots between them.
pub open spec fn is_port_chain(s: Seq<char>) -> bool {
    all_numbers(split::split_on(s, '.'))
}

/// A USB device segment: `5-2`, or `3-1.2` behind a hub.
pub open spec fn is_device_segment(s: Seq<char>) -> bool {
    let parts = split::split_on(s, '-');
    &&& parts.len() >= 2
    &&& forall|i: int| 0 <= i < parts.len() ==> is_port_chain(#[trigger] parts[i])
}

/// A USB interface segment: a device segment, a colon, then configuration and
/// interface: `5-2:1.3`.
pub open spec fn is_interface_segment(s: Seq<char>) -> bool {
    let colon = split::first_at(s, ':');
    &&& colon < s.len()
    &&& is_device_segment(s.take(colon))
    &&& split::split_on(s.skip(colon + 1), '.').len() == 2
    &&& all_numbers(split::split_on(s.skip(colon + 1), '.'))
}

fn check_number(s: &[char]) -> (r: bool)
    ensures
        r == is_number(s@),
{
    if s.len() == 0 {
        return false;
    }
    for i in 0..s.len()
        invariant
            forall|j: int| 0 <= j < i ==> '0' <= #[trigger] s@[j] && s@[j] <= '9',
    {
        if !('0' <= s[i] && s[i] <= '9') {
            return false;
        }
    }
    true
}

fn check_numbers(parts: &Vec<Vec<char>>) -> (r: bool)
    ensures
        r == all_numbers(split::pieces(parts@)),
{
    let ghost all = split::pieces(parts@);
    for i in 0..parts.len()
        invariant
            all == split::pieces(parts@),
            forall|j: int| 0 <= j < i ==> is_number(#[trigger] all[j]),
    {
        assert(all[i as int] == parts@[i as int]@);
        if !check_number(parts[i].as_slice()) {
            return false;
        }
    }
    true
}

fn check_device(s: &[char]) -> (r: bool)
    ensures
        r == is_device_segment(s@),
{
    let parts = split::split(s, '-');
    let ghost all = split::pieces(parts@);
    if parts.len() < 2 {
        return false;
    }
    for i in 0..parts.len()
        invariant
            all == split::pieces(parts@),
            all == split::split_on(s@, '-'),
            forall|j: int| 0 <= j < i ==> is_port_chain(#[trigger] all[j]),
    {
        assert(all[i as int] == parts@[i as int]@);
        if !check_numbers(&split::split(parts[i].as_slice(), '.')) {
            return false;
        }
    }
    true
}

fn check_interface(s: &[char]) -> (r: bool)
    ensures
        r == is_interface_segment(s@),
{
    let size: usize = s.len();
    match split::find(s, ':') {
        None => false,
        Some(colon) => {
            let dev = vstd::slice::slice_subrange(s, 0, colon);
            let iface = vstd::slice::slice_subrange(s, colon + 1, size);
            assert(dev@ =~= s@.take(colon as int));
            assert(iface@ =~= s@.skip(colon + 1));
            let parts = split::split(iface, '.');
            parts.len() == 2 && check_numbers(&parts) && check_device(dev)
        },
    }
}

/// Digits with dots and dashes between them hold no colon.
proof fn lemma_device_has_no_colon(s: Seq<char>)
    requires
        is_device_segment(s),
    ensures
        !s.contains(':'),
{
    if s.contains(':') {
        split::lemma_piece_holds(s, '-', ':');
        let parts = split::split_on(s, '-');
        let i = choose|i: int| 0 <= i < parts.len() && (#[trigger] parts[i]).contains(':');
        assert(is_port_chain(parts[i]));
        split::lemma_piece_holds(parts[i], '.', ':');
        let inner = split::split_on(parts[i], '.');
        let k = choose|k: int| 0 <= k < inner.len() && (#[trigger] inner[k]).contains(':');
        assert(is_number(inner[k]));
        let m = choose|m: int| 0 <= m < inner[k].len() && inner[k][m] == ':';
        assert('0' <= inner[k][m] && inner[k][m] <= '9');
        assert(false);
    }
}

/// USB device segment `5-2` (hub ports chain with dots: `3-1.2`) or
/// interface segment `5-2:1.3` (config.interface).
pub fn usb_segment(seg: &str, with_iface: bool) -> (r: bool)
    ensures
        r == (if with_iface {
            is_interface_segment(seg@)
        } else {
            is_device_segment(seg@)
        }),
{
    let chars = text::chars_of(seg);
    if with_iface {
        check_interface(chars.as_slice())
    } else {
        check_device(chars.as_slice())
    }
}

/// No segment is both.
pub proof fn law_device_or_interface(seg: Seq<char>)
    ensures
        !(is_device_segment(seg) && is_interface_segment(seg)),
{
    if is_device_segment(seg) && is_interface_segment(seg) {
        lemma_device_has_no_colon(seg);
        split::lemma_first_at(seg, ':');
        assert(seg[split::first_at(seg, ':')] == ':');
    }
}

// ---------------------------------------------------------------- device prefix
/// The segments of a path.
pub open spec fn segments(path: Seq<char>) -> Seq<Seq<char>> {
    split::non_empty(split::split_on(path, '/'))
}

/// The absolute path with these segments.
pub open spec fn path_of(segs: Seq<Seq<char>>) -> Seq<char> {
    "/"@ + text::joined(segs, "/"@)
}

/// Segment `i` is a USB interface right below its device.
pub open spec fn interface_at(segs: Seq<Seq<char>>, i: int) -> bool {
    is_interface_segment(segs[i]) && is_device_segment(segs[i - 1])
}

/// The first such segment from `from` on.
pub open spec fn first_interface(segs: Seq<Seq<char>>, from: int) -> Option<int>
    decreases segs.len() - from,
{
    if from >= segs.len() {
        None
    } else if interface_at(segs, from) {
        Some(from)
    } else {
        first_interface(segs, from + 1)
    }
}

/// The path of the USB device that a sysfs path goes through.
pub open spec fn device_prefix(canon: Seq<char>) -> Option<Seq<char>> {
    let segs = segments(canon);
    match first_interface(segs, 1) {
        Some(i) => Some(path_of(segs.take(i))),
        None => None,
    }
}

fn path_segments(path: &str) -> (r: Vec<Vec<char>>)
    ensures
        split::pieces(r@) == segments(path@),
{
    let chars = text::chars_of(path);
    split::drop_empty(split::split(chars.as_slice(), '/'))
}

fn path_up_to(segs: &Vec<Vec<char>>, end: usize) -> (r: String)
    requires
        end <= segs@.len(),
    ensures
        r@ == path_of(split::pieces(segs@).take(end as int)),
{
    let mut front: Vec<String> = Vec::new();
    for i in 0..end
        invariant
            end <= segs@.len(),
            front@.len() == i,
            forall|j: int| 0 <= j < i ==> (#[trigger] front@[j])@ == segs@[j]@,
    {
        front.push(text::string_of(segs[i].as_slice()));
    }
    assert(text::texts(front@) =~= split::pieces(segs@).take(end as int));
    let mut out = "/".to_owned();
    out.append(text::join(&front, "/").as_str());
    out
}

/// `/sys/devices/.../usb5/5-2/5-2:1.4/0003:36A7:A863.0004/hidraw3`
/// → `/sys/devices/.../usb5/5-2` (the USB device, interface segment removed).
pub fn extract_usb_device_prefix(canon: &str) -> (r: Option<String>)
    ensures
        text::opt_text(r) == device_prefix(canon@),
{
    let segs = path_segments(canon);
    let ghost all = split::pieces(segs@);
    let mut i: usize = 1;
    while i < segs.len()
        invariant
            1 <= i,
            i <= segs@.len() || i == 1,
            all == split::pieces(segs@),
            all == segments(canon@),
            first_interface(all, 1) == first_interface(all, i as int),
        decreases segs@.len() - i,
    {
        assert(all[i as int] == segs@[i as int]@);
        assert(all[i - 1] == segs@[i - 1]@);
        if check_interface(segs[i].as_slice()) && check_device(segs[i - 1].as_slice()) {
            return Some(path_up_to(&segs, i));
        }
        i = i + 1;
    }
    None
}

// ---------------------------------------------------------------- markers
/// `vid:pid` of a product, in lower case: `36a7:a863`.
pub open spec fn marker(pid: u16) -> Seq<char> {
    number::hex4(WL_VID as nat) + ":"@ + number::hex4(pid as nat)
}

fn vidpid_marker(pid: u16) -> (r: String)
    ensures
        r@ == marker(pid),
{
    let mut out = number::to_hex4(WL_VID);
    out.append(":");
    out.append(number::to_hex4(pid).as_str());
    out
}

/// The vendor id as markers begin with it.
pub open spec fn vid_text() -> Seq<char> {
    number::hex4(WL_VID as nat)
}

pub fn vid_marker() -> (r: String)
    ensures
        r@ == vid_text(),
{
    number::to_hex4(WL_VID)
}

/// `0003:36A7:A863.0005` → `36a7:a863`.
pub open spec fn segment_marker(seg: Seq<char>) -> Option<Seq<char>> {
    match text::stripped(text::ascii_lower(seg), "0003:"@) {
        None => None,
        Some(rest) => {
            let dot = split::first_at(rest, '.');
            if dot < rest.len() && split::split_on(rest.take(dot), ':').len() == 2 {
                Some(rest.take(dot))
            } else {
                None
            }
        },
    }
}

/// The marker of the first segment that has one.
pub open spec fn first_marker(segs: Seq<Seq<char>>) -> Option<Seq<char>>
    decreases segs.len(),
{
    if segs.len() == 0 {
        None
    } else {
        match segment_marker(segs[0]) {
            Some(m) => Some(m),
            None => first_marker(segs.drop_first()),
        }
    }
}

fn find_segment_marker(seg: &[char]) -> (r: Option<String>)
    ensures
        text::opt_text(r) == segment_marker(seg@),
{
    let lower = text::to_ascii_lower(seg);
    let head = text::chars_of("0003:");
    if !text::starts_with_chars(lower.as_slice(), head.as_slice()) {
        return None;
    }
    let rest = vstd::slice::slice_subrange(lower.as_slice(), head.len(), lower.len());
    assert(rest@ =~= lower@.skip(head@.len() as int));
    match split::find(rest, '.') {
        None => None,
        Some(dot) => {
            let vidpid = vstd::slice::slice_subrange(rest, 0, dot);
            assert(vidpid@ =~= rest@.take(dot as int));
            let parts = split::split(vidpid, ':');
            assert(split::pieces(parts@).len() == parts@.len());
            if parts.len() == 2 {
                Some(text::string_of(vidpid))
            } else {
                None
            }
        },
    }
}

/// `0003:36A7:A863.0005` segment in a sysfs path → `36a7:a863` (lowercase).
pub fn hid_marker(sysfs_path: &str) -> (r: Option<String>)
    ensures
        text::opt_text(r) == first_marker(segments(sysfs_path@)),
{
    let segs = path_segments(sysfs_path);
    let ghost all = split::pieces(segs@);
    assert(all.skip(0) =~= all);
    for i in 0..segs.len()
        invariant
            all == split::pieces(segs@),
            all == segments(sysfs_path@),
            first_marker(all) == first_marker(all.skip(i as int)),
    {
        assert(all.skip(i as int)[0] == segs@[i as int]@);
        assert(all.skip(i as int).drop_first() =~= all.skip(i + 1));
        match find_segment_marker(segs[i].as_slice()) {
            Some(m) => {
                return Some(m);
            },
            None => {},
        }
    }
    None
}

// ---------------------------------------------------------------- scope
/// Scope for finding the dongle's evdev nodes. Primary: the physical USB
/// device path (e.g. /sys/devices/.../usb5/5-2) shared by all interfaces of
/// the dongle we opened — node numbers and even PIDs may vary, the USB port
/// path does not. Fallback: the VID:PID marker in the sysfs path (the parent
/// HID device dir is named `0003:36A7:A863.NNNN`).
#[derive(Debug)]
pub struct Scope {
    pub usb_prefix: Option<String>,
    pub vidpid_marker: String,
}

/// The USB device path behind an optional canonical path.
pub open spec fn known_prefix(canon: Option<&str>) -> Option<Seq<char>> {
    match canon {
        Some(path) => device_prefix(path@),
        None => None,
    }
}

/// The scope of the dongle whose vendor node has this canonical sysfs path,
/// where it is known, and this product id.
pub fn dongle_scope(vendor_canon: Option<&str>, pid: u16) -> (r: Scope)
    ensures
        text::opt_text(r.usb_prefix) == known_prefix(vendor_canon),
        r.vidpid_marker@ == marker(pid),
{
    let usb_prefix = match vendor_canon {
        Some(path) => extract_usb_device_prefix(path),
        None => None,
    };
    Scope { usb_prefix, vidpid_marker: vidpid_marker(pid) }
}

/// `p` stands in `canon` and ends where a name ends: at a slash, or with the
/// path. So `/usb5/5-2` is in `/usb5/5-2/5-2:1.0`, and not in `/usb5/5-21`.
pub open spec fn under(canon: Seq<char>, p: Seq<char>) -> bool {
    exists|at: int| #[trigger]
        text::occurs_at(canon, p, at) && (at + p.len() == canon.len() || canon[at + p.len()] == '/')
}

/// Whether `canon` goes through the directory `p`.
pub fn is_under(canon: &str, p: &str) -> (r: bool)
    ensures
        r == under(canon@, p@),
{
    let c = text::chars_of(canon);
    let n = text::chars_of(p);
    let size: usize = c.len();
    if n.len() > size {
        return false;
    }
    let last: usize = size - n.len();
    for at in 0..last
        invariant
            c@ == canon@,
            n@ == p@,
            size == c@.len(),
            last + n@.len() == size,
            forall|k: int|
                0 <= k < at ==> !(#[trigger] text::occurs_at(canon@, p@, k) && canon@[k + p@.len()]
                    == '/'),
    {
        let end: usize = at + n.len();
        let window = vstd::slice::slice_subrange(c.as_slice(), at, end);
        if c[end] == '/' && text::same_chars(window, n.as_slice()) {
            assert(text::occurs_at(canon@, p@, at as int));
            return true;
        }
    }
    let window = vstd::slice::slice_subrange(c.as_slice(), last, size);
    if text::same_chars(window, n.as_slice()) {
        assert(text::occurs_at(canon@, p@, last as int));
        return true;
    }
    assert forall|at: int| #[trigger] text::occurs_at(canon@, p@, at) implies at + p@.len()
        != canon@.len() && canon@[at + p@.len()] != '/' by {
        if at + p@.len() == canon@.len() {
            assert(at == last);
        }
    }
    false
}

/// What tells the dongle's nodes, in lower case.
#[derive(Debug)]
pub enum Needle {
    /// The path of the dongle's USB device.
    Port(String),
    /// The marker of its product.
    Marker(String),
}

/// The same as texts.
pub enum NeedleView {
    Port(Seq<char>),
    Marker(Seq<char>),
}

impl NeedleView {
    /// A path, in lower case, is the dongle's: it goes through the directory of
    /// the USB device, or holds the marker.
    pub open spec fn finds(self, canon_lower: Seq<char>) -> bool {
        match self {
            NeedleView::Port(p) => under(canon_lower, p),
            NeedleView::Marker(m) => text::contains_text(canon_lower, m),
        }
    }
}

impl View for Needle {
    type V = NeedleView;

    open spec fn view(&self) -> NeedleView {
        match self {
            Needle::Port(p) => NeedleView::Port(p@),
            Needle::Marker(m) => NeedleView::Marker(m@),
        }
    }
}

impl Needle {
    pub fn find_in(&self, canon_lower: &str) -> (r: bool)
        ensures
            r == self@.finds(canon_lower@),
    {
        match self {
            Needle::Port(p) => is_under(canon_lower, p.as_str()),
            Needle::Marker(m) => text::contains(canon_lower, m.as_str()),
        }
    }
}

impl Scope {
    /// What tells the nodes in scope.
    pub open spec fn spec_needle(self) -> NeedleView {
        match self.usb_prefix {
            Some(prefix) => NeedleView::Port(text::lowercase(prefix@)),
            None => NeedleView::Marker(text::lowercase(self.vidpid_marker@)),
        }
    }

    pub fn needle(&self) -> (r: Needle)
        ensures
            r@ == self.spec_needle(),
    {
        match &self.usb_prefix {
            Some(prefix) => Needle::Port(text::to_lowercase(prefix.as_str())),
            None => Needle::Marker(text::to_lowercase(self.vidpid_marker.as_str())),
        }
    }
}

/// Whether a canonical path, already in lower case, is the dongle's: only nodes
/// of its own USB device are, where that is known.
pub fn in_scope(canon_lower: &str, scope: &Scope) -> (r: bool)
    ensures
        r == (match scope.usb_prefix {
            Some(p) => under(canon_lower@, text::lowercase(p@)),
            None => text::contains_text(canon_lower@, text::lowercase(scope.vidpid_marker@)),
        }),
{
    scope.needle().find_in(canon_lower)
}

// ---------------------------------------------------------------- nodes by sysfs
/// An entry of /sys/class/input: its name, and its canonical path where there
/// is one.
#[derive(Debug)]
pub struct SysfsEntry {
    pub name: String,
    pub canon: Option<String>,
}

/// The node of an entry, given the lower case of its canonical path.
pub open spec fn event_node(
    name: Seq<char>,
    canon_lower: Option<Seq<char>>,
    wanted: Seq<char>,
) -> Option<Seq<char>> {
    if !"event"@.is_prefix_of(name) {
        None
    } else {
        match canon_lower {
            Some(lower) if text::contains_text(lower, wanted) => Some("/dev/input/"@ + name),
            _ => None,
        }
    }
}

pub fn find_event_node(name: &str, canon_lower: Option<&str>, wanted: &str) -> (r: Option<String>)
    ensures
        text::opt_text(r) == event_node(
            name@,
            match canon_lower {
                Some(lower) => Some(lower@),
                None => None,
            },
            wanted@,
        ),
{
    if !text::starts_with(name, "event") {
        return None;
    }
    match canon_lower {
        None => None,
        Some(lower) => {
            if text::contains(lower, wanted) {
                let mut out = "/dev/input/".to_owned();
                out.append(name);
                Some(out)
            } else {
                None
            }
        },
    }
}

impl SysfsEntry {
    pub open spec fn spec_node(self, wanted: Seq<char>) -> Option<Seq<char>> {
        event_node(
            self.name@,
            match self.canon {
                Some(path) => Some(text::lowercase(path@)),
                None => None,
            },
            wanted,
        )
    }
}

/// The nodes of the entries, in order.
pub open spec fn event_nodes(entries: Seq<SysfsEntry>, wanted: Seq<char>) -> Seq<Seq<char>>
    decreases entries.len(),
{
    if entries.len() == 0 {
        Seq::empty()
    } else {
        let before = event_nodes(entries.drop_last(), wanted);
        match entries.last().spec_node(wanted) {
            Some(node) => before.push(node),
            None => before,
        }
    }
}

/// Dongle evdev node paths from sysfs alone (no open required), for error
/// messages: enumerating devices silently skips those we cannot open.
pub fn dongle_event_nodes_from_sysfs(entries: &Vec<SysfsEntry>, wanted: &str) -> (r: Vec<String>)
    ensures
        text::texts(r@) == event_nodes(entries@, wanted@),
{
    let mut out: Vec<String> = Vec::new();
    assert(text::texts(out@) =~= event_nodes(entries@.take(0), wanted@));
    for i in 0..entries.len()
        invariant
            text::texts(out@) == event_nodes(entries@.take(i as int), wanted@),
    {
        let ghost before = text::texts(out@);
        assert(entries@.take(i + 1).drop_last() =~= entries@.take(i as int));
        let found = match &entries[i].canon {
            Some(path) => find_event_node(
                entries[i].name.as_str(),
                Some(text::to_lowercase(path.as_str()).as_str()),
                wanted,
            ),
            None => find_event_node(entries[i].name.as_str(), None, wanted),
        };
        match found {
            Some(node) => {
                let ghost shown = node@;
                out.push(node);
                assert(text::texts(out@) =~= before.push(shown));
            },
            None => {},
        }
    }
    assert(entries@.take(entries@.len() as int) =~= entries@);
    out
}

// ---------------------------------------------------------------- laws
/// Names of directories: not empty, and without a slash.
pub open spec fn are_names(segs: Seq<Seq<char>>) -> bool {
    forall|i: int| 0 <= i < segs.len() ==> (#[trigger] segs[i]).len() > 0 && !segs[i].contains('/')
}

pub proof fn lemma_path_split(segs: Seq<Seq<char>>)
    requires
        are_names(segs),
        segs.len() >= 1,
    ensures
        split::split_on(path_of(segs), '/') == seq![Seq::<char>::empty()] + segs,
    decreases segs.len(),
{
    reveal_strlit("/");
    let empty = Seq::<char>::empty();
    let last = segs[segs.len() - 1];
    if segs.len() == 1 {
        assert(path_of(segs) =~= empty.push('/') + last);
        split::lemma_split_append(empty, '/', last);
        assert(split::split_on(empty, '/') =~= seq![empty]);
        assert(seq![empty].push(last) =~= seq![empty] + segs);
    } else {
        let front = segs.drop_last();
        assert(are_names(front)) by {
            assert forall|i: int| 0 <= i < front.len() implies (#[trigger] front[i]).len() > 0
                && !front[i].contains('/') by {
                assert(front[i] == segs[i]);
            }
        }
        lemma_path_split(front);
        assert(path_of(segs) =~= path_of(front).push('/') + last);
        split::lemma_split_append(path_of(front), '/', last);
        assert((seq![empty] + front).push(last) =~= seq![empty] + segs);
    }
}

/// A path is made of its segments.
pub proof fn law_path_has_its_segments(segs: Seq<Seq<char>>)
    requires
        are_names(segs),
        segs.len() >= 1,
    ensures
        segments(path_of(segs)) == segs,
{
    lemma_path_split(segs);
    split::lemma_non_empty_behind_empty(segs);
}

proof fn lemma_first_interface_is(segs: Seq<Seq<char>>, from: int, k: int)
    requires
        1 <= from <= k < segs.len(),
        interface_at(segs, k),
        forall|i: int| from <= i < k ==> !#[trigger] interface_at(segs, i),
    ensures
        first_interface(segs, from) == Some(k),
    decreases k - from,
{
    if from < k {
        assert(!interface_at(segs, from));
        lemma_first_interface_is(segs, from + 1, k);
    }
}

/// All interfaces of a device, and everything below them, lead to the device's
/// own path: node numbers, names and product ids play no part.
pub proof fn law_interfaces_share_the_device_prefix(
    device: Seq<Seq<char>>,
    interface: Seq<char>,
    below: Seq<Seq<char>>,
)
    requires
        device.len() >= 1,
        are_names(device + seq![interface] + below),
        is_device_segment(device.last()),
        is_interface_segment(interface),
        forall|i: int|
            1 <= i < device.len() ==> !(is_interface_segment(#[trigger] device[i])
                && is_device_segment(device[i - 1])),
    ensures
        device_prefix(path_of(device + seq![interface] + below)) == Some(path_of(device)),
{
    let segs = device + seq![interface] + below;
    law_path_has_its_segments(segs);
    let k = device.len() as int;
    assert(segs[k] == interface);
    assert(segs[k - 1] == device.last());
    assert forall|i: int| 1 <= i < k implies !#[trigger] interface_at(segs, i) by {
        assert(segs[i] == device[i]);
        assert(segs[i - 1] == device[i - 1]);
    }
    lemma_first_interface_is(segs, 1, k);
    assert(segs.take(k) =~= device);
}

pub proof fn lemma_path_extends(segs: Seq<Seq<char>>, more: Seq<Seq<char>>)
    requires
        segs.len() >= 1,
    ensures
        path_of(segs).is_prefix_of(path_of(segs + more)),
        more.len() > 0 ==> path_of(segs).len() < path_of(segs + more).len() && path_of(
            segs + more,
        )[path_of(segs).len() as int] == '/',
    decreases more.len(),
{
    reveal_strlit("/");
    if more.len() == 0 {
        assert(segs + more =~= segs);
    } else {
        let all = segs + more;
        lemma_path_extends(segs, more.drop_last());
        assert(all.drop_last() =~= segs + more.drop_last());
        let shorter = path_of(segs + more.drop_last());
        assert(path_of(all) =~= shorter + "/"@ + all.last());
        assert(path_of(segs) =~= shorter.subrange(0, path_of(segs).len() as int));
        if more.len() == 1 {
            assert(segs + more.drop_last() =~= segs);
        }
        assert(path_of(all).subrange(0, path_of(segs).len() as int) =~= shorter.subrange(
            0,
            path_of(segs).len() as int,
        ));
    }
}

proof fn lemma_prefix_in_lower_case(s: Seq<char>, prefix: Seq<char>)
    requires
        text::is_ascii(s),
        prefix.is_prefix_of(s),
    ensures
        text::is_ascii(prefix),
        text::occurs_at(text::lowercase(s), text::lowercase(prefix), 0),
{
    assert forall|i: int| 0 <= i < prefix.len() implies #[trigger] prefix[i] == s[i] by {
        assert(s.subrange(0, prefix.len() as int)[i] == s[i]);
    }
    assert(text::is_ascii(prefix)) by {
        assert forall|i: int| 0 <= i < prefix.len() implies '\0' <= #[trigger] prefix[i]
            <= '\u{7f}' by {
            assert(prefix[i] == s[i]);
        }
    }
    assert(text::ascii_lower(s).subrange(0, prefix.len() as int) =~= text::ascii_lower(prefix));
}

/// Every node below the device is in the scope that the device's path gives,
/// whatever interface it belongs to.
pub proof fn law_nodes_of_the_device_are_in_scope(
    device: Seq<Seq<char>>,
    below: Seq<Seq<char>>,
    scope: Scope,
)
    requires
        device.len() >= 1,
        text::is_ascii(path_of(device + below)),
        text::opt_text(scope.usb_prefix) == Some(path_of(device)),
    ensures
        scope.spec_needle().finds(text::lowercase(path_of(device + below))),
{
    let whole = path_of(device + below);
    let prefix = path_of(device);
    lemma_path_extends(device, below);
    lemma_prefix_in_lower_case(whole, prefix);
    assert(text::occurs_at(text::lowercase(whole), text::lowercase(prefix), 0));
    if below.len() == 0 {
        assert(device + below =~= device);
    } else {
        assert(text::ascii_lower(whole)[prefix.len() as int] == text::lower_char('/'));
    }
}

/// A number is made of its four hexadecimal digits.
proof fn lemma_four_digits(a: u16)
    ensures
        a == (a / 4096) * 4096 + (a / 256 % 16) * 256 + (a / 16 % 16) * 16 + a % 16,
        a / 4096 < 16,
{
    assert(a == (a / 4096) * 4096 + (a / 256 % 16) * 256 + (a / 16 % 16) * 16 + a % 16 && a / 4096
        < 16) by (bit_vector);
}

#[verifier::spinoff_prover]
proof fn lemma_hex4_one_to_one(a: u16, b: u16)
    requires
        number::hex4(a as nat) == number::hex4(b as nat),
    ensures
        a == b,
{
    let x = number::hex4(a as nat);
    let y = number::hex4(b as nat);
    lemma_four_digits(a);
    lemma_four_digits(b);
    assert(x[0] == y[0] && x[1] == y[1] && x[2] == y[2] && x[3] == y[3]);
    lemma_digit_char_one_to_one((a / 4096) as int, (b / 4096) as int);
    lemma_digit_char_one_to_one((a / 256 % 16) as int, (b / 256 % 16) as int);
    lemma_digit_char_one_to_one((a / 16 % 16) as int, (b / 16 % 16) as int);
    lemma_digit_char_one_to_one((a % 16) as int, (b % 16) as int);
}

proof fn lemma_digit_char_one_to_one(a: int, b: int)
    requires
        0 <= a < 16,
        0 <= b < 16,
        number::digit_char(a) == number::digit_char(b),
    ensures
        a == b,
{
    number::lemma_digit_char_value(a, 16);
    number::lemma_digit_char_value(b, 16);
}

#[verifier::spinoff_prover]
proof fn lemma_marker_ends(pid: u16)
    ensures
        marker(pid).skip(5) == number::hex4(pid as nat),
{
    reveal_strlit(":");
    let head = number::hex4(WL_VID as nat) + ":"@;
    assert(head.len() == 5);
    assert((head + number::hex4(pid as nat)).skip(5) =~= number::hex4(pid as nat));
}

/// Two products never share a marker, so the fallback scope of one model
/// never names another.
pub proof fn law_markers_differ(a: u16, b: u16)
    requires
        marker(a) == marker(b),
    ensures
        a == b,
{
    lemma_marker_ends(a);
    lemma_marker_ends(b);
    lemma_hex4_one_to_one(a, b);
}

proof fn lemma_digit_char_is_lower(d: int)
    requires
        0 <= d < 16,
    ensures
        text::lower_char(number::digit_char(d)) == number::digit_char(d),
        '\0' <= number::digit_char(d) <= '\u{7f}',
{
}

/// Markers are in lower case, as the paths that they are looked for in.
pub proof fn law_marker_is_lower_case(pid: u16)
    ensures
        text::lowercase(marker(pid)) == marker(pid),
{
    reveal_strlit(":");
    let m = marker(pid);
    let vid = WL_VID;
    assert forall|i: int| 0 <= i < m.len() implies text::lower_char(#[trigger] m[i]) == m[i]
        && '\0' <= m[i] <= '\u{7f}' by {
        lemma_digit_char_is_lower((vid / 4096) as int);
        lemma_digit_char_is_lower((vid / 256 % 16) as int);
        lemma_digit_char_is_lower((vid / 16 % 16) as int);
        lemma_digit_char_is_lower((vid % 16) as int);
        lemma_digit_char_is_lower((pid / 4096) as int);
        lemma_digit_char_is_lower((pid / 256 % 16) as int);
        lemma_digit_char_is_lower((pid / 16 % 16) as int);
        lemma_digit_char_is_lower((pid % 16) as int);
        if i < 4 {
            assert(m[i] == number::hex4(vid as nat)[i]);
        } else if i > 4 {
            assert(m[i] == number::hex4(pid as nat)[i - 5]);
        }
    }
    assert(text::ascii_lower(m) =~= m);
}

proof fn lemma_first_marker_from(segs: Seq<Seq<char>>) -> (k: int)
    requires
        first_marker(segs) is Some,
    ensures
        0 <= k < segs.len(),
        segment_marker(segs[k]) == first_marker(segs),
    decreases segs.len(),
{
    if segment_marker(segs[0]) is Some {
        0
    } else {
        let k = lemma_first_marker_from(segs.drop_first());
        assert(segs.drop_first()[k] == segs[k + 1]);
        k + 1
    }
}

/// A path from which a marker is read is in the fallback scope of that marker.
pub proof fn law_read_marker_is_in_fallback_scope(path: Seq<char>, scope: Scope)
    requires
        text::is_ascii(path),
        first_marker(segments(path)) == Some(scope.vidpid_marker@),
        scope.usb_prefix is None,
    ensures
        scope.spec_needle().finds(text::lowercase(path)),
{
    reveal_strlit("0003:");
    let m = scope.vidpid_marker@;
    let segs = segments(path);
    let parts = split::split_on(path, '/');
    let k = lemma_first_marker_from(segs);
    let seg = segs[k];
    split::lemma_non_empty_is_among(parts, k);
    let i = choose|i: int| 0 <= i < parts.len() && parts[i] == seg;
    split::lemma_piece_occurs(path, '/', i);
    let at = choose|at: int| #[trigger] text::occurs_at(path, seg, at);
    let lower = text::ascii_lower(seg);
    let rest = lower.skip(5);
    let dot = split::first_at(rest, '.');
    split::lemma_first_at(rest, '.');
    assert(m == rest.take(dot));
    assert(seg == path.subrange(at, at + seg.len()));
    assert(text::ascii_lower(path).subrange(at + 5, at + 5 + m.len()) =~= m) by {
        assert forall|j: int| 0 <= j < m.len() implies #[trigger] text::ascii_lower(path)[at + 5
            + j] == m[j] by {
            assert(m[j] == lower[5 + j]);
            assert(seg[5 + j] == path[at + 5 + j]);
        }
    }
    assert forall|j: int| 0 <= j < m.len() implies '\0' <= #[trigger] m[j] <= '\u{7f}'
        && text::lower_char(m[j]) == m[j] by {
        assert(m[j] == lower[5 + j]);
        assert(seg[5 + j] == path[at + 5 + j]);
        assert('\0' <= path[at + 5 + j] <= '\u{7f}');
    }
    assert(text::ascii_lower(m) =~= m);
    assert(text::occurs_at(text::lowercase(path), m, at + 5));
}

} // verus!
