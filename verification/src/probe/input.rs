//! The event nodes: what is known of each, and the section that shows them.
use crate::number;
use crate::order;
use crate::order::Numbered;
use crate::probe::names;
use crate::text;
use crate::usb;
use vstd::prelude::*;

verus! {

/// An event node.
#[derive(Debug)]
pub struct InputNode {
    pub path: String,
    pub sysfs: Option<String>,
    /// Vendor and product in lower case: `36a7:a863`.
    pub vidpid: Option<String>,
    pub name: Option<String>,
    /// Why it cannot be opened, where it cannot.
    pub open_err: Option<String>,
    pub grabbed: bool,
    pub ev: Vec<u16>,
    pub keys: Vec<u16>,
    pub rel: Vec<u16>,
    pub abs: Vec<u16>,
}

/// What an open node tells of itself.
#[derive(Debug)]
pub struct Opened {
    pub name: Option<String>,
    pub grabbed: bool,
    pub ev: Vec<u16>,
    pub keys: Vec<u16>,
    pub rel: Vec<u16>,
    pub abs: Vec<u16>,
}

// ---------------------------------------------------------------- which nodes
/// The number in `event6`.
pub open spec fn event_number(name: Seq<char>) -> Option<u32> {
    match text::stripped(name, "event"@) {
        None => None,
        Some(rest) => match number::parsed(rest, 10, u32::MAX as int) {
            Ok(n) => Some(n as u32),
            Err(_) => None,
        },
    }
}

/// Number and path of the event nodes among these names, in order.
pub open spec fn event_paths(names: Seq<Seq<char>>) -> Seq<(u32, Seq<char>)>
    decreases names.len(),
{
    if names.len() == 0 {
        Seq::empty()
    } else {
        let before = event_paths(names.drop_last());
        match event_number(names.last()) {
            Some(n) => before.push((n, "/dev/input/"@ + names.last())),
            None => before,
        }
    }
}

fn find_event_number(name: &str) -> (r: Option<u32>)
    ensures
        r == event_number(name@),
{
    match text::strip_prefix(name, "event") {
        None => None,
        Some(rest) => {
            let chars = text::chars_of(rest.as_str());
            match number::parse_uint(chars.as_slice(), 10, u32::MAX) {
                Ok(n) => Some(n),
                Err(_) => None,
            }
        },
    }
}

/// The event nodes among the names in /dev/input, by number.
pub fn event_nodes(names: &Vec<String>) -> (r: Vec<Numbered>)
    ensures
        order::is_sort_of(order::numbered(r@), event_paths(text::texts(names@))),
{
    let ghost all = text::texts(names@);
    let mut out: Vec<Numbered> = Vec::new();
    assert(order::numbered(out@) =~= event_paths(all.take(0)));
    for i in 0..names.len()
        invariant
            all == text::texts(names@),
            order::numbered(out@) == event_paths(all.take(i as int)),
    {
        let ghost before = order::numbered(out@);
        assert(all.take(i + 1).drop_last() =~= all.take(i as int));
        assert(all.take(i + 1).last() == names@[i as int]@);
        match find_event_number(names[i].as_str()) {
            Some(n) => {
                let mut path = "/dev/input/".to_owned();
                path.append(names[i].as_str());
                let ghost shown = path@;
                out.push(Numbered { number: n, text: path });
                assert(order::numbered(out@) =~= before.push((n, shown)));
            },
            None => {},
        }
    }
    assert(all.take(all.len() as int) =~= all);
    order::sort_by_number(out)
}

// ---------------------------------------------------------------- one node
/// The marker in an optional sysfs path.
pub open spec fn marker_in(sysfs: Option<String>) -> Option<Seq<char>> {
    match sysfs {
        Some(s) => usb::first_marker(usb::segments(s@)),
        None => None,
    }
}

impl InputNode {
    /// A node of the vendor's.
    pub open spec fn spec_is_dongle(self) -> bool {
        match self.vidpid {
            Some(m) => usb::vid_text().is_prefix_of(m@),
            None => false,
        }
    }

    /// A node by its path, its sysfs path where there is one, and what it told
    /// when it was opened, or why it could not be.
    pub fn new(path: String, sysfs: Option<String>, opened: Result<Opened, String>) -> (r: InputNode)
        ensures
            r.path == path,
            r.sysfs == sysfs,
            text::opt_text(r.vidpid) == marker_in(sysfs),
            match opened {
                Ok(o) => {
                    &&& r.open_err is None
                    &&& r.name == o.name
                    &&& r.grabbed == o.grabbed
                    &&& r.ev == o.ev
                    &&& r.keys == o.keys
                    &&& r.rel == o.rel
                    &&& r.abs == o.abs
                },
                Err(e) => {
                    &&& r.open_err == Some(e)
                    &&& r.name is None
                    &&& !r.grabbed
                    &&& r.ev@.len() == 0
                    &&& r.keys@.len() == 0
                    &&& r.rel@.len() == 0
                    &&& r.abs@.len() == 0
                },
            },
    {
        let vidpid = match &sysfs {
            Some(s) => usb::hid_marker(s.as_str()),
            None => None,
        };
        match opened {
            Ok(o) => InputNode {
                path,
                sysfs,
                vidpid,
                name: o.name,
                open_err: None,
                grabbed: o.grabbed,
                ev: o.ev,
                keys: o.keys,
                rel: o.rel,
                abs: o.abs,
            },
            Err(e) => InputNode {
                path,
                sysfs,
                vidpid,
                name: None,
                open_err: Some(e),
                grabbed: false,
                ev: Vec::new(),
                keys: Vec::new(),
                rel: Vec::new(),
                abs: Vec::new(),
            },
        }
    }

    pub fn is_dongle(&self) -> (r: bool)
        ensures
            r == self.spec_is_dongle(),
    {
        match &self.vidpid {
            Some(m) => text::starts_with(m.as_str(), usb::vid_marker().as_str()),
            None => false,
        }
    }

    pub fn has_key(&self, code: u16) -> (r: bool)
        ensures
            r == self.keys@.contains(code),
    {
        for i in 0..self.keys.len()
            invariant
                forall|j: int| 0 <= j < i ==> self.keys@[j] != code,
        {
            if self.keys[i] == code {
                return true;
            }
        }
        false
    }

    /// The path without the directory.
    pub open spec fn spec_label(self) -> Seq<char> {
        text::without_prefix(self.path@, "/dev/input/"@)
    }

    pub fn label(&self) -> (r: String)
        ensures
            r@ == self.spec_label(),
    {
        text::trim_prefix(self.path.as_str(), "/dev/input/")
    }
}

/// The paths of the dongle's nodes, in alphabetical order.
pub fn dongle_paths(rows: &Vec<InputNode>) -> (r: Vec<String>)
    ensures
        order::ascending(text::texts(r@)),
        forall|p: Seq<char>| #[trigger]
            text::texts(r@).contains(p) <==> exists|i: int|
                0 <= i < rows@.len() && (#[trigger] rows@[i]).spec_is_dongle() && rows@[i].path@
                    == p,
{
    let mut out: Vec<String> = Vec::new();
    assert(text::texts(out@) =~= Seq::empty());
    for i in 0..rows.len()
        invariant
            order::ascending(text::texts(out@)),
            forall|p: Seq<char>| #[trigger]
                text::texts(out@).contains(p) <==> exists|j: int|
                    0 <= j < i && (#[trigger] rows@[j]).spec_is_dongle() && rows@[j].path@ == p,
    {
        let ghost before = text::texts(out@);
        if rows[i].is_dongle() {
            order::insert_text(&mut out, rows[i].path.as_str());
        }
        assert forall|p: Seq<char>| #[trigger]
            text::texts(out@).contains(p) <==> exists|j: int|
                0 <= j < i + 1 && (#[trigger] rows@[j]).spec_is_dongle() && rows@[j].path@ == p by {
            if text::texts(out@).contains(p) {
                if before.contains(p) {
                    let j = choose|j: int|
                        0 <= j < i && (#[trigger] rows@[j]).spec_is_dongle() && rows@[j].path@ == p;
                    assert(rows@[j].spec_is_dongle());
                } else {
                    assert(rows@[i as int].spec_is_dongle());
                }
            }
            if exists|j: int|
                0 <= j < i + 1 && (#[trigger] rows@[j]).spec_is_dongle() && rows@[j].path@ == p {
                let j = choose|j: int|
                    0 <= j < i + 1 && (#[trigger] rows@[j]).spec_is_dongle() && rows@[j].path@ == p;
                if j < i {
                    assert(before.contains(p));
                }
            }
        }
    }
    out
}

// ---------------------------------------------------------------- the section
pub open spec fn tag_text(node: InputNode) -> Seq<char> {
    if node.spec_is_dongle() {
        " [36A7 dongle]"@
    } else {
        ""@
    }
}

pub open spec fn sysfs_line(sysfs: Option<String>) -> Seq<char> {
    match sysfs {
        Some(s) => "           sysfs: "@ + names::shortened(s@) + "\n"@,
        None => ""@,
    }
}

/// A sysfs path that can be shown.
pub open spec fn can_show(sysfs: Option<String>) -> bool {
    sysfs matches Some(s) ==> names::can_shorten(s@)
}

pub open spec fn name_line(name: Option<String>) -> Seq<char> {
    match name {
        Some(n) => "           name:  \""@ + n@ + "\"\n"@,
        None => ""@,
    }
}

pub open spec fn advertises_text(node: InputNode, button: u16) -> Seq<char> {
    if node.keys@.contains(button) {
        "  advertises "@ + names::key_text(button) + " ("@ + number::dec(button as nat) + ")"@
    } else {
        ""@
    }
}

pub open spec fn ev_texts(codes: Seq<u16>) -> Seq<Seq<char>> {
    Seq::new(codes.len(), |i: int| names::ev_text(codes[i]))
}

pub open spec fn rel_texts(codes: Seq<u16>) -> Seq<Seq<char>> {
    Seq::new(codes.len(), |i: int| names::rel_text(codes[i]))
}

pub open spec fn abs_texts(codes: Seq<u16>) -> Seq<Seq<char>> {
    Seq::new(codes.len(), |i: int| names::abs_text(codes[i]))
}

/// The axes of a node, if it has any.
pub open spec fn axes_text(title: Seq<char>, axes: Seq<Seq<char>>) -> Seq<char> {
    if axes.len() == 0 {
        ""@
    } else {
        title + text::joined(axes, ","@)
    }
}

/// Vendor and product of a node, where they are known.
pub open spec fn ids_text(vidpid: Option<String>) -> Seq<char> {
    match vidpid {
        Some(m) => "  hid: "@ + m@,
        None => ""@,
    }
}

/// Whether the node could be opened, whose it is, and whether it has the key.
pub open spec fn first_line(node: InputNode, button: u16) -> Seq<char> {
    match node.open_err {
        Some(e) => "  "@ + text::padded(node.spec_label(), 8) + " OPEN FAILED ("@ + e@ + ")"@
            + tag_text(node) + ids_text(node.vidpid),
        None => "  "@ + text::padded(node.spec_label(), 8) + " ok"@ + tag_text(node) + (
        if node.grabbed {
            "grabbed"@
        } else {
            ""@
        }) + advertises_text(node, button) + ids_text(node.vidpid),
    }
}

/// The lines of one node.
pub open spec fn node_report(node: InputNode, button: u16) -> Seq<char> {
    match node.open_err {
        Some(_) => first_line(node, button) + "\n"@ + sysfs_line(node.sysfs),
        None => first_line(node, button) + "\n"@ + sysfs_line(node.sysfs) + name_line(node.name)
            + "           EV: "@ + text::joined(ev_texts(node.ev@), " "@) + axes_text(
            "  rel: "@,
            rel_texts(node.rel@),
        ) + axes_text("  abs: "@, abs_texts(node.abs@)) + "\n           keys: "@
            + names::keys_text(node.keys@) + "\n"@,
    }
}

/// The lines of these nodes.
pub open spec fn nodes_report(rows: Seq<InputNode>, button: u16) -> Seq<char>
    decreases rows.len(),
{
    if rows.len() == 0 {
        "\n== /dev/input nodes ==\n"@
    } else {
        nodes_report(rows.drop_last(), button) + node_report(rows.last(), button)
    }
}

pub fn show_sysfs(sysfs: &Option<String>) -> (r: String)
    requires
        can_show(*sysfs),
    ensures
        r@ == sysfs_line(*sysfs),
{
    match sysfs {
        Some(s) => {
            let mut out = "           sysfs: ".to_owned();
            out.append(names::shorten(s.as_str()).as_str());
            out.append("\n");
            out
        },
        None => "".to_owned(),
    }
}

fn show_name(name: &Option<String>) -> (r: String)
    ensures
        r@ == name_line(*name),
{
    match name {
        Some(n) => {
            let mut out = "           name:  \"".to_owned();
            out.append(n.as_str());
            out.append("\"\n");
            out
        },
        None => "".to_owned(),
    }
}

fn show_advertises(node: &InputNode, button: u16) -> (r: String)
    ensures
        r@ == advertises_text(*node, button),
{
    if node.has_key(button) {
        let mut out = "  advertises ".to_owned();
        out.append(names::key_name(button).as_str());
        out.append(" (");
        out.append(number::to_dec(button as u64).as_str());
        out.append(")");
        out
    } else {
        "".to_owned()
    }
}

fn show_types(codes: &Vec<u16>) -> (r: String)
    ensures
        r@ == text::joined(ev_texts(codes@), " "@),
{
    let mut shown: Vec<String> = Vec::new();
    for i in 0..codes.len()
        invariant
            shown@.len() == i,
            forall|j: int| 0 <= j < i ==> (#[trigger] shown@[j])@ == names::ev_text(codes@[j]),
    {
        shown.push(names::ev_name(codes[i]).to_owned());
    }
    assert(text::texts(shown@) =~= ev_texts(codes@));
    text::join(&shown, " ")
}

fn show_rel(codes: &Vec<u16>) -> (r: String)
    ensures
        r@ == axes_text("  rel: "@, rel_texts(codes@)),
{
    if codes.len() == 0 {
        return "".to_owned();
    }
    let mut shown: Vec<String> = Vec::new();
    for i in 0..codes.len()
        invariant
            shown@.len() == i,
            forall|j: int| 0 <= j < i ==> (#[trigger] shown@[j])@ == names::rel_text(codes@[j]),
    {
        shown.push(names::rel_name(codes[i]));
    }
    assert(text::texts(shown@) =~= rel_texts(codes@));
    let mut out = "  rel: ".to_owned();
    out.append(text::join(&shown, ",").as_str());
    out
}

fn show_abs(codes: &Vec<u16>) -> (r: String)
    ensures
        r@ == axes_text("  abs: "@, abs_texts(codes@)),
{
    if codes.len() == 0 {
        return "".to_owned();
    }
    let mut shown: Vec<String> = Vec::new();
    for i in 0..codes.len()
        invariant
            shown@.len() == i,
            forall|j: int| 0 <= j < i ==> (#[trigger] shown@[j])@ == names::abs_text(codes@[j]),
    {
        shown.push(names::abs_name(codes[i]));
    }
    assert(text::texts(shown@) =~= abs_texts(codes@));
    let mut out = "  abs: ".to_owned();
    out.append(text::join(&shown, ",").as_str());
    out
}

fn show_ids(vidpid: &Option<String>) -> (r: String)
    ensures
        r@ == ids_text(*vidpid),
{
    match vidpid {
        Some(m) => {
            let mut out = "  hid: ".to_owned();
            out.append(m.as_str());
            out
        },
        None => "".to_owned(),
    }
}

fn show_first_line(node: &InputNode, button: u16) -> (r: String)
    ensures
        r@ == first_line(*node, button),
{
    let mut out = "  ".to_owned();
    out.append(text::pad_right(node.label().as_str(), 8).as_str());
    let tag = if node.is_dongle() {
        " [36A7 dongle]"
    } else {
        ""
    };
    match &node.open_err {
        Some(e) => {
            out.append(" OPEN FAILED (");
            out.append(e.as_str());
            out.append(")");
            out.append(tag);
        },
        None => {
            out.append(" ok");
            out.append(tag);
            out.append(
                if node.grabbed {
                    "grabbed"
                } else {
                    ""
                },
            );
            out.append(show_advertises(node, button).as_str());
        },
    }
    out.append(show_ids(&node.vidpid).as_str());
    out
}

/// The lines of one node.
pub fn show_node(node: &InputNode, button: u16) -> (r: String)
    requires
        can_show(node.sysfs),
    ensures
        r@ == node_report(*node, button),
{
    let mut out = show_first_line(node, button);
    out.append("\n");
    out.append(show_sysfs(&node.sysfs).as_str());
    if node.open_err.is_none() {
        out.append(show_name(&node.name).as_str());
        out.append("           EV: ");
        out.append(show_types(&node.ev).as_str());
        out.append(show_rel(&node.rel).as_str());
        out.append(show_abs(&node.abs).as_str());
        out.append("\n           keys: ");
        out.append(names::show_keys(&node.keys).as_str());
        out.append("\n");
    }
    out
}

/// The section of the report.
pub fn section_input(rows: &Vec<InputNode>, button: u16) -> (r: String)
    requires
        forall|i: int| 0 <= i < rows@.len() ==> can_show((#[trigger] rows@[i]).sysfs),
    ensures
        r@ == nodes_report(rows@, button),
{
    let mut out = "\n== /dev/input nodes ==\n".to_owned();
    for i in 0..rows.len()
        invariant
            forall|j: int| 0 <= j < rows@.len() ==> can_show((#[trigger] rows@[j]).sysfs),
            out@ == nodes_report(rows@.take(i as int), button),
    {
        assert(rows@.take(i + 1).drop_last() =~= rows@.take(i as int));
        assert(can_show(rows@[i as int].sysfs));
        out.append(show_node(&rows[i], button).as_str());
    }
    assert(rows@.take(rows@.len() as int) =~= rows@);
    out
}

// ---------------------------------------------------------------- selections
/// What a node of the dongle is looked at for.
#[derive(Clone, Copy, Debug, PartialEq, Eq, Structural)]
pub enum Want {
    /// Any.
    Dongle,
    /// One that can be opened.
    Openable,
    /// One that can be opened and advertises the key.
    Key(u16),
}

pub open spec fn wanted(node: InputNode, want: Want) -> bool {
    node.spec_is_dongle() && match want {
        Want::Dongle => true,
        Want::Openable => node.open_err is None,
        Want::Key(code) => node.open_err is None && node.keys@.contains(code),
    }
}

/// The test for such nodes.
pub open spec fn meeting(want: Want) -> spec_fn(InputNode) -> bool {
    |node: InputNode| wanted(node, want)
}

/// The nodes at these places.
pub open spec fn nodes_at(rows: Seq<InputNode>, places: Seq<usize>) -> Seq<InputNode> {
    Seq::new(places.len(), |i: int| rows[places[i] as int])
}

pub open spec fn paths_of(nodes: Seq<InputNode>) -> Seq<Seq<char>> {
    Seq::new(nodes.len(), |i: int| nodes[i].path@)
}

fn is_wanted(node: &InputNode, want: Want) -> (r: bool)
    ensures
        r == wanted(*node, want),
{
    node.is_dongle() && match want {
        Want::Dongle => true,
        Want::Openable => node.open_err.is_none(),
        Want::Key(code) => node.open_err.is_none() && node.has_key(code),
    }
}

/// Where such nodes stand, in order.
pub fn find_nodes(rows: &Vec<InputNode>, want: Want) -> (r: Vec<usize>)
    ensures
        nodes_at(rows@, r@) == rows@.filter(meeting(want)),
        forall|i: int| 0 <= i < r@.len() ==> (#[trigger] r@[i]) < rows@.len(),
{
    let ghost test = meeting(want);
    let mut places: Vec<usize> = Vec::new();
    proof {
        reveal(Seq::filter);
        assert(nodes_at(rows@, places@) =~= rows@.take(0).filter(test));
    }
    for i in 0..rows.len()
        invariant
            test == meeting(want),
            nodes_at(rows@, places@) == rows@.take(i as int).filter(test),
            forall|j: int| 0 <= j < places@.len() ==> (#[trigger] places@[j]) < rows@.len(),
    {
        let ghost before = places@;
        proof {
            assert(rows@.take(i + 1) =~= rows@.take(i as int).push(rows@[i as int]));
            rows@.take(i as int).lemma_filter_push(rows@[i as int], test);
        }
        if is_wanted(&rows[i], want) {
            places.push(i);
            assert(nodes_at(rows@, places@) =~= nodes_at(rows@, before).push(rows@[i as int]));
        }
    }
    assert(rows@.take(rows@.len() as int) =~= rows@);
    places
}

/// The paths of the nodes at these places.
pub fn paths_at(rows: &Vec<InputNode>, places: &Vec<usize>) -> (r: Vec<String>)
    requires
        forall|i: int| 0 <= i < places@.len() ==> (#[trigger] places@[i]) < rows@.len(),
    ensures
        text::texts(r@) == paths_of(nodes_at(rows@, places@)),
{
    let mut out: Vec<String> = Vec::new();
    for i in 0..places.len()
        invariant
            forall|j: int| 0 <= j < places@.len() ==> (#[trigger] places@[j]) < rows@.len(),
            out@.len() == i,
            forall|j: int| 0 <= j < i ==> (#[trigger] out@[j])@ == rows@[places@[j] as int].path@,
    {
        out.push(rows[places[i]].path.clone());
    }
    assert(text::texts(out@) =~= paths_of(nodes_at(rows@, places@)));
    out
}

/// The nodes whose events can be watched.
pub fn watchable(rows: &Vec<InputNode>) -> (r: Vec<String>)
    ensures
        text::texts(r@) == paths_of(rows@.filter(meeting(Want::Openable))),
{
    paths_at(rows, &find_nodes(rows, Want::Openable))
}

// ---------------------------------------------------------------- laws
/// The first line of a node holds its vendor and product, whether or not it
/// could be opened.
pub proof fn law_first_line_shows_the_ids(node: InputNode, button: u16)
    requires
        node.vidpid is Some,
    ensures
        text::contains_text(first_line(node, button), node.vidpid->Some_0@),
        first_line(node, button).is_prefix_of(node_report(node, button)),
{
    broadcast use text::lemma_part_in_whole;

    let m = node.vidpid->Some_0@;
    let line = first_line(node, button);
    text::lemma_whole_in_itself(m);
    assert(text::contains_text(ids_text(node.vidpid), m));
    assert(line =~= node_report(node, button).subrange(0, line.len() as int));
}

/// The lines of a node hold its sysfs path as it is shown; of a node that was
/// opened also that it was, its name, that it is grabbed where it is, that it
/// advertises the button where it does, and every key.
pub proof fn law_report_shows_the_node(node: InputNode, button: u16)
    ensures
        ({
            let report = node_report(node, button);
            &&& node.vidpid matches Some(m) ==> text::contains_text(report, m@)
            &&& node.sysfs matches Some(s) ==> text::contains_text(report, names::shortened(s@))
            &&& node.open_err is None ==> {
                &&& text::contains_text(report, " ok"@)
                &&& node.name matches Some(n) ==> text::contains_text(report, n@)
                &&& node.grabbed ==> text::contains_text(report, "grabbed"@)
                &&& node.keys@.contains(button) ==> text::contains_text(
                    report,
                    "  advertises "@ + names::key_text(button),
                )
                &&& forall|i: int|
                    0 <= i < node.keys@.len() ==> text::contains_text(
                        report,
                        names::key_label(#[trigger] node.keys@[i]),
                    )
            }
            &&& node.open_err matches Some(e) ==> text::contains_text(report, e@)
        }),
{
    broadcast use text::lemma_part_in_whole;

    let report = node_report(node, button);
    let line = first_line(node, button);
    if let Some(m) = node.vidpid {
        text::lemma_whole_in_itself(m@);
        assert(text::contains_text(ids_text(node.vidpid), m@));
        assert(text::contains_text(line, m@));
    }
    if let Some(s) = node.sysfs {
        text::lemma_whole_in_itself(names::shortened(s@));
        assert(text::contains_text(sysfs_line(node.sysfs), names::shortened(s@)));
    }
    if let Some(n) = node.name {
        text::lemma_whole_in_itself(n@);
        assert(text::contains_text(name_line(node.name), n@));
    }
    text::lemma_whole_in_itself(" ok"@);
    text::lemma_whole_in_itself("grabbed"@);
    let has = "  advertises "@ + names::key_text(button);
    text::lemma_whole_in_itself(has);
    if node.keys@.contains(button) {
        assert(text::contains_text(advertises_text(node, button), has));
    }
    if let Some(e) = node.open_err {
        text::lemma_whole_in_itself(e@);
        assert(text::contains_text(line, e@));
    }
    assert forall|i: int| 0 <= i < node.keys@.len() && node.open_err is None implies text::contains_text(
        report,
        names::key_label(#[trigger] node.keys@[i]),
    ) by {
        let labels = names::key_labels(node.keys@);
        text::lemma_part_in_joined(labels, " "@, i);
        assert(labels[i] == names::key_label(node.keys@[i]));
        assert(text::contains_text(names::keys_text(node.keys@), labels[i]));
    }
}

} // verus!
