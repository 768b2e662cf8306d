//! What the verdict promises, the daemon's start does.
use crate::filter;
use crate::order;
use crate::probe::hidraw;
use crate::probe::hidraw::{HidrawInfo, HidrawNode};
use crate::probe::input;
use crate::probe::input::{InputNode, Want};
use crate::probe::verdict;
use crate::protocol::WL_VID;
use crate::sniper;
use crate::sniper::{Candidate, HidInfo, ScanView};
use crate::text;
use crate::usb::NeedleView;
use vstd::prelude::*;

verus! {

// ---------------------------------------------------------------- the command node
/// The same interfaces, as the probe and as the daemon notes them.
pub open spec fn same_interfaces(infos: Seq<HidrawInfo>, devices: Seq<HidInfo>) -> bool {
    &&& infos.len() == devices.len()
    &&& forall|i: int|
        0 <= i < infos.len() ==> {
            &&& (#[trigger] infos[i]).path@ == devices[i].path@
            &&& infos[i].vid == devices[i].vendor_id
            &&& infos[i].pid == devices[i].product_id
            &&& infos[i].usage_page == devices[i].usage_page
            &&& infos[i].usage == devices[i].usage
        }
}

/// All interfaces of one node are of one vendor.
pub open spec fn one_vendor_per_path(infos: Seq<HidrawInfo>) -> bool {
    forall|i: int, j: int|
        0 <= i < infos.len() && 0 <= j < infos.len() && (#[trigger] infos[i]).path@ == (
        #[trigger] infos[j]).path@ ==> infos[i].vid == infos[j].vid
}

/// The vendor command interface of a node is listed once.
pub open spec fn listed_once(devices: Seq<HidInfo>) -> bool {
    forall|i: int, j: int|
        0 <= i < j < devices.len() && (#[trigger] devices[i]).spec_is_vendor() && (
        #[trigger] devices[j]).spec_is_vendor() ==> devices[i].path@ != devices[j].path@
}

spec fn vendor_infos() -> spec_fn(HidInfo) -> bool {
    |d: HidInfo| d.spec_is_vendor()
}

spec fn info_pairs(devices: Seq<HidInfo>) -> Seq<(Seq<char>, u16)> {
    Seq::new(devices.len(), |i: int| (devices[i].path@, devices[i].product_id))
}

proof fn lemma_vendor_nodes_filter(devices: Seq<HidInfo>)
    ensures
        sniper::vendor_nodes(devices) == info_pairs(devices.filter(vendor_infos())),
    decreases devices.len(),
{
    reveal(Seq::filter);
    let p = vendor_infos();
    if devices.len() > 0 {
        let front = devices.drop_last();
        lemma_vendor_nodes_filter(front);
        if p(devices.last()) {
            assert(info_pairs(front.filter(p).push(devices.last())) =~= info_pairs(
                front.filter(p),
            ).push((devices.last().path@, devices.last().product_id)));
        }
    } else {
        assert(sniper::vendor_nodes(devices) =~= info_pairs(devices.filter(p)));
    }
}

/// A node takes commands exactly if one of its interfaces is the vendor
/// command interface.
proof fn lemma_vendor_node_has_interface(
    node: HidrawNode,
    infos: Seq<HidrawInfo>,
    devices: Seq<HidInfo>,
)
    requires
        hidraw::sums_up(node, infos),
        same_interfaces(infos, devices),
        one_vendor_per_path(infos),
    ensures
        node.spec_is_vendor() <==> exists|i: int|
            0 <= i < devices.len() && (#[trigger] devices[i]).spec_is_vendor() && devices[i].path@
                == node.path@,
{
    let f = choose|i: int| #[trigger]
        hidraw::is_first(infos, node.path@, i) && node.vid == infos[i].vid && node.pid
            == infos[i].pid && node.name@ == hidraw::product_text(infos[i].product);
    if node.spec_is_vendor() {
        assert(hidraw::has_usage(infos, node.path@, (0xFFFFu16, 0u16)));
        let i = choose|i: int|
            0 <= i < infos.len() && (#[trigger] infos[i]).path@ == node.path@ && (
                infos[i].usage_page,
                infos[i].usage,
            ) == (0xFFFFu16, 0u16);
        assert(infos[f].vid == infos[i].vid);
        assert(devices[i].spec_is_vendor());
    }
    if exists|i: int|
        0 <= i < devices.len() && (#[trigger] devices[i]).spec_is_vendor() && devices[i].path@
            == node.path@ {
        let i = choose|i: int|
            0 <= i < devices.len() && (#[trigger] devices[i]).spec_is_vendor() && devices[i].path@
                == node.path@;
        assert(infos[i].path@ == node.path@);
        assert(infos[f].vid == infos[i].vid);
        assert(hidraw::has_usage(infos, node.path@, (0xFFFFu16, 0u16)));
        assert(node.vid == WL_VID);
    }
}

/// The probe sees one node that takes commands exactly if the daemon finds
/// one vendor command interface, and it is that node.
pub proof fn law_same_command_node(
    rows: Seq<HidrawNode>,
    infos: Seq<HidrawInfo>,
    devices: Seq<HidInfo>,
)
    requires
        hidraw::is_gathered(rows, infos),
        same_interfaces(infos, devices),
        one_vendor_per_path(infos),
        listed_once(devices),
    ensures
        (rows.filter(hidraw::taking_commands()).len() == 1) == (sniper::vendor_nodes(devices).len()
            == 1),
        sniper::vendor_nodes(devices).len() == 1 ==> rows.filter(
            hidraw::taking_commands(),
        )[0].path@ == sniper::vendor_nodes(devices)[0].0,
{
    let p = hidraw::taking_commands();
    let q = vendor_infos();
    let paths = hidraw::node_paths(rows);
    lemma_vendor_nodes_filter(devices);
    assert forall|k: int| 0 <= k < rows.len() implies (#[trigger] rows[k]).spec_is_vendor() == (
    exists|i: int|
        0 <= i < devices.len() && (#[trigger] devices[i]).spec_is_vendor() && devices[i].path@
            == rows[k].path@) by {
        lemma_vendor_node_has_interface(rows[k], infos, devices);
    }
    if sniper::vendor_nodes(devices).len() == 1 {
        let i = filter::lemma_one_in_filter(devices, q);
        assert(devices[i].spec_is_vendor());
        assert(paths.contains(infos[i].path@));
        let k = choose|k: int| 0 <= k < paths.len() && paths[k] == infos[i].path@;
        assert(rows[k].path@ == devices[i].path@);
        assert(p(rows[k]));
        assert forall|j: int| 0 <= j < rows.len() && j != k implies !p(#[trigger] rows[j]) by {
            if p(rows[j]) {
                let d = choose|d: int|
                    0 <= d < devices.len() && (#[trigger] devices[d]).spec_is_vendor()
                        && devices[d].path@ == rows[j].path@;
                assert(q(devices[d]));
                assert(d == i);
                assert(paths[j] == paths[k]);
                order::lemma_precedes_total(paths[j], paths[k]);
                if j < k {
                    assert(order::precedes(paths[j], paths[k]));
                } else {
                    assert(order::precedes(paths[k], paths[j]));
                }
            }
        }
        filter::lemma_filter_of_one(rows, p, k);
    }
    if rows.filter(p).len() == 1 {
        let k = filter::lemma_one_in_filter(rows, p);
        assert(rows[k].spec_is_vendor());
        let i = choose|i: int|
            0 <= i < devices.len() && (#[trigger] devices[i]).spec_is_vendor() && devices[i].path@
                == rows[k].path@;
        assert(q(devices[i]));
        assert forall|j: int| 0 <= j < devices.len() && j != i implies !q(#[trigger] devices[j]) by {
            if q(devices[j]) {
                assert(paths.contains(infos[j].path@));
                let m = choose|m: int| 0 <= m < paths.len() && paths[m] == infos[j].path@;
                assert(rows[m].path@ == devices[j].path@);
                assert(devices[j].spec_is_vendor());
                assert(rows[m].spec_is_vendor());
                assert(p(rows[m]));
                assert(m == k);
                if i < j {
                    assert(devices[i].path@ != devices[j].path@);
                } else {
                    assert(devices[j].path@ != devices[i].path@);
                }
            }
        }
        filter::lemma_filter_of_one(devices, q, i);
    }
}

// ---------------------------------------------------------------- the button's node
pub open spec fn shown_or_unknown(name: Option<String>) -> Seq<char> {
    match name {
        Some(n) => n@,
        None => "?"@,
    }
}

pub open spec fn canon_lower(sysfs: Option<String>) -> Seq<char> {
    match sysfs {
        Some(s) => text::lowercase(s@),
        None => text::lowercase(Seq::empty()),
    }
}

/// A node as the daemon's scan sees it.
pub open spec fn candidate(node: InputNode, button: u16) -> Candidate {
    Candidate {
        path: node.path@,
        name: shown_or_unknown(node.name),
        canon_lower: canon_lower(node.sysfs),
        has_button: node.keys@.contains(button),
    }
}

/// The nodes that the daemon's scan sees: those that can be opened.
pub open spec fn candidates(rows: Seq<InputNode>, button: u16) -> Seq<Candidate>
    decreases rows.len(),
{
    if rows.len() == 0 {
        Seq::empty()
    } else {
        let before = candidates(rows.drop_last(), button);
        if rows.last().open_err is None {
            before.push(candidate(rows.last(), button))
        } else {
            before
        }
    }
}

/// Of the nodes that can be opened, those in scope are the dongle's.
pub open spec fn scope_is_the_dongle(rows: Seq<InputNode>, needle: NeedleView) -> bool {
    forall|i: int|
        0 <= i < rows.len() && (#[trigger] rows[i]).open_err is None ==> needle.finds(
            canon_lower(rows[i].sysfs),
        ) == rows[i].spec_is_dongle()
}

/// Node for node, the probe finds the key where the daemon finds it.
proof fn lemma_same_carriers(rows: Seq<InputNode>, needle: NeedleView, button: u16)
    requires
        scope_is_the_dongle(rows, needle),
    ensures
        ({
            let seen = rows.filter(input::meeting(Want::Key(button)));
            let fit = candidates(rows, button).filter(sniper::fitting(needle));
            &&& seen.len() == fit.len()
            &&& forall|i: int|
                0 <= i < seen.len() ==> fit[i] == candidate(#[trigger] seen[i], button)
        }),
    decreases rows.len(),
{
    reveal(Seq::filter);
    let p = input::meeting(Want::Key(button));
    let q = sniper::fitting(needle);
    if rows.len() > 0 {
        let front = rows.drop_last();
        let last = rows.last();
        assert forall|i: int| 0 <= i < front.len() && (#[trigger] front[i]).open_err is None implies needle.finds(
            canon_lower(front[i].sysfs),
        ) == front[i].spec_is_dongle() by {
            assert(front[i] == rows[i]);
        }
        lemma_same_carriers(front, needle, button);
        assert(rows[rows.len() - 1] == last);
        let before = candidates(front, button);
        if last.open_err is None {
            before.lemma_filter_push(candidate(last, button), q);
            assert(q(candidate(last, button)) == p(last));
        }
    }
}

/// Where the verdict says that the daemon will start, the daemon finds that
/// one node with the button and that one vendor command interface, in
/// whatever order it looks at the nodes; and where the daemon finds one of
/// each and may write to the interface, the verdict says so.
///
/// Both are to look at the same devices: interfaces of one node have one
/// vendor, no vendor command interface is listed twice, and of the nodes that
/// can be opened those in the daemon's scope are the dongle's.
pub proof fn law_promise_is_kept(
    infos: Seq<HidrawInfo>,
    hidraw_rows: Seq<HidrawNode>,
    devices: Seq<HidInfo>,
    rows: Seq<InputNode>,
    nodes: Seq<Candidate>,
    start: ScanView,
    button: u16,
)
    requires
        hidraw::is_gathered(hidraw_rows, infos),
        same_interfaces(infos, devices),
        one_vendor_per_path(infos),
        listed_once(devices),
        nodes.to_multiset() == candidates(rows, button).to_multiset(),
        start.matchers.len() == 0,
        scope_is_the_dongle(rows, start.needle),
    ensures
        ({
            let interfaces = sniper::vendor_nodes(devices);
            let matchers = sniper::scanned(start, nodes).matchers;
            match verdict::promised(rows, hidraw_rows, button) {
                Some((node, vendor)) => {
                    &&& interfaces.len() == 1
                    &&& interfaces[0].0 == vendor
                    &&& matchers.len() == 1
                    &&& matchers[0].0 == node
                },
                None => {
                    ||| interfaces.len() != 1
                    ||| matchers.len() != 1
                    ||| exists|k: int|
                        0 <= k < hidraw_rows.len() && (#[trigger] hidraw_rows[k]).path@
                            == interfaces[0].0 && !hidraw_rows[k].rw_open
                },
            }
        }),
{
    let seen = rows.filter(input::meeting(Want::Key(button)));
    let vendors = hidraw_rows.filter(hidraw::taking_commands());
    law_same_command_node(hidraw_rows, infos, devices);
    lemma_same_carriers(rows, start.needle, button);
    filter::lemma_filter_in_any_order(candidates(rows, button), nodes, sniper::fitting(start.needle));
    sniper::law_scan_finds_exactly_the_button_nodes(start, nodes);
    let fit = candidates(rows, button).filter(sniper::fitting(start.needle));
    if seen.len() == 1 {
        assert(fit[0] == candidate(seen[0], button));
    }
    if vendors.len() == 1 {
        let k = filter::lemma_one_in_filter(hidraw_rows, hidraw::taking_commands());
        assert(vendors[0] == hidraw_rows[k]);
    }
}

} // verus!
