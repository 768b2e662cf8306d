//! The hidraw nodes: the interfaces of each, and the section that shows them.
use crate::number;
use crate::order;
use crate::probe::input;
use crate::probe::names;
use crate::protocol::WL_VID;
use crate::text;
use vstd::prelude::*;

verus! {

/// A HID interface as enumeration shows it.
#[derive(Debug)]
pub struct HidrawInfo {
    pub path: String,
    pub vid: u16,
    pub pid: u16,
    pub product: Option<String>,
    pub usage_page: u16,
    pub usage: u16,
}

/// A hidraw node with all its interfaces.
#[derive(Debug)]
pub struct HidrawNode {
    pub path: String,
    pub vid: u16,
    pub pid: u16,
    pub name: String,
    /// Usage pages and usages, ascending.
    pub usages: Vec<(u16, u16)>,
    pub sysfs: Option<String>,
    /// Whether it can be opened for reading.
    pub ro_open: bool,
    /// Whether it can be opened for reading and writing.
    pub rw_open: bool,
}

// ---------------------------------------------------------------- usages
pub open spec fn pair_before(a: (u16, u16), b: (u16, u16)) -> bool {
    a.0 < b.0 || (a.0 == b.0 && a.1 < b.1)
}

pub open spec fn pairs_ascending(pairs: Seq<(u16, u16)>) -> bool {
    forall|i: int, j: int|
        0 <= i < j < pairs.len() ==> pair_before(#[trigger] pairs[i], #[trigger] pairs[j])
}

fn insert_pair(pairs: &mut Vec<(u16, u16)>, pair: (u16, u16))
    requires
        pairs_ascending(old(pairs)@),
    ensures
        pairs_ascending(final(pairs)@),
        forall|p: (u16, u16)| #[trigger]
            final(pairs)@.contains(p) <==> old(pairs)@.contains(p) || p == pair,
{
    let ghost before = pairs@;
    let mut at: usize = 0;
    while at < pairs.len() && (pairs[at].0 < pair.0 || (pairs[at].0 == pair.0 && pairs[at].1
        < pair.1))
        invariant
            pairs@ == before,
            at <= pairs@.len(),
            forall|i: int| 0 <= i < at ==> pair_before(#[trigger] pairs@[i], pair),
        decreases pairs@.len() - at,
    {
        at = at + 1;
    }
    if at < pairs.len() && pairs[at].0 == pair.0 && pairs[at].1 == pair.1 {
        assert(before[at as int] == pair);
        return ;
    }
    pairs.insert(at, pair);
    proof {
        let after = pairs@;
        assert forall|i: int| at <= i < before.len() implies pair_before(
            pair,
            #[trigger] before[i],
        ) by {
            if i > at {
                assert(pair_before(before[at as int], before[i]));
            }
        }
        assert forall|i: int, j: int| 0 <= i < j < after.len() implies pair_before(
            #[trigger] after[i],
            #[trigger] after[j],
        ) by {
            let oi = if i < at {
                i
            } else {
                i - 1
            };
            let oj = if j < at {
                j
            } else {
                j - 1
            };
            if i != at && j != at {
                assert(pair_before(before[oi], before[oj]));
            } else if i == at {
                assert(pair_before(pair, before[oj]));
            } else {
                assert(pair_before(before[oi], pair));
            }
        }
        assert forall|p: (u16, u16)| #[trigger] after.contains(p) <==> before.contains(p) || p
            == pair by {
            if after.contains(p) {
                let i = choose|i: int| 0 <= i < after.len() && after[i] == p;
                if i < at {
                    assert(before[i] == p);
                } else if i > at {
                    assert(before[i - 1] == p);
                }
            }
            if before.contains(p) {
                let i = choose|i: int| 0 <= i < before.len() && before[i] == p;
                if i < at {
                    assert(after[i] == p);
                } else {
                    assert(after[i + 1] == p);
                }
            }
            if p == pair {
                assert(after[at as int] == p);
            }
        }
    }
}

// ---------------------------------------------------------------- gathering
/// Interface `i` is the first with this path.
pub open spec fn is_first(infos: Seq<HidrawInfo>, path: Seq<char>, i: int) -> bool {
    &&& 0 <= i < infos.len()
    &&& infos[i].path@ == path
    &&& forall|j: int| 0 <= j < i ==> (#[trigger] infos[j]).path@ != path
}

/// An interface with this path has this usage.
pub open spec fn has_usage(infos: Seq<HidrawInfo>, path: Seq<char>, usage: (u16, u16)) -> bool {
    exists|i: int|
        0 <= i < infos.len() && (#[trigger] infos[i]).path@ == path && (
            infos[i].usage_page,
            infos[i].usage,
        ) == usage
}

pub open spec fn product_text(product: Option<String>) -> Seq<char> {
    match product {
        Some(p) => p@,
        None => Seq::empty(),
    }
}

/// The node has its ids and its name from the first interface with its path,
/// and the usages of all.
pub open spec fn sums_up(node: HidrawNode, infos: Seq<HidrawInfo>) -> bool {
    &&& exists|i: int| #[trigger]
        is_first(infos, node.path@, i) && node.vid == infos[i].vid && node.pid == infos[i].pid
            && node.name@ == product_text(infos[i].product)
    &&& pairs_ascending(node.usages@)
    &&& forall|u: (u16, u16)| #[trigger]
        node.usages@.contains(u) <==> has_usage(infos, node.path@, u)
}

pub open spec fn node_paths(nodes: Seq<HidrawNode>) -> Seq<Seq<char>> {
    Seq::new(nodes.len(), |i: int| nodes[i].path@)
}

/// The nodes are those of the interfaces, one per path, by path.
pub open spec fn is_gathered(nodes: Seq<HidrawNode>, infos: Seq<HidrawInfo>) -> bool {
    &&& order::ascending(node_paths(nodes))
    &&& forall|i: int| 0 <= i < infos.len() ==> node_paths(nodes).contains((#[trigger] infos[i]).path@)
    &&& forall|k: int| 0 <= k < nodes.len() ==> sums_up(#[trigger] nodes[k], infos)
}

/// Nothing is known yet of what only a look at the device tells.
pub open spec fn is_unopened(node: HidrawNode) -> bool {
    node.sysfs is None && !node.ro_open && !node.rw_open
}

proof fn lemma_other_path_changes_nothing(node: HidrawNode, infos: Seq<HidrawInfo>, next: HidrawInfo)
    requires
        sums_up(node, infos),
        next.path@ != node.path@,
    ensures
        sums_up(node, infos.push(next)),
{
    let more = infos.push(next);
    let i = choose|i: int| #[trigger]
        is_first(infos, node.path@, i) && node.vid == infos[i].vid && node.pid == infos[i].pid
            && node.name@ == product_text(infos[i].product);
    assert(is_first(more, node.path@, i)) by {
        assert forall|j: int| 0 <= j < i implies (#[trigger] more[j]).path@ != node.path@ by {
            assert(more[j] == infos[j]);
        }
    }
    assert(more[i] == infos[i]);
    assert forall|u: (u16, u16)| #[trigger]
        node.usages@.contains(u) <==> has_usage(more, node.path@, u) by {
        if has_usage(infos, node.path@, u) {
            let k = choose|k: int|
                0 <= k < infos.len() && (#[trigger] infos[k]).path@ == node.path@ && (
                    infos[k].usage_page,
                    infos[k].usage,
                ) == u;
            assert(more[k] == infos[k]);
        }
        if has_usage(more, node.path@, u) {
            let k = choose|k: int|
                0 <= k < more.len() && (#[trigger] more[k]).path@ == node.path@ && (
                    more[k].usage_page,
                    more[k].usage,
                ) == u;
            assert(k < infos.len());
            assert(more[k] == infos[k]);
        }
    }
}

proof fn lemma_same_path_adds_usage(
    before: HidrawNode,
    after: HidrawNode,
    infos: Seq<HidrawInfo>,
    next: HidrawInfo,
)
    requires
        sums_up(before, infos),
        next.path@ == before.path@,
        after.path@ == before.path@,
        after.vid == before.vid,
        after.pid == before.pid,
        after.name@ == before.name@,
        pairs_ascending(after.usages@),
        forall|u: (u16, u16)| #[trigger]
            after.usages@.contains(u) <==> before.usages@.contains(u) || u == (
                next.usage_page,
                next.usage,
            ),
    ensures
        sums_up(after, infos.push(next)),
{
    let more = infos.push(next);
    let path = before.path@;
    let i = choose|i: int| #[trigger]
        is_first(infos, path, i) && before.vid == infos[i].vid && before.pid == infos[i].pid
            && before.name@ == product_text(infos[i].product);
    assert(is_first(more, path, i)) by {
        assert forall|j: int| 0 <= j < i implies (#[trigger] more[j]).path@ != path by {
            assert(more[j] == infos[j]);
        }
    }
    assert(more[i] == infos[i]);
    assert forall|u: (u16, u16)| #[trigger]
        after.usages@.contains(u) <==> has_usage(more, path, u) by {
        if after.usages@.contains(u) {
            if before.usages@.contains(u) {
                assert(has_usage(infos, path, u));
                let k = choose|k: int|
                    0 <= k < infos.len() && (#[trigger] infos[k]).path@ == path && (
                        infos[k].usage_page,
                        infos[k].usage,
                    ) == u;
                assert(more[k] == infos[k]);
            } else {
                assert(more[infos.len() as int] == next);
            }
        }
        if has_usage(more, path, u) {
            let k = choose|k: int|
                0 <= k < more.len() && (#[trigger] more[k]).path@ == path && (
                    more[k].usage_page,
                    more[k].usage,
                ) == u;
            if k < infos.len() {
                assert(more[k] == infos[k]);
                assert(has_usage(infos, path, u));
            }
        }
    }
}

proof fn lemma_new_path_starts_node(node: HidrawNode, infos: Seq<HidrawInfo>, next: HidrawInfo)
    requires
        forall|i: int| 0 <= i < infos.len() ==> (#[trigger] infos[i]).path@ != next.path@,
        node.path@ == next.path@,
        node.vid == next.vid,
        node.pid == next.pid,
        node.name@ == product_text(next.product),
        node.usages@ == seq![(next.usage_page, next.usage)],
    ensures
        sums_up(node, infos.push(next)),
{
    let more = infos.push(next);
    let last = infos.len() as int;
    assert(more[last] == next);
    assert(is_first(more, node.path@, last)) by {
        assert forall|j: int| 0 <= j < last implies (#[trigger] more[j]).path@ != node.path@ by {
            assert(more[j] == infos[j]);
        }
    }
    assert forall|u: (u16, u16)| #[trigger]
        node.usages@.contains(u) <==> has_usage(more, node.path@, u) by {
        if node.usages@.contains(u) {
            assert(more[last].path@ == node.path@);
        }
        if has_usage(more, node.path@, u) {
            let k = choose|k: int|
                0 <= k < more.len() && (#[trigger] more[k]).path@ == node.path@ && (
                    more[k].usage_page,
                    more[k].usage,
                ) == u;
            if k < last {
                assert(more[k] == infos[k]);
            }
            assert(node.usages@[0] == u);
        }
    }
}

/// The nodes of these interfaces, by path.
pub fn gather(infos: &Vec<HidrawInfo>) -> (r: Vec<HidrawNode>)
    ensures
        is_gathered(r@, infos@),
        forall|k: int| 0 <= k < r@.len() ==> is_unopened(#[trigger] r@[k]),
{
    let mut paths: Vec<String> = Vec::new();
    let mut nodes: Vec<HidrawNode> = Vec::new();
    for i in 0..infos.len()
        invariant
            text::texts(paths@) == node_paths(nodes@),
            is_gathered(nodes@, infos@.take(i as int)),
            forall|k: int| 0 <= k < nodes@.len() ==> is_unopened(#[trigger] nodes@[k]),
    {
        let info = &infos[i];
        let ghost seen = infos@.take(i as int);
        let ghost before = nodes@;
        let ghost all = node_paths(before);
        assert(infos@.take(i + 1) =~= seen.push(*info));
        let (at, there) = order::place(&paths, info.path.as_str());
        assert(paths@.len() == nodes@.len()) by {
            assert(text::texts(paths@).len() == node_paths(nodes@).len());
        }
        if there {
            let mut node = nodes.remove(at);
            let ghost held = node;
            assert(held == before[at as int]);
            assert(sums_up(before[at as int], seen));
            assert(is_unopened(before[at as int]));
            assert(all[at as int] == text::texts(paths@)[at as int]);
            insert_pair(&mut node.usages, (info.usage_page, info.usage));
            let ghost grown = node;
            nodes.insert(at, node);
            proof {
                lemma_same_path_adds_usage(held, grown, seen, *info);
                assert(nodes@ =~= before.update(at as int, grown));
                assert(node_paths(nodes@) =~= all);
                assert forall|k: int| 0 <= k < nodes@.len() implies sums_up(
                    #[trigger] nodes@[k],
                    seen.push(*info),
                ) by {
                    if k != at {
                        assert(nodes@[k] == before[k]);
                        assert(sums_up(before[k], seen));
                        assert(all[k] != all[at as int]) by {
                            order::lemma_precedes_total(all[k], all[at as int]);
                            if k < at {
                                assert(order::precedes(all[k], all[at as int]));
                            } else {
                                assert(order::precedes(all[at as int], all[k]));
                            }
                        }
                        lemma_other_path_changes_nothing(before[k], seen, *info);
                    }
                }
                assert forall|j: int| 0 <= j < seen.push(*info).len() implies node_paths(
                    nodes@,
                ).contains((#[trigger] seen.push(*info)[j]).path@) by {
                    if j < seen.len() {
                        assert(seen.push(*info)[j] == seen[j]);
                        assert(all.contains(seen[j].path@));
                    } else {
                        assert(all[at as int] == info.path@);
                    }
                }
            }
        } else {
            let name: String = match &info.product {
                Some(p) => p.clone(),
                None => String::new(),
            };
            let node = HidrawNode {
                path: info.path.clone(),
                vid: info.vid,
                pid: info.pid,
                name,
                usages: vec![(info.usage_page, info.usage)],
                sysfs: None,
                ro_open: false,
                rw_open: false,
            };
            let ghost fresh = node;
            let ghost old_paths = paths@;
            paths.insert(at, info.path.clone());
            nodes.insert(at, node);
            proof {
                assert(fresh.usages@ =~= seq![(info.usage_page, info.usage)]);
                assert forall|j: int| 0 <= j < seen.len() implies (#[trigger] seen[j]).path@
                    != info.path@ by {
                    assert(all.contains(seen[j].path@));
                }
                lemma_new_path_starts_node(fresh, seen, *info);
                assert(node_paths(nodes@) =~= all.insert(at as int, info.path@));
                assert(text::texts(paths@) =~= all.insert(at as int, info.path@)) by {
                    assert forall|j: int| 0 <= j < old_paths.len() implies all[j]
                        == (#[trigger] old_paths[j])@ by {
                        assert(text::texts(old_paths)[j] == all[j]);
                    }
                }
                let after = node_paths(nodes@);
                assert forall|x: int, y: int| 0 <= x < y < after.len() implies order::precedes(
                    #[trigger] after[x],
                    #[trigger] after[y],
                ) by {
                    let ox = if x < at {
                        x
                    } else {
                        x - 1
                    };
                    let oy = if y < at {
                        y
                    } else {
                        y - 1
                    };
                    if x != at && y != at {
                        assert(order::precedes(all[ox], all[oy]));
                    } else if x == at {
                        assert(text::texts(old_paths)[oy] == all[oy]);
                        assert(order::precedes(info.path@, old_paths[oy]@));
                    } else {
                        assert(text::texts(old_paths)[ox] == all[ox]);
                        assert(order::precedes(old_paths[ox]@, info.path@));
                    }
                }
                assert forall|k: int| 0 <= k < nodes@.len() implies sums_up(
                    #[trigger] nodes@[k],
                    seen.push(*info),
                ) by {
                    if k != at {
                        let o = if k < at {
                            k
                        } else {
                            k - 1
                        };
                        assert(nodes@[k] == before[o]);
                        assert(sums_up(before[o], seen));
                        assert(all[o] == before[o].path@);
                        assert(all.contains(all[o]));
                        lemma_other_path_changes_nothing(before[o], seen, *info);
                    }
                }
                assert forall|k: int| 0 <= k < nodes@.len() implies is_unopened(
                    #[trigger] nodes@[k],
                ) by {
                    if k < at {
                        assert(nodes@[k] == before[k]);
                    } else if k > at {
                        assert(nodes@[k] == before[k - 1]);
                    }
                }
                assert forall|j: int| 0 <= j < seen.push(*info).len() implies after.contains(
                    (#[trigger] seen.push(*info)[j]).path@,
                ) by {
                    if j < seen.len() {
                        assert(seen.push(*info)[j] == seen[j]);
                        assert(all.contains(seen[j].path@));
                        let o = choose|o: int| 0 <= o < all.len() && all[o] == seen[j].path@;
                        if o < at {
                            assert(after[o] == all[o]);
                        } else {
                            assert(after[o + 1] == all[o]);
                        }
                    } else {
                        assert(after[at as int] == info.path@);
                    }
                }
            }
        }
    }
    assert(infos@.take(infos@.len() as int) =~= infos@);
    nodes
}

// ---------------------------------------------------------------- the section
impl HidrawNode {
    /// A node of the vendor's.
    pub open spec fn spec_is_ours(self) -> bool {
        self.vid == WL_VID
    }

    /// The node that commands go to.
    pub open spec fn spec_is_vendor(self) -> bool {
        self.vid == WL_VID && self.usages@.contains((0xFFFFu16, 0u16))
    }

    /// Only the vendor's nodes are opened for writing.
    pub fn is_ours(&self) -> (r: bool)
        ensures
            r == self.spec_is_ours(),
    {
        self.vid == WL_VID
    }

    pub fn is_vendor(&self) -> (r: bool)
        ensures
            r == self.spec_is_vendor(),
    {
        if self.vid != WL_VID {
            return false;
        }
        for i in 0..self.usages.len()
            invariant
                self.vid == WL_VID,
                forall|j: int| 0 <= j < i ==> #[trigger] self.usages@[j] != (0xFFFFu16, 0u16),
        {
            if self.usages[i].0 == 0xFFFF && self.usages[i].1 == 0 {
                assert(self.usages@[i as int] == (0xFFFFu16, 0u16));
                return true;
            }
        }
        false
    }
}

/// `0xffff/0x00`.
pub open spec fn usage_label(usage: (u16, u16)) -> Seq<char> {
    "0x"@ + number::hex4(usage.0 as nat) + "/0x"@ + number::hex2(usage.1 as nat)
}

pub open spec fn usage_labels(usages: Seq<(u16, u16)>) -> Seq<Seq<char>> {
    Seq::new(usages.len(), |i: int| usage_label(usages[i]))
}

pub open spec fn opens_text(node: HidrawNode) -> Seq<char> {
    if node.spec_is_ours() {
        "RO open: "@ + names::yn_text(node.ro_open) + "   RW open: "@ + names::yn_text(node.rw_open)
    } else {
        "RO open: "@ + names::yn_text(node.ro_open)
    }
}

/// The lines of one node.
pub open spec fn node_report(node: HidrawNode) -> Seq<char> {
    "  "@ + node.path@ + "  "@ + number::hex4(node.vid as nat) + ":"@ + number::hex4(
        node.pid as nat,
    ) + "  \""@ + node.name@ + "\"  usages: "@ + text::joined(usage_labels(node.usages@), " "@) + (
    if node.spec_is_vendor() {
        "   << VENDOR COMMAND IFACE"@
    } else {
        ""@
    }) + "\n"@ + input::sysfs_line(node.sysfs) + "           "@ + opens_text(node) + "\n"@
}

/// The head of the section, with the reason where there can be no nodes.
pub open spec fn head_text(init_error: Option<&str>) -> Seq<char> {
    match init_error {
        Some(e) => "\n== /dev/hidraw nodes ==\n"@ + "  hidapi init failed: "@ + e@ + "\n"@,
        None => "\n== /dev/hidraw nodes ==\n"@,
    }
}

/// The lines of these nodes.
pub open spec fn nodes_report(init_error: Option<&str>, rows: Seq<HidrawNode>) -> Seq<char>
    decreases rows.len(),
{
    if rows.len() == 0 {
        head_text(init_error)
    } else {
        nodes_report(init_error, rows.drop_last()) + node_report(rows.last())
    }
}

fn show_usages(usages: &Vec<(u16, u16)>) -> (r: String)
    ensures
        r@ == text::joined(usage_labels(usages@), " "@),
{
    let mut labels: Vec<String> = Vec::new();
    for i in 0..usages.len()
        invariant
            labels@.len() == i,
            forall|j: int| 0 <= j < i ==> (#[trigger] labels@[j])@ == usage_label(usages@[j]),
    {
        let mut label = "0x".to_owned();
        label.append(number::to_hex4(usages[i].0).as_str());
        label.append("/0x");
        label.append(number::to_hex2(usages[i].1 as u64).as_str());
        labels.push(label);
    }
    assert(text::texts(labels@) =~= usage_labels(usages@));
    text::join(&labels, " ")
}

fn show_opens(node: &HidrawNode) -> (r: String)
    ensures
        r@ == opens_text(*node),
{
    let mut out = "RO open: ".to_owned();
    out.append(names::yn(node.ro_open));
    if node.is_ours() {
        out.append("   RW open: ");
        out.append(names::yn(node.rw_open));
    }
    out
}

/// The lines of one node.
pub fn show_node(node: &HidrawNode) -> (r: String)
    requires
        input::can_show(node.sysfs),
    ensures
        r@ == node_report(*node),
{
    let mut out = "  ".to_owned();
    out.append(node.path.as_str());
    out.append("  ");
    out.append(number::to_hex4(node.vid).as_str());
    out.append(":");
    out.append(number::to_hex4(node.pid).as_str());
    out.append("  \"");
    out.append(node.name.as_str());
    out.append("\"  usages: ");
    out.append(show_usages(&node.usages).as_str());
    out.append(
        if node.is_vendor() {
            "   << VENDOR COMMAND IFACE"
        } else {
            ""
        },
    );
    out.append("\n");
    out.append(input::show_sysfs(&node.sysfs).as_str());
    out.append("           ");
    out.append(show_opens(node).as_str());
    out.append("\n");
    out
}

/// The section of the report. `init_error` is why interfaces could not be
/// listed, where they could not.
pub fn section_hidraw(init_error: Option<&str>, rows: &Vec<HidrawNode>) -> (r: String)
    requires
        forall|i: int| 0 <= i < rows@.len() ==> input::can_show((#[trigger] rows@[i]).sysfs),
    ensures
        r@ == nodes_report(init_error, rows@),
{
    let mut out = "\n== /dev/hidraw nodes ==\n".to_owned();
    match init_error {
        Some(e) => {
            out.append("  hidapi init failed: ");
            out.append(e);
            out.append("\n");
        },
        None => {},
    }
    for i in 0..rows.len()
        invariant
            forall|j: int| 0 <= j < rows@.len() ==> input::can_show((#[trigger] rows@[j]).sysfs),
            out@ == nodes_report(init_error, rows@.take(i as int)),
    {
        assert(rows@.take(i + 1).drop_last() =~= rows@.take(i as int));
        assert(input::can_show(rows@[i as int].sysfs));
        out.append(show_node(&rows[i]).as_str());
    }
    assert(rows@.take(rows@.len() as int) =~= rows@);
    out
}

// ---------------------------------------------------------------- selections
/// The test for the nodes that commands go to.
pub open spec fn taking_commands() -> spec_fn(HidrawNode) -> bool {
    |node: HidrawNode| node.spec_is_vendor()
}

/// The nodes at these places.
pub open spec fn nodes_at(rows: Seq<HidrawNode>, places: Seq<usize>) -> Seq<HidrawNode> {
    Seq::new(places.len(), |i: int| rows[places[i] as int])
}

/// Where the nodes that commands go to stand, in order.
pub fn find_vendor(rows: &Vec<HidrawNode>) -> (r: Vec<usize>)
    ensures
        nodes_at(rows@, r@) == rows@.filter(taking_commands()),
        forall|i: int| 0 <= i < r@.len() ==> (#[trigger] r@[i]) < rows@.len(),
{
    let ghost test = taking_commands();
    let mut places: Vec<usize> = Vec::new();
    proof {
        reveal(Seq::filter);
        assert(nodes_at(rows@, places@) =~= rows@.take(0).filter(test));
    }
    for i in 0..rows.len()
        invariant
            test == taking_commands(),
            nodes_at(rows@, places@) == rows@.take(i as int).filter(test),
            forall|j: int| 0 <= j < places@.len() ==> (#[trigger] places@[j]) < rows@.len(),
    {
        let ghost before = places@;
        proof {
            assert(rows@.take(i + 1) =~= rows@.take(i as int).push(rows@[i as int]));
            rows@.take(i as int).lemma_filter_push(rows@[i as int], test);
        }
        if rows[i].is_vendor() {
            places.push(i);
            assert(nodes_at(rows@, places@) =~= nodes_at(rows@, before).push(rows@[i as int]));
        }
    }
    assert(rows@.take(rows@.len() as int) =~= rows@);
    places
}

/// The paths of the nodes at these places.
pub fn paths_at(rows: &Vec<HidrawNode>, places: &Vec<usize>) -> (r: Vec<String>)
    requires
        forall|i: int| 0 <= i < places@.len() ==> (#[trigger] places@[i]) < rows@.len(),
    ensures
        text::texts(r@) == node_paths(nodes_at(rows@, places@)),
{
    let mut out: Vec<String> = Vec::new();
    for i in 0..places.len()
        invariant
            forall|j: int| 0 <= j < places@.len() ==> (#[trigger] places@[j]) < rows@.len(),
            out@.len() == i,
            forall|j: int| 0 <= j < i ==> (#[trigger] out@[j])@ == rows@[places@[j] as int].path@,
    {
        out.push(rows[places[i]].path.clone());
    }
    assert(text::texts(out@) =~= node_paths(nodes_at(rows@, places@)));
    out
}

} // verus!
