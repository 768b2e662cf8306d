//! What node the daemon grabs.
use crate::filter;
use crate::ports;
use crate::sniper;
use crate::sniper::{Candidate, EventNode};
use crate::startup;
use crate::startup::{Options, Outcome, Startup};
use crate::text;
use crate::usb;
use crate::usb::Scope;
use vstd::prelude::*;

verus! {

/// The scan that comes back at step `i` is the one that was handed out, shown
/// the nodes in `seen[i]` one after the other.
pub open spec fn scans_honestly(
    states: Seq<Startup>,
    outcomes: Seq<Outcome>,
    seen: Seq<Seq<Candidate>>,
) -> bool {
    &&& seen.len() == outcomes.len()
    &&& forall|i: int|
        0 <= i < outcomes.len() ==> match (states[i], #[trigger] outcomes[i]) {
            (Startup::Scan(_, _, scope), Outcome::Scanned(scan)) => scan@ == sniper::scanned(
                startup::fresh_scan(scope),
                seen[i],
            ),
            _ => true,
        }
}

/// The `k`-th of the nodes fits, no other does, and it is this node.
pub open spec fn is_the_one(
    nodes: Seq<Candidate>,
    scope: Scope,
    node: EventNode,
    k: int,
) -> bool {
    &&& 0 <= k < nodes.len()
    &&& sniper::fits(nodes[k], scope.spec_needle())
    &&& nodes[k].path == node.path@
    &&& nodes[k].name == node.name@
    &&& forall|m: int|
        0 <= m < nodes.len() && m != k ==> !sniper::fits(#[trigger] nodes[m], scope.spec_needle())
}

/// At step `i` the scan of scope `scope` is shown the node as its `k`-th, and
/// no other of the nodes fits.
pub open spec fn chosen_at(
    states: Seq<Startup>,
    seen: Seq<Seq<Candidate>>,
    scope: Scope,
    node: EventNode,
    i: int,
    k: int,
) -> bool {
    &&& 0 <= i < seen.len()
    &&& states[i] matches Startup::Scan(_, _, s) && s == scope
    &&& is_the_one(seen[i], scope, node, k)
}

/// The node that the daemon grabs is one that it was shown, lies in the scope
/// of the dongle and advertises the button, and none of the others does.
pub proof fn law_grabbed_node_is_the_only_one_that_fits(
    options: Options,
    states: Seq<Startup>,
    outcomes: Seq<Outcome>,
    seen: Seq<Seq<Candidate>>,
    node: EventNode,
)
    requires
        startup::is_start(options, states, outcomes),
        scans_honestly(states, outcomes, seen),
        startup::chosen_node(states.last()) == Some(node),
    ensures
        exists|scope: Scope, i: int, k: int| #[trigger]
            chosen_at(states, seen, scope, node, i, k),
{
    startup::law_node_is_the_only_match(options, states, outcomes, node);
    let i = choose|i: int| #[trigger] startup::only_match(states, outcomes, node, i);
    let scope = states[i]->Scan_2;
    let scan = outcomes[i]->Scanned_0;
    let nodes = seen[i];
    let start = startup::fresh_scan(scope);
    let test = sniper::fitting(start.needle);
    assert(scan@ == sniper::scanned(start, nodes));
    sniper::law_scan_finds_exactly_the_button_nodes(start, nodes);
    let fit = nodes.filter(test);
    let pairs = sniper::pairs_of(fit);
    assert(pairs == seq![(node.path@, node.name@)]);
    assert(fit.len() == pairs.len());
    let k = filter::lemma_one_in_filter(nodes, test);
    assert(pairs[0] == (nodes[k].path, nodes[k].name));
    assert forall|m: int| 0 <= m < nodes.len() && m != k implies !sniper::fits(
        #[trigger] nodes[m],
        scope.spec_needle(),
    ) by {
        assert(!test(nodes[m]));
    }
    assert(chosen_at(states, seen, scope, node, i, k));
}

/// A node that is chosen in the scope of a known port goes through the
/// directory of the dongle's own USB device.
pub proof fn law_chosen_node_is_the_dongles(
    states: Seq<Startup>,
    seen: Seq<Seq<Candidate>>,
    scope: Scope,
    node: EventNode,
    i: int,
    k: int,
    segs: Seq<Seq<char>>,
    device: Seq<Seq<char>>,
)
    requires
        chosen_at(states, seen, scope, node, i, k),
        segs.len() >= 1,
        device.len() >= 1,
        usb::are_names(segs),
        usb::are_names(device),
        text::is_ascii(usb::path_of(segs)),
        text::is_ascii(usb::path_of(device)),
        text::opt_text(scope.usb_prefix) == Some(usb::path_of(device)),
        seen[i][k].canon_lower == text::lowercase(usb::path_of(segs)),
    ensures
        exists|at: int| #[trigger]
            ports::passes_at(ports::lower_all(segs), ports::lower_all(device), at),
{
    ports::law_scope_is_the_port(segs, device, scope);
}

} // verus!
