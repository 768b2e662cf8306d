//! A quiet daemon does what any other does, and only prints less.
use crate::daemon;
use crate::daemon::Config;
use crate::protocol;
use crate::sniper::{EventNode, VendorNode};
use crate::startup;
use crate::startup::{Options, Outcome, Startup};
use crate::text;
use crate::transport;
use crate::transport::{Exchange, Phase};
use crate::usb::Scope;
use crate::watch;
use crate::watch::{Notice, Watch, WatchEvent, WatchPhase};
use vstd::prelude::*;

verus! {

/// The same configuration, quiet.
pub open spec fn hushed(config: Config) -> Config {
    Config { quiet: true, ..config }
}

/// The same options, quiet.
pub open spec fn hushed_options(options: Options) -> Options {
    Options { quiet: true, ..options }
}

// ---------------------------------------------------------------- the event loop
/// A line for a stage that was set: what goes to standard output.
pub open spec fn is_line(phase: WatchPhase) -> bool {
    phase matches WatchPhase::Tell(notice) && notice is StageSet
}

/// A loop that is about to print such a line, once it has.
pub open spec fn settled(w: Watch) -> Watch {
    if is_line(w.phase) {
        w.resumed()
    } else {
        w
    }
}

/// Both loops stand at the same place, but for what they tell.
pub open spec fn same_place(q: Watch, w: Watch) -> bool {
    &&& q.config == hushed(w.config)
    &&& q.node_path@ == w.node_path@
    &&& q.warnings == w.warnings
    &&& q.events@ == w.events@
    &&& q.taken == w.taken
}

/// The quiet loop `q` stands where the loop `w` stands or will when its line is
/// printed.
pub open spec fn follows(q: Watch, w: Watch) -> bool {
    same_place(q, settled(w)) && q.phase == settled(w).phase
}

proof fn lemma_first_due_same(config: Config, events: Seq<daemon::KeyEvent>, from: int)
    ensures
        watch::first_due(hushed(config), events, from) == watch::first_due(config, events, from),
    decreases events.len() - from,
{
    if from < events.len() {
        lemma_first_due_same(config, events, from + 1);
    }
}

proof fn lemma_resumed_same(q: Watch, w: Watch)
    requires
        same_place(q, w),
        w.taken <= w.events@.len(),
    ensures
        follows(q.resumed(), w.resumed()),
        !is_line(w.resumed().phase),
        q.resumed().wf(),
{
    assert(w.events.len() == w.events@.len());
    assert(q.events.len() == q.events@.len());
    lemma_first_due_same(w.config, w.events@, w.taken as int);
    watch::lemma_resumed(w);
    watch::lemma_resumed(q);
}

/// One step of a loop that is not quiet, and what a quiet loop makes of it:
/// the printed line is passed over, in everything else both do the same.
pub proof fn law_quiet_loop_keeps_step(w: Watch, q: Watch, event: WatchEvent)
    requires
        w.wf(),
        !w.config.quiet,
        watch::belongs(w.phase, event),
        follows(q, w),
    ensures
        !is_line(q.phase),
        is_line(w.phase) ==> follows(q, w.moved(event)),
        !is_line(w.phase) ==> q.phase == w.phase && follows(q.moved(event), w.moved(event)),
{
    watch::lemma_resumed(w);
    lemma_resumed_same(Watch { config: hushed(w.config), ..w }, w);
    match (w.phase, event) {
        (WatchPhase::Fetch, WatchEvent::Fetched(events)) => {
            lemma_resumed_same(
                Watch { events, taken: 0, ..q },
                Watch { events, taken: 0, ..w },
            );
        },
        (WatchPhase::Write(_), WatchEvent::Done) => {
            lemma_resumed_same(q, w);
            lemma_resumed_same(q, w.moved(event));
        },
        (WatchPhase::Tell(_), _) => {
            if !is_line(w.phase) {
                lemma_resumed_same(q, w);
            }
        },
        _ => {},
    }
}

/// The outcomes but those of printed lines: what a quiet loop is told.
pub open spec fn heard(states: Seq<Watch>, outcomes: Seq<WatchEvent>) -> Seq<WatchEvent>
    decreases outcomes.len(),
{
    if outcomes.len() == 0 {
        Seq::empty()
    } else {
        let before = heard(states.drop_last(), outcomes.drop_last());
        if is_line(states[outcomes.len() - 1].phase) {
            before
        } else {
            before.push(outcomes.last())
        }
    }
}

/// The feature reports that are written in these states, in order.
pub open spec fn sent(states: Seq<Watch>) -> Seq<Seq<u8>>
    decreases states.len(),
{
    if states.len() == 0 {
        Seq::empty()
    } else {
        let before = sent(states.drop_last());
        let w = states.last();
        match w.phase {
            WatchPhase::Write(stage) => before.push(
                protocol::framed(protocol::set_active_dpi(w.config.profile, stage)),
            ),
            _ => before,
        }
    }
}

/// The warnings that are given in these states, in order.
pub open spec fn warned(states: Seq<Watch>) -> Seq<Notice>
    decreases states.len(),
{
    if states.len() == 0 {
        Seq::empty()
    } else {
        let before = warned(states.drop_last());
        match states.last().phase {
            WatchPhase::Tell(notice) if !(notice is StageSet) => before.push(notice),
            _ => before,
        }
    }
}

/// The stages for which a line is printed in these states, in order.
pub open spec fn printed(states: Seq<Watch>) -> Seq<u8>
    decreases states.len(),
{
    if states.len() == 0 {
        Seq::empty()
    } else {
        let before = printed(states.drop_last());
        match states.last().phase {
            WatchPhase::Tell(Notice::StageSet(stage)) => before.push(stage),
            _ => before,
        }
    }
}

/// The stages whose report was written successfully, in order.
pub open spec fn delivered(states: Seq<Watch>, outcomes: Seq<WatchEvent>) -> Seq<u8>
    decreases outcomes.len(),
{
    if outcomes.len() == 0 {
        Seq::empty()
    } else {
        let before = delivered(states.drop_last(), outcomes.drop_last());
        match states[outcomes.len() - 1].phase {
            WatchPhase::Write(stage) if outcomes.last() is Done => before.push(stage),
            _ => before,
        }
    }
}

proof fn lemma_shorter_run(states: Seq<Watch>, outcomes: Seq<WatchEvent>)
    requires
        watch::is_run(states, outcomes),
        outcomes.len() > 0,
    ensures
        watch::is_run(states.drop_last(), outcomes.drop_last()),
        watch::belongs(states[outcomes.len() - 1].phase, outcomes.last()),
        states.last() == states[outcomes.len() - 1].moved(outcomes.last()),
        states.drop_last().last() == states[outcomes.len() - 1],
        states.drop_last()[0] == states[0],
{
    let front = states.drop_last();
    let fewer = outcomes.drop_last();
    let n = outcomes.len() - 1;
    assert(states[n + 1] == states[n].moved(outcomes[n]));
    assert forall|i: int| 0 <= i < fewer.len() implies watch::belongs(
        front[i].phase,
        #[trigger] fewer[i],
    ) && front[i + 1] == front[i].moved(fewer[i]) by {
        assert(fewer[i] == outcomes[i]);
    }
}

proof fn lemma_run_keeps_config(states: Seq<Watch>, outcomes: Seq<WatchEvent>)
    requires
        watch::is_run(states, outcomes),
    ensures
        states.last().wf(),
        states.last().config == states[0].config,
    decreases outcomes.len(),
{
    if outcomes.len() > 0 {
        lemma_shorter_run(states, outcomes);
        lemma_run_keeps_config(states.drop_last(), outcomes.drop_last());
        watch::law_step_writes_what_is_ahead(states[outcomes.len() - 1], outcomes.last());
    }
}

/// Two loops that see the same, one of them quiet: both write the same
/// reports in the same order and give the same warnings.
pub proof fn law_quiet_loop_sends_the_same(
    states: Seq<Watch>,
    outcomes: Seq<WatchEvent>,
    quiet_states: Seq<Watch>,
    quiet_outcomes: Seq<WatchEvent>,
)
    requires
        watch::is_run(states, outcomes),
        watch::is_run(quiet_states, quiet_outcomes),
        !states[0].config.quiet,
        follows(quiet_states[0], states[0]),
        quiet_outcomes == heard(states, outcomes),
    ensures
        follows(quiet_states.last(), states.last()),
        sent(quiet_states.drop_last()) == sent(states.drop_last()),
        warned(quiet_states.drop_last()) == warned(states.drop_last()),
    decreases outcomes.len(),
{
    let front = states.drop_last();
    let quiet_front = quiet_states.drop_last();
    if outcomes.len() == 0 {
        assert(front =~= quiet_front);
    } else {
        let n = outcomes.len() - 1;
        let fewer = outcomes.drop_last();
        let w = states[n];
        lemma_shorter_run(states, outcomes);
        lemma_run_keeps_config(front, fewer);
        assert(front[n] == w);
        if is_line(w.phase) {
            law_quiet_loop_sends_the_same(front, fewer, quiet_states, quiet_outcomes);
            law_quiet_loop_keeps_step(w, quiet_states.last(), outcomes.last());
        } else {
            let quiet_fewer = quiet_outcomes.drop_last();
            assert(quiet_fewer =~= heard(front, fewer));
            assert(quiet_outcomes.last() == outcomes.last());
            lemma_shorter_run(quiet_states, quiet_outcomes);
            law_quiet_loop_sends_the_same(front, fewer, quiet_front, quiet_fewer);
            law_quiet_loop_keeps_step(w, quiet_front.last(), outcomes.last());
        }
    }
}

/// A quiet loop prints nothing.
pub proof fn law_quiet_loop_prints_nothing(states: Seq<Watch>, outcomes: Seq<WatchEvent>)
    requires
        watch::is_run(states, outcomes),
        states[0].config.quiet,
        !is_line(states[0].phase),
    ensures
        printed(states) == Seq::<u8>::empty(),
        !is_line(states.last().phase),
    decreases outcomes.len(),
{
    if outcomes.len() == 0 {
        assert(states.drop_last() =~= Seq::<Watch>::empty());
        assert(printed(states.drop_last()) =~= Seq::<u8>::empty());
    } else {
        let front = states.drop_last();
        let fewer = outcomes.drop_last();
        let w = states[outcomes.len() - 1];
        lemma_shorter_run(states, outcomes);
        law_quiet_loop_prints_nothing(front, fewer);
        lemma_run_keeps_config(front, fewer);
        watch::lemma_resumed(w);
        lemma_resumed_same(Watch { config: hushed(w.config), ..w }, w);
        if let WatchEvent::Fetched(events) = outcomes.last() {
            let fresh = Watch { events, taken: 0, ..w };
            lemma_resumed_same(Watch { config: hushed(w.config), ..fresh }, fresh);
        }
    }
}

/// A loop that is not quiet prints one line for each press or release whose
/// report was written successfully, in order, and no other.
pub proof fn law_one_line_per_delivered_edge(states: Seq<Watch>, outcomes: Seq<WatchEvent>)
    requires
        watch::is_run(states, outcomes),
        !states[0].config.quiet,
        !is_line(states[0].phase),
    ensures
        printed(states) == delivered(states, outcomes),
    decreases outcomes.len(),
{
    if outcomes.len() == 0 {
        assert(states.drop_last() =~= Seq::<Watch>::empty());
        assert(printed(states.drop_last()) =~= Seq::<u8>::empty());
    } else {
        let front = states.drop_last();
        let fewer = outcomes.drop_last();
        let w = states[outcomes.len() - 1];
        lemma_shorter_run(states, outcomes);
        law_one_line_per_delivered_edge(front, fewer);
        lemma_run_keeps_config(front, fewer);
        watch::lemma_resumed(w);
        lemma_resumed_same(Watch { config: hushed(w.config), ..w }, w);
        if let WatchEvent::Fetched(events) = outcomes.last() {
            let fresh = Watch { events, taken: 0, ..w };
            lemma_resumed_same(Watch { config: hushed(w.config), ..fresh }, fresh);
        }
    }
}

// ---------------------------------------------------------------- the start
pub open spec fn same_vendor(a: VendorNode, b: VendorNode) -> bool {
    a.path@ == b.path@ && a.pid == b.pid
}

pub open spec fn same_node(a: EventNode, b: EventNode) -> bool {
    a.path@ == b.path@ && a.name@ == b.name@
}

pub open spec fn same_scope(a: Scope, b: Scope) -> bool {
    text::opt_text(a.usb_prefix) == text::opt_text(b.usb_prefix) && a.vidpid_marker@
        == b.vidpid_marker@
}

/// These are the options of a start that is not quiet and of its quiet twin.
pub open spec fn twins(q: Options, o: Options) -> bool {
    !o.quiet && q == hushed_options(o)
}

/// The same of their configurations.
pub open spec fn twin_configs(q: Config, c: Config) -> bool {
    !c.quiet && q == hushed(c)
}

/// The quiet start `q` stands where the start `s` stands, or will when its
/// line is printed.
pub open spec fn keeps_up(q: Startup, s: Startup) -> bool {
    match (q, s) {
        (Startup::ListInterfaces(a), Startup::ListInterfaces(b)) => twins(a, b),
        (Startup::OpenVendor(a, v), Startup::OpenVendor(b, w)) => twins(a, b) && same_vendor(v, w),
        (Startup::Detect(a, v, x), Startup::Detect(b, w, y)) => twins(a, b) && same_vendor(v, w)
            && x == y,
        (Startup::AskProfile(a, v, t, x), Startup::AskProfile(b, w, u, y)) => twins(a, b)
            && same_vendor(v, w) && t == u && x == y,
        (Startup::Resolve(a, v), Startup::Resolve(b, w)) => twin_configs(a, b) && same_vendor(v, w),
        (Startup::Scan(a, v, x), Startup::Scan(b, w, y)) => twin_configs(a, b) && same_vendor(v, w)
            && same_scope(x, y),
        (Startup::ListSysfs(a, x, m), Startup::ListSysfs(b, y, n)) => twin_configs(a, b) && x == y
            && m@ == n@,
        (Startup::OpenNode(a, v, m), Startup::OpenNode(b, w, n)) => twin_configs(a, b)
            && same_vendor(v, w) && same_node(m, n),
        (Startup::Grab(a, v, m), Startup::Grab(b, w, n)) => twin_configs(a, b) && same_vendor(v, w)
            && same_node(m, n),
        (Startup::Baseline(a, v, m), Startup::Baseline(b, w, n)) => twin_configs(a, b)
            && same_vendor(v, w) && same_node(m, n),
        (Startup::Warn(a, v, m, e), Startup::Warn(b, w, n, f)) => twin_configs(a, b) && same_vendor(
            v,
            w,
        ) && same_node(m, n) && e@ == f@,
        (Startup::Unblock(a, m), Startup::Announce(b, n, _)) => twin_configs(a, b) && same_node(
            m,
            n,
        ),
        (Startup::Unblock(a, m), Startup::Unblock(b, n)) => twin_configs(a, b) && same_node(m, n),
        (Startup::Ready(a, m), Startup::Ready(b, n)) => twin_configs(a, b) && same_node(m, n),
        (Startup::Refused(m), Startup::Refused(n)) => m@ == n@,
        _ => false,
    }
}

/// An exchange has one way to go on from an event.
proof fn lemma_one_move(x: Exchange, e: transport::Event, a: Exchange, b: Exchange)
    requires
        x.moves(e, a),
        x.moves(e, b),
    ensures
        a == b,
{
    match (x.phase, e) {
        (Phase::Read, transport::Event::Reply(buffer)) => {
            let r = choose|resp: [u8; protocol::REPORT_SIZE]|
                resp@ == transport::reply_in(buffer@) && a == #[trigger] x.replied(resp);
            let t = choose|resp: [u8; protocol::REPORT_SIZE]|
                resp@ == transport::reply_in(buffer@) && b == #[trigger] x.replied(resp);
            assert(r =~= t);
        },
        _ => {},
    }
}

/// The exchanges of two starts that begin alike are the same.
proof fn lemma_same_exchange(x: Exchange, y: Exchange)
    requires
        x.goal == y.goal,
        x.report@ == y.report@,
        x.attempt == y.attempt,
        x.phase == y.phase,
    ensures
        x == y,
{
    assert(x.report =~= y.report);
}

proof fn lemma_quiet_exchange(
    s: Startup,
    q: Startup,
    e: transport::Event,
    next: Startup,
    quiet_next: Startup,
)
    requires
        s is Detect || s is AskProfile,
        s.wf(),
        q.wf(),
        next.wf(),
        quiet_next.wf(),
        keeps_up(q, s),
        s.moves(Outcome::Exchange(e), next),
        q.moves(Outcome::Exchange(e), quiet_next),
    ensures
        keeps_up(quiet_next, next),
{
    match (s, q) {
        (Startup::Detect(o, v, x), Startup::Detect(p, w, y)) => {
            let a = choose|a: Exchange|
                x.moves(e, a) && #[trigger] Startup::detected(o, v, a, next);
            let b = choose|b: Exchange|
                y.moves(e, b) && #[trigger] Startup::detected(p, w, b, quiet_next);
            lemma_one_move(x, e, a, b);
            match (next, quiet_next) {
                (
                    Startup::AskProfile(_, _, _, y1),
                    Startup::AskProfile(_, _, _, y2),
                ) => {
                    if a.phase is Finished {
                        lemma_same_exchange(y2, y1);
                    }
                },
                _ => {},
            }
        },
        (Startup::AskProfile(o, v, t, x), Startup::AskProfile(p, w, u, y)) => {
            let a = choose|a: Exchange|
                x.moves(e, a) && #[trigger] Startup::answered(o, v, t, a, next);
            let b = choose|b: Exchange|
                y.moves(e, b) && #[trigger] Startup::answered(p, w, u, b, quiet_next);
            lemma_one_move(x, e, a, b);
        },
        _ => {},
    }
}

/// One step of a start that is not quiet, and what a quiet start makes of it:
/// the printed line is passed over, in everything else both do the same.
pub proof fn law_quiet_start_keeps_step(
    s: Startup,
    q: Startup,
    outcome: Outcome,
    next: Startup,
    quiet_next: Startup,
)
    requires
        s.wf(),
        q.wf(),
        next.wf(),
        quiet_next.wf(),
        keeps_up(q, s),
        s.moves(outcome, next),
        !(s is Announce) ==> q.moves(outcome, quiet_next),
    ensures
        s is Announce ==> keeps_up(q, next),
        !(s is Announce) ==> keeps_up(quiet_next, next),
{
    match (s, outcome) {
        (Startup::Detect(..), Outcome::Exchange(e)) => {
            lemma_quiet_exchange(s, q, e, next, quiet_next);
        },
        (Startup::AskProfile(..), Outcome::Exchange(e)) => {
            lemma_quiet_exchange(s, q, e, next, quiet_next);
        },
        (Startup::OpenVendor(..), Outcome::Done) => {
            lemma_same_exchange(quiet_next->Detect_2, next->Detect_2);
        },
        _ => {},
    }
}

/// The outcomes but those of the printed line.
pub open spec fn start_heard(states: Seq<Startup>, outcomes: Seq<Outcome>) -> Seq<Outcome>
    decreases outcomes.len(),
{
    if outcomes.len() == 0 {
        Seq::empty()
    } else {
        let before = start_heard(states.drop_last(), outcomes.drop_last());
        if states[outcomes.len() - 1] is Announce {
            before
        } else {
            before.push(outcomes.last())
        }
    }
}

/// The feature report that is written in this state.
pub open spec fn report_of(s: Startup) -> Option<Seq<u8>> {
    match s {
        Startup::Detect(_, _, x) if x.phase is Write => Some(protocol::framed(x.report@)),
        Startup::AskProfile(_, _, _, x) if x.phase is Write => Some(protocol::framed(x.report@)),
        Startup::Baseline(c, _, _) => Some(
            protocol::framed(protocol::set_active_dpi(c.profile, c.normal_stage)),
        ),
        _ => None,
    }
}

/// The feature reports that are written in these states, in order.
pub open spec fn start_sent(states: Seq<Startup>) -> Seq<Seq<u8>>
    decreases states.len(),
{
    if states.len() == 0 {
        Seq::empty()
    } else {
        let before = start_sent(states.drop_last());
        match report_of(states.last()) {
            Some(report) => before.push(report),
            None => before,
        }
    }
}

/// How often the line about the start is printed.
pub open spec fn announced(states: Seq<Startup>, outcomes: Seq<Outcome>) -> nat
    decreases outcomes.len(),
{
    if outcomes.len() == 0 {
        0
    } else {
        announced(states.drop_last(), outcomes.drop_last()) + (if states[outcomes.len()
            - 1] is Announce && outcomes.last() is Done {
            1nat
        } else {
            0nat
        })
    }
}

/// Two starts that see the same, one of them quiet: both come to the same end,
/// grab the same node, refuse for the same reason, and write the same reports
/// in the same order.
pub proof fn law_quiet_start_does_the_same(
    options: Options,
    states: Seq<Startup>,
    outcomes: Seq<Outcome>,
    quiet_states: Seq<Startup>,
    quiet_outcomes: Seq<Outcome>,
)
    requires
        !options.quiet,
        startup::is_start(options, states, outcomes),
        startup::is_start(hushed_options(options), quiet_states, quiet_outcomes),
        quiet_outcomes == start_heard(states, outcomes),
    ensures
        keeps_up(quiet_states.last(), states.last()),
        start_sent(quiet_states.drop_last()) == start_sent(states.drop_last()),
    decreases outcomes.len(),
{
    let front = states.drop_last();
    let quiet_front = quiet_states.drop_last();
    if outcomes.len() == 0 {
        assert(start_sent(front) =~= start_sent(quiet_front));
    } else {
        let n = outcomes.len() - 1;
        let fewer = outcomes.drop_last();
        let s = states[n];
        startup::lemma_shorter_start(options, states, outcomes);
        assert(front.last() == s);
        assert(s.wf() && states[n + 1].wf());
        if s is Announce {
            law_quiet_start_does_the_same(options, front, fewer, quiet_states, quiet_outcomes);
            let q = quiet_states.last();
            assert(quiet_states[quiet_states.len() - 1].wf());
            law_quiet_start_keeps_step(s, q, outcomes.last(), states.last(), q);
        } else {
            let quiet_fewer = quiet_outcomes.drop_last();
            assert(quiet_fewer =~= start_heard(front, fewer));
            assert(quiet_outcomes.last() == outcomes.last());
            startup::lemma_shorter_start(hushed_options(options), quiet_states, quiet_outcomes);
            law_quiet_start_does_the_same(options, front, fewer, quiet_front, quiet_fewer);
            let q = quiet_front.last();
            assert(quiet_states[quiet_states.len() - 2].wf());
            assert(quiet_states[quiet_states.len() - 1].wf());
            law_quiet_start_keeps_step(
                s,
                q,
                outcomes.last(),
                states.last(),
                quiet_states.last(),
            );
        }
    }
}

/// A quiet start prints nothing.
pub proof fn law_quiet_start_prints_nothing(
    options: Options,
    states: Seq<Startup>,
    outcomes: Seq<Outcome>,
)
    requires
        options.quiet,
        startup::is_start(options, states, outcomes),
    ensures
        !(states.last() is Announce),
        announced(states, outcomes) == 0,
    decreases outcomes.len(),
{
    if outcomes.len() > 0 {
        startup::lemma_shorter_start(options, states, outcomes);
        law_quiet_start_prints_nothing(options, states.drop_last(), outcomes.drop_last());
        startup::law_start_keeps_options(options, states.drop_last(), outcomes.drop_last());
        assert(states.drop_last().last() == states[outcomes.len() - 1]);
    }
}

/// A start that is not quiet prints its line once before the daemon runs.
pub proof fn law_start_announces_once(
    options: Options,
    states: Seq<Startup>,
    outcomes: Seq<Outcome>,
)
    requires
        !options.quiet,
        startup::is_start(options, states, outcomes),
    ensures
        states.last() is Unblock || states.last() is Ready ==> announced(states, outcomes) == 1,
        !(states.last() is Unblock || states.last() is Ready || states.last() is Refused)
            ==> announced(states, outcomes) == 0,
    decreases outcomes.len(),
{
    if outcomes.len() > 0 {
        startup::lemma_shorter_start(options, states, outcomes);
        law_start_announces_once(options, states.drop_last(), outcomes.drop_last());
        startup::law_start_keeps_options(options, states.drop_last(), outcomes.drop_last());
        assert(states.drop_last().last() == states[outcomes.len() - 1]);
    }
}

/// Where a start is ready, the loop of its quiet twin begins where its own
/// does.
pub proof fn law_quiet_loop_begins_alike(s: Startup, q: Startup, w: Watch, v: Watch)
    requires
        keeps_up(q, s),
        s is Ready,
        w.is_fresh(s->Ready_0, s->Ready_1.path@),
        v.is_fresh(q->Ready_0, q->Ready_1.path@),
    ensures
        follows(v, w),
{
    assert(v.events@ =~= w.events@);
}

} // verus!
