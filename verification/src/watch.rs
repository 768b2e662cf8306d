//! The event loop, as a machine that says what to do next and is told how it
//! went: fetch events, write the stage that each edge calls for, tell the
//! user, rest, and again.
use crate::daemon;
use crate::daemon::{Config, KeyEvent, Reaction, ReadWarnings, POLL_MS};
use crate::protocol;
use crate::protocol::FRAME_SIZE;
use crate::transport::HidTransport;
use vstd::prelude::*;

verus! {

/// What the user is to be told.
#[derive(Debug)]
pub enum Notice {
    /// A key event had a value that key events do not have.
    Unexpected(i32),
    /// This stage was set.
    StageSet(u8),
    /// This stage could not be set.
    StageFailed(u8, String),
    /// The node could not be read.
    ReadFailed(String),
}

/// Where the loop stands.
#[derive(Debug)]
pub enum WatchPhase {
    Fetch,
    /// The report for this stage is to be written.
    Write(u8),
    Tell(Notice),
    Rest,
}

/// The loop over the events of the grabbed node.
#[derive(Debug)]
pub struct Watch {
    pub config: Config,
    pub node_path: String,
    pub warnings: ReadWarnings,
    /// The events that were fetched last.
    pub events: Vec<KeyEvent>,
    /// How many of them are dealt with or being dealt with.
    pub taken: usize,
    pub phase: WatchPhase,
}

/// What is to be done next.
#[derive(Debug)]
pub enum WatchAction {
    /// Fetch the events that have come, without waiting.
    Fetch,
    /// Write this feature report.
    Write([u8; FRAME_SIZE]),
    /// Tell the user.
    Tell(Notice),
    /// Do nothing for this many milliseconds.
    Pause(u64),
}

/// How it went.
#[derive(Debug)]
pub enum WatchEvent {
    /// The write, the notice or the pause is done.
    Done,
    /// These events have come.
    Fetched(Vec<KeyEvent>),
    /// No events have come.
    Empty,
    /// The node could not be read; the time runs from the daemon's start.
    ReadFailed { error: String, now_ns: u64 },
    /// The report could not be written.
    WriteFailed(String),
}

// ---------------------------------------------------------------- notices
impl Notice {
    pub open spec fn spec_line(self, w: Watch, stamp: Seq<char>) -> Seq<char> {
        match self {
            Notice::Unexpected(value) => daemon::unexpected_text(w.config, stamp, value),
            Notice::StageSet(stage) => daemon::stage_text(w.config, stamp, stage),
            Notice::StageFailed(stage, error) => daemon::stage_failed_text(stamp, stage, error@),
            Notice::ReadFailed(error) => daemon::read_failed_text(stamp, w.node_path@, error@),
        }
    }

    /// All but a stage that was set goes where errors go.
    pub fn is_warning(&self) -> (r: bool)
        ensures
            r == !(self is StageSet),
    {
        match self {
            Notice::StageSet(_) => false,
            _ => true,
        }
    }

    /// Copies the notice.
    fn copy(&self) -> (r: Notice)
        ensures
            r.same(*self),
    {
        match self {
            Notice::Unexpected(value) => Notice::Unexpected(*value),
            Notice::StageSet(stage) => Notice::StageSet(*stage),
            Notice::StageFailed(stage, error) => Notice::StageFailed(*stage, error.clone()),
            Notice::ReadFailed(error) => Notice::ReadFailed(error.clone()),
        }
    }

    /// Both say the same.
    pub open spec fn same(self, other: Notice) -> bool {
        match (self, other) {
            (Notice::Unexpected(a), Notice::Unexpected(b)) => a == b,
            (Notice::StageSet(a), Notice::StageSet(b)) => a == b,
            (Notice::StageFailed(a, x), Notice::StageFailed(b, y)) => a == b && x@ == y@,
            (Notice::ReadFailed(x), Notice::ReadFailed(y)) => x@ == y@,
            _ => false,
        }
    }
}

// ---------------------------------------------------------------- the machine
/// The first event from `from` on that calls for something; the number of
/// events where none does.
pub open spec fn first_due(config: Config, events: Seq<KeyEvent>, from: int) -> int
    decreases events.len() - from,
{
    if from >= events.len() {
        events.len() as int
    } else if daemon::reaction(config, events[from]) != Reaction::Ignore {
        from
    } else {
        first_due(config, events, from + 1)
    }
}

impl Watch {
    /// Between two fetches all events are dealt with.
    pub open spec fn wf(self) -> bool {
        &&& self.taken <= self.events@.len()
        &&& self.phase is Fetch || self.phase is Rest ==> self.taken == self.events@.len()
    }

    /// With `taken` events dealt with: at the next one that calls for
    /// something, or at rest.
    pub open spec fn resumed(self) -> Watch {
        let k = first_due(self.config, self.events@, self.taken as int);
        if k >= self.events@.len() {
            Watch { taken: self.events.len(), phase: WatchPhase::Rest, ..self }
        } else {
            let phase = match daemon::reaction(self.config, self.events@[k]) {
                Reaction::SetStage(stage) => WatchPhase::Write(stage),
                Reaction::Unexpected(value) => WatchPhase::Tell(Notice::Unexpected(value)),
                Reaction::Ignore => WatchPhase::Rest,
            };
            Watch { taken: (k + 1) as usize, phase, ..self }
        }
    }

    pub open spec fn at(self, phase: WatchPhase) -> Watch {
        Watch { phase, ..self }
    }

    /// Where the loop stands after `event`. An event that does not belong to
    /// the phase changes nothing. A write that failed is told of and no more:
    /// the next edge retries.
    pub open spec fn moved(self, event: WatchEvent) -> Watch {
        match (self.phase, event) {
            (WatchPhase::Fetch, WatchEvent::Fetched(events)) => Watch {
                events,
                taken: 0,
                ..self
            }.resumed(),
            (WatchPhase::Fetch, WatchEvent::Empty) => self.at(WatchPhase::Rest),
            (WatchPhase::Fetch, WatchEvent::ReadFailed { error, now_ns }) => {
                if self.warnings.spec_due(now_ns) {
                    Watch {
                        warnings: ReadWarnings { last_ns: Some(now_ns) },
                        phase: WatchPhase::Tell(Notice::ReadFailed(error)),
                        ..self
                    }
                } else {
                    self.at(WatchPhase::Rest)
                }
            },
            (WatchPhase::Write(stage), WatchEvent::Done) => if self.config.quiet {
                self.resumed()
            } else {
                self.at(WatchPhase::Tell(Notice::StageSet(stage)))
            },
            (WatchPhase::Write(stage), WatchEvent::WriteFailed(error)) => self.at(
                WatchPhase::Tell(Notice::StageFailed(stage, error)),
            ),
            (WatchPhase::Tell(_), WatchEvent::Done) => self.resumed(),
            (WatchPhase::Rest, WatchEvent::Done) => self.at(WatchPhase::Fetch),
            _ => self,
        }
    }

    /// A loop that has not begun.
    pub open spec fn is_fresh(self, config: Config, node_path: Seq<char>) -> bool {
        &&& self.config == config
        &&& self.node_path@ == node_path
        &&& self.warnings.last_ns is None
        &&& self.events@.len() == 0
        &&& self.taken == 0
        &&& self.phase == WatchPhase::Fetch
    }

    pub fn new(config: Config, node_path: String) -> (r: Watch)
        ensures
            r.is_fresh(config, node_path@),
            r.wf(),
    {
        Watch {
            config,
            node_path,
            warnings: ReadWarnings::new(),
            events: Vec::new(),
            taken: 0,
            phase: WatchPhase::Fetch,
        }
    }

    /// What to do now.
    pub fn action(&self) -> (r: WatchAction)
        ensures
            match self.phase {
                WatchPhase::Fetch => r == WatchAction::Fetch,
                WatchPhase::Write(stage) => r matches WatchAction::Write(f) && f@
                    == protocol::framed(protocol::set_active_dpi(self.config.profile, stage)),
                WatchPhase::Tell(notice) => r matches WatchAction::Tell(n) && n.same(notice),
                WatchPhase::Rest => r == WatchAction::Pause(POLL_MS),
            },
    {
        match &self.phase {
            WatchPhase::Fetch => WatchAction::Fetch,
            WatchPhase::Write(stage) => WatchAction::Write(
                HidTransport::new().send_only(&self.config.stage_report(*stage)),
            ),
            WatchPhase::Tell(notice) => WatchAction::Tell(notice.copy()),
            WatchPhase::Rest => WatchAction::Pause(POLL_MS),
        }
    }

    /// The line of a notice, with the time as it is to be shown.
    pub fn line(&self, notice: &Notice, stamp: &str) -> (r: String)
        ensures
            r@ == notice.spec_line(*self, stamp@),
    {
        match notice {
            Notice::Unexpected(value) => self.config.unexpected_line(stamp, *value),
            Notice::StageSet(stage) => self.config.stage_line(stamp, *stage),
            Notice::StageFailed(stage, error) => daemon::stage_failed_line(
                stamp,
                *stage,
                error.as_str(),
            ),
            Notice::ReadFailed(error) => daemon::read_failed_line(
                stamp,
                self.node_path.as_str(),
                error.as_str(),
            ),
        }
    }

    fn resume(&mut self)
        requires
            old(self).taken <= old(self).events@.len(),
        ensures
            *final(self) == old(self).resumed(),
            final(self).wf(),
    {
        let size: usize = self.events.len();
        let mut k: usize = self.taken;
        while k < size
            invariant
                *self == *old(self),
                self.taken <= k <= size,
                size == self.events@.len(),
                first_due(self.config, self.events@, k as int) == first_due(
                    self.config,
                    self.events@,
                    self.taken as int,
                ),
            decreases size - k,
        {
            match self.config.react(&self.events[k]) {
                Reaction::Ignore => {},
                Reaction::SetStage(stage) => {
                    self.taken = k + 1;
                    self.phase = WatchPhase::Write(stage);
                    return ;
                },
                Reaction::Unexpected(value) => {
                    self.taken = k + 1;
                    self.phase = WatchPhase::Tell(Notice::Unexpected(value));
                    return ;
                },
            }
            k = k + 1;
        }
        self.taken = size;
        self.phase = WatchPhase::Rest;
    }

    /// Takes in how the action went.
    pub fn advance(&mut self, event: WatchEvent)
        requires
            old(self).wf(),
        ensures
            *final(self) == old(self).moved(event),
            final(self).wf(),
    {
        match event {
            WatchEvent::Fetched(events) => {
                if matches!(self.phase, WatchPhase::Fetch) {
                    self.events = events;
                    self.taken = 0;
                    self.resume();
                }
            },
            WatchEvent::Empty => {
                if matches!(self.phase, WatchPhase::Fetch) {
                    self.phase = WatchPhase::Rest;
                }
            },
            WatchEvent::ReadFailed { error, now_ns } => {
                if matches!(self.phase, WatchPhase::Fetch) {
                    if self.warnings.on_failure(now_ns) {
                        self.phase = WatchPhase::Tell(Notice::ReadFailed(error));
                    } else {
                        self.phase = WatchPhase::Rest;
                    }
                }
            },
            WatchEvent::WriteFailed(error) => {
                match self.phase {
                    WatchPhase::Write(stage) => {
                        self.phase = WatchPhase::Tell(Notice::StageFailed(stage, error));
                    },
                    _ => {},
                }
            },
            WatchEvent::Done => {
                match self.phase {
                    WatchPhase::Write(stage) => {
                        if self.config.quiet {
                            self.resume();
                        } else {
                            self.phase = WatchPhase::Tell(Notice::StageSet(stage));
                        }
                    },
                    WatchPhase::Tell(_) => {
                        self.resume();
                    },
                    WatchPhase::Rest => {
                        self.phase = WatchPhase::Fetch;
                    },
                    WatchPhase::Fetch => {},
                }
            },
        }
    }
}

// ---------------------------------------------------------------- laws
/// The stages that these events call for, from `from` on.
pub open spec fn stages(config: Config, events: Seq<KeyEvent>, from: int) -> Seq<u8>
    decreases events.len() - from,
{
    if from >= events.len() {
        Seq::empty()
    } else {
        match daemon::reaction(config, events[from]) {
            Reaction::SetStage(stage) => seq![stage] + stages(config, events, from + 1),
            _ => stages(config, events, from + 1),
        }
    }
}

/// How many events from `from` on call for something.
pub open spec fn due(config: Config, events: Seq<KeyEvent>, from: int) -> nat
    decreases events.len() - from,
{
    if from >= events.len() {
        0
    } else if daemon::reaction(config, events[from]) != Reaction::Ignore {
        1 + due(config, events, from + 1)
    } else {
        due(config, events, from + 1)
    }
}

/// The event answers what the phase asks for.
pub open spec fn belongs(phase: WatchPhase, event: WatchEvent) -> bool {
    match phase {
        WatchPhase::Fetch => event is Fetched || event is Empty || event is ReadFailed,
        WatchPhase::Write(_) => event is Done || event is WriteFailed,
        WatchPhase::Tell(_) => event is Done,
        WatchPhase::Rest => event is Done,
    }
}

/// The stages that the loop will write before it rests.
pub open spec fn ahead(w: Watch) -> Seq<u8> {
    match w.phase {
        WatchPhase::Write(stage) => seq![stage] + stages(w.config, w.events@, w.taken as int),
        _ => stages(w.config, w.events@, w.taken as int),
    }
}

/// How many notices a loop that is not quiet will give before it rests.
pub open spec fn notices_ahead(w: Watch) -> nat {
    due(w.config, w.events@, w.taken as int) + (if w.phase is Write || w.phase is Tell {
        1nat
    } else {
        0nat
    })
}

proof fn lemma_first_due(config: Config, events: Seq<KeyEvent>, from: int)
    requires
        0 <= from <= events.len(),
    ensures
        ({
            let k = first_due(config, events, from);
            &&& from <= k <= events.len()
            &&& stages(config, events, from) == stages(config, events, k)
            &&& due(config, events, from) == due(config, events, k)
            &&& k < events.len() ==> daemon::reaction(config, events[k]) != Reaction::Ignore
        }),
    decreases events.len() - from,
{
    if from < events.len() && daemon::reaction(config, events[from]) == Reaction::Ignore {
        lemma_first_due(config, events, from + 1);
    }
}

pub proof fn lemma_resumed(w: Watch)
    requires
        w.taken <= w.events@.len(),
    ensures
        w.resumed().wf(),
        w.resumed().config == w.config,
        w.resumed().events == w.events,
        w.taken <= w.resumed().taken,
        !(w.resumed().phase is Fetch),
        w.resumed().phase is Rest || w.taken < w.resumed().taken,
        ahead(w.resumed()) == stages(w.config, w.events@, w.taken as int),
        notices_ahead(w.resumed()) == due(w.config, w.events@, w.taken as int),
{
    assert(w.events.len() == w.events@.len());
    lemma_first_due(w.config, w.events@, w.taken as int);
}

/// One step of the loop while events are dealt with: a write takes its stage
/// off what is ahead, a notice takes nothing; no other step writes. The loop
/// comes closer to its rest.
pub proof fn law_step_writes_what_is_ahead(w: Watch, event: WatchEvent)
    requires
        w.wf(),
        belongs(w.phase, event),
    ensures
        w.moved(event).wf(),
        w.moved(event).config == w.config,
        w.moved(event).node_path == w.node_path,
        w.phase matches WatchPhase::Write(stage) ==> ahead(w) == seq![stage] + ahead(
            w.moved(event),
        ),
        w.phase is Tell ==> ahead(w) == ahead(w.moved(event)),
        w.phase is Fetch ==> (match event {
            WatchEvent::Fetched(events) => ahead(w.moved(event)) == stages(w.config, events@, 0),
            _ => ahead(w.moved(event)) == Seq::<u8>::empty(),
        }),
        w.phase is Rest ==> w.moved(event).phase is Fetch && ahead(w.moved(event)) == Seq::<
            u8,
        >::empty(),
        w.phase is Write || w.phase is Tell ==> steps_ahead(w.moved(event)) < steps_ahead(w),
{
    match (w.phase, event) {
        (WatchPhase::Fetch, WatchEvent::Fetched(events)) => {
            lemma_resumed(Watch { events, taken: 0, ..w });
        },
        _ => {
            lemma_resumed(w);
        },
    }
}

/// A bound on the steps before the loop rests.
pub open spec fn steps_ahead(w: Watch) -> nat {
    (2 * (w.events@.len() - w.taken) + (if w.phase is Write {
        2int
    } else if w.phase is Tell {
        1
    } else {
        0
    })) as nat
}

/// `states` is a piece of the loop, in which `outcomes[i]` leads from one
/// state to the next.
pub open spec fn is_run(states: Seq<Watch>, outcomes: Seq<WatchEvent>) -> bool {
    &&& states.len() == outcomes.len() + 1
    &&& states[0].wf()
    &&& forall|i: int|
        0 <= i < outcomes.len() ==> belongs(states[i].phase, #[trigger] outcomes[i]) && states[i
            + 1] == states[i].moved(outcomes[i])
}

/// The stages that are written in these states, in order.
pub open spec fn written(states: Seq<Watch>) -> Seq<u8>
    decreases states.len(),
{
    if states.len() == 0 {
        Seq::empty()
    } else {
        match states.last().phase {
            WatchPhase::Write(stage) => written(states.drop_last()).push(stage),
            _ => written(states.drop_last()),
        }
    }
}

/// How many notices are given in these states.
pub open spec fn told(states: Seq<Watch>) -> nat
    decreases states.len(),
{
    if states.len() == 0 {
        0
    } else {
        told(states.drop_last()) + (if states.last().phase is Tell {
            1nat
        } else {
            0nat
        })
    }
}

/// The events in `outcomes[0]` are dealt with, and the loop has not rested
/// before its last state.
pub open spec fn is_batch(states: Seq<Watch>, outcomes: Seq<WatchEvent>) -> bool {
    &&& is_run(states, outcomes)
    &&& outcomes.len() > 0
    &&& states[0].phase is Fetch
    &&& outcomes[0] is Fetched
    &&& forall|i: int|
        0 < i < outcomes.len() ==> (#[trigger] states[i]).phase is Write || states[i].phase is Tell
}

proof fn lemma_shorter_batch(states: Seq<Watch>, outcomes: Seq<WatchEvent>)
    requires
        is_batch(states, outcomes),
        outcomes.len() > 1,
    ensures
        is_batch(states.drop_last(), outcomes.drop_last()),
{
    let front = states.drop_last();
    let fewer = outcomes.drop_last();
    assert forall|i: int| 0 <= i < fewer.len() implies belongs(
        front[i].phase,
        #[trigger] fewer[i],
    ) && front[i + 1] == front[i].moved(fewer[i]) by {
        assert(fewer[i] == outcomes[i]);
    }
    assert forall|i: int| 0 < i < fewer.len() implies (#[trigger] front[i]).phase is Write
        || front[i].phase is Tell by {
        assert(front[i] == states[i]);
    }
}

/// One step that is not quiet takes one notice off what is ahead if it gives
/// one.
proof fn lemma_step_tells(w: Watch, event: WatchEvent)
    requires
        w.wf(),
        belongs(w.phase, event),
        w.phase is Write || w.phase is Tell,
        !w.config.quiet,
    ensures
        notices_ahead(w) == notices_ahead(w.moved(event)) + (if w.phase is Tell {
            1nat
        } else {
            0nat
        }),
{
    lemma_resumed(w);
}

/// What was done in the batch and what is ahead in its last state is what the
/// events call for.
spec fn adds_up(states: Seq<Watch>, events: Seq<KeyEvent>) -> bool {
    let config = states[0].config;
    let last = states.last();
    let front = states.drop_last();
    &&& last.wf()
    &&& last.config == config
    &&& written(front) + ahead(last) == stages(config, events, 0)
    &&& !config.quiet ==> told(front) + notices_ahead(last) == due(config, events, 0)
}

proof fn lemma_batch(states: Seq<Watch>, outcomes: Seq<WatchEvent>)
    requires
        is_batch(states, outcomes),
    ensures
        adds_up(states, outcomes[0]->Fetched_0@),
    decreases outcomes.len(),
{
    let front = states.drop_last();
    let n = outcomes.len() - 1;
    let events = outcomes[0]->Fetched_0;
    let w = states[n];
    let next = w.moved(outcomes[n]);
    assert(states[n + 1] == next);
    assert(states.last() == next);
    assert(front.last() == w);
    if n == 0 {
        lemma_resumed(Watch { events, taken: 0, ..w });
        assert(front.drop_last() =~= Seq::<Watch>::empty());
        assert(written(front.drop_last()) =~= Seq::<u8>::empty());
        assert(told(front.drop_last()) == 0);
        assert(written(front) + ahead(next) =~= ahead(next));
    } else {
        lemma_shorter_batch(states, outcomes);
        lemma_batch(front, outcomes.drop_last());
        assert(front[0] == states[0]);
        assert(outcomes.drop_last()[0] == outcomes[0]);
        let before = front.drop_last();
        law_step_writes_what_is_ahead(w, outcomes[n]);
        if !w.config.quiet {
            lemma_step_tells(w, outcomes[n]);
        }
        if w.phase is Write {
            assert(written(front) + ahead(next) =~= written(before) + ahead(w));
        }
    }
}

/// Every press and every release among the fetched events is written, in
/// order, whichever writes fail, and nothing else is. A loop that is not
/// quiet tells of each event that calls for something, once.
pub proof fn law_each_edge_is_written_in_order(states: Seq<Watch>, outcomes: Seq<WatchEvent>)
    requires
        is_batch(states, outcomes),
        states.last().phase is Rest,
    ensures
        ({
            let config = states[0].config;
            let events = outcomes[0]->Fetched_0@;
            &&& written(states) == stages(config, events, 0)
            &&& !config.quiet ==> told(states) == due(config, events, 0)
        }),
{
    lemma_batch(states, outcomes);
    let last = states.last();
    assert(ahead(last) =~= Seq::<u8>::empty());
    assert(written(states) =~= written(states.drop_last()) + ahead(last));
}

/// The stages that all the fetched events call for, in order.
pub open spec fn called_for(states: Seq<Watch>, outcomes: Seq<WatchEvent>) -> Seq<u8>
    decreases outcomes.len(),
{
    if outcomes.len() == 0 {
        Seq::empty()
    } else {
        let before = called_for(states.drop_last(), outcomes.drop_last());
        let w = states[outcomes.len() - 1];
        match outcomes.last() {
            WatchEvent::Fetched(events) => before + stages(w.config, events@, 0),
            _ => before,
        }
    }
}

/// However long the loop runs, and whichever reads and writes fail: what it
/// has written and what is ahead are the stages of all the events that were
/// fetched, in order, no edge left out and none written twice.
pub proof fn law_every_edge_of_a_run_is_written(states: Seq<Watch>, outcomes: Seq<WatchEvent>)
    requires
        is_run(states, outcomes),
        states[0].phase is Fetch,
    ensures
        states.last().wf(),
        states.last().config == states[0].config,
        written(states.drop_last()) + ahead(states.last()) == called_for(states, outcomes),
    decreases outcomes.len(),
{
    let front = states.drop_last();
    if outcomes.len() == 0 {
        assert(written(front) + ahead(states.last()) =~= Seq::<u8>::empty());
    } else {
        let n = outcomes.len() - 1;
        let fewer = outcomes.drop_last();
        let w = states[n];
        let next = w.moved(outcomes[n]);
        assert(states[n + 1] == next);
        assert(is_run(front, fewer)) by {
            assert forall|i: int| 0 <= i < fewer.len() implies belongs(
                front[i].phase,
                #[trigger] fewer[i],
            ) && front[i + 1] == front[i].moved(fewer[i]) by {
                assert(fewer[i] == outcomes[i]);
            }
        }
        law_every_edge_of_a_run_is_written(front, fewer);
        assert(front.last() == w);
        law_step_writes_what_is_ahead(w, outcomes[n]);
        let before = written(front.drop_last());
        if w.phase is Write {
            assert(written(front) + ahead(next) =~= before + ahead(w));
        } else if w.phase is Fetch || w.phase is Rest {
            assert(ahead(w) =~= Seq::<u8>::empty());
            assert(before + ahead(w) =~= before);
            assert(written(front) + ahead(next) =~= called_for(front, fewer) + ahead(next));
            if !(outcomes[n] is Fetched) {
                assert(called_for(front, fewer) + ahead(next) =~= called_for(front, fewer));
            }
        }
    }
}

/// The mouse's stage in the daemon's profile after this piece of the loop,
/// starting from `stage`: a report reaches the mouse if its write is done.
pub open spec fn mouse_after(stage: u8, states: Seq<Watch>, outcomes: Seq<WatchEvent>) -> u8
    decreases outcomes.len(),
{
    if outcomes.len() == 0 {
        stage
    } else {
        let before = mouse_after(stage, states.drop_last(), outcomes.drop_last());
        let w = states[outcomes.len() - 1];
        match w.phase {
            WatchPhase::Write(s) if outcomes.last() is Done => daemon::stage_with(
                w.config.profile,
                before,
                protocol::set_active_dpi(w.config.profile, s),
            ),
            _ => before,
        }
    }
}

/// Whatever was lost before, the mouse is on the stage of the last edge, if
/// the write for that edge is done.
pub proof fn law_last_edge_decides(
    stage: u8,
    states: Seq<Watch>,
    outcomes: Seq<WatchEvent>,
    k: int,
    wanted: u8,
)
    requires
        is_run(states, outcomes),
        0 <= k < outcomes.len(),
        states[k].phase == WatchPhase::Write(wanted),
        outcomes[k] is Done,
        forall|i: int| k < i < outcomes.len() ==> !((#[trigger] states[i]).phase is Write),
    ensures
        mouse_after(stage, states, outcomes) == wanted,
    decreases outcomes.len(),
{
    let n = outcomes.len() - 1;
    let front = states.drop_last();
    let fewer = outcomes.drop_last();
    if k == n {
        daemon::law_set_report_carries_profile_and_stage(states[k].config.profile, wanted);
    } else {
        assert(is_run(front, fewer)) by {
            assert forall|i: int| 0 <= i < fewer.len() implies belongs(
                front[i].phase,
                #[trigger] fewer[i],
            ) && front[i + 1] == front[i].moved(fewer[i]) by {
                assert(fewer[i] == outcomes[i]);
            }
        }
        assert forall|i: int| k < i < fewer.len() implies !((#[trigger] front[i]).phase is Write) by {
            assert(front[i] == states[i]);
        }
        law_last_edge_decides(stage, front, fewer, k, wanted);
        assert(!(states[n].phase is Write));
    }
}

/// A node that cannot be read is told of at once, and then only when the last
/// time is long enough back; either way the loop goes on.
pub proof fn law_read_failures_are_told_rarely(w: Watch, error: String, now_ns: u64)
    requires
        w.wf(),
        w.phase is Fetch,
    ensures
        ({
            let next = w.moved(WatchEvent::ReadFailed { error, now_ns });
            &&& next.phase is Tell <==> match w.warnings.last_ns {
                None => true,
                Some(last) => now_ns - last > daemon::WARN_EVERY_NS,
            }
            &&& next.phase is Tell ==> next.warnings.last_ns == Some(now_ns) && next.moved(
                WatchEvent::Done,
            ).phase is Rest
            &&& !(next.phase is Tell) ==> next.phase is Rest && next.warnings == w.warnings
        }),
{
    lemma_resumed(w);
    assert(stages(w.config, w.events@, w.taken as int) =~= Seq::<u8>::empty());
}

} // verus!
