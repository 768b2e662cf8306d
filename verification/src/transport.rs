//! The transport to the mouse: which byte of a reply holds its status, and
//! the exchanges of one report for one reply, as machines that say what to do
//! next and are told how it went.
use crate::protocol;
use crate::protocol::{
    ASLEEP_MS, FRAME_SIZE, MAX_RETRIES, REPORT_ID, REPORT_SIZE, RESPONSE_OK, RESPONSE_SLEEPING,
    RETRY_MS, SETTLE_MS,
};
use vstd::prelude::*;

verus! {

/// What an exchange waits for.
#[derive(Clone, Copy, Debug, PartialEq, Eq, Structural)]
pub enum Goal {
    /// Any reply that shows where this firmware puts its status byte.
    Detect,
    /// The reply to the command with this command byte, from firmware with
    /// this `hid_index`.
    Command { cmd: u8, hid_index: u8 },
}

/// What a reply means to an exchange.
#[derive(Clone, Copy, Debug, PartialEq, Eq, Structural)]
pub enum Judgement {
    /// It is the reply that was waited for.
    Accepted,
    /// The mouse sleeps, or answers an earlier command.
    Asleep,
    /// Neither.
    Other,
}

/// How an exchange fails.
#[derive(Debug)]
pub enum ExchangeError {
    /// The device could not be written or read.
    Io(String),
    /// No reply was accepted.
    NoResponse,
}

/// What is to be done next.
#[derive(Debug)]
pub enum Action {
    /// Write this feature report.
    Write([u8; FRAME_SIZE]),
    /// Do nothing for this many milliseconds.
    Pause(u64),
    /// Read a feature report into this buffer.
    Read([u8; FRAME_SIZE]),
    /// Tell the user that the mouse is asleep.
    NoticeAsleep,
    /// Stop: this is the reply.
    Finish([u8; REPORT_SIZE]),
    /// Stop: there is no reply.
    Fail,
}

/// How the action went.
#[derive(Debug)]
pub enum Event {
    /// The write, the pause or the notice is done.
    Done,
    /// The read filled the buffer.
    Reply([u8; FRAME_SIZE]),
    /// The write or the read failed.
    Failed(String),
}

/// Where an exchange stands.
#[derive(Debug)]
pub enum Phase {
    Write,
    Settle,
    Read,
    Notice,
    Rest(u64),
    Finished([u8; REPORT_SIZE]),
    Failed(ExchangeError),
}

/// One report on its way to a reply.
#[derive(Debug)]
pub struct Exchange {
    pub goal: Goal,
    pub report: [u8; REPORT_SIZE],
    /// How many replies were not accepted so far.
    pub attempt: u8,
    pub phase: Phase,
}

// ---------------------------------------------------------------- replies
/// What a reply means. A detection takes any reply with a good status in
/// either place; a command takes the reply with a good status and the
/// command's own byte.
pub open spec fn judgement(goal: Goal, resp: Seq<u8>) -> Judgement {
    match goal {
        Goal::Detect => if resp[0] == RESPONSE_OK || resp[1] == RESPONSE_OK {
            Judgement::Accepted
        } else if resp[0] == RESPONSE_SLEEPING || resp[1] == RESPONSE_SLEEPING {
            Judgement::Asleep
        } else {
            Judgement::Other
        },
        Goal::Command { cmd, hid_index } => {
            let status = resp[1 - hid_index];
            if status == RESPONSE_OK && resp[5] == cmd {
                Judgement::Accepted
            } else if status == RESPONSE_SLEEPING || status == RESPONSE_OK {
                Judgement::Asleep
            } else {
                Judgement::Other
            }
        },
    }
}

impl Goal {
    /// The status byte stands in one of the first two places.
    pub open spec fn wf(self) -> bool {
        self matches Goal::Command { cmd, hid_index } ==> hid_index <= 1
    }

    /// Judges a reply.
    pub fn judge(&self, resp: &[u8; REPORT_SIZE]) -> (r: Judgement)
        requires
            self.wf(),
        ensures
            r == judgement(*self, resp@),
    {
        match *self {
            Goal::Detect => {
                if resp[0] == RESPONSE_OK || resp[1] == RESPONSE_OK {
                    Judgement::Accepted
                } else if resp[0] == RESPONSE_SLEEPING || resp[1] == RESPONSE_SLEEPING {
                    Judgement::Asleep
                } else {
                    Judgement::Other
                }
            },
            Goal::Command { cmd, hid_index } => {
                let status = resp[(1 - hid_index) as usize];
                if status == RESPONSE_OK && resp[5] == cmd {
                    Judgement::Accepted
                } else if status == RESPONSE_SLEEPING || status == RESPONSE_OK {
                    Judgement::Asleep
                } else {
                    Judgement::Other
                }
            },
        }
    }
}

/// The reply in a buffer: what stands behind the report id.
pub open spec fn reply_in(buffer: Seq<u8>) -> Seq<u8> {
    buffer.skip(1)
}

fn reply_of(buffer: &[u8; FRAME_SIZE]) -> (r: [u8; REPORT_SIZE])
    ensures
        r@ == reply_in(buffer@),
{
    let mut resp: [u8; REPORT_SIZE] = [0u8; 64];
    for i in 0..64usize
        invariant
            buffer@.len() == 65,
            resp@.len() == 64,
            forall|j: int| 0 <= j < i ==> resp@[j] == buffer@[j + 1],
    {
        resp[i] = buffer[i + 1];
    }
    assert(resp@ =~= reply_in(buffer@));
    resp
}

// ---------------------------------------------------------------- exchanges
/// The pause before the next attempt, after a reply that was not accepted.
/// `None`: go on at once.
pub open spec fn rest_after(goal: Goal, judged: Judgement, attempt: u8) -> Option<u64> {
    if judged == Judgement::Asleep {
        Some(ASLEEP_MS)
    } else if goal is Command && attempt < MAX_RETRIES - 1 {
        Some(RETRY_MS)
    } else {
        None
    }
}

impl Exchange {
    /// Attempts are counted from 0 and there are `MAX_RETRIES` of them.
    pub open spec fn wf(self) -> bool {
        self.goal.wf() && self.attempt < MAX_RETRIES
    }

    pub open spec fn at(self, attempt: u8, phase: Phase) -> Exchange {
        Exchange { attempt, phase, ..self }
    }

    /// The next attempt, or the end where this was the last.
    pub open spec fn again(self) -> Exchange {
        if self.attempt + 1 < MAX_RETRIES {
            self.at((self.attempt + 1) as u8, Phase::Write)
        } else {
            self.at(self.attempt, Phase::Failed(ExchangeError::NoResponse))
        }
    }

    /// After a reply, `resp` being its 64 bytes: the user is told once, at the
    /// first attempt, that the mouse sleeps.
    pub open spec fn replied(self, resp: [u8; REPORT_SIZE]) -> Exchange {
        let judged = judgement(self.goal, resp@);
        if judged == Judgement::Accepted {
            self.at(self.attempt, Phase::Finished(resp))
        } else if judged == Judgement::Asleep && self.attempt == 0 {
            self.at(self.attempt, Phase::Notice)
        } else {
            match rest_after(self.goal, judged, self.attempt) {
                Some(ms) => self.at(self.attempt, Phase::Rest(ms)),
                None => self.again(),
            }
        }
    }

    /// After a write, a pause or a notice.
    pub open spec fn done(self) -> Exchange {
        match self.phase {
            Phase::Write => self.at(self.attempt, Phase::Settle),
            Phase::Settle => self.at(self.attempt, Phase::Read),
            Phase::Notice => self.at(self.attempt, Phase::Rest(ASLEEP_MS)),
            Phase::Rest(_) => self.again(),
            _ => self,
        }
    }

    pub open spec fn is_over(self) -> bool {
        self.phase is Finished || self.phase is Failed
    }

    /// `next` is where the exchange stands after `event`. An event that does
    /// not belong to the phase changes nothing.
    pub open spec fn moves(self, event: Event, next: Exchange) -> bool {
        match (self.phase, event) {
            (_, Event::Done) => next == self.done(),
            (Phase::Read, Event::Reply(buffer)) => exists|resp: [u8; REPORT_SIZE]|
                resp@ == reply_in(buffer@) && next == #[trigger] self.replied(resp),
            (Phase::Write, Event::Failed(error)) => next == self.at(
                self.attempt,
                Phase::Failed(ExchangeError::Io(error)),
            ),
            (Phase::Read, Event::Failed(error)) => next == self.at(
                self.attempt,
                Phase::Failed(ExchangeError::Io(error)),
            ),
            _ => next == self,
        }
    }

    /// `action` is what the phase calls for. A read starts from a buffer of
    /// zeros with the report id in front.
    pub open spec fn acts(self, action: Action) -> bool {
        match self.phase {
            Phase::Write => action matches Action::Write(f) && f@ == protocol::framed(self.report@),
            Phase::Settle => action == Action::Pause(SETTLE_MS),
            Phase::Read => action matches Action::Read(b) && b@ == protocol::framed(
                Seq::new(REPORT_SIZE as nat, |i: int| 0u8),
            ),
            Phase::Notice => action == Action::NoticeAsleep,
            Phase::Rest(ms) => action == Action::Pause(ms),
            Phase::Finished(resp) => action == Action::Finish(resp),
            Phase::Failed(_) => action == Action::Fail,
        }
    }

    fn start(goal: Goal, report: &[u8; REPORT_SIZE]) -> (r: Exchange)
        requires
            goal.wf(),
        ensures
            r == (Exchange { goal, report: *report, attempt: 0, phase: Phase::Write }),
            r.wf(),
    {
        Exchange { goal, report: *report, attempt: 0, phase: Phase::Write }
    }

    /// What to do now.
    pub fn action(&self) -> (r: Action)
        ensures
            self.acts(r),
    {
        match &self.phase {
            Phase::Write => Action::Write(protocol::frame(&self.report)),
            Phase::Settle => Action::Pause(SETTLE_MS),
            Phase::Read => {
                let mut buffer: [u8; FRAME_SIZE] = [0u8; 65];
                buffer[0] = REPORT_ID;
                assert(buffer@ =~= protocol::framed(Seq::new(REPORT_SIZE as nat, |i: int| 0u8)));
                Action::Read(buffer)
            },
            Phase::Notice => Action::NoticeAsleep,
            Phase::Rest(ms) => Action::Pause(*ms),
            Phase::Finished(resp) => Action::Finish(*resp),
            Phase::Failed(_) => Action::Fail,
        }
    }

    fn try_again(&mut self)
        requires
            old(self).wf(),
        ensures
            *final(self) == old(self).again(),
            final(self).wf(),
    {
        if self.attempt + 1 < MAX_RETRIES {
            self.attempt = self.attempt + 1;
            self.phase = Phase::Write;
        } else {
            self.phase = Phase::Failed(ExchangeError::NoResponse);
        }
    }

    fn take_reply(&mut self, resp: [u8; REPORT_SIZE])
        requires
            old(self).wf(),
        ensures
            *final(self) == old(self).replied(resp),
            final(self).wf(),
    {
        match self.goal.judge(&resp) {
            Judgement::Accepted => {
                self.phase = Phase::Finished(resp);
            },
            Judgement::Asleep => {
                if self.attempt == 0 {
                    self.phase = Phase::Notice;
                } else {
                    self.phase = Phase::Rest(ASLEEP_MS);
                }
            },
            Judgement::Other => {
                let waits = match self.goal {
                    Goal::Detect => false,
                    Goal::Command { .. } => self.attempt < MAX_RETRIES - 1,
                };
                if waits {
                    self.phase = Phase::Rest(RETRY_MS);
                } else {
                    self.try_again();
                }
            },
        }
    }

    /// Takes in how the action went.
    pub fn advance(&mut self, event: Event)
        requires
            old(self).wf(),
        ensures
            old(self).moves(event, *final(self)),
            final(self).wf(),
    {
        match event {
            Event::Done => {
                match self.phase {
                    Phase::Write => {
                        self.phase = Phase::Settle;
                    },
                    Phase::Settle => {
                        self.phase = Phase::Read;
                    },
                    Phase::Notice => {
                        self.phase = Phase::Rest(ASLEEP_MS);
                    },
                    Phase::Rest(_) => {
                        self.try_again();
                    },
                    _ => {},
                }
            },
            Event::Reply(buffer) => {
                match self.phase {
                    Phase::Read => {
                        let resp = reply_of(&buffer);
                        self.take_reply(resp);
                    },
                    _ => {},
                }
            },
            Event::Failed(error) => {
                match self.phase {
                    Phase::Write | Phase::Read => {
                        self.phase = Phase::Failed(ExchangeError::Io(error));
                    },
                    _ => {},
                }
            },
        }
    }
}

impl ExchangeError {
    pub open spec fn spec_text(self) -> Seq<char> {
        match self {
            ExchangeError::Io(error) => error@,
            ExchangeError::NoResponse => "no response from mouse (is it asleep or out of range?)"@,
        }
    }

    pub fn message(&self) -> (r: String)
        ensures
            r@ == self.spec_text(),
    {
        match self {
            ExchangeError::Io(error) => error.clone(),
            ExchangeError::NoResponse => "no response from mouse (is it asleep or out of range?)".to_owned(),
        }
    }
}

/// What the user is told when the mouse sleeps.
pub fn asleep_notice() -> (r: &'static str)
    ensures
        r@ == "    mouse is asleep, waiting for it to wake up (wiggle it if needed)..."@,
{
    "    mouse is asleep, waiting for it to wake up (wiggle it if needed)..."
}

// ---------------------------------------------------------------- transport
/// How to talk to one mouse.
#[derive(Clone, Copy, Debug, PartialEq, Eq, Structural)]
pub struct HidTransport {
    /// 1 where replies hold their status in the first byte, 0 where in the
    /// second.
    pub hid_index: u8,
}

impl HidTransport {
    pub open spec fn wf(self) -> bool {
        self.hid_index <= 1
    }

    pub fn new() -> (r: HidTransport)
        ensures
            r.hid_index == 0,
            r.wf(),
    {
        HidTransport { hid_index: 0 }
    }

    /// Slow path: write a report, wait, read the response, again while the
    /// mouse answers "sleeping". Startup-only by design — the button path uses
    /// `send_only`.
    pub fn send_and_recv(&self, data: &[u8; REPORT_SIZE]) -> (r: Exchange)
        requires
            self.wf(),
        ensures
            r == (Exchange {
                goal: Goal::Command { cmd: data@[5], hid_index: self.hid_index },
                report: *data,
                attempt: 0,
                phase: Phase::Write,
            }),
            r.wf(),
    {
        Exchange::start(Goal::Command { cmd: data[5], hid_index: self.hid_index }, data)
    }

    /// Fast path: the feature report to write, with nothing to read. This is
    /// what the button hold/release edges use — fire-and-forget, stateless and
    /// idempotent (the next edge re-sends a stage set, so a dropped write
    /// self-heals).
    pub fn send_only(&self, data: &[u8; REPORT_SIZE]) -> (r: [u8; FRAME_SIZE])
        ensures
            r@ == protocol::framed(data@),
    {
        protocol::frame(data)
    }

    /// Wired vs dongle firmware replies at different offsets; detect once. The
    /// reply that the exchange ends with goes to `use_detected`.
    pub fn detect_hid_index(&self) -> (r: Exchange)
        ensures
            r.goal == Goal::Detect,
            r.report@ == protocol::report(seq![0x02u8, 0x10u8, 0x00u8, 0x81u8]),
            r.attempt == 0,
            r.phase == Phase::Write,
            r.wf(),
    {
        Exchange::start(Goal::Detect, &protocol::build_get_firmware(0x02))
    }

    /// Takes over where an accepted reply has its status.
    pub fn use_detected(&mut self, resp: &[u8; REPORT_SIZE])
        ensures
            final(self).hid_index == (if resp@[0] == RESPONSE_OK {
                1u8
            } else {
                0u8
            }),
            final(self).wf(),
    {
        if resp[0] == RESPONSE_OK {
            self.hid_index = 1;
        } else {
            self.hid_index = 0;
        }
    }
}

// ---------------------------------------------------------------- laws
/// How many actions other than reading lie ahead before the next read or the
/// end.
pub open spec fn steps_to_read(phase: Phase) -> nat {
    match phase {
        Phase::Notice => 4,
        Phase::Rest(_) => 3,
        Phase::Write => 2,
        Phase::Settle => 1,
        _ => 0,
    }
}

/// The exchange when it next reads, or its end, if every write succeeds.
pub open spec fn resumed(x: Exchange) -> Exchange
    decreases steps_to_read(x.phase),
{
    if steps_to_read(x.phase) == 0 {
        x
    } else {
        resumed(x.done())
    }
}

/// The exchange after these replies, if every write and every read succeeds.
pub open spec fn after(x: Exchange, replies: Seq<[u8; REPORT_SIZE]>) -> Exchange
    decreases replies.len(),
{
    if replies.len() == 0 {
        resumed(x)
    } else {
        let before = after(x, replies.drop_last());
        if before.phase is Read {
            resumed(before.replied(replies.last()))
        } else {
            before
        }
    }
}

/// None of these replies is accepted.
pub open spec fn none_accepted(goal: Goal, replies: Seq<[u8; REPORT_SIZE]>) -> bool {
    forall|i: int|
        0 <= i < replies.len() ==> judgement(goal, (#[trigger] replies[i])@) != Judgement::Accepted
}

/// While no reply is accepted the exchange reads again, one attempt per reply,
/// until all its attempts are used; then it has failed.
pub proof fn law_exchange_gives_up(x: Exchange, replies: Seq<[u8; REPORT_SIZE]>)
    requires
        x.wf(),
        x.attempt == 0,
        x.phase == Phase::Write,
        none_accepted(x.goal, replies),
    ensures
        replies.len() < MAX_RETRIES ==> after(x, replies) == x.at(
            replies.len() as u8,
            Phase::Read,
        ),
        replies.len() >= MAX_RETRIES ==> after(x, replies) == x.at(
            (MAX_RETRIES - 1) as u8,
            Phase::Failed(ExchangeError::NoResponse),
        ),
    decreases replies.len(),
{
    reveal_with_fuel(resumed, 5);
    if replies.len() > 0 {
        let front = replies.drop_last();
        assert(none_accepted(x.goal, front)) by {
            assert forall|i: int| 0 <= i < front.len() implies judgement(
                x.goal,
                (#[trigger] front[i])@,
            ) != Judgement::Accepted by {
                assert(front[i] == replies[i]);
            }
        }
        law_exchange_gives_up(x, front);
        assert(replies.last() == replies[replies.len() - 1]);
    }
}

/// An exchange ends with the first accepted reply that comes within its
/// attempts, whatever comes before it and whatever comes after.
pub proof fn law_exchange_returns_first_accepted(
    x: Exchange,
    replies: Seq<[u8; REPORT_SIZE]>,
    k: int,
)
    requires
        x.wf(),
        x.attempt == 0,
        x.phase == Phase::Write,
        0 <= k < replies.len(),
        k < MAX_RETRIES,
        none_accepted(x.goal, replies.take(k)),
        judgement(x.goal, replies[k]@) == Judgement::Accepted,
    ensures
        after(x, replies) == x.at(k as u8, Phase::Finished(replies[k])),
    decreases replies.len(),
{
    let front = replies.drop_last();
    if k == replies.len() - 1 {
        assert(front =~= replies.take(k));
        law_exchange_gives_up(x, front);
        reveal_with_fuel(resumed, 5);
    } else {
        assert(front.take(k) =~= replies.take(k));
        assert(front[k] == replies[k]);
        law_exchange_returns_first_accepted(x, front, k);
    }
}

/// Where a detection reads the status is where a command on the same
/// transport reads it: the reply that was accepted for the detection is
/// accepted for its own command byte too.
pub proof fn law_detected_index_reads_status(resp: Seq<u8>, transport: HidTransport)
    requires
        judgement(Goal::Detect, resp) == Judgement::Accepted,
        transport.hid_index == (if resp[0] == RESPONSE_OK {
            1u8
        } else {
            0u8
        }),
    ensures
        resp[1 - transport.hid_index] == RESPONSE_OK,
        judgement(
            Goal::Command { cmd: resp[5], hid_index: transport.hid_index },
            resp,
        ) == Judgement::Accepted,
{
}

} // verus!
