//! Exchanges with the mouse, by the bytes of the replies.
use crate::protocol;
use crate::transport;
use crate::transport::{Action, Event, Exchange, ExchangeError, Goal, Judgement, Phase};
use vstd::prelude::*;

verus! {

/// A detection accepts a reply exactly if one of its first two bytes is 0xA1,
/// whatever the other bytes are.
pub proof fn law_detection_accepts(resp: Seq<u8>)
    ensures
        transport::judgement(Goal::Detect, resp) == Judgement::Accepted <==> resp[0] == 0xA1
            || resp[1] == 0xA1,
        transport::judgement(Goal::Detect, resp) == Judgement::Asleep <==> !(resp[0] == 0xA1
            || resp[1] == 0xA1) && (resp[0] == 0xA0 || resp[1] == 0xA0),
{
}

/// A command accepts a reply exactly if the status byte is 0xA1 and the sixth
/// byte is the command's. A reply to another command, and a status of 0xA0,
/// mean that the mouse is asleep. No other byte counts.
pub proof fn law_command_accepts(cmd: u8, resp: Seq<u8>)
    ensures
        transport::judgement(Goal::Command { cmd, hid_index: 0 }, resp) == Judgement::Accepted
            <==> resp[1] == 0xA1 && resp[5] == cmd,
        transport::judgement(Goal::Command { cmd, hid_index: 1 }, resp) == Judgement::Accepted
            <==> resp[0] == 0xA1 && resp[5] == cmd,
        transport::judgement(Goal::Command { cmd, hid_index: 0 }, resp) == Judgement::Asleep
            <==> resp[1] == 0xA0 || (resp[1] == 0xA1 && resp[5] != cmd),
        transport::judgement(Goal::Command { cmd, hid_index: 1 }, resp) == Judgement::Asleep
            <==> resp[0] == 0xA0 || (resp[0] == 0xA1 && resp[5] != cmd),
{
}

/// The reply is what stands behind the first byte of the buffer.
pub proof fn law_reply_stands_behind_the_id(buffer: Seq<u8>)
    requires
        buffer.len() == 65,
    ensures
        transport::reply_in(buffer).len() == 64,
        forall|i: int| 0 <= i < 64 ==> #[trigger] transport::reply_in(buffer)[i] == buffer[i + 1],
{
}

/// A detection ends with the first reply that has 0xA1 in one of its first two
/// bytes, if it comes within ten; if none of ten has, it fails.
pub proof fn law_detection_takes_the_first_good_reply(
    x: Exchange,
    replies: Seq<[u8; 64]>,
    k: int,
)
    requires
        x.goal == Goal::Detect,
        x.attempt == 0,
        x.phase == Phase::Write,
        0 <= k <= replies.len(),
        k <= 10,
        forall|i: int|
            0 <= i < k ==> (#[trigger] replies[i])@[0] != 0xA1 && replies[i]@[1] != 0xA1,
        k < 10 ==> k < replies.len() && (replies[k]@[0] == 0xA1 || replies[k]@[1] == 0xA1),
    ensures
        k < 10 ==> transport::after(x, replies).phase == Phase::Finished(replies[k]),
        k == 10 ==> transport::after(x, replies).phase == Phase::Failed(ExchangeError::NoResponse),
{
    let front = replies.take(k);
    assert forall|i: int| 0 <= i < front.len() implies transport::judgement(
        x.goal,
        (#[trigger] front[i])@,
    ) != Judgement::Accepted by {
        assert(front[i] == replies[i]);
    }
    if k < 10 {
        transport::law_exchange_returns_first_accepted(x, replies, k);
    } else {
        lemma_stays_failed(x, replies);
    }
}

/// A command ends with the first reply that has 0xA1 as its status and its own
/// command byte, if it comes within ten; if none of ten has, it fails.
pub proof fn law_command_takes_the_first_good_reply(
    x: Exchange,
    replies: Seq<[u8; 64]>,
    cmd: u8,
    status: int,
    k: int,
)
    requires
        status == 0 || status == 1,
        x.goal == (Goal::Command { cmd, hid_index: (1 - status) as u8 }),
        x.attempt == 0,
        x.phase == Phase::Write,
        0 <= k <= replies.len(),
        k <= 10,
        forall|i: int|
            0 <= i < k ==> !((#[trigger] replies[i])@[status] == 0xA1 && replies[i]@[5] == cmd),
        k < 10 ==> k < replies.len() && replies[k]@[status] == 0xA1 && replies[k]@[5] == cmd,
    ensures
        k < 10 ==> transport::after(x, replies).phase == Phase::Finished(replies[k]),
        k == 10 ==> transport::after(x, replies).phase == Phase::Failed(ExchangeError::NoResponse),
{
    let front = replies.take(k);
    assert forall|i: int| 0 <= i < front.len() implies transport::judgement(
        x.goal,
        (#[trigger] front[i])@,
    ) != Judgement::Accepted by {
        assert(front[i] == replies[i]);
    }
    if k < 10 {
        transport::law_exchange_returns_first_accepted(x, replies, k);
    } else {
        lemma_stays_failed(x, replies);
    }
}

proof fn lemma_stays_failed(x: Exchange, replies: Seq<[u8; 64]>)
    requires
        x.wf(),
        x.attempt == 0,
        x.phase == Phase::Write,
        replies.len() >= 10,
        transport::none_accepted(x.goal, replies.take(10)),
    ensures
        transport::after(x, replies).phase == Phase::Failed(ExchangeError::NoResponse),
    decreases replies.len(),
{
    if replies.len() == 10 {
        assert(replies.take(10) =~= replies);
        transport::law_exchange_gives_up(x, replies);
    } else {
        let front = replies.drop_last();
        assert(front.take(10) =~= replies.take(10));
        lemma_stays_failed(x, front);
    }
}

/// What an exchange does in each phase, and what follows: write, wait 30 ms,
/// read.
pub proof fn law_exchange_writes_waits_reads(x: Exchange, action: Action)
    requires
        x.acts(action),
    ensures
        x.phase is Write ==> (action matches Action::Write(f) && f@.len() == 65 && f@[0] == 0
            && f@.skip(1) == x.report@) && x.done().phase is Settle,
        x.phase is Settle ==> action == Action::Pause(30) && x.done().phase is Read,
        x.phase is Read ==> (action matches Action::Read(b) && forall|i: int|
            0 <= i < 65 ==> #[trigger] b@[i] == 0),
        x.phase is Notice ==> action == Action::NoticeAsleep && x.done().phase == Phase::Rest(500),
        x.phase matches Phase::Rest(ms) ==> action == Action::Pause(ms),
        x.phase matches Phase::Finished(r) ==> action == Action::Finish(r),
        x.phase is Failed ==> action == Action::Fail,
        x.phase is Write || x.phase is Settle || x.phase is Notice ==> x.done().attempt == x.attempt
            && x.done().report == x.report && x.done().goal == x.goal,
{
    if let Action::Write(f) = action {
        assert(f@.skip(1) =~= x.report@);
    }
}

/// After the pause comes the next attempt, ten in all.
pub proof fn law_ten_attempts(x: Exchange)
    requires
        x.wf(),
        x.phase is Rest,
    ensures
        x.attempt < 9 ==> x.done().attempt == x.attempt + 1 && x.done().phase is Write,
        x.attempt == 9 ==> x.done().phase == Phase::Failed(ExchangeError::NoResponse),
        x.attempt <= 9,
        x.done().report == x.report,
        x.done().goal == x.goal,
{
}

/// After a reply that is not accepted: a sleeping mouse is waited for, 500 ms,
/// and told of at the first attempt; after anything else a command waits 50 ms
/// and a detection not at all. The last attempt is followed by no wait of
/// 50 ms.
pub proof fn law_what_follows_a_reply(x: Exchange, resp: [u8; 64])
    requires
        x.wf(),
        x.phase is Read,
    ensures
        ({
            let judged = transport::judgement(x.goal, resp@);
            let next = x.replied(resp);
            &&& judged == Judgement::Accepted ==> next.phase == Phase::Finished(resp)
            &&& judged == Judgement::Asleep && x.attempt == 0 ==> next.phase is Notice
            &&& judged == Judgement::Asleep && x.attempt > 0 ==> next.phase == Phase::Rest(500)
            &&& judged == Judgement::Other && x.goal is Command && x.attempt < 9 ==> next.phase
                == Phase::Rest(50)
            &&& judged == Judgement::Other && x.goal is Command && x.attempt == 9 ==> next.phase
                == Phase::Failed(ExchangeError::NoResponse)
            &&& judged == Judgement::Other && x.goal is Detect && x.attempt < 9 ==> next.phase
                is Write && next.attempt == x.attempt + 1
            &&& judged == Judgement::Other && x.goal is Detect && x.attempt == 9 ==> next.phase
                == Phase::Failed(ExchangeError::NoResponse)
            &&& !(next.phase is Write) ==> next.attempt == x.attempt
            &&& next.report == x.report
            &&& next.goal == x.goal
        }),
{
}

/// Only a write and a read can fail, and then the exchange ends with the
/// device's own error; an event out of place changes nothing.
pub proof fn law_device_errors_end_an_exchange(x: Exchange, error: String, next: Exchange)
    requires
        x.moves(Event::Failed(error), next),
    ensures
        x.phase is Write || x.phase is Read ==> next.phase == Phase::Failed(
            ExchangeError::Io(error),
        ),
        !(x.phase is Write || x.phase is Read) ==> next == x,
        ExchangeError::Io(error).spec_text() == error@,
        ExchangeError::NoResponse.spec_text()
            == "no response from mouse (is it asleep or out of range?)"@,
{
}

/// The detection asks for the firmware, the other question for the profile.
pub proof fn law_questions(x: Exchange)
    requires
        x.report@ == protocol::report(seq![0x02u8, 0x10u8, 0x00u8, 0x81u8]) || x.report@
            == protocol::report(seq![0x02u8, 0x01u8, 0x00u8, 0x85u8]),
    ensures
        x.report@.len() == 64,
        x.report@[0] == 0 && x.report@[1] == 0 && x.report@[2] == 2 && x.report@[4] == 0,
        (x.report@[3] == 0x10 && x.report@[5] == 0x81) || (x.report@[3] == 0x01 && x.report@[5]
            == 0x85),
        forall|i: int| 6 <= i < 64 ==> #[trigger] x.report@[i] == 0,
{
}

/// What is out of place changes nothing: a reply that was not asked for, or a
/// read that brings none.
pub proof fn law_events_out_of_place(x: Exchange, buffer: [u8; 65], next: Exchange)
    ensures
        !(x.phase is Read) && x.moves(Event::Reply(buffer), next) ==> next == x,
        x.phase is Read && x.moves(Event::Done, next) ==> next == x,
        (x.phase is Finished || x.phase is Failed) && x.moves(Event::Done, next) ==> next == x,
        x.is_over() <==> x.phase is Finished || x.phase is Failed,
{
}

/// A read brings the exchange to where its reply leads.
pub proof fn law_read_brings_the_reply(x: Exchange, buffer: [u8; 65], next: Exchange)
    requires
        x.phase is Read,
        x.moves(Event::Reply(buffer), next),
    ensures
        next.phase matches Phase::Finished(resp) ==> forall|i: int|
            0 <= i < 64 ==> #[trigger] resp@[i] == buffer@[i + 1],
        x.goal is Detect ==> (next.phase is Finished <==> buffer@[1] == 0xA1 || buffer@[2] == 0xA1),
        x.goal matches Goal::Command { cmd, hid_index } ==> (hid_index == 0 ==> (next.phase
            is Finished <==> buffer@[2] == 0xA1 && buffer@[6] == cmd)),
        x.goal matches Goal::Command { cmd, hid_index } ==> (hid_index == 1 ==> (next.phase
            is Finished <==> buffer@[1] == 0xA1 && buffer@[6] == cmd)),
{
    law_reply_stands_behind_the_id(buffer@);
}

} // verus!
