//! What the short buffer test does, told by its actions and the replies to them.
use vstd::prelude::*;

use crate::device::{Action, Message, Reply};
use crate::machine::{answered, driven, last_action, outstanding, performed, run, Machine};
use crate::params::{BAUD_RATE, LATE_REPORT_MS, TEST_TIME_US};
use crate::user_short_buf_test::{held_bytes, SHORT_BUF_BYTES, ShortBufPhase, UserShortBufTest};

verus! {

/// The bytes that an end holds, the next one to send last: it starts with the numbers below
/// `SHORT_BUF_BYTES` if its line is even and with nothing otherwise, puts each byte that it
/// receives on top, and takes each byte that it sends from there.
pub open spec fn stacked(uart_irqn: u16, replies: Seq<Reply>) -> Seq<u8>
    decreases replies.len(),
{
    if replies.len() == 0 {
        if uart_irqn % 2 == 0 {
            Seq::new(SHORT_BUF_BYTES as nat, |i: int| i as u8)
        } else {
            Seq::empty()
        }
    } else {
        match replies.last() {
            Reply::Read(Some(byte)) => stacked(uart_irqn, replies.drop_last()).push(byte),
            Reply::Wrote(_) => stacked(uart_irqn, replies.drop_last()).drop_last(),
            _ => stacked(uart_irqn, replies.drop_last()),
        }
    }
}

/// What a phase tells of the replies to the set-up, and of the timer.
spec fn setup_history(uart_irqn: u16, replies: Seq<Reply>) -> bool {
    let start = UserShortBufTest::initial(uart_irqn);
    let now = run::<UserShortBufTest>(start, replies);
    let n = replies.len();
    let before = last_action::<UserShortBufTest>(start, replies);
    &&& now.uart_irqn == uart_irqn
    &&& match now.phase {
        ShortBufPhase::Claim => n == 0,
        ShortBufPhase::Open { claim } => n == 1 && replies[0] == Reply::Word(claim),
        ShortBufPhase::InitHardware { claim } => n == 2 && replies[0] == Reply::Word(claim),
        ShortBufPhase::Announce { claim } => n == 3 && replies[0] == Reply::Word(claim),
        ShortBufPhase::ReadTime => n == 4,
        ShortBufPhase::Arm { deadline } => n == 5 && replies[4] is Word && deadline
            == replies[4]->Word_0 * 1000 + TEST_TIME_US,
        ShortBufPhase::CheckTimeout => n >= 6,
        ShortBufPhase::WriteLineErrors => n > 6 && before is TryWrite,
        ShortBufPhase::ReadLineErrors => n > 6 && before is TryRead,
        _ => n > 6,
    }
    &&& answered::<UserShortBufTest>(start, replies, Action::LoadTimeout, Reply::Flag(true))
        == match now.phase {
        ShortBufPhase::Wait | ShortBufPhase::CountBytes | ShortBufPhase::Done => 1nat,
        _ => 0nat,
    }
}

proof fn lemma_setup_history(uart_irqn: u16, replies: Seq<Reply>)
    requires
        driven::<UserShortBufTest>(UserShortBufTest::initial(uart_irqn), replies),
    ensures
        setup_history(uart_irqn, replies),
    decreases replies.len(),
{
    if replies.len() > 0 {
        lemma_setup_history(uart_irqn, replies.drop_last());
    }
}

/// What the test holds.
spec fn stack_history(uart_irqn: u16, replies: Seq<Reply>) -> bool {
    let start = UserShortBufTest::initial(uart_irqn);
    let now = run::<UserShortBufTest>(start, replies);
    held_bytes(now) == stacked(uart_irqn, replies)
}

proof fn lemma_stack_history(uart_irqn: u16, replies: Seq<Reply>)
    requires
        driven::<UserShortBufTest>(UserShortBufTest::initial(uart_irqn), replies),
    ensures
        stack_history(uart_irqn, replies),
    decreases replies.len(),
{
    let start = UserShortBufTest::initial(uart_irqn);
    if replies.len() == 0 {
        assert(held_bytes(start) =~= stacked(uart_irqn, replies));
    } else {
        lemma_stack_history(uart_irqn, replies.drop_last());
        let before = run::<UserShortBufTest>(start, replies.drop_last());
        let now = run::<UserShortBufTest>(start, replies);
        if let ShortBufPhase::Write { byte } = before.phase {
            assert(before.buf.push(byte).drop_last() =~= before.buf);
        }
        if now.phase is Write {
            assert(before.buf.drop_last().push(before.buf.last()) =~= before.buf);
        }
    }
}

/// All of these together.
spec fn history(uart_irqn: u16, replies: Seq<Reply>) -> bool {
    &&& setup_history(uart_irqn, replies)
    &&& stack_history(uart_irqn, replies)
}

proof fn lemma_history(uart_irqn: u16, replies: Seq<Reply>)
    requires
        driven::<UserShortBufTest>(UserShortBufTest::initial(uart_irqn), replies),
    ensures
        history(uart_irqn, replies),
{
    lemma_setup_history(uart_irqn, replies);
    lemma_stack_history(uart_irqn, replies);
}

/// The test begins by claiming the interrupt line that it was created for, opening and programming
/// the port behind it, announcing itself with the result of the claim, and arming the timer; then
/// it looks at the timer for the first time.
pub proof fn law_short_buf_test_sets_up_its_port(uart_irqn: u16, replies: Seq<Reply>)
    requires
        driven::<UserShortBufTest>(UserShortBufTest::initial(uart_irqn), replies),
        replies.len() <= 6,
    ensures
        ({
            let start = UserShortBufTest::initial(uart_irqn);
            outstanding::<UserShortBufTest>(start, replies) == Some(
                seq![
                    Action::ClaimExtInt(uart_irqn as usize),
                    Action::OpenSerial(uart_irqn),
                    Action::HardwareInit(BAUD_RATE),
                    Action::Print(Message::RawPollingStart { claim: replies[0]->Word_0 }),
                    Action::GetTime,
                    Action::SetTimer((replies[4]->Word_0 * 1000 + TEST_TIME_US) as isize),
                    Action::LoadTimeout,
                ][replies.len() as int],
            )
        }),
{
    lemma_history(uart_irqn, replies);
    if replies.len() > 0 {
        lemma_history(uart_irqn, replies.drop_last());
    }
}

/// Every line that the test claims or opens is the interrupt line that it was created for, and once
/// it looks at the timer or touches a byte or a signal of the port it has claimed and opened that
/// line exactly once.
pub proof fn law_short_buf_test_uses_its_own_line_only(uart_irqn: u16, replies: Seq<Reply>)
    requires
        driven::<UserShortBufTest>(UserShortBufTest::initial(uart_irqn), replies),
    ensures
        ({
            let start = UserShortBufTest::initial(uart_irqn);
            let then = outstanding::<UserShortBufTest>(start, replies);
            let claimed = performed::<UserShortBufTest>(
                start,
                replies,
                Action::ClaimExtInt(uart_irqn as usize),
            );
            let opened = performed::<UserShortBufTest>(
                start,
                replies,
                Action::OpenSerial(uart_irqn),
            );
            &&& match then {
                Some(Action::ClaimExtInt(line)) => line == uart_irqn,
                Some(Action::OpenSerial(line)) => line == uart_irqn,
                Some(Action::EnableExtInt(_)) => false,
                Some(Action::LoadTimeout) | Some(Action::TryWrite(_)) | Some(Action::TryRead)
                | Some(Action::SetRts(_)) => claimed == 1 && opened == 1,
                _ => true,
            }
            &&& claimed <= 1 && opened <= 1
        }),
{
    lemma_history(uart_irqn, replies);
    lemma_lines(uart_irqn, replies);
}

/// Each of the line actions is performed once, early in the set-up.
proof fn lemma_lines(uart_irqn: u16, replies: Seq<Reply>)
    requires
        driven::<UserShortBufTest>(UserShortBufTest::initial(uart_irqn), replies),
    ensures
        ({
            let start = UserShortBufTest::initial(uart_irqn);
            let n = replies.len();
            &&& performed::<UserShortBufTest>(
                start,
                replies,
                Action::ClaimExtInt(uart_irqn as usize),
            ) == if n == 0 {
                0nat
            } else {
                1nat
            }
            &&& performed::<UserShortBufTest>(start, replies, Action::OpenSerial(uart_irqn)) == if n
                <= 1 {
                0nat
            } else {
                1nat
            }
        }),
    decreases replies.len(),
{
    if replies.len() > 0 {
        lemma_lines(uart_irqn, replies.drop_last());
        lemma_history(uart_irqn, replies.drop_last());
        lemma_history(uart_irqn, replies);
    }
}

/// In every round the test sends the byte on top of those that it holds until it holds none, and
/// then reads until the port has no byte left, with a look at the line errors after each byte in
/// both directions; then it looks at the timer again.
pub proof fn law_short_buf_test_order_of_a_round(uart_irqn: u16, replies: Seq<Reply>)
    requires
        driven::<UserShortBufTest>(UserShortBufTest::initial(uart_irqn), replies),
        replies.len() > 0,
    ensures
        ({
            let start = UserShortBufTest::initial(uart_irqn);
            let then = outstanding::<UserShortBufTest>(start, replies);
            let reply = replies.last();
            let held = stacked(uart_irqn, replies);
            let send = if held.len() == 0 {
                Some(Action::TryRead)
            } else {
                Some(Action::TryWrite(held.last()))
            };
            match last_action::<UserShortBufTest>(start, replies) {
                Action::LoadTimeout => reply == Reply::Flag(false) ==> then == send,
                Action::TryWrite(_) => then == Some(Action::HandleLineErrors),
                Action::HandleLineErrors => then == if last_action::<UserShortBufTest>(
                    start,
                    replies.drop_last(),
                ) is TryWrite {
                    send
                } else {
                    Some(Action::TryRead)
                },
                Action::TryRead => then == if reply is Read && reply->Read_0 is Some {
                    Some(Action::HandleLineErrors)
                } else {
                    Some(Action::LoadTimeout)
                },
                _ => true,
            }
        }),
{
    lemma_history(uart_irqn, replies.drop_last());
    lemma_history(uart_irqn, replies);
}

/// The test goes on until it has seen that the timer fired, and only until then. It then waits if
/// it is the end that reports late, and asks the driver for its byte counts. Its result is what the
/// driver answered, received bytes first.
pub proof fn law_short_buf_test_reports_and_returns(uart_irqn: u16, replies: Seq<Reply>)
    requires
        driven::<UserShortBufTest>(UserShortBufTest::initial(uart_irqn), replies),
        replies.len() > 0,
    ensures
        ({
            let start = UserShortBufTest::initial(uart_irqn);
            let then = outstanding::<UserShortBufTest>(start, replies);
            let now = run::<UserShortBufTest>(start, replies);
            let fired = answered::<UserShortBufTest>(
                start,
                replies,
                Action::LoadTimeout,
                Reply::Flag(true),
            );
            let late = uart_irqn == 14 || uart_irqn == 6;
            &&& match last_action::<UserShortBufTest>(start, replies) {
                Action::LoadTimeout => fired == 1 ==> then == if late {
                    Some(Action::Sleep(LATE_REPORT_MS))
                } else {
                    Some(Action::ByteCounts)
                },
                Action::Sleep(_) => then == Some(Action::ByteCounts),
                Action::ByteCounts => then is None,
                _ => then is Some,
            }
            &&& then is None || then == Some(Action::ByteCounts) || then == Some(
                Action::Sleep(LATE_REPORT_MS),
            ) <==> fired == 1
            &&& then is None ==> {
                &&& last_action::<UserShortBufTest>(start, replies) == Action::ByteCounts
                &&& replies.last() == (Reply::Bytes { rx: now.rx_count, tx: now.tx_count })
            }
        }),
{
    lemma_history(uart_irqn, replies);
    if replies.len() > 0 {
        lemma_history(uart_irqn, replies.drop_last());
    }
}

/// The test can take every answer of the right shape, except a time of which its end cannot be
/// represented and a byte that the port does not take.
pub proof fn law_short_buf_test_admits_what_it_can_deal_with(
    uart_irqn: u16,
    replies: Seq<Reply>,
    reply: Reply,
)
    requires
        driven::<UserShortBufTest>(UserShortBufTest::initial(uart_irqn), replies),
    ensures
        ({
            let start = UserShortBufTest::initial(uart_irqn);
            let now = run::<UserShortBufTest>(start, replies);
            let action = UserShortBufTest::action_of(now);
            !UserShortBufTest::finished(now) ==> (UserShortBufTest::accepts(now, reply) <==> {
                &&& reply.kind() == action.wants()
                &&& action is GetTime ==> isize::MIN <= reply->Word_0 * 1000 && reply->Word_0 * 1000
                    + TEST_TIME_US <= isize::MAX
                &&& action is TryWrite ==> reply->Wrote_0 is Written
            })
        }),
{
    lemma_history(uart_irqn, replies);
    if replies.len() > 0 {
        lemma_history(uart_irqn, replies.drop_last());
    }
}

} // verus!
