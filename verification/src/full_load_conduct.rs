//! What the full load test does, told by its actions and the replies to them.
use vstd::prelude::*;

use crate::device::{Action, Message, Reply, TraceTag};
use crate::machine::{
    answered, driven, last_action, law_invariant_holds_throughout, outstanding, performed, run,
    written, Machine,
};
use crate::params::{BAUD_RATE, LATE_REPORT_MS, SERIAL_POLL_READ, SERIAL_POLL_WRITE, TEST_TIME_US};
use crate::user_full_load_test::{
    law_full_load_test_acknowledges_after_a_batch, law_full_load_test_counts_line_errors,
    received_since_sent, ACK_WORD, FULL_LOAD_BATCH, TX_WORD, FullLoadPhase, UserFullLoadTest,
};

verus! {

/// What a phase tells of the replies to the set-up.
spec fn setup_history(uart_irqn: u16, replies: Seq<Reply>) -> bool {
    let start = UserFullLoadTest::initial(uart_irqn);
    let now = run::<UserFullLoadTest>(start, replies);
    let n = replies.len();
    &&& now.uart_irqn == uart_irqn
    &&& match now.phase {
        FullLoadPhase::Claim => n == 0,
        FullLoadPhase::Open { claim } => n == 1 && replies[0] == Reply::Word(claim),
        FullLoadPhase::InitHardware { claim } => n == 2 && replies[0] == Reply::Word(claim),
        FullLoadPhase::Announce { claim } => n == 3 && replies[0] == Reply::Word(claim),
        FullLoadPhase::ReadTime => n == 4,
        FullLoadPhase::Arm { deadline } => n == 5 && replies[4] is Word && deadline
            == replies[4]->Word_0 * 1000 + TEST_TIME_US,
        FullLoadPhase::CheckTimeout => n >= 6,
        _ => n > 6,
    }
}

proof fn lemma_setup_history(uart_irqn: u16, replies: Seq<Reply>)
    requires
        driven::<UserFullLoadTest>(UserFullLoadTest::initial(uart_irqn), replies),
    ensures
        setup_history(uart_irqn, replies),
    decreases replies.len(),
{
    if replies.len() > 0 {
        lemma_setup_history(uart_irqn, replies.drop_last());
    }
}

/// What a phase tells of the timer and of the words of the round.
spec fn exit_history(uart_irqn: u16, replies: Seq<Reply>) -> bool {
    let start = UserFullLoadTest::initial(uart_irqn);
    let now = run::<UserFullLoadTest>(start, replies);
    let rounds = answered::<UserFullLoadTest>(
        start,
        replies,
        Action::LoadTimeout,
        Reply::Flag(false),
    );
    let sent = written::<UserFullLoadTest>(start, replies).len();
    &&& now.uart_irqn == uart_irqn
    &&& answered::<UserFullLoadTest>(start, replies, Action::LoadTimeout, Reply::Flag(true))
        == match now.phase {
        FullLoadPhase::Wait | FullLoadPhase::CountBytes | FullLoadPhase::Done => 1nat,
        _ => 0nat,
    }
    &&& uart_irqn % 2 == 0 ==> FULL_LOAD_BATCH * rounds == sent + match now.phase {
        FullLoadPhase::TraceReadEnter => FULL_LOAD_BATCH as int,
        FullLoadPhase::SendWord { left } => left as int,
        _ => 0,
    }
}

proof fn lemma_exit_history(uart_irqn: u16, replies: Seq<Reply>)
    requires
        driven::<UserFullLoadTest>(UserFullLoadTest::initial(uart_irqn), replies),
    ensures
        exit_history(uart_irqn, replies),
    decreases replies.len(),
{
    let start = UserFullLoadTest::initial(uart_irqn);
    if replies.len() > 0 {
        lemma_exit_history(uart_irqn, replies.drop_last());
        law_invariant_holds_throughout::<UserFullLoadTest>(start, replies.drop_last());
    }
}

/// All of these together.
spec fn history(uart_irqn: u16, replies: Seq<Reply>) -> bool {
    &&& setup_history(uart_irqn, replies)
    &&& exit_history(uart_irqn, replies)
}

proof fn lemma_history(uart_irqn: u16, replies: Seq<Reply>)
    requires
        driven::<UserFullLoadTest>(UserFullLoadTest::initial(uart_irqn), replies),
    ensures
        history(uart_irqn, replies),
{
    lemma_setup_history(uart_irqn, replies);
    lemma_exit_history(uart_irqn, replies);
}

/// The test begins by claiming the interrupt line that it was created for, opening and programming
/// the port behind it, announcing itself with the result of the claim, and arming the timer; then
/// it looks at the timer for the first time.
pub proof fn law_full_load_test_sets_up_its_port(uart_irqn: u16, replies: Seq<Reply>)
    requires
        driven::<UserFullLoadTest>(UserFullLoadTest::initial(uart_irqn), replies),
        replies.len() <= 6,
    ensures
        ({
            let start = UserFullLoadTest::initial(uart_irqn);
            outstanding::<UserFullLoadTest>(start, replies) == Some(
                seq![
                    Action::ClaimExtInt(uart_irqn as usize),
                    Action::OpenSerial(uart_irqn),
                    Action::HardwareInit(BAUD_RATE),
                    Action::Print(Message::RawPollingStart { claim: replies[0]->Word_0 }),
                    Action::GetTime,
                    Action::SetTimer((replies[4]->Word_0 * 1000 + TEST_TIME_US) as isize),
                    Action::LoadTimeout,
                ][replies.len() as int],
            )
        }),
{
    lemma_history(uart_irqn, replies);
    if replies.len() > 0 {
        lemma_history(uart_irqn, replies.drop_last());
    }
}

/// Every line that the test claims or opens is the interrupt line that it was created for, and once
/// it looks at the timer or touches a byte or a signal of the port it has claimed and opened that
/// line exactly once.
pub proof fn law_full_load_test_uses_its_own_line_only(uart_irqn: u16, replies: Seq<Reply>)
    requires
        driven::<UserFullLoadTest>(UserFullLoadTest::initial(uart_irqn), replies),
    ensures
        ({
            let start = UserFullLoadTest::initial(uart_irqn);
            let then = outstanding::<UserFullLoadTest>(start, replies);
            let claimed = performed::<UserFullLoadTest>(
                start,
                replies,
                Action::ClaimExtInt(uart_irqn as usize),
            );
            let opened = performed::<UserFullLoadTest>(
                start,
                replies,
                Action::OpenSerial(uart_irqn),
            );
            &&& match then {
                Some(Action::ClaimExtInt(line)) => line == uart_irqn,
                Some(Action::OpenSerial(line)) => line == uart_irqn,
                Some(Action::EnableExtInt(_)) => false,
                Some(Action::LoadTimeout) | Some(Action::TryWrite(_)) | Some(Action::TryRead)
                | Some(Action::SetRts(_)) => claimed == 1 && opened == 1,
                _ => true,
            }
            &&& claimed <= 1 && opened <= 1
        }),
{
    lemma_history(uart_irqn, replies);
    lemma_lines(uart_irqn, replies);
}

/// Each of the line actions is performed once, early in the set-up.
proof fn lemma_lines(uart_irqn: u16, replies: Seq<Reply>)
    requires
        driven::<UserFullLoadTest>(UserFullLoadTest::initial(uart_irqn), replies),
    ensures
        ({
            let start = UserFullLoadTest::initial(uart_irqn);
            let n = replies.len();
            &&& performed::<UserFullLoadTest>(
                start,
                replies,
                Action::ClaimExtInt(uart_irqn as usize),
            ) == if n == 0 {
                0nat
            } else {
                1nat
            }
            &&& performed::<UserFullLoadTest>(start, replies, Action::OpenSerial(uart_irqn)) == if n
                <= 1 {
                0nat
            } else {
                1nat
            }
        }),
    decreases replies.len(),
{
    if replies.len() > 0 {
        lemma_lines(uart_irqn, replies.drop_last());
        lemma_history(uart_irqn, replies.drop_last());
        lemma_history(uart_irqn, replies);
    }
}

/// In every round the loading end sends the words of a batch, reads once, and lets the driver clear
/// line errors. The acknowledging end reads until the port has no word left, with a look at the
/// line errors after each word, and then acknowledges if it has received at least a batch since its
/// last acknowledgement. Both trace the round and look at the timer again.
pub proof fn law_full_load_test_order_of_a_round(uart_irqn: u16, replies: Seq<Reply>)
    requires
        driven::<UserFullLoadTest>(UserFullLoadTest::initial(uart_irqn), replies),
        replies.len() > 0,
    ensures
        ({
            let start = UserFullLoadTest::initial(uart_irqn);
            let then = outstanding::<UserFullLoadTest>(start, replies);
            let reply = replies.last();
            let loads = uart_irqn % 2 == 0;
            let rounds = answered::<UserFullLoadTest>(
                start,
                replies,
                Action::LoadTimeout,
                Reply::Flag(false),
            );
            let sent = written::<UserFullLoadTest>(start, replies).len();
            let done = Some(Action::Trace(TraceTag::CallExit(SERIAL_POLL_READ)));
            match last_action::<UserFullLoadTest>(start, replies) {
                Action::LoadTimeout => reply == Reply::Flag(false) ==> then == Some(
                    Action::Trace(TraceTag::CallEnter(SERIAL_POLL_READ)),
                ),
                Action::TryWrite(_) => then == if !loads {
                    done
                } else if sent < FULL_LOAD_BATCH * rounds {
                    Some(Action::TryWrite(TX_WORD))
                } else {
                    Some(Action::TryRead)
                },
                Action::TryRead => then == if loads {
                    Some(Action::HandleLineErrors)
                } else if reply is Read && reply->Read_0 is Some {
                    Some(Action::HandleLineErrors)
                } else if received_since_sent(start, replies) >= FULL_LOAD_BATCH {
                    Some(Action::TryWrite(ACK_WORD))
                } else {
                    done
                },
                Action::HandleLineErrors => then == if loads {
                    done
                } else {
                    Some(Action::TryRead)
                },
                Action::Trace(tag) => {
                    &&& tag == TraceTag::CallEnter(SERIAL_POLL_READ) ==> then == if loads {
                        Some(Action::TryWrite(TX_WORD))
                    } else {
                        Some(Action::TryRead)
                    }
                    &&& tag == TraceTag::CallExit(SERIAL_POLL_READ) ==> then == Some(
                        Action::Trace(TraceTag::CallEnter(SERIAL_POLL_WRITE)),
                    )
                    &&& tag == TraceTag::CallEnter(SERIAL_POLL_WRITE)
                        ==> then == Some(Action::LoadTimeout)
                },
                _ => true,
            }
        }),
{
    let start = UserFullLoadTest::initial(uart_irqn);
    lemma_history(uart_irqn, replies.drop_last());
    lemma_history(uart_irqn, replies);
    law_invariant_holds_throughout::<UserFullLoadTest>(start, replies.drop_last());
    if uart_irqn % 2 == 1 {
        law_full_load_test_acknowledges_after_a_batch(uart_irqn, replies.drop_last());
        law_full_load_test_acknowledges_after_a_batch(uart_irqn, replies);
    }
}

/// The test goes on until it has seen that the timer fired, and only until then. It then waits if
/// it is the end that reports late, and asks the driver for its byte counts. Its result is what the
/// driver answered, received bytes first, and at the acknowledging end how often there were line
/// errors.
pub proof fn law_full_load_test_reports_and_returns(uart_irqn: u16, replies: Seq<Reply>)
    requires
        driven::<UserFullLoadTest>(UserFullLoadTest::initial(uart_irqn), replies),
        replies.len() > 0,
    ensures
        ({
            let start = UserFullLoadTest::initial(uart_irqn);
            let then = outstanding::<UserFullLoadTest>(start, replies);
            let now = run::<UserFullLoadTest>(start, replies);
            let fired = answered::<UserFullLoadTest>(
                start,
                replies,
                Action::LoadTimeout,
                Reply::Flag(true),
            );
            let late = uart_irqn == 14 || uart_irqn == 6;
            &&& match last_action::<UserFullLoadTest>(start, replies) {
                Action::LoadTimeout => fired == 1 ==> then == if late {
                    Some(Action::Sleep(LATE_REPORT_MS))
                } else {
                    Some(Action::ByteCounts)
                },
                Action::Sleep(_) => then == Some(Action::ByteCounts),
                Action::ByteCounts => then is None,
                _ => then is Some,
            }
            &&& then is None || then == Some(Action::ByteCounts) || then == Some(
                Action::Sleep(LATE_REPORT_MS),
            ) <==> fired == 1
            &&& then is None ==> {
                &&& last_action::<UserFullLoadTest>(start, replies) == Action::ByteCounts
                &&& replies.last() == (Reply::Bytes { rx: now.rx_count, tx: now.tx_count })
                &&& now.error_count == if uart_irqn % 2 == 0 {
                    0
                } else {
                    answered::<UserFullLoadTest>(
                        start,
                        replies,
                        Action::HandleLineErrors,
                        Reply::Flag(true),
                    )
                }
            }
        }),
{
    lemma_history(uart_irqn, replies.drop_last());
    lemma_history(uart_irqn, replies);
    law_full_load_test_counts_line_errors(uart_irqn, replies);
}

/// The test can take every answer of the right shape, except a time of which its end cannot be
/// represented, a word that the port does not take, a word that the other end does not send, and
/// counts that cannot be represented.
pub proof fn law_full_load_test_admits_what_it_can_deal_with(
    uart_irqn: u16,
    replies: Seq<Reply>,
    reply: Reply,
)
    requires
        driven::<UserFullLoadTest>(UserFullLoadTest::initial(uart_irqn), replies),
    ensures
        ({
            let start = UserFullLoadTest::initial(uart_irqn);
            let now = run::<UserFullLoadTest>(start, replies);
            let action = UserFullLoadTest::action_of(now);
            !UserFullLoadTest::finished(now) ==> (UserFullLoadTest::accepts(now, reply) <==> {
                &&& reply.kind() == action.wants()
                &&& action is GetTime ==> isize::MIN <= reply->Word_0 * 1000 && reply->Word_0 * 1000
                    + TEST_TIME_US <= isize::MAX
                &&& action is TryWrite ==> reply->Wrote_0 is Written
                &&& action is TryRead && reply->Read_0 is Some ==> if uart_irqn % 2 == 0 {
                    reply->Read_0->0 == ACK_WORD
                } else {
                    reply->Read_0->0 == TX_WORD && received_since_sent(start, replies) < i32::MAX
                }
                &&& action is HandleLineErrors && uart_irqn % 2 == 1 && reply == Reply::Flag(true)
                    ==> now.error_count < usize::MAX
            })
        }),
{
    lemma_history(uart_irqn, replies);
    law_invariant_holds_throughout::<UserFullLoadTest>(
        UserFullLoadTest::initial(uart_irqn),
        replies,
    );
    if uart_irqn % 2 == 1 {
        law_full_load_test_acknowledges_after_a_batch(uart_irqn, replies);
    }
}

} // verus!
