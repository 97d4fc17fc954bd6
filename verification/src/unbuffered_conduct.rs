//! What the unbuffered asynchronous test does, told by its actions and the replies to them.
use vstd::prelude::*;

use crate::device::{Action, Message, Reply, TraceTag};
use crate::machine::{driven, last_action, outstanding, performed, run, unmasked, Machine};
use crate::params::{BAUD_RATE, LATE_REPORT_MS, MAX_ERROR_CNT, TEST_TIME_US};
use crate::user_unbuffered_async_test::{
    law_unbuffered_test_unmasks_only_in_its_loop, UnbufferedPhase, UserUnbufferedAsyncTest,
};

verus! {

/// What a phase tells of the replies to the set-up, and of the counts.
spec fn setup_history(uart_irqn: u16, serial_number: usize, replies: Seq<Reply>) -> bool {
    let start = UserUnbufferedAsyncTest::initial(uart_irqn, serial_number);
    let now = run::<UserUnbufferedAsyncTest>(start, replies);
    let n = replies.len();
    &&& now.uart_irqn == uart_irqn
    &&& now.serial_number == serial_number
    &&& match now.phase {
        UnbufferedPhase::Mask => n == 0,
        UnbufferedPhase::Claim => n == 1,
        UnbufferedPhase::Open { claim } => n == 2 && replies[1] == Reply::Word(claim),
        UnbufferedPhase::InitHardware { claim } => n == 3 && replies[1] == Reply::Word(claim),
        UnbufferedPhase::Enable { claim } => n == 4 && replies[1] == Reply::Word(claim),
        UnbufferedPhase::Announce { claim, enable } => n == 5 && replies[1] == Reply::Word(claim)
            && replies[4] == Reply::Word(enable),
        UnbufferedPhase::SpawnIntrHandler => n == 6,
        UnbufferedPhase::SpawnWrite => n == 7,
        UnbufferedPhase::SpawnRead => n == 8,
        UnbufferedPhase::ReadTime => n == 9,
        UnbufferedPhase::Arm { deadline } => n == 10 && replies[9] is Word && deadline
            == replies[9]->Word_0 * 1000 + TEST_TIME_US,
        UnbufferedPhase::ReadDcts => n == 11,
        UnbufferedPhase::TraceTestEnter => n == 12,
        UnbufferedPhase::Unmask => n == 13,
        UnbufferedPhase::CheckTimeout => n >= 14,
        UnbufferedPhase::CountErrors => n > 14 && replies.last() == (Reply::Bytes {
            rx: now.rx_count,
            tx: now.tx_count,
        }) && last_action::<UserUnbufferedAsyncTest>(start, replies) == Action::ByteCounts,
        _ => n > 14,
    }
}

proof fn lemma_setup_history(uart_irqn: u16, serial_number: usize, replies: Seq<Reply>)
    requires
        driven::<UserUnbufferedAsyncTest>(
            UserUnbufferedAsyncTest::initial(uart_irqn, serial_number),
            replies,
        ),
    ensures
        setup_history(uart_irqn, serial_number, replies),
    decreases replies.len(),
{
    if replies.len() > 0 {
        lemma_setup_history(uart_irqn, serial_number, replies.drop_last());
    }
}

/// How often the interrupts were masked, according to the phase.
spec fn mask_history(uart_irqn: u16, serial_number: usize, replies: Seq<Reply>) -> bool {
    let start = UserUnbufferedAsyncTest::initial(uart_irqn, serial_number);
    let now = run::<UserUnbufferedAsyncTest>(start, replies);
    performed::<UserUnbufferedAsyncTest>(start, replies, Action::ClearUserIntr) == match now.phase {
        UnbufferedPhase::Mask => 0nat,
        UnbufferedPhase::TraceTestExit | UnbufferedPhase::RemoveRead |
        UnbufferedPhase::RemoveWrite | UnbufferedPhase::DropWaker | UnbufferedPhase::Wait |
        UnbufferedPhase::CountRefs | UnbufferedPhase::ReportRefs { .. } |
        UnbufferedPhase::CountIntrs | UnbufferedPhase::Summarise { .. } |
        UnbufferedPhase::CountBytes | UnbufferedPhase::CountErrors | UnbufferedPhase::Done => 2nat,
        _ => 1nat,
    }
}

proof fn lemma_mask_history(uart_irqn: u16, serial_number: usize, replies: Seq<Reply>)
    requires
        driven::<UserUnbufferedAsyncTest>(
            UserUnbufferedAsyncTest::initial(uart_irqn, serial_number),
            replies,
        ),
    ensures
        mask_history(uart_irqn, serial_number, replies),
    decreases replies.len(),
{
    if replies.len() > 0 {
        lemma_mask_history(uart_irqn, serial_number, replies.drop_last());
    }
}

/// All of these together.
spec fn history(uart_irqn: u16, serial_number: usize, replies: Seq<Reply>) -> bool {
    &&& setup_history(uart_irqn, serial_number, replies)
    &&& mask_history(uart_irqn, serial_number, replies)
}

proof fn lemma_history(uart_irqn: u16, serial_number: usize, replies: Seq<Reply>)
    requires
        driven::<UserUnbufferedAsyncTest>(
            UserUnbufferedAsyncTest::initial(uart_irqn, serial_number),
            replies,
        ),
    ensures
        history(uart_irqn, serial_number, replies),
{
    lemma_setup_history(uart_irqn, serial_number, replies);
    lemma_mask_history(uart_irqn, serial_number, replies);
}

/// The test begins by masking the user interrupts, claiming the interrupt line that it was created
/// for, opening and programming the port behind that line, and enabling the same line. It announces
/// itself with the results of the claim and of the enabling, starts its tasks, arms the timer,
/// drops a stale delta-CTS flag, and unmasks the interrupts; only then does it look at the timer.
pub proof fn law_unbuffered_test_sets_up_its_port(
    uart_irqn: u16,
    serial_number: usize,
    replies: Seq<Reply>,
)
    requires
        driven::<UserUnbufferedAsyncTest>(
            UserUnbufferedAsyncTest::initial(uart_irqn, serial_number),
            replies,
        ),
        replies.len() <= 14,
    ensures
        ({
            let start = UserUnbufferedAsyncTest::initial(uart_irqn, serial_number);
            outstanding::<UserUnbufferedAsyncTest>(start, replies) == Some(
                seq![
                    Action::ClearUserIntr,
                    Action::ClaimExtInt(uart_irqn as usize),
                    Action::OpenSerial(uart_irqn),
                    Action::HardwareInit(BAUD_RATE),
                    Action::EnableExtInt(uart_irqn as usize),
                    Action::Print(
                        Message::AsyncStart {
                            serial_number,
                            claim: replies[1]->Word_0,
                            enable: replies[4]->Word_0,
                        },
                    ),
                    Action::SpawnIntrHandler(uart_irqn),
                    Action::SpawnWrite,
                    Action::SpawnRead,
                    Action::GetTime,
                    Action::SetTimer((replies[9]->Word_0 * 1000 + TEST_TIME_US) as isize),
                    Action::ReadDcts,
                    Action::Trace(TraceTag::TestEnter),
                    Action::SetUserIntr,
                    Action::LoadTimeout,
                ][replies.len() as int],
            )
        }),
{
    lemma_history(uart_irqn, serial_number, replies);
    if replies.len() > 0 {
        lemma_history(uart_irqn, serial_number, replies.drop_last());
    }
}

/// Every line that the test claims, enables, opens or hands to its interrupt task is the interrupt
/// line that it was created for; and whenever the interrupts are unmasked, or about to be, it has
/// claimed, opened and enabled that line exactly once.
pub proof fn law_unbuffered_test_uses_its_own_line_only(
    uart_irqn: u16,
    serial_number: usize,
    replies: Seq<Reply>,
)
    requires
        driven::<UserUnbufferedAsyncTest>(
            UserUnbufferedAsyncTest::initial(uart_irqn, serial_number),
            replies,
        ),
    ensures
        ({
            let start = UserUnbufferedAsyncTest::initial(uart_irqn, serial_number);
            let line = uart_irqn as usize;
            let enabled = performed::<UserUnbufferedAsyncTest>(
                start,
                replies,
                Action::EnableExtInt(line),
            );
            let claimed = performed::<UserUnbufferedAsyncTest>(
                start,
                replies,
                Action::ClaimExtInt(line),
            );
            let opened = performed::<UserUnbufferedAsyncTest>(
                start,
                replies,
                Action::OpenSerial(uart_irqn),
            );
            let then = outstanding::<UserUnbufferedAsyncTest>(start, replies);
            &&& match then {
                Some(Action::ClaimExtInt(other)) => other == line,
                Some(Action::EnableExtInt(other)) => other == line,
                Some(Action::OpenSerial(other)) => other == uart_irqn,
                Some(Action::SpawnIntrHandler(other)) => other == uart_irqn,
                _ => true,
            }
            &&& enabled <= 1 && claimed <= 1 && opened <= 1
            &&& then == Some(Action::SetUserIntr)
                || unmasked::<UserUnbufferedAsyncTest>(start, replies) == Some(true)
                ==> enabled == 1 && claimed == 1 && opened == 1
        }),
{
    lemma_history(uart_irqn, serial_number, replies);
    lemma_lines(uart_irqn, serial_number, replies);
    if replies.len() > 0 {
        law_unbuffered_test_unmasks_only_in_its_loop(uart_irqn, serial_number, replies);
    }
}

/// Each of the line actions is performed once, early in the set-up.
proof fn lemma_lines(uart_irqn: u16, serial_number: usize, replies: Seq<Reply>)
    requires
        driven::<UserUnbufferedAsyncTest>(
            UserUnbufferedAsyncTest::initial(uart_irqn, serial_number),
            replies,
        ),
    ensures
        ({
            let start = UserUnbufferedAsyncTest::initial(uart_irqn, serial_number);
            let line = uart_irqn as usize;
            let n = replies.len();
            &&& performed::<UserUnbufferedAsyncTest>(start, replies, Action::ClaimExtInt(line))
                == if n <= 1 {
                0nat
            } else {
                1nat
            }
            &&& performed::<UserUnbufferedAsyncTest>(start, replies, Action::OpenSerial(uart_irqn))
                == if n <= 2 {
                0nat
            } else {
                1nat
            }
            &&& performed::<UserUnbufferedAsyncTest>(start, replies, Action::EnableExtInt(line))
                == if n <= 4 {
                0nat
            } else {
                1nat
            }
        }),
    decreases replies.len(),
{
    if replies.len() > 0 {
        lemma_lines(uart_irqn, serial_number, replies.drop_last());
        lemma_history(uart_irqn, serial_number, replies.drop_last());
        lemma_history(uart_irqn, serial_number, replies);
    }
}

/// In every round the test lets its tasks run until they wait, and reads the error count; unless
/// there are too many errors it then looks at the timer again.
pub proof fn law_unbuffered_test_order_of_a_round(
    uart_irqn: u16,
    serial_number: usize,
    replies: Seq<Reply>,
)
    requires
        driven::<UserUnbufferedAsyncTest>(
            UserUnbufferedAsyncTest::initial(uart_irqn, serial_number),
            replies,
        ),
        replies.len() > 0,
    ensures
        ({
            let start = UserUnbufferedAsyncTest::initial(uart_irqn, serial_number);
            let then = outstanding::<UserUnbufferedAsyncTest>(start, replies);
            let reply = replies.last();
            let masks = performed::<UserUnbufferedAsyncTest>(start, replies, Action::ClearUserIntr);
            match last_action::<UserUnbufferedAsyncTest>(start, replies) {
                Action::LoadTimeout => reply == Reply::Flag(false)
                    ==> then == Some(Action::RunUntilIdle),
                Action::RunUntilIdle => then == Some(Action::LoadErrorCount),
                Action::LoadErrorCount => masks == 1 && reply->Count_0 <= MAX_ERROR_CNT
                    ==> then == Some(
                    Action::LoadTimeout,
                ),
                _ => true,
            }
        }),
{
    lemma_history(uart_irqn, serial_number, replies);
    if replies.len() > 0 {
        lemma_history(uart_irqn, serial_number, replies.drop_last());
    }
}

/// The test masks the interrupts again exactly when it has just seen that the timer has fired, or
/// has just found, in its loop, that the tasks have counted more than `MAX_ERROR_CNT` errors; and
/// it does not finish without.
pub proof fn law_unbuffered_test_leaves_its_loop_for_a_reason(
    uart_irqn: u16,
    serial_number: usize,
    replies: Seq<Reply>,
)
    requires
        driven::<UserUnbufferedAsyncTest>(
            UserUnbufferedAsyncTest::initial(uart_irqn, serial_number),
            replies,
        ),
        replies.len() > 0,
    ensures
        ({
            let start = UserUnbufferedAsyncTest::initial(uart_irqn, serial_number);
            let then = outstanding::<UserUnbufferedAsyncTest>(start, replies);
            let masks = performed::<UserUnbufferedAsyncTest>(start, replies, Action::ClearUserIntr);
            let reply = replies.last();
            let before = last_action::<UserUnbufferedAsyncTest>(start, replies);
            &&& then == Some(Action::ClearUserIntr) <==> {
                ||| before == Action::LoadTimeout && reply == Reply::Flag(true)
                ||| before == Action::LoadErrorCount && masks == 1 && reply->Count_0 > MAX_ERROR_CNT
            }
            &&& then is None ==> masks == 2
        }),
{
    lemma_history(uart_irqn, serial_number, replies);
    if replies.len() > 0 {
        lemma_history(uart_irqn, serial_number, replies.drop_last());
    }
}

/// After its loop the test masks the interrupts, traces its end, and takes the wakers of the port
/// and of the interrupt task away. It waits if it is the end that reports late, reports how many
/// references to the driver are left, then the interrupt counts, and reads the byte counts and the
/// error count.
pub proof fn law_unbuffered_test_reports_and_returns(
    uart_irqn: u16,
    serial_number: usize,
    replies: Seq<Reply>,
)
    requires
        driven::<UserUnbufferedAsyncTest>(
            UserUnbufferedAsyncTest::initial(uart_irqn, serial_number),
            replies,
        ),
        replies.len() > 0,
    ensures
        ({
            let start = UserUnbufferedAsyncTest::initial(uart_irqn, serial_number);
            let then = outstanding::<UserUnbufferedAsyncTest>(start, replies);
            let reply = replies.last();
            let masks = performed::<UserUnbufferedAsyncTest>(start, replies, Action::ClearUserIntr);
            let late = uart_irqn == 14 || uart_irqn == 6;
            match last_action::<UserUnbufferedAsyncTest>(start, replies) {
                Action::ClearUserIntr => masks == 2
                    ==> then == Some(Action::Trace(TraceTag::TestExit)),
                Action::Trace(TraceTag::TestExit) => then == Some(Action::RemoveRead),
                Action::RemoveRead => then == Some(Action::RemoveWrite),
                Action::RemoveWrite => then == Some(Action::DropIntrWaker),
                Action::DropIntrWaker => then == if late {
                    Some(Action::Sleep(LATE_REPORT_MS))
                } else {
                    Some(Action::RefCount)
                },
                Action::Sleep(_) => then == Some(Action::RefCount),
                Action::RefCount => then == Some(Action::Print(
                    Message::UnbufferedRefs { serial_number, refcnt: reply->Count_0 },
                )),
                Action::Print(Message::UnbufferedRefs { .. }) => then == Some(Action::IntrCounts),
                Action::IntrCounts => then == Some(Action::Print(
                    Message::UnbufferedEnd {
                        serial_number,
                        intr: reply->total,
                        tx: reply->Intrs_tx,
                        rx: reply->Intrs_rx,
                    },
                )),
                Action::Print(Message::UnbufferedEnd { .. }) => then == Some(Action::ByteCounts),
                Action::ByteCounts => then == Some(Action::LoadErrorCount),
                Action::LoadErrorCount => then is None <==> masks == 2,
                _ => then is Some,
            }
        }),
{
    lemma_history(uart_irqn, serial_number, replies);
    if replies.len() > 0 {
        lemma_history(uart_irqn, serial_number, replies.drop_last());
    }
}

/// The result of a finished test is what it was told at the end: the driver's answer to the request
/// for its byte counts, received bytes first, and then the shared error count as it was last read,
/// whatever these are.
pub proof fn law_unbuffered_test_returns_the_answers(
    uart_irqn: u16,
    serial_number: usize,
    replies: Seq<Reply>,
)
    requires
        driven::<UserUnbufferedAsyncTest>(
            UserUnbufferedAsyncTest::initial(uart_irqn, serial_number),
            replies,
        ),
    ensures
        ({
            let start = UserUnbufferedAsyncTest::initial(uart_irqn, serial_number);
            let now = run::<UserUnbufferedAsyncTest>(start, replies);
            UserUnbufferedAsyncTest::finished(now) ==> {
                &&& replies.len() >= 2
                &&& last_action::<UserUnbufferedAsyncTest>(start, replies.drop_last())
                    == Action::ByteCounts
                &&& replies[replies.len() - 2]
                    == (Reply::Bytes { rx: now.rx_count, tx: now.tx_count })
                &&& last_action::<UserUnbufferedAsyncTest>(start, replies) == Action::LoadErrorCount
                &&& replies.last() == Reply::Count(now.error_count)
            }
        }),
{
    lemma_history(uart_irqn, serial_number, replies);
    if replies.len() > 0 {
        lemma_history(uart_irqn, serial_number, replies.drop_last());
    }
}

/// The test can take every answer of the right shape, whatever it says; only a time of which the
/// end of the test cannot be represented is outside of what it can deal with.
pub proof fn law_unbuffered_test_admits_every_answer(
    uart_irqn: u16,
    serial_number: usize,
    replies: Seq<Reply>,
    reply: Reply,
)
    requires
        driven::<UserUnbufferedAsyncTest>(
            UserUnbufferedAsyncTest::initial(uart_irqn, serial_number),
            replies,
        ),
    ensures
        ({
            let start = UserUnbufferedAsyncTest::initial(uart_irqn, serial_number);
            let now = run::<UserUnbufferedAsyncTest>(start, replies);
            let action = UserUnbufferedAsyncTest::action_of(now);
            !UserUnbufferedAsyncTest::finished(now)
                ==> (UserUnbufferedAsyncTest::accepts(now, reply) <==> {
                &&& reply.kind() == action.wants()
                &&& action is GetTime ==> isize::MIN <= reply->Word_0 * 1000 && reply->Word_0 * 1000
                    + TEST_TIME_US <= isize::MAX

            })
        }),
{
    lemma_history(uart_irqn, serial_number, replies);
    if replies.len() > 0 {
        lemma_history(uart_irqn, serial_number, replies.drop_last());
    }
}

} // verus!
