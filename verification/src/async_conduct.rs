//! What the buffered asynchronous test does, told by its actions and the replies to them.
use vstd::prelude::*;

use crate::device::{Action, Message, Reply, TraceTag};
use crate::machine::{
    driven, last_action, law_invariant_holds_throughout, outstanding, performed, run, unmasked,
    Machine,
};
use crate::params::{
    BAUD_RATE, HALF_FIFO_DEPTH, LATE_REPORT_MS, MAX_ERROR_CNT, NO_POSITION, SERIAL_ASYNC_READ,
    SERIAL_ASYNC_WRITE, TEST_TIME_US,
};
use crate::user_async_test::{law_async_test_unmasks_only_in_its_loop, AsyncPhase, UserAsyncTest};

verus! {

/// What a phase tells of the replies to the set-up, and of the counts.
spec fn setup_history(uart_irqn: u16, serial_number: usize, replies: Seq<Reply>) -> bool {
    let start = UserAsyncTest::initial(uart_irqn, serial_number);
    let now = run::<UserAsyncTest>(start, replies);
    let n = replies.len();
    &&& now.uart_irqn == uart_irqn
    &&& now.serial_number == serial_number
    &&& now.write_tasks == performed::<UserAsyncTest>(start, replies, Action::SpawnWrite)
    &&& now.read_tasks == performed::<UserAsyncTest>(start, replies, Action::SpawnRead)
    &&& match now.phase {
        AsyncPhase::Mask => n == 0,
        AsyncPhase::Claim => n == 1,
        AsyncPhase::Open { claim } => n == 2 && replies[1] == Reply::Word(claim),
        AsyncPhase::InitHardware { claim } => n == 3 && replies[1] == Reply::Word(claim),
        AsyncPhase::Enable { claim } => n == 4 && replies[1] == Reply::Word(claim),
        AsyncPhase::Announce { claim, enable } => n == 5 && replies[1] == Reply::Word(claim)
            && replies[4] == Reply::Word(enable),
        AsyncPhase::SpawnIntrHandler => n == 6,
        AsyncPhase::ReadTime => n == 7,
        AsyncPhase::Arm { deadline } => n == 8 && replies[7] is Word && deadline
            == replies[7]->Word_0 * 1000 + TEST_TIME_US,
        AsyncPhase::ReadDcts => n == 9,
        AsyncPhase::TraceTestEnter => n == 10,
        AsyncPhase::Unmask => n == 11,
        AsyncPhase::CheckTimeout => n >= 12,
        AsyncPhase::CountErrors => n > 12 && replies.last() == (Reply::Bytes {
            rx: now.rx_count,
            tx: now.tx_count,
        }) && last_action::<UserAsyncTest>(start, replies) == Action::ByteCounts,
        _ => n > 12,
    }
}

proof fn lemma_setup_history(uart_irqn: u16, serial_number: usize, replies: Seq<Reply>)
    requires
        driven::<UserAsyncTest>(UserAsyncTest::initial(uart_irqn, serial_number), replies),
    ensures
        setup_history(uart_irqn, serial_number, replies),
    decreases replies.len(),
{
    let start = UserAsyncTest::initial(uart_irqn, serial_number);
    if replies.len() > 0 {
        lemma_setup_history(uart_irqn, serial_number, replies.drop_last());
        law_invariant_holds_throughout::<UserAsyncTest>(start, replies.drop_last());
    }
}

/// How often the interrupts were masked, according to the phase.
spec fn mask_history(uart_irqn: u16, serial_number: usize, replies: Seq<Reply>) -> bool {
    let start = UserAsyncTest::initial(uart_irqn, serial_number);
    let now = run::<UserAsyncTest>(start, replies);
    performed::<UserAsyncTest>(start, replies, Action::ClearUserIntr) == match now.phase {
        AsyncPhase::Mask => 0nat,
        AsyncPhase::TraceTestExit | AsyncPhase::RemoveRead | AsyncPhase::RemoveWrite |
        AsyncPhase::DropWaker | AsyncPhase::Wait | AsyncPhase::CountRefs |
        AsyncPhase::ReportTasks { .. } | AsyncPhase::CountIntrs | AsyncPhase::Summarise { .. } |
        AsyncPhase::CountBytes | AsyncPhase::CountErrors | AsyncPhase::Done => 2nat,
        _ => 1nat,
    }
}

proof fn lemma_mask_history(uart_irqn: u16, serial_number: usize, replies: Seq<Reply>)
    requires
        driven::<UserAsyncTest>(UserAsyncTest::initial(uart_irqn, serial_number), replies),
    ensures
        mask_history(uart_irqn, serial_number, replies),
    decreases replies.len(),
{
    if replies.len() > 0 {
        lemma_mask_history(uart_irqn, serial_number, replies.drop_last());
    }
}

/// All of these together.
spec fn history(uart_irqn: u16, serial_number: usize, replies: Seq<Reply>) -> bool {
    &&& setup_history(uart_irqn, serial_number, replies)
    &&& mask_history(uart_irqn, serial_number, replies)
}

proof fn lemma_history(uart_irqn: u16, serial_number: usize, replies: Seq<Reply>)
    requires
        driven::<UserAsyncTest>(UserAsyncTest::initial(uart_irqn, serial_number), replies),
    ensures
        history(uart_irqn, serial_number, replies),
{
    lemma_setup_history(uart_irqn, serial_number, replies);
    lemma_mask_history(uart_irqn, serial_number, replies);
}

/// The test begins by masking the user interrupts, claiming the interrupt line that it was created
/// for, opening and programming the port behind that line, and enabling the same line. It announces
/// itself with the results of the claim and of the enabling, starts the interrupt task, arms the
/// timer, drops a stale delta-CTS flag, and unmasks the interrupts; only then does it look at the
/// timer.
pub proof fn law_async_test_sets_up_its_port(
    uart_irqn: u16,
    serial_number: usize,
    replies: Seq<Reply>,
)
    requires
        driven::<UserAsyncTest>(UserAsyncTest::initial(uart_irqn, serial_number), replies),
        replies.len() <= 12,
    ensures
        ({
            let start = UserAsyncTest::initial(uart_irqn, serial_number);
            outstanding::<UserAsyncTest>(start, replies) == Some(
                seq![
                    Action::ClearUserIntr,
                    Action::ClaimExtInt(uart_irqn as usize),
                    Action::OpenSerial(uart_irqn),
                    Action::HardwareInit(BAUD_RATE),
                    Action::EnableExtInt(uart_irqn as usize),
                    Action::Print(
                        Message::AsyncStart {
                            serial_number,
                            claim: replies[1]->Word_0,
                            enable: replies[4]->Word_0,
                        },
                    ),
                    Action::SpawnIntrHandler(uart_irqn),
                    Action::GetTime,
                    Action::SetTimer((replies[7]->Word_0 * 1000 + TEST_TIME_US) as isize),
                    Action::ReadDcts,
                    Action::Trace(TraceTag::TestEnter),
                    Action::SetUserIntr,
                    Action::LoadTimeout,
                ][replies.len() as int],
            )
        }),
{
    lemma_history(uart_irqn, serial_number, replies);
    if replies.len() > 0 {
        lemma_history(uart_irqn, serial_number, replies.drop_last());
    }
}

/// Every line that the test claims, enables, opens or hands to its interrupt task is the interrupt
/// line that it was created for; and whenever the interrupts are unmasked, or about to be, it has
/// claimed, opened and enabled that line exactly once.
pub proof fn law_async_test_uses_its_own_line_only(
    uart_irqn: u16,
    serial_number: usize,
    replies: Seq<Reply>,
)
    requires
        driven::<UserAsyncTest>(UserAsyncTest::initial(uart_irqn, serial_number), replies),
    ensures
        ({
            let start = UserAsyncTest::initial(uart_irqn, serial_number);
            let line = uart_irqn as usize;
            let enabled = performed::<UserAsyncTest>(start, replies, Action::EnableExtInt(line));
            let claimed = performed::<UserAsyncTest>(start, replies, Action::ClaimExtInt(line));
            let opened = performed::<UserAsyncTest>(start, replies, Action::OpenSerial(uart_irqn));
            let then = outstanding::<UserAsyncTest>(start, replies);
            &&& match then {
                Some(Action::ClaimExtInt(other)) => other == line,
                Some(Action::EnableExtInt(other)) => other == line,
                Some(Action::OpenSerial(other)) => other == uart_irqn,
                Some(Action::SpawnIntrHandler(other)) => other == uart_irqn,
                _ => true,
            }
            &&& enabled <= 1 && claimed <= 1 && opened <= 1
            &&& then == Some(Action::SetUserIntr)
                || unmasked::<UserAsyncTest>(start, replies) == Some(true)
                ==> enabled == 1 && claimed == 1 && opened == 1
        }),
{
    lemma_history(uart_irqn, serial_number, replies);
    lemma_lines(uart_irqn, serial_number, replies);
    if replies.len() > 0 {
        law_async_test_unmasks_only_in_its_loop(uart_irqn, serial_number, replies);
    }
}

/// Each of the line actions is performed once, early in the set-up.
proof fn lemma_lines(uart_irqn: u16, serial_number: usize, replies: Seq<Reply>)
    requires
        driven::<UserAsyncTest>(UserAsyncTest::initial(uart_irqn, serial_number), replies),
    ensures
        ({
            let start = UserAsyncTest::initial(uart_irqn, serial_number);
            let line = uart_irqn as usize;
            let n = replies.len();
            &&& performed::<UserAsyncTest>(start, replies, Action::ClaimExtInt(line)) == if n <= 1 {
                0nat
            } else {
                1nat
            }
            &&& performed::<UserAsyncTest>(start, replies, Action::OpenSerial(uart_irqn)) == if n
                <= 2 {
                0nat
            } else {
                1nat
            }
            &&& performed::<UserAsyncTest>(start, replies, Action::EnableExtInt(line)) == if n
                <= 4 {
                0nat
            } else {
                1nat
            }
        }),
    decreases replies.len(),
{
    if replies.len() > 0 {
        lemma_lines(uart_irqn, serial_number, replies.drop_last());
        lemma_history(uart_irqn, serial_number, replies.drop_last());
        lemma_history(uart_irqn, serial_number, replies);
    }
}

/// In every round the test lets its tasks run until they wait, and reads the error count. It then
/// starts a new write task if the last one is done, and a new read task if the last one is done, in
/// this order; and wakes the interrupt task if an interrupt is pending and its waker can be
/// reached. Only then does it look at the timer again.
pub proof fn law_async_test_order_of_a_round(
    uart_irqn: u16,
    serial_number: usize,
    replies: Seq<Reply>,
)
    requires
        driven::<UserAsyncTest>(UserAsyncTest::initial(uart_irqn, serial_number), replies),
        replies.len() > 0,
    ensures
        ({
            let start = UserAsyncTest::initial(uart_irqn, serial_number);
            let then = outstanding::<UserAsyncTest>(start, replies);
            let reply = replies.last();
            let masks = performed::<UserAsyncTest>(start, replies, Action::ClearUserIntr);
            match last_action::<UserAsyncTest>(start, replies) {
                Action::LoadTimeout => reply == Reply::Flag(false)
                    ==> then == Some(Action::RunUntilIdle),
                Action::RunUntilIdle => then == Some(Action::LoadErrorCount),
                Action::LoadErrorCount => masks == 1 && reply->Count_0 <= MAX_ERROR_CNT
                    ==> then == Some(
                    Action::Trace(TraceTag::CallEnter(SERIAL_ASYNC_WRITE)),
                ),
                Action::LoadWriteDone => then == if reply == Reply::Flag(true) {
                    Some(Action::ClearWriteDone)
                } else {
                    Some(Action::Trace(TraceTag::CallExit(SERIAL_ASYNC_WRITE)))
                },
                Action::ClearWriteDone => then == Some(Action::Trace(TraceTag::AsyncWriteSpawn)),
                Action::Trace(TraceTag::AsyncWriteSpawn) => then == Some(Action::SpawnWrite),
                Action::SpawnWrite => then == Some(
                    Action::Trace(TraceTag::CallExit(SERIAL_ASYNC_WRITE)),
                ),
                Action::LoadReadDone => then == if reply == Reply::Flag(true) {
                    Some(Action::ClearReadDone)
                } else {
                    Some(Action::Trace(TraceTag::CallExit(SERIAL_ASYNC_READ)))
                },
                Action::ClearReadDone => then == Some(Action::Trace(TraceTag::AsyncReadSpawn)),
                Action::Trace(TraceTag::AsyncReadSpawn) => then == Some(Action::SpawnRead),
                Action::SpawnRead => then == Some(
                    Action::Trace(TraceTag::CallExit(SERIAL_ASYNC_READ)),
                ),
                Action::LoadHasIntr => then == if reply == Reply::Flag(true) {
                    Some(Action::PeekIntrWaker)
                } else {
                    Some(Action::LoadTimeout)
                },
                Action::PeekIntrWaker => then == if reply == Reply::Flag(true) {
                    Some(Action::Trace(TraceTag::AsyncIntrWake))
                } else {
                    Some(Action::LoadTimeout)
                },
                Action::Trace(TraceTag::AsyncIntrWake) => then == Some(Action::WakeIntrTask),
                Action::WakeIntrTask => then == Some(Action::LoadTimeout),
                Action::Trace(tag) => {
                    &&& tag == TraceTag::CallEnter(SERIAL_ASYNC_WRITE) ==> then == Some(
                        Action::LoadWriteDone,
                    )
                    &&& tag == TraceTag::CallExit(SERIAL_ASYNC_WRITE) ==> then == Some(
                        Action::Trace(TraceTag::CallEnter(SERIAL_ASYNC_READ)),
                    )
                    &&& tag == TraceTag::CallEnter(SERIAL_ASYNC_READ)
                        ==> then == Some(Action::LoadReadDone)
                    &&& tag == TraceTag::CallExit(SERIAL_ASYNC_READ)
                        ==> then == Some(Action::LoadHasIntr)
                },
                _ => true,
            }
        }),
{
    lemma_history(uart_irqn, serial_number, replies);
    if replies.len() > 0 {
        lemma_history(uart_irqn, serial_number, replies.drop_last());
    }
}

/// The test masks the interrupts again exactly when it has just seen that the timer has fired, or
/// has just found, in its loop, that the tasks have counted more than `MAX_ERROR_CNT` errors; and
/// it does not finish without.
pub proof fn law_async_test_leaves_its_loop_for_a_reason(
    uart_irqn: u16,
    serial_number: usize,
    replies: Seq<Reply>,
)
    requires
        driven::<UserAsyncTest>(UserAsyncTest::initial(uart_irqn, serial_number), replies),
        replies.len() > 0,
    ensures
        ({
            let start = UserAsyncTest::initial(uart_irqn, serial_number);
            let then = outstanding::<UserAsyncTest>(start, replies);
            let masks = performed::<UserAsyncTest>(start, replies, Action::ClearUserIntr);
            let reply = replies.last();
            let before = last_action::<UserAsyncTest>(start, replies);
            &&& then == Some(Action::ClearUserIntr) <==> {
                ||| before == Action::LoadTimeout && reply == Reply::Flag(true)
                ||| before == Action::LoadErrorCount && masks == 1 && reply->Count_0 > MAX_ERROR_CNT
            }
            &&& then is None ==> masks == 2
        }),
{
    lemma_history(uart_irqn, serial_number, replies);
    if replies.len() > 0 {
        lemma_history(uart_irqn, serial_number, replies.drop_last());
    }
}

/// After its loop the test masks the interrupts, traces its end, and takes the wakers of the port
/// and of the interrupt task away. It waits if it is the end that reports late, reports how many
/// tasks it started, what they moved, and how many references to the driver are left, then the
/// interrupt counts, and reads the byte counts and the error count.
pub proof fn law_async_test_reports_and_returns(
    uart_irqn: u16,
    serial_number: usize,
    replies: Seq<Reply>,
)
    requires
        driven::<UserAsyncTest>(UserAsyncTest::initial(uart_irqn, serial_number), replies),
        replies.len() > 0,
    ensures
        ({
            let start = UserAsyncTest::initial(uart_irqn, serial_number);
            let then = outstanding::<UserAsyncTest>(start, replies);
            let now = run::<UserAsyncTest>(start, replies);
            let reply = replies.last();
            let masks = performed::<UserAsyncTest>(start, replies, Action::ClearUserIntr);
            let late = uart_irqn == 14 || uart_irqn == 6;
            match last_action::<UserAsyncTest>(start, replies) {
                Action::ClearUserIntr => masks == 2
                    ==> then == Some(Action::Trace(TraceTag::TestExit)),
                Action::Trace(TraceTag::TestExit) => then == Some(Action::RemoveRead),
                Action::RemoveRead => then == Some(Action::RemoveWrite),
                Action::RemoveWrite => then == Some(Action::DropIntrWaker),
                Action::DropIntrWaker => then == if late {
                    Some(Action::Sleep(LATE_REPORT_MS))
                } else {
                    Some(Action::RefCount)
                },
                Action::Sleep(_) => then == Some(Action::RefCount),
                Action::RefCount => then == Some(Action::Print(
                    Message::AsyncTasks {
                        serial_number,
                        write_tasks: now.write_tasks,
                        write_bytes: (now.write_tasks * HALF_FIFO_DEPTH) as usize,
                        read_tasks: now.read_tasks,
                        read_bytes: (now.read_tasks * HALF_FIFO_DEPTH) as usize,
                        refcnt: reply->Count_0,
                    },
                )),
                Action::Print(Message::AsyncTasks { .. }) => then == Some(Action::IntrCounts),
                Action::IntrCounts => then == Some(Action::Print(
                    Message::AsyncEnd {
                        serial_number,
                        intr: reply->total,
                        tx: reply->Intrs_tx,
                        rx: reply->Intrs_rx,
                        err_pos: NO_POSITION,
                    },
                )),
                Action::Print(Message::AsyncEnd { .. }) => then == Some(Action::ByteCounts),
                Action::ByteCounts => then == Some(Action::LoadErrorCount),
                Action::LoadErrorCount => then is None <==> masks == 2,
                _ => then is Some,
            }
        }),
{
    lemma_history(uart_irqn, serial_number, replies);
    if replies.len() > 0 {
        lemma_history(uart_irqn, serial_number, replies.drop_last());
    }
}

/// The result of a finished test is what it was told at the end: the driver's answer to the request
/// for its byte counts, received bytes first, and then the shared error count as it was last read,
/// whatever these are.
pub proof fn law_async_test_returns_the_answers(
    uart_irqn: u16,
    serial_number: usize,
    replies: Seq<Reply>,
)
    requires
        driven::<UserAsyncTest>(UserAsyncTest::initial(uart_irqn, serial_number), replies),
    ensures
        ({
            let start = UserAsyncTest::initial(uart_irqn, serial_number);
            let now = run::<UserAsyncTest>(start, replies);
            UserAsyncTest::finished(now) ==> {
                &&& replies.len() >= 2
                &&& last_action::<UserAsyncTest>(start, replies.drop_last()) == Action::ByteCounts
                &&& replies[replies.len() - 2]
                    == (Reply::Bytes { rx: now.rx_count, tx: now.tx_count })
                &&& last_action::<UserAsyncTest>(start, replies) == Action::LoadErrorCount
                &&& replies.last() == Reply::Count(now.error_count)
            }
        }),
{
    lemma_history(uart_irqn, serial_number, replies);
    if replies.len() > 0 {
        lemma_history(uart_irqn, serial_number, replies.drop_last());
    }
}

/// The task counts that the test reports are how often it started a task of the kind.
pub proof fn law_async_test_counts_its_tasks(
    uart_irqn: u16,
    serial_number: usize,
    replies: Seq<Reply>,
)
    requires
        driven::<UserAsyncTest>(UserAsyncTest::initial(uart_irqn, serial_number), replies),
    ensures
        ({
            let start = UserAsyncTest::initial(uart_irqn, serial_number);
            let now = run::<UserAsyncTest>(start, replies);
            &&& now.write_tasks == performed::<UserAsyncTest>(start, replies, Action::SpawnWrite)
            &&& now.read_tasks == performed::<UserAsyncTest>(start, replies, Action::SpawnRead)
        }),
{
    lemma_history(uart_irqn, serial_number, replies);
    if replies.len() > 0 {
        lemma_history(uart_irqn, serial_number, replies.drop_last());
    }
}

/// The test can take every answer of the right shape, whatever it says; only a time of which the
/// end of the test cannot be represented is outside of what it can deal with, and so is a task with
/// which the number of bytes that the tasks move cannot be represented.
pub proof fn law_async_test_admits_every_answer(
    uart_irqn: u16,
    serial_number: usize,
    replies: Seq<Reply>,
    reply: Reply,
)
    requires
        driven::<UserAsyncTest>(UserAsyncTest::initial(uart_irqn, serial_number), replies),
    ensures
        ({
            let start = UserAsyncTest::initial(uart_irqn, serial_number);
            let now = run::<UserAsyncTest>(start, replies);
            let action = UserAsyncTest::action_of(now);
            !UserAsyncTest::finished(now) ==> (UserAsyncTest::accepts(now, reply) <==> {
                &&& reply.kind() == action.wants()
                &&& action is GetTime ==> isize::MIN <= reply->Word_0 * 1000 && reply->Word_0 * 1000
                    + TEST_TIME_US <= isize::MAX
                &&& action is SpawnWrite ==> (performed::<UserAsyncTest>(
                    start,
                    replies,
                    Action::SpawnWrite,
                ) + 1) * HALF_FIFO_DEPTH <= usize::MAX
                &&& action is SpawnRead
                    ==> (performed::<UserAsyncTest>(start, replies, Action::SpawnRead) + 1)
                    * HALF_FIFO_DEPTH <= usize::MAX
            })
        }),
{
    lemma_history(uart_irqn, serial_number, replies);
    if replies.len() > 0 {
        lemma_history(uart_irqn, serial_number, replies.drop_last());
    }
}

} // verus!
