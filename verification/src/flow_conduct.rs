//! What the flow control test does, told by its actions and the replies to them.
use vstd::prelude::*;

use crate::device::{Action, Message, Reply, WriteOutcome};
use crate::machine::{
    driven, last_action, law_invariant_holds_throughout, outstanding, performed, received, run,
    Machine,
};
use crate::params::{BAUD_RATE, LATE_REPORT_MS, TEST_TIME_US};
use crate::user_flow_control_test::{offered, FLOW_BATCH, FlowPhase, UserFlowControlTest};

verus! {

/// What a phase tells of the replies to the set-up.
spec fn setup_history(uart_irqn: u16, replies: Seq<Reply>) -> bool {
    let start = UserFlowControlTest::initial(uart_irqn);
    let now = run::<UserFlowControlTest>(start, replies);
    let n = replies.len();
    &&& now.uart_irqn == uart_irqn
    &&& match now.phase {
        FlowPhase::Claim => n == 0,
        FlowPhase::Open { claim } => n == 1 && replies[0] == Reply::Word(claim),
        FlowPhase::InitHardware { claim } => n == 2 && replies[0] == Reply::Word(claim),
        FlowPhase::Announce { claim } => n == 3 && replies[0] == Reply::Word(claim),
        FlowPhase::ReadTime => n == 4,
        FlowPhase::Arm { deadline } => n == 5 && replies[4] is Word && deadline
            == replies[4]->Word_0 * 1000 + TEST_TIME_US,
        _ => n >= 6,
    }
}

proof fn lemma_setup_history(uart_irqn: u16, replies: Seq<Reply>)
    requires
        driven::<UserFlowControlTest>(UserFlowControlTest::initial(uart_irqn), replies),
    ensures
        setup_history(uart_irqn, replies),
    decreases replies.len(),
{
    if replies.len() > 0 {
        lemma_setup_history(uart_irqn, replies.drop_last());
    }
}

/// What a phase tells of the bytes of both directions and of the change of roles.
spec fn part_history(uart_irqn: u16, replies: Seq<Reply>) -> bool {
    let start = UserFlowControlTest::initial(uart_irqn);
    let now = run::<UserFlowControlTest>(start, replies);
    let sent = offered(start, replies).len();
    let got = received(replies);
    let changed = performed::<UserFlowControlTest>(
        start,
        replies,
        Action::Print(Message::RoleChange),
    );
    &&& now.uart_irqn == uart_irqn
    &&& changed == if now.second {
        1nat
    } else {
        0nat
    }
    &&& if uart_irqn % 2 == 0 {
        if now.second {
            sent == FLOW_BATCH
        } else {
            got.len() == 0
        }
    } else {
        if now.second {
            got.len() == FLOW_BATCH
        } else {
            sent == 0
        }
    }
    &&& match now.phase {
        FlowPhase::AnnounceByte { idx } | FlowPhase::Send { idx } => sent == idx,
        FlowPhase::EndSending => sent == FLOW_BATCH,
        FlowPhase::DropRts | FlowPhase::WaitCts | FlowPhase::AnnounceCts => sent == 0,
        FlowPhase::Receive { count } => got.len() == count,
        FlowPhase::AnnounceRead { byte, count } => got.len() == count + 1 && got.last() == byte,
        FlowPhase::AnnounceRts | FlowPhase::RaiseRts | FlowPhase::WaitData | FlowPhase::LowerRts
        | FlowPhase::AnnounceClear => got.len() == 0,
        FlowPhase::EndReceiving => got.len() == FLOW_BATCH,
        FlowPhase::ChangeRoles => if uart_irqn % 2 == 0 {
            sent == FLOW_BATCH
        } else {
            got.len() == FLOW_BATCH
        },
        FlowPhase::Wait | FlowPhase::Summarise | FlowPhase::CountBytes | FlowPhase::Done => sent
            == FLOW_BATCH && got.len() == FLOW_BATCH,
        _ => sent == 0 && got.len() == 0,
    }
}

proof fn lemma_part_history(uart_irqn: u16, replies: Seq<Reply>)
    requires
        driven::<UserFlowControlTest>(UserFlowControlTest::initial(uart_irqn), replies),
    ensures
        part_history(uart_irqn, replies),
    decreases replies.len(),
{
    let start = UserFlowControlTest::initial(uart_irqn);
    if replies.len() > 0 {
        lemma_part_history(uart_irqn, replies.drop_last());
        law_invariant_holds_throughout::<UserFlowControlTest>(start, replies.drop_last());
    }
}

/// All of these together.
spec fn history(uart_irqn: u16, replies: Seq<Reply>) -> bool {
    &&& setup_history(uart_irqn, replies)
    &&& part_history(uart_irqn, replies)
}

proof fn lemma_history(uart_irqn: u16, replies: Seq<Reply>)
    requires
        driven::<UserFlowControlTest>(UserFlowControlTest::initial(uart_irqn), replies),
    ensures
        history(uart_irqn, replies),
{
    lemma_setup_history(uart_irqn, replies);
    lemma_part_history(uart_irqn, replies);
}

/// The test begins by claiming the interrupt line that it was created for, opening and programming
/// the port behind it, announcing itself with the result of the claim, and arming the timer. An end
/// with an even line then lowers request-to-send, and one with an odd line raises it.
pub proof fn law_flow_control_test_sets_up_its_port(uart_irqn: u16, replies: Seq<Reply>)
    requires
        driven::<UserFlowControlTest>(UserFlowControlTest::initial(uart_irqn), replies),
        replies.len() <= 6,
    ensures
        ({
            let start = UserFlowControlTest::initial(uart_irqn);
            outstanding::<UserFlowControlTest>(start, replies) == Some(
                seq![
                    Action::ClaimExtInt(uart_irqn as usize),
                    Action::OpenSerial(uart_irqn),
                    Action::HardwareInit(BAUD_RATE),
                    Action::Print(Message::RawPollingStart { claim: replies[0]->Word_0 }),
                    Action::GetTime,
                    Action::SetTimer((replies[4]->Word_0 * 1000 + TEST_TIME_US) as isize),
                    Action::SetRts(uart_irqn % 2 == 1),
                ][replies.len() as int],
            )
        }),
{
    lemma_history(uart_irqn, replies);
    if replies.len() > 0 {
        lemma_history(uart_irqn, replies.drop_last());
    }
}

/// Every line that the test claims or opens is the interrupt line that it was created for, and once
/// it looks at the timer or touches a byte or a signal of the port it has claimed and opened that
/// line exactly once.
pub proof fn law_flow_control_test_uses_its_own_line_only(uart_irqn: u16, replies: Seq<Reply>)
    requires
        driven::<UserFlowControlTest>(UserFlowControlTest::initial(uart_irqn), replies),
    ensures
        ({
            let start = UserFlowControlTest::initial(uart_irqn);
            let then = outstanding::<UserFlowControlTest>(start, replies);
            let claimed = performed::<UserFlowControlTest>(
                start,
                replies,
                Action::ClaimExtInt(uart_irqn as usize),
            );
            let opened = performed::<UserFlowControlTest>(
                start,
                replies,
                Action::OpenSerial(uart_irqn),
            );
            &&& match then {
                Some(Action::ClaimExtInt(line)) => line == uart_irqn,
                Some(Action::OpenSerial(line)) => line == uart_irqn,
                Some(Action::EnableExtInt(_)) => false,
                Some(Action::LoadTimeout) | Some(Action::TryWrite(_)) | Some(Action::TryRead)
                | Some(Action::SetRts(_)) => claimed == 1 && opened == 1,
                _ => true,
            }
            &&& claimed <= 1 && opened <= 1
        }),
{
    lemma_history(uart_irqn, replies);
    lemma_lines(uart_irqn, replies);
}

/// Each of the line actions is performed once, early in the set-up.
proof fn lemma_lines(uart_irqn: u16, replies: Seq<Reply>)
    requires
        driven::<UserFlowControlTest>(UserFlowControlTest::initial(uart_irqn), replies),
    ensures
        ({
            let start = UserFlowControlTest::initial(uart_irqn);
            let n = replies.len();
            &&& performed::<UserFlowControlTest>(
                start,
                replies,
                Action::ClaimExtInt(uart_irqn as usize),
            ) == if n == 0 {
                0nat
            } else {
                1nat
            }
            &&& performed::<UserFlowControlTest>(start, replies, Action::OpenSerial(uart_irqn))
                == if n <= 1 {
                0nat
            } else {
                1nat
            }
        }),
    decreases replies.len(),
{
    if replies.len() > 0 {
        lemma_lines(uart_irqn, replies.drop_last());
        lemma_history(uart_irqn, replies.drop_last());
        lemma_history(uart_irqn, replies);
    }
}

/// In the part in which an end sends, it lowers request-to-send, waits until clear-to-send is set,
/// writes the bytes of the batch in order, each again and again while the port makes it wait, and
/// lowers request-to-send again. Before the change of roles it also announces clear-to-send and
/// each byte. After that its part is over.
pub proof fn law_flow_control_test_sends_its_batch(uart_irqn: u16, replies: Seq<Reply>)
    requires
        driven::<UserFlowControlTest>(UserFlowControlTest::initial(uart_irqn), replies),
        replies.len() > 0,
    ensures
        ({
            let start = UserFlowControlTest::initial(uart_irqn);
            let then = outstanding::<UserFlowControlTest>(start, replies);
            let reply = replies.last();
            let sent = offered(start, replies).len();
            let got = received(replies);
            let changed = performed::<UserFlowControlTest>(
                start,
                replies,
                Action::Print(Message::RoleChange),
            ) > 0;
            let sends = (uart_irqn % 2 == 0) != changed;
            let part_over = if !changed {
                Some(Action::Print(Message::RoleChange))
            } else if uart_irqn == 14 || uart_irqn == 6 {
                Some(Action::Sleep(LATE_REPORT_MS))
            } else {
                Some(Action::Print(Message::UartDone(uart_irqn)))
            };
            match last_action::<UserFlowControlTest>(start, replies) {
                Action::SetRts(false) => sends ==> then == if sent == 0 {
                    Some(Action::ReadCts)
                } else {
                    part_over
                },
                Action::ReadCts => then == if reply != Reply::Flag(true) {
                    Some(Action::ReadCts)
                } else if changed {
                    Some(Action::TryWrite(0))
                } else {
                    Some(Action::Print(Message::CtsSet))
                },
                Action::Print(Message::CtsSet) => then == Some(Action::Print(Message::Sending(0))),
                Action::Print(Message::Sending(byte)) => then == Some(Action::TryWrite(byte)),
                Action::TryWrite(byte) => then == if reply
                    == Reply::Wrote(WriteOutcome::WouldBlock) {
                    Some(Action::TryWrite(byte))
                } else if sent == FLOW_BATCH {
                    Some(Action::SetRts(false))
                } else if changed {
                    Some(Action::TryWrite(sent as u8))
                } else {
                    Some(Action::Print(Message::Sending(sent as u8)))
                },
                _ => true,
            }
        }),
{
    let start = UserFlowControlTest::initial(uart_irqn);
    lemma_history(uart_irqn, replies.drop_last());
    lemma_history(uart_irqn, replies);
    law_invariant_holds_throughout::<UserFlowControlTest>(start, replies.drop_last());
}

/// In the part in which an end receives, it raises request-to-send, waits until data is pending,
/// lowers request-to-send and says so, and reads until it has a batch, announcing each byte. After
/// the change of roles it also announces that it raises request-to-send; before the change it
/// lowers request-to-send once more when it has the batch.
pub proof fn law_flow_control_test_receives_its_batch(uart_irqn: u16, replies: Seq<Reply>)
    requires
        driven::<UserFlowControlTest>(UserFlowControlTest::initial(uart_irqn), replies),
        replies.len() > 0,
    ensures
        ({
            let start = UserFlowControlTest::initial(uart_irqn);
            let then = outstanding::<UserFlowControlTest>(start, replies);
            let reply = replies.last();
            let sent = offered(start, replies).len();
            let got = received(replies);
            let changed = performed::<UserFlowControlTest>(
                start,
                replies,
                Action::Print(Message::RoleChange),
            ) > 0;
            let sends = (uart_irqn % 2 == 0) != changed;
            let part_over = if !changed {
                Some(Action::Print(Message::RoleChange))
            } else if uart_irqn == 14 || uart_irqn == 6 {
                Some(Action::Sleep(LATE_REPORT_MS))
            } else {
                Some(Action::Print(Message::UartDone(uart_irqn)))
            };
            match last_action::<UserFlowControlTest>(start, replies) {
                Action::Print(Message::RoleChange) => then == if sends {
                    Some(Action::SetRts(false))
                } else {
                    Some(Action::Print(Message::RtsSet))
                },
                Action::Print(Message::RtsSet) => then == Some(Action::SetRts(true)),
                Action::SetRts(true) => then == Some(Action::ReadDataPending),
                Action::ReadDataPending => then == if reply == Reply::Flag(true) {
                    Some(Action::SetRts(false))
                } else {
                    Some(Action::ReadDataPending)
                },
                Action::SetRts(false) => !sends ==> then == if got.len() == 0 {
                    Some(Action::Print(Message::RtsClear))
                } else {
                    part_over
                },
                Action::Print(Message::RtsClear) => then == Some(Action::TryRead),
                Action::TryRead => then == match reply {
                    Reply::Read(Some(byte)) => Some(Action::Print(Message::Received(byte))),
                    _ => Some(Action::TryRead),
                },
                Action::Print(Message::Received(_)) => then == if got.len() < FLOW_BATCH {
                    Some(Action::TryRead)
                } else if changed {
                    part_over
                } else {
                    Some(Action::SetRts(false))
                },
                _ => true,
            }
        }),
{
    let start = UserFlowControlTest::initial(uart_irqn);
    lemma_history(uart_irqn, replies.drop_last());
    lemma_history(uart_irqn, replies);
    law_invariant_holds_throughout::<UserFlowControlTest>(start, replies.drop_last());
}

/// When both parts are over, the test waits if it is the end that reports late, names its line, and
/// asks the driver for its byte counts. It then is finished, and its result is what the driver
/// answered, received bytes first. A finished test has changed roles once, and has been through a
/// batch in each direction.
pub proof fn law_flow_control_test_reports_and_returns(uart_irqn: u16, replies: Seq<Reply>)
    requires
        driven::<UserFlowControlTest>(UserFlowControlTest::initial(uart_irqn), replies),
        replies.len() > 0,
    ensures
        ({
            let start = UserFlowControlTest::initial(uart_irqn);
            let then = outstanding::<UserFlowControlTest>(start, replies);
            let now = run::<UserFlowControlTest>(start, replies);
            &&& match last_action::<UserFlowControlTest>(start, replies) {
                Action::Sleep(_) => then == Some(Action::Print(Message::UartDone(uart_irqn))),
                Action::Print(Message::UartDone(_)) => then == Some(Action::ByteCounts),
                Action::ByteCounts => then is None,
                _ => then is Some,
            }
            &&& then is None ==> {
                &&& last_action::<UserFlowControlTest>(start, replies) == Action::ByteCounts
                &&& replies.last() == (Reply::Bytes { rx: now.rx_count, tx: now.tx_count })
                &&& performed::<UserFlowControlTest>(
                    start,
                    replies,
                    Action::Print(Message::RoleChange),
                ) == 1
                &&& offered(start, replies).len() == FLOW_BATCH
                &&& received(replies).len() == FLOW_BATCH
            }
        }),
{
    let start = UserFlowControlTest::initial(uart_irqn);
    lemma_history(uart_irqn, replies.drop_last());
    lemma_history(uart_irqn, replies);
    law_invariant_holds_throughout::<UserFlowControlTest>(start, replies.drop_last());
}

/// The test can take every answer of the right shape, whatever it says; only a time of which the
/// end of the test cannot be represented is outside of what it can deal with.
pub proof fn law_flow_control_test_admits_every_answer(
    uart_irqn: u16,
    replies: Seq<Reply>,
    reply: Reply,
)
    requires
        driven::<UserFlowControlTest>(UserFlowControlTest::initial(uart_irqn), replies),
    ensures
        ({
            let start = UserFlowControlTest::initial(uart_irqn);
            let now = run::<UserFlowControlTest>(start, replies);
            let action = UserFlowControlTest::action_of(now);
            !UserFlowControlTest::finished(now) ==> (UserFlowControlTest::accepts(now, reply) <==> {
                &&& reply.kind() == action.wants()
                &&& action is GetTime ==> isize::MIN <= reply->Word_0 * 1000 && reply->Word_0 * 1000
                    + TEST_TIME_US <= isize::MAX

            })
        }),
{
    lemma_history(uart_irqn, replies);
    if replies.len() > 0 {
        lemma_history(uart_irqn, replies.drop_last());
    }
}

} // verus!
