//! What the polling test does, told by its actions and the replies to them.
use vstd::prelude::*;

use crate::device::{Action, Message, Reply, TraceTag, WriteOutcome};
use crate::machine::{
    answered, driven, last_action, law_invariant_holds_throughout, lemma_sending, outstanding,
    performed, positions_read, received, run, written, Machine,
};
use crate::params::{
    BAUD_RATE, LATE_REPORT_MS, MAX_ERROR_CNT, NO_POSITION, SERIAL_POLL_READ, SERIAL_POLL_WRITE,
    TEST_TIME_US,
};
use crate::rng::stream_byte;
use crate::user_polling_test::{
    law_polling_test_counts_mismatches, law_polling_test_keeps_the_last_error_position,
    polling_mismatches, PollingPhase, UserPollingTest,
};

verus! {

/// What a phase tells of the run that led to it.
spec fn history(uart_irqn: u16, serial_number: usize, tx: u8, rx: u8, replies: Seq<Reply>) -> bool {
    let start = UserPollingTest::initial(uart_irqn, serial_number, tx, rx);
    let now = run::<UserPollingTest>(start, replies);
    let n = replies.len();
    let fired = answered::<UserPollingTest>(
        start,
        replies,
        Action::LoadTimeout,
        Reply::Flag(true),
    );
    let got = received(replies);
    &&& now.uart_irqn == uart_irqn
    &&& now.serial_number == serial_number
    &&& match now.phase {
        PollingPhase::Claim => n == 0,
        PollingPhase::Open { claim } => n == 1 && replies[0] == Reply::Word(claim),
        PollingPhase::InitHardware { claim } => n == 2 && replies[0] == Reply::Word(claim),
        PollingPhase::Announce { claim } => n == 3 && replies[0] == Reply::Word(claim),
        PollingPhase::ReadTime => n == 4,
        PollingPhase::Arm { deadline } => n == 5 && replies[4] is Word && deadline
            == replies[4]->Word_0 * 1000 + TEST_TIME_US,
        PollingPhase::ReadDcts => n == 6,
        PollingPhase::TraceTestEnter => n == 7,
        PollingPhase::CheckTimeout => n >= 8,
        PollingPhase::FindPosition { byte } | PollingPhase::Report { byte } => n > 8 && got.len()
            > 0 && got.last() == byte,
        _ => n > 8,
    }
    &&& match now.phase {
        PollingPhase::TraceTestExit | PollingPhase::Wait | PollingPhase::Summarise
        | PollingPhase::Count | PollingPhase::Done => fired <= 1 && (fired == 1
            || now.error_count > MAX_ERROR_CNT),
        _ => fired == 0,
    }
}

proof fn lemma_history(uart_irqn: u16, serial_number: usize, tx: u8, rx: u8, replies: Seq<Reply>)
    requires
        driven::<UserPollingTest>(
            UserPollingTest::initial(uart_irqn, serial_number, tx, rx),
            replies,
        ),
    ensures
        history(uart_irqn, serial_number, tx, rx, replies),
    decreases replies.len(),
{
    if replies.len() > 0 {
        lemma_history(uart_irqn, serial_number, tx, rx, replies.drop_last());
        law_invariant_holds_throughout::<UserPollingTest>(
            UserPollingTest::initial(uart_irqn, serial_number, tx, rx),
            replies.drop_last(),
        );
    }
}

/// The test begins by claiming the interrupt line that it was created for, opening and programming
/// the port behind it, announcing itself with the result of the claim, arming the timer, and
/// dropping a stale delta-CTS flag; only then does it look at the timer for the first time.
pub proof fn law_polling_test_sets_up_its_port(
    uart_irqn: u16,
    serial_number: usize,
    tx: u8,
    rx: u8,
    replies: Seq<Reply>,
)
    requires
        driven::<UserPollingTest>(
            UserPollingTest::initial(uart_irqn, serial_number, tx, rx),
            replies,
        ),
        replies.len() <= 8,
    ensures
        ({
            let start = UserPollingTest::initial(uart_irqn, serial_number, tx, rx);
            outstanding::<UserPollingTest>(start, replies) == Some(
                seq![
                    Action::ClaimExtInt(uart_irqn as usize),
                    Action::OpenSerial(uart_irqn),
                    Action::HardwareInit(BAUD_RATE),
                    Action::Print(
                        Message::PollingStart {
                            serial_number,
                            batch: 0,
                            claim: replies[0]->Word_0,
                        },
                    ),
                    Action::GetTime,
                    Action::SetTimer((replies[4]->Word_0 * 1000 + TEST_TIME_US) as isize),
                    Action::ReadDcts,
                    Action::Trace(TraceTag::TestEnter),
                    Action::LoadTimeout,
                ][replies.len() as int],
            )
        }),
{
    lemma_history(uart_irqn, serial_number, tx, rx, replies);
    if replies.len() > 0 {
        lemma_history(uart_irqn, serial_number, tx, rx, replies.drop_last());
    }
}

/// Every line that the test claims or opens is the interrupt line that it was created for, and once
/// it looks at the timer or touches a byte or a signal of the port it has claimed and opened that
/// line exactly once.
pub proof fn law_polling_test_uses_its_own_line_only(
    uart_irqn: u16,
    serial_number: usize,
    tx: u8,
    rx: u8,
    replies: Seq<Reply>,
)
    requires
        driven::<UserPollingTest>(
            UserPollingTest::initial(uart_irqn, serial_number, tx, rx),
            replies,
        ),
    ensures
        ({
            let start = UserPollingTest::initial(uart_irqn, serial_number, tx, rx);
            let then = outstanding::<UserPollingTest>(start, replies);
            let claimed = performed::<UserPollingTest>(
                start,
                replies,
                Action::ClaimExtInt(uart_irqn as usize),
            );
            let opened = performed::<UserPollingTest>(
                start,
                replies,
                Action::OpenSerial(uart_irqn),
            );
            &&& match then {
                Some(Action::ClaimExtInt(line)) => line == uart_irqn,
                Some(Action::OpenSerial(line)) => line == uart_irqn,
                Some(Action::EnableExtInt(_)) => false,
                Some(Action::LoadTimeout) | Some(Action::TryWrite(_)) | Some(Action::TryRead)
                | Some(Action::SetRts(_)) => claimed == 1 && opened == 1,
                _ => true,
            }
            &&& claimed <= 1 && opened <= 1
        }),
{
    lemma_history(uart_irqn, serial_number, tx, rx, replies);
    lemma_lines(uart_irqn, serial_number, tx, rx, replies);
}

/// Each of the line actions is performed once, early in the set-up.
proof fn lemma_lines(uart_irqn: u16, serial_number: usize, tx: u8, rx: u8, replies: Seq<Reply>)
    requires
        driven::<UserPollingTest>(
            UserPollingTest::initial(uart_irqn, serial_number, tx, rx),
            replies,
        ),
    ensures
        ({
            let start = UserPollingTest::initial(uart_irqn, serial_number, tx, rx);
            let n = replies.len();
            &&& performed::<UserPollingTest>(
                start,
                replies,
                Action::ClaimExtInt(uart_irqn as usize),
            ) == if n == 0 {
                0nat
            } else {
                1nat
            }
            &&& performed::<UserPollingTest>(start, replies, Action::OpenSerial(uart_irqn)) == if n
                <= 1 {
                0nat
            } else {
                1nat
            }
        }),
    decreases replies.len(),
{
    if replies.len() > 0 {
        lemma_lines(uart_irqn, serial_number, tx, rx, replies.drop_last());
        lemma_history(uart_irqn, serial_number, tx, rx, replies.drop_last());
        lemma_history(uart_irqn, serial_number, tx, rx, replies);
    }
}

/// In every round the test lets the driver clear line errors and then offers the port the next byte
/// of its stream, again and again until the port does not take it; nothing else comes in between,
/// and reading comes after that.
pub proof fn law_polling_test_sends_in_every_round(
    uart_irqn: u16,
    serial_number: usize,
    tx: u8,
    rx: u8,
    replies: Seq<Reply>,
)
    requires
        driven::<UserPollingTest>(
            UserPollingTest::initial(uart_irqn, serial_number, tx, rx),
            replies,
        ),
        replies.len() > 0,
    ensures
        ({
            let start = UserPollingTest::initial(uart_irqn, serial_number, tx, rx);
            let then = outstanding::<UserPollingTest>(start, replies);
            let next_byte = stream_byte(
                tx,
                written::<UserPollingTest>(start, replies).len() as int,
            );
            match last_action::<UserPollingTest>(start, replies) {
                Action::LoadTimeout => replies.last() == Reply::Flag(false) ==> then == Some(
                    Action::HandleLineErrors,
                ),
                Action::HandleLineErrors => then == Some(
                    Action::Trace(TraceTag::CallEnter(SERIAL_POLL_WRITE)),
                ),
                Action::TryWrite(_) => then == if replies.last()
                    == Reply::Wrote(WriteOutcome::Written) {
                    Some(Action::TryWrite(next_byte))
                } else {
                    Some(Action::Trace(TraceTag::CallExit(SERIAL_POLL_WRITE)))
                },
                Action::Trace(tag) => {
                    &&& tag == TraceTag::CallEnter(SERIAL_POLL_WRITE) ==> then == Some(
                        Action::TryWrite(next_byte),
                    )
                    &&& tag == TraceTag::CallExit(SERIAL_POLL_WRITE) ==> then == Some(
                        Action::Trace(TraceTag::CallEnter(SERIAL_POLL_READ)),
                    )
                    &&& tag == TraceTag::CallEnter(SERIAL_POLL_READ)
                        ==> then == Some(Action::TryRead)
                },
                _ => true,
            }
        }),
{
    let start = UserPollingTest::initial(uart_irqn, serial_number, tx, rx);
    lemma_history(uart_irqn, serial_number, tx, rx, replies.drop_last());
    lemma_sending::<UserPollingTest>(start, replies, |t: UserPollingTest| t.next_tx, tx);
}

/// In every round the test reads until the port has no byte left. A byte other than the expected
/// one makes it ask the driver for the position and report that position, the expected byte and the
/// received one; it stops reading before the port is empty only with more than `MAX_ERROR_CNT`
/// errors.
pub proof fn law_polling_test_reads_until_nothing_is_left(
    uart_irqn: u16,
    serial_number: usize,
    tx: u8,
    rx: u8,
    replies: Seq<Reply>,
)
    requires
        driven::<UserPollingTest>(
            UserPollingTest::initial(uart_irqn, serial_number, tx, rx),
            replies,
        ),
        replies.len() > 0,
    ensures
        ({
            let start = UserPollingTest::initial(uart_irqn, serial_number, tx, rx);
            let then = outstanding::<UserPollingTest>(start, replies);
            let reply = replies.last();
            let expected = stream_byte(rx, polling_mismatches(rx, received(replies)).0 as int);
            let errors = polling_mismatches(rx, received(replies)).1;
            let done = Some(Action::Trace(TraceTag::CallExit(SERIAL_POLL_READ)));
            match last_action::<UserPollingTest>(start, replies) {
                Action::TryRead => match reply {
                    Reply::Read(Some(byte)) => {
                        let earlier = received(replies.drop_last());
                        let wanted = stream_byte(rx, polling_mismatches(rx, earlier).0 as int);
                        then == if byte == wanted {
                            Some(Action::TryRead)
                        } else {
                            Some(Action::RxCount)
                        }
                    },
                    _ => then == done,
                },
                Action::RxCount => then == Some(
                    Action::Print(
                        Message::ErrorAt {
                            serial_number,
                            position: reply->Count_0 as isize,
                            expected,
                            received: received(replies).last(),
                        },
                    ),
                ),
                Action::Print(Message::ErrorAt { .. }) => then == if errors > MAX_ERROR_CNT {
                    done
                } else {
                    Some(Action::TryRead)
                },
                _ => true,
            }
        }),
{
    lemma_history(uart_irqn, serial_number, tx, rx, replies.drop_last());
    law_polling_test_counts_mismatches(uart_irqn, serial_number, tx, rx, replies.drop_last());
    law_polling_test_counts_mismatches(uart_irqn, serial_number, tx, rx, replies);
}

/// A byte counts as an error exactly if it is not the one in the place of the peer's stream that
/// the expectation has come to; every byte either moves the expectation by one or is an error.
pub proof fn law_polling_errors_of_one_byte(rx: u8, bytes: Seq<u8>, byte: u8)
    ensures
        ({
            let (moved, errors) = polling_mismatches(rx, bytes);
            let (moved_on, errors_then) = polling_mismatches(rx, bytes.push(byte));
            &&& moved + errors == bytes.len()
            &&& errors_then == errors <==> byte == stream_byte(rx, moved as int)
            &&& moved_on == moved <==> byte != stream_byte(rx, moved as int)
            &&& errors <= errors_then <= errors + 1
        }),
    decreases bytes.len(),
{
    assert(bytes.push(byte).drop_last() =~= bytes);
    if bytes.len() > 0 {
        law_polling_errors_of_one_byte(rx, bytes.drop_last(), bytes.last());
    }
}

/// The test goes on with its loop until it sees that the timer has fired or has counted more than
/// `MAX_ERROR_CNT` errors: it checks the timer after every round that does not bring the errors
/// over that limit, and when it is past its loop, or finished, one of the two has happened.
pub proof fn law_polling_test_leaves_its_loop_for_a_reason(
    uart_irqn: u16,
    serial_number: usize,
    tx: u8,
    rx: u8,
    replies: Seq<Reply>,
)
    requires
        driven::<UserPollingTest>(
            UserPollingTest::initial(uart_irqn, serial_number, tx, rx),
            replies,
        ),
    ensures
        ({
            let start = UserPollingTest::initial(uart_irqn, serial_number, tx, rx);
            let then = outstanding::<UserPollingTest>(start, replies);
            let errors = polling_mismatches(rx, received(replies)).1;
            let fired = answered::<UserPollingTest>(
                start,
                replies,
                Action::LoadTimeout,
                Reply::Flag(true),
            );
            let exits = performed::<UserPollingTest>(
                start,
                replies,
                Action::Trace(TraceTag::TestExit),
            );
            let left = then is None || exits > 0 || then == Some(Action::Trace(TraceTag::TestExit));
            &&& left ==> fired == 1 || errors > MAX_ERROR_CNT
            &&& fired == 1 ==> left
            &&& replies.len() > 0
                && last_action::<UserPollingTest>(start, replies) == Action::Trace(
                TraceTag::CallExit(SERIAL_POLL_READ),
            ) ==> then == if errors > MAX_ERROR_CNT {
                Some(Action::Trace(TraceTag::TestExit))
            } else {
                Some(Action::LoadTimeout)
            }
        }),
{
    lemma_history(uart_irqn, serial_number, tx, rx, replies);
    lemma_exits(uart_irqn, serial_number, tx, rx, replies);
    law_polling_test_counts_mismatches(uart_irqn, serial_number, tx, rx, replies);
    if replies.len() > 0 {
        lemma_history(uart_irqn, serial_number, tx, rx, replies.drop_last());
    }
}

/// The end of the loop is traced once, right after it.
proof fn lemma_exits(uart_irqn: u16, serial_number: usize, tx: u8, rx: u8, replies: Seq<Reply>)
    requires
        driven::<UserPollingTest>(
            UserPollingTest::initial(uart_irqn, serial_number, tx, rx),
            replies,
        ),
    ensures
        ({
            let start = UserPollingTest::initial(uart_irqn, serial_number, tx, rx);
            let exits = performed::<UserPollingTest>(
                start,
                replies,
                Action::Trace(TraceTag::TestExit),
            );
            exits == match run::<UserPollingTest>(start, replies).phase {
                PollingPhase::Wait | PollingPhase::Summarise | PollingPhase::Count
                | PollingPhase::Done => 1nat,
                _ => 0nat,
            }
        }),
    decreases replies.len(),
{
    if replies.len() > 0 {
        lemma_exits(uart_irqn, serial_number, tx, rx, replies.drop_last());
    }
}

/// After its loop the test waits if it is the end that reports late, reports the position of the
/// last error, and asks the driver for its byte counts. It then is finished, and its result is what
/// the driver answered, received bytes first, and the number of bytes that were not the expected
/// one.
pub proof fn law_polling_test_reports_and_returns(
    uart_irqn: u16,
    serial_number: usize,
    tx: u8,
    rx: u8,
    replies: Seq<Reply>,
)
    requires
        driven::<UserPollingTest>(
            UserPollingTest::initial(uart_irqn, serial_number, tx, rx),
            replies,
        ),
        replies.len() > 0,
    ensures
        ({
            let start = UserPollingTest::initial(uart_irqn, serial_number, tx, rx);
            let then = outstanding::<UserPollingTest>(start, replies);
            let now = run::<UserPollingTest>(start, replies);
            let positions = positions_read::<UserPollingTest>(start, replies);
            let summary = Some(
                Action::Print(
                    Message::PollingEnd {
                        serial_number,
                        err_pos: if positions.len() == 0 {
                            NO_POSITION
                        } else {
                            positions.last() as isize
                        },
                        empty_read: 0,
                    },
                ),
            );
            &&& match last_action::<UserPollingTest>(start, replies) {
                Action::Trace(TraceTag::TestExit) => then == if uart_irqn == 14 || uart_irqn == 6 {
                    Some(Action::Sleep(LATE_REPORT_MS))
                } else {
                    summary
                },
                Action::Sleep(_) => then == summary,
                Action::Print(Message::PollingEnd { .. }) => then == Some(Action::ByteCounts),
                Action::ByteCounts => then is None,
                _ => then is Some,
            }
            &&& then is None ==> {
                &&& last_action::<UserPollingTest>(start, replies) == Action::ByteCounts
                &&& replies.last() == (Reply::Bytes { rx: now.rx_count, tx: now.tx_count })
                &&& now.error_count == polling_mismatches(rx, received(replies)).1
            }
        }),
{
    lemma_history(uart_irqn, serial_number, tx, rx, replies.drop_last());
    law_polling_test_counts_mismatches(uart_irqn, serial_number, tx, rx, replies);
    law_polling_test_keeps_the_last_error_position(uart_irqn, serial_number, tx, rx, replies);
}

/// The generators are always left where the streams have come to: that of sent bytes after the
/// bytes that the port took and the one that is offered next, that of expected bytes after those
/// that were received as expected and the one that is expected next.
pub proof fn law_polling_test_leaves_its_generators(
    uart_irqn: u16,
    serial_number: usize,
    tx: u8,
    rx: u8,
    replies: Seq<Reply>,
)
    requires
        driven::<UserPollingTest>(
            UserPollingTest::initial(uart_irqn, serial_number, tx, rx),
            replies,
        ),
    ensures
        ({
            let start = UserPollingTest::initial(uart_irqn, serial_number, tx, rx);
            let now = run::<UserPollingTest>(start, replies);
            &&& now.tx.x == stream_byte(tx, written::<UserPollingTest>(start, replies).len() as int)
            &&& now.rx.x == stream_byte(rx, polling_mismatches(rx, received(replies)).0 as int)
        }),
{
    let start = UserPollingTest::initial(uart_irqn, serial_number, tx, rx);
    lemma_sending::<UserPollingTest>(start, replies, |t: UserPollingTest| t.next_tx, tx);
    law_invariant_holds_throughout::<UserPollingTest>(start, replies);
    law_polling_test_counts_mismatches(uart_irqn, serial_number, tx, rx, replies);
}

/// The test can take every answer of the right shape, whatever it says; only a time of which the
/// end of the test cannot be represented is outside of what it can deal with.
pub proof fn law_polling_test_admits_every_answer(
    uart_irqn: u16,
    serial_number: usize,
    tx: u8,
    rx: u8,
    replies: Seq<Reply>,
    reply: Reply,
)
    requires
        driven::<UserPollingTest>(
            UserPollingTest::initial(uart_irqn, serial_number, tx, rx),
            replies,
        ),
    ensures
        ({
            let start = UserPollingTest::initial(uart_irqn, serial_number, tx, rx);
            let now = run::<UserPollingTest>(start, replies);
            let action = UserPollingTest::action_of(now);
            !UserPollingTest::finished(now) ==> (UserPollingTest::accepts(now, reply) <==> {
                &&& reply.kind() == action.wants()
                &&& action is GetTime ==> isize::MIN <= reply->Word_0 * 1000 && reply->Word_0 * 1000
                    + TEST_TIME_US <= isize::MAX
            })
        }),
{

}

} // verus!
