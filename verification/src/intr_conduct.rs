//! What the interrupt test does, told by its actions and the replies to them.
use vstd::prelude::*;

use crate::device::{Action, Message, Reply, TraceTag, WriteOutcome};
use crate::machine::{
    answered, driven, last_action, law_invariant_holds_throughout, lemma_sending, outstanding,
    performed, positions_read, received, run, traced, unmasked, written, Machine,
};
use crate::params::{
    BAUD_RATE, LATE_REPORT_MS, MAX_ERROR_CNT, NO_POSITION, SERIAL_INTR_READ, SERIAL_INTR_WRITE,
    TEST_TIME_US,
};
use crate::rng::{lemma_stream_byte_after, stream_byte};
use crate::service::{completions, Service};
use crate::user_intr_test::{
    intr_error_pending, intr_mismatches, law_intr_test_counts_mismatches,
    law_intr_test_unmasks_only_in_its_loop, IntrPhase, UserIntrTest,
};

verus! {

/// What a phase tells of the replies to the set-up.
spec fn setup_history(
    uart_irqn: u16,
    serial_number: usize,
    tx: u8,
    rx: u8,
    replies: Seq<Reply>,
) -> bool {
    let start = UserIntrTest::initial(uart_irqn, serial_number, tx, rx);
    let now = run::<UserIntrTest>(start, replies);
    let n = replies.len();
    &&& now.uart_irqn == uart_irqn
    &&& now.serial_number == serial_number
    &&& match now.phase {
        IntrPhase::Mask => n == 0,
        IntrPhase::Claim => n == 1,
        IntrPhase::Open { claim } => n == 2 && replies[1] == Reply::Word(claim),
        IntrPhase::InitHardware { claim } => n == 3 && replies[1] == Reply::Word(claim),
        IntrPhase::Enable { claim } => n == 4 && replies[1] == Reply::Word(claim),
        IntrPhase::Announce { claim, enable } => n == 5 && replies[1] == Reply::Word(claim)
            && replies[4] == Reply::Word(enable),
        IntrPhase::ReadTime => n == 6,
        IntrPhase::Arm { deadline } => n == 7 && replies[6] is Word && deadline
            == replies[6]->Word_0 * 1000 + TEST_TIME_US,
        IntrPhase::ReadDcts => n == 8,
        IntrPhase::TraceTestEnter => n == 9,
        IntrPhase::Unmask => n == 10,
        IntrPhase::CheckTimeout => n >= 11,
        _ => n > 11,
    }
}

proof fn lemma_setup_history(
    uart_irqn: u16,
    serial_number: usize,
    tx: u8,
    rx: u8,
    replies: Seq<Reply>,
)
    requires
        driven::<UserIntrTest>(UserIntrTest::initial(uart_irqn, serial_number, tx, rx), replies),
    ensures
        setup_history(uart_irqn, serial_number, tx, rx, replies),
    decreases replies.len(),
{
    if replies.len() > 0 {
        lemma_setup_history(uart_irqn, serial_number, tx, rx, replies.drop_last());
    }
}

/// What a phase tells of the bytes that were received and of the error position.
spec fn error_history(
    uart_irqn: u16,
    serial_number: usize,
    tx: u8,
    rx: u8,
    replies: Seq<Reply>,
) -> bool {
    let start = UserIntrTest::initial(uart_irqn, serial_number, tx, rx);
    let now = run::<UserIntrTest>(start, replies);
    let got = received(replies);
    let positions = positions_read::<UserIntrTest>(start, replies);
    &&& now.err_pos == if positions.len() == 0 {
        NO_POSITION
    } else {
        positions.last() as isize
    }
    &&& match now.phase {
        IntrPhase::FindPosition { byte } | IntrPhase::Report { byte, .. } => {
            &&& got.len() > 0
            &&& got.last() == byte
            &&& byte != now.expect_rx
            &&& now.expect_rx == stream_byte(rx, intr_mismatches(rx, got.drop_last()).0 as int)
        },
        _ => true,
    }
}

proof fn lemma_error_history(
    uart_irqn: u16,
    serial_number: usize,
    tx: u8,
    rx: u8,
    replies: Seq<Reply>,
)
    requires
        driven::<UserIntrTest>(UserIntrTest::initial(uart_irqn, serial_number, tx, rx), replies),
    ensures
        error_history(uart_irqn, serial_number, tx, rx, replies),
    decreases replies.len(),
{
    let start = UserIntrTest::initial(uart_irqn, serial_number, tx, rx);
    if replies.len() > 0 {
        lemma_error_history(uart_irqn, serial_number, tx, rx, replies.drop_last());
        law_invariant_holds_throughout::<UserIntrTest>(start, replies.drop_last());
        law_intr_test_counts_mismatches(uart_irqn, serial_number, tx, rx, replies.drop_last());
        if let Reply::Read(Some(byte)) = replies.last() {
            let got = received(replies.drop_last());
            assert(got.push(byte).drop_last() =~= got);
        }
    }
}

/// Whether a completion has begun and not ended, according to the phase.
spec fn service_history(
    uart_irqn: u16,
    serial_number: usize,
    tx: u8,
    rx: u8,
    replies: Seq<Reply>,
) -> bool {
    let start = UserIntrTest::initial(uart_irqn, serial_number, tx, rx);
    let now = run::<UserIntrTest>(start, replies);
    let open = completions(traced::<UserIntrTest>(start, replies)).open;
    match now.phase {
        IntrPhase::Service(Service::Complete { ctx })
        | IntrPhase::Service(Service::FindContextAgain { ctx }) => open == Some(ctx),
        IntrPhase::Service(Service::TraceExit { ctx, after }) => open == Some(ctx),
        _ => open is None,
    }
}

proof fn lemma_service_history(
    uart_irqn: u16,
    serial_number: usize,
    tx: u8,
    rx: u8,
    replies: Seq<Reply>,
)
    requires
        driven::<UserIntrTest>(UserIntrTest::initial(uart_irqn, serial_number, tx, rx), replies),
    ensures
        service_history(uart_irqn, serial_number, tx, rx, replies),
    decreases replies.len(),
{
    let start = UserIntrTest::initial(uart_irqn, serial_number, tx, rx);
    if replies.len() > 0 {
        lemma_service_history(uart_irqn, serial_number, tx, rx, replies.drop_last());
        let earlier = traced::<UserIntrTest>(start, replies.drop_last());
        if let Action::Trace(tag) = last_action::<UserIntrTest>(start, replies) {
            assert(earlier.push(tag).drop_last() =~= earlier);
        }
    }
}

/// What a phase tells of why the loop was left.
spec fn exit_history(
    uart_irqn: u16,
    serial_number: usize,
    tx: u8,
    rx: u8,
    replies: Seq<Reply>,
) -> bool {
    let start = UserIntrTest::initial(uart_irqn, serial_number, tx, rx);
    let now = run::<UserIntrTest>(start, replies);
    let fired = answered::<UserIntrTest>(start, replies, Action::LoadTimeout, Reply::Flag(true));
    let masks = performed::<UserIntrTest>(start, replies, Action::ClearUserIntr);
    match now.phase {
        IntrPhase::Mask => fired == 0 && masks == 0,
        IntrPhase::MaskAgain => masks == 1 && fired <= 1 && (fired == 1 || now.error_count
            > MAX_ERROR_CNT),
        IntrPhase::TraceTestExit | IntrPhase::Wait | IntrPhase::CountIntrs
        | IntrPhase::Summarise { .. } | IntrPhase::CountBytes | IntrPhase::Done => masks == 2
            && fired <= 1 && (fired == 1 || now.error_count > MAX_ERROR_CNT),
        _ => fired == 0 && masks == 1,
    }
}

proof fn lemma_exit_history(
    uart_irqn: u16,
    serial_number: usize,
    tx: u8,
    rx: u8,
    replies: Seq<Reply>,
)
    requires
        driven::<UserIntrTest>(UserIntrTest::initial(uart_irqn, serial_number, tx, rx), replies),
    ensures
        exit_history(uart_irqn, serial_number, tx, rx, replies),
    decreases replies.len(),
{
    if replies.len() > 0 {
        lemma_exit_history(uart_irqn, serial_number, tx, rx, replies.drop_last());
    }
}

/// All of these together.
spec fn history(uart_irqn: u16, serial_number: usize, tx: u8, rx: u8, replies: Seq<Reply>) -> bool {
    &&& setup_history(uart_irqn, serial_number, tx, rx, replies)
    &&& error_history(uart_irqn, serial_number, tx, rx, replies)
    &&& service_history(uart_irqn, serial_number, tx, rx, replies)
    &&& exit_history(uart_irqn, serial_number, tx, rx, replies)
}

proof fn lemma_history(uart_irqn: u16, serial_number: usize, tx: u8, rx: u8, replies: Seq<Reply>)
    requires
        driven::<UserIntrTest>(UserIntrTest::initial(uart_irqn, serial_number, tx, rx), replies),
    ensures
        history(uart_irqn, serial_number, tx, rx, replies),
{
    lemma_setup_history(uart_irqn, serial_number, tx, rx, replies);
    lemma_error_history(uart_irqn, serial_number, tx, rx, replies);
    lemma_service_history(uart_irqn, serial_number, tx, rx, replies);
    lemma_exit_history(uart_irqn, serial_number, tx, rx, replies);
}

/// The test begins by masking the user interrupts, claiming the interrupt line that it was created
/// for, opening and programming the port behind that line, and enabling the same line. It announces
/// itself with the results of the claim and of the enabling, arms the timer, drops a stale
/// delta-CTS flag, and unmasks the interrupts; only then does it look at the timer.
pub proof fn law_intr_test_sets_up_its_port(
    uart_irqn: u16,
    serial_number: usize,
    tx: u8,
    rx: u8,
    replies: Seq<Reply>,
)
    requires
        driven::<UserIntrTest>(UserIntrTest::initial(uart_irqn, serial_number, tx, rx), replies),
        replies.len() <= 11,
    ensures
        ({
            let start = UserIntrTest::initial(uart_irqn, serial_number, tx, rx);
            outstanding::<UserIntrTest>(start, replies) == Some(
                seq![
                    Action::ClearUserIntr,
                    Action::ClaimExtInt(uart_irqn as usize),
                    Action::OpenSerial(uart_irqn),
                    Action::HardwareInit(BAUD_RATE),
                    Action::EnableExtInt(uart_irqn as usize),
                    Action::Print(
                        Message::IntrStart {
                            serial_number,
                            claim: replies[1]->Word_0,
                            enable: replies[4]->Word_0,
                        },
                    ),
                    Action::GetTime,
                    Action::SetTimer((replies[6]->Word_0 * 1000 + TEST_TIME_US) as isize),
                    Action::ReadDcts,
                    Action::Trace(TraceTag::TestEnter),
                    Action::SetUserIntr,
                    Action::LoadTimeout,
                ][replies.len() as int],
            )
        }),
{
    lemma_history(uart_irqn, serial_number, tx, rx, replies);
    if replies.len() > 0 {
        lemma_history(uart_irqn, serial_number, tx, rx, replies.drop_last());
    }
}

/// Every line that the test claims, enables, opens or completes is the interrupt line that it was
/// created for; and whenever the interrupts are unmasked, or about to be, it has claimed, opened
/// and enabled that line exactly once.
pub proof fn law_intr_test_uses_its_own_line_only(
    uart_irqn: u16,
    serial_number: usize,
    tx: u8,
    rx: u8,
    replies: Seq<Reply>,
)
    requires
        driven::<UserIntrTest>(UserIntrTest::initial(uart_irqn, serial_number, tx, rx), replies),
    ensures
        ({
            let start = UserIntrTest::initial(uart_irqn, serial_number, tx, rx);
            let line = uart_irqn as usize;
            let enabled = performed::<UserIntrTest>(start, replies, Action::EnableExtInt(line));
            let claimed = performed::<UserIntrTest>(start, replies, Action::ClaimExtInt(line));
            let opened = performed::<UserIntrTest>(start, replies, Action::OpenSerial(uart_irqn));
            let then = outstanding::<UserIntrTest>(start, replies);
            &&& match then {
                Some(Action::ClaimExtInt(other)) => other == line,
                Some(Action::EnableExtInt(other)) => other == line,
                Some(Action::OpenSerial(other)) => other == uart_irqn,
                Some(Action::CompleteIrq { ctx, irqn: other }) => other == uart_irqn,
                _ => true,
            }
            &&& enabled <= 1 && claimed <= 1 && opened <= 1
            &&& then == Some(Action::SetUserIntr)
                || unmasked::<UserIntrTest>(start, replies) == Some(true)
                ==> enabled == 1 && claimed == 1 && opened == 1
        }),
{
    let start = UserIntrTest::initial(uart_irqn, serial_number, tx, rx);
    lemma_history(uart_irqn, serial_number, tx, rx, replies);
    let line = uart_irqn as usize;
    lemma_lines(uart_irqn, serial_number, tx, rx, replies);
    if replies.len() > 0 {
        law_intr_test_unmasks_only_in_its_loop(uart_irqn, serial_number, tx, rx, replies);
    }
}

/// Each of the line actions is performed once, in its phase.
proof fn lemma_lines(uart_irqn: u16, serial_number: usize, tx: u8, rx: u8, replies: Seq<Reply>)
    requires
        driven::<UserIntrTest>(UserIntrTest::initial(uart_irqn, serial_number, tx, rx), replies),
    ensures
        ({
            let start = UserIntrTest::initial(uart_irqn, serial_number, tx, rx);
            let now = run::<UserIntrTest>(start, replies);
            let line = uart_irqn as usize;
            let n = replies.len();
            &&& performed::<UserIntrTest>(start, replies, Action::ClaimExtInt(line)) == if n <= 1 {
                0nat
            } else {
                1nat
            }
            &&& performed::<UserIntrTest>(start, replies, Action::OpenSerial(uart_irqn)) == if n
                <= 2 {
                0nat
            } else {
                1nat
            }
            &&& performed::<UserIntrTest>(start, replies, Action::EnableExtInt(line)) == if n <= 4 {
                0nat
            } else {
                1nat
            }
        }),
    decreases replies.len(),
{
    if replies.len() > 0 {
        lemma_lines(uart_irqn, serial_number, tx, rx, replies.drop_last());
        lemma_history(uart_irqn, serial_number, tx, rx, replies.drop_last());
        lemma_history(uart_irqn, serial_number, tx, rx, replies);
    }
}

/// In every round the test offers the port the next byte of its stream, again and again until the
/// port does not take it; nothing else comes in between, and reading comes after that.
pub proof fn law_intr_test_sends_in_every_round(
    uart_irqn: u16,
    serial_number: usize,
    tx: u8,
    rx: u8,
    replies: Seq<Reply>,
)
    requires
        driven::<UserIntrTest>(UserIntrTest::initial(uart_irqn, serial_number, tx, rx), replies),
        replies.len() > 0,
    ensures
        ({
            let start = UserIntrTest::initial(uart_irqn, serial_number, tx, rx);
            let then = outstanding::<UserIntrTest>(start, replies);
            let next_byte = stream_byte(tx, written::<UserIntrTest>(start, replies).len() as int);
            match last_action::<UserIntrTest>(start, replies) {
                Action::LoadTimeout => replies.last() == Reply::Flag(false) ==> then == Some(
                    Action::Trace(TraceTag::CallEnter(SERIAL_INTR_WRITE)),
                ),
                Action::TryWrite(_) => then == if replies.last()
                    == Reply::Wrote(WriteOutcome::Written) {
                    Some(Action::TryWrite(next_byte))
                } else {
                    Some(Action::Trace(TraceTag::CallExit(SERIAL_INTR_WRITE)))
                },
                Action::Trace(tag) => {
                    &&& tag == TraceTag::CallEnter(SERIAL_INTR_WRITE) ==> then == Some(
                        Action::TryWrite(next_byte),
                    )
                    &&& tag == TraceTag::CallExit(SERIAL_INTR_WRITE) ==> then == Some(
                        Action::Trace(TraceTag::CallEnter(SERIAL_INTR_READ)),
                    )
                    &&& tag == TraceTag::CallEnter(SERIAL_INTR_READ)
                        ==> then == Some(Action::TryRead)
                },
                _ => true,
            }
        }),
{
    let start = UserIntrTest::initial(uart_irqn, serial_number, tx, rx);
    lemma_history(uart_irqn, serial_number, tx, rx, replies.drop_last());
    lemma_sending::<UserIntrTest>(start, replies, |t: UserIntrTest| t.next_tx, tx);
}

/// In every round the test reads until the port has no byte left. For a byte other than the
/// expected one it reports the known error position, the expected byte and the received one; as
/// long as no position is known, it first asks the driver for it. It stops reading before the port
/// is empty only with more than `MAX_ERROR_CNT` errors.
pub proof fn law_intr_test_reads_until_nothing_is_left(
    uart_irqn: u16,
    serial_number: usize,
    tx: u8,
    rx: u8,
    replies: Seq<Reply>,
)
    requires
        driven::<UserIntrTest>(UserIntrTest::initial(uart_irqn, serial_number, tx, rx), replies),
        replies.len() > 0,
    ensures
        ({
            let start = UserIntrTest::initial(uart_irqn, serial_number, tx, rx);
            let then = outstanding::<UserIntrTest>(start, replies);
            let reply = replies.last();
            let got = received(replies);
            let errors = intr_mismatches(rx, got).1;
            let expected = stream_byte(rx, intr_mismatches(rx, got.drop_last()).0 as int);
            let positions = positions_read::<UserIntrTest>(start, replies);
            let known = positions.len() > 0 && positions.last() as isize != NO_POSITION;
            let done = Some(Action::Trace(TraceTag::CallExit(SERIAL_INTR_READ)));
            let report = Some(
                Action::Print(
                    Message::ErrorAt {
                        serial_number,
                        position: positions.last() as isize,
                        expected,
                        received: got.last(),
                    },
                ),
            );
            match last_action::<UserIntrTest>(start, replies) {
                Action::TryRead => match reply {
                    Reply::Read(Some(byte)) => then == if byte == expected {
                        Some(Action::TryRead)
                    } else if known {
                        report
                    } else {
                        Some(Action::RxCount)
                    },
                    _ => then == done,
                },
                Action::RxCount => positions.last() == reply->Count_0 && then == report,
                Action::Print(Message::ErrorAt { .. }) => then == if errors > MAX_ERROR_CNT {
                    done
                } else {
                    Some(Action::TryRead)
                },
                _ => true,
            }
        }),
{
    let start = UserIntrTest::initial(uart_irqn, serial_number, tx, rx);
    lemma_history(uart_irqn, serial_number, tx, rx, replies.drop_last());
    lemma_history(uart_irqn, serial_number, tx, rx, replies);
    law_invariant_holds_throughout::<UserIntrTest>(start, replies.drop_last());
    law_intr_test_counts_mismatches(uart_irqn, serial_number, tx, rx, replies.drop_last());
    law_intr_test_counts_mismatches(uart_irqn, serial_number, tx, rx, replies);
    if let Reply::Read(Some(byte)) = replies.last() {
        let got = received(replies.drop_last());
        assert(got.push(byte).drop_last() =~= got);
    }
}

/// A byte counts as an error exactly if it is not the one in the place of the peer's stream that
/// the expectation has come to; every byte moves the expectation by one, and an error by one more.
pub proof fn law_intr_errors_of_one_byte(rx: u8, bytes: Seq<u8>, byte: u8)
    ensures
        ({
            let (moved, errors) = intr_mismatches(rx, bytes);
            let (moved_on, errors_then) = intr_mismatches(rx, bytes.push(byte));
            &&& moved == bytes.len() + errors
            &&& moved_on == bytes.len() + 1 + errors_then
            &&& errors_then == errors <==> byte == stream_byte(rx, moved as int)
            &&& errors <= errors_then <= errors + 1
        }),
    decreases bytes.len(),
{
    assert(bytes.push(byte).drop_last() =~= bytes);
    if bytes.len() > 0 {
        law_intr_errors_of_one_byte(rx, bytes.drop_last(), bytes.last());
    }
}

/// After reading, the test looks whether an interrupt is pending. If so, the driver handles it, the
/// trace records that, and the pending flag is lowered; then the interrupt is completed in the
/// context that the hart is in, which is read before and after, until both are the same. Only then
/// does the test look at the timer again.
pub proof fn law_intr_test_services_interrupts_in_order(
    uart_irqn: u16,
    serial_number: usize,
    tx: u8,
    rx: u8,
    replies: Seq<Reply>,
)
    requires
        driven::<UserIntrTest>(UserIntrTest::initial(uart_irqn, serial_number, tx, rx), replies),
        replies.len() > 0,
    ensures
        ({
            let start = UserIntrTest::initial(uart_irqn, serial_number, tx, rx);
            let then = outstanding::<UserIntrTest>(start, replies);
            let reply = replies.last();
            let earlier = completions(traced::<UserIntrTest>(start, replies.drop_last()));
            match last_action::<UserIntrTest>(start, replies) {
                Action::LoadHasIntr => then == if reply == Reply::Flag(true) {
                    Some(Action::HandleInterrupt)
                } else {
                    Some(Action::LoadTimeout)
                },
                Action::HandleInterrupt => then == Some(Action::Trace(TraceTag::ExtTrapReturn)),
                Action::Trace(TraceTag::ExtTrapReturn) => then == Some(Action::ClearHasIntr),
                Action::ClearHasIntr => then == Some(Action::ReadContext),
                Action::ReadContext => then == if earlier.open is None {
                    Some(Action::Trace(TraceTag::CompleteEnter(reply->Count_0)))
                } else {
                    Some(Action::Trace(TraceTag::CompleteExit(reply->Count_0)))
                },
                Action::Trace(TraceTag::CompleteEnter(ctx)) => then == Some(
                    Action::CompleteIrq { ctx, irqn: uart_irqn },
                ),
                Action::CompleteIrq { .. } => then == Some(Action::ReadContext),
                Action::Trace(TraceTag::CompleteExit(ctx)) => then == if earlier.open == Some(ctx) {
                    Some(Action::LoadTimeout)
                } else {
                    Some(Action::ReadContext)
                },
                _ => true,
            }
        }),
{
    lemma_history(uart_irqn, serial_number, tx, rx, replies);
    if replies.len() > 0 {
        lemma_history(uart_irqn, serial_number, tx, rx, replies.drop_last());
    }
}

/// The test goes on with its loop until it sees that the timer has fired or has counted more than
/// `MAX_ERROR_CNT` errors: after every round of reading that does not bring the errors over that
/// limit it looks for an interrupt, and when it masks the interrupts again, or is finished, one of
/// the two has happened.
pub proof fn law_intr_test_leaves_its_loop_for_a_reason(
    uart_irqn: u16,
    serial_number: usize,
    tx: u8,
    rx: u8,
    replies: Seq<Reply>,
)
    requires
        driven::<UserIntrTest>(UserIntrTest::initial(uart_irqn, serial_number, tx, rx), replies),
    ensures
        ({
            let start = UserIntrTest::initial(uart_irqn, serial_number, tx, rx);
            let then = outstanding::<UserIntrTest>(start, replies);
            let errors = intr_mismatches(rx, received(replies)).1;
            let fired = answered::<UserIntrTest>(
                start,
                replies,
                Action::LoadTimeout,
                Reply::Flag(true),
            );
            let masks = performed::<UserIntrTest>(start, replies, Action::ClearUserIntr);
            let left = then is None || masks > 1 || replies.len() > 0 && then == Some(
                Action::ClearUserIntr,
            );
            &&& left ==> fired == 1 || errors > MAX_ERROR_CNT
            &&& fired == 1 ==> left
            &&& replies.len() > 0 && last_action::<UserIntrTest>(start, replies) == Action::Trace(
                TraceTag::CallExit(SERIAL_INTR_READ),
            ) ==> then == if errors > MAX_ERROR_CNT {
                Some(Action::ClearUserIntr)
            } else {
                Some(Action::LoadHasIntr)
            }
        }),
{
    lemma_history(uart_irqn, serial_number, tx, rx, replies);
    law_intr_test_counts_mismatches(uart_irqn, serial_number, tx, rx, replies);
    if replies.len() > 0 {
        lemma_history(uart_irqn, serial_number, tx, rx, replies.drop_last());
    }
}

/// After its loop the test masks the interrupts and traces its end, waits if it is the end that
/// reports late, reports the driver's interrupt counts and the error position, and asks the driver
/// for its byte counts. It then is finished, and its result is what the driver answered, received
/// bytes first, and the number of bytes that were not the expected one.
pub proof fn law_intr_test_reports_and_returns(
    uart_irqn: u16,
    serial_number: usize,
    tx: u8,
    rx: u8,
    replies: Seq<Reply>,
)
    requires
        driven::<UserIntrTest>(UserIntrTest::initial(uart_irqn, serial_number, tx, rx), replies),
        replies.len() > 0,
    ensures
        ({
            let start = UserIntrTest::initial(uart_irqn, serial_number, tx, rx);
            let then = outstanding::<UserIntrTest>(start, replies);
            let now = run::<UserIntrTest>(start, replies);
            let reply = replies.last();
            let positions = positions_read::<UserIntrTest>(start, replies);
            let late = uart_irqn == 14 || uart_irqn == 6;
            &&& match last_action::<UserIntrTest>(start, replies) {
                Action::ClearUserIntr => then == if replies.len() == 1 {
                    Some(Action::ClaimExtInt(uart_irqn as usize))
                } else {
                    Some(Action::Trace(TraceTag::TestExit))
                },
                Action::Trace(TraceTag::TestExit) => then == if late {
                    Some(Action::Sleep(LATE_REPORT_MS))
                } else {
                    Some(Action::IntrCounts)
                },
                Action::Sleep(_) => then == Some(Action::IntrCounts),
                Action::IntrCounts => then == Some(
                    Action::Print(
                        Message::IntrEnd {
                            serial_number,
                            intr: reply->total,
                            tx: reply->Intrs_tx,
                            rx: reply->Intrs_rx,
                            err_pos: if positions.len() == 0 {
                                NO_POSITION
                            } else {
                                positions.last() as isize
                            },
                        },
                    ),
                ),
                Action::Print(Message::IntrEnd { .. }) => then == Some(Action::ByteCounts),
                Action::ByteCounts => then is None,
                _ => then is Some,
            }
            &&& then is None ==> {
                &&& last_action::<UserIntrTest>(start, replies) == Action::ByteCounts
                &&& reply == (Reply::Bytes { rx: now.rx_count, tx: now.tx_count })
                &&& now.error_count == intr_mismatches(rx, received(replies)).1
            }
        }),
{
    lemma_history(uart_irqn, serial_number, tx, rx, replies.drop_last());
    lemma_history(uart_irqn, serial_number, tx, rx, replies);
    law_intr_test_counts_mismatches(uart_irqn, serial_number, tx, rx, replies);
}

/// The generators of a finished test are left where the streams have come to: that of sent bytes
/// after the bytes that the port took and the one that was offered next, that of expected bytes
/// after those that were expected so far and the one that is expected next; the byte that brought
/// the errors over the limit has moved the latter by one only.
pub proof fn law_intr_test_leaves_its_generators(
    uart_irqn: u16,
    serial_number: usize,
    tx: u8,
    rx: u8,
    replies: Seq<Reply>,
)
    requires
        driven::<UserIntrTest>(UserIntrTest::initial(uart_irqn, serial_number, tx, rx), replies),
    ensures
        ({
            let start = UserIntrTest::initial(uart_irqn, serial_number, tx, rx);
            let now = run::<UserIntrTest>(start, replies);
            let (moved, errors) = intr_mismatches(rx, received(replies));
            &&& now.tx.x == stream_byte(tx, written::<UserIntrTest>(start, replies).len() as int)
            &&& UserIntrTest::finished(now)
                ==> now.rx.x == stream_byte(rx, if errors > MAX_ERROR_CNT {
                moved - 1
            } else {
                moved as int
            })
        }),
{
    let start = UserIntrTest::initial(uart_irqn, serial_number, tx, rx);
    lemma_sending::<UserIntrTest>(start, replies, |t: UserIntrTest| t.next_tx, tx);
    law_invariant_holds_throughout::<UserIntrTest>(start, replies);
    law_intr_test_counts_mismatches(uart_irqn, serial_number, tx, rx, replies);
    lemma_expectation(uart_irqn, serial_number, tx, rx, replies);
}

/// Where the expectation is when there were too many errors.
proof fn lemma_expectation(
    uart_irqn: u16,
    serial_number: usize,
    tx: u8,
    rx: u8,
    replies: Seq<Reply>,
)
    requires
        driven::<UserIntrTest>(UserIntrTest::initial(uart_irqn, serial_number, tx, rx), replies),
    ensures
        ({
            let start = UserIntrTest::initial(uart_irqn, serial_number, tx, rx);
            let now = run::<UserIntrTest>(start, replies);
            let (moved, errors) = intr_mismatches(rx, received(replies));
            !intr_error_pending(now.phase) && now.error_count > MAX_ERROR_CNT ==> now.expect_rx
                == stream_byte(rx, moved - 1)
        }),
    decreases replies.len(),
{
    let start = UserIntrTest::initial(uart_irqn, serial_number, tx, rx);
    if replies.len() > 0 {
        lemma_expectation(uart_irqn, serial_number, tx, rx, replies.drop_last());
        lemma_history(uart_irqn, serial_number, tx, rx, replies.drop_last());
        law_invariant_holds_throughout::<UserIntrTest>(start, replies.drop_last());
        law_intr_test_counts_mismatches(uart_irqn, serial_number, tx, rx, replies.drop_last());
        let got = received(replies.drop_last());
        if got.len() > 0 {
            let moved = intr_mismatches(rx, got.drop_last()).0;
            lemma_stream_byte_after(rx, moved + 1int, 0);
        }
    }
}

/// The test can take every answer of the right shape, whatever it says; only a time of which the
/// end of the test cannot be represented is outside of what it can deal with.
pub proof fn law_intr_test_admits_every_answer(
    uart_irqn: u16,
    serial_number: usize,
    tx: u8,
    rx: u8,
    replies: Seq<Reply>,
    reply: Reply,
)
    requires
        driven::<UserIntrTest>(UserIntrTest::initial(uart_irqn, serial_number, tx, rx), replies),
    ensures
        ({
            let start = UserIntrTest::initial(uart_irqn, serial_number, tx, rx);
            let now = run::<UserIntrTest>(start, replies);
            let action = UserIntrTest::action_of(now);
            !UserIntrTest::finished(now) ==> (UserIntrTest::accepts(now, reply) <==> {
                &&& reply.kind() == action.wants()
                &&& action is GetTime ==> isize::MIN <= reply->Word_0 * 1000 && reply->Word_0 * 1000
                    + TEST_TIME_US <= isize::MAX

            })
        }),
{
    lemma_history(uart_irqn, serial_number, tx, rx, replies);
    if replies.len() > 0 {
        lemma_history(uart_irqn, serial_number, tx, rx, replies.drop_last());
    }
}

} // verus!
