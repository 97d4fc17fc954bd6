//! The test that polls the port from user space.
use vstd::prelude::*;

use crate::device::{Action, Message, Reply, TraceTag, WriteOutcome};
use crate::machine::{
    driven, law_invariant_holds_throughout, lemma_arming, lemma_closing, lemma_receiving,
    lemma_sending, lemma_tracing, nesting, positions_read, received, run, timer_armed, traced,
    written, Machine, Nesting, TimerStage,
};
use crate::params::{
    check_deadline, deadline_fits, reports_late, test_deadline, BAUD_RATE, LATE_REPORT_MS,
    MAX_ERROR_CNT, NO_POSITION, SERIAL_POLL_READ, SERIAL_POLL_WRITE, TEST_TIME_US,
};
use crate::rng::{lemma_stream_byte_after, stream, stream_byte, IncOneRng};

verus! {

#[derive(Clone, Copy, Debug, PartialEq, Eq)]
pub enum PollingPhase {
    Claim,
    Open { claim: isize },
    InitHardware { claim: isize },
    Announce { claim: isize },
    ReadTime,
    Arm { deadline: isize },
    ReadDcts,
    TraceTestEnter,
    CheckTimeout,
    LineErrors,
    TraceWriteEnter,
    Write,
    TraceWriteExit,
    TraceReadEnter,
    Read,
    FindPosition { byte: u8 },
    Report { byte: u8 },
    TraceReadExit,
    TraceTestExit,
    Wait,
    Summarise,
    Count,
    Done,
}

/// The polling test: sends the stream for as long as the port takes it, checks what the port has
/// received, and repeats until the timer fires or there were too many errors.
#[derive(Clone, Copy, Debug, PartialEq, Eq)]
pub struct UserPollingTest {
    pub phase: PollingPhase,
    pub uart_irqn: u16,
    pub serial_number: usize,
    pub tx: IncOneRng,
    pub rx: IncOneRng,
    pub next_tx: u8,
    pub expect_rx: u8,
    pub error_count: usize,
    pub err_pos: isize,
    pub rx_count: usize,
    pub tx_count: usize,
}

impl UserPollingTest {
    pub open spec fn initial(
        uart_irqn: u16,
        serial_number: usize,
        tx: u8,
        rx: u8,
    ) -> UserPollingTest {
        UserPollingTest {
            phase: PollingPhase::Claim,
            uart_irqn,
            serial_number,
            tx: IncOneRng { x: stream_byte(tx, 0) },
            rx: IncOneRng { x: stream_byte(rx, 0) },
            next_tx: stream_byte(tx, 0),
            expect_rx: stream_byte(rx, 0),
            error_count: 0,
            err_pos: NO_POSITION,
            rx_count: 0,
            tx_count: 0,
        }
    }

    /// The test of the port behind interrupt line `uart_irqn`.
    pub fn new(
        uart_irqn: u16,
        serial_number: usize,
        tx_rng: IncOneRng,
        rx_rng: IncOneRng,
    ) -> (r: UserPollingTest)
        ensures
            r == UserPollingTest::initial(uart_irqn, serial_number, tx_rng.x, rx_rng.x),
            UserPollingTest::inv(r),
    {
        let mut tx = tx_rng;
        let mut rx = rx_rng;
        let next_tx: u8 = tx.next_u8();
        let expect_rx: u8 = rx.next_u8();
        UserPollingTest {
            phase: PollingPhase::Claim,
            uart_irqn,
            serial_number,
            tx,
            rx,
            next_tx,
            expect_rx,
            error_count: 0,
            err_pos: NO_POSITION,
            rx_count: 0,
            tx_count: 0,
        }
    }

    /// The counts of received bytes, sent bytes and errors, once the test is finished.
    pub fn result(&self) -> (r: (usize, usize, usize))
        ensures
            r == (self.rx_count, self.tx_count, self.error_count),
    {
        (self.rx_count, self.tx_count, self.error_count)
    }

    /// The same test in another phase.
    pub open spec fn at(self, phase: PollingPhase) -> UserPollingTest {
        UserPollingTest { phase, ..self }
    }
}

impl Machine for UserPollingTest {
    type State = UserPollingTest;

    open spec fn state(&self) -> UserPollingTest {
        *self
    }

    open spec fn inv(s: UserPollingTest) -> bool {
        &&& s.next_tx == s.tx.x
        &&& s.expect_rx == s.rx.x
        &&& match s.phase {
            PollingPhase::TraceReadExit | PollingPhase::TraceTestExit | PollingPhase::Wait
            | PollingPhase::Summarise | PollingPhase::Count | PollingPhase::Done => s.error_count
                <= MAX_ERROR_CNT + 1,
            _ => s.error_count <= MAX_ERROR_CNT,
        }
    }

    open spec fn finished(s: UserPollingTest) -> bool {
        s.phase is Done
    }

    open spec fn action_of(s: UserPollingTest) -> Action {
        match s.phase {
            PollingPhase::Claim => Action::ClaimExtInt(s.uart_irqn as usize),
            PollingPhase::Open { .. } => Action::OpenSerial(s.uart_irqn),
            PollingPhase::InitHardware { .. } => Action::HardwareInit(BAUD_RATE),
            PollingPhase::Announce { claim } => Action::Print(
                Message::PollingStart { serial_number: s.serial_number, batch: 0, claim },
            ),
            PollingPhase::ReadTime => Action::GetTime,
            PollingPhase::Arm { deadline } => Action::SetTimer(deadline),
            PollingPhase::ReadDcts => Action::ReadDcts,
            PollingPhase::TraceTestEnter => Action::Trace(TraceTag::TestEnter),
            PollingPhase::CheckTimeout => Action::LoadTimeout,
            PollingPhase::LineErrors => Action::HandleLineErrors,
            PollingPhase::TraceWriteEnter => Action::Trace(TraceTag::CallEnter(SERIAL_POLL_WRITE)),
            PollingPhase::Write => Action::TryWrite(s.next_tx),
            PollingPhase::TraceWriteExit => Action::Trace(TraceTag::CallExit(SERIAL_POLL_WRITE)),
            PollingPhase::TraceReadEnter => Action::Trace(TraceTag::CallEnter(SERIAL_POLL_READ)),
            PollingPhase::Read => Action::TryRead,
            PollingPhase::FindPosition { .. } => Action::RxCount,
            PollingPhase::Report { byte } => Action::Print(
                Message::ErrorAt {
                    serial_number: s.serial_number,
                    position: s.err_pos,
                    expected: s.expect_rx,
                    received: byte,
                },
            ),
            PollingPhase::TraceReadExit => Action::Trace(TraceTag::CallExit(SERIAL_POLL_READ)),
            PollingPhase::TraceTestExit => Action::Trace(TraceTag::TestExit),
            PollingPhase::Wait => Action::Sleep(LATE_REPORT_MS),
            PollingPhase::Summarise => Action::Print(
                Message::PollingEnd {
                    serial_number: s.serial_number,
                    err_pos: s.err_pos,
                    empty_read: 0,
                },
            ),
            PollingPhase::Count => Action::ByteCounts,
            PollingPhase::Done => arbitrary(),
        }
    }

    open spec fn accepts(s: UserPollingTest, reply: Reply) -> bool {
        &&& reply.kind() == Self::action_of(s).wants()
        &&& s.phase is ReadTime ==> deadline_fits(reply->Word_0)
    }

    open spec fn next(s: UserPollingTest, reply: Reply) -> UserPollingTest {
        match (s.phase, reply) {
            (PollingPhase::Claim, Reply::Word(claim)) => s.at(PollingPhase::Open { claim }),
            (PollingPhase::Open { claim }, _) => s.at(PollingPhase::InitHardware { claim }),
            (PollingPhase::InitHardware { claim }, _) => s.at(PollingPhase::Announce { claim }),
            (PollingPhase::Announce { .. }, _) => s.at(PollingPhase::ReadTime),
            (PollingPhase::ReadTime, Reply::Word(time)) => s.at(
                PollingPhase::Arm { deadline: (time * 1000 + TEST_TIME_US) as isize },
            ),
            (PollingPhase::Arm { .. }, _) => s.at(PollingPhase::ReadDcts),
            (PollingPhase::ReadDcts, _) => s.at(PollingPhase::TraceTestEnter),
            (PollingPhase::TraceTestEnter, _) => s.at(PollingPhase::CheckTimeout),
            (PollingPhase::CheckTimeout, Reply::Flag(false)) => s.at(PollingPhase::LineErrors),
            (PollingPhase::CheckTimeout, _) => s.at(PollingPhase::TraceTestExit),
            (PollingPhase::LineErrors, _) => s.at(PollingPhase::TraceWriteEnter),
            (PollingPhase::TraceWriteEnter, _) => s.at(PollingPhase::Write),
            // The port is offered the next byte until it does not take one.
            (PollingPhase::Write, Reply::Wrote(WriteOutcome::Written)) => UserPollingTest {
                tx: IncOneRng { x: stream_byte(s.tx.x, 0) },
                next_tx: stream_byte(s.tx.x, 0),
                ..s
            },
            (PollingPhase::Write, _) => s.at(PollingPhase::TraceWriteExit),
            (PollingPhase::TraceWriteExit, _) => s.at(PollingPhase::TraceReadEnter),
            (PollingPhase::TraceReadEnter, _) => s.at(PollingPhase::Read),
            // A byte other than the expected one leaves the expectation as it is.
            (PollingPhase::Read, Reply::Read(Some(byte))) => if byte != s.expect_rx {
                s.at(PollingPhase::FindPosition { byte })
            } else {
                UserPollingTest {
                    rx: IncOneRng { x: stream_byte(s.rx.x, 0) },
                    expect_rx: stream_byte(s.rx.x, 0),
                    ..s
                }
            },
            (PollingPhase::Read, _) => s.at(PollingPhase::TraceReadExit),
            (PollingPhase::FindPosition { byte }, Reply::Count(count)) => UserPollingTest {
                phase: PollingPhase::Report { byte },
                err_pos: count as isize,
                ..s
            },
            (PollingPhase::Report { .. }, _) => UserPollingTest {
                phase: if s.error_count + 1 > MAX_ERROR_CNT {
                    PollingPhase::TraceReadExit
                } else {
                    PollingPhase::Read
                },
                error_count: (s.error_count + 1) as usize,
                ..s
            },
            (PollingPhase::TraceReadExit, _) => if s.error_count > MAX_ERROR_CNT {
                s.at(PollingPhase::TraceTestExit)
            } else {
                s.at(PollingPhase::CheckTimeout)
            },
            (PollingPhase::TraceTestExit, _) => if reports_late(s.uart_irqn) {
                s.at(PollingPhase::Wait)
            } else {
                s.at(PollingPhase::Summarise)
            },
            (PollingPhase::Wait, _) => s.at(PollingPhase::Summarise),
            (PollingPhase::Summarise, _) => s.at(PollingPhase::Count),
            (PollingPhase::Count, Reply::Bytes { rx, tx }) => UserPollingTest {
                phase: PollingPhase::Done,
                rx_count: rx,
                tx_count: tx,
                ..s
            },
            _ => s,
        }
    }

    fn is_finished(&self) -> (b: bool) {
        match self.phase {
            PollingPhase::Done => true,
            _ => false,
        }
    }

    fn action(&self) -> (a: Action) {
        match self.phase {
            PollingPhase::Claim => Action::ClaimExtInt(self.uart_irqn as usize),
            PollingPhase::Open { claim: _ } => Action::OpenSerial(self.uart_irqn),
            PollingPhase::InitHardware { claim: _ } => Action::HardwareInit(BAUD_RATE),
            PollingPhase::Announce { claim } => Action::Print(
                Message::PollingStart { serial_number: self.serial_number, batch: 0, claim },
            ),
            PollingPhase::ReadTime => Action::GetTime,
            PollingPhase::Arm { deadline } => Action::SetTimer(deadline),
            PollingPhase::ReadDcts => Action::ReadDcts,
            PollingPhase::TraceTestEnter => Action::Trace(TraceTag::TestEnter),
            PollingPhase::CheckTimeout => Action::LoadTimeout,
            PollingPhase::LineErrors => Action::HandleLineErrors,
            PollingPhase::TraceWriteEnter => Action::Trace(TraceTag::CallEnter(SERIAL_POLL_WRITE)),
            PollingPhase::Write => Action::TryWrite(self.next_tx),
            PollingPhase::TraceWriteExit => Action::Trace(TraceTag::CallExit(SERIAL_POLL_WRITE)),
            PollingPhase::TraceReadEnter => Action::Trace(TraceTag::CallEnter(SERIAL_POLL_READ)),
            PollingPhase::Read => Action::TryRead,
            PollingPhase::FindPosition { byte: _ } => Action::RxCount,
            PollingPhase::Report { byte } => Action::Print(
                Message::ErrorAt {
                    serial_number: self.serial_number,
                    position: self.err_pos,
                    expected: self.expect_rx,
                    received: byte,
                },
            ),
            PollingPhase::TraceReadExit => Action::Trace(TraceTag::CallExit(SERIAL_POLL_READ)),
            PollingPhase::TraceTestExit => Action::Trace(TraceTag::TestExit),
            PollingPhase::Wait => Action::Sleep(LATE_REPORT_MS),
            PollingPhase::Summarise => Action::Print(
                Message::PollingEnd {
                    serial_number: self.serial_number,
                    err_pos: self.err_pos,
                    empty_read: 0,
                },
            ),
            PollingPhase::Count => Action::ByteCounts,
            PollingPhase::Done => Action::ByteCounts,
        }
    }

    fn admits(&self, reply: &Reply) -> (b: bool) {
        if reply.reply_kind() != self.action().wanted_kind() {
            return false;
        }
        match (self.phase, *reply) {
            (PollingPhase::ReadTime, Reply::Word(time)) => check_deadline(time),
            _ => true,
        }
    }

    fn advance(&mut self, reply: Reply) {
        match (self.phase, reply) {
            (PollingPhase::Claim, Reply::Word(claim)) => {
                self.phase = PollingPhase::Open { claim };
            },
            (PollingPhase::Open { claim }, _) => {
                self.phase = PollingPhase::InitHardware { claim };
            },
            (PollingPhase::InitHardware { claim }, _) => {
                self.phase = PollingPhase::Announce { claim };
            },
            (PollingPhase::Announce { claim: _ }, _) => {
                self.phase = PollingPhase::ReadTime;
            },
            (PollingPhase::ReadTime, Reply::Word(time)) => {
                self.phase = PollingPhase::Arm { deadline: test_deadline(time) };
            },
            (PollingPhase::Arm { deadline: _ }, _) => {
                self.phase = PollingPhase::ReadDcts;
            },
            (PollingPhase::ReadDcts, _) => {
                self.phase = PollingPhase::TraceTestEnter;
            },
            (PollingPhase::TraceTestEnter, _) => {
                self.phase = PollingPhase::CheckTimeout;
            },
            (PollingPhase::CheckTimeout, Reply::Flag(false)) => {
                self.phase = PollingPhase::LineErrors;
            },
            (PollingPhase::CheckTimeout, _) => {
                self.phase = PollingPhase::TraceTestExit;
            },
            (PollingPhase::LineErrors, _) => {
                self.phase = PollingPhase::TraceWriteEnter;
            },
            (PollingPhase::TraceWriteEnter, _) => {
                self.phase = PollingPhase::Write;
            },
            (PollingPhase::Write, Reply::Wrote(WriteOutcome::Written)) => {
                self.next_tx = self.tx.next_u8();
            },
            (PollingPhase::Write, _) => {
                self.phase = PollingPhase::TraceWriteExit;
            },
            (PollingPhase::TraceWriteExit, _) => {
                self.phase = PollingPhase::TraceReadEnter;
            },
            (PollingPhase::TraceReadEnter, _) => {
                self.phase = PollingPhase::Read;
            },
            (PollingPhase::Read, Reply::Read(Some(byte))) => {
                if byte != self.expect_rx {
                    self.phase = PollingPhase::FindPosition { byte };
                } else {
                    self.expect_rx = self.rx.next_u8();
                }
            },
            (PollingPhase::Read, _) => {
                self.phase = PollingPhase::TraceReadExit;
            },
            (PollingPhase::FindPosition { byte }, Reply::Count(count)) => {
                self.err_pos = count as isize;
                self.phase = PollingPhase::Report { byte };
            },
            (PollingPhase::Report { byte: _ }, _) => {
                self.error_count += 1;
                if self.error_count > MAX_ERROR_CNT {
                    self.phase = PollingPhase::TraceReadExit;
                } else {
                    self.phase = PollingPhase::Read;
                }
            },
            (PollingPhase::TraceReadExit, _) => {
                if self.error_count > MAX_ERROR_CNT {
                    self.phase = PollingPhase::TraceTestExit;
                } else {
                    self.phase = PollingPhase::CheckTimeout;
                }
            },
            (PollingPhase::TraceTestExit, _) => {
                if self.uart_irqn == 14 || self.uart_irqn == 6 {
                    self.phase = PollingPhase::Wait;
                } else {
                    self.phase = PollingPhase::Summarise;
                }
            },
            (PollingPhase::Wait, _) => {
                self.phase = PollingPhase::Summarise;
            },
            (PollingPhase::Summarise, _) => {
                self.phase = PollingPhase::Count;
            },
            (PollingPhase::Count, Reply::Bytes { rx, tx }) => {
                self.rx_count = rx;
                self.tx_count = tx;
                self.phase = PollingPhase::Done;
            },
            _ => {},
        }
    }

    proof fn lemma_next_keeps_inv(s: UserPollingTest, reply: Reply) {
    }
}

/// The bytes that the port takes are the sender's stream from its start, without gaps.
pub proof fn law_polling_test_sends_the_stream(
    uart_irqn: u16,
    serial_number: usize,
    tx: u8,
    rx: u8,
    replies: Seq<Reply>,
)
    requires
        driven::<UserPollingTest>(
            UserPollingTest::initial(uart_irqn, serial_number, tx, rx),
            replies,
        ),
    ensures
        ({
            let start = UserPollingTest::initial(uart_irqn, serial_number, tx, rx);
            let sent = written::<UserPollingTest>(start, replies);
            sent == stream(tx, sent.len())
        }),
{
    lemma_sending::<UserPollingTest>(
        UserPollingTest::initial(uart_irqn, serial_number, tx, rx),
        replies,
        |t: UserPollingTest| t.next_tx,
        tx,
    );
}

/// Over a link that loses and changes nothing the test counts no errors: if what the port
/// delivered is the beginning of the peer's stream, the error count is zero.
pub proof fn law_polling_test_clean_link_has_no_errors(
    uart_irqn: u16,
    serial_number: usize,
    tx: u8,
    rx: u8,
    replies: Seq<Reply>,
)
    requires
        driven::<UserPollingTest>(
            UserPollingTest::initial(uart_irqn, serial_number, tx, rx),
            replies,
        ),
        received(replies) == stream(rx, received(replies).len()),
    ensures
        run::<UserPollingTest>(
            UserPollingTest::initial(uart_irqn, serial_number, tx, rx),
            replies,
        ).error_count == 0,
{
    lemma_receiving::<UserPollingTest>(
        UserPollingTest::initial(uart_irqn, serial_number, tx, rx),
        replies,
        |t: UserPollingTest| t.error_count == 0 && !polling_error_pending(t.phase),
        |t: UserPollingTest| t.expect_rx,
        rx,
    );
}

/// The test counts at most one error more than the limit, and once it is over the limit it
/// neither reads nor writes the port any more.
pub proof fn law_polling_test_stops_after_too_many_errors(
    uart_irqn: u16,
    serial_number: usize,
    tx: u8,
    rx: u8,
    replies: Seq<Reply>,
)
    requires
        driven::<UserPollingTest>(
            UserPollingTest::initial(uart_irqn, serial_number, tx, rx),
            replies,
        ),
    ensures
        ({
            let now = run::<UserPollingTest>(
                UserPollingTest::initial(uart_irqn, serial_number, tx, rx),
                replies,
            );
            &&& now.error_count <= MAX_ERROR_CNT + 1
            &&& now.error_count > MAX_ERROR_CNT && !UserPollingTest::finished(now) ==> !(
            UserPollingTest::action_of(now) is TryRead) && !(UserPollingTest::action_of(
                now,
            ) is TryWrite)
        }),
{
    law_invariant_holds_throughout::<UserPollingTest>(
        UserPollingTest::initial(uart_irqn, serial_number, tx, rx),
        replies,
    );
}

/// The driver call that the test is in, according to its phase.
spec fn polling_call(phase: PollingPhase) -> Nesting {
    match phase {
        PollingPhase::Write | PollingPhase::TraceWriteExit => Nesting::Inside(SERIAL_POLL_WRITE),
        PollingPhase::Read | PollingPhase::FindPosition { .. } | PollingPhase::Report { .. }
        | PollingPhase::TraceReadExit => Nesting::Inside(SERIAL_POLL_READ),
        _ => Nesting::Outside,
    }
}

/// In the trace, driver calls do not overlap, and a finished test has left every call that it
/// entered.
pub proof fn law_polling_test_trace_is_nested(
    uart_irqn: u16,
    serial_number: usize,
    tx: u8,
    rx: u8,
    replies: Seq<Reply>,
)
    requires
        driven::<UserPollingTest>(
            UserPollingTest::initial(uart_irqn, serial_number, tx, rx),
            replies,
        ),
    ensures
        ({
            let start = UserPollingTest::initial(uart_irqn, serial_number, tx, rx);
            let now = run::<UserPollingTest>(start, replies);
            let place = nesting(traced::<UserPollingTest>(start, replies));
            &&& !(place is Broken)
            &&& UserPollingTest::finished(now) ==> place is Outside
        }),
{
    lemma_tracing::<UserPollingTest>(
        UserPollingTest::initial(uart_irqn, serial_number, tx, rx),
        replies,
        |t: UserPollingTest| polling_call(t.phase),
    );
}

/// How many more replies a phase takes at most to the end of the test, if it comes after the test
/// loop.
spec fn closing_steps(phase: PollingPhase) -> Option<nat> {
    match phase {
        PollingPhase::TraceTestExit => Some(4),
        PollingPhase::Wait => Some(3),
        PollingPhase::Summarise => Some(2),
        PollingPhase::Count => Some(1),
        PollingPhase::Done => Some(0),
        _ => None,
    }
}

/// Once the test has seen that the timer fired, it neither reads nor writes the port any more, and
/// takes at most 5 replies to its end, that one included.
pub proof fn law_polling_test_ends_after_the_timer(
    s: UserPollingTest,
    replies: Seq<Reply>,
)
    requires
        s.phase is CheckTimeout,
        driven::<UserPollingTest>(s, replies),
        replies.len() > 0,
        replies[0] == Reply::Flag(true),
    ensures
        replies.len() <= 5,
        ({
            let now = run::<UserPollingTest>(s, replies);
            let action = UserPollingTest::action_of(now);
            UserPollingTest::finished(now) || !(action is TryRead) && !(action is TryWrite)
        }),
{
    lemma_closing::<UserPollingTest>(s, replies, |t: UserPollingTest| closing_steps(t.phase));
}

/// How far the expectation has moved along the peer's stream, and how many bytes were not the
/// expected one: the expected byte moves it by one, and any other byte not at all.
pub open spec fn polling_mismatches(rx: u8, bytes: Seq<u8>) -> (nat, nat)
    decreases bytes.len(),
{
    if bytes.len() == 0 {
        (0, 0)
    } else {
        let (moved, errors) = polling_mismatches(rx, bytes.drop_last());
        if bytes.last() == stream_byte(rx, moved as int) {
            (moved + 1, errors)
        } else {
            (moved, errors + 1)
        }
    }
}

/// Whether a received byte is still to be counted as an error.
pub open spec fn polling_error_pending(phase: PollingPhase) -> bool {
    phase is FindPosition || phase is Report
}

/// The error count is the number of received bytes that were not the expected one, where such a
/// byte leaves the expectation as it is; an error that is being reported is not yet counted.
pub proof fn law_polling_test_counts_mismatches(
    uart_irqn: u16,
    serial_number: usize,
    tx: u8,
    rx: u8,
    replies: Seq<Reply>,
)
    requires
        driven::<UserPollingTest>(
            UserPollingTest::initial(uart_irqn, serial_number, tx, rx),
            replies,
        ),
    ensures
        ({
            let now = run::<UserPollingTest>(
                UserPollingTest::initial(uart_irqn, serial_number, tx, rx),
                replies,
            );
            let pending: int = if polling_error_pending(now.phase) {
                1
            } else {
                0
            };
            let (moved, errors) = polling_mismatches(rx, received(replies));
            &&& now.expect_rx == stream_byte(rx, moved as int)
            &&& now.error_count + pending == errors
        }),
    decreases replies.len(),
{
    let start = UserPollingTest::initial(uart_irqn, serial_number, tx, rx);
    if replies.len() > 0 {
        law_polling_test_counts_mismatches(uart_irqn, serial_number, tx, rx, replies.drop_last());
        law_invariant_holds_throughout::<UserPollingTest>(start, replies.drop_last());
        let earlier = received(replies.drop_last());
        let (moved, errors) = polling_mismatches(rx, earlier);
        lemma_stream_byte_after(rx, moved + 1int, 0);
        if let Reply::Read(Some(byte)) = replies.last() {
            assert(earlier.push(byte).drop_last() =~= earlier);
        }
    }
}

/// The test asks for the position of every error, and its error position is that of the last one.
pub proof fn law_polling_test_keeps_the_last_error_position(
    uart_irqn: u16,
    serial_number: usize,
    tx: u8,
    rx: u8,
    replies: Seq<Reply>,
)
    requires
        driven::<UserPollingTest>(
            UserPollingTest::initial(uart_irqn, serial_number, tx, rx),
            replies,
        ),
    ensures
        ({
            let start = UserPollingTest::initial(uart_irqn, serial_number, tx, rx);
            let now = run::<UserPollingTest>(start, replies);
            let positions = positions_read::<UserPollingTest>(start, replies);
            let reporting: int = if now.phase is Report {
                1
            } else {
                0
            };
            &&& positions.len() == now.error_count + reporting
            &&& now.err_pos == if positions.len() == 0 {
                NO_POSITION
            } else {
                positions.last() as isize
            }
        }),
    decreases replies.len(),
{
    let start = UserPollingTest::initial(uart_irqn, serial_number, tx, rx);
    if replies.len() > 0 {
        law_polling_test_keeps_the_last_error_position(
            uart_irqn,
            serial_number,
            tx,
            rx,
            replies.drop_last(),
        );
        law_invariant_holds_throughout::<UserPollingTest>(start, replies.drop_last());
    }
}

/// How far a phase has come with arming the timer.
spec fn timer_stage(phase: PollingPhase) -> TimerStage {
    match phase {
        PollingPhase::Claim | PollingPhase::Open { .. } | PollingPhase::InitHardware { .. }
        | PollingPhase::Announce { .. } | PollingPhase::ReadTime => TimerStage::Before,
        PollingPhase::Arm { deadline } => TimerStage::Arming(deadline),
        _ => TimerStage::After,
    }
}

/// The test reads the time once and sets the timer once, to the end of its time after that, and
/// both before its loop.
pub proof fn law_polling_test_arms_its_timer(
    uart_irqn: u16,
    serial_number: usize,
    tx: u8,
    rx: u8,
    replies: Seq<Reply>,
)
    requires
        driven::<UserPollingTest>(
            UserPollingTest::initial(uart_irqn, serial_number, tx, rx),
            replies,
        ),
    ensures
        ({
            let start = UserPollingTest::initial(uart_irqn, serial_number, tx, rx);
            let now = run::<UserPollingTest>(start, replies);
            now.phase is CheckTimeout || UserPollingTest::finished(now)
                ==> timer_armed::<UserPollingTest>(start, replies)
        }),
{
    lemma_arming::<UserPollingTest>(
        UserPollingTest::initial(uart_irqn, serial_number, tx, rx),
        replies,
        |t: UserPollingTest| timer_stage(t.phase),
    );
}

} // verus!
