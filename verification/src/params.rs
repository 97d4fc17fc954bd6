//! Fixed parameters of the load test.
use vstd::prelude::*;

verus! {

/// How long a test runs, in microseconds.
pub const TEST_TIME_US: isize = 100_000;

/// Bytes moved by one block transfer.
pub const HALF_FIFO_DEPTH: usize = 247;

/// The line rate that every test programs.
pub const BAUD_RATE: usize = 6_250_000;

/// How many expected bytes may be skipped to catch up with a received byte.
pub const MAX_SHIFT: isize = 1;

/// The error count above which a test gives up.
pub const MAX_ERROR_CNT: usize = 5;

pub const SERIAL_POLL_READ: usize = 63;

pub const SERIAL_POLL_WRITE: usize = 64;

pub const SERIAL_INTR_READ: usize = 65;

pub const SERIAL_INTR_WRITE: usize = 66;

pub const SERIAL_ASYNC_READ: usize = 67;

pub const SERIAL_ASYNC_WRITE: usize = 68;

/// Whether the timer deadline for a test that starts at `time_ms` can be represented.
pub open spec fn deadline_fits(time_ms: isize) -> bool {
    isize::MIN <= time_ms * 1000 && time_ms * 1000 + TEST_TIME_US <= isize::MAX
}

/// The microsecond deadline of a test that starts at `time_ms` milliseconds.
pub fn test_deadline(time_ms: isize) -> (r: isize)
    requires
        deadline_fits(time_ms),
    ensures
        r == time_ms * 1000 + TEST_TIME_US,
{
    time_ms * 1000 + TEST_TIME_US
}

/// Whether `deadline_fits` holds, decided without overflow.
pub fn check_deadline(time_ms: isize) -> (b: bool)
    ensures
        b == deadline_fits(time_ms),
{
    match time_ms.checked_mul(1000) {
        Some(us) => us <= isize::MAX - TEST_TIME_US,
        None => false,
    }
}

/// Whether the end of the link behind interrupt `uart_irqn` waits before it reports, so that the
/// reports of the two ends do not mix.
pub open spec fn reports_late(uart_irqn: u16) -> bool {
    uart_irqn == 14 || uart_irqn == 6
}

/// The error position of a test that has seen no error.
pub const NO_POSITION: isize = -1;

/// How long that end waits, in milliseconds.
pub const LATE_REPORT_MS: usize = 500;

} // verus!
