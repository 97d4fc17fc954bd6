//! The configuration word that selects a test and an end of the link.
use vstd::prelude::*;

verus! {

/// A set of configuration flags.
#[derive(Clone, Copy, Debug, PartialEq, Eq)]
pub struct UartLoadConfig {
    pub bits: u32,
}

pub const KERNEL_MODE: u32 = 0b1;

pub const POLLING_MODE: u32 = 0b10;

pub const INTR_MODE: u32 = 0b100;

pub const UART3: u32 = 0b1000;

pub const UART4: u32 = 0b1_0000;

pub const ASYNC_MODE: u32 = 0b10_0000;

pub const UNBUF_ASYNC_MODE: u32 = 0b100_0000;

/// The flags that select a test.
pub const ALL_MODE: u32 = 0b110_0111;

/// All flags that have a meaning.
pub const ALL_FLAGS: u32 = 0b111_1111;

impl UartLoadConfig {
    /// The configuration with the given bits; `None` if a bit without a meaning is set.
    pub fn from_bits(bits: u32) -> (r: Option<UartLoadConfig>)
        ensures
            r == (if bits <= ALL_FLAGS {
                Some(UartLoadConfig { bits })
            } else {
                None
            }),
    {
        assert((bits & !0x7fu32 == 0) == (bits <= 0x7f)) by (bit_vector);
        if bits & !ALL_FLAGS == 0 {
            Some(UartLoadConfig { bits })
        } else {
            None
        }
    }

    /// The bits of the flags in this set.
    pub fn bits(&self) -> (r: u32)
        ensures
            r == self.bits,
    {
        self.bits
    }

    /// Whether all of `flags` are set.
    pub fn contains(&self, flags: u32) -> (b: bool)
        ensures
            b == (self.bits & flags == flags),
    {
        self.bits & flags == flags
    }

    /// The flags that are both in this set and in `flags`.
    pub fn intersection(&self, flags: u32) -> (r: UartLoadConfig)
        ensures
            r.bits == self.bits & flags,
    {
        UartLoadConfig { bits: self.bits & flags }
    }
}

/// The tests that a configuration can select.
#[derive(Clone, Copy, Debug, PartialEq, Eq)]
pub enum TestKind {
    KernelDriver,
    Polling,
    Interrupt,
    Async,
    UnbufferedAsync,
}

/// The mode flag of a test.
pub open spec fn mode_flag(kind: TestKind) -> u32 {
    match kind {
        TestKind::KernelDriver => KERNEL_MODE,
        TestKind::Polling => POLLING_MODE,
        TestKind::Interrupt => INTR_MODE,
        TestKind::Async => ASYNC_MODE,
        TestKind::UnbufferedAsync => UNBUF_ASYNC_MODE,
    }
}

/// The test that a stored mode selects; `None` if it is not exactly the flag of one test.
pub fn select_test(mode: u32) -> (r: Option<TestKind>)
    ensures
        match r {
            Some(kind) => mode == mode_flag(kind),
            None => forall|kind: TestKind| mode != #[trigger] mode_flag(kind),
        },
{
    match UartLoadConfig::from_bits(mode) {
        Some(config) => if config.bits == KERNEL_MODE {
            Some(TestKind::KernelDriver)
        } else if config.bits == POLLING_MODE {
            Some(TestKind::Polling)
        } else if config.bits == INTR_MODE {
            Some(TestKind::Interrupt)
        } else if config.bits == ASYNC_MODE {
            Some(TestKind::Async)
        } else if config.bits == UNBUF_ASYNC_MODE {
            Some(TestKind::UnbufferedAsync)
        } else {
            None
        },
        None => None,
    }
}

/// Whether the end of the link with this serial number pauses before its final report, so that
/// the final reports of the two ends do not mix.
pub fn pauses_before_report(serial_number: usize) -> (b: bool)
    ensures
        b == (serial_number == 3),
{
    serial_number == 3
}

/// No two tests have the same mode flag, and each mode flag is a single bit of `ALL_MODE`.
pub proof fn law_mode_flags_are_distinct(kind1: TestKind, kind2: TestKind)
    ensures
        mode_flag(kind1) == mode_flag(kind2) ==> kind1 == kind2,
        mode_flag(kind1) & ALL_MODE == mode_flag(kind1),
{
    assert(1u32 & 0x67u32 == 1u32) by (bit_vector);
    assert(2u32 & 0x67u32 == 2u32) by (bit_vector);
    assert(4u32 & 0x67u32 == 4u32) by (bit_vector);
    assert(0x20u32 & 0x67u32 == 0x20u32) by (bit_vector);
    assert(0x40u32 & 0x67u32 == 0x40u32) by (bit_vector);
}

} // verus!
