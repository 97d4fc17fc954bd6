//! The handlers of user interrupts.
use vstd::prelude::*;

use crate::config::{
    mode_flag, TestKind, UartLoadConfig, ALL_FLAGS, ALL_MODE, ASYNC_MODE, UART3, UART4,
    UNBUF_ASYNC_MODE,
};
use crate::device::{Message, TraceTag};
use crate::plic::Board;

verus! {

/// What a handler does to the state that it shares with the running test, one thing at a time.
#[derive(Clone, Copy, Debug, PartialEq, Eq)]
pub enum Effect {
    StoreMode(u32),
    StoreTxSeed(u32),
    StoreRxSeed(u32),
    StoreUartIrqn(u16),
    StoreInitialized(bool),
    StoreHasIntr(bool),
    StoreTimeout(bool),
    Trace(TraceTag),
    /// Wake the interrupt task, if its waker can be reached.
    WakeIntrTask,
    Print(Message),
}

/// The state that the handlers share with the running test.
#[derive(Clone, Copy, Debug, PartialEq, Eq)]
pub struct Shared {
    pub mode: u32,
    pub tx_seed: u32,
    pub rx_seed: u32,
    pub uart_irqn: u16,
    pub is_initialized: bool,
    pub has_intr: bool,
    pub is_timeout: bool,
}

/// The shared state after one effect.
pub open spec fn apply(shared: Shared, effect: Effect) -> Shared {
    match effect {
        Effect::StoreMode(mode) => Shared { mode, ..shared },
        Effect::StoreTxSeed(tx_seed) => Shared { tx_seed, ..shared },
        Effect::StoreRxSeed(rx_seed) => Shared { rx_seed, ..shared },
        Effect::StoreUartIrqn(uart_irqn) => Shared { uart_irqn, ..shared },
        Effect::StoreInitialized(is_initialized) => Shared { is_initialized, ..shared },
        Effect::StoreHasIntr(has_intr) => Shared { has_intr, ..shared },
        Effect::StoreTimeout(is_timeout) => Shared { is_timeout, ..shared },
        _ => shared,
    }
}

/// The shared state after the first `n` of `effects`.
pub open spec fn apply_first(shared: Shared, effects: Seq<Effect>, n: nat) -> Shared
    decreases n,
{
    if n == 0 {
        shared
    } else {
        apply(apply_first(shared, effects, (n - 1) as nat), effects[n - 1])
    }
}

/// The shared state after all of `effects`.
pub open spec fn apply_all(shared: Shared, effects: Seq<Effect>) -> Shared {
    apply_first(shared, effects, effects.len())
}

/// The seed of the direction from the third port to the fourth.
pub const FORWARD_SEED: u32 = 20210821;

/// The seed of the opposite direction.
pub const BACKWARD_SEED: u32 = 1000000007;

/// An end of the link.
#[derive(Clone, Copy, Debug, PartialEq, Eq)]
pub enum LinkEnd {
    Third,
    Fourth,
}

/// The end that a configuration word names; the third port goes first.
pub open spec fn link_end(bits: u32) -> Option<LinkEnd> {
    if bits & UART3 == UART3 {
        Some(LinkEnd::Third)
    } else if bits & UART4 == UART4 {
        Some(LinkEnd::Fourth)
    } else {
        None
    }
}

/// The seed of what an end sends.
pub open spec fn tx_seed_of(end: LinkEnd) -> u32 {
    match end {
        LinkEnd::Third => FORWARD_SEED,
        LinkEnd::Fourth => BACKWARD_SEED,
    }
}

/// The seed of what an end receives.
pub open spec fn rx_seed_of(end: LinkEnd) -> u32 {
    match end {
        LinkEnd::Third => BACKWARD_SEED,
        LinkEnd::Fourth => FORWARD_SEED,
    }
}

/// The interrupt line of an end on a board.
pub open spec fn irqn_of(board: Board, end: LinkEnd) -> u16 {
    match (board, end) {
        (Board::Qemu, LinkEnd::Third) => 14,
        (Board::Qemu, LinkEnd::Fourth) => 15,
        (Board::Lrv, LinkEnd::Third) => 6,
        (Board::Lrv, LinkEnd::Fourth) => 7,
    }
}

/// The two seed stores that configure an end, in the order in which the handler makes them.
pub open spec fn seed_stores(end: LinkEnd) -> Seq<Effect> {
    match end {
        LinkEnd::Third => seq![
            Effect::StoreTxSeed(tx_seed_of(end)),
            Effect::StoreRxSeed(rx_seed_of(end)),
        ],
        LinkEnd::Fourth => seq![
            Effect::StoreRxSeed(rx_seed_of(end)),
            Effect::StoreTxSeed(tx_seed_of(end)),
        ],
    }
}

/// What the software interrupt handler does with a message: the low 32 bits are a configuration
/// word. An invalid word changes nothing.
pub open spec fn soft_intr_effects(board: Board, msg: usize) -> Seq<Effect> {
    let bits = msg as u32;
    if bits <= ALL_FLAGS {
        let link = match link_end(bits) {
            Some(end) => seed_stores(end).push(Effect::StoreUartIrqn(irqn_of(board, end))),
            None => seq![Effect::Print(Message::InvalidUart)],
        };
        seq![Effect::StoreMode(bits & ALL_MODE)] + link + seq![Effect::StoreInitialized(true)]
    } else {
        seq![Effect::Print(Message::InvalidConfig(msg))]
    }
}

/// Handles a software interrupt that carries `msg`.
pub fn soft_intr_handler(board: Board, _pid: usize, msg: usize) -> (effects: Vec<Effect>)
    ensures
        effects@ == soft_intr_effects(board, msg),
{
    let mut effects: Vec<Effect> = Vec::new();
    match UartLoadConfig::from_bits(
        #[verifier::truncate]
        (msg as u32),
    ) {
        Some(config) => {
            let mode = config.intersection(ALL_MODE);
            effects.push(Effect::StoreMode(mode.bits()));
            if config.contains(UART3) {
                effects.push(Effect::StoreTxSeed(20210821));
                effects.push(Effect::StoreRxSeed(1000000007));
                match board {
                    Board::Qemu => effects.push(Effect::StoreUartIrqn(14)),
                    Board::Lrv => effects.push(Effect::StoreUartIrqn(6)),
                }
            } else if config.contains(UART4) {
                effects.push(Effect::StoreRxSeed(20210821));
                effects.push(Effect::StoreTxSeed(1000000007));
                match board {
                    Board::Qemu => effects.push(Effect::StoreUartIrqn(15)),
                    Board::Lrv => effects.push(Effect::StoreUartIrqn(7)),
                }
            } else {
                effects.push(Effect::Print(Message::InvalidUart));
            }
            effects.push(Effect::StoreInitialized(true));
        },
        None => {
            effects.push(Effect::Print(Message::InvalidConfig(msg)));
        },
    }
    assert(effects@ =~= soft_intr_effects(board, msg));
    effects
}

/// What the external interrupt handler does for interrupt `irq`: the first interrupt of the
/// configured line raises the pending flag and, in the asynchronous modes, wakes the interrupt
/// task; further ones do nothing until the flag is lowered.
pub open spec fn ext_intr_effects(
    irq: u16,
    uart_irqn: u16,
    has_intr: bool,
    mode: u32,
) -> Seq<Effect> {
    if irq != uart_irqn {
        seq![Effect::Print(Message::UnknownIrq(irq))]
    } else if has_intr {
        Seq::empty()
    } else {
        let raise = seq![Effect::Trace(TraceTag::ExtTrapEnter), Effect::StoreHasIntr(true)];
        if mode == ASYNC_MODE || mode == UNBUF_ASYNC_MODE {
            raise.push(Effect::WakeIntrTask)
        } else {
            raise
        }
    }
}

/// Handles external interrupt `irq`, where the configured line, the pending flag and the mode are
/// as given.
pub fn ext_intr_handler(
    irq: u16,
    _is_from_kernel: bool,
    uart_irqn: u16,
    has_intr: bool,
    mode: u32,
) -> (effects: Vec<Effect>)
    ensures
        effects@ == ext_intr_effects(irq, uart_irqn, has_intr, mode),
{
    let mut effects: Vec<Effect> = Vec::new();
    if irq == uart_irqn {
        if !has_intr {
            effects.push(Effect::Trace(TraceTag::ExtTrapEnter));
            effects.push(Effect::StoreHasIntr(true));
            match UartLoadConfig::from_bits(mode) {
                Some(config) => {
                    if config.bits == ASYNC_MODE || config.bits == UNBUF_ASYNC_MODE {
                        effects.push(Effect::WakeIntrTask);
                    }
                },
                None => {},
            }
        }
    } else {
        effects.push(Effect::Print(Message::UnknownIrq(irq)));
    }
    assert(effects@ =~= ext_intr_effects(irq, uart_irqn, has_intr, mode));
    effects
}

/// Handles a timer interrupt: the test is over.
pub fn timer_intr_handler(_time_us: usize) -> (effects: Vec<Effect>)
    ensures
        effects@ == seq![Effect::StoreTimeout(true)],
{
    let mut effects: Vec<Effect> = Vec::new();
    effects.push(Effect::StoreTimeout(true));
    assert(effects@ =~= seq![Effect::StoreTimeout(true)]);
    effects
}

/// Every message whose low bits are a valid configuration word stores its mode and marks the
/// program as configured; and it does so last, so that whoever sees the mark sees the whole
/// configuration. Any other message changes nothing.
pub proof fn law_configuration_is_published_last(
    board: Board,
    msg: usize,
    shared: Shared,
    n: nat,
)
    requires
        n <= soft_intr_effects(board, msg).len(),
    ensures
        ({
            let effects = soft_intr_effects(board, msg);
            let partial = apply_first(shared, effects, n);
            let end = link_end(msg as u32);
            if msg as u32 <= ALL_FLAGS {
                &&& n < effects.len() ==> partial.is_initialized == shared.is_initialized
                &&& n == effects.len() ==> partial == (Shared {
                    mode: msg as u32 & ALL_MODE,
                    tx_seed: if end is Some { tx_seed_of(end->0) } else { shared.tx_seed },
                    rx_seed: if end is Some { rx_seed_of(end->0) } else { shared.rx_seed },
                    uart_irqn: if end is Some { irqn_of(board, end->0) } else { shared.uart_irqn },
                    is_initialized: true,
                    ..shared
                })
            } else {
                partial == shared
            }
        }),
{
    reveal_with_fuel(apply_first, 7);
}

/// What one end sends is seeded as the other end expects, in both directions; the two ends have
/// different interrupt lines, of which that of the third port is even and that of the fourth odd.
pub proof fn law_link_ends_are_crossed(board: Board)
    ensures
        tx_seed_of(LinkEnd::Third) == rx_seed_of(LinkEnd::Fourth),
        tx_seed_of(LinkEnd::Fourth) == rx_seed_of(LinkEnd::Third),
        irqn_of(board, LinkEnd::Third) % 2 == 0,
        irqn_of(board, LinkEnd::Fourth) % 2 == 1,
{
}

/// A message made of one mode flag and any choice of ports selects the test of that flag.
pub proof fn law_message_selects_its_test(
    board: Board,
    kind: TestKind,
    ports: u32,
    msg: usize,
    shared: Shared,
)
    requires
        ports & !(UART3 | UART4) == 0,
        msg == mode_flag(kind) | ports,
    ensures
        apply_all(shared, soft_intr_effects(board, msg)).mode == mode_flag(kind),
        apply_all(shared, soft_intr_effects(board, msg)).is_initialized,
{
    let flag = mode_flag(kind);
    assert((flag | ports) <= 0x7f && (flag | ports) & 0x67 == flag) by (bit_vector)
        requires
            ports & !(8u32 | 0x10u32) == 0,
            flag == 1 || flag == 2 || flag == 4 || flag == 0x20 || flag == 0x40,
    ;
    law_configuration_is_published_last(
        board,
        msg,
        shared,
        soft_intr_effects(board, msg).len(),
    );
}

/// An interrupt of the configured line leaves the pending flag raised, and a second one before
/// the flag is lowered has no effect.
pub proof fn law_pending_interrupts_coalesce(shared: Shared)
    ensures
        ({
            let first = ext_intr_effects(
                shared.uart_irqn,
                shared.uart_irqn,
                shared.has_intr,
                shared.mode,
            );
            let after = apply_all(shared, first);
            &&& after == (Shared { has_intr: true, ..shared })
            &&& ext_intr_effects(after.uart_irqn, after.uart_irqn, after.has_intr, after.mode)
                == Seq::<Effect>::empty()
        }),
{
    reveal_with_fuel(apply_first, 4);
}

/// What a software interrupt's message does, for every message: only its low 32 bits count. If a
/// bit without a meaning is set among them, the message is reported and nothing else happens.
/// Otherwise the mode bits are stored, then the seeds and the line of the port that the message
/// names, the third port before the fourth, then the mark; a message that names no port is
/// reported, and leaves seeds and line as they are.
pub proof fn law_message_configures_the_program(board: Board, msg: usize)
    ensures
        ({
            let effects = soft_intr_effects(board, msg);
            let bits = msg as u32;
            let mode = Effect::StoreMode(bits & 0b110_0111);
            let mark = Effect::StoreInitialized(true);
            &&& bits as int == msg as int % 0x1_0000_0000
            &&& if bits >= 0b1000_0000 {
                effects == seq![Effect::Print(Message::InvalidConfig(msg))]
            } else if bits & 0b1000 != 0 {
                effects == seq![
                    mode,
                    Effect::StoreTxSeed(20210821),
                    Effect::StoreRxSeed(1000000007),
                    Effect::StoreUartIrqn(
                        if board is Qemu {
                            14
                        } else {
                            6
                        },
                    ),
                    mark,
                ]
            } else if bits & 0b1_0000 != 0 {
                effects == seq![
                    mode,
                    Effect::StoreRxSeed(20210821),
                    Effect::StoreTxSeed(1000000007),
                    Effect::StoreUartIrqn(
                        if board is Qemu {
                            15
                        } else {
                            7
                        },
                    ),
                    mark,
                ]
            } else {
                effects == seq![mode, Effect::Print(Message::InvalidUart), mark]
            }
        }),
{
    let bits = msg as u32;
    let wide = msg as u64;
    assert(bits & 8 == 8 <==> bits & 8 != 0) by (bit_vector);
    assert(bits & 0x10 == 0x10 <==> bits & 0x10 != 0) by (bit_vector);
    assert(wide as u32 == wide % 0x1_0000_0000) by (bit_vector);
    assert(msg as u32 == (msg as u64) as u32) by (bit_vector);
}

/// An interrupt of the configured line that finds the pending flag lowered is traced and raises the
/// flag, and after that wakes the interrupt task if and only if the mode is one of the two
/// asynchronous ones. One that finds the flag raised does nothing, and one of any other line is
/// only reported.
pub proof fn law_interrupt_raises_the_flag(irq: u16, uart_irqn: u16, has_intr: bool, mode: u32)
    ensures
        ({
            let effects = ext_intr_effects(irq, uart_irqn, has_intr, mode);
            let raise = Effect::StoreHasIntr(true);
            let trace = Effect::Trace(TraceTag::ExtTrapEnter);
            if irq != uart_irqn {
                effects == seq![Effect::Print(Message::UnknownIrq(irq))]
            } else if has_intr {
                effects.len() == 0
            } else if mode == 0b10_0000 || mode == 0b100_0000 {
                effects == seq![trace, raise, Effect::WakeIntrTask]
            } else {
                effects == seq![trace, raise]
            }
        }),
{
}

} // verus!
