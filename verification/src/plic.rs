//! The kernel's side of the platform-level interrupt controller.
use std::collections::BTreeMap;
use vstd::prelude::*;

verus! {

/// Where the controller's registers are mapped.
pub const PLIC_BASE: usize = 0xc00_0000;

/// How many bits of a priority register are implemented.
pub const PLIC_PRIORITY_BIT: usize = 3;

const MODE_PER_HART: usize = 3;

/// The boards that the kernel runs on.
#[derive(Clone, Copy, Debug, PartialEq, Eq)]
pub enum Board {
    Qemu,
    Lrv,
}

/// The position of a privilege mode among the contexts of a hart.
pub open spec fn mode_index(mode: char) -> int {
    if mode == 'M' {
        0
    } else if mode == 'S' {
        1
    } else {
        2
    }
}

/// Whether `mode` names a privilege mode.
pub open spec fn is_mode(mode: char) -> bool {
    mode == 'M' || mode == 'S' || mode == 'U'
}

/// The interrupt context of a hart in a privilege mode: every hart has one context for each of
/// the modes M, S and U, in that order.
pub open spec fn context_of(hartid: int, mode: char) -> int {
    hartid * 3 + mode_index(mode)
}

/// Computes the interrupt context of hart `hartid` in privilege mode `mode`.
pub fn get_context(hartid: usize, mode: char) -> (ctx: usize)
    requires
        is_mode(mode),
        context_of(hartid as int, mode) <= usize::MAX,
    ensures
        ctx == context_of(hartid as int, mode),
{
    let offset: usize = match mode {
        'M' => 0,
        'S' => 1,
        _ => 2,
    };
    hartid * MODE_PER_HART + offset
}

/// No two pairs of a hart and a mode share a context.
pub proof fn law_contexts_are_distinct(hart1: nat, mode1: char, hart2: nat, mode2: char)
    requires
        is_mode(mode1),
        is_mode(mode2),
        context_of(hart1 as int, mode1) == context_of(hart2 as int, mode2),
    ensures
        hart1 == hart2,
        mode1 == mode2,
{
}

/// A priority level.
#[derive(Clone, Copy, Debug, PartialEq, Eq)]
pub enum PlicPriority {
    /// As a threshold, the level that masks nothing.
    Any,
    /// The lowest level that an interrupt source can have.
    Lowest,
}

/// A write to the controller's configuration.
#[derive(Clone, Copy, Debug, PartialEq, Eq)]
pub enum PlicOp {
    SetThreshold { ctx: usize, priority: PlicPriority },
    Enable { ctx: usize, irq: u16 },
    SetPriority { irq: u16, priority: PlicPriority },
}

/// The interrupt lines that get a priority at start-up.
pub open spec fn prioritised_irqs(board: Board) -> Seq<u16> {
    match board {
        Board::Qemu => seq![9u16, 10u16, 12u16],
        Board::Lrv => seq![3u16, 4u16],
    }
}

/// The interrupt line that is enabled for the kernel at start-up.
pub open spec fn enabled_irq(board: Board) -> u16 {
    match board {
        Board::Qemu => 12,
        Board::Lrv => 3,
    }
}

/// The start-up configuration: contexts 1 and 2 mask nothing, one line is enabled in context 1,
/// and some lines get the lowest priority.
pub open spec fn init_ops(board: Board) -> Seq<PlicOp> {
    seq![
        PlicOp::SetThreshold { ctx: 1, priority: PlicPriority::Any },
        PlicOp::SetThreshold { ctx: 2, priority: PlicPriority::Any },
        PlicOp::Enable { ctx: 1, irq: enabled_irq(board) },
    ] + prioritised_irqs(board).map_values(
        |irq: u16| PlicOp::SetPriority { irq, priority: PlicPriority::Lowest },
    )
}

/// The writes that configure the controller of `board`, in order.
pub fn init(board: Board) -> (ops: Vec<PlicOp>)
    ensures
        ops@ == init_ops(board),
{
    let mut ops: Vec<PlicOp> = Vec::new();
    ops.push(PlicOp::SetThreshold { ctx: 1, priority: PlicPriority::Any });
    ops.push(PlicOp::SetThreshold { ctx: 2, priority: PlicPriority::Any });
    match board {
        Board::Qemu => {
            ops.push(PlicOp::Enable { ctx: 1, irq: 12 });
            ops.push(PlicOp::SetPriority { irq: 9, priority: PlicPriority::Lowest });
            ops.push(PlicOp::SetPriority { irq: 10, priority: PlicPriority::Lowest });
            ops.push(PlicOp::SetPriority { irq: 12, priority: PlicPriority::Lowest });
        },
        Board::Lrv => {
            ops.push(PlicOp::Enable { ctx: 1, irq: 3 });
            ops.push(PlicOp::SetPriority { irq: 3, priority: PlicPriority::Lowest });
            ops.push(PlicOp::SetPriority { irq: 4, priority: PlicPriority::Lowest });
        },
    }
    assert(ops@ =~= init_ops(board));
    ops
}

/// The contexts that are opened at start-up are those of the first hart in S and U mode, and the
/// line that is enabled is enabled for S mode and has a priority.
pub proof fn law_init_opens_the_first_hart(board: Board)
    ensures
        init_ops(board)[0] == (PlicOp::SetThreshold {
            ctx: context_of(0, 'S') as usize,
            priority: PlicPriority::Any,
        }),
        init_ops(board)[1] == (PlicOp::SetThreshold {
            ctx: context_of(0, 'U') as usize,
            priority: PlicPriority::Any,
        }),
        init_ops(board)[2] == (PlicOp::Enable {
            ctx: context_of(0, 'S') as usize,
            irq: enabled_irq(board),
        }),
        init_ops(board).contains(
            PlicOp::SetPriority { irq: enabled_irq(board), priority: PlicPriority::Lowest },
        ),
{
    match board {
        Board::Qemu => {
            assert(init_ops(board)[5] == (PlicOp::SetPriority {
                irq: 12,
                priority: PlicPriority::Lowest,
            }));
        },
        Board::Lrv => {
            assert(init_ops(board)[3] == (PlicOp::SetPriority {
                irq: 3,
                priority: PlicPriority::Lowest,
            }));
        },
    }
}

/// The cause number of a user external interrupt.
pub const USER_EXT_INT_CAUSE: usize = 8;

/// What is queued for a process to tell it of a trap.
#[derive(Clone, Copy, Debug, PartialEq, Eq)]
pub struct UserTrapRecord {
    pub cause: usize,
    pub message: usize,
}

/// How far the handling of an external interrupt has come.
#[derive(Clone, Copy, Debug, PartialEq, Eq)]
pub enum ExtIntStage {
    Idle,
    Claiming,
    Delivering { irq: u16 },
    KernelHandling { irq: u16 },
    Completing { irq: u16 },
    Finished,
}

/// What has happened since the last action.
#[derive(Clone, Copy, Debug, PartialEq, Eq)]
pub enum ExtIntEvent {
    /// The trap was taken.
    Raised,
    /// The controller has answered a claim.
    Claimed(Option<u16>),
    /// The trap record was queued, or could not be.
    Pushed(bool),
    /// The kernel has dealt with the interrupt itself.
    Handled,
    /// The controller has taken the completion.
    Completed,
}

/// What is to be done next.
#[derive(Clone, Copy, Debug, PartialEq, Eq)]
pub enum ExtIntAction {
    Claim { ctx: usize },
    PushTrapRecord { pid: usize, record: UserTrapRecord },
    /// Let the kernel's own serial driver handle the interrupt.
    HandleUart { irq: u16 },
    /// Log that nobody handles this interrupt.
    WarnUnsupported { irq: u16 },
    Complete { ctx: usize, irq: u16 },
    Return,
}

/// The interrupt line of the serial port that the kernel drives itself.
pub open spec fn kernel_uart_irq(board: Board) -> u16 {
    match board {
        Board::Qemu => 12,
        Board::Lrv => 4,
    }
}

/// What the kernel does with an interrupt that no process takes.
pub open spec fn kernel_action(board: Board, irq: u16) -> ExtIntAction {
    if irq == kernel_uart_irq(board) {
        ExtIntAction::HandleUart { irq }
    } else {
        ExtIntAction::WarnUnsupported { irq }
    }
}

/// The record that tells a process of interrupt `irq`.
pub open spec fn ext_int_record(irq: u16) -> UserTrapRecord {
    UserTrapRecord { cause: USER_EXT_INT_CAUSE, message: irq as usize }
}

/// Which events can follow the action of a stage.
pub open spec fn ext_int_expects(stage: ExtIntStage, event: ExtIntEvent) -> bool {
    match stage {
        ExtIntStage::Idle => event is Raised,
        ExtIntStage::Claiming => event is Claimed,
        ExtIntStage::Delivering { .. } => event is Pushed,
        ExtIntStage::KernelHandling { .. } => event is Handled,
        ExtIntStage::Completing { .. } => event is Completed,
        ExtIntStage::Finished => false,
    }
}

/// The step of the handler: a claimed interrupt goes to the process that `owners` names; where
/// there is none, or it cannot be told, the kernel deals with it; then it is completed.
pub open spec fn ext_int_step(
    board: Board,
    owners: Map<u16, usize>,
    stage: ExtIntStage,
    event: ExtIntEvent,
) -> (ExtIntStage, ExtIntAction) {
    let ctx = context_of(0, 'S') as usize;
    match (stage, event) {
        (ExtIntStage::Idle, _) => (ExtIntStage::Claiming, ExtIntAction::Claim { ctx }),
        (ExtIntStage::Claiming, ExtIntEvent::Claimed(Some(irq))) => if owners.contains_key(irq) {
            (
                ExtIntStage::Delivering { irq },
                ExtIntAction::PushTrapRecord { pid: owners[irq], record: ext_int_record(irq) },
            )
        } else {
            (ExtIntStage::KernelHandling { irq }, kernel_action(board, irq))
        },
        (ExtIntStage::Delivering { irq }, ExtIntEvent::Pushed(false)) => (
            ExtIntStage::KernelHandling { irq },
            kernel_action(board, irq),
        ),
        (ExtIntStage::Delivering { irq }, _) => (
            ExtIntStage::Completing { irq },
            ExtIntAction::Complete { ctx, irq },
        ),
        (ExtIntStage::KernelHandling { irq }, _) => (
            ExtIntStage::Completing { irq },
            ExtIntAction::Complete { ctx, irq },
        ),
        _ => (ExtIntStage::Finished, ExtIntAction::Return),
    }
}

fn kernel_handling(board: Board, irq: u16) -> (r: (ExtIntStage, ExtIntAction))
    ensures
        r == (ExtIntStage::KernelHandling { irq }, kernel_action(board, irq)),
{
    let own: u16 = match board {
        Board::Qemu => 12,
        Board::Lrv => 4,
    };
    let action = if irq == own {
        ExtIntAction::HandleUart { irq }
    } else {
        ExtIntAction::WarnUnsupported { irq }
    };
    (ExtIntStage::KernelHandling { irq }, action)
}

/// Decides what to do next about an external interrupt, given what has happened since the last
/// action. `owners` names the process that has claimed each line.
pub fn handle_external_interrupt(
    board: Board,
    owners: &BTreeMap<u16, usize>,
    stage: ExtIntStage,
    event: ExtIntEvent,
) -> (r: (ExtIntStage, ExtIntAction))
    requires
        ext_int_expects(stage, event),
    ensures
        r == ext_int_step(board, owners@, stage, event),
{
    let ctx: usize = get_context(0, 'S');
    match (stage, event) {
        (ExtIntStage::Idle, _) => (ExtIntStage::Claiming, ExtIntAction::Claim { ctx }),
        (ExtIntStage::Claiming, ExtIntEvent::Claimed(Some(irq))) => match owners.get(&irq) {
            Some(pid) => (
                ExtIntStage::Delivering { irq },
                ExtIntAction::PushTrapRecord {
                    pid: *pid,
                    record: UserTrapRecord { cause: USER_EXT_INT_CAUSE, message: irq as usize },
                },
            ),
            None => kernel_handling(board, irq),
        },
        (ExtIntStage::Delivering { irq }, ExtIntEvent::Pushed(false)) => kernel_handling(
            board,
            irq,
        ),
        (ExtIntStage::Delivering { irq }, _) => (
            ExtIntStage::Completing { irq },
            ExtIntAction::Complete { ctx, irq },
        ),
        (ExtIntStage::KernelHandling { irq }, _) => (
            ExtIntStage::Completing { irq },
            ExtIntAction::Complete { ctx, irq },
        ),
        _ => (ExtIntStage::Finished, ExtIntAction::Return),
    }
}

/// The event that follows an action, where the controller answers a claim with `claimed` and the
/// queueing of a trap record succeeds as `pushed` says.
pub open spec fn ext_int_answer(
    action: ExtIntAction,
    claimed: Option<u16>,
    pushed: bool,
) -> ExtIntEvent {
    match action {
        ExtIntAction::Claim { .. } => ExtIntEvent::Claimed(claimed),
        ExtIntAction::PushTrapRecord { .. } => ExtIntEvent::Pushed(pushed),
        ExtIntAction::Complete { .. } => ExtIntEvent::Completed,
        _ => ExtIntEvent::Handled,
    }
}

/// The actions of the handler from `stage` on, up to its return.
pub open spec fn ext_int_actions(
    board: Board,
    owners: Map<u16, usize>,
    stage: ExtIntStage,
    event: ExtIntEvent,
    claimed: Option<u16>,
    pushed: bool,
    steps: nat,
) -> Seq<ExtIntAction>
    decreases steps,
{
    if steps == 0 {
        Seq::empty()
    } else {
        let (after, action) = ext_int_step(board, owners, stage, event);
        if action is Return {
            seq![action]
        } else {
            seq![action] + ext_int_actions(
                board,
                owners,
                after,
                ext_int_answer(action, claimed, pushed),
                claimed,
                pushed,
                (steps - 1) as nat,
            )
        }
    }
}

/// The most actions that the handling of one interrupt takes.
pub const EXT_INT_MAX_ACTIONS: usize = 5;

/// An interrupt that is claimed is completed exactly once, in the context it was claimed in and
/// after everything else; before that it goes to the process that owns its line, and to the
/// kernel if and only if no process could be told of it. Where nothing could be claimed, nothing
/// is done.
pub proof fn law_claimed_interrupt_is_completed(
    board: Board,
    owners: Map<u16, usize>,
    claimed: Option<u16>,
    pushed: bool,
)
    ensures
        ({
            let ctx = context_of(0, 'S') as usize;
            let actions = ext_int_actions(
                board,
                owners,
                ExtIntStage::Idle,
                ExtIntEvent::Raised,
                claimed,
                pushed,
                EXT_INT_MAX_ACTIONS as nat,
            );
            let claim = ExtIntAction::Claim { ctx };
            match claimed {
                None => actions == seq![claim, ExtIntAction::Return],
                Some(irq) => {
                    let push = ExtIntAction::PushTrapRecord {
                        pid: owners[irq],
                        record: ext_int_record(irq),
                    };
                    let own = kernel_action(board, irq);
                    let complete = ExtIntAction::Complete { ctx, irq };
                    if !owners.contains_key(irq) {
                        actions == seq![claim, own, complete, ExtIntAction::Return]
                    } else if pushed {
                        actions == seq![claim, push, complete, ExtIntAction::Return]
                    } else {
                        actions == seq![claim, push, own, complete, ExtIntAction::Return]
                    }
                },
            }
        }),
{
    reveal_with_fuel(ext_int_actions, 6);
}

/// The contexts of a hart are numbered M, S, U, those of one hart follow those of the hart before
/// it, and the first one is zero.
pub proof fn law_contexts_are_consecutive(hartid: nat, mode: char)
    requires
        is_mode(mode),
    ensures
        context_of(0, 'M') == 0,
        context_of(hartid as int, 'S') == context_of(hartid as int, 'M') + 1,
        context_of(hartid as int, 'U') == context_of(hartid as int, 'M') + 2,
        context_of(hartid + 1int, mode) == context_of(hartid as int, mode) + 3,
        is_mode('M') && is_mode('S') && is_mode('U'),
{
}

/// The kernel claims and completes in the context of the first hart in S mode. The owner of a line
/// is told of its interrupts by a record with the cause of a user external interrupt and the line
/// as its message. An interrupt that no owner could be told of is handled by the kernel's serial
/// driver if it is that of the driver's own port, line 12 on QEMU and line 4 on LRV, and is
/// otherwise only warned of, whatever the line.
pub proof fn law_interrupt_goes_to_its_owner_or_the_kernel(
    board: Board,
    owners: Map<u16, usize>,
    irq: u16,
    pushed: bool,
)
    ensures
        ({
            let actions = ext_int_actions(
                board,
                owners,
                ExtIntStage::Idle,
                ExtIntEvent::Raised,
                Some(irq),
                pushed,
                EXT_INT_MAX_ACTIONS as nat,
            );
            let told = ExtIntAction::PushTrapRecord {
                pid: owners[irq],
                record: UserTrapRecord { cause: 8, message: irq as usize },
            };
            let own_port = match board {
                Board::Qemu => irq == 12,
                Board::Lrv => irq == 4,
            };
            let owned = owners.contains_key(irq);
            &&& actions[0] == ExtIntAction::Claim { ctx: 1 }
            &&& actions.last() == ExtIntAction::Return
            &&& actions[actions.len() - 2] == ExtIntAction::Complete { ctx: 1, irq }
            &&& actions.contains(told) <==> owned
            &&& actions.contains(ExtIntAction::HandleUart { irq }) <==> own_port && !(owned
                && pushed)
            &&& actions.contains(ExtIntAction::WarnUnsupported { irq }) <==> !own_port && !(owned
                && pushed)
            &&& actions.len() == 3 + (if owned { 1int } else { 0 }) + (if owned && pushed {
                0int
            } else {
                1
            })
        }),
{
    law_claimed_interrupt_is_completed(board, owners, Some(irq), pushed);
    let actions = ext_int_actions(
        board,
        owners,
        ExtIntStage::Idle,
        ExtIntEvent::Raised,
        Some(irq),
        pushed,
        EXT_INT_MAX_ACTIONS as nat,
    );
    assert(actions[1] == actions[1]);
    assert(actions[2] == actions[2]);
}

} // verus!
