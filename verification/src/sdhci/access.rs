//! An access to a card register, from the request to the answer.

use vstd::prelude::*;

use crate::error::SdioError;
use crate::irq::{IrqFlag, SdhciIrqState};
use crate::regs::{
    SDHCI_ARGUMENT, SDHCI_CMD_INHIBIT, SDHCI_COMMAND, SDHCI_PRESENT_STATE, SDHCI_RESPONSE,
    SDHCI_SOFTWARE_RESET, SDIO_ADDR_MASK, SWRST_DAT_LINE,
};
use crate::sdhci::command::{command_word, flags_of, r5_answer, Cmd52, SendCmd, SendPhase};
use crate::sdhci::frame::{Frame, Io, IrqOp, Out, ERROR_TAKEN};
use crate::sdhci::run::Look;
use crate::sdhci::task::{irq_after, irq_answer, Action, TaskState, World};
use crate::sdhci::task_run::{law_task_ends, stack_budget, Turn};
use crate::sdhci::wait::{
    error_of, Poll, PollCond, ResetDat, WaitIrq, WaitPhase, WAIT_SPINS, WAIT_YIELDS,
};

verus! {

/// What a wait for `flag` sees of an interrupt state.
pub open spec fn look_at(irq: SdhciIrqState, flag: IrqFlag) -> Look {
    Look {
        error: irq_answer(irq, IrqOp::TakeError),
        flag: irq_answer(irq_after(irq, IrqOp::TakeError, irq.base), IrqOp::Take(flag)),
    }
}

/// A look sees what interrupts have left: an error with its status, where one is pending,
/// and the flag. After an interrupt that completes what the flag stands for, the flag is
/// up; after one that reports an error, that error is pending with the status reported.
pub proof fn law_look_sees_interrupts(irq: SdhciIrqState, flag: IrqFlag, status: u32)
    ensures
        match irq.pending_error() {
            Some(err) => look_at(irq, flag).error == ERROR_TAKEN + err,
            None => look_at(irq, flag).error < ERROR_TAKEN,
        },
        look_at(irq, flag).flag != 0 <==> irq.flag(flag),
        crate::irq::completes(status, flag.bit()) ==> look_at(irq.after_irq(status), flag).flag != 0,
        crate::irq::reports_error(status) ==> look_at(irq.after_irq(status), flag).error
            == ERROR_TAKEN + crate::irq::err_of(status),
{
}

impl World {
    /// What step number `i` wants of the runner.
    #[verifier::opaque]
    pub open spec fn wanted(self, turns: spec_fn(int) -> Turn, i: nat) -> Action {
        (World { irq: turns(i as int).irq, ..self.after_turns(turns, i) }).wants(
            turns(i as int).reply,
        )
    }
}

/// One step, where the operation on top of the others is `top`.
pub proof fn lemma_turn(world: World, rest: Seq<Frame>, top: Frame, turns: spec_fn(int) -> Turn, i: nat)
    requires
        world.after_turns(turns, i).task.stack == rest.push(top),
    ensures
        ({
            let now = world.after_turns(turns, i);
            let next = world.after_turns(turns, i + 1);
            let turn = turns(i as int);
            let step = top.next(now.host.cfg, now.task.input(turn.reply));
            &&& next.host.cfg == now.host.cfg
            &&& next.task.stack == (match step.out {
                Out::Return(_) => rest,
                Out::Call(callee) => rest.push(step.frame).push(callee),
                _ => rest.push(step.frame),
            })
            &&& next.task.waiting == (match step.out {
                Out::Io(io) => Some(io),
                _ => None,
            })
            &&& next.task.inbox == (match step.out {
                Out::Return(answer) => answer,
                Out::Irq(op) => Ok(irq_answer(turn.irq, op)),
                Out::Fetch { at } => next.task.inbox,
                _ => Ok(0),
            })
            &&& world.wanted(turns, i) == (match step.out {
                Out::Io(io) => Action::Io(io),
                Out::Return(answer) => if rest.len() == 0 {
                    Action::Done(answer)
                } else {
                    Action::Again
                },
                _ => Action::Again,
            })
        }),
{
    reveal(World::wanted);
    assert(rest.push(top).drop_last() =~= rest);
    assert(rest.push(top).last() == top);
}

/// The step of an access that asks for the controller's state for read number `j`; the next
/// step is told what was read.
pub open spec fn poll_step(j: nat) -> nat {
    2 * j + 2
}

/// The step of an access that takes the error for look number `j` at the interrupt state,
/// where the command line was busy for `p` reads; the next step takes the flag.
pub open spec fn look_step(p: nat, j: nat) -> nat {
    2 * p + 3 * j + 8
}

/// Read number `j` of the controller's state finds the command line busy.
pub open spec fn busy_at(turns: spec_fn(int) -> Turn, j: nat) -> bool {
    turns((poll_step(j) + 1) as int).reply & SDHCI_CMD_INHIBIT != 0
}

/// The first `p` reads of the controller's state find the command line busy.
pub open spec fn busy_for(turns: spec_fn(int) -> Turn, p: nat) -> bool {
    forall|j: nat| j < p ==> #[trigger] busy_at(turns, j)
}

/// Look number `j` finds neither an error nor the completion of the command.
pub open spec fn quiet_at(turns: spec_fn(int) -> Turn, p: nat, j: nat) -> bool {
    &&& turns(look_step(p, j) as int).irq.pending_error() is None
    &&& !turns((look_step(p, j) + 1) as int).irq.flag(IrqFlag::CmdComplete)
}

/// The first `q` looks find neither.
pub open spec fn quiet_for(turns: spec_fn(int) -> Turn, p: nat, q: nat) -> bool {
    forall|j: nat| j < q ==> #[trigger] quiet_at(turns, p, j)
}

/// The task is an access to a card register that has not begun.
pub open spec fn begins_access(world: World, access: Cmd52, buf: Seq<u8>) -> bool {
    &&& world.task == TaskState::begins(Frame::Cmd52(access), buf)
    &&& !access.sent
    &&& access.addr <= SDIO_ADDR_MASK
}

/// The command goes out: the command line is busy for `p` reads, within those allowed, and
/// then idle.
pub open spec fn goes_out(world: World, turns: spec_fn(int) -> Turn, p: nat) -> bool {
    &&& p < world.host.cfg.cmd_idle_polls
    &&& busy_for(turns, p)
    &&& !busy_at(turns, p)
}

/// What a step of the poll for an idle command line wants: the controller's state, and a
/// pause after each read that finds the line busy.
pub open spec fn poll_wants(i: nat) -> Action {
    if i < poll_step(0) {
        Action::Again
    } else if i % 2 == 0 {
        Action::Io(Io::Read32 { off: SDHCI_PRESENT_STATE })
    } else {
        Action::Io(Io::Spin { times: 1 })
    }
}

/// What a step of an access wants, where the command line was busy for `p` reads, as long as
/// no look has found anything: the reads of the controller's state, then the argument, then
/// the command, then a pause after each look.
pub open spec fn access_wants(access: Cmd52, p: nat, i: nat) -> Action {
    let sent = look_step(p, 0);
    if i <= poll_step(p) {
        poll_wants(i)
    } else if i == poll_step(p) + 3 {
        Action::Io(Io::Write32 { off: SDHCI_ARGUMENT, value: access.argument() })
    } else if i == poll_step(p) + 4 {
        Action::Io(
            Io::Write16 { off: SDHCI_COMMAND, value: command_word(52, flags_of(52).unwrap()) },
        )
    } else if i >= sent && (i - sent) % 3 == 2 {
        Action::Io(
            if (i - sent) / 3 < WAIT_SPINS {
                Io::Spin { times: 1 }
            } else {
                Io::Yield
            },
        )
    } else {
        Action::Again
    }
}

/// The access once its command is being sent.
spec fn sending(access: Cmd52) -> Seq<Frame> {
    seq![Frame::Cmd52(Cmd52 { sent: true, ..access })]
}

/// The sending of the command in a phase.
spec fn send_at(access: Cmd52, phase: SendPhase) -> Frame {
    Frame::SendCmd(SendCmd { index: 52, arg: access.argument(), phase })
}

/// The operations around the poll for an idle command line.
spec fn polling(access: Cmd52) -> Seq<Frame> {
    sending(access).push(send_at(access, SendPhase::Idle))
}

/// The operations around the wait for the completion.
spec fn waiting(access: Cmd52) -> Seq<Frame> {
    sending(access).push(send_at(access, SendPhase::Complete))
}

/// The wait for the completion with `left` looks allowed.
spec fn wait_at(left: nat, phase: WaitPhase) -> Frame {
    Frame::WaitIrq(WaitIrq { flag: IrqFlag::CmdComplete, left: left as u32, phase })
}

proof fn lemma_access_begins(world: World, access: Cmd52, buf: Seq<u8>, turns: spec_fn(int) -> Turn)
    requires
        begins_access(world, access, buf),
    ensures
        world.wanted(turns, 0) == Action::Again,
        world.wanted(turns, 1) == Action::Again,
        world.after_turns(turns, 2).host.cfg == world.host.cfg,
        world.after_turns(turns, 2).task.stack == polling(access).push(
            Poll::of(PollCond::CmdIdle, world.host.cfg.cmd_idle_polls),
        ),
{
    let none = Seq::<Frame>::empty();
    assert(world.after_turns(turns, 0) == world);
    assert(world.task.stack =~= none.push(Frame::Cmd52(access)));
    lemma_turn(world, none, Frame::Cmd52(access), turns, 0);
    assert(sending(access) =~= none.push(Frame::Cmd52(Cmd52 { sent: true, ..access })));
    lemma_turn(world, sending(access), send_at(access, SendPhase::Begin), turns, 1);
}

proof fn lemma_access_polls(
    world: World,
    access: Cmd52,
    buf: Seq<u8>,
    turns: spec_fn(int) -> Turn,
    j: nat,
)
    requires
        begins_access(world, access, buf),
        j <= world.host.cfg.cmd_idle_polls,
        busy_for(turns, j),
    ensures
        world.after_turns(turns, poll_step(j)).host.cfg == world.host.cfg,
        world.after_turns(turns, poll_step(j)).task.stack == polling(access).push(
            Poll::of(PollCond::CmdIdle, (world.host.cfg.cmd_idle_polls - j) as u32),
        ),
    decreases j,
{
    if j == 0 {
        lemma_access_begins(world, access, buf, turns);
    } else {
        let m = (j - 1) as nat;
        assert(busy_at(turns, m));
        lemma_access_polls(world, access, buf, turns, m);
        lemma_access_read(world, access, turns, m);
    }
}

/// One read of the controller's state.
#[verifier::rlimit(40)]
proof fn lemma_access_read(
    world: World,
    access: Cmd52,
    turns: spec_fn(int) -> Turn,
    j: nat,
)
    requires
        j < world.host.cfg.cmd_idle_polls,
        world.after_turns(turns, poll_step(j)).host.cfg == world.host.cfg,
        world.after_turns(turns, poll_step(j)).task.stack == polling(access).push(
            Poll::of(PollCond::CmdIdle, (world.host.cfg.cmd_idle_polls - j) as u32),
        ),
    ensures
        world.wanted(turns, poll_step(j)) == Action::Io(Io::Read32 { off: SDHCI_PRESENT_STATE }),
        world.after_turns(turns, poll_step(j) + 2).host.cfg == world.host.cfg,
        busy_at(turns, j) ==> {
            &&& world.wanted(turns, poll_step(j) + 1) == Action::Io(Io::Spin { times: 1 })
            &&& world.after_turns(turns, poll_step(j) + 2).task.stack == polling(access).push(
                Poll::of(PollCond::CmdIdle, (world.host.cfg.cmd_idle_polls - j - 1) as u32),
            )
        },
        !busy_at(turns, j) ==> {
            &&& world.wanted(turns, poll_step(j) + 1) == Action::Again
            &&& world.after_turns(turns, poll_step(j) + 2).task.stack == polling(access)
            &&& world.after_turns(turns, poll_step(j) + 2).task.waiting is None
            &&& world.after_turns(turns, poll_step(j) + 2).task.inbox is Ok
        },
{
    let left = (world.host.cfg.cmd_idle_polls - j) as u32;
    let poll = Poll { cond: PollCond::CmdIdle, left, asked: false };
    lemma_turn(world, polling(access), Frame::Poll(poll), turns, poll_step(j));
    let asked = Poll { left: (left - 1) as u32, asked: true, ..poll };
    lemma_turn(world, polling(access), Frame::Poll(asked), turns, poll_step(j) + 1);
}

/// The command goes out.
#[verifier::rlimit(40)]
proof fn lemma_access_sent(
    world: World,
    access: Cmd52,
    buf: Seq<u8>,
    turns: spec_fn(int) -> Turn,
    p: nat,
)
    requires
        begins_access(world, access, buf),
        goes_out(world, turns, p),
    ensures
        ({
            let idle = poll_step(p) + 1;
            let next = look_step(p, 0);
            &&& world.wanted(turns, idle) == Action::Again
            &&& world.wanted(turns, idle + 1) == Action::Again
            &&& world.wanted(turns, idle + 2) == Action::Io(
                Io::Write32 { off: SDHCI_ARGUMENT, value: access.argument() },
            )
            &&& world.wanted(turns, idle + 3) == Action::Io(
                Io::Write16 { off: SDHCI_COMMAND, value: command_word(52, flags_of(52).unwrap()) },
            )
            &&& world.wanted(turns, idle + 4) == Action::Again
            &&& world.after_turns(turns, next).task.stack == waiting(access).push(
                WaitIrq::of(IrqFlag::CmdComplete),
            )
        }),
{
    let i = poll_step(p);
    lemma_access_polls(world, access, buf, turns, p);
    lemma_access_read(world, access, turns, p);
    lemma_turn(world, sending(access), send_at(access, SendPhase::Idle), turns, i + 2);
    lemma_turn(world, sending(access), send_at(access, SendPhase::Drain), turns, i + 3);
    lemma_turn(world, sending(access), send_at(access, SendPhase::Argument), turns, i + 4);
    lemma_turn(world, sending(access), send_at(access, SendPhase::Command), turns, i + 5);
}

#[verifier::rlimit(40)]
proof fn lemma_access_looks(
    world: World,
    access: Cmd52,
    buf: Seq<u8>,
    turns: spec_fn(int) -> Turn,
    p: nat,
    j: nat,
)
    requires
        begins_access(world, access, buf),
        goes_out(world, turns, p),
        j <= WAIT_SPINS + WAIT_YIELDS,
        quiet_for(turns, p, j),
    ensures
        world.after_turns(turns, look_step(p, j)).task.stack == waiting(access).push(
            wait_at((WAIT_SPINS + WAIT_YIELDS - j) as nat, WaitPhase::Look),
        ),
    decreases j,
{
    if j == 0 {
        lemma_access_sent(world, access, buf, turns, p);
    } else {
        let m = (j - 1) as nat;
        assert(quiet_at(turns, p, m));
        lemma_access_looks(world, access, buf, turns, p, m);
        lemma_access_look(world, access, turns, p, m);
    }
}

/// One look at the interrupt state.
#[verifier::rlimit(40)]
proof fn lemma_access_look(
    world: World,
    access: Cmd52,
    turns: spec_fn(int) -> Turn,
    p: nat,
    j: nat,
)
    requires
        j < WAIT_SPINS + WAIT_YIELDS,
        world.after_turns(turns, look_step(p, j)).task.stack == waiting(access).push(
            wait_at((WAIT_SPINS + WAIT_YIELDS - j) as nat, WaitPhase::Look),
        ),
    ensures
        ({
            let i = look_step(p, j);
            let left = (WAIT_SPINS + WAIT_YIELDS - j - 1) as nat;
            &&& world.wanted(turns, i) == Action::Again
            &&& world.wanted(turns, i + 1) == Action::Again
            &&& match turns(i as int).irq.pending_error() {
                Some(status) => world.after_turns(turns, i + 2).task.stack == waiting(access).push(
                    wait_at(left, WaitPhase::Failed { status }),
                ).push(ResetDat::of()),
                None => if turns((i + 1) as int).irq.flag(IrqFlag::CmdComplete) {
                    &&& world.wanted(turns, i + 2) == Action::Again
                    &&& world.after_turns(turns, i + 3).task.stack == waiting(access)
                    &&& world.after_turns(turns, i + 3).task.waiting is None
                    &&& world.after_turns(turns, i + 3).task.inbox is Ok
                } else {
                    &&& world.wanted(turns, i + 2) == Action::Io(
                        if j < WAIT_SPINS {
                            Io::Spin { times: 1 }
                        } else {
                            Io::Yield
                        },
                    )
                    &&& world.after_turns(turns, i + 3).task.stack == waiting(access).push(
                        wait_at(left, WaitPhase::Look),
                    )
                },
            }
        }),
{
    let i = look_step(p, j);
    let left = (WAIT_SPINS + WAIT_YIELDS - j - 1) as nat;
    let around = waiting(access);
    lemma_turn(world, around, wait_at(left + 1, WaitPhase::Look), turns, i);
    lemma_turn(world, around, wait_at(left, WaitPhase::Error), turns, i + 1);
    if turns(i as int).irq.pending_error() is None {
        lemma_turn(world, around, wait_at(left, WaitPhase::Flag), turns, i + 2);
    }
}

/// What the access wants until look number `q`.
proof fn lemma_access_wants(
    world: World,
    access: Cmd52,
    buf: Seq<u8>,
    turns: spec_fn(int) -> Turn,
    p: nat,
    q: nat,
    i: nat,
)
    requires
        begins_access(world, access, buf),
        goes_out(world, turns, p),
        q <= WAIT_SPINS + WAIT_YIELDS,
        quiet_for(turns, p, q),
        i < look_step(p, q),
    ensures
        world.wanted(turns, i) == access_wants(access, p, i),
{
    let sent = look_step(p, 0);
    if i < poll_step(p) {
        lemma_poll_wants(world, access, buf, turns, p, i);
    } else if i < sent {
        lemma_access_polls(world, access, buf, turns, p);
        lemma_access_read(world, access, turns, p);
        lemma_access_sent(world, access, buf, turns, p);
    } else {
        lemma_look_wants(world, access, buf, turns, p, q, i);
    }
}

#[verifier::rlimit(40)]
proof fn lemma_look_wants(
    world: World,
    access: Cmd52,
    buf: Seq<u8>,
    turns: spec_fn(int) -> Turn,
    p: nat,
    q: nat,
    i: nat,
)
    requires
        begins_access(world, access, buf),
        goes_out(world, turns, p),
        q <= WAIT_SPINS + WAIT_YIELDS,
        quiet_for(turns, p, q),
        look_step(p, 0) <= i < look_step(p, q),
    ensures
        world.wanted(turns, i) == access_wants(access, p, i),
{
    let j = ((i - look_step(p, 0)) / 3) as nat;
    assert(j < q);
    assert(quiet_at(turns, p, j));
    assert(quiet_for(turns, p, j));
    lemma_access_looks(world, access, buf, turns, p, j);
    lemma_access_look(world, access, turns, p, j);
    assert(i == look_step(p, j) || i == look_step(p, j) + 1 || i == look_step(p, j) + 2);
}

proof fn lemma_poll_wants(
    world: World,
    access: Cmd52,
    buf: Seq<u8>,
    turns: spec_fn(int) -> Turn,
    p: nat,
    i: nat,
)
    requires
        begins_access(world, access, buf),
        p <= world.host.cfg.cmd_idle_polls,
        busy_for(turns, p),
        i < poll_step(p),
    ensures
        world.wanted(turns, i) == poll_wants(i),
{
    lemma_access_begins(world, access, buf, turns);
    if i >= 2 {
        let j = ((i - 2) / 2) as nat;
        assert(busy_at(turns, j));
        assert(busy_for(turns, j));
        lemma_access_polls(world, access, buf, turns, j);
        lemma_access_read(world, access, turns, j);
        assert(i == poll_step(j) || i == poll_step(j) + 1);
    }
}

/// Accessing a card register from beginning to end: the command line may be busy for any
/// number of reads below the number allowed, and the completion of the command, without an
/// error before it, may come in at any look within the wait. The controller then sees the
/// reads of its state until the line is idle, the argument, the command, and one read of
/// the response, in this order, and nothing else; and the answer of the task is what that
/// response says.
pub proof fn law_access(
    world: World,
    access: Cmd52,
    buf: Seq<u8>,
    turns: spec_fn(int) -> Turn,
    p: nat,
    q: nat,
)
    requires
        begins_access(world, access, buf),
        goes_out(world, turns, p),
        q < WAIT_SPINS + WAIT_YIELDS,
        quiet_for(turns, p, q),
        turns(look_step(p, q) as int).irq.pending_error() is None,
        turns((look_step(p, q) + 1) as int).irq.flag(IrqFlag::CmdComplete),
    ensures
        ({
            let last = look_step(p, q);
            &&& forall|i: nat|
                i < last ==> #[trigger] world.wanted(turns, i) == access_wants(access, p, i)
            &&& world.wanted(turns, last) == Action::Again
            &&& world.wanted(turns, last + 1) == Action::Again
            &&& world.wanted(turns, last + 2) == Action::Again
            &&& world.wanted(turns, last + 3) == Action::Io(Io::Read32 { off: SDHCI_RESPONSE })
            &&& world.wanted(turns, last + 4) == Action::Again
            &&& world.wanted(turns, last + 5) == Action::Done(r5_answer(turns((last + 4) as int).reply))
            &&& world.after_turns(turns, last + 6).task.stack.len() == 0
        }),
{
    let last = look_step(p, q);
    assert forall|i: nat| i < last implies #[trigger] world.wanted(turns, i) == access_wants(
        access,
        p,
        i,
    ) by {
        lemma_access_wants(world, access, buf, turns, p, q, i);
    }
    lemma_access_looks(world, access, buf, turns, p, q);
    lemma_access_look(world, access, turns, p, q);
    let none = Seq::<Frame>::empty();
    let sent = Frame::Cmd52(Cmd52 { sent: true, ..access });
    assert(sending(access) =~= none.push(sent));
    lemma_turn(world, sending(access), send_at(access, SendPhase::Complete), turns, last + 3);
    lemma_turn(world, sending(access), send_at(access, SendPhase::Response), turns, last + 4);
    lemma_turn(world, none, sent, turns, last + 5);
}

/// A command line that is busy at every read allowed: nothing is ever written, and the
/// access times out.
pub proof fn law_access_never_goes_out(
    world: World,
    access: Cmd52,
    buf: Seq<u8>,
    turns: spec_fn(int) -> Turn,
)
    requires
        begins_access(world, access, buf),
        busy_for(turns, world.host.cfg.cmd_idle_polls as nat),
    ensures
        ({
            let last = poll_step(world.host.cfg.cmd_idle_polls as nat);
            &&& forall|i: nat| i < last ==> #[trigger] world.wanted(turns, i) == poll_wants(i)
            &&& world.wanted(turns, last) == Action::Again
            &&& world.wanted(turns, last + 1) == Action::Again
            &&& world.wanted(turns, last + 2) == Action::Done(Err(SdioError::Timeout))
            &&& world.after_turns(turns, last + 3).task.stack.len() == 0
        }),
{
    let polls = world.host.cfg.cmd_idle_polls as nat;
    let last = poll_step(polls);
    assert forall|i: nat| i < last implies #[trigger] world.wanted(turns, i) == poll_wants(i) by {
        lemma_poll_wants(world, access, buf, turns, polls, i);
    }
    lemma_access_polls(world, access, buf, turns, polls);
    let none = Seq::<Frame>::empty();
    let sent = Frame::Cmd52(Cmd52 { sent: true, ..access });
    assert(sending(access) =~= none.push(sent));
    lemma_turn(world, polling(access), Poll::of(PollCond::CmdIdle, 0), turns, last);
    lemma_turn(world, sending(access), send_at(access, SendPhase::Idle), turns, last + 1);
    lemma_turn(world, none, sent, turns, last + 2);
}

/// A command whose completion is not seen at any look within the wait, nor an error: the
/// access times out, and the response is not read.
pub proof fn law_access_times_out(
    world: World,
    access: Cmd52,
    buf: Seq<u8>,
    turns: spec_fn(int) -> Turn,
    p: nat,
)
    requires
        begins_access(world, access, buf),
        goes_out(world, turns, p),
        quiet_for(turns, p, (WAIT_SPINS + WAIT_YIELDS) as nat),
    ensures
        ({
            let last = look_step(p, (WAIT_SPINS + WAIT_YIELDS) as nat);
            &&& forall|i: nat|
                i < last ==> #[trigger] world.wanted(turns, i) == access_wants(access, p, i)
            &&& world.wanted(turns, last) == Action::Again
            &&& world.wanted(turns, last + 1) == Action::Again
            &&& world.wanted(turns, last + 2) == Action::Done(Err(SdioError::Timeout))
            &&& world.after_turns(turns, last + 3).task.stack.len() == 0
        }),
{
    let q = (WAIT_SPINS + WAIT_YIELDS) as nat;
    let last = look_step(p, q);
    assert forall|i: nat| i < last implies #[trigger] world.wanted(turns, i) == access_wants(
        access,
        p,
        i,
    ) by {
        lemma_access_wants(world, access, buf, turns, p, q, i);
    }
    lemma_access_looks(world, access, buf, turns, p, q);
    let none = Seq::<Frame>::empty();
    let sent = Frame::Cmd52(Cmd52 { sent: true, ..access });
    assert(sending(access) =~= none.push(sent));
    lemma_turn(world, waiting(access), wait_at(0, WaitPhase::Look), turns, last);
    lemma_turn(world, sending(access), send_at(access, SendPhase::Complete), turns, last + 1);
    lemma_turn(world, none, sent, turns, last + 2);
}

/// An access on its way to fail with `error`: the wait resets the data line, or the error
/// is handed outwards.
spec fn failing(task: TaskState, access: Cmd52, left: nat, status: u16) -> bool {
    let s = task.stack;
    let error = Err::<u32, SdioError>(error_of(status));
    let around = waiting(access);
    let failed = around.push(wait_at(left, WaitPhase::Failed { status }));
    if s.len() == 0 {
        task.inbox == error
    } else if s.len() <= 2 {
        &&& s == around.take(s.len() as int)
        &&& task.waiting is None
        &&& task.inbox == error
    } else if s.len() == 3 {
        s == failed
    } else {
        &&& s.len() == 4
        &&& s == failed.push(s[3])
        &&& s[3] is ResetDat || s[3] is Poll
    }
}

proof fn lemma_failing(
    world: World,
    access: Cmd52,
    left: nat,
    status: u16,
    turns: spec_fn(int) -> Turn,
    i: nat,
    n: nat,
)
    requires
        i <= n,
        failing(world.after_turns(turns, i).task, access, left, status),
    ensures
        failing(world.after_turns(turns, n).task, access, left, status),
    decreases n - i,
{
    if i < n {
        let task = world.after_turns(turns, i).task;
        let s = task.stack;
        let around = waiting(access);
        let wait = wait_at(left, WaitPhase::Failed { status });
        if s.len() == 4 {
            lemma_turn(world, around.push(wait), s[3], turns, i);
        } else if s.len() == 3 {
            lemma_turn(world, around, wait, turns, i);
            assert(around.take(2) =~= around);
        } else if s.len() == 2 {
            assert(around.take(2) =~= around);
            lemma_turn(world, sending(access), send_at(access, SendPhase::Complete), turns, i);
            assert(around.take(1) =~= sending(access));
        } else if s.len() == 1 {
            let none = Seq::<Frame>::empty();
            let sent = Frame::Cmd52(Cmd52 { sent: true, ..access });
            assert(around.take(1) =~= none.push(sent));
            lemma_turn(world, none, sent, turns, i);
        }
        lemma_failing(world, access, left, status, turns, i + 1, n);
    }
}

/// An error that is pending at any look within the wait, whether or not the command has
/// completed: the data line is reset, the response is not read, and whatever comes of the
/// reset, the access ends with what the status of the error stands for.
pub proof fn law_access_fails(
    world: World,
    access: Cmd52,
    buf: Seq<u8>,
    turns: spec_fn(int) -> Turn,
    p: nat,
    q: nat,
    status: u16,
    n: nat,
)
    requires
        begins_access(world, access, buf),
        goes_out(world, turns, p),
        q < WAIT_SPINS + WAIT_YIELDS,
        quiet_for(turns, p, q),
        turns(look_step(p, q) as int).irq.pending_error() == Some(status),
    ensures
        ({
            let last = look_step(p, q);
            let end = world.after_turns(turns, n).task;
            &&& forall|i: nat|
                i < last ==> #[trigger] world.wanted(turns, i) == access_wants(access, p, i)
            &&& world.wanted(turns, last) == Action::Again
            &&& world.wanted(turns, last + 1) == Action::Again
            &&& world.wanted(turns, last + 2) == Action::Io(
                Io::Write8 { off: SDHCI_SOFTWARE_RESET, value: SWRST_DAT_LINE },
            )
            &&& n > last + 1 && end.stack.len() == 0 ==> end.inbox == Err::<u32, SdioError>(
                error_of(status),
            )
            &&& n >= stack_budget(world.task.stack, world.host.cfg) ==> end.stack.len() == 0
        }),
{
    let last = look_step(p, q);
    assert forall|i: nat| i < last implies #[trigger] world.wanted(turns, i) == access_wants(
        access,
        p,
        i,
    ) by {
        lemma_access_wants(world, access, buf, turns, p, q, i);
    }
    lemma_access_looks(world, access, buf, turns, p, q);
    lemma_access_look(world, access, turns, p, q);
    let left = (WAIT_SPINS + WAIT_YIELDS - q - 1) as nat;
    let failed = waiting(access).push(wait_at(left, WaitPhase::Failed { status }));
    lemma_turn(world, failed, ResetDat::of(), turns, last + 2);
    if n > last + 1 {
        lemma_failing(world, access, left, status, turns, last + 2, n);
    }
    if n >= stack_budget(world.task.stack, world.host.cfg) {
        law_task_ends(world, turns, n);
    }
}

} // verus!
