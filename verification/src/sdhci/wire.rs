//! What the controller sees of whole operations: registers by their offset, values by their
//! bits.

use vstd::prelude::*;

use crate::bits::{bit, law_u32_bits, weight_if};
use crate::error::SdioError;
use crate::irq::{IrqFlag, SdhciIrqState};
use crate::sdhci::access::{
    access_wants, busy_at, goes_out, law_access, law_access_fails,
    lemma_turn, look_step, poll_step, quiet_at, quiet_for,
};
use crate::sdhci::command::{
    law_cmd52_argument_is_sum, law_command_kinds, law_r5_by_bits, Cmd52, SendCmd, SendPhase,
};
use crate::sdhci::buffer::{stored, word_at};
use crate::sdhci::frame::{Frame, Io, IrqOp, Out};
use crate::sdhci::host::{block_transfer, CviSdhci};
use crate::sdhci::init::{Init, InitPhase};
use crate::sdhci::task::{irq_after, irq_answer, value_read, Action, TaskState, World};
use crate::sdhci::task_run::Turn;
use crate::sdhci::transfer::{
    law_cmd53_argument_is_sum, law_plan_by_fields, law_what_can_be_opened, Cmd53, Fifo, FifoPhase,
    OpenPhase,
};
use crate::sdhci::wait::{law_error_by_bits, law_waits_by_value, Poll, PollCond};

verus! {

/// What a register is read as: as many bits as it has; nothing for anything but a read.
pub proof fn law_values_are_cut(off: u32, reply: u32, io: Io)
    ensures
        value_read(Io::Read8 { off }, reply) == reply % 0x100,
        value_read(Io::Read16 { off }, reply) == reply % 0x1_0000,
        value_read(Io::Read32 { off }, reply) == reply,
        !(io is Read8 || io is Read16 || io is Read32) ==> value_read(io, reply) == 0,
{
}

/// What requests to the interrupt state are answered and what they change: taking an error
/// tells its status, marked as one, and takes nothing else; taking a flag tells whether it was
/// up; a drop takes all of it; attaching sets the register base and nothing else.
pub proof fn law_irq_requests(irq: SdhciIrqState, flag: IrqFlag, base: usize)
    ensures
        irq_answer(irq, IrqOp::TakeError) == (if irq.error {
            0x1_0000 + irq.error_status
        } else {
            0
        }),
        irq_answer(irq, IrqOp::Take(flag)) == (if irq.flag(flag) {
            1int
        } else {
            0int
        }),
        irq_answer(irq, IrqOp::Drain) == 0,
        irq_answer(irq, IrqOp::Attach) == 0,
        irq_after(irq, IrqOp::TakeError, base) == irq.without_error(),
        irq_after(irq, IrqOp::Take(flag), base) == irq.without(flag),
        irq_after(irq, IrqOp::Drain, base) == irq.drained(),
        ({
            let after = irq_after(irq, IrqOp::Attach, base);
            &&& after.base == base
            &&& after.card_irq_callback == irq.card_irq_callback
            &&& after.cmd_complete == irq.cmd_complete
            &&& after.xfer_complete == irq.xfer_complete
            &&& after.buf_rd_ready == irq.buf_rd_ready
            &&& after.buf_wr_ready == irq.buf_wr_ready
            &&& after.error == irq.error
            &&& after.error_status == irq.error_status
        }),
{
}

/// Operations that are nested in others ask for the same as if alone; only the end of the
/// outermost of them is no end of the task.
pub proof fn law_nested_asks_as_if_alone(
    world: World,
    around: Seq<Frame>,
    nested: Seq<Frame>,
    reply: u32,
)
    requires
        nested.len() > 0,
        around.len() > 0,
    ensures
        ({
            let alone = world.with_stack(nested).wants(reply);
            let inside = world.with_stack(around + nested).wants(reply);
            inside == (if alone is Done {
                Action::Again
            } else {
                alone
            })
        }),
{
    assert((around + nested).last() == nested.last());
}

/// Read number `j` of a poll that begins with step `from` does not find what is waited for.
spec fn in_vain(cond: PollCond, turns: spec_fn(int) -> Turn, from: nat, j: nat) -> bool {
    !cond.met_by(value_read(cond.register(), turns((from + 2 * j + 1) as int).reply))
}

/// A poll on top of other operations that has been in vain `k` times.
#[verifier::rlimit(40)]
proof fn lemma_poll_run(
    world: World,
    around: Seq<Frame>,
    cond: PollCond,
    polls: u32,
    turns: spec_fn(int) -> Turn,
    from: nat,
    k: nat,
)
    requires
        world.after_turns(turns, from).task.stack == around.push(Poll::of(cond, polls)),
        around.len() > 0,
        k <= polls,
        forall|j: nat| j < k ==> #[trigger] in_vain(cond, turns, from, j),
    ensures
        world.after_turns(turns, from + 2 * k).task.stack == around.push(
            Poll::of(cond, (polls - k) as u32),
        ),
        world.after_turns(turns, from + 2 * k).host.cfg == world.after_turns(turns, from).host.cfg,
    decreases k,
{
    if k > 0 {
        let m = (k - 1) as nat;
        lemma_poll_run(world, around, cond, polls, turns, from, m);
        lemma_poll_read(world, around, cond, (polls - m) as u32, turns, from + 2 * m);
        assert(in_vain(cond, turns, from, m));
    }
}

/// One read of a poll.
#[verifier::rlimit(40)]
proof fn lemma_poll_read(
    world: World,
    around: Seq<Frame>,
    cond: PollCond,
    left: u32,
    turns: spec_fn(int) -> Turn,
    i: nat,
)
    requires
        world.after_turns(turns, i).task.stack == around.push(Poll::of(cond, left)),
        left > 0,
        around.len() > 0,
    ensures
        world.wanted(turns, i) == Action::Io(cond.register()),
        world.after_turns(turns, i + 2).host.cfg == world.after_turns(turns, i).host.cfg,
        cond.met_by(value_read(cond.register(), turns((i + 1) as int).reply)) ==> {
            &&& world.wanted(turns, i + 1) == Action::Again
            &&& world.after_turns(turns, i + 2).task.stack == around
            &&& world.after_turns(turns, i + 2).task.waiting is None
            &&& world.after_turns(turns, i + 2).task.inbox is Ok
        },
        !cond.met_by(value_read(cond.register(), turns((i + 1) as int).reply)) ==> {
            &&& world.wanted(turns, i + 1) == Action::Io(Io::Spin { times: 1 })
            &&& world.after_turns(turns, i + 2).task.stack == around.push(
                Poll::of(cond, (left - 1) as u32),
            )
        },
{
    let poll = Poll { cond, left, asked: false };
    lemma_turn(world, around, Frame::Poll(poll), turns, i);
    let asked = Poll { left: (left - 1) as u32, asked: true, ..poll };
    lemma_turn(world, around, Frame::Poll(asked), turns, i + 1);
}

/// The step of a bring-up that asks for the reset register for read number `j`; the next
/// step is told what was read.
pub open spec fn reset_step(j: nat) -> nat {
    2 * j + 2
}

/// Read number `j` of the reset register finds a bit up, whichever it is.
pub open spec fn still_in_reset(turns: spec_fn(int) -> Turn, j: nat) -> bool {
    turns((reset_step(j) + 1) as int).reply % 0x100 != 0
}

/// The bring-up begins with a reset of the whole controller, and waits until that is over:
/// as long as any bit of the reset register is up, it pauses and reads the register again.
/// It goes on to the controller only after a read of zero; if there is none within the reads
/// allowed, it ends with a timeout and has written nothing else.
pub proof fn law_bring_up_waits_for_reset(
    world: World,
    buf: Seq<u8>,
    turns: spec_fn(int) -> Turn,
    p: nat,
)
    requires
        world.task == TaskState::begins(Init::of(), buf),
        p <= world.host.cfg.reset_polls,
        forall|j: nat| j < p ==> #[trigger] still_in_reset(turns, j),
    ensures
        world.wanted(turns, 0) == Action::Io(Io::Write8 { off: 0x2F, value: 0x01 }),
        world.wanted(turns, 1) == Action::Again,
        forall|j: nat|
            j < p ==> #[trigger] world.wanted(turns, reset_step(j)) == Action::Io(
                Io::Read8 { off: 0x2F },
            ) && world.wanted(turns, reset_step(j) + 1) == Action::Io(Io::Spin { times: 1 }),
        p < world.host.cfg.reset_polls ==> {
            &&& world.wanted(turns, reset_step(p)) == Action::Io(Io::Read8 { off: 0x2F })
            &&& still_in_reset(turns, p) ==> world.wanted(turns, reset_step(p) + 1) == Action::Io(
                Io::Spin { times: 1 },
            )
            &&& !still_in_reset(turns, p) ==> {
                &&& world.wanted(turns, reset_step(p) + 1) == Action::Again
                &&& world.wanted(turns, reset_step(p) + 2) == Action::Io(Io::Read8 { off: 0x28 })
            }
        },
        p == world.host.cfg.reset_polls ==> {
            &&& world.wanted(turns, reset_step(p)) == Action::Again
            &&& world.wanted(turns, reset_step(p) + 1) == Action::Done(Err(SdioError::Timeout))
        },
{
    let none = Seq::<Frame>::empty();
    let polls = world.host.cfg.reset_polls;
    let waiting = Frame::Init(Init { phase: InitPhase::ResetDone });
    let around = none.push(waiting);
    lemma_reset_begins(world, buf, turns);
    assert forall|j: nat| j < p implies #[trigger] world.wanted(turns, reset_step(j)) == Action::Io(
        Io::Read8 { off: 0x2F },
    ) && world.wanted(turns, reset_step(j) + 1) == Action::Io(Io::Spin { times: 1 }) by {
        assert(still_in_reset(turns, j));
        lemma_reset_read(world, around, turns, j);
    }
    if p < polls {
        lemma_reset_read(world, around, turns, p);
        if !still_in_reset(turns, p) {
            lemma_turn(world, none, waiting, turns, reset_step(p) + 2);
        }
    } else {
        lemma_reset_in_vain(world, around, turns, p);
        lemma_turn(world, around, Poll::of(PollCond::ResetDone, 0), turns, reset_step(p));
        lemma_turn(world, none, waiting, turns, reset_step(p) + 1);
    }
}

proof fn lemma_reset_begins(world: World, buf: Seq<u8>, turns: spec_fn(int) -> Turn)
    requires
        world.task == TaskState::begins(Init::of(), buf),
    ensures
        world.wanted(turns, 0) == Action::Io(Io::Write8 { off: 0x2F, value: 0x01 }),
        world.wanted(turns, 1) == Action::Again,
        world.after_turns(turns, 2).host.cfg == world.host.cfg,
        world.after_turns(turns, 2).task.stack == Seq::<Frame>::empty().push(
            Frame::Init(Init { phase: InitPhase::ResetDone }),
        ).push(Poll::of(PollCond::ResetDone, world.host.cfg.reset_polls)),
{
    let none = Seq::<Frame>::empty();
    assert(world.after_turns(turns, 0) == world);
    assert(world.task.stack =~= none.push(Init::of()));
    lemma_turn(world, none, Init::of(), turns, 0);
    lemma_turn(world, none, Frame::Init(Init { phase: InitPhase::Reset }), turns, 1);
}

proof fn lemma_reset_in_vain(world: World, around: Seq<Frame>, turns: spec_fn(int) -> Turn, p: nat)
    requires
        around.len() > 0,
        world.after_turns(turns, 2).host.cfg == world.host.cfg,
        world.after_turns(turns, 2).task.stack == around.push(
            Poll::of(PollCond::ResetDone, world.host.cfg.reset_polls),
        ),
        p <= world.host.cfg.reset_polls,
        forall|j: nat| j < p ==> #[trigger] still_in_reset(turns, j),
    ensures
        world.after_turns(turns, reset_step(p)).host.cfg == world.host.cfg,
        world.after_turns(turns, reset_step(p)).task.stack == around.push(
            Poll::of(PollCond::ResetDone, (world.host.cfg.reset_polls - p) as u32),
        ),
{
    let cond = PollCond::ResetDone;
    assert forall|j: nat| j < p implies #[trigger] in_vain(cond, turns, 2, j) by {
        assert(still_in_reset(turns, j));
        law_waits_by_value(turns((reset_step(j) + 1) as int).reply % 0x100);
    }
    lemma_poll_run(world, around, cond, world.host.cfg.reset_polls, turns, 2, p);
}

#[verifier::rlimit(40)]
proof fn lemma_reset_read(world: World, around: Seq<Frame>, turns: spec_fn(int) -> Turn, p: nat)
    requires
        around.len() > 0,
        world.after_turns(turns, 2).host.cfg == world.host.cfg,
        world.after_turns(turns, 2).task.stack == around.push(
            Poll::of(PollCond::ResetDone, world.host.cfg.reset_polls),
        ),
        p < world.host.cfg.reset_polls,
        forall|j: nat| j < p ==> #[trigger] still_in_reset(turns, j),
    ensures
        world.wanted(turns, reset_step(p)) == Action::Io(Io::Read8 { off: 0x2F }),
        still_in_reset(turns, p) ==> world.wanted(turns, reset_step(p) + 1) == Action::Io(
            Io::Spin { times: 1 },
        ),
        !still_in_reset(turns, p) ==> {
            &&& world.wanted(turns, reset_step(p) + 1) == Action::Again
            &&& world.after_turns(turns, reset_step(p) + 2).task.stack == around
            &&& world.after_turns(turns, reset_step(p) + 2).task.waiting is None
            &&& world.after_turns(turns, reset_step(p) + 2).task.inbox is Ok
        },
{
    let left = (world.host.cfg.reset_polls - p) as u32;
    lemma_reset_in_vain(world, around, turns, p);
    lemma_poll_read(world, around, PollCond::ResetDone, left, turns, reset_step(p));
    law_waits_by_value(turns((reset_step(p) + 1) as int).reply % 0x100);
}

/// The step of a transfer that asks for the controller's state for read number `j`; the next
/// step is told what was read.
pub open spec fn open_step(j: nat) -> nat {
    2 * j + 6
}

/// Read number `j` of the controller's state finds the command line busy.
pub open spec fn open_busy(turns: spec_fn(int) -> Turn, j: nat) -> bool {
    turns((open_step(j) + 1) as int).reply % 2 == 1
}

/// The argument of a transfer of whole blocks of 512 bytes: direction, function, block mode,
/// whether the address runs along, the address, and as many blocks as nine bits hold.
pub open spec fn fifo_argument(func: u8, addr: u32, write: bool, inc_addr: bool, len: int) -> int {
    weight_if(write, 0x8000_0000) + (func % 8) * 0x1000_0000 + 0x0800_0000 + weight_if(
        inc_addr,
        0x0400_0000,
    ) + addr * 0x200 + len / 512 % 512
}

/// A transfer of whole blocks as the controller sees it: block size, block count and mode
/// are written; once the command line is idle, however often it was busy before, the argument
/// follows, and then command 53. Direction, function, running or fixed address, address and
/// number of blocks in the argument are those of the call, whatever the length is.
#[verifier::rlimit(40)]
pub proof fn law_transfer_goes_out(
    world: World,
    func: u8,
    addr: u32,
    write: bool,
    inc_addr: bool,
    buf: Seq<u8>,
    turns: spec_fn(int) -> Turn,
    p: nat,
)
    requires
        buf.len() <= usize::MAX,
        addr < 0x2_0000,
        buf.len() > 0,
        buf.len() as int % 512 == 0,
        world.task == TaskState::begins(
            Fifo::of(block_transfer(func, addr, write, inc_addr, buf.len() as usize)),
            buf,
        ),
        p < world.host.cfg.cmd_idle_polls,
        forall|j: nat| j < p ==> #[trigger] open_busy(turns, j),
        !open_busy(turns, p),
    ensures
        world.wanted(turns, 0) == Action::Again,
        world.wanted(turns, 1) == Action::Io(Io::Write16 { off: 0x04, value: 512 }),
        world.wanted(turns, 2) == Action::Io(
            Io::Write16 { off: 0x06, value: (buf.len() as int / 512 % 0x1_0000) as u16 },
        ),
        world.wanted(turns, 3) == Action::Io(
            Io::Write16 {
                off: 0x0C,
                value: if write {
                    0x22
                } else {
                    0x32
                },
            },
        ),
        world.wanted(turns, 4) == Action::Again,
        world.wanted(turns, 5) == Action::Again,
        forall|j: nat|
            j < p ==> #[trigger] world.wanted(turns, open_step(j)) == Action::Io(
                Io::Read32 { off: 0x24 },
            ) && world.wanted(turns, open_step(j) + 1) == Action::Io(Io::Spin { times: 1 }),
        world.wanted(turns, open_step(p)) == Action::Io(Io::Read32 { off: 0x24 }),
        world.wanted(turns, open_step(p) + 1) == Action::Again,
        world.wanted(turns, open_step(p) + 2) == Action::Again,
        world.wanted(turns, open_step(p) + 3) == Action::Io(
            Io::Write32 {
                off: 0x08,
                value: fifo_argument(func, addr, write, inc_addr, buf.len() as int) as u32,
            },
        ),
        world.wanted(turns, open_step(p) + 4) == Action::Io(
            Io::Write16 { off: 0x0E, value: 0x353A },
        ),
{
    let transfer = block_transfer(func, addr, write, inc_addr, buf.len() as usize);
    law_what_can_be_opened(transfer);
    law_cmd53_argument_is_sum(transfer);
    law_plan_by_fields(transfer);
    law_command_kinds(53);
    let none = Seq::<Frame>::empty();
    let open = Cmd53 { transfer, phase: OpenPhase::Begin };
    let f = none.push((Fifo { transfer, phase: FifoPhase::Begin }).at(FifoPhase::Open));
    assert(world.after_turns(turns, 0) == world);
    assert(world.task.stack =~= none.push(Fifo::of(transfer)));
    lemma_turn(world, none, Fifo::of(transfer), turns, 0);
    lemma_turn(world, f, Frame::Cmd53(open), turns, 1);
    lemma_turn(world, f, open.at(OpenPhase::Size), turns, 2);
    lemma_turn(world, f, open.at(OpenPhase::Count), turns, 3);
    lemma_turn(world, f, open.at(OpenPhase::Mode), turns, 4);
    let around = f.push(open.at(OpenPhase::Send));
    let send = SendCmd { index: 53, arg: transfer.argument(), phase: SendPhase::Begin };
    lemma_turn(world, around, Frame::SendCmd(send), turns, 5);
    let polling = around.push(send.at(SendPhase::Idle));
    lemma_open_polls(world, polling, turns, p);
    lemma_turn(world, around, send.at(SendPhase::Idle), turns, open_step(p) + 2);
    lemma_turn(world, around, send.at(SendPhase::Drain), turns, open_step(p) + 3);
    lemma_turn(world, around, send.at(SendPhase::Argument), turns, open_step(p) + 4);
}

#[verifier::rlimit(40)]
proof fn lemma_open_polls(world: World, polling: Seq<Frame>, turns: spec_fn(int) -> Turn, p: nat)
    requires
        polling.len() > 0,
        world.after_turns(turns, 6).host.cfg == world.host.cfg,
        world.after_turns(turns, 6).task.stack == polling.push(
            Poll::of(PollCond::CmdIdle, world.host.cfg.cmd_idle_polls),
        ),
        p < world.host.cfg.cmd_idle_polls,
        forall|j: nat| j < p ==> #[trigger] open_busy(turns, j),
        !open_busy(turns, p),
    ensures
        forall|j: nat|
            j < p ==> #[trigger] world.wanted(turns, open_step(j)) == Action::Io(
                Io::Read32 { off: 0x24 },
            ) && world.wanted(turns, open_step(j) + 1) == Action::Io(Io::Spin { times: 1 }),
        world.wanted(turns, open_step(p)) == Action::Io(Io::Read32 { off: 0x24 }),
        world.wanted(turns, open_step(p) + 1) == Action::Again,
        world.after_turns(turns, open_step(p) + 2).task.stack == polling,
        world.after_turns(turns, open_step(p) + 2).task.waiting is None,
        world.after_turns(turns, open_step(p) + 2).task.inbox is Ok,
{
    let polls = world.host.cfg.cmd_idle_polls;
    let cond = PollCond::CmdIdle;
    assert forall|j: nat| j < p implies #[trigger] in_vain(cond, turns, 6, j) by {
        assert(open_busy(turns, j));
        law_waits_by_value(turns((open_step(j) + 1) as int).reply);
    }
    assert forall|j: nat| j < p implies #[trigger] world.wanted(turns, open_step(j)) == Action::Io(
        Io::Read32 { off: 0x24 },
    ) && world.wanted(turns, open_step(j) + 1) == Action::Io(Io::Spin { times: 1 }) by {
        assert(in_vain(cond, turns, 6, j));
        lemma_poll_run(world, polling, cond, polls, turns, 6, j);
        lemma_poll_read(world, polling, cond, (polls - j) as u32, turns, 6 + 2 * j);
    }
    law_waits_by_value(turns((open_step(p) + 1) as int).reply);
    lemma_poll_run(world, polling, cond, polls, turns, 6, p);
    lemma_poll_read(world, polling, cond, (polls - p) as u32, turns, 6 + 2 * p);
}

/// A running and a fixed address make a difference of one bit, whatever the rest is; so do
/// writing and reading.
pub proof fn law_running_address_is_one_bit(func: u8, addr: u32, write: bool, inc_addr: bool, len: int)
    requires
        addr < 0x2_0000,
        len >= 0,
    ensures
        fifo_argument(func, addr, write, true, len) - fifo_argument(func, addr, write, false, len)
            == 0x0400_0000,
        fifo_argument(func, addr, true, inc_addr, len) - fifo_argument(
            func,
            addr,
            false,
            inc_addr,
            len,
        ) == 0x8000_0000,
        0 <= fifo_argument(func, addr, write, inc_addr, len) < 0x1_0000_0000,
        bit(fifo_argument(func, addr, write, inc_addr, len), 0x0400_0000) <==> inc_addr,
        bit(fifo_argument(func, addr, write, inc_addr, len), 0x8000_0000) <==> write,
{
}

/// A transfer that is not of whole blocks, or has nothing to move, or whose address does not
/// fit, is refused, and nothing is asked of the controller.
pub proof fn law_transfer_is_refused(
    world: World,
    func: u8,
    addr: u32,
    write: bool,
    inc_addr: bool,
    buf: Seq<u8>,
    turns: spec_fn(int) -> Turn,
)
    requires
        buf.len() <= usize::MAX,
        addr >= 0x2_0000 || buf.len() == 0 || buf.len() as int % 512 != 0,
        world.task == TaskState::begins(
            Fifo::of(block_transfer(func, addr, write, inc_addr, buf.len() as usize)),
            buf,
        ),
    ensures
        world.wanted(turns, 0) == Action::Again,
        world.wanted(turns, 1) == Action::Again,
        world.wanted(turns, 2) == Action::Done(Err(SdioError::Unsupported)),
{
    let transfer = block_transfer(func, addr, write, inc_addr, buf.len() as usize);
    law_what_can_be_opened(transfer);
    let none = Seq::<Frame>::empty();
    let opening = (Fifo { transfer, phase: FifoPhase::Begin }).at(FifoPhase::Open);
    assert(world.after_turns(turns, 0) == world);
    assert(world.task.stack =~= none.push(Fifo::of(transfer)));
    lemma_turn(world, none, Fifo::of(transfer), turns, 0);
    lemma_turn(world, none.push(opening), Cmd53::of(transfer), turns, 1);
    lemma_turn(world, none, opening, turns, 2);
}

/// The command line is busy for the first `p` reads of the controller's state and then idle;
/// the first `q` looks find neither an error nor the completion.
pub open spec fn access_gets_through(turns: spec_fn(int) -> Turn, p: nat, q: nat) -> bool {
    &&& forall|j: nat| j < p ==> turns((#[trigger] poll_step(j) + 1) as int).reply % 2 == 1
    &&& turns((poll_step(p) + 1) as int).reply % 2 == 0
    &&& forall|j: nat|
        j < q ==> !turns((#[trigger] look_step(p, j)) as int).irq.error && !turns(
            (look_step(p, j) + 1) as int,
        ).irq.cmd_complete
}

proof fn lemma_gets_through(world: World, turns: spec_fn(int) -> Turn, p: nat, q: nat)
    requires
        access_gets_through(turns, p, q),
        p < world.host.cfg.cmd_idle_polls,
    ensures
        goes_out(world, turns, p),
        quiet_for(turns, p, q),
{
    assert forall|j: nat| j < p implies #[trigger] busy_at(turns, j) by {
        law_u32_bits(turns((poll_step(j) + 1) as int).reply);
    }
    law_u32_bits(turns((poll_step(p) + 1) as int).reply);
    assert forall|j: nat| j < q implies #[trigger] quiet_at(turns, p, j) by {
        assert(look_step(p, j) >= 0);
    }
}

/// An access to a card register as the controller sees it: once the command line is idle,
/// the argument, which is the sum of what the access asks for, and command 52; once the
/// completion is seen, one read of the response; and the answer is what the bits of that
/// response say.
#[verifier::rlimit(40)]
pub proof fn law_access_on_the_wire(
    world: World,
    access: Cmd52,
    buf: Seq<u8>,
    turns: spec_fn(int) -> Turn,
    p: nat,
    q: nat,
)
    requires
        world.task == TaskState::begins(Frame::Cmd52(access), buf),
        !access.sent,
        access.addr < 0x2_0000,
        access.flags == 0 || access.flags == 0x8000_0000u32 || access.flags == 0x8800_0000u32,
        p < world.host.cfg.cmd_idle_polls,
        q < 101_000,
        access_gets_through(turns, p, q),
        !turns(look_step(p, q) as int).irq.error,
        turns((look_step(p, q) + 1) as int).irq.cmd_complete,
    ensures
        ({
            let last = look_step(p, q);
            let resp = turns((last + 4) as int).reply as int;
            let crc = bit(resp, 0x8000);
            let bad = bit(resp, 0x4000) || bit(resp, 0x0200) || bit(resp, 0x0100) || bit(
                resp,
                0x0800,
            );
            &&& forall|j: nat|
                j <= p ==> #[trigger] world.wanted(turns, poll_step(j)) == Action::Io(
                    Io::Read32 { off: 0x24 },
                )
            &&& world.wanted(turns, poll_step(p) + 3) == Action::Io(
                Io::Write32 {
                    off: 0x08,
                    value: (access.flags + (access.func % 8) * 0x1000_0000 + access.addr * 0x200
                        + access.value) as u32,
                },
            )
            &&& world.wanted(turns, poll_step(p) + 4) == Action::Io(
                Io::Write16 { off: 0x0E, value: 0x341A },
            )
            &&& world.wanted(turns, last + 3) == Action::Io(Io::Read32 { off: 0x10 })
            &&& crc ==> world.wanted(turns, last + 5) == Action::Done(Err(SdioError::CrcError))
            &&& !crc && bad ==> world.wanted(turns, last + 5) == Action::Done(
                Err(SdioError::IoError),
            )
            &&& !crc && !bad ==> world.wanted(turns, last + 5) == Action::Done(
                Ok((resp % 0x100) as u32),
            )
        }),
{
    lemma_gets_through(world, turns, p, q);
    law_access(world, access, buf, turns, p, q);
    law_cmd52_argument_is_sum(
        access.func,
        access.addr,
        access.flags,
        access.value,
        access.sent,
    );
    law_command_kinds(52);
    law_r5_by_bits(turns((look_step(p, q) + 4) as int).reply);
    assert(world.wanted(turns, poll_step(p) + 3) == access_wants(access, p, poll_step(p) + 3));
    assert(world.wanted(turns, poll_step(p) + 4) == access_wants(access, p, poll_step(p) + 4));
    assert forall|j: nat| j <= p implies #[trigger] world.wanted(turns, poll_step(j)) == Action::Io(
        Io::Read32 { off: 0x24 },
    ) by {
        assert(world.wanted(turns, poll_step(j)) == access_wants(access, p, poll_step(j)));
    }
}

/// An access during which the controller reports an error ends with the error that the bits
/// of its status stand for.
pub proof fn law_access_error_on_the_wire(
    world: World,
    access: Cmd52,
    buf: Seq<u8>,
    turns: spec_fn(int) -> Turn,
    p: nat,
    q: nat,
    n: nat,
)
    requires
        world.task == TaskState::begins(Frame::Cmd52(access), buf),
        !access.sent,
        access.addr < 0x2_0000,
        p < world.host.cfg.cmd_idle_polls,
        q < 101_000,
        access_gets_through(turns, p, q),
        turns(look_step(p, q) as int).irq.error,
        n > look_step(p, q) + 1,
        world.after_turns(turns, n).task.stack.len() == 0,
    ensures
        ({
            let status = turns(look_step(p, q) as int).irq.error_status as int;
            let crc = bit(status, 0x02) || bit(status, 0x20);
            let late = bit(status, 0x01) || bit(status, 0x10);
            &&& world.wanted(turns, look_step(p, q) + 2) == Action::Io(
                Io::Write8 { off: 0x2F, value: 0x04 },
            )
            &&& world.after_turns(turns, n).task.inbox == Err::<u32, SdioError>(
                if crc {
                    SdioError::CrcError
                } else if late {
                    SdioError::Timeout
                } else {
                    SdioError::IoError
                },
            )
        }),
{
    lemma_gets_through(world, turns, p, q);
    let status = turns(look_step(p, q) as int).irq.error_status;
    law_access_fails(world, access, buf, turns, p, q, status, n);
    law_error_by_bits(status);
}

/// What an operation is resumed with: where it waits for a request, what was read, whatever
/// that is; where it does not, the answer that it has been given.
pub proof fn law_what_is_handed_in(task: TaskState, reply: u32)
    ensures
        task.waiting matches Some(io) ==> task.input(reply) == Ok::<u32, SdioError>(
            value_read(io, reply),
        ),
        task.waiting is None ==> task.input(reply) == task.inbox,
{
}

/// What a step does to everything around the operation that takes it. A request is waited
/// for, and is what the runner is asked for. The interrupt state answers at once. An operation
/// that is called begins on top, and nothing else has changed. One that is over hands its
/// answer to the one around it, or to the runner, and nothing else has changed.
#[verifier::rlimit(40)]
pub proof fn law_what_a_step_does(world: World, reply: u32)
    requires
        world.task.stack.len() > 0,
    ensures
        ({
            let step = world.resumed(reply);
            let next = world.stepped(reply);
            let wants = world.wants(reply);
            let below = world.task.stack.len() - 1;
            let quiet = next.host == world.host && next.irq == world.irq && next.task.buf
                == world.task.buf;
            &&& step == world.task.stack[below].next(world.host.cfg, world.task.input(reply))
            &&& forall|i: int| 0 <= i < below ==> #[trigger] next.task.stack[i]
                == world.task.stack[i]
            &&& !(step.out is Return) ==> next.task.stack.len() > below && next.task.stack[below]
                == step.frame
            &&& !(step.out is Return) && !(step.out is Call) ==> next.task.stack.len() == below + 1
            &&& match step.out {
                Out::Io(io) => quiet && next.task.waiting == Some(io) && wants == Action::Io(io),
                Out::Irq(op) => {
                    &&& next.task.waiting is None
                    &&& next.task.inbox == Ok::<u32, SdioError>(irq_answer(world.irq, op))
                    &&& next.irq == irq_after(world.irq, op, world.host.base)
                    &&& next.host == world.host && next.task.buf == world.task.buf
                    &&& wants == Action::Again
                },
                Out::SetRca(rca) => {
                    &&& next.task.waiting is None && next.task.inbox is Ok
                    &&& next.host == (CviSdhci { rca, ..world.host })
                    &&& next.irq == world.irq && next.task.buf == world.task.buf
                    &&& wants == Action::Again
                },
                Out::SetIds { vendor, device } => {
                    &&& next.task.waiting is None && next.task.inbox is Ok
                    &&& next.host == (CviSdhci {
                        vendor_id: vendor,
                        device_id: device,
                        ..world.host
                    })
                    &&& next.irq == world.irq && next.task.buf == world.task.buf
                    &&& wants == Action::Again
                },
                Out::Store { at, word } => {
                    &&& next.task.waiting is None && next.task.inbox is Ok
                    &&& next.task.buf == stored(world.task.buf, at as int, word)
                    &&& next.host == world.host && next.irq == world.irq
                    &&& wants == Action::Again
                },
                Out::Fetch { at } => {
                    &&& quiet && next.task.waiting is None
                    &&& next.task.inbox == Ok::<u32, SdioError>(word_at(world.task.buf, at as int))
                    &&& wants == Action::Again
                },
                Out::Call(callee) => {
                    &&& quiet && next.task.waiting is None && next.task.inbox is Ok
                    &&& next.task.stack.len() == below + 2
                    &&& next.task.stack[below + 1] == callee
                    &&& wants == Action::Again
                },
                Out::Return(answer) => {
                    &&& quiet && next.task.waiting is None
                    &&& next.task.stack.len() == below
                    &&& next.task.inbox == answer
                    &&& wants == (if below == 0 {
                        Action::Done(answer)
                    } else {
                        Action::Again
                    })
                },
            }
        }),
{
}

/// A task that is over stays so, and keeps giving its answer.
pub proof fn law_over_is_over(world: World, reply: u32)
    requires
        world.task.stack.len() == 0,
    ensures
        world.stepped(reply) == world,
        world.wants(reply) == Action::Done(world.task.inbox),
{
}

} // verus!
